//! Tables and reducers of the SpacetimeDB demo module, as plain data.
//!
//! The module keeps player entities (public), player movement inputs
//! (private), inventories, game events and an optional physics timer.
//! Each reducer is a function from the tables and its arguments to the new
//! tables; a reducer that fails leaves every table unchanged, as a failed
//! transaction does. Entity and input rows are generic: the rules here are
//! about their keys, while positions and directions are the host's data.
//! Auto-incremented ids start at 1. Times are microseconds since the Unix
//! epoch, supplied by the caller.

use crate::text::push_str;
use vstd::prelude::*;

verus! {

/// Entity ids (UUIDs) as 128-bit integers.
pub type EntityId = u128;

/// A row of a table keyed by entity id.
#[derive(Debug, Clone)]
pub struct Keyed<T> {
    pub id: EntityId,
    pub row: T,
}

/// One inventory stack: `quantity` items of `item_type` owned by `owner_id`.
#[derive(Debug, Clone, Copy, PartialEq, Eq, Structural)]
pub struct Inventory {
    pub row_id: u64,
    pub owner_id: EntityId,
    pub item_type: u32,
    pub quantity: u32,
}

/// One logged interaction.
#[derive(Debug, Clone, Copy, PartialEq, Eq, Structural)]
pub struct GameEvent {
    pub event_id: u64,
    pub actor_id: EntityId,
    pub target_id: EntityId,
    pub event_type: u32,
    pub timestamp_us: i64,
}

/// The repeating schedule that runs the physics tick.
#[derive(Debug, Clone, Copy, PartialEq, Eq, Structural)]
pub struct PhysicsTimer {
    pub scheduled_id: u64,
    /// Interval between ticks, in milliseconds.
    pub interval_ms: u64,
}

/// Interval of the physics tick: 20 Hz.
pub const PHYSICS_INTERVAL_MS: u64 = 50;

/// The module's tables. `E` is an entity row, `I` a movement-input row.
pub struct ModuleDb<E, I> {
    entities: Vec<Keyed<E>>,
    inputs: Vec<Keyed<I>>,
    inventory: Vec<Inventory>,
    events: Vec<GameEvent>,
    timers: Vec<PhysicsTimer>,
    next_row_id: u64,
    next_event_id: u64,
    next_timer_id: u64,
}

/// Whether some row of `s` has key `id`.
pub open spec fn has_key<T>(s: Seq<Keyed<T>>, id: EntityId) -> bool {
    exists|i: int| 0 <= i < s.len() && s[i].id == id
}

/// Position of the row with key `id` (meaningful when there is one).
pub open spec fn key_index<T>(s: Seq<Keyed<T>>, id: EntityId) -> int {
    choose|i: int| 0 <= i < s.len() && s[i].id == id
}

/// No key occurs twice.
pub open spec fn unique_keys<T>(s: Seq<Keyed<T>>) -> bool {
    forall|i: int, j: int| 0 <= i < s.len() && 0 <= j < s.len() && i != j ==> s[i].id != s[j].id
}

/// `s` with the row for `id` replaced by `row`, or a new row appended.
pub open spec fn upserted<T>(s: Seq<Keyed<T>>, id: EntityId, row: T) -> Seq<Keyed<T>> {
    if has_key(s, id) {
        s.update(key_index(s, id), Keyed { id, row })
    } else {
        s.push(Keyed { id, row })
    }
}

/// The movement input of `id` in `inputs`, if it has one.
pub open spec fn input_of<I>(inputs: Seq<Keyed<I>>, id: EntityId) -> Option<I> {
    if has_key(inputs, id) {
        Some(inputs[key_index(inputs, id)].row)
    } else {
        None
    }
}

/// `s` without the row for `id`, if any.
pub open spec fn deleted<T>(s: Seq<Keyed<T>>, id: EntityId) -> Seq<Keyed<T>> {
    if has_key(s, id) {
        s.remove(key_index(s, id))
    } else {
        s
    }
}

/// Whether some stack of `s` is `(owner, item)`.
pub open spec fn has_stack(s: Seq<Inventory>, owner: EntityId, item: u32) -> bool {
    exists|i: int| 0 <= i < s.len() && s[i].owner_id == owner && s[i].item_type == item
}

/// Position of the `(owner, item)` stack (meaningful when there is one).
pub open spec fn stack_index(s: Seq<Inventory>, owner: EntityId, item: u32) -> int {
    choose|i: int| 0 <= i < s.len() && s[i].owner_id == owner && s[i].item_type == item
}

/// At most one stack per `(owner, item)`, row ids distinct and below the
/// next id to assign.
pub open spec fn inventory_ok(s: Seq<Inventory>, next_row_id: u64) -> bool {
    &&& forall|i: int, j: int| 0 <= i < s.len() && 0 <= j < s.len() && i != j ==>
        !(s[i].owner_id == s[j].owner_id && s[i].item_type == s[j].item_type)
    &&& forall|i: int, j: int| 0 <= i < s.len() && 0 <= j < s.len() && i != j ==> s[i].row_id != s[j].row_id
    &&& forall|i: int| 0 <= i < s.len() ==> 1 <= #[trigger] s[i].row_id < next_row_id
    &&& next_row_id >= 1
}

/// Event ids distinct and below the next id to assign.
pub open spec fn events_ok(s: Seq<GameEvent>, next_event_id: u64) -> bool {
    &&& forall|i: int, j: int| 0 <= i < s.len() && 0 <= j < s.len() && i != j ==> s[i].event_id != s[j].event_id
    &&& forall|i: int| 0 <= i < s.len() ==> 1 <= #[trigger] s[i].event_id < next_event_id
    &&& next_event_id >= 1
}

/// Quantity held of `(owner, item)`, zero without a stack.
pub open spec fn quantity_of(s: Seq<Inventory>, owner: EntityId, item: u32) -> nat {
    if has_stack(s, owner, item) {
        s[stack_index(s, owner, item)].quantity as nat
    } else {
        0
    }
}

/// The inventory after `pickup_item` succeeded: the stack grows by
/// `quantity`, or a new stack with the next row id is appended.
pub open spec fn picked_up(s: Seq<Inventory>, next_row_id: u64, owner: EntityId, item: u32, quantity: u32) -> Seq<Inventory> {
    if has_stack(s, owner, item) {
        let i = stack_index(s, owner, item);
        s.update(i, Inventory { quantity: (s[i].quantity + quantity) as u32, ..s[i] })
    } else {
        s.push(Inventory { row_id: next_row_id, owner_id: owner, item_type: item, quantity })
    }
}

/// The inventory after `use_item`: one unit less, the stack gone when it
/// held at most one.
pub open spec fn used(s: Seq<Inventory>, owner: EntityId, item: u32) -> Seq<Inventory> {
    if has_stack(s, owner, item) {
        let i = stack_index(s, owner, item);
        if s[i].quantity > 1 {
            s.update(i, Inventory { quantity: (s[i].quantity - 1) as u32, ..s[i] })
        } else {
            s.remove(i)
        }
    } else {
        s
    }
}

/// The retention cutoff of `cleanup_old_events`, when it fits an `i64`.
pub open spec fn cutoff_of(now_us: i64, max_age_secs: u64) -> Option<i64> {
    if max_age_secs * 1_000_000 > i64::MAX || now_us - max_age_secs * 1_000_000 < i64::MIN {
        None
    } else {
        Some((now_us - max_age_secs * 1_000_000) as i64)
    }
}

/// Text of the error of a reducer whose arithmetic would overflow.
pub open spec fn overflow_message() -> Seq<char> {
    "arithmetic overflow"@
}

/// Text of the error of `set_entities` given two rows with one id.
pub open spec fn duplicate_message() -> Seq<char> {
    "duplicate entity_id"@
}

fn overflow_error() -> (m: String)
    ensures
        m@ == overflow_message(),
{
    let mut m = String::new();
    push_str(&mut m, "arithmetic overflow");
    m
}

impl<E, I> ModuleDb<E, I> {
    pub closed spec fn entities(&self) -> Seq<Keyed<E>> {
        self.entities@
    }

    pub closed spec fn inputs(&self) -> Seq<Keyed<I>> {
        self.inputs@
    }

    pub closed spec fn inventory(&self) -> Seq<Inventory> {
        self.inventory@
    }

    pub closed spec fn events(&self) -> Seq<GameEvent> {
        self.events@
    }

    pub closed spec fn timers(&self) -> Seq<PhysicsTimer> {
        self.timers@
    }

    pub closed spec fn next_row_id(&self) -> u64 {
        self.next_row_id
    }

    pub closed spec fn next_event_id(&self) -> u64 {
        self.next_event_id
    }

    pub closed spec fn next_timer_id(&self) -> u64 {
        self.next_timer_id
    }

    /// Primary keys are unique in every table.
    pub closed spec fn wf(&self) -> bool {
        &&& unique_keys(self.entities@)
        &&& unique_keys(self.inputs@)
        &&& inventory_ok(self.inventory@, self.next_row_id)
        &&& events_ok(self.events@, self.next_event_id)
        &&& self.next_timer_id >= 1
    }

    /// In well-formed tables each entity id has at most one entity row and
    /// at most one input row.
    pub proof fn lemma_unique_keys(&self)
        requires
            self.wf(),
        ensures
            unique_keys(self.entities()),
            unique_keys(self.inputs()),
    {
    }

    /// Empty tables.
    pub fn new() -> (db: Self)
        ensures
            db.wf(),
            db.entities() == Seq::<Keyed<E>>::empty(),
            db.inputs() == Seq::<Keyed<I>>::empty(),
            db.inventory() == Seq::<Inventory>::empty(),
            db.events() == Seq::<GameEvent>::empty(),
            db.timers() == Seq::<PhysicsTimer>::empty(),
            db.next_row_id() == 1,
            db.next_event_id() == 1,
            db.next_timer_id() == 1,
    {
        ModuleDb {
            entities: Vec::new(),
            inputs: Vec::new(),
            inventory: Vec::new(),
            events: Vec::new(),
            timers: Vec::new(),
            next_row_id: 1,
            next_event_id: 1,
            next_timer_id: 1,
        }
    }

    /// Runs once when the module is published: with server physics, the
    /// physics timer is scheduled every `PHYSICS_INTERVAL_MS`.
    pub fn init(&mut self, server_physics: bool) -> (r: Result<(), String>)
        requires
            old(self).wf(),
        ensures
            final(self).wf(),
            final(self).entities() == old(self).entities(),
            final(self).inputs() == old(self).inputs(),
            final(self).inventory() == old(self).inventory(),
            final(self).events() == old(self).events(),
            final(self).next_row_id() == old(self).next_row_id(),
            final(self).next_event_id() == old(self).next_event_id(),
            !server_physics ==> r is Ok && final(self).timers() == old(self).timers()
                && final(self).next_timer_id() == old(self).next_timer_id(),
            server_physics && old(self).next_timer_id() < u64::MAX ==> r is Ok
                && final(self).timers() == old(self).timers().push(
                PhysicsTimer { scheduled_id: old(self).next_timer_id(), interval_ms: PHYSICS_INTERVAL_MS },
            ) && final(self).next_timer_id() == old(self).next_timer_id() + 1,
            server_physics && old(self).next_timer_id() == u64::MAX ==> r is Err && r->Err_0@
                == overflow_message() && final(self).timers() == old(self).timers()
                && final(self).next_timer_id() == old(self).next_timer_id(),
    {
        if server_physics {
            if self.next_timer_id == u64::MAX {
                return Err(overflow_error());
            }
            self.timers.push(PhysicsTimer { scheduled_id: self.next_timer_id, interval_ms: PHYSICS_INTERVAL_MS });
            self.next_timer_id = self.next_timer_id + 1;
        }
        Ok(())
    }
}

/// Position of the row with key `id` in `v`, if any.
fn find_key<T>(v: &Vec<Keyed<T>>, id: EntityId) -> (r: Option<usize>)
    requires
        unique_keys(v@),
    ensures
        r is None <==> !has_key(v@, id),
        r matches Some(i) ==> i < v@.len() && v@[i as int].id == id && key_index(v@, id) == i,
{
    let mut i: usize = 0;
    while i < v.len()
        invariant
            unique_keys(v@),
            i <= v.len(),
            forall|k: int| 0 <= k < i ==> v@[k].id != id,
        decreases v.len() - i,
    {
        if v[i].id == id {
            proof {
                let c = key_index(v@, id);
                assert(0 <= c < v@.len() && v@[c].id == id);
                if c != i {
                    assert(v@[c].id != v@[i as int].id);
                }
            }
            return Some(i);
        }
        i += 1;
    }
    None
}

/// Inserts or replaces the row for `id`.
fn upsert_row<T>(v: &mut Vec<Keyed<T>>, id: EntityId, row: T)
    requires
        unique_keys(old(v)@),
    ensures
        unique_keys(final(v)@),
        final(v)@ == upserted(old(v)@, id, row),
{
    match find_key(v, id) {
        Some(i) => {
            v.set(i, Keyed { id, row });
        },
        None => {
            v.push(Keyed { id, row });
            proof {
                assert forall|a: int, b: int|
                    0 <= a < v@.len() && 0 <= b < v@.len() && a != b implies v@[a].id != v@[b].id by {
                    if a < old(v)@.len() && b < old(v)@.len() {
                    } else if a < old(v)@.len() {
                        assert(old(v)@[a].id != id);
                    } else {
                        assert(old(v)@[b].id != id);
                    }
                }
            }
        },
    }
}

/// Removes the row for `id`, if any.
fn delete_row<T>(v: &mut Vec<Keyed<T>>, id: EntityId)
    requires
        unique_keys(old(v)@),
    ensures
        unique_keys(final(v)@),
        final(v)@ == deleted(old(v)@, id),
{
    match find_key(v, id) {
        Some(i) => {
            let _ = v.remove(i);
            proof {
                let o = old(v)@;
                assert forall|a: int, b: int|
                    0 <= a < v@.len() && 0 <= b < v@.len() && a != b implies v@[a].id != v@[b].id by {
                    let oa = if a < i { a } else { a + 1 };
                    let ob = if b < i { b } else { b + 1 };
                    assert(v@[a] == o[oa]);
                    assert(v@[b] == o[ob]);
                }
            }
        },
        None => {},
    }
}

/// Whether no key occurs twice in `v`.
fn keys_unique<T>(v: &Vec<Keyed<T>>) -> (b: bool)
    ensures
        b == unique_keys(v@),
{
    let mut i: usize = 0;
    while i < v.len()
        invariant
            i <= v.len(),
            forall|a: int, b: int| 0 <= a < i && 0 <= b < v@.len() && a != b ==> v@[a].id != v@[b].id,
        decreases v.len() - i,
    {
        let mut j: usize = 0;
        while j < v.len()
            invariant
                i < v.len(),
                j <= v.len(),
                forall|b: int| 0 <= b < j && b != i ==> v@[i as int].id != v@[b].id,
            decreases v.len() - j,
        {
            if j != i && v[i].id == v[j].id {
                return false;
            }
            j += 1;
        }
        i += 1;
    }
    true
}

impl<E, I: Copy> ModuleDb<E, I> {
    /// The scheduled physics tick: every entity row is replaced by what
    /// `step` makes of it and of the entity's movement input (`None` when
    /// it has none), in table order; ids and every other table stay.
    pub fn physics_tick<F: Fn(&E, Option<I>) -> E>(&mut self, step: F) -> (r: Result<(), String>)
        requires
            old(self).wf(),
            forall|e: &E, i: Option<I>| call_requires(step, (e, i)),
        ensures
            final(self).wf(),
            r is Ok,
            final(self).entities().len() == old(self).entities().len(),
            forall|k: int|
                0 <= k < old(self).entities().len() ==> #[trigger] final(self).entities()[k].id
                    == old(self).entities()[k].id && call_ensures(
                    step,
                    (&old(self).entities()[k].row, input_of(old(self).inputs(), old(self).entities()[k].id)),
                    final(self).entities()[k].row,
                ),
            final(self).inputs() == old(self).inputs(),
            final(self).inventory() == old(self).inventory(),
            final(self).events() == old(self).events(),
            final(self).timers() == old(self).timers(),
            final(self).next_row_id() == old(self).next_row_id(),
            final(self).next_event_id() == old(self).next_event_id(),
            final(self).next_timer_id() == old(self).next_timer_id(),
    {
        let ghost start = self.entities@;
        let n = self.entities.len();
        let mut k: usize = 0;
        while k < n
            invariant
                forall|e: &E, i: Option<I>| call_requires(step, (e, i)),
                n == start.len(),
                k <= n,
                self.entities@.len() == n,
                unique_keys(self.inputs@),
                forall|j: int| 0 <= j < n ==> #[trigger] self.entities@[j].id == start[j].id,
                forall|j: int| k <= j < n ==> #[trigger] self.entities@[j] == start[j],
                forall|j: int|
                    0 <= j < k ==> call_ensures(
                        step,
                        (&start[j].row, input_of(self.inputs@, start[j].id)),
                        #[trigger] self.entities@[j].row,
                    ),
                self.inputs@ == old(self).inputs@,
                self.inventory@ == old(self).inventory@,
                self.events@ == old(self).events@,
                self.timers@ == old(self).timers@,
                self.next_row_id == old(self).next_row_id,
                self.next_event_id == old(self).next_event_id,
                self.next_timer_id == old(self).next_timer_id,
            decreases n - k,
        {
            let id = self.entities[k].id;
            let input = match find_key(&self.inputs, id) {
                Some(j) => Some(self.inputs[j].row),
                None => None,
            };
            let row = step(&self.entities[k].row, input);
            self.entities.set(k, Keyed { id, row });
            k += 1;
        }
        proof {
            assert forall|a: int, b: int|
                0 <= a < self.entities@.len() && 0 <= b < self.entities@.len() && a != b implies self.entities@[a].id
                != self.entities@[b].id by {
                assert(self.entities@[a].id == start[a].id);
                assert(self.entities@[b].id == start[b].id);
            }
        }
        Ok(())
    }
}

/// Position of the `(owner, item)` stack in `v`, if any.
fn find_stack(v: &Vec<Inventory>, owner: EntityId, item: u32, next_row_id: u64) -> (r: Option<usize>)
    requires
        inventory_ok(v@, next_row_id),
    ensures
        r is None <==> !has_stack(v@, owner, item),
        r matches Some(i) ==> i < v@.len() && v@[i as int].owner_id == owner && v@[i as int].item_type == item
            && stack_index(v@, owner, item) == i,
{
    let mut i: usize = 0;
    while i < v.len()
        invariant
            inventory_ok(v@, next_row_id),
            i <= v.len(),
            forall|k: int| 0 <= k < i ==> !(v@[k].owner_id == owner && v@[k].item_type == item),
        decreases v.len() - i,
    {
        if v[i].owner_id == owner && v[i].item_type == item {
            proof {
                let c = stack_index(v@, owner, item);
                assert(0 <= c < v@.len() && v@[c].owner_id == owner && v@[c].item_type == item);
            }
            return Some(i);
        }
        i += 1;
    }
    None
}

impl<E, I> ModuleDb<E, I> {
    /// Inserts or replaces the entity row of `id` (initial spawn, and every
    /// tick when clients move themselves).
    pub fn update_player(&mut self, id: EntityId, entity: E) -> (r: Result<(), String>)
        requires
            old(self).wf(),
        ensures
            final(self).wf(),
            r is Ok,
            final(self).entities() == upserted(old(self).entities(), id, entity),
            has_key(final(self).entities(), id),
            final(self).entities()[key_index(final(self).entities(), id)].row == entity,
            final(self).inputs() == old(self).inputs(),
            final(self).inventory() == old(self).inventory(),
            final(self).events() == old(self).events(),
            final(self).timers() == old(self).timers(),
    {
        proof {
            law_upsert_then_read(old(self).entities@, id, entity);
        }
        upsert_row(&mut self.entities, id, entity);
        Ok(())
    }

    /// Inserts or replaces the movement input of `id`; entities are not
    /// touched until the next physics tick.
    pub fn update_player_input(&mut self, id: EntityId, input: I) -> (r: Result<(), String>)
        requires
            old(self).wf(),
        ensures
            final(self).wf(),
            r is Ok,
            final(self).inputs() == upserted(old(self).inputs(), id, input),
            has_key(final(self).inputs(), id),
            final(self).inputs()[key_index(final(self).inputs(), id)].row == input,
            final(self).entities() == old(self).entities(),
            final(self).inventory() == old(self).inventory(),
            final(self).events() == old(self).events(),
            final(self).timers() == old(self).timers(),
    {
        proof {
            law_upsert_then_read(old(self).inputs@, id, input);
        }
        upsert_row(&mut self.inputs, id, input);
        Ok(())
    }

    /// Removes the entity of `id` and its movement input.
    pub fn remove_player_by_id(&mut self, id: EntityId) -> (r: Result<(), String>)
        requires
            old(self).wf(),
        ensures
            final(self).wf(),
            r is Ok,
            final(self).entities() == deleted(old(self).entities(), id),
            final(self).inputs() == deleted(old(self).inputs(), id),
            !has_key(final(self).entities(), id),
            !has_key(final(self).inputs(), id),
            final(self).inventory() == old(self).inventory(),
            final(self).events() == old(self).events(),
            final(self).timers() == old(self).timers(),
    {
        proof {
            law_removed_player_is_gone(old(self).entities@, id);
            law_removed_player_is_gone(old(self).inputs@, id);
        }
        delete_row(&mut self.entities, id);
        delete_row(&mut self.inputs, id);
        Ok(())
    }

    /// Replaces every entity by `entities`. Two rows with one id fail the
    /// reducer and change nothing.
    pub fn set_entities(&mut self, entities: Vec<Keyed<E>>) -> (r: Result<(), String>)
        requires
            old(self).wf(),
        ensures
            final(self).wf(),
            unique_keys(entities@) ==> r is Ok && final(self).entities() == entities@,
            !unique_keys(entities@) ==> r is Err && r->Err_0@ == duplicate_message()
                && final(self).entities() == old(self).entities(),
            final(self).inputs() == old(self).inputs(),
            final(self).inventory() == old(self).inventory(),
            final(self).events() == old(self).events(),
            final(self).timers() == old(self).timers(),
    {
        if !keys_unique(&entities) {
            let mut m = String::new();
            push_str(&mut m, "duplicate entity_id");
            return Err(m);
        }
        self.entities = entities;
        Ok(())
    }

    /// The movement input of `id`, if any: what the physics tick applies to
    /// that entity.
    pub fn input_for(&self, id: EntityId) -> (r: Option<&I>)
        requires
            self.wf(),
        ensures
            r is None <==> !has_key(self.inputs(), id),
            r matches Some(x) ==> *x == self.inputs()[key_index(self.inputs(), id)].row,
    {
        match find_key(&self.inputs, id) {
            Some(i) => Some(&self.inputs[i].row),
            None => None,
        }
    }

    /// The inventory stacks, in table order.
    pub fn inventory_rows(&self) -> (r: Vec<Inventory>)
        ensures
            r@ == self.inventory(),
    {
        self.inventory.clone()
    }

    /// The logged events, in table order.
    pub fn event_rows(&self) -> (r: Vec<GameEvent>)
        ensures
            r@ == self.events(),
    {
        self.events.clone()
    }

    /// The scheduled timers, in table order.
    pub fn timer_rows(&self) -> (r: Vec<PhysicsTimer>)
        ensures
            r@ == self.timers(),
    {
        self.timers.clone()
    }

    /// The entity rows, in table order.
    pub fn entity_rows(&self) -> (r: &Vec<Keyed<E>>)
        ensures
            r@ == self.entities(),
    {
        &self.entities
    }


    /// Adds `quantity` items of `item_type` to `owner_id`'s stack, or
    /// starts a stack. A stack that would exceed `u32::MAX`, or a row id
    /// sequence at its end, fails the reducer and changes nothing.
    pub fn pickup_item(&mut self, owner_id: EntityId, item_type: u32, quantity: u32) -> (r: Result<(), String>)
        requires
            old(self).wf(),
        ensures
            final(self).wf(),
            ({
                let s = old(self).inventory();
                let fits = if has_stack(s, owner_id, item_type) {
                    quantity_of(s, owner_id, item_type) + quantity <= u32::MAX
                } else {
                    old(self).next_row_id() < u64::MAX
                };
                &&& fits ==> r is Ok && final(self).inventory() == picked_up(
                    s,
                    old(self).next_row_id(),
                    owner_id,
                    item_type,
                    quantity,
                ) && final(self).next_row_id() == if has_stack(s, owner_id, item_type) {
                    old(self).next_row_id()
                } else {
                    (old(self).next_row_id() + 1) as u64
                }
                &&& !fits ==> r is Err && r->Err_0@ == overflow_message() && final(self).inventory() == s
                    && final(self).next_row_id() == old(self).next_row_id()
            }),
            final(self).entities() == old(self).entities(),
            final(self).inputs() == old(self).inputs(),
            final(self).events() == old(self).events(),
            final(self).timers() == old(self).timers(),
    {
        match find_stack(&self.inventory, owner_id, item_type, self.next_row_id) {
            Some(i) => {
                let row = self.inventory[i];
                if row.quantity > u32::MAX - quantity {
                    return Err(overflow_error());
                }
                self.inventory.set(i, Inventory { quantity: row.quantity + quantity, ..row });
                Ok(())
            },
            None => {
                if self.next_row_id == u64::MAX {
                    return Err(overflow_error());
                }
                let ghost o = self.inventory@;
                self.inventory.push(
                    Inventory { row_id: self.next_row_id, owner_id, item_type, quantity },
                );
                self.next_row_id = self.next_row_id + 1;
                proof {
                    let s = self.inventory@;
                    assert forall|a: int, b: int| 0 <= a < s.len() && 0 <= b < s.len() && a != b implies
                        !(s[a].owner_id == s[b].owner_id && s[a].item_type == s[b].item_type) by {
                        if a == o.len() {
                            assert(!(o[b].owner_id == owner_id && o[b].item_type == item_type));
                        } else if b == o.len() {
                            assert(!(o[a].owner_id == owner_id && o[a].item_type == item_type));
                        }
                    }
                    assert forall|a: int, b: int| 0 <= a < s.len() && 0 <= b < s.len() && a != b implies
                        s[a].row_id != s[b].row_id by {
                        if a == o.len() {
                            assert(o[b].row_id < self.next_row_id - 1);
                        } else if b == o.len() {
                            assert(o[a].row_id < self.next_row_id - 1);
                        }
                    }
                    assert forall|a: int| 0 <= a < s.len() implies 1 <= #[trigger] s[a].row_id < self.next_row_id by {
                        if a < o.len() {
                            assert(o[a].row_id < self.next_row_id - 1);
                        }
                    }
                }
                Ok(())
            },
        }
    }

    /// Consumes one unit of `owner_id`'s `item_type`; the stack is removed
    /// when it held at most one. Without a stack nothing changes.
    pub fn use_item(&mut self, owner_id: EntityId, item_type: u32) -> (r: Result<(), String>)
        requires
            old(self).wf(),
        ensures
            final(self).wf(),
            r is Ok,
            final(self).inventory() == used(old(self).inventory(), owner_id, item_type),
            final(self).next_row_id() == old(self).next_row_id(),
            final(self).entities() == old(self).entities(),
            final(self).inputs() == old(self).inputs(),
            final(self).events() == old(self).events(),
            final(self).timers() == old(self).timers(),
    {
        match find_stack(&self.inventory, owner_id, item_type, self.next_row_id) {
            Some(i) => {
                let row = self.inventory[i];
                if row.quantity > 1 {
                    self.inventory.set(i, Inventory { quantity: row.quantity - 1, ..row });
                } else {
                    let ghost o = self.inventory@;
                    let _ = self.inventory.remove(i);
                    proof {
                        let s = self.inventory@;
                        assert forall|a: int, b: int| 0 <= a < s.len() && 0 <= b < s.len() && a != b implies
                            !(s[a].owner_id == s[b].owner_id && s[a].item_type == s[b].item_type) by {
                            let oa = if a < i { a } else { a + 1 };
                            let ob = if b < i { b } else { b + 1 };
                            assert(s[a] == o[oa]);
                            assert(s[b] == o[ob]);
                        }
                        assert forall|a: int, b: int| 0 <= a < s.len() && 0 <= b < s.len() && a != b implies
                            s[a].row_id != s[b].row_id by {
                            let oa = if a < i { a } else { a + 1 };
                            let ob = if b < i { b } else { b + 1 };
                            assert(s[a] == o[oa]);
                            assert(s[b] == o[ob]);
                        }
                        assert forall|a: int| 0 <= a < s.len() implies 1 <= #[trigger] s[a].row_id < self.next_row_id by {
                            let oa = if a < i { a } else { a + 1 };
                            assert(s[a] == o[oa]);
                        }
                    }
                }
                Ok(())
            },
            None => Ok(()),
        }
    }

    /// Logs an interaction of `actor_id` with `target_id`, stamped `now_us`.
    /// An event id sequence at its end fails the reducer.
    pub fn player_interact(&mut self, actor_id: EntityId, target_id: EntityId, event_type: u32, now_us: i64) -> (r: Result<(), String>)
        requires
            old(self).wf(),
        ensures
            final(self).wf(),
            old(self).next_event_id() < u64::MAX ==> r is Ok && final(self).events() == old(self).events().push(
                GameEvent { event_id: old(self).next_event_id(), actor_id, target_id, event_type, timestamp_us: now_us },
            ) && final(self).next_event_id() == old(self).next_event_id() + 1,
            old(self).next_event_id() == u64::MAX ==> r is Err && r->Err_0@ == overflow_message()
                && final(self).events() == old(self).events() && final(self).next_event_id() == old(self).next_event_id(),
            final(self).entities() == old(self).entities(),
            final(self).inputs() == old(self).inputs(),
            final(self).inventory() == old(self).inventory(),
            final(self).timers() == old(self).timers(),
    {
        if self.next_event_id == u64::MAX {
            return Err(overflow_error());
        }
        let ghost o = self.events@;
        self.events.push(GameEvent { event_id: self.next_event_id, actor_id, target_id, event_type, timestamp_us: now_us });
        self.next_event_id = self.next_event_id + 1;
        proof {
            let s = self.events@;
            assert forall|a: int, b: int| 0 <= a < s.len() && 0 <= b < s.len() && a != b implies
                s[a].event_id != s[b].event_id by {
                if a == o.len() {
                    assert(o[b].event_id < self.next_event_id - 1);
                } else if b == o.len() {
                    assert(o[a].event_id < self.next_event_id - 1);
                }
            }
            assert forall|a: int| 0 <= a < s.len() implies 1 <= #[trigger] s[a].event_id < self.next_event_id by {
                if a < o.len() {
                    assert(o[a].event_id < self.next_event_id - 1);
                }
            }
        }
        Ok(())
    }

    /// Deletes the events stamped more than `max_age_secs` before `now_us`
    /// (strictly older than the cutoff), keeping the others in order. A
    /// cutoff outside the `i64` range fails the reducer.
    pub fn cleanup_old_events(&mut self, max_age_secs: u64, now_us: i64) -> (r: Result<(), String>)
        requires
            old(self).wf(),
        ensures
            final(self).wf(),
            cutoff_of(now_us, max_age_secs) matches Some(cutoff) ==> r is Ok && final(self).events()
                == old(self).events().filter(|e: GameEvent| e.timestamp_us >= cutoff),
            cutoff_of(now_us, max_age_secs) is None ==> r is Err && r->Err_0@ == overflow_message()
                && final(self).events() == old(self).events(),
            final(self).next_event_id() == old(self).next_event_id(),
            final(self).entities() == old(self).entities(),
            final(self).inputs() == old(self).inputs(),
            final(self).inventory() == old(self).inventory(),
            final(self).timers() == old(self).timers(),
    {
        if max_age_secs > (i64::MAX as u64) / 1_000_000 {
            return Err(overflow_error());
        }
        let age_us: i64 = (max_age_secs * 1_000_000) as i64;
        if now_us < i64::MIN + age_us {
            return Err(overflow_error());
        }
        let cutoff = now_us - age_us;
        let ghost pred = |e: GameEvent| e.timestamp_us >= cutoff;
        let ghost o = self.events@;
        let mut kept: Vec<GameEvent> = Vec::new();
        let mut i: usize = 0;
        while i < self.events.len()
            invariant
                self.events@ == o,
                events_ok(o, self.next_event_id),
                pred == (|e: GameEvent| e.timestamp_us >= cutoff),
                i <= o.len(),
                kept@ == o.take(i as int).filter(pred),
                forall|a: int| 0 <= a < kept@.len() ==> exists|k: int| 0 <= k < i && #[trigger] kept@[a] == o[k],
                events_ok(kept@, self.next_event_id),
            decreases o.len() - i,
        {
            proof {
                crate::seqs::lemma_filter_take_step(o, pred, i as int);
            }
            let e = self.events[i];
            if e.timestamp_us >= cutoff {
                let ghost before = kept@;
                kept.push(e);
                proof {
                    let s = kept@;
                    assert forall|a: int| 0 <= a < s.len() implies exists|k: int| 0 <= k < i + 1 && #[trigger] s[a] == o[k] by {
                        if a < before.len() {
                            assert(s[a] == before[a]);
                        } else {
                            assert(s[a] == o[i as int]);
                        }
                    }
                    assert forall|a: int, b: int| 0 <= a < s.len() && 0 <= b < s.len() && a != b implies
                        s[a].event_id != s[b].event_id by {
                        if a == before.len() {
                            assert(s[b] == before[b]);
                            let k = choose|k: int| 0 <= k < i && #[trigger] before[b] == o[k];
                            assert(o[k].event_id != o[i as int].event_id);
                        } else if b == before.len() {
                            assert(s[a] == before[a]);
                            let k = choose|k: int| 0 <= k < i && #[trigger] before[a] == o[k];
                            assert(o[k].event_id != o[i as int].event_id);
                        } else {
                            assert(s[a] == before[a]);
                            assert(s[b] == before[b]);
                        }
                    }
                    assert forall|a: int| 0 <= a < s.len() implies 1 <= #[trigger] s[a].event_id < self.next_event_id by {
                        if a < before.len() {
                            assert(s[a] == before[a]);
                        } else {
                            assert(s[a] == o[i as int]);
                        }
                    }
                }
            }
            i += 1;
        }
        proof {
            assert(o.take(o.len() as int) =~= o);
        }
        self.events = kept;
        Ok(())
    }
}

/// In an inventory with one stack per `(owner, item)`, the stack found by
/// `stack_index` is the one at any position that holds `(owner, item)`.
pub proof fn lemma_stack_index_unique(s: Seq<Inventory>, n: u64, owner: EntityId, item: u32, i: int)
    requires
        inventory_ok(s, n),
        0 <= i < s.len(),
        s[i].owner_id == owner,
        s[i].item_type == item,
    ensures
        stack_index(s, owner, item) == i,
{
    let c = stack_index(s, owner, item);
    assert(0 <= c < s.len() && s[c].owner_id == owner && s[c].item_type == item);
}

/// Picking up one item and then using one leaves the inventory exactly as
/// it was (the stack is created and removed again, or grows and shrinks
/// back), unless the stack held zero items.
pub proof fn law_use_undoes_pickup_of_one(s: Seq<Inventory>, next_row_id: u64, owner: EntityId, item: u32)
    requires
        inventory_ok(s, next_row_id),
        next_row_id < u64::MAX,
        has_stack(s, owner, item) ==> 1 <= quantity_of(s, owner, item) < u32::MAX,
    ensures
        used(picked_up(s, next_row_id, owner, item, 1), owner, item) == s,
{
    let p = picked_up(s, next_row_id, owner, item, 1);
    if has_stack(s, owner, item) {
        let i = stack_index(s, owner, item);
        assert(has_stack(p, owner, item)) by {
            assert(p[i].owner_id == owner && p[i].item_type == item);
        }
        assert forall|a: int, b: int| 0 <= a < p.len() && 0 <= b < p.len() && a != b implies
            !(p[a].owner_id == p[b].owner_id && p[a].item_type == p[b].item_type) by {
            assert(p[a].owner_id == s[a].owner_id && p[a].item_type == s[a].item_type);
            assert(p[b].owner_id == s[b].owner_id && p[b].item_type == s[b].item_type);
        }
        assert forall|a: int, b: int| 0 <= a < p.len() && 0 <= b < p.len() && a != b implies
            p[a].row_id != p[b].row_id by {
            assert(p[a].row_id == s[a].row_id);
            assert(p[b].row_id == s[b].row_id);
        }
        assert forall|a: int| 0 <= a < p.len() implies 1 <= #[trigger] p[a].row_id < next_row_id by {
            assert(p[a].row_id == s[a].row_id);
        }
        lemma_stack_index_unique(p, next_row_id, owner, item, i);
        assert(used(p, owner, item) =~= s);
    } else {
        let i = s.len() as int;
        assert(p[i].owner_id == owner && p[i].item_type == item);
        assert(has_stack(p, owner, item));
        assert forall|a: int, b: int| 0 <= a < p.len() && 0 <= b < p.len() && a != b implies
            !(p[a].owner_id == p[b].owner_id && p[a].item_type == p[b].item_type) by {
            if a == i {
                assert(!(s[b].owner_id == owner && s[b].item_type == item));
            } else if b == i {
                assert(!(s[a].owner_id == owner && s[a].item_type == item));
            }
        }
        assert forall|a: int, b: int| 0 <= a < p.len() && 0 <= b < p.len() && a != b implies
            p[a].row_id != p[b].row_id by {
            if a == i {
                assert(s[b].row_id < next_row_id);
            } else if b == i {
                assert(s[a].row_id < next_row_id);
            }
        }
        assert forall|a: int| 0 <= a < p.len() implies 1 <= #[trigger] p[a].row_id < next_row_id + 1 by {
        }
        lemma_stack_index_unique(p, (next_row_id + 1) as u64, owner, item, i);
        assert(used(p, owner, item) =~= s);
    }
}

/// After a player is removed, neither the entity table nor the input table
/// holds a row for it.
pub proof fn law_removed_player_is_gone<T>(s: Seq<Keyed<T>>, id: EntityId)
    requires
        unique_keys(s),
    ensures
        !has_key(deleted(s, id), id),
{
    if has_key(s, id) {
        let i = key_index(s, id);
        let d = s.remove(i);
        if has_key(d, id) {
            let k = choose|k: int| 0 <= k < d.len() && d[k].id == id;
            let ok = if k < i { k } else { k + 1 };
            assert(d[k] == s[ok]);
        }
    }
}

/// A row written with `update_player` is the one read back for its id.
pub proof fn law_upsert_then_read<T>(s: Seq<Keyed<T>>, id: EntityId, row: T)
    requires
        unique_keys(s),
    ensures
        has_key(upserted(s, id, row), id),
        upserted(s, id, row)[key_index(upserted(s, id, row), id)].row == row,
{
    let u = upserted(s, id, row);
    let i = if has_key(s, id) { key_index(s, id) } else { s.len() as int };
    assert(u[i].id == id);
    assert(has_key(u, id));
    let c = key_index(u, id);
    if c != i {
        if has_key(s, id) {
            assert(u[c] == s[c]);
            assert(s[c].id == s[i].id);
        } else {
            assert(u[c] == s[c]);
        }
    }
}

} // verus!
