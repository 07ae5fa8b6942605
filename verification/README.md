# arcane_swarm

A headless client swarm that load-tests SpacetimeDB and Arcane game
backends, and the orchestrator that coordinates many swarm drivers.

- `src/` is the verified library (Verus). It holds the logic of both
  programs: the orchestrator's driver pool, command dispatcher, telemetry
  snapshots, stats retention, HTTP routing, archive naming and argument
  reading; the tier ramp state machine and validity gate; the driver's
  metrics, burst schedule, decode cache, flight table, payload and query
  text, control protocol, orchestrated-mode bridge decisions and report
  parsing; and the demo SpacetimeDB module's tables and reducers. Every
  public function carries a contract, and the laws that span functions are
  public proof functions named `law_*`.
- `app/` is the process around the library: command-line parsing, sockets,
  tasks, timers, floating-point motion and output formatting. It calls the
  library for every decision it makes.
- `tests/` exercises the library on concrete values.

Calls into outside crates made by the library (`uuid`, `serde_json`, and a
few std collection and hashing functions) go through small trusted
wrappers whose doc comments say what is assumed of them.
