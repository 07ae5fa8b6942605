use arcane_swarm::control::{capped_target, initial_desired_players, parse_control_line, ControlCommand};

#[test]
fn control_lines() {
    assert_eq!(parse_control_line("SET_PLAYERS 250\n"), ControlCommand::SetPlayers(250));
    assert_eq!(parse_control_line("  SET_PLAYERS\t+7  extra"), ControlCommand::SetPlayers(7));
    assert_eq!(parse_control_line("SET_PLAYERS 4294967295"), ControlCommand::SetPlayers(u32::MAX));
    assert_eq!(parse_control_line("SET_PLAYERS 4294967296"), ControlCommand::Ignore);
    assert_eq!(parse_control_line("SET_PLAYERS -1"), ControlCommand::Ignore);
    assert_eq!(parse_control_line("SET_PLAYERS abc"), ControlCommand::Ignore);
    assert_eq!(parse_control_line("SET_PLAYERS"), ControlCommand::Ignore);
    assert_eq!(parse_control_line("RESET"), ControlCommand::Reset);
    assert_eq!(parse_control_line("REPORT\r\n"), ControlCommand::Report);
    assert_eq!(parse_control_line("QUIT"), ControlCommand::Quit);
    assert_eq!(parse_control_line("quit"), ControlCommand::Ignore);
    assert_eq!(parse_control_line("   \n"), ControlCommand::Ignore);
    assert_eq!(parse_control_line(""), ControlCommand::Ignore);
}

#[test]
fn control_lines_agree_with_std_parsing() {
    for line in ["SET_PLAYERS 12", "SET_PLAYERS 0012", "SET_PLAYERS +", "SET_PLAYERS ++1", "SET_PLAYERS\u{a0}9", "X 1"] {
        let mut parts = line.trim().split_whitespace();
        let expected = match parts.next().unwrap_or("") {
            "SET_PLAYERS" => match parts.next().map(|n| n.parse::<u32>()) {
                Some(Ok(v)) => ControlCommand::SetPlayers(v),
                _ => ControlCommand::Ignore,
            },
            _ => ControlCommand::Ignore,
        };
        assert_eq!(parse_control_line(line), expected, "{:?}", line);
    }
}

#[test]
fn cap_clamps_set_players() {
    assert_eq!(capped_target(500, 200), (200, true));
    assert_eq!(capped_target(150, 200), (150, false));
    assert_eq!(capped_target(500, 0), (500, false));
    assert_eq!(initial_desired_players(10, 4), 4);
    assert_eq!(initial_desired_players(3, 4), 3);
}
