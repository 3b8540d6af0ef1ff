use cellwars::{decode, Action, Command, ParseCommandError};

#[test]
fn decode_each_command() {
    assert_eq!(
        decode("INITIALIZE 5 6 1 0 4"),
        Ok(Command::Initialize { width: 5, height: 6, team_id: 1, my_column: 0, enemy_column: 4 })
    );
    assert_eq!(
        decode("SPAWN 1 2 3 100 7 0\n"),
        Ok(Command::Spawn { cell_id: 1, x: 2, y: 3, health: 100, team_id: 7, age: 0 })
    );
    assert_eq!(decode("DIE 9"), Ok(Command::Die { cell_id: 9 }));
    assert_eq!(
        decode("SET_CELL_PROPERTIES 1 2 3 4 5"),
        Ok(Command::SetCellProperties { cell_id: 1, x: 2, y: 3, health: 4, age: 5 })
    );
    assert_eq!(decode("CONFLICTING_ACTIONS 3 4"), Ok(Command::ConflictingActions { x: 3, y: 4 }));
    assert_eq!(decode("RUN_ROUND\n"), Ok(Command::RunRound));
    assert_eq!(decode("  END_GAME \r\n"), Ok(Command::EndGame));
}

#[test]
fn decode_keeps_full_u32_range() {
    assert_eq!(decode("DIE 4294967295"), Ok(Command::Die { cell_id: u32::MAX }));
    assert_eq!(decode("DIE +12"), Ok(Command::Die { cell_id: 12 }));
    assert_eq!(decode("DIE 007"), Ok(Command::Die { cell_id: 7 }));
}

#[test]
fn decode_rejects_bad_lines() {
    assert_eq!(decode(""), Err(ParseCommandError::UnknownCommand));
    assert_eq!(decode("   \n"), Err(ParseCommandError::UnknownCommand));
    assert_eq!(decode("JUMP 1 2"), Err(ParseCommandError::UnknownCommand));
    assert_eq!(decode("run_round"), Err(ParseCommandError::UnknownCommand));
    assert_eq!(decode("DIE"), Err(ParseCommandError::UnknownCommand));
    assert_eq!(decode("DIE 1 2"), Err(ParseCommandError::UnknownCommand));
    assert_eq!(decode("RUN_ROUND 1"), Err(ParseCommandError::UnknownCommand));
    assert_eq!(decode("DIE x"), Err(ParseCommandError::NonIntParameter));
    assert_eq!(decode("DIE -1"), Err(ParseCommandError::NonIntParameter));
    assert_eq!(decode("DIE 4294967296"), Err(ParseCommandError::NonIntParameter));
    assert_eq!(decode("DIE  1"), Err(ParseCommandError::NonIntParameter));
    assert_eq!(decode("DIE +"), Err(ParseCommandError::NonIntParameter));
    assert_eq!(decode("JUMP x"), Err(ParseCommandError::NonIntParameter));
}

#[test]
fn encode_actions() {
    assert_eq!(Action::Move { cell_id: 1, x: 2, y: 3 }.encode(), "MOVE 1 2 3\n");
    assert_eq!(Action::Attack { cell_id: 10, x: 0, y: 45 }.encode(), "ATTACK 10 0 45\n");
    assert_eq!(Action::Explode { cell_id: 4294967295 }.encode(), "EXPLODE 4294967295\n");
    assert_eq!(Action::Initialized.encode(), "INITIALIZED\n");
    assert_eq!(Action::RoundEnd.encode(), "ROUND_END\n");
}

#[test]
fn command_round_trip() {
    let commands = vec![
        Command::Initialize { width: 5, height: 5, team_id: 1, my_column: 0, enemy_column: 4 },
        Command::Spawn { cell_id: 1, x: 0, y: 2, health: 100, team_id: 1, age: 0 },
        Command::Die { cell_id: u32::MAX },
        Command::SetCellProperties { cell_id: 3, x: 1, y: 2, health: 99, age: 10 },
        Command::ConflictingActions { x: 0, y: 1234567890 },
        Command::RunRound,
        Command::EndGame,
    ];
    for c in commands {
        let line = c.encode();
        assert_eq!(decode(&line), Ok(c));
    }
    assert_eq!(Command::Die { cell_id: 305 }.encode(), "DIE 305\n");
}

#[test]
fn error_details() {
    assert_eq!(ParseCommandError::NonIntParameter.details(), "non int parameter found");
    assert_eq!(ParseCommandError::UnknownCommand.details(), "Unknown command");
}

#[test]
fn parse_through_from_str() {
    let c: Command = "DIE 3".parse().unwrap();
    assert_eq!(c, Command::Die { cell_id: 3 });
    assert_eq!("NOPE".parse::<Command>(), Err(ParseCommandError::UnknownCommand));
}

#[test]
fn from_str_matches_decode() {
    for line in ["SPAWN 4294967295 0 2 100 1 0", "", "   ", "MOVE 1 1 2", "DIE 1.5", "RUN_ROUND\n"] {
        assert_eq!(line.parse::<Command>(), decode(line));
    }
}
