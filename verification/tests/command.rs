use chess_tui::command::{parse_algebraic_move, Command, CommandError, ParsedMove};

#[test]
fn test_word_commands() {
    assert!(matches!(
        Command::from_string("exit".to_string()),
        Ok(Command::Exit)
    ));
    assert!(matches!(
        Command::from_string(":q".to_string()),
        Ok(Command::Exit)
    ));
    assert!(matches!(
        Command::from_string("!fen".to_string()),
        Ok(Command::GetFen)
    ));
    assert!(matches!(
        Command::from_string(":passturn".to_string()),
        Ok(Command::PassTurn)
    ));
    assert!(matches!(
        Command::from_string(":flipboard".to_string()),
        Ok(Command::FlipBoard)
    ));
    assert!(matches!(
        Command::from_string(":search".to_string()),
        Ok(Command::StartSeach)
    ));
    assert!(matches!(
        Command::from_string(":stop".to_string()),
        Ok(Command::StopSearch)
    ));
}

#[test]
fn test_command_errors() {
    assert!(matches!(
        Command::from_string(String::new()),
        Err(CommandError::NoCommand)
    ));
    assert!(matches!(
        Command::from_string("   ".to_string()),
        Err(CommandError::NoCommand)
    ));
    assert!(matches!(
        Command::from_string("bogus".to_string()),
        Err(CommandError::InvalidCommand)
    ));
    // a bare :fen or :move without an argument is not a command
    assert!(matches!(
        Command::from_string(":fen".to_string()),
        Err(CommandError::InvalidCommand)
    ));
    assert!(matches!(
        Command::from_string(":move".to_string()),
        Err(CommandError::InvalidCommand)
    ));
}

#[test]
fn test_set_position_carries_rest_of_line() {
    match Command::from_string(":fen 4k3/8/8/8/8/8/8/4K3 w".to_string()) {
        Ok(Command::SetPosition(rest)) => {
            assert_eq!(rest, "4k3/8/8/8/8/8/8/4K3 w");
        }
        other => panic!("unexpected parse: {:?}", other),
    }
}

#[test]
fn test_move_command_basic() {
    match Command::from_string(":move e2e4".to_string()) {
        Ok(Command::MakeMove(ParsedMove::Basic { mov })) => {
            assert_eq!(mov.from.as_ix(), 52);
            assert_eq!(mov.to.as_ix(), 36);
            assert!(mov.promotion.is_none());
            assert!(mov.castling.is_none());
        }
        other => panic!("unexpected parse: {:?}", other),
    }
}

#[test]
fn test_move_command_castles() {
    assert!(matches!(
        Command::from_string(":move 0-0".to_string()),
        Ok(Command::MakeMove(ParsedMove::CastleShort))
    ));
    assert!(matches!(
        Command::from_string(":move O-O".to_string()),
        Ok(Command::MakeMove(ParsedMove::CastleShort))
    ));
    assert!(matches!(
        Command::from_string(":move 0-0-0".to_string()),
        Ok(Command::MakeMove(ParsedMove::CastleLong))
    ));
    assert!(matches!(
        Command::from_string(":move O-O-O".to_string()),
        Ok(Command::MakeMove(ParsedMove::CastleLong))
    ));
}

#[test]
fn test_move_command_error_carries_text() {
    match Command::from_string(":move zz".to_string()) {
        Err(CommandError::MoveParsingError { mov }) => {
            assert_eq!(mov, "zz");
        }
        other => panic!("unexpected parse: {:?}", other),
    }
}

#[test]
fn test_parse_algebraic_move_trims() {
    match parse_algebraic_move("  e7e5  ".to_string()) {
        Ok(ParsedMove::Basic { mov }) => {
            assert_eq!(mov.from.as_ix(), 12);
            assert_eq!(mov.to.as_ix(), 28);
        }
        other => panic!("unexpected parse: {:?}", other),
    }
}

#[test]
fn test_king_move_text_carries_castle_companion() {
    match parse_algebraic_move("e1g1".to_string()) {
        Ok(ParsedMove::Basic { mov }) => {
            assert_eq!(mov.from.as_ix(), 60);
            assert_eq!(mov.to.as_ix(), 62);
            let (rf, rt) = mov.castling.expect("the rook companion is inferred");
            assert_eq!(rf.as_ix(), 63);
            assert_eq!(rt.as_ix(), 61);
        }
        other => panic!("unexpected parse: {:?}", other),
    }
}

#[test]
fn test_command_error_messages() {
    assert_eq!(CommandError::NoCommand.message(), "no command received");
    assert_eq!(CommandError::InvalidCommand.message(), "invalid command");
    assert_eq!(
        CommandError::MoveParsingError {
            mov: "zz".to_string()
        }
        .message(),
        "error parsing move: zz"
    );
}
