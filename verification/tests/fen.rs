use chess_tui::board::BoardState;
use chess_tui::fen::{Fen, ParsingError};
use chess_tui::piece::CastleRights;

const INITIAL_POSITION: &str = "rnbqkbnr/pppppppp/8/8/8/8/PPPPPPPP/RNBQKBNR w KQkq";

#[test]
fn test_fen_roundtrip_initial_position() {
    let state = BoardState::from_fen(INITIAL_POSITION.to_string()).unwrap();
    // the placement, side-to-move and castling fields round-trip; the
    // counters are fixed placeholders by design
    assert_eq!(
        state.as_fen(),
        "rnbqkbnr/pppppppp/8/8/8/8/PPPPPPPP/RNBQKBNR w KQkq - 0 1"
    );
}

#[test]
fn test_fen_parse_initial_position() {
    let fen = Fen::parse(INITIAL_POSITION.to_string()).unwrap();
    assert!(fen.white_to_move);
    assert_eq!(fen.castling.get_u8(), 15);
    // black back rank, black pawns, empty middle, white pawns, white back rank
    assert_eq!(
        &fen.board[0..8],
        &[68, 80, 72, 66, 65, 72, 80, 68]
    );
    assert_eq!(&fen.board[8..16], &[96; 8]);
    for i in 16..48 {
        assert_eq!(fen.board[i], 0);
    }
    assert_eq!(&fen.board[48..56], &[32; 8]);
    assert_eq!(&fen.board[56..64], &[4, 16, 8, 2, 1, 8, 16, 4]);
}

#[test]
fn test_fen_parse_fields() {
    let fen = Fen::parse("4k3/8/8/8/8/8/8/4K3 b Kq".to_string()).unwrap();
    assert!(!fen.white_to_move);
    assert_eq!(fen.castling.get_u8(), 9);
    assert_eq!(fen.board[4], 65);
    assert_eq!(fen.board[60], 1);
}

#[test]
fn test_fen_parse_defaults() {
    // side defaults to white and castling to none when the fields are absent
    let fen = Fen::parse("8/8/8/8/8/8/8/8".to_string()).unwrap();
    assert!(fen.white_to_move);
    assert_eq!(fen.castling.get_u8(), 0);
    for i in 0..64 {
        assert_eq!(fen.board[i], 0);
    }
}

#[test]
fn test_fen_parse_lenient() {
    // unrecognized characters are skipped without advancing
    let fen = Fen::parse("x4kx3/8/8/8/8/8/8/4K3! w".to_string()).unwrap();
    assert_eq!(fen.board[4], 65);
    assert_eq!(fen.board[60], 1);
    // unrecognized castling characters are ignored
    let fen = Fen::parse("4k3/8/8/8/8/8/8/4K3 w Kxq".to_string()).unwrap();
    assert_eq!(fen.castling.get_u8(), 9);
}

#[test]
fn test_fen_parse_missing_placement() {
    assert!(matches!(
        Fen::parse(String::new()),
        Err(ParsingError::ErrorParsingFEN)
    ));
    assert!(matches!(
        Fen::parse("   ".to_string()),
        Err(ParsingError::ErrorParsingFEN)
    ));
}

#[test]
fn test_fen_serialize_empty_board() {
    let fen = Fen {
        board: [0; 64],
        white_to_move: true,
        castling: CastleRights::default(),
    };
    // with no rights set, nothing stands between the side letter's
    // separator and the placeholder suffix
    assert_eq!(fen.to_string(), "8/8/8/8/8/8/8/8 w  - 0 1");
}

#[test]
fn test_fen_serialize_runs() {
    let mut board = [0u8; 64];
    board[0] = 68; // black rook on a8
    board[7] = 68; // black rook on h8
    board[60] = 1; // white king on e1
    let fen = Fen {
        board,
        white_to_move: false,
        castling: CastleRights::from_field("k"),
    };
    assert_eq!(fen.to_string(), "r6r/8/8/8/8/8/8/4K3 b k - 0 1");
}
