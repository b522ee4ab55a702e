use chess_tui::board::{Board, BoardError, BoardState, ChessError, MoveError};
use chess_tui::piece::PieceError;
use chess_tui::position::{Move, Position};

const INITIAL_POSITION: &str = "rnbqkbnr/pppppppp/8/8/8/8/PPPPPPPP/RNBQKBNR w KQkq";

fn start() -> BoardState {
    BoardState::from_fen(INITIAL_POSITION.to_string()).unwrap()
}

fn mv(from: u8, to: u8) -> Move {
    Move::new(Position::Index { ix: from }, Position::Index { ix: to })
}

#[test]
fn test_twenty_legal_moves_from_start() {
    let state = start();
    let legal = state.get_legal_moves();
    assert_eq!(legal.len(), 20);
    // 16 pawn moves and 4 knight moves
    let pawn_moves = legal
        .iter()
        .filter(|m| {
            let from = m.from.as_ix();
            (48..56).contains(&from)
        })
        .count();
    let knight_moves = legal
        .iter()
        .filter(|m| {
            let from = m.from.as_ix();
            from == 57 || from == 62
        })
        .count();
    assert_eq!(pawn_moves, 16);
    assert_eq!(knight_moves, 4);
}

#[test]
fn test_grab_failures_leave_state_unchanged() {
    let mut state = start();
    let before = state.as_fen();
    // an empty square fails with the empty-square error
    assert!(matches!(
        state.grab_piece(30),
        Err(ChessError::Piece(PieceError::NoPieceFound))
    ));
    // an opponent piece fails with the wrong-turn error
    assert!(matches!(
        state.grab_piece(8),
        Err(ChessError::Move(MoveError::WrongTurn))
    ));
    // an out-of-bounds square fails with the bounds error
    assert!(matches!(
        state.grab_piece(64),
        Err(ChessError::Board(BoardError::OutOfBounds))
    ));
    assert_eq!(state.as_fen(), before);
    assert!(!state.has_grabbed_piece());
    assert!(state.white_to_move);
    assert!(state.history.is_empty());
}

#[test]
fn test_grab_and_drop_play_a_move() {
    let mut state = start();
    state.grab_piece(52).unwrap(); // e2
    assert!(state.has_grabbed_piece());
    state.drop_piece(36).unwrap(); // e4
    assert!(!state.has_grabbed_piece());
    assert_eq!(state.board[36], 32);
    assert_eq!(state.board[52], 0);
    assert!(!state.white_to_move);
    assert_eq!(state.history.len(), 1);
}

#[test]
fn test_grabbed_piece_destinations() {
    let mut state = start();
    assert!(state.get_grabbed_moves().is_empty());
    state.grab_piece(52).unwrap(); // e2
    let moves = state.get_grabbed_moves();
    let mut destinations: Vec<u8> = moves.iter().map(|m| m.to.as_ix()).collect();
    destinations.sort();
    assert_eq!(destinations, vec![36, 44]); // e4 and e3
    state.grab_piece(57).unwrap(); // b1
    let moves = state.get_grabbed_moves();
    let mut destinations: Vec<u8> = moves.iter().map(|m| m.to.as_ix()).collect();
    destinations.sort();
    assert_eq!(destinations, vec![40, 42]); // a3 and c3
}

#[test]
fn test_drop_without_grab_fails() {
    let mut state = start();
    assert!(matches!(
        state.drop_piece(36),
        Err(ChessError::Move(MoveError::NoPieceGrabbed))
    ));
}

#[test]
fn test_illegal_move_preserves_selection() {
    let mut state = start();
    state.grab_piece(52).unwrap();
    // e2 to e5 is not a legal pawn move
    assert!(matches!(
        state.drop_piece(28),
        Err(ChessError::Move(MoveError::IllegalMove { .. }))
    ));
    // the selection survives the failure and the board is untouched
    assert!(state.has_grabbed_piece());
    assert_eq!(state.board[52], 32);
    assert!(state.white_to_move);
}

#[test]
fn test_make_move_same_square_is_noop() {
    let mut state = start();
    let before = state.as_fen();
    state.make_move(mv(52, 52)).unwrap();
    assert_eq!(state.as_fen(), before);
    assert!(state.history.is_empty());
}

#[test]
fn test_en_passant_capture_removes_pushed_pawn() {
    let mut state = start();
    state.make_move(mv(51, 35)).unwrap(); // d2d4
    state.make_move(mv(8, 16)).unwrap(); // a7a6
    state.make_move(mv(35, 27)).unwrap(); // d4d5
    state.make_move(mv(12, 28)).unwrap(); // e7e5, a two-square push
    // the canonical en-passant move is offered
    let legal = state.get_legal_moves();
    let ep = legal
        .iter()
        .find(|m| m.from.as_ix() == 27 && m.to.as_ix() == 20)
        .copied()
        .expect("en passant should be offered");
    let captured = ep.en_passant.expect("the capture square is carried");
    assert_eq!(captured.as_ix(), 28);
    state.make_move(ep).unwrap();
    // the pushed pawn is removed from its own square, not the destination
    assert_eq!(state.board[28], 0);
    assert_eq!(state.board[20], 32);
    assert_eq!(state.board[27], 0);
}

#[test]
fn test_en_passant_not_offered_without_double_push() {
    let mut state = start();
    state.make_move(mv(51, 35)).unwrap(); // d2d4
    state.make_move(mv(12, 20)).unwrap(); // e7e6, single push
    state.make_move(mv(35, 27)).unwrap(); // d4d5
    state.make_move(mv(20, 28)).unwrap(); // e6e5, single push again
    let legal = state.get_legal_moves();
    assert!(legal
        .iter()
        .find(|m| m.from.as_ix() == 27 && m.to.as_ix() == 20)
        .is_none());
}

const CASTLE_POSITION: &str = "r3k2r/8/8/8/8/8/8/R3K2R w KQkq";

#[test]
fn test_castling_kingside_succeeds_when_clear() {
    let mut state = BoardState::from_fen(CASTLE_POSITION.to_string()).unwrap();
    state.make_move(Move::castle_short(true)).unwrap();
    // king and rook moved atomically
    assert_eq!(state.board[62], 1);
    assert_eq!(state.board[61], 4);
    assert_eq!(state.board[60], 0);
    assert_eq!(state.board[63], 0);
    // both of white's rights are revoked by the king move
    assert_eq!(state.castling.get_u8(), 3);
    assert!(!state.white_to_move);
}

#[test]
fn test_castling_fails_when_blocked() {
    let mut state = start();
    // in the starting position the squares between king and rook are
    // occupied
    assert!(matches!(
        state.make_move(Move::castle_short(true)),
        Err(ChessError::Move(MoveError::IllegalMove { .. }))
    ));
    assert!(matches!(
        state.make_move(Move::castle_long(true)),
        Err(ChessError::Move(MoveError::IllegalMove { .. }))
    ));
}

#[test]
fn test_castling_fails_through_threatened_path() {
    // a black rook on f3 threatens f1, inside the king's kingside path,
    // while the queenside path stays clear
    let mut state =
        BoardState::from_fen("r3k2r/8/8/8/8/5r2/8/R3K2R w KQkq".to_string()).unwrap();
    let legal = state.get_legal_moves();
    assert!(legal
        .iter()
        .find(|m| m.from.as_ix() == 60 && m.to.as_ix() == 62)
        .is_none());
    assert!(legal
        .iter()
        .find(|m| m.from.as_ix() == 60 && m.to.as_ix() == 58)
        .is_some());
    assert!(matches!(
        state.make_move(Move::castle_short(true)),
        Err(ChessError::Move(MoveError::IllegalMove { .. }))
    ));
    state.make_move(Move::castle_long(true)).unwrap();
    assert_eq!(state.board[58], 1);
    assert_eq!(state.board[59], 4);
}

#[test]
fn test_drop_infers_castling_companion() {
    let mut state = BoardState::from_fen(CASTLE_POSITION.to_string()).unwrap();
    state.grab_piece(60).unwrap();
    state.drop_piece(62).unwrap();
    assert_eq!(state.board[62], 1);
    assert_eq!(state.board[61], 4);
    assert_eq!(state.board[63], 0);
}

#[test]
fn test_pinned_move_absent_from_legal_moves() {
    // moving the white rook off the e-file would expose the white king to
    // the black rook
    let state = BoardState::from_fen("4r3/8/8/8/8/8/4R3/4K3 w".to_string()).unwrap();
    let all = state.get_all_moves();
    let legal = state.get_legal_moves();
    let sideways = |m: &&Move| m.from.as_ix() == 52 && m.to.as_ix() == 51;
    assert!(all.iter().find(sideways).is_some());
    assert!(legal.iter().find(sideways).is_none());
    // moving along the file stays legal
    let along = |m: &&Move| m.from.as_ix() == 52 && m.to.as_ix() == 44;
    assert!(legal.iter().find(along).is_some());
}

const PROMOTION_POSITION: &str = "8/P7/8/8/8/8/8/K6k w";

#[test]
fn test_drop_promotes_to_queen() {
    let mut state = BoardState::from_fen(PROMOTION_POSITION.to_string()).unwrap();
    state.grab_piece(8).unwrap();
    state.drop_piece(0).unwrap();
    assert_eq!(state.board[0], 2);
    assert_eq!(state.board[8], 0);
}

#[test]
fn test_make_move_requires_promotion_piece() {
    let mut state = BoardState::from_fen(PROMOTION_POSITION.to_string()).unwrap();
    // a promotion-shaped move with an empty promotion field is rejected
    assert!(matches!(
        state.make_move(mv(8, 0)),
        Err(ChessError::Move(MoveError::IllegalMove { .. }))
    ));
    // an explicit under-promotion is accepted
    let rook_promo = Move::new_promotion(
        Position::Index { ix: 8 },
        Position::Index { ix: 0 },
        Some(chess_tui::piece::Piece::WhiteRook),
    );
    state.make_move(rook_promo).unwrap();
    assert_eq!(state.board[0], 4);
}

#[test]
fn test_pass_turn_flips_side() {
    let mut state = start();
    assert!(state.white_to_move);
    state.pass_turn();
    assert!(!state.white_to_move);
    state.pass_turn();
    assert!(state.white_to_move);
}

#[test]
fn test_rook_move_revokes_single_right() {
    let mut state = BoardState::from_fen(CASTLE_POSITION.to_string()).unwrap();
    state.make_move(mv(63, 55)).unwrap(); // h1h2
    assert_eq!(state.castling.get_u8(), 7); // white kingside gone
    state.make_move(mv(0, 8)).unwrap(); // a8a7
    assert_eq!(state.castling.get_u8(), 6); // black queenside gone too
}

#[test]
fn test_history_records_resolved_piece() {
    let mut state = start();
    state.make_move(mv(52, 36)).unwrap();
    assert_eq!(state.history.len(), 1);
    let recorded = state.history[0];
    assert_eq!(recorded.from.as_ix(), 52);
    assert_eq!(recorded.to.as_ix(), 36);
    assert_eq!(recorded.piece, Some(chess_tui::piece::Piece::WhitePawn));
}

#[test]
fn test_from_fen_rejects_empty_text() {
    assert!(matches!(
        BoardState::from_fen(String::new()),
        Err(ChessError::Parsing(
            chess_tui::fen::ParsingError::ErrorParsingFEN
        ))
    ));
}

#[test]
fn test_threatmap_marks_attacks() {
    let state = start();
    // the threat map covers the side not to move: the black knight on b8
    // reaches a6 and c6
    assert_ne!(state.threatmap[16], 0);
    assert_ne!(state.threatmap[18], 0);
    // a3 is out of black's reach from the starting position
    assert_eq!(state.threatmap[40], 0);
    // after white's first move the map flips to white's attack reach
    let mut state = start();
    state.make_move(mv(52, 36)).unwrap(); // e2e4
    assert_ne!(state.threatmap[43], 0); // d3 guarded by the c2 pawn
}

#[test]
fn test_error_messages() {
    assert_eq!(
        ChessError::Move(MoveError::WrongTurn).message(),
        "tried to move a piece in the wrong turn"
    );
    assert_eq!(
        ChessError::Move(MoveError::NoPieceGrabbed).message(),
        "tried to drop piece with no piece grabbed"
    );
    assert_eq!(
        ChessError::Move(MoveError::IllegalMove { mov: mv(0, 1) }).message(),
        "tried to make an illegal move"
    );
    assert_eq!(
        ChessError::Board(BoardError::OutOfBounds).message(),
        "tried to access a square out of bounds"
    );
    assert_eq!(
        ChessError::Piece(PieceError::NoPieceFound).message(),
        "no piece at the given position"
    );
    assert_eq!(
        ChessError::Piece(PieceError::PieceEncodingError).message(),
        "piece encoding error"
    );
    assert_eq!(
        ChessError::Piece(PieceError::UnkownFENCharacter).message(),
        "unkown FEN character"
    );
    assert_eq!(
        ChessError::Parsing(chess_tui::fen::ParsingError::ErrorParsingFEN).message(),
        "error parsing fen"
    );
}

#[test]
fn test_board_wrapper_delegates() {
    let mut board = Board::from_fen(INITIAL_POSITION.to_string()).unwrap();
    assert!(board.white_to_move());
    assert!(board.in_bounds(Position::Index { ix: 63 }));
    assert!(!board.in_bounds(Position::Index { ix: 64 }));
    assert_eq!(board.get_legal_moves().len(), 20);
    board.grab_piece(Position::Index { ix: 52 }).unwrap();
    assert!(board.has_grabbed_piece());
    board.drop_piece(Position::Index { ix: 36 }).unwrap();
    assert!(!board.white_to_move());
    assert_eq!(board.get_history().len(), 1);
    board.set_flipped(true);
    assert!(board.flipped_board);
    assert_eq!(
        board.as_fen(),
        "rnbqkbnr/pppppppp/8/8/4P3/8/PPPP1PPP/RNBQKBNR b KQkq - 0 1"
    );
}
