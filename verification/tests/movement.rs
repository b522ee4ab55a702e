use chess_tui::board::BoardState;
use chess_tui::piece::{CastleRights, Piece};
use chess_tui::position::Move;

fn moves_of(piece: Piece, board: &[u8; 64], position: u8) -> Vec<Move> {
    piece.get_moves(board, position, None, CastleRights::default(), &[0; 64])
}

fn board_with(placed: &[(u8, Piece)]) -> [u8; 64] {
    let mut board = [0u8; 64];
    for (ix, p) in placed {
        board[*ix as usize] = p.as_u8();
    }
    board
}

#[test]
fn test_knight_reach() {
    // a knight in the middle of an empty board reaches all 8 leap squares
    let board = board_with(&[(35, Piece::WhiteKnight)]); // d4
    assert_eq!(moves_of(Piece::WhiteKnight, &board, 35).len(), 8);
    // in a corner only 2 leaps stay on the board
    let board = board_with(&[(56, Piece::WhiteKnight)]); // a1
    assert_eq!(moves_of(Piece::WhiteKnight, &board, 56).len(), 2);
}

#[test]
fn test_rook_reach() {
    let board = board_with(&[(35, Piece::WhiteRook)]);
    assert_eq!(moves_of(Piece::WhiteRook, &board, 35).len(), 14);
}

#[test]
fn test_bishop_reach() {
    let board = board_with(&[(35, Piece::WhiteBishop)]);
    assert_eq!(moves_of(Piece::WhiteBishop, &board, 35).len(), 13);
}

#[test]
fn test_queen_reach() {
    let board = board_with(&[(35, Piece::WhiteQueen)]);
    assert_eq!(moves_of(Piece::WhiteQueen, &board, 35).len(), 27);
}

#[test]
fn test_king_reach() {
    let board = board_with(&[(35, Piece::WhiteKing)]);
    assert_eq!(moves_of(Piece::WhiteKing, &board, 35).len(), 8);
    let board = board_with(&[(63, Piece::WhiteKing)]); // h1
    assert_eq!(moves_of(Piece::WhiteKing, &board, 63).len(), 3);
}

#[test]
fn test_sliding_blocked_by_own_piece() {
    // a friendly pawn directly above the rook blocks the whole upward ray
    let board = board_with(&[(35, Piece::WhiteRook), (27, Piece::WhitePawn)]);
    let moves = moves_of(Piece::WhiteRook, &board, 35);
    assert!(moves.iter().all(|m| m.to.as_ix() != 27));
    assert!(moves.iter().all(|m| m.to.as_ix() != 19));
    // an enemy pawn is a capture, and still ends the ray
    let board = board_with(&[(35, Piece::WhiteRook), (27, Piece::BlackPawn)]);
    let moves = moves_of(Piece::WhiteRook, &board, 35);
    assert!(moves.iter().any(|m| m.to.as_ix() == 27));
    assert!(moves.iter().all(|m| m.to.as_ix() != 19));
}

#[test]
fn test_rays_do_not_wrap_the_board_edge() {
    // a rook on h4 may not wrap to a5; its sideways reach stays on rank 4
    let board = board_with(&[(39, Piece::WhiteRook)]); // h4
    let moves = moves_of(Piece::WhiteRook, &board, 39);
    assert!(moves.iter().all(|m| m.to.as_ix() != 24)); // a5
    let sideways = moves
        .iter()
        .filter(|m| m.to.as_ix() / 8 == 4)
        .count();
    assert_eq!(sideways, 7);
}

#[test]
fn test_pawn_blocked_and_capturing() {
    // a blocked pawn has no forward move, but may capture diagonally
    let board = board_with(&[
        (52, Piece::WhitePawn),  // e2
        (44, Piece::BlackRook),  // e3 blocks
        (43, Piece::BlackRook),  // d3 capturable
        (45, Piece::WhiteRook),  // f3 friendly
    ]);
    let moves = moves_of(Piece::WhitePawn, &board, 52);
    assert_eq!(moves.len(), 1);
    assert_eq!(moves[0].to.as_ix(), 43);
}

#[test]
fn test_black_en_passant() {
    // the mirror capture: white double-pushes beside a black pawn
    let mut state = BoardState::from_fen(
        "rnbqkbnr/pppp1ppp/8/8/4p3/8/PPPPPPPP/RNBQKBNR w KQkq".to_string(),
    )
    .unwrap();
    state
        .make_move(Move::new(
            chess_tui::position::Position::Index { ix: 51 },
            chess_tui::position::Position::Index { ix: 35 },
        ))
        .unwrap(); // d2d4 beside the black e4 pawn
    let legal = state.get_legal_moves();
    let ep = legal
        .iter()
        .find(|m| m.from.as_ix() == 36 && m.to.as_ix() == 43)
        .copied()
        .expect("en passant should be offered to black");
    assert_eq!(ep.en_passant.unwrap().as_ix(), 35);
    state.make_move(ep).unwrap();
    assert_eq!(state.board[35], 0); // the pushed white pawn is gone
    assert_eq!(state.board[43], 96); // the black pawn landed on d3
}
