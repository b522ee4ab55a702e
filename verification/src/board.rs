//! The game state machine: owns the board array, side to move, castling
//! rights, last move, grabbed-piece selection and move history, and is the
//! sole mutator of board state.  It exposes make/grab/drop/legal-moves
//! operations, validated by a single legality oracle: a move is legal when
//! it is pseudo-legal and, after applying it on a scratch copy, the mover's
//! own king is not threatened.

use vstd::prelude::*;

use crate::fen::{
    board_codes_valid, fen_board, fen_has_placement, fen_rights, fen_text, fen_white, Fen,
    ParsingError,
};
use crate::movegen::{
    board_empty_range, castle_moves, from_fixed, ks_bit, lemma_piece_moves_from,
    lemma_slide_range_plain, mk_castle, piece_moves, sliding_moves, threat_clear_range,
};
use crate::piece::{
    code_white, decode_piece, is_piece_code, piece_code, piece_white, CastleRights, Piece,
    PieceError,
};
use crate::position::{move_eq, move_wf, pos_ix, pos_wf, Move, Position};

verus! {

/// A failed move operation.
#[derive(Clone, Copy, Debug)]
pub enum MoveError {
    /// A grab was attempted on a piece of the side not to move.
    WrongTurn,
    /// A drop was attempted with no piece grabbed.
    NoPieceGrabbed,
    /// The move is not contained in the legal move set.
    IllegalMove { mov: Move },
}

impl MoveError {
    /// A human-readable description of the failure.
    pub fn message(&self) -> String {
        match *self {
            MoveError::WrongTurn => "tried to move a piece in the wrong turn".to_owned(),
            MoveError::NoPieceGrabbed => "tried to drop piece with no piece grabbed".to_owned(),
            MoveError::IllegalMove { mov: _ } => "tried to make an illegal move".to_owned(),
        }
    }
}

/// A failed square access.
#[derive(Clone, Copy, Debug)]
pub enum BoardError {
    /// The square index lies beyond the board.
    OutOfBounds,
}

impl BoardError {
    /// A human-readable description of the failure.
    pub fn message(&self) -> String {
        "tried to access a square out of bounds".to_owned()
    }
}

/// Any failure an engine operation can return; every failure leaves game
/// state exactly as it was before the call.
#[derive(Clone, Copy, Debug)]
pub enum ChessError {
    Move(MoveError),
    Board(BoardError),
    Piece(PieceError),
    Parsing(ParsingError),
}

impl ChessError {
    /// A human-readable description of the failure.
    pub fn message(&self) -> String {
        match *self {
            ChessError::Move(e) => e.message(),
            ChessError::Board(e) => e.message(),
            ChessError::Piece(e) => e.message(),
            ChessError::Parsing(e) => e.message(),
        }
    }
}

/// The moves of every piece of the side to move standing on squares
/// `i..64`, concatenated in board scan order.
pub open spec fn all_moves_from(
    board: Seq<u8>,
    white: bool,
    last: Option<Move>,
    rights: u8,
    threat: Seq<u8>,
    i: int,
) -> Seq<Move>
    decreases 64 - i,
{
    if i < 0 || i >= 64 {
        Seq::empty()
    } else {
        (match decode_piece(board[i]) {
            Some(p) => if piece_white(p) == white {
                piece_moves(p, board, i, last, rights, threat)
            } else {
                Seq::empty()
            },
            None => Seq::empty(),
        }) + all_moves_from(board, white, last, rights, threat, i + 1)
    }
}

/// The full pseudo-legal move set of the side to move.
pub open spec fn all_moves(
    board: Seq<u8>,
    white: bool,
    last: Option<Move>,
    rights: u8,
    threat: Seq<u8>,
) -> Seq<Move> {
    all_moves_from(board, white, last, rights, threat, 0)
}

/// A threat map with no square marked.
pub open spec fn zeros64() -> Seq<u8> {
    Seq::new(64, |i: int| 0u8)
}

/// The attack reach of the side not to move: its pseudo-legal moves,
/// generated against a cleared threat map.
pub open spec fn attack_moves(
    board: Seq<u8>,
    white: bool,
    last: Option<Move>,
    rights: u8,
) -> Seq<Move> {
    all_moves(board, !white, last, rights, zeros64())
}

/// Whether some move of a sequence lands on `sq`.
pub open spec fn attacks_square(ms: Seq<Move>, sq: int) -> bool {
    exists|k: int| 0 <= k < ms.len() && pos_ix((#[trigger] ms[k]).to) == sq
}

/// Whether the side not to move attacks `sq`.
pub open spec fn threatened(
    board: Seq<u8>,
    white: bool,
    last: Option<Move>,
    rights: u8,
    sq: int,
) -> bool {
    attacks_square(attack_moves(board, white, last, rights), sq)
}

/// The recomputed threat map: one byte per square, nonzero exactly on the
/// squares the side not to move attacks.
pub open spec fn threat_of(board: Seq<u8>, white: bool, last: Option<Move>, rights: u8) -> Seq<
    u8,
> {
    Seq::new(
        64,
        |i: int|
            if threatened(board, white, last, rights, i) {
                1u8
            } else {
                0u8
            },
    )
}

/// The board after applying a move without its castling companion: the
/// moved (or promoted-to) piece lands on the destination, the origin is
/// cleared, and a captured en-passant square is cleared.
pub open spec fn apply_basic(board: Seq<u8>, m: Move) -> Seq<u8> {
    let code = match m.promotion {
        Some(p) => piece_code(p),
        None => board[pos_ix(m.from)],
    };
    let b1 = board.update(pos_ix(m.to), code).update(pos_ix(m.from), 0);
    match m.en_passant {
        Some(cap) => b1.update(pos_ix(cap), 0),
        None => b1,
    }
}

/// The rook relocation bundled with a castling move, as a plain move.
pub open spec fn companion_move(f: Position, t: Position) -> Move {
    Move { from: f, to: t, promotion: None, en_passant: None, castling: None, piece: None }
}

/// The board after applying a move and, for castling, its rook companion
/// atomically with it.
pub open spec fn apply_full(board: Seq<u8>, m: Move) -> Seq<u8> {
    match m.castling {
        Some((f, t)) => apply_basic(apply_basic(board, m), companion_move(f, t)),
        None => apply_basic(board, m),
    }
}

/// The last-move record after applying a move: the rook companion for a
/// castling move, the move itself otherwise.
pub open spec fn last_after(m: Move) -> Option<Move> {
    match m.castling {
        Some((f, t)) => Some(companion_move(f, t)),
        None => Some(m),
    }
}

/// The square value of a side's king.
pub open spec fn king_code(white: bool) -> u8 {
    if white {
        1
    } else {
        65
    }
}

/// Whether a side's king stands anywhere on the board.
pub open spec fn has_king(board: Seq<u8>, white: bool) -> bool {
    exists|i: int| 0 <= i < 64 && board[i] == king_code(white)
}

/// The first square at or after `i` holding a side's king, or 64.
pub open spec fn king_ix_from(board: Seq<u8>, white: bool, i: int) -> int
    decreases 64 - i,
{
    if i < 0 || i >= 64 {
        64
    } else if board[i] == king_code(white) {
        i
    } else {
        king_ix_from(board, white, i + 1)
    }
}

/// The first square holding a side's king, or 64 when it has none.
pub open spec fn king_ix(board: Seq<u8>, white: bool) -> int {
    king_ix_from(board, white, 0)
}

/// Whether applying a move would leave the mover's own king threatened; a
/// move after which the mover has no king at all counts as leaving it
/// threatened, so such moves are never legal.
pub open spec fn leaves_check(board: Seq<u8>, white: bool, rights: u8, m: Move) -> bool {
    let b2 = apply_full(board, m);
    if !has_king(b2, white) {
        true
    } else {
        threatened(b2, white, last_after(m), rights, king_ix(b2, white))
    }
}

/// The moves of `ms` that do not leave the mover's own king threatened, in
/// order.
pub open spec fn filter_legal(board: Seq<u8>, white: bool, rights: u8, ms: Seq<Move>) -> Seq<Move>
    decreases ms.len(),
{
    if ms.len() == 0 {
        Seq::empty()
    } else {
        let rest = filter_legal(board, white, rights, ms.drop_last());
        if !leaves_check(board, white, rights, ms.last()) {
            rest.push(ms.last())
        } else {
            rest
        }
    }
}

/// The legal move set: the pseudo-legal moves that do not leave the
/// mover's own king threatened.
pub open spec fn legal_moves(
    board: Seq<u8>,
    white: bool,
    last: Option<Move>,
    rights: u8,
    threat: Seq<u8>,
) -> Seq<Move> {
    filter_legal(board, white, rights, all_moves(board, white, last, rights, threat))
}

/// Whether a sequence contains a move equal to `m` under move equality,
/// which compares endpoints and promotion only.
pub open spec fn in_moves(ms: Seq<Move>, m: Move) -> bool {
    exists|k: int| 0 <= k < ms.len() && move_eq(#[trigger] ms[k], m)
}

/// The castling rights after a move, judged on the board the move already
/// mutated: any king move revokes both of the mover's rights, and a rook
/// move originating from an unmoved home corner revokes that corner's
/// right.
pub open spec fn rights_after(board: Seq<u8>, white: bool, rights: u8, m: Move) -> u8 {
    let ks_rook: int = if white {
        63
    } else {
        7
    };
    let qs_rook: int = if white {
        56
    } else {
        0
    };
    let ksb = crate::movegen::ks_bit(white);
    let qsb = crate::movegen::qs_bit(white);
    match decode_piece(board[pos_ix(m.to)]) {
        Some(p) => if p == Piece::WhiteRook || p == Piece::BlackRook {
            let r1 = if pos_ix(m.from) == ks_rook {
                rights & !ksb
            } else {
                rights
            };
            if pos_ix(m.from) == qs_rook {
                r1 & !qsb
            } else {
                r1
            }
        } else if p == Piece::WhiteKing || p == Piece::BlackKing {
            rights & !ksb & !qsb
        } else {
            rights
        },
        None => rights,
    }
}

/// A move's piece identity resolved from the board it is about to be
/// played on, as recorded in the history.
pub open spec fn resolved(m: Move, board: Seq<u8>) -> Move {
    Move { piece: decode_piece(board[pos_ix(m.from)]), ..m }
}

/// Whether a generated move is well-formed and starts on a square held by
/// the side to move.
pub open spec fn gen_ok(board: Seq<u8>, white: bool, m: Move) -> bool {
    &&& move_wf(m)
    &&& 0 <= pos_ix(m.from) < 64
    &&& is_piece_code(board[pos_ix(m.from)])
    &&& code_white(board[pos_ix(m.from)]) == white
}

/// A piece's square value decodes back to the piece, so a decodable square
/// carries that piece's color.
pub proof fn lemma_decode_code(v: u8)
    ensures
        decode_piece(v) matches Some(p) ==> piece_code(p) == v,
{
}

/// Every pseudo-legal move from squares `i..64` is well-formed and starts
/// on a square held by the side to move.
pub proof fn lemma_all_moves_from_ok(
    board: Seq<u8>,
    white: bool,
    last: Option<Move>,
    rights: u8,
    threat: Seq<u8>,
    i: int,
)
    ensures
        forall|k: int|
            0 <= k < all_moves_from(board, white, last, rights, threat, i).len() ==> gen_ok(
                board,
                white,
                #[trigger] all_moves_from(board, white, last, rights, threat, i)[k],
            ) && i <= pos_ix(all_moves_from(board, white, last, rights, threat, i)[k].from),
    decreases 64 - i,
{
    if 0 <= i < 64 {
        lemma_all_moves_from_ok(board, white, last, rights, threat, i + 1);
        let seg = match decode_piece(board[i]) {
            Some(p) => if piece_white(p) == white {
                piece_moves(p, board, i, last, rights, threat)
            } else {
                Seq::<Move>::empty()
            },
            None => Seq::<Move>::empty(),
        };
        let rest = all_moves_from(board, white, last, rights, threat, i + 1);
        assert(all_moves_from(board, white, last, rights, threat, i) == seg + rest);
        match decode_piece(board[i]) {
            Some(p) => {
                if piece_white(p) == white {
                    lemma_piece_moves_from(p, board, i, last, rights, threat);
                    lemma_decode_code(board[i]);
                    assert forall|k: int| 0 <= k < seg.len() implies gen_ok(
                        board,
                        white,
                        seg[k],
                    ) by {
                        assert(from_fixed(seg, i));
                        let m = seg[k];
                        assert(m.from == (Position::Index { ix: i as u8 }));
                        assert(pos_ix(m.from) == i);
                    }
                }
            },
            None => {},
        }
        assert forall|k: int| 0 <= k < (seg + rest).len() implies gen_ok(
            board,
            white,
            (seg + rest)[k],
        ) && i <= pos_ix((seg + rest)[k].from) by {
            if k < seg.len() {
                assert((seg + rest)[k] == seg[k]);
                assert(seg[k].from == (Position::Index { ix: i as u8 }));
            } else {
                assert((seg + rest)[k] == rest[k - seg.len()]);
            }
        }
    }
}

/// Every pseudo-legal move is well-formed and starts on a square held by
/// the side to move.
pub proof fn lemma_all_moves_ok(
    board: Seq<u8>,
    white: bool,
    last: Option<Move>,
    rights: u8,
    threat: Seq<u8>,
)
    ensures
        forall|k: int|
            0 <= k < all_moves(board, white, last, rights, threat).len() ==> gen_ok(
                board,
                white,
                #[trigger] all_moves(board, white, last, rights, threat)[k],
            ),
{
    lemma_all_moves_from_ok(board, white, last, rights, threat, 0);
}

/// A move lies in the legality filter's output exactly when it lies in the
/// input and does not leave the mover's own king threatened.
pub proof fn lemma_filter_legal_membership(
    board: Seq<u8>,
    white: bool,
    rights: u8,
    ms: Seq<Move>,
    m: Move,
)
    ensures
        filter_legal(board, white, rights, ms).contains(m) <==> ms.contains(m) && !leaves_check(
            board,
            white,
            rights,
            m,
        ),
    decreases ms.len(),
{
    if ms.len() == 0 {
    } else {
        lemma_filter_legal_membership(board, white, rights, ms.drop_last(), m);
        let rest = filter_legal(board, white, rights, ms.drop_last());
        if ms.drop_last().contains(m) {
            assert(ms.contains(m)) by {
                let k = choose|k: int| 0 <= k < ms.drop_last().len() && ms.drop_last()[k] == m;
                assert(ms[k] == m);
            }
        }
        if !leaves_check(board, white, rights, ms.last()) {
            let out = rest.push(ms.last());
            assert(filter_legal(board, white, rights, ms) == out);
            if out.contains(m) {
                let k = choose|k: int| 0 <= k < out.len() && out[k] == m;
                if k < rest.len() {
                    assert(rest[k] == m);
                } else {
                    assert(m == ms.last());
                    assert(ms[ms.len() - 1] == m);
                }
            }
            if ms.contains(m) && !leaves_check(board, white, rights, m) {
                let k = choose|k: int| 0 <= k < ms.len() && ms[k] == m;
                if k < ms.len() - 1 {
                    assert(ms.drop_last()[k] == m);
                    let k2 = choose|k2: int| 0 <= k2 < rest.len() && rest[k2] == m;
                    assert(out[k2] == m);
                } else {
                    assert(out[out.len() - 1] == m);
                }
            }
        } else {
            if ms.contains(m) && !leaves_check(board, white, rights, m) {
                let k = choose|k: int| 0 <= k < ms.len() && ms[k] == m;
                assert(m != ms.last());
                assert(ms.drop_last()[k] == m);
            }
            if rest.contains(m) {
                let k = choose|k: int| 0 <= k < rest.len() && rest[k] == m;
            }
        }
    }
}

/// Applies a move to a board array, without any castling companion.
fn apply_move_to(board: &mut [u8; 64], mov: Move)
    requires
        move_wf(mov),
    ensures
        final(board)@ == apply_basic(old(board)@, mov),
{
    let from_ix = mov.from.as_ix();
    let to_ix = mov.to.as_ix();
    let code: u8 = match mov.promotion {
        Some(p) => p.as_u8(),
        None => board[from_ix as usize],
    };
    board[to_ix as usize] = code;
    board[from_ix as usize] = 0;
    if let Some(captured) = mov.en_passant {
        let cap_ix = captured.as_ix();
        board[cap_ix as usize] = 0;
    }
}

/// Generates the full pseudo-legal move set of one side by dispatching to
/// the per-piece generators in board scan order.
fn all_moves_exec(
    board: &[u8; 64],
    white: bool,
    last: Option<Move>,
    rights: CastleRights,
    threat: &[u8; 64],
) -> (r: Vec<Move>)
    requires
        last matches Some(m) ==> move_wf(m),
    ensures
        r@ == all_moves(board@, white, last, rights.rights, threat@),
{
    let mut moves: Vec<Move> = Vec::new();
    let mut i: usize = 0;
    while i < 64
        invariant
            i <= 64,
            last matches Some(m) ==> move_wf(m),
            moves@ + all_moves_from(board@, white, last, rights.rights, threat@, i as int)
                == all_moves(board@, white, last, rights.rights, threat@),
        decreases 64 - i,
    {
        let ghost prev = moves@;
        let ghost seg = match decode_piece(board@[i as int]) {
            Some(p) => if piece_white(p) == white {
                piece_moves(p, board@, i as int, last, rights.rights, threat@)
            } else {
                Seq::<Move>::empty()
            },
            None => Seq::<Move>::empty(),
        };
        match Piece::try_from_u8(board[i]) {
            Ok(piece) => {
                if piece.is_white() == white {
                    let mut piece_mvs = piece.get_moves(board, i as u8, last, rights, threat);
                    moves.append(&mut piece_mvs);
                }
            },
            Err(_) => {},
        }
        proof {
            assert(moves@ =~= prev + seg);
            assert(all_moves_from(board@, white, last, rights.rights, threat@, i as int) =~= seg
                + all_moves_from(board@, white, last, rights.rights, threat@, i as int + 1));
            assert(prev + all_moves_from(board@, white, last, rights.rights, threat@, i as int)
                =~= moves@ + all_moves_from(
                board@,
                white,
                last,
                rights.rights,
                threat@,
                i as int + 1,
            ));
        }
        i = i + 1;
    }
    proof {
        assert(all_moves_from(board@, white, last, rights.rights, threat@, 64)
            =~= Seq::<Move>::empty());
        assert(moves@ =~= all_moves(board@, white, last, rights.rights, threat@));
    }
    moves
}

/// Recomputes the threat map of a position: the side not to move has its
/// full pseudo-legal destination set marked, generated against a cleared
/// threat map.
fn compute_threat(
    board: &[u8; 64],
    white_to_move: bool,
    last: Option<Move>,
    rights: CastleRights,
) -> (t: [u8; 64])
    requires
        last matches Some(m) ==> move_wf(m),
    ensures
        t@ == threat_of(board@, white_to_move, last, rights.rights),
{
    let mut t = [0u8; 64];
    proof {
        assert(t@ =~= zeros64());
    }
    let moves = all_moves_exec(board, !white_to_move, last, rights, &t);
    proof {
        assert(moves@ == attack_moves(board@, white_to_move, last, rights.rights));
        lemma_all_moves_ok(board@, !white_to_move, last, rights.rights, zeros64());
    }
    let mut k: usize = 0;
    while k < moves.len()
        invariant
            k <= moves@.len(),
            moves@ == attack_moves(board@, white_to_move, last, rights.rights),
            forall|j: int|
                0 <= j < moves@.len() ==> gen_ok(board@, !white_to_move, #[trigger] moves@[j]),
            t@.len() == 64,
            forall|j: int|
                0 <= j < 64 ==> ((#[trigger] t@[j]) != 0 <==> exists|k2: int|
                    0 <= k2 < k && pos_ix((#[trigger] moves@[k2]).to) == j),
            forall|j: int| 0 <= j < 64 ==> t@[j] == 0 || (#[trigger] t@[j]) == 1,
        decreases moves@.len() - k,
    {
        let mv = moves[k];
        let to_ix = mv.to.as_ix();
        t[to_ix as usize] = 1;
        proof {
            assert(pos_ix(moves@[k as int].to) == to_ix as int);
            assert forall|j: int|
                0 <= j < 64 implies ((#[trigger] t@[j]) != 0 <==> exists|k2: int|
                0 <= k2 < k + 1 && pos_ix((#[trigger] moves@[k2]).to) == j) by {
                if j == to_ix as int {
                    assert(pos_ix(moves@[k as int].to) == j);
                } else {
                    if t@[j] != 0 {
                        let k2 = choose|k2: int| 0 <= k2 < k && pos_ix(moves@[k2].to) == j;
                        assert(0 <= k2 < k + 1 && pos_ix(moves@[k2].to) == j);
                    } else {
                        if exists|k2: int| 0 <= k2 < k + 1 && pos_ix((#[trigger] moves@[k2]).to)
                            == j {
                            let k2 = choose|k2: int|
                                0 <= k2 < k + 1 && pos_ix((#[trigger] moves@[k2]).to) == j;
                            assert(k2 == k);
                            assert(false);
                        }
                    }
                }
            }
        }
        k = k + 1;
    }
    proof {
        assert forall|j: int| 0 <= j < 64 implies t@[j] == threat_of(
            board@,
            white_to_move,
            last,
            rights.rights,
        )[j] by {
            let ms = attack_moves(board@, white_to_move, last, rights.rights);
            if threatened(board@, white_to_move, last, rights.rights, j) {
                assert(t@[j] != 0);
                assert(t@[j] == 1);
            } else {
                assert(t@[j] == 0);
            }
        }
        assert(t@ =~= threat_of(board@, white_to_move, last, rights.rights));
    }
    t
}

/// The first square holding a side's king, if any.
fn find_king(board: &[u8; 64], white: bool) -> (r: Option<u8>)
    ensures
        r matches Some(ix) ==> has_king(board@, white) && king_ix(board@, white) == ix as int
            && ix < 64,
        r is None ==> !has_king(board@, white),
{
    let code: u8 = if white {
        1
    } else {
        65
    };
    let mut i: usize = 0;
    while i < 64
        invariant
            i <= 64,
            code == king_code(white),
            king_ix(board@, white) == king_ix_from(board@, white, i as int),
            forall|j: int| 0 <= j < i ==> board@[j] != king_code(white),
        decreases 64 - i,
    {
        if board[i] == code {
            return Some(i as u8);
        }
        i = i + 1;
    }
    proof {
        if has_king(board@, white) {
            let j = choose|j: int| 0 <= j < 64 && board@[j] == king_code(white);
            assert(false);
        }
    }
    None
}

/// The promotion piece a drop infers: a pawn dropped on its farthest rank
/// always promotes to a queen.
pub open spec fn drop_promotion(p: Piece, ix: u8) -> Option<Piece> {
    if p == Piece::BlackPawn && ix > 55 {
        Some(Piece::BlackQueen)
    } else if p == Piece::WhitePawn && ix < 8 {
        Some(Piece::WhiteQueen)
    } else {
        None
    }
}

/// The castling companion a drop infers: a king dropped from its home
/// square onto a castling destination carries the matching rook move.
pub open spec fn drop_castling(p: Piece, grabbed: u8, ix: u8) -> Option<(Position, Position)> {
    if p == Piece::BlackKing && grabbed == 4 && ix == 6 {
        Some((Position::Index { ix: 7 }, Position::Index { ix: 5 }))
    } else if p == Piece::BlackKing && grabbed == 4 && ix == 2 {
        Some((Position::Index { ix: 0 }, Position::Index { ix: 3 }))
    } else if p == Piece::WhiteKing && grabbed == 60 && ix == 62 {
        Some((Position::Index { ix: 63 }, Position::Index { ix: 61 }))
    } else if p == Piece::WhiteKing && grabbed == 60 && ix == 58 {
        Some((Position::Index { ix: 56 }, Position::Index { ix: 59 }))
    } else {
        None
    }
}

/// The move a drop of piece `p` from `grabbed` onto `ix` submits.
pub open spec fn drop_move(p: Piece, grabbed: u8, ix: u8) -> Move {
    Move {
        from: Position::Index { ix: grabbed },
        to: Position::Index { ix },
        promotion: drop_promotion(p, ix),
        en_passant: None,
        castling: drop_castling(p, grabbed, ix),
        piece: None,
    }
}

/// The full outcome of a grab: each failure leaves the state untouched
/// and a success records the selected square.
pub open spec fn grab_outcome(
    pre: BoardState,
    post: BoardState,
    ix: u8,
    r: Result<(), ChessError>,
) -> bool {
    if ix >= 64 {
        r == Err::<(), ChessError>(ChessError::Board(BoardError::OutOfBounds)) && post == pre
    } else {
        match decode_piece(pre.board@[ix as int]) {
            None => if pre.board@[ix as int] == 0 {
                r == Err::<(), ChessError>(ChessError::Piece(PieceError::NoPieceFound)) && post
                    == pre
            } else {
                r == Err::<(), ChessError>(ChessError::Piece(PieceError::PieceEncodingError))
                    && post == pre
            },
            Some(p) => if piece_white(p) != pre.white_to_move {
                r == Err::<(), ChessError>(ChessError::Move(MoveError::WrongTurn)) && post == pre
            } else {
                r is Ok && post == (BoardState { grabbed_piece: Some(ix), ..pre })
            },
        }
    }
}

/// The full outcome of a drop: each failure leaves the state untouched
/// and a success plays the inferred move and clears the selection.
pub open spec fn drop_outcome(
    pre: BoardState,
    post: BoardState,
    ix: u8,
    r: Result<(), ChessError>,
) -> bool {
    match pre.grabbed_piece {
        None => r == Err::<(), ChessError>(ChessError::Move(MoveError::NoPieceGrabbed)) && post
            == pre,
        Some(g) => match decode_piece(pre.board@[g as int]) {
            None => if pre.board@[g as int] == 0 {
                r == Err::<(), ChessError>(ChessError::Piece(PieceError::NoPieceFound)) && post
                    == pre
            } else {
                r == Err::<(), ChessError>(ChessError::Piece(PieceError::PieceEncodingError))
                    && post == pre
            },
            Some(p) => {
                let mov = drop_move(p, g, ix);
                if ix >= 64 {
                    r == Err::<(), ChessError>(ChessError::Move(MoveError::IllegalMove { mov }))
                        && post == pre
                } else if g == ix {
                    r is Ok && post == (BoardState { grabbed_piece: None, ..pre })
                } else if !pre.spec_is_legal(mov) {
                    r == Err::<(), ChessError>(ChessError::Move(MoveError::IllegalMove { mov }))
                        && post == pre
                } else {
                    r is Ok && moved_state(pre, post, mov) && post.grabbed_piece is None
                        && post.wf()
                }
            },
        },
    }
}

/// Whether `post` is `pre` after playing `mov`: the move and any castling
/// companion applied to the board, a piece-resolved copy appended to the
/// history, castling rights revoked as the move demands, the side to move
/// flipped, and the threat map recomputed.
pub open spec fn moved_state(pre: BoardState, post: BoardState, mov: Move) -> bool {
    &&& post.board@ == apply_full(pre.board@, mov)
    &&& post.white_to_move == !pre.white_to_move
    &&& post.last_move == last_after(mov)
    &&& post.castling.rights == rights_after(
        apply_full(pre.board@, mov),
        pre.white_to_move,
        pre.castling.rights,
        mov,
    )
    &&& post.history@ == pre.history@.push(resolved(mov, pre.board@))
    &&& post.threatmap@ == threat_of(
        apply_full(pre.board@, mov),
        !pre.white_to_move,
        last_after(mov),
        rights_after(apply_full(pre.board@, mov), pre.white_to_move, pre.castling.rights, mov),
    )
}

/// Whether applying a move would leave the mover's own king threatened,
/// evaluated on scratch copies: the move and any castling companion are
/// applied, the threat map is recomputed, and the king square is tested.
fn leaves_check_exec(board: &[u8; 64], white: bool, rights: CastleRights, mov: Move) -> (r: bool)
    requires
        move_wf(mov),
    ensures
        r == leaves_check(board@, white, rights.rights, mov),
{
    let mut scratch: [u8; 64] = *board;
    apply_move_to(&mut scratch, mov);
    let last2: Option<Move>;
    if let Some((f, t)) = mov.castling {
        let companion = Move::new(f, t);
        apply_move_to(&mut scratch, companion);
        last2 = Some(companion);
    } else {
        last2 = Some(mov);
    }
    proof {
        assert(scratch@ == apply_full(board@, mov));
        assert(last2 == last_after(mov));
    }
    match find_king(&scratch, white) {
        None => true,
        Some(king_square) => {
            let threat = compute_threat(&scratch, white, last2, rights);
            threat[king_square as usize] > 0
        },
    }
}

/// The full game state: board array, side to move, grabbed-piece
/// selection, last move played, derived threat map, castling rights, and
/// the append-only move history.
#[derive(Clone, Debug)]
pub struct BoardState {
    pub board: [u8; 64],
    pub white_to_move: bool,
    pub grabbed_piece: Option<u8>,
    pub last_move: Option<Move>,
    pub threatmap: [u8; 64],
    pub castling: CastleRights,
    pub history: Vec<Move>,
}

impl BoardState {
    /// Every coordinate the state carries stays on the board.
    pub open spec fn wf(self) -> bool {
        &&& self.last_move matches Some(m) ==> move_wf(m)
        &&& self.grabbed_piece matches Some(g) ==> g < 64
    }

    /// This state's full pseudo-legal move set.
    pub open spec fn spec_all_moves(self) -> Seq<Move> {
        all_moves(self.board@, self.white_to_move, self.last_move, self.castling.rights,
            self.threatmap@)
    }

    /// This state's legal move set.
    pub open spec fn spec_legal_moves(self) -> Seq<Move> {
        legal_moves(self.board@, self.white_to_move, self.last_move, self.castling.rights,
            self.threatmap@)
    }

    /// Whether a move is contained in this state's legal move set, under
    /// move equality.
    pub open spec fn spec_is_legal(self, m: Move) -> bool {
        in_moves(self.spec_legal_moves(), m)
    }

    /// Builds a game state from a FEN string: the parsed placement, side
    /// and rights, no selection, no last move, an empty history, and a
    /// freshly computed threat map.
    pub fn from_fen(value: String) -> (r: Result<BoardState, ChessError>)
        ensures
            !fen_has_placement(value@) ==> r == Err::<BoardState, ChessError>(
                ChessError::Parsing(ParsingError::ErrorParsingFEN),
            ),
            fen_has_placement(value@) ==> ({
                &&& r matches Ok(st)
                &&& st.board@ == fen_board(value@)
                &&& st.white_to_move == fen_white(value@)
                &&& st.castling.rights == fen_rights(value@)
                &&& st.grabbed_piece is None
                &&& st.last_move is None
                &&& st.history@ == Seq::<Move>::empty()
                &&& st.threatmap@ == threat_of(
                    fen_board(value@),
                    fen_white(value@),
                    None,
                    fen_rights(value@),
                )
                &&& st.wf()
            }),
    {
        let fen = match Fen::parse(value) {
            Ok(f) => f,
            Err(e) => {
                return Err(ChessError::Parsing(e));
            },
        };
        let mut state = BoardState {
            board: fen.board,
            white_to_move: fen.white_to_move,
            grabbed_piece: None,
            last_move: None,
            castling: fen.castling,
            threatmap: [0u8; 64],
            history: Vec::new(),
        };
        state.update_threatmap();
        Ok(state)
    }

    /// Serializes this state's position as FEN text.
    pub fn as_fen(&self) -> (r: String)
        requires
            board_codes_valid(self.board@),
        ensures
            r@ == fen_text(self.board@, self.white_to_move, self.castling.rights),
    {
        Fen {
            board: self.board,
            white_to_move: self.white_to_move,
            castling: self.castling,
        }.to_string()
    }

    /// Whether a square index lies on the board.
    fn in_bounds(&self, ix: u8) -> (r: bool)
        ensures
            r == (ix < 64),
    {
        ix < 64
    }

    /// Plays a move: a no-op for a move that goes nowhere, a rejection
    /// leaving the state untouched for a move outside the legal set, and
    /// otherwise the full state transition of [`moved_state`].
    pub fn make_move(&mut self, mov: Move) -> (r: Result<(), ChessError>)
        requires
            old(self).wf(),
            move_wf(mov),
        ensures
            pos_ix(mov.from) == pos_ix(mov.to) ==> r is Ok && *final(self) == *old(self),
            pos_ix(mov.from) != pos_ix(mov.to) && !old(self).spec_is_legal(mov) ==> ({
                &&& r == Err::<(), ChessError>(ChessError::Move(MoveError::IllegalMove { mov }))
                &&& *final(self) == *old(self)
            }),
            pos_ix(mov.from) != pos_ix(mov.to) && old(self).spec_is_legal(mov) ==> ({
                &&& r is Ok
                &&& moved_state(*old(self), *final(self), mov)
                &&& final(self).grabbed_piece == old(self).grabbed_piece
                &&& final(self).wf()
            }),
    {
        if mov.from == mov.to {
            return Ok(());
        }
        if !self.is_legal(&mov) {
            return Err(ChessError::Move(MoveError::IllegalMove { mov }));
        }
        proof {
            let legal = self.spec_legal_moves();
            let k = choose|k: int| 0 <= k < legal.len() && move_eq(#[trigger] legal[k], mov);
            let m0 = legal[k];
            assert(legal.contains(m0));
            lemma_filter_legal_membership(
                self.board@,
                self.white_to_move,
                self.castling.rights,
                self.spec_all_moves(),
                m0,
            );
            let all = self.spec_all_moves();
            let k2 = choose|k2: int| 0 <= k2 < all.len() && all[k2] == m0;
            lemma_all_moves_ok(
                self.board@,
                self.white_to_move,
                self.last_move,
                self.castling.rights,
                self.threatmap@,
            );
            assert(gen_ok(self.board@, self.white_to_move, all[k2]));
            assert(is_piece_code(self.board@[pos_ix(mov.from)]));
        }
        match self.add_to_history(mov) {
            Ok(()) => {},
            Err(e) => {
                // unreachable: legality established that the from-square
                // holds a decodable piece
                proof {
                    assert(false);
                }
                return Err(e);
            },
        }
        self.move_piece(mov);
        if let Some(aux) = mov.castling {
            self.move_piece(Move::new(aux.0, aux.1));
        }
        self.update_castling_rights(&mov);
        self.pass_turn();
        Ok(())
    }

    /// Appends a piece-resolved copy of the move to the history; the piece
    /// is resolved before the board is mutated.
    fn add_to_history(&mut self, mov: Move) -> (r: Result<(), ChessError>)
        requires
            pos_wf(mov.from),
        ensures
            decode_piece(old(self).board@[pos_ix(mov.from)]) is Some ==> r is Ok && *final(self)
                == (BoardState {
                history: final(self).history,
                ..*old(self)
            }) && final(self).history@ == old(self).history@.push(
                resolved(mov, old(self).board@),
            ),
            decode_piece(old(self).board@[pos_ix(mov.from)]) is None ==> r is Err && *final(self)
                == *old(self),
    {
        let piece = match Piece::try_from_u8(self.board[mov.from.as_ix() as usize]) {
            Ok(p) => p,
            Err(e) => {
                return Err(ChessError::Piece(e));
            },
        };
        let mut recorded = mov;
        recorded.set_piece(piece);
        self.history.push(recorded);
        Ok(())
    }

    /// Recomputes the threat map for the current position.
    fn update_threatmap(&mut self)
        requires
            old(self).wf(),
        ensures
            *final(self) == (BoardState { threatmap: final(self).threatmap, ..*old(self) }),
            final(self).threatmap@ == threat_of(
                old(self).board@,
                old(self).white_to_move,
                old(self).last_move,
                old(self).castling.rights,
            ),
    {
        let t = compute_threat(&self.board, self.white_to_move, self.last_move, self.castling);
        self.threatmap = t;
    }

    /// Revokes castling rights after a move, judged on the already-mutated
    /// board: any king move revokes both of the mover's rights, and a rook
    /// move from an unmoved home corner revokes that corner's right.
    fn update_castling_rights(&mut self, mov: &Move)
        requires
            pos_wf(mov.from),
            pos_wf(mov.to),
        ensures
            *final(self) == (BoardState { castling: final(self).castling, ..*old(self) }),
            final(self).castling.rights == rights_after(
                old(self).board@,
                old(self).white_to_move,
                old(self).castling.rights,
                *mov,
            ),
    {
        // the move has already been made, so judge the piece on its
        // destination square
        let piece = Piece::try_from_u8(self.board[mov.to.as_ix() as usize]);
        let (ks_right, qs_right, ks_rook, qs_rook) = match self.white_to_move {
            true => (
                crate::piece::CastleRigthsMask::WhiteKingside,
                crate::piece::CastleRigthsMask::WhiteQueenside,
                63u8,
                56u8,
            ),
            false => (
                crate::piece::CastleRigthsMask::BlackKingside,
                crate::piece::CastleRigthsMask::BlackQueenside,
                7u8,
                0u8,
            ),
        };
        match piece {
            Ok(Piece::WhiteRook | Piece::BlackRook) => {
                if mov.from.as_ix() == ks_rook {
                    self.castling.unset(ks_right);
                }
                if mov.from.as_ix() == qs_rook {
                    self.castling.unset(qs_right);
                }
            },
            Ok(Piece::WhiteKing | Piece::BlackKing) => {
                self.castling.unset(ks_right);
                self.castling.unset(qs_right);
            },
            _ => {},
        }
    }

    /// Relocates a piece on the board: the moved (or promoted-to) piece
    /// lands on the destination, the origin is cleared, a captured
    /// en-passant square is cleared, and the move becomes the last move.
    fn move_piece(&mut self, mov: Move)
        requires
            move_wf(mov),
        ensures
            *final(self) == (BoardState {
                board: final(self).board,
                last_move: Some(mov),
                ..*old(self)
            }),
            final(self).board@ == apply_basic(old(self).board@, mov),
    {
        apply_move_to(&mut self.board, mov);
        self.last_move = Some(mov);
    }

    /// Grabs the piece on a square, failing without mutation when the
    /// square is out of bounds or empty or holds an opponent piece.
    pub fn grab_piece(&mut self, ix: u8) -> (r: Result<(), ChessError>)
        ensures
            grab_outcome(*old(self), *final(self), ix, r),
    {
        if !self.in_bounds(ix) {
            return Err(ChessError::Board(BoardError::OutOfBounds));
        }
        let piece = match Piece::try_from_u8(self.board[ix as usize]) {
            Ok(p) => p,
            Err(e) => {
                return Err(ChessError::Piece(e));
            },
        };
        if piece.is_white() != self.white_to_move {
            return Err(ChessError::Move(MoveError::WrongTurn));
        }
        self.grabbed_piece = Some(ix);
        Ok(())
    }

    /// Drops the grabbed piece onto a square: promotion to queen and a
    /// castling companion are inferred automatically, the move is handed
    /// to [`Self::make_move`], and the selection is cleared on success and
    /// preserved on failure.
    pub fn drop_piece(&mut self, ix: u8) -> (r: Result<(), ChessError>)
        requires
            old(self).wf(),
        ensures
            drop_outcome(*old(self), *final(self), ix, r),
    {
        match self.grabbed_piece {
            Some(grabbed) => {
                let piece = match Piece::try_from_u8(self.board[grabbed as usize]) {
                    Ok(p) => p,
                    Err(e) => {
                        return Err(ChessError::Piece(e));
                    },
                };
                let promotion = match piece {
                    Piece::BlackPawn if ix > 55 => Some(Piece::BlackQueen),
                    Piece::WhitePawn if ix < 8 => Some(Piece::WhiteQueen),
                    _ => None,
                };
                let castling = match piece {
                    Piece::BlackKing if grabbed == 4 && ix == 6 => Some((7u8, 5u8)),
                    Piece::BlackKing if grabbed == 4 && ix == 2 => Some((0u8, 3u8)),
                    Piece::WhiteKing if grabbed == 60 && ix == 62 => Some((63u8, 61u8)),
                    Piece::WhiteKing if grabbed == 60 && ix == 58 => Some((56u8, 59u8)),
                    _ => None,
                };
                let castling = match castling {
                    Some((f, t)) => Some((Position::Index { ix: f }, Position::Index { ix: t })),
                    None => None,
                };
                let mov = Move::new_with_all(
                    Position::Index { ix: grabbed },
                    Position::Index { ix },
                    promotion,
                    None,
                    castling,
                );
                if ix >= 64 {
                    return Err(ChessError::Move(MoveError::IllegalMove { mov }));
                }
                match self.make_move(mov) {
                    Ok(()) => {
                        self.grabbed_piece = None;
                        Ok(())
                    },
                    Err(e) => Err(e),
                }
            },
            None => Err(ChessError::Move(MoveError::NoPieceGrabbed)),
        }
    }

    /// Whether a piece is currently grabbed.
    pub fn has_grabbed_piece(&self) -> (r: bool)
        ensures
            r == (self.grabbed_piece is Some),
    {
        self.grabbed_piece.is_some()
    }

    /// Whether a move is contained in the legal move set, under move
    /// equality.
    pub fn is_legal(&self, mov: &Move) -> (r: bool)
        requires
            self.wf(),
        ensures
            r == self.spec_is_legal(*mov),
    {
        let legal = self.get_legal_moves();
        let mut k: usize = 0;
        while k < legal.len()
            invariant
                k <= legal@.len(),
                legal@ == self.spec_legal_moves(),
                forall|j: int| 0 <= j < k ==> !move_eq(#[trigger] legal@[j], *mov),
            decreases legal@.len() - k,
        {
            if legal[k] == *mov {
                proof {
                    assert(move_eq(legal@[k as int], *mov));
                }
                return true;
            }
            k = k + 1;
        }
        proof {
            if self.spec_is_legal(*mov) {
                let j = choose|j: int|
                    0 <= j < legal@.len() && move_eq(#[trigger] legal@[j], *mov);
                assert(false);
            }
        }
        false
    }

    /// The full pseudo-legal move set of the side to move, in board scan
    /// order.
    pub fn get_all_moves(&self) -> (r: Vec<Move>)
        requires
            self.wf(),
        ensures
            r@ == self.spec_all_moves(),
    {
        all_moves_exec(
            &self.board,
            self.white_to_move,
            self.last_move,
            self.castling,
            &self.threatmap,
        )
    }

    /// The legal move set: the pseudo-legal moves that do not leave the
    /// mover's own king threatened.
    pub fn get_legal_moves(&self) -> (r: Vec<Move>)
        requires
            self.wf(),
        ensures
            r@ == self.spec_legal_moves(),
    {
        let all = self.get_all_moves();
        proof {
            lemma_all_moves_ok(
                self.board@,
                self.white_to_move,
                self.last_move,
                self.castling.rights,
                self.threatmap@,
            );
        }
        let mut out: Vec<Move> = Vec::new();
        let mut k: usize = 0;
        while k < all.len()
            invariant
                k <= all@.len(),
                all@ == self.spec_all_moves(),
                forall|j: int|
                    0 <= j < all@.len() ==> gen_ok(
                        self.board@,
                        self.white_to_move,
                        #[trigger] all@[j],
                    ),
                out@ == filter_legal(
                    self.board@,
                    self.white_to_move,
                    self.castling.rights,
                    all@.subrange(0, k as int),
                ),
            decreases all@.len() - k,
        {
            let m = all[k];
            proof {
                assert(gen_ok(self.board@, self.white_to_move, all@[k as int]));
            }
            if !leaves_check_exec(&self.board, self.white_to_move, self.castling, m) {
                out.push(m);
            }
            proof {
                let sub1 = all@.subrange(0, k as int + 1);
                assert(sub1.drop_last() =~= all@.subrange(0, k as int));
                assert(sub1.last() == all@[k as int]);
            }
            k = k + 1;
        }
        proof {
            assert(all@.subrange(0, all@.len() as int) =~= all@);
        }
        out
    }

    /// The legal moves of the currently grabbed piece, for destination
    /// highlighting: its pseudo-legal moves, with every move that would
    /// leave the mover's own king threatened removed by the same legality
    /// oracle as [`Self::make_move`].
    pub open spec fn spec_grabbed_moves(self) -> Seq<Move> {
        match self.grabbed_piece {
            None => Seq::empty(),
            Some(g) => match decode_piece(self.board@[g as int]) {
                None => Seq::empty(),
                Some(p) => filter_legal(
                    self.board@,
                    self.white_to_move,
                    self.castling.rights,
                    piece_moves(
                        p,
                        self.board@,
                        g as int,
                        self.last_move,
                        self.castling.rights,
                        self.threatmap@,
                    ),
                ),
            },
        }
    }

    /// The legal moves of the currently grabbed piece, empty when nothing
    /// is grabbed or the grabbed square holds no decodable piece.
    pub fn get_grabbed_moves(&self) -> (r: Vec<Move>)
        requires
            self.wf(),
        ensures
            r@ == self.spec_grabbed_moves(),
    {
        let grabbed = match self.grabbed_piece {
            Some(g) => g,
            None => {
                return Vec::new();
            },
        };
        let piece = match Piece::try_from_u8(self.board[grabbed as usize]) {
            Ok(p) => p,
            Err(_) => {
                return Vec::new();
            },
        };
        let all = piece.get_moves(
            &self.board,
            grabbed,
            self.last_move,
            self.castling,
            &self.threatmap,
        );
        proof {
            lemma_piece_moves_from(
                piece,
                self.board@,
                grabbed as int,
                self.last_move,
                self.castling.rights,
                self.threatmap@,
            );
        }
        let mut out: Vec<Move> = Vec::new();
        let mut k: usize = 0;
        while k < all.len()
            invariant
                k <= all@.len(),
                all@ == piece_moves(
                    piece,
                    self.board@,
                    grabbed as int,
                    self.last_move,
                    self.castling.rights,
                    self.threatmap@,
                ),
                from_fixed(all@, grabbed as int),
                grabbed < 64,
                out@ == filter_legal(
                    self.board@,
                    self.white_to_move,
                    self.castling.rights,
                    all@.subrange(0, k as int),
                ),
            decreases all@.len() - k,
        {
            let m = all[k];
            proof {
                assert(move_wf(all@[k as int]));
            }
            if !leaves_check_exec(&self.board, self.white_to_move, self.castling, m) {
                out.push(m);
            }
            proof {
                let sub1 = all@.subrange(0, k as int + 1);
                assert(sub1.drop_last() =~= all@.subrange(0, k as int));
                assert(sub1.last() == all@[k as int]);
            }
            k = k + 1;
        }
        proof {
            assert(all@.subrange(0, all@.len() as int) =~= all@);
        }
        out
    }

    /// Whether a move would leave the mover's own king threatened; the
    /// simulation runs on private scratch copies and the state is left
    /// exactly as it was.
    pub fn leaves_king_in_check(&mut self, mov: Move) -> (r: bool)
        requires
            move_wf(mov),
        ensures
            *final(self) == *old(self),
            r == leaves_check(
                old(self).board@,
                old(self).white_to_move,
                old(self).castling.rights,
                mov,
            ),
    {
        leaves_check_exec(&self.board, self.white_to_move, self.castling, mov)
    }

    /// Flips the side to move and recomputes the threat map without moving
    /// a piece.
    pub fn pass_turn(&mut self)
        requires
            old(self).wf(),
        ensures
            *final(self) == (BoardState {
                white_to_move: !old(self).white_to_move,
                threatmap: final(self).threatmap,
                ..*old(self)
            }),
            final(self).threatmap@ == threat_of(
                old(self).board@,
                !old(self).white_to_move,
                old(self).last_move,
                old(self).castling.rights,
            ),
            final(self).wf(),
    {
        self.white_to_move = !self.white_to_move;
        self.update_threatmap();
    }
}

/// The game state together with the display orientation the surrounding
/// application renders it in.
#[derive(Clone, Debug)]
pub struct Board {
    pub state: BoardState,
    pub flipped_board: bool,
}

impl Board {
    /// Builds a board from a FEN string, unflipped.
    pub fn from_fen(fen: String) -> (r: Result<Board, ChessError>)
        ensures
            !fen_has_placement(fen@) ==> r == Err::<Board, ChessError>(
                ChessError::Parsing(ParsingError::ErrorParsingFEN),
            ),
            fen_has_placement(fen@) ==> ({
                &&& r matches Ok(b)
                &&& b.state.board@ == fen_board(fen@)
                &&& b.state.white_to_move == fen_white(fen@)
                &&& b.state.castling.rights == fen_rights(fen@)
                &&& b.state.grabbed_piece is None
                &&& b.state.last_move is None
                &&& b.state.history@ == Seq::<Move>::empty()
                &&& b.state.threatmap@ == threat_of(
                    fen_board(fen@),
                    fen_white(fen@),
                    None,
                    fen_rights(fen@),
                )
                &&& b.state.wf()
                &&& !b.flipped_board
            }),
    {
        match BoardState::from_fen(fen) {
            Ok(state) => Ok(Board { state, flipped_board: false }),
            Err(e) => Err(e),
        }
    }

    /// Serializes the position as FEN text.
    pub fn as_fen(&self) -> (r: String)
        requires
            board_codes_valid(self.state.board@),
        ensures
            r@ == fen_text(
                self.state.board@,
                self.state.white_to_move,
                self.state.castling.rights,
            ),
    {
        self.state.as_fen()
    }

    /// Whether a position resolves to a square on the board.
    pub fn in_bounds(&self, pos: Position) -> (r: bool)
        requires
            pos_wf(pos),
        ensures
            r == (pos_ix(pos) < 64),
    {
        self.state.in_bounds(pos.as_ix())
    }

    /// Plays a move; see [`BoardState::make_move`].
    pub fn make_move(&mut self, mov: Move) -> (r: Result<(), ChessError>)
        requires
            old(self).state.wf(),
            move_wf(mov),
        ensures
            final(self).flipped_board == old(self).flipped_board,
            pos_ix(mov.from) == pos_ix(mov.to) ==> r is Ok && final(self).state == old(
                self,
            ).state,
            pos_ix(mov.from) != pos_ix(mov.to) && !old(self).state.spec_is_legal(mov) ==> ({
                &&& r == Err::<(), ChessError>(ChessError::Move(MoveError::IllegalMove { mov }))
                &&& final(self).state == old(self).state
            }),
            pos_ix(mov.from) != pos_ix(mov.to) && old(self).state.spec_is_legal(mov) ==> ({
                &&& r is Ok
                &&& moved_state(old(self).state, final(self).state, mov)
                &&& final(self).state.grabbed_piece == old(self).state.grabbed_piece
                &&& final(self).state.wf()
            }),
    {
        self.state.make_move(mov)
    }

    /// Grabs the piece on a square; see [`BoardState::grab_piece`].
    pub fn grab_piece(&mut self, pos: Position) -> (r: Result<(), ChessError>)
        requires
            pos_wf(pos),
        ensures
            final(self).flipped_board == old(self).flipped_board,
            grab_outcome(old(self).state, final(self).state, pos_ix(pos) as u8, r),
    {
        self.state.grab_piece(pos.as_ix())
    }

    /// Drops the grabbed piece onto a square; see
    /// [`BoardState::drop_piece`].
    pub fn drop_piece(&mut self, pos: Position) -> (r: Result<(), ChessError>)
        requires
            pos_wf(pos),
            old(self).state.wf(),
        ensures
            final(self).flipped_board == old(self).flipped_board,
            drop_outcome(old(self).state, final(self).state, pos_ix(pos) as u8, r),
    {
        self.state.drop_piece(pos.as_ix())
    }

    /// Whether a piece is currently grabbed.
    pub fn has_grabbed_piece(&self) -> (r: bool)
        ensures
            r == (self.state.grabbed_piece is Some),
    {
        self.state.has_grabbed_piece()
    }

    /// Whether white is to move.
    pub fn white_to_move(&self) -> (r: bool)
        ensures
            r == self.state.white_to_move,
    {
        self.state.white_to_move
    }

    /// The legal move set of the side to move.
    pub fn get_legal_moves(&self) -> (r: Vec<Move>)
        requires
            self.state.wf(),
        ensures
            r@ == self.state.spec_legal_moves(),
    {
        self.state.get_legal_moves()
    }

    /// The legal moves of the currently grabbed piece, for destination
    /// highlighting; see [`BoardState::get_grabbed_moves`].
    pub fn get_grabbed_moves(&self) -> (r: Vec<Move>)
        requires
            self.state.wf(),
        ensures
            r@ == self.state.spec_grabbed_moves(),
    {
        self.state.get_grabbed_moves()
    }

    /// Flips the side to move without moving a piece.
    pub fn pass_turn(&mut self)
        requires
            old(self).state.wf(),
        ensures
            final(self).flipped_board == old(self).flipped_board,
            final(self).state == (BoardState {
                white_to_move: !old(self).state.white_to_move,
                threatmap: final(self).state.threatmap,
                ..old(self).state
            }),
            final(self).state.threatmap@ == threat_of(
                old(self).state.board@,
                !old(self).state.white_to_move,
                old(self).state.last_move,
                old(self).state.castling.rights,
            ),
            final(self).state.wf(),
    {
        self.state.pass_turn()
    }

    /// Sets the display orientation.
    pub fn set_flipped(&mut self, flipped: bool)
        ensures
            *final(self) == (Board { flipped_board: flipped, ..*old(self) }),
    {
        self.flipped_board = flipped;
    }

    /// The move history, in play order.
    pub fn get_history(&self) -> (r: Vec<Move>)
        ensures
            r@ == self.state.history@,
    {
        let mut out: Vec<Move> = Vec::new();
        let mut i: usize = 0;
        while i < self.state.history.len()
            invariant
                i <= self.state.history@.len(),
                out@ =~= self.state.history@.subrange(0, i as int),
            decreases self.state.history@.len() - i,
        {
            out.push(self.state.history[i]);
            i = i + 1;
        }
        proof {
            assert(out@ =~= self.state.history@);
        }
        out
    }
}

/// A move starting on square `j0` lies in the pseudo-legal set generated
/// from squares `i..64` exactly when square `j0` holds a piece of the side
/// to move whose own move set contains it.
pub proof fn lemma_square_membership(
    board: Seq<u8>,
    white: bool,
    last: Option<Move>,
    rights: u8,
    threat: Seq<u8>,
    i: int,
    j0: int,
    m: Move,
)
    requires
        0 <= i <= j0 < 64,
        pos_ix(m.from) == j0,
    ensures
        all_moves_from(board, white, last, rights, threat, i).contains(m) <==> (match decode_piece(
            board[j0],
        ) {
            Some(p) => piece_white(p) == white && piece_moves(
                p,
                board,
                j0,
                last,
                rights,
                threat,
            ).contains(m),
            None => false,
        }),
    decreases j0 - i,
{
    let seg = match decode_piece(board[i]) {
        Some(p) => if piece_white(p) == white {
            piece_moves(p, board, i, last, rights, threat)
        } else {
            Seq::<Move>::empty()
        },
        None => Seq::<Move>::empty(),
    };
    let rest = all_moves_from(board, white, last, rights, threat, i + 1);
    assert(all_moves_from(board, white, last, rights, threat, i) == seg + rest);
    match decode_piece(board[i]) {
        Some(p) => {
            if piece_white(p) == white {
                lemma_piece_moves_from(p, board, i, last, rights, threat);
            }
        },
        None => {},
    }
    if i == j0 {
        lemma_all_moves_from_ok(board, white, last, rights, threat, i + 1);
        if (seg + rest).contains(m) {
            let k = choose|k: int| 0 <= k < (seg + rest).len() && (seg + rest)[k] == m;
            if k < seg.len() {
                assert(seg[k] == m);
                assert(seg.contains(m));
            } else {
                assert(rest[k - seg.len()] == m);
                assert(pos_ix(rest[k - seg.len()].from) >= i + 1);
                assert(false);
            }
        }
        match decode_piece(board[j0]) {
            Some(p) => {
                if piece_white(p) == white && piece_moves(
                    p,
                    board,
                    j0,
                    last,
                    rights,
                    threat,
                ).contains(m) {
                    let k = choose|k: int| 0 <= k < seg.len() && seg[k] == m;
                    assert((seg + rest)[k] == m);
                    assert((seg + rest).contains(m));
                }
            },
            None => {},
        }
    } else {
        lemma_square_membership(board, white, last, rights, threat, i + 1, j0, m);
        if (seg + rest).contains(m) {
            let k = choose|k: int| 0 <= k < (seg + rest).len() && (seg + rest)[k] == m;
            if k < seg.len() {
                assert(seg[k] == m);
                assert(seg[k].from == (Position::Index { ix: i as u8 }));
                assert(false);
            } else {
                assert(rest[k - seg.len()] == m);
                assert(rest.contains(m));
            }
        }
        if rest.contains(m) {
            let k = choose|k: int| 0 <= k < rest.len() && rest[k] == m;
            assert((seg + rest)[seg.len() + k] == m);
            assert((seg + rest).contains(m));
        }
    }
}

/// Kingside castling is generated exactly when the kingside right is held,
/// both squares between king and rook are empty, and the king's start,
/// transit and landing squares are all unthreatened; with
/// [`lemma_legal_is_filtered_pseudo_legal`] the same characterization
/// carries over to the legal move set up to the check filter.
pub proof fn lemma_castle_kingside(s: BoardState)
    requires
        s.board@[if s.white_to_move {
            60int
        } else {
            4int
        }] == king_code(s.white_to_move),
    ensures
        ({
            let home: int = if s.white_to_move {
                60
            } else {
                4
            };
            s.spec_all_moves().contains(mk_castle(home, home + 2, home + 3, home + 1)) <==> ({
                &&& s.castling.rights & ks_bit(s.white_to_move) != 0
                &&& board_empty_range(s.board@, home + 1, home + 2)
                &&& threat_clear_range(s.threatmap@, home, home + 2)
            })
        }),
{
    let white = s.white_to_move;
    let home: int = if white {
        60
    } else {
        4
    };
    let m = mk_castle(home, home + 2, home + 3, home + 1);
    let p = if white {
        Piece::WhiteKing
    } else {
        Piece::BlackKing
    };
    assert(decode_piece(s.board@[home]) == Some(p));
    assert(pos_ix(m.from) == home);
    lemma_square_membership(
        s.board@,
        white,
        s.last_move,
        s.castling.rights,
        s.threatmap@,
        0,
        home,
        m,
    );
    let sliding = sliding_moves(p, s.board@, home);
    let castles = castle_moves(s.board@, white, home, s.castling.rights, s.threatmap@);
    assert(piece_moves(p, s.board@, home, s.last_move, s.castling.rights, s.threatmap@) == sliding
        + castles);
    lemma_slide_range_plain(s.board@, white, home, true, 0, 8);
    let ks_ok = s.castling.rights & ks_bit(white) != 0 && board_empty_range(
        s.board@,
        home + 1,
        home + 2,
    ) && threat_clear_range(s.threatmap@, home, home + 2);
    let ksm: Seq<Move> = if ks_ok {
        seq![m]
    } else {
        Seq::empty()
    };
    if ks_ok {
        assert(castles[0] == m);
        assert((sliding + castles)[sliding.len() as int] == m);
        assert((sliding + castles).contains(m));
    }
    if (sliding + castles).contains(m) {
        let k = choose|k: int| 0 <= k < (sliding + castles).len() && (sliding + castles)[k] == m;
        if k < sliding.len() {
            assert(sliding[k] == m);
            assert(sliding[k].castling is None);
            assert(false);
        } else {
            let k2 = k - sliding.len();
            assert(castles[k2] == m);
            if !ks_ok {
                assert(castles[k2] == mk_castle(home, home - 2, home - 4, home - 1));
                assert(pos_ix(castles[k2].to) == home - 2);
                assert(pos_ix(m.to) == home + 2);
                assert(false);
            }
        }
    }
}

/// Kingside castling lies in the legal move set exactly when the right is
/// held, the squares between king and rook are empty, the king's start,
/// transit and landing squares are unthreatened, and the move passes the
/// check filter like every other move.
pub proof fn lemma_castle_kingside_legal(s: BoardState)
    requires
        s.board@[if s.white_to_move {
            60int
        } else {
            4int
        }] == king_code(s.white_to_move),
    ensures
        ({
            let home: int = if s.white_to_move {
                60
            } else {
                4
            };
            let m = mk_castle(home, home + 2, home + 3, home + 1);
            s.spec_legal_moves().contains(m) <==> ({
                &&& s.castling.rights & ks_bit(s.white_to_move) != 0
                &&& board_empty_range(s.board@, home + 1, home + 2)
                &&& threat_clear_range(s.threatmap@, home, home + 2)
                &&& !leaves_check(s.board@, s.white_to_move, s.castling.rights, m)
            })
        }),
{
    let home: int = if s.white_to_move {
        60
    } else {
        4
    };
    let m = mk_castle(home, home + 2, home + 3, home + 1);
    lemma_castle_kingside(s);
    lemma_legal_is_filtered_pseudo_legal(s, m);
}

/// A move lies in the legal move set exactly when it is pseudo-legal and
/// does not leave the mover's own king threatened: every move that leaves
/// the king threatened is absent from the legal move set even though it
/// appears in the pseudo-legal move set.
pub proof fn lemma_legal_is_filtered_pseudo_legal(s: BoardState, m: Move)
    ensures
        s.spec_legal_moves().contains(m) <==> s.spec_all_moves().contains(m) && !leaves_check(
            s.board@,
            s.white_to_move,
            s.castling.rights,
            m,
        ),
{
    lemma_filter_legal_membership(
        s.board@,
        s.white_to_move,
        s.castling.rights,
        s.spec_all_moves(),
        m,
    );
}

} // verus!
