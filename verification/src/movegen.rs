//! Per-piece pseudo-legal move generation: sliding rays, knight leaps, pawn
//! pushes and captures with promotion expansion, en-passant detection, and
//! castling, given board, last move, castling rights, and a threat map.
//!
//! Every generator is specified by a spec function that defines exactly the
//! sequence of moves produced, and the executable code is proved to return
//! that sequence.

use vstd::prelude::*;

use crate::piece::{
    code_white, decode_piece, is_piece_code, piece_white, CastleRights, CastleRigthsMask, Piece,
};
use crate::position::{move_wf, pos_ix, pos_wf, Move, Position};

verus! {

/// A plain generated move between two square indices.
pub open spec fn mk_move(from: int, to: int) -> Move {
    Move {
        from: Position::Index { ix: from as u8 },
        to: Position::Index { ix: to as u8 },
        promotion: None,
        en_passant: None,
        castling: None,
        piece: None,
    }
}

/// A generated move carrying a promotion piece.
pub open spec fn mk_promo(from: int, to: int, p: Option<Piece>) -> Move {
    Move {
        from: Position::Index { ix: from as u8 },
        to: Position::Index { ix: to as u8 },
        promotion: p,
        en_passant: None,
        castling: None,
        piece: None,
    }
}

/// A generated en-passant capture; the captured square is distinct from the
/// destination.
pub open spec fn mk_ep(from: int, to: int, captured: int) -> Move {
    Move {
        from: Position::Index { ix: from as u8 },
        to: Position::Index { ix: to as u8 },
        promotion: None,
        en_passant: Some(Position::Index { ix: captured as u8 }),
        castling: None,
        piece: None,
    }
}

/// A generated castling move with its rook companion.
pub open spec fn mk_castle(from: int, to: int, rook_from: int, rook_to: int) -> Move {
    Move {
        from: Position::Index { ix: from as u8 },
        to: Position::Index { ix: to as u8 },
        promotion: None,
        en_passant: None,
        castling: Some(
            (Position::Index { ix: rook_from as u8 }, Position::Index { ix: rook_to as u8 }),
        ),
        piece: None,
    }
}

/// The row step of sliding direction `d`; the eight directions are down,
/// up, right, left, down-left, up-right, down-right, up-left, with rows
/// growing toward rank 1.
pub open spec fn sdir_dr(d: int) -> int {
    if d == 0 {
        1
    } else if d == 1 {
        -1
    } else if d == 2 {
        0
    } else if d == 3 {
        0
    } else if d == 4 {
        1
    } else if d == 5 {
        -1
    } else if d == 6 {
        1
    } else {
        -1
    }
}

/// The column step of sliding direction `d`.
pub open spec fn sdir_dc(d: int) -> int {
    if d == 0 {
        0
    } else if d == 1 {
        0
    } else if d == 2 {
        1
    } else if d == 3 {
        -1
    } else if d == 4 {
        -1
    } else if d == 5 {
        1
    } else if d == 6 {
        1
    } else {
        -1
    }
}

/// An upper bound on the steps a ray can still take before leaving the
/// board; it strictly shrinks with each step.
pub open spec fn ray_fuel(r: int, c: int, dr: int, dc: int) -> int {
    if dr > 0 {
        7 - r
    } else if dr < 0 {
        r
    } else if dc > 0 {
        7 - c
    } else {
        c
    }
}

/// The moves a ray from `origin` produces, continuing from square (r, c):
/// one step at a time until the board edge, a friendly piece (excluded), or
/// an enemy piece (included as a capture); a square value that encodes no
/// piece is passed through like an empty square.  A king's ray stops after
/// a single step.
pub open spec fn ray_moves(
    board: Seq<u8>,
    white: bool,
    origin: int,
    r: int,
    c: int,
    dr: int,
    dc: int,
    king: bool,
) -> Seq<Move>
    decreases ray_fuel(r, c, dr, dc),
{
    if !(0 <= r < 8 && 0 <= c < 8 && -1 <= dr <= 1 && -1 <= dc <= 1 && !(dr == 0 && dc == 0)) {
        Seq::empty()
    } else {
        let r2 = r + dr;
        let c2 = c + dc;
        if !(0 <= r2 < 8 && 0 <= c2 < 8) {
            Seq::empty()
        } else {
            let t = board[r2 * 8 + c2];
            if is_piece_code(t) {
                if code_white(t) != white {
                    seq![mk_move(origin, r2 * 8 + c2)]
                } else {
                    Seq::empty()
                }
            } else if king {
                seq![mk_move(origin, r2 * 8 + c2)]
            } else {
                seq![mk_move(origin, r2 * 8 + c2)] + ray_moves(
                    board,
                    white,
                    origin,
                    r2,
                    c2,
                    dr,
                    dc,
                    king,
                )
            }
        }
    }
}

/// The concatenated rays of directions `d..hi` from one origin square.
pub open spec fn slide_range(
    board: Seq<u8>,
    white: bool,
    origin: int,
    king: bool,
    d: int,
    hi: int,
) -> Seq<Move>
    decreases hi - d,
{
    if d < 0 || d >= hi {
        Seq::empty()
    } else {
        ray_moves(board, white, origin, origin / 8, origin % 8, sdir_dr(d), sdir_dc(d), king)
            + slide_range(board, white, origin, king, d + 1, hi)
    }
}

/// The sliding moves of the piece encoded on `pos`: all eight directions
/// for queens and kings (a king stepping only once), the four orthogonal
/// directions for rooks, the four diagonals for bishops, and nothing for
/// any other square value.  Captures are judged against the mover's color.
pub open spec fn sliding_moves(p: Piece, board: Seq<u8>, pos: int) -> Seq<Move> {
    let white = piece_white(p);
    match decode_piece(board[pos]) {
        Some(q) => match q {
            Piece::WhiteQueen | Piece::BlackQueen => slide_range(board, white, pos, false, 0, 8),
            Piece::WhiteKing | Piece::BlackKing => slide_range(board, white, pos, true, 0, 8),
            Piece::WhiteRook | Piece::BlackRook => slide_range(board, white, pos, false, 0, 4),
            Piece::WhiteBishop | Piece::BlackBishop => slide_range(board, white, pos, false, 4, 8),
            _ => Seq::empty(),
        },
        None => Seq::empty(),
    }
}

/// The row step of knight leap `d`.
pub open spec fn kdir_dr(d: int) -> int {
    if d == 0 {
        1
    } else if d == 1 {
        -1
    } else if d == 2 {
        1
    } else if d == 3 {
        -1
    } else if d == 4 {
        2
    } else if d == 5 {
        -2
    } else if d == 6 {
        2
    } else {
        -2
    }
}

/// The column step of knight leap `d`.
pub open spec fn kdir_dc(d: int) -> int {
    if d == 0 {
        -2
    } else if d == 1 {
        2
    } else if d == 2 {
        2
    } else if d == 3 {
        -2
    } else if d == 4 {
        -1
    } else if d == 5 {
        1
    } else if d == 6 {
        1
    } else {
        -1
    }
}

/// The move of a single knight leap, if it stays on the board and does not
/// land on a friendly piece.
pub open spec fn knight_leap(
    board: Seq<u8>,
    white: bool,
    origin: int,
    dr: int,
    dc: int,
) -> Seq<Move> {
    let r2 = origin / 8 + dr;
    let c2 = origin % 8 + dc;
    if !(0 <= r2 < 8 && 0 <= c2 < 8) {
        Seq::empty()
    } else {
        let t = board[r2 * 8 + c2];
        if is_piece_code(t) {
            if code_white(t) != white {
                seq![mk_move(origin, r2 * 8 + c2)]
            } else {
                Seq::empty()
            }
        } else {
            seq![mk_move(origin, r2 * 8 + c2)]
        }
    }
}

/// The concatenated knight leaps `d..8` from one origin square.
pub open spec fn knight_range(board: Seq<u8>, white: bool, origin: int, d: int) -> Seq<Move>
    decreases 8 - d,
{
    if d < 0 || d >= 8 {
        Seq::empty()
    } else {
        knight_leap(board, white, origin, kdir_dr(d), kdir_dc(d)) + knight_range(
            board,
            white,
            origin,
            d + 1,
        )
    }
}

/// All eight knight leaps from one origin square.
pub open spec fn knight_moves(board: Seq<u8>, white: bool, origin: int) -> Seq<Move> {
    knight_range(board, white, origin, 0)
}

/// Whether a pawn move landing on `to` reaches the mover's farthest rank.
pub open spec fn is_promoting(white: bool, to: int) -> bool {
    (white && to < 8) || (!white && to > 55)
}

/// A pawn move, expanded into one move per promotion piece (queen, rook,
/// bishop, knight) when it lands on the farthest rank, and into a single
/// move with no promotion otherwise.
pub open spec fn promo_seq(white: bool, from: int, to: int) -> Seq<Move> {
    if is_promoting(white, to) {
        if white {
            seq![
                mk_promo(from, to, Some(Piece::WhiteQueen)),
                mk_promo(from, to, Some(Piece::WhiteRook)),
                mk_promo(from, to, Some(Piece::WhiteBishop)),
                mk_promo(from, to, Some(Piece::WhiteKnight)),
            ]
        } else {
            seq![
                mk_promo(from, to, Some(Piece::BlackQueen)),
                mk_promo(from, to, Some(Piece::BlackRook)),
                mk_promo(from, to, Some(Piece::BlackBishop)),
                mk_promo(from, to, Some(Piece::BlackKnight)),
            ]
        }
    } else {
        seq![mk_promo(from, to, None)]
    }
}

/// The row a pawn moves toward, as a step: white pawns move toward rank 8
/// at the top of the array, that is, toward smaller rows.
pub open spec fn pawn_dr(white: bool) -> int {
    if white {
        -1
    } else {
        1
    }
}

/// Whether a pawn on row `r` still stands on its home rank.
pub open spec fn pawn_home(white: bool, r: int) -> bool {
    if white {
        r == 6
    } else {
        r == 1
    }
}

/// A pawn's forward moves: one square ahead if that square is empty, and
/// two squares ahead additionally if the pawn stands on its home rank and
/// both intervening squares are empty.
pub open spec fn pawn_forward(board: Seq<u8>, white: bool, pos: int) -> Seq<Move> {
    let r = pos / 8;
    let c = pos % 8;
    let r1 = r + pawn_dr(white);
    if 0 <= r1 < 8 && board[r1 * 8 + c] == 0 {
        promo_seq(white, pos, r1 * 8 + c) + (if pawn_home(white, r) {
            let r2 = r + 2 * pawn_dr(white);
            if board[r2 * 8 + c] == 0 {
                promo_seq(white, pos, r2 * 8 + c)
            } else {
                Seq::empty()
            }
        } else {
            Seq::empty()
        })
    } else {
        Seq::empty()
    }
}

/// A pawn's diagonal capture toward column offset `dc`, taken only when
/// the target square holds an enemy piece.
pub open spec fn pawn_capture(board: Seq<u8>, white: bool, pos: int, dc: int) -> Seq<Move> {
    let r1 = pos / 8 + pawn_dr(white);
    let c1 = pos % 8 + dc;
    if 0 <= r1 < 8 && 0 <= c1 < 8 && is_piece_code(board[r1 * 8 + c1]) && code_white(
        board[r1 * 8 + c1],
    ) != white {
        promo_seq(white, pos, r1 * 8 + c1)
    } else {
        Seq::empty()
    }
}

/// A pawn's en-passant capture: offered only when a last move exists, the
/// piece now on its destination is a pawn, that move crossed two rows,
/// ended on the capturing pawn's row in an adjacent column, and the
/// diagonally-forward destination lies on the board.  The captured square
/// is the pushed pawn's square, not the destination.
pub open spec fn ep_moves(board: Seq<u8>, white: bool, pos: int, last: Option<Move>) -> Seq<Move> {
    match last {
        None => Seq::empty(),
        Some(m) => {
            let tix = pos_ix(m.to);
            let fix = pos_ix(m.from);
            let r = pos / 8;
            let c = pos % 8;
            let r1 = r + pawn_dr(white);
            if pos_wf(m.to) && pos_wf(m.from) && (decode_piece(board[tix]) == Some(Piece::WhitePawn)
                || decode_piece(board[tix]) == Some(Piece::BlackPawn)) && (fix / 8 - tix / 8 == 2
                || tix / 8 - fix / 8 == 2) && tix / 8 == r && (tix % 8 - c == 1 || c - tix % 8 == 1)
                && 0 <= r1 < 8 {
                seq![mk_ep(pos, r1 * 8 + tix % 8, tix)]
            } else {
                Seq::empty()
            }
        },
    }
}

/// All moves of a pawn: forward pushes, the two diagonal captures, then
/// en passant.
pub open spec fn pawn_moves(board: Seq<u8>, white: bool, pos: int, last: Option<Move>) -> Seq<
    Move,
> {
    pawn_forward(board, white, pos) + pawn_capture(board, white, pos, -1) + pawn_capture(
        board,
        white,
        pos,
        1,
    ) + ep_moves(board, white, pos, last)
}

/// Whether every square of `lo..=hi` is empty.
pub open spec fn board_empty_range(board: Seq<u8>, lo: int, hi: int) -> bool {
    forall|i: int| lo <= i <= hi ==> board[i] == 0
}

/// Whether no square of `lo..=hi` is marked on the threat map.
pub open spec fn threat_clear_range(threat: Seq<u8>, lo: int, hi: int) -> bool {
    forall|i: int| lo <= i <= hi ==> threat[i] == 0
}

/// The kingside castling-rights bit for a side.
pub open spec fn ks_bit(white: bool) -> u8 {
    if white {
        8
    } else {
        2
    }
}

/// The queenside castling-rights bit for a side.
pub open spec fn qs_bit(white: bool) -> u8 {
    if white {
        4
    } else {
        1
    }
}

/// The castling moves of a king standing on its home square: for each wing
/// with an unrevoked right, every square between king and rook must be
/// empty and every square of the king's path, its start and landing square
/// included, must be unthreatened; the emitted move sends the king two
/// files toward the rook and carries the rook's relocation onto the square
/// the king skipped.
pub open spec fn castle_moves(
    board: Seq<u8>,
    white: bool,
    pos: int,
    rights: u8,
    threat: Seq<u8>,
) -> Seq<Move> {
    let home: int = if white {
        60
    } else {
        4
    };
    if pos != home {
        Seq::empty()
    } else {
        let ksm: Seq<Move> = if rights & ks_bit(white) != 0 && board_empty_range(
            board,
            home + 1,
            home + 2,
        ) && threat_clear_range(threat, home, home + 2) {
            seq![mk_castle(home, home + 2, home + 3, home + 1)]
        } else {
            Seq::empty()
        };
        let qsm: Seq<Move> = if rights & qs_bit(white) != 0 && board_empty_range(
            board,
            home - 3,
            home - 1,
        ) && threat_clear_range(threat, home - 2, home) {
            seq![mk_castle(home, home - 2, home - 4, home - 1)]
        } else {
            Seq::empty()
        };
        ksm + qsm
    }
}

/// Every move piece `p` standing on `pos` generates: sliding moves plus
/// castling for kings, sliding moves for queens, rooks and bishops, leaps
/// for knights, and pushes, captures and en passant for pawns.
pub open spec fn piece_moves(
    p: Piece,
    board: Seq<u8>,
    pos: int,
    last: Option<Move>,
    rights: u8,
    threat: Seq<u8>,
) -> Seq<Move> {
    match p {
        Piece::BlackKing | Piece::WhiteKing => sliding_moves(p, board, pos) + castle_moves(
            board,
            piece_white(p),
            pos,
            rights,
            threat,
        ),
        Piece::BlackQueen | Piece::WhiteQueen => sliding_moves(p, board, pos),
        Piece::BlackRook | Piece::WhiteRook => sliding_moves(p, board, pos),
        Piece::BlackBishop | Piece::WhiteBishop => sliding_moves(p, board, pos),
        Piece::BlackKnight | Piece::WhiteKnight => knight_moves(
            board,
            piece_white(p),
            pos as int,
        ),
        Piece::BlackPawn | Piece::WhitePawn => pawn_moves(board, piece_white(p), pos, last),
    }
}

/// Whether every move of a generated sequence starts at `origin` and
/// carries only on-board coordinates.
pub open spec fn from_fixed(ms: Seq<Move>, origin: int) -> bool {
    forall|k: int|
        0 <= k < ms.len() ==> (#[trigger] ms[k]).from == (Position::Index { ix: origin as u8 })
            && move_wf(ms[k])
}

/// Every move of a ray starts at its origin and stays on the board.
pub proof fn lemma_ray_moves_from(
    board: Seq<u8>,
    white: bool,
    origin: int,
    r: int,
    c: int,
    dr: int,
    dc: int,
    king: bool,
)
    requires
        0 <= origin < 64,
    ensures
        from_fixed(ray_moves(board, white, origin, r, c, dr, dc, king), origin),
    decreases ray_fuel(r, c, dr, dc),
{
    if 0 <= r < 8 && 0 <= c < 8 && -1 <= dr <= 1 && -1 <= dc <= 1 && !(dr == 0 && dc == 0) {
        let r2 = r + dr;
        let c2 = c + dc;
        if 0 <= r2 < 8 && 0 <= c2 < 8 {
            let t = board[r2 * 8 + c2];
            if !is_piece_code(t) && !king {
                lemma_ray_moves_from(board, white, origin, r2, c2, dr, dc, king);
            }
        }
    }
}

/// Every sliding move of directions `d..hi` starts at its origin.
pub proof fn lemma_slide_range_from(
    board: Seq<u8>,
    white: bool,
    origin: int,
    king: bool,
    d: int,
    hi: int,
)
    requires
        0 <= origin < 64,
    ensures
        from_fixed(slide_range(board, white, origin, king, d, hi), origin),
    decreases hi - d,
{
    if 0 <= d < hi {
        lemma_ray_moves_from(
            board,
            white,
            origin,
            origin / 8,
            origin % 8,
            sdir_dr(d),
            sdir_dc(d),
            king,
        );
        lemma_slide_range_from(board, white, origin, king, d + 1, hi);
    }
}

/// Every knight leap of `d..8` starts at its origin.
pub proof fn lemma_knight_range_from(board: Seq<u8>, white: bool, origin: int, d: int)
    requires
        0 <= origin < 64,
    ensures
        from_fixed(knight_range(board, white, origin, d), origin),
    decreases 8 - d,
{
    if 0 <= d < 8 {
        lemma_knight_range_from(board, white, origin, d + 1);
    }
}

/// No sliding move carries a castling companion.
pub proof fn lemma_ray_moves_plain(
    board: Seq<u8>,
    white: bool,
    origin: int,
    r: int,
    c: int,
    dr: int,
    dc: int,
    king: bool,
)
    ensures
        forall|k: int|
            0 <= k < ray_moves(board, white, origin, r, c, dr, dc, king).len() ==> (#[trigger] ray_moves(
                board,
                white,
                origin,
                r,
                c,
                dr,
                dc,
                king,
            )[k]).castling is None,
    decreases ray_fuel(r, c, dr, dc),
{
    if 0 <= r < 8 && 0 <= c < 8 && -1 <= dr <= 1 && -1 <= dc <= 1 && !(dr == 0 && dc == 0) {
        let r2 = r + dr;
        let c2 = c + dc;
        if 0 <= r2 < 8 && 0 <= c2 < 8 {
            let t = board[r2 * 8 + c2];
            if !is_piece_code(t) && !king {
                lemma_ray_moves_plain(board, white, origin, r2, c2, dr, dc, king);
            }
        }
    }
}

/// No sliding move of directions `d..hi` carries a castling companion.
pub proof fn lemma_slide_range_plain(
    board: Seq<u8>,
    white: bool,
    origin: int,
    king: bool,
    d: int,
    hi: int,
)
    ensures
        forall|k: int|
            0 <= k < slide_range(board, white, origin, king, d, hi).len() ==> (#[trigger] slide_range(
                board,
                white,
                origin,
                king,
                d,
                hi,
            )[k]).castling is None,
    decreases hi - d,
{
    if 0 <= d < hi {
        lemma_ray_moves_plain(
            board,
            white,
            origin,
            origin / 8,
            origin % 8,
            sdir_dr(d),
            sdir_dc(d),
            king,
        );
        lemma_slide_range_plain(board, white, origin, king, d + 1, hi);
    }
}

/// Every promotion-expanded pawn move starts at its origin.
pub proof fn lemma_promo_seq_from(white: bool, from: int, to: int)
    requires
        0 <= from < 64,
        0 <= to < 64,
    ensures
        from_fixed(promo_seq(white, from, to), from),
{
}

/// Every pawn move starts at its own square.
pub proof fn lemma_pawn_moves_from(board: Seq<u8>, white: bool, pos: int, last: Option<Move>)
    requires
        0 <= pos < 64,
    ensures
        from_fixed(pawn_moves(board, white, pos, last), pos),
{
    let r = pos / 8;
    let c = pos % 8;
    let r1 = r + pawn_dr(white);
    if 0 <= r1 < 8 && board[r1 * 8 + c] == 0 {
        lemma_promo_seq_from(white, pos, r1 * 8 + c);
        if pawn_home(white, r) {
            let r2 = r + 2 * pawn_dr(white);
            if board[r2 * 8 + c] == 0 {
                lemma_promo_seq_from(white, pos, r2 * 8 + c);
            }
        }
    }
    if 0 <= r1 < 8 && 0 <= c - 1 {
        lemma_promo_seq_from(white, pos, r1 * 8 + (c - 1));
    }
    if 0 <= r1 < 8 && c + 1 < 8 {
        lemma_promo_seq_from(white, pos, r1 * 8 + (c + 1));
    }
}

/// Every forward push and every diagonal capture a pawn generates onto
/// its farthest rank carries a promotion piece — a queen, rook, bishop or
/// knight — and never an empty promotion field; a push or capture landing
/// anywhere else carries none.
pub proof fn lemma_pawn_promotion_expanded(board: Seq<u8>, white: bool, pos: int, dc: int)
    requires
        0 <= pos < 64,
    ensures
        forall|k: int|
            0 <= k < pawn_forward(board, white, pos).len() ==> ((#[trigger] pawn_forward(
                board,
                white,
                pos,
            )[k]).promotion is Some <==> is_promoting(
                white,
                pos_ix(pawn_forward(board, white, pos)[k].to),
            )),
        forall|k: int|
            0 <= k < pawn_capture(board, white, pos, dc).len() ==> ((#[trigger] pawn_capture(
                board,
                white,
                pos,
                dc,
            )[k]).promotion is Some <==> is_promoting(
                white,
                pos_ix(pawn_capture(board, white, pos, dc)[k].to),
            )),
{
    let r = pos / 8;
    let c = pos % 8;
    let r1 = r + pawn_dr(white);
    if 0 <= r1 < 8 && board[r1 * 8 + c] == 0 {
        lemma_promo_seq_promotion(white, pos, r1 * 8 + c);
        if pawn_home(white, r) {
            let r2 = r + 2 * pawn_dr(white);
            if board[r2 * 8 + c] == 0 {
                lemma_promo_seq_promotion(white, pos, r2 * 8 + c);
            }
        }
    }
    let c1 = c + dc;
    if 0 <= r1 < 8 && 0 <= c1 < 8 {
        lemma_promo_seq_promotion(white, pos, r1 * 8 + c1);
    }
}

/// A promotion-expanded pawn move carries a promotion piece exactly when
/// it lands on the farthest rank.
pub proof fn lemma_promo_seq_promotion(white: bool, from: int, to: int)
    requires
        0 <= to < 64,
    ensures
        forall|k: int|
            0 <= k < promo_seq(white, from, to).len() ==> ((#[trigger] promo_seq(
                white,
                from,
                to,
            )[k]).promotion is Some <==> is_promoting(
                white,
                pos_ix(promo_seq(white, from, to)[k].to),
            )),
{
}

/// Every castling move starts at the king's home square.
pub proof fn lemma_castle_moves_from(
    board: Seq<u8>,
    white: bool,
    pos: int,
    rights: u8,
    threat: Seq<u8>,
)
    requires
        0 <= pos < 64,
    ensures
        from_fixed(castle_moves(board, white, pos, rights, threat), pos),
{
}

/// Every move a piece generates starts at its own square and carries only
/// on-board coordinates.
pub proof fn lemma_piece_moves_from(
    p: Piece,
    board: Seq<u8>,
    pos: int,
    last: Option<Move>,
    rights: u8,
    threat: Seq<u8>,
)
    requires
        0 <= pos < 64,
    ensures
        from_fixed(piece_moves(p, board, pos, last, rights, threat), pos),
{
    match p {
        Piece::BlackKing | Piece::WhiteKing => {
            lemma_slide_range_from(board, piece_white(p), pos, true, 0, 8);
            lemma_slide_range_from(board, piece_white(p), pos, false, 0, 8);
            lemma_slide_range_from(board, piece_white(p), pos, false, 0, 4);
            lemma_slide_range_from(board, piece_white(p), pos, false, 4, 8);
            lemma_castle_moves_from(board, piece_white(p), pos, rights, threat);
        },
        Piece::BlackQueen | Piece::WhiteQueen | Piece::BlackRook | Piece::WhiteRook
        | Piece::BlackBishop | Piece::WhiteBishop => {
            lemma_slide_range_from(board, piece_white(p), pos, true, 0, 8);
            lemma_slide_range_from(board, piece_white(p), pos, false, 0, 8);
            lemma_slide_range_from(board, piece_white(p), pos, false, 0, 4);
            lemma_slide_range_from(board, piece_white(p), pos, false, 4, 8);
        },
        Piece::BlackKnight | Piece::WhiteKnight => {
            lemma_knight_range_from(board, piece_white(p), pos, 0);
        },
        Piece::BlackPawn | Piece::WhitePawn => {
            lemma_pawn_moves_from(board, piece_white(p), pos, last);
        },
    }
}

/// The row step of sliding direction `d`, as executable values.
fn sdir(d: usize) -> (r: (i16, i16))
    requires
        d < 8,
    ensures
        r.0 as int == sdir_dr(d as int),
        r.1 as int == sdir_dc(d as int),
{
    match d {
        0 => (1, 0),
        1 => (-1, 0),
        2 => (0, 1),
        3 => (0, -1),
        4 => (1, -1),
        5 => (-1, 1),
        6 => (1, 1),
        _ => (-1, -1),
    }
}

/// The steps of knight leap `d`, as executable values.
fn kdir(d: usize) -> (r: (i16, i16))
    requires
        d < 8,
    ensures
        r.0 as int == kdir_dr(d as int),
        r.1 as int == kdir_dc(d as int),
{
    match d {
        0 => (1, -2),
        1 => (-1, 2),
        2 => (1, 2),
        3 => (-1, -2),
        4 => (2, -1),
        5 => (-2, 1),
        6 => (2, 1),
        _ => (-2, -1),
    }
}

/// Walks one ray and appends its moves.
fn ray_push(
    white: bool,
    board: &[u8; 64],
    origin: u8,
    dr: i16,
    dc: i16,
    king: bool,
    moves: &mut Vec<Move>,
)
    requires
        origin < 64,
        -1 <= dr <= 1,
        -1 <= dc <= 1,
        !(dr == 0 && dc == 0),
    ensures
        final(moves)@ == old(moves)@ + ray_moves(
            board@,
            white,
            origin as int,
            origin as int / 8,
            origin as int % 8,
            dr as int,
            dc as int,
            king,
        ),
{
    let mut r: i16 = (origin / 8) as i16;
    let mut c: i16 = (origin % 8) as i16;
    loop
        invariant_except_break
            old(moves)@ + ray_moves(
                board@,
                white,
                origin as int,
                origin as int / 8,
                origin as int % 8,
                dr as int,
                dc as int,
                king,
            ) == moves@ + ray_moves(
                board@,
                white,
                origin as int,
                r as int,
                c as int,
                dr as int,
                dc as int,
                king,
            ),
        invariant
            origin < 64,
            -1 <= dr <= 1,
            -1 <= dc <= 1,
            !(dr == 0 && dc == 0),
            0 <= r < 8,
            0 <= c < 8,
        ensures
            old(moves)@ + ray_moves(
                board@,
                white,
                origin as int,
                origin as int / 8,
                origin as int % 8,
                dr as int,
                dc as int,
                king,
            ) == moves@,
        decreases ray_fuel(r as int, c as int, dr as int, dc as int),
    {
        let r2 = r + dr;
        let c2 = c + dc;
        if !(0 <= r2 && r2 < 8 && 0 <= c2 && c2 < 8) {
            proof {
                assert(ray_moves(
                    board@,
                    white,
                    origin as int,
                    r as int,
                    c as int,
                    dr as int,
                    dc as int,
                    king,
                ) =~= Seq::<Move>::empty());
                assert(old(moves)@ + ray_moves(
                    board@,
                    white,
                    origin as int,
                    origin as int / 8,
                    origin as int % 8,
                    dr as int,
                    dc as int,
                    king,
                ) =~= moves@);
            }
            break;
        }
        let sq2: u8 = (r2 * 8 + c2) as u8;
        let t = board[sq2 as usize];
        let ghost prev = moves@;
        let ghost ray_here = ray_moves(
            board@,
            white,
            origin as int,
            r as int,
            c as int,
            dr as int,
            dc as int,
            king,
        );
        match Piece::try_from_u8(t) {
            Ok(p) => {
                if p.is_white() != white {
                    moves.push(
                        Move::new(Position::Index { ix: origin }, Position::Index { ix: sq2 }),
                    );
                    proof {
                        assert(ray_here =~= seq![mk_move(origin as int, r2 as int * 8 + c2 as int)]);
                        assert(moves@ =~= prev + ray_here);
                    }
                } else {
                    proof {
                        assert(ray_here =~= Seq::<Move>::empty());
                        assert(moves@ =~= prev + ray_here);
                    }
                }
                proof {
                    assert(old(moves)@ + ray_moves(
                        board@,
                        white,
                        origin as int,
                        origin as int / 8,
                        origin as int % 8,
                        dr as int,
                        dc as int,
                        king,
                    ) =~= moves@);
                }
                break;
            },
            Err(_) => {
                moves.push(Move::new(Position::Index { ix: origin }, Position::Index { ix: sq2 }));
                if king {
                    proof {
                        assert(ray_here =~= seq![mk_move(origin as int, r2 as int * 8 + c2 as int)]);
                        assert(old(moves)@ + ray_moves(
                            board@,
                            white,
                            origin as int,
                            origin as int / 8,
                            origin as int % 8,
                            dr as int,
                            dc as int,
                            king,
                        ) =~= moves@);
                    }
                    break;
                }
                proof {
                    assert(ray_here =~= seq![mk_move(origin as int, r2 as int * 8 + c2 as int)]
                        + ray_moves(
                        board@,
                        white,
                        origin as int,
                        r2 as int,
                        c2 as int,
                        dr as int,
                        dc as int,
                        king,
                    ));
                    assert(prev + ray_here =~= moves@ + ray_moves(
                        board@,
                        white,
                        origin as int,
                        r2 as int,
                        c2 as int,
                        dr as int,
                        dc as int,
                        king,
                    ));
                }
                r = r2;
                c = c2;
            },
        }
    }
}

/// Whether every square of `lo..=hi` holds the value 0 on `map`.
fn range_all_zero(map: &[u8; 64], lo: u8, hi: u8) -> (r: bool)
    requires
        lo <= hi < 64,
    ensures
        r == board_empty_range(map@, lo as int, hi as int),
{
    let mut i: u8 = lo;
    while i <= hi
        invariant
            lo <= i <= hi + 1,
            hi < 64,
            forall|j: int| lo <= j < i ==> map@[j] == 0,
        decreases hi - i + 1,
    {
        if map[i as usize] != 0 {
            return false;
        }
        i = i + 1;
    }
    true
}

impl Piece {
    /// Every pseudo-legal move of this piece standing on `position`, given
    /// the board, the last move played, the castling rights, and the
    /// threat map.
    pub fn get_moves(
        &self,
        board: &[u8; 64],
        position: u8,
        last_move: Option<Move>,
        castle_rights: CastleRights,
        threatmap: &[u8; 64],
    ) -> (r: Vec<Move>)
        requires
            position < 64,
            last_move matches Some(m) ==> move_wf(m),
        ensures
            r@ == piece_moves(
                *self,
                board@,
                position as int,
                last_move,
                castle_rights.rights,
                threatmap@,
            ),
    {
        match *self {
            Piece::BlackKing | Piece::WhiteKing => {
                let mut moves = self.get_sliding_moves(board, position);
                let mut castles = self.get_castling_moves(board, position, castle_rights, threatmap);
                moves.append(&mut castles);
                moves
            },
            Piece::BlackQueen | Piece::WhiteQueen => self.get_sliding_moves(board, position),
            Piece::BlackRook | Piece::WhiteRook => self.get_sliding_moves(board, position),
            Piece::BlackBishop | Piece::WhiteBishop => self.get_sliding_moves(board, position),
            Piece::BlackKnight | Piece::WhiteKnight => self.get_knight_moves(board, position),
            Piece::BlackPawn | Piece::WhitePawn => self.get_pawn_moves(board, position, last_move),
        }
    }

    /// The castling moves of this king on `position`.
    fn get_castling_moves(
        &self,
        board: &[u8; 64],
        position: u8,
        castle_rights: CastleRights,
        threatmap: &[u8; 64],
    ) -> (r: Vec<Move>)
        requires
            position < 64,
        ensures
            r@ == castle_moves(
                board@,
                piece_white(*self),
                position as int,
                castle_rights.rights,
                threatmap@,
            ),
    {
        let mut moves: Vec<Move> = Vec::new();
        let white = self.is_white();
        let home: u8 = if white {
            60
        } else {
            4
        };
        if position != home {
            return moves;
        }
        let (ks_right, qs_right) = match white {
            true => (
                castle_rights.get(CastleRigthsMask::WhiteKingside),
                castle_rights.get(CastleRigthsMask::WhiteQueenside),
            ),
            false => (
                castle_rights.get(CastleRigthsMask::BlackKingside),
                castle_rights.get(CastleRigthsMask::BlackQueenside),
            ),
        };
        if ks_right && range_all_zero(board, home + 1, home + 2) && range_all_zero(
            threatmap,
            home,
            home + 2,
        ) {
            moves.push(
                Move::new_castling(
                    Position::Index { ix: home },
                    Position::Index { ix: home + 2 },
                    (Position::Index { ix: home + 3 }, Position::Index { ix: home + 1 }),
                ),
            );
        }
        if qs_right && range_all_zero(board, home - 3, home - 1) && range_all_zero(
            threatmap,
            home - 2,
            home,
        ) {
            moves.push(
                Move::new_castling(
                    Position::Index { ix: home },
                    Position::Index { ix: home - 2 },
                    (Position::Index { ix: home - 4 }, Position::Index { ix: home - 1 }),
                ),
            );
        }
        proof {
            assert(moves@ =~= castle_moves(
                board@,
                piece_white(*self),
                position as int,
                castle_rights.rights,
                threatmap@,
            ));
        }
        moves
    }

    /// The sliding moves of the piece encoded on `position`.
    fn get_sliding_moves(&self, board: &[u8; 64], position: u8) -> (r: Vec<Move>)
        requires
            position < 64,
        ensures
            r@ == sliding_moves(*self, board@, position as int),
    {
        let mut moves: Vec<Move> = Vec::new();
        let piece = match Piece::try_from_u8(board[position as usize]) {
            Ok(p) => p,
            Err(_) => {
                return moves;
            },
        };
        let (lo, king): (usize, bool) = match piece {
            Piece::WhiteQueen | Piece::BlackQueen => (0, false),
            Piece::WhiteKing | Piece::BlackKing => (0, true),
            Piece::WhiteRook | Piece::BlackRook => (0, false),
            Piece::WhiteBishop | Piece::BlackBishop => (4, false),
            _ => {
                return moves;
            },
        };
        let hi: usize = match piece {
            Piece::WhiteRook | Piece::BlackRook => 4,
            _ => 8,
        };
        let white = self.is_white();
        let mut d: usize = lo;
        while d < hi
            invariant
                position < 64,
                lo <= d <= hi <= 8,
                moves@ + slide_range(board@, white, position as int, king, d as int, hi as int)
                    == slide_range(board@, white, position as int, king, lo as int, hi as int),
            decreases hi - d,
        {
            let (dr, dc) = sdir(d);
            let ghost prev = moves@;
            ray_push(white, board, position, dr, dc, king, &mut moves);
            proof {
                assert(slide_range(board@, white, position as int, king, d as int, hi as int)
                    =~= ray_moves(
                    board@,
                    white,
                    position as int,
                    position as int / 8,
                    position as int % 8,
                    sdir_dr(d as int),
                    sdir_dc(d as int),
                    king,
                ) + slide_range(board@, white, position as int, king, d as int + 1, hi as int));
                assert(prev + slide_range(board@, white, position as int, king, d as int, hi as int)
                    =~= moves@ + slide_range(
                    board@,
                    white,
                    position as int,
                    king,
                    d as int + 1,
                    hi as int,
                ));
            }
            d = d + 1;
        }
        proof {
            assert(slide_range(board@, white, position as int, king, hi as int, hi as int)
                =~= Seq::<Move>::empty());
            assert(moves@ =~= slide_range(
                board@,
                white,
                position as int,
                king,
                lo as int,
                hi as int,
            ));
            assert(moves@ =~= sliding_moves(*self, board@, position as int));
        }
        moves
    }

    /// The knight leaps from `position`.
    fn get_knight_moves(&self, board: &[u8; 64], position: u8) -> (r: Vec<Move>)
        requires
            position < 64,
        ensures
            r@ == knight_moves(board@, piece_white(*self), position as int),
    {
        let mut moves: Vec<Move> = Vec::new();
        let white = self.is_white();
        let r0: i16 = (position / 8) as i16;
        let c0: i16 = (position % 8) as i16;
        let mut d: usize = 0;
        while d < 8
            invariant
                position < 64,
                d <= 8,
                r0 == position as int / 8,
                c0 == position as int % 8,
                moves@ + knight_range(board@, white, position as int, d as int) == knight_range(
                    board@,
                    white,
                    position as int,
                    0,
                ),
            decreases 8 - d,
        {
            let (dr, dc) = kdir(d);
            let r2 = r0 + dr;
            let c2 = c0 + dc;
            let ghost prev = moves@;
            let ghost leap = knight_leap(
                board@,
                white,
                position as int,
                kdir_dr(d as int),
                kdir_dc(d as int),
            );
            if 0 <= r2 && r2 < 8 && 0 <= c2 && c2 < 8 {
                let sq2: u8 = (r2 * 8 + c2) as u8;
                match Piece::try_from_u8(board[sq2 as usize]) {
                    Ok(p) => {
                        if p.is_white() != white {
                            moves.push(
                                Move::new(
                                    Position::Index { ix: position },
                                    Position::Index { ix: sq2 },
                                ),
                            );
                        }
                    },
                    Err(_) => {
                        moves.push(
                            Move::new(Position::Index { ix: position }, Position::Index { ix: sq2 }),
                        );
                    },
                }
            }
            proof {
                assert(moves@ =~= prev + leap);
                assert(knight_range(board@, white, position as int, d as int) =~= leap
                    + knight_range(board@, white, position as int, d as int + 1));
                assert(prev + knight_range(board@, white, position as int, d as int) =~= moves@
                    + knight_range(board@, white, position as int, d as int + 1));
            }
            d = d + 1;
        }
        proof {
            assert(knight_range(board@, white, position as int, 8) =~= Seq::<Move>::empty());
            assert(moves@ =~= knight_moves(board@, white, position as int));
        }
        moves
    }

    /// The pushes, captures and en-passant capture of this pawn on
    /// `position`.
    fn get_pawn_moves(&self, board: &[u8; 64], position: u8, last_move: Option<Move>) -> (res: Vec<
        Move,
    >)
        requires
            position < 64,
            last_move matches Some(m) ==> move_wf(m),
        ensures
            res@ == pawn_moves(board@, piece_white(*self), position as int, last_move),
    {
        let mut moves: Vec<Move> = Vec::new();
        // forward moves
        self.pawn_forward_push(board, position, &mut moves);
        // left capture
        self.pawn_capture_push(board, position, true, &mut moves);
        // right capture
        self.pawn_capture_push(board, position, false, &mut moves);
        // en passant
        let ghost before_ep = moves@;
        if let Some(m) = self.get_en_passant(board, position, last_move) {
            moves.push(m);
        }
        proof {
            let white = piece_white(*self);
            assert(moves@ =~= before_ep + ep_moves(board@, white, position as int, last_move));
            assert(moves@ =~= pawn_moves(board@, white, position as int, last_move));
        }
        moves
    }

    /// Appends this pawn's forward pushes.
    fn pawn_forward_push(&self, board: &[u8; 64], position: u8, moves: &mut Vec<Move>)
        requires
            position < 64,
        ensures
            final(moves)@ == old(moves)@ + pawn_forward(board@, piece_white(*self), position as int),
    {
        let white = self.is_white();
        let r: u8 = position / 8;
        let is_first_move = (!white && position < 16 && position > 7) || (white && position < 56
            && position > 47);
        if if white {
            r >= 1
        } else {
            r <= 6
        } {
            let ahead: u8 = if white {
                position - 8
            } else {
                position + 8
            };
            if board[ahead as usize] == 0 {
                self.add_with_promotions(moves, position, ahead);
                if is_first_move {
                    let two_ahead: u8 = if white {
                        position - 16
                    } else {
                        position + 16
                    };
                    if board[two_ahead as usize] == 0 {
                        self.add_with_promotions(moves, position, two_ahead);
                    }
                }
            }
        }
        proof {
            assert(moves@ =~= old(moves)@ + pawn_forward(board@, white, position as int));
        }
    }

    /// Appends this pawn's diagonal capture toward the lower (`left`) or
    /// higher column.
    fn pawn_capture_push(&self, board: &[u8; 64], position: u8, left: bool, moves: &mut Vec<Move>)
        requires
            position < 64,
        ensures
            final(moves)@ == old(moves)@ + pawn_capture(
                board@,
                piece_white(*self),
                position as int,
                if left {
                    -1int
                } else {
                    1int
                },
            ),
    {
        let white = self.is_white();
        let r: u8 = position / 8;
        let c: u8 = position % 8;
        let row_ok = if white {
            r >= 1
        } else {
            r <= 6
        };
        let col_ok = if left {
            c >= 1
        } else {
            c <= 6
        };
        if row_ok && col_ok {
            let target: u8 = if white {
                if left {
                    position - 9
                } else {
                    position - 7
                }
            } else {
                if left {
                    position + 7
                } else {
                    position + 9
                }
            };
            match Piece::try_from_u8(board[target as usize]) {
                Ok(p) => {
                    if p.is_white() != white {
                        self.add_with_promotions(moves, position, target);
                    }
                },
                Err(_) => {},
            }
        }
        proof {
            assert(moves@ =~= old(moves)@ + pawn_capture(
                board@,
                white,
                position as int,
                if left {
                    -1int
                } else {
                    1int
                },
            ));
        }
    }

    /// The en-passant capture available to this pawn on `position`, if any.
    fn get_en_passant(&self, board: &[u8; 64], position: u8, last_move: Option<Move>) -> (r:
        Option<Move>)
        requires
            position < 64,
            last_move matches Some(m) ==> move_wf(m),
        ensures
            r matches Some(m) ==> ep_moves(board@, piece_white(*self), position as int, last_move)
                == seq![m],
            r is None ==> ep_moves(board@, piece_white(*self), position as int, last_move)
                == Seq::<Move>::empty(),
    {
        let white = self.is_white();
        // check there is a last move
        let last_move = match last_move {
            Some(m) => m,
            None => {
                return None;
            },
        };
        let tix = last_move.to.as_ix();
        let fix = last_move.from.as_ix();
        // check the piece on the last move's destination is a pawn
        match Piece::try_from_u8(board[tix as usize]) {
            Ok(p) => {
                if p != Piece::WhitePawn && p != Piece::BlackPawn {
                    return None;
                }
            },
            Err(_) => {
                return None;
            },
        };
        let last_from_row = fix / 8;
        let last_to_col = tix % 8;
        let last_to_row = tix / 8;
        let self_col = position % 8;
        let self_row = position / 8;
        // check the last move crossed two rows
        let row_dist = if last_from_row > last_to_row {
            last_from_row - last_to_row
        } else {
            last_to_row - last_from_row
        };
        if row_dist != 2 {
            return None;
        }
        // check side by side
        if last_to_row != self_row {
            return None;
        }
        // check one column apart
        let col_dist = if last_to_col > self_col {
            last_to_col - self_col
        } else {
            self_col - last_to_col
        };
        if col_dist != 1 {
            return None;
        }
        // check the diagonally-forward destination stays on the board
        if white && self_row == 0 {
            return None;
        }
        if !white && self_row == 7 {
            return None;
        }
        let capture_square: u8 = position + last_to_col - self_col;
        let dest_square: u8 = if white {
            capture_square - 8
        } else {
            capture_square + 8
        };
        proof {
            assert(capture_square as int == tix as int);
        }
        Some(
            Move::new_enpassant(
                Position::Index { ix: position },
                Position::Index { ix: dest_square },
                Position::Index { ix: capture_square },
            ),
        )
    }

    /// Appends the move from `from` to `to`, expanded into one move per
    /// promotion piece when it lands on this pawn's farthest rank.
    fn add_with_promotions(&self, moves: &mut Vec<Move>, from: u8, to: u8)
        requires
            from < 64,
            to < 64,
        ensures
            final(moves)@ == old(moves)@ + promo_seq(piece_white(*self), from as int, to as int),
    {
        let white = self.is_white();
        let is_promoting = (white && to < 8) || (!white && to > 55);
        if is_promoting {
            if white {
                moves.push(
                    Move::new_promotion(
                        Position::Index { ix: from },
                        Position::Index { ix: to },
                        Some(Piece::WhiteQueen),
                    ),
                );
                moves.push(
                    Move::new_promotion(
                        Position::Index { ix: from },
                        Position::Index { ix: to },
                        Some(Piece::WhiteRook),
                    ),
                );
                moves.push(
                    Move::new_promotion(
                        Position::Index { ix: from },
                        Position::Index { ix: to },
                        Some(Piece::WhiteBishop),
                    ),
                );
                moves.push(
                    Move::new_promotion(
                        Position::Index { ix: from },
                        Position::Index { ix: to },
                        Some(Piece::WhiteKnight),
                    ),
                );
            } else {
                moves.push(
                    Move::new_promotion(
                        Position::Index { ix: from },
                        Position::Index { ix: to },
                        Some(Piece::BlackQueen),
                    ),
                );
                moves.push(
                    Move::new_promotion(
                        Position::Index { ix: from },
                        Position::Index { ix: to },
                        Some(Piece::BlackRook),
                    ),
                );
                moves.push(
                    Move::new_promotion(
                        Position::Index { ix: from },
                        Position::Index { ix: to },
                        Some(Piece::BlackBishop),
                    ),
                );
                moves.push(
                    Move::new_promotion(
                        Position::Index { ix: from },
                        Position::Index { ix: to },
                        Some(Piece::BlackKnight),
                    ),
                );
            }
        } else {
            moves.push(
                Move::new_promotion(
                    Position::Index { ix: from },
                    Position::Index { ix: to },
                    None,
                ),
            );
        }
        proof {
            assert(moves@ =~= old(moves)@ + promo_seq(
                piece_white(*self),
                from as int,
                to as int,
            ));
        }
    }
}

} // verus!
