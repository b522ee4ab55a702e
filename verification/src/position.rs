//! Move and position algebra: the three interchangeable coordinate systems
//! for board squares, and the move value type.
//!
//! The board is a 64-element array in row-major order starting at rank 8 /
//! file a (index 0) and ending at rank 1 / file h (index 63).  Equality
//! between any two coordinate values is defined by equality of their
//! resolved index, and move equality by (from, to, promotion) only.

use vstd::prelude::*;

use crate::piece::Piece;

verus! {

/// A board square, in any of three interchangeable coordinate systems.
#[derive(Clone, Copy, Debug)]
pub enum Position {
    /// Algebraic positions treat the board as a standard chess board.
    /// `rank` counts files a..h as 0..7 and `file` counts ranks 1..8 as
    /// 0..7, so a1 is (0, 0) and h8 is (7, 7).
    Algebraic { rank: u8, file: u8 },
    /// Relative positions treat the board as a 2d array, useful for
    /// translating screen positions to board positions; `flip` mirrors the
    /// board vertically.  a8 is col 0, row 0 and h1 is col 7, row 7.
    Relative { col: u8, row: u8, flip: bool },
    /// The raw index of the square in the 1d board array.
    Index { ix: u8 },
}

/// The board index a position resolves to, as an unbounded integer; for
/// out-of-range coordinates the value falls outside 0..64.
pub open spec fn pos_ix(p: Position) -> int {
    match p {
        Position::Algebraic { rank, file } => (7 - file as int) * 8 + rank as int,
        Position::Relative { col, row, flip } => if flip {
            (7 - row as int) * 8 + col as int
        } else {
            col as int + row as int * 8
        },
        Position::Index { ix } => ix as int,
    }
}

/// Whether a position's coordinates are within the board.
pub open spec fn pos_wf(p: Position) -> bool {
    match p {
        Position::Algebraic { rank, file } => rank < 8 && file < 8,
        Position::Relative { col, row, flip } => col < 8 && row < 8,
        Position::Index { ix } => ix < 64,
    }
}

/// The board index of an algebraic coordinate pair: `c` counts files a..h
/// as 0..7 and `r` counts ranks 1..8 as 0..7.
pub fn move_to_ix(c: u8, r: u8) -> (ix: u8)
    requires
        c < 8,
        r < 8,
    ensures
        ix == (7 - r as int) * 8 + c as int,
        ix < 64,
{
    (7 - r) * 8 + c
}

impl Position {
    /// The raw index of this square in the 1d board array.
    pub fn as_ix(&self) -> (r: u8)
        requires
            pos_wf(*self),
        ensures
            r as int == pos_ix(*self),
            r < 64,
    {
        match self {
            Position::Algebraic { rank, file } => move_to_ix(*rank, *file),
            Position::Relative { col, row, flip } => match *flip {
                true => move_to_ix(*col, *row),
                false => col + row * 8,
            },
            Position::Index { ix } => *ix,
        }
    }

    /// The resolved index as a wide integer, defined for every coordinate
    /// value, including out-of-range ones.
    fn ix_wide(&self) -> (r: i32)
        ensures
            r as int == pos_ix(*self),
    {
        match self {
            Position::Algebraic { rank, file } => (7 - *file as i32) * 8 + *rank as i32,
            Position::Relative { col, row, flip } => match *flip {
                true => (7 - *row as i32) * 8 + *col as i32,
                false => *col as i32 + *row as i32 * 8,
            },
            Position::Index { ix } => *ix as i32,
        }
    }

    /// This square in coordinate text, file letter then rank digit.
    pub fn to_string(&self) -> (r: String)
        requires
            pos_wf(*self),
        ensures
            r@ == square_text(pos_ix(*self)),
    {
        let ix = self.as_ix();
        let rank = ix / 8;
        let file = ix % 8;
        let mut s = file_letter(file).to_owned();
        s.append(rank_digit(rank));
        s
    }
}

/// The file letter of a board column.
pub open spec fn file_char(file: int) -> char {
    if file == 0 {
        'a'
    } else if file == 1 {
        'b'
    } else if file == 2 {
        'c'
    } else if file == 3 {
        'd'
    } else if file == 4 {
        'e'
    } else if file == 5 {
        'f'
    } else if file == 6 {
        'g'
    } else {
        'h'
    }
}

/// The rank digit of a board row, counted from the top of the board.
pub open spec fn rank_char(row: int) -> char {
    if row == 0 {
        '8'
    } else if row == 1 {
        '7'
    } else if row == 2 {
        '6'
    } else if row == 3 {
        '5'
    } else if row == 4 {
        '4'
    } else if row == 5 {
        '3'
    } else if row == 6 {
        '2'
    } else {
        '1'
    }
}

/// The coordinate text of a square index: its file letter and rank digit.
pub open spec fn square_text(ix: int) -> Seq<char> {
    seq![file_char(ix % 8), rank_char(ix / 8)]
}

/// The file letter of a board column.
fn file_letter(file: u8) -> (r: &'static str)
    requires
        file < 8,
    ensures
        r@ == seq![file_char(file as int)],
{
    proof {
        reveal_strlit("a");
        reveal_strlit("b");
        reveal_strlit("c");
        reveal_strlit("d");
        reveal_strlit("e");
        reveal_strlit("f");
        reveal_strlit("g");
        reveal_strlit("h");
    }
    let r: &'static str = match file {
        0 => "a",
        1 => "b",
        2 => "c",
        3 => "d",
        4 => "e",
        5 => "f",
        6 => "g",
        _ => "h",
    };
    proof {
        assert(r@ =~= seq![file_char(file as int)]);
    }
    r
}

/// The rank digit of a board row, counted from the top of the board.
fn rank_digit(row: u8) -> (r: &'static str)
    requires
        row < 8,
    ensures
        r@ == seq![rank_char(row as int)],
{
    proof {
        reveal_strlit("8");
        reveal_strlit("7");
        reveal_strlit("6");
        reveal_strlit("5");
        reveal_strlit("4");
        reveal_strlit("3");
        reveal_strlit("2");
        reveal_strlit("1");
    }
    let r: &'static str = match row {
        0 => "8",
        1 => "7",
        2 => "6",
        3 => "5",
        4 => "4",
        5 => "3",
        6 => "2",
        _ => "1",
    };
    proof {
        assert(r@ =~= seq![rank_char(row as int)]);
    }
    r
}

impl PartialEq for Position {
    /// Two positions are equal exactly when they resolve to the same index.
    fn eq(&self, other: &Self) -> (r: bool) {
        self.ix_wide() == other.ix_wide()
    }
}

impl vstd::std_specs::cmp::PartialEqSpecImpl for Position {
    open spec fn obeys_eq_spec() -> bool {
        true
    }

    open spec fn eq_spec(&self, other: &Self) -> bool {
        pos_ix(*self) == pos_ix(*other)
    }
}

/// A companion relocation applied atomically with a move: the rook's
/// from- and to-squares of a castling move.
pub type AuxMove = (Position, Position);

/// A chess move: endpoints plus optional promotion piece, captured
/// en-passant square (distinct from `to`), castling companion, and the
/// piece identity resolved during history recording.
#[derive(Clone, Copy, Debug)]
pub struct Move {
    pub from: Position,
    pub to: Position,
    pub promotion: Option<Piece>,
    pub en_passant: Option<Position>,
    pub castling: Option<AuxMove>,
    pub piece: Option<Piece>,
}

/// Move equality: by resolved endpoints and promotion piece only; the
/// auxiliary fields are excluded.
pub open spec fn move_eq(a: Move, b: Move) -> bool {
    pos_ix(a.from) == pos_ix(b.from) && pos_ix(a.to) == pos_ix(b.to) && a.promotion == b.promotion
}

/// Whether every coordinate a move carries is within the board.
pub open spec fn move_wf(m: Move) -> bool {
    &&& pos_wf(m.from)
    &&& pos_wf(m.to)
    &&& m.en_passant matches Some(p) ==> pos_wf(p)
    &&& m.castling matches Some((f, t)) ==> pos_wf(f) && pos_wf(t)
}

impl Move {
    /// A move with every field given explicitly; the resolved piece
    /// identity starts out unset.
    pub fn new_with_all(
        from: Position,
        to: Position,
        promotion: Option<Piece>,
        en_passant: Option<Position>,
        castling: Option<AuxMove>,
    ) -> (r: Move)
        ensures
            r == (Move { from, to, promotion, en_passant, castling, piece: None }),
    {
        Move { from, to, promotion, en_passant, castling, piece: None }
    }

    /// A plain move between two squares.
    pub fn new(from: Position, to: Position) -> (r: Move)
        ensures
            r == (Move { from, to, promotion: None, en_passant: None, castling: None, piece: None }),
    {
        Move::new_with_all(from, to, None, None, None)
    }

    /// A move carrying a promotion piece.
    pub fn new_promotion(from: Position, to: Position, promotion: Option<Piece>) -> (r: Move)
        ensures
            r == (Move { from, to, promotion, en_passant: None, castling: None, piece: None }),
    {
        Move::new_with_all(from, to, promotion, None, None)
    }

    /// An en-passant capture; the captured square is distinct from `to`.
    pub fn new_enpassant(from: Position, to: Position, en_passant: Position) -> (r: Move)
        ensures
            r == (Move {
                from,
                to,
                promotion: None,
                en_passant: Some(en_passant),
                castling: None,
                piece: None,
            }),
    {
        Move::new_with_all(from, to, None, Some(en_passant), None)
    }

    /// A castling king move carrying the rook's companion relocation.
    pub fn new_castling(from: Position, to: Position, castling: AuxMove) -> (r: Move)
        ensures
            r == (Move {
                from,
                to,
                promotion: None,
                en_passant: None,
                castling: Some(castling),
                piece: None,
            }),
    {
        Move::new_with_all(from, to, None, None, Some(castling))
    }

    /// The queenside castling move for the side to move: the king starts on
    /// its home rank and moves two files toward the a-file rook.
    pub fn castle_long(white_to_move: bool) -> (r: Move)
        ensures
            pos_ix(r.from) == if white_to_move { 60int } else { 4int },
            pos_ix(r.to) == if white_to_move { 58int } else { 2int },
            r.promotion is None,
            r.castling matches Some((f, t)) && pos_ix(f) == (if white_to_move { 56int } else { 0int })
                && pos_ix(t) == (if white_to_move { 59int } else { 3int }),
            move_wf(r),
    {
        let file = Move::get_king_file(white_to_move);
        let king = Position::Algebraic { rank: 4, file };
        let rook = Position::Algebraic { rank: 0, file };
        let king_to = Position::Algebraic { rank: 2, file };
        let rook_to = Position::Algebraic { rank: 3, file };
        Move::new_castling(king, king_to, (rook, rook_to))
    }

    /// The kingside castling move for the side to move: the king starts on
    /// its home rank and moves two files toward the h-file rook.
    pub fn castle_short(white_to_move: bool) -> (r: Move)
        ensures
            pos_ix(r.from) == if white_to_move { 60int } else { 4int },
            pos_ix(r.to) == if white_to_move { 62int } else { 6int },
            r.promotion is None,
            r.castling matches Some((f, t)) && pos_ix(f) == (if white_to_move { 63int } else { 7int })
                && pos_ix(t) == (if white_to_move { 61int } else { 5int }),
            move_wf(r),
    {
        let file = Move::get_king_file(white_to_move);
        let king = Position::Algebraic { rank: 4, file };
        let rook = Position::Algebraic { rank: 7, file };
        let king_to = Position::Algebraic { rank: 6, file };
        let rook_to = Position::Algebraic { rank: 5, file };
        Move::new_castling(king, king_to, (rook, rook_to))
    }

    /// The 0-based rank of the king's home square for the side to move,
    /// counted from rank 1.
    fn get_king_file(white_to_move: bool) -> (r: u8)
        ensures
            r == if white_to_move { 0u8 } else { 7u8 },
    {
        match white_to_move {
            true => 0,
            false => 7,
        }
    }

    /// Records the piece identity this move relocated.
    pub fn set_piece(&mut self, piece: Piece)
        ensures
            *final(self) == (Move { piece: Some(piece), ..*old(self) }),
    {
        self.piece = Some(piece);
    }

    /// This move in long algebraic text: both endpoints, then the
    /// promotion piece's glyph if one is carried.
    pub fn to_string(&self) -> (r: String)
        requires
            pos_wf(self.from),
            pos_wf(self.to),
        ensures
            r@ == square_text(pos_ix(self.from)) + square_text(pos_ix(self.to)) + (match self
                .promotion {
                Some(p) => seq![crate::piece::glyph_char(p)],
                None => Seq::<char>::empty(),
            }),
    {
        let mut s = self.from.to_string();
        let to_text = self.to.to_string();
        s.append(to_text.as_str());
        if let Some(p) = self.promotion {
            let glyph = p.glyph();
            s.append(glyph.as_str());
        }
        proof {
            assert(s@ =~= square_text(pos_ix(self.from)) + square_text(pos_ix(self.to)) + (
            match self.promotion {
                Some(p) => seq![crate::piece::glyph_char(p)],
                None => Seq::<char>::empty(),
            }));
        }
        s
    }
}

impl PartialEq for Move {
    /// Moves are compared by endpoints and promotion only, so that an
    /// externally built move matches the internally generated canonical
    /// move that carries auxiliary annotations.
    fn eq(&self, other: &Self) -> (r: bool) {
        let promo_eq = match (self.promotion, other.promotion) {
            (None, None) => true,
            (Some(p), Some(q)) => p == q,
            _ => false,
        };
        self.from.ix_wide() == other.from.ix_wide() && self.to.ix_wide() == other.to.ix_wide()
            && promo_eq
    }
}

impl vstd::std_specs::cmp::PartialEqSpecImpl for Move {
    open spec fn obeys_eq_spec() -> bool {
        true
    }

    open spec fn eq_spec(&self, other: &Self) -> bool {
        move_eq(*self, *other)
    }
}

/// Converting an algebraic coordinate pair to an index and back is the
/// identity, and the documented fixed points hold: a8 resolves to index 0
/// in all three coordinate systems and h1 to index 63.
pub proof fn lemma_coordinates_roundtrip(rank: u8, file: u8)
    requires
        rank < 8,
        file < 8,
    ensures
        0 <= pos_ix(Position::Algebraic { rank, file }) < 64,
        pos_ix(Position::Algebraic { rank, file }) % 8 == rank as int,
        7 - pos_ix(Position::Algebraic { rank, file }) / 8 == file as int,
        pos_ix(Position::Algebraic { rank: 0, file: 7 }) == 0,
        pos_ix(Position::Relative { col: 0, row: 0, flip: false }) == 0,
        pos_ix(Position::Algebraic { rank: 7, file: 0 }) == 63,
        pos_ix(Position::Relative { col: 7, row: 7, flip: false }) == 63,
{
    let ix = (7 - file as int) * 8 + rank as int;
    assert(ix % 8 == rank as int && ix / 8 == 7 - file as int) by (nonlinear_arith)
        requires
            rank < 8 && file < 8 && ix == (7 - file as int) * 8 + rank as int,
    ;
}

} // verus!
