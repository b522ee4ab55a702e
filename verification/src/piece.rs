//! Piece codec: the compact square-value encoding of chess pieces, the FEN
//! letter encoding, display glyphs, and the packed castling-rights flags.
//!
//! A square value of 0 means an empty square.  A nonzero value is a one-hot
//! type bitmask (king=1, queen=2, rook=4, bishop=8, knight=16, pawn=32),
//! optionally combined with the color flag 64 for the black side; white
//! pieces therefore always encode below 64.

use vstd::prelude::*;

verus! {

/// One of the four castling-rights flags, identifying a side and a wing.
#[derive(Clone, Copy, Debug)]
pub enum CastleRigthsMask {
    WhiteKingside,
    WhiteQueenside,
    BlackKingside,
    BlackQueenside,
}

/// The bit each flag occupies inside the packed rights byte.
pub open spec fn mask_bit(mask: CastleRigthsMask) -> u8 {
    match mask {
        CastleRigthsMask::WhiteKingside => 8,
        CastleRigthsMask::WhiteQueenside => 4,
        CastleRigthsMask::BlackKingside => 2,
        CastleRigthsMask::BlackQueenside => 1,
    }
}

impl CastleRigthsMask {
    /// The packed-byte bit for this flag.
    pub fn bit(&self) -> (r: u8)
        ensures
            r == mask_bit(*self),
    {
        match *self {
            CastleRigthsMask::WhiteKingside => 8,
            CastleRigthsMask::WhiteQueenside => 4,
            CastleRigthsMask::BlackKingside => 2,
            CastleRigthsMask::BlackQueenside => 1,
        }
    }
}

/// The four castling-rights flags, packed into one byte for compact storage
/// and FEN round-trips.
#[derive(Clone, Copy, Debug, PartialEq, Eq, Structural)]
pub struct CastleRights {
    pub rights: u8,
}

impl Default for CastleRights {
    /// No rights are set by default.
    fn default() -> (r: Self)
        ensures
            r.rights == 0,
    {
        CastleRights { rights: 0 }
    }
}

impl CastleRights {
    /// Sets one flag, leaving the other three unchanged.
    pub fn set(&mut self, mask: CastleRigthsMask)
        ensures
            final(self).rights == old(self).rights | mask_bit(mask),
    {
        self.rights = self.rights | mask.bit();
    }

    /// Clears one flag, leaving the other three unchanged.
    pub fn unset(&mut self, mask: CastleRigthsMask)
        ensures
            final(self).rights == old(self).rights & !mask_bit(mask),
    {
        self.rights = self.rights & !mask.bit();
    }

    /// Whether one flag is set.
    pub fn get(&self, mask: CastleRigthsMask) -> (r: bool)
        ensures
            r == (self.rights & mask_bit(mask) != 0),
    {
        self.rights & mask.bit() > 0
    }

    /// The packed rights byte.
    pub fn get_u8(&self) -> (r: u8)
        ensures
            r == self.rights,
    {
        self.rights
    }

    /// Folds a FEN castling field into a rights value: the characters
    /// `K Q k q` set the corresponding flags and all others are ignored.
    pub fn from_field(val: &str) -> (r: CastleRights)
        ensures
            r.rights == fold_rights(val@, 0),
    {
        let len: usize = val.unicode_len();
        let mut rights: u8 = 0;
        let mut i: usize = 0;
        while i < len
            invariant
                len == val@.len(),
                0 <= i <= len,
                fold_rights(val@, 0) == fold_rights_from(val@, i as int, rights),
            decreases len - i,
        {
            let c = val.get_char(i);
            rights = rights | rights_char_bit(c);
            i = i + 1;
        }
        CastleRights { rights }
    }
}

/// The rights bit a FEN castling-field character contributes, 0 for any
/// character outside `K Q k q`.
pub open spec fn spec_rights_char_bit(c: char) -> u8 {
    if c == 'K' {
        8
    } else if c == 'Q' {
        4
    } else if c == 'k' {
        2
    } else if c == 'q' {
        1
    } else {
        0
    }
}

/// Exec mirror of [`spec_rights_char_bit`].
#[verifier::when_used_as_spec(spec_rights_char_bit)]
pub fn rights_char_bit(c: char) -> (r: u8)
    ensures
        r == spec_rights_char_bit(c),
{
    match c {
        'K' => 8,
        'Q' => 4,
        'k' => 2,
        'q' => 1,
        _ => 0,
    }
}

/// The rights byte obtained by folding the whole castling field over an
/// accumulator, starting from `acc`.
pub open spec fn fold_rights_from(s: Seq<char>, i: int, acc: u8) -> u8
    decreases s.len() - i,
{
    if i < 0 || i >= s.len() {
        acc
    } else {
        fold_rights_from(s, i + 1, acc | spec_rights_char_bit(s[i]))
    }
}

/// The rights byte encoded by a castling field.
pub open spec fn fold_rights(s: Seq<char>, acc: u8) -> u8 {
    fold_rights_from(s, 0, acc)
}

/// A chess piece: one of six types in one of two colors.
#[derive(Clone, Copy, Debug, PartialEq, Eq, Structural)]
pub enum Piece {
    WhiteKing,
    WhiteQueen,
    WhiteRook,
    WhiteBishop,
    WhiteKnight,
    WhitePawn,
    BlackKing,
    BlackQueen,
    BlackRook,
    BlackBishop,
    BlackKnight,
    BlackPawn,
}

/// A decode-time failure of the piece codec; no board state is ever mutated
/// by a failing decode.
#[derive(Clone, Copy, Debug, PartialEq, Eq, Structural)]
pub enum PieceError {
    /// The value does not match exactly one of the 12 legal encodings.
    PieceEncodingError,
    /// The value 0: an empty square, not a piece.
    NoPieceFound,
    /// A character outside the 12 legal FEN piece letters.
    UnkownFENCharacter,
}

impl PieceError {
    /// A human-readable description of the failure.
    pub fn message(&self) -> String {
        match *self {
            PieceError::PieceEncodingError => "piece encoding error".to_owned(),
            PieceError::NoPieceFound => "no piece at the given position".to_owned(),
            PieceError::UnkownFENCharacter => "unkown FEN character".to_owned(),
        }
    }
}

/// The square-value encoding of a piece.
pub open spec fn piece_code(p: Piece) -> u8 {
    match p {
        Piece::WhiteKing => 0x01,
        Piece::WhiteQueen => 0x02,
        Piece::WhiteRook => 0x04,
        Piece::WhiteBishop => 0x08,
        Piece::WhiteKnight => 0x10,
        Piece::WhitePawn => 0x20,
        Piece::BlackKing => 0x41,
        Piece::BlackQueen => 0x42,
        Piece::BlackRook => 0x44,
        Piece::BlackBishop => 0x48,
        Piece::BlackKnight => 0x50,
        Piece::BlackPawn => 0x60,
    }
}

/// The piece a square value encodes, or `None` for 0 and for every value
/// that is not one of the 12 legal encodings.
pub open spec fn decode_piece(v: u8) -> Option<Piece> {
    if v == 0x01 {
        Some(Piece::WhiteKing)
    } else if v == 0x02 {
        Some(Piece::WhiteQueen)
    } else if v == 0x04 {
        Some(Piece::WhiteRook)
    } else if v == 0x08 {
        Some(Piece::WhiteBishop)
    } else if v == 0x10 {
        Some(Piece::WhiteKnight)
    } else if v == 0x20 {
        Some(Piece::WhitePawn)
    } else if v == 0x41 {
        Some(Piece::BlackKing)
    } else if v == 0x42 {
        Some(Piece::BlackQueen)
    } else if v == 0x44 {
        Some(Piece::BlackRook)
    } else if v == 0x48 {
        Some(Piece::BlackBishop)
    } else if v == 0x50 {
        Some(Piece::BlackKnight)
    } else if v == 0x60 {
        Some(Piece::BlackPawn)
    } else {
        None
    }
}

/// Whether a square value encodes some piece.
pub open spec fn is_piece_code(v: u8) -> bool {
    decode_piece(v) is Some
}

/// Whether a piece is white; white pieces encode below 64.
pub open spec fn piece_white(p: Piece) -> bool {
    piece_code(p) < 64
}

/// Whether a square value carries the white color, that is, lies below the
/// black color flag.
pub open spec fn code_white(v: u8) -> bool {
    v < 64
}

/// The piece a FEN letter encodes (`K Q R B N P`, lowercase for black).
pub open spec fn decode_char(c: char) -> Option<Piece> {
    if c == 'k' {
        Some(Piece::BlackKing)
    } else if c == 'q' {
        Some(Piece::BlackQueen)
    } else if c == 'r' {
        Some(Piece::BlackRook)
    } else if c == 'b' {
        Some(Piece::BlackBishop)
    } else if c == 'n' {
        Some(Piece::BlackKnight)
    } else if c == 'p' {
        Some(Piece::BlackPawn)
    } else if c == 'K' {
        Some(Piece::WhiteKing)
    } else if c == 'Q' {
        Some(Piece::WhiteQueen)
    } else if c == 'R' {
        Some(Piece::WhiteRook)
    } else if c == 'B' {
        Some(Piece::WhiteBishop)
    } else if c == 'N' {
        Some(Piece::WhiteKnight)
    } else if c == 'P' {
        Some(Piece::WhitePawn)
    } else {
        None
    }
}

/// The FEN letter of a piece.
pub open spec fn piece_char(p: Piece) -> char {
    match p {
        Piece::BlackKing => 'k',
        Piece::BlackQueen => 'q',
        Piece::BlackRook => 'r',
        Piece::BlackBishop => 'b',
        Piece::BlackKnight => 'n',
        Piece::BlackPawn => 'p',
        Piece::WhiteKing => 'K',
        Piece::WhiteQueen => 'Q',
        Piece::WhiteRook => 'R',
        Piece::WhiteBishop => 'B',
        Piece::WhiteKnight => 'N',
        Piece::WhitePawn => 'P',
    }
}

/// The display glyph of a piece.
pub open spec fn glyph_char(p: Piece) -> char {
    match p {
        Piece::WhiteKing => '\u{2654}',
        Piece::WhiteQueen => '\u{2655}',
        Piece::WhiteRook => '\u{2656}',
        Piece::WhiteBishop => '\u{2657}',
        Piece::WhiteKnight => '\u{2658}',
        Piece::WhitePawn => '\u{2659}',
        Piece::BlackKing => '\u{265A}',
        Piece::BlackQueen => '\u{265B}',
        Piece::BlackRook => '\u{265C}',
        Piece::BlackBishop => '\u{265D}',
        Piece::BlackKnight => '\u{265E}',
        Piece::BlackPawn => '\u{265F}',
    }
}

/// The code point of a piece's display glyph.
pub open spec fn piece_glyph(p: Piece) -> u32 {
    match p {
        Piece::WhiteKing => 0x2654,
        Piece::WhiteQueen => 0x2655,
        Piece::WhiteRook => 0x2656,
        Piece::WhiteBishop => 0x2657,
        Piece::WhiteKnight => 0x2658,
        Piece::WhitePawn => 0x2659,
        Piece::BlackKing => 0x265A,
        Piece::BlackQueen => 0x265B,
        Piece::BlackRook => 0x265C,
        Piece::BlackBishop => 0x265D,
        Piece::BlackKnight => 0x265E,
        Piece::BlackPawn => 0x265F,
    }
}

impl Piece {
    /// Whether this piece is white.
    pub fn is_white(&self) -> (r: bool)
        ensures
            r == piece_white(*self),
    {
        let v: u8 = self.as_u8();
        v < 64
    }

    /// The six white pieces, kings first.
    pub fn white_pieces() -> (r: Vec<Piece>)
        ensures
            r@ =~= seq![
                Piece::WhiteKing,
                Piece::WhiteQueen,
                Piece::WhiteRook,
                Piece::WhiteBishop,
                Piece::WhiteKnight,
                Piece::WhitePawn,
            ],
    {
        let mut v: Vec<Piece> = Vec::new();
        v.push(Piece::WhiteKing);
        v.push(Piece::WhiteQueen);
        v.push(Piece::WhiteRook);
        v.push(Piece::WhiteBishop);
        v.push(Piece::WhiteKnight);
        v.push(Piece::WhitePawn);
        v
    }

    /// The six black pieces, kings first.
    pub fn black_pieces() -> (r: Vec<Piece>)
        ensures
            r@ =~= seq![
                Piece::BlackKing,
                Piece::BlackQueen,
                Piece::BlackRook,
                Piece::BlackBishop,
                Piece::BlackKnight,
                Piece::BlackPawn,
            ],
    {
        let mut v: Vec<Piece> = Vec::new();
        v.push(Piece::BlackKing);
        v.push(Piece::BlackQueen);
        v.push(Piece::BlackRook);
        v.push(Piece::BlackBishop);
        v.push(Piece::BlackKnight);
        v.push(Piece::BlackPawn);
        v
    }

    /// The code point of this piece's display glyph.
    pub fn as_unicode(&self) -> (r: u32)
        ensures
            r == piece_glyph(*self),
    {
        match *self {
            Piece::WhiteKing => 0x2654,
            Piece::WhiteQueen => 0x2655,
            Piece::WhiteRook => 0x2656,
            Piece::WhiteBishop => 0x2657,
            Piece::WhiteKnight => 0x2658,
            Piece::WhitePawn => 0x2659,
            Piece::BlackKing => 0x265A,
            Piece::BlackQueen => 0x265B,
            Piece::BlackRook => 0x265C,
            Piece::BlackBishop => 0x265D,
            Piece::BlackKnight => 0x265E,
            Piece::BlackPawn => 0x265F,
        }
    }

    /// This piece's display glyph, as a one-character string.
    pub fn glyph(&self) -> (r: String)
        ensures
            r@ == seq![glyph_char(*self)],
    {
        let s: &str = match *self {
            Piece::WhiteKing => "\u{2654}",
            Piece::WhiteQueen => "\u{2655}",
            Piece::WhiteRook => "\u{2656}",
            Piece::WhiteBishop => "\u{2657}",
            Piece::WhiteKnight => "\u{2658}",
            Piece::WhitePawn => "\u{2659}",
            Piece::BlackKing => "\u{265A}",
            Piece::BlackQueen => "\u{265B}",
            Piece::BlackRook => "\u{265C}",
            Piece::BlackBishop => "\u{265D}",
            Piece::BlackKnight => "\u{265E}",
            Piece::BlackPawn => "\u{265F}",
        };
        proof {
            reveal_strlit("\u{2654}");
            reveal_strlit("\u{2655}");
            reveal_strlit("\u{2656}");
            reveal_strlit("\u{2657}");
            reveal_strlit("\u{2658}");
            reveal_strlit("\u{2659}");
            reveal_strlit("\u{265A}");
            reveal_strlit("\u{265B}");
            reveal_strlit("\u{265C}");
            reveal_strlit("\u{265D}");
            reveal_strlit("\u{265E}");
            reveal_strlit("\u{265F}");
            assert(s@ =~= seq![glyph_char(*self)]);
        }
        s.to_owned()
    }

    /// Decodes a square value, failing with `NoPieceFound` for 0 and with
    /// `PieceEncodingError` for any other value outside the 12 encodings.
    pub fn try_from_u8(value: u8) -> (r: Result<Piece, PieceError>)
        ensures
            decode_piece(value) matches Some(p) ==> r == Ok::<Piece, PieceError>(p),
            value == 0 ==> r == Err::<Piece, PieceError>(PieceError::NoPieceFound),
            value != 0 && decode_piece(value) is None ==> r == Err::<Piece, PieceError>(
                PieceError::PieceEncodingError,
            ),
    {
        match value {
            0x01 => Ok(Piece::WhiteKing),
            0x02 => Ok(Piece::WhiteQueen),
            0x04 => Ok(Piece::WhiteRook),
            0x08 => Ok(Piece::WhiteBishop),
            0x10 => Ok(Piece::WhiteKnight),
            0x20 => Ok(Piece::WhitePawn),
            0x41 => Ok(Piece::BlackKing),
            0x42 => Ok(Piece::BlackQueen),
            0x44 => Ok(Piece::BlackRook),
            0x48 => Ok(Piece::BlackBishop),
            0x50 => Ok(Piece::BlackKnight),
            0x60 => Ok(Piece::BlackPawn),
            0x00 => Err(PieceError::NoPieceFound),
            _ => Err(PieceError::PieceEncodingError),
        }
    }

    /// Decodes a FEN letter, failing with `UnkownFENCharacter` outside the
    /// 12 legal letters.
    pub fn try_from_char(value: char) -> (r: Result<Piece, PieceError>)
        ensures
            decode_char(value) matches Some(p) ==> r == Ok::<Piece, PieceError>(p),
            decode_char(value) is None ==> r == Err::<Piece, PieceError>(
                PieceError::UnkownFENCharacter,
            ),
    {
        match value {
            'k' => Ok(Piece::BlackKing),
            'q' => Ok(Piece::BlackQueen),
            'r' => Ok(Piece::BlackRook),
            'b' => Ok(Piece::BlackBishop),
            'n' => Ok(Piece::BlackKnight),
            'p' => Ok(Piece::BlackPawn),
            'K' => Ok(Piece::WhiteKing),
            'Q' => Ok(Piece::WhiteQueen),
            'R' => Ok(Piece::WhiteRook),
            'B' => Ok(Piece::WhiteBishop),
            'N' => Ok(Piece::WhiteKnight),
            'P' => Ok(Piece::WhitePawn),
            _ => Err(PieceError::UnkownFENCharacter),
        }
    }

    /// Encodes this piece as a square value.
    pub fn as_u8(&self) -> (r: u8)
        ensures
            r == piece_code(*self),
            decode_piece(r) == Some(*self),
    {
        match *self {
            Piece::WhiteKing => 0x01,
            Piece::WhiteQueen => 0x02,
            Piece::WhiteRook => 0x04,
            Piece::WhiteBishop => 0x08,
            Piece::WhiteKnight => 0x10,
            Piece::WhitePawn => 0x20,
            Piece::BlackKing => 0x41,
            Piece::BlackQueen => 0x42,
            Piece::BlackRook => 0x44,
            Piece::BlackBishop => 0x48,
            Piece::BlackKnight => 0x50,
            Piece::BlackPawn => 0x60,
        }
    }

    /// Encodes this piece as its FEN letter.
    pub fn as_char(&self) -> (r: char)
        ensures
            r == piece_char(*self),
            decode_char(r) == Some(*self),
    {
        match *self {
            Piece::BlackKing => 'k',
            Piece::BlackQueen => 'q',
            Piece::BlackRook => 'r',
            Piece::BlackBishop => 'b',
            Piece::BlackKnight => 'n',
            Piece::BlackPawn => 'p',
            Piece::WhiteKing => 'K',
            Piece::WhiteQueen => 'Q',
            Piece::WhiteRook => 'R',
            Piece::WhiteBishop => 'B',
            Piece::WhiteKnight => 'N',
            Piece::WhitePawn => 'P',
        }
    }
}

} // verus!
