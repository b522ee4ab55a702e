//! Position-notation (FEN) codec: parses a position string into a board
//! array, side to move and castling rights, and serializes the inverse.
//!
//! Parsing is deliberately lenient: the rank separator `/` is not validated,
//! digits skip empty squares, unrecognized characters are silently skipped
//! without advancing, and writes past the last square are dropped.  Only a
//! missing placement field is an error.  Serialization always emits the
//! fixed placeholder suffix `- 0 1`, so counters do not round-trip.

use vstd::prelude::*;

use crate::piece::{decode_char, decode_piece, fold_rights, piece_char, piece_code, CastleRights};

verus! {

/// The whitespace that separates FEN fields.
pub open spec fn is_space(c: char) -> bool {
    c == ' ' || c == '\t' || c == '\n' || c == '\r'
}

/// The first index at or after `i` holding a non-space character, or the
/// string's length.
pub open spec fn skip_spaces(s: Seq<char>, i: int) -> int
    decreases s.len() - i,
{
    if i < 0 || i >= s.len() {
        s.len() as int
    } else if is_space(s[i]) {
        skip_spaces(s, i + 1)
    } else {
        i
    }
}

/// The first index at or after `i` holding a space, or the string's length.
pub open spec fn skip_token(s: Seq<char>, i: int) -> int
    decreases s.len() - i,
{
    if i < 0 || i >= s.len() {
        s.len() as int
    } else if is_space(s[i]) {
        i
    } else {
        skip_token(s, i + 1)
    }
}

/// The index skipping spaces lies between `i` and the string's length,
/// and lands on a non-space character when it lies inside the string.
pub proof fn lemma_skip_spaces_bounds(s: Seq<char>, i: int)
    requires
        0 <= i <= s.len(),
    ensures
        i <= skip_spaces(s, i) <= s.len(),
        skip_spaces(s, i) < s.len() ==> !is_space(s[skip_spaces(s, i)]),
    decreases s.len() - i,
{
    if i < s.len() && is_space(s[i]) {
        lemma_skip_spaces_bounds(s, i + 1);
    }
}

/// The index skipping a token lies between `i` and the string's length.
pub proof fn lemma_skip_token_bounds(s: Seq<char>, i: int)
    requires
        0 <= i <= s.len(),
    ensures
        i <= skip_token(s, i) <= s.len(),
    decreases s.len() - i,
{
    if i < s.len() && !is_space(s[i]) {
        lemma_skip_token_bounds(s, i + 1);
    }
}

/// Whether a character is a decimal digit.
pub open spec fn is_digit(c: char) -> bool {
    48 <= c as u32 <= 57
}

/// The value of a decimal digit character.
pub open spec fn digit_val(c: char) -> int {
    c as u32 - 48
}

/// The board after folding the placement characters `s[i..end)` onto
/// `board`, writing at square `ix` and onward: `/` is ignored, a digit
/// skips that many squares, a piece letter fills one square and advances,
/// any other character is skipped without advancing, and writes beyond the
/// last square are dropped.
pub open spec fn place_from(s: Seq<char>, i: int, end: int, board: Seq<u8>, ix: int) -> Seq<u8>
    decreases end - i,
{
    if i < 0 || i >= end || end > s.len() {
        board
    } else {
        let c = s[i];
        if c == '/' {
            place_from(s, i + 1, end, board, ix)
        } else if is_digit(c) {
            place_from(s, i + 1, end, board, ix + digit_val(c))
        } else {
            match decode_char(c) {
                Some(p) => place_from(
                    s,
                    i + 1,
                    end,
                    if 0 <= ix < 64 {
                        board.update(ix, piece_code(p))
                    } else {
                        board
                    },
                    ix + 1,
                ),
                None => place_from(s, i + 1, end, board, ix),
            }
        }
    }
}

/// The all-empty board.
pub open spec fn empty_board() -> Seq<u8> {
    Seq::new(64, |i: int| 0u8)
}

/// The end of the placement field of a FEN string.
pub open spec fn placement_end(s: Seq<char>) -> int {
    skip_token(s, skip_spaces(s, 0))
}

/// Whether a FEN string has a placement field at all.
pub open spec fn fen_has_placement(s: Seq<char>) -> bool {
    skip_spaces(s, 0) < s.len()
}

/// The board a FEN string parses to.
pub open spec fn fen_board(s: Seq<char>) -> Seq<u8> {
    place_from(s, skip_spaces(s, 0), placement_end(s), empty_board(), 0)
}

/// The side to move a FEN string parses to: white unless the second field
/// is present and starts with a character other than `w` or `W`.
pub open spec fn fen_white(s: Seq<char>) -> bool {
    let st = skip_spaces(s, placement_end(s));
    if st >= s.len() {
        true
    } else {
        s[st] == 'w' || s[st] == 'W'
    }
}

/// The packed castling rights a FEN string parses to: the characters
/// `K Q k q` of the third field set the four bits and everything else is
/// ignored.
pub open spec fn fen_rights(s: Seq<char>) -> u8 {
    let st2 = skip_spaces(s, placement_end(s));
    let en2 = skip_token(s, st2);
    let st3 = skip_spaces(s, en2);
    let en3 = skip_token(s, st3);
    fold_rights(s.subrange(st3, en3), 0)
}

/// Whether every square value of a board is either empty or one of the 12
/// legal piece encodings.
pub open spec fn board_codes_valid(board: Seq<u8>) -> bool {
    forall|i: int| 0 <= i < 64 ==> board[i] == 0 || crate::piece::is_piece_code(#[trigger] board[i])
}

/// The digit character for a run of `n` empty squares.
pub open spec fn digit_char(n: int) -> char {
    if n == 1 {
        '1'
    } else if n == 2 {
        '2'
    } else if n == 3 {
        '3'
    } else if n == 4 {
        '4'
    } else if n == 5 {
        '5'
    } else if n == 6 {
        '6'
    } else if n == 7 {
        '7'
    } else {
        '8'
    }
}

/// The serialized text of row `row` from column `col` on, with `empties`
/// empty squares pending: runs of empties are length-encoded as a digit
/// and pieces as their FEN letter.
pub open spec fn row_chars(board: Seq<u8>, row: int, col: int, empties: int) -> Seq<char>
    decreases 8 - col,
{
    if col < 0 || col >= 8 {
        if empties > 0 {
            seq![digit_char(empties)]
        } else {
            Seq::empty()
        }
    } else {
        match decode_piece(board[row * 8 + col]) {
            Some(p) => (if empties > 0 {
                seq![digit_char(empties)]
            } else {
                Seq::empty()
            }) + seq![piece_char(p)] + row_chars(board, row, col + 1, 0),
            None => row_chars(board, row, col + 1, empties + 1),
        }
    }
}

/// The serialized placement text of rows `row..8`, rows separated by `/`.
pub open spec fn rows_chars(board: Seq<u8>, row: int) -> Seq<char>
    decreases 8 - row,
{
    if row < 0 || row >= 8 {
        Seq::empty()
    } else {
        row_chars(board, row, 0, 0) + (if row < 7 {
            seq!['/']
        } else {
            Seq::empty()
        }) + rows_chars(board, row + 1)
    }
}

/// The castling letters of a packed rights byte, in fixed `KQkq` order.
pub open spec fn rights_chars(rights: u8) -> Seq<char> {
    (if rights & 8 != 0 {
        seq!['K']
    } else {
        Seq::empty()
    }) + (if rights & 4 != 0 {
        seq!['Q']
    } else {
        Seq::empty()
    }) + (if rights & 2 != 0 {
        seq!['k']
    } else {
        Seq::empty()
    }) + (if rights & 1 != 0 {
        seq!['q']
    } else {
        Seq::empty()
    })
}

/// The full serialized FEN text of a position: placement, side letter,
/// castling letters, and the fixed placeholder suffix.
pub open spec fn fen_text(board: Seq<u8>, white: bool, rights: u8) -> Seq<char> {
    rows_chars(board, 0) + seq![' '] + (if white {
        seq!['w']
    } else {
        seq!['b']
    }) + seq![' '] + rights_chars(rights) + seq![' ', '-', ' ', '0', ' ', '1']
}

/// A missing-placement failure of the FEN codec.
#[derive(Clone, Copy, Debug, PartialEq, Eq, Structural)]
pub enum ParsingError {
    /// The string has no placement field.
    ErrorParsingFEN,
}

impl ParsingError {
    /// A human-readable description of the failure.
    pub fn message(&self) -> String {
        "error parsing fen".to_owned()
    }
}

/// A parsed FEN position: board array, side to move and castling rights.
pub struct Fen {
    pub board: [u8; 64],
    pub white_to_move: bool,
    pub castling: CastleRights,
}

/// The first index at or after `from` of `cs` holding a non-space
/// character, or the vector's length.
pub(crate) fn find_non_space(cs: &Vec<char>, from: usize) -> (r: usize)
    requires
        from <= cs@.len(),
    ensures
        r as int == skip_spaces(cs@, from as int),
        from <= r <= cs@.len(),
{
    let mut i = from;
    while i < cs.len()
        invariant
            from <= i <= cs@.len(),
            skip_spaces(cs@, from as int) == skip_spaces(cs@, i as int),
        decreases cs@.len() - i,
    {
        if !is_space_char(cs[i]) {
            return i;
        }
        i = i + 1;
    }
    i
}

/// The first index at or after `from` of `cs` holding a space, or the
/// vector's length.
pub(crate) fn find_space(cs: &Vec<char>, from: usize) -> (r: usize)
    requires
        from <= cs@.len(),
    ensures
        r as int == skip_token(cs@, from as int),
        from <= r <= cs@.len(),
{
    let mut i = from;
    while i < cs.len()
        invariant
            from <= i <= cs@.len(),
            skip_token(cs@, from as int) == skip_token(cs@, i as int),
        decreases cs@.len() - i,
    {
        if is_space_char(cs[i]) {
            return i;
        }
        i = i + 1;
    }
    i
}

/// Exec mirror of [`is_space`].
#[verifier::when_used_as_spec(is_space)]
pub(crate) fn is_space_char(c: char) -> (r: bool)
    ensures
        r == is_space(c),
{
    c == ' ' || c == '\t' || c == '\n' || c == '\r'
}

/// The characters of a string, as a vector for constant-time access.
pub(crate) fn chars_of(s: &str) -> (r: Vec<char>)
    ensures
        r@ == s@,
{
    let n = s.unicode_len();
    let mut cs: Vec<char> = Vec::new();
    let mut i: usize = 0;
    while i < n
        invariant
            n == s@.len(),
            i <= n,
            cs@ =~= s@.subrange(0, i as int),
        decreases n - i,
    {
        cs.push(s.get_char(i));
        i = i + 1;
    }
    proof {
        assert(cs@ =~= s@);
    }
    cs
}

impl Fen {
    /// Parses a FEN string into board, side to move and castling rights,
    /// failing only when the placement field is absent.
    pub fn parse(value: String) -> (r: Result<Fen, ParsingError>)
        ensures
            !fen_has_placement(value@) ==> r == Err::<Fen, ParsingError>(
                ParsingError::ErrorParsingFEN,
            ),
            fen_has_placement(value@) ==> ({
                &&& r matches Ok(f)
                &&& f.board@ == fen_board(value@)
                &&& f.white_to_move == fen_white(value@)
                &&& f.castling.rights == fen_rights(value@)
            }),
    {
        let cs = chars_of(value.as_str());
        let n = cs.len();
        let start1 = find_non_space(&cs, 0);
        if start1 == n {
            return Err(ParsingError::ErrorParsingFEN);
        }
        let end1 = find_space(&cs, start1);
        // piece placement
        let mut board = [0u8; 64];
        proof {
            assert(board@ =~= empty_board());
        }
        let mut ix: usize = 0;
        let ghost spec_ix: int = 0;
        let mut i = start1;
        while i < end1
            invariant
                start1 <= i <= end1 <= n,
                n == cs@.len(),
                ix <= 64,
                ix < 64 ==> ix == spec_ix,
                ix == 64 ==> spec_ix >= 64,
                spec_ix >= 0,
                fen_board(cs@) == place_from(cs@, i as int, end1 as int, board@, spec_ix),
            decreases end1 - i,
        {
            let c = cs[i];
            if c == '/' {
                // rank separator, not validated
            } else if ('0' as u32 <= c as u32) && (c as u32 <= '9' as u32) {
                let skip = (c as u32 - 48) as usize;
                proof {
                    spec_ix = spec_ix + digit_val(c);
                }
                ix = if ix + skip > 64 {
                    64
                } else {
                    ix + skip
                };
            } else {
                match crate::piece::Piece::try_from_char(c) {
                    Ok(piece) => {
                        if ix < 64 {
                            board[ix] = piece.as_u8();
                        }
                        proof {
                            spec_ix = spec_ix + 1;
                        }
                        ix = if ix + 1 > 64 {
                            64
                        } else {
                            ix + 1
                        };
                    },
                    Err(_) => {
                        // unrecognized characters are skipped without advancing
                    },
                }
            }
            i = i + 1;
        }
        // side to move
        let start2 = find_non_space(&cs, end1);
        let white_to_move = if start2 == n {
            true
        } else {
            cs[start2] == 'w' || cs[start2] == 'W'
        };
        // castling rights
        let end2 = find_space(&cs, start2);
        let start3 = find_non_space(&cs, end2);
        let end3 = find_space(&cs, start3);
        let mut rights: u8 = 0;
        let mut j = start3;
        proof {
            assert(fen_white(cs@) == white_to_move);
        }
        let ghost field3 = cs@.subrange(start3 as int, end3 as int);
        while j < end3
            invariant
                start3 <= j <= end3 <= n,
                n == cs@.len(),
                field3 == cs@.subrange(start3 as int, end3 as int),
                crate::piece::fold_rights(field3, 0) == crate::piece::fold_rights_from(
                    field3,
                    j as int - start3 as int,
                    rights,
                ),
            decreases end3 - j,
        {
            rights = rights | crate::piece::rights_char_bit(cs[j]);
            j = j + 1;
        }
        // further fields (en-passant target, counters) are read but not
        // interpreted
        Ok(Fen { board, white_to_move, castling: CastleRights { rights } })
    }

    /// Serializes this position: run-length-encoded placement, side letter,
    /// castling letters in `KQkq` order, and the placeholder suffix.
    pub fn to_string(&self) -> (r: String)
        requires
            board_codes_valid(self.board@),
        ensures
            r@ == fen_text(self.board@, self.white_to_move, self.castling.rights),
    {
        let mut out = String::new();
        let mut row: u8 = 0;
        while row < 8
            invariant
                row <= 8,
                board_codes_valid(self.board@),
                out@ + rows_chars(self.board@, row as int) == rows_chars(self.board@, 0),
            decreases 8 - row,
        {
            let ghost row_start = out@;
            let mut empties: u8 = 0;
            let mut col: u8 = 0;
            while col < 8
                invariant
                    row < 8,
                    col <= 8,
                    empties <= col,
                    board_codes_valid(self.board@),
                    row_start + row_chars(self.board@, row as int, 0, 0) == out@ + row_chars(
                        self.board@,
                        row as int,
                        col as int,
                        empties as int,
                    ),
                decreases 8 - col,
            {
                let v = self.board[(row * 8 + col) as usize];
                if v == 0 {
                    empties = empties + 1;
                } else {
                    if empties > 0 {
                        push_digit(&mut out, empties);
                        empties = 0;
                    }
                    match crate::piece::Piece::try_from_u8(v) {
                        Ok(p) => {
                            push_piece_letter(&mut out, p);
                        },
                        Err(_) => {
                            proof {
                                assert(false);
                            }
                        },
                    }
                }
                col = col + 1;
            }
            if empties > 0 {
                push_digit(&mut out, empties);
            }
            if row < 7 {
                proof {
                    reveal_strlit("/");
                }
                out.append("/");
            }
            proof {
                assert(out@ =~= row_start + row_chars(self.board@, row as int, 0, 0) + (if row
                    < 7 {
                    seq!['/']
                } else {
                    Seq::<char>::empty()
                }));
                assert(out@ + rows_chars(self.board@, row as int + 1) =~= rows_chars(
                    self.board@,
                    0,
                ));
            }
            row = row + 1;
        }
        let ghost placed = out@;
        proof {
            assert(placed =~= rows_chars(self.board@, 0));
            reveal_strlit(" ");
            reveal_strlit("w");
            reveal_strlit("b");
            reveal_strlit("K");
            reveal_strlit("Q");
            reveal_strlit("k");
            reveal_strlit("q");
            reveal_strlit(" - 0 1");
        }
        out.append(" ");
        if self.white_to_move {
            out.append("w");
        } else {
            out.append("b");
        }
        out.append(" ");
        let ghost before_rights = out@;
        if self.castling.get(crate::piece::CastleRigthsMask::WhiteKingside) {
            out.append("K");
        }
        if self.castling.get(crate::piece::CastleRigthsMask::WhiteQueenside) {
            out.append("Q");
        }
        if self.castling.get(crate::piece::CastleRigthsMask::BlackKingside) {
            out.append("k");
        }
        if self.castling.get(crate::piece::CastleRigthsMask::BlackQueenside) {
            out.append("q");
        }
        proof {
            assert(out@ =~= before_rights + rights_chars(self.castling.rights));
        }
        out.append(" - 0 1");
        proof {
            assert(out@ =~= fen_text(self.board@, self.white_to_move, self.castling.rights));
        }
        out
    }
}

/// Appends the digit character for a run of `d` empty squares.
fn push_digit(out: &mut String, d: u8)
    requires
        1 <= d <= 8,
    ensures
        final(out)@ == old(out)@ + seq![digit_char(d as int)],
{
    let s: &'static str = match d {
        1 => "1",
        2 => "2",
        3 => "3",
        4 => "4",
        5 => "5",
        6 => "6",
        7 => "7",
        _ => "8",
    };
    proof {
        reveal_strlit("1");
        reveal_strlit("2");
        reveal_strlit("3");
        reveal_strlit("4");
        reveal_strlit("5");
        reveal_strlit("6");
        reveal_strlit("7");
        reveal_strlit("8");
        assert(s@ =~= seq![digit_char(d as int)]);
    }
    out.append(s);
}

/// Appends a piece's FEN letter.
fn push_piece_letter(out: &mut String, p: crate::piece::Piece)
    ensures
        final(out)@ == old(out)@ + seq![piece_char(p)],
{
    let s: &'static str = match p {
        crate::piece::Piece::BlackKing => "k",
        crate::piece::Piece::BlackQueen => "q",
        crate::piece::Piece::BlackRook => "r",
        crate::piece::Piece::BlackBishop => "b",
        crate::piece::Piece::BlackKnight => "n",
        crate::piece::Piece::BlackPawn => "p",
        crate::piece::Piece::WhiteKing => "K",
        crate::piece::Piece::WhiteQueen => "Q",
        crate::piece::Piece::WhiteRook => "R",
        crate::piece::Piece::WhiteBishop => "B",
        crate::piece::Piece::WhiteKnight => "N",
        crate::piece::Piece::WhitePawn => "P",
    };
    proof {
        reveal_strlit("k");
        reveal_strlit("q");
        reveal_strlit("r");
        reveal_strlit("b");
        reveal_strlit("n");
        reveal_strlit("p");
        reveal_strlit("K");
        reveal_strlit("Q");
        reveal_strlit("R");
        reveal_strlit("B");
        reveal_strlit("N");
        reveal_strlit("P");
        assert(s@ =~= seq![piece_char(p)]);
    }
    out.append(s);
}

} // verus!
