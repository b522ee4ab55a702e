//! Console commands: the parsed command vocabulary of the surrounding
//! terminal application, and the parser that turns a typed line into a
//! command, including long-algebraic move text such as `e2e4` and the
//! castling notations `0-0`, `0-0-0`, `O-O` and `O-O-O`.

use vstd::prelude::*;

use crate::fen::{chars_of, find_non_space, find_space, is_space, is_space_char, skip_spaces,
    skip_token};
use crate::position::{pos_ix, Move, Position};

verus! {

/// A failed command parse.
#[derive(Debug, Clone)]
pub enum CommandError {
    /// The line holds no command word.
    NoCommand,
    /// The command word is not part of the vocabulary.
    InvalidCommand,
    /// The move text of a `:move` command could not be read.
    MoveParsingError { mov: String },
}

impl CommandError {
    /// A human-readable description of the failure.
    pub fn message(&self) -> String {
        match self {
            CommandError::NoCommand => "no command received".to_owned(),
            CommandError::InvalidCommand => "invalid command".to_owned(),
            CommandError::MoveParsingError { mov } => {
                let mut s = "error parsing move: ".to_owned();
                s.append(mov.as_str());
                s
            },
        }
    }
}

/// A parsed console command.
#[derive(Debug, Clone)]
pub enum Command {
    Exit,
    SetPosition(String),
    GetFen,
    StartSeach,
    StopSearch,
    MakeMove(ParsedMove),
    PassTurn,
    FlipBoard,
}

/// A parsed move command: either explicit endpoints or one of the castling
/// notations, resolved against the side to move by the caller.
#[derive(Debug, Clone, Copy)]
pub enum ParsedMove {
    Basic { mov: Move },
    CastleLong,
    CastleShort,
}

/// The index one past the last non-space character of a string.
pub open spec fn rtrim(s: Seq<char>) -> int
    decreases s.len(),
{
    if s.len() == 0 {
        0
    } else if is_space(s.last()) {
        rtrim(s.drop_last())
    } else {
        s.len() as int
    }
}

/// A string with the whitespace stripped from both ends.
pub open spec fn trimmed(s: Seq<char>) -> Seq<char> {
    if skip_spaces(s, 0) >= rtrim(s) {
        Seq::empty()
    } else {
        s.subrange(skip_spaces(s, 0), rtrim(s))
    }
}

/// The first whitespace-separated token of a string.
pub open spec fn first_token(s: Seq<char>) -> Seq<char> {
    s.subrange(skip_spaces(s, 0), skip_token(s, skip_spaces(s, 0)))
}

/// The coordinate value a move-text character contributes: files `a..h`
/// and ranks `1..8` map to 0..7, everything else is dropped.
pub open spec fn move_val(c: char) -> Option<u8> {
    if 97 <= c as u32 <= 104 {
        Some((c as u32 - 97) as u8)
    } else if 49 <= c as u32 <= 56 {
        Some((c as u32 - 49) as u8)
    } else {
        None
    }
}

/// The coordinate values among the characters `s[i..n)`.
pub open spec fn filter_vals(s: Seq<char>, i: int, n: int) -> Seq<u8>
    decreases n - i,
{
    if i < 0 || i >= n || i >= s.len() {
        Seq::empty()
    } else {
        match move_val(s[i]) {
            Some(v) => seq![v] + filter_vals(s, i + 1, n),
            None => filter_vals(s, i + 1, n),
        }
    }
}

/// The coordinate values among the first four characters of a move text.
pub open spec fn move_values(s: Seq<char>) -> Seq<u8> {
    filter_vals(s, 0, 4)
}

/// The castling companion a bare king move implies: a king moving two
/// files from its home square carries the matching rook move.
pub open spec fn spec_castle_component(from: int, to: int) -> Option<(Position, Position)> {
    if from == 60 && to == 62 {
        Some((Position::Index { ix: 63 }, Position::Index { ix: 61 }))
    } else if from == 60 && to == 58 {
        Some((Position::Index { ix: 56 }, Position::Index { ix: 59 }))
    } else if from == 4 && to == 6 {
        Some((Position::Index { ix: 7 }, Position::Index { ix: 5 }))
    } else if from == 4 && to == 2 {
        Some((Position::Index { ix: 0 }, Position::Index { ix: 3 }))
    } else {
        None
    }
}

/// The move a four-value long-algebraic text denotes.
pub open spec fn basic_move(vals: Seq<u8>) -> Move {
    let pf = Position::Algebraic { rank: vals[0], file: vals[1] };
    let pt = Position::Algebraic { rank: vals[2], file: vals[3] };
    Move {
        from: pf,
        to: pt,
        promotion: None,
        en_passant: None,
        castling: spec_castle_component(pos_ix(pf), pos_ix(pt)),
        piece: None,
    }
}

/// The parsed move a trimmed move text denotes, or `None` when the text
/// cannot be read.
pub open spec fn spec_parsed_move(t: Seq<char>) -> Option<ParsedMove> {
    if t == seq!['0', '-', '0'] || t == seq!['O', '-', 'O'] {
        Some(ParsedMove::CastleShort)
    } else if t == seq!['0', '-', '0', '-', '0'] || t == seq!['O', '-', 'O', '-', 'O'] {
        Some(ParsedMove::CastleLong)
    } else if move_values(t).len() == 4 {
        Some(ParsedMove::Basic { mov: basic_move(move_values(t)) })
    } else {
        None
    }
}

/// Whether `cs[start..end)` equals a literal.
fn range_eq(cs: &Vec<char>, start: usize, end: usize, lit: &str) -> (r: bool)
    requires
        start <= end <= cs@.len(),
    ensures
        r == (cs@.subrange(start as int, end as int) == lit@),
{
    let n = lit.unicode_len();
    if end - start != n {
        proof {
            assert(cs@.subrange(start as int, end as int).len() != lit@.len());
        }
        return false;
    }
    let mut i: usize = 0;
    while i < n
        invariant
            n == lit@.len(),
            start <= end <= cs@.len(),
            end - start == n,
            i <= n,
            forall|j: int| 0 <= j < i ==> cs@.subrange(start as int, end as int)[j] == lit@[j],
        decreases n - i,
    {
        if cs[start + i] != lit.get_char(i) {
            proof {
                assert(cs@.subrange(start as int, end as int)[i as int] != lit@[i as int]);
            }
            return false;
        }
        i = i + 1;
    }
    proof {
        assert(cs@.subrange(start as int, end as int) =~= lit@);
    }
    true
}

/// The index one past the last non-space character of `cs`.
fn find_rtrim(cs: &Vec<char>) -> (r: usize)
    ensures
        r as int == rtrim(cs@),
        r <= cs@.len(),
{
    let mut end = cs.len();
    proof {
        assert(cs@.subrange(0, cs@.len() as int) =~= cs@);
    }
    while end > 0
        invariant
            end <= cs@.len(),
            rtrim(cs@) == rtrim(cs@.subrange(0, end as int)),
        decreases end,
    {
        if !is_space_char(cs[end - 1]) {
            proof {
                assert(cs@.subrange(0, end as int).last() == cs@[end - 1]);
            }
            return end;
        }
        proof {
            assert(cs@.subrange(0, end as int).drop_last() =~= cs@.subrange(0, end as int - 1));
        }
        end = end - 1;
    }
    proof {
        assert(cs@.subrange(0, 0) =~= Seq::<char>::empty());
    }
    0
}

/// The coordinate value a move-text character contributes, as executable
/// code.
#[verifier::when_used_as_spec(move_val)]
fn move_val_exec(c: char) -> (r: Option<u8>)
    ensures
        r == move_val(c),
{
    let v = c as u32;
    if 97 <= v && v <= 104 {
        Some((v - 97) as u8)
    } else if 49 <= v && v <= 56 {
        Some((v - 49) as u8)
    } else {
        None
    }
}

impl Command {
    /// Parses a console line into a command: the first whitespace-separated
    /// word selects the command, and `:fen` and `:move` carry the rest of
    /// the line as their argument.
    pub fn from_string(command: String) -> (r: Result<Command, CommandError>)
        ensures
            command_outcome(command@, r),
    {
        proof {
            reveal_strlit("!fen");
            reveal_strlit("exit");
            reveal_strlit(":q");
            reveal_strlit(":passturn");
            reveal_strlit(":flipboard");
            reveal_strlit(":search");
            reveal_strlit(":stop");
            reveal_strlit(":fen");
            reveal_strlit(":move");
            assert("!fen"@ =~= seq!['!', 'f', 'e', 'n']);
            assert("exit"@ =~= seq!['e', 'x', 'i', 't']);
            assert(":q"@ =~= seq![':', 'q']);
            assert(":passturn"@ =~= seq![':', 'p', 'a', 's', 's', 't', 'u', 'r', 'n']);
            assert(":flipboard"@ =~= seq![':', 'f', 'l', 'i', 'p', 'b', 'o', 'a', 'r', 'd']);
            assert(":search"@ =~= seq![':', 's', 'e', 'a', 'r', 'c', 'h']);
            assert(":stop"@ =~= seq![':', 's', 't', 'o', 'p']);
            assert(":fen"@ =~= seq![':', 'f', 'e', 'n']);
            assert(":move"@ =~= seq![':', 'm', 'o', 'v', 'e']);
        }
        let cs = chars_of(command.as_str());
        let n = cs.len();
        let start = find_non_space(&cs, 0);
        if start == n {
            proof {
                assert(first_token(command@) =~= Seq::<char>::empty());
            }
            return Err(CommandError::NoCommand);
        }
        let end = find_space(&cs, start);
        proof {
            crate::fen::lemma_skip_spaces_bounds(cs@, 0);
            crate::fen::lemma_skip_token_bounds(cs@, start as int + 1);
            assert(first_token(cs@).len() > 0);
        }
        if range_eq(&cs, start, end, "!fen") {
            return Ok(Command::GetFen);
        }
        if range_eq(&cs, start, end, "exit") || range_eq(&cs, start, end, ":q") {
            return Ok(Command::Exit);
        }
        if range_eq(&cs, start, end, ":passturn") {
            return Ok(Command::PassTurn);
        }
        if range_eq(&cs, start, end, ":flipboard") {
            return Ok(Command::FlipBoard);
        }
        if range_eq(&cs, start, end, ":search") {
            return Ok(Command::StartSeach);
        }
        if range_eq(&cs, start, end, ":stop") {
            return Ok(Command::StopSearch);
        }
        if range_eq(&cs, start, end, ":fen") && n > 5 {
            let rest = command.as_str().substring_char(5, n).to_owned();
            return Ok(Command::SetPosition(rest));
        }
        if range_eq(&cs, start, end, ":move") && n > 6 {
            let rest = command.as_str().substring_char(6, n).to_owned();
            return match parse_algebraic_move(rest) {
                Ok(mov) => Ok(Command::MakeMove(mov)),
                Err(e) => Err(e),
            };
        }
        Err(CommandError::InvalidCommand)
    }
}

/// The full outcome of a command parse, case by case over the first token.
pub open spec fn command_outcome(s: Seq<char>, r: Result<Command, CommandError>) -> bool {
    let tok = first_token(s);
    &&& tok.len() == 0 ==> r == Err::<Command, CommandError>(CommandError::NoCommand)
    &&& tok == seq!['!', 'f', 'e', 'n'] ==> r == Ok::<Command, CommandError>(Command::GetFen)
    &&& (tok == seq!['e', 'x', 'i', 't'] || tok == seq![':', 'q']) ==> r == Ok::<
        Command,
        CommandError,
    >(Command::Exit)
    &&& tok == seq![':', 'p', 'a', 's', 's', 't', 'u', 'r', 'n'] ==> r == Ok::<
        Command,
        CommandError,
    >(Command::PassTurn)
    &&& tok == seq![':', 'f', 'l', 'i', 'p', 'b', 'o', 'a', 'r', 'd'] ==> r == Ok::<
        Command,
        CommandError,
    >(Command::FlipBoard)
    &&& tok == seq![':', 's', 'e', 'a', 'r', 'c', 'h'] ==> r == Ok::<Command, CommandError>(
        Command::StartSeach,
    )
    &&& tok == seq![':', 's', 't', 'o', 'p'] ==> r == Ok::<Command, CommandError>(
        Command::StopSearch,
    )
    &&& tok == seq![':', 'f', 'e', 'n'] && s.len() > 5 ==> (r matches Ok(c) && (c matches
        Command::SetPosition(rest) && rest@ == s.subrange(5, s.len() as int)))
    &&& tok == seq![':', 'f', 'e', 'n'] && s.len() <= 5 ==> r == Err::<Command, CommandError>(
        CommandError::InvalidCommand,
    )
    &&& tok == seq![':', 'm', 'o', 'v', 'e'] && s.len() > 6 ==> move_command_outcome(
        s.subrange(6, s.len() as int),
        r,
    )
    &&& tok == seq![':', 'm', 'o', 'v', 'e'] && s.len() <= 6 ==> r == Err::<
        Command,
        CommandError,
    >(CommandError::InvalidCommand)
    &&& tok.len() > 0 && !known_token(tok) ==> r == Err::<Command, CommandError>(
        CommandError::InvalidCommand,
    )
}

/// The outcome of the `:move` command on its argument text.
pub open spec fn move_command_outcome(arg: Seq<char>, r: Result<Command, CommandError>) -> bool {
    match spec_parsed_move(trimmed(arg)) {
        Some(pm) => r == Ok::<Command, CommandError>(Command::MakeMove(pm)),
        None => r matches Err(e) && (e matches CommandError::MoveParsingError { mov } && mov@
            == trimmed(arg)),
    }
}

/// The command words of the vocabulary.
pub open spec fn known_token(tok: Seq<char>) -> bool {
    ||| tok == seq!['!', 'f', 'e', 'n']
    ||| tok == seq!['e', 'x', 'i', 't']
    ||| tok == seq![':', 'q']
    ||| tok == seq![':', 'p', 'a', 's', 's', 't', 'u', 'r', 'n']
    ||| tok == seq![':', 'f', 'l', 'i', 'p', 'b', 'o', 'a', 'r', 'd']
    ||| tok == seq![':', 's', 'e', 'a', 'r', 'c', 'h']
    ||| tok == seq![':', 's', 't', 'o', 'p']
    ||| tok == seq![':', 'f', 'e', 'n']
    ||| tok == seq![':', 'm', 'o', 'v', 'e']
}

/// Parses long-algebraic move text (for instance `e2e4`), accepting the
/// castling notations `0-0`, `0-0-0`, `O-O` and `O-O-O`.
pub fn parse_algebraic_move(mov: String) -> (r: Result<ParsedMove, CommandError>)
    ensures
        spec_parsed_move(trimmed(mov@)) matches Some(pm) ==> r == Ok::<ParsedMove, CommandError>(
            pm,
        ),
        spec_parsed_move(trimmed(mov@)) is None ==> (r matches Err(e) && (e matches
            CommandError::MoveParsingError { mov: t } && t@ == trimmed(mov@))),
{
    proof {
        reveal_strlit("0-0");
        reveal_strlit("O-O");
        reveal_strlit("0-0-0");
        reveal_strlit("O-O-O");
        assert("0-0"@ =~= seq!['0', '-', '0']);
        assert("O-O"@ =~= seq!['O', '-', 'O']);
        assert("0-0-0"@ =~= seq!['0', '-', '0', '-', '0']);
        assert("O-O-O"@ =~= seq!['O', '-', 'O', '-', 'O']);
    }
    let cs = chars_of(mov.as_str());
    let lo = find_non_space(&cs, 0);
    let hi = find_rtrim(&cs);
    let (lo, hi): (usize, usize) = if lo >= hi {
        (0, 0)
    } else {
        (lo, hi)
    };
    proof {
        assert(trimmed(mov@) =~= cs@.subrange(lo as int, hi as int));
    }
    if range_eq(&cs, lo, hi, "0-0") || range_eq(&cs, lo, hi, "O-O") {
        return Ok(ParsedMove::CastleShort);
    }
    if range_eq(&cs, lo, hi, "0-0-0") || range_eq(&cs, lo, hi, "O-O-O") {
        return Ok(ParsedMove::CastleLong);
    }
    let ghost t = cs@.subrange(lo as int, hi as int);
    let mut values: Vec<u8> = Vec::new();
    let mut i: usize = lo;
    let stop: usize = if hi - lo < 4 {
        hi
    } else {
        lo + 4
    };
    while i < stop
        invariant
            lo <= i <= stop <= hi <= cs@.len(),
            stop - lo <= 4,
            stop as int == if hi - lo < 4 {
                hi as int
            } else {
                lo + 4
            },
            t == cs@.subrange(lo as int, hi as int),
            values@ + filter_vals(t, i - lo, 4) == move_values(t),
        decreases stop - i,
    {
        proof {
            assert(t[i - lo] == cs@[i as int]);
        }
        match move_val_exec(cs[i]) {
            Some(v) => {
                values.push(v);
            },
            None => {},
        }
        i = i + 1;
    }
    proof {
        if stop == hi {
            assert(filter_vals(t, hi - lo, 4) =~= Seq::<u8>::empty());
        } else {
            assert(filter_vals(t, 4, 4) =~= Seq::<u8>::empty());
        }
        assert(values@ == move_values(t));
    }
    if values.len() != 4 {
        let text = mov.as_str().substring_char(lo, hi).to_owned();
        return Err(CommandError::MoveParsingError { mov: text });
    }
    let pos_from = Position::Algebraic { rank: values[0], file: values[1] };
    let pos_to = Position::Algebraic { rank: values[2], file: values[3] };
    proof {
        lemma_move_vals_in_range(t, 0, 4);
    }
    let castling = get_castle_component(pos_from, pos_to);
    Ok(ParsedMove::Basic { mov: Move::new_with_all(pos_from, pos_to, None, None, castling) })
}

/// Every coordinate value read from move text lies below 8.
proof fn lemma_move_vals_in_range(s: Seq<char>, i: int, n: int)
    ensures
        forall|k: int| 0 <= k < filter_vals(s, i, n).len() ==> (#[trigger] filter_vals(s, i, n)[k])
            < 8,
    decreases n - i,
{
    if !(i < 0 || i >= n || i >= s.len()) {
        lemma_move_vals_in_range(s, i + 1, n);
        match move_val(s[i]) {
            Some(v) => {
                let rest = filter_vals(s, i + 1, n);
                assert(v < 8);
                assert(filter_vals(s, i, n) == seq![v] + rest);
                assert forall|k: int| 0 <= k < filter_vals(s, i, n).len() implies (
                filter_vals(s, i, n)[k]) < 8 by {
                    if k == 0 {
                        assert((seq![v] + rest)[0] == v);
                    } else {
                        assert((seq![v] + rest)[k] == rest[k - 1]);
                    }
                }
            },
            None => {
                assert(filter_vals(s, i, n) == filter_vals(s, i + 1, n));
            },
        }
    }
}

/// The castling companion a bare king move implies, as executable code.
fn get_castle_component(pfrom: Position, pto: Position) -> (r: Option<(Position, Position)>)
    requires
        crate::position::pos_wf(pfrom),
        crate::position::pos_wf(pto),
    ensures
        r == spec_castle_component(pos_ix(pfrom), pos_ix(pto)),
{
    let (w_qsrook, w_ksrook) = (Position::Index { ix: 56 }, Position::Index { ix: 63 });
    let (b_qsrook, b_ksrook) = (Position::Index { ix: 0 }, Position::Index { ix: 7 });
    match pfrom.as_ix() {
        // white
        60 => match pto.as_ix() {
            62 => Some((w_ksrook, Position::Index { ix: 61 })),
            58 => Some((w_qsrook, Position::Index { ix: 59 })),
            _ => None,
        },
        // black
        4 => match pto.as_ix() {
            6 => Some((b_ksrook, Position::Index { ix: 5 })),
            2 => Some((b_qsrook, Position::Index { ix: 3 })),
            _ => None,
        },
        _ => None,
    }
}

} // verus!
