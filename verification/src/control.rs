//! The control channel's line protocol: trimming a received line and
//! reading it as a command.

use vstd::prelude::*;

use crate::fs::str_eq;

verus! {

/// The commands an operator can send on the control channel. Anything that
/// is not `reload` or `abort` is an unknown message, answered but ignored.
#[derive(Clone, Copy, Debug, PartialEq, Eq, Structural)]
pub enum Command {
    Reload,
    Abort,
    Unknown,
}

/// The whitespace that framing leaves around a command: blanks, tabs and
/// the line terminator.
pub open spec fn is_line_ws(c: char) -> bool {
    c == ' ' || c == '\t' || c == '\r' || c == '\n'
}

/// `s` with its leading whitespace dropped.
pub open spec fn trim_front(s: Seq<char>) -> Seq<char>
    decreases s.len(),
{
    if s.len() > 0 && is_line_ws(s[0]) {
        trim_front(s.drop_first())
    } else {
        s
    }
}

/// `s` with its trailing whitespace dropped.
pub open spec fn trim_back(s: Seq<char>) -> Seq<char>
    decreases s.len(),
{
    if s.len() > 0 && is_line_ws(s.last()) {
        trim_back(s.drop_last())
    } else {
        s
    }
}

/// `s` with whitespace dropped on both ends.
pub open spec fn spec_trim(s: Seq<char>) -> Seq<char> {
    trim_back(trim_front(s))
}

/// The command a trimmed line stands for.
pub open spec fn spec_parse(s: Seq<char>) -> Command {
    if s == "reload"@ {
        Command::Reload
    } else if s == "abort"@ {
        Command::Abort
    } else {
        Command::Unknown
    }
}

/// Whether `c` is whitespace that line framing may leave around a command.
fn is_ws_char(c: char) -> (r: bool)
    ensures
        r == is_line_ws(c),
{
    c == ' ' || c == '\t' || c == '\r' || c == '\n'
}

/// Strips leading and trailing whitespace from a received line.
pub fn trim_line(line: &str) -> (r: String)
    ensures
        r@ == spec_trim(line@),
{
    let n = line.unicode_len();
    let mut a: usize = 0;
    proof {
        assert(line@.skip(0) =~= line@);
    }
    while a < n && is_ws_char(line.get_char(a))
        invariant
            a <= n,
            n == line@.len(),
            trim_front(line@) == trim_front(line@.skip(a as int)),
        decreases n - a,
    {
        proof {
            assert(line@.skip(a as int)[0] == line@[a as int]);
            assert(line@.skip(a as int).drop_first() =~= line@.skip(a as int + 1));
        }
        a = a + 1;
    }
    proof {
        if a < n {
            assert(line@.skip(a as int)[0] == line@[a as int]);
        }
        assert(trim_front(line@) == line@.skip(a as int));
        assert(line@.skip(a as int) =~= line@.subrange(a as int, n as int));
    }
    let mut b: usize = n;
    while b > a && is_ws_char(line.get_char(b - 1))
        invariant
            a <= b <= n,
            n == line@.len(),
            trim_front(line@) == line@.subrange(a as int, n as int),
            spec_trim(line@) == trim_back(line@.subrange(a as int, b as int)),
        decreases b,
    {
        proof {
            let piece = line@.subrange(a as int, b as int);
            assert(piece.last() == line@[b as int - 1]);
            assert(piece.drop_last() =~= line@.subrange(a as int, b as int - 1));
        }
        b = b - 1;
    }
    proof {
        let piece = line@.subrange(a as int, b as int);
        if b > a {
            assert(piece.last() == line@[b as int - 1]);
        }
        assert(trim_back(piece) == piece);
    }
    line.substring_char(a, b).to_owned()
}

/// Reads a received control line as a command: the line is trimmed, and a
/// trimmed line of exactly `reload` or `abort` names its command — anything
/// else, `foobar` as much as an empty line, is unknown.
pub fn parse_command(line: &str) -> (c: Command)
    ensures
        c == spec_parse(spec_trim(line@)),
{
    let t = trim_line(line);
    if str_eq(t.as_str(), "reload") {
        Command::Reload
    } else if str_eq(t.as_str(), "abort") {
        Command::Abort
    } else {
        Command::Unknown
    }
}

/// The control channel's answer to an unknown message; the serving state is
/// not consulted and nothing changes.
pub fn unknown_reply() -> (r: String)
    ensures
        r@ == "unknown message\r\n"@,
{
    "unknown message\r\n".to_owned()
}

} // verus!
