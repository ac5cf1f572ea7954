//! Commands, and the text that stands for them.

use vstd::prelude::*;
use vstd::string::StrSliceExecFns;

verus! {

/// What the player asks for in one tick.
#[derive(Copy, Clone, Debug, PartialEq, Eq, Structural)]
pub enum Command {
    /// Shift one column to the left.
    Left,
    /// Shift one column to the right.
    Right,
    /// Turn a quarter clockwise.
    Rotate,
    /// Fall to the bottom without further prompts.
    Drop,
    /// Nothing: the piece only falls.
    Idle,
}

/// The command that a token stands for: `a`, `d`, `w` and `s` are the four
/// requests; every other token, the empty one too, asks for nothing.
pub open spec fn command_of(token: Seq<char>) -> Command {
    if token == seq!['a'] {
        Command::Left
    } else if token == seq!['d'] {
        Command::Right
    } else if token == seq!['w'] {
        Command::Rotate
    } else if token == seq!['s'] {
        Command::Drop
    } else {
        Command::Idle
    }
}

/// The character has the Unicode property White_Space: the blank, the
/// controls from tab to carriage return, next line, the no-break space,
/// and the spaces and separators beyond Latin-1.
pub open spec fn is_white_space(c: char) -> bool {
    let n = c as u32;
    ||| 0x09 <= n <= 0x0D
    ||| n == 0x20
    ||| n == 0x85
    ||| n == 0xA0
    ||| n == 0x1680
    ||| 0x2000 <= n <= 0x200A
    ||| n == 0x2028
    ||| n == 0x2029
    ||| n == 0x202F
    ||| n == 0x205F
    ||| n == 0x3000
}

/// The line without the whitespace it begins with.
pub open spec fn trimmed_start(line: Seq<char>) -> Seq<char>
    decreases line.len(),
{
    if line.len() > 0 && is_white_space(line.first()) {
        trimmed_start(line.drop_first())
    } else {
        line
    }
}

/// The line without the whitespace it ends with.
pub open spec fn trimmed_end(line: Seq<char>) -> Seq<char>
    decreases line.len(),
{
    if line.len() > 0 && is_white_space(line.last()) {
        trimmed_end(line.drop_last())
    } else {
        line
    }
}

/// The line without the whitespace around it: what lies between its first
/// and its last character that is not whitespace, those two included.
pub open spec fn trimmed(line: Seq<char>) -> Seq<char> {
    trimmed_end(trimmed_start(line))
}

/// Where the first `a` characters of the line are whitespace and the one
/// after them is not, the line begins there once its start is trimmed.
proof fn lemma_trimmed_start(line: Seq<char>, a: int)
    requires
        0 <= a <= line.len(),
        forall|i: int| 0 <= i < a ==> is_white_space(#[trigger] line[i]),
        a < line.len() ==> !is_white_space(line[a]),
    ensures
        trimmed_start(line) == line.subrange(a, line.len() as int),
    decreases a,
{
    if a == 0 {
        assert(line.subrange(0, line.len() as int) =~= line);
    } else {
        let rest = line.drop_first();
        assert forall|i: int| 0 <= i < a - 1 implies is_white_space(#[trigger] rest[i]) by {
            assert(rest[i] == line[i + 1]);
        }
        lemma_trimmed_start(rest, a - 1);
        assert(rest.subrange(a - 1, rest.len() as int) =~= line.subrange(a, line.len() as int));
    }
}

/// Where the characters of the line from the `b`-th on are whitespace and
/// the one before them is not, the line ends there once its end is trimmed.
proof fn lemma_trimmed_end(line: Seq<char>, b: int)
    requires
        0 <= b <= line.len(),
        forall|i: int| b <= i < line.len() ==> is_white_space(#[trigger] line[i]),
        0 < b ==> !is_white_space(line[b - 1]),
    ensures
        trimmed_end(line) == line.subrange(0, b),
    decreases line.len() - b,
{
    if b == line.len() {
        assert(line.subrange(0, b) =~= line);
    } else {
        let rest = line.drop_last();
        lemma_trimmed_end(rest, b);
        assert(rest.subrange(0, b) =~= line.subrange(0, b));
    }
}

/// Trimming keeps what lies between the first and the last character that
/// is not whitespace. Where the line is whitespace before `a` and from `b`
/// on, and the characters at `a` and before `b` are not, it leaves the
/// characters from `a` up to `b`; a line of whitespace alone leaves nothing.
pub proof fn lemma_trimmed(line: Seq<char>, a: int, b: int)
    requires
        0 <= a <= b <= line.len(),
        forall|i: int| 0 <= i < a ==> is_white_space(#[trigger] line[i]),
        forall|i: int| b <= i < line.len() ==> is_white_space(#[trigger] line[i]),
        a < b ==> !is_white_space(line[a]) && !is_white_space(line[b - 1]),
    ensures
        trimmed(line) == line.subrange(a, b),
{
    let len = line.len() as int;
    if a < b {
        lemma_trimmed_start(line, a);
        let tail = line.subrange(a, len);
        assert forall|i: int| b - a <= i < tail.len() implies is_white_space(
            #[trigger] tail[i],
        ) by {
            assert(tail[i] == line[a + i]);
        }
        lemma_trimmed_end(tail, b - a);
        assert(tail.subrange(0, b - a) =~= line.subrange(a, b));
    } else {
        lemma_trimmed_start(line, len);
        assert(line.subrange(len, len) =~= Seq::<char>::empty());
        assert(line.subrange(a, b) =~= Seq::<char>::empty());
    }
}

/// `str::trim`: the line without its leading and trailing whitespace, where
/// whitespace is what the Unicode property White_Space says. The contract
/// writes that property out as [`is_white_space`].
#[verifier::external_body]
fn trim(line: &str) -> (token: &str)
    ensures
        token@ == trimmed(line@),
{
    line.trim()
}

/// The command that a token stands for.
pub fn parse_command(token: &str) -> (cmd: Command)
    ensures
        cmd == command_of(token@),
{
    if token.unicode_len() != 1 {
        return Command::Idle;
    }
    let c = token.get_char(0);
    assert(token@ =~= seq![c]);
    if c == 'a' {
        Command::Left
    } else if c == 'd' {
        Command::Right
    } else if c == 'w' {
        Command::Rotate
    } else if c == 's' {
        Command::Drop
    } else {
        Command::Idle
    }
}

/// The command that a line of input stands for: the line is trimmed of
/// surrounding whitespace and what is left is read as a token.
pub fn read_command(line: &str) -> (cmd: Command)
    ensures
        cmd == command_of(trimmed(line@)),
{
    parse_command(trim(line))
}

} // verus!
