//! Reading a yes-or-no answer typed by the user.

use vstd::prelude::*;
use vstd::string::*;

verus! {

/// Whether `c` has the Unicode `White_Space` property (as `char::is_whitespace` tests).
pub open spec fn is_white_space(c: char) -> bool {
    ||| c == '\t'
    ||| c == '\n'
    ||| c == '\u{0B}'
    ||| c == '\u{0C}'
    ||| c == '\r'
    ||| c == ' '
    ||| c == '\u{85}'
    ||| c == '\u{A0}'
    ||| c == '\u{1680}'
    ||| ('\u{2000}' <= c && c <= '\u{200A}')
    ||| c == '\u{2028}'
    ||| c == '\u{2029}'
    ||| c == '\u{202F}'
    ||| c == '\u{205F}'
    ||| c == '\u{3000}'
}

/// `s` without its leading white space.
pub open spec fn trim_start(s: Seq<char>) -> Seq<char>
    decreases s.len(),
{
    if s.len() > 0 && is_white_space(s[0]) {
        trim_start(s.drop_first())
    } else {
        s
    }
}

/// `s` without its trailing white space.
pub open spec fn trim_end(s: Seq<char>) -> Seq<char>
    decreases s.len(),
{
    if s.len() > 0 && is_white_space(s.last()) {
        trim_end(s.drop_last())
    } else {
        s
    }
}

/// `s` without its leading and trailing white space.
pub open spec fn trimmed(s: Seq<char>) -> Seq<char> {
    trim_end(trim_start(s))
}

/// What the user answered.
#[derive(Debug, Clone, Copy, PartialEq, Eq, Structural)]
pub enum Answer {
    Yes,
    No,
    Other,
}

/// The answer a line holds: yes when, trimmed of white space, it is `y` or `Y` (the
/// texts whose lowercase form is `y`); no when it is `n` or `N`; anything else otherwise.
pub open spec fn answer_of(line: Seq<char>) -> Answer {
    let t = trimmed(line);
    if t == seq!['y'] || t == seq!['Y'] {
        Answer::Yes
    } else if t == seq!['n'] || t == seq!['N'] {
        Answer::No
    } else {
        Answer::Other
    }
}

/// Whether `c` is white space.
fn white_space(c: char) -> (b: bool)
    ensures
        b == is_white_space(c),
{
    c == '\t' || c == '\n' || c == '\u{0B}' || c == '\u{0C}' || c == '\r' || c == ' ' || c
        == '\u{85}' || c == '\u{A0}' || c == '\u{1680}' || ('\u{2000}' <= c && c <= '\u{200A}')
        || c == '\u{2028}' || c == '\u{2029}' || c == '\u{202F}' || c == '\u{205F}' || c
        == '\u{3000}'
}

/// Reads the answer in a line typed by the user.
pub fn read_answer(line: &str) -> (a: Answer)
    ensures
        a == answer_of(line@),
{
    let ghost s = line@;
    let n = line.unicode_len();
    let mut i: usize = 0;
    assert(s.subrange(0, n as int) =~= s);
    while i < n && white_space(line.get_char(i))
        invariant
            s == line@,
            n == s.len(),
            i <= n,
            trim_start(s) == trim_start(s.subrange(i as int, n as int)),
        decreases n - i,
    {
        assert(s.subrange(i as int, n as int).drop_first() =~= s.subrange(i + 1, n as int));
        i = i + 1;
    }
    assert(trim_start(s.subrange(i as int, n as int)) == s.subrange(i as int, n as int));
    let mut j: usize = n;
    while j > i && white_space(line.get_char(j - 1))
        invariant
            s == line@,
            n == s.len(),
            i <= j <= n,
            trimmed(s) == trim_end(s.subrange(i as int, j as int)),
        decreases j - i,
    {
        assert(s.subrange(i as int, j as int).drop_last() =~= s.subrange(i as int, j - 1));
        j = j - 1;
    }
    let ghost t = s.subrange(i as int, j as int);
    assert(trimmed(s) == t);
    if j - i == 1 {
        let c = line.get_char(i);
        assert(t =~= seq![c]);
        if c == 'y' || c == 'Y' {
            Answer::Yes
        } else if c == 'n' || c == 'N' {
            Answer::No
        } else {
            assert(t != seq!['y'] && t != seq!['Y'] && t != seq!['n'] && t != seq!['N']);
            Answer::Other
        }
    } else {
        assert(t.len() != 1);
        Answer::Other
    }
}

} // verus!
