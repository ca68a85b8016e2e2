use vstd::prelude::*;
use vstd::string::*;

verus! {

/// An owned copy of a piece of text.
pub fn literal(s: &str) -> (res: String)
    ensures
        res@ == s@,
{
    s.to_owned()
}

/// Appends `tail` to `s`.
pub fn push_str(s: &mut String, tail: &str)
    ensures
        final(s)@ == old(s)@ + tail@,
{
    s.append(tail);
}

/// `String::push`: appends one character to the end of the string.
#[verifier::external_body]
pub(crate) fn push_char(s: &mut String, c: char)
    ensures
        final(s)@ == old(s)@.push(c),
{
    s.push(c);
}

} // verus!
