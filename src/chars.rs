use vstd::prelude::*;

verus! {

/// Relies on std's `String::push`: it appends the one character given.
pub assume_specification[ String::push ](s: &mut String, ch: char)
    ensures
        final(s)@ == old(s)@.push(ch),
;

/// Relies on std's `char::from_u32`: `None` for a surrogate or a value above
/// U+10FFFF, and otherwise the character with that scalar value.
#[verifier::external_body]
pub(crate) fn char_from_scalar(code: u32) -> (r: Option<char>)
    ensures
        r is Some <==> (code < 0xD800 || (0xE000 <= code && code <= 0x10FFFF)),
        r matches Some(c) ==> c == code as char,
{
    char::from_u32(code)
}

/// The characters of `t`, in order.
pub(crate) fn chars_of(t: &str) -> (r: Vec<char>)
    ensures
        r@ == t@,
{
    let mut out: Vec<char> = Vec::new();
    for c in it: t.chars()
        invariant
            out@ == it.seq().take(it.index() as int),
            it.seq() == t@,
    {
        out.push(c);
    }
    out
}

} // verus!
