//! Small string operations of std that vstd gives no usable contract.
use vstd::prelude::*;

verus! {

/// Relies on `<char as ToString>::to_string`: the string holding exactly `c`.
#[verifier::external_body]
pub(crate) fn char_string(c: char) -> (r: String)
    ensures
        r@ == seq![c],
{
    c.to_string()
}

/// Relies on `String::push`: appends `c` at the end.
#[verifier::external_body]
pub(crate) fn push_char(s: &mut String, c: char)
    ensures
        final(s)@ == old(s)@.push(c),
{
    s.push(c)
}

/// Relies on `char::from_u32`: `None` exactly for surrogates and values
/// above `0x10FFFF`, else the scalar value with that code.
#[verifier::external_body]
pub(crate) fn char_from_code(code: u32) -> (r: Option<char>)
    ensures
        r == (if code <= 0x10FFFF && !(0xD800 <= code <= 0xDFFF) {
            Some(code as char)
        } else {
            None
        }),
{
    char::from_u32(code)
}

} // verus!
