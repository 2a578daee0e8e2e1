//! Trusted bridges between byte vectors, strings and characters, over
//! the UTF-8 model of vstd.

use vstd::prelude::*;

verus! {

#[verifier::external_type_specification]
#[verifier::external_body]
pub struct ExFromUtf8Error(std::string::FromUtf8Error);

/// Relies on String::from_utf8: succeeds exactly on valid UTF-8 input
/// and returns the decoded text.
#[verifier::external_body]
pub fn utf8_to_string(bytes: Vec<u8>) -> (r: Result<String, std::string::FromUtf8Error>)
    ensures
        r is Ok <==> vstd::utf8::valid_utf8(bytes@),
        r matches Ok(s) ==> s@ == vstd::utf8::decode_utf8(bytes@),
{
    String::from_utf8(bytes)
}

/// Relies on String::push: appends one character at the end.
#[verifier::external_body]
pub fn push_char(s: &mut String, c: char)
    ensures
        final(s)@ == old(s)@ + seq![c],
{
    s.push(c);
}

/// Relies on char::from_u32: a value outside the surrogate range and
/// below 0x10000 names exactly one character, so under the
/// precondition the conversion cannot return `None`.
#[verifier::external_body]
pub fn char_from_code(v: u16) -> (c: char)
    requires
        !(0xD800 <= v && v <= 0xDFFF),
    ensures
        c == ((v as u32) as char),
{
    char::from_u32(v as u32).unwrap()
}

} // verus!
