//! Bridges to the string operations of std that the verifier has no
//! model of, together with the specification-level names they decode to.

use vstd::prelude::*;

use std::rc::Rc;

verus! {

/// What `String::from_utf8` decodes a byte sequence to: `None` when the
/// bytes are not valid UTF-8, otherwise the decoded characters.
pub uninterp spec fn utf8_decode(bytes: Seq<u8>) -> Option<Seq<char>>;

/// Relies on `String::from_utf8`: it succeeds exactly on valid UTF-8, the
/// decoding depends on the bytes alone, and ASCII bytes decode to the
/// characters of the same value.
#[verifier::external_body]
pub fn utf8_from_bytes(bytes: Vec<u8>) -> (r: Option<String>)
    ensures
        match r {
            Some(s) => utf8_decode(bytes@) == Some(s@) && ((forall|i: int|
                0 <= i < bytes@.len() ==> bytes@[i] < 0x80) ==> s@ == bytes@.map_values(
                |b: u8| b as char,
            )),
            None => utf8_decode(bytes@) is None && !(forall|i: int|
                0 <= i < bytes@.len() ==> bytes@[i] < 0x80),
        },
{
    String::from_utf8(bytes).ok()
}

/// Relies on `char::from_u32`: `Some` exactly for Unicode scalar values,
/// and the character has the requested value.
#[verifier::external_body]
pub fn char_from_u32(c: u32) -> (r: Option<char>)
    ensures
        match r {
            Some(ch) => ch as u32 == c && ch == c as char,
            None => 0xD800 <= c <= 0xDFFF || c > 0x10FFFF,
        },
        (0xD800 <= c <= 0xDFFF || c > 0x10FFFF) ==> r is None,
{
    char::from_u32(c)
}

/// Relies on `String::push`: it appends exactly one character.
#[verifier::external_body]
pub fn string_push(s: &mut String, c: char)
    ensures
        final(s)@ == old(s)@.push(c),
{
    s.push(c);
}

/// Relies on `str`'s `PartialEq`: equality of the character sequences.
#[verifier::external_body]
pub fn str_eq(a: &str, b: &str) -> (r: bool)
    ensures
        r == (a@ == b@),
{
    a == b
}

/// Relies on `Rc::clone`: the clone shares the callee's allocation, so it
/// is the same value.
#[verifier::external_body]
pub fn rc_str_clone(s: &Rc<String>) -> (r: Rc<String>)
    ensures
        r == *s,
{
    Rc::clone(s)
}

/// Relies on `Rc`'s `Deref`: borrowing the shared string.
#[verifier::external_body]
pub fn rc_str_as_str(s: &Rc<String>) -> (r: &str)
    ensures
        r@ == s@,
{
    s.as_str()
}

} // verus!
