//! Turning byte buffers into text.

use vstd::prelude::*;
use vstd::string::StringSliceAdditionalSpecFns;
use vstd::utf8::{decode_utf8, encode_utf8_decode_utf8, valid_utf8};
use crate::error::{text_of, Error};

verus! {

/// The error type of `core::str::from_utf8`, carried through unread.
#[verifier::external_type_specification]
#[verifier::external_body]
pub struct ExUtf8Error(core::str::Utf8Error);

/// `core::str::from_utf8`, not proved here: it accepts a buffer exactly
/// when the buffer is well-formed UTF-8, and the string slice it then
/// returns has the bytes of the buffer.
pub assume_specification[ core::str::from_utf8 ](v: &[u8]) -> (result: Result<
    &str,
    core::str::Utf8Error,
>)
    ensures
        result is Ok <==> valid_utf8(v@),
        result matches Ok(text) ==> text.spec_bytes() == v@,
;

/// `String::push`, not proved here: it appends the character to the end
/// of the string and leaves what was there unchanged.
pub assume_specification[ String::push ](string: &mut String, ch: char)
    ensures
        final(string)@ == old(string)@.push(ch),
;

/// The text whose characters have the given codes, one character for
/// each byte: the byte `b` stands for the character `U+00b`.
pub open spec fn chars_of_codes(codes: Seq<u8>) -> Seq<char> {
    Seq::new(codes.len(), |i: int| codes[i] as char)
}

/// What reading `bytes` as UTF-8 text yields.
pub open spec fn text_of_utf8(bytes: Seq<u8>) -> Result<Seq<char>, Error> {
    if valid_utf8(bytes) {
        Ok(decode_utf8(bytes))
    } else {
        Err(Error::InvalidUtf8)
    }
}

/// Builds a string with one character for each byte, the byte being the
/// character's code.
pub fn hex_to_string(hex: Vec<u8>) -> (string: String)
    ensures
        string@ == chars_of_codes(hex@),
        string@.len() == hex@.len(),
{
    let mut string = String::new();
    let mut i: usize = 0;
    while i < hex.len()
        invariant
            i <= hex.len(),
            string@ == chars_of_codes(hex@.take(i as int)),
        decreases hex.len() - i,
    {
        let code: u8 = hex[i];
        string.push(code as char);
        assert(string@ =~= chars_of_codes(hex@.take(i + 1)));
        i = i + 1;
    }
    assert(hex@.take(i as int) =~= hex@);
    string
}

/// Reads a buffer as UTF-8 text.
pub fn binary_to_string(binary: Vec<u8>) -> (result: Result<String, Error>)
    ensures
        text_of(result) == text_of_utf8(binary@),
        result is Ok <==> valid_utf8(binary@),
{
    match core::str::from_utf8(binary.as_slice()) {
        Ok(value) => {
            proof {
                encode_utf8_decode_utf8(value@);
            }
            Ok(value.to_owned())
        },
        Err(_) => Err(Error::InvalidUtf8),
    }
}

} // verus!
