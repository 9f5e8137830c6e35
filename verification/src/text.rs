//! The first step of decoding: a payload is text only if it is well-formed UTF-8.

use vstd::prelude::*;
use vstd::utf8::{
    decode_utf8, encode_utf8, encode_utf8_decode_utf8, encode_utf8_valid_utf8, valid_utf8,
};
use crate::error::DecodeError;

verus! {

/// The text that a payload spells, or the reason that it spells none.
pub open spec fn text_of(payload: Seq<u8>) -> Result<Seq<char>, DecodeError> {
    if valid_utf8(payload) {
        Ok(decode_utf8(payload))
    } else {
        Err(DecodeError::InvalidEncoding)
    }
}

/// Calls `String::from_utf8` of the standard library, which is taken at its
/// word: it accepts exactly the byte sequences that are well-formed UTF-8,
/// and the string it returns consists of the very bytes it was given.
#[verifier::external_body]
fn string_from_utf8(bytes: Vec<u8>) -> (text: Option<String>)
    ensures
        text is Some <==> valid_utf8(bytes@),
        text is Some ==> encode_utf8(text->Some_0@) == bytes@,
{
    match String::from_utf8(bytes) {
        Ok(text) => Some(text),
        Err(_) => None,
    }
}

/// Reads a payload as text. A payload that is not well-formed UTF-8 is
/// rejected whole: no part of it is interpreted.
pub fn payload_text(payload: Vec<u8>) -> (res: Result<String, DecodeError>)
    ensures
        match res {
            Ok(text) => text_of(payload@) == Ok::<Seq<char>, DecodeError>(text@),
            Err(e) => text_of(payload@) == Err::<Seq<char>, DecodeError>(e),
        },
{
    match string_from_utf8(payload) {
        Some(text) => {
            proof {
                encode_utf8_decode_utf8(text@);
            }
            Ok(text)
        },
        None => Err(DecodeError::InvalidEncoding),
    }
}

/// Text survives the trip through its bytes: the UTF-8 encoding of any text
/// is accepted and read back as that text.
pub proof fn lemma_text_round_trip(text: Seq<char>)
    ensures
        text_of(encode_utf8(text)) == Ok::<Seq<char>, DecodeError>(text),
{
    encode_utf8_valid_utf8(text);
    encode_utf8_decode_utf8(text);
}

} // verus!
