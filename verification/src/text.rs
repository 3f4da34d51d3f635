//! Files as text.

use crate::error::AirjumpError;
use vstd::prelude::*;
use vstd::string::StringExecFns;
use vstd::utf8::decode_utf8;
use vstd::utf8::valid_utf8;

verus! {

/// `String::from_utf8`: the text that the bytes encode, or `None` when the
/// bytes are not UTF-8.
#[verifier::external_body]
fn from_utf8(bytes: Vec<u8>) -> (text: Option<String>)
    ensures
        text.is_some() == valid_utf8(bytes@),
        text.is_some() ==> text.unwrap()@ == decode_utf8(bytes@),
{
    match String::from_utf8(bytes) {
        Ok(text) => Some(text),
        Err(_) => None,
    }
}

/// What is said of a file whose bytes are not text.
pub open spec fn not_text() -> Seq<char> {
    "stream did not contain valid UTF-8"@
}

/// What reading a file with these bytes as text gives: the text, when the
/// bytes are UTF-8, and else an input error that says they are not.
pub open spec fn reads_as(bytes: Seq<u8>, text: Result<String, AirjumpError>) -> bool {
    match text {
        Ok(t) => valid_utf8(bytes) && t@ == decode_utf8(bytes),
        Err(AirjumpError::Io(why)) => !valid_utf8(bytes) && why@ == not_text(),
        Err(_) => false,
    }
}

/// Reads the bytes of a file as text.
pub(crate) fn read_text(bytes: Vec<u8>) -> (text: Result<String, AirjumpError>)
    ensures
        reads_as(bytes@, text),
{
    match from_utf8(bytes) {
        Some(text) => Ok(text),
        None => Err(AirjumpError::Io(String::from_str("stream did not contain valid UTF-8"))),
    }
}

} // verus!
