//! The checks of std that tell whether bytes are UTF-8. Nothing in this file
//! is proved: each contract states what the documentation of std says, over
//! the definition of UTF-8 in vstd.

use vstd::prelude::*;
use vstd::utf8::{decode_utf8, valid_utf8};

verus! {

/// `std::str::Utf8Error`: why bytes are no string slice. Nothing is said of
/// what it holds.
#[verifier::external_type_specification]
#[verifier::external_body]
pub struct ExUtf8Error(std::str::Utf8Error);

/// `std::string::FromUtf8Error`: why bytes are no string. Nothing is said of
/// what it holds.
#[verifier::external_type_specification]
#[verifier::external_body]
pub struct ExFromUtf8Error(std::string::FromUtf8Error);

/// `std::str::from_utf8`: the bytes as a string slice if they are valid
/// UTF-8, and an error if they are not.
#[verifier::external_body]
pub(crate) fn str_from_utf8(bytes: &[u8]) -> (r: Result<&str, std::str::Utf8Error>)
    ensures
        r is Ok <==> valid_utf8(bytes@),
        r matches Ok(text) ==> text@ == decode_utf8(bytes@),
{
    std::str::from_utf8(bytes)
}

/// `String::from_utf8`: the bytes as a string if they are valid UTF-8, and an
/// error if they are not.
#[verifier::external_body]
pub(crate) fn string_from_utf8(bytes: Vec<u8>) -> (r: Result<String, std::string::FromUtf8Error>)
    ensures
        r is Ok <==> valid_utf8(bytes@),
        r matches Ok(text) ==> text@ == decode_utf8(bytes@),
{
    String::from_utf8(bytes)
}

} // verus!
