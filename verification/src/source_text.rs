//! The boundary between the host and the compiler's input: the host hands
//! over the raw bytes of a schema file, and the library turns them into
//! the text the parser consumes, rejecting anything that is not valid
//! UTF-8.

use vstd::prelude::*;
use vstd::utf8::encode_utf8;
use vstd::utf8::valid_utf8;

verus! {

/// The error of a failed decoding; carried through unchanged from the
/// standard library.
#[verifier::external_type_specification]
#[verifier::external_body]
pub struct ExFromUtf8Error(std::string::FromUtf8Error);

/// Relies on `String::from_utf8`: succeeds exactly on valid UTF-8 and
/// keeps the bytes unchanged.
pub assume_specification[ String::from_utf8 ](v: Vec<u8>) -> (r: Result<
    String,
    std::string::FromUtf8Error,
>)
    ensures
        (r is Ok) == valid_utf8(v@),
        (r matches Ok(s) ==> encode_utf8(s@) == v@),
;

/// Turns the raw bytes of a schema file into its text: the decoded string
/// holds exactly the given bytes, and decoding succeeds exactly when they
/// are valid UTF-8. The host performs the actual file access and hands
/// the bytes here.
pub fn read_file(bytes: Vec<u8>) -> (r: Result<String, std::string::FromUtf8Error>)
    ensures
        (r is Ok) == valid_utf8(bytes@),
        (r matches Ok(s) ==> encode_utf8(s@) == bytes@),
{
    String::from_utf8(bytes)
}

} // verus!
