//! UTF-8 text out of raw bytes.

use vstd::prelude::*;
use vstd::string::StringSliceAdditionalSpecFns;
use vstd::utf8::decode_utf8;
use vstd::utf8::encode_utf8_decode_utf8;
use vstd::utf8::valid_utf8;

verus! {

/// `core::str::Utf8Error`, carried through as an opaque value.
#[verifier::external_type_specification]
#[verifier::external_body]
pub struct ExUtf8Error(core::str::Utf8Error);

/// What a lossy conversion of `bytes` to text gives: `String::from_utf8_lossy`.
pub uninterp spec fn lossy_text(bytes: Seq<u8>) -> Seq<char>;

/// `core::str::from_utf8`: succeeds exactly on well-formed UTF-8, and the
/// text then has the bytes it was given.
pub assume_specification[ core::str::from_utf8 ](v: &[u8]) -> (r: Result<
    &str,
    core::str::Utf8Error,
>)
    ensures
        r is Ok <==> valid_utf8(v@),
        r matches Ok(s) ==> s.spec_bytes() == v@,
;

/// `String::from_utf8_lossy`: the text of `bytes`, with every malformed
/// sequence replaced; well-formed input comes out unchanged.
#[verifier::external_body]
pub(crate) fn lossy_string(bytes: &[u8]) -> (r: String)
    ensures
        r@ == lossy_text(bytes@),
        valid_utf8(bytes@) ==> r@ == decode_utf8(bytes@),
{
    String::from_utf8_lossy(bytes).into_owned()
}

/// The text that `bytes` write in UTF-8, or none where they are not
/// well-formed UTF-8.
pub open spec fn text_of(bytes: Seq<u8>) -> Option<Seq<char>> {
    if valid_utf8(bytes) {
        Some(decode_utf8(bytes))
    } else {
        None
    }
}

/// Decodes `bytes` as UTF-8 into an owned string; bytes that are not
/// well-formed UTF-8 give none.
pub fn text_from_utf8(bytes: &[u8]) -> (r: Option<String>)
    ensures
        match text_of(bytes@) {
            Some(text) => r matches Some(s) && s@ == text,
            None => r is None,
        },
{
    match core::str::from_utf8(bytes) {
        Ok(s) => {
            proof {
                encode_utf8_decode_utf8(s@);
            }
            Some(s.to_owned())
        },
        Err(_) => None,
    }
}

} // verus!
