//! Decoding of the text fields of a vocabulary file.

use base64::engine::general_purpose::STANDARD;
use base64::Engine;
use vstd::prelude::*;
use vstd::utf8::valid_utf8;

verus! {

/// What standard, padded base64 makes of `input`: the bytes it stands for, or
/// the decoder's complaint.
pub uninterp spec fn standard_base64(input: Seq<u8>) -> Result<Seq<u8>, Seq<char>>;

/// `base64::Engine::decode` on the `STANDARD` engine, with the error turned
/// into its text. Trusted: the outcome depends on `input` alone.
#[verifier::external_body]
pub(crate) fn base64_decode(input: &[u8]) -> (out: Result<Vec<u8>, String>)
    ensures
        out is Ok ==> standard_base64(input@) is Ok && standard_base64(input@)->Ok_0 == out->Ok_0@,
        out is Err ==> standard_base64(input@) is Err && standard_base64(input@)->Err_0
            == out->Err_0@,
{
    STANDARD.decode(input).map_err(|error| error.to_string())
}

/// `core::str::from_utf8`, reduced to whether it accepts. Trusted: it accepts
/// exactly the well-formed UTF-8 byte strings.
#[verifier::external_body]
pub(crate) fn is_utf8(bytes: &[u8]) -> (valid: bool)
    ensures
        valid == valid_utf8(bytes@),
{
    core::str::from_utf8(bytes).is_ok()
}

} // verus!
