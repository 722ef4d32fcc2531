//! Standard base64 (with padding) through the `base64` crate.
use base64::Engine as _;
use vstd::prelude::*;

verus! {

#[verifier::external_type_specification]
#[verifier::external_body]
pub struct ExDecodeError(base64::DecodeError);

/// What `base64::engine::general_purpose::STANDARD.encode` returns for the given bytes.
pub uninterp spec fn base64_encode_spec(bytes: Seq<u8>) -> Seq<char>;

/// What `base64::engine::general_purpose::STANDARD.decode` returns for the given text
/// (`None` for an error).
pub uninterp spec fn base64_decode_spec(text: Seq<char>) -> Option<Seq<u8>>;

/// Calls `base64::Engine::encode` on the STANDARD engine. Claims that the result is
/// the named encoding of `bytes`, and that decoding it with the same engine gives
/// `bytes` back (the encode/decode round trip the crate documents).
#[verifier::external_body]
pub(crate) fn b64_encode(bytes: &[u8]) -> (r: String)
    ensures
        r@ == base64_encode_spec(bytes@),
        base64_decode_spec(r@) == Some(bytes@),
{
    base64::engine::general_purpose::STANDARD.encode(bytes)
}

/// Calls `base64::Engine::decode` on the STANDARD engine. Claims that `Ok` carries
/// the named decoding of `text` and that `Err` comes exactly when the named decoding
/// is `None`.
#[verifier::external_body]
pub(crate) fn b64_decode(text: &str) -> (r: Result<Vec<u8>, base64::DecodeError>)
    ensures
        match r {
            Ok(v) => base64_decode_spec(text@) == Some(v@),
            Err(_) => base64_decode_spec(text@) is None,
        },
{
    base64::engine::general_purpose::STANDARD.decode(text)
}

} // verus!
