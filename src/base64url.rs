use vstd::prelude::*;
use vstd::utf8::encode_utf8;
use base64::DecodeError as Base64Error;
use base64::Engine;

verus! {

/// The unpadded base64url text of a byte sequence.
pub uninterp spec fn b64url_text(b: Seq<u8>) -> Seq<char>;

/// The bytes that unpadded base64url text (given as UTF-8 bytes) stands for,
/// or `None` where it is not such text.
pub uninterp spec fn b64url_bytes(s: Seq<u8>) -> Option<Seq<u8>>;

/// The largest input that base64 can encode without its length overflowing.
pub open spec fn b64url_encodable(n: nat) -> bool {
    n <= usize::MAX / 4 * 3
}

#[verifier::external_type_specification]
#[verifier::external_body]
pub struct ExBase64Error(Base64Error);

/// Relies on base64's `URL_SAFE_NO_PAD` engine, `Engine::encode`: the unpadded
/// base64url text of the bytes. The engine's `NO_PAD` configuration writes no
/// padding and its decoder requires none, so `decode` gives the bytes back.
/// `encode` panics only where the output length overflows `usize`.
#[verifier::external_body]
pub(crate) fn b64url_encode(b: &[u8]) -> (r: String)
    requires
        b64url_encodable(b@.len()),
    ensures
        r@ == b64url_text(b@),
        b64url_bytes(encode_utf8(r@)) == Some(b@),
{
    base64::prelude::BASE64_URL_SAFE_NO_PAD.encode(b)
}

/// Relies on base64's `URL_SAFE_NO_PAD` engine, `Engine::decode`: the bytes
/// that unpadded base64url text stands for, or an error on any other input.
#[verifier::external_body]
pub(crate) fn b64url_decode(s: &[u8]) -> (r: Result<Vec<u8>, Base64Error>)
    ensures
        match r {
            Ok(v) => b64url_bytes(s@) == Some(v@),
            Err(_) => b64url_bytes(s@) is None,
        },
{
    base64::prelude::BASE64_URL_SAFE_NO_PAD.decode(s)
}

} // verus!
