//! Base64 text, as the `base64` crate's standard engine writes and reads it.

use base64::Engine;
use vstd::prelude::*;
use vstd::utf8::encode_utf8;

verus! {

/// `base64::DecodeError`, the reason for which a text is not accepted.
/// Nothing of it is read here.
#[verifier::external_type_specification]
#[verifier::external_body]
pub struct ExDecodeError(base64::DecodeError);

/// The base64 text that the standard engine writes for a sequence of bytes.
pub uninterp spec fn base64_text(bytes: Seq<u8>) -> Seq<char>;

/// The bytes that the standard engine reads from a text, if it accepts the
/// text.
pub uninterp spec fn base64_bytes(text: Seq<char>) -> Option<Seq<u8>>;

/// The number of bytes that a text takes in UTF-8, as `str::len` reports it.
pub open spec fn byte_len(text: Seq<char>) -> nat {
    (encode_utf8(text).len() as usize) as nat
}

/// The length of the padded base64 text for `n` bytes.
pub open spec fn encoded_len(n: nat) -> nat {
    (n + 2) / 3 * 4
}

/// The room that the standard engine sets aside before it decodes a text of
/// `n` bytes; what it decodes is never longer.
pub open spec fn decoded_len_bound(n: nat) -> nat {
    (n + 3) / 4 * 3
}

/// Calls `Engine::encode` on `general_purpose::STANDARD`. The result is named
/// `base64_text`. The engine panics where the length of the text does not fit
/// a `usize`, so such inputs are left out.
#[verifier::external_body]
pub(crate) fn encode(bytes: &[u8]) -> (text: String)
    requires
        encoded_len(bytes@.len()) <= usize::MAX,
    ensures
        text@ == base64_text(bytes@),
{
    base64::engine::general_purpose::STANDARD.encode(bytes)
}

/// Calls `Engine::decode` on `general_purpose::STANDARD`. The result is named
/// `base64_bytes`: the bytes where the engine accepts the text, nothing where
/// it reports an error. The engine decodes into a buffer of
/// `decoded_len_bound` bytes for the text's byte length and cuts it down to
/// what it wrote.
#[verifier::external_body]
pub(crate) fn decode(text: &str) -> (r: Result<Vec<u8>, base64::DecodeError>)
    ensures
        match r {
            Ok(bytes) => base64_bytes(text@) == Some(bytes@) && bytes@.len() <= decoded_len_bound(
                byte_len(text@),
            ),
            Err(_) => base64_bytes(text@) is None,
        },
{
    base64::engine::general_purpose::STANDARD.decode(text)
}

} // verus!
