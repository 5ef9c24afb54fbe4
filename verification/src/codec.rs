//! The two base64 alphabets the bridge uses.

use base64::Engine;
use vstd::prelude::*;

verus! {

/// The bytes that a text in the standard alphabet, with padding, stands for, or
/// the words for why it stands for none.
pub uninterp spec fn base64_bytes(text: Seq<char>) -> Result<Seq<u8>, Seq<char>>;

/// The text, in the alphabet that is safe in a URL and without padding, that
/// stands for these bytes.
pub uninterp spec fn base64_url(bytes: Seq<u8>) -> Seq<char>;

/// A character of the alphabet that is safe in a URL.
pub open spec fn url_safe(c: char) -> bool {
    crate::text::digit(c) || crate::text::upper(c) || crate::text::lower(c) || c == '-' || c == '_'
}

/// `Engine::decode` with `general_purpose::STANDARD`, and the `Display` text of
/// its error.
///
/// Claims that the outcome depends on the text alone.
#[verifier::external_body]
pub(crate) fn decode_base64(text: &str) -> (r: Result<Vec<u8>, String>)
    ensures
        match r {
            Ok(bytes) => base64_bytes(text@) == Ok::<Seq<u8>, Seq<char>>(bytes@),
            Err(e) => base64_bytes(text@) == Err::<Seq<u8>, Seq<char>>(e@),
        },
{
    base64::engine::general_purpose::STANDARD.decode(text.as_bytes()).map_err(|e| e.to_string())
}

/// `Engine::encode` with `general_purpose::URL_SAFE_NO_PAD`.
///
/// Claims that the outcome depends on the bytes alone, that 32 bytes take 43
/// characters, that each is of the alphabet, and that no other 32 bytes have
/// the same text.
#[verifier::external_body]
pub(crate) fn encode_base64_url(bytes: &[u8; 32]) -> (r: String)
    ensures
        r@ == base64_url(bytes@),
        r@.len() == 43,
        forall|i: int| 0 <= i < r@.len() ==> url_safe(#[trigger] r@[i]),
        forall|other: Seq<u8>|
            other.len() == 32 && #[trigger] base64_url(other) == r@ ==> other == bytes@,
{
    base64::engine::general_purpose::URL_SAFE_NO_PAD.encode(bytes)
}

} // verus!
