//! Digests, signatures and base64, as far as outside crates compute them.

use vstd::prelude::*;

verus! {

/// The SHA-256 digest of bytes.
pub uninterp spec fn sha256_of(bytes: Seq<u8>) -> Seq<u8>;

/// `<sha2::Sha256 as sha2::Digest>::digest`: the digest of the bytes, a
/// function of the bytes alone.
#[verifier::external_body]
pub(crate) fn sha256(bytes: &[u8]) -> (r: [u8; 32])
    ensures
        r@ == sha256_of(bytes@),
{
    <sha2::Sha256 as sha2::Digest>::digest(bytes).into()
}

/// What the standard base64 engine reads from a text: the bytes, or the message
/// of its error.
pub uninterp spec fn base64_decoded(text: Seq<char>) -> Result<Seq<u8>, Seq<char>>;

/// `base64::Engine::decode` with the standard alphabet and padding: the bytes,
/// or the message of the `base64::DecodeError`; a function of the text alone.
#[verifier::external_body]
pub(crate) fn base64_decode(text: &str) -> (r: Result<Vec<u8>, String>)
    ensures
        match r {
            Ok(b) => base64_decoded(text@) == Ok::<Seq<u8>, Seq<char>>(b@),
            Err(e) => base64_decoded(text@) == Err::<Seq<u8>, Seq<char>>(e@),
        },
{
    base64::Engine::decode(&base64::engine::general_purpose::STANDARD, text).map_err(|e| e.to_string())
}

/// The text that the standard base64 engine writes for bytes.
pub uninterp spec fn base64_encoded(bytes: Seq<u8>) -> Seq<char>;

/// `base64::Engine::encode` with the standard alphabet and padding: a function
/// of the bytes alone. The same engine reads the bytes back from it.
#[verifier::external_body]
pub(crate) fn base64_encode(bytes: &[u8]) -> (r: String)
    ensures
        r@ == base64_encoded(bytes@),
        base64_decoded(r@) is Ok,
        base64_decoded(r@)->Ok_0 == bytes@,
{
    base64::Engine::encode(&base64::engine::general_purpose::STANDARD, bytes)
}

/// The bytes are a public key of Ed25519.
pub uninterp spec fn is_ed25519_key(bytes: Seq<u8>) -> bool;

/// `ed25519_dalek::VerifyingKey::try_from`: whether the bytes are a public key,
/// a function of the bytes alone; a key has 32 bytes.
#[verifier::external_body]
pub(crate) fn is_verifying_key(bytes: &[u8]) -> (r: bool)
    ensures
        r == is_ed25519_key(bytes@),
        r ==> bytes@.len() == 32,
{
    ed25519_dalek::VerifyingKey::try_from(bytes).is_ok()
}

/// The signature of the message is good under the key.
pub uninterp spec fn is_signed(key: Seq<u8>, message: Seq<u8>, signature: Seq<u8>) -> bool;

/// `ed25519_dalek::Verifier::verify`: whether the signature is good, a function
/// of the key, the message and the signature.
#[verifier::external_body]
pub(crate) fn verify_signature(key: &[u8], message: &[u8], signature: &[u8]) -> (r: bool)
    requires
        is_ed25519_key(key@),
        signature@.len() == 64,
    ensures
        r == is_signed(key@, message@, signature@),
{
    let key = ed25519_dalek::VerifyingKey::try_from(key).unwrap();
    let signature = ed25519_dalek::Signature::try_from(signature).unwrap();
    ed25519_dalek::Verifier::verify(&key, message, &signature).is_ok()
}

} // verus!
