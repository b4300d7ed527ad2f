use vstd::prelude::*;

use base64::Engine;
use p256::ecdsa::signature::Signer;
use p256::pkcs8::EncodePublicKey;
use rand_core::RngCore;
use sha2::Digest;

verus! {

/// The URL-safe, unpadded Base64 text of some bytes, as
/// `base64::engine::general_purpose::URL_SAFE_NO_PAD` writes it.
pub uninterp spec fn base64_url_no_pad(bytes: Seq<u8>) -> Seq<char>;

/// The bytes that URL-safe, unpadded Base64 `text` stands for, if it is valid.
pub uninterp spec fn base64_url_no_pad_decoded(text: Seq<char>) -> Option<Seq<u8>>;

/// The SHA-256 digest of some bytes.
pub uninterp spec fn sha256_digest(bytes: Seq<u8>) -> Seq<u8>;

/// Whether 32 bytes are a valid P-256 secret scalar.
pub uninterp spec fn p256_secret_is_valid(secret: Seq<u8>) -> bool;

/// The DER-encoded ECDSA P-256 / SHA-256 signature (RFC 6979, deterministic) of
/// a message under a secret key, when signing succeeds.
pub uninterp spec fn p256_signature_der(secret: Seq<u8>, message: Seq<u8>) -> Option<Seq<u8>>;

/// The DER SubjectPublicKeyInfo of the public key of a secret key, when encoding
/// succeeds.
pub uninterp spec fn p256_public_key_spki_der(secret: Seq<u8>) -> Option<Seq<u8>>;

/// The lowercase hexadecimal digit for `d`, which is below sixteen.
pub open spec fn hex_digit(d: u8) -> char {
    if d < 10 { ((d + 48) as u8) as char } else { ((d + 87) as u8) as char }
}

/// Two lowercase hexadecimal digits for every byte, high nibble first.
pub open spec fn hex_lower(bytes: Seq<u8>) -> Seq<char>
    decreases bytes.len(),
{
    if bytes.len() == 0 {
        Seq::empty()
    } else {
        hex_lower(bytes.drop_last()).push(hex_digit(bytes.last() / 16)).push(hex_digit(bytes.last() % 16))
    }
}

/// `base64::engine::general_purpose::URL_SAFE_NO_PAD.encode`: the URL-safe Base64
/// text of `bytes` without padding. The text itself is named, not stated.
#[verifier::external_body]
pub(crate) fn base64_url_encode(bytes: &[u8]) -> (text: String)
    ensures
        text@ == base64_url_no_pad(bytes@),
{
    base64::engine::general_purpose::URL_SAFE_NO_PAD.encode(bytes)
}

/// `base64::engine::general_purpose::URL_SAFE_NO_PAD.decode`: the bytes of
/// URL-safe, unpadded Base64 text, or `None` when the text is not valid.
#[verifier::external_body]
pub(crate) fn base64_url_decode(text: &str) -> (bytes: Option<Vec<u8>>)
    ensures
        match base64_url_no_pad_decoded(text@) {
            Some(b) => bytes matches Some(v) && v@ == b,
            None => bytes is None,
        },
{
    base64::engine::general_purpose::URL_SAFE_NO_PAD.decode(text).ok()
}

/// `sha2::Sha256::digest`: the 32-byte SHA-256 digest of `bytes`.
#[verifier::external_body]
pub(crate) fn sha256(bytes: &[u8]) -> (digest: Vec<u8>)
    ensures
        digest@ == sha256_digest(bytes@),
        digest@.len() == 32,
{
    sha2::Sha256::digest(bytes).to_vec()
}

/// `hex::encode`: two lowercase hexadecimal digits per byte, high nibble first.
#[verifier::external_body]
pub(crate) fn hex_encode(bytes: &[u8]) -> (text: String)
    ensures
        text@ == hex_lower(bytes@),
{
    hex::encode(bytes)
}

/// `rand_core::OsRng.fill_bytes`: `count` bytes from the operating system's
/// random source. Nothing is promised of their values.
#[verifier::external_body]
pub(crate) fn random_bytes(count: usize) -> (bytes: Vec<u8>)
    ensures
        bytes@.len() == count,
{
    let mut bytes = vec![0u8; count];
    rand_core::OsRng.fill_bytes(&mut bytes);
    bytes
}

/// `p256::ecdsa::SigningKey::random` with `OsRng`, serialized by `to_bytes`: a
/// fresh secret key. Its 32 bytes are a valid secret, since `to_bytes` writes the
/// nonzero scalar that `SigningKey::from_slice` reads back.
#[verifier::external_body]
pub(crate) fn random_secret_key() -> (secret: Vec<u8>)
    ensures
        secret@.len() == 32,
        p256_secret_is_valid(secret@),
{
    p256::ecdsa::SigningKey::random(&mut rand_core::OsRng).to_bytes().to_vec()
}

/// Whether `p256::ecdsa::SigningKey::from_slice` accepts `secret`.
#[verifier::external_body]
pub(crate) fn secret_key_is_valid(secret: &[u8]) -> (valid: bool)
    ensures
        valid == p256_secret_is_valid(secret@),
{
    p256::ecdsa::SigningKey::from_slice(secret).is_ok()
}

/// `Signer::try_sign` on the `p256::ecdsa::SigningKey` made from `secret`, encoded
/// by `Signature::to_der`: the deterministic signature of `message`, or `None` when
/// signing fails.
#[verifier::external_body]
pub(crate) fn sign_der(secret: &[u8], message: &[u8]) -> (signature: Option<Vec<u8>>)
    requires
        p256_secret_is_valid(secret@),
    ensures
        match p256_signature_der(secret@, message@) {
            Some(s) => signature matches Some(v) && v@ == s,
            None => signature is None,
        },
{
    let key = p256::ecdsa::SigningKey::from_slice(secret).ok()?;
    let signature: p256::ecdsa::Signature = key.try_sign(message).ok()?;
    Some(signature.to_der().as_bytes().to_vec())
}

/// `EncodePublicKey::to_public_key_der` on the verifying key of `secret`: its
/// SubjectPublicKeyInfo, or `None` when encoding fails.
#[verifier::external_body]
pub(crate) fn public_key_spki_der(secret: &[u8]) -> (der: Option<Vec<u8>>)
    requires
        p256_secret_is_valid(secret@),
    ensures
        match p256_public_key_spki_der(secret@) {
            Some(d) => der matches Some(v) && v@ == d,
            None => der is None,
        },
{
    let key = p256::ecdsa::SigningKey::from_slice(secret).ok()?;
    key.verifying_key().to_public_key_der().ok().map(|document| document.as_bytes().to_vec())
}

} // verus!
