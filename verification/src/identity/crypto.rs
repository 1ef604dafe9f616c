//! Keys, signatures and encodings. What they are is left to the crates that
//! implement them; the names below stand for their results.

use vstd::prelude::*;

use base64::Engine as _;
use ed25519_dalek::pkcs8::DecodePrivateKey as _;
use ed25519_dalek::pkcs8::EncodePrivateKey as _;
use ed25519_dalek::Signer as _;
use rand::TryRngCore as _;
use sha2::Digest as _;

verus! {

/// Why a text is no base64.
#[verifier::external_type_specification]
#[verifier::external_body]
pub struct ExDecodeError(base64::DecodeError);

/// Why bytes are no PKCS#8 document of a key.
#[verifier::external_type_specification]
#[verifier::external_body]
pub struct ExPkcs8Error(ed25519_dalek::pkcs8::Error);

/// Why a sealed box does not open.
#[verifier::external_type_specification]
#[verifier::external_body]
pub struct ExAeadError(crypto_box::aead::Error);

/// Why the machine has no random bytes.
#[verifier::external_type_specification]
#[verifier::external_body]
pub struct ExOsError(rand::rand_core::OsError);

/// Why bytes are no text.
#[verifier::external_type_specification]
#[verifier::external_body]
pub struct ExFromUtf8Error(std::string::FromUtf8Error);

/// What base64's `STANDARD` engine encodes the bytes as.
pub uninterp spec fn base64_text(bytes: Seq<u8>) -> Seq<char>;

/// What base64's `STANDARD` engine decodes the text to, if it is base64.
pub uninterp spec fn base64_bytes(text: Seq<char>) -> Option<Seq<u8>>;

/// What base64's `URL_SAFE_NO_PAD` engine encodes the bytes as.
pub uninterp spec fn base64url_text(bytes: Seq<u8>) -> Seq<char>;

/// What base64's `URL_SAFE_NO_PAD` engine decodes the text to, if it is
/// base64url without padding.
pub uninterp spec fn base64url_bytes(text: Seq<char>) -> Option<Seq<u8>>;

/// The Ed25519 secret key that `SigningKey::from_pkcs8_der` finds in the
/// document, if it is one.
pub uninterp spec fn pkcs8_secret(document: Seq<u8>) -> Option<Seq<u8>>;

/// The document that `SigningKey::to_pkcs8_der` makes of an Ed25519 secret key.
pub uninterp spec fn pkcs8_document(secret: Seq<u8>) -> Seq<u8>;

/// The Ed25519 public key that belongs to a secret key.
pub uninterp spec fn public_key(secret: Seq<u8>) -> Seq<u8>;

/// The Ed25519 signature of a message under a secret key.
pub uninterp spec fn signature(secret: Seq<u8>, message: Seq<u8>) -> Seq<u8>;

/// The SHA-512 digest of the bytes.
pub uninterp spec fn sha512(bytes: Seq<u8>) -> Seq<u8>;

/// What `crypto_box::SecretKey::unseal` finds in a sealed box for the owner of
/// a Curve25519 secret key, if the box opens.
pub uninterp spec fn unsealed(secret: Seq<u8>, sealed: Seq<u8>) -> Option<Seq<u8>>;

/// A letter or a digit of ASCII.
pub open spec fn is_ascii_alphanumeric(c: char) -> bool {
    ||| 'a' <= c <= 'z'
    ||| 'A' <= c <= 'Z'
    ||| '0' <= c <= '9'
}

/// A character that base64url without padding is made of.
pub open spec fn is_base64url_char(c: char) -> bool {
    is_ascii_alphanumeric(c) || c == '-' || c == '_'
}

/// `base64::Engine::encode` of the `STANDARD` engine. The same engine decodes
/// the result to the bytes again.
#[verifier::external_body]
pub(crate) fn encode_base64(bytes: &[u8]) -> (r: String)
    ensures
        r@ == base64_text(bytes@),
        base64_bytes(r@) == Some(bytes@),
{
    base64::engine::general_purpose::STANDARD.encode(bytes)
}

/// `base64::Engine::decode` of the `STANDARD` engine.
#[verifier::external_body]
pub(crate) fn decode_base64(text: &str) -> (r: Result<Vec<u8>, base64::DecodeError>)
    ensures
        match r {
            Ok(bytes) => base64_bytes(text@) == Some(bytes@),
            Err(_) => base64_bytes(text@) is None,
        },
{
    base64::engine::general_purpose::STANDARD.decode(text)
}

/// `base64::Engine::encode` of the `URL_SAFE_NO_PAD` engine. The same engine
/// decodes the result to the bytes again. It is made of letters, digits, `-`
/// and `_`.
#[verifier::external_body]
pub(crate) fn encode_base64url(bytes: &[u8]) -> (r: String)
    ensures
        r@ == base64url_text(bytes@),
        base64url_bytes(r@) == Some(bytes@),
        forall|i: int| 0 <= i < r@.len() ==> is_base64url_char(#[trigger] r@[i]),
{
    base64::engine::general_purpose::URL_SAFE_NO_PAD.encode(bytes)
}

/// `base64::Engine::decode` of the `URL_SAFE_NO_PAD` engine.
#[verifier::external_body]
pub(crate) fn decode_base64url(text: &str) -> (r: Result<Vec<u8>, base64::DecodeError>)
    ensures
        match r {
            Ok(bytes) => base64url_bytes(text@) == Some(bytes@),
            Err(_) => base64url_bytes(text@) is None,
        },
{
    base64::engine::general_purpose::URL_SAFE_NO_PAD.decode(text)
}

/// `ed25519_dalek::SigningKey::from_pkcs8_der`, as the bytes of the key.
#[verifier::external_body]
pub(crate) fn secret_from_pkcs8(document: &[u8]) -> (r: Result<
    [u8; 32],
    ed25519_dalek::pkcs8::Error,
>)
    ensures
        match r {
            Ok(secret) => pkcs8_secret(document@) == Some(secret@),
            Err(_) => pkcs8_secret(document@) is None,
        },
{
    let key = ed25519_dalek::SigningKey::from_pkcs8_der(document)?;
    Ok(key.to_bytes())
}

/// `ed25519_dalek::SigningKey::to_pkcs8_der`, on the bytes of the key. It
/// succeeds, since each key has a document, in which
/// `SigningKey::from_pkcs8_der` finds the key again.
#[verifier::external_body]
pub(crate) fn secret_to_pkcs8(secret: &[u8; 32]) -> (r: Result<
    Vec<u8>,
    ed25519_dalek::pkcs8::Error,
>)
    ensures
        r is Ok,
        r->Ok_0@ == pkcs8_document(secret@),
        pkcs8_secret(r->Ok_0@) == Some(secret@),
{
    let document = ed25519_dalek::SigningKey::from_bytes(secret).to_pkcs8_der()?;
    Ok(document.as_bytes().to_vec())
}

/// `ed25519_dalek::SigningKey::verifying_key`, from bytes to bytes.
#[verifier::external_body]
pub(crate) fn public_key_of(secret: &[u8; 32]) -> (r: [u8; 32])
    ensures
        r@ == public_key(secret@),
{
    ed25519_dalek::SigningKey::from_bytes(secret).verifying_key().to_bytes()
}

/// `ed25519_dalek::SigningKey::sign`, from bytes to bytes.
#[verifier::external_body]
pub(crate) fn sign(secret: &[u8; 32], message: &[u8]) -> (r: [u8; 64])
    ensures
        r@ == signature(secret@, message@),
{
    ed25519_dalek::SigningKey::from_bytes(secret).sign(message).to_bytes()
}

/// `sha2::Sha512::digest`.
#[verifier::external_body]
pub(crate) fn sha512_of(bytes: &[u8]) -> (r: [u8; 64])
    ensures
        r@ == sha512(bytes@),
{
    sha2::Sha512::digest(bytes).into()
}

/// `crypto_box::SecretKey::unseal`, on the bytes of the key.
#[verifier::external_body]
pub(crate) fn unseal(secret: &[u8; 32], sealed: &[u8]) -> (r: Result<
    Vec<u8>,
    crypto_box::aead::Error,
>)
    ensures
        match r {
            Ok(bytes) => unsealed(secret@, sealed@) == Some(bytes@),
            Err(_) => unsealed(secret@, sealed@) is None,
        },
{
    crypto_box::SecretKey::from(*secret).unseal(sealed)
}

/// `rand::rngs::OsRng::try_fill_bytes`, on `n` bytes. Which bytes they are, and
/// whether there are any, rests with the machine.
#[verifier::external_body]
pub(crate) fn random_bytes(n: usize) -> (r: Result<Vec<u8>, rand::rand_core::OsError>)
    ensures
        match r {
            Ok(bytes) => bytes@.len() == n,
            Err(_) => true,
        },
{
    let mut bytes = vec![0u8; n];
    rand::rngs::OsRng.try_fill_bytes(&mut bytes)?;
    Ok(bytes)
}

/// `String::from_utf8`: the text that the bytes encode, if they are UTF-8.
pub assume_specification[ String::from_utf8 ](bytes: Vec<u8>) -> (r: Result<
    String,
    std::string::FromUtf8Error,
>)
    ensures
        match r {
            Ok(text) => vstd::utf8::valid_utf8(bytes@) && text@ == vstd::utf8::decode_utf8(bytes@),
            Err(_) => !vstd::utf8::valid_utf8(bytes@),
        },
;

} // verus!
