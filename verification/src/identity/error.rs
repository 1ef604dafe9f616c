//! What can go wrong with an agent identity.

use vstd::prelude::*;
use vstd::string::*;

verus! {

/// Why something could not be done with an agent identity.
#[derive(Debug, Clone, PartialEq, Eq)]
pub enum IdentityError {
    /// A task belongs to another runtime than the key.
    RuntimeMismatch { task_runtime_id: String, key_runtime_id: String },
    /// The stored private key is no base64.
    KeyNotBase64,
    /// The stored private key is no PKCS#8 document.
    KeyNotPkcs8,
    /// The machine gave no bytes for a private key.
    NoKeyBytes,
    /// A private key could not be written as a PKCS#8 document.
    KeyNotEncoded,
    /// The machine gave no bytes for a request ID.
    NoRequestIdBytes,
    /// The answer to a task registration names no task.
    TaskIdMissing,
    /// The encrypted task ID is no base64.
    TaskIdNotBase64,
    /// The encrypted task ID is not for this key.
    TaskIdNotDecrypted,
    /// The task ID is no text.
    TaskIdNotUtf8,
    /// The token does not have the parts of a JWT.
    JwtFormat,
    /// The payload of the JWT is no base64url.
    JwtNotBase64Url,
    /// The answer of the biscuit service has no biscuit.
    BiscuitMissing,
    /// The biscuit is no text.
    BiscuitNotText,
}

/// The texts of an error.
#[verifier::ext_equal]
pub enum IdentityErrorView {
    RuntimeMismatch { task_runtime_id: Seq<char>, key_runtime_id: Seq<char> },
    KeyNotBase64,
    KeyNotPkcs8,
    NoKeyBytes,
    KeyNotEncoded,
    NoRequestIdBytes,
    TaskIdMissing,
    TaskIdNotBase64,
    TaskIdNotDecrypted,
    TaskIdNotUtf8,
    JwtFormat,
    JwtNotBase64Url,
    BiscuitMissing,
    BiscuitNotText,
}

impl View for IdentityError {
    type V = IdentityErrorView;

    open spec fn view(&self) -> IdentityErrorView {
        match *self {
            IdentityError::RuntimeMismatch { task_runtime_id, key_runtime_id } =>
                IdentityErrorView::RuntimeMismatch {
                task_runtime_id: task_runtime_id@,
                key_runtime_id: key_runtime_id@,
            },
            IdentityError::KeyNotBase64 => IdentityErrorView::KeyNotBase64,
            IdentityError::KeyNotPkcs8 => IdentityErrorView::KeyNotPkcs8,
            IdentityError::NoKeyBytes => IdentityErrorView::NoKeyBytes,
            IdentityError::KeyNotEncoded => IdentityErrorView::KeyNotEncoded,
            IdentityError::NoRequestIdBytes => IdentityErrorView::NoRequestIdBytes,
            IdentityError::TaskIdMissing => IdentityErrorView::TaskIdMissing,
            IdentityError::TaskIdNotBase64 => IdentityErrorView::TaskIdNotBase64,
            IdentityError::TaskIdNotDecrypted => IdentityErrorView::TaskIdNotDecrypted,
            IdentityError::TaskIdNotUtf8 => IdentityErrorView::TaskIdNotUtf8,
            IdentityError::JwtFormat => IdentityErrorView::JwtFormat,
            IdentityError::JwtNotBase64Url => IdentityErrorView::JwtNotBase64Url,
            IdentityError::BiscuitMissing => IdentityErrorView::BiscuitMissing,
            IdentityError::BiscuitNotText => IdentityErrorView::BiscuitNotText,
        }
    }
}

/// What went wrong, in words.
pub open spec fn error_text(error: IdentityErrorView) -> Seq<char> {
    match error {
        IdentityErrorView::RuntimeMismatch { task_runtime_id, key_runtime_id } =>
            "agent task runtime "@ + task_runtime_id + " does not match stored agent identity "@
            + key_runtime_id,
        IdentityErrorView::KeyNotBase64 =>
            "stored agent identity private key is not valid base64"@,
        IdentityErrorView::KeyNotPkcs8 => "stored agent identity private key is not valid PKCS#8"@,
        IdentityErrorView::NoKeyBytes => "failed to generate agent identity private key bytes"@,
        IdentityErrorView::KeyNotEncoded =>
            "failed to encode agent identity private key as PKCS#8"@,
        IdentityErrorView::NoRequestIdBytes => "failed to generate agent identity request id"@,
        IdentityErrorView::TaskIdMissing => "agent task registration response omitted task id"@,
        IdentityErrorView::TaskIdNotBase64 => "encrypted task id is not valid base64"@,
        IdentityErrorView::TaskIdNotDecrypted => "failed to decrypt encrypted task id"@,
        IdentityErrorView::TaskIdNotUtf8 => "decrypted task id is not valid UTF-8"@,
        IdentityErrorView::JwtFormat => "invalid JWT format"@,
        IdentityErrorView::JwtNotBase64Url => "JWT payload is not valid base64url"@,
        IdentityErrorView::BiscuitMissing =>
            "agent identity biscuit response did not include x-openai-authorization"@,
        IdentityErrorView::BiscuitNotText =>
            "agent identity biscuit response header was not valid UTF-8"@,
    }
}

impl IdentityError {
    /// What went wrong, in words.
    pub fn text(&self) -> (r: String)
        ensures
            r@ == error_text(self@),
    {
        match self {
            IdentityError::RuntimeMismatch { task_runtime_id, key_runtime_id } => {
                let mut r = "agent task runtime ".to_owned();
                r.append(task_runtime_id.as_str());
                r.append(" does not match stored agent identity ");
                r.append(key_runtime_id.as_str());
                r
            },
            IdentityError::KeyNotBase64 => {
                "stored agent identity private key is not valid base64".to_owned()
            },
            IdentityError::KeyNotPkcs8 => {
                "stored agent identity private key is not valid PKCS#8".to_owned()
            },
            IdentityError::NoKeyBytes => {
                "failed to generate agent identity private key bytes".to_owned()
            },
            IdentityError::KeyNotEncoded => {
                "failed to encode agent identity private key as PKCS#8".to_owned()
            },
            IdentityError::NoRequestIdBytes => {
                "failed to generate agent identity request id".to_owned()
            },
            IdentityError::TaskIdMissing => {
                "agent task registration response omitted task id".to_owned()
            },
            IdentityError::TaskIdNotBase64 => "encrypted task id is not valid base64".to_owned(),
            IdentityError::TaskIdNotDecrypted => "failed to decrypt encrypted task id".to_owned(),
            IdentityError::TaskIdNotUtf8 => "decrypted task id is not valid UTF-8".to_owned(),
            IdentityError::JwtFormat => "invalid JWT format".to_owned(),
            IdentityError::JwtNotBase64Url => "JWT payload is not valid base64url".to_owned(),
            IdentityError::BiscuitMissing => {
                "agent identity biscuit response did not include x-openai-authorization".to_owned()
            },
            IdentityError::BiscuitNotText => {
                "agent identity biscuit response header was not valid UTF-8".to_owned()
            },
        }
    }
}

/// The text that a function gives, or why it gives none.
pub open spec fn text_outcome(r: Result<String, IdentityError>) -> Result<
    Seq<char>,
    IdentityErrorView,
> {
    match r {
        Ok(text) => Ok(text@),
        Err(error) => Err(error@),
    }
}

/// The key that a function gives, or why it gives none.
pub open spec fn key_outcome(r: Result<[u8; 32], IdentityError>) -> Result<
    Seq<u8>,
    IdentityErrorView,
> {
    match r {
        Ok(key) => Ok(key@),
        Err(error) => Err(error@),
    }
}

} // verus!
