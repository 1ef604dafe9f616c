//! The keys of an agent identity.

use vstd::prelude::*;
use vstd::slice::*;
use vstd::string::*;

use crate::identity::crypto;
use crate::identity::error;
use crate::identity::error::IdentityError;
use crate::identity::error::IdentityErrorView;

verus! {

/// A key pair that was made for an agent identity.
pub struct GeneratedAgentKeyMaterial {
    pub private_key_pkcs8_base64: String,
    pub public_key_ssh: String,
}

/// The secret key in the text of a stored private key.
pub open spec fn stored_secret(private_key: Seq<char>) -> Result<Seq<u8>, IdentityErrorView> {
    match crypto::base64_bytes(private_key) {
        None => Err(IdentityErrorView::KeyNotBase64),
        Some(document) => match crypto::pkcs8_secret(document) {
            None => Err(IdentityErrorView::KeyNotPkcs8),
            Some(secret) => Ok(secret),
        },
    }
}

/// A number below 2^32 in four bytes, the highest first.
pub open spec fn be_bytes(n: nat) -> Seq<u8> {
    seq![
        (n / 0x1000000 % 0x100) as u8,
        (n / 0x10000 % 0x100) as u8,
        (n / 0x100 % 0x100) as u8,
        (n % 0x100) as u8,
    ]
}

/// A string of SSH: its length and its bytes.
pub open spec fn ssh_string(value: Seq<u8>) -> Seq<u8> {
    be_bytes(value.len()) + value
}

/// The name of the key type in SSH.
pub const SSH_KEY_TYPE: &'static str = "ssh-ed25519";

/// An Ed25519 public key as SSH has it in one line.
pub open spec fn ssh_public_key(key: Seq<u8>) -> Seq<char> {
    "ssh-ed25519 "@ + crypto::base64_text(
        ssh_string(vstd::utf8::encode_utf8(SSH_KEY_TYPE@)) + ssh_string(key),
    )
}

/// The Curve25519 secret key made of 32 bytes: a multiple of eight with the
/// highest bit but one set and the highest clear.
pub open spec fn clamped(bytes: Seq<u8>) -> Seq<u8> {
    bytes.update(0, bytes[0] & 248).update(31, (bytes[31] & 127) | 64)
}

/// The Curve25519 secret key that belongs to an Ed25519 secret key.
pub open spec fn curve25519_secret(secret: Seq<u8>) -> Seq<u8> {
    clamped(crypto::sha512(secret).take(32))
}

/// The Ed25519 public key that belongs to a stored private key.
pub open spec fn verifying_key_of(private_key: Seq<char>) -> Result<Seq<u8>, IdentityErrorView> {
    match stored_secret(private_key) {
        Ok(secret) => Ok(crypto::public_key(secret)),
        Err(error) => Err(error),
    }
}

/// The Curve25519 secret key that belongs to a stored private key.
pub open spec fn curve25519_secret_of(private_key: Seq<char>) -> Result<
    Seq<u8>,
    IdentityErrorView,
> {
    match stored_secret(private_key) {
        Ok(secret) => Ok(curve25519_secret(secret)),
        Err(error) => Err(error),
    }
}

/// The public key in SSH's form that belongs to a stored private key.
pub open spec fn ssh_public_key_of(private_key: Seq<char>) -> Result<
    Seq<char>,
    IdentityErrorView,
> {
    match stored_secret(private_key) {
        Ok(secret) => Ok(ssh_public_key(crypto::public_key(secret))),
        Err(error) => Err(error),
    }
}

/// The secret key in the text of a stored private key.
pub fn secret_from_private_key_pkcs8_base64(private_key_pkcs8_base64: &str) -> (r: Result<
    [u8; 32],
    IdentityError,
>)
    ensures
        error::key_outcome(r) == stored_secret(private_key_pkcs8_base64@),
{
    match crypto::decode_base64(private_key_pkcs8_base64) {
        Err(_) => Err(IdentityError::KeyNotBase64),
        Ok(document) => match crypto::secret_from_pkcs8(document.as_slice()) {
            Err(_) => Err(IdentityError::KeyNotPkcs8),
            Ok(secret) => Ok(secret),
        },
    }
}

/// Appends the bytes.
fn append_bytes(buf: &mut Vec<u8>, value: &[u8])
    ensures
        final(buf)@ == old(buf)@ + value@,
{
    let ghost before = buf@;
    let mut i: usize = 0;
    assert(before + value@.take(0) =~= before);
    while i < value.len()
        invariant
            i <= value@.len(),
            buf@ == before + value@.take(i as int),
        decreases value.len() - i,
    {
        buf.push(value[i]);
        assert(before + value@.take(i + 1) =~= (before + value@.take(i as int)).push(
            value@[i as int],
        ));
        i = i + 1;
    }
    assert(value@.take(i as int) =~= value@);
}

/// Appends a string of SSH.
fn append_ssh_string(buf: &mut Vec<u8>, value: &[u8])
    requires
        value@.len() <= u32::MAX,
    ensures
        final(buf)@ == old(buf)@ + ssh_string(value@),
{
    let ghost before = buf@;
    let n: u64 = value.len() as u64;
    buf.push((n / 0x1000000 % 0x100) as u8);
    buf.push((n / 0x10000 % 0x100) as u8);
    buf.push((n / 0x100 % 0x100) as u8);
    buf.push((n % 0x100) as u8);
    assert(buf@ =~= before + be_bytes(n as nat));
    append_bytes(buf, value);
    assert(buf@ =~= before + ssh_string(value@));
}

/// An Ed25519 public key as SSH has it in one line.
pub fn encode_ssh_ed25519_public_key(verifying_key: &[u8; 32]) -> (r: String)
    ensures
        r@ == ssh_public_key(verifying_key@),
{
    let mut blob: Vec<u8> = Vec::new();
    proof {
        reveal_strlit("ssh-ed25519");
        vstd::utf8::is_ascii_chars_encode_utf8(SSH_KEY_TYPE@);
    }
    append_ssh_string(&mut blob, SSH_KEY_TYPE.as_bytes());
    append_ssh_string(&mut blob, verifying_key.as_slice());
    assert(blob@ =~= ssh_string(vstd::utf8::encode_utf8(SSH_KEY_TYPE@)) + ssh_string(
        verifying_key@,
    ));
    let mut r = "ssh-ed25519 ".to_owned();
    r.append(crypto::encode_base64(blob.as_slice()).as_str());
    r
}

/// The first 32 bytes of a digest, made into a Curve25519 secret key.
pub fn clamp(digest: &[u8; 64]) -> (r: [u8; 32])
    ensures
        r@ == clamped(digest@.take(32)),
{
    let mut key = [0u8; 32];
    let mut i: usize = 0;
    while i < 32
        invariant
            i <= 32,
            forall|j: int| 0 <= j < i ==> key@[j] == digest@[j],
        decreases 32 - i,
    {
        key[i] = digest[i];
        i = i + 1;
    }
    assert(key@ =~= digest@.take(32));
    key[0] = key[0] & 248;
    key[31] = key[31] & 127;
    key[31] = key[31] | 64;
    assert(key@ =~= clamped(digest@.take(32)));
    key
}

/// The Curve25519 secret key that belongs to an Ed25519 secret key.
pub fn curve25519_secret_key_from_secret(secret: &[u8; 32]) -> (r: [u8; 32])
    ensures
        r@ == curve25519_secret(secret@),
{
    clamp(&crypto::sha512_of(secret.as_slice()))
}

/// The Ed25519 public key that belongs to a stored private key.
pub fn verifying_key_from_private_key_pkcs8_base64(private_key_pkcs8_base64: &str) -> (r: Result<
    [u8; 32],
    IdentityError,
>)
    ensures
        error::key_outcome(r) == verifying_key_of(private_key_pkcs8_base64@),
{
    match secret_from_private_key_pkcs8_base64(private_key_pkcs8_base64) {
        Ok(secret) => Ok(crypto::public_key_of(&secret)),
        Err(error) => Err(error),
    }
}

/// The Curve25519 secret key that belongs to a stored private key.
pub fn curve25519_secret_key_from_private_key_pkcs8_base64(
    private_key_pkcs8_base64: &str,
) -> (r: Result<[u8; 32], IdentityError>)
    ensures
        error::key_outcome(r) == curve25519_secret_of(private_key_pkcs8_base64@),
{
    match secret_from_private_key_pkcs8_base64(private_key_pkcs8_base64) {
        Ok(secret) => Ok(curve25519_secret_key_from_secret(&secret)),
        Err(error) => Err(error),
    }
}

/// The public key in SSH's form that belongs to a stored private key.
pub fn public_key_ssh_from_private_key_pkcs8_base64(private_key_pkcs8_base64: &str) -> (r: Result<
    String,
    IdentityError,
>)
    ensures
        error::text_outcome(r) == ssh_public_key_of(private_key_pkcs8_base64@),
{
    match secret_from_private_key_pkcs8_base64(private_key_pkcs8_base64) {
        Ok(secret) => Ok(encode_ssh_ed25519_public_key(&crypto::public_key_of(&secret))),
        Err(error) => Err(error),
    }
}

/// The key pair with the given secret key. The private key is stored such that
/// it gives back the secret key, and the public key with it.
pub fn key_material_from_secret(secret: &[u8; 32]) -> (r: Result<
    GeneratedAgentKeyMaterial,
    IdentityError,
>)
    ensures
        r is Ok,
        r->Ok_0.private_key_pkcs8_base64@ == crypto::base64_text(crypto::pkcs8_document(secret@)),
        r->Ok_0.public_key_ssh@ == ssh_public_key(crypto::public_key(secret@)),
        stored_secret(r->Ok_0.private_key_pkcs8_base64@) == Ok::<Seq<u8>, IdentityErrorView>(
            secret@,
        ),
        ssh_public_key_of(r->Ok_0.private_key_pkcs8_base64@) == Ok::<Seq<char>, IdentityErrorView>(
            r->Ok_0.public_key_ssh@,
        ),
{
    match crypto::secret_to_pkcs8(secret) {
        Err(_) => Err(IdentityError::KeyNotEncoded),
        Ok(document) => Ok(
            GeneratedAgentKeyMaterial {
                private_key_pkcs8_base64: crypto::encode_base64(document.as_slice()),
                public_key_ssh: encode_ssh_ed25519_public_key(&crypto::public_key_of(secret)),
            },
        ),
    }
}

/// The first 32 of the bytes.
fn first_32(bytes: &Vec<u8>) -> (r: [u8; 32])
    requires
        bytes@.len() == 32,
    ensures
        r@ == bytes@,
{
    let mut key = [0u8; 32];
    let mut i: usize = 0;
    while i < 32
        invariant
            i <= 32,
            bytes@.len() == 32,
            forall|j: int| 0 <= j < i ==> key@[j] == bytes@[j],
        decreases 32 - i,
    {
        key[i] = bytes[i];
        i = i + 1;
    }
    assert(key@ =~= bytes@);
    key
}

/// The key material is that of some secret key.
pub open spec fn is_key_material(m: GeneratedAgentKeyMaterial) -> bool {
    exists|secret: Seq<u8>|
        {
            &&& secret.len() == 32
            &&& m.private_key_pkcs8_base64@ == #[trigger] crypto::base64_text(
                crypto::pkcs8_document(secret),
            )
            &&& m.public_key_ssh@ == ssh_public_key(crypto::public_key(secret))
            &&& stored_secret(m.private_key_pkcs8_base64@) == Ok::<Seq<u8>, IdentityErrorView>(
                secret,
            )
        }
}

/// A new key pair. The public key is the one that belongs to the private key.
pub fn generate_agent_key_material() -> (r: Result<GeneratedAgentKeyMaterial, IdentityError>)
    ensures
        match r {
            Ok(m) => is_key_material(m) && ssh_public_key_of(m.private_key_pkcs8_base64@) == Ok::<
                Seq<char>,
                IdentityErrorView,
            >(m.public_key_ssh@),
            Err(error) => error@ == IdentityErrorView::NoKeyBytes,
        },
{
    match crypto::random_bytes(32) {
        Err(_) => Err(IdentityError::NoKeyBytes),
        Ok(bytes) => {
            let secret = first_32(&bytes);
            key_material_from_secret(&secret)
        },
    }
}

} // verus!
