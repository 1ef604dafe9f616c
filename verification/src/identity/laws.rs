//! What holds of agent identities.

use vstd::prelude::*;

use crate::identity::assertion;
use crate::identity::crypto;
use crate::identity::error;
use crate::identity::error::IdentityErrorView;
use crate::identity::keys;
use crate::identity::registration;
use crate::identity::registration::RegisterTaskResponse;
use crate::identity::registration::SessionSource;
use crate::json;
use crate::text;
use crate::time;
use crate::time::Instant;

verus! {

/// The assertion for a task of another runtime is refused, whatever the key,
/// and the refusal names both runtimes.
pub proof fn law_foreign_task_is_refused(
    key_runtime_id: Seq<char>,
    private_key: Seq<char>,
    target_runtime_id: Seq<char>,
    task_id: Seq<char>,
    timestamp: Seq<char>,
)
    requires
        key_runtime_id != target_runtime_id,
    ensures
        assertion::header_result(
            key_runtime_id,
            private_key,
            target_runtime_id,
            task_id,
            timestamp,
        ) == Err::<Seq<char>, IdentityErrorView>(
            IdentityErrorView::RuntimeMismatch {
                task_runtime_id: target_runtime_id,
                key_runtime_id,
            },
        ),
{
}

/// For a task of its own runtime, a key that signs gives an assertion.
pub proof fn law_own_task_is_asserted(
    runtime_id: Seq<char>,
    private_key: Seq<char>,
    task_id: Seq<char>,
    timestamp: Seq<char>,
)
    ensures
        assertion::header_result(runtime_id, private_key, runtime_id, task_id, timestamp) is Ok
            <==> keys::stored_secret(private_key) is Ok,
{
}

/// A task in clear text is taken whatever the key and whatever else the answer
/// holds.
pub proof fn law_clear_task_comes_first(
    private_key: Seq<char>,
    other_key: Seq<char>,
    response: RegisterTaskResponse,
)
    requires
        response.task_id is Some || response.task_id_camel is Some,
    ensures
        registration::registered_task(private_key, response) is Ok,
        registration::registered_task(private_key, response) == registration::registered_task(
            other_key,
            response,
        ),
{
}

/// A Curve25519 secret key is a multiple of eight, with the highest bit clear
/// and the next one set.
pub proof fn law_clamped_key(bytes: Seq<u8>)
    requires
        bytes.len() == 32,
    ensures
        keys::clamped(bytes).len() == 32,
        keys::clamped(bytes)[0] % 8 == 0,
        64 <= keys::clamped(bytes)[31] < 128,
        forall|i: int| 0 < i < 31 ==> keys::clamped(bytes)[i] == bytes[i],
        keys::clamped(keys::clamped(bytes)) == keys::clamped(bytes),
{
    let low = bytes[0];
    let high = bytes[31];
    assert((low & 248) % 8 == 0 && (low & 248) & 248 == low & 248) by (bit_vector);
    assert(64 <= (high & 127) | 64 && (high & 127) | 64 < 128 && ((((high & 127) | 64) & 127) | 64)
        == (high & 127) | 64) by (bit_vector);
    assert(keys::clamped(keys::clamped(bytes)) =~= keys::clamped(bytes));
}

/// Two texts of SSH one after the other can be told apart: what starts with a
/// string of SSH starts with no other one.
pub proof fn law_ssh_strings_are_told_apart(a: Seq<u8>, x: Seq<u8>, b: Seq<u8>, y: Seq<u8>)
    requires
        a.len() <= u32::MAX,
        b.len() <= u32::MAX,
        keys::ssh_string(a) + x == keys::ssh_string(b) + y,
    ensures
        a == b,
        x == y,
{
    let s = keys::ssh_string(a) + x;
    let t = keys::ssh_string(b) + y;
    let m = a.len();
    let n = b.len();
    assert(s[0] == keys::be_bytes(m)[0] && s[1] == keys::be_bytes(m)[1] && s[2]
        == keys::be_bytes(m)[2] && s[3] == keys::be_bytes(m)[3]);
    assert(t[0] == keys::be_bytes(n)[0] && t[1] == keys::be_bytes(n)[1] && t[2]
        == keys::be_bytes(n)[2] && t[3] == keys::be_bytes(n)[3]);
    assert(m == n);
    assert(a =~= s.subrange(4, 4 + m as int));
    assert(b =~= t.subrange(4, 4 + n as int));
    assert(x =~= s.skip(4 + m as int));
    assert(y =~= t.skip(4 + n as int));
}

/// For a task of its own runtime, the key gives a header with the scheme
/// `AgentAssertion`, and behind it in base64url a JSON object: the runtime, the signature
/// in base64, the task and the time. What is signed are the runtime, the task and the
/// time, with colons between them. A key that cannot be read gives the reason.
pub proof fn law_header_of_an_assertion(
    runtime_id: Seq<char>,
    private_key: Seq<char>,
    task_id: Seq<char>,
    timestamp: Seq<char>,
)
    ensures
        ({
            let r = assertion::header_result(
                runtime_id,
                private_key,
                runtime_id,
                task_id,
                timestamp,
            );
            match keys::stored_secret(private_key) {
                Err(error) => r == Err::<Seq<char>, IdentityErrorView>(error),
                Ok(secret) => {
                    let payload = runtime_id + ":"@ + task_id + ":"@ + timestamp;
                    let signature = crypto::base64_text(
                        crypto::signature(secret, vstd::utf8::encode_utf8(payload)),
                    );
                    let object = "{"@ + (json::json_string("agent_runtime_id"@) + ":"@
                        + json::json_string(runtime_id)) + ","@ + (json::json_string("signature"@)
                        + ":"@ + json::json_string(signature)) + ","@ + (json::json_string(
                        "task_id"@,
                    ) + ":"@ + json::json_string(task_id)) + ","@ + (json::json_string(
                        "timestamp"@,
                    ) + ":"@ + json::json_string(timestamp)) + "}"@;
                    r == Ok::<Seq<char>, IdentityErrorView>(
                        "AgentAssertion "@ + crypto::base64url_text(
                            vstd::utf8::encode_utf8(object),
                        ),
                    )
                },
            }
        }),
{
}

/// For the registration of a task the runtime and the time are signed, with a colon
/// between them. A key that cannot be read gives the reason.
pub proof fn law_signature_of_a_registration(
    runtime_id: Seq<char>,
    private_key: Seq<char>,
    timestamp: Seq<char>,
)
    ensures
        ({
            let payload = runtime_id + ":"@ + timestamp;
            let r = assertion::signing_result(
                private_key,
                assertion::registration_payload(runtime_id, timestamp),
            );
            match keys::stored_secret(private_key) {
                Err(error) => r == Err::<Seq<char>, IdentityErrorView>(error),
                Ok(secret) => r == Ok::<Seq<char>, IdentityErrorView>(
                    crypto::base64_text(
                        crypto::signature(secret, vstd::utf8::encode_utf8(payload)),
                    ),
                ),
            }
        }),
{
}

/// A stored key is a PKCS#8 document in base64. It gives the secret key of the document,
/// or says which of the two it is not.
pub proof fn law_stored_key(private_key: Seq<char>, document: Seq<u8>, secret: Seq<u8>)
    ensures
        crypto::base64_bytes(private_key) is None ==> keys::stored_secret(private_key) == Err::<
            Seq<u8>,
            IdentityErrorView,
        >(IdentityErrorView::KeyNotBase64),
        crypto::base64_bytes(private_key) == Some(document) && crypto::pkcs8_secret(document)
            is None ==> keys::stored_secret(private_key) == Err::<Seq<u8>, IdentityErrorView>(
            IdentityErrorView::KeyNotPkcs8,
        ),
        crypto::base64_bytes(private_key) == Some(document) && crypto::pkcs8_secret(document)
            == Some(secret) ==> keys::stored_secret(private_key) == Ok::<
            Seq<u8>,
            IdentityErrorView,
        >(secret),
{
}

/// What is derived of a stored key is derived of its secret key: the public key, that in
/// SSH's form, and the key for encryption, which is made of the first half of the SHA-512
/// digest. A key that cannot be read gives the reason.
pub proof fn law_keys_of_a_stored_key(private_key: Seq<char>)
    ensures
        match keys::stored_secret(private_key) {
            Err(error) => {
                &&& keys::verifying_key_of(private_key) == Err::<Seq<u8>, IdentityErrorView>(error)
                &&& keys::curve25519_secret_of(private_key) == Err::<Seq<u8>, IdentityErrorView>(
                    error,
                )
                &&& keys::ssh_public_key_of(private_key) == Err::<Seq<char>, IdentityErrorView>(
                    error,
                )
            },
            Ok(secret) => {
                &&& keys::verifying_key_of(private_key) == Ok::<Seq<u8>, IdentityErrorView>(
                    crypto::public_key(secret),
                )
                &&& keys::curve25519_secret_of(private_key) == Ok::<Seq<u8>, IdentityErrorView>(
                    keys::clamped(crypto::sha512(secret).take(32)),
                )
                &&& keys::ssh_public_key_of(private_key) == Ok::<Seq<char>, IdentityErrorView>(
                    keys::ssh_public_key(crypto::public_key(secret)),
                )
            },
        },
{
}

/// Four bytes that make up a number, the highest first, are its bytes.
proof fn lemma_length_bytes(n: nat, bytes: Seq<u8>)
    requires
        bytes.len() == 4,
        bytes[0] * 0x1000000 + bytes[1] * 0x10000 + bytes[2] * 0x100 + bytes[3] == n,
    ensures
        keys::be_bytes(n) == bytes,
{
    let a = bytes[0] as nat;
    let b = bytes[1] as nat;
    let c = bytes[2] as nat;
    let d = bytes[3] as nat;
    assert(n / 0x100 == a * 0x10000 + b * 0x100 + c && n % 0x100 == d);
    assert(n / 0x10000 == a * 0x100 + b);
    assert(n / 0x1000000 == a);
    assert((a * 0x10000 + b * 0x100 + c) % 0x100 == c);
    assert((a * 0x100 + b) % 0x100 == b);
    assert(keys::be_bytes(n) =~= bytes);
}

/// A public key in SSH's form has the key type in clear text, and behind a space in
/// base64 the key type and the key. Each of them follows its length in four bytes, the
/// highest first.
pub proof fn law_ssh_form_of_a_key(key: Seq<u8>, type_length: Seq<u8>, key_length: Seq<u8>)
    requires
        key.len() < 0x100000000,
        type_length.len() == 4,
        key_length.len() == 4,
        type_length[0] * 0x1000000 + type_length[1] * 0x10000 + type_length[2] * 0x100
            + type_length[3] == vstd::utf8::encode_utf8("ssh-ed25519"@).len(),
        key_length[0] * 0x1000000 + key_length[1] * 0x10000 + key_length[2] * 0x100 + key_length[3]
            == key.len(),
    ensures
        keys::ssh_public_key(key) == "ssh-ed25519 "@ + crypto::base64_text(
            type_length + vstd::utf8::encode_utf8("ssh-ed25519"@) + key_length + key,
        ),
{
    let name = vstd::utf8::encode_utf8("ssh-ed25519"@);
    lemma_length_bytes(name.len(), type_length);
    lemma_length_bytes(key.len(), key_length);
    assert(keys::ssh_string(name) + keys::ssh_string(key) =~= type_length + name + key_length
        + key);
}

/// A Curve25519 secret key keeps all other bits of the bytes that it is made of.
pub proof fn law_clamped_key_keeps_the_rest(bytes: Seq<u8>)
    requires
        bytes.len() == 32,
    ensures
        keys::clamped(bytes)[0] == bytes[0] - bytes[0] % 8,
        keys::clamped(bytes)[31] % 64 == bytes[31] % 64,
{
    let low = bytes[0];
    let high = bytes[31];
    assert(low & 248 == low - low % 8) by (bit_vector);
    assert(((high & 127) | 64) % 64 == high % 64) by (bit_vector);
}

/// The task of an answer is the first of four that is there: in clear text under its name
/// in snake case and in camel case, and then encrypted under both. Without one of them
/// the answer names none.
pub proof fn law_task_of_an_answer(private_key: Seq<char>, response: RegisterTaskResponse)
    ensures
        ({
            let r = registration::registered_task(private_key, response);
            match (
                response.task_id,
                response.task_id_camel,
                response.encrypted_task_id,
                response.encrypted_task_id_camel,
            ) {
                (Some(task_id), _, _, _) => r == Ok::<Seq<char>, IdentityErrorView>(task_id@),
                (None, Some(task_id), _, _) => r == Ok::<Seq<char>, IdentityErrorView>(task_id@),
                (None, None, Some(encrypted), _) => r == registration::decrypted(
                    private_key,
                    encrypted@,
                ),
                (None, None, None, Some(encrypted)) => r == registration::decrypted(
                    private_key,
                    encrypted@,
                ),
                (None, None, None, None) => r == Err::<Seq<char>, IdentityErrorView>(
                    IdentityErrorView::TaskIdMissing,
                ),
            }
        }),
{
}

/// An encrypted task is a sealed box in base64 for the key that is made of the secret
/// key, and what is in it is a text. What is wrong is told of the first step that fails.
pub proof fn law_encrypted_task(private_key: Seq<char>, encrypted: Seq<char>)
    ensures
        ({
            let r = registration::decrypted(private_key, encrypted);
            let key = keys::curve25519_secret_of(private_key);
            let sealed = crypto::base64_bytes(encrypted);
            let opened = crypto::unsealed(key->Ok_0, sealed->0);
            &&& key matches Err(error) ==> r == Err::<Seq<char>, IdentityErrorView>(error)
            &&& key is Ok && sealed is None ==> r == Err::<Seq<char>, IdentityErrorView>(
                IdentityErrorView::TaskIdNotBase64,
            )
            &&& key is Ok && sealed is Some && opened is None ==> r == Err::<
                Seq<char>,
                IdentityErrorView,
            >(IdentityErrorView::TaskIdNotDecrypted)
            &&& key is Ok && sealed is Some && opened is Some && !vstd::utf8::valid_utf8(opened->0)
                ==> r == Err::<Seq<char>, IdentityErrorView>(IdentityErrorView::TaskIdNotUtf8)
            &&& key is Ok && sealed is Some && opened is Some && vstd::utf8::valid_utf8(opened->0)
                ==> r == Ok::<Seq<char>, IdentityErrorView>(vstd::utf8::decode_utf8(opened->0))
        }),
{
}

/// The payload of a JWT is what stands in base64url between its first two dots. There is
/// none where the token has fewer than three parts, or one of the first three is empty.
/// What follows the third does not matter.
pub proof fn law_payload_of_a_jwt(
    header: Seq<char>,
    payload: Seq<char>,
    signature: Seq<char>,
    rest: Seq<char>,
)
    requires
        forall|i: int| 0 <= i < header.len() ==> header[i] != '.',
        forall|i: int| 0 <= i < payload.len() ==> payload[i] != '.',
        forall|i: int| 0 <= i < signature.len() ==> signature[i] != '.',
        forall|i: int| 0 <= i < rest.len() ==> rest[i] != '.',
    ensures
        ({
            let dot = seq!['.'];
            let two = header + dot + payload;
            let three = two + dot + signature;
            let four = three + dot + rest;
            let none = Err::<Seq<u8>, IdentityErrorView>(IdentityErrorView::JwtFormat);
            let expected = if header.len() == 0 || payload.len() == 0 || signature.len() == 0 {
                none
            } else {
                match crypto::base64url_bytes(payload) {
                    Some(bytes) => Ok::<Seq<u8>, IdentityErrorView>(bytes),
                    None => Err::<Seq<u8>, IdentityErrorView>(IdentityErrorView::JwtNotBase64Url),
                }
            };
            &&& registration::jwt_payload(header) == none
            &&& registration::jwt_payload(two) == none
            &&& registration::jwt_payload(three) == expected
            &&& registration::jwt_payload(four) == expected
        }),
{
    let dot = seq!['.'];
    let two = header + dot + payload;
    let three = two + dot + signature;
    text::law_split_at_each(header, header, '.');
    text::law_split_at_each(header, payload, '.');
    text::law_split_at_each(two, signature, '.');
    text::law_split_at_each(three, rest, '.');
}

/// More parts at the end of a JWT do not matter.
pub proof fn law_more_parts_of_a_jwt(jwt: Seq<char>, rest: Seq<char>)
    requires
        text::split_on(jwt, '.').len() >= 3,
        forall|i: int| 0 <= i < rest.len() ==> rest[i] != '.',
    ensures
        registration::jwt_payload(jwt + seq!['.'] + rest) == registration::jwt_payload(jwt),
{
    text::law_split_at_each(jwt, rest, '.');
}

/// The biscuit of an answer is the value of its header, if that is visible ASCII, spaces
/// and tabs; it is an error that there is none, and another that it is no such text.
pub proof fn law_biscuit_of_an_answer(bytes: Seq<u8>)
    ensures
        registration::biscuit_in(None) == Err::<Seq<char>, IdentityErrorView>(
            IdentityErrorView::BiscuitMissing,
        ),
        match registration::biscuit_in(Some(bytes)) {
            Ok(biscuit) => {
                &&& biscuit.len() == bytes.len()
                &&& forall|i: int|
                    0 <= i < bytes.len() ==> {
                        &&& #[trigger] biscuit[i] == bytes[i] as char
                        &&& biscuit[i] == '\t' || ' ' <= biscuit[i] <= '~'
                    }
            },
            Err(error) => {
                &&& error == IdentityErrorView::BiscuitNotText
                &&& exists|i: int|
                    0 <= i < bytes.len() && !(#[trigger] bytes[i] == 9 || 32 <= bytes[i] <= 126)
            },
        },
{
    if registration::biscuit_in(Some(bytes)) is Ok {
        let biscuit = registration::ascii_text(bytes);
        assert forall|i: int| 0 <= i < bytes.len() implies {
            &&& #[trigger] biscuit[i] == bytes[i] as char
            &&& biscuit[i] == '\t' || ' ' <= biscuit[i] <= '~'
        } by {
            assert(registration::is_visible_ascii(bytes[i]));
        }
    } else {
        let i = choose|i: int|
            0 <= i < bytes.len() && !registration::is_visible_ascii(#[trigger] bytes[i]);
        assert(!(bytes[i] == 9 || 32 <= bytes[i] <= 126));
    }
}

/// The harness of an agent is the app for the extension of VS Code, and the command line
/// for all else.
pub proof fn law_harness(source: SessionSource)
    ensures
        source is VSCode ==> registration::harness_id(source) == "codex-app"@,
        source !is VSCode ==> registration::harness_id(source) == "codex-cli"@,
{
}

/// The ID of a request starts with what it is for, and has its bytes in base64url.
pub proof fn law_request_id(bytes: Seq<u8>)
    ensures
        registration::request_id(bytes) == "codex-agent-identity-"@ + crypto::base64url_text(
            bytes,
        ),
{
}

/// The timestamp of an assertion is to the second.
pub proof fn law_timestamp_is_to_the_second(t: Instant)
    ensures
        assertion::timestamp_text(t) == time::rfc3339_text(t.secs, t.nanos, false),
{
}

/// What went wrong, in words.
pub proof fn law_words_of_an_error(task_runtime_id: Seq<char>, key_runtime_id: Seq<char>)
    ensures
        error::error_text(
            IdentityErrorView::RuntimeMismatch { task_runtime_id, key_runtime_id },
        ) == "agent task runtime "@ + task_runtime_id + " does not match stored agent identity "@
            + key_runtime_id,
        error::error_text(IdentityErrorView::KeyNotBase64)
            == "stored agent identity private key is not valid base64"@,
        error::error_text(IdentityErrorView::KeyNotPkcs8)
            == "stored agent identity private key is not valid PKCS#8"@,
        error::error_text(IdentityErrorView::NoKeyBytes)
            == "failed to generate agent identity private key bytes"@,
        error::error_text(IdentityErrorView::KeyNotEncoded)
            == "failed to encode agent identity private key as PKCS#8"@,
        error::error_text(IdentityErrorView::NoRequestIdBytes)
            == "failed to generate agent identity request id"@,
        error::error_text(IdentityErrorView::TaskIdMissing)
            == "agent task registration response omitted task id"@,
        error::error_text(IdentityErrorView::TaskIdNotBase64)
            == "encrypted task id is not valid base64"@,
        error::error_text(IdentityErrorView::TaskIdNotDecrypted)
            == "failed to decrypt encrypted task id"@,
        error::error_text(IdentityErrorView::TaskIdNotUtf8)
            == "decrypted task id is not valid UTF-8"@,
        error::error_text(IdentityErrorView::JwtFormat) == "invalid JWT format"@,
        error::error_text(IdentityErrorView::JwtNotBase64Url)
            == "JWT payload is not valid base64url"@,
        error::error_text(IdentityErrorView::BiscuitMissing)
            == "agent identity biscuit response did not include x-openai-authorization"@,
        error::error_text(IdentityErrorView::BiscuitNotText)
            == "agent identity biscuit response header was not valid UTF-8"@,
{
}

} // verus!
