//! Agent assertions: the header that proves that a request comes from an agent
//! that may work on a task.

use vstd::prelude::*;
use vstd::string::*;

use crate::identity::crypto;
use crate::identity::error;
use crate::identity::error::IdentityError;
use crate::identity::error::IdentityErrorView;
use crate::identity::keys;
use crate::identity::task::AgentIdentityKey;
use crate::identity::task::AgentTaskAuthorizationTarget;
use crate::identity::task::RegisteredAgentTask;
use crate::json;
use crate::text;
use crate::time;
use crate::time::Fraction;
use crate::time::Instant;
use crate::time::Timestamp;

verus! {

/// The scheme that an assertion has in the header.
pub const ASSERTION_SCHEME: &'static str = "AgentAssertion ";

/// The signature of a text in base64.
pub open spec fn signature_text(secret: Seq<u8>, payload: Seq<char>) -> Seq<char> {
    crypto::base64_text(crypto::signature(secret, vstd::utf8::encode_utf8(payload)))
}

/// What is signed for an assertion.
pub open spec fn assertion_payload(
    agent_runtime_id: Seq<char>,
    task_id: Seq<char>,
    timestamp: Seq<char>,
) -> Seq<char> {
    agent_runtime_id + ":"@ + task_id + ":"@ + timestamp
}

/// What is signed for the registration of a task.
pub open spec fn registration_payload(
    agent_runtime_id: Seq<char>,
    timestamp: Seq<char>,
) -> Seq<char> {
    agent_runtime_id + ":"@ + timestamp
}

/// The parts of an assertion in JSON, in the order of their names.
pub open spec fn envelope_json(
    agent_runtime_id: Seq<char>,
    signature: Seq<char>,
    task_id: Seq<char>,
    timestamp: Seq<char>,
) -> Seq<char> {
    "{"@ + json::member("agent_runtime_id"@, agent_runtime_id) + ","@ + json::member(
        "signature"@,
        signature,
    ) + ","@ + json::member("task_id"@, task_id) + ","@ + json::member("timestamp"@, timestamp)
        + "}"@
}

/// The assertion of the owner of `secret` at a time.
pub open spec fn assertion(
    secret: Seq<u8>,
    agent_runtime_id: Seq<char>,
    task_id: Seq<char>,
    timestamp: Seq<char>,
) -> Seq<char> {
    envelope_json(
        agent_runtime_id,
        signature_text(secret, assertion_payload(agent_runtime_id, task_id, timestamp)),
        task_id,
        timestamp,
    )
}

/// The header with an assertion, or why there is none.
pub open spec fn header_result(
    key_runtime_id: Seq<char>,
    private_key: Seq<char>,
    target_runtime_id: Seq<char>,
    task_id: Seq<char>,
    timestamp: Seq<char>,
) -> Result<Seq<char>, IdentityErrorView> {
    if key_runtime_id != target_runtime_id {
        Err(
            IdentityErrorView::RuntimeMismatch {
                task_runtime_id: target_runtime_id,
                key_runtime_id,
            },
        )
    } else {
        match keys::stored_secret(private_key) {
            Err(error) => Err(error),
            Ok(secret) => Ok(
                ASSERTION_SCHEME@ + crypto::base64url_text(
                    vstd::utf8::encode_utf8(
                        assertion(secret, key_runtime_id, task_id, timestamp),
                    ),
                ),
            ),
        }
    }
}

/// The signature of a text, in base64, or why there is none.
pub open spec fn signing_result(private_key: Seq<char>, payload: Seq<char>) -> Result<
    Seq<char>,
    IdentityErrorView,
> {
    match keys::stored_secret(private_key) {
        Err(error) => Err(error),
        Ok(secret) => Ok(signature_text(secret, payload)),
    }
}

/// The token behind the scheme of a header decodes to the JSON of an assertion
/// with these parts, and the header is made of characters that a header may
/// hold.
pub open spec fn carries_assertion(
    header: Seq<char>,
    secret: Seq<u8>,
    agent_runtime_id: Seq<char>,
    task_id: Seq<char>,
    timestamp: Seq<char>,
) -> bool {
    &&& text::after_prefix(header, ASSERTION_SCHEME@) matches Some(token)
        && crypto::base64url_bytes(token) == Some(
        vstd::utf8::encode_utf8(assertion(secret, agent_runtime_id, task_id, timestamp)),
    )
    &&& forall|i: int| 0 <= i < header.len() ==> ' ' <= #[trigger] header[i] <= '~'
}

/// The result is the header that the key gives for the task of a runtime at a
/// time, which carries the assertion, or why there is none.
pub open spec fn is_header_for(
    r: Result<String, IdentityError>,
    key: AgentIdentityKey<'_>,
    target_runtime_id: Seq<char>,
    task_id: Seq<char>,
    timestamp: Seq<char>,
) -> bool {
    &&& error::text_outcome(r) == header_result(
        key.agent_runtime_id@,
        key.private_key_pkcs8_base64@,
        target_runtime_id,
        task_id,
        timestamp,
    )
    &&& r matches Ok(header) ==> carries_assertion(
        header@,
        keys::stored_secret(key.private_key_pkcs8_base64@)->Ok_0,
        target_runtime_id,
        task_id,
        timestamp,
    )
}

/// Signs a text with a stored private key.
fn sign_payload(private_key_pkcs8_base64: &str, payload: &str) -> (r: Result<
    String,
    IdentityError,
>)
    ensures
        error::text_outcome(r) == signing_result(private_key_pkcs8_base64@, payload@),
{
    match keys::secret_from_private_key_pkcs8_base64(private_key_pkcs8_base64) {
        Err(error) => Err(error),
        Ok(secret) => {
            let signature = crypto::sign(&secret, payload.as_bytes());
            Ok(crypto::encode_base64(signature.as_slice()))
        },
    }
}

/// Signs what is to be signed for the registration of a task.
pub fn sign_task_registration_payload(key: AgentIdentityKey<'_>, timestamp: &str) -> (r: Result<
    String,
    IdentityError,
>)
    ensures
        error::text_outcome(r) == signing_result(
            key.private_key_pkcs8_base64@,
            registration_payload(key.agent_runtime_id@, timestamp@),
        ),
{
    let mut payload = key.agent_runtime_id.to_owned();
    payload.append(":");
    payload.append(timestamp);
    sign_payload(key.private_key_pkcs8_base64, payload.as_str())
}

/// Signs what is to be signed for an assertion.
fn sign_agent_assertion_payload(
    key: AgentIdentityKey<'_>,
    task_id: &str,
    timestamp: &str,
) -> (r: Result<String, IdentityError>)
    ensures
        error::text_outcome(r) == signing_result(
            key.private_key_pkcs8_base64@,
            assertion_payload(key.agent_runtime_id@, task_id@, timestamp@),
        ),
{
    let mut payload = key.agent_runtime_id.to_owned();
    payload.append(":");
    payload.append(task_id);
    payload.append(":");
    payload.append(timestamp);
    sign_payload(key.private_key_pkcs8_base64, payload.as_str())
}

/// The parts of an assertion in JSON and base64url.
fn serialize_agent_assertion(
    agent_runtime_id: &str,
    signature: &str,
    task_id: &str,
    timestamp: &str,
) -> (r: String)
    ensures
        r@ == crypto::base64url_text(
            vstd::utf8::encode_utf8(
                envelope_json(agent_runtime_id@, signature@, task_id@, timestamp@),
            ),
        ),
        crypto::base64url_bytes(r@) == Some(
            vstd::utf8::encode_utf8(
                envelope_json(agent_runtime_id@, signature@, task_id@, timestamp@),
            ),
        ),
        forall|i: int| 0 <= i < r@.len() ==> crypto::is_base64url_char(#[trigger] r@[i]),
{
    proof {
        reveal_strlit("agent_runtime_id");
        reveal_strlit("signature");
        reveal_strlit("task_id");
        reveal_strlit("timestamp");
        assert("agent_runtime_id"@.take(0) =~= "signature"@.take(0));
        assert(json::comes_before_at("agent_runtime_id"@, "signature"@, 0));
        assert("signature"@.take(0) =~= "task_id"@.take(0));
        assert(json::comes_before_at("signature"@, "task_id"@, 0));
        assert("task_id"@.take(1) =~= "timestamp"@.take(1));
        assert(json::comes_before_at("task_id"@, "timestamp"@, 1));
    }
    let payload = json::texts_to_json(
        ("agent_runtime_id", agent_runtime_id),
        ("signature", signature),
        ("task_id", task_id),
        ("timestamp", timestamp),
    ).unwrap();
    crypto::encode_base64url(payload.as_slice())
}

/// The header that proves at the given time that a request comes from the
/// owner of the key and is for the task.
pub fn authorization_header_at(
    key: AgentIdentityKey<'_>,
    target: AgentTaskAuthorizationTarget<'_>,
    timestamp: &str,
) -> (r: Result<String, IdentityError>)
    ensures
        is_header_for(r, key, target.agent_runtime_id@, target.task_id@, timestamp@),
{
    if !text::same_text(key.agent_runtime_id, target.agent_runtime_id) {
        return Err(
            IdentityError::RuntimeMismatch {
                task_runtime_id: target.agent_runtime_id.to_owned(),
                key_runtime_id: key.agent_runtime_id.to_owned(),
            },
        );
    }
    match sign_agent_assertion_payload(key, target.task_id, timestamp) {
        Err(error) => Err(error),
        Ok(signature) => {
            let token = serialize_agent_assertion(
                target.agent_runtime_id,
                signature.as_str(),
                target.task_id,
                timestamp,
            );
            let mut header = ASSERTION_SCHEME.to_owned();
            header.append(token.as_str());
            proof {
                text::lemma_after_prefix(ASSERTION_SCHEME@, token@);
                reveal_strlit("AgentAssertion ");
                assert forall|i: int| 0 <= i < header@.len() implies ' ' <= #[trigger] header@[i]
                    <= '~' by {
                    if i >= ASSERTION_SCHEME@.len() {
                        assert(header@[i] == token@[i - ASSERTION_SCHEME@.len()]);
                    }
                }
            }
            Ok(header)
        },
    }
}

/// The timestamp that stands for a point in time in an assertion.
pub open spec fn timestamp_text(t: Instant) -> Seq<char> {
    time::rfc3339_text(t.secs, t.nanos, false)
}

/// The timestamp for the current time.
pub fn current_timestamp() -> (r: String)
    ensures
        exists|now: Instant| time::is_instant(now) && r@ == #[trigger] timestamp_text(now),
{
    let now = Timestamp::now();
    let r = now.to_rfc3339(Fraction::Omitted);
    assert(r@ == timestamp_text(now@));
    r
}

/// The header that proves at the current time that a request comes from the
/// owner of the key and is for the task.
pub fn authorization_header_for_agent_task(
    key: AgentIdentityKey<'_>,
    target: AgentTaskAuthorizationTarget<'_>,
) -> (r: Result<String, IdentityError>)
    ensures
        exists|now: Instant|
            time::is_instant(now) && is_header_for(
                r,
                key,
                target.agent_runtime_id@,
                target.task_id@,
                #[trigger] timestamp_text(now),
            ),
{
    let timestamp = current_timestamp();
    authorization_header_at(key, target, timestamp.as_str())
}

/// The header that proves at the current time that a request comes from the
/// owner of the key and is for the registered task.
pub fn authorization_header_for_registered_task(
    key: AgentIdentityKey<'_>,
    task: &RegisteredAgentTask,
) -> (r: Result<String, IdentityError>)
    ensures
        exists|now: Instant|
            time::is_instant(now) && is_header_for(
                r,
                key,
                task@.agent_runtime_id,
                task@.task_id,
                #[trigger] timestamp_text(now),
            ),
{
    authorization_header_for_agent_task(key, task.authorization_target())
}

} // verus!
