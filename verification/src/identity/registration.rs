//! The registration of agent identities and of their tasks.

use vstd::prelude::*;
use vstd::string::*;

use crate::identity::assertion;
use crate::identity::crypto;
use crate::identity::error;
use crate::identity::error::IdentityError;
use crate::identity::error::IdentityErrorView;
use crate::identity::keys;
use crate::identity::keys::GeneratedAgentKeyMaterial;
use crate::identity::task::AgentIdentityKey;
use crate::identity::url;
use crate::text;

verus! {

/// What an agent is made of.
#[derive(Clone, Debug, PartialEq, Eq)]
pub struct AgentBillOfMaterials {
    pub agent_version: String,
    pub agent_harness_id: String,
    pub running_location: String,
}

/// Where a session comes from.
#[derive(Clone, Copy, Debug, PartialEq, Eq)]
pub enum SessionSource {
    Cli,
    VSCode,
    Exec,
    Mcp,
    Custom,
    SubAgent,
    Unknown,
}

/// The request that registers a task.
#[derive(Clone, Debug, PartialEq, Eq)]
pub struct RegisterTaskRequest {
    pub timestamp: String,
    pub signature: String,
}

/// The answer to the registration of a task.
#[derive(Clone, Debug, PartialEq, Eq)]
pub struct RegisterTaskResponse {
    pub task_id: Option<String>,
    pub task_id_camel: Option<String>,
    pub encrypted_task_id: Option<String>,
    pub encrypted_task_id_camel: Option<String>,
}

/// The request that registers an agent identity.
#[derive(Clone, Debug, PartialEq, Eq)]
pub struct RegisterAgentRequest {
    pub abom: AgentBillOfMaterials,
    pub agent_public_key: String,
    pub capabilities: Vec<String>,
}

/// The request for the biscuit that a registration needs.
#[derive(Clone, Debug, PartialEq, Eq)]
pub struct BiscuitRequest {
    pub url: String,
    pub request_id: String,
    pub original_method: String,
    pub original_url: String,
}

/// The first of two optional texts that is there.
pub open spec fn first_of(a: Option<String>, b: Option<String>) -> Option<String> {
    match a {
        Some(x) => Some(x),
        None => b,
    }
}

/// The text in a sealed box for the owner of a stored private key, which is
/// in base64, or why there is none.
pub open spec fn decrypted(private_key: Seq<char>, encrypted: Seq<char>) -> Result<
    Seq<char>,
    IdentityErrorView,
> {
    match keys::stored_secret(private_key) {
        Err(error) => Err(error),
        Ok(secret) => match crypto::base64_bytes(encrypted) {
            None => Err(IdentityErrorView::TaskIdNotBase64),
            Some(sealed) => match crypto::unsealed(keys::curve25519_secret(secret), sealed) {
                None => Err(IdentityErrorView::TaskIdNotDecrypted),
                Some(bytes) => if vstd::utf8::valid_utf8(bytes) {
                    Ok(vstd::utf8::decode_utf8(bytes))
                } else {
                    Err(IdentityErrorView::TaskIdNotUtf8)
                },
            },
        },
    }
}

/// The task that the answer to a registration names, or why it names none. A
/// task in clear text comes before an encrypted one.
pub open spec fn registered_task(private_key: Seq<char>, response: RegisterTaskResponse) -> Result<
    Seq<char>,
    IdentityErrorView,
> {
    match first_of(response.task_id, response.task_id_camel) {
        Some(task_id) => Ok(task_id@),
        None => match first_of(response.encrypted_task_id, response.encrypted_task_id_camel) {
            Some(encrypted) => decrypted(private_key, encrypted@),
            None => Err(IdentityErrorView::TaskIdMissing),
        },
    }
}

/// The text that decrypted bytes hold.
pub fn task_id_from_plaintext(plaintext: Vec<u8>) -> (r: Result<String, IdentityError>)
    ensures
        match r {
            Ok(task_id) => vstd::utf8::valid_utf8(plaintext@) && task_id@
                == vstd::utf8::decode_utf8(plaintext@),
            Err(error) => !vstd::utf8::valid_utf8(plaintext@) && error@
                == IdentityErrorView::TaskIdNotUtf8,
        },
{
    match String::from_utf8(plaintext) {
        Ok(task_id) => Ok(task_id),
        Err(_) => Err(IdentityError::TaskIdNotUtf8),
    }
}

/// Decrypts the ID of a task that was encrypted for the owner of the key.
pub fn decrypt_task_id_response(key: AgentIdentityKey<'_>, encrypted_task_id: &str) -> (r: Result<
    String,
    IdentityError,
>)
    ensures
        error::text_outcome(r) == decrypted(key.private_key_pkcs8_base64@, encrypted_task_id@),
{
    let secret = match keys::secret_from_private_key_pkcs8_base64(key.private_key_pkcs8_base64) {
        Err(error) => return Err(error),
        Ok(secret) => secret,
    };
    let ciphertext = match crypto::decode_base64(encrypted_task_id) {
        Err(_) => return Err(IdentityError::TaskIdNotBase64),
        Ok(ciphertext) => ciphertext,
    };
    let curve_secret = keys::curve25519_secret_key_from_secret(&secret);
    match crypto::unseal(&curve_secret, ciphertext.as_slice()) {
        Err(_) => Err(IdentityError::TaskIdNotDecrypted),
        Ok(plaintext) => task_id_from_plaintext(plaintext),
    }
}

/// The task that the answer to a registration names.
pub fn task_id_from_register_task_response(
    key: AgentIdentityKey<'_>,
    response: RegisterTaskResponse,
) -> (r: Result<String, IdentityError>)
    ensures
        error::text_outcome(r) == registered_task(key.private_key_pkcs8_base64@, response),
{
    if let Some(task_id) = response.task_id {
        return Ok(task_id);
    }
    if let Some(task_id) = response.task_id_camel {
        return Ok(task_id);
    }
    if let Some(encrypted) = response.encrypted_task_id {
        return decrypt_task_id_response(key, encrypted.as_str());
    }
    if let Some(encrypted) = response.encrypted_task_id_camel {
        return decrypt_task_id_response(key, encrypted.as_str());
    }
    Err(IdentityError::TaskIdMissing)
}

/// The request that registers a task at the given time.
pub fn task_registration_request(key: AgentIdentityKey<'_>, timestamp: String) -> (r: Result<
    RegisterTaskRequest,
    IdentityError,
>)
    ensures
        match r {
            Ok(request) => request.timestamp@ == timestamp@ && assertion::signing_result(
                key.private_key_pkcs8_base64@,
                assertion::registration_payload(key.agent_runtime_id@, timestamp@),
            ) == Ok::<Seq<char>, IdentityErrorView>(request.signature@),
            Err(error) => assertion::signing_result(
                key.private_key_pkcs8_base64@,
                assertion::registration_payload(key.agent_runtime_id@, timestamp@),
            ) == Err::<Seq<char>, IdentityErrorView>(error@),
        },
{
    match assertion::sign_task_registration_payload(key, timestamp.as_str()) {
        Err(error) => Err(error),
        Ok(signature) => Ok(RegisterTaskRequest { timestamp, signature }),
    }
}

/// The request that registers an agent identity with the given public key. It
/// asks for no capabilities.
pub fn agent_registration_request(
    key_material: &GeneratedAgentKeyMaterial,
    abom: AgentBillOfMaterials,
) -> (r: RegisterAgentRequest)
    ensures
        r.abom == abom,
        r.agent_public_key@ == key_material.public_key_ssh@,
        r.capabilities@ == Seq::<String>::empty(),
{
    RegisterAgentRequest {
        abom,
        agent_public_key: key_material.public_key_ssh.clone(),
        capabilities: Vec::new(),
    }
}

/// The ID of a request, made of random bytes.
pub open spec fn request_id(bytes: Seq<u8>) -> Seq<char> {
    "codex-agent-identity-"@ + crypto::base64url_text(bytes)
}

/// The ID of a request, made of the given bytes.
pub fn request_id_from_bytes(bytes: &[u8]) -> (r: String)
    ensures
        r@ == request_id(bytes@),
{
    text::concat("codex-agent-identity-", crypto::encode_base64url(bytes).as_str())
}

/// The ID of a request: 16 random bytes.
pub fn agent_identity_request_id() -> (r: Result<String, IdentityError>)
    ensures
        match r {
            Ok(id) => exists|bytes: Seq<u8>| bytes.len() == 16 && id@ == #[trigger] request_id(bytes),
            Err(error) => error@ == IdentityErrorView::NoRequestIdBytes,
        },
{
    match crypto::random_bytes(16) {
        Err(_) => Err(IdentityError::NoRequestIdBytes),
        Ok(bytes) => Ok(request_id_from_bytes(bytes.as_slice())),
    }
}

/// The request for the biscuit that the registration of an agent identity
/// needs, which is a post to the address of the registration.
pub fn biscuit_request(chatgpt_base_url: &str, request_id: String) -> (r: BiscuitRequest)
    ensures
        r.url@ == url::without_slashes(chatgpt_base_url@) + "/authenticate_app_v2"@,
        r.request_id == request_id,
        r.original_method@ == "POST"@,
        r.original_url@ == url::without_slashes(chatgpt_base_url@) + "/v1/agent/register"@,
{
    BiscuitRequest {
        url: url::agent_identity_biscuit_url(chatgpt_base_url),
        request_id,
        original_method: "POST".to_owned(),
        original_url: url::agent_registration_url(chatgpt_base_url),
    }
}

/// The byte is a visible character of ASCII, a space or a tab.
pub open spec fn is_visible_ascii(b: u8) -> bool {
    (32 <= b < 127) || b == 9
}

/// The bytes as characters of ASCII.
pub open spec fn ascii_text(bytes: Seq<u8>) -> Seq<char> {
    bytes.map_values(|b: u8| b as char)
}

/// The biscuit in the header of an answer, or why there is none.
pub open spec fn biscuit_in(header: Option<Seq<u8>>) -> Result<Seq<char>, IdentityErrorView> {
    match header {
        None => Err(IdentityErrorView::BiscuitMissing),
        Some(bytes) => if forall|i: int|
            0 <= i < bytes.len() ==> is_visible_ascii(#[trigger] bytes[i]) {
            Ok(ascii_text(bytes))
        } else {
            Err(IdentityErrorView::BiscuitNotText)
        },
    }
}

/// The biscuit in the header of an answer.
pub fn biscuit_from_header(header: Option<&[u8]>) -> (r: Result<String, IdentityError>)
    ensures
        error::text_outcome(r) == biscuit_in(
            match header {
                Some(bytes) => Some(bytes@),
                None => None,
            },
        ),
{
    let bytes = match header {
        None => return Err(IdentityError::BiscuitMissing),
        Some(bytes) => bytes,
    };
    let mut biscuit = String::new();
    let mut i: usize = 0;
    assert(ascii_text(bytes@.take(0)) =~= biscuit@);
    while i < bytes.len()
        invariant
            i <= bytes@.len(),
            header == Some(bytes),
            forall|j: int| 0 <= j < i ==> is_visible_ascii(#[trigger] bytes@[j]),
            biscuit@ == ascii_text(bytes@.take(i as int)),
        decreases bytes.len() - i,
    {
        let b: u8 = bytes[i];
        if !((32 <= b && b < 127) || b == 9) {
            assert(!is_visible_ascii(bytes@[i as int]));
            return Err(IdentityError::BiscuitNotText);
        }
        biscuit.push(b as char);
        assert(ascii_text(bytes@.take(i + 1)) =~= ascii_text(bytes@.take(i as int)).push(
            b as char,
        ));
        i = i + 1;
    }
    assert(bytes@.take(i as int) =~= bytes@);
    Ok(biscuit)
}

/// The harness that runs an agent for a session.
pub open spec fn harness_id(source: SessionSource) -> Seq<char> {
    match source {
        SessionSource::VSCode => "codex-app"@,
        _ => "codex-cli"@,
    }
}

/// What an agent is made of: its version, the harness for the source of the
/// session, and where it runs, which is the name of the source and the name of
/// the operating system.
pub fn build_abom(
    session_source: SessionSource,
    source_name: &str,
    agent_version: &str,
    operating_system: &str,
) -> (r: AgentBillOfMaterials)
    ensures
        r.agent_version@ == agent_version@,
        r.agent_harness_id@ == harness_id(session_source),
        r.running_location@ == source_name@ + "-"@ + operating_system@,
{
    let mut running_location = source_name.to_owned();
    running_location.append("-");
    running_location.append(operating_system);
    AgentBillOfMaterials {
        agent_version: agent_version.to_owned(),
        agent_harness_id: match session_source {
            SessionSource::VSCode => "codex-app".to_owned(),
            SessionSource::Cli
            | SessionSource::Exec
            | SessionSource::Mcp
            | SessionSource::Custom
            | SessionSource::SubAgent
            | SessionSource::Unknown => "codex-cli".to_owned(),
        },
        running_location,
    }
}

/// The payload of a JWT in base64url: the second of its parts, of which the
/// first three must not be empty.
pub open spec fn jwt_payload_part(jwt: Seq<char>) -> Option<Seq<char>> {
    let parts = text::split_on(jwt, '.');
    if parts.len() >= 3 && parts[0].len() > 0 && parts[1].len() > 0 && parts[2].len() > 0 {
        Some(parts[1])
    } else {
        None
    }
}

/// The payload of a JWT, or why there is none.
pub open spec fn jwt_payload(jwt: Seq<char>) -> Result<Seq<u8>, IdentityErrorView> {
    match jwt_payload_part(jwt) {
        None => Err(IdentityErrorView::JwtFormat),
        Some(part) => match crypto::base64url_bytes(part) {
            None => Err(IdentityErrorView::JwtNotBase64Url),
            Some(bytes) => Ok(bytes),
        },
    }
}

/// The payload of a JWT, which is the JSON of its claims.
pub fn decode_jwt_payload(jwt: &str) -> (r: Result<Vec<u8>, IdentityError>)
    ensures
        match r {
            Ok(bytes) => jwt_payload(jwt@) == Ok::<Seq<u8>, IdentityErrorView>(bytes@),
            Err(error) => jwt_payload(jwt@) == Err::<Seq<u8>, IdentityErrorView>(error@),
        },
{
    let parts = text::split(jwt, '.');
    assert(text::texts(parts@).len() == parts@.len());
    if parts.len() < 3 {
        return Err(IdentityError::JwtFormat);
    }
    assert(text::texts(parts@)[0] == parts@[0]@);
    assert(text::texts(parts@)[1] == parts@[1]@);
    assert(text::texts(parts@)[2] == parts@[2]@);
    if parts[0].as_str().is_empty() || parts[1].as_str().is_empty() || parts[2].as_str().is_empty() {
        return Err(IdentityError::JwtFormat);
    }
    match crypto::decode_base64url(parts[1].as_str()) {
        Err(_) => Err(IdentityError::JwtNotBase64Url),
        Ok(bytes) => Ok(bytes),
    }
}

} // verus!
