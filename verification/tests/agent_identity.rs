use base64::engine::general_purpose::STANDARD as BASE64_STANDARD;
use base64::engine::general_purpose::URL_SAFE_NO_PAD;
use base64::Engine as _;
use codex_support::identity::assertion::authorization_header_at;
use codex_support::identity::assertion::authorization_header_for_agent_task;
use codex_support::identity::assertion::authorization_header_for_registered_task;
use codex_support::identity::assertion::current_timestamp;
use codex_support::identity::assertion::sign_task_registration_payload;
use codex_support::identity::error::IdentityError;
use codex_support::identity::keys::clamp;
use codex_support::identity::keys::curve25519_secret_key_from_private_key_pkcs8_base64;
use codex_support::identity::keys::encode_ssh_ed25519_public_key;
use codex_support::identity::keys::generate_agent_key_material;
use codex_support::identity::keys::key_material_from_secret;
use codex_support::identity::keys::public_key_ssh_from_private_key_pkcs8_base64;
use codex_support::identity::keys::secret_from_private_key_pkcs8_base64;
use codex_support::identity::keys::verifying_key_from_private_key_pkcs8_base64;
use codex_support::identity::registration::agent_identity_request_id;
use codex_support::identity::registration::agent_registration_request;
use codex_support::identity::registration::biscuit_from_header;
use codex_support::identity::registration::biscuit_request;
use codex_support::identity::registration::build_abom;
use codex_support::identity::registration::decode_jwt_payload;
use codex_support::identity::registration::decrypt_task_id_response;
use codex_support::identity::registration::request_id_from_bytes;
use codex_support::identity::registration::task_id_from_plaintext;
use codex_support::identity::registration::task_id_from_register_task_response;
use codex_support::identity::registration::task_registration_request;
use codex_support::identity::registration::RegisterTaskResponse;
use codex_support::identity::registration::SessionSource;
use codex_support::identity::task::AgentIdentityKey;
use codex_support::identity::task::AgentRuntimeId;
use codex_support::identity::task::AgentTaskAuthorizationTarget;
use codex_support::identity::task::AgentTaskId;
use codex_support::identity::task::AgentTaskKind;
use codex_support::identity::task::RegisteredAgentTask;
use codex_support::identity::url::agent_identity_biscuit_url;
use codex_support::identity::url::agent_registration_url;
use codex_support::identity::url::agent_task_registration_url;
use codex_support::identity::url::normalize_chatgpt_base_url;
use ed25519_dalek::pkcs8::EncodePrivateKey as _;
use ed25519_dalek::Signature;
use ed25519_dalek::SigningKey;
use ed25519_dalek::Verifier as _;

fn private_key_text(signing_key: &SigningKey) -> String {
    let private_key = signing_key
        .to_pkcs8_der()
        .expect("encode test key material");
    BASE64_STANDARD.encode(private_key.as_bytes())
}

fn envelope_of(header: &str) -> serde_json::Value {
    let token = header
        .strip_prefix("AgentAssertion ")
        .expect("agent assertion scheme");
    let payload = URL_SAFE_NO_PAD
        .decode(token)
        .expect("valid base64url payload");
    serde_json::from_slice(&payload).expect("valid assertion envelope")
}

fn no_response() -> RegisterTaskResponse {
    RegisterTaskResponse {
        task_id: None,
        task_id_camel: None,
        encrypted_task_id: None,
        encrypted_task_id_camel: None,
    }
}

#[test]
fn registered_agent_task_builds_authorization_target() {
    let task = RegisteredAgentTask::new(
        "agent-runtime-123",
        "task-thread-456",
        AgentTaskKind::Thread,
    );

    assert_eq!(
        task.authorization_target(),
        AgentTaskAuthorizationTarget {
            agent_runtime_id: "agent-runtime-123",
            task_id: "task-thread-456",
        }
    );
}

#[test]
fn authorization_header_for_agent_task_serializes_signed_agent_assertion() {
    let signing_key = SigningKey::from_bytes(&[7u8; 32]);
    let private_key = private_key_text(&signing_key);
    let key = AgentIdentityKey {
        agent_runtime_id: "agent-123",
        private_key_pkcs8_base64: &private_key,
    };
    let target = AgentTaskAuthorizationTarget {
        agent_runtime_id: "agent-123",
        task_id: "task-123",
    };

    let header =
        authorization_header_for_agent_task(key, target).expect("build agent assertion header");
    let envelope = envelope_of(&header);

    assert_eq!(envelope.as_object().unwrap().len(), 4);
    assert_eq!(envelope["agent_runtime_id"], "agent-123");
    assert_eq!(envelope["task_id"], "task-123");
    let timestamp = envelope["timestamp"].as_str().unwrap();
    let signature_bytes = BASE64_STANDARD
        .decode(envelope["signature"].as_str().unwrap())
        .expect("valid base64 signature");
    let signature = Signature::from_slice(&signature_bytes).expect("valid signature bytes");
    signing_key
        .verifying_key()
        .verify(
            format!("{}:{}:{}", "agent-123", "task-123", timestamp).as_bytes(),
            &signature,
        )
        .expect("signature should verify");
}

#[test]
fn authorization_header_for_agent_task_rejects_mismatched_runtime() {
    let signing_key = SigningKey::from_bytes(&[7u8; 32]);
    let private_key_pkcs8_base64 = private_key_text(&signing_key);
    let key = AgentIdentityKey {
        agent_runtime_id: "agent-123",
        private_key_pkcs8_base64: &private_key_pkcs8_base64,
    };
    let target = AgentTaskAuthorizationTarget {
        agent_runtime_id: "agent-456",
        task_id: "task-123",
    };

    let error = authorization_header_for_agent_task(key, target)
        .expect_err("runtime mismatch should fail");

    assert_eq!(
        error.text(),
        "agent task runtime agent-456 does not match stored agent identity agent-123"
    );
}

#[test]
fn authorization_header_for_registered_task_uses_existing_wire_shape() {
    let signing_key = SigningKey::from_bytes(&[7u8; 32]);
    let private_key_pkcs8_base64 = private_key_text(&signing_key);
    let key = AgentIdentityKey {
        agent_runtime_id: "agent-123",
        private_key_pkcs8_base64: &private_key_pkcs8_base64,
    };
    let task = RegisteredAgentTask::new("agent-123", "task-123", AgentTaskKind::Background);

    let header = authorization_header_for_registered_task(key, &task)
        .expect("build registered task assertion header");
    let envelope = envelope_of(&header);

    assert_eq!(envelope.as_object().unwrap().len(), 4);
    assert_eq!(envelope["agent_runtime_id"], "agent-123");
    assert_eq!(envelope["task_id"], "task-123");
    assert!(envelope["timestamp"].is_string());
    assert!(envelope["signature"].is_string());
}

#[test]
fn decode_agent_identity_jwt_reads_claims() {
    let mut claims = serde_json::Map::new();
    for (name, value) in [
        ("agent_runtime_id", "agent-runtime-id"),
        ("agent_private_key", "private-key"),
        ("account_id", "account-id"),
        ("chatgpt_user_id", "user-id"),
        ("email", "user@example.com"),
        ("plan_type", "pro"),
    ] {
        claims.insert(name.to_string(), serde_json::Value::from(value));
    }
    claims.insert("chatgpt_account_is_fedramp".to_string(), serde_json::Value::from(false));
    let jwt = jwt_with_payload(&serde_json::Value::Object(claims.clone()));

    let payload = decode_jwt_payload(&jwt).expect("JWT should decode");

    let decoded: serde_json::Value = serde_json::from_slice(&payload).unwrap();
    assert_eq!(decoded, serde_json::Value::Object(claims));
}

fn jwt_with_payload(payload: &serde_json::Value) -> String {
    let encode = |bytes: &[u8]| URL_SAFE_NO_PAD.encode(bytes);
    let header_b64 = encode(br#"{"alg":"none","typ":"JWT"}"#);
    let payload_b64 = encode(&serde_json::to_vec(payload).expect("payload should serialize"));
    let signature_b64 = encode(b"sig");
    format!("{header_b64}.{payload_b64}.{signature_b64}")
}

#[test]
fn normalize_chatgpt_base_url_strips_codex_before_backend_api() {
    assert_eq!(
        normalize_chatgpt_base_url("https://chatgpt.com/codex"),
        "https://chatgpt.com/backend-api"
    );
}

#[test]
fn assertion_at_a_given_time() {
    let signing_key = SigningKey::from_bytes(&[7u8; 32]);
    let private_key = private_key_text(&signing_key);
    let key = AgentIdentityKey {
        agent_runtime_id: "agent \"1\"",
        private_key_pkcs8_base64: &private_key,
    };
    let target = AgentTaskAuthorizationTarget {
        agent_runtime_id: "agent \"1\"",
        task_id: "task-1",
    };
    let timestamp = "2024-02-29T12:34:56Z";
    let header = authorization_header_at(key, target, timestamp).unwrap();
    let payload = "agent \"1\":task-1:2024-02-29T12:34:56Z";
    let signature =
        BASE64_STANDARD.encode(ed25519_dalek::Signer::sign(&signing_key, payload.as_bytes()).to_bytes());
    let json = format!(
        "{{\"agent_runtime_id\":\"agent \\\"1\\\"\",\"signature\":\"{signature}\",\
         \"task_id\":\"task-1\",\"timestamp\":\"2024-02-29T12:34:56Z\"}}"
    );
    assert_eq!(header, format!("AgentAssertion {}", URL_SAFE_NO_PAD.encode(json)));
    assert!(header.chars().all(|c| (' '..='~').contains(&c)));
}

#[test]
fn current_timestamp_has_no_fraction() {
    let timestamp = current_timestamp();
    assert_eq!(timestamp.len(), "2024-02-29T12:34:56Z".len());
    assert!(timestamp.ends_with('Z'));
    assert!(chrono::DateTime::parse_from_rfc3339(&timestamp).is_ok());
}

#[test]
fn key_that_cannot_be_read_is_refused() {
    let not_base64 = AgentIdentityKey {
        agent_runtime_id: "a",
        private_key_pkcs8_base64: "?",
    };
    let not_pkcs8 = AgentIdentityKey {
        agent_runtime_id: "a",
        private_key_pkcs8_base64: "AAAA",
    };
    let target = AgentTaskAuthorizationTarget {
        agent_runtime_id: "a",
        task_id: "t",
    };
    assert_eq!(
        authorization_header_for_agent_task(not_base64, target),
        Err(IdentityError::KeyNotBase64)
    );
    assert_eq!(
        authorization_header_for_agent_task(not_pkcs8, target),
        Err(IdentityError::KeyNotPkcs8)
    );
    assert_eq!(
        sign_task_registration_payload(not_base64, "now"),
        Err(IdentityError::KeyNotBase64)
    );
    assert_eq!(decrypt_task_id_response(not_pkcs8, "AAAA"), Err(IdentityError::KeyNotPkcs8));
    assert_eq!(
        public_key_ssh_from_private_key_pkcs8_base64("?"),
        Err(IdentityError::KeyNotBase64)
    );
    assert_eq!(
        verifying_key_from_private_key_pkcs8_base64("AAAA"),
        Err(IdentityError::KeyNotPkcs8)
    );
    assert_eq!(
        curve25519_secret_key_from_private_key_pkcs8_base64("?"),
        Err(IdentityError::KeyNotBase64)
    );
}

#[test]
fn registration_is_signed() {
    let signing_key = SigningKey::from_bytes(&[9u8; 32]);
    let private_key = private_key_text(&signing_key);
    let key = AgentIdentityKey {
        agent_runtime_id: "agent-1",
        private_key_pkcs8_base64: &private_key,
    };
    let request = task_registration_request(key, "2024-02-29T12:34:56Z".to_string()).unwrap();
    assert_eq!(request.timestamp, "2024-02-29T12:34:56Z");
    let bytes = BASE64_STANDARD.decode(&request.signature).unwrap();
    signing_key
        .verifying_key()
        .verify(b"agent-1:2024-02-29T12:34:56Z", &Signature::from_slice(&bytes).unwrap())
        .unwrap();
    assert_eq!(
        task_registration_request(
            AgentIdentityKey {
                agent_runtime_id: "agent-1",
                private_key_pkcs8_base64: "?",
            },
            "now".to_string()
        ),
        Err(IdentityError::KeyNotBase64)
    );
}

#[test]
fn keys_of_a_secret_belong_together() {
    let secret = [7u8; 32];
    let signing_key = SigningKey::from_bytes(&secret);
    let material = key_material_from_secret(&secret).unwrap_or_else(|_| panic!("key material"));
    assert_eq!(material.private_key_pkcs8_base64, private_key_text(&signing_key));
    assert_eq!(
        secret_from_private_key_pkcs8_base64(&material.private_key_pkcs8_base64),
        Ok(secret)
    );
    assert_eq!(
        verifying_key_from_private_key_pkcs8_base64(&material.private_key_pkcs8_base64),
        Ok(signing_key.verifying_key().to_bytes())
    );
    assert_eq!(
        public_key_ssh_from_private_key_pkcs8_base64(&material.private_key_pkcs8_base64),
        Ok(material.public_key_ssh)
    );
}

#[test]
fn generated_keys_belong_together_and_differ() {
    let first = generate_agent_key_material().unwrap_or_else(|_| panic!("key material"));
    let second = generate_agent_key_material().unwrap_or_else(|_| panic!("key material"));
    assert_eq!(
        public_key_ssh_from_private_key_pkcs8_base64(&first.private_key_pkcs8_base64),
        Ok(first.public_key_ssh.clone())
    );
    assert_ne!(first.public_key_ssh, second.public_key_ssh);
}

#[test]
fn public_key_in_the_form_of_ssh() {
    let text = encode_ssh_ed25519_public_key(&[5u8; 32]);
    let blob = BASE64_STANDARD.decode(text.strip_prefix("ssh-ed25519 ").unwrap()).unwrap();
    let mut expected = vec![0, 0, 0, 11];
    expected.extend_from_slice(b"ssh-ed25519");
    expected.extend_from_slice(&[0, 0, 0, 32]);
    expected.extend_from_slice(&[5u8; 32]);
    assert_eq!(blob, expected);
}

#[test]
fn curve_key_is_clamped() {
    let key = clamp(&[255u8; 64]);
    assert_eq!(key[0], 248);
    assert_eq!(key[31], 127);
    assert!(key[1..31].iter().all(|b| *b == 255));
    let key = clamp(&[0u8; 64]);
    assert_eq!(key[0], 0);
    assert_eq!(key[31], 64);

    let secret = [7u8; 32];
    let private_key = private_key_text(&SigningKey::from_bytes(&secret));
    let curve_key = curve25519_secret_key_from_private_key_pkcs8_base64(&private_key).unwrap();
    let mut digest = [0u8; 64];
    digest.copy_from_slice(&<sha2::Sha512 as sha2::Digest>::digest(secret));
    assert_eq!(curve_key, clamp(&digest));
}

#[test]
fn encrypted_task_id_is_decrypted() {
    let private_key = private_key_text(&SigningKey::from_bytes(&[7u8; 32]));
    let key = AgentIdentityKey {
        agent_runtime_id: "agent-1",
        private_key_pkcs8_base64: &private_key,
    };
    let curve_key = curve25519_secret_key_from_private_key_pkcs8_base64(&private_key).unwrap();
    let public = crypto_box::SecretKey::from(curve_key).public_key();
    let sealed = public.seal(&mut crypto_box::aead::OsRng, b"task-1").unwrap();
    let encrypted = BASE64_STANDARD.encode(sealed);
    assert_eq!(decrypt_task_id_response(key, &encrypted), Ok("task-1".to_string()));

    let not_text = public.seal(&mut crypto_box::aead::OsRng, &[0xff, 0xfe]).unwrap();
    assert_eq!(
        decrypt_task_id_response(key, &BASE64_STANDARD.encode(not_text)),
        Err(IdentityError::TaskIdNotUtf8)
    );
    assert_eq!(
        decrypt_task_id_response(key, "not base64"),
        Err(IdentityError::TaskIdNotBase64)
    );
    assert_eq!(decrypt_task_id_response(key, "AAAA"), Err(IdentityError::TaskIdNotDecrypted));

    let mut response = no_response();
    response.encrypted_task_id_camel = Some(encrypted.clone());
    assert_eq!(
        task_id_from_register_task_response(key, response.clone()),
        Ok("task-1".to_string())
    );
    response.encrypted_task_id = Some("AAAA".to_string());
    assert_eq!(
        task_id_from_register_task_response(key, response.clone()),
        Err(IdentityError::TaskIdNotDecrypted)
    );
    response.task_id_camel = Some("clear".to_string());
    assert_eq!(
        task_id_from_register_task_response(key, response.clone()),
        Ok("clear".to_string())
    );
    response.task_id = Some("clearer".to_string());
    assert_eq!(task_id_from_register_task_response(key, response), Ok("clearer".to_string()));
    assert_eq!(
        task_id_from_register_task_response(key, no_response()),
        Err(IdentityError::TaskIdMissing)
    );
}

#[test]
fn plaintext_of_a_task_id() {
    assert_eq!(
        task_id_from_plaintext("t\u{e4}sk".as_bytes().to_vec()),
        Ok("t\u{e4}sk".to_string())
    );
    assert_eq!(task_id_from_plaintext(vec![0xc3]), Err(IdentityError::TaskIdNotUtf8));
}

#[test]
fn request_ids_are_random() {
    assert_eq!(
        request_id_from_bytes(&[0, 16, 131, 16, 81, 135, 32, 146, 139, 48, 211, 143, 65, 20, 147, 81]),
        "codex-agent-identity-ABCDEFGHIJKLMNOPQRSTUQ"
    );
    let first = agent_identity_request_id().unwrap();
    let second = agent_identity_request_id().unwrap();
    assert_ne!(first, second);
    let token = first.strip_prefix("codex-agent-identity-").unwrap();
    assert_eq!(URL_SAFE_NO_PAD.decode(token).unwrap().len(), 16);
}

#[test]
fn addresses_of_the_services() {
    assert_eq!(agent_registration_url("https://x/api//"), "https://x/api/v1/agent/register");
    assert_eq!(
        agent_task_registration_url("https://x/api", "agent-1"),
        "https://x/api/v1/agent/agent-1/task/register"
    );
    assert_eq!(agent_identity_biscuit_url("https://x/api/"), "https://x/api/authenticate_app_v2");
}

#[test]
fn addresses_are_normalized() {
    for (configured, normalized) in [
        ("https://chatgpt.com", "https://chatgpt.com/backend-api"),
        ("https://chatgpt.com//", "https://chatgpt.com/backend-api"),
        ("https://chat.openai.com/codex/", "https://chat.openai.com/backend-api"),
        ("https://chatgpt.com/backend-api", "https://chatgpt.com/backend-api"),
        ("https://chatgpt.com/backend-api/codex", "https://chatgpt.com/backend-api"),
        (
            "https://chatgpt.com/backend-api/wham/remote/control/server/enroll",
            "https://chatgpt.com/backend-api",
        ),
        ("https://chatgpt.com/codex/wham/remote/control/server", "https://chatgpt.com/backend-api"),
        ("https://example.com/codex", "https://example.com"),
        ("https://example.com", "https://example.com"),
        ("https://example.com/codex/codex", "https://example.com/codex"),
    ] {
        assert_eq!(normalize_chatgpt_base_url(configured), normalized);
    }
}

#[test]
fn biscuit_is_asked_for() {
    let request = biscuit_request("https://x/api/", "id-1".to_string());
    assert_eq!(request.url, "https://x/api/authenticate_app_v2");
    assert_eq!(request.request_id, "id-1");
    assert_eq!(request.original_method, "POST");
    assert_eq!(request.original_url, "https://x/api/v1/agent/register");
}

#[test]
fn biscuit_is_taken_from_its_header() {
    assert_eq!(biscuit_from_header(Some(b"abc\tdef ~".as_slice())), Ok("abc\tdef ~".to_string()));
    assert_eq!(biscuit_from_header(Some(b"".as_slice())), Ok(String::new()));
    assert_eq!(biscuit_from_header(None), Err(IdentityError::BiscuitMissing));
    for bytes in [[0xc3u8, 0xa4].as_slice(), [127u8].as_slice(), [10u8].as_slice()] {
        assert_eq!(biscuit_from_header(Some(bytes)), Err(IdentityError::BiscuitNotText));
        assert!(
            http::HeaderValue::from_bytes(bytes)
                .map(|value| value.to_str().is_err())
                .unwrap_or(true)
        );
    }
}

#[test]
fn agent_is_registered_without_capabilities() {
    let material = key_material_from_secret(&[1u8; 32]).unwrap_or_else(|_| panic!("key material"));
    let abom = build_abom(SessionSource::Exec, "exec", "1.2.3", "linux");
    let request = agent_registration_request(&material, abom.clone());
    assert_eq!(request.abom, abom);
    assert_eq!(request.agent_public_key, material.public_key_ssh);
    assert!(request.capabilities.is_empty());
}

#[test]
fn bill_of_materials() {
    let abom = build_abom(SessionSource::VSCode, "vscode", "1.2.3", "macos");
    assert_eq!(abom.agent_version, "1.2.3");
    assert_eq!(abom.agent_harness_id, "codex-app");
    assert_eq!(abom.running_location, "vscode-macos");
    for source in [
        SessionSource::Cli,
        SessionSource::Exec,
        SessionSource::Mcp,
        SessionSource::Custom,
        SessionSource::SubAgent,
        SessionSource::Unknown,
    ] {
        assert_eq!(build_abom(source, "x", "v", "os").agent_harness_id, "codex-cli");
    }
}

#[test]
fn jwt_needs_three_parts() {
    for jwt in ["", "a.b", ".YQ.c", "a..c", "a.YQ."] {
        assert_eq!(decode_jwt_payload(jwt), Err(IdentityError::JwtFormat));
    }
    assert_eq!(decode_jwt_payload("a.YQ.c"), Ok(b"a".to_vec()));
    assert_eq!(decode_jwt_payload("a.YQ.c.d"), Ok(b"a".to_vec()));
    assert_eq!(decode_jwt_payload("a.YQ==.c"), Err(IdentityError::JwtNotBase64Url));
}

#[test]
fn ids_hold_their_text() {
    assert_eq!(AgentRuntimeId::new("a").as_str(), "a");
    assert_eq!(AgentRuntimeId::new("a".to_string()).into_string(), "a");
    assert_eq!(AgentRuntimeId::from("a"), AgentRuntimeId::from("a".to_string()));
    assert_eq!(AgentTaskId::new("t").as_str(), "t");
    assert_eq!(AgentTaskId::new("t".to_string()).into_string(), "t");
    assert_eq!(AgentTaskId::from("t"), AgentTaskId::from("t".to_string()));
    let task = RegisteredAgentTask::new(
        AgentRuntimeId::new("a"),
        AgentTaskId::new("t"),
        AgentTaskKind::Thread,
    );
    assert_eq!(task, RegisteredAgentTask::new("a".to_string(), "t".to_string(), AgentTaskKind::Thread));
    assert_eq!(task.copy(), task);
}

#[test]
fn errors_in_words() {
    for (error, text) in [
        (IdentityError::KeyNotBase64, "stored agent identity private key is not valid base64"),
        (IdentityError::KeyNotPkcs8, "stored agent identity private key is not valid PKCS#8"),
        (IdentityError::NoKeyBytes, "failed to generate agent identity private key bytes"),
        (IdentityError::KeyNotEncoded, "failed to encode agent identity private key as PKCS#8"),
        (IdentityError::NoRequestIdBytes, "failed to generate agent identity request id"),
        (IdentityError::TaskIdMissing, "agent task registration response omitted task id"),
        (IdentityError::TaskIdNotBase64, "encrypted task id is not valid base64"),
        (IdentityError::TaskIdNotDecrypted, "failed to decrypt encrypted task id"),
        (IdentityError::TaskIdNotUtf8, "decrypted task id is not valid UTF-8"),
        (IdentityError::JwtFormat, "invalid JWT format"),
        (IdentityError::JwtNotBase64Url, "JWT payload is not valid base64url"),
        (
            IdentityError::BiscuitMissing,
            "agent identity biscuit response did not include x-openai-authorization",
        ),
        (
            IdentityError::BiscuitNotText,
            "agent identity biscuit response header was not valid UTF-8",
        ),
    ] {
        assert_eq!(error.text(), text);
    }
}
