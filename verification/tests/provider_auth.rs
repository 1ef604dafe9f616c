use codex_support::auth::identity::registration_base_url;
use codex_support::auth::identity::AgentIdentityAuth;
use codex_support::auth::identity::AgentIdentityAuthRecord;
use codex_support::auth::identity::PlanType;
use codex_support::auth::identity::TaskStep;
use codex_support::auth::provider::auth_manager_for_provider;
use codex_support::auth::provider::auth_provider_from_agent_task;
use codex_support::auth::provider::auth_provider_from_auth;
use codex_support::auth::provider::background_auth_provider_from_agent_identity_auth;
use codex_support::auth::provider::background_auth_provider_from_auth;
use codex_support::auth::provider::bearer_auth_for_provider;
use codex_support::auth::provider::provider_uses_first_party_auth_path;
use codex_support::auth::provider::resolve_provider_auth;
use codex_support::auth::provider::unauthenticated_auth_provider;
use codex_support::auth::provider::AgentIdentityAuthProvider;
use codex_support::auth::provider::AgentTaskAuth;
use codex_support::auth::provider::BackgroundStep;
use codex_support::auth::provider::BearerAuthProvider;
use codex_support::auth::provider::CodexAuth;
use codex_support::auth::provider::ModelProviderInfo;
use codex_support::auth::provider::ProviderError;
use codex_support::auth::provider::SharedAuthProvider;
use codex_support::auth::provider::TokenSource;
use codex_support::identity::error::IdentityError;
use codex_support::identity::keys::generate_agent_key_material;
use codex_support::identity::task::AgentRuntimeId;
use codex_support::identity::task::AgentTaskId;
use codex_support::identity::task::AgentTaskKind;
use codex_support::identity::task::RegisteredAgentTask;

fn record(private_key: &str, is_fedramp: bool) -> AgentIdentityAuthRecord {
    AgentIdentityAuthRecord {
        agent_runtime_id: "agent-runtime-1".to_string(),
        agent_private_key: private_key.to_string(),
        account_id: "account-1".to_string(),
        chatgpt_user_id: "user-1".to_string(),
        email: "agent@example.com".to_string(),
        plan_type: PlanType::Plus,
        chatgpt_account_is_fedramp: is_fedramp,
        registered_at: None,
    }
}

fn new_private_key() -> String {
    generate_agent_key_material()
        .unwrap_or_else(|_| panic!("generate key material"))
        .private_key_pkcs8_base64
}

fn oss_provider() -> ModelProviderInfo {
    ModelProviderInfo {
        requires_openai_auth: false,
        env_key: None,
        experimental_bearer_token: None,
        has_command_auth: false,
        has_aws_auth: false,
    }
}

fn openai_provider() -> ModelProviderInfo {
    ModelProviderInfo {
        requires_openai_auth: true,
        ..oss_provider()
    }
}

fn identity_provider(provider: SharedAuthProvider) -> AgentIdentityAuthProvider {
    match provider {
        SharedAuthProvider::AgentIdentity(provider) => provider,
        _ => panic!("not an agent identity"),
    }
}

fn bearer_provider(provider: SharedAuthProvider) -> BearerAuthProvider {
    match provider {
        SharedAuthProvider::Bearer(provider) => provider,
        _ => panic!("not a bearer token"),
    }
}

fn text_of<'a>(headers: &'a http::HeaderMap, name: &str) -> Option<&'a str> {
    headers.get(name).and_then(|value| value.to_str().ok())
}

#[test]
fn unauthenticated_auth_provider_adds_no_headers() {
    let provider = oss_provider();
    let auth = resolve_provider_auth(
        /*auth*/ None,
        &provider,
        /*agent_task_auth*/ None,
        /*api_key*/ None,
    );

    match auth {
        SharedAuthProvider::Unauthenticated(auth) => assert!(auth.to_auth_headers().is_empty()),
        _ => panic!("auth should resolve"),
    }
}

#[test]
fn agent_task_auth_provider_preserves_account_routing_headers() {
    let auth = AgentIdentityAuth::new(record(&new_private_key(), true));
    let provider = identity_provider(auth_provider_from_agent_task(
        auth,
        RegisteredAgentTask::new(
            AgentRuntimeId::new("agent-runtime-1"),
            AgentTaskId::new("background-task-1"),
            AgentTaskKind::Background,
        ),
    ));

    let headers = provider.to_auth_headers();

    assert!(
        headers
            .get(http::header::AUTHORIZATION)
            .and_then(|value| value.to_str().ok())
            .is_some_and(|value| value.starts_with("AgentAssertion "))
    );
    assert_eq!(
        headers
            .get("ChatGPT-Account-ID")
            .and_then(|value| value.to_str().ok()),
        Some("account-1")
    );
    assert_eq!(
        headers
            .get("X-OpenAI-Fedramp")
            .and_then(|value| value.to_str().ok()),
        Some("true")
    );
}

#[test]
fn provider_auth_ignores_agent_task_for_non_openai_provider() {
    let auth = AgentIdentityAuth::new(record(&new_private_key(), false));
    let task_auth = AgentTaskAuth::new(
        auth,
        RegisteredAgentTask::new(
            AgentRuntimeId::new("agent-runtime-1"),
            AgentTaskId::new("thread-task-1"),
            AgentTaskKind::Thread,
        ),
    );
    let provider = oss_provider();

    let auth = resolve_provider_auth(
        /*auth*/ None,
        &provider,
        /*agent_task_auth*/ Some(task_auth),
        /*api_key*/ None,
    );

    match auth {
        SharedAuthProvider::Unauthenticated(auth) => assert!(auth.to_auth_headers().is_empty()),
        _ => panic!("auth should resolve"),
    }
}

#[test]
fn first_party_auth_path_excludes_provider_specific_auth() {
    let mut env_key_provider = openai_provider();
    env_key_provider.env_key = Some("OPENAI_API_KEY".to_string());
    assert!(!provider_uses_first_party_auth_path(&env_key_provider));

    let bedrock_provider = ModelProviderInfo {
        has_aws_auth: true,
        ..oss_provider()
    };
    assert!(!provider_uses_first_party_auth_path(&bedrock_provider));
}

#[test]
fn first_party_auth_path_takes_nothing_else() {
    assert!(provider_uses_first_party_auth_path(&openai_provider()));
    assert!(!provider_uses_first_party_auth_path(&oss_provider()));
    assert!(!provider_uses_first_party_auth_path(&ModelProviderInfo {
        experimental_bearer_token: Some("t".to_string()),
        ..openai_provider()
    }));
    assert!(!provider_uses_first_party_auth_path(&ModelProviderInfo {
        has_command_auth: true,
        ..openai_provider()
    }));
    assert!(!provider_uses_first_party_auth_path(&ModelProviderInfo {
        has_aws_auth: true,
        ..openai_provider()
    }));
}

#[test]
fn agent_task_is_used_for_the_first_party() {
    let auth = AgentIdentityAuth::new(record(&new_private_key(), false));
    let task = RegisteredAgentTask::new("agent-runtime-1", "thread-task-1", AgentTaskKind::Thread);
    let task_auth = AgentTaskAuth::new(auth, task.copy());
    assert_eq!(task_auth.task(), &task);
    assert_eq!(task_auth.auth().account_id(), "account-1");
    let provider = identity_provider(resolve_provider_auth(
        None,
        &openai_provider(),
        Some(task_auth),
        None,
    ));
    assert!(text_of(&provider.to_auth_headers(), "authorization").is_some());
}

#[test]
fn own_token_of_a_provider_comes_first() {
    let info = ModelProviderInfo {
        experimental_bearer_token: Some("configured".to_string()),
        ..openai_provider()
    };
    let token = |key: Option<&str>| {
        bearer_provider(resolve_provider_auth(None, &info, None, key.map(str::to_string))).token
    };
    assert_eq!(token(Some("from environment")), Some("from environment".to_string()));
    assert_eq!(token(None), Some("configured".to_string()));
    assert_eq!(
        bearer_auth_for_provider(&info, None),
        Some(BearerAuthProvider::new("configured".to_string()))
    );
    assert_eq!(bearer_auth_for_provider(&openai_provider(), None), None);
}

#[test]
fn provider_tells_its_task() {
    let auth = AgentIdentityAuth::new(record(&new_private_key(), false));
    let login = CodexAuth::AgentIdentity(auth.copy());
    assert!(identity_provider(auth_provider_from_auth(&login)).task().is_none());
    let task = RegisteredAgentTask::new(
        AgentRuntimeId::new("agent-runtime-1"),
        AgentTaskId::new("task-1"),
        AgentTaskKind::Background,
    );
    let provider = identity_provider(auth_provider_from_agent_task(auth, task.clone()));
    assert_eq!(provider.task(), Some(&task));
}

#[test]
fn login_authenticates_otherwise() {
    let bearer = BearerAuthProvider {
        token: Some("token".to_string()),
        account_id: Some("account".to_string()),
        is_fedramp_account: true,
    };
    for auth in [
        CodexAuth::ApiKey(bearer.clone()),
        CodexAuth::Chatgpt(bearer.clone()),
        CodexAuth::ChatgptAuthTokens(bearer.clone()),
    ] {
        assert_eq!(bearer_provider(auth_provider_from_auth(&auth)), bearer);
        assert_eq!(
            bearer_provider(resolve_provider_auth(Some(&auth), &openai_provider(), None, None)),
            bearer
        );
        match background_auth_provider_from_auth(&auth, None) {
            BackgroundStep::Ready(provider) => assert_eq!(bearer_provider(provider), bearer),
            BackgroundStep::Register { .. } => panic!("nothing to register"),
        }
    }
    match unauthenticated_auth_provider() {
        SharedAuthProvider::Unauthenticated(_) => {}
        _ => panic!("authenticated"),
    }
}

#[test]
fn command_of_a_provider_gives_its_tokens() {
    assert_eq!(auth_manager_for_provider(&openai_provider()), TokenSource::Login);
    assert_eq!(
        auth_manager_for_provider(&ModelProviderInfo {
            has_command_auth: true,
            ..openai_provider()
        }),
        TokenSource::Command
    );
}

#[test]
fn task_of_the_process_is_used_without_another() {
    let mut auth = AgentIdentityAuth::new(record(&new_private_key(), false));
    let provider = identity_provider(auth_provider_from_auth(&CodexAuth::AgentIdentity(auth.copy())));
    assert_eq!(provider.authorization_at("now"), Err(ProviderError::ProcessTaskMissing));
    let headers = provider.to_auth_headers();
    assert_eq!(text_of(&headers, "authorization"), None);
    assert_eq!(text_of(&headers, "chatgpt-account-id"), Some("account-1"));
    assert_eq!(text_of(&headers, "x-openai-fedramp"), None);

    auth.set_process_task("process-task".to_string());
    let provider = identity_provider(auth_provider_from_auth(&CodexAuth::AgentIdentity(auth)));
    assert!(provider.authorization_at("now").is_ok());
    assert_eq!(provider.to_auth_headers().len(), 2);
}

#[test]
fn headers_stay_where_the_identity_cannot_be_used() {
    let auth = AgentIdentityAuth::new(record("no key", true));
    let task = RegisteredAgentTask::new("agent-runtime-1", "task-1", AgentTaskKind::Thread);
    let provider = identity_provider(auth_provider_from_agent_task(auth, task));
    assert_eq!(
        provider.authorization_at("now"),
        Err(ProviderError::Identity(IdentityError::KeyNotBase64))
    );
    let mut headers = http::HeaderMap::new();
    headers.insert("authorization", http::HeaderValue::from_static("before"));
    headers.append("chatgpt-account-id", http::HeaderValue::from_static("one"));
    headers.append("chatgpt-account-id", http::HeaderValue::from_static("two"));
    headers.insert("x-other", http::HeaderValue::from_static("other"));
    provider.add_auth_headers(&mut headers);
    assert_eq!(text_of(&headers, "authorization"), Some("before"));
    let accounts: Vec<&http::HeaderValue> = headers.get_all("chatgpt-account-id").iter().collect();
    assert_eq!(accounts, vec!["account-1"]);
    assert_eq!(text_of(&headers, "x-openai-fedramp"), Some("true"));
    assert_eq!(text_of(&headers, "x-other"), Some("other"));
    assert_eq!(headers.len(), 4);

    let foreign = RegisteredAgentTask::new("other-runtime", "task-1", AgentTaskKind::Thread);
    let auth = AgentIdentityAuth::new(record("no key", true));
    let provider = identity_provider(auth_provider_from_agent_task(auth, foreign));
    assert_eq!(
        provider.authorization_at("now").unwrap_err().text(),
        "agent task runtime other-runtime does not match stored agent identity agent-runtime-1"
    );
}

#[test]
fn account_that_is_no_header_text_is_left_out() {
    let mut bad = record("no key", false);
    bad.account_id = "two\nlines".to_string();
    let task = RegisteredAgentTask::new("agent-runtime-1", "task-1", AgentTaskKind::Thread);
    let provider = identity_provider(auth_provider_from_agent_task(
        AgentIdentityAuth::new(bad),
        task.copy(),
    ));
    assert!(provider.to_auth_headers().is_empty());

    let mut beyond_ascii = record("no key", false);
    beyond_ascii.account_id = "caf\u{e9}\t".to_string();
    let provider = identity_provider(auth_provider_from_agent_task(
        AgentIdentityAuth::new(beyond_ascii),
        task,
    ));
    assert_eq!(
        provider.to_auth_headers().get("chatgpt-account-id").map(|value| value.as_bytes().to_vec()),
        Some("caf\u{e9}\t".as_bytes().to_vec())
    );
}

#[test]
fn given_authorization_is_set() {
    let auth = AgentIdentityAuth::new(record("no key", false));
    let provider = identity_provider(auth_provider_from_auth(&CodexAuth::AgentIdentity(auth)));
    let mut headers = http::HeaderMap::new();
    provider.add_headers_with(Some("AgentAssertion x"), &mut headers);
    assert_eq!(text_of(&headers, "authorization"), Some("AgentAssertion x"));
    provider.add_headers_with(Some("\u{7f}"), &mut headers);
    assert_eq!(text_of(&headers, "authorization"), Some("AgentAssertion x"));
    let mut at_a_time = http::HeaderMap::new();
    provider.add_auth_headers_at("now", &mut at_a_time);
    assert_eq!(text_of(&at_a_time, "authorization"), None);
}

#[test]
fn headers_are_added_while_there_is_room() {
    let auth = AgentIdentityAuth::new(record("no key", false));
    let provider = identity_provider(auth_provider_from_auth(&CodexAuth::AgentIdentity(auth)));
    let mut headers = http::HeaderMap::new();
    for i in 0..6551 {
        let name = http::HeaderName::from_bytes(format!("x-{i}").as_bytes()).unwrap();
        headers.insert(name, http::HeaderValue::from_static("v"));
    }
    assert!(provider.try_add_auth_headers(&mut headers));
    assert_eq!(headers.len(), 6552);
    assert!(!provider.try_add_auth_headers(&mut headers));
    assert_eq!(headers.len(), 6552);
}

#[test]
fn background_work_has_its_own_task() {
    let mut auth = AgentIdentityAuth::new(record(&new_private_key(), false));
    match background_auth_provider_from_agent_identity_auth(&auth) {
        Err(error) => {
            assert_eq!(error, ProviderError::BackgroundTaskMissing);
            assert_eq!(error.text(), "agent identity background task is not initialized");
        }
        Ok(_) => panic!("no task"),
    }
    match background_auth_provider_from_auth(
        &CodexAuth::AgentIdentity(auth.copy()),
        Some("https://chatgpt.com/codex"),
    ) {
        BackgroundStep::Register { base_url } => {
            assert_eq!(base_url, "https://chatgpt.com/backend-api")
        }
        BackgroundStep::Ready(_) => panic!("no task"),
    }
    auth.set_background_task("background-task-1".to_string());
    match background_auth_provider_from_auth(&CodexAuth::AgentIdentity(auth.copy()), None) {
        BackgroundStep::Ready(provider) => {
            assert!(identity_provider(provider).authorization_at("now").is_ok())
        }
        BackgroundStep::Register { .. } => panic!("task is there"),
    }
    assert_eq!(
        ProviderError::ProcessTaskMissing.text(),
        "agent identity process task is not initialized"
    );
}

#[test]
fn tasks_are_registered_once() {
    let mut auth = AgentIdentityAuth::new(record("key", true));
    assert_eq!(auth.process_task_id(), None);
    assert_eq!(
        auth.ensure_runtime(None),
        TaskStep::Register {
            base_url: "https://chatgpt.com/backend-api".to_string()
        }
    );
    auth.set_process_task("first".to_string());
    auth.set_process_task("second".to_string());
    assert_eq!(auth.process_task_id(), Some("first"));
    assert_eq!(auth.ensure_runtime(None), TaskStep::Registered);
    assert_eq!(auth.background_task_id(), None);
    assert_eq!(
        auth.ensure_background_task(Some("https://example.com/")),
        TaskStep::Register {
            base_url: "https://example.com".to_string()
        }
    );
    auth.set_background_task("third".to_string());
    auth.set_background_task("fourth".to_string());
    assert_eq!(auth.background_task_id(), Some("third"));
    assert_eq!(auth.ensure_background_task(None), TaskStep::Registered);
    assert_eq!(registration_base_url(None), "https://chatgpt.com/backend-api");
}

#[test]
fn identity_tells_of_its_account() {
    let mut other = record("key", true);
    other.plan_type = PlanType::Other("team".to_string());
    let auth = AgentIdentityAuth::new(other.clone());
    assert_eq!(auth.record(), &other);
    assert_eq!(auth.account_id(), "account-1");
    assert_eq!(auth.chatgpt_user_id(), "user-1");
    assert_eq!(auth.email(), "agent@example.com");
    assert_eq!(auth.plan_type(), PlanType::Other("team".to_string()));
    assert!(auth.is_fedramp_account());
    assert_eq!(auth.key().agent_runtime_id, "agent-runtime-1");
    assert_eq!(auth.key().private_key_pkcs8_base64, "key");
}
