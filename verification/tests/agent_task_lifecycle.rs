use codex_support::auth::identity::AgentIdentityAuth;
use codex_support::auth::identity::AgentIdentityAuthRecord;
use codex_support::auth::identity::PlanType;
use codex_support::auth::provider::ModelProviderInfo;
use codex_support::auth::session::registered_agent_task_from_session_task;
use codex_support::auth::session::AgentIdentityAuthPolicy;
use codex_support::auth::session::RolloutItem;
use codex_support::auth::session::Session;
use codex_support::auth::session::SessionAgentTask;
use codex_support::auth::session::SessionAgentTaskKind;
use codex_support::auth::session::SessionStateUpdate;
use codex_support::auth::session::ThreadTaskStep;
use codex_support::identity::task::AgentTaskKind;
use codex_support::identity::task::RegisteredAgentTask;

fn task(agent_runtime_id: &str, task_id: &str) -> SessionAgentTask {
    SessionAgentTask {
        agent_runtime_id: agent_runtime_id.to_string(),
        task_id: task_id.to_string(),
        kind: SessionAgentTaskKind::Thread,
    }
}

fn update(agent_task: Option<SessionAgentTask>) -> RolloutItem {
    RolloutItem::SessionState(SessionStateUpdate { agent_task })
}

fn auth() -> AgentIdentityAuth {
    AgentIdentityAuth::new(AgentIdentityAuthRecord {
        agent_runtime_id: "agent-1".to_string(),
        agent_private_key: "key".to_string(),
        account_id: "account".to_string(),
        chatgpt_user_id: "user".to_string(),
        email: "agent@example.com".to_string(),
        plan_type: PlanType::Pro,
        chatgpt_account_is_fedramp: false,
        registered_at: None,
    })
}

fn first_party() -> ModelProviderInfo {
    ModelProviderInfo {
        requires_openai_auth: true,
        env_key: None,
        experimental_bearer_token: None,
        has_command_auth: false,
        has_aws_auth: false,
    }
}

#[test]
fn latest_persisted_agent_task_uses_latest_update() {
    let first = task("agent-1", "task-1");
    let second = task("agent-1", "task-2");

    let latest = Session::latest_persisted_agent_task(&[
        RolloutItem::SessionState(SessionStateUpdate {
            agent_task: Some(first),
        }),
        RolloutItem::SessionState(SessionStateUpdate {
            agent_task: Some(second.clone()),
        }),
    ]);

    assert_eq!(latest, Some(Some(second)));
}

#[test]
fn latest_persisted_agent_task_preserves_explicit_clear() {
    let task = task("agent-1", "task-1");

    let latest = Session::latest_persisted_agent_task(&[
        RolloutItem::SessionState(SessionStateUpdate {
            agent_task: Some(task),
        }),
        RolloutItem::SessionState(SessionStateUpdate { agent_task: None }),
    ]);

    assert_eq!(latest, Some(None));
}

#[test]
fn persisted_agent_task_for_runtime_restores_matching_task() {
    let task = task("agent-1", "task-1");

    let restored = Session::persisted_agent_task_for_runtime(
        &[RolloutItem::SessionState(SessionStateUpdate {
            agent_task: Some(task.clone()),
        })],
        Some("agent-1"),
    );

    assert_eq!(restored, Some(Some(task)));
}

#[test]
fn persisted_agent_task_for_runtime_clears_mismatched_task() {
    let task = task("agent-1", "task-1");

    let restored = Session::persisted_agent_task_for_runtime(
        &[RolloutItem::SessionState(SessionStateUpdate {
            agent_task: Some(task),
        })],
        Some("agent-2"),
    );

    assert_eq!(restored, Some(None));
}

#[test]
fn other_items_do_not_matter() {
    assert_eq!(Session::latest_persisted_agent_task(&[]), None);
    assert_eq!(Session::latest_persisted_agent_task(&[RolloutItem::Other]), None);
    assert_eq!(
        Session::latest_persisted_agent_task(&[update(Some(task("a", "t"))), RolloutItem::Other]),
        Some(Some(task("a", "t")))
    );
    assert_eq!(
        Session::persisted_agent_task_for_runtime(&[update(Some(task("a", "t")))], None),
        Some(None)
    );
    assert_eq!(
        Session::persisted_agent_task_for_runtime(&[update(None)], Some("a")),
        Some(None)
    );
    assert_eq!(Session::persisted_agent_task_for_runtime(&[], Some("a")), None);
}

#[test]
fn thread_registers_a_task_once() {
    let mut session = Session::new("https://chatgpt.com/codex".to_string(), true);
    match session.thread_agent_task_auth_for_provider(&first_party(), Some(&auth())) {
        ThreadTaskStep::Register { base_url } => {
            assert_eq!(base_url, "https://chatgpt.com/backend-api")
        }
        _ => panic!("task should be registered"),
    }
    let (task_auth, item) = session.thread_task_registered(&auth(), "task-1".to_string());
    assert_eq!(
        task_auth.task(),
        &RegisteredAgentTask::new("agent-1", "task-1", AgentTaskKind::Thread)
    );
    assert_eq!(item, update(Some(task("agent-1", "task-1"))));
    assert_eq!(session.agent_task(), Some(&task("agent-1", "task-1")));
    match session.thread_agent_task_auth_for_provider(&first_party(), Some(&auth())) {
        ThreadTaskStep::Ready(ready) => assert_eq!(ready.task(), task_auth.task()),
        _ => panic!("task is there"),
    }

    let mut resumed = Session::new("https://chatgpt.com".to_string(), true);
    resumed.restore_persisted_agent_task(&[update(None), item.clone()], Some("agent-1"));
    assert_eq!(resumed.agent_task(), Some(&task("agent-1", "task-1")));
    resumed.restore_persisted_agent_task(&[], Some("agent-1"));
    assert_eq!(resumed.agent_task(), Some(&task("agent-1", "task-1")));
    resumed.restore_persisted_agent_task(&[item.clone()], None);
    assert_eq!(resumed.agent_task(), Some(&task("agent-1", "task-1")));
    resumed.restore_persisted_agent_task(&[item], Some("agent-2"));
    assert_eq!(resumed.agent_task(), None);
}

#[test]
fn thread_without_agent_identity() {
    let session = Session::new(String::new(), false);
    assert!(matches!(
        session.thread_agent_task_auth_for_provider(&first_party(), None),
        ThreadTaskStep::NoAgentIdentity
    ));
    let own_token = ModelProviderInfo {
        experimental_bearer_token: Some("t".to_string()),
        ..first_party()
    };
    assert!(matches!(
        session.thread_agent_task_auth_for_provider(&own_token, Some(&auth())),
        ThreadTaskStep::NoAgentIdentity
    ));
}

#[test]
fn background_task_is_none_of_a_thread() {
    let mut session = Session::new(String::new(), false);
    let background = SessionAgentTask {
        kind: SessionAgentTaskKind::Background,
        ..task("agent-1", "task-1")
    };
    session.restore_persisted_agent_task(&[update(Some(background.clone()))], Some("agent-1"));
    assert_eq!(session.agent_task(), Some(&background));
    assert_eq!(session.valid_thread_agent_task("agent-1"), None);
    assert_eq!(
        registered_agent_task_from_session_task(&background),
        RegisteredAgentTask::new("agent-1", "task-1", AgentTaskKind::Background)
    );
    session.restore_persisted_agent_task(&[update(Some(task("agent-1", "t")))], Some("agent-1"));
    assert_eq!(session.valid_thread_agent_task("agent-1"), Some(task("agent-1", "t")));
    assert_eq!(session.valid_thread_agent_task("agent-2"), None);
}

#[test]
fn policy_follows_the_feature() {
    assert_eq!(
        Session::new(String::new(), true).agent_identity_policy(),
        AgentIdentityAuthPolicy::JwtOrChatgpt
    );
    assert_eq!(
        Session::new(String::new(), false).agent_identity_policy(),
        AgentIdentityAuthPolicy::JwtOnly
    );
}
