//! What holds of the authentication of agents.

use vstd::prelude::*;

use crate::auth::headers;
use crate::auth::identity;
use crate::auth::identity::IdentityView;
use crate::auth::identity::TaskStep;
use crate::auth::provider;
use crate::auth::provider::BackgroundStep;
use crate::auth::provider::BearerAuthProvider;
use crate::auth::provider::BearerView;
use crate::auth::provider::CodexAuth;
use crate::auth::provider::IdentityProviderView;
use crate::auth::provider::ModelProviderInfo;
use crate::auth::provider::ProviderErrorView;
use crate::auth::provider::ProviderView;
use crate::auth::provider::TaskAuthView;
use crate::auth::session;
use crate::auth::session::RolloutItem;
use crate::auth::session::SessionAgentTaskKind;
use crate::auth::session::SessionStateUpdate;
use crate::auth::session::SessionTaskView;
use crate::auth::session::SessionView;
use crate::auth::session::ThreadTaskStep;
use crate::identity::assertion;
use crate::identity::error::IdentityErrorView;
use crate::identity::task::AgentTaskKind;
use crate::identity::task::TaskView;
use crate::identity::url;

verus! {

/// The names of the headers differ.
proof fn lemma_names_differ()
    ensures
        provider::AUTHORIZATION_HEADER@ != provider::ACCOUNT_HEADER@,
        provider::AUTHORIZATION_HEADER@ != provider::FEDRAMP_HEADER@,
        provider::ACCOUNT_HEADER@ != provider::FEDRAMP_HEADER@,
{
    reveal_strlit("authorization");
    reveal_strlit("chatgpt-account-id");
    reveal_strlit("x-openai-fedramp");
    assert(provider::AUTHORIZATION_HEADER@.len() == 13);
    assert(provider::ACCOUNT_HEADER@.len() == 18);
    assert(provider::FEDRAMP_HEADER@.len() == 16);
}

/// The account goes with each request, whether there is an authorization or
/// not, and the mark of a FedRAMP account with those of such an account.
pub proof fn law_account_goes_with_requests(
    values: Map<Seq<char>, Seq<Seq<u8>>>,
    p: IdentityProviderView,
    timestamp: Seq<char>,
)
    requires
        headers::is_header_text(p.auth.record.account_id),
    ensures
        ({
            let after = provider::with_headers_at(values, p, timestamp);
            &&& after.dom().contains(provider::ACCOUNT_HEADER@)
            &&& after[provider::ACCOUNT_HEADER@] == seq![
                vstd::utf8::encode_utf8(p.auth.record.account_id),
            ]
            &&& p.auth.record.chatgpt_account_is_fedramp ==> after.dom().contains(
                provider::FEDRAMP_HEADER@,
            ) && after[provider::FEDRAMP_HEADER@] == seq![vstd::utf8::encode_utf8("true"@)]
        }),
{
    lemma_names_differ();
}

/// An authorization that can be made goes with each request.
pub proof fn law_authorization_goes_with_requests(
    values: Map<Seq<char>, Seq<Seq<u8>>>,
    p: IdentityProviderView,
    timestamp: Seq<char>,
)
    requires
        provider::authorization_at(p, timestamp) is Ok,
        provider::authorization_fits(p, timestamp),
    ensures
        ({
            let after = provider::with_headers_at(values, p, timestamp);
            &&& after.dom().contains(provider::AUTHORIZATION_HEADER@)
            &&& after[provider::AUTHORIZATION_HEADER@] == seq![
                vstd::utf8::encode_utf8(provider::authorization_at(p, timestamp)->Ok_0),
            ]
        }),
{
    lemma_names_differ();
}

/// The other headers of a request stay as they are.
pub proof fn law_other_headers_stay(
    values: Map<Seq<char>, Seq<Seq<u8>>>,
    p: IdentityProviderView,
    timestamp: Seq<char>,
    name: Seq<char>,
)
    requires
        name != provider::AUTHORIZATION_HEADER@,
        name != provider::ACCOUNT_HEADER@,
        name != provider::FEDRAMP_HEADER@,
    ensures
        ({
            let after = provider::with_headers_at(values, p, timestamp);
            &&& after.dom().contains(name) == values.dom().contains(name)
            &&& values.dom().contains(name) ==> after[name] == values[name]
        }),
{
}

/// An authorization that cannot be made leaves the authorization header as it
/// is.
pub proof fn law_no_authorization_without_assertion(
    values: Map<Seq<char>, Seq<Seq<u8>>>,
    p: IdentityProviderView,
    timestamp: Seq<char>,
)
    requires
        provider::authorization_at(p, timestamp) is Err,
    ensures
        ({
            let after = provider::with_headers_at(values, p, timestamp);
            let name = provider::AUTHORIZATION_HEADER@;
            &&& after.dom().contains(name) == values.dom().contains(name)
            &&& values.dom().contains(name) ==> after[name] == values[name]
        }),
{
    lemma_names_differ();
}

/// A provider that has something of its own to authenticate with never gets
/// the task of the agent.
pub proof fn law_agent_task_is_for_first_party(
    auth: Option<&CodexAuth>,
    info: ModelProviderInfo,
    task_auth: TaskAuthView,
    api_key: Option<String>,
)
    requires
        !provider::is_first_party(info),
    ensures
        provider::resolved(auth, info, Some(task_auth), api_key) == provider::resolved(
            auth,
            info,
            None,
            api_key,
        ),
{
}

/// The token that a provider has of its own comes before all else.
pub proof fn law_own_token_comes_first(
    auth: Option<&CodexAuth>,
    info: ModelProviderInfo,
    task_auth: Option<TaskAuthView>,
    api_key: Option<String>,
)
    requires
        provider::own_token(info, api_key) is Some,
    ensures
        provider::resolved(auth, info, task_auth, api_key) == ProviderView::Bearer(
            provider::bearer_of(provider::own_token(info, api_key)->0),
        ),
{
}

/// Without a login, a token and a task, requests are not authenticated.
pub proof fn law_nothing_to_authenticate_with(info: ModelProviderInfo)
    requires
        info.experimental_bearer_token is None,
    ensures
        provider::resolved(None, info, None, None) == ProviderView::Unauthenticated,
{
}

/// Once a task is registered for the thread of a runtime, the session goes on
/// with it and registers no other.
pub proof fn law_thread_task_is_kept(
    s: SessionView,
    info: ModelProviderInfo,
    identity: IdentityView,
    task_id: Seq<char>,
    step: ThreadTaskStep,
)
    requires
        provider::is_first_party(info),
        s.agent_task == Some(session::thread_task(identity.record.agent_runtime_id, task_id)),
        session::is_thread_step(step, s, info, Some(identity)),
    ensures
        step matches ThreadTaskStep::Ready(ready) && ready@ == (TaskAuthView {
            auth: identity,
            task: session::registered(
                session::thread_task(identity.record.agent_runtime_id, task_id),
            ),
        }),
{
}

/// What is recorded of a task is what a session of the same runtime takes up
/// again, whatever was recorded before.
pub proof fn law_recorded_task_is_restored(
    s: SessionView,
    before: Seq<RolloutItem>,
    item: RolloutItem,
    task: SessionTaskView,
)
    requires
        session::latest_task(seq![item]) == Some(Some(task)),
    ensures
        session::after_restore(s, before.push(item), Some(task.agent_runtime_id)).agent_task
            == Some(task),
{
    lemma_latest_of_one(item);
    assert(before.push(item).drop_last() =~= before);
}

/// The latest of a single item is the one that it has.
proof fn lemma_latest_of_one(item: RolloutItem)
    ensures
        session::latest_task(seq![item]) is Some ==> item is SessionState,
{
    assert(seq![item].drop_last() =~= Seq::empty());
    if item is Other {
        assert(session::latest_task(seq![item]) == session::latest_task(Seq::empty()));
    }
}

/// A session does not take up the task of another runtime: it has none then.
pub proof fn law_foreign_task_is_dropped(
    s: SessionView,
    items: Seq<RolloutItem>,
    task: SessionTaskView,
    agent_runtime_id: Seq<char>,
)
    requires
        session::latest_task(items) == Some(Some(task)),
        task.agent_runtime_id != agent_runtime_id,
    ensures
        session::after_restore(s, items, Some(agent_runtime_id)).agent_task is None,
{
}

/// What is recorded beside changes of the state does not matter for tasks.
pub proof fn law_other_items_do_not_matter(items: Seq<RolloutItem>)
    ensures
        session::latest_task(items.push(RolloutItem::Other)) == session::latest_task(items),
{
    assert(items.push(RolloutItem::Other).drop_last() =~= items);
}

/// Requests to a provider that takes the login of the user, and has no token of its own,
/// are authenticated with the agent identity for its task, whenever there is one: with
/// just that identity, for just that task, whoever is logged in and how.
pub proof fn law_agent_task_comes_before_login(
    auth: Option<&CodexAuth>,
    info: ModelProviderInfo,
    task_auth: TaskAuthView,
)
    requires
        info.requires_openai_auth,
        info.env_key is None,
        info.experimental_bearer_token is None,
        !info.has_command_auth,
        !info.has_aws_auth,
    ensures
        provider::resolved(auth, info, Some(task_auth), None) == ProviderView::AgentIdentity(
            IdentityProviderView { auth: task_auth.auth, task: Some(task_auth.task) },
        ),
{
}

/// An API key authenticates the requests to any provider, for no account in particular,
/// and so does a configured token where there is no API key.
pub proof fn law_token_of_the_provider(
    auth: Option<&CodexAuth>,
    info: ModelProviderInfo,
    task_auth: Option<TaskAuthView>,
    token: String,
)
    ensures
        ({
            let bearer = ProviderView::Bearer(
                BearerView { token: Some(token@), account_id: None, is_fedramp_account: false },
            );
            &&& provider::resolved(auth, info, task_auth, Some(token)) == bearer
            &&& info.experimental_bearer_token == Some(token) ==> provider::resolved(
                auth,
                info,
                task_auth,
                None,
            ) == bearer
        }),
{
}

/// Without a token of the provider and without a task of an agent, or with one that is
/// not for the provider, requests are authenticated as the user is logged in: with the
/// agent identity and the task of the process, or with the token. Without a login they
/// are not.
pub proof fn law_login_comes_last(
    auth: CodexAuth,
    info: ModelProviderInfo,
    task_auth: Option<TaskAuthView>,
)
    requires
        info.experimental_bearer_token is None,
        task_auth is Some ==> !info.requires_openai_auth || info.env_key is Some
            || info.has_command_auth || info.has_aws_auth,
    ensures
        provider::resolved(Some(&auth), info, task_auth, None) == match auth {
            CodexAuth::AgentIdentity(identity) => ProviderView::AgentIdentity(
                IdentityProviderView { auth: identity@, task: None },
            ),
            CodexAuth::ApiKey(bearer) => ProviderView::Bearer(bearer@),
            CodexAuth::Chatgpt(bearer) => ProviderView::Bearer(bearer@),
            CodexAuth::ChatgptAuthTokens(bearer) => ProviderView::Bearer(bearer@),
        },
        provider::resolved(None, info, task_auth, None) == ProviderView::Unauthenticated,
{
}

/// A bearer keeps its token and its account.
pub proof fn law_bearer_by_its_parts(bearer: BearerAuthProvider)
    ensures
        bearer@.token == (match bearer.token {
            Some(token) => Some(token@),
            None => None,
        }),
        bearer@.account_id == (match bearer.account_id {
            Some(account_id) => Some(account_id@),
            None => None,
        }),
        bearer@.is_fedramp_account == bearer.is_fedramp_account,
{
}

/// Which providers take the login of the user: those that need it, and have neither a
/// variable for a key, nor a token, nor a command, nor signatures of their own.
pub proof fn law_first_party(info: ModelProviderInfo)
    ensures
        provider::is_first_party(info) <==> info.requires_openai_auth && info.env_key is None
            && info.experimental_bearer_token is None && !info.has_command_auth
            && !info.has_aws_auth,
{
}

/// Background work is authenticated with the agent identity for its background task, and
/// not before there is one.
pub proof fn law_background_task(auth: IdentityView)
    ensures
        match auth.background_task_id {
            Some(task_id) => provider::background_provider(auth) == Ok::<
                ProviderView,
                ProviderErrorView,
            >(
                ProviderView::AgentIdentity(
                    IdentityProviderView {
                        auth,
                        task: Some(
                            TaskView {
                                agent_runtime_id: auth.record.agent_runtime_id,
                                task_id,
                                kind: AgentTaskKind::Background,
                            },
                        ),
                    },
                ),
            ),
            None => provider::background_provider(auth) == Err::<ProviderView, ProviderErrorView>(
                ProviderErrorView::BackgroundTaskMissing,
            ),
        },
{
}

/// For background work, an agent identity registers its task where it has none, and is
/// ready with it where it has one. A login with a token is ready at once.
pub proof fn law_background_step(
    step: BackgroundStep,
    auth: CodexAuth,
    chatgpt_base_url: Option<Seq<char>>,
)
    requires
        provider::is_background_step(step, auth, chatgpt_base_url),
    ensures
        match auth {
            CodexAuth::AgentIdentity(identity) => match identity@.background_task_id {
                Some(task_id) => step matches BackgroundStep::Ready(ready) && ready@
                    == ProviderView::AgentIdentity(
                    IdentityProviderView {
                        auth: identity@,
                        task: Some(
                            TaskView {
                                agent_runtime_id: identity@.record.agent_runtime_id,
                                task_id,
                                kind: AgentTaskKind::Background,
                            },
                        ),
                    },
                ),
                None => step matches BackgroundStep::Register { base_url } && base_url@
                    == url::normalized(
                    match chatgpt_base_url {
                        Some(configured) => configured,
                        None => "https://chatgpt.com/backend-api"@,
                    },
                ),
            },
            CodexAuth::ApiKey(bearer) => step matches BackgroundStep::Ready(ready) && ready@
                == ProviderView::Bearer(bearer@),
            CodexAuth::Chatgpt(bearer) => step matches BackgroundStep::Ready(ready) && ready@
                == ProviderView::Bearer(bearer@),
            CodexAuth::ChatgptAuthTokens(bearer) => step matches BackgroundStep::Ready(ready)
                && ready@ == ProviderView::Bearer(bearer@),
        },
{
}

/// A slot for a task is filled once: it takes the task where it is empty, and keeps the
/// first. A task is to be registered where there is none, at the backend that belongs to
/// the configured address, or to the one of ChatGPT.
pub proof fn law_task_slot(
    slot: Option<Seq<char>>,
    task_id: Seq<char>,
    step: TaskStep,
    chatgpt_base_url: Option<Seq<char>>,
)
    requires
        identity::is_step_for(step, slot, chatgpt_base_url),
    ensures
        identity::filled(None, task_id) == Some(task_id),
        slot is Some ==> identity::filled(slot, task_id) == slot,
        slot is Some <==> step is Registered,
        step matches TaskStep::Register { base_url } ==> base_url@ == url::normalized(
            match chatgpt_base_url {
                Some(configured) => configured,
                None => "https://chatgpt.com/backend-api"@,
            },
        ),
{
}

/// An authorization is for the task that the identity is used for, and for that of the
/// process where there is no other. It is made with the key of the identity. Without a
/// task there is none.
pub proof fn law_authorization_is_for_the_task(p: IdentityProviderView, timestamp: Seq<char>)
    ensures
        ({
            let key_runtime_id = p.auth.record.agent_runtime_id;
            let private_key = p.auth.record.agent_private_key;
            let r = provider::authorization_at(p, timestamp);
            match (p.task, p.auth.process_task_id) {
                (Some(task), _) => match assertion::header_result(
                    key_runtime_id,
                    private_key,
                    task.agent_runtime_id,
                    task.task_id,
                    timestamp,
                ) {
                    Ok(header) => r == Ok::<Seq<char>, ProviderErrorView>(header),
                    Err(error) => r == Err::<Seq<char>, ProviderErrorView>(
                        ProviderErrorView::Identity(error),
                    ),
                },
                (None, Some(task_id)) => match assertion::header_result(
                    key_runtime_id,
                    private_key,
                    key_runtime_id,
                    task_id,
                    timestamp,
                ) {
                    Ok(header) => r == Ok::<Seq<char>, ProviderErrorView>(header),
                    Err(error) => r == Err::<Seq<char>, ProviderErrorView>(
                        ProviderErrorView::Identity(error),
                    ),
                },
                (None, None) => r == Err::<Seq<char>, ProviderErrorView>(
                    ProviderErrorView::ProcessTaskMissing,
                ),
            }
        }),
{
}

/// The authorization is in the header `authorization`, the account in
/// `chatgpt-account-id`, and the mark of a FedRAMP account in `x-openai-fedramp`. A header
/// that is not set stays as it is.
pub proof fn law_headers_by_name(
    values: Map<Seq<char>, Seq<Seq<u8>>>,
    authorization: Option<Seq<char>>,
    account_id: Seq<char>,
    is_fedramp_account: bool,
)
    ensures
        ({
            let after = provider::with_identity_headers(
                values,
                authorization,
                account_id,
                is_fedramp_account,
            );
            let authorized = authorization matches Some(header) && headers::is_header_text(header);
            let routed = headers::is_header_text(account_id);
            let name = "authorization"@;
            let account = "chatgpt-account-id"@;
            let fedramp = "x-openai-fedramp"@;
            &&& after.dom() == values.dom().union(
                if authorized {
                    set![name]
                } else {
                    Set::empty()
                },
            ).union(
                if routed {
                    set![account]
                } else {
                    Set::empty()
                },
            ).union(
                if is_fedramp_account {
                    set![fedramp]
                } else {
                    Set::empty()
                },
            )
            &&& after[name] == (if authorized {
                seq![vstd::utf8::encode_utf8(authorization->0)]
            } else {
                values[name]
            })
            &&& after[account] == (if routed {
                seq![vstd::utf8::encode_utf8(account_id)]
            } else {
                values[account]
            })
            &&& after[fedramp] == (if is_fedramp_account {
                seq![vstd::utf8::encode_utf8("true"@)]
            } else {
                values[fedramp]
            })
        }),
{
    lemma_names_differ();
    let after = provider::with_identity_headers(
        values,
        authorization,
        account_id,
        is_fedramp_account,
    );
    let authorized = authorization matches Some(header) && headers::is_header_text(header);
    let routed = headers::is_header_text(account_id);
    let a = if authorized {
        set!["authorization"@]
    } else {
        Set::empty()
    };
    let b = if routed {
        set!["chatgpt-account-id"@]
    } else {
        Set::empty()
    };
    let c = if is_fedramp_account {
        set!["x-openai-fedramp"@]
    } else {
        Set::empty()
    };
    assert(after.dom() =~= values.dom().union(a).union(b).union(c));
}

/// A text may be the value of a header unless it has a control character that is no tab.
pub proof fn law_header_text(s: Seq<char>, c: char)
    requires
        headers::is_header_text(s),
    ensures
        headers::is_header_text(Seq::empty()),
        headers::is_header_text(s.push(c)) <==> c == '\t' || (c as u32 >= 32 && c as u32 != 127),
{
    let t = s.push(c);
    assert(t[s.len() as int] == c);
    if c == '\t' || (c as u32 >= 32 && c as u32 != 127) {
        assert forall|i: int| 0 <= i < t.len() implies (t[i] as u32 >= 32 && t[i] as u32 != 127)
            || #[trigger] t[i] == '\t' by {
            if i < s.len() {
                assert(t[i] == s[i]);
            }
        }
    }
}

/// The recorded task that counts is that of the last change of the state, which may be
/// none. Without a change there is nothing recorded.
pub proof fn law_last_change_counts(items: Seq<RolloutItem>, update: SessionStateUpdate)
    ensures
        session::latest_task(Seq::empty()) is None,
        session::latest_task(items.push(RolloutItem::SessionState(update))) == Some(
            match update.agent_task {
                Some(task) => Some(
                    SessionTaskView {
                        agent_runtime_id: task.agent_runtime_id@,
                        task_id: task.task_id@,
                        kind: task.kind,
                    },
                ),
                None => None,
            },
        ),
{
}

/// A runtime takes up the recorded task if it is its own, whatever it is for; it takes up
/// that there is none if the task was cleared or is another's. Where nothing is recorded,
/// or there is no runtime, the session stays as it is. Nothing else of it changes.
pub proof fn law_restored_task(
    s: SessionView,
    items: Seq<RolloutItem>,
    agent_runtime_id: Option<Seq<char>>,
)
    ensures
        ({
            let after = session::after_restore(s, items, agent_runtime_id);
            &&& after.chatgpt_base_url == s.chatgpt_base_url
            &&& after.use_agent_identity == s.use_agent_identity
            &&& agent_runtime_id is None ==> after.agent_task == s.agent_task
            &&& session::latest_task(items) is None ==> after.agent_task == s.agent_task
                && session::task_for_runtime(items, agent_runtime_id) is None
            &&& agent_runtime_id matches Some(id) ==> match session::latest_task(items) {
                None => true,
                Some(None) => after.agent_task is None,
                Some(Some(task)) => after.agent_task == (if task.agent_runtime_id == id {
                    Some(task)
                } else {
                    None
                }),
            }
            &&& session::latest_task(items) matches Some(task)
                ==> session::task_for_runtime(items, agent_runtime_id) == Some(
                if task is Some && agent_runtime_id == Some(task->0.agent_runtime_id) {
                    task
                } else {
                    None
                },
            )
        }),
{
}

/// A thread uses the task of its session if it is for a thread, and of its runtime.
pub proof fn law_task_of_a_thread(
    s: SessionView,
    agent_runtime_id: Seq<char>,
    task: SessionTaskView,
)
    ensures
        session::valid_task(s, agent_runtime_id) == Some(task) <==> s.agent_task == Some(task)
            && task.kind == SessionAgentTaskKind::Thread && task.agent_runtime_id
            == agent_runtime_id,
{
}

/// The registered task has the IDs of the task of the session, and is for the same.
pub proof fn law_registered_task_is_the_same(task: SessionTaskView)
    ensures
        session::registered(task).agent_runtime_id == task.agent_runtime_id,
        session::registered(task).task_id == task.task_id,
        session::registered(task).kind == (match task.kind {
            SessionAgentTaskKind::Thread => AgentTaskKind::Thread,
            SessionAgentTaskKind::Background => AgentTaskKind::Background,
        }),
{
}

/// A thread needs an agent identity, and a provider that takes the login of the user: it
/// then uses the task that its session has for a thread of the runtime, and registers
/// one where there is none.
pub proof fn law_step_of_a_thread(
    step: ThreadTaskStep,
    s: SessionView,
    info: ModelProviderInfo,
    auth: Option<IdentityView>,
)
    requires
        session::is_thread_step(step, s, info, auth),
    ensures
        ({
            let takes_login = info.requires_openai_auth && info.env_key is None
                && info.experimental_bearer_token is None && !info.has_command_auth
                && !info.has_aws_auth;
            let own = s.agent_task matches Some(task) && auth matches Some(identity) && task.kind
                == SessionAgentTaskKind::Thread && task.agent_runtime_id
                == identity.record.agent_runtime_id;
            &&& step is NoAgentIdentity <==> !takes_login || auth is None
            &&& step is Ready <==> takes_login && auth is Some && own
            &&& step matches ThreadTaskStep::Ready(ready) ==> ready@ == (TaskAuthView {
                auth: auth->0,
                task: TaskView {
                    agent_runtime_id: s.agent_task->0.agent_runtime_id,
                    task_id: s.agent_task->0.task_id,
                    kind: AgentTaskKind::Thread,
                },
            })
            &&& step matches ThreadTaskStep::Register { base_url } ==> base_url@
                == url::normalized(s.chatgpt_base_url)
        }),
{
}

/// What is wrong with an authentication, in words.
pub proof fn law_words_of_an_error(error: IdentityErrorView)
    ensures
        provider::error_text(ProviderErrorView::ProcessTaskMissing)
            == "agent identity process task is not initialized"@,
        provider::error_text(ProviderErrorView::BackgroundTaskMissing)
            == "agent identity background task is not initialized"@,
        provider::error_text(ProviderErrorView::Identity(error))
            == crate::identity::error::error_text(error),
{
}

} // verus!
