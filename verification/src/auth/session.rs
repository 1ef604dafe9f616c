//! The task of a session's thread: how it is restored, used and registered.

use vstd::prelude::*;
use vstd::string::*;

use crate::auth::identity;
use crate::auth::identity::AgentIdentityAuth;
use crate::auth::identity::IdentityView;
use crate::auth::provider;
use crate::auth::provider::AgentTaskAuth;
use crate::auth::provider::ModelProviderInfo;
use crate::auth::provider::TaskAuthView;
use crate::identity::task::AgentRuntimeId;
use crate::identity::task::AgentTaskId;
use crate::identity::task::AgentTaskKind;
use crate::identity::task::RegisteredAgentTask;
use crate::identity::task::TaskView;
use crate::text;

verus! {

/// Purpose of the task of a session.
#[derive(Clone, Copy, Debug, PartialEq, Eq, Structural)]
pub enum SessionAgentTaskKind {
    Thread,
    Background,
}

/// The task of a session.
#[derive(Clone, Debug, PartialEq, Eq)]
pub struct SessionAgentTask {
    pub agent_runtime_id: String,
    pub task_id: String,
    pub kind: SessionAgentTaskKind,
}

/// The texts of the task of a session.
#[verifier::ext_equal]
pub struct SessionTaskView {
    pub agent_runtime_id: Seq<char>,
    pub task_id: Seq<char>,
    pub kind: SessionAgentTaskKind,
}

impl View for SessionAgentTask {
    type V = SessionTaskView;

    open spec fn view(&self) -> SessionTaskView {
        SessionTaskView {
            agent_runtime_id: self.agent_runtime_id@,
            task_id: self.task_id@,
            kind: self.kind,
        }
    }
}

impl SessionAgentTask {
    /// A copy of the task.
    pub fn copy(&self) -> (r: Self)
        ensures
            r@ == self@,
    {
        SessionAgentTask {
            agent_runtime_id: self.agent_runtime_id.clone(),
            task_id: self.task_id.clone(),
            kind: self.kind,
        }
    }
}

/// The texts of an optional task.
pub open spec fn task_view(task: Option<SessionAgentTask>) -> Option<SessionTaskView> {
    match task {
        Some(task) => Some(task@),
        None => None,
    }
}

/// A change of the state of a session.
#[derive(Clone, Debug, PartialEq, Eq)]
pub struct SessionStateUpdate {
    pub agent_task: Option<SessionAgentTask>,
}

/// What is recorded of a session.
#[derive(Clone, Debug, PartialEq, Eq)]
pub enum RolloutItem {
    /// A change of its state.
    SessionState(SessionStateUpdate),
    /// Something else.
    Other,
}

/// The task that was recorded last, if any change of the state was recorded.
/// It may have been recorded that there is none.
pub open spec fn latest_task(items: Seq<RolloutItem>) -> Option<Option<SessionTaskView>>
    decreases items.len(),
{
    if items.len() == 0 {
        None
    } else {
        match items.last() {
            RolloutItem::SessionState(update) => Some(task_view(update.agent_task)),
            RolloutItem::Other => latest_task(items.drop_last()),
        }
    }
}

/// The recorded task that a runtime takes up again: the latest, if it is the
/// runtime's own, and otherwise none.
pub open spec fn task_for_runtime(
    items: Seq<RolloutItem>,
    agent_runtime_id: Option<Seq<char>>,
) -> Option<Option<SessionTaskView>> {
    match latest_task(items) {
        None => None,
        Some(Some(task)) => if agent_runtime_id == Some(task.agent_runtime_id) {
            Some(Some(task))
        } else {
            Some(None)
        },
        Some(None) => Some(None),
    }
}

/// The texts of what a runtime takes up again: a recorded task, none because it
/// was cleared or is another runtime's, or nothing where none was recorded.
pub open spec fn restored_view(r: Option<Option<SessionAgentTask>>) -> Option<
    Option<SessionTaskView>,
> {
    match r {
        Some(task) => Some(task_view(task)),
        None => None,
    }
}

/// Which ways to get an agent identity are allowed.
#[derive(Clone, Copy, Debug, PartialEq, Eq)]
pub enum AgentIdentityAuthPolicy {
    /// From a JWT alone.
    JwtOnly,
    /// From a JWT, or from the login with ChatGPT.
    JwtOrChatgpt,
}

/// What is to be done for the authentication with the task of the thread.
#[derive(Clone, Debug)]
pub enum ThreadTaskStep {
    /// There is no agent identity to authenticate with.
    NoAgentIdentity,
    /// The thread has a task.
    Ready(AgentTaskAuth),
    /// A task is to be registered at this address.
    Register { base_url: String },
}

/// What a session has to do with the task of its thread.
#[derive(Clone, Debug)]
pub struct Session {
    agent_task: Option<SessionAgentTask>,
    chatgpt_base_url: String,
    use_agent_identity: bool,
}

/// The texts of a session.
#[verifier::ext_equal]
pub struct SessionView {
    pub agent_task: Option<SessionTaskView>,
    pub chatgpt_base_url: Seq<char>,
    pub use_agent_identity: bool,
}

impl View for Session {
    type V = SessionView;

    closed spec fn view(&self) -> SessionView {
        SessionView {
            agent_task: task_view(self.agent_task),
            chatgpt_base_url: self.chatgpt_base_url@,
            use_agent_identity: self.use_agent_identity,
        }
    }
}

/// The task is one of a thread of the runtime.
pub open spec fn is_thread_task(task: SessionTaskView, agent_runtime_id: Seq<char>) -> bool {
    task.kind == SessionAgentTaskKind::Thread && task.agent_runtime_id == agent_runtime_id
}

/// The task of the session that a thread of the runtime can use.
pub open spec fn valid_task(s: SessionView, agent_runtime_id: Seq<char>) -> Option<
    SessionTaskView,
> {
    match s.agent_task {
        Some(task) => if is_thread_task(task, agent_runtime_id) {
            Some(task)
        } else {
            None
        },
        None => None,
    }
}

/// The registered task that stands for the task of a session.
pub open spec fn registered(task: SessionTaskView) -> TaskView {
    TaskView {
        agent_runtime_id: task.agent_runtime_id,
        task_id: task.task_id,
        kind: match task.kind {
            SessionAgentTaskKind::Thread => AgentTaskKind::Thread,
            SessionAgentTaskKind::Background => AgentTaskKind::Background,
        },
    }
}

/// The step is what is to be done for the authentication with the task of the
/// thread. Nothing is, unless the provider takes the login of the user and
/// there is an agent identity.
pub open spec fn is_thread_step(
    step: ThreadTaskStep,
    s: SessionView,
    info: ModelProviderInfo,
    auth: Option<IdentityView>,
) -> bool {
    if !provider::is_first_party(info) {
        step is NoAgentIdentity
    } else {
        match auth {
            None => step is NoAgentIdentity,
            Some(identity) => match valid_task(s, identity.record.agent_runtime_id) {
                Some(task) => step matches ThreadTaskStep::Ready(ready) && ready@
                    == (TaskAuthView { auth: identity, task: registered(task) }),
                None => step matches ThreadTaskStep::Register { base_url } && base_url@
                    == identity::registration_base(Some(s.chatgpt_base_url)),
            },
        }
    }
}

/// The task of a thread.
pub open spec fn thread_task(agent_runtime_id: Seq<char>, task_id: Seq<char>) -> SessionTaskView {
    SessionTaskView { agent_runtime_id, task_id, kind: SessionAgentTaskKind::Thread }
}

/// The session after the recorded task was restored for a runtime.
pub open spec fn after_restore(
    s: SessionView,
    items: Seq<RolloutItem>,
    agent_runtime_id: Option<Seq<char>>,
) -> SessionView {
    match agent_runtime_id {
        None => s,
        Some(_) => match task_for_runtime(items, agent_runtime_id) {
            None => s,
            Some(task) => SessionView { agent_task: task, ..s },
        },
    }
}

impl Session {
    /// A session without a task.
    pub fn new(chatgpt_base_url: String, use_agent_identity: bool) -> (r: Self)
        ensures
            r@ == (SessionView {
                agent_task: None,
                chatgpt_base_url: chatgpt_base_url@,
                use_agent_identity,
            }),
    {
        Session { agent_task: None, chatgpt_base_url, use_agent_identity }
    }

    /// The task of the session.
    pub fn agent_task(&self) -> (r: Option<&SessionAgentTask>)
        ensures
            match r {
                Some(task) => self@.agent_task == Some(task@),
                None => self@.agent_task is None,
            },
    {
        self.agent_task.as_ref()
    }

    /// The task that was recorded last, if any change of the state was
    /// recorded. It may have been recorded that there is none.
    pub fn latest_persisted_agent_task(rollout_items: &[RolloutItem]) -> (r: Option<
        Option<SessionAgentTask>,
    >)
        ensures
            restored_view(r) == latest_task(rollout_items@),
    {
        let mut i: usize = rollout_items.len();
        assert(rollout_items@.take(i as int) =~= rollout_items@);
        while i > 0
            invariant
                i <= rollout_items@.len(),
                latest_task(rollout_items@) == latest_task(rollout_items@.take(i as int)),
            decreases i,
        {
            assert(rollout_items@.take(i as int).drop_last() =~= rollout_items@.take(i - 1));
            if let RolloutItem::SessionState(update) = &rollout_items[i - 1] {
                return Some(
                    match &update.agent_task {
                        Some(task) => Some(task.copy()),
                        None => None,
                    },
                );
            }
            i = i - 1;
        }
        None
    }

    /// The recorded task that a runtime takes up again: the latest, if it is
    /// the runtime's own, and otherwise none.
    pub fn persisted_agent_task_for_runtime(
        rollout_items: &[RolloutItem],
        agent_runtime_id: Option<&str>,
    ) -> (r: Option<Option<SessionAgentTask>>)
        ensures
            restored_view(r) == task_for_runtime(
                rollout_items@,
                identity::str_of(agent_runtime_id),
            ),
    {
        match Self::latest_persisted_agent_task(rollout_items) {
            None => None,
            Some(Some(task)) => {
                let is_own = match agent_runtime_id {
                    Some(id) => text::same_text(task.agent_runtime_id.as_str(), id),
                    None => false,
                };
                if is_own {
                    Some(Some(task))
                } else {
                    Some(None)
                }
            },
            Some(None) => Some(None),
        }
    }

    /// Takes up the recorded task again, if there is an agent identity, whose
    /// runtime is given.
    pub fn restore_persisted_agent_task(
        &mut self,
        rollout_items: &[RolloutItem],
        agent_runtime_id: Option<&str>,
    )
        ensures
            final(self)@ == after_restore(
                old(self)@,
                rollout_items@,
                identity::str_of(agent_runtime_id),
            ),
    {
        if agent_runtime_id.is_none() {
            return ;
        }
        if let Some(task) = Self::persisted_agent_task_for_runtime(
            rollout_items,
            agent_runtime_id,
        ) {
            self.agent_task = task;
        }
    }

    /// Which ways to get an agent identity are allowed.
    pub fn agent_identity_policy(&self) -> (r: AgentIdentityAuthPolicy)
        ensures
            r == (if self@.use_agent_identity {
                AgentIdentityAuthPolicy::JwtOrChatgpt
            } else {
                AgentIdentityAuthPolicy::JwtOnly
            }),
    {
        if self.use_agent_identity {
            AgentIdentityAuthPolicy::JwtOrChatgpt
        } else {
            AgentIdentityAuthPolicy::JwtOnly
        }
    }

    /// The task of the session that a thread of the runtime can use.
    pub fn valid_thread_agent_task(&self, agent_runtime_id: &str) -> (r: Option<SessionAgentTask>)
        ensures
            task_view(r) == valid_task(self@, agent_runtime_id@),
    {
        match &self.agent_task {
            Some(task) => {
                if task.kind == SessionAgentTaskKind::Thread && text::same_text(
                    task.agent_runtime_id.as_str(),
                    agent_runtime_id,
                ) {
                    Some(task.copy())
                } else {
                    None
                }
            },
            None => None,
        }
    }

    /// What is to be done for the authentication with the task of the thread.
    /// `auth` is the agent identity, if there is one. It is not needed unless
    /// the provider takes the login of the user.
    pub fn thread_agent_task_auth_for_provider(
        &self,
        info: &ModelProviderInfo,
        auth: Option<&AgentIdentityAuth>,
    ) -> (r: ThreadTaskStep)
        ensures
            is_thread_step(
                r,
                self@,
                *info,
                match auth {
                    Some(auth) => Some(auth@),
                    None => None,
                },
            ),
    {
        if !provider::provider_uses_first_party_auth_path(info) {
            return ThreadTaskStep::NoAgentIdentity;
        }
        let auth = match auth {
            Some(auth) => auth,
            None => return ThreadTaskStep::NoAgentIdentity,
        };
        match self.valid_thread_agent_task(auth.record().agent_runtime_id.as_str()) {
            Some(task) => ThreadTaskStep::Ready(
                AgentTaskAuth::new(auth.copy(), registered_agent_task_from_session_task(&task)),
            ),
            None => ThreadTaskStep::Register {
                base_url: identity::registration_base_url(Some(self.chatgpt_base_url.as_str())),
            },
        }
    }

    /// A task was registered for the thread: the session has it, the result
    /// authenticates with it, and what is to be recorded says so.
    pub fn thread_task_registered(&mut self, auth: &AgentIdentityAuth, task_id: String) -> (r: (
        AgentTaskAuth,
        RolloutItem,
    ))
        ensures
            final(self)@ == (SessionView {
                agent_task: Some(thread_task(auth@.record.agent_runtime_id, task_id@)),
                ..old(self)@
            }),
            r.0@ == (TaskAuthView {
                auth: auth@,
                task: registered(thread_task(auth@.record.agent_runtime_id, task_id@)),
            }),
            latest_task(seq![r.1]) == Some(
                Some(thread_task(auth@.record.agent_runtime_id, task_id@)),
            ),
    {
        let task = SessionAgentTask {
            agent_runtime_id: auth.record().agent_runtime_id.clone(),
            task_id,
            kind: SessionAgentTaskKind::Thread,
        };
        self.agent_task = Some(task.copy());
        let task_auth = AgentTaskAuth::new(
            auth.copy(),
            registered_agent_task_from_session_task(&task),
        );
        (task_auth, RolloutItem::SessionState(SessionStateUpdate { agent_task: Some(task) }))
    }
}

/// The registered task that stands for the task of a session.
pub fn registered_agent_task_from_session_task(task: &SessionAgentTask) -> (r: RegisteredAgentTask)
    ensures
        r@ == registered(task@),
{
    RegisteredAgentTask::new(
        AgentRuntimeId::new(task.agent_runtime_id.clone()),
        AgentTaskId::new(task.task_id.clone()),
        match task.kind {
            SessionAgentTaskKind::Thread => AgentTaskKind::Thread,
            SessionAgentTaskKind::Background => AgentTaskKind::Background,
        },
    )
}

} // verus!
