//! An agent identity as a way to authenticate.

use vstd::prelude::*;
use vstd::string::*;

use crate::identity::task::AgentIdentityKey;
use crate::identity::url;
use crate::text;

verus! {

/// The plan of an account.
#[derive(Clone, Debug, PartialEq, Eq)]
pub enum PlanType {
    Plus,
    Pro,
    /// Another plan, by its name.
    Other(String),
}

/// The plan of an account.
#[verifier::ext_equal]
pub enum PlanView {
    Plus,
    Pro,
    Other(Seq<char>),
}

impl View for PlanType {
    type V = PlanView;

    open spec fn view(&self) -> PlanView {
        match *self {
            PlanType::Plus => PlanView::Plus,
            PlanType::Pro => PlanView::Pro,
            PlanType::Other(name) => PlanView::Other(name@),
        }
    }
}

impl PlanType {
    /// A copy of the plan.
    pub fn copy(&self) -> (r: Self)
        ensures
            r@ == self@,
    {
        match self {
            PlanType::Plus => PlanType::Plus,
            PlanType::Pro => PlanType::Pro,
            PlanType::Other(name) => PlanType::Other(name.clone()),
        }
    }
}

/// Claims carried by an agent identity JWT.
#[derive(Clone, Debug, PartialEq, Eq)]
pub struct AgentIdentityJwtClaims {
    pub agent_runtime_id: String,
    pub agent_private_key: String,
    pub account_id: String,
    pub chatgpt_user_id: String,
    pub email: String,
    pub plan_type: PlanType,
    pub chatgpt_account_is_fedramp: bool,
}

/// What is stored of an agent identity.
#[derive(Clone, Debug, PartialEq, Eq)]
pub struct AgentIdentityAuthRecord {
    pub agent_runtime_id: String,
    pub agent_private_key: String,
    pub account_id: String,
    pub chatgpt_user_id: String,
    pub email: String,
    pub plan_type: PlanType,
    pub chatgpt_account_is_fedramp: bool,
    pub registered_at: Option<String>,
}

/// The texts of a record.
#[verifier::ext_equal]
pub struct RecordView {
    pub agent_runtime_id: Seq<char>,
    pub agent_private_key: Seq<char>,
    pub account_id: Seq<char>,
    pub chatgpt_user_id: Seq<char>,
    pub email: Seq<char>,
    pub plan_type: PlanView,
    pub chatgpt_account_is_fedramp: bool,
    pub registered_at: Option<Seq<char>>,
}

impl View for AgentIdentityAuthRecord {
    type V = RecordView;

    open spec fn view(&self) -> RecordView {
        RecordView {
            agent_runtime_id: self.agent_runtime_id@,
            agent_private_key: self.agent_private_key@,
            account_id: self.account_id@,
            chatgpt_user_id: self.chatgpt_user_id@,
            email: self.email@,
            plan_type: self.plan_type@,
            chatgpt_account_is_fedramp: self.chatgpt_account_is_fedramp,
            registered_at: text::text_of(self.registered_at),
        }
    }
}

impl AgentIdentityAuthRecord {
    /// A copy of the record.
    pub fn copy(&self) -> (r: Self)
        ensures
            r@ == self@,
    {
        AgentIdentityAuthRecord {
            agent_runtime_id: self.agent_runtime_id.clone(),
            agent_private_key: self.agent_private_key.clone(),
            account_id: self.account_id.clone(),
            chatgpt_user_id: self.chatgpt_user_id.clone(),
            email: self.email.clone(),
            plan_type: self.plan_type.copy(),
            chatgpt_account_is_fedramp: self.chatgpt_account_is_fedramp,
            registered_at: text::copy_optional_text(&self.registered_at),
        }
    }
}

/// Where tasks are registered unless another address is configured.
pub const DEFAULT_CHATGPT_BACKEND_BASE_URL: &'static str = "https://chatgpt.com/backend-api";

/// The address that tasks are registered at.
pub open spec fn registration_base(chatgpt_base_url: Option<Seq<char>>) -> Seq<char> {
    match chatgpt_base_url {
        Some(configured) => url::normalized(configured),
        None => url::normalized(DEFAULT_CHATGPT_BACKEND_BASE_URL@),
    }
}

/// The text of an optional text.
pub open spec fn str_of(s: Option<&str>) -> Option<Seq<char>> {
    match s {
        Some(s) => Some(s@),
        None => None,
    }
}

/// The address that tasks are registered at.
pub fn registration_base_url(chatgpt_base_url: Option<&str>) -> (r: String)
    ensures
        r@ == registration_base(str_of(chatgpt_base_url)),
{
    match chatgpt_base_url {
        Some(configured) => url::normalize_chatgpt_base_url(configured),
        None => url::normalize_chatgpt_base_url(DEFAULT_CHATGPT_BACKEND_BASE_URL),
    }
}

/// What is to be done so that a task is there.
#[derive(Clone, Debug, PartialEq, Eq)]
pub enum TaskStep {
    /// Nothing: the task is registered.
    Registered,
    /// A task is to be registered at this address.
    Register { base_url: String },
}

/// A task slot needs a registration at the address, or none.
pub open spec fn is_step_for(
    step: TaskStep,
    slot: Option<Seq<char>>,
    chatgpt_base_url: Option<Seq<char>>,
) -> bool {
    match step {
        TaskStep::Registered => slot is Some,
        TaskStep::Register { base_url } => slot is None && base_url@ == registration_base(
            chatgpt_base_url,
        ),
    }
}

/// An agent identity, with the tasks that are registered for the process and
/// for its background work.
///
/// It is a snapshot: a task that is registered later, through another copy, does
/// not show in this one. Who shares an identity keeps the slots of the tasks and
/// takes a snapshot when one is needed.
#[derive(Debug, Clone)]
pub struct AgentIdentityAuth {
    record: AgentIdentityAuthRecord,
    process_task_id: Option<String>,
    background_task_id: Option<String>,
}

/// The texts of an agent identity.
#[verifier::ext_equal]
pub struct IdentityView {
    pub record: RecordView,
    pub process_task_id: Option<Seq<char>>,
    pub background_task_id: Option<Seq<char>>,
}

impl View for AgentIdentityAuth {
    type V = IdentityView;

    closed spec fn view(&self) -> IdentityView {
        IdentityView {
            record: self.record@,
            process_task_id: text::text_of(self.process_task_id),
            background_task_id: text::text_of(self.background_task_id),
        }
    }
}

/// A slot after a task was registered for it: what is there first stays.
pub open spec fn filled(slot: Option<Seq<char>>, task_id: Seq<char>) -> Option<Seq<char>> {
    match slot {
        Some(first) => Some(first),
        None => Some(task_id),
    }
}

impl AgentIdentityAuth {
    pub fn new(record: AgentIdentityAuthRecord) -> (r: Self)
        ensures
            r@ == (IdentityView {
                record: record@,
                process_task_id: None,
                background_task_id: None,
            }),
    {
        AgentIdentityAuth { record, process_task_id: None, background_task_id: None }
    }

    /// A copy of the identity.
    pub fn copy(&self) -> (r: Self)
        ensures
            r@ == self@,
    {
        AgentIdentityAuth {
            record: self.record.copy(),
            process_task_id: text::copy_optional_text(&self.process_task_id),
            background_task_id: text::copy_optional_text(&self.background_task_id),
        }
    }

    pub fn record(&self) -> (r: &AgentIdentityAuthRecord)
        ensures
            r@ == self@.record,
    {
        &self.record
    }

    pub fn process_task_id(&self) -> (r: Option<&str>)
        ensures
            str_of(r) == self@.process_task_id,
    {
        match &self.process_task_id {
            Some(task_id) => Some(task_id.as_str()),
            None => None,
        }
    }

    pub fn background_task_id(&self) -> (r: Option<&str>)
        ensures
            str_of(r) == self@.background_task_id,
    {
        match &self.background_task_id {
            Some(task_id) => Some(task_id.as_str()),
            None => None,
        }
    }

    /// What is to be done so that the process has a task.
    pub fn ensure_runtime(&self, chatgpt_base_url: Option<&str>) -> (r: TaskStep)
        ensures
            is_step_for(r, self@.process_task_id, str_of(chatgpt_base_url)),
    {
        match &self.process_task_id {
            Some(_) => TaskStep::Registered,
            None => TaskStep::Register { base_url: registration_base_url(chatgpt_base_url) },
        }
    }

    /// What is to be done so that background work has a task.
    pub fn ensure_background_task(&self, chatgpt_base_url: Option<&str>) -> (r: TaskStep)
        ensures
            is_step_for(r, self@.background_task_id, str_of(chatgpt_base_url)),
    {
        match &self.background_task_id {
            Some(_) => TaskStep::Registered,
            None => TaskStep::Register { base_url: registration_base_url(chatgpt_base_url) },
        }
    }

    /// A task was registered for the process. The first one stays.
    pub fn set_process_task(&mut self, task_id: String)
        ensures
            final(self)@ == (IdentityView {
                process_task_id: filled(old(self)@.process_task_id, task_id@),
                ..old(self)@
            }),
    {
        if self.process_task_id.is_none() {
            self.process_task_id = Some(task_id);
        }
    }

    /// A task was registered for background work. The first one stays.
    pub fn set_background_task(&mut self, task_id: String)
        ensures
            final(self)@ == (IdentityView {
                background_task_id: filled(old(self)@.background_task_id, task_id@),
                ..old(self)@
            }),
    {
        if self.background_task_id.is_none() {
            self.background_task_id = Some(task_id);
        }
    }

    pub fn account_id(&self) -> (r: &str)
        ensures
            r@ == self@.record.account_id,
    {
        self.record.account_id.as_str()
    }

    pub fn chatgpt_user_id(&self) -> (r: &str)
        ensures
            r@ == self@.record.chatgpt_user_id,
    {
        self.record.chatgpt_user_id.as_str()
    }

    pub fn email(&self) -> (r: &str)
        ensures
            r@ == self@.record.email,
    {
        self.record.email.as_str()
    }

    pub fn plan_type(&self) -> (r: PlanType)
        ensures
            r@ == self@.record.plan_type,
    {
        self.record.plan_type.copy()
    }

    pub fn is_fedramp_account(&self) -> (r: bool)
        ensures
            r == self@.record.chatgpt_account_is_fedramp,
    {
        self.record.chatgpt_account_is_fedramp
    }

    /// The key of the identity.
    pub fn key(&self) -> (r: AgentIdentityKey<'_>)
        ensures
            r.agent_runtime_id@ == self@.record.agent_runtime_id,
            r.private_key_pkcs8_base64@ == self@.record.agent_private_key,
    {
        AgentIdentityKey {
            agent_runtime_id: self.record.agent_runtime_id.as_str(),
            private_key_pkcs8_base64: self.record.agent_private_key.as_str(),
        }
    }
}

} // verus!
