//! Agent runtimes and the tasks that are registered for them.

use vstd::prelude::*;
use vstd::string::*;

verus! {

/// Stored key material for a registered agent identity.
#[derive(Clone, Copy, Debug, PartialEq, Eq)]
pub struct AgentIdentityKey<'a> {
    pub agent_runtime_id: &'a str,
    pub private_key_pkcs8_base64: &'a str,
}

/// Task binding to use when constructing a task-scoped agent assertion.
#[derive(Clone, Copy, Debug, PartialEq, Eq)]
pub struct AgentTaskAuthorizationTarget<'a> {
    pub agent_runtime_id: &'a str,
    pub task_id: &'a str,
}

/// What can be made into a text.
pub trait IntoText: Sized {
    /// The text.
    spec fn as_text(&self) -> Seq<char>;

    /// Gives the text.
    fn into_text(self) -> (r: String)
        ensures
            r@ == self.as_text(),
    ;
}

impl IntoText for String {
    open spec fn as_text(&self) -> Seq<char> {
        self@
    }

    fn into_text(self) -> (r: String) {
        self
    }
}

impl IntoText for &str {
    open spec fn as_text(&self) -> Seq<char> {
        self@
    }

    fn into_text(self) -> (r: String) {
        self.to_owned()
    }
}

/// What can be made into the ID of a runtime.
pub trait IntoRuntimeId: Sized {
    /// The text of the ID.
    spec fn runtime_text(&self) -> Seq<char>;

    /// Gives the ID.
    fn into_runtime_id(self) -> (r: AgentRuntimeId)
        ensures
            r@ == self.runtime_text(),
    ;
}

/// What can be made into the ID of a task.
pub trait IntoTaskId: Sized {
    /// The text of the ID.
    spec fn task_text(&self) -> Seq<char>;

    /// Gives the ID.
    fn into_task_id(self) -> (r: AgentTaskId)
        ensures
            r@ == self.task_text(),
    ;
}

/// Runtime identity that owns one or more registered agent tasks.
#[derive(Clone, Debug, PartialEq, Eq)]
pub struct AgentRuntimeId(String);

impl View for AgentRuntimeId {
    type V = Seq<char>;

    closed spec fn view(&self) -> Seq<char> {
        self.0@
    }
}

impl AgentRuntimeId {
    pub fn new(agent_runtime_id: impl IntoText) -> (r: Self)
        ensures
            r@ == agent_runtime_id.as_text(),
    {
        AgentRuntimeId(agent_runtime_id.into_text())
    }

    pub fn as_str(&self) -> (r: &str)
        ensures
            r@ == self@,
    {
        self.0.as_str()
    }

    pub fn into_string(self) -> (r: String)
        ensures
            r@ == self@,
    {
        self.0
    }

    /// A copy of the ID.
    pub fn copy(&self) -> (r: Self)
        ensures
            r@ == self@,
    {
        AgentRuntimeId(self.0.clone())
    }
}

impl IntoRuntimeId for AgentRuntimeId {
    open spec fn runtime_text(&self) -> Seq<char> {
        self@
    }

    fn into_runtime_id(self) -> (r: AgentRuntimeId) {
        self
    }
}

impl IntoRuntimeId for String {
    open spec fn runtime_text(&self) -> Seq<char> {
        self@
    }

    fn into_runtime_id(self) -> (r: AgentRuntimeId) {
        AgentRuntimeId::new(self)
    }
}

impl IntoRuntimeId for &str {
    open spec fn runtime_text(&self) -> Seq<char> {
        self@
    }

    fn into_runtime_id(self) -> (r: AgentRuntimeId) {
        AgentRuntimeId::new(self)
    }
}

impl From<String> for AgentRuntimeId {
    fn from(agent_runtime_id: String) -> (r: Self)
        ensures
            r@ == agent_runtime_id@,
    {
        AgentRuntimeId::new(agent_runtime_id)
    }
}

impl vstd::std_specs::convert::FromSpecImpl<String> for AgentRuntimeId {
    open spec fn obeys_from_spec() -> bool {
        false
    }

    open spec fn from_spec(agent_runtime_id: String) -> Self {
        arbitrary()
    }
}

impl From<&str> for AgentRuntimeId {
    fn from(agent_runtime_id: &str) -> (r: Self)
        ensures
            r@ == agent_runtime_id@,
    {
        AgentRuntimeId::new(agent_runtime_id)
    }
}

impl vstd::std_specs::convert::FromSpecImpl<&str> for AgentRuntimeId {
    open spec fn obeys_from_spec() -> bool {
        false
    }

    open spec fn from_spec(agent_runtime_id: &str) -> Self {
        arbitrary()
    }
}

/// Task identifier granted to an agent runtime for a scoped objective.
#[derive(Clone, Debug, PartialEq, Eq)]
pub struct AgentTaskId(String);

impl View for AgentTaskId {
    type V = Seq<char>;

    closed spec fn view(&self) -> Seq<char> {
        self.0@
    }
}

impl AgentTaskId {
    pub fn new(task_id: impl IntoText) -> (r: Self)
        ensures
            r@ == task_id.as_text(),
    {
        AgentTaskId(task_id.into_text())
    }

    pub fn as_str(&self) -> (r: &str)
        ensures
            r@ == self@,
    {
        self.0.as_str()
    }

    pub fn into_string(self) -> (r: String)
        ensures
            r@ == self@,
    {
        self.0
    }

    /// A copy of the ID.
    pub fn copy(&self) -> (r: Self)
        ensures
            r@ == self@,
    {
        AgentTaskId(self.0.clone())
    }
}

impl IntoTaskId for AgentTaskId {
    open spec fn task_text(&self) -> Seq<char> {
        self@
    }

    fn into_task_id(self) -> (r: AgentTaskId) {
        self
    }
}

impl IntoTaskId for String {
    open spec fn task_text(&self) -> Seq<char> {
        self@
    }

    fn into_task_id(self) -> (r: AgentTaskId) {
        AgentTaskId::new(self)
    }
}

impl IntoTaskId for &str {
    open spec fn task_text(&self) -> Seq<char> {
        self@
    }

    fn into_task_id(self) -> (r: AgentTaskId) {
        AgentTaskId::new(self)
    }
}

impl From<String> for AgentTaskId {
    fn from(task_id: String) -> (r: Self)
        ensures
            r@ == task_id@,
    {
        AgentTaskId::new(task_id)
    }
}

impl vstd::std_specs::convert::FromSpecImpl<String> for AgentTaskId {
    open spec fn obeys_from_spec() -> bool {
        false
    }

    open spec fn from_spec(task_id: String) -> Self {
        arbitrary()
    }
}

impl From<&str> for AgentTaskId {
    fn from(task_id: &str) -> (r: Self)
        ensures
            r@ == task_id@,
    {
        AgentTaskId::new(task_id)
    }
}

impl vstd::std_specs::convert::FromSpecImpl<&str> for AgentTaskId {
    open spec fn obeys_from_spec() -> bool {
        false
    }

    open spec fn from_spec(task_id: &str) -> Self {
        arbitrary()
    }
}

/// Purpose of a registered task binding.
#[derive(Clone, Copy, Debug, PartialEq, Eq, Structural)]
pub enum AgentTaskKind {
    Thread,
    Background,
}

/// Registered task binding used to authorize work for an agent runtime.
#[derive(Clone, Debug, PartialEq, Eq)]
pub struct RegisteredAgentTask {
    pub agent_runtime_id: AgentRuntimeId,
    pub task_id: AgentTaskId,
    pub kind: AgentTaskKind,
}

/// The texts of a registered task.
#[verifier::ext_equal]
pub struct TaskView {
    pub agent_runtime_id: Seq<char>,
    pub task_id: Seq<char>,
    pub kind: AgentTaskKind,
}

impl View for RegisteredAgentTask {
    type V = TaskView;

    open spec fn view(&self) -> TaskView {
        TaskView {
            agent_runtime_id: self.agent_runtime_id@,
            task_id: self.task_id@,
            kind: self.kind,
        }
    }
}

impl RegisteredAgentTask {
    pub fn new(
        agent_runtime_id: impl IntoRuntimeId,
        task_id: impl IntoTaskId,
        kind: AgentTaskKind,
    ) -> (r: Self)
        ensures
            r@ == (TaskView {
                agent_runtime_id: agent_runtime_id.runtime_text(),
                task_id: task_id.task_text(),
                kind,
            }),
    {
        RegisteredAgentTask {
            agent_runtime_id: agent_runtime_id.into_runtime_id(),
            task_id: task_id.into_task_id(),
            kind,
        }
    }

    pub fn authorization_target(&self) -> (r: AgentTaskAuthorizationTarget<'_>)
        ensures
            r.agent_runtime_id@ == self@.agent_runtime_id,
            r.task_id@ == self@.task_id,
    {
        AgentTaskAuthorizationTarget {
            agent_runtime_id: self.agent_runtime_id.as_str(),
            task_id: self.task_id.as_str(),
        }
    }

    /// A copy of the task.
    pub fn copy(&self) -> (r: Self)
        ensures
            r@ == self@,
    {
        RegisteredAgentTask {
            agent_runtime_id: self.agent_runtime_id.copy(),
            task_id: self.task_id.copy(),
            kind: self.kind,
        }
    }
}

} // verus!
