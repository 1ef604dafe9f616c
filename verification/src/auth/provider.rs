//! Which authentication applies to a model provider, and the headers of one
//! with an agent identity.

use vstd::prelude::*;
use vstd::string::*;

use crate::auth::headers;
use crate::auth::identity;
use crate::auth::identity::AgentIdentityAuth;
use crate::auth::identity::IdentityView;
use crate::identity::assertion;
use crate::identity::error::IdentityError;
use crate::identity::error::IdentityErrorView;
use crate::identity::task::AgentRuntimeId;
use crate::identity::task::AgentTaskAuthorizationTarget;
use crate::identity::task::AgentTaskId;
use crate::identity::task::AgentTaskKind;
use crate::identity::task::RegisteredAgentTask;
use crate::identity::task::TaskView;
use crate::text;
use crate::time;
use crate::time::Instant;

verus! {

/// An agent identity, and the task that it is to be used for.
#[derive(Clone, Debug)]
pub struct AgentTaskAuth {
    auth: AgentIdentityAuth,
    task: RegisteredAgentTask,
}

/// The texts of an agent identity and a task.
#[verifier::ext_equal]
pub struct TaskAuthView {
    pub auth: IdentityView,
    pub task: TaskView,
}

impl View for AgentTaskAuth {
    type V = TaskAuthView;

    closed spec fn view(&self) -> TaskAuthView {
        TaskAuthView { auth: self.auth@, task: self.task@ }
    }
}

impl AgentTaskAuth {
    pub fn new(auth: AgentIdentityAuth, task: RegisteredAgentTask) -> (r: Self)
        ensures
            r@ == (TaskAuthView { auth: auth@, task: task@ }),
    {
        AgentTaskAuth { auth, task }
    }

    /// The agent identity.
    pub fn auth(&self) -> (r: &AgentIdentityAuth)
        ensures
            r@ == self@.auth,
    {
        &self.auth
    }

    /// The task.
    pub fn task(&self) -> (r: &RegisteredAgentTask)
        ensures
            r@ == self@.task,
    {
        &self.task
    }
}

/// Why an authentication cannot be used.
#[derive(Clone, Debug, PartialEq, Eq)]
pub enum ProviderError {
    /// The process has no task.
    ProcessTaskMissing,
    /// Background work has no task.
    BackgroundTaskMissing,
    /// The agent identity cannot be used.
    Identity(IdentityError),
}

/// The texts of an error.
#[verifier::ext_equal]
pub enum ProviderErrorView {
    ProcessTaskMissing,
    BackgroundTaskMissing,
    Identity(IdentityErrorView),
}

impl View for ProviderError {
    type V = ProviderErrorView;

    open spec fn view(&self) -> ProviderErrorView {
        match *self {
            ProviderError::ProcessTaskMissing => ProviderErrorView::ProcessTaskMissing,
            ProviderError::BackgroundTaskMissing => ProviderErrorView::BackgroundTaskMissing,
            ProviderError::Identity(error) => ProviderErrorView::Identity(error@),
        }
    }
}

/// What is wrong, in words.
pub open spec fn error_text(error: ProviderErrorView) -> Seq<char> {
    match error {
        ProviderErrorView::ProcessTaskMissing => "agent identity process task is not initialized"@,
        ProviderErrorView::BackgroundTaskMissing =>
            "agent identity background task is not initialized"@,
        ProviderErrorView::Identity(error) => crate::identity::error::error_text(error),
    }
}

impl ProviderError {
    /// What is wrong, in words.
    pub fn text(&self) -> (r: String)
        ensures
            r@ == error_text(self@),
    {
        match self {
            ProviderError::ProcessTaskMissing => {
                "agent identity process task is not initialized".to_owned()
            },
            ProviderError::BackgroundTaskMissing => {
                "agent identity background task is not initialized".to_owned()
            },
            ProviderError::Identity(error) => error.text(),
        }
    }
}

/// Authentication with an agent identity, for a task or for that of the
/// process. It holds a snapshot of the identity, so that a task of the process
/// which is registered later does not show in its headers.
#[derive(Clone, Debug)]
pub struct AgentIdentityAuthProvider {
    auth: AgentIdentityAuth,
    task: Option<RegisteredAgentTask>,
}

/// The texts of an authentication with an agent identity.
#[verifier::ext_equal]
pub struct IdentityProviderView {
    pub auth: IdentityView,
    pub task: Option<TaskView>,
}

impl View for AgentIdentityAuthProvider {
    type V = IdentityProviderView;

    closed spec fn view(&self) -> IdentityProviderView {
        IdentityProviderView {
            auth: self.auth@,
            task: match self.task {
                Some(task) => Some(task@),
                None => None,
            },
        }
    }
}

pub const AUTHORIZATION_HEADER: &'static str = "authorization";

pub const ACCOUNT_HEADER: &'static str = "chatgpt-account-id";

pub const FEDRAMP_HEADER: &'static str = "x-openai-fedramp";

/// The value of the authorization header at a time, or why there is none.
pub open spec fn authorization_at(p: IdentityProviderView, timestamp: Seq<char>) -> Result<
    Seq<char>,
    ProviderErrorView,
> {
    let record = p.auth.record;
    let header = match p.task {
        Some(task) => Some(
            assertion::header_result(
                record.agent_runtime_id,
                record.agent_private_key,
                task.agent_runtime_id,
                task.task_id,
                timestamp,
            ),
        ),
        None => match p.auth.process_task_id {
            Some(task_id) => Some(
                assertion::header_result(
                    record.agent_runtime_id,
                    record.agent_private_key,
                    record.agent_runtime_id,
                    task_id,
                    timestamp,
                ),
            ),
            None => None,
        },
    };
    match header {
        Some(Ok(text)) => Ok(text),
        Some(Err(error)) => Err(ProviderErrorView::Identity(error)),
        None => Err(ProviderErrorView::ProcessTaskMissing),
    }
}

/// The headers with those that an agent identity adds: the authorization, if
/// there is one, the account, and the mark of a FedRAMP account.
pub open spec fn with_identity_headers(
    values: Map<Seq<char>, Seq<Seq<u8>>>,
    authorization: Option<Seq<char>>,
    account_id: Seq<char>,
    is_fedramp_account: bool,
) -> Map<Seq<char>, Seq<Seq<u8>>> {
    let authorized = match authorization {
        Some(header) => if headers::is_header_text(header) {
            headers::with_header(values, AUTHORIZATION_HEADER@, header)
        } else {
            values
        },
        None => values,
    };
    let routed = if headers::is_header_text(account_id) {
        headers::with_header(authorized, ACCOUNT_HEADER@, account_id)
    } else {
        authorized
    };
    if is_fedramp_account {
        headers::with_header(routed, FEDRAMP_HEADER@, "true"@)
    } else {
        routed
    }
}

/// The success of a result.
pub open spec fn success(r: Result<Seq<char>, ProviderErrorView>) -> Option<Seq<char>> {
    match r {
        Ok(text) => Some(text),
        Err(_) => None,
    }
}

/// The headers with those that an agent identity adds at a time.
pub open spec fn with_headers_at(
    values: Map<Seq<char>, Seq<Seq<u8>>>,
    p: IdentityProviderView,
    timestamp: Seq<char>,
) -> Map<Seq<char>, Seq<Seq<u8>>> {
    with_identity_headers(
        values,
        success(authorization_at(p, timestamp)),
        p.auth.record.account_id,
        p.auth.record.chatgpt_account_is_fedramp,
    )
}

/// The authorization at a time, if there is one, can stand in a header.
pub open spec fn authorization_fits(p: IdentityProviderView, timestamp: Seq<char>) -> bool {
    authorization_at(p, timestamp) matches Ok(header) ==> headers::is_header_text(header)
}

/// The names of the headers.
proof fn lemma_header_names()
    ensures
        headers::is_header_name(AUTHORIZATION_HEADER@),
        headers::is_header_name(ACCOUNT_HEADER@),
        headers::is_header_name(FEDRAMP_HEADER@),
        headers::is_header_text("true"@),
{
    reveal_strlit("authorization");
    reveal_strlit("chatgpt-account-id");
    reveal_strlit("x-openai-fedramp");
    reveal_strlit("true");
}

/// Sets a header, if the text can be its value.
fn set_header(
    headers: &mut http::HeaderMap<http::HeaderValue>,
    name: &'static str,
    text: &str,
)
    requires
        headers::is_header_name(name@),
        headers::has_room(headers::header_values(*old(headers)), 1),
    ensures
        headers::header_values(*final(headers)) == (if headers::is_header_text(text@) {
            headers::with_header(headers::header_values(*old(headers)), name@, text@)
        } else {
            headers::header_values(*old(headers))
        }),
        forall|n: nat|
            headers::has_room(headers::header_values(*old(headers)), n + 1)
                ==> #[trigger] headers::has_room(headers::header_values(*final(headers)), n),
{
    if let Ok(value) = headers::header_value(text) {
        headers::insert_header(headers, name, value);
    }
}

impl AgentIdentityAuthProvider {
    /// The task that the identity is used for, unless it is that of the process.
    pub fn task(&self) -> (r: Option<&RegisteredAgentTask>)
        ensures
            match r {
                Some(task) => self@.task == Some(task@),
                None => self@.task is None,
            },
    {
        self.task.as_ref()
    }

    /// The value of the authorization header at a time.
    pub fn authorization_at(&self, timestamp: &str) -> (r: Result<String, ProviderError>)
        ensures
            match r {
                Ok(header) => authorization_at(self@, timestamp@) == Ok::<
                    Seq<char>,
                    ProviderErrorView,
                >(header@) && headers::is_header_text(header@),
                Err(error) => authorization_at(self@, timestamp@) == Err::<
                    Seq<char>,
                    ProviderErrorView,
                >(error@),
            },
    {
        let key = self.auth.key();
        let header = match &self.task {
            Some(task) => assertion::authorization_header_at(
                key,
                task.authorization_target(),
                timestamp,
            ),
            None => match self.auth.process_task_id() {
                Some(task_id) => assertion::authorization_header_at(
                    key,
                    AgentTaskAuthorizationTarget { agent_runtime_id: key.agent_runtime_id, task_id },
                    timestamp,
                ),
                None => return Err(ProviderError::ProcessTaskMissing),
            },
        };
        match header {
            Ok(text) => Ok(text),
            Err(error) => Err(ProviderError::Identity(error)),
        }
    }

    /// Adds the headers of the identity, with the given authorization.
    pub fn add_headers_with(
        &self,
        authorization: Option<&str>,
        headers: &mut http::HeaderMap<http::HeaderValue>,
    )
        requires
            headers::has_room(headers::header_values(*old(headers)), 3),
        ensures
            headers::header_values(*final(headers)) == with_identity_headers(
                headers::header_values(*old(headers)),
                identity::str_of(authorization),
                self@.auth.record.account_id,
                self@.auth.record.chatgpt_account_is_fedramp,
            ),
    {
        proof {
            lemma_header_names();
            assert(headers::has_room(headers::header_values(*headers), 2 + 1));
        }
        if let Some(header) = authorization {
            set_header(headers, AUTHORIZATION_HEADER, header);
        }
        assert(headers::has_room(headers::header_values(*headers), 2));
        assert(headers::has_room(headers::header_values(*headers), 1 + 1));
        set_header(headers, ACCOUNT_HEADER, self.auth.account_id());
        assert(headers::has_room(headers::header_values(*headers), 1));
        if self.auth.is_fedramp_account() {
            set_header(headers, FEDRAMP_HEADER, "true");
        }
    }

    /// Adds the headers of the identity at the given time. An authorization that
    /// can be made is set: it can stand in a header.
    pub fn add_auth_headers_at(
        &self,
        timestamp: &str,
        headers: &mut http::HeaderMap<http::HeaderValue>,
    )
        requires
            headers::has_room(headers::header_values(*old(headers)), 3),
        ensures
            headers::header_values(*final(headers)) == with_headers_at(
                headers::header_values(*old(headers)),
                self@,
                timestamp@,
            ),
            authorization_fits(self@, timestamp@),
    {
        match self.authorization_at(timestamp) {
            Ok(header) => self.add_headers_with(Some(header.as_str()), headers),
            Err(_) => self.add_headers_with(None, headers),
        }
    }

    /// Adds the headers of the identity at the current time. Whatever the time,
    /// an authorization that can be made is set: it can stand in a header.
    pub fn add_auth_headers(&self, headers: &mut http::HeaderMap<http::HeaderValue>)
        requires
            headers::has_room(headers::header_values(*old(headers)), 3),
        ensures
            exists|now: Instant|
                time::is_instant(now) && headers::header_values(*final(headers))
                    == with_headers_at(
                    headers::header_values(*old(headers)),
                    self@,
                    #[trigger] assertion::timestamp_text(now),
                ) && authorization_fits(self@, assertion::timestamp_text(now)),
    {
        let timestamp = assertion::current_timestamp();
        self.add_auth_headers_at(timestamp.as_str(), headers);
    }

    /// Adds the headers of the identity at the current time, if there is room
    /// for them, and says whether there was.
    pub fn try_add_auth_headers(&self, headers: &mut http::HeaderMap<http::HeaderValue>) -> (r:
        bool)
        ensures
            r == headers::has_room(headers::header_values(*old(headers)), 3),
            !r ==> headers::header_values(*final(headers)) == headers::header_values(
                *old(headers),
            ),
            r ==> exists|now: Instant|
                time::is_instant(now) && headers::header_values(*final(headers))
                    == with_headers_at(
                    headers::header_values(*old(headers)),
                    self@,
                    #[trigger] assertion::timestamp_text(now),
                ) && authorization_fits(self@, assertion::timestamp_text(now)),
    {
        if headers::count_headers(headers) <= headers::MAX_HEADERS - 2 {
            self.add_auth_headers(headers);
            true
        } else {
            false
        }
    }

    /// The headers of the identity at the current time.
    pub fn to_auth_headers(&self) -> (r: http::HeaderMap<http::HeaderValue>)
        ensures
            exists|now: Instant|
                time::is_instant(now) && headers::header_values(r) == with_headers_at(
                    headers::no_values(),
                    self@,
                    #[trigger] assertion::timestamp_text(now),
                ) && authorization_fits(self@, assertion::timestamp_text(now)),
    {
        let mut headers = headers::no_headers();
        self.add_auth_headers(&mut headers);
        headers
    }
}

/// No authentication. Some providers are meant to send no auth headers, such
/// as local ones.
#[derive(Clone, Copy, Debug)]
pub struct UnauthenticatedAuthProvider;

impl UnauthenticatedAuthProvider {
    /// Adds no headers.
    pub fn add_auth_headers(&self, headers: &mut http::HeaderMap<http::HeaderValue>)
        ensures
            *final(headers) == *old(headers),
    {
    }

    /// No headers.
    pub fn to_auth_headers(&self) -> (r: http::HeaderMap<http::HeaderValue>)
        ensures
            headers::header_values(r) == headers::no_values(),
    {
        let mut headers = headers::no_headers();
        self.add_auth_headers(&mut headers);
        headers
    }
}

/// Authentication with a bearer token.
#[derive(Clone, Debug, PartialEq, Eq)]
pub struct BearerAuthProvider {
    pub token: Option<String>,
    pub account_id: Option<String>,
    pub is_fedramp_account: bool,
}

/// The texts of an authentication with a bearer token.
#[verifier::ext_equal]
pub struct BearerView {
    pub token: Option<Seq<char>>,
    pub account_id: Option<Seq<char>>,
    pub is_fedramp_account: bool,
}

impl View for BearerAuthProvider {
    type V = BearerView;

    open spec fn view(&self) -> BearerView {
        BearerView {
            token: text::text_of(self.token),
            account_id: text::text_of(self.account_id),
            is_fedramp_account: self.is_fedramp_account,
        }
    }
}

impl BearerAuthProvider {
    /// A token for no account in particular.
    pub fn new(token: String) -> (r: Self)
        ensures
            r@ == bearer_of(token@),
    {
        BearerAuthProvider { token: Some(token), account_id: None, is_fedramp_account: false }
    }

    /// A copy of the token and its account.
    pub fn copy(&self) -> (r: Self)
        ensures
            r@ == self@,
    {
        BearerAuthProvider {
            token: text::copy_optional_text(&self.token),
            account_id: text::copy_optional_text(&self.account_id),
            is_fedramp_account: self.is_fedramp_account,
        }
    }
}

/// A token for no account in particular.
pub open spec fn bearer_of(token: Seq<char>) -> BearerView {
    BearerView { token: Some(token), account_id: None, is_fedramp_account: false }
}

/// How a user is logged in.
#[derive(Clone, Debug)]
pub enum CodexAuth {
    /// With an agent identity.
    AgentIdentity(AgentIdentityAuth),
    /// With an API key.
    ApiKey(BearerAuthProvider),
    /// With ChatGPT.
    Chatgpt(BearerAuthProvider),
    /// With tokens of ChatGPT that come from outside.
    ChatgptAuthTokens(BearerAuthProvider),
}

/// What authenticates the requests to a provider.
#[derive(Clone, Debug)]
pub enum SharedAuthProvider {
    AgentIdentity(AgentIdentityAuthProvider),
    Bearer(BearerAuthProvider),
    Unauthenticated(UnauthenticatedAuthProvider),
}

/// The texts of what authenticates requests.
#[verifier::ext_equal]
pub enum ProviderView {
    AgentIdentity(IdentityProviderView),
    Bearer(BearerView),
    Unauthenticated,
}

impl View for SharedAuthProvider {
    type V = ProviderView;

    open spec fn view(&self) -> ProviderView {
        match *self {
            SharedAuthProvider::AgentIdentity(p) => ProviderView::AgentIdentity(p@),
            SharedAuthProvider::Bearer(p) => ProviderView::Bearer(p@),
            SharedAuthProvider::Unauthenticated(_) => ProviderView::Unauthenticated,
        }
    }
}

/// What is configured for a model provider.
#[derive(Clone, Debug, PartialEq, Eq)]
pub struct ModelProviderInfo {
    /// The requests need the login of OpenAI.
    pub requires_openai_auth: bool,
    /// The variable of the environment that holds the API key.
    pub env_key: Option<String>,
    pub experimental_bearer_token: Option<String>,
    /// A command gives the token.
    pub has_command_auth: bool,
    /// The requests are signed for AWS.
    pub has_aws_auth: bool,
}

/// The provider takes the login of the user and nothing of its own.
pub open spec fn is_first_party(provider: ModelProviderInfo) -> bool {
    &&& provider.requires_openai_auth
    &&& provider.env_key is None
    &&& provider.experimental_bearer_token is None
    &&& !provider.has_command_auth
    &&& !provider.has_aws_auth
}

/// Whether the provider takes the login of the user and nothing of its own.
pub fn provider_uses_first_party_auth_path(provider: &ModelProviderInfo) -> (r: bool)
    ensures
        r == is_first_party(*provider),
{
    provider.requires_openai_auth && provider.env_key.is_none()
        && provider.experimental_bearer_token.is_none() && !provider.has_command_auth
        && !provider.has_aws_auth
}

pub fn unauthenticated_auth_provider() -> (r: SharedAuthProvider)
    ensures
        r@ == ProviderView::Unauthenticated,
{
    SharedAuthProvider::Unauthenticated(UnauthenticatedAuthProvider)
}

/// Where the tokens for a provider come from.
#[derive(Clone, Copy, Debug, PartialEq, Eq)]
pub enum TokenSource {
    /// From the command of the provider.
    Command,
    /// From the login of the user.
    Login,
}

/// Where the tokens for a provider come from: from its own command, if it has
/// one.
pub fn auth_manager_for_provider(provider: &ModelProviderInfo) -> (r: TokenSource)
    ensures
        r == (if provider.has_command_auth {
            TokenSource::Command
        } else {
            TokenSource::Login
        }),
{
    if provider.has_command_auth {
        TokenSource::Command
    } else {
        TokenSource::Login
    }
}

/// What authenticates requests with the login of a user.
pub open spec fn provider_of_auth(auth: CodexAuth) -> ProviderView {
    match auth {
        CodexAuth::AgentIdentity(identity) => ProviderView::AgentIdentity(
            IdentityProviderView { auth: identity@, task: None },
        ),
        CodexAuth::ApiKey(bearer) => ProviderView::Bearer(bearer@),
        CodexAuth::Chatgpt(bearer) => ProviderView::Bearer(bearer@),
        CodexAuth::ChatgptAuthTokens(bearer) => ProviderView::Bearer(bearer@),
    }
}

/// What authenticates requests with an agent identity for a task.
pub open spec fn provider_of_task(auth: IdentityView, task: TaskView) -> ProviderView {
    ProviderView::AgentIdentity(IdentityProviderView { auth, task: Some(task) })
}

/// Builds request-header auth for a first-party auth snapshot.
pub fn auth_provider_from_auth(auth: &CodexAuth) -> (r: SharedAuthProvider)
    ensures
        r@ == provider_of_auth(*auth),
{
    match auth {
        CodexAuth::AgentIdentity(identity) => SharedAuthProvider::AgentIdentity(
            AgentIdentityAuthProvider { auth: identity.copy(), task: None },
        ),
        CodexAuth::ApiKey(bearer) => SharedAuthProvider::Bearer(bearer.copy()),
        CodexAuth::Chatgpt(bearer) => SharedAuthProvider::Bearer(bearer.copy()),
        CodexAuth::ChatgptAuthTokens(bearer) => SharedAuthProvider::Bearer(bearer.copy()),
    }
}

/// Builds request-header auth with an agent identity for a task.
pub fn auth_provider_from_agent_task(auth: AgentIdentityAuth, task: RegisteredAgentTask) -> (r:
    SharedAuthProvider)
    ensures
        r@ == provider_of_task(auth@, task@),
{
    SharedAuthProvider::AgentIdentity(AgentIdentityAuthProvider { auth, task: Some(task) })
}

/// The token that a provider has of its own: the API key from its variable of
/// the environment, or the one that is configured.
pub open spec fn own_token(provider: ModelProviderInfo, api_key: Option<String>) -> Option<
    Seq<char>,
> {
    match api_key {
        Some(key) => Some(key@),
        None => text::text_of(provider.experimental_bearer_token),
    }
}

/// The token that a provider has of its own. `api_key` is what its variable of
/// the environment holds.
pub fn bearer_auth_for_provider(provider: &ModelProviderInfo, api_key: Option<String>) -> (r:
    Option<BearerAuthProvider>)
    ensures
        match own_token(*provider, api_key) {
            Some(token) => r matches Some(bearer) && bearer@ == bearer_of(token),
            None => r is None,
        },
{
    if let Some(key) = api_key {
        return Some(BearerAuthProvider::new(key));
    }
    match &provider.experimental_bearer_token {
        Some(token) => Some(BearerAuthProvider::new(token.clone())),
        None => None,
    }
}

/// What authenticates the requests to a provider: its own token, then the task
/// of the agent, if the provider takes the login of the user, then that login.
pub open spec fn resolved(
    auth: Option<&CodexAuth>,
    provider: ModelProviderInfo,
    agent_task_auth: Option<TaskAuthView>,
    api_key: Option<String>,
) -> ProviderView {
    match own_token(provider, api_key) {
        Some(token) => ProviderView::Bearer(bearer_of(token)),
        None => match agent_task_auth {
            Some(task_auth) if is_first_party(provider) => provider_of_task(
                task_auth.auth,
                task_auth.task,
            ),
            _ => match auth {
                Some(auth) => provider_of_auth(*auth),
                None => ProviderView::Unauthenticated,
            },
        },
    }
}

/// What authenticates the requests to a provider. `api_key` is what its
/// variable of the environment holds.
pub fn resolve_provider_auth(
    auth: Option<&CodexAuth>,
    provider: &ModelProviderInfo,
    agent_task_auth: Option<AgentTaskAuth>,
    api_key: Option<String>,
) -> (r: SharedAuthProvider)
    ensures
        r@ == resolved(
            auth,
            *provider,
            match agent_task_auth {
                Some(task_auth) => Some(task_auth@),
                None => None,
            },
            api_key,
        ),
{
    if let Some(bearer) = bearer_auth_for_provider(provider, api_key) {
        return SharedAuthProvider::Bearer(bearer);
    }
    if let Some(task_auth) = agent_task_auth {
        if provider_uses_first_party_auth_path(provider) {
            return auth_provider_from_agent_task(task_auth.auth, task_auth.task);
        }
    }
    match auth {
        Some(auth) => auth_provider_from_auth(auth),
        None => unauthenticated_auth_provider(),
    }
}

/// What authenticates background work with an agent identity.
pub open spec fn background_provider(auth: IdentityView) -> Result<
    ProviderView,
    ProviderErrorView,
> {
    match auth.background_task_id {
        Some(task_id) => Ok(
            provider_of_task(
                auth,
                TaskView {
                    agent_runtime_id: auth.record.agent_runtime_id,
                    task_id,
                    kind: AgentTaskKind::Background,
                },
            ),
        ),
        None => Err(ProviderErrorView::BackgroundTaskMissing),
    }
}

/// Builds background/control-plane auth with an agent identity, once its
/// background task is registered.
pub fn background_auth_provider_from_agent_identity_auth(auth: &AgentIdentityAuth) -> (r: Result<
    SharedAuthProvider,
    ProviderError,
>)
    ensures
        match r {
            Ok(provider) => background_provider(auth@) == Ok::<ProviderView, ProviderErrorView>(
                provider@,
            ),
            Err(error) => background_provider(auth@) == Err::<ProviderView, ProviderErrorView>(
                error@,
            ),
        },
{
    let task_id = match auth.background_task_id() {
        Some(task_id) => task_id,
        None => return Err(ProviderError::BackgroundTaskMissing),
    };
    let task = RegisteredAgentTask::new(
        AgentRuntimeId::new(auth.record().agent_runtime_id.clone()),
        AgentTaskId::new(task_id),
        AgentTaskKind::Background,
    );
    Ok(auth_provider_from_agent_task(auth.copy(), task))
}

/// What is to be done for background/control-plane auth.
#[derive(Clone, Debug)]
pub enum BackgroundStep {
    /// Nothing: requests are authenticated with this.
    Ready(SharedAuthProvider),
    /// The background task of the agent identity is to be registered at this
    /// address.
    Register { base_url: String },
}

/// The step is what is to be done for background auth with the login.
pub open spec fn is_background_step(
    step: BackgroundStep,
    auth: CodexAuth,
    chatgpt_base_url: Option<Seq<char>>,
) -> bool {
    match auth {
        CodexAuth::AgentIdentity(identity) => match step {
            BackgroundStep::Ready(provider) => background_provider(identity@) == Ok::<
                ProviderView,
                ProviderErrorView,
            >(provider@),
            BackgroundStep::Register { base_url } => identity@.background_task_id is None
                && base_url@ == identity::registration_base(chatgpt_base_url),
        },
        _ => step matches BackgroundStep::Ready(provider) && provider@ == provider_of_auth(auth),
    }
}

/// What is to be done for background/control-plane auth with the concrete auth
/// snapshot.
pub fn background_auth_provider_from_auth(auth: &CodexAuth, chatgpt_base_url: Option<&str>) -> (r:
    BackgroundStep)
    ensures
        is_background_step(r, *auth, identity::str_of(chatgpt_base_url)),
{
    match auth {
        CodexAuth::AgentIdentity(identity) => {
            match background_auth_provider_from_agent_identity_auth(identity) {
                Ok(provider) => BackgroundStep::Ready(provider),
                Err(_) => BackgroundStep::Register {
                    base_url: identity::registration_base_url(chatgpt_base_url),
                },
            }
        },
        CodexAuth::ApiKey(_) | CodexAuth::Chatgpt(_) | CodexAuth::ChatgptAuthTokens(_) => {
            BackgroundStep::Ready(auth_provider_from_auth(auth))
        },
    }
}

} // verus!
