//! The addresses of the services that know agent identities.

use vstd::prelude::*;
use vstd::string::*;

use crate::text;

verus! {

/// The address without the slashes at its end.
pub open spec fn without_slashes(url: Seq<char>) -> Seq<char> {
    text::without_trailing(url, '/')
}

/// The text without the suffix, where it has it.
pub open spec fn without_suffix(s: Seq<char>, suffix: Seq<char>) -> Seq<char> {
    match text::before_suffix(s, suffix) {
        Some(rest) => rest,
        None => s,
    }
}

pub const ENROLL_PATH: &'static str = "/wham/remote/control/server/enroll";

pub const SERVER_PATH: &'static str = "/wham/remote/control/server";

pub const CODEX_PATH: &'static str = "/codex";

pub const BACKEND_PATH: &'static str = "/backend-api";

pub const CHATGPT_HOST: &'static str = "https://chatgpt.com";

pub const OPENAI_CHAT_HOST: &'static str = "https://chat.openai.com";

/// The address without the path of the remote control server.
pub open spec fn without_server_path(url: Seq<char>) -> Seq<char> {
    match text::before_suffix(url, ENROLL_PATH@) {
        Some(rest) => rest,
        None => without_suffix(url, SERVER_PATH@),
    }
}

/// The address is one of ChatGPT.
pub open spec fn is_chatgpt(url: Seq<char>) -> bool {
    CHATGPT_HOST@.is_prefix_of(url) || OPENAI_CHAT_HOST@.is_prefix_of(url)
}

/// The address with the path of the backend, if it is one of ChatGPT and has
/// it not.
pub open spec fn with_backend_path(url: Seq<char>) -> Seq<char> {
    if is_chatgpt(url) && !text::contains_text(url, BACKEND_PATH@) {
        url + BACKEND_PATH@
    } else {
        url
    }
}

/// The address of the backend that belongs to a configured address.
pub open spec fn normalized(url: Seq<char>) -> Seq<char> {
    with_backend_path(
        without_suffix(without_server_path(without_slashes(url)), CODEX_PATH@),
    )
}

/// The address of the backend that belongs to a configured address.
pub fn normalize_chatgpt_base_url(chatgpt_base_url: &str) -> (r: String)
    ensures
        r@ == normalized(chatgpt_base_url@),
{
    let trimmed = text::trim_end_of(chatgpt_base_url, '/');
    let without_server = match text::strip_suffix(trimmed, ENROLL_PATH) {
        Some(rest) => rest,
        None => match text::strip_suffix(trimmed, SERVER_PATH) {
            Some(rest) => rest,
            None => trimmed,
        },
    };
    let base_url = match text::strip_suffix(without_server, CODEX_PATH) {
        Some(rest) => rest,
        None => without_server,
    };
    let is_chatgpt = text::starts_with(base_url, CHATGPT_HOST) || text::starts_with(
        base_url,
        OPENAI_CHAT_HOST,
    );
    if is_chatgpt && !text::contains(base_url, BACKEND_PATH) {
        text::concat(base_url, BACKEND_PATH)
    } else {
        base_url.to_owned()
    }
}

/// The address that an agent identity is registered at.
pub fn agent_registration_url(chatgpt_base_url: &str) -> (r: String)
    ensures
        r@ == without_slashes(chatgpt_base_url@) + "/v1/agent/register"@,
{
    text::concat(text::trim_end_of(chatgpt_base_url, '/'), "/v1/agent/register")
}

/// The address that a task of an agent is registered at.
pub fn agent_task_registration_url(chatgpt_base_url: &str, agent_runtime_id: &str) -> (r: String)
    ensures
        r@ == without_slashes(chatgpt_base_url@) + "/v1/agent/"@ + agent_runtime_id@
            + "/task/register"@,
{
    let mut r = text::trim_end_of(chatgpt_base_url, '/').to_owned();
    r.append("/v1/agent/");
    r.append(agent_runtime_id);
    r.append("/task/register");
    r
}

/// The address that biscuits for agent identities are minted at.
pub fn agent_identity_biscuit_url(chatgpt_base_url: &str) -> (r: String)
    ensures
        r@ == without_slashes(chatgpt_base_url@) + "/authenticate_app_v2"@,
{
    text::concat(text::trim_end_of(chatgpt_base_url, '/'), "/authenticate_app_v2")
}

/// A slash at the end of an address does not matter.
pub proof fn law_slash_at_end_does_not_matter(url: Seq<char>)
    ensures
        without_slashes(url.push('/')) == without_slashes(url),
        normalized(url.push('/')) == normalized(url),
{
    assert(url.push('/').drop_last() =~= url);
}

/// The address of a backend of ChatGPT has the path of the backend.
pub proof fn law_chatgpt_has_backend_path(url: Seq<char>)
    requires
        is_chatgpt(normalized(url)),
    ensures
        text::contains_text(normalized(url), BACKEND_PATH@),
{
    let base = without_suffix(without_server_path(without_slashes(url)), CODEX_PATH@);
    if is_chatgpt(base) && !text::contains_text(base, BACKEND_PATH@) {
        let whole = base + BACKEND_PATH@;
        assert(whole.subrange(base.len() as int, whole.len() as int) =~= BACKEND_PATH@);
        assert(text::occurs_at(whole, BACKEND_PATH@, base.len() as int));
    }
}

/// The address of a backend stands for itself. It would not where what was
/// taken off at its end stood there more than once.
pub proof fn law_normalized_stays(url: Seq<char>)
    requires
        ({
            let r = normalized(url);
            &&& without_slashes(r) == r
            &&& text::before_suffix(r, ENROLL_PATH@) is None
            &&& text::before_suffix(r, SERVER_PATH@) is None
            &&& text::before_suffix(r, CODEX_PATH@) is None
        }),
    ensures
        normalized(normalized(url)) == normalized(url),
{
    if is_chatgpt(normalized(url)) {
        law_chatgpt_has_backend_path(url);
    }
}

/// The paths end with different characters, none of which is a slash.
proof fn lemma_ends_of_paths()
    ensures
        ENROLL_PATH@.len() > 0 && ENROLL_PATH@.last() == 'l',
        SERVER_PATH@.len() > 0 && SERVER_PATH@.last() == 'r',
        CODEX_PATH@.len() > 0 && CODEX_PATH@.last() == 'x',
{
    reveal_strlit("/wham/remote/control/server/enroll");
    reveal_strlit("/wham/remote/control/server");
    reveal_strlit("/codex");
}

/// A text that ends with another character does not end with the path.
proof fn lemma_other_end(s: Seq<char>, path: Seq<char>)
    requires
        s.len() > 0,
        path.len() > 0,
        s.last() != path.last(),
    ensures
        text::before_suffix(s, path) is None,
{
    if path.is_suffix_of(s) {
        assert(s.subrange(s.len() - path.len(), s.len() as int).last() == path.last());
    }
}

/// The configured address of a backend may have the path of Codex, and behind it that of
/// the remote control server or of the enrollment there, and any slashes at its end:
/// they are taken off. An address of ChatGPT gets the path of the backend, unless it has
/// it. No other address changes.
pub proof fn law_backend_of_an_address(base: Seq<char>, slashes: nat)
    requires
        base.len() > 0,
        base.last() != '/',
        text::before_suffix(base, "/codex"@) is None,
        text::before_suffix(base, "/wham/remote/control/server"@) is None,
        text::before_suffix(base, "/wham/remote/control/server/enroll"@) is None,
    ensures
        ({
            let is_chatgpt = "https://chatgpt.com"@.is_prefix_of(base)
                || "https://chat.openai.com"@.is_prefix_of(base);
            let backend = if is_chatgpt && !text::contains_text(base, "/backend-api"@) {
                base + "/backend-api"@
            } else {
                base
            };
            let end = Seq::new(slashes, |i: int| '/');
            let codex = base + "/codex"@;
            &&& normalized(base + end) == backend
            &&& normalized(codex + end) == backend
            &&& normalized(base + "/wham/remote/control/server"@ + end) == backend
            &&& normalized(codex + "/wham/remote/control/server"@ + end) == backend
            &&& normalized(base + "/wham/remote/control/server/enroll"@ + end) == backend
            &&& normalized(codex + "/wham/remote/control/server/enroll"@ + end) == backend
        }),
{
    lemma_ends_of_paths();
    let codex = base + CODEX_PATH@;
    assert(codex.last() == 'x');
    text::law_prefix_and_suffix(codex, CODEX_PATH@, base);
    lemma_other_end(codex, SERVER_PATH@);
    lemma_other_end(codex, ENROLL_PATH@);
    text::law_trailing_run_is_taken_off(base, '/', slashes);
    text::law_trailing_run_is_taken_off(codex, '/', slashes);
    lemma_server_paths(base, slashes);
    lemma_server_paths(codex, slashes);
}

/// The path of the remote control server is taken off.
proof fn lemma_server_paths(s: Seq<char>, slashes: nat)
    ensures
        ({
            let end = Seq::new(slashes, |i: int| '/');
            &&& without_server_path(without_slashes(s + SERVER_PATH@ + end)) == s
            &&& without_server_path(without_slashes(s + ENROLL_PATH@ + end)) == s
        }),
{
    lemma_ends_of_paths();
    let server = s + SERVER_PATH@;
    let enroll = s + ENROLL_PATH@;
    assert(server.last() == 'r');
    assert(enroll.last() == 'l');
    text::law_trailing_run_is_taken_off(server, '/', slashes);
    text::law_trailing_run_is_taken_off(enroll, '/', slashes);
    text::law_prefix_and_suffix(server, SERVER_PATH@, s);
    text::law_prefix_and_suffix(enroll, ENROLL_PATH@, s);
    lemma_other_end(server, ENROLL_PATH@);
}

} // verus!
