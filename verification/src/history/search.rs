//! Search by text content, role, session and time range.

use vstd::prelude::*;
use vstd::string::*;

use crate::history::entry::HistoryEntry;
use crate::history::entry::Role;
use crate::text;
use crate::time;
use crate::time::Timestamp;

verus! {

/// What `str::to_lowercase` gives for a text.
pub uninterp spec fn lower_cased(s: Seq<char>) -> Seq<char>;

/// `str::to_lowercase`: the lowercase equivalent of the text, which Unicode
/// defines.
pub assume_specification[ str::to_lowercase ](s: &str) -> (r: String)
    ensures
        r@ == lower_cased(s@),
;

/// A query for searching session history.
#[derive(Debug, Clone)]
pub struct SearchQuery {
    /// Text to search for in entry content (case-insensitive).
    pub text: Option<String>,
    /// Filter by specific role.
    pub role: Option<Role>,
    /// Filter by session ID.
    pub session_id: Option<String>,
    /// Only include entries after this timestamp.
    pub after: Option<Timestamp>,
    /// Only include entries before this timestamp.
    pub before: Option<Timestamp>,
    /// Maximum number of results to return.
    pub limit: Option<usize>,
}

/// The query asks for nothing in particular.
pub open spec fn asks_nothing(q: SearchQuery) -> bool {
    &&& q.text is None
    &&& q.role is None
    &&& q.session_id is None
    &&& q.after is None
    &&& q.before is None
    &&& q.limit is None
}

impl Default for SearchQuery {
    fn default() -> (r: Self)
        ensures
            asks_nothing(r),
    {
        SearchQuery {
            text: None,
            role: None,
            session_id: None,
            after: None,
            before: None,
            limit: None,
        }
    }
}

impl SearchQuery {
    /// Creates a new empty query.
    pub fn new() -> (r: Self)
        ensures
            asks_nothing(r),
    {
        SearchQuery::default()
    }

    /// Sets the text search term.
    pub fn with_text(self, text: &str) -> (r: Self)
        ensures
            r.text matches Some(t) && t@ == text@,
            r == (SearchQuery { text: r.text, ..self }),
    {
        SearchQuery { text: Some(text.to_owned()), ..self }
    }

    /// Sets the role filter.
    pub fn with_role(self, role: Role) -> (r: Self)
        ensures
            r == (SearchQuery { role: Some(role), ..self }),
    {
        SearchQuery { role: Some(role), ..self }
    }

    /// Sets the session ID filter.
    pub fn with_session_id(self, session_id: &str) -> (r: Self)
        ensures
            r.session_id matches Some(t) && t@ == session_id@,
            r == (SearchQuery { session_id: r.session_id, ..self }),
    {
        SearchQuery { session_id: Some(session_id.to_owned()), ..self }
    }

    /// Sets the result limit.
    pub fn with_limit(self, limit: usize) -> (r: Self)
        ensures
            r == (SearchQuery { limit: Some(limit), ..self }),
    {
        SearchQuery { limit: Some(limit), ..self }
    }
}

/// `part` occurs in `content`, whatever the case of their letters.
pub open spec fn contains_ignoring_case(content: Seq<char>, part: Seq<char>) -> bool {
    text::contains_text(lower_cased(content), lower_cased(part))
}

/// The entry is one that the query asks for.
pub open spec fn is_match(e: HistoryEntry, q: SearchQuery) -> bool {
    &&& q.text matches Some(t) ==> contains_ignoring_case(e.content@, t@)
    &&& q.role matches Some(role) ==> e.role == role
    &&& q.session_id matches Some(id) ==> e.session_id@ == id@
    &&& q.after matches Some(t) ==> time::precedes(t@, e.timestamp@)
    &&& q.before matches Some(t) ==> time::precedes(e.timestamp@, t@)
}

/// The first entries, up to the limit.
pub open spec fn limited(entries: Seq<HistoryEntry>, limit: Option<usize>) -> Seq<HistoryEntry> {
    match limit {
        Some(n) => if n < entries.len() {
            entries.take(n as int)
        } else {
            entries
        },
        None => entries,
    }
}

/// The entries that the query asks for, in their order, up to its limit.
pub open spec fn found(entries: Seq<HistoryEntry>, q: SearchQuery) -> Seq<HistoryEntry> {
    limited(entries.filter(|e: HistoryEntry| is_match(e, q)), q.limit)
}

/// Whether the entry is one that the query asks for.
fn matches_query(entry: &HistoryEntry, query: &SearchQuery) -> (r: bool)
    ensures
        r == is_match(*entry, *query),
{
    if let Some(text) = &query.text {
        let content = entry.content.as_str().to_lowercase();
        let part = text.as_str().to_lowercase();
        if !text::contains(content.as_str(), part.as_str()) {
            return false;
        }
    }
    if let Some(role) = &query.role {
        if entry.role != *role {
            return false;
        }
    }
    if let Some(session_id) = &query.session_id {
        if !text::same_text(entry.session_id.as_str(), session_id.as_str()) {
            return false;
        }
    }
    if let Some(after) = &query.after {
        if !after.is_before(&entry.timestamp) {
            return false;
        }
    }
    if let Some(before) = &query.before {
        if !entry.timestamp.is_before(before) {
            return false;
        }
    }
    true
}

/// Searches entries matching the given query.
pub fn search_entries<'a>(entries: &'a [HistoryEntry], query: &SearchQuery) -> (r: Vec<
    &'a HistoryEntry,
>)
    ensures
        r@.unref() == found(entries@, *query),
{
    let ghost p = |e: HistoryEntry| is_match(e, *query);
    let mut results: Vec<&HistoryEntry> = Vec::new();
    let mut i: usize = 0;
    proof {
        reveal(Seq::filter);
        assert(entries@.take(0) =~= Seq::empty());
        assert(results@.unref() =~= entries@.take(0).filter(p));
    }
    while i < entries.len()
        invariant
            i <= entries@.len(),
            p == |e: HistoryEntry| is_match(e, *query),
            results@.unref() == entries@.take(i as int).filter(p),
        decreases entries.len() - i,
    {
        let ghost before = results@.unref();
        proof {
            crate::history::rotation::lemma_one_more(entries@, i as int, p);
        }
        if matches_query(&entries[i], query) {
            results.push(&entries[i]);
            assert(results@.unref() =~= before.push(entries@[i as int]));
        }
        i = i + 1;
    }
    assert(entries@.take(i as int) =~= entries@);
    if let Some(limit) = query.limit {
        let ghost all = results@;
        if limit < results.len() {
            results.truncate(limit);
            assert(results@.unref() =~= all.unref().take(limit as int));
        }
    }
    results
}

} // verus!
