//! The history manager.

use vstd::prelude::*;
use vstd::string::*;

use crate::history::entry;
use crate::history::entry::Counted;
use crate::history::entry::EntryId;
use crate::history::entry::HistoryConfig;
use crate::history::entry::HistoryEntry;
use crate::history::entry::Role;
use crate::history::export;
use crate::history::export::ExportFormat;
use crate::history::rotation;
use crate::history::rotation::RotationResult;
use crate::history::search;
use crate::history::search::SearchQuery;
use crate::history::storage::StorageBackend;
use crate::text;
use crate::time;
use crate::time::Instant;
use crate::time::Timestamp;

verus! {

/// Main session history manager.
///
/// Tracks entries with bounded memory usage and supports search, export and
/// automatic rotation.
pub struct SessionHistory {
    config: HistoryConfig,
    entries: Vec<HistoryEntry>,
    next_id: EntryId,
    total_content_bytes: usize,
    storage: Option<StorageBackend>,
}

/// What a history holds.
#[verifier::ext_equal]
pub struct HistoryView {
    pub config: HistoryConfig,
    pub entries: Seq<HistoryEntry>,
    pub next_id: int,
    /// The path of the storage file.
    pub storage: Option<Seq<char>>,
}

impl View for SessionHistory {
    type V = HistoryView;

    closed spec fn view(&self) -> HistoryView {
        HistoryView {
            config: self.config,
            entries: self.entries@,
            next_id: self.next_id as int,
            storage: match self.storage {
                Some(storage) => Some(storage@),
                None => None,
            },
        }
    }
}

/// The entries of a history, with the bytes of their content.
pub open spec fn counted(entries: Seq<HistoryEntry>) -> Counted {
    Counted { entries, bytes: entry::total_size(entries) as int }
}

/// No two entries have the same ID, those that come later have greater ones,
/// and the next ID is greater than all.
pub open spec fn ids_ascend(entries: Seq<HistoryEntry>, next_id: int) -> bool {
    &&& forall|i: int, j: int| 0 <= i < j < entries.len() ==> entries[i].id < entries[j].id
    &&& forall|i: int| 0 <= i < entries.len() ==> 1 <= #[trigger] entries[i].id < next_id
}

/// The entry belongs to the session.
pub open spec fn is_of_session(e: HistoryEntry, session_id: Seq<char>) -> bool {
    e.session_id@ == session_id
}

/// The history without the entries that a session has.
pub open spec fn without_session(entries: Seq<HistoryEntry>, session_id: Seq<char>) -> Seq<
    HistoryEntry,
> {
    entries.filter(|e: HistoryEntry| !is_of_session(e, session_id))
}

/// The entries that a session has.
pub open spec fn of_session(entries: Seq<HistoryEntry>, session_id: Seq<char>) -> Seq<
    HistoryEntry,
> {
    entries.filter(|e: HistoryEntry| is_of_session(e, session_id))
}

/// What is left once the oldest entries of a session have gone, one by one,
/// until it has no more than `limit`.
pub open spec fn shortened(
    entries: Seq<HistoryEntry>,
    session_id: Seq<char>,
    limit: usize,
) -> Seq<HistoryEntry>
    decreases entries.len(),
{
    if entries.len() == 0 || of_session(entries, session_id).len() <= limit {
        entries
    } else if is_of_session(entries.first(), session_id) {
        shortened(entries.drop_first(), session_id, limit)
    } else {
        seq![entries.first()] + shortened(entries.drop_first(), session_id, limit)
    }
}

/// The history after one more entry, within its limits: first the oldest
/// entries of its session go, until that has no more than it may, and then the
/// oldest of all, until their bytes are within the limit.
pub open spec fn with_entry(h: HistoryView, e: HistoryEntry) -> HistoryView {
    HistoryView {
        entries: entry::lightened(
            counted(
                shortened(h.entries.push(e), e.session_id@, h.config.max_entries_in_memory),
            ),
            h.config.max_bytes_in_memory,
        ).entries,
        next_id: h.next_id + 1,
        ..h
    }
}

/// No session has more entries than it may, and the bytes of all are within the
/// limit.
pub open spec fn is_bounded(entries: Seq<HistoryEntry>, config: HistoryConfig) -> bool {
    &&& forall|session_id: Seq<char>| #[trigger]
        of_session(entries, session_id).len() <= config.max_entries_in_memory
    &&& entry::total_size(entries) <= config.max_bytes_in_memory
}

/// The first entry can be filtered first.
pub proof fn lemma_filter_first(entries: Seq<HistoryEntry>, p: spec_fn(HistoryEntry) -> bool)
    requires
        entries.len() > 0,
    ensures
        entries.filter(p) == (if p(entries.first()) {
            seq![entries.first()] + entries.drop_first().filter(p)
        } else {
            entries.drop_first().filter(p)
        }),
{
    let first = seq![entries.first()];
    assert(entries =~= first + entries.drop_first());
    Seq::filter_distributes_over_add(first, entries.drop_first(), p);
    reveal(Seq::filter);
    assert(first.drop_last() =~= Seq::empty());
    assert(first.drop_last().filter(p) =~= Seq::empty());
    assert(first.filter(p) =~= if p(entries.first()) {
        first
    } else {
        Seq::empty()
    });
    assert(Seq::<HistoryEntry>::empty() + entries.drop_first().filter(p)
        =~= entries.drop_first().filter(p));
}

/// The sizes of the entries that pass a filter and of all.
pub proof fn lemma_filtered_size(entries: Seq<HistoryEntry>, p: spec_fn(HistoryEntry) -> bool)
    ensures
        entry::total_size(entries.filter(p)) <= entry::total_size(entries),
        entries.filter(p).len() <= entries.len(),
    decreases entries.len(),
{
    reveal(Seq::filter);
    if entries.len() > 0 {
        lemma_filter_first(entries, p);
        let rest = entries.drop_first();
        lemma_filtered_size(rest, p);
        let kept = seq![entries.first()] + rest.filter(p);
        assert(kept.drop_first() =~= rest.filter(p));
    }
}

/// A session that gives up its oldest entries keeps the newest, and other
/// sessions keep all.
pub proof fn lemma_shortened(
    entries: Seq<HistoryEntry>,
    session_id: Seq<char>,
    limit: usize,
    other: Seq<char>,
)
    ensures
        ({
            let left = shortened(entries, session_id, limit);
            let had = of_session(entries, session_id);
            &&& of_session(left, session_id) == had.skip(
                if had.len() > limit {
                    had.len() - limit
                } else {
                    0
                },
            )
            &&& other != session_id ==> of_session(left, other) == of_session(entries, other)
            &&& forall|i: int| 0 <= i < left.len() ==> entries.contains(#[trigger] left[i])
        }),
    decreases entries.len(),
{
    let p = |e: HistoryEntry| is_of_session(e, session_id);
    let q = |e: HistoryEntry| is_of_session(e, other);
    let left = shortened(entries, session_id, limit);
    let had = entries.filter(p);
    if entries.len() == 0 || had.len() <= limit {
        assert(had.skip(0) =~= had);
        reveal(Seq::filter);
        assert forall|i: int| 0 <= i < left.len() implies entries.contains(#[trigger] left[i]) by {
            assert(entries[i] == left[i]);
        }
    } else {
        let first = entries.first();
        let rest = entries.drop_first();
        let next = shortened(rest, session_id, limit);
        lemma_shortened(rest, session_id, limit, other);
        lemma_filter_first(entries, p);
        lemma_filter_first(entries, q);
        assert forall|i: int| 0 <= i < left.len() implies entries.contains(#[trigger] left[i]) by {
            if left == next {
                let j = choose|j: int| 0 <= j < rest.len() && rest[j] == next[i];
                assert(rest.contains(next[i]));
                assert(entries[j + 1] == left[i]);
            } else if i == 0 {
                assert(entries[0] == left[0]);
            } else {
                assert(rest.contains(next[i - 1]));
                let j = choose|j: int| 0 <= j < rest.len() && rest[j] == next[i - 1];
                assert(entries[j + 1] == left[i]);
            }
        }
        if p(first) {
            assert(had.skip(had.len() - limit) =~= rest.filter(p).skip(
                rest.filter(p).len() - limit,
            ));
        } else {
            lemma_filter_first(left, p);
            lemma_filter_first(left, q);
            assert(left.drop_first() =~= next);
        }
    }
}

/// What is left of a session that gave up its oldest entries keeps the order of
/// the IDs.
proof fn lemma_shortened_ascends(
    entries: Seq<HistoryEntry>,
    session_id: Seq<char>,
    limit: usize,
    next_id: int,
)
    requires
        ids_ascend(entries, next_id),
    ensures
        ids_ascend(shortened(entries, session_id, limit), next_id),
    decreases entries.len(),
{
    if entries.len() > 0 && of_session(entries, session_id).len() > limit {
        let first = entries.first();
        let rest = entries.drop_first();
        let next = shortened(rest, session_id, limit);
        lemma_shortened_ascends(rest, session_id, limit, next_id);
        lemma_shortened(rest, session_id, limit, session_id);
        assert forall|i: int| 0 <= i < next.len() implies first.id < (#[trigger] next[i]).id by {
            assert(rest.contains(next[i]));
            let j = choose|j: int| 0 <= j < rest.len() && rest[j] == next[i];
            assert(entries[0].id < entries[j + 1].id);
        }
        assert(1 <= entries[0].id < next_id);
    }
}

/// The number of entries that a session has.
fn count_of_session(entries: &Vec<HistoryEntry>, session_id: &str) -> (n: usize)
    ensures
        n == of_session(entries@, session_id@).len(),
{
    let ghost p = |e: HistoryEntry| is_of_session(e, session_id@);
    let mut n: usize = 0;
    let mut i: usize = 0;
    proof {
        reveal(Seq::filter);
        assert(entries@.take(0) =~= Seq::empty());
        assert(entries@.take(0).filter(p) =~= Seq::empty());
    }
    while i < entries.len()
        invariant
            i <= entries@.len(),
            n <= i,
            p == |e: HistoryEntry| is_of_session(e, session_id@),
            n == entries@.take(i as int).filter(p).len(),
        decreases entries.len() - i,
    {
        proof {
            rotation::lemma_one_more(entries@, i as int, p);
        }
        if text::same_text(entries[i].session_id.as_str(), session_id) {
            n = n + 1;
        }
        i = i + 1;
    }
    assert(entries@.take(i as int) =~= entries@);
    n
}

/// Removes the oldest entries of a session until it has no more than `limit`.
fn enforce_session_limit(
    entries: &mut Vec<HistoryEntry>,
    total_bytes: &mut usize,
    session_id: &str,
    limit: usize,
)
    requires
        *old(total_bytes) == entry::total_size(old(entries)@),
    ensures
        final(entries)@ == shortened(old(entries)@, session_id@, limit),
        *final(total_bytes) == entry::total_size(final(entries)@),
{
    let ghost p = |e: HistoryEntry| is_of_session(e, session_id@);
    let ghost all = entries@;
    let ghost mut kept = Seq::<HistoryEntry>::empty();
    let ghost mut rest = all;
    let mut count: usize = count_of_session(entries, session_id);
    let mut i: usize = 0;
    assert(kept + rest =~= all);
    assert(kept + shortened(rest, session_id@, limit) =~= shortened(all, session_id@, limit));
    while count > limit
        invariant
            p == |e: HistoryEntry| is_of_session(e, session_id@),
            i == kept.len(),
            entries@ == kept + rest,
            count == of_session(rest, session_id@).len(),
            shortened(all, session_id@, limit) == kept + shortened(rest, session_id@, limit),
            *total_bytes == entry::total_size(entries@),
        decreases rest.len(),
    {
        proof {
            lemma_filtered_size(rest, p);
            lemma_filter_first(rest, p);
        }
        let ghost first = rest.first();
        let ghost next = rest.drop_first();
        assert(entries@[i as int] == first);
        assert(i < entries.len());
        if text::same_text(entries[i].session_id.as_str(), session_id) {
            proof {
                entry::lemma_total_size_of_two(kept, rest);
                entry::lemma_total_size_of_two(kept, next);
            }
            *total_bytes = total_bytes.saturating_sub(entry::content_len(&entries[i]));
            entries.remove(i);
            count = count - 1;
            assert(entries@ =~= kept + next);
        } else {
            i = i + 1;
            assert(kept + rest =~= kept.push(first) + next);
            assert(kept + (seq![first] + shortened(next, session_id@, limit)) =~= kept.push(first)
                + shortened(next, session_id@, limit));
            proof {
                kept = kept.push(first);
            }
        }
        proof {
            rest = next;
        }
    }
}

/// Leaving out entries keeps the order of the IDs.
proof fn lemma_filter_ascends(
    entries: Seq<HistoryEntry>,
    p: spec_fn(HistoryEntry) -> bool,
    next_id: int,
)
    requires
        ids_ascend(entries, next_id),
    ensures
        ids_ascend(entries.filter(p), next_id),
        forall|i: int| 0 <= i < entries.filter(p).len() ==> entries.contains(#[trigger] entries.filter(p)[i]),
    decreases entries.len(),
{
    reveal(Seq::filter);
    if entries.len() > 0 {
        let before = entries.drop_last();
        let last = entries.last();
        assert forall|i: int| 0 <= i < before.len() implies 1 <= #[trigger] before[i].id
            < last.id by {
            assert(before[i] == entries[i]);
        }
        assert(ids_ascend(before, last.id as int));
        lemma_filter_ascends(before, p, last.id as int);
        let kept = before.filter(p);
        assert forall|i: int| 0 <= i < entries.filter(p).len() implies entries.contains(
            #[trigger] entries.filter(p)[i],
        ) by {
            if i < kept.len() {
                assert(before.contains(kept[i]));
                let j = choose|j: int| 0 <= j < before.len() && before[j] == kept[i];
                assert(entries[j] == kept[i]);
            } else {
                assert(entries[entries.len() - 1] == last);
            }
        }
    }
}

/// The newest entries keep the order of the IDs.
proof fn lemma_skip_ascends(entries: Seq<HistoryEntry>, k: int, next_id: int)
    requires
        ids_ascend(entries, next_id),
        0 <= k <= entries.len(),
    ensures
        ids_ascend(entries.skip(k), next_id),
{
}

/// The newest entries that a session has.
pub proof fn lemma_skip_of_session(entries: Seq<HistoryEntry>, k: int, session_id: Seq<char>)
    requires
        0 <= k <= entries.len(),
    ensures
        of_session(entries, session_id) == of_session(entries.take(k), session_id) + of_session(
            entries.skip(k),
            session_id,
        ),
{
    let p = |e: HistoryEntry| is_of_session(e, session_id);
    assert(entries =~= entries.take(k) + entries.skip(k));
    Seq::filter_distributes_over_add(entries.take(k), entries.skip(k), p);
}

/// One more entry keeps a history within its limits.
pub proof fn lemma_with_entry_is_bounded(h: HistoryView, e: HistoryEntry)
    requires
        is_bounded(h.entries, h.config),
    ensures
        is_bounded(with_entry(h, e).entries, h.config),
{
    let all = h.entries.push(e);
    let limit = h.config.max_entries_in_memory;
    let left = shortened(all, e.session_id@, limit);
    let after = with_entry(h, e).entries;
    entry::lemma_lightened(counted(left), h.config.max_bytes_in_memory);
    let k = choose|k: int| 0 <= k <= left.len() && after == #[trigger] left.skip(k);
    assert forall|session_id: Seq<char>| #[trigger]
        of_session(after, session_id).len() <= limit by {
        lemma_shortened(all, e.session_id@, limit, session_id);
        lemma_skip_of_session(left, k, session_id);
        let p = |e: HistoryEntry| is_of_session(e, session_id);
        reveal(Seq::filter);
        assert(all.drop_last() =~= h.entries);
        assert(of_session(h.entries, session_id).len() <= limit);
        assert(of_session(left, session_id).len() <= limit) by {
            if session_id != e.session_id@ {
                assert(!p(all.last()));
                assert(all.filter(p) == h.entries.filter(p));
            }
        }
        assert(of_session(after, session_id).len() <= of_session(left, session_id).len());
    }
}

/// Leaving out entries keeps a history within its limits.
proof fn lemma_filter_is_bounded(
    entries: Seq<HistoryEntry>,
    p: spec_fn(HistoryEntry) -> bool,
    config: HistoryConfig,
)
    requires
        is_bounded(entries, config),
    ensures
        is_bounded(entries.filter(p), config),
{
    lemma_filtered_size(entries, p);
    assert forall|session_id: Seq<char>| #[trigger]
        of_session(entries.filter(p), session_id).len() <= config.max_entries_in_memory by {
        assert(of_session(entries, session_id).len() <= config.max_entries_in_memory);
        lemma_filter_after(entries, p, |e: HistoryEntry| is_of_session(e, session_id));
    }
}

/// What passes two filters is no more than what passes one.
proof fn lemma_filter_after(
    entries: Seq<HistoryEntry>,
    p: spec_fn(HistoryEntry) -> bool,
    q: spec_fn(HistoryEntry) -> bool,
)
    ensures
        entries.filter(p).filter(q).len() <= entries.filter(q).len(),
    decreases entries.len(),
{
    reveal(Seq::filter);
    if entries.len() > 0 {
        let before = entries.drop_last();
        lemma_filter_after(before, p, q);
        assert(before.filter(p).push(entries.last()).drop_last() =~= before.filter(p));
    }
}

/// A history with few enough entries in all is within its limits.
proof fn lemma_few_is_bounded(entries: Seq<HistoryEntry>, config: HistoryConfig)
    requires
        entry::within_limits(counted(entries), config),
    ensures
        is_bounded(entries, config),
{
    assert forall|session_id: Seq<char>| #[trigger]
        of_session(entries, session_id).len() <= config.max_entries_in_memory by {
        lemma_filtered_size(entries, |e: HistoryEntry| is_of_session(e, session_id));
    }
}

impl SessionHistory {
    /// The history is within its limits, the record of the bytes is right, and
    /// the IDs ascend.
    pub closed spec fn is_valid(&self) -> bool {
        &&& is_bounded(self.entries@, self.config)
        &&& self.total_content_bytes == entry::total_size(self.entries@)
        &&& ids_ascend(self.entries@, self.next_id as int)
        &&& self.next_id >= 1
    }

    /// Whatever happened to a history, it is within its limits.
    pub proof fn law_history_is_bounded(&self)
        requires
            self.is_valid(),
        ensures
            is_bounded(self@.entries, self@.config),
            ids_ascend(self@.entries, self@.next_id),
    {
    }

    /// Creates a new session history with the given configuration.
    pub fn new(config: HistoryConfig) -> (r: Self)
        ensures
            r.is_valid(),
            r@ == (HistoryView {
                config,
                entries: Seq::empty(),
                next_id: 1,
                storage: text::text_of(config.storage_path),
            }),
    {
        let storage = match &config.storage_path {
            Some(path) => Some(StorageBackend::new(path.as_str())),
            None => None,
        };
        proof {
            lemma_few_is_bounded(Seq::empty(), config);
        }
        SessionHistory {
            config,
            entries: Vec::new(),
            next_id: 1,
            total_content_bytes: 0,
            storage,
        }
    }

    /// Adds a new entry of the time `now`, enforcing memory bounds: the oldest
    /// entries of its session go where that has too many, and then the oldest of
    /// all where their bytes are too many.
    /// Returns the assigned entry ID.
    pub fn add_entry_at(
        &mut self,
        session_id: String,
        role: Role,
        content: String,
        token_count: Option<u32>,
        metadata: Option<serde_json::Value>,
        now: Timestamp,
    ) -> (id: EntryId)
        requires
            old(self).is_valid(),
            old(self)@.next_id < u64::MAX,
            entry::total_size(old(self)@.entries) + vstd::utf8::encode_utf8(content@).len()
                <= usize::MAX,
        ensures
            final(self).is_valid(),
            id == old(self)@.next_id,
            final(self)@ == with_entry(
                old(self)@,
                HistoryEntry {
                    id,
                    session_id,
                    timestamp: now,
                    role,
                    content,
                    token_count,
                    metadata,
                },
            ),
    {
        let entry = HistoryEntry {
            id: self.next_id,
            session_id,
            timestamp: now,
            role,
            content,
            token_count,
            metadata,
        };
        let id = entry.id;
        let session_id = entry.session_id.clone();
        let ghost all = self.entries@.push(entry);
        proof {
            entry::lemma_total_size_of_two(self.entries@, seq![entry]);
            assert(self.entries@ + seq![entry] =~= all);
            assert(seq![entry].drop_first() =~= Seq::empty());
            assert(entry::total_size(seq![entry]) == entry::content_size(entry)
                + entry::total_size(Seq::<HistoryEntry>::empty()));
        }
        self.next_id = self.next_id + 1;
        self.total_content_bytes = self.total_content_bytes + entry::content_len(&entry);
        self.entries.push(entry);
        enforce_session_limit(
            &mut self.entries,
            &mut self.total_content_bytes,
            session_id.as_str(),
            self.config.max_entries_in_memory,
        );
        let ghost left = self.entries@;
        entry::enforce_byte_limit(
            &mut self.entries,
            &mut self.total_content_bytes,
            self.config.max_bytes_in_memory,
        );
        proof {
            lemma_with_entry_is_bounded(old(self)@, entry);
            assert(ids_ascend(all, self.next_id as int));
            lemma_shortened_ascends(
                all,
                session_id@,
                self.config.max_entries_in_memory,
                self.next_id as int,
            );
            entry::lemma_lightened(counted(left), self.config.max_bytes_in_memory);
            let k = choose|k: int|
                0 <= k <= left.len() && self.entries@ == #[trigger] left.skip(k);
            lemma_skip_ascends(left, k, self.next_id as int);
        }
        id
    }

    /// Adds a new entry of the current time, enforcing memory bounds.
    /// Returns the assigned entry ID.
    pub fn add_entry(
        &mut self,
        session_id: String,
        role: Role,
        content: String,
        token_count: Option<u32>,
        metadata: Option<serde_json::Value>,
    ) -> (id: EntryId)
        requires
            old(self).is_valid(),
            old(self)@.next_id < u64::MAX,
            entry::total_size(old(self)@.entries) + vstd::utf8::encode_utf8(content@).len()
                <= usize::MAX,
        ensures
            final(self).is_valid(),
            id == old(self)@.next_id,
            exists|timestamp: Timestamp|
                time::is_instant(timestamp@) && final(self)@ == #[trigger] with_entry(
                    old(self)@,
                    HistoryEntry {
                        id,
                        session_id,
                        timestamp,
                        role,
                        content,
                        token_count,
                        metadata,
                    },
                ),
    {
        let now = Timestamp::now();
        self.add_entry_at(session_id, role, content, token_count, metadata, now)
    }

    /// The entry that is to be appended to the storage file after an entry was
    /// added: the newest one that is in memory, if there is a file.
    pub fn entry_to_store(&self) -> (r: Option<&HistoryEntry>)
        ensures
            match r {
                Some(e) => self@.storage is Some && self@.entries.len() > 0 && *e
                    == self@.entries.last(),
                None => self@.storage is None || self@.entries.len() == 0,
            },
    {
        let n: usize = self.entries.len();
        if self.storage.is_some() && n > 0 {
            Some(&self.entries[n - 1])
        } else {
            None
        }
    }

    /// The storage file, if there is one.
    pub fn storage(&self) -> (r: Option<&StorageBackend>)
        ensures
            match r {
                Some(storage) => self@.storage == Some(storage@),
                None => self@.storage is None,
            },
    {
        self.storage.as_ref()
    }

    /// Returns all entries currently in memory.
    pub fn entries(&self) -> (r: &[HistoryEntry])
        ensures
            r@ == self@.entries,
    {
        self.entries.as_slice()
    }

    /// Returns the ID that the next entry gets.
    pub fn next_id(&self) -> (r: EntryId)
        ensures
            r == self@.next_id,
    {
        self.next_id
    }

    /// Returns the number of entries in memory.
    pub fn len(&self) -> (r: usize)
        ensures
            r == self@.entries.len(),
    {
        self.entries.len()
    }

    /// Returns whether there are no entries.
    pub fn is_empty(&self) -> (r: bool)
        ensures
            r == (self@.entries.len() == 0),
    {
        self.entries.len() == 0
    }

    /// Returns total content bytes tracked in memory.
    pub fn total_bytes(&self) -> (r: usize)
        requires
            self.is_valid(),
        ensures
            r == entry::total_size(self@.entries),
    {
        self.total_content_bytes
    }

    /// Gets a specific entry by ID.
    pub fn get_entry(&self, id: EntryId) -> (r: Option<&HistoryEntry>)
        ensures
            match r {
                Some(e) => e.id == id && exists|i: int|
                    0 <= i < self@.entries.len() && *e == #[trigger] self@.entries[i] && forall|j: int|
                        0 <= j < i ==> (#[trigger] self@.entries[j]).id != id,
                None => forall|i: int|
                    0 <= i < self@.entries.len() ==> (#[trigger] self@.entries[i]).id != id,
            },
    {
        let mut i: usize = 0;
        while i < self.entries.len()
            invariant
                i <= self.entries@.len(),
                forall|j: int| 0 <= j < i ==> (#[trigger] self.entries@[j]).id != id,
            decreases self.entries.len() - i,
        {
            if self.entries[i].id == id {
                return Some(&self.entries[i]);
            }
            i = i + 1;
        }
        None
    }

    /// Gets all entries for a specific session.
    pub fn get_session_entries(&self, session_id: &str) -> (r: Vec<&HistoryEntry>)
        ensures
            r@.unref() == of_session(self@.entries, session_id@),
    {
        let ghost p = |e: HistoryEntry| is_of_session(e, session_id@);
        let mut results: Vec<&HistoryEntry> = Vec::new();
        let mut i: usize = 0;
        proof {
            reveal(Seq::filter);
            assert(self.entries@.take(0) =~= Seq::empty());
            assert(results@.unref() =~= self.entries@.take(0).filter(p));
        }
        while i < self.entries.len()
            invariant
                i <= self.entries@.len(),
                p == |e: HistoryEntry| is_of_session(e, session_id@),
                results@.unref() == self.entries@.take(i as int).filter(p),
            decreases self.entries.len() - i,
        {
            let ghost before = results@.unref();
            proof {
                rotation::lemma_one_more(self.entries@, i as int, p);
            }
            if text::same_text(self.entries[i].session_id.as_str(), session_id) {
                results.push(&self.entries[i]);
                assert(results@.unref() =~= before.push(self.entries@[i as int]));
            }
            i = i + 1;
        }
        assert(self.entries@.take(i as int) =~= self.entries@);
        results
    }

    /// Removes all entries for a session.
    pub fn clear_session(&mut self, session_id: &str)
        requires
            old(self).is_valid(),
        ensures
            final(self).is_valid(),
            final(self)@ == (HistoryView {
                entries: without_session(old(self)@.entries, session_id@),
                ..old(self)@
            }),
    {
        let ghost all = self.entries@;
        let ghost p = |e: HistoryEntry| !is_of_session(e, session_id@);
        let ghost mut seen: int = 0;
        let mut i: usize = 0;
        proof {
            reveal(Seq::filter);
            assert(all.take(0) =~= Seq::empty());
            assert(all.take(0).filter(p) + all.skip(0) =~= all);
        }
        while i < self.entries.len()
            invariant
                0 <= seen <= all.len(),
                p == |e: HistoryEntry| !is_of_session(e, session_id@),
                i == all.take(seen).filter(p).len(),
                self.entries@ == all.take(seen).filter(p) + all.skip(seen),
                self.total_content_bytes == entry::total_size(self.entries@),
                self.config == old(self).config,
                self.next_id == old(self).next_id,
                self.storage == old(self).storage,
            decreases self.entries.len() - i,
        {
            let ghost kept = all.take(seen).filter(p);
            assert(self.entries@[i as int] == all[seen]);
            proof {
                rotation::lemma_one_more(all, seen, p);
            }
            if text::same_text(self.entries[i].session_id.as_str(), session_id) {
                proof {
                    entry::lemma_total_size_of_two(kept, all.skip(seen));
                    entry::lemma_total_size_of_two(kept, all.skip(seen + 1));
                    assert(all.skip(seen).drop_first() =~= all.skip(seen + 1));
                }
                self.total_content_bytes = self.total_content_bytes.saturating_sub(
                    entry::content_len(&self.entries[i]),
                );
                self.entries.remove(i);
                assert(self.entries@ =~= kept + all.skip(seen + 1));
            } else {
                i = i + 1;
                assert(kept.push(all[seen]) + all.skip(seen + 1) =~= kept + all.skip(seen));
            }
            proof {
                seen = seen + 1;
            }
        }
        proof {
            assert(self.entries@.len() == i + (all.len() - seen));
            assert(all.take(seen) =~= all);
            assert(self.entries@ =~= all.filter(p));
            lemma_filter_ascends(all, p, self.next_id as int);
            lemma_filter_is_bounded(all, p, self.config);
        }
    }

    /// Clears all entries.
    pub fn clear_all(&mut self)
        requires
            old(self).is_valid(),
        ensures
            final(self).is_valid(),
            final(self)@ == (HistoryView { entries: Seq::empty(), ..old(self)@ }),
    {
        self.entries.clear();
        self.total_content_bytes = 0;
        proof {
            lemma_few_is_bounded(self.entries@, self.config);
        }
    }

    /// Performs search across history entries.
    pub fn search(&self, query: &SearchQuery) -> (r: Vec<&HistoryEntry>)
        ensures
            r@.unref() == search::found(self@.entries, *query),
    {
        search::search_entries(self.entries.as_slice(), query)
    }

    /// Exports history to the specified format.
    pub fn export(&self, format: ExportFormat) -> (r: Result<String, String>)
        ensures
            r is Ok,
            r->Ok_0@ == export::exported(self@.entries, format),
    {
        export::export_entries(self.entries.as_slice(), format)
    }

    /// Runs rotation/cleanup based on configuration, at the time `now`.
    pub fn rotate_at(&mut self, now: &Timestamp) -> (r: RotationResult)
        requires
            old(self).is_valid(),
        ensures
            final(self).is_valid(),
            final(self)@ == (HistoryView {
                entries: rotation::rotated(
                    counted(old(self)@.entries),
                    old(self)@.config,
                    now@,
                ).entries,
                ..old(self)@
            }),
            rotation::tells_difference(
                r,
                counted(old(self)@.entries),
                counted(final(self)@.entries),
            ),
    {
        let ghost all = self.entries@;
        let r = rotation::rotate_entries_at(
            &mut self.entries,
            &mut self.total_content_bytes,
            &self.config,
            now,
        );
        proof {
            lemma_rotated(all, self.config, now@, self.next_id as int);
            lemma_few_is_bounded(self.entries@, self.config);
        }
        r
    }

    /// Runs rotation/cleanup based on configuration, at the current time.
    pub fn rotate(&mut self) -> (r: RotationResult)
        requires
            old(self).is_valid(),
        ensures
            final(self).is_valid(),
            exists|now: Instant|
                time::is_instant(now) && final(self)@ == (HistoryView {
                    entries: (#[trigger] rotation::rotated(
                        counted(old(self)@.entries),
                        old(self)@.config,
                        now,
                    )).entries,
                    ..old(self)@
                }),
            rotation::tells_difference(
                r,
                counted(old(self)@.entries),
                counted(final(self)@.entries),
            ),
    {
        let now = Timestamp::now();
        self.rotate_at(&now)
    }
}

/// The entries that are too old and the others make up all of them.
proof fn lemma_sizes_of_young_and_old(
    entries: Seq<HistoryEntry>,
    p: spec_fn(HistoryEntry) -> bool,
    q: spec_fn(HistoryEntry) -> bool,
)
    requires
        forall|e: HistoryEntry| #[trigger] p(e) == !q(e),
    ensures
        entry::total_size(entries.filter(p)) + entry::total_size(entries.filter(q))
            == entry::total_size(entries),
    decreases entries.len(),
{
    reveal(Seq::filter);
    if entries.len() > 0 {
        let before = entries.drop_last();
        let last = entries.last();
        lemma_sizes_of_young_and_old(before, p, q);
        entry::lemma_total_size_of_two(before, seq![last]);
        entry::lemma_total_size_of_two(before.filter(p), seq![last]);
        entry::lemma_total_size_of_two(before.filter(q), seq![last]);
        assert(before + seq![last] =~= entries);
        assert(before.filter(p) + seq![last] =~= before.filter(p).push(last));
        assert(before.filter(q) + seq![last] =~= before.filter(q).push(last));
        assert(p(last) == !q(last));
    }
}

/// Rotation keeps the record of the bytes right and the IDs in order.
pub proof fn lemma_rotated(
    entries: Seq<HistoryEntry>,
    config: HistoryConfig,
    now: Instant,
    next_id: int,
)
    ensures
        ({
            let r = rotation::rotated(counted(entries), config, now);
            &&& entry::is_exact(r)
            &&& entry::within_limits(r, config)
            &&& ids_ascend(entries, next_id) ==> ids_ascend(r.entries, next_id)
        }),
{
    let young = |e: HistoryEntry| !rotation::is_too_old(e, now, config.max_age_seconds);
    let old = |e: HistoryEntry| rotation::is_too_old(e, now, config.max_age_seconds);
    lemma_sizes_of_young_and_old(entries, young, old);
    let kept = counted(entries.filter(young));
    entry::lemma_evicted(kept, config);
    if ids_ascend(entries, next_id) {
        lemma_filter_ascends(entries, young, next_id);
        let k = choose|k: int|
            0 <= k <= kept.entries.len() && entry::evicted(kept, config).entries
                == #[trigger] kept.entries.skip(k);
        lemma_skip_ascends(kept.entries, k, next_id);
    }
}

} // verus!
