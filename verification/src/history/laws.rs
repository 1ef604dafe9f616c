//! What holds of a history whatever happens to it.

use vstd::prelude::*;

use crate::history::entry;
use crate::history::entry::Counted;
use crate::history::entry::HistoryConfig;
use crate::history::entry::HistoryEntry;
use crate::history::entry::Role;
use crate::history::export;
use crate::history::export::ExportFormat;
use crate::history::rotation;
use crate::history::rotation::RotationResult;
use crate::history::search;
use crate::history::search::SearchQuery;
use crate::history::session;
use crate::history::session::HistoryView;
use crate::history::storage;
use crate::json;
use crate::text;
use crate::time;
use crate::time::Instant;

verus! {

/// An entry that is added to a history within its limits leaves it within them:
/// no session has more entries than it may, and the bytes of all are within the
/// limit.
pub proof fn law_memory_stays_bounded(h: HistoryView, e: HistoryEntry)
    requires
        session::is_bounded(h.entries, h.config),
    ensures
        session::is_bounded(session::with_entry(h, e).entries, h.config),
{
    session::lemma_with_entry_is_bounded(h, e);
}

/// What a session has after an entry was added are its newest entries.
pub proof fn law_newest_stay(h: HistoryView, e: HistoryEntry, session_id: Seq<char>)
    ensures
        session::of_session(session::with_entry(h, e).entries, session_id).is_suffix_of(
            session::of_session(h.entries.push(e), session_id),
        ),
{
    let all = h.entries.push(e);
    let limit = h.config.max_entries_in_memory;
    let left = session::shortened(all, e.session_id@, limit);
    let after = session::with_entry(h, e).entries;
    session::lemma_shortened(all, e.session_id@, limit, session_id);
    entry::lemma_lightened(session::counted(left), h.config.max_bytes_in_memory);
    let k = choose|k: int| 0 <= k <= left.len() && after == #[trigger] left.skip(k);
    session::lemma_skip_of_session(left, k, session_id);
    let had = session::of_session(all, session_id);
    let kept = session::of_session(left, session_id);
    let has = session::of_session(after, session_id);
    assert(kept =~= had.skip(had.len() - kept.len()));
    assert(has =~= kept.skip(kept.len() - has.len()));
    assert(has =~= had.subrange(had.len() - has.len(), had.len() as int));
}

/// An entry of one session takes the place of none of another, unless the bytes
/// of all are beyond their limit.
pub proof fn law_sessions_keep_apart(h: HistoryView, e: HistoryEntry, other: Seq<char>)
    requires
        other != e.session_id@,
        entry::total_size(h.entries.push(e)) <= h.config.max_bytes_in_memory,
    ensures
        session::of_session(session::with_entry(h, e).entries, other) == session::of_session(
            h.entries,
            other,
        ),
{
    let all = h.entries.push(e);
    let limit = h.config.max_entries_in_memory;
    let p = |e: HistoryEntry| session::is_of_session(e, other);
    session::lemma_shortened(all, e.session_id@, limit, other);
    lemma_shortened_size(all, e.session_id@, limit);
    reveal(Seq::filter);
    assert(all.drop_last() =~= h.entries);
    assert(!p(all.last()));
    assert(all.filter(p) == h.entries.filter(p));
}

/// A session that gives up entries gives up bytes.
proof fn lemma_shortened_size(entries: Seq<HistoryEntry>, session_id: Seq<char>, limit: usize)
    ensures
        entry::total_size(session::shortened(entries, session_id, limit)) <= entry::total_size(
            entries,
        ),
    decreases entries.len(),
{
    if entries.len() > 0 && session::of_session(entries, session_id).len() > limit {
        let rest = entries.drop_first();
        lemma_shortened_size(rest, session_id, limit);
        let kept = seq![entries.first()] + session::shortened(rest, session_id, limit);
        assert(kept.drop_first() =~= session::shortened(rest, session_id, limit));
    }
}

/// A session gives up no more entries than it has to: it keeps as many as it
/// may have, and these are its newest.
pub proof fn law_session_keeps_what_it_may(
    entries: Seq<HistoryEntry>,
    session_id: Seq<char>,
    limit: usize,
)
    ensures
        ({
            let had = session::of_session(entries, session_id);
            let has = session::of_session(
                session::shortened(entries, session_id, limit),
                session_id,
            );
            &&& has.is_suffix_of(had)
            &&& had.len() <= limit ==> has == had
            &&& had.len() > limit ==> has.len() == limit
        }),
{
    session::lemma_shortened(entries, session_id, limit, session_id);
    let had = session::of_session(entries, session_id);
    let has = session::of_session(session::shortened(entries, session_id, limit), session_id);
    assert(has =~= had.subrange(had.len() - has.len(), had.len() as int));
}

/// No entry goes in vain for its bytes: with the last of those that went, the
/// others would be beyond the limit.
pub proof fn law_no_bytes_go_in_vain(entries: Seq<HistoryEntry>, max_bytes: usize, k: int)
    requires
        0 < k <= entries.len(),
        entry::lightened(session::counted(entries), max_bytes).entries == entries.skip(k),
    ensures
        entry::total_size(entries.skip(k - 1)) > max_bytes,
    decreases entries.len(),
{
    let all = session::counted(entries);
    if all.bytes <= max_bytes {
        assert(entries.skip(k).len() == entries.len() - k);
    } else {
        let next = entries.drop_first();
        assert(entry::without_oldest(all) == session::counted(next));
        assert(next.skip(k - 1) =~= entries.skip(k));
        if k > 1 {
            law_no_bytes_go_in_vain(next, max_bytes, k - 1);
            assert(next.skip(k - 2) =~= entries.skip(k - 1));
        } else {
            assert(entries.skip(0) =~= entries);
        }
    }
}

/// Rotation evicts no more than it has to: with the last of the entries that it
/// evicted, the others would be beyond the limits.
pub proof fn law_no_entry_goes_in_vain(entries: Seq<HistoryEntry>, config: HistoryConfig, k: int)
    requires
        0 < k <= entries.len(),
        entry::evicted(session::counted(entries), config).entries == entries.skip(k),
    ensures
        !entry::within_limits(session::counted(entries.skip(k - 1)), config),
    decreases entries.len(),
{
    let all = session::counted(entries);
    if entry::within_limits(all, config) {
        assert(entries.skip(k).len() == entries.len() - k);
    } else {
        let next = entries.drop_first();
        assert(entry::without_oldest(all) == session::counted(next));
        assert(next.skip(k - 1) =~= entries.skip(k));
        if k > 1 {
            law_no_entry_goes_in_vain(next, config, k - 1);
            assert(next.skip(k - 2) =~= entries.skip(k - 1));
        } else {
            assert(entries.skip(0) =~= entries);
        }
    }
}

/// Where the session of an entry may have it and the bytes of all are within
/// their limit, no entry goes.
pub proof fn law_nothing_goes_within_limits(h: HistoryView, e: HistoryEntry)
    requires
        session::of_session(h.entries.push(e), e.session_id@).len()
            <= h.config.max_entries_in_memory,
        entry::total_size(h.entries.push(e)) <= h.config.max_bytes_in_memory,
    ensures
        session::with_entry(h, e).entries == h.entries.push(e),
{
}

/// An entry that is within the limits by itself is there once it was added, as
/// the newest one.
pub proof fn law_added_entry_is_there(h: HistoryView, e: HistoryEntry)
    requires
        h.config.max_entries_in_memory >= 1,
        entry::content_size(e) <= h.config.max_bytes_in_memory,
    ensures
        session::with_entry(h, e).entries.len() > 0,
        session::with_entry(h, e).entries.last() == e,
{
    let all = h.entries.push(e);
    lemma_last_of_session_stays(all, e.session_id@, h.config.max_entries_in_memory);
    lemma_last_stays(
        session::shortened(all, e.session_id@, h.config.max_entries_in_memory),
        h.config.max_bytes_in_memory,
    );
}

/// The newest entry of a session stays, if the session may have one.
proof fn lemma_last_of_session_stays(
    entries: Seq<HistoryEntry>,
    session_id: Seq<char>,
    limit: usize,
)
    requires
        entries.len() > 0,
        session::is_of_session(entries.last(), session_id),
        limit >= 1,
    ensures
        session::shortened(entries, session_id, limit).len() > 0,
        session::shortened(entries, session_id, limit).last() == entries.last(),
    decreases entries.len(),
{
    if session::of_session(entries, session_id).len() > limit {
        let rest = entries.drop_first();
        if entries.len() == 1 {
            session::lemma_filtered_size(
                entries,
                |e: HistoryEntry| session::is_of_session(e, session_id),
            );
        } else {
            assert(rest.last() == entries.last());
            lemma_last_of_session_stays(rest, session_id, limit);
        }
    }
}

/// The newest entry stays, if its bytes are within the limit by themselves.
proof fn lemma_last_stays(entries: Seq<HistoryEntry>, max_bytes: usize)
    requires
        entries.len() > 0,
        entry::content_size(entries.last()) <= max_bytes,
    ensures
        entry::lightened(session::counted(entries), max_bytes).entries.len() > 0,
        entry::lightened(session::counted(entries), max_bytes).entries.last() == entries.last(),
    decreases entries.len(),
{
    let all = session::counted(entries);
    if all.bytes > max_bytes {
        let next = entries.drop_first();
        assert(entry::without_oldest(all) == session::counted(next));
        if entries.len() == 1 {
            assert(next =~= Seq::empty());
            assert(entry::total_size(next) == 0);
        } else {
            assert(next.last() == entries.last());
            lemma_last_stays(next, max_bytes);
        }
    }
}

/// No two entries share an ID: the entry that an ID names is the only one.
pub proof fn law_ids_are_unique(entries: Seq<HistoryEntry>, next_id: int, i: int, j: int)
    requires
        session::ids_ascend(entries, next_id),
        0 <= i < entries.len(),
        0 <= j < entries.len(),
        entries[i].id == entries[j].id,
    ensures
        i == j,
{
    if i < j {
        assert(entries[i].id < entries[j].id);
    } else if j < i {
        assert(entries[j].id < entries[i].id);
    }
}

/// Filtering twice keeps what passes both filters.
proof fn lemma_filter_twice(
    entries: Seq<HistoryEntry>,
    p: spec_fn(HistoryEntry) -> bool,
    q: spec_fn(HistoryEntry) -> bool,
    r: spec_fn(HistoryEntry) -> bool,
)
    requires
        forall|e: HistoryEntry| #[trigger] r(e) == (p(e) && q(e)),
    ensures
        entries.filter(p).filter(q) == entries.filter(r),
    decreases entries.len(),
{
    reveal(Seq::filter);
    if entries.len() > 0 {
        let before = entries.drop_last();
        let last = entries.last();
        lemma_filter_twice(before, p, q, r);
        assert(before.filter(p).push(last).drop_last() =~= before.filter(p));
        assert(r(last) == (p(last) && q(last)));
    }
}

/// Nothing passes a filter that lets nothing pass.
proof fn lemma_filter_none(entries: Seq<HistoryEntry>, p: spec_fn(HistoryEntry) -> bool)
    requires
        forall|i: int| 0 <= i < entries.len() ==> !p(#[trigger] entries[i]),
    ensures
        entries.filter(p) == Seq::<HistoryEntry>::empty(),
    decreases entries.len(),
{
    reveal(Seq::filter);
    if entries.len() > 0 {
        let before = entries.drop_last();
        assert forall|i: int| 0 <= i < before.len() implies !p(#[trigger] before[i]) by {
            assert(before[i] == entries[i]);
        }
        lemma_filter_none(before, p);
        assert(!p(entries[entries.len() - 1]));
    }
}

/// All pass a filter that lets them pass.
proof fn lemma_filter_all(entries: Seq<HistoryEntry>, p: spec_fn(HistoryEntry) -> bool)
    requires
        forall|i: int| 0 <= i < entries.len() ==> p(#[trigger] entries[i]),
    ensures
        entries.filter(p) == entries,
    decreases entries.len(),
{
    reveal(Seq::filter);
    if entries.len() > 0 {
        let before = entries.drop_last();
        assert forall|i: int| 0 <= i < before.len() implies p(#[trigger] before[i]) by {
            assert(before[i] == entries[i]);
        }
        lemma_filter_all(before, p);
        assert(p(entries[entries.len() - 1]));
        assert(before.push(entries.last()) =~= entries);
    } else {
        assert(entries.filter(p) =~= entries);
    }
}

/// What passes a filter is among the entries.
proof fn lemma_filter_members(
    entries: Seq<HistoryEntry>,
    p: spec_fn(HistoryEntry) -> bool,
    e: HistoryEntry,
)
    ensures
        entries.filter(p).contains(e) <==> entries.contains(e) && p(e),
    decreases entries.len(),
{
    reveal(Seq::filter);
    if entries.len() > 0 {
        let before = entries.drop_last();
        let last = entries.last();
        let kept = before.filter(p);
        lemma_filter_members(before, p, e);
        assert(before.push(last) =~= entries);
        if entries.contains(e) {
            let i = choose|i: int| 0 <= i < entries.len() && entries[i] == e;
            if i < before.len() {
                assert(before[i] == e);
                assert(before.contains(e));
            }
        }
        if before.contains(e) {
            let i = choose|i: int| 0 <= i < before.len() && before[i] == e;
            assert(entries[i] == e);
        }
        assert(entries[entries.len() - 1] == last);
        if p(last) {
            assert(entries.filter(p) == kept.push(last));
            assert(kept.push(last)[kept.len() as int] == last);
            if kept.contains(e) {
                let i = choose|i: int| 0 <= i < kept.len() && kept[i] == e;
                assert(kept.push(last)[i] == e);
            }
            if kept.push(last).contains(e) && e != last {
                let i = choose|i: int| 0 <= i < kept.push(last).len() && kept.push(last)[i] == e;
                assert(kept[i] == e);
            }
        }
    }
}

/// A session that was cleared has no entries, and the others have theirs.
pub proof fn law_clearing_a_session(
    entries: Seq<HistoryEntry>,
    session_id: Seq<char>,
    other: Seq<char>,
)
    ensures
        session::of_session(session::without_session(entries, session_id), session_id) == Seq::<
            HistoryEntry,
        >::empty(),
        other != session_id ==> session::of_session(
            session::without_session(entries, session_id),
            other,
        ) == session::of_session(entries, other),
{
    let p = |e: HistoryEntry| !session::is_of_session(e, session_id);
    let q = |e: HistoryEntry| session::is_of_session(e, session_id);
    let o = |e: HistoryEntry| session::is_of_session(e, other);
    let none = |e: HistoryEntry| false;
    lemma_filter_twice(entries, p, q, none);
    lemma_filter_none(entries, none);
    if other != session_id {
        lemma_filter_twice(entries, p, o, o);
    }
}

/// After rotation, none of the entries is too old, and each was there before.
pub proof fn law_rotation_keeps_the_policy(
    entries: Seq<HistoryEntry>,
    config: HistoryConfig,
    now: Instant,
    e: HistoryEntry,
)
    requires
        rotation::rotated(session::counted(entries), config, now).entries.contains(e),
    ensures
        !rotation::is_too_old(e, now, config.max_age_seconds),
        entries.contains(e),
{
    let young = |e: HistoryEntry| !rotation::is_too_old(e, now, config.max_age_seconds);
    let kept = entries.filter(young);
    let old = rotation::old_entries(entries, now, config.max_age_seconds);
    let bytes = entry::reduced(
        entry::total_size(entries) as int,
        entry::total_size(old),
    );
    lemma_evicted_members(Counted { entries: kept, bytes }, config, e);
    lemma_filter_members(entries, young, e);
}

/// What eviction leaves was there before.
proof fn lemma_evicted_members(c: Counted, config: HistoryConfig, e: HistoryEntry)
    requires
        entry::evicted(c, config).entries.contains(e),
    ensures
        c.entries.contains(e),
    decreases c.entries.len(),
{
    if c.entries.len() > 0 && !entry::within_limits(c, config) {
        let next = entry::without_oldest(c);
        lemma_evicted_members(next, config, e);
        let i = choose|i: int| 0 <= i < next.entries.len() && next.entries[i] == e;
        assert(c.entries[i + 1] == e);
    }
}

/// After rotation, the history is within its limits.
pub proof fn law_rotation_bounds_memory(
    entries: Seq<HistoryEntry>,
    config: HistoryConfig,
    now: Instant,
)
    ensures
        entry::within_limits(
            session::counted(rotation::rotated(session::counted(entries), config, now).entries),
            config,
        ),
{
    session::lemma_rotated(entries, config, now, 0);
}

/// Where no entry is too old and all are within the limits, rotation changes
/// nothing.
pub proof fn law_rotation_without_need(
    entries: Seq<HistoryEntry>,
    config: HistoryConfig,
    now: Instant,
)
    requires
        forall|i: int|
            0 <= i < entries.len() ==> !rotation::is_too_old(
                #[trigger] entries[i],
                now,
                config.max_age_seconds,
            ),
        entry::within_limits(session::counted(entries), config),
    ensures
        rotation::rotated(session::counted(entries), config, now) == session::counted(entries),
{
    let young = |e: HistoryEntry| !rotation::is_too_old(e, now, config.max_age_seconds);
    let old = |e: HistoryEntry| rotation::is_too_old(e, now, config.max_age_seconds);
    lemma_filter_all(entries, young);
    lemma_filter_none(entries, old);
}

/// Rotating once more at the same time changes nothing.
pub proof fn law_rotation_settles(
    entries: Seq<HistoryEntry>,
    config: HistoryConfig,
    now: Instant,
)
    ensures
        ({
            let once = rotation::rotated(session::counted(entries), config, now);
            rotation::rotated(once, config, now) == once
        }),
{
    let once = rotation::rotated(session::counted(entries), config, now);
    session::lemma_rotated(entries, config, now, 0);
    assert forall|i: int| 0 <= i < once.entries.len() implies !rotation::is_too_old(
        #[trigger] once.entries[i],
        now,
        config.max_age_seconds,
    ) by {
        assert(once.entries.contains(once.entries[i]));
        law_rotation_keeps_the_policy(entries, config, now, once.entries[i]);
    }
    law_rotation_without_need(once.entries, config, now);
    assert(once == session::counted(once.entries));
}

/// A search finds entries that are there and that the query asks for.
pub proof fn law_search_finds_matches(
    entries: Seq<HistoryEntry>,
    q: SearchQuery,
    e: HistoryEntry,
)
    requires
        search::found(entries, q).contains(e),
    ensures
        entries.contains(e),
        search::is_match(e, q),
{
    let p = |e: HistoryEntry| search::is_match(e, q);
    let all = entries.filter(p);
    let i = choose|i: int|
        0 <= i < search::found(entries, q).len() && search::found(entries, q)[i] == e;
    assert(all[i] == e);
    assert(all.contains(e));
    lemma_filter_members(entries, p, e);
}

/// A search without a limit finds all entries that the query asks for.
pub proof fn law_search_finds_all_matches(
    entries: Seq<HistoryEntry>,
    q: SearchQuery,
    e: HistoryEntry,
)
    requires
        q.limit is None,
        entries.contains(e),
        search::is_match(e, q),
    ensures
        search::found(entries, q).contains(e),
{
    let p = |e: HistoryEntry| search::is_match(e, q);
    lemma_filter_members(entries, p, e);
}

/// A query that asks for nothing in particular finds all entries.
pub proof fn law_empty_query_finds_all(entries: Seq<HistoryEntry>, q: SearchQuery)
    requires
        search::asks_nothing(q),
    ensures
        search::found(entries, q) == entries,
{
    lemma_filter_all(entries, |e: HistoryEntry| search::is_match(e, q));
}

/// A search finds no more than its limit, and with a limit it finds the first
/// of what it finds without.
pub proof fn law_limit_cuts_the_results(entries: Seq<HistoryEntry>, q: SearchQuery, limit: usize)
    requires
        q.limit == Some(limit),
    ensures
        search::found(entries, q).len() <= limit,
        search::found(entries, q).is_prefix_of(
            search::found(entries, SearchQuery { limit: None, ..q }),
        ),
{
    let p = |e: HistoryEntry| search::is_match(e, q);
    let r = SearchQuery { limit: None, ..q };
    let p2 = |e: HistoryEntry| search::is_match(e, r);
    assert(p =~= p2);
    let all = entries.filter(p);
    assert(all.take(limit as int) =~= all.subrange(0, limit as int));
}

/// The case of the letters that are searched for does not matter.
pub proof fn law_case_does_not_matter(content: Seq<char>, a: Seq<char>, b: Seq<char>)
    requires
        search::lower_cased(a) == search::lower_cased(b),
    ensures
        search::contains_ignoring_case(content, a) == search::contains_ignoring_case(content, b),
{
}

/// What was written and then appended is loaded again, in that order, by any way
/// to read that takes the JSON of each entry for the entry; from nothing, nothing
/// is loaded.
pub proof fn law_stored_entries_are_loaded(
    entries: Seq<HistoryEntry>,
    e: HistoryEntry,
    read: spec_fn(Seq<char>) -> Option<HistoryEntry>,
)
    requires
        forall|i: int|
            0 <= i < entries.len() ==> storage::reads_back(read, #[trigger] entries[i])
                && storage::metadata_is_one_line(entries[i]),
        storage::reads_back(read, e),
        storage::metadata_is_one_line(e),
    ensures
        storage::loaded(storage::stored_text(entries), read) == entries,
        storage::loaded(storage::stored_text(entries) + storage::stored_line(e), read)
            == entries.push(e),
        storage::loaded(Seq::empty(), read) == Seq::<HistoryEntry>::empty(),
{
    storage::lemma_stored_text(entries);
    storage::lemma_all_read_back(entries, read);
    storage::lemma_stored_text(entries.push(e));
    storage::lemma_all_read_back(entries.push(e), read);
    law_storage_is_appended_to(entries, e);
    storage::lemma_all_read_back(Seq::empty(), read);
    assert(storage::entry_lines(Seq::empty()) =~= text::lines_of(Seq::empty()));
}

/// Appending the line of an entry to what is stored gives what is stored with
/// that entry.
pub proof fn law_storage_is_appended_to(entries: Seq<HistoryEntry>, e: HistoryEntry)
    ensures
        storage::stored_text(entries.push(e)) == storage::stored_text(entries)
            + storage::stored_line(e),
{
    assert(entries.push(e).drop_last() =~= entries);
}

/// A text is found at any position in the content, whatever the case of the letters:
/// where the lower-cased content is something, the lower-cased text, and something.
pub proof fn law_text_is_found_anywhere(
    e: HistoryEntry,
    q: SearchQuery,
    part: String,
    before: Seq<char>,
    after: Seq<char>,
)
    requires
        q.text == Some(part),
        q.role is None,
        q.session_id is None,
        q.after is None,
        q.before is None,
        q.limit is None,
    ensures
        search::lower_cased(e.content@) == before + search::lower_cased(part@) + after
            ==> search::found(seq![e], q) == seq![e],
        search::found(seq![e], q) == seq![e] ==> exists|x: Seq<char>, y: Seq<char>|
            search::lower_cased(e.content@) == #[trigger] (x + search::lower_cased(part@) + y),
        search::found(seq![e], q) == seq![e] || search::found(seq![e], q) == Seq::<
            HistoryEntry,
        >::empty(),
{
    let p = |e: HistoryEntry| search::is_match(e, q);
    text::law_contained_text(search::lower_cased(e.content@), search::lower_cased(part@));
    reveal(Seq::filter);
    let none = Seq::<HistoryEntry>::empty();
    assert(seq![e].drop_last() =~= none);
    assert(none.filter(p) =~= none);
    assert(none.push(e) =~= seq![e]);
    if search::lower_cased(e.content@) == before + search::lower_cased(part@) + after {
        assert(exists|x: Seq<char>, y: Seq<char>|
            search::lower_cased(e.content@) == #[trigger] (x + search::lower_cased(part@) + y));
        assert(p(e));
    }
}

/// Entries are searched one by one and found in their order. An entry is found if its
/// content has the text, its role and its session are those that are asked for, and its
/// time comes after the one time and before the other; what is not asked for does not
/// matter.
pub proof fn law_search_entry_by_entry(entries: Seq<HistoryEntry>, e: HistoryEntry, q: SearchQuery)
    requires
        q.limit is None,
    ensures
        search::found(Seq::empty(), q) == Seq::<HistoryEntry>::empty(),
        ({
            let t = e.timestamp@;
            let asked_for = {
                &&& q.text matches Some(part) ==> exists|x: Seq<char>, y: Seq<char>|
                    search::lower_cased(e.content@) == #[trigger] (x + search::lower_cased(part@)
                        + y)
                &&& q.role matches Some(role) ==> e.role == role
                &&& q.session_id matches Some(id) ==> e.session_id@ == id@
                &&& q.after matches Some(a) ==> t.secs > a@.secs || (t.secs == a@.secs && t.nanos
                    > a@.nanos)
                &&& q.before matches Some(b) ==> t.secs < b@.secs || (t.secs == b@.secs && t.nanos
                    < b@.nanos)
            };
            search::found(entries.push(e), q) == if asked_for {
                search::found(entries, q).push(e)
            } else {
                search::found(entries, q)
            }
        }),
{
    let p = |e: HistoryEntry| search::is_match(e, q);
    if let Some(part) = q.text {
        text::law_contained_text(search::lower_cased(e.content@), search::lower_cased(part@));
    }
    reveal(Seq::filter);
    assert(entries.push(e).drop_last() =~= entries);
    let none = Seq::<HistoryEntry>::empty();
    assert(none.filter(p) =~= none);
}

/// With a limit, a search finds as many as it may of what it finds without, from the
/// first on.
pub proof fn law_limit_takes_the_first(entries: Seq<HistoryEntry>, q: SearchQuery, limit: usize)
    requires
        q.limit == Some(limit),
    ensures
        ({
            let all = search::found(entries, SearchQuery { limit: None, ..q });
            search::found(entries, q) == if all.len() <= limit {
                all
            } else {
                all.subrange(0, limit as int)
            }
        }),
{
    let p = |e: HistoryEntry| search::is_match(e, q);
    let r = SearchQuery { limit: None, ..q };
    let p2 = |e: HistoryEntry| search::is_match(e, r);
    assert(p =~= p2);
    let all = entries.filter(p);
    if limit < all.len() {
        assert(all.take(limit as int) =~= all.subrange(0, limit as int));
    }
}

/// An entry that rotation leaves is no older than the limit, whatever its role, its
/// session and its content: the time from its timestamp to now is at most that many
/// seconds.
pub proof fn law_rotation_leaves_no_old_entry(
    c: Counted,
    config: HistoryConfig,
    now: Instant,
    i: int,
)
    requires
        c.bytes >= 0,
        0 <= i < rotation::rotated(c, config, now).entries.len(),
    ensures
        ({
            let t = rotation::rotated(c, config, now).entries[i].timestamp@;
            &&& time::elapsed(now, t) <= config.max_age_seconds * 1_000_000_000
            &&& now.nanos < 1_000_000_000 && t.nanos < 1_000_000_000 ==> (now.secs - t.secs)
                * 1_000_000_000 + (now.nanos - t.nanos) <= config.max_age_seconds * 1_000_000_000
        }),
{
    let left = rotation::rotated(c, config, now).entries;
    let k = law_rotation_is_exact(c, config, now);
    let fresh = |e: HistoryEntry|
        time::elapsed(now, e.timestamp@) <= config.max_age_seconds * 1_000_000_000;
    let young = c.entries.filter(fresh);
    assert(left[i] == young[k + i]);
    assert(young.contains(young[k + i]));
    lemma_filter_members(c.entries, fresh, young[k + i]);
}

/// Whether an entry is too old depends on its timestamp alone.
pub proof fn law_age_is_in_the_timestamp(
    e: HistoryEntry,
    other: HistoryEntry,
    now: Instant,
    max_age_seconds: u64,
)
    ensures
        rotation::is_too_old(e, now, max_age_seconds) <==> time::elapsed(now, e.timestamp@)
            > max_age_seconds * 1_000_000_000,
        now.nanos < 1_000_000_000 && e.timestamp@.nanos < 1_000_000_000 ==> (rotation::is_too_old(
            e,
            now,
            max_age_seconds,
        ) <==> (now.secs - e.timestamp@.secs) * 1_000_000_000 + (now.nanos - e.timestamp@.nanos)
            > max_age_seconds * 1_000_000_000),
        e.timestamp@ == other.timestamp@ ==> rotation::is_too_old(e, now, max_age_seconds)
            == rotation::is_too_old(other, now, max_age_seconds),
{
}

/// The entries are parted by their age one by one, and keep their order.
pub proof fn law_ages_entry_by_entry(
    entries: Seq<HistoryEntry>,
    e: HistoryEntry,
    now: Instant,
    max_age_seconds: u64,
)
    ensures
        rotation::young_entries(Seq::empty(), now, max_age_seconds) == Seq::<HistoryEntry>::empty(),
        rotation::old_entries(Seq::empty(), now, max_age_seconds) == Seq::<HistoryEntry>::empty(),
        ({
            let young = rotation::young_entries(entries, now, max_age_seconds);
            let old = rotation::old_entries(entries, now, max_age_seconds);
            let all = entries.push(e);
            if time::elapsed(now, e.timestamp@) <= max_age_seconds * 1_000_000_000 {
                &&& rotation::young_entries(all, now, max_age_seconds) == young.push(e)
                &&& rotation::old_entries(all, now, max_age_seconds) == old
            } else {
                &&& rotation::young_entries(all, now, max_age_seconds) == young
                &&& rotation::old_entries(all, now, max_age_seconds) == old.push(e)
            }
        }),
{
    let p = |e: HistoryEntry| !rotation::is_too_old(e, now, max_age_seconds);
    let q = |e: HistoryEntry| rotation::is_too_old(e, now, max_age_seconds);
    reveal(Seq::filter);
    assert(entries.push(e).drop_last() =~= entries);
    let none = Seq::<HistoryEntry>::empty();
    assert(none.filter(p) =~= none);
    assert(none.filter(q) =~= none);
}

/// What rotation leaves are the newest of the entries that are not too old, as many as
/// the limits allow: they are within both limits, and with one more they would not be. An
/// entry that is not too old goes for the limits alone. The record of the bytes is
/// reduced by those of the entries that went, and is never less than nothing.
pub proof fn law_rotation_is_exact(c: Counted, config: HistoryConfig, now: Instant) -> (gone: int)
    requires
        c.bytes >= 0,
    ensures
        ({
            let young = c.entries.filter(
                |e: HistoryEntry|
                    time::elapsed(now, e.timestamp@) <= config.max_age_seconds * 1_000_000_000,
            );
            let old = c.entries.filter(
                |e: HistoryEntry|
                    time::elapsed(now, e.timestamp@) > config.max_age_seconds * 1_000_000_000,
            );
            let left = rotation::rotated(c, config, now);
            let bytes = c.bytes - entry::total_size(old);
            &&& 0 <= gone <= young.len()
            &&& left.entries == young.skip(gone)
            &&& left.entries.len() <= config.max_entries_in_memory
            &&& left.bytes == (if bytes - entry::total_size(young.take(gone)) > 0 {
                bytes - entry::total_size(young.take(gone))
            } else {
                0
            })
            &&& left.entries.len() > 0 ==> left.bytes <= config.max_bytes_in_memory
            &&& gone > 0 ==> young.len() - (gone - 1) > config.max_entries_in_memory || bytes
                - entry::total_size(young.take(gone - 1)) > config.max_bytes_in_memory
        }),
{
    let kept = |e: HistoryEntry| !rotation::is_too_old(e, now, config.max_age_seconds);
    let dropped = |e: HistoryEntry| rotation::is_too_old(e, now, config.max_age_seconds);
    let fresh = |e: HistoryEntry|
        time::elapsed(now, e.timestamp@) <= config.max_age_seconds * 1_000_000_000;
    let stale = |e: HistoryEntry|
        time::elapsed(now, e.timestamp@) > config.max_age_seconds * 1_000_000_000;
    assert(kept =~= fresh);
    assert(dropped =~= stale);
    let young = c.entries.filter(kept);
    let bytes = entry::reduced(c.bytes, entry::total_size(c.entries.filter(dropped)));
    lemma_evicted_by_count(Counted { entries: young, bytes }, config)
}

/// How many of the oldest entries go.
proof fn lemma_evicted_by_count(c: Counted, config: HistoryConfig) -> (gone: int)
    requires
        c.bytes >= 0,
    ensures
        ({
            let left = entry::evicted(c, config);
            &&& 0 <= gone <= c.entries.len()
            &&& left.entries == c.entries.skip(gone)
            &&& left.bytes == entry::reduced(c.bytes, entry::total_size(c.entries.take(gone)))
            &&& left.entries.len() <= config.max_entries_in_memory
            &&& left.entries.len() > 0 ==> left.bytes <= config.max_bytes_in_memory
            &&& gone > 0 ==> c.entries.len() - (gone - 1) > config.max_entries_in_memory
                || entry::reduced(c.bytes, entry::total_size(c.entries.take(gone - 1)))
                > config.max_bytes_in_memory
        }),
    decreases c.entries.len(),
{
    if c.entries.len() == 0 || entry::within_limits(c, config) {
        assert(c.entries.skip(0) =~= c.entries);
        assert(c.entries.take(0) =~= Seq::empty());
        0
    } else {
        let next = entry::without_oldest(c);
        let more = lemma_evicted_by_count(next, config);
        let first = c.entries.first();
        assert(next.entries.skip(more) =~= c.entries.skip(more + 1));
        assert(c.entries.take(more + 1).first() == first);
        assert(c.entries.take(more + 1).drop_first() =~= next.entries.take(more));
        if more > 0 {
            assert(c.entries.take(more).first() == first);
            assert(c.entries.take(more).drop_first() =~= next.entries.take(more - 1));
        } else {
            assert(c.entries.take(0) =~= Seq::empty());
        }
        more + 1
    }
}

/// Whether an entry is one that a query asks for: its content has the text, whatever the
/// case of the letters, its role and its session are those that are asked for, and its
/// time comes after the one time and before the other. What is not asked for does not
/// matter.
pub proof fn law_match(e: HistoryEntry, q: SearchQuery)
    ensures
        search::is_match(e, q) <==> {
            let t = e.timestamp@;
            &&& q.text matches Some(part) ==> exists|x: Seq<char>, y: Seq<char>|
                search::lower_cased(e.content@) == #[trigger] (x + search::lower_cased(part@) + y)
            &&& q.role matches Some(role) ==> e.role == role
            &&& q.session_id matches Some(id) ==> e.session_id@ == id@
            &&& q.after matches Some(a) ==> t.secs > a@.secs || (t.secs == a@.secs && t.nanos
                > a@.nanos)
            &&& q.before matches Some(b) ==> t.secs < b@.secs || (t.secs == b@.secs && t.nanos
                < b@.nanos)
        },
{
    if let Some(part) = q.text {
        text::law_contained_text(search::lower_cased(e.content@), search::lower_cased(part@));
    }
}

/// Rotation tells how many entries went and stayed, and how many bytes went with them.
pub proof fn law_rotation_tells_what_it_did(r: RotationResult, before: Counted, after: Counted)
    requires
        rotation::tells_difference(r, before, after),
    ensures
        r.entries_remaining == after.entries.len(),
        r.entries_removed + r.entries_remaining == before.entries.len(),
        after.bytes <= before.bytes ==> r.bytes_freed == before.bytes - after.bytes,
        after.bytes > before.bytes ==> r.bytes_freed == 0,
{
}

/// The size of entries is the number of bytes of their contents in UTF-8.
pub proof fn law_size_is_in_bytes(entries: Seq<HistoryEntry>, e: HistoryEntry)
    ensures
        entry::total_size(Seq::empty()) == 0,
        entry::total_size(entries.push(e)) == entry::total_size(entries)
            + vstd::utf8::encode_utf8(e.content@).len(),
{
    entry::lemma_total_size_of_two(entries, seq![e]);
    assert(entries + seq![e] =~= entries.push(e));
    assert(seq![e].drop_first() =~= Seq::empty());
    assert(entry::total_size(seq![e]) == entry::content_size(e) + entry::total_size(
        Seq::<HistoryEntry>::empty(),
    ));
}

/// Entries belong to a session, or do not, by the ID of the session alone, and keep
/// their order.
pub proof fn law_session_entry_by_entry(
    entries: Seq<HistoryEntry>,
    e: HistoryEntry,
    session_id: Seq<char>,
)
    ensures
        session::of_session(Seq::empty(), session_id) == Seq::<HistoryEntry>::empty(),
        session::without_session(Seq::empty(), session_id) == Seq::<HistoryEntry>::empty(),
        e.session_id@ == session_id ==> {
            &&& session::of_session(entries.push(e), session_id) == session::of_session(
                entries,
                session_id,
            ).push(e)
            &&& session::without_session(entries.push(e), session_id) == session::without_session(
                entries,
                session_id,
            )
        },
        e.session_id@ != session_id ==> {
            &&& session::of_session(entries.push(e), session_id) == session::of_session(
                entries,
                session_id,
            )
            &&& session::without_session(entries.push(e), session_id) == session::without_session(
                entries,
                session_id,
            ).push(e)
        },
{
    let p = |e: HistoryEntry| session::is_of_session(e, session_id);
    let q = |e: HistoryEntry| !session::is_of_session(e, session_id);
    reveal(Seq::filter);
    assert(entries.push(e).drop_last() =~= entries);
    let none = Seq::<HistoryEntry>::empty();
    assert(none.filter(p) =~= none);
    assert(none.filter(q) =~= none);
}

/// Adding an entry counts the ID on by one, and changes neither the configuration nor
/// the storage. What is there afterwards was there before, or is the entry.
pub proof fn law_adding_changes_nothing_else(h: HistoryView, e: HistoryEntry, i: int)
    ensures
        session::with_entry(h, e).next_id == h.next_id + 1,
        session::with_entry(h, e).config == h.config,
        session::with_entry(h, e).storage == h.storage,
        0 <= i < session::with_entry(h, e).entries.len() ==> h.entries.contains(
            session::with_entry(h, e).entries[i],
        ) || session::with_entry(h, e).entries[i] == e,
{
    let all = h.entries.push(e);
    let limit = h.config.max_entries_in_memory;
    let left = session::shortened(all, e.session_id@, limit);
    let after = session::with_entry(h, e).entries;
    if 0 <= i < after.len() {
        session::lemma_shortened(all, e.session_id@, limit, e.session_id@);
        entry::lemma_lightened(session::counted(left), h.config.max_bytes_in_memory);
        let k = choose|k: int| 0 <= k <= left.len() && after == #[trigger] left.skip(k);
        assert(left.contains(left[k + i]));
        assert(all.contains(left[k + i]));
        let j = choose|j: int| 0 <= j < all.len() && all[j] == left[k + i];
        if j < h.entries.len() {
            assert(h.entries[j] == all[j]);
        }
    }
}

/// A Markdown document grows with each entry: by the header of its session, where that
/// is another than the one before it, by the role and the time of the entry, and by its
/// content.
pub proof fn law_markdown_entry_by_entry(entries: Seq<HistoryEntry>, e: HistoryEntry)
    ensures
        export::exported(Seq::empty(), ExportFormat::Markdown) == "# Session History\n\n"@,
        ({
            let header = if entries.len() == 0 || entries.last().session_id@ != e.session_id@ {
                "## Session: "@ + e.session_id@ + "\n\n"@
            } else {
                Seq::empty()
            };
            let label = match e.role {
                Role::User => "**User**"@,
                Role::Assistant => "**Assistant**"@,
                Role::System => "**System**"@,
                Role::Tool => "**Tool**"@,
            };
            let at = time::formatted_text(
                e.timestamp@.secs,
                e.timestamp@.nanos,
                "%Y-%m-%d %H:%M:%S UTC"@,
            );
            export::exported(entries.push(e), ExportFormat::Markdown) == export::exported(
                entries,
                ExportFormat::Markdown,
            ) + header + ("### "@ + label + " ("@ + at + ")\n\n"@ + e.content@ + "\n\n---\n\n"@)
        }),
{
    let all = entries.push(e);
    let n = entries.len();
    lemma_sections_of_more(entries, e, n);
    assert("# Session History\n\n"@ + export::sections(Seq::empty(), 0)
        =~= "# Session History\n\n"@);
    assert(all[n as int] == e);
    let header = if entries.len() == 0 || entries.last().session_id@ != e.session_id@ {
        export::session_header(e.session_id@)
    } else {
        Seq::empty()
    };
    assert(export::sections(all, n + 1) == export::sections(entries, n) + header
        + export::entry_section(e));
    assert("# Session History\n\n"@ + (export::sections(entries, n) + header
        + export::entry_section(e)) =~= "# Session History\n\n"@ + export::sections(entries, n)
        + header + export::entry_section(e));
}

/// The first sections do not depend on what follows.
proof fn lemma_sections_of_more(entries: Seq<HistoryEntry>, e: HistoryEntry, n: nat)
    requires
        n <= entries.len(),
    ensures
        export::sections(entries.push(e), n) == export::sections(entries, n),
    decreases n,
{
    if n > 0 {
        lemma_sections_of_more(entries, e, (n - 1) as nat);
    }
}

/// An entry in JSON is an object with all of its fields, in their order. An entry in an
/// exported array has the same, laid out on lines of their own.
pub proof fn law_entry_in_json(e: HistoryEntry)
    ensures
        ({
            let role = match e.role {
                Role::User => "user"@,
                Role::Assistant => "assistant"@,
                Role::System => "system"@,
                Role::Tool => "tool"@,
            };
            let token_count = match e.token_count {
                Some(n) => text::decimal(n as nat),
                None => "null"@,
            };
            let metadata = match e.metadata {
                Some(value) => json::value_text(value),
                None => "null"@,
            };
            let pretty = match e.metadata {
                Some(value) => json::indented(json::pretty_text(json::value_text(value)), "    "@),
                None => "null"@,
            };
            let id = text::decimal(e.id as nat);
            let session_id = json::json_string(e.session_id@);
            let timestamp = json::json_string(
                time::rfc3339_text(e.timestamp@.secs, e.timestamp@.nanos, true),
            );
            let content = json::json_string(e.content@);
            let named = json::json_string(role);
            &&& storage::entry_json(e) == "{"@ + "\"id\""@ + ":"@ + id + ","@ + "\"session_id\""@
                + ":"@ + session_id + ","@ + "\"timestamp\""@ + ":"@ + timestamp + ","@
                + "\"role\""@ + ":"@ + named + ","@ + "\"content\""@ + ":"@ + content + ","@
                + "\"token_count\""@ + ":"@ + token_count + ","@ + "\"metadata\""@ + ":"@
                + metadata + "}"@
            &&& export::exported(seq![e], ExportFormat::Json) == "[\n  "@ + ("{\n    "@
                + "\"id\""@ + ": "@ + id + ",\n    "@ + "\"session_id\""@ + ": "@ + session_id
                + ",\n    "@ + "\"timestamp\""@ + ": "@ + timestamp + ",\n    "@ + "\"role\""@
                + ": "@ + named + ",\n    "@ + "\"content\""@ + ": "@ + content + ",\n    "@
                + "\"token_count\""@ + ": "@ + token_count + ",\n    "@ + "\"metadata\""@
                + ": "@ + pretty + "\n  }"@) + "\n]"@
        }),
{
    let laid_out = |e: HistoryEntry| export::laid_out_entry(e);
    assert(seq![e].map_values(laid_out) =~= seq![export::laid_out_entry(e)]);
}

/// The entries of an exported array stand one after the other, with a comma between each
/// two.
pub proof fn law_array_entry_by_entry(entries: Seq<HistoryEntry>, e: HistoryEntry)
    requires
        entries.len() > 0,
    ensures
        export::exported(Seq::empty(), ExportFormat::Json) == "[]"@,
        exists|objects: Seq<char>, last: Seq<char>|
            {
                &&& export::exported(entries, ExportFormat::Json) == #[trigger] ("[\n  "@ + objects
                    + "\n]"@)
                &&& export::exported(seq![e], ExportFormat::Json) == #[trigger] ("[\n  "@ + last
                    + "\n]"@)
                &&& export::exported(entries.push(e), ExportFormat::Json) == "[\n  "@ + (objects
                    + ",\n  "@ + last) + "\n]"@
            },
{
    let laid_out = |e: HistoryEntry| export::laid_out_entry(e);
    let objects = text::joined(entries.map_values(laid_out), ",\n  "@);
    let last = export::laid_out_entry(e);
    assert(seq![e].map_values(laid_out) =~= seq![last]);
    assert(entries.push(e).map_values(laid_out) =~= entries.map_values(laid_out).push(last));
    assert(entries.push(e).map_values(laid_out).drop_last() =~= entries.map_values(laid_out));
    assert(export::exported(entries, ExportFormat::Json) == "[\n  "@ + objects + "\n]"@);
    assert(export::exported(seq![e], ExportFormat::Json) == "[\n  "@ + last + "\n]"@);
}

/// A file stores each entry on a line of its own, one after the other.
pub proof fn law_stored_entry_by_entry(entries: Seq<HistoryEntry>, e: HistoryEntry)
    ensures
        storage::stored_text(Seq::empty()) == Seq::<char>::empty(),
        storage::stored_text(entries.push(e)) == storage::stored_text(entries)
            + storage::entry_json(e) + seq!['\n'],
{
    assert(entries.push(e).drop_last() =~= entries);
    assert(storage::stored_text(entries.push(e)) =~= storage::stored_text(entries)
        + storage::entry_json(e) + seq!['\n']);
}

/// Lines are read one by one. One that is an entry is loaded, and one that is not is
/// passed over.
pub proof fn law_loaded_line_by_line(records: Seq<Option<HistoryEntry>>, e: HistoryEntry)
    ensures
        storage::readable(Seq::empty()) == Seq::<HistoryEntry>::empty(),
        storage::readable(records.push(Some(e))) == storage::readable(records).push(e),
        storage::readable(records.push(None)) == storage::readable(records),
{
    assert(records.push(Some(e)).drop_last() =~= records);
    assert(records.push(None).drop_last() =~= records);
}

/// What is loaded from a file are the entries that its lines are, in their order.
pub proof fn law_lines_are_loaded(
    lines: Seq<Seq<char>>,
    read: spec_fn(Seq<char>) -> Option<HistoryEntry>,
)
    requires
        lines.len() > 0,
        lines.last().len() > 0,
        forall|i: int| 0 <= i < lines.len() ==> text::is_one_line(#[trigger] lines[i]),
        forall|i: int|
            0 <= i < lines.len() && (#[trigger] lines[i]).len() > 0 ==> lines[i].last() != '\r',
    ensures
        storage::loaded(text::joined(lines, "\n"@), read) == storage::readable(
            lines.map_values(read),
        ),
{
    text::lemma_lines_of_joined(lines);
    let bare = |line: Seq<char>| text::without_carriage_return(line);
    assert forall|i: int| 0 <= i < lines.len() implies #[trigger] lines.map_values(bare)[i]
        == lines[i] by {
        assert(bare(lines[i]) == lines[i]);
    }
    assert(lines.map_values(bare) =~= lines);
}

} // verus!
