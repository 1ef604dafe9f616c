//! Rotation: entries that are too old go, and then the oldest ones, until the
//! others are within the limits.

use vstd::prelude::*;

use crate::history::entry;
use crate::history::entry::Counted;
use crate::history::entry::HistoryConfig;
use crate::history::entry::HistoryEntry;
use crate::time;
use crate::time::Instant;
use crate::time::Timestamp;

verus! {

/// Result of a rotation operation.
#[derive(Debug, Clone)]
pub struct RotationResult {
    /// Number of entries removed during rotation.
    pub entries_removed: usize,
    /// Bytes freed during rotation.
    pub bytes_freed: usize,
    /// Number of entries remaining after rotation.
    pub entries_remaining: usize,
}

/// The entry is older than the limit on the age.
pub open spec fn is_too_old(e: HistoryEntry, now: Instant, max_age_seconds: u64) -> bool {
    time::elapsed(now, e.timestamp@) > max_age_seconds * 1_000_000_000
}

/// The entries that are not too old.
pub open spec fn young_entries(
    entries: Seq<HistoryEntry>,
    now: Instant,
    max_age_seconds: u64,
) -> Seq<HistoryEntry> {
    entries.filter(|e: HistoryEntry| !is_too_old(e, now, max_age_seconds))
}

/// The entries that are too old.
pub open spec fn old_entries(
    entries: Seq<HistoryEntry>,
    now: Instant,
    max_age_seconds: u64,
) -> Seq<HistoryEntry> {
    entries.filter(|e: HistoryEntry| is_too_old(e, now, max_age_seconds))
}

/// What is left of the entries that are not too old at the time `now`, within
/// the limits.
pub open spec fn rotated(c: Counted, config: HistoryConfig, now: Instant) -> Counted {
    entry::evicted(
        Counted {
            entries: young_entries(c.entries, now, config.max_age_seconds),
            bytes: entry::reduced(
                c.bytes,
                entry::total_size(old_entries(c.entries, now, config.max_age_seconds)),
            ),
        },
        config,
    )
}

/// The result tells the difference between the entries before and after.
pub open spec fn tells_difference(r: RotationResult, before: Counted, after: Counted) -> bool {
    &&& r.entries_removed == before.entries.len() - after.entries.len()
    &&& r.entries_remaining == after.entries.len()
    &&& r.bytes_freed == (if before.bytes >= after.bytes {
        before.bytes - after.bytes
    } else {
        0
    })
}

/// Filtering one more entry.
pub proof fn lemma_one_more(entries: Seq<HistoryEntry>, i: int, p: spec_fn(HistoryEntry) -> bool)
    requires
        0 <= i < entries.len(),
    ensures
        entries.take(i + 1).filter(p) == (if p(entries[i]) {
            entries.take(i).filter(p).push(entries[i])
        } else {
            entries.take(i).filter(p)
        }),
{
    reveal(Seq::filter);
    assert(entries.take(i + 1).drop_last() =~= entries.take(i));
}

/// Removing one more entry that is too old.
proof fn lemma_one_more_old(old: Seq<HistoryEntry>, e: HistoryEntry, bytes: int)
    requires
        bytes >= 0,
    ensures
        entry::reduced(entry::reduced(bytes, entry::total_size(old)), entry::content_size(e))
            == entry::reduced(bytes, entry::total_size(old.push(e))),
{
    entry::lemma_total_size_of_two(old, seq![e]);
    assert(old + seq![e] =~= old.push(e));
    assert(seq![e].drop_first() =~= Seq::empty());
    assert(entry::total_size(seq![e]) == entry::content_size(e) + entry::total_size(
        Seq::<HistoryEntry>::empty(),
    ));
}

/// Removes the entries that are too old at the time `now`.
fn remove_old(
    entries: &mut Vec<HistoryEntry>,
    total_bytes: &mut usize,
    max_age_seconds: u64,
    now: &Timestamp,
)
    ensures
        final(entries)@ == young_entries(old(entries)@, now@, max_age_seconds),
        *final(total_bytes) == entry::reduced(
            *old(total_bytes) as int,
            entry::total_size(old_entries(old(entries)@, now@, max_age_seconds)),
        ),
{
    let ghost all = entries@;
    let ghost bytes = *total_bytes as int;
    let ghost young = |e: HistoryEntry| !is_too_old(e, now@, max_age_seconds);
    let ghost old = |e: HistoryEntry| is_too_old(e, now@, max_age_seconds);
    let ghost mut seen: int = 0;
    let mut i: usize = 0;
    proof {
        reveal(Seq::filter);
        assert(all.take(0) =~= Seq::empty());
        assert(all.take(0).filter(young) + all.skip(0) =~= all);
    }
    while i < entries.len()
        invariant
            0 <= seen <= all.len(),
            young == |e: HistoryEntry| !is_too_old(e, now@, max_age_seconds),
            old == |e: HistoryEntry| is_too_old(e, now@, max_age_seconds),
            i == all.take(seen).filter(young).len(),
            entries@ == all.take(seen).filter(young) + all.skip(seen),
            bytes >= 0,
            *total_bytes == entry::reduced(bytes, entry::total_size(all.take(seen).filter(old))),
        decreases entries.len() - i,
    {
        let ghost kept = all.take(seen).filter(young);
        assert(entries@[i as int] == all[seen]);
        proof {
            lemma_one_more(all, seen, young);
            lemma_one_more(all, seen, old);
        }
        if entries[i].timestamp.is_older_than(now, max_age_seconds) {
            *total_bytes = total_bytes.saturating_sub(entry::content_len(&entries[i]));
            entries.remove(i);
            proof {
                lemma_one_more_old(all.take(seen).filter(old), all[seen], bytes);
                assert(entries@ =~= kept + all.skip(seen + 1));
            }
        } else {
            i = i + 1;
            assert(kept.push(all[seen]) + all.skip(seen + 1) =~= kept + all.skip(seen));
        }
        proof {
            seen = seen + 1;
        }
    }
    proof {
        assert(entries@.len() == i + (all.len() - seen));
        assert(all.take(seen) =~= all);
        assert(entries@ =~= all.filter(young));
    }
}

/// Rotates (evicts) entries based on the configuration policy, at the time
/// `now`.
///
/// Removes entries that exceed the age limit, and the oldest ones when the
/// total count or bytes exceed theirs.
pub fn rotate_entries_at(
    entries: &mut Vec<HistoryEntry>,
    total_bytes: &mut usize,
    config: &HistoryConfig,
    now: &Timestamp,
) -> (r: RotationResult)
    ensures
        (Counted { entries: final(entries)@, bytes: *final(total_bytes) as int }) == rotated(
            Counted { entries: old(entries)@, bytes: *old(total_bytes) as int },
            *config,
            now@,
        ),
        tells_difference(
            r,
            Counted { entries: old(entries)@, bytes: *old(total_bytes) as int },
            Counted { entries: final(entries)@, bytes: *final(total_bytes) as int },
        ),
{
    let initial_count: usize = entries.len();
    let initial_bytes: usize = *total_bytes;
    let ghost young = |e: HistoryEntry| !is_too_old(e, now@, config.max_age_seconds);
    proof {
        lemma_filter_len(entries@, young);
    }
    remove_old(entries, total_bytes, config.max_age_seconds, now);
    let ghost kept = Counted { entries: entries@, bytes: *total_bytes as int };
    entry::enforce_limits(entries, total_bytes, config);
    proof {
        lemma_evicted_len(kept, *config);
    }
    RotationResult {
        entries_removed: initial_count - entries.len(),
        bytes_freed: initial_bytes.saturating_sub(*total_bytes),
        entries_remaining: entries.len(),
    }
}

/// Filtering adds no entries.
proof fn lemma_filter_len(entries: Seq<HistoryEntry>, p: spec_fn(HistoryEntry) -> bool)
    ensures
        entries.filter(p).len() <= entries.len(),
    decreases entries.len(),
{
    reveal(Seq::filter);
    if entries.len() > 0 {
        lemma_filter_len(entries.drop_last(), p);
    }
}

/// Eviction adds no entries.
proof fn lemma_evicted_len(c: Counted, config: HistoryConfig)
    ensures
        entry::evicted(c, config).entries.len() <= c.entries.len(),
    decreases c.entries.len(),
{
    if c.entries.len() > 0 && !entry::within_limits(c, config) {
        lemma_evicted_len(entry::without_oldest(c), config);
    }
}

/// Rotates (evicts) entries based on the configuration policy, at the current
/// time.
pub fn rotate_entries(
    entries: &mut Vec<HistoryEntry>,
    total_bytes: &mut usize,
    config: &HistoryConfig,
) -> (r: RotationResult)
    ensures
        exists|now: Instant|
            time::is_instant(now) && (Counted {
                entries: final(entries)@,
                bytes: *final(total_bytes) as int,
            }) == #[trigger] rotated(
                Counted { entries: old(entries)@, bytes: *old(total_bytes) as int },
                *config,
                now,
            ),
        tells_difference(
            r,
            Counted { entries: old(entries)@, bytes: *old(total_bytes) as int },
            Counted { entries: final(entries)@, bytes: *final(total_bytes) as int },
        ),
{
    let now = Timestamp::now();
    rotate_entries_at(entries, total_bytes, config, &now)
}

} // verus!
