//! What a history is made of.

use vstd::prelude::*;
use vstd::string::*;

use crate::time::Timestamp;

verus! {

/// Unique identifier for a session history entry.
pub type EntryId = u64;

/// A single session history entry.
#[derive(Debug, Clone, PartialEq)]
pub struct HistoryEntry {
    pub id: EntryId,
    pub session_id: String,
    pub timestamp: Timestamp,
    pub role: Role,
    pub content: String,
    pub token_count: Option<u32>,
    pub metadata: Option<serde_json::Value>,
}

/// The role of the message author.
#[derive(Debug, Clone, Copy, PartialEq, Eq, Structural)]
pub enum Role {
    User,
    Assistant,
    System,
    Tool,
}

/// Configuration for session history management.
#[derive(Debug, Clone)]
pub struct HistoryConfig {
    /// Maximum number of entries to keep in memory per session.
    pub max_entries_in_memory: usize,
    /// Maximum total bytes of content to keep in memory.
    pub max_bytes_in_memory: usize,
    /// Maximum age of entries before rotation (in seconds).
    pub max_age_seconds: u64,
    /// Path of the file that entries are stored in.
    pub storage_path: Option<String>,
}

impl Default for HistoryConfig {
    fn default() -> (r: Self)
        ensures
            r.max_entries_in_memory == 1000,
            r.max_bytes_in_memory == 10 * 1024 * 1024,
            r.max_age_seconds == 24 * 60 * 60,
            r.storage_path is None,
    {
        HistoryConfig {
            max_entries_in_memory: 1000,
            max_bytes_in_memory: 10_485_760,
            max_age_seconds: 86400,
            storage_path: None,
        }
    }
}

/// The number of bytes of the content of an entry.
pub open spec fn content_size(entry: HistoryEntry) -> nat {
    vstd::utf8::encode_utf8(entry.content@).len()
}

/// The number of bytes of the content of the entries.
pub open spec fn total_size(entries: Seq<HistoryEntry>) -> nat
    decreases entries.len(),
{
    if entries.len() == 0 {
        0
    } else {
        content_size(entries.first()) + total_size(entries.drop_first())
    }
}

/// `total` less the bytes of some content, and nothing where there are more.
pub open spec fn reduced(total: int, bytes: nat) -> int {
    if total >= bytes {
        total - bytes
    } else {
        0
    }
}

/// Entries, and the bytes of content that are on record for them.
#[verifier::ext_equal]
pub struct Counted {
    pub entries: Seq<HistoryEntry>,
    pub bytes: int,
}

/// The record of the bytes is right.
pub open spec fn is_exact(c: Counted) -> bool {
    c.bytes == total_size(c.entries)
}

/// The entries are within the limits on their number and their bytes.
pub open spec fn within_limits(c: Counted, config: HistoryConfig) -> bool {
    c.entries.len() <= config.max_entries_in_memory && c.bytes <= config.max_bytes_in_memory
}

/// The entries without the oldest one.
pub open spec fn without_oldest(c: Counted) -> Counted {
    Counted {
        entries: c.entries.drop_first(),
        bytes: reduced(c.bytes, content_size(c.entries.first())),
    }
}

/// What is left once the oldest entries have gone, one by one, until the
/// others are within the limits.
pub open spec fn evicted(c: Counted, config: HistoryConfig) -> Counted
    decreases c.entries.len(),
{
    if c.entries.len() == 0 || within_limits(c, config) {
        c
    } else {
        evicted(without_oldest(c), config)
    }
}

/// What is left once the oldest entries have gone, one by one, until the bytes
/// of the others are within the limit.
pub open spec fn lightened(c: Counted, max_bytes: usize) -> Counted
    decreases c.entries.len(),
{
    if c.entries.len() == 0 || c.bytes <= max_bytes {
        c
    } else {
        lightened(without_oldest(c), max_bytes)
    }
}

/// The number of bytes of the content of an entry.
pub fn content_len(entry: &HistoryEntry) -> (n: usize)
    ensures
        n == content_size(*entry),
{
    entry.content.as_str().as_bytes().len()
}

/// Removes the oldest entry.
fn remove_oldest(entries: &mut Vec<HistoryEntry>, total_bytes: &mut usize)
    requires
        old(entries)@.len() > 0,
    ensures
        (Counted { entries: final(entries)@, bytes: *final(total_bytes) as int })
            == without_oldest(Counted { entries: old(entries)@, bytes: *old(total_bytes) as int }),
{
    *total_bytes = total_bytes.saturating_sub(content_len(&entries[0]));
    entries.remove(0);
    assert(entries@ =~= old(entries)@.drop_first());
}

/// Removes the oldest entries until the bytes of the others are within the
/// limit.
pub fn enforce_byte_limit(
    entries: &mut Vec<HistoryEntry>,
    total_bytes: &mut usize,
    max_bytes: usize,
)
    ensures
        (Counted { entries: final(entries)@, bytes: *final(total_bytes) as int }) == lightened(
            Counted { entries: old(entries)@, bytes: *old(total_bytes) as int },
            max_bytes,
        ),
{
    let ghost all = Counted { entries: entries@, bytes: *total_bytes as int };
    while *total_bytes > max_bytes && entries.len() > 0
        invariant
            lightened(Counted { entries: entries@, bytes: *total_bytes as int }, max_bytes)
                == lightened(all, max_bytes),
        decreases entries.len(),
    {
        remove_oldest(entries, total_bytes);
    }
}

/// Entries that are few enough go for their bytes alone.
proof fn lemma_few_entries(c: Counted, config: HistoryConfig)
    requires
        c.entries.len() <= config.max_entries_in_memory,
    ensures
        evicted(c, config) == lightened(c, config.max_bytes_in_memory),
    decreases c.entries.len(),
{
    if c.entries.len() > 0 && !within_limits(c, config) {
        lemma_few_entries(without_oldest(c), config);
    }
}

/// Removes the oldest entries until the others are within the limits.
pub fn enforce_limits(
    entries: &mut Vec<HistoryEntry>,
    total_bytes: &mut usize,
    config: &HistoryConfig,
)
    ensures
        (Counted { entries: final(entries)@, bytes: *final(total_bytes) as int }) == evicted(
            Counted { entries: old(entries)@, bytes: *old(total_bytes) as int },
            *config,
        ),
{
    let ghost all = Counted { entries: entries@, bytes: *total_bytes as int };
    // First by their number.
    while entries.len() > config.max_entries_in_memory
        invariant
            evicted(Counted { entries: entries@, bytes: *total_bytes as int }, *config) == evicted(
                all,
                *config,
            ),
        decreases entries.len(),
    {
        remove_oldest(entries, total_bytes);
    }
    // Then by their bytes.
    proof {
        lemma_few_entries(Counted { entries: entries@, bytes: *total_bytes as int }, *config);
    }
    enforce_byte_limit(entries, total_bytes, config.max_bytes_in_memory);
}

/// The sizes of two runs of entries add up.
pub proof fn lemma_total_size_of_two(a: Seq<HistoryEntry>, b: Seq<HistoryEntry>)
    ensures
        total_size(a + b) == total_size(a) + total_size(b),
    decreases a.len(),
{
    if a.len() == 0 {
        assert(a + b =~= b);
    } else {
        assert((a + b).first() == a.first());
        assert((a + b).drop_first() =~= a.drop_first() + b);
        lemma_total_size_of_two(a.drop_first(), b);
    }
}

/// Eviction keeps the record of the bytes right, and keeps the newest entries.
pub proof fn lemma_evicted(c: Counted, config: HistoryConfig)
    requires
        is_exact(c),
    ensures
        is_exact(evicted(c, config)),
        within_limits(evicted(c, config), config),
        exists|k: int|
            0 <= k <= c.entries.len() && evicted(c, config).entries == #[trigger] c.entries.skip(k),
    decreases c.entries.len(),
{
    if c.entries.len() == 0 || within_limits(c, config) {
        assert(c.entries.skip(0) =~= c.entries);
    } else {
        let next = without_oldest(c);
        lemma_evicted(next, config);
        let k = choose|k: int|
            0 <= k <= next.entries.len() && evicted(next, config).entries
                == #[trigger] next.entries.skip(k);
        assert(next.entries.skip(k) =~= c.entries.skip(k + 1));
    }
}

/// Eviction by bytes keeps their record right, and keeps the newest entries.
pub proof fn lemma_lightened(c: Counted, max_bytes: usize)
    requires
        is_exact(c),
    ensures
        is_exact(lightened(c, max_bytes)),
        lightened(c, max_bytes).bytes <= max_bytes,
        exists|k: int|
            0 <= k <= c.entries.len() && lightened(c, max_bytes).entries == #[trigger] c.entries.skip(
                k,
            ),
    decreases c.entries.len(),
{
    if c.entries.len() == 0 || c.bytes <= max_bytes {
        assert(c.entries.skip(0) =~= c.entries);
    } else {
        let next = without_oldest(c);
        lemma_lightened(next, max_bytes);
        let k = choose|k: int|
            0 <= k <= next.entries.len() && lightened(next, max_bytes).entries
                == #[trigger] next.entries.skip(k);
        assert(next.entries.skip(k) =~= c.entries.skip(k + 1));
    }
}

} // verus!
