//! The file that entries are stored in: one line of JSON for each.

use vstd::prelude::*;
use vstd::string::*;

use crate::history::entry::HistoryEntry;
use crate::history::entry::Role;
use crate::json;
use crate::text;
use crate::time;
use crate::time::Fraction;

verus! {

/// The file that the entries of a history are stored in.
///
/// It is in JSON Lines format, for append-only writes and line-by-line reads.
#[derive(Debug, Clone)]
pub struct StorageBackend {
    path: String,
}

impl View for StorageBackend {
    type V = Seq<char>;

    closed spec fn view(&self) -> Seq<char> {
        self.path@
    }
}

impl StorageBackend {
    /// Creates a new storage backend at the given path.
    pub fn new(path: &str) -> (r: Self)
        ensures
            r@ == path@,
    {
        StorageBackend { path: path.to_owned() }
    }

    /// The path of the storage file.
    pub fn path(&self) -> (r: &str)
        ensures
            r@ == self@,
    {
        self.path.as_str()
    }

    /// Whether compaction removes a storage file of this size: an empty one
    /// holds nothing worth keeping.
    pub fn removes_on_compaction(&self, file_size: u64) -> (r: bool)
        ensures
            r == (file_size == 0),
    {
        file_size == 0
    }
}

/// The name of a role.
pub open spec fn role_name(role: Role) -> Seq<char> {
    match role {
        Role::User => "user"@,
        Role::Assistant => "assistant"@,
        Role::System => "system"@,
        Role::Tool => "tool"@,
    }
}

/// The name of a role.
pub fn name_of_role(role: Role) -> (r: &'static str)
    ensures
        r@ == role_name(role),
{
    match role {
        Role::User => "user",
        Role::Assistant => "assistant",
        Role::System => "system",
        Role::Tool => "tool",
    }
}

/// The values of an entry in JSON, in the order of its fields.
#[verifier::ext_equal]
pub struct FieldTexts {
    pub id: Seq<char>,
    pub session_id: Seq<char>,
    pub timestamp: Seq<char>,
    pub role: Seq<char>,
    pub content: Seq<char>,
    pub token_count: Seq<char>,
    pub metadata: Seq<char>,
}

/// The values of an entry in JSON, with the metadata as `metadata` has it.
pub open spec fn field_texts(e: HistoryEntry, metadata: Seq<char>) -> FieldTexts {
    FieldTexts {
        id: text::decimal(e.id as nat),
        session_id: json::json_string(e.session_id@),
        timestamp: json::json_string(
            time::rfc3339_text(e.timestamp@.secs, e.timestamp@.nanos, true),
        ),
        role: json::json_string(role_name(e.role)),
        content: json::json_string(e.content@),
        token_count: match e.token_count {
            Some(n) => text::decimal(n as nat),
            None => "null"@,
        },
        metadata,
    }
}

/// The metadata of an entry in JSON, without white space.
pub open spec fn metadata_text(e: HistoryEntry) -> Seq<char> {
    match e.metadata {
        Some(value) => json::value_text(value),
        None => "null"@,
    }
}

/// A JSON object with the fields of an entry. `open` stands before the name
/// of the first field, `next` before those of the others, `colon` behind each,
/// and `close` at the end.
pub open spec fn object_text(
    f: FieldTexts,
    open: Seq<char>,
    next: Seq<char>,
    colon: Seq<char>,
    close: Seq<char>,
) -> Seq<char> {
    open + "\"id\""@ + colon + f.id + next + "\"session_id\""@ + colon + f.session_id + next
        + "\"timestamp\""@ + colon + f.timestamp + next + "\"role\""@ + colon + f.role + next
        + "\"content\""@ + colon + f.content + next + "\"token_count\""@ + colon + f.token_count
        + next + "\"metadata\""@ + colon + f.metadata + close
}

/// An entry in JSON, on one line.
pub open spec fn entry_json(e: HistoryEntry) -> Seq<char> {
    object_text(field_texts(e, metadata_text(e)), "{"@, ","@, ":"@, "}"@)
}

/// Adds a field to a JSON object.
fn add_field(r: &mut String, before: &str, name: &str, colon: &str, value: &str)
    ensures
        final(r)@ == old(r)@ + before@ + name@ + colon@ + value@,
{
    r.append(before);
    r.append(name);
    r.append(colon);
    r.append(value);
}

/// Digits are no line feed.
proof fn lemma_decimal_is_one_line(n: nat)
    ensures
        json::has_no_line_feed(text::decimal(n)),
    decreases n,
{
    if n >= 10 {
        lemma_decimal_is_one_line(n / 10);
    }
}

/// The names of the fields are no line feeds.
proof fn lemma_names_are_one_line()
    ensures
        json::has_no_line_feed("\"id\""@),
        json::has_no_line_feed("\"session_id\""@),
        json::has_no_line_feed("\"timestamp\""@),
        json::has_no_line_feed("\"role\""@),
        json::has_no_line_feed("\"content\""@),
        json::has_no_line_feed("\"token_count\""@),
        json::has_no_line_feed("\"metadata\""@),
        json::has_no_line_feed("null"@),
        json::has_no_line_feed("{"@),
        json::has_no_line_feed(","@),
        json::has_no_line_feed(":"@),
        json::has_no_line_feed("}"@),
{
    reveal_strlit("\"id\"");
    reveal_strlit("\"session_id\"");
    reveal_strlit("\"timestamp\"");
    reveal_strlit("\"role\"");
    reveal_strlit("\"content\"");
    reveal_strlit("\"token_count\"");
    reveal_strlit("\"metadata\"");
    reveal_strlit("null");
    reveal_strlit("{");
    reveal_strlit(",");
    reveal_strlit(":");
    reveal_strlit("}");
}

/// Two texts without line feeds make up one without.
proof fn lemma_one_line_of_two(a: Seq<char>, b: Seq<char>)
    requires
        json::has_no_line_feed(a),
        json::has_no_line_feed(b),
    ensures
        json::has_no_line_feed(a + b),
{
}

/// A field without line feeds, behind a text without.
proof fn lemma_one_more_field(
    s: Seq<char>,
    before: Seq<char>,
    name: Seq<char>,
    colon: Seq<char>,
    value: Seq<char>,
)
    requires
        json::has_no_line_feed(s),
        json::has_no_line_feed(before),
        json::has_no_line_feed(name),
        json::has_no_line_feed(colon),
        json::has_no_line_feed(value),
    ensures
        json::has_no_line_feed(s + before + name + colon + value),
{
    lemma_one_line_of_two(s, before);
    lemma_one_line_of_two(s + before, name);
    lemma_one_line_of_two(s + before + name, colon);
    lemma_one_line_of_two(s + before + name + colon, value);
}

/// The metadata of the entry are one line in JSON, as `serde_json::to_string`
/// writes them.
pub open spec fn metadata_is_one_line(e: HistoryEntry) -> bool {
    e.metadata matches Some(value) ==> json::has_no_line_feed(json::value_text(value))
}

/// An entry in JSON is one line, where its metadata are.
pub proof fn lemma_entry_json_is_one_line(e: HistoryEntry)
    requires
        metadata_is_one_line(e),
    ensures
        json::has_no_line_feed(entry_json(e)),
{
    let f = field_texts(e, metadata_text(e));
    lemma_names_are_one_line();
    lemma_decimal_is_one_line(e.id as nat);
    if let Some(n) = e.token_count {
        lemma_decimal_is_one_line(n as nat);
    }
    json::lemma_json_string_is_one_line(e.session_id@);
    json::lemma_json_string_is_one_line(
        time::rfc3339_text(e.timestamp@.secs, e.timestamp@.nanos, true),
    );
    json::lemma_json_string_is_one_line(role_name(e.role));
    json::lemma_json_string_is_one_line(e.content@);
    let none = Seq::<char>::empty();
    lemma_one_more_field(none, "{"@, "\"id\""@, ":"@, f.id);
    assert(none + "{"@ =~= "{"@);
    let s = "{"@ + "\"id\""@ + ":"@ + f.id;
    lemma_one_more_field(s, ","@, "\"session_id\""@, ":"@, f.session_id);
    let s = s + ","@ + "\"session_id\""@ + ":"@ + f.session_id;
    lemma_one_more_field(s, ","@, "\"timestamp\""@, ":"@, f.timestamp);
    let s = s + ","@ + "\"timestamp\""@ + ":"@ + f.timestamp;
    lemma_one_more_field(s, ","@, "\"role\""@, ":"@, f.role);
    let s = s + ","@ + "\"role\""@ + ":"@ + f.role;
    lemma_one_more_field(s, ","@, "\"content\""@, ":"@, f.content);
    let s = s + ","@ + "\"content\""@ + ":"@ + f.content;
    lemma_one_more_field(s, ","@, "\"token_count\""@, ":"@, f.token_count);
    let s = s + ","@ + "\"token_count\""@ + ":"@ + f.token_count;
    lemma_one_more_field(s, ","@, "\"metadata\""@, ":"@, f.metadata);
    let s = s + ","@ + "\"metadata\""@ + ":"@ + f.metadata;
    lemma_one_line_of_two(s, "}"@);
}

/// A JSON object with the fields of an entry, laid out as the other arguments
/// have it.
pub fn object_json(
    entry: &HistoryEntry,
    metadata: &str,
    open: &str,
    next: &str,
    colon: &str,
    close: &str,
) -> (r: String)
    ensures
        r@ == object_text(field_texts(*entry, metadata@), open@, next@, colon@, close@),
{
    let id = text::decimal_of(entry.id);
    let session_id = json::string_to_json(entry.session_id.as_str()).unwrap();
    let time = entry.timestamp.to_rfc3339(Fraction::AsNeeded);
    let timestamp = json::string_to_json(time.as_str()).unwrap();
    let role = json::string_to_json(name_of_role(entry.role)).unwrap();
    let content = json::string_to_json(entry.content.as_str()).unwrap();
    let token_count = match entry.token_count {
        Some(n) => text::decimal_of(n as u64),
        None => "null".to_owned(),
    };
    let mut r = String::new();
    add_field(&mut r, open, "\"id\"", colon, id.as_str());
    add_field(&mut r, next, "\"session_id\"", colon, session_id.as_str());
    add_field(&mut r, next, "\"timestamp\"", colon, timestamp.as_str());
    add_field(&mut r, next, "\"role\"", colon, role.as_str());
    add_field(&mut r, next, "\"content\"", colon, content.as_str());
    add_field(&mut r, next, "\"token_count\"", colon, token_count.as_str());
    add_field(&mut r, next, "\"metadata\"", colon, metadata);
    r.append(close);
    assert(Seq::<char>::empty() + open@ =~= open@);
    r
}

/// An entry in JSON, on one line.
pub fn entry_to_json(entry: &HistoryEntry) -> (r: String)
    ensures
        r@ == entry_json(*entry),
        json::has_no_line_feed(r@),
{
    let metadata = match &entry.metadata {
        Some(value) => json::value_to_json(value).unwrap(),
        None => "null".to_owned(),
    };
    proof {
        lemma_entry_json_is_one_line(*entry);
    }
    object_json(entry, metadata.as_str(), "{", ",", ":", "}")
}

/// What is stored for an entry: its JSON, and a line feed.
pub open spec fn stored_line(e: HistoryEntry) -> Seq<char> {
    entry_json(e).push('\n')
}

/// What is stored for entries.
pub open spec fn stored_text(entries: Seq<HistoryEntry>) -> Seq<char>
    decreases entries.len(),
{
    if entries.len() == 0 {
        Seq::empty()
    } else {
        stored_text(entries.drop_last()) + stored_line(entries.last())
    }
}

/// The entries in JSON, one for each line.
pub open spec fn entry_lines(entries: Seq<HistoryEntry>) -> Seq<Seq<char>> {
    entries.map_values(|e: HistoryEntry| entry_json(e))
}

/// The text is nothing, or ends with a line feed.
pub open spec fn ends_a_line(s: Seq<char>) -> bool {
    s.len() == 0 || s.last() == '\n'
}

/// The entries among what lines were read as. A line that is no entry is passed
/// over.
pub open spec fn readable(records: Seq<Option<HistoryEntry>>) -> Seq<HistoryEntry>
    decreases records.len(),
{
    if records.len() == 0 {
        Seq::empty()
    } else {
        let before = readable(records.drop_last());
        match records.last() {
            Some(entry) => before.push(entry),
            None => before,
        }
    }
}

/// The entries that are loaded from a storage file, where `read` says what
/// entry a line is, if any.
pub open spec fn loaded(
    stored: Seq<char>,
    read: spec_fn(Seq<char>) -> Option<HistoryEntry>,
) -> Seq<HistoryEntry> {
    readable(text::lines_of(stored).map_values(read))
}

/// The JSON of the entry is read as the entry.
pub open spec fn reads_back(
    read: spec_fn(Seq<char>) -> Option<HistoryEntry>,
    e: HistoryEntry,
) -> bool {
    read(entry_json(e)) == Some(e)
}

/// One more line that is read as an entry.
proof fn lemma_one_more_record(
    lines: Seq<Seq<char>>,
    read: spec_fn(Seq<char>) -> Option<HistoryEntry>,
    e: HistoryEntry,
)
    requires
        reads_back(read, e),
    ensures
        readable(lines.push(entry_json(e)).map_values(read)) == readable(
            lines.map_values(read),
        ).push(e),
{
    let records = lines.push(entry_json(e)).map_values(read);
    assert(records.drop_last() =~= lines.map_values(read));
}

/// Lines that are each read as an entry are read as the entries.
pub proof fn lemma_all_read_back(
    entries: Seq<HistoryEntry>,
    read: spec_fn(Seq<char>) -> Option<HistoryEntry>,
)
    requires
        forall|i: int| 0 <= i < entries.len() ==> reads_back(read, #[trigger] entries[i]),
    ensures
        readable(entry_lines(entries).map_values(read)) == entries,
    decreases entries.len(),
{
    if entries.len() == 0 {
        assert(entry_lines(entries).map_values(read) =~= Seq::empty());
        assert(entries =~= Seq::empty());
    } else {
        let before = entries.drop_last();
        lemma_all_read_back(before, read);
        lemma_one_more_record(entry_lines(before), read, entries.last());
        assert(entry_lines(entries) =~= entry_lines(before).push(entry_json(entries.last())));
        assert(entries =~= before.push(entries.last()));
    }
}

/// The entries that are loaded, given what each line of the storage file was
/// read as.
pub fn entries_of_records(records: Vec<Option<HistoryEntry>>) -> (r: Vec<HistoryEntry>)
    ensures
        r@ == readable(records@),
{
    let ghost all = records@;
    let mut r: Vec<HistoryEntry> = Vec::new();
    for record in it: records
        invariant
            it.seq() == all,
            r@ == readable(all.take(it.index())),
    {
        proof {
            let next = all.take(it.index() + 1);
            assert(next.drop_last() =~= all.take(it.index()));
            assert(next.last() == record);
        }
        match record {
            Some(entry) => {
                r.push(entry);
            },
            None => {},
        }
    }
    assert(all.take(all.len() as int) =~= all);
    r
}

/// What is appended to the storage file for an entry. A file that ends with a
/// line feed has one more line then, which is the JSON of the entry, and ends
/// with a line feed again. What is loaded from it are the entries from before,
/// and the entry.
pub fn line_to_store(entry: &HistoryEntry) -> (r: String)
    ensures
        r@ == stored_line(*entry),
        forall|before: Seq<char>, read: spec_fn(Seq<char>) -> Option<HistoryEntry>|
            ends_a_line(before) && reads_back(read, *entry) ==> #[trigger] loaded(
                before + r@,
                read,
            ) == loaded(before, read).push(*entry),
        forall|before: Seq<char>| #[trigger]
            ends_a_line(before) ==> {
                &&& text::lines_of(before + r@) == text::lines_of(before).push(entry_json(*entry))
                &&& ends_a_line(before + r@)
            },
{
    let json = entry_to_json(entry);
    let mut r = json.clone();
    r.push('\n');
    proof {
        lemma_last_char(*entry);
        assert forall|before: Seq<char>| #[trigger] ends_a_line(before) implies {
            &&& text::lines_of(before + r@) == text::lines_of(before).push(entry_json(*entry))
            &&& ends_a_line(before + r@)
        } by {
            lemma_one_more_line(before, json@);
        }
        assert forall|before: Seq<char>, read: spec_fn(Seq<char>) -> Option<HistoryEntry>|
            ends_a_line(before) && reads_back(read, *entry) implies #[trigger] loaded(
            before + r@,
            read,
        ) == loaded(before, read).push(*entry) by {
            lemma_one_more_record(text::lines_of(before), read, *entry);
        }
    }
    r
}

/// The JSON of an entry ends with a brace.
proof fn lemma_last_char(e: HistoryEntry)
    ensures
        entry_json(e).len() > 0,
        entry_json(e).last() == '}',
{
    reveal_strlit("}");
}

/// The lines of a text that ends with a line feed, when one more follows.
proof fn lemma_one_more_line(s: Seq<char>, line: Seq<char>)
    requires
        ends_a_line(s),
        json::has_no_line_feed(line),
        line.len() > 0,
        line.last() != '\r',
    ensures
        text::lines_of(s + line.push('\n')) == text::lines_of(s).push(line),
    decreases s.len(),
{
    let whole = s + line.push('\n');
    if s.len() == 0 {
        assert(whole =~= line + seq!['\n']);
        text::lemma_line_feed_after(line, seq!['\n']);
        assert(whole.take(line.len() as int) =~= line);
        assert(whole.skip(line.len() as int + 1) =~= s);
        assert(text::lines_of(s) =~= Seq::empty());
        assert(text::lines_of(whole) =~= text::lines_of(s).push(line));
    } else {
        text::lemma_first_line_feed(s);
        let k = text::first_line_feed(s);
        if k == s.len() {
            assert(s[s.len() - 1] != '\n');
        }
        let head = s.take(k);
        assert(whole =~= head + whole.skip(k));
        assert(whole.skip(k).first() == s[k]);
        text::lemma_line_feed_after(head, whole.skip(k));
        let rest = s.skip(k + 1);
        assert(whole.take(k) =~= head);
        assert(whole.skip(k + 1) =~= rest + line.push('\n'));
        if rest.len() > 0 {
            assert(rest.last() == s.last());
        }
        lemma_one_more_line(rest, line);
        assert(text::lines_of(whole) =~= text::lines_of(s).push(line));
    }
}

/// The lines of what is stored for entries.
pub proof fn lemma_stored_text(entries: Seq<HistoryEntry>)
    requires
        forall|i: int|
            0 <= i < entries.len() ==> metadata_is_one_line(#[trigger] entries[i]),
    ensures
        text::lines_of(stored_text(entries)) == entry_lines(entries),
        ends_a_line(stored_text(entries)),
    decreases entries.len(),
{
    if entries.len() == 0 {
        assert(text::lines_of(stored_text(entries)) =~= entry_lines(entries));
    } else {
        let before = entries.drop_last();
        let last = entries.last();
        lemma_stored_text(before);
        lemma_last_char(last);
        assert(metadata_is_one_line(entries[entries.len() - 1]));
        lemma_entry_json_is_one_line(last);
        lemma_one_more_line(stored_text(before), entry_json(last));
        assert(entry_lines(entries) =~= entry_lines(before).push(entry_json(last)));
    }
}

/// What a storage file holds that is written anew with these entries. Read
/// line by line, it gives back the JSON of each, and what is loaded from it are
/// the entries.
pub fn text_to_store(entries: &[HistoryEntry]) -> (r: String)
    ensures
        forall|read: spec_fn(Seq<char>) -> Option<HistoryEntry>|
            (forall|i: int| 0 <= i < entries@.len() ==> reads_back(read, #[trigger] entries@[i]))
                ==> #[trigger] loaded(r@, read) == entries@,
        r@ == stored_text(entries@),
        text::lines_of(r@) == entry_lines(entries@),
        ends_a_line(r@),
{
    let mut r = String::new();
    let mut i: usize = 0;
    assert(entries@.take(0) =~= Seq::empty());
    assert(text::lines_of(r@) =~= entry_lines(entries@.take(0)));
    while i < entries.len()
        invariant
            i <= entries@.len(),
            r@ == stored_text(entries@.take(i as int)),
            ends_a_line(r@),
            text::lines_of(r@) == entry_lines(entries@.take(i as int)),
        decreases entries.len() - i,
    {
        let ghost before = r@;
        let ghost next = entries@.take(i + 1);
        let json = entry_to_json(&entries[i]);
        proof {
            lemma_last_char(entries@[i as int]);
            lemma_one_more_line(before, json@);
            assert(next.drop_last() =~= entries@.take(i as int));
            assert(entry_lines(next) =~= entry_lines(entries@.take(i as int)).push(json@));
        }
        r.append(json.as_str());
        r.push('\n');
        assert(r@ =~= before + json@.push('\n'));
        i = i + 1;
    }
    assert(entries@.take(i as int) =~= entries@);
    proof {
        assert forall|read: spec_fn(Seq<char>) -> Option<HistoryEntry>|
            (forall|i: int|
                0 <= i < entries@.len() ==> reads_back(
                    read,
                    #[trigger] entries@[i],
                )) implies #[trigger] loaded(r@, read) == entries@ by {
            lemma_all_read_back(entries@, read);
        }
    }
    r
}

} // verus!
