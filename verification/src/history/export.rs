//! Export to JSON and Markdown.

use vstd::prelude::*;
use vstd::string::*;

use crate::history::entry::HistoryEntry;
use crate::history::entry::Role;
use crate::history::storage;
use crate::json;
use crate::text;
use crate::time;

verus! {

/// Supported export formats.
#[derive(Debug, Clone, Copy, PartialEq, Eq)]
pub enum ExportFormat {
    /// Export as a JSON array.
    Json,
    /// Export as a Markdown document.
    Markdown,
}

/// The label of a role.
pub open spec fn role_label(role: Role) -> Seq<char> {
    match role {
        Role::User => "**User**"@,
        Role::Assistant => "**Assistant**"@,
        Role::System => "**System**"@,
        Role::Tool => "**Tool**"@,
    }
}

/// The header of a session.
pub open spec fn session_header(session_id: Seq<char>) -> Seq<char> {
    "## Session: "@ + session_id + "\n\n"@
}

/// An entry in Markdown.
pub open spec fn entry_section(e: HistoryEntry) -> Seq<char> {
    "### "@ + role_label(e.role) + " ("@ + time::formatted_text(
        e.timestamp@.secs,
        e.timestamp@.nanos,
        time::READABLE_FORMAT@,
    ) + ")\n\n"@ + e.content@ + "\n\n---\n\n"@
}

/// The entry at `i` starts another session than that of the one before it.
pub open spec fn starts_session(entries: Seq<HistoryEntry>, i: int) -> bool {
    i == 0 || entries[i - 1].session_id@ != entries[i].session_id@
}

/// The first `n` entries in Markdown, with a header where the session changes.
pub open spec fn sections(entries: Seq<HistoryEntry>, n: nat) -> Seq<char>
    decreases n,
{
    if n == 0 {
        Seq::empty()
    } else {
        let i = n - 1;
        let header = if starts_session(entries, i) {
            session_header(entries[i].session_id@)
        } else {
            Seq::empty()
        };
        sections(entries, i as nat) + header + entry_section(entries[i])
    }
}

/// The entries as a Markdown document.
pub open spec fn markdown(entries: Seq<HistoryEntry>) -> Seq<char> {
    "# Session History\n\n"@ + sections(entries, entries.len())
}

/// The metadata of an entry in JSON, laid out within an entry of an array.
pub open spec fn laid_out_metadata(e: HistoryEntry) -> Seq<char> {
    match e.metadata {
        Some(value) => json::indented(json::pretty_text(json::value_text(value)), "    "@),
        None => "null"@,
    }
}

/// An entry in JSON, laid out within an array.
pub open spec fn laid_out_entry(e: HistoryEntry) -> Seq<char> {
    storage::object_text(
        storage::field_texts(e, laid_out_metadata(e)),
        "{\n    "@,
        ",\n    "@,
        ": "@,
        "\n  }"@,
    )
}

/// The entries as a JSON array, laid out for people to read.
pub open spec fn json_array(entries: Seq<HistoryEntry>) -> Seq<char> {
    if entries.len() == 0 {
        "[]"@
    } else {
        "[\n  "@ + text::joined(
            entries.map_values(|e: HistoryEntry| laid_out_entry(e)),
            ",\n  "@,
        ) + "\n]"@
    }
}

/// The entries in a format.
pub open spec fn exported(entries: Seq<HistoryEntry>, format: ExportFormat) -> Seq<char> {
    match format {
        ExportFormat::Json => json_array(entries),
        ExportFormat::Markdown => markdown(entries),
    }
}

/// Exports history entries to the specified format.
pub fn export_entries(entries: &[HistoryEntry], format: ExportFormat) -> (r: Result<
    String,
    String,
>)
    ensures
        r is Ok,
        r->Ok_0@ == exported(entries@, format),
{
    match format {
        ExportFormat::Json => export_json(entries),
        ExportFormat::Markdown => export_markdown(entries),
    }
}

/// An entry in JSON, laid out within an array.
fn entry_to_laid_out_json(entry: &HistoryEntry) -> (r: String)
    ensures
        r@ == laid_out_entry(*entry),
{
    let metadata = match &entry.metadata {
        Some(value) => json::indent(json::value_to_pretty_json(value).unwrap().as_str(), "    "),
        None => "null".to_owned(),
    };
    storage::object_json(entry, metadata.as_str(), "{\n    ", ",\n    ", ": ", "\n  }")
}

fn export_json(entries: &[HistoryEntry]) -> (r: Result<String, String>)
    ensures
        r is Ok,
        r->Ok_0@ == json_array(entries@),
{
    if entries.len() == 0 {
        return Ok("[]".to_owned());
    }
    let mut objects: Vec<String> = Vec::new();
    let mut i: usize = 0;
    while i < entries.len()
        invariant
            i <= entries@.len(),
            text::texts(objects@) == entries@.take(i as int).map_values(
                |e: HistoryEntry| laid_out_entry(e),
            ),
        decreases entries.len() - i,
    {
        let ghost before = text::texts(objects@);
        objects.push(entry_to_laid_out_json(&entries[i]));
        proof {
            assert(text::texts(objects@) =~= before.push(laid_out_entry(entries@[i as int])));
            assert(entries@.take(i + 1) =~= entries@.take(i as int).push(entries@[i as int]));
            assert(text::texts(objects@) =~= entries@.take(i + 1).map_values(
                |e: HistoryEntry| laid_out_entry(e),
            ));
        }
        i = i + 1;
    }
    assert(entries@.take(i as int) =~= entries@);
    let mut output = "[\n  ".to_owned();
    output.append(text::join(&objects, ",\n  ").as_str());
    output.append("\n]");
    Ok(output)
}

/// The label of a role.
fn label_of_role(role: Role) -> (r: &'static str)
    ensures
        r@ == role_label(role),
{
    match role {
        Role::User => "**User**",
        Role::Assistant => "**Assistant**",
        Role::System => "**System**",
        Role::Tool => "**Tool**",
    }
}

fn export_markdown(entries: &[HistoryEntry]) -> (r: Result<String, String>)
    ensures
        r is Ok,
        r->Ok_0@ == markdown(entries@),
{
    let mut output = "# Session History\n\n".to_owned();
    let mut current_session: Option<&str> = None;
    let mut i: usize = 0;
    assert(output@ + sections(entries@, 0) =~= output@);
    while i < entries.len()
        invariant
            i <= entries@.len(),
            output@ == "# Session History\n\n"@ + sections(entries@, i as nat),
            match current_session {
                Some(session_id) => i > 0 && session_id@ == entries@[i - 1].session_id@,
                None => i == 0,
            },
        decreases entries.len() - i,
    {
        let ghost before = output@;
        let entry = &entries[i];
        let is_new = match current_session {
            Some(session_id) => !text::same_text(session_id, entry.session_id.as_str()),
            None => true,
        };
        assert(is_new == starts_session(entries@, i as int));
        if is_new {
            output.append("## Session: ");
            output.append(entry.session_id.as_str());
            output.append("\n\n");
            current_session = Some(entry.session_id.as_str());
        }
        output.append("### ");
        output.append(label_of_role(entry.role));
        output.append(" (");
        output.append(entry.timestamp.to_readable().as_str());
        output.append(")\n\n");
        output.append(entry.content.as_str());
        output.append("\n\n---\n\n");
        proof {
            let header = if is_new {
                session_header(entry.session_id@)
            } else {
                Seq::empty()
            };
            assert(output@ =~= before + header + entry_section(*entry));
            assert(output@ =~= "# Session History\n\n"@ + (sections(entries@, i as nat) + header
                + entry_section(*entry)));
            assert(sections(entries@, (i + 1) as nat) == sections(entries@, i as nat) + header
                + entry_section(*entry));
        }
        i = i + 1;
    }
    Ok(output)
}

} // verus!
