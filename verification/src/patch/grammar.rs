//! The patches that the grammar describes, and that the parser reads them.

use vstd::prelude::*;

use crate::patch::laws;
use crate::patch::model;
use crate::patch::model::ChunkView;
use crate::patch::model::ErrorView;
use crate::patch::model::HunkView;
use crate::patch::model::Marker;
use crate::patch::model::Progress;
use crate::patch::model::StateView;
use crate::patch::model::UpdateView;
use crate::patch::parse;
use crate::patch::parse::ParseMode;
use crate::text;

verus! {

/// `change_line`: a line of context, an added line or a removed one. An empty
/// line of context may go without the space that starts it.
pub struct Change {
    pub kind: char,
    pub text: Seq<char>,
    pub is_bare: bool,
}

/// `change_context? change_line+ eof_line?`.
pub struct ChunkText {
    /// The header line, if there is one, and the context that it names.
    pub header: Option<Option<Seq<char>>>,
    pub changes: Seq<Change>,
    pub at_end_of_file: bool,
}

/// `hunk`.
pub enum HunkText {
    Add { path: Seq<char>, lines: Seq<Seq<char>> },
    Delete { path: Seq<char> },
    Update { path: Seq<char>, move_path: Option<Seq<char>>, chunks: Seq<ChunkText> },
}

pub open spec fn change_line(change: Change) -> Seq<char> {
    if change.is_bare {
        Seq::empty()
    } else {
        seq![change.kind] + change.text
    }
}

pub open spec fn change_lines(changes: Seq<Change>) -> Seq<Seq<char>> {
    changes.map_values(|c: Change| change_line(c))
}

pub open spec fn header_lines(header: Option<Option<Seq<char>>>) -> Seq<Seq<char>> {
    match header {
        None => Seq::empty(),
        Some(None) => seq![model::EMPTY_CHANGE_CONTEXT_MARKER@],
        Some(Some(context)) => seq![model::CHANGE_CONTEXT_MARKER@ + context],
    }
}

pub open spec fn eof_lines(at_end_of_file: bool) -> Seq<Seq<char>> {
    if at_end_of_file {
        seq![model::EOF_MARKER@]
    } else {
        Seq::empty()
    }
}

pub open spec fn chunk_lines(chunk: ChunkText) -> Seq<Seq<char>> {
    header_lines(chunk.header) + change_lines(chunk.changes) + eof_lines(chunk.at_end_of_file)
}

pub open spec fn all_chunk_lines(chunks: Seq<ChunkText>) -> Seq<Seq<char>>
    decreases chunks.len(),
{
    if chunks.len() == 0 {
        Seq::empty()
    } else {
        all_chunk_lines(chunks.drop_last()) + chunk_lines(chunks.last())
    }
}

pub open spec fn move_lines(move_path: Option<Seq<char>>) -> Seq<Seq<char>> {
    match move_path {
        Some(path) => seq![model::MOVE_TO_MARKER@ + path],
        None => Seq::empty(),
    }
}

/// The lines of a hunk.
pub open spec fn hunk_lines(hunk: HunkText) -> Seq<Seq<char>> {
    match hunk {
        HunkText::Add { path, lines } => seq![model::ADD_FILE_MARKER@ + path] + lines.map_values(
            |line: Seq<char>| seq!['+'] + line,
        ),
        HunkText::Delete { path } => seq![model::DELETE_FILE_MARKER@ + path],
        HunkText::Update { path, move_path, chunks } => seq![model::UPDATE_FILE_MARKER@ + path]
            + move_lines(move_path) + all_chunk_lines(chunks),
    }
}

pub open spec fn all_hunk_lines(hunks: Seq<HunkText>) -> Seq<Seq<char>>
    decreases hunks.len(),
{
    if hunks.len() == 0 {
        Seq::empty()
    } else {
        all_hunk_lines(hunks.drop_last()) + hunk_lines(hunks.last())
    }
}

/// `start`: the lines of a patch.
pub open spec fn patch_lines(hunks: Seq<HunkText>) -> Seq<Seq<char>> {
    seq![model::BEGIN_PATCH_MARKER@] + all_hunk_lines(hunks) + seq![model::END_PATCH_MARKER@]
}

/// The texts of the changes that name a line of the old file.
pub open spec fn old_texts(changes: Seq<Change>) -> Seq<Seq<char>> {
    changes.filter(|c: Change| c.kind == ' ' || c.kind == '-').map_values(|c: Change| c.text)
}

/// The texts of the changes that name a line of the new file.
pub open spec fn new_texts(changes: Seq<Change>) -> Seq<Seq<char>> {
    changes.filter(|c: Change| c.kind == ' ' || c.kind == '+').map_values(|c: Change| c.text)
}

/// What a chunk says.
pub open spec fn chunk_meaning(chunk: ChunkText) -> ChunkView {
    ChunkView {
        change_context: match chunk.header {
            Some(Some(context)) => Some(context),
            _ => None,
        },
        old_lines: old_texts(chunk.changes),
        new_lines: new_texts(chunk.changes),
        is_end_of_file: chunk.at_end_of_file,
    }
}

/// What a hunk says.
pub open spec fn hunk_meaning(hunk: HunkText) -> HunkView {
    match hunk {
        HunkText::Add { path, lines } => HunkView::AddFile {
            path,
            contents: laws::with_line_feeds(lines),
        },
        HunkText::Delete { path } => HunkView::DeleteFile { path },
        HunkText::Update { path, move_path, chunks } => HunkView::UpdateFile {
            path,
            move_path,
            chunks: chunks.map_values(|c: ChunkText| chunk_meaning(c)),
        },
    }
}

/// `filename`, or what a context line names. White space at its end is not
/// part of it.
pub open spec fn is_name(name: Seq<char>) -> bool {
    name.len() > 0 && !text::is_white_space(name.last())
}

/// No carriage return ends the text. It would count as part of the line feed.
pub open spec fn ends_plainly(line: Seq<char>) -> bool {
    line.len() == 0 || line.last() != '\r'
}

/// The line is a change line that means nothing else. A line of context would,
/// where all of it but white space is a marker.
pub open spec fn is_change(change: Change) -> bool {
    let line = change_line(change);
    &&& change.kind == ' ' || change.kind == '+' || change.kind == '-'
    &&& ends_plainly(change.text)
    &&& change.is_bare ==> change.kind == ' ' && change.text.len() == 0
    &&& change.kind == ' ' && !change.is_bare ==> {
        &&& model::marker(line) is NoMarker
        &&& model::opened_chunk(line) is None
        &&& !model::is_eof_line(line)
    }
}

/// The chunk has a line of change, and each is one.
pub open spec fn is_chunk(chunk: ChunkText) -> bool {
    &&& chunk.changes.len() > 0
    &&& forall|i: int| 0 <= i < chunk.changes.len() ==> is_change(#[trigger] chunk.changes[i])
    &&& chunk.header matches Some(Some(context)) ==> is_name(context)
}

/// The first line behind the header of an update hunk is taken for a change:
/// it is not blank, and not a line that moves the file where none has.
pub open spec fn opens_with_change(chunk: ChunkText, move_path: Option<Seq<char>>) -> bool {
    let line = change_line(chunk.changes[0]);
    &&& text::trimmed(line).len() > 0
    &&& move_path is None ==> model::move_target(line) is None
}

/// The chunks of an update hunk. Only the first may go without a header.
pub open spec fn are_chunks(chunks: Seq<ChunkText>, move_path: Option<Seq<char>>) -> bool {
    &&& chunks.len() > 0
    &&& forall|i: int| 0 <= i < chunks.len() ==> is_chunk(#[trigger] chunks[i])
    &&& forall|i: int| 0 < i < chunks.len() ==> (#[trigger] chunks[i]).header is Some
    &&& chunks[0].header is None ==> opens_with_change(chunks[0], move_path)
}

/// The hunk is one that the grammar describes.
pub open spec fn is_hunk(hunk: HunkText) -> bool {
    match hunk {
        HunkText::Add { path, lines } => {
            &&& is_name(path)
            &&& lines.len() > 0
            &&& forall|i: int| 0 <= i < lines.len() ==> ends_plainly(#[trigger] lines[i])
        },
        HunkText::Delete { path } => is_name(path),
        HunkText::Update { path, move_path, chunks } => {
            &&& is_name(path)
            &&& move_path matches Some(target) ==> is_name(target)
            &&& are_chunks(chunks, move_path)
        },
    }
}

/// Lines can be read in two parts.
pub proof fn lemma_two_parts(p: Progress, a: Seq<Seq<char>>, b: Seq<Seq<char>>, n: int)
    ensures
        model::after_complete_lines(p, a + b, n) == match model::after_complete_lines(p, a, n) {
            Ok(q) => model::after_complete_lines(q, b, n + a.len()),
            Err(error) => Err(error),
        },
    decreases a.len(),
{
    if a.len() == 0 {
        assert(a + b =~= b);
    } else {
        assert((a + b).first() == a.first());
        assert((a + b).drop_first() =~= a.drop_first() + b);
        match model::after_complete_line(p, text::without_trailing(a.first(), '\r'), n) {
            Ok(next) => lemma_two_parts(next, a.drop_first(), b, n + 1),
            Err(_) => {},
        }
    }
}

/// One line can be read by itself.
proof fn lemma_one_line(p: Progress, line: Seq<char>, n: int)
    requires
        ends_plainly(line),
    ensures
        model::after_complete_lines(p, seq![line], n) == model::after_complete_line(p, line, n),
{
    assert(seq![line].drop_first() =~= Seq::<Seq<char>>::empty());
    match model::after_complete_line(p, line, n) {
        Ok(next) => {
            assert(model::after_complete_lines(next, Seq::<Seq<char>>::empty(), n + 1) == Ok::<
                Progress,
                ErrorView,
            >(next));
        },
        Err(_) => {},
    }
}

/// What the marker texts are made of.
pub proof fn lemma_marker_texts()
    ensures
        model::BEGIN_PATCH_MARKER@.len() == 15,
        model::BEGIN_PATCH_MARKER@[0] == '*',
        model::BEGIN_PATCH_MARKER@[4] == 'B',
        model::BEGIN_PATCH_MARKER@.last() == 'h',
        model::END_PATCH_MARKER@.len() == 13,
        model::END_PATCH_MARKER@[0] == '*',
        model::END_PATCH_MARKER@[4] == 'E',
        model::END_PATCH_MARKER@[8] == 'P',
        model::END_PATCH_MARKER@.last() == 'h',
        model::ADD_FILE_MARKER@.len() == 14,
        model::ADD_FILE_MARKER@[0] == '*',
        model::ADD_FILE_MARKER@[4] == 'A',
        model::DELETE_FILE_MARKER@.len() == 17,
        model::DELETE_FILE_MARKER@[0] == '*',
        model::DELETE_FILE_MARKER@[4] == 'D',
        model::UPDATE_FILE_MARKER@.len() == 17,
        model::UPDATE_FILE_MARKER@[0] == '*',
        model::UPDATE_FILE_MARKER@[4] == 'U',
        model::MOVE_TO_MARKER@.len() == 13,
        model::MOVE_TO_MARKER@[0] == '*',
        model::MOVE_TO_MARKER@[4] == 'M',
        model::EOF_MARKER@.len() == 15,
        model::EOF_MARKER@[0] == '*',
        model::EOF_MARKER@[4] == 'E',
        model::EOF_MARKER@[8] == 'o',
        model::EOF_MARKER@.last() == 'e',
        model::CHANGE_CONTEXT_MARKER@.len() == 3,
        model::CHANGE_CONTEXT_MARKER@[0] == '@',
        model::EMPTY_CHANGE_CONTEXT_MARKER@.len() == 2,
        model::EMPTY_CHANGE_CONTEXT_MARKER@[0] == '@',
        model::EMPTY_CHANGE_CONTEXT_MARKER@.last() == '@',
{
    reveal_strlit("*** Begin Patch");
    reveal_strlit("*** End Patch");
    reveal_strlit("*** Add File: ");
    reveal_strlit("*** Delete File: ");
    reveal_strlit("*** Update File: ");
    reveal_strlit("*** Move to: ");
    reveal_strlit("*** End of File");
    reveal_strlit("@@ ");
    reveal_strlit("@@");
}

/// A line that differs from all the markers is none.
proof fn lemma_is_no_marker(t: Seq<char>)
    requires
        t.len() > 4,
        !text::is_white_space(t.first()),
        !text::is_white_space(t.last()),
        t[0] == '*' ==> {
            ||| t[4] == 'M'
            ||| t == model::EOF_MARKER@
        },
    ensures
        text::trimmed(t) == t,
        model::marker(t) is NoMarker,
{
    lemma_marker_texts();
    text::lemma_nothing_to_trim(t);
    let i: int = if t[0] == '*' {
        4
    } else {
        0
    };
    text::lemma_differs_from_prefix(t, model::ADD_FILE_MARKER@, i);
    text::lemma_differs_from_prefix(t, model::DELETE_FILE_MARKER@, i);
    text::lemma_differs_from_prefix(t, model::UPDATE_FILE_MARKER@, i);
}

/// The header of a hunk is read as such.
pub proof fn lemma_hunk_header(marker: Seq<char>, path: Seq<char>)
    requires
        marker == model::ADD_FILE_MARKER@ || marker == model::DELETE_FILE_MARKER@ || marker
            == model::UPDATE_FILE_MARKER@,
        is_name(path),
    ensures
        ends_plainly(marker + path),
        model::marker(marker + path) == (if marker == model::ADD_FILE_MARKER@ {
            Marker::Add(path)
        } else if marker == model::DELETE_FILE_MARKER@ {
            Marker::Delete(path)
        } else {
            Marker::Update(path)
        }),
{
    lemma_marker_texts();
    let t = marker + path;
    assert(t.first() == '*');
    assert(t.last() == path.last());
    assert(t[4] == marker[4]);
    text::lemma_nothing_to_trim(t);
    text::lemma_after_prefix(marker, path);
    if marker != model::ADD_FILE_MARKER@ {
        text::lemma_differs_from_prefix(t, model::ADD_FILE_MARKER@, 4);
        if marker != model::DELETE_FILE_MARKER@ {
            text::lemma_differs_from_prefix(t, model::DELETE_FILE_MARKER@, 4);
        }
    }
}

/// A move line is read as such.
pub proof fn lemma_move_line(path: Seq<char>)
    requires
        is_name(path),
    ensures
        ends_plainly(model::MOVE_TO_MARKER@ + path),
        model::marker(model::MOVE_TO_MARKER@ + path) is NoMarker,
        model::move_target(model::MOVE_TO_MARKER@ + path) == Some(path),
{
    lemma_marker_texts();
    let t = model::MOVE_TO_MARKER@ + path;
    assert(t.first() == '*');
    assert(t.last() == path.last());
    assert(t[4] == 'M');
    lemma_is_no_marker(t);
    text::lemma_after_prefix(model::MOVE_TO_MARKER@, path);
}

/// The header of a chunk is read as such.
pub proof fn lemma_chunk_header(header: Option<Seq<char>>)
    requires
        header matches Some(context) ==> is_name(context),
    ensures
        ({
            let line = header_lines(Some(header))[0];
            &&& header_lines(Some(header)) == seq![line]
            &&& ends_plainly(line)
            &&& model::marker(line) is NoMarker
            &&& model::move_target(line) is None
            &&& model::opened_chunk(line) == Some(model::empty_chunk(header))
        }),
{
    lemma_marker_texts();
    let line = header_lines(Some(header))[0];
    assert(line.first() == '@');
    text::lemma_no_prefix(line, model::ADD_FILE_MARKER@);
    text::lemma_no_prefix(line, model::DELETE_FILE_MARKER@);
    text::lemma_no_prefix(line, model::UPDATE_FILE_MARKER@);
    text::lemma_no_prefix(line, model::MOVE_TO_MARKER@);
    match header {
        Some(context) => {
            assert(line.last() == context.last());
            text::lemma_nothing_to_trim(line);
            text::lemma_after_prefix(model::CHANGE_CONTEXT_MARKER@, context);
        },
        None => {
            text::lemma_nothing_to_trim(line);
        },
    }
}

/// The line at the end of a file is read as such.
pub proof fn lemma_eof_line()
    ensures
        ends_plainly(model::EOF_MARKER@),
        model::marker(model::EOF_MARKER@) is NoMarker,
        model::move_target(model::EOF_MARKER@) is None,
        model::opened_chunk(model::EOF_MARKER@) is None,
        model::is_eof_line(model::EOF_MARKER@),
{
    lemma_marker_texts();
    lemma_is_no_marker(model::EOF_MARKER@);
    text::lemma_differs_from_prefix(model::EOF_MARKER@, model::MOVE_TO_MARKER@, 4);
    text::lemma_no_prefix(model::EOF_MARKER@, model::CHANGE_CONTEXT_MARKER@);
}

/// A change line is read as such.
proof fn lemma_change_line(change: Change)
    requires
        is_change(change),
    ensures
        ({
            let line = change_line(change);
            &&& ends_plainly(line)
            &&& model::marker(line) is NoMarker
            &&& model::opened_chunk(line) is None
            &&& !model::is_eof_line(line)
            &&& change.kind != ' ' ==> model::move_target(line) is None
            &&& forall|c: ChunkView| #[trigger]
                model::with_change_line(c, line) == Some(
                    model::with_change(c, change.kind, change.text),
                )
        }),
{
    let line = change_line(change);
    if change.is_bare {
        laws::lemma_empty_line(line);
        assert(change.text =~= line);
    } else {
        assert(line[0] == change.kind);
        assert(line.skip(1) =~= change.text);
        if change.kind != ' ' {
            laws::lemma_no_marker(line);
        }
    }
}

/// An update hunk that is being read, with `u` in it.
spec fn in_update(p: Progress, u: UpdateView) -> Progress {
    Progress { state: StateView::UpdateFile(u), ..p }
}

/// One more change line in an open chunk.
proof fn lemma_change(p: Progress, u: UpdateView, chunk: ChunkView, change: Change, n: int)
    requires
        is_change(change),
        !u.can_accept_move,
        u.current_chunk == Some(chunk),
    ensures
        model::after_complete_line(in_update(p, u), change_line(change), n) == Ok::<
            Progress,
            ErrorView,
        >(
            in_update(
                p,
                UpdateView {
                    current_chunk: Some(model::with_change(chunk, change.kind, change.text)),
                    ..u
                },
            ),
        ),
{
    lemma_change_line(change);
}

/// The chunk with the changes behind those that it has.
spec fn with_changes(chunk: ChunkView, changes: Seq<Change>) -> ChunkView {
    ChunkView {
        old_lines: chunk.old_lines + old_texts(changes),
        new_lines: chunk.new_lines + new_texts(changes),
        ..chunk
    }
}

/// The texts of the changes, when one more follows.
proof fn lemma_one_more_change(chunk: ChunkView, changes: Seq<Change>)
    requires
        changes.len() > 0,
    ensures
        with_changes(chunk, changes) == model::with_change(
            with_changes(chunk, changes.drop_last()),
            changes.last().kind,
            changes.last().text,
        ),
{
    let before = changes.drop_last();
    let old_kind = |c: Change| c.kind == ' ' || c.kind == '-';
    let new_kind = |c: Change| c.kind == ' ' || c.kind == '+';
    assert(changes =~= before.push(changes.last()));
    reveal(Seq::filter);
    assert(changes.drop_last() =~= before);
    let last = changes.last();
    let olds = before.filter(old_kind);
    let news = before.filter(new_kind);
    assert(changes.filter(old_kind) == if old_kind(last) {
        olds.push(last)
    } else {
        olds
    });
    assert(changes.filter(new_kind) == if new_kind(last) {
        news.push(last)
    } else {
        news
    });
    assert(olds.push(last).map_values(|c: Change| c.text) =~= olds.map_values(
        |c: Change| c.text,
    ).push(last.text));
    assert(news.push(last).map_values(|c: Change| c.text) =~= news.map_values(
        |c: Change| c.text,
    ).push(last.text));
    assert(with_changes(chunk, changes) =~= model::with_change(
        with_changes(chunk, before),
        last.kind,
        last.text,
    ));
}

/// The change lines in an open chunk.
proof fn lemma_changes(p: Progress, u: UpdateView, chunk: ChunkView, changes: Seq<Change>, n: int)
    requires
        forall|i: int| 0 <= i < changes.len() ==> is_change(#[trigger] changes[i]),
        !u.can_accept_move,
        u.current_chunk == Some(chunk),
    ensures
        model::after_complete_lines(in_update(p, u), change_lines(changes), n) == Ok::<
            Progress,
            ErrorView,
        >(in_update(p, UpdateView { current_chunk: Some(with_changes(chunk, changes)), ..u })),
        changes.len() > 0 ==> model::has_lines(with_changes(chunk, changes)),
    decreases changes.len(),
{
    if changes.len() == 0 {
        reveal(Seq::filter);
        assert(with_changes(chunk, changes) =~= chunk);
    } else {
        let before = changes.drop_last();
        let last = changes.last();
        assert forall|i: int| 0 <= i < before.len() implies is_change(#[trigger] before[i]) by {
            assert(before[i] == changes[i]);
        }
        lemma_changes(p, u, chunk, before, n);
        let v = UpdateView { current_chunk: Some(with_changes(chunk, before)), ..u };
        assert(change_lines(changes) =~= change_lines(before) + seq![change_line(last)]);
        lemma_two_parts(in_update(p, u), change_lines(before), seq![change_line(last)], n);
        lemma_change_line(last);
        lemma_one_line(in_update(p, v), change_line(last), n + before.len());
        lemma_change(p, v, with_changes(chunk, before), last, n + before.len());
        lemma_one_more_change(chunk, changes);
    }
}

/// The chunks of the update hunk that is being read.
spec fn chunks_so_far(u: UpdateView) -> Seq<ChunkView> {
    model::with_open_chunk(u.chunks, u.current_chunk)
}

/// The same hunk, with other chunks.
spec fn same_hunk(u: UpdateView, v: UpdateView) -> bool {
    &&& v.path == u.path
    &&& v.move_path == u.move_path
    &&& v.header_line_number == u.header_line_number
}

/// The lines of a chunk behind its header.
proof fn lemma_chunk_body(p: Progress, u: UpdateView, c: ChunkText, n: int) -> (v: UpdateView)
    requires
        is_chunk(c),
        !u.can_accept_move,
        u.current_chunk == Some(model::empty_chunk(chunk_meaning(c).change_context)),
    ensures
        model::after_complete_lines(
            in_update(p, u),
            change_lines(c.changes) + eof_lines(c.at_end_of_file),
            n,
        ) == Ok::<Progress, ErrorView>(in_update(p, v)),
        same_hunk(u, v),
        !v.can_accept_move,
        chunks_so_far(v) == u.chunks.push(chunk_meaning(c)),
        !model::open_chunk_is_empty(v.current_chunk),
{
    let chunk = u.current_chunk->0;
    let changed = with_changes(chunk, c.changes);
    let w = UpdateView { current_chunk: Some(changed), ..u };
    lemma_changes(p, u, chunk, c.changes, n);
    lemma_two_parts(
        in_update(p, u),
        change_lines(c.changes),
        eof_lines(c.at_end_of_file),
        n,
    );
    if c.at_end_of_file {
        lemma_eof_line();
        lemma_one_line(in_update(p, w), model::EOF_MARKER@, n + c.changes.len());
        let v = UpdateView {
            chunks: u.chunks.push(ChunkView { is_end_of_file: true, ..changed }),
            current_chunk: None,
            ..w
        };
        assert(chunk_meaning(c) =~= ChunkView { is_end_of_file: true, ..changed });
        v
    } else {
        assert(chunk_meaning(c) =~= changed);
        w
    }
}

/// The lines of a chunk with a header.
proof fn lemma_chunk(p: Progress, u: UpdateView, c: ChunkText, n: int) -> (v: UpdateView)
    requires
        is_chunk(c),
        c.header is Some,
        !model::open_chunk_is_empty(u.current_chunk),
    ensures
        model::after_complete_lines(in_update(p, u), chunk_lines(c), n) == Ok::<
            Progress,
            ErrorView,
        >(in_update(p, v)),
        same_hunk(u, v),
        !v.can_accept_move,
        chunks_so_far(v) == chunks_so_far(u).push(chunk_meaning(c)),
        !model::open_chunk_is_empty(v.current_chunk),
{
    let header = c.header->0;
    let rest = change_lines(c.changes) + eof_lines(c.at_end_of_file);
    assert(chunk_lines(c) =~= header_lines(c.header) + rest);
    lemma_chunk_header(header);
    lemma_two_parts(in_update(p, u), header_lines(c.header), rest, n);
    let line = header_lines(c.header)[0];
    lemma_one_line(in_update(p, u), line, n);
    let w = UpdateView {
        can_accept_move: false,
        chunks: chunks_so_far(u),
        current_chunk: Some(model::empty_chunk(header)),
        ..u
    };
    assert(model::after_complete_line(in_update(p, u), line, n) == Ok::<Progress, ErrorView>(
        in_update(p, w),
    ));
    lemma_chunk_body(p, w, c, n + 1)
}

/// The lines of a first chunk without a header.
proof fn lemma_bare_chunk(p: Progress, u: UpdateView, c: ChunkText, n: int) -> (v: UpdateView)
    requires
        is_chunk(c),
        c.header is None,
        opens_with_change(c, u.move_path),
        u.chunks.len() == 0,
        u.current_chunk is None,
    ensures
        model::after_complete_lines(in_update(p, u), chunk_lines(c), n) == Ok::<
            Progress,
            ErrorView,
        >(in_update(p, v)),
        same_hunk(u, v),
        !v.can_accept_move,
        chunks_so_far(v) == chunks_so_far(u).push(chunk_meaning(c)),
        !model::open_chunk_is_empty(v.current_chunk),
{
    let first = c.changes[0];
    let others = c.changes.drop_first();
    let rest = change_lines(others) + eof_lines(c.at_end_of_file);
    assert(chunk_lines(c) =~= seq![change_line(first)] + rest);
    lemma_change_line(first);
    lemma_two_parts(in_update(p, u), seq![change_line(first)], rest, n);
    lemma_one_line(in_update(p, u), change_line(first), n);
    // The same lines behind a header give the same chunk.
    let opened = UpdateView {
        can_accept_move: false,
        current_chunk: Some(model::empty_chunk(None)),
        ..u
    };
    lemma_two_parts(in_update(p, opened), seq![change_line(first)], rest, n);
    lemma_one_line(in_update(p, opened), change_line(first), n);
    lemma_change(p, opened, model::empty_chunk(None), first, n);
    assert(change_lines(c.changes) + eof_lines(c.at_end_of_file) =~= seq![change_line(first)]
        + rest);
    lemma_chunk_body(p, opened, c, n)
}

/// The lines of the chunks of an update hunk.
proof fn lemma_chunks(p: Progress, u: UpdateView, chunks: Seq<ChunkText>, n: int) -> (v: UpdateView)
    requires
        are_chunks(chunks, u.move_path),
        u.chunks.len() == 0,
        u.current_chunk is None,
    ensures
        model::after_complete_lines(in_update(p, u), all_chunk_lines(chunks), n) == Ok::<
            Progress,
            ErrorView,
        >(in_update(p, v)),
        same_hunk(u, v),
        chunks_so_far(v) == chunks.map_values(|c: ChunkText| chunk_meaning(c)),
        !model::open_chunk_is_empty(v.current_chunk),
    decreases chunks.len(),
{
    let before = chunks.drop_last();
    let last = chunks.last();
    let meaning = |c: ChunkText| chunk_meaning(c);
    assert(chunks.map_values(meaning) =~= before.map_values(meaning).push(chunk_meaning(last)));
    assert(is_chunk(chunks[chunks.len() - 1]));
    if chunks.len() == 1 {
        assert(all_chunk_lines(before) =~= Seq::empty());
        assert(all_chunk_lines(chunks) =~= chunk_lines(last));
        assert(chunks_so_far(u).push(chunk_meaning(last)) =~= chunks.map_values(meaning));
        if last.header is None {
            lemma_bare_chunk(p, u, last, n)
        } else {
            lemma_chunk(p, u, last, n)
        }
    } else {
        assert(chunks[chunks.len() - 1].header is Some);
        assert forall|i: int| 0 <= i < before.len() implies is_chunk(#[trigger] before[i]) by {
            assert(before[i] == chunks[i]);
        }
        assert forall|i: int| 0 < i < before.len() implies (
        #[trigger] before[i]).header is Some by {
            assert(before[i] == chunks[i]);
        }
        let w = lemma_chunks(p, u, before, n);
        lemma_two_parts(in_update(p, u), all_chunk_lines(before), chunk_lines(last), n);
        lemma_chunk(p, w, last, n + all_chunk_lines(before).len())
    }
}

/// The open hunk, if there is one, can be closed.
spec fn can_go_on(p: Progress) -> bool {
    &&& p.state is BetweenHunks || model::in_hunk(p.state)
    &&& model::completed_hunk(p) is Ok
}

/// The lines of an add hunk behind its header.
proof fn lemma_added_lines(
    p: Progress,
    path: Seq<char>,
    header_line_number: int,
    lines: Seq<Seq<char>>,
    n: int,
)
    requires
        p.state == (StateView::AddFile { path, header_line_number, contents: Seq::empty() }),
        forall|i: int| 0 <= i < lines.len() ==> ends_plainly(#[trigger] lines[i]),
    ensures
        model::after_complete_lines(
            p,
            lines.map_values(|line: Seq<char>| seq!['+'] + line),
            n,
        ) == Ok::<Progress, ErrorView>(
            Progress {
                state: StateView::AddFile {
                    path,
                    header_line_number,
                    contents: laws::with_line_feeds(lines),
                },
                ..p
            },
        ),
        lines.len() > 0 ==> laws::with_line_feeds(lines).len() > 0,
    decreases lines.len(),
{
    let added = |line: Seq<char>| seq!['+'] + line;
    if lines.len() == 0 {
        assert(lines.map_values(added) =~= Seq::empty());
    } else {
        let before = lines.drop_last();
        let last = lines.last();
        assert forall|i: int| 0 <= i < before.len() implies ends_plainly(#[trigger] before[i]) by {
            assert(before[i] == lines[i]);
        }
        assert(ends_plainly(lines[lines.len() - 1]));
        lemma_added_lines(p, path, header_line_number, before, n);
        let q = Progress {
            state: StateView::AddFile {
                path,
                header_line_number,
                contents: laws::with_line_feeds(before),
            },
            ..p
        };
        let line = seq!['+'] + last;
        assert(lines.map_values(added) =~= before.map_values(added) + seq![line]);
        lemma_two_parts(p, before.map_values(added), seq![line], n);
        lemma_one_line(q, line, n + before.len());
        laws::lemma_no_marker(line);
        assert(line.skip(1) =~= last);
        assert((laws::with_line_feeds(before) + last).push('\n') =~= laws::with_line_feeds(before)
            + last.push('\n'));
    }
}

/// The lines of a hunk.
proof fn lemma_hunk(p: Progress, h: HunkText, n: int) -> (q: Progress)
    requires
        is_hunk(h),
        can_go_on(p),
    ensures
        model::after_complete_lines(p, hunk_lines(h), n) == Ok::<Progress, ErrorView>(q),
        can_go_on(q),
        model::all_hunks(q) == model::all_hunks(p).push(hunk_meaning(h)),
{
    let closed = model::closed_hunk(p);
    match h {
        HunkText::Add { path, lines } => {
            let header = model::ADD_FILE_MARKER@ + path;
            let rest = lines.map_values(|line: Seq<char>| seq!['+'] + line);
            let started = Progress {
                state: StateView::AddFile {
                    path,
                    header_line_number: n,
                    contents: Seq::empty(),
                },
                ..closed
            };
            lemma_hunk_header(model::ADD_FILE_MARKER@, path);
            lemma_two_parts(p, seq![header], rest, n);
            lemma_one_line(p, header, n);
            lemma_added_lines(started, path, n, lines, n + 1);
            Progress {
                state: StateView::AddFile {
                    path,
                    header_line_number: n,
                    contents: laws::with_line_feeds(lines),
                },
                ..closed
            }
        },
        HunkText::Delete { path } => {
            let header = model::DELETE_FILE_MARKER@ + path;
            lemma_marker_texts();
            lemma_hunk_header(model::DELETE_FILE_MARKER@, path);
            lemma_one_line(p, header, n);
            model::with_started_hunk(closed, Marker::Delete(path), n)
        },
        HunkText::Update { path, move_path, chunks } => {
            let header = model::UPDATE_FILE_MARKER@ + path;
            let rest = move_lines(move_path) + all_chunk_lines(chunks);
            lemma_marker_texts();
            lemma_hunk_header(model::UPDATE_FILE_MARKER@, path);
            assert(hunk_lines(h) =~= seq![header] + rest);
            lemma_two_parts(p, seq![header], rest, n);
            lemma_one_line(p, header, n);
            let started = model::started_update(path, n);
            let u = UpdateView { move_path, ..started };
            lemma_two_parts(
                in_update(closed, started),
                move_lines(move_path),
                all_chunk_lines(chunks),
                n + 1,
            );
            match move_path {
                Some(target) => {
                    let line = model::MOVE_TO_MARKER@ + target;
                    lemma_move_line(target);
                    lemma_one_line(in_update(closed, started), line, n + 1);
                },
                None => {
                    assert(u == started);
                },
            }
            let v = lemma_chunks(closed, u, chunks, n + 1 + move_lines(move_path).len());
            in_update(closed, v)
        },
    }
}

/// The lines of the hunks of a patch.
proof fn lemma_hunks(p: Progress, hunks: Seq<HunkText>, n: int) -> (q: Progress)
    requires
        forall|i: int| 0 <= i < hunks.len() ==> is_hunk(#[trigger] hunks[i]),
        can_go_on(p),
    ensures
        model::after_complete_lines(p, all_hunk_lines(hunks), n) == Ok::<Progress, ErrorView>(q),
        can_go_on(q),
        model::all_hunks(q) == model::all_hunks(p) + hunks.map_values(
            |h: HunkText| hunk_meaning(h),
        ),
    decreases hunks.len(),
{
    let meaning = |h: HunkText| hunk_meaning(h);
    if hunks.len() == 0 {
        assert(model::all_hunks(p) + hunks.map_values(meaning) =~= model::all_hunks(p));
        p
    } else {
        let before = hunks.drop_last();
        let last = hunks.last();
        assert forall|i: int| 0 <= i < before.len() implies is_hunk(#[trigger] before[i]) by {
            assert(before[i] == hunks[i]);
        }
        assert(is_hunk(hunks[hunks.len() - 1]));
        let w = lemma_hunks(p, before, n);
        lemma_two_parts(p, all_hunk_lines(before), hunk_lines(last), n);
        let q = lemma_hunk(w, last, n + all_hunk_lines(before).len());
        assert(model::all_hunks(p) + hunks.map_values(meaning) =~= (model::all_hunks(p)
            + before.map_values(meaning)).push(hunk_meaning(last)));
        q
    }
}

/// A patch that the grammar describes is read, and its hunks are those that
/// its lines say.
pub proof fn law_grammar_is_read(hunks: Seq<HunkText>)
    requires
        forall|i: int| 0 <= i < hunks.len() ==> is_hunk(#[trigger] hunks[i]),
    ensures
        model::complete_hunks(patch_lines(hunks)) == Ok::<Seq<HunkView>, ErrorView>(
            hunks.map_values(|h: HunkText| hunk_meaning(h)),
        ),
{
    let begin = model::BEGIN_PATCH_MARKER@;
    let end = model::END_PATCH_MARKER@;
    let rest = all_hunk_lines(hunks) + seq![end];
    assert(patch_lines(hunks) =~= seq![begin] + rest);
    lemma_marker_texts();
    text::lemma_nothing_to_trim(begin);
    text::lemma_nothing_to_trim(end);
    assert(begin != end);
    lemma_two_parts(model::nothing_read(), seq![begin], rest, 1);
    lemma_one_line(model::nothing_read(), begin, 1);
    let started = Progress { hunks: Seq::empty(), state: StateView::BetweenHunks };
    let q = lemma_hunks(started, hunks, 2);
    lemma_two_parts(started, all_hunk_lines(hunks), seq![end], 2);
    lemma_one_line(q, end, 2 + all_hunk_lines(hunks).len() as int);
    assert(model::all_hunks(started) + hunks.map_values(|h: HunkText| hunk_meaning(h))
        =~= hunks.map_values(|h: HunkText| hunk_meaning(h)));
}

/// The text of a patch that the grammar describes is read in both modes, and says
/// what its lines say.
pub proof fn law_grammar_text_is_read(hunks: Seq<HunkText>, mode: ParseMode)
    requires
        forall|i: int| 0 <= i < hunks.len() ==> is_hunk(#[trigger] hunks[i]),
        forall|i: int|
            0 <= i < patch_lines(hunks).len() ==> text::is_one_line(
                #[trigger] patch_lines(hunks)[i],
            ) && ends_plainly(patch_lines(hunks)[i]),
    ensures
        ({
            let whole = text::joined(patch_lines(hunks), "\n"@);
            parse::parsed_patch(whole, mode) == Ok::<parse::ArgsView, ErrorView>(
                parse::ArgsView {
                    patch: whole,
                    hunks: hunks.map_values(|h: HunkText| hunk_meaning(h)),
                    workdir: None,
                },
            )
        }),
{
    let lines = patch_lines(hunks);
    lemma_marker_texts();
    text::lemma_nothing_to_trim(model::BEGIN_PATCH_MARKER@);
    text::lemma_nothing_to_trim(model::END_PATCH_MARKER@);
    assert(lines.first() == model::BEGIN_PATCH_MARKER@);
    assert(lines.last() == model::END_PATCH_MARKER@);
    assert forall|i: int| 0 <= i < lines.len() implies text::without_carriage_return(
        #[trigger] lines[i],
    ) == lines[i] by {
        assert(ends_plainly(patch_lines(hunks)[i]));
    }
    assert forall|i: int| 0 <= i < lines.len() implies text::is_one_line(#[trigger] lines[i]) by {
        assert(text::is_one_line(patch_lines(hunks)[i]));
    }
    law_grammar_is_read(hunks);
    laws::law_text_is_parsed_by_lines(lines, mode);
}

} // verus!
