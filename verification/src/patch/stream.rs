//! The parser itself, which takes a patch line by line or as it arrives.

use vstd::prelude::*;
use vstd::string::*;

use crate::patch::model;
use crate::patch::model::ChunkView;
use crate::patch::model::Hunk;
use crate::patch::model::HunkView;
use crate::patch::model::ParseError;
use crate::patch::model::ParserView;
use crate::patch::model::Progress;
use crate::patch::model::StateView;
use crate::patch::model::UpdateFileChunk;
use crate::patch::model::UpdateView;
use crate::text;

verus! {

/// The view of an optional chunk.
pub open spec fn chunk_of(chunk: Option<UpdateFileChunk>) -> Option<ChunkView> {
    match chunk {
        Some(chunk) => Some(chunk@),
        None => None,
    }
}

/// The path that a line moves the updated file to.
fn parse_move_to_line(line: &str) -> (r: Option<&str>)
    ensures
        match r {
            Some(path) => model::move_target(line@) == Some(path@),
            None => model::move_target(line@) is None,
        },
{
    text::strip_prefix(text::trim(line), model::MOVE_TO_MARKER)
}

/// A chunk without lines.
fn new_chunk(change_context: Option<String>) -> (r: UpdateFileChunk)
    ensures
        r@ == model::empty_chunk(text::text_of(change_context)),
{
    let r = UpdateFileChunk {
        change_context,
        old_lines: Vec::new(),
        new_lines: Vec::new(),
        is_end_of_file: false,
    };
    assert(r@ =~= model::empty_chunk(text::text_of(change_context)));
    r
}

/// The chunk that a line opens.
fn update_chunk_from_header(line: &str) -> (r: Option<UpdateFileChunk>)
    ensures
        chunk_of(r) == model::opened_chunk(line@),
{
    let line = text::trim(line);
    if text::same_text(line, model::EMPTY_CHANGE_CONTEXT_MARKER) {
        Some(new_chunk(None))
    } else {
        match text::strip_prefix(line, model::CHANGE_CONTEXT_MARKER) {
            Some(context) => Some(new_chunk(Some(context.to_string()))),
            None => None,
        }
    }
}

/// One more text in a list.
proof fn lemma_texts_push(v: Seq<String>, s: String)
    ensures
        text::texts(v.push(s)) == text::texts(v).push(s@),
{
    assert(text::texts(v.push(s)) =~= text::texts(v).push(s@));
}

/// Adds `text` to the lines that `kind` names.
fn push_change(chunk: &mut UpdateFileChunk, kind: char, text: &str)
    ensures
        final(chunk)@ == model::with_change(old(chunk)@, kind, text@),
{
    if kind == ' ' || kind == '-' {
        let added = text.to_string();
        proof {
            lemma_texts_push(chunk.old_lines@, added);
        }
        chunk.old_lines.push(added);
    }
    if kind == ' ' || kind == '+' {
        let added = text.to_string();
        proof {
            lemma_texts_push(chunk.new_lines@, added);
        }
        chunk.new_lines.push(added);
    }
}

/// Adds a change line to the chunk and says whether it is one.
fn push_update_line(chunk: &mut UpdateFileChunk, line: &str) -> (pushed: bool)
    ensures
        match model::with_change_line(old(chunk)@, line@) {
            Some(changed) => pushed && final(chunk)@ == changed,
            None => !pushed && final(chunk)@ == old(chunk)@,
        },
{
    match text::first_char(line) {
        None => {
            push_change(chunk, ' ', line);
            true
        },
        Some(kind) => if kind == ' ' || kind == '+' || kind == '-' {
            push_change(chunk, kind, text::tail(line));
            true
        } else {
            false
        },
    }
}

/// Whether the chunk has lines to remove or to add.
fn chunk_has_lines(chunk: &UpdateFileChunk) -> (r: bool)
    ensures
        r == model::has_lines(chunk@),
{
    chunk.old_lines.len() > 0 || chunk.new_lines.len() > 0
}

/// One more chunk in a list.
proof fn lemma_chunks_push(v: Seq<UpdateFileChunk>, c: UpdateFileChunk)
    ensures
        model::chunk_views(v.push(c)) == model::chunk_views(v).push(c@),
{
    assert(model::chunk_views(v.push(c)) =~= model::chunk_views(v).push(c@));
}

/// One more hunk in a list.
proof fn lemma_hunks_push(v: Seq<Hunk>, h: Hunk)
    ensures
        model::hunk_views(v.push(h)) == model::hunk_views(v).push(h@),
{
    assert(model::hunk_views(v.push(h)) =~= model::hunk_views(v).push(h@));
}

/// Closes the open chunk, which is dropped where it says nothing.
fn finish_streaming_chunk(
    chunks: &mut Vec<UpdateFileChunk>,
    current_chunk: &mut Option<UpdateFileChunk>,
)
    ensures
        model::chunk_views(final(chunks)@) == model::with_open_chunk(
            model::chunk_views(old(chunks)@),
            chunk_of(*old(current_chunk)),
        ),
        *final(current_chunk) is None,
{
    if let Some(chunk) = current_chunk.take() {
        if chunk_has_lines(&chunk) || chunk.is_end_of_file {
            proof {
                lemma_chunks_push(chunks@, chunk);
            }
            chunks.push(chunk);
        }
    }
}

/// Closes the open chunk, which is refused where it says nothing.
fn finish_complete_chunk(
    chunks: &mut Vec<UpdateFileChunk>,
    current_chunk: &mut Option<UpdateFileChunk>,
    line_number: usize,
) -> (r: Result<(), ParseError>)
    ensures
        match r {
            Ok(()) => {
                &&& !model::open_chunk_is_empty(chunk_of(*old(current_chunk)))
                &&& model::chunk_views(final(chunks)@) == model::with_open_chunk(
                    model::chunk_views(old(chunks)@),
                    chunk_of(*old(current_chunk)),
                )
                &&& *final(current_chunk) is None
            },
            Err(error) => {
                &&& model::open_chunk_is_empty(chunk_of(*old(current_chunk)))
                &&& error@ == model::empty_chunk_error(line_number as int)
                &&& final(chunks)@ == old(chunks)@
                &&& *final(current_chunk) is None
            },
        },
{
    if let Some(chunk) = current_chunk.take() {
        if !chunk_has_lines(&chunk) && !chunk.is_end_of_file {
            return Err(
                ParseError::InvalidHunkError {
                    message: model::EMPTY_CHUNK_ERROR.to_string(),
                    line_number,
                },
            );
        }
        proof {
            lemma_chunks_push(chunks@, chunk);
        }
        chunks.push(chunk);
    }
    Ok(())
}

/// `before`, `middle` and `after` one after the other.
fn sentence(before: &str, middle: &str, after: &str) -> (r: String)
    ensures
        r@ == before@ + middle@ + after@,
{
    text::concat(text::concat(before, middle).as_str(), after)
}

fn invalid_hunk_header_error(line: &str, line_number: usize) -> (r: ParseError)
    ensures
        r@ == model::header_error(line@, line_number as int),
{
    ParseError::InvalidHunkError {
        message: sentence(
            "'",
            line,
            "' is not a valid hunk header. Valid hunk headers: '*** Add File: {path}', '*** Delete File: {path}', '*** Update File: {path}'",
        ),
        line_number,
    }
}

fn empty_add_hunk_error(path: &str, line_number: usize) -> (r: ParseError)
    ensures
        r@ == model::empty_add_error(path@, line_number as int),
{
    ParseError::InvalidHunkError {
        message: sentence("Add file hunk for path '", path, "' is empty"),
        line_number,
    }
}

fn empty_update_hunk_error(path: &str, line_number: usize) -> (r: ParseError)
    ensures
        r@ == model::empty_update_error(path@, line_number as int),
{
    ParseError::InvalidHunkError {
        message: sentence("Update file hunk for path '", path, "' is empty"),
        line_number,
    }
}

fn missing_update_context_error(line: &str, line_number: usize) -> (r: ParseError)
    ensures
        r@ == model::missing_context_error(line@, line_number as int),
{
    ParseError::InvalidHunkError {
        message: sentence(
            "Expected update hunk to start with a @@ context marker, got: '",
            line,
            "'",
        ),
        line_number,
    }
}

fn unexpected_update_line_error(line: &str, line_number: usize) -> (r: ParseError)
    ensures
        r@ == model::unexpected_line_error(line@, line_number as int),
{
    ParseError::InvalidHunkError {
        message: sentence(
            "Unexpected line found in update hunk: '",
            line,
            "'. Every line should start with ' ' (context line), '+' (added line), or '-' (removed line)",
        ),
        line_number,
    }
}

/// The error for a line that can only be another header.
fn stray_line_error(line: &str, line_number: usize) -> (r: ParseError)
    ensures
        r@ == model::stray_line_error(line@, line_number as int),
{
    match text::first_char(line) {
        Some('*') => invalid_hunk_header_error(text::trim(line), line_number),
        _ => missing_update_context_error(line, line_number),
    }
}

fn first_line_error() -> (r: ParseError)
    ensures
        r@ == model::ErrorView::InvalidPatch(model::FIRST_LINE_ERROR@),
{
    ParseError::InvalidPatchError(model::FIRST_LINE_ERROR.to_string())
}

fn last_line_error() -> (r: ParseError)
    ensures
        r@ == model::ErrorView::InvalidPatch(model::LAST_LINE_ERROR@),
{
    ParseError::InvalidPatchError(model::LAST_LINE_ERROR.to_string())
}

/// The update hunk that is being read.
#[derive(Debug)]
struct UpdateState {
    path: String,
    header_line_number: usize,
    move_path: Option<String>,
    can_accept_move: bool,
    chunks: Vec<UpdateFileChunk>,
    current_chunk: Option<UpdateFileChunk>,
}

impl View for UpdateState {
    type V = UpdateView;

    closed spec fn view(&self) -> UpdateView {
        UpdateView {
            path: self.path@,
            header_line_number: self.header_line_number as int,
            move_path: text::text_of(self.move_path),
            can_accept_move: self.can_accept_move,
            chunks: model::chunk_views(self.chunks@),
            current_chunk: chunk_of(self.current_chunk),
        }
    }
}

impl UpdateState {
    /// The hunk as it starts with its header.
    fn new(path: &str, header_line_number: usize) -> (r: Self)
        ensures
            r@ == model::started_update(path@, header_line_number as int),
    {
        let r = UpdateState {
            path: path.to_string(),
            header_line_number,
            move_path: None,
            can_accept_move: true,
            chunks: Vec::new(),
            current_chunk: None,
        };
        assert(r@ =~= model::started_update(path@, header_line_number as int));
        r
    }

    /// Takes a move line, where one may stand.
    fn accept_move(&mut self, line: &str) -> (accepted: bool)
        ensures
            accepted == (old(self)@.can_accept_move && old(self)@.move_path is None
                && model::move_target(line@) is Some),
            accepted ==> final(self)@ == (UpdateView {
                move_path: model::move_target(line@),
                ..old(self)@
            }),
            !accepted ==> final(self)@ == (UpdateView { can_accept_move: false, ..old(self)@ }),
    {
        if self.can_accept_move && self.move_path.is_none() {
            if let Some(path) = parse_move_to_line(line) {
                self.move_path = Some(path.to_string());
                return true;
            }
        }
        self.can_accept_move = false;
        false
    }

    /// Opens a chunk without context, where none is open.
    fn open_chunk_if_none(&mut self)
        ensures
            final(self)@ == (UpdateView {
                current_chunk: Some(
                    match old(self)@.current_chunk {
                        Some(chunk) => chunk,
                        None => model::empty_chunk(None),
                    },
                ),
                ..old(self)@
            }),
    {
        if self.current_chunk.is_none() {
            self.current_chunk = Some(new_chunk(None));
        }
    }

    /// Adds a change line to the open chunk and says whether it is one.
    fn push_line(&mut self, line: &str) -> (pushed: bool)
        requires
            old(self)@.current_chunk is Some,
        ensures
            match model::with_change_line(old(self)@.current_chunk->0, line@) {
                Some(changed) => pushed && final(self)@ == (UpdateView {
                    current_chunk: Some(changed),
                    ..old(self)@
                }),
                None => !pushed && final(self)@ == old(self)@,
            },
    {
        match self.current_chunk.take() {
            Some(mut chunk) => {
                let pushed = push_update_line(&mut chunk, line);
                self.current_chunk = Some(chunk);
                pushed
            },
            None => false,
        }
    }

    /// Marks the open chunk as the end of the file.
    fn mark_end_of_file(&mut self)
        ensures
            final(self)@ == (UpdateView {
                current_chunk: match old(self)@.current_chunk {
                    Some(chunk) => Some(ChunkView { is_end_of_file: true, ..chunk }),
                    None => None,
                },
                ..old(self)@
            }),
    {
        match self.current_chunk.take() {
            Some(mut chunk) => {
                chunk.is_end_of_file = true;
                self.current_chunk = Some(chunk);
            },
            None => {},
        }
    }

    /// Takes a line that is no marker, whatever it holds.
    fn process_line(&mut self, line: &str)
        ensures
            final(self)@ == model::update_after_line(old(self)@, line@),
    {
        if self.accept_move(line) {
            return;
        }
        if let Some(chunk) = update_chunk_from_header(line) {
            finish_streaming_chunk(&mut self.chunks, &mut self.current_chunk);
            self.current_chunk = Some(chunk);
            return;
        }
        if text::same_text(text::trim(line), model::EOF_MARKER) {
            self.mark_end_of_file();
            finish_streaming_chunk(&mut self.chunks, &mut self.current_chunk);
            return;
        }
        self.open_chunk_if_none();
        self.push_line(line);
    }

    /// Takes a line that is no marker, or refuses it.
    fn process_complete_line(&mut self, line: &str, line_number: usize) -> (r: Result<
        (),
        ParseError,
    >)
        ensures
            match r {
                Ok(()) => model::update_after_complete_line(old(self)@, line@, line_number as int)
                    == Ok::<UpdateView, model::ErrorView>(final(self)@),
                Err(error) => {
                    &&& model::update_after_complete_line(old(self)@, line@, line_number as int)
                        == Err::<UpdateView, model::ErrorView>(error@)
                    &&& final(self)@ == model::update_after_refused_line(old(self)@, line@)
                },
            },
    {
        if self.accept_move(line) {
            return Ok(());
        }
        if let Some(chunk) = update_chunk_from_header(line) {
            match finish_complete_chunk(&mut self.chunks, &mut self.current_chunk, line_number) {
                Ok(()) => {},
                Err(error) => {
                    return Err(error);
                },
            }
            self.current_chunk = Some(chunk);
            return Ok(());
        }
        if text::same_text(text::trim(line), model::EOF_MARKER) {
            let empty = match &self.current_chunk {
                None => {
                    return Err(missing_update_context_error(line, line_number));
                },
                Some(chunk) => !chunk_has_lines(chunk),
            };
            if empty {
                return Err(
                    ParseError::InvalidHunkError {
                        message: model::EMPTY_CHUNK_ERROR.to_string(),
                        line_number,
                    },
                );
            }
            self.mark_end_of_file();
            return finish_complete_chunk(&mut self.chunks, &mut self.current_chunk, line_number);
        }
        if self.current_chunk.is_none() {
            if text::trim(line).is_empty() {
                return Ok(());
            }
            if self.chunks.len() > 0 {
                return Err(stray_line_error(line, line_number));
            }
        }
        self.open_chunk_if_none();
        if self.push_line(line) {
            return Ok(());
        }
        let empty = match &self.current_chunk {
            None => true,
            Some(chunk) => !chunk_has_lines(chunk),
        };
        if empty {
            return Err(unexpected_update_line_error(line, line_number));
        }
        match finish_complete_chunk(&mut self.chunks, &mut self.current_chunk, line_number) {
            Ok(()) => Err(stray_line_error(line, line_number)),
            Err(error) => Err(error),
        }
    }
}

/// A copy of a chunk.
fn copy_chunk(chunk: &UpdateFileChunk) -> (r: UpdateFileChunk)
    ensures
        r@ == chunk@,
{
    UpdateFileChunk {
        change_context: text::copy_optional_text(&chunk.change_context),
        old_lines: text::copy_texts(&chunk.old_lines),
        new_lines: text::copy_texts(&chunk.new_lines),
        is_end_of_file: chunk.is_end_of_file,
    }
}

/// A copy of a list of chunks.
fn copy_chunks(chunks: &Vec<UpdateFileChunk>) -> (r: Vec<UpdateFileChunk>)
    ensures
        model::chunk_views(r@) == model::chunk_views(chunks@),
{
    let mut r: Vec<UpdateFileChunk> = Vec::new();
    let mut i: usize = 0;
    while i < chunks.len()
        invariant
            i <= chunks@.len(),
            r@.len() == i,
            forall|j: int| 0 <= j < i ==> (#[trigger] r@[j])@ == chunks@[j]@,
        decreases chunks.len() - i,
    {
        r.push(copy_chunk(&chunks[i]));
        i = i + 1;
    }
    assert(model::chunk_views(r@) =~= model::chunk_views(chunks@));
    r
}

/// A copy of a hunk.
fn copy_hunk(hunk: &Hunk) -> (r: Hunk)
    ensures
        r@ == hunk@,
{
    match hunk {
        Hunk::AddFile { path, contents } => Hunk::AddFile {
            path: path.clone(),
            contents: contents.clone(),
        },
        Hunk::DeleteFile { path } => Hunk::DeleteFile { path: path.clone() },
        Hunk::UpdateFile { path, move_path, chunks } => Hunk::UpdateFile {
            path: path.clone(),
            move_path: text::copy_optional_text(move_path),
            chunks: copy_chunks(chunks),
        },
    }
}

/// A copy of a list of hunks.
fn copy_hunks(hunks: &Vec<Hunk>) -> (r: Vec<Hunk>)
    ensures
        model::hunk_views(r@) == model::hunk_views(hunks@),
{
    let mut r: Vec<Hunk> = Vec::new();
    let mut i: usize = 0;
    while i < hunks.len()
        invariant
            i <= hunks@.len(),
            r@.len() == i,
            forall|j: int| 0 <= j < i ==> (#[trigger] r@[j])@ == hunks@[j]@,
        decreases hunks.len() - i,
    {
        r.push(copy_hunk(&hunks[i]));
        i = i + 1;
    }
    assert(model::hunk_views(r@) =~= model::hunk_views(hunks@));
    r
}

/// Whether two chunks are equal.
fn same_chunk(a: &UpdateFileChunk, b: &UpdateFileChunk) -> (r: bool)
    ensures
        r == (a@ == b@),
{
    text::same_optional_text(&a.change_context, &b.change_context) && text::same_texts(
        &a.old_lines,
        &b.old_lines,
    ) && text::same_texts(&a.new_lines, &b.new_lines) && a.is_end_of_file == b.is_end_of_file
}

/// Whether two lists of chunks are equal.
fn same_chunks(a: &Vec<UpdateFileChunk>, b: &Vec<UpdateFileChunk>) -> (r: bool)
    ensures
        r == (model::chunk_views(a@) == model::chunk_views(b@)),
{
    if a.len() != b.len() {
        assert(model::chunk_views(a@).len() != model::chunk_views(b@).len());
        return false;
    }
    let mut i: usize = 0;
    while i < a.len()
        invariant
            i <= a@.len(),
            a@.len() == b@.len(),
            forall|j: int| 0 <= j < i ==> (#[trigger] a@[j])@ == b@[j]@,
        decreases a.len() - i,
    {
        if !same_chunk(&a[i], &b[i]) {
            assert(model::chunk_views(a@)[i as int] != model::chunk_views(b@)[i as int]);
            return false;
        }
        i = i + 1;
    }
    assert(model::chunk_views(a@) =~= model::chunk_views(b@));
    true
}

/// Whether two hunks are equal.
fn same_hunk(a: &Hunk, b: &Hunk) -> (r: bool)
    ensures
        r == (a@ == b@),
{
    match (a, b) {
        (Hunk::AddFile { path, contents }, Hunk::AddFile { path: path_b, contents: contents_b }) => {
            text::same_text(path.as_str(), path_b.as_str()) && text::same_text(
                contents.as_str(),
                contents_b.as_str(),
            )
        },
        (Hunk::DeleteFile { path }, Hunk::DeleteFile { path: path_b }) => {
            text::same_text(path.as_str(), path_b.as_str())
        },
        (
            Hunk::UpdateFile { path, move_path, chunks },
            Hunk::UpdateFile { path: path_b, move_path: move_path_b, chunks: chunks_b },
        ) => {
            text::same_text(path.as_str(), path_b.as_str()) && text::same_optional_text(
                move_path,
                move_path_b,
            ) && same_chunks(chunks, chunks_b)
        },
        _ => false,
    }
}

/// Whether two lists of hunks are equal.
fn same_hunks(a: &Vec<Hunk>, b: &Vec<Hunk>) -> (r: bool)
    ensures
        r == (model::hunk_views(a@) == model::hunk_views(b@)),
{
    if a.len() != b.len() {
        assert(model::hunk_views(a@).len() != model::hunk_views(b@).len());
        return false;
    }
    let mut i: usize = 0;
    while i < a.len()
        invariant
            i <= a@.len(),
            a@.len() == b@.len(),
            forall|j: int| 0 <= j < i ==> (#[trigger] a@[j])@ == b@[j]@,
        decreases a.len() - i,
    {
        if !same_hunk(&a[i], &b[i]) {
            assert(model::hunk_views(a@)[i as int] != model::hunk_views(b@)[i as int]);
            return false;
        }
        i = i + 1;
    }
    assert(model::hunk_views(a@) =~= model::hunk_views(b@));
    true
}

/// What is being read, apart from the hunks that are complete.
#[derive(Debug)]
enum StreamingParserState {
    WaitingForBegin,
    BetweenHunks,
    AddFile { path: String, header_line_number: usize, contents: String },
    UpdateFile(UpdateState),
    Finished,
    Invalid,
}

impl View for StreamingParserState {
    type V = StateView;

    closed spec fn view(&self) -> StateView {
        match *self {
            StreamingParserState::WaitingForBegin => StateView::WaitingForBegin,
            StreamingParserState::BetweenHunks => StateView::BetweenHunks,
            StreamingParserState::AddFile { path, header_line_number, contents } => StateView::AddFile {
                path: path@,
                header_line_number: header_line_number as int,
                contents: contents@,
            },
            StreamingParserState::UpdateFile(update) => StateView::UpdateFile(update@),
            StreamingParserState::Finished => StateView::Finished,
            StreamingParserState::Invalid => StateView::Invalid,
        }
    }
}

/// A parser that takes a patch as it arrives, piece by piece, and reports the
/// hunks so far.
#[derive(Debug)]
pub struct StreamingPatchParser {
    line_buffer: Vec<char>,
    partial_applied_len: usize,
    state: StreamingParserState,
    hunks: Vec<Hunk>,
    last_snapshot: Vec<Hunk>,
}

impl View for StreamingPatchParser {
    type V = ParserView;

    closed spec fn view(&self) -> ParserView {
        ParserView {
            line: self.line_buffer@,
            applied: self.partial_applied_len as nat,
            progress: Progress { hunks: model::hunk_views(self.hunks@), state: self.state@ },
            last_snapshot: model::hunk_views(self.last_snapshot@),
        }
    }
}

impl StreamingPatchParser {
    /// No more characters are applied than have arrived.
    #[verifier::type_invariant]
    spec fn is_valid(self) -> bool {
        self.partial_applied_len <= self.line_buffer@.len()
    }
}

/// A copy of what is being read.
fn copy_state(state: &StreamingParserState) -> (r: StreamingParserState)
    ensures
        r@ == state@,
{
    match state {
        StreamingParserState::WaitingForBegin => StreamingParserState::WaitingForBegin,
        StreamingParserState::BetweenHunks => StreamingParserState::BetweenHunks,
        StreamingParserState::AddFile { path, header_line_number, contents } => {
            StreamingParserState::AddFile {
                path: path.clone(),
                header_line_number: *header_line_number,
                contents: contents.clone(),
            }
        },
        StreamingParserState::UpdateFile(update) => StreamingParserState::UpdateFile(
            UpdateState {
                path: update.path.clone(),
                header_line_number: update.header_line_number,
                move_path: text::copy_optional_text(&update.move_path),
                can_accept_move: update.can_accept_move,
                chunks: copy_chunks(&update.chunks),
                current_chunk: match &update.current_chunk {
                    Some(chunk) => Some(copy_chunk(chunk)),
                    None => None,
                },
            },
        ),
        StreamingParserState::Finished => StreamingParserState::Finished,
        StreamingParserState::Invalid => StreamingParserState::Invalid,
    }
}

impl Clone for StreamingPatchParser {
    fn clone(&self) -> (r: Self)
        ensures
            r@ == self@,
    {
        proof {
            use_type_invariant(self);
        }
        let line_buffer = self.line_buffer.clone();
        assert(line_buffer@ =~= self.line_buffer@);
        StreamingPatchParser {
            line_buffer,
            partial_applied_len: self.partial_applied_len,
            state: copy_state(&self.state),
            hunks: copy_hunks(&self.hunks),
            last_snapshot: copy_hunks(&self.last_snapshot),
        }
    }
}

impl Default for StreamingPatchParser {
    fn default() -> (r: Self)
        ensures
            r@ == model::nothing_arrived(),
    {
        let r = StreamingPatchParser {
            line_buffer: Vec::new(),
            partial_applied_len: 0,
            state: StreamingParserState::WaitingForBegin,
            hunks: Vec::new(),
            last_snapshot: Vec::new(),
        };
        assert(r@ =~= model::nothing_arrived());
        r
    }
}

impl StreamingPatchParser {
    /// Adds a complete hunk.
    fn push_hunk(&mut self, hunk: Hunk)
        ensures
            final(self)@ == (ParserView {
                progress: Progress {
                    hunks: old(self)@.progress.hunks.push(hunk@),
                    ..old(self)@.progress
                },
                ..old(self)@
            }),
    {
        proof {
            use_type_invariant(&*self);
            lemma_hunks_push(self.hunks@, hunk);
        }
        let mut hunks: Vec<Hunk> = Vec::new();
        std::mem::swap(&mut hunks, &mut self.hunks);
        hunks.push(hunk);
        self.hunks = hunks;
    }

    /// Takes the state out and leaves the one between two hunks.
    fn take_state(&mut self) -> (state: StreamingParserState)
        ensures
            state@ == old(self)@.progress.state,
            final(self)@ == (ParserView {
                progress: Progress { state: StateView::BetweenHunks, ..old(self)@.progress },
                ..old(self)@
            }),
    {
        proof {
            use_type_invariant(&*self);
        }
        let mut state = StreamingParserState::BetweenHunks;
        std::mem::swap(&mut state, &mut self.state);
        state
    }

    /// Takes the open hunk as complete, and drops it where it says nothing. What
    /// is shown stays the same, unless a line is half there, and closing once more
    /// changes nothing.
    fn finish_current_hunk(&mut self)
        ensures
            final(self)@ == (ParserView {
                progress: model::closed_hunk(old(self)@.progress),
                ..old(self)@
            }),
            old(self)@.applied == 0 ==> model::hunks_so_far(final(self)@) == model::hunks_so_far(
                old(self)@,
            ),
            model::closed_hunk(final(self)@.progress) == final(self)@.progress,
    {
        proof {
            use_type_invariant(&*self);
        }
        let state = self.take_state();
        match state {
            StreamingParserState::AddFile { path, contents, .. } => {
                self.push_hunk(Hunk::AddFile { path, contents });
            },
            StreamingParserState::UpdateFile(update) => {
                let mut chunks = update.chunks;
                let mut current_chunk = update.current_chunk;
                finish_streaming_chunk(&mut chunks, &mut current_chunk);
                if chunks.len() > 0 {
                    self.push_hunk(
                        Hunk::UpdateFile {
                            path: update.path,
                            move_path: update.move_path,
                            chunks,
                        },
                    );
                }
            },
            other => {
                self.state = other;
            },
        }
    }

    /// Takes the open hunk as complete, or refuses it.
    fn finish_current_hunk_complete(&mut self) -> (r: Result<(), ParseError>)
        ensures
            match r {
                Ok(()) => {
                    &&& model::completed_hunk(old(self)@.progress) == Ok::<
                        Progress,
                        model::ErrorView,
                    >(final(self)@.progress)
                    &&& final(self)@ == (ParserView {
                        progress: final(self)@.progress,
                        ..old(self)@
                    })
                },
                Err(error) => {
                    &&& model::completed_hunk(old(self)@.progress) == Err::<
                        Progress,
                        model::ErrorView,
                    >(error@)
                    &&& final(self)@ == (ParserView {
                        progress: model::without_open_hunk(old(self)@.progress),
                        ..old(self)@
                    })
                },
            },
    {
        proof {
            use_type_invariant(&*self);
        }
        let state = self.take_state();
        match state {
            StreamingParserState::AddFile { path, header_line_number, contents } => {
                if contents.as_str().is_empty() {
                    return Err(empty_add_hunk_error(path.as_str(), header_line_number));
                }
                self.push_hunk(Hunk::AddFile { path, contents });
            },
            StreamingParserState::UpdateFile(update) => {
                let mut chunks = update.chunks;
                let mut current_chunk = update.current_chunk;
                match finish_complete_chunk(
                    &mut chunks,
                    &mut current_chunk,
                    update.header_line_number,
                ) {
                    Ok(()) => {},
                    Err(error) => {
                        return Err(error);
                    },
                }
                if chunks.len() == 0 {
                    return Err(
                        empty_update_hunk_error(update.path.as_str(), update.header_line_number),
                    );
                }
                self.push_hunk(
                    Hunk::UpdateFile { path: update.path, move_path: update.move_path, chunks },
                );
            },
            other => {
                self.state = other;
            },
        }
        Ok(())
    }

    /// Starts the hunk whose header the line is.
    fn start_hunk(&mut self, line: &str, line_number: usize)
        requires
            model::marker(line@) is Add || model::marker(line@) is Delete || model::marker(
                line@,
            ) is Update,
        ensures
            final(self)@ == (ParserView {
                progress: model::with_started_hunk(
                    old(self)@.progress,
                    model::marker(line@),
                    line_number as int,
                ),
                ..old(self)@
            }),
    {
        proof {
            use_type_invariant(&*self);
        }
        let line = text::trim(line);
        if let Some(path) = text::strip_prefix(line, model::ADD_FILE_MARKER) {
            self.state = StreamingParserState::AddFile {
                path: path.to_string(),
                header_line_number: line_number,
                contents: String::new(),
            };
        } else if let Some(path) = text::strip_prefix(line, model::DELETE_FILE_MARKER) {
            self.push_hunk(Hunk::DeleteFile { path: path.to_string() });
            self.state = StreamingParserState::BetweenHunks;
        } else if let Some(path) = text::strip_prefix(line, model::UPDATE_FILE_MARKER) {
            self.state = StreamingParserState::UpdateFile(UpdateState::new(path, line_number));
        }
    }
}

/// Whether the trimmed line is the header of a hunk.
fn is_hunk_header(trimmed: &str) -> (r: bool)
    ensures
        r == (model::ADD_FILE_MARKER@.is_prefix_of(trimmed@)
            || model::DELETE_FILE_MARKER@.is_prefix_of(trimmed@)
            || model::UPDATE_FILE_MARKER@.is_prefix_of(trimmed@)),
{
    text::starts_with(trimmed, model::ADD_FILE_MARKER) || text::starts_with(
        trimmed,
        model::DELETE_FILE_MARKER,
    ) || text::starts_with(trimmed, model::UPDATE_FILE_MARKER)
}

/// Adds an added line to the contents of a file.
fn push_added_line(contents: &mut String, line: &str) -> (added: bool)
    ensures
        added == (line@.len() > 0 && line@[0] == '+'),
        added ==> final(contents)@ == (old(contents)@ + line@.skip(1)).push('\n'),
        !added ==> final(contents)@ == old(contents)@,
{
    match text::first_char(line) {
        Some('+') => {
            contents.append(text::tail(line));
            contents.push('\n');
            true
        },
        _ => false,
    }
}

impl StreamingPatchParser {
    /// Takes a line of a patch that may still be on its way.
    fn process_line(&mut self, line: &str)
        ensures
            final(self)@ == (ParserView {
                progress: model::after_line(old(self)@.progress, line@),
                ..old(self)@
            }),
    {
        proof {
            use_type_invariant(&*self);
        }
        if matches!(self.state, StreamingParserState::Finished | StreamingParserState::Invalid) {
            return;
        }
        let trimmed = text::trim(line);
        let begins = text::same_text(trimmed, model::BEGIN_PATCH_MARKER);
        if matches!(self.state, StreamingParserState::WaitingForBegin) {
            self.state = if begins {
                StreamingParserState::BetweenHunks
            } else {
                StreamingParserState::Invalid
            };
            return;
        }
        if begins {
            return;
        }
        if text::same_text(trimmed, model::END_PATCH_MARKER) {
            self.finish_current_hunk();
            self.state = StreamingParserState::Finished;
            return;
        }
        if is_hunk_header(trimmed) {
            self.finish_current_hunk();
            self.start_hunk(line, 0);
            return;
        }
        self.state = match self.take_state() {
            StreamingParserState::AddFile { path, header_line_number, mut contents } => {
                push_added_line(&mut contents, line);
                StreamingParserState::AddFile { path, header_line_number, contents }
            },
            StreamingParserState::UpdateFile(mut update) => {
                update.process_line(line);
                StreamingParserState::UpdateFile(update)
            },
            other => other,
        };
    }

    /// Takes a line of a patch that is all there, or refuses it.
    fn process_complete_line(&mut self, line: &str, line_number: usize) -> (r: Result<
        (),
        ParseError,
    >)
        ensures
            match r {
                Ok(()) => {
                    &&& model::after_complete_line(
                        old(self)@.progress,
                        line@,
                        line_number as int,
                    ) == Ok::<Progress, model::ErrorView>(final(self)@.progress)
                    &&& final(self)@ == (ParserView {
                        progress: final(self)@.progress,
                        ..old(self)@
                    })
                },
                Err(error) => {
                    &&& model::after_complete_line(
                        old(self)@.progress,
                        line@,
                        line_number as int,
                    ) == Err::<Progress, model::ErrorView>(error@)
                    &&& final(self)@ == (ParserView {
                        progress: model::after_refused_line(old(self)@.progress, line@),
                        ..old(self)@
                    })
                },
            },
    {
        proof {
            use_type_invariant(&*self);
        }
        let trimmed = text::trim(line);
        if matches!(self.state, StreamingParserState::Finished) {
            return Err(invalid_hunk_header_error(trimmed, line_number));
        }
        let begins = text::same_text(trimmed, model::BEGIN_PATCH_MARKER);
        if matches!(self.state, StreamingParserState::WaitingForBegin) {
            if begins {
                self.state = StreamingParserState::BetweenHunks;
                return Ok(());
            }
            return Err(first_line_error());
        }
        if begins {
            return Err(invalid_hunk_header_error(trimmed, line_number));
        }
        if text::same_text(trimmed, model::END_PATCH_MARKER) {
            match self.finish_current_hunk_complete() {
                Ok(()) => {},
                Err(error) => {
                    return Err(error);
                },
            }
            self.state = StreamingParserState::Finished;
            return Ok(());
        }
        if is_hunk_header(trimmed) {
            match self.finish_current_hunk_complete() {
                Ok(()) => {},
                Err(error) => {
                    return Err(error);
                },
            }
            self.start_hunk(line, line_number);
            return Ok(());
        }
        match self.take_state() {
            StreamingParserState::AddFile { path, header_line_number, mut contents } => {
                let added = push_added_line(&mut contents, line);
                self.state = StreamingParserState::AddFile { path, header_line_number, contents };
                if added {
                    return Ok(());
                }
            },
            StreamingParserState::UpdateFile(mut update) => {
                let r = update.process_complete_line(line, line_number);
                self.state = StreamingParserState::UpdateFile(update);
                return r;
            },
            other => {
                self.state = other;
            },
        }
        self.finish_current_hunk();
        Err(invalid_hunk_header_error(trimmed, line_number))
    }

    /// The hunks of a patch with these lines, or why it is no patch.
    pub fn parse_complete_lines(lines: &[String]) -> (r: Result<Vec<Hunk>, ParseError>)
        ensures
            match r {
                Ok(hunks) => model::complete_hunks(text::texts(lines@)) == Ok::<
                    Seq<HunkView>,
                    model::ErrorView,
                >(model::hunk_views(hunks@)),
                Err(error) => model::complete_hunks(text::texts(lines@)) == Err::<
                    Seq<HunkView>,
                    model::ErrorView,
                >(error@),
            },
    {
        let mut parser = StreamingPatchParser::default();
        let ghost all = text::texts(lines@);
        let mut i: usize = 0;
        assert(all.skip(0) =~= all);
        while i < lines.len()
            invariant
                i <= lines@.len(),
                all == text::texts(lines@),
                model::after_complete_lines(model::nothing_read(), all, 1)
                    == model::after_complete_lines(parser@.progress, all.skip(i as int), i + 1),
            decreases lines.len() - i,
        {
            proof {
                assert(all.skip(i as int).first() == lines@[i as int]@);
                assert(all.skip(i as int).drop_first() =~= all.skip(i + 1));
            }
            match parser.process_complete_line(
                text::trim_end_of(lines[i].as_str(), '\r'),
                i + 1,
            ) {
                Ok(()) => {},
                Err(error) => {
                    return Err(error);
                },
            }
            i = i + 1;
        }
        match parser.state {
            StreamingParserState::Finished => Ok(parser.hunks),
            StreamingParserState::WaitingForBegin => Err(first_line_error()),
            _ => Err(last_line_error()),
        }
    }

    /// The hunks so far of a patch of which these lines have arrived.
    pub fn parse_incomplete_lines(lines: &[String]) -> (r: Result<Vec<Hunk>, ParseError>)
        ensures
            ({
                let p = model::after_lines(model::nothing_read(), text::texts(lines@));
                match r {
                    Ok(hunks) => !(p.state is Invalid) && model::hunk_views(hunks@)
                        == model::all_hunks(p),
                    Err(error) => p.state is Invalid && error@ == model::ErrorView::InvalidPatch(
                        model::FIRST_LINE_ERROR@,
                    ),
                }
            }),
    {
        let mut parser = StreamingPatchParser::default();
        let ghost all = text::texts(lines@);
        let mut i: usize = 0;
        assert(all.take(0) =~= Seq::<Seq<char>>::empty());
        while i < lines.len()
            invariant
                i <= lines@.len(),
                all == text::texts(lines@),
                parser@.line.len() == 0,
                parser@.applied == 0,
                parser@.progress == model::after_lines(model::nothing_read(), all.take(i as int)),
            decreases lines.len() - i,
        {
            proof {
                assert(all.take(i + 1).last() == lines@[i as int]@);
                assert(all.take(i + 1).drop_last() =~= all.take(i as int));
            }
            parser.process_line(text::trim_end_of(lines[i].as_str(), '\r'));
            i = i + 1;
            if matches!(parser.state, StreamingParserState::Invalid) {
                proof {
                    lemma_invalid_stays(all, i as int);
                }
                return Err(first_line_error());
            }
        }
        assert(all.take(i as int) =~= all);
        if matches!(parser.state, StreamingParserState::Invalid) {
            return Err(first_line_error());
        }
        Ok(parser.current_hunks())
    }

    /// The hunks that have arrived so far, the last of them perhaps in part.
    pub fn current_hunks(&self) -> (r: Vec<Hunk>)
        ensures
            model::hunk_views(r@) == model::hunks_so_far(self@),
    {
        let mut hunks = copy_hunks(&self.hunks);
        match &self.state {
            StreamingParserState::AddFile { path, contents, .. } => {
                let mut contents = contents.clone();
                if self.partial_applied_len > 0 && self.line_buffer.len() > 0
                    && self.line_buffer[0] == '+' {
                    contents.push('\n');
                }
                let hunk = Hunk::AddFile { path: path.clone(), contents };
                proof {
                    lemma_hunks_push(hunks@, hunk);
                }
                hunks.push(hunk);
            },
            StreamingParserState::UpdateFile(update) => {
                let mut chunks = copy_chunks(&update.chunks);
                if let Some(chunk) = &update.current_chunk {
                    if chunk_has_lines(chunk) || chunk.is_end_of_file {
                        let chunk = copy_chunk(chunk);
                        proof {
                            lemma_chunks_push(chunks@, chunk);
                        }
                        chunks.push(chunk);
                    }
                }
                if chunks.len() > 0 {
                    let hunk = Hunk::UpdateFile {
                        path: update.path.clone(),
                        move_path: text::copy_optional_text(&update.move_path),
                        chunks,
                    };
                    proof {
                        lemma_hunks_push(hunks@, hunk);
                    }
                    hunks.push(hunk);
                }
            },
            _ => {},
        }
        hunks
    }
}

/// A patch that does not start as one stays invalid.
proof fn lemma_invalid_stays(lines: Seq<Seq<char>>, n: int)
    requires
        0 <= n <= lines.len(),
        model::after_lines(model::nothing_read(), lines.take(n)).state is Invalid,
    ensures
        model::after_lines(model::nothing_read(), lines).state is Invalid,
    decreases lines.len() - n,
{
    if n < lines.len() {
        assert(lines.take(n + 1).drop_last() =~= lines.take(n));
        lemma_invalid_stays(lines, n + 1);
    } else {
        assert(lines.take(n) =~= lines);
    }
}

/// Adds `added` behind the last of the lines.
fn lengthen_last(lines: &mut Vec<String>, added: &str)
    ensures
        text::texts(final(lines)@) == model::with_longer_last(text::texts(old(lines)@), added@),
{
    let ghost before = lines@;
    match lines.pop() {
        Some(mut last) => {
            last.append(added);
            proof {
                lemma_texts_push(lines@, last);
                assert(text::texts(lines@) =~= text::texts(before).drop_last());
            }
            lines.push(last);
        },
        None => {},
    }
}

/// Removes the last character of the last of the lines.
fn shorten_last(lines: &mut Vec<String>)
    ensures
        text::texts(final(lines)@) == model::with_shorter_last(text::texts(old(lines)@)),
{
    let ghost before = lines@;
    match lines.pop() {
        Some(mut last) => {
            last.pop();
            proof {
                lemma_texts_push(lines@, last);
                assert(text::texts(lines@) =~= text::texts(before).drop_last());
            }
            lines.push(last);
        },
        None => {},
    }
}

/// Adds `added` behind the change line that was added last.
fn lengthen_change(chunk: &mut UpdateFileChunk, kind: char, added: &str)
    ensures
        final(chunk)@ == model::with_longer_change(old(chunk)@, kind, added@),
{
    if kind == ' ' || kind == '-' {
        lengthen_last(&mut chunk.old_lines, added);
    }
    if kind == ' ' || kind == '+' {
        lengthen_last(&mut chunk.new_lines, added);
    }
}

/// Removes the last character of the change line that was added last.
fn shorten_change(chunk: &mut UpdateFileChunk, kind: char)
    ensures
        final(chunk)@ == model::with_shorter_change(old(chunk)@, kind),
{
    if kind == ' ' || kind == '-' {
        shorten_last(&mut chunk.old_lines);
    }
    if kind == ' ' || kind == '+' {
        shorten_last(&mut chunk.new_lines);
    }
}

impl UpdateState {
    /// Takes what has newly arrived of a change line.
    fn apply_partial_line(&mut self, line: &Vec<char>, applied: usize)
        requires
            0 < line@.len(),
            applied <= line@.len(),
        ensures
            final(self)@ == model::update_with_partial_line(old(self)@, line@, applied as nat),
    {
        self.can_accept_move = false;
        self.open_chunk_if_none();
        match self.current_chunk.take() {
            Some(mut chunk) => {
                if applied == 0 {
                    let added = text::string_of(line, 1, line.len());
                    assert(added@ =~= line@.skip(1));
                    push_change(&mut chunk, line[0], added.as_str());
                } else {
                    let added = text::string_of(line, applied, line.len());
                    assert(added@ =~= line@.skip(applied as int));
                    lengthen_change(&mut chunk, line[0], added.as_str());
                }
                self.current_chunk = Some(chunk);
            },
            None => {},
        }
    }

    /// Takes back the carriage return at the end of a change line.
    fn drop_carriage_return(&mut self, kind: char)
        ensures
            final(self)@ == (UpdateView {
                current_chunk: match old(self)@.current_chunk {
                    Some(chunk) => Some(model::with_shorter_change(chunk, kind)),
                    None => None,
                },
                ..old(self)@
            }),
    {
        match self.current_chunk.take() {
            Some(mut chunk) => {
                shorten_change(&mut chunk, kind);
                self.current_chunk = Some(chunk);
            },
            None => {},
        }
    }
}

impl StreamingPatchParser {
    /// Takes what has newly arrived of a line that is not complete.
    fn apply_partial_line(&mut self)
        ensures
            final(self)@ == model::with_partial_line(old(self)@),
    {
        proof {
            use_type_invariant(&*self);
        }
        let n: usize = self.line_buffer.len();
        let applied: usize = self.partial_applied_len;
        if n == 0 || applied == n {
            return;
        }
        let kind = self.line_buffer[0];
        match self.take_state() {
            StreamingParserState::AddFile { path, header_line_number, mut contents } => {
                if kind == '+' {
                    let start: usize = if applied == 0 {
                        1
                    } else {
                        applied
                    };
                    let added = text::string_of(&self.line_buffer, start, n);
                    assert(added@ =~= self.line_buffer@.skip(start as int));
                    contents.append(added.as_str());
                    self.partial_applied_len = n;
                }
                self.state = StreamingParserState::AddFile { path, header_line_number, contents };
            },
            StreamingParserState::UpdateFile(mut update) => {
                if kind == ' ' || kind == '+' || kind == '-' {
                    update.apply_partial_line(&self.line_buffer, applied);
                    self.partial_applied_len = n;
                }
                self.state = StreamingParserState::UpdateFile(update);
            },
            other => {
                self.state = other;
            },
        }
    }

    /// Completes a line that was applied as it arrived.
    fn finish_partial_line(&mut self)
        ensures
            final(self)@ == (ParserView {
                line: Seq::empty(),
                applied: 0,
                progress: Progress {
                    state: model::state_with_finished_line(
                        old(self)@.progress.state,
                        old(self)@.line,
                    ),
                    ..old(self)@.progress
                },
                ..old(self)@
            }),
    {
        proof {
            use_type_invariant(&*self);
        }
        let n: usize = self.line_buffer.len();
        let trim_cr = n > 0 && self.line_buffer[n - 1] == '\r';
        self.state = match self.take_state() {
            StreamingParserState::AddFile { path, header_line_number, mut contents } => {
                if trim_cr {
                    contents.pop();
                }
                contents.push('\n');
                StreamingParserState::AddFile { path, header_line_number, contents }
            },
            StreamingParserState::UpdateFile(mut update) => {
                if trim_cr {
                    update.drop_carriage_return(self.line_buffer[0]);
                }
                StreamingParserState::UpdateFile(update)
            },
            other => other,
        };
        self.partial_applied_len = 0;
        self.line_buffer = Vec::new();
    }

    /// Adds a character to the line that is not complete.
    fn push_to_line(&mut self, ch: char)
        ensures
            final(self)@ == (ParserView { line: old(self)@.line.push(ch), ..old(self)@ }),
    {
        proof {
            use_type_invariant(&*self);
        }
        let applied: usize = self.partial_applied_len;
        self.partial_applied_len = 0;
        let mut line: Vec<char> = Vec::new();
        std::mem::swap(&mut line, &mut self.line_buffer);
        line.push(ch);
        self.line_buffer = line;
        self.partial_applied_len = applied;
    }

    /// Takes one character.
    fn push_char(&mut self, ch: char)
        ensures
            final(self)@ == model::after_char(old(self)@, ch),
    {
        proof {
            use_type_invariant(&*self);
        }
        if ch == '\n' {
            if self.partial_applied_len > 0 {
                self.finish_partial_line();
            } else {
                let line = text::string_of(&self.line_buffer, 0, self.line_buffer.len());
                assert(line@ =~= self.line_buffer@);
                self.line_buffer = Vec::new();
                self.process_line(text::trim_end_of(line.as_str(), '\r'));
            }
        } else {
            self.push_to_line(ch);
            self.apply_partial_line();
        }
    }

    /// The hunks so far, where they are not those that were last reported.
    fn snapshot_if_changed(&mut self) -> (r: Option<Vec<Hunk>>)
        ensures
            match r {
                Some(hunks) => model::news(old(self)@) == Some(model::hunk_views(hunks@)),
                None => model::news(old(self)@) is None,
            },
            final(self)@ == model::reported(old(self)@),
    {
        proof {
            use_type_invariant(&*self);
        }
        let snapshot = self.current_hunks();
        if snapshot.len() == 0 || same_hunks(&snapshot, &self.last_snapshot) {
            return None;
        }
        self.last_snapshot = copy_hunks(&snapshot);
        Some(snapshot)
    }

    /// Takes the next piece of the patch, and gives the hunks so far where
    /// there are any and they are not those that were given last.
    pub fn push_delta(&mut self, delta: &str) -> (r: Option<Vec<Hunk>>)
        ensures
            ({
                let arrived = model::after_chars(old(self)@, delta@);
                &&& match r {
                    Some(hunks) => model::news(arrived) == Some(model::hunk_views(hunks@)),
                    None => model::news(arrived) is None,
                }
                &&& final(self)@ == model::reported(arrived)
            }),
    {
        let chars = text::chars_of(delta);
        let ghost start = self@;
        let mut i: usize = 0;
        while i < chars.len()
            invariant
                i <= chars@.len(),
                self@ == model::after_chars(start, chars@.take(i as int)),
            decreases chars.len() - i,
        {
            assert(chars@.take(i + 1).drop_last() =~= chars@.take(i as int));
            self.push_char(chars[i]);
            i = i + 1;
        }
        assert(chars@.take(i as int) =~= delta@);
        self.snapshot_if_changed()
    }
}

} // verus!
