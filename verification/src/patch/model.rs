//! What a patch is made of, and the meaning of each of its lines.

use vstd::prelude::*;
use vstd::string::*;

use crate::text;

verus! {

pub const BEGIN_PATCH_MARKER: &'static str = "*** Begin Patch";

pub const END_PATCH_MARKER: &'static str = "*** End Patch";

pub const ADD_FILE_MARKER: &'static str = "*** Add File: ";

pub const DELETE_FILE_MARKER: &'static str = "*** Delete File: ";

pub const UPDATE_FILE_MARKER: &'static str = "*** Update File: ";

pub const MOVE_TO_MARKER: &'static str = "*** Move to: ";

pub const EOF_MARKER: &'static str = "*** End of File";

pub const CHANGE_CONTEXT_MARKER: &'static str = "@@ ";

pub const EMPTY_CHANGE_CONTEXT_MARKER: &'static str = "@@";

/// A part of a file that an update hunk changes.
#[derive(Debug, PartialEq, Clone)]
pub struct UpdateFileChunk {
    /// A single line of context used to narrow down the position of the chunk
    /// (this is usually a class, method, or function definition.)
    pub change_context: Option<String>,
    /// A contiguous block of lines that should be replaced with `new_lines`.
    /// `old_lines` must occur strictly after `change_context`.
    pub old_lines: Vec<String>,
    pub new_lines: Vec<String>,
    /// If set to true, `old_lines` must occur at the end of the source file.
    /// (Tolerance around trailing newlines should be encouraged.)
    pub is_end_of_file: bool,
}

/// The texts of a chunk.
#[verifier::ext_equal]
pub struct ChunkView {
    pub change_context: Option<Seq<char>>,
    pub old_lines: Seq<Seq<char>>,
    pub new_lines: Seq<Seq<char>>,
    pub is_end_of_file: bool,
}

impl View for UpdateFileChunk {
    type V = ChunkView;

    open spec fn view(&self) -> ChunkView {
        ChunkView {
            change_context: text::text_of(self.change_context),
            old_lines: text::texts(self.old_lines@),
            new_lines: text::texts(self.new_lines@),
            is_end_of_file: self.is_end_of_file,
        }
    }
}

/// The views of a sequence of chunks.
pub open spec fn chunk_views(v: Seq<UpdateFileChunk>) -> Seq<ChunkView> {
    v.map_values(|c: UpdateFileChunk| c@)
}

/// One change of a patch: a file that is added, deleted or updated.
#[derive(Debug, PartialEq, Clone)]
pub enum Hunk {
    AddFile { path: String, contents: String },
    DeleteFile { path: String },
    UpdateFile {
        path: String,
        move_path: Option<String>,
        /// Chunks should be in order, i.e. the `change_context` of one chunk
        /// should occur later in the file than the previous chunk.
        chunks: Vec<UpdateFileChunk>,
    },
}

impl Hunk {
    /// The path affected by this hunk, which is the move destination for a
    /// hunk that renames its file.
    pub fn path(&self) -> (r: &str)
        ensures
            r@ == affected_path(self@),
    {
        match self {
            Hunk::AddFile { path, .. } => path.as_str(),
            Hunk::DeleteFile { path } => path.as_str(),
            Hunk::UpdateFile { path, move_path, .. } => match move_path {
                Some(target) => target.as_str(),
                None => path.as_str(),
            },
        }
    }

    /// The path that this hunk names in its header: where its file stands
    /// before a move. It is what gets resolved against a directory.
    pub fn header_path(&self) -> (r: &str)
        ensures
            r@ == named_path(self@),
    {
        match self {
            Hunk::UpdateFile { path, .. } => path.as_str(),
            Hunk::AddFile { .. } | Hunk::DeleteFile { .. } => self.path(),
        }
    }
}

/// The texts of a hunk.
#[verifier::ext_equal]
pub enum HunkView {
    AddFile { path: Seq<char>, contents: Seq<char> },
    DeleteFile { path: Seq<char> },
    UpdateFile { path: Seq<char>, move_path: Option<Seq<char>>, chunks: Seq<ChunkView> },
}

impl View for Hunk {
    type V = HunkView;

    open spec fn view(&self) -> HunkView {
        match *self {
            Hunk::AddFile { path, contents } => HunkView::AddFile {
                path: path@,
                contents: contents@,
            },
            Hunk::DeleteFile { path } => HunkView::DeleteFile { path: path@ },
            Hunk::UpdateFile { path, move_path, chunks } => HunkView::UpdateFile {
                path: path@,
                move_path: text::text_of(move_path),
                chunks: chunk_views(chunks@),
            },
        }
    }
}

/// The path of the file that the hunk leaves behind, or removes.
pub open spec fn affected_path(hunk: HunkView) -> Seq<char> {
    match hunk {
        HunkView::UpdateFile { move_path: Some(target), .. } => target,
        _ => named_path(hunk),
    }
}

/// The path in the header of the hunk.
pub open spec fn named_path(hunk: HunkView) -> Seq<char> {
    match hunk {
        HunkView::AddFile { path, .. } => path,
        HunkView::DeleteFile { path } => path,
        HunkView::UpdateFile { path, .. } => path,
    }
}

/// The views of a sequence of hunks.
pub open spec fn hunk_views(v: Seq<Hunk>) -> Seq<HunkView> {
    v.map_values(|h: Hunk| h@)
}

/// Why a text is no patch.
#[derive(Debug, PartialEq, Clone)]
pub enum ParseError {
    InvalidPatchError(String),
    InvalidHunkError { message: String, line_number: usize },
}

impl ParseError {
    /// What is wrong, in words.
    pub fn text(&self) -> (r: String)
        ensures
            r@ == error_text(self@),
    {
        let mut r = String::new();
        match self {
            ParseError::InvalidPatchError(message) => {
                r.append("invalid patch: ");
                r.append(message.as_str());
                assert(r@ =~= error_text(self@));
            },
            ParseError::InvalidHunkError { message, line_number } => {
                r.append("invalid hunk at line ");
                r.append(text::decimal_of(*line_number as u64).as_str());
                r.append(", ");
                r.append(message.as_str());
                assert(r@ =~= error_text(self@));
            },
        }
        r
    }
}

/// What is wrong, in words.
pub open spec fn error_text(error: ErrorView) -> Seq<char> {
    match error {
        ErrorView::InvalidPatch(message) => "invalid patch: "@ + message,
        ErrorView::InvalidHunk { message, line_number } => "invalid hunk at line "@
            + text::decimal(line_number as nat) + ", "@ + message,
    }
}

/// The texts of an error.
#[verifier::ext_equal]
pub enum ErrorView {
    InvalidPatch(Seq<char>),
    InvalidHunk { message: Seq<char>, line_number: int },
}

impl View for ParseError {
    type V = ErrorView;

    open spec fn view(&self) -> ErrorView {
        match *self {
            ParseError::InvalidPatchError(message) => ErrorView::InvalidPatch(message@),
            ParseError::InvalidHunkError { message, line_number } => ErrorView::InvalidHunk {
                message: message@,
                line_number: line_number as int,
            },
        }
    }
}

/// The update hunk that is being read.
#[verifier::ext_equal]
pub struct UpdateView {
    pub path: Seq<char>,
    pub header_line_number: int,
    pub move_path: Option<Seq<char>>,
    pub can_accept_move: bool,
    pub chunks: Seq<ChunkView>,
    pub current_chunk: Option<ChunkView>,
}

/// What has been read of a patch, apart from the hunks that are complete.
#[verifier::ext_equal]
pub enum StateView {
    WaitingForBegin,
    BetweenHunks,
    AddFile { path: Seq<char>, header_line_number: int, contents: Seq<char> },
    UpdateFile(UpdateView),
    Finished,
    Invalid,
}

/// What has been read of a patch: the complete hunks, and what follows them.
#[verifier::ext_equal]
pub struct Progress {
    pub hunks: Seq<HunkView>,
    pub state: StateView,
}

/// Nothing has been read yet.
pub open spec fn nothing_read() -> Progress {
    Progress { hunks: Seq::empty(), state: StateView::WaitingForBegin }
}

/// What a line means wherever it stands.
pub enum Marker {
    Begin,
    End,
    Add(Seq<char>),
    Delete(Seq<char>),
    Update(Seq<char>),
    NoMarker,
}

/// The marker that a line is, whatever white space surrounds it.
pub open spec fn marker(line: Seq<char>) -> Marker {
    let t = text::trimmed(line);
    if t == BEGIN_PATCH_MARKER@ {
        Marker::Begin
    } else if t == END_PATCH_MARKER@ {
        Marker::End
    } else if let Some(path) = text::after_prefix(t, ADD_FILE_MARKER@) {
        Marker::Add(path)
    } else if let Some(path) = text::after_prefix(t, DELETE_FILE_MARKER@) {
        Marker::Delete(path)
    } else if let Some(path) = text::after_prefix(t, UPDATE_FILE_MARKER@) {
        Marker::Update(path)
    } else {
        Marker::NoMarker
    }
}

/// The path that a line moves the updated file to.
pub open spec fn move_target(line: Seq<char>) -> Option<Seq<char>> {
    text::after_prefix(text::trimmed(line), MOVE_TO_MARKER@)
}

/// A chunk without lines.
pub open spec fn empty_chunk(change_context: Option<Seq<char>>) -> ChunkView {
    ChunkView {
        change_context,
        old_lines: Seq::empty(),
        new_lines: Seq::empty(),
        is_end_of_file: false,
    }
}

/// The chunk that a line opens.
pub open spec fn opened_chunk(line: Seq<char>) -> Option<ChunkView> {
    let t = text::trimmed(line);
    if t == EMPTY_CHANGE_CONTEXT_MARKER@ {
        Some(empty_chunk(None))
    } else {
        match text::after_prefix(t, CHANGE_CONTEXT_MARKER@) {
            Some(context) => Some(empty_chunk(Some(context))),
            None => None,
        }
    }
}

/// The line marks that the chunk stands at the end of the file.
pub open spec fn is_eof_line(line: Seq<char>) -> bool {
    text::trimmed(line) == EOF_MARKER@
}

/// The chunk has lines to remove or to add.
pub open spec fn has_lines(chunk: ChunkView) -> bool {
    chunk.old_lines.len() > 0 || chunk.new_lines.len() > 0
}

/// The chunk says something about the file.
pub open spec fn is_substantial(chunk: ChunkView) -> bool {
    has_lines(chunk) || chunk.is_end_of_file
}

/// The chunk with `text` among the lines that the first character of a change
/// line names: a space both, a minus the old and a plus the new ones.
pub open spec fn with_change(chunk: ChunkView, kind: char, text: Seq<char>) -> ChunkView {
    ChunkView {
        old_lines: if kind == ' ' || kind == '-' {
            chunk.old_lines.push(text)
        } else {
            chunk.old_lines
        },
        new_lines: if kind == ' ' || kind == '+' {
            chunk.new_lines.push(text)
        } else {
            chunk.new_lines
        },
        ..chunk
    }
}

/// The character starts a change line.
pub open spec fn is_change_kind(c: char) -> bool {
    c == ' ' || c == '+' || c == '-'
}

/// The chunk after one more change line. An empty line stands for an empty
/// line of context; another line that starts with none of the three
/// characters is no change line.
pub open spec fn with_change_line(chunk: ChunkView, line: Seq<char>) -> Option<ChunkView> {
    if line.len() == 0 {
        Some(with_change(chunk, ' ', line))
    } else if is_change_kind(line[0]) {
        Some(with_change(chunk, line[0], line.skip(1)))
    } else {
        None
    }
}

/// The chunks with the open chunk behind them, unless it says nothing.
pub open spec fn with_open_chunk(
    chunks: Seq<ChunkView>,
    current_chunk: Option<ChunkView>,
) -> Seq<ChunkView> {
    match current_chunk {
        Some(chunk) => if is_substantial(chunk) {
            chunks.push(chunk)
        } else {
            chunks
        },
        None => chunks,
    }
}

/// The update hunk as it starts with its header.
pub open spec fn started_update(path: Seq<char>, header_line_number: int) -> UpdateView {
    UpdateView {
        path,
        header_line_number,
        move_path: None,
        can_accept_move: true,
        chunks: Seq::empty(),
        current_chunk: None,
    }
}

/// The update hunk with what has been read of it.
pub open spec fn update_hunk(u: UpdateView, chunks: Seq<ChunkView>) -> HunkView {
    HunkView::UpdateFile { path: u.path, move_path: u.move_path, chunks }
}

/// The hunk that is being read, as far as it says something.
pub open spec fn open_hunk(state: StateView) -> Option<HunkView> {
    match state {
        StateView::AddFile { path, contents, .. } => Some(HunkView::AddFile { path, contents }),
        StateView::UpdateFile(u) => {
            let chunks = with_open_chunk(u.chunks, u.current_chunk);
            if chunks.len() > 0 {
                Some(update_hunk(u, chunks))
            } else {
                None
            }
        },
        _ => None,
    }
}

/// The hunks with the open hunk behind them, if it says something.
pub open spec fn all_hunks(p: Progress) -> Seq<HunkView> {
    match open_hunk(p.state) {
        Some(hunk) => p.hunks.push(hunk),
        None => p.hunks,
    }
}

/// A hunk is being read.
pub open spec fn in_hunk(state: StateView) -> bool {
    state is AddFile || state is UpdateFile
}

/// The open hunk is taken as complete, and dropped where it says nothing.
pub open spec fn closed_hunk(p: Progress) -> Progress {
    if in_hunk(p.state) {
        Progress { hunks: all_hunks(p), state: StateView::BetweenHunks }
    } else {
        p
    }
}

/// A hunk starts.
pub open spec fn with_started_hunk(p: Progress, m: Marker, line_number: int) -> Progress {
    match m {
        Marker::Add(path) => Progress {
            state: StateView::AddFile {
                path,
                header_line_number: line_number,
                contents: Seq::empty(),
            },
            ..p
        },
        Marker::Delete(path) => Progress {
            hunks: p.hunks.push(HunkView::DeleteFile { path }),
            state: StateView::BetweenHunks,
        },
        Marker::Update(path) => Progress {
            state: StateView::UpdateFile(started_update(path, line_number)),
            ..p
        },
        _ => p,
    }
}

/// The update hunk after a line that is no marker, whatever the line holds.
pub open spec fn update_after_line(u: UpdateView, line: Seq<char>) -> UpdateView {
    if u.can_accept_move && u.move_path is None && move_target(line) is Some {
        UpdateView { move_path: move_target(line), ..u }
    } else if let Some(chunk) = opened_chunk(line) {
        UpdateView {
            can_accept_move: false,
            chunks: with_open_chunk(u.chunks, u.current_chunk),
            current_chunk: Some(chunk),
            ..u
        }
    } else if is_eof_line(line) {
        UpdateView {
            can_accept_move: false,
            chunks: match u.current_chunk {
                Some(chunk) => u.chunks.push(ChunkView { is_end_of_file: true, ..chunk }),
                None => u.chunks,
            },
            current_chunk: None,
            ..u
        }
    } else {
        let chunk = match u.current_chunk {
            Some(chunk) => chunk,
            None => empty_chunk(None),
        };
        UpdateView {
            can_accept_move: false,
            current_chunk: match with_change_line(chunk, line) {
                Some(changed) => Some(changed),
                None => Some(chunk),
            },
            ..u
        }
    }
}

/// What has been read after one more line, where the patch may still be on
/// its way: what cannot be understood is passed over.
pub open spec fn after_line(p: Progress, line: Seq<char>) -> Progress {
    let m = marker(line);
    if p.state is Finished || p.state is Invalid {
        p
    } else if p.state is WaitingForBegin {
        Progress {
            state: if m is Begin {
                StateView::BetweenHunks
            } else {
                StateView::Invalid
            },
            ..p
        }
    } else if m is Begin {
        p
    } else if m is End {
        Progress { state: StateView::Finished, ..closed_hunk(p) }
    } else if m !is NoMarker {
        with_started_hunk(closed_hunk(p), m, 0)
    } else {
        match p.state {
            StateView::AddFile { path, header_line_number, contents } => if line.len() > 0
                && line[0] == '+' {
                Progress {
                    state: StateView::AddFile {
                        path,
                        header_line_number,
                        contents: (contents + line.skip(1)).push('\n'),
                    },
                    ..p
                }
            } else {
                p
            },
            StateView::UpdateFile(u) => Progress {
                state: StateView::UpdateFile(update_after_line(u, line)),
                ..p
            },
            _ => p,
        }
    }
}

/// The text does not start as a patch does.
pub const FIRST_LINE_ERROR: &'static str = "The first line of the patch must be '*** Begin Patch'";

/// The text does not end as a patch does.
pub const LAST_LINE_ERROR: &'static str = "The last line of the patch must be '*** End Patch'";

pub const EMPTY_CHUNK_ERROR: &'static str = "Update hunk does not contain any lines";

pub open spec fn header_error(line: Seq<char>, line_number: int) -> ErrorView {
    ErrorView::InvalidHunk {
        message: "'"@ + line
            + "' is not a valid hunk header. Valid hunk headers: '*** Add File: {path}', '*** Delete File: {path}', '*** Update File: {path}'"@,
        line_number,
    }
}

pub open spec fn empty_add_error(path: Seq<char>, line_number: int) -> ErrorView {
    ErrorView::InvalidHunk {
        message: "Add file hunk for path '"@ + path + "' is empty"@,
        line_number,
    }
}

pub open spec fn empty_update_error(path: Seq<char>, line_number: int) -> ErrorView {
    ErrorView::InvalidHunk {
        message: "Update file hunk for path '"@ + path + "' is empty"@,
        line_number,
    }
}

pub open spec fn missing_context_error(line: Seq<char>, line_number: int) -> ErrorView {
    ErrorView::InvalidHunk {
        message: "Expected update hunk to start with a @@ context marker, got: '"@ + line + "'"@,
        line_number,
    }
}

pub open spec fn unexpected_line_error(line: Seq<char>, line_number: int) -> ErrorView {
    ErrorView::InvalidHunk {
        message: "Unexpected line found in update hunk: '"@ + line
            + "'. Every line should start with ' ' (context line), '+' (added line), or '-' (removed line)"@,
        line_number,
    }
}

pub open spec fn empty_chunk_error(line_number: int) -> ErrorView {
    ErrorView::InvalidHunk { message: EMPTY_CHUNK_ERROR@, line_number }
}

/// There is an open chunk, and it says nothing.
pub open spec fn open_chunk_is_empty(current_chunk: Option<ChunkView>) -> bool {
    match current_chunk {
        Some(chunk) => !is_substantial(chunk),
        None => false,
    }
}

/// The open hunk is complete, or has to be refused: it has to add a line, or to
/// change one.
pub open spec fn completed_hunk(p: Progress) -> Result<Progress, ErrorView> {
    match p.state {
        StateView::AddFile { path, header_line_number, contents } => if contents.len() == 0 {
            Err(empty_add_error(path, header_line_number))
        } else {
            Ok(closed_hunk(p))
        },
        StateView::UpdateFile(u) => if open_chunk_is_empty(u.current_chunk) {
            Err(empty_chunk_error(u.header_line_number))
        } else if with_open_chunk(u.chunks, u.current_chunk).len() == 0 {
            Err(empty_update_error(u.path, u.header_line_number))
        } else {
            Ok(closed_hunk(p))
        },
        _ => Ok(closed_hunk(p)),
    }
}

/// What has been read once the open hunk was refused, which is then gone.
pub open spec fn without_open_hunk(p: Progress) -> Progress {
    Progress { state: StateView::BetweenHunks, ..p }
}

/// The error for a line that can only be the header of another hunk or of
/// another chunk.
pub open spec fn stray_line_error(line: Seq<char>, line_number: int) -> ErrorView {
    if line.len() > 0 && line[0] == '*' {
        header_error(text::trimmed(line), line_number)
    } else {
        missing_context_error(line, line_number)
    }
}

/// The update hunk after a line that is no marker, or why the line is refused.
pub open spec fn update_after_complete_line(
    u: UpdateView,
    line: Seq<char>,
    line_number: int,
) -> Result<UpdateView, ErrorView> {
    if u.can_accept_move && u.move_path is None && move_target(line) is Some {
        Ok(update_after_line(u, line))
    } else if opened_chunk(line) is Some {
        if open_chunk_is_empty(u.current_chunk) {
            Err(empty_chunk_error(line_number))
        } else {
            Ok(update_after_line(u, line))
        }
    } else if is_eof_line(line) {
        match u.current_chunk {
            None => Err(missing_context_error(line, line_number)),
            Some(chunk) => if has_lines(chunk) {
                Ok(update_after_line(u, line))
            } else {
                Err(empty_chunk_error(line_number))
            },
        }
    } else {
        match u.current_chunk {
            None => if text::trimmed(line).len() == 0 {
                Ok(UpdateView { can_accept_move: false, ..u })
            } else if u.chunks.len() > 0 {
                Err(stray_line_error(line, line_number))
            } else if with_change_line(empty_chunk(None), line) is Some {
                Ok(update_after_line(u, line))
            } else {
                Err(unexpected_line_error(line, line_number))
            },
            Some(chunk) => if with_change_line(chunk, line) is Some {
                Ok(update_after_line(u, line))
            } else if has_lines(chunk) {
                Err(stray_line_error(line, line_number))
            } else {
                Err(unexpected_line_error(line, line_number))
            },
        }
    }
}

/// The update hunk after a line that was refused. The chunk that the line would
/// have ended is closed, and one that it would have started is open.
pub open spec fn update_after_refused_line(u: UpdateView, line: Seq<char>) -> UpdateView {
    let v = UpdateView { can_accept_move: false, ..u };
    if opened_chunk(line) is Some {
        UpdateView { current_chunk: None, ..v }
    } else if is_eof_line(line) {
        v
    } else {
        match u.current_chunk {
            None => if u.chunks.len() > 0 {
                v
            } else {
                UpdateView { current_chunk: Some(empty_chunk(None)), ..v }
            },
            Some(chunk) => if has_lines(chunk) {
                UpdateView { chunks: u.chunks.push(chunk), current_chunk: None, ..v }
            } else {
                v
            },
        }
    }
}

/// What has been read of a patch that is all there after a line that was
/// refused. A hunk that the line would have ended is gone where it was to
/// blame; an add hunk that a stray line ended is complete.
pub open spec fn after_refused_line(p: Progress, line: Seq<char>) -> Progress {
    let m = marker(line);
    if !in_hunk(p.state) || m is Begin {
        p
    } else if m !is NoMarker {
        without_open_hunk(p)
    } else {
        match p.state {
            StateView::UpdateFile(u) => Progress {
                state: StateView::UpdateFile(update_after_refused_line(u, line)),
                ..p
            },
            _ => closed_hunk(p),
        }
    }
}

/// What has been read after one more line of a patch that is all there, or
/// why the line is refused.
pub open spec fn after_complete_line(
    p: Progress,
    line: Seq<char>,
    line_number: int,
) -> Result<Progress, ErrorView> {
    let m = marker(line);
    if p.state is Finished {
        Err(header_error(text::trimmed(line), line_number))
    } else if p.state is WaitingForBegin {
        if m is Begin {
            Ok(Progress { state: StateView::BetweenHunks, ..p })
        } else {
            Err(ErrorView::InvalidPatch(FIRST_LINE_ERROR@))
        }
    } else if m is Begin {
        Err(header_error(text::trimmed(line), line_number))
    } else if m is End {
        match completed_hunk(p) {
            Ok(closed) => Ok(Progress { state: StateView::Finished, ..closed }),
            Err(error) => Err(error),
        }
    } else if m !is NoMarker {
        match completed_hunk(p) {
            Ok(closed) => Ok(with_started_hunk(closed, m, line_number)),
            Err(error) => Err(error),
        }
    } else {
        match p.state {
            StateView::AddFile { .. } => if line.len() > 0 && line[0] == '+' {
                Ok(after_line(p, line))
            } else {
                Err(header_error(text::trimmed(line), line_number))
            },
            StateView::UpdateFile(u) => match update_after_complete_line(u, line, line_number) {
                Ok(updated) => Ok(Progress { state: StateView::UpdateFile(updated), ..p }),
                Err(error) => Err(error),
            },
            _ => Err(header_error(text::trimmed(line), line_number)),
        }
    }
}

/// What has been read after the lines, of which the first has the number
/// `first_number`, or why one of them is refused.
pub open spec fn after_complete_lines(
    p: Progress,
    lines: Seq<Seq<char>>,
    first_number: int,
) -> Result<Progress, ErrorView>
    decreases lines.len(),
{
    if lines.len() == 0 {
        Ok(p)
    } else {
        match after_complete_line(p, text::without_trailing(lines.first(), '\r'), first_number) {
            Ok(next) => after_complete_lines(next, lines.drop_first(), first_number + 1),
            Err(error) => Err(error),
        }
    }
}

/// The hunks of a patch with these lines, or why it is no patch.
pub open spec fn complete_hunks(lines: Seq<Seq<char>>) -> Result<Seq<HunkView>, ErrorView> {
    match after_complete_lines(nothing_read(), lines, 1) {
        Err(error) => Err(error),
        Ok(p) => match p.state {
            StateView::Finished => Ok(p.hunks),
            StateView::WaitingForBegin => Err(ErrorView::InvalidPatch(FIRST_LINE_ERROR@)),
            _ => Err(ErrorView::InvalidPatch(LAST_LINE_ERROR@)),
        },
    }
}

/// What has been read after the lines of a patch that may still be on its way.
pub open spec fn after_lines(p: Progress, lines: Seq<Seq<char>>) -> Progress
    decreases lines.len(),
{
    if lines.len() == 0 {
        p
    } else {
        after_line(after_lines(p, lines.drop_last()), text::without_trailing(lines.last(), '\r'))
    }
}

/// A parser that takes a patch as it arrives.
#[verifier::ext_equal]
pub struct ParserView {
    /// The characters of the line that is not complete.
    pub line: Seq<char>,
    /// How many of them `progress` already holds.
    pub applied: nat,
    pub progress: Progress,
    /// The hunks that were last reported.
    pub last_snapshot: Seq<HunkView>,
}

/// The parser before the first character.
pub open spec fn nothing_arrived() -> ParserView {
    ParserView {
        line: Seq::empty(),
        applied: 0,
        progress: nothing_read(),
        last_snapshot: Seq::empty(),
    }
}

/// The lines with `text` behind the last of them.
pub open spec fn with_longer_last(lines: Seq<Seq<char>>, text: Seq<char>) -> Seq<Seq<char>> {
    if lines.len() == 0 {
        lines
    } else {
        lines.drop_last().push(lines.last() + text)
    }
}

/// `s` without its last character.
pub open spec fn without_last(s: Seq<char>) -> Seq<char> {
    if s.len() == 0 {
        s
    } else {
        s.drop_last()
    }
}

/// The lines without the last character of the last of them.
pub open spec fn with_shorter_last(lines: Seq<Seq<char>>) -> Seq<Seq<char>> {
    if lines.len() == 0 {
        lines
    } else {
        lines.drop_last().push(without_last(lines.last()))
    }
}

/// The chunk with `text` behind the change line that was added last.
pub open spec fn with_longer_change(chunk: ChunkView, kind: char, text: Seq<char>) -> ChunkView {
    ChunkView {
        old_lines: if kind == ' ' || kind == '-' {
            with_longer_last(chunk.old_lines, text)
        } else {
            chunk.old_lines
        },
        new_lines: if kind == ' ' || kind == '+' {
            with_longer_last(chunk.new_lines, text)
        } else {
            chunk.new_lines
        },
        ..chunk
    }
}

/// The chunk without the last character of the change line that was added last.
pub open spec fn with_shorter_change(chunk: ChunkView, kind: char) -> ChunkView {
    ChunkView {
        old_lines: if kind == ' ' || kind == '-' {
            with_shorter_last(chunk.old_lines)
        } else {
            chunk.old_lines
        },
        new_lines: if kind == ' ' || kind == '+' {
            with_shorter_last(chunk.new_lines)
        } else {
            chunk.new_lines
        },
        ..chunk
    }
}

/// The update hunk with what has newly arrived of a change line, of which
/// `applied` characters were applied before.
pub open spec fn update_with_partial_line(u: UpdateView, line: Seq<char>, applied: nat) -> UpdateView {
    let chunk = match u.current_chunk {
        Some(chunk) => chunk,
        None => empty_chunk(None),
    };
    UpdateView {
        can_accept_move: false,
        current_chunk: Some(
            if applied == 0 {
                with_change(chunk, line[0], line.skip(1))
            } else {
                with_longer_change(chunk, line[0], line.skip(applied as int))
            },
        ),
        ..u
    }
}

/// The state with what has newly arrived of a line, where the line can be
/// understood before it is complete.
pub open spec fn state_with_partial_line(
    state: StateView,
    line: Seq<char>,
    applied: nat,
) -> Option<StateView> {
    if line.len() == 0 || applied == line.len() {
        None
    } else {
        match state {
            StateView::AddFile { path, header_line_number, contents } => if line[0] == '+' {
                Some(
                    StateView::AddFile {
                        path,
                        header_line_number,
                        contents: contents + line.skip(
                            if applied == 0 {
                                1
                            } else {
                                applied as int
                            },
                        ),
                    },
                )
            } else {
                None
            },
            StateView::UpdateFile(u) => if is_change_kind(line[0]) {
                Some(StateView::UpdateFile(update_with_partial_line(u, line, applied)))
            } else {
                None
            },
            _ => None,
        }
    }
}

/// The parser with what has newly arrived of a line.
pub open spec fn with_partial_line(p: ParserView) -> ParserView {
    match state_with_partial_line(p.progress.state, p.line, p.applied) {
        Some(state) => ParserView {
            applied: p.line.len(),
            progress: Progress { state, ..p.progress },
            ..p
        },
        None => p,
    }
}

/// The state once a line is complete that was applied as it arrived. A
/// carriage return at its end is taken back.
pub open spec fn state_with_finished_line(state: StateView, line: Seq<char>) -> StateView {
    let carriage_return = line.len() > 0 && line.last() == '\r';
    match state {
        StateView::AddFile { path, header_line_number, contents } => StateView::AddFile {
            path,
            header_line_number,
            contents: (if carriage_return {
                without_last(contents)
            } else {
                contents
            }).push('\n'),
        },
        StateView::UpdateFile(u) => match u.current_chunk {
            Some(chunk) => if carriage_return {
                StateView::UpdateFile(
                    UpdateView {
                        current_chunk: Some(with_shorter_change(chunk, line[0])),
                        ..u
                    },
                )
            } else {
                state
            },
            None => state,
        },
        _ => state,
    }
}

/// The parser after one more character.
pub open spec fn after_char(p: ParserView, c: char) -> ParserView {
    if c != '\n' {
        with_partial_line(ParserView { line: p.line.push(c), ..p })
    } else {
        ParserView {
            line: Seq::empty(),
            applied: 0,
            progress: if p.applied > 0 {
                Progress {
                    state: state_with_finished_line(p.progress.state, p.line),
                    ..p.progress
                }
            } else {
                after_line(p.progress, text::without_trailing(p.line, '\r'))
            },
            ..p
        }
    }
}

/// The parser after more characters.
pub open spec fn after_chars(p: ParserView, delta: Seq<char>) -> ParserView
    decreases delta.len(),
{
    if delta.len() == 0 {
        p
    } else {
        after_char(after_chars(p, delta.drop_last()), delta.last())
    }
}

/// The state as it would be if the line that is arriving ended here.
pub open spec fn state_to_report(p: ParserView) -> StateView {
    match p.progress.state {
        StateView::AddFile { path, header_line_number, contents } => StateView::AddFile {
            path,
            header_line_number,
            contents: if p.applied > 0 && p.line.len() > 0 && p.line[0] == '+' {
                contents.push('\n')
            } else {
                contents
            },
        },
        _ => p.progress.state,
    }
}

/// The hunks that have arrived so far, the last of them perhaps in part.
pub open spec fn hunks_so_far(p: ParserView) -> Seq<HunkView> {
    all_hunks(Progress { state: state_to_report(p), ..p.progress })
}

/// The hunks to report: those so far, where there are any and they are not
/// those that were last reported.
pub open spec fn news(p: ParserView) -> Option<Seq<HunkView>> {
    let hunks = hunks_so_far(p);
    if hunks.len() == 0 || hunks == p.last_snapshot {
        None
    } else {
        Some(hunks)
    }
}

/// The parser once its news have been reported.
pub open spec fn reported(p: ParserView) -> ParserView {
    match news(p) {
        Some(hunks) => ParserView { last_snapshot: hunks, ..p },
        None => p,
    }
}

} // verus!
