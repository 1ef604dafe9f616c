//! What each line of a patch does, and why a line is refused.

use vstd::prelude::*;

use crate::patch::grammar;
use crate::patch::laws;
use crate::patch::model;
use crate::patch::model::ChunkView;
use crate::patch::model::ErrorView;
use crate::patch::model::HunkView;
use crate::patch::model::Marker;
use crate::patch::model::ParserView;
use crate::patch::model::Progress;
use crate::patch::model::StateView;
use crate::patch::model::UpdateView;
use crate::text;

verus! {

/// A line within an open chunk adds exactly one text: an empty line and one that
/// starts with a space add what follows the space to the old lines and to the new
/// ones, a minus to the old ones alone and a plus to the new ones alone. Nothing
/// else of the hunk changes, whether the patch is all there or still arrives.
pub proof fn law_change_line_adds_one(
    p: Progress,
    u: UpdateView,
    chunk: ChunkView,
    line: Seq<char>,
    line_number: int,
)
    requires
        p.state == StateView::UpdateFile(u),
        u.current_chunk == Some(chunk),
        line.len() > 0 ==> line[0] == ' ' || line[0] == '+' || line[0] == '-',
        line.len() > 0 && line[0] == ' ' ==> {
            &&& model::marker(line) is NoMarker
            &&& model::opened_chunk(line) is None
            &&& !model::is_eof_line(line)
            &&& model::move_target(line) is None
        },
    ensures
        ({
            let rest = if line.len() == 0 {
                line
            } else {
                line.skip(1)
            };
            let in_old = line.len() == 0 || line[0] == ' ' || line[0] == '-';
            let in_new = line.len() == 0 || line[0] == ' ' || line[0] == '+';
            let after = Progress {
                state: StateView::UpdateFile(
                    UpdateView {
                        can_accept_move: false,
                        current_chunk: Some(
                            ChunkView {
                                old_lines: if in_old {
                                    chunk.old_lines.push(rest)
                                } else {
                                    chunk.old_lines
                                },
                                new_lines: if in_new {
                                    chunk.new_lines.push(rest)
                                } else {
                                    chunk.new_lines
                                },
                                ..chunk
                            },
                        ),
                        ..u
                    },
                ),
                ..p
            };
            &&& model::after_complete_line(p, line, line_number) == Ok::<Progress, ErrorView>(after)
            &&& model::after_line(p, line) == after
        }),
{
    if line.len() == 0 {
        laws::lemma_empty_line(line);
    } else if line[0] != ' ' {
        laws::lemma_no_marker(line);
    }
}

/// An empty line within a chunk means the same as a line with a single space.
pub proof fn law_empty_line_is_empty_context(
    p: Progress,
    u: UpdateView,
    chunk: ChunkView,
    line_number: int,
)
    requires
        p.state == StateView::UpdateFile(u),
        u.current_chunk == Some(chunk),
    ensures
        model::after_complete_line(p, Seq::empty(), line_number) == model::after_complete_line(
            p,
            seq![' '],
            line_number,
        ),
        model::after_line(p, Seq::empty()) == model::after_line(p, seq![' ']),
{
    let space = seq![' '];
    let nothing = Seq::<char>::empty();
    laws::lemma_empty_line(nothing);
    assert(text::is_white_space(' '));
    assert(space.drop_first() =~= nothing);
    assert(text::trim_start(space) =~= nothing);
    assert(text::trimmed(space) =~= text::trimmed(nothing));
    assert(space.skip(1) =~= nothing);
}

/// The first change of an update hunk opens a chunk without a context, where none
/// is open. The line must not be blank.
pub proof fn law_first_change_opens_a_chunk(
    p: Progress,
    u: UpdateView,
    line: Seq<char>,
    line_number: int,
)
    requires
        p.state == StateView::UpdateFile(u),
        u.current_chunk is None,
        u.chunks.len() == 0,
        line.len() > 0,
        line[0] == '+' || line[0] == '-',
    ensures
        ({
            let after = Progress {
                state: StateView::UpdateFile(
                    UpdateView {
                        can_accept_move: false,
                        current_chunk: Some(
                            ChunkView {
                                change_context: None,
                                old_lines: if line[0] == '-' {
                                    seq![line.skip(1)]
                                } else {
                                    Seq::empty()
                                },
                                new_lines: if line[0] == '+' {
                                    seq![line.skip(1)]
                                } else {
                                    Seq::empty()
                                },
                                is_end_of_file: false,
                            },
                        ),
                        ..u
                    },
                ),
                ..p
            };
            &&& model::after_complete_line(p, line, line_number) == Ok::<Progress, ErrorView>(after)
            &&& model::after_line(p, line) == after
        }),
{
    laws::lemma_no_marker(line);
    text::lemma_trimmed_keeps_first(line);
    let none = Seq::<Seq<char>>::empty();
    assert(none.push(line.skip(1)) =~= seq![line.skip(1)]);
}

/// A line that adds to a file adds what follows the plus, and a line feed.
pub proof fn law_added_line(p: Progress, path: Seq<char>, n: int, contents: Seq<char>, added: Seq<
    char,
>, line_number: int)
    requires
        p.state == (StateView::AddFile { path, header_line_number: n, contents }),
    ensures
        ({
            let line = seq!['+'] + added;
            let after = Progress {
                state: StateView::AddFile {
                    path,
                    header_line_number: n,
                    contents: contents + added + seq!['\n'],
                },
                ..p
            };
            &&& model::after_complete_line(p, line, line_number) == Ok::<Progress, ErrorView>(after)
            &&& model::after_line(p, line) == after
        }),
{
    let line = seq!['+'] + added;
    assert(line[0] == '+');
    laws::lemma_no_marker(line);
    assert(line.skip(1) =~= added);
    assert((contents + added).push('\n') =~= contents + added + seq!['\n']);
}

/// What is wrong with a line that should be the header of a hunk.
pub open spec fn says_no_header(error: ErrorView, line: Seq<char>, line_number: int) -> bool {
    error == (ErrorView::InvalidHunk {
        message: "'"@ + text::trimmed(line)
            + "' is not a valid hunk header. Valid hunk headers: '*** Add File: {path}', '*** Delete File: {path}', '*** Update File: {path}'"@,
        line_number,
    })
}

/// Between hunks and in an add hunk, a line that means nothing is refused, and so
/// is any line behind the end of the patch. While a patch arrives, such a line is
/// passed over.
pub proof fn law_stray_line_is_refused(p: Progress, line: Seq<char>, line_number: int)
    requires
        p.state is Finished || (model::marker(line) is NoMarker && (p.state is BetweenHunks || (
        p.state is AddFile && (line.len() == 0 || line[0] != '+')))),
    ensures
        model::after_complete_line(p, line, line_number) is Err,
        says_no_header(
            model::after_complete_line(p, line, line_number)->Err_0,
            line,
            line_number,
        ),
        model::after_line(p, line) == p,
{
}

/// A patch starts with its begin marker: any other first line is refused, and while
/// a patch arrives nothing is read after it.
pub proof fn law_patch_starts_with_its_marker(line: Seq<char>, line_number: int)
    ensures
        text::trimmed(line) != "*** Begin Patch"@ ==> {
            &&& model::after_complete_line(model::nothing_read(), line, line_number) == Err::<
                Progress,
                ErrorView,
            >(
                ErrorView::InvalidPatch(
                    "The first line of the patch must be '*** Begin Patch'"@,
                ),
            )
            &&& model::after_line(model::nothing_read(), line) == (Progress {
                hunks: Seq::empty(),
                state: StateView::Invalid,
            })
        },
        text::trimmed(line) == "*** Begin Patch"@ ==> {
            let begun = Progress { hunks: Seq::empty(), state: StateView::BetweenHunks };
            &&& model::after_complete_line(model::nothing_read(), line, line_number) == Ok::<
                Progress,
                ErrorView,
            >(begun)
            &&& model::after_line(model::nothing_read(), line) == begun
        },
{
}

/// Nothing changes any more once the patch is at its end, or did not start as one.
pub proof fn law_nothing_follows(p: ParserView, delta: Seq<char>)
    requires
        p.progress.state is Finished || p.progress.state is Invalid,
        p.applied == 0,
    ensures
        model::after_chars(p, delta).progress == p.progress,
        model::after_chars(p, delta).applied == 0,
        model::hunks_so_far(model::after_chars(p, delta)) == p.progress.hunks,
    decreases delta.len(),
{
    if delta.len() > 0 {
        law_nothing_follows(p, delta.drop_last());
    }
}

/// In an update hunk, a line that is no marker, no header of a chunk, no move and
/// not the end of the file is refused unless it is a change. The words tell what was
/// expected. While a patch arrives, what is shown stays the same.
pub proof fn law_stray_line_in_update_is_refused(
    p: Progress,
    u: UpdateView,
    line: Seq<char>,
    line_number: int,
)
    requires
        p.state == StateView::UpdateFile(u),
        model::marker(line) is NoMarker,
        model::move_target(line) is None,
        model::opened_chunk(line) is None,
        !model::is_eof_line(line),
        line.len() > 0,
        line[0] != ' ',
        line[0] != '+',
        line[0] != '-',
        text::trimmed(line).len() > 0,
    ensures
        ({
            let r = model::after_complete_line(p, line, line_number);
            let has_changes = match u.current_chunk {
                Some(chunk) => chunk.old_lines.len() > 0 || chunk.new_lines.len() > 0,
                None => u.chunks.len() > 0,
            };
            &&& r is Err
            &&& has_changes && line[0] == '*' ==> says_no_header(r->Err_0, line, line_number)
            &&& has_changes && line[0] != '*' ==> r->Err_0 == (ErrorView::InvalidHunk {
                message: "Expected update hunk to start with a @@ context marker, got: '"@ + line
                    + "'"@,
                line_number,
            })
            &&& !has_changes ==> r->Err_0 == (ErrorView::InvalidHunk {
                message: "Unexpected line found in update hunk: '"@ + line
                    + "'. Every line should start with ' ' (context line), '+' (added line), or '-' (removed line)"@,
                line_number,
            })
        }),
        model::all_hunks(model::after_line(p, line)) == model::all_hunks(p),
{
}

/// Behind the end of the file, a change needs the header of another chunk, and a
/// blank line is passed over.
pub proof fn law_change_needs_a_chunk(
    p: Progress,
    u: UpdateView,
    line: Seq<char>,
    line_number: int,
)
    requires
        p.state == StateView::UpdateFile(u),
        u.current_chunk is None,
        u.chunks.len() > 0,
    ensures
        line.len() > 0 && (line[0] == '+' || line[0] == '-') ==> model::after_complete_line(
            p,
            line,
            line_number,
        ) == Err::<Progress, ErrorView>(
            ErrorView::InvalidHunk {
                message: "Expected update hunk to start with a @@ context marker, got: '"@ + line
                    + "'"@,
                line_number,
            },
        ),
        line.len() == 0 ==> model::after_complete_line(p, line, line_number) == Ok::<
            Progress,
            ErrorView,
        >(
            Progress {
                state: StateView::UpdateFile(UpdateView { can_accept_move: false, ..u }),
                ..p
            },
        ),
{
    if line.len() == 0 {
        laws::lemma_empty_line(line);
    } else if line[0] == '+' || line[0] == '-' {
        laws::lemma_no_marker(line);
        text::lemma_trimmed_keeps_first(line);
    }
}

/// The header of a chunk closes the chunk before it, which must have a line, and
/// opens one with the context that it names.
pub proof fn law_chunk_header(
    p: Progress,
    u: UpdateView,
    context: Option<Seq<char>>,
    line_number: int,
)
    requires
        p.state == StateView::UpdateFile(u),
        context matches Some(name) ==> name.len() > 0 && !text::is_white_space(name.last()),
        u.current_chunk matches Some(chunk) ==> !chunk.is_end_of_file,
    ensures
        ({
            let line = match context {
                Some(name) => "@@ "@ + name,
                None => "@@"@,
            };
            let opened = ChunkView {
                change_context: context,
                old_lines: Seq::empty(),
                new_lines: Seq::empty(),
                is_end_of_file: false,
            };
            let r = model::after_complete_line(p, line, line_number);
            let after = |chunks: Seq<ChunkView>|
                Progress {
                    state: StateView::UpdateFile(
                        UpdateView {
                            can_accept_move: false,
                            chunks,
                            current_chunk: Some(opened),
                            ..u
                        },
                    ),
                    ..p
                };
            match u.current_chunk {
                None => {
                    &&& r == Ok::<Progress, ErrorView>(after(u.chunks))
                    &&& model::after_line(p, line) == after(u.chunks)
                },
                Some(chunk) => if chunk.old_lines.len() > 0 || chunk.new_lines.len() > 0 {
                    &&& r == Ok::<Progress, ErrorView>(after(u.chunks.push(chunk)))
                    &&& model::after_line(p, line) == after(u.chunks.push(chunk))
                } else {
                    &&& r == Err::<Progress, ErrorView>(
                        ErrorView::InvalidHunk {
                            message: "Update hunk does not contain any lines"@,
                            line_number,
                        },
                    )
                    &&& model::after_line(p, line) == after(u.chunks)
                },
            }
        }),
{
    grammar::lemma_chunk_header(context);
    assert(grammar::header_lines(Some(context))[0] == match context {
        Some(name) => "@@ "@ + name,
        None => "@@"@,
    });
}

/// The end of the file closes the chunk before it, which must have a line, and marks
/// it.
pub proof fn law_end_of_file(p: Progress, u: UpdateView, line_number: int)
    requires
        p.state == StateView::UpdateFile(u),
    ensures
        ({
            let line = "*** End of File"@;
            let r = model::after_complete_line(p, line, line_number);
            match u.current_chunk {
                None => r == Err::<Progress, ErrorView>(
                    ErrorView::InvalidHunk {
                        message: "Expected update hunk to start with a @@ context marker, got: '"@
                            + line + "'"@,
                        line_number,
                    },
                ),
                Some(chunk) => if chunk.old_lines.len() > 0 || chunk.new_lines.len() > 0 {
                    let after = Progress {
                        state: StateView::UpdateFile(
                            UpdateView {
                                can_accept_move: false,
                                chunks: u.chunks.push(ChunkView { is_end_of_file: true, ..chunk }),
                                current_chunk: None,
                                ..u
                            },
                        ),
                        ..p
                    };
                    &&& r == Ok::<Progress, ErrorView>(after)
                    &&& model::after_line(p, line) == after
                } else {
                    r == Err::<Progress, ErrorView>(
                        ErrorView::InvalidHunk {
                            message: "Update hunk does not contain any lines"@,
                            line_number,
                        },
                    )
                },
            }
        }),
{
    grammar::lemma_eof_line();
}

/// A hunk that is ended by the next header, or by the end of the patch, is complete
/// as it was read. An add hunk must add a line, an update hunk must change something
/// and each of its chunks must have a line; the error then names the line of the
/// header.
pub proof fn law_ended_hunk(p: Progress, line: Seq<char>, line_number: int)
    requires
        model::in_hunk(p.state),
        model::marker(line) is End || model::marker(line) is Add || model::marker(line) is Delete
            || model::marker(line) is Update,
        p.state matches StateView::UpdateFile(u) ==> (u.current_chunk matches Some(chunk)
            ==> !chunk.is_end_of_file),
    ensures
        ({
            let r = model::after_complete_line(p, line, line_number);
            let complete: Result<HunkView, ErrorView> = match p.state {
                StateView::AddFile { path, header_line_number, contents } => if contents.len()
                    == 0 {
                    Err(
                        ErrorView::InvalidHunk {
                            message: "Add file hunk for path '"@ + path + "' is empty"@,
                            line_number: header_line_number,
                        },
                    )
                } else {
                    Ok(HunkView::AddFile { path, contents })
                },
                StateView::UpdateFile(u) => match u.current_chunk {
                    Some(chunk) => if chunk.old_lines.len() == 0 && chunk.new_lines.len() == 0 {
                        Err(
                            ErrorView::InvalidHunk {
                                message: "Update hunk does not contain any lines"@,
                                line_number: u.header_line_number,
                            },
                        )
                    } else {
                        Ok(
                            HunkView::UpdateFile {
                                path: u.path,
                                move_path: u.move_path,
                                chunks: u.chunks.push(chunk),
                            },
                        )
                    },
                    None => if u.chunks.len() == 0 {
                        Err(
                            ErrorView::InvalidHunk {
                                message: "Update file hunk for path '"@ + u.path + "' is empty"@,
                                line_number: u.header_line_number,
                            },
                        )
                    } else {
                        Ok(
                            HunkView::UpdateFile {
                                path: u.path,
                                move_path: u.move_path,
                                chunks: u.chunks,
                            },
                        )
                    },
                },
                _ => arbitrary(),
            };
            match complete {
                Err(error) => r == Err::<Progress, ErrorView>(error),
                Ok(hunk) => {
                    let hunks = p.hunks.push(hunk);
                    r == Ok::<Progress, ErrorView>(
                        match model::marker(line) {
                            Marker::Add(path) => Progress {
                                hunks,
                                state: StateView::AddFile {
                                    path,
                                    header_line_number: line_number,
                                    contents: Seq::empty(),
                                },
                            },
                            Marker::Delete(path) => Progress {
                                hunks: hunks.push(HunkView::DeleteFile { path }),
                                state: StateView::BetweenHunks,
                            },
                            Marker::Update(path) => Progress {
                                hunks,
                                state: StateView::UpdateFile(
                                    UpdateView {
                                        path,
                                        header_line_number: line_number,
                                        move_path: None,
                                        can_accept_move: true,
                                        chunks: Seq::empty(),
                                        current_chunk: None,
                                    },
                                ),
                            },
                            _ => Progress { hunks, state: StateView::Finished },
                        },
                    )
                },
            }
        }),
{
}

/// Between hunks, a header starts a hunk with the path that it names, which has
/// nothing yet, and the end of the patch finishes it.
pub proof fn law_header_starts_a_hunk(p: Progress, line: Seq<char>, line_number: int)
    requires
        p.state is BetweenHunks,
    ensures
        ({
            let started = |n: int|
                match model::marker(line) {
                    Marker::Add(path) => Progress {
                        state: StateView::AddFile {
                            path,
                            header_line_number: n,
                            contents: Seq::empty(),
                        },
                        ..p
                    },
                    Marker::Delete(path) => Progress {
                        hunks: p.hunks.push(HunkView::DeleteFile { path }),
                        ..p
                    },
                    Marker::Update(path) => Progress {
                        state: StateView::UpdateFile(
                            UpdateView {
                                path,
                                header_line_number: n,
                                move_path: None,
                                can_accept_move: true,
                                chunks: Seq::empty(),
                                current_chunk: None,
                            },
                        ),
                        ..p
                    },
                    _ => Progress { state: StateView::Finished, ..p },
                };
            let m = model::marker(line);
            m is End || m is Add || m is Delete || m is Update ==> {
                &&& model::after_complete_line(p, line, line_number) == Ok::<Progress, ErrorView>(
                    started(line_number),
                )
                &&& model::after_line(p, line) == started(0)
            }
        }),
{
}

/// What a line is a marker of, read off its characters: white space around a marker
/// does not matter, and what follows the marker is the path.
pub proof fn law_markers(before: Seq<char>, after: Seq<char>, path: Seq<char>)
    requires
        forall|i: int| 0 <= i < before.len() ==> text::is_white_space(#[trigger] before[i]),
        forall|i: int| 0 <= i < after.len() ==> text::is_white_space(#[trigger] after[i]),
        path.len() > 0,
        !text::is_white_space(path.last()),
    ensures
        model::marker(before + "*** Begin Patch"@ + after) is Begin,
        model::marker(before + "*** End Patch"@ + after) is End,
        model::marker(before + ("*** Add File: "@ + path) + after) == Marker::Add(path),
        model::marker(before + ("*** Delete File: "@ + path) + after) == Marker::Delete(path),
        model::marker(before + ("*** Update File: "@ + path) + after) == Marker::Update(path),
        model::move_target(before + ("*** Move to: "@ + path) + after) == Some(path),
        model::is_eof_line(before + "*** End of File"@ + after),
        model::opened_chunk(before + "@@"@ + after) matches Some(c) && c.change_context is None
            && !model::has_lines(c) && !c.is_end_of_file,
        model::opened_chunk(before + ("@@ "@ + path) + after) matches Some(c) && c.change_context
            == Some(path) && !model::has_lines(c) && !c.is_end_of_file,
{
    grammar::lemma_marker_texts();
    grammar::lemma_hunk_header("*** Add File: "@, path);
    grammar::lemma_hunk_header("*** Delete File: "@, path);
    grammar::lemma_hunk_header("*** Update File: "@, path);
    grammar::lemma_move_line(path);
    grammar::lemma_eof_line();
    grammar::lemma_chunk_header(Some(path));
    grammar::lemma_chunk_header(None);
    text::law_white_space_around_is_trimmed(before, "*** Begin Patch"@, after);
    text::law_white_space_around_is_trimmed(before, "*** End Patch"@, after);
    text::law_white_space_around_is_trimmed(before, "*** Add File: "@ + path, after);
    text::law_white_space_around_is_trimmed(before, "*** Delete File: "@ + path, after);
    text::law_white_space_around_is_trimmed(before, "*** Update File: "@ + path, after);
    text::law_white_space_around_is_trimmed(before, "*** Move to: "@ + path, after);
    text::law_white_space_around_is_trimmed(before, "*** End of File"@, after);
    text::law_white_space_around_is_trimmed(before, "@@"@, after);
    text::law_white_space_around_is_trimmed(before, "@@ "@ + path, after);
}

/// The first line that is refused decides, and the error has its number, counted
/// from one. Carriage returns at the end of a line are no part of it.
pub proof fn law_refused_line_refuses_the_patch(
    lines: Seq<Seq<char>>,
    k: int,
    p: Progress,
    error: ErrorView,
)
    requires
        0 <= k < lines.len(),
        model::after_complete_lines(model::nothing_read(), lines.take(k), 1) == Ok::<
            Progress,
            ErrorView,
        >(p),
        model::after_complete_line(p, text::without_trailing(lines[k], '\r'), k + 1) == Err::<
            Progress,
            ErrorView,
        >(error),
    ensures
        model::complete_hunks(lines) == Err::<Seq<HunkView>, ErrorView>(error),
{
    let rest = lines.skip(k);
    assert(lines =~= lines.take(k) + rest);
    grammar::lemma_two_parts(model::nothing_read(), lines.take(k), rest, 1);
    assert(rest.first() == lines[k]);
}

/// A patch whose lines are all accepted still needs its end, and then its hunks are
/// those that were read.
pub proof fn law_patch_needs_its_end(lines: Seq<Seq<char>>, p: Progress)
    requires
        model::after_complete_lines(model::nothing_read(), lines, 1) == Ok::<Progress, ErrorView>(
            p,
        ),
    ensures
        p.state is Finished ==> model::complete_hunks(lines) == Ok::<Seq<HunkView>, ErrorView>(
            p.hunks,
        ),
        lines.len() == 0 ==> model::complete_hunks(lines) == Err::<Seq<HunkView>, ErrorView>(
            ErrorView::InvalidPatch("The first line of the patch must be '*** Begin Patch'"@),
        ),
        lines.len() > 0 && !(p.state is Finished) ==> model::complete_hunks(lines) == Err::<
            Seq<HunkView>,
            ErrorView,
        >(ErrorView::InvalidPatch("The last line of the patch must be '*** End Patch'"@)),
{
    if lines.len() > 0 {
        lemma_has_begun(model::nothing_read(), lines, 1);
    }
}

/// Once a line was accepted, the patch has begun.
proof fn lemma_has_begun(p: Progress, lines: Seq<Seq<char>>, n: int)
    requires
        model::after_complete_lines(p, lines, n) is Ok,
        lines.len() > 0 || !(p.state is WaitingForBegin),
    ensures
        !(model::after_complete_lines(p, lines, n)->Ok_0.state is WaitingForBegin),
    decreases lines.len(),
{
    if lines.len() > 0 {
        let line = text::without_trailing(lines.first(), '\r');
        let next = model::after_complete_line(p, line, n)->Ok_0;
        assert(!(next.state is WaitingForBegin));
        lemma_has_begun(next, lines.drop_first(), n + 1);
    }
}

/// The path in the header of a hunk, if the line is one.
pub open spec fn header_path(line: Seq<char>) -> Option<Seq<char>> {
    match model::marker(text::without_trailing(line, '\r')) {
        Marker::Add(path) => Some(path),
        Marker::Delete(path) => Some(path),
        Marker::Update(path) => Some(path),
        _ => None,
    }
}

/// The paths in the headers among the lines, in their order.
pub open spec fn header_paths(lines: Seq<Seq<char>>) -> Seq<Seq<char>>
    decreases lines.len(),
{
    if lines.len() == 0 {
        Seq::empty()
    } else {
        let rest = header_paths(lines.drop_first());
        match header_path(lines.first()) {
            Some(path) => seq![path] + rest,
            None => rest,
        }
    }
}

/// The paths of the hunks that were started.
spec fn started_paths(p: Progress) -> Seq<Seq<char>> {
    let done = p.hunks.map_values(|h: HunkView| model::named_path(h));
    match p.state {
        StateView::AddFile { path, .. } => done.push(path),
        StateView::UpdateFile(u) => done.push(u.path),
        _ => done,
    }
}

/// A line starts the hunk of the header that it is, and no other.
proof fn lemma_started_paths(p: Progress, line: Seq<char>, n: int)
    requires
        model::after_complete_line(p, text::without_trailing(line, '\r'), n) is Ok,
        !(p.state is WaitingForBegin),
        !(p.state is Invalid),
    ensures
        ({
            let next = model::after_complete_line(p, text::without_trailing(line, '\r'), n)->Ok_0;
            started_paths(next) == match header_path(line) {
                Some(path) => started_paths(p).push(path),
                None => started_paths(p),
            }
        }),
{
    let next = model::after_complete_line(p, text::without_trailing(line, '\r'), n)->Ok_0;
    let name = |h: HunkView| model::named_path(h);
    let done = p.hunks.map_values(name);
    if model::in_hunk(p.state) && model::completed_hunk(p) is Ok {
        let closed = model::closed_hunk(p);
        assert(closed.hunks.map_values(name) =~= started_paths(p));
    }
    assert(next.hunks.map_values(name).len() == next.hunks.len());
    match model::marker(text::without_trailing(line, '\r')) {
        Marker::Delete(path) => {
            assert(started_paths(next) =~= started_paths(p).push(path));
        },
        _ => {
            assert(started_paths(next) =~= match header_path(line) {
                Some(path) => started_paths(p).push(path),
                None => started_paths(p),
            });
        },
    }
}

proof fn lemma_all_started_paths(p: Progress, lines: Seq<Seq<char>>, n: int)
    requires
        model::after_complete_lines(p, lines, n) is Ok,
        !(p.state is WaitingForBegin),
        !(p.state is Invalid),
    ensures
        started_paths(model::after_complete_lines(p, lines, n)->Ok_0) == started_paths(p)
            + header_paths(lines),
    decreases lines.len(),
{
    if lines.len() == 0 {
        assert(started_paths(p) + header_paths(lines) =~= started_paths(p));
    } else {
        let line = text::without_trailing(lines.first(), '\r');
        let next = model::after_complete_line(p, line, n)->Ok_0;
        lemma_started_paths(p, lines.first(), n);
        assert(!(next.state is WaitingForBegin) && !(next.state is Invalid));
        lemma_all_started_paths(next, lines.drop_first(), n + 1);
        assert(started_paths(next) + header_paths(lines.drop_first()) =~= started_paths(p)
            + header_paths(lines));
    }
}

/// A patch that is accepted has one hunk for each header, with its path, in their
/// order.
pub proof fn law_one_hunk_for_each_header(lines: Seq<Seq<char>>)
    requires
        model::complete_hunks(lines) is Ok,
    ensures
        model::complete_hunks(lines)->Ok_0.len() == header_paths(lines).len(),
        forall|i: int|
            0 <= i < header_paths(lines).len() ==> match #[trigger] model::complete_hunks(
                lines,
            )->Ok_0[i] {
                HunkView::AddFile { path, .. } => path == header_paths(lines)[i],
                HunkView::DeleteFile { path } => path == header_paths(lines)[i],
                HunkView::UpdateFile { path, .. } => path == header_paths(lines)[i],
            },
{
    let p0 = model::nothing_read();
    let line = text::without_trailing(lines.first(), '\r');
    let p1 = model::after_complete_line(p0, line, 1)->Ok_0;
    lemma_all_started_paths(p1, lines.drop_first(), 2);
    let hunks = model::complete_hunks(lines)->Ok_0;
    let name = |h: HunkView| model::named_path(h);
    assert(started_paths(p1) =~= Seq::empty());
    assert(model::marker(line) is Begin);
    assert(header_paths(lines) =~= header_paths(lines.drop_first()));
    assert(hunks.map_values(name) =~= header_paths(lines));
    assert forall|i: int| 0 <= i < header_paths(lines).len() implies model::named_path(
        #[trigger] hunks[i],
    ) == header_paths(lines)[i] by {
        assert(hunks.map_values(name)[i] == model::named_path(hunks[i]));
    }
}

/// While a patch arrives, a change opens a chunk without a context where none is open,
/// an empty line too.
pub proof fn law_arriving_change_opens_a_chunk(p: Progress, u: UpdateView, line: Seq<char>)
    requires
        p.state == StateView::UpdateFile(u),
        u.current_chunk is None,
        line.len() == 0 || line[0] == '+' || line[0] == '-',
    ensures
        ({
            let rest = if line.len() == 0 {
                line
            } else {
                line.skip(1)
            };
            model::after_line(p, line) == (Progress {
                state: StateView::UpdateFile(
                    UpdateView {
                        can_accept_move: false,
                        current_chunk: Some(
                            ChunkView {
                                change_context: None,
                                old_lines: if line.len() == 0 || line[0] == '-' {
                                    seq![rest]
                                } else {
                                    Seq::empty()
                                },
                                new_lines: if line.len() == 0 || line[0] == '+' {
                                    seq![rest]
                                } else {
                                    Seq::empty()
                                },
                                is_end_of_file: false,
                            },
                        ),
                        ..u
                    },
                ),
                ..p
            })
        }),
{
    let none = Seq::<Seq<char>>::empty();
    if line.len() == 0 {
        laws::lemma_empty_line(line);
        assert(none.push(line) =~= seq![line]);
    } else {
        laws::lemma_no_marker(line);
        assert(none.push(line.skip(1)) =~= seq![line.skip(1)]);
    }
}

/// While a patch arrives, the end of the file closes the open chunk, whatever it has,
/// and marks it.
pub proof fn law_arriving_end_of_file(p: Progress, u: UpdateView)
    requires
        p.state == StateView::UpdateFile(u),
    ensures
        model::after_line(p, "*** End of File"@) == (Progress {
            state: StateView::UpdateFile(
                UpdateView {
                    can_accept_move: false,
                    chunks: match u.current_chunk {
                        Some(chunk) => u.chunks.push(ChunkView { is_end_of_file: true, ..chunk }),
                        None => u.chunks,
                    },
                    current_chunk: None,
                    ..u
                },
            ),
            ..p
        }),
{
    grammar::lemma_eof_line();
}

/// While a patch arrives, the next header or the end of the patch closes the open hunk
/// as it is shown.
pub proof fn law_arriving_hunk_is_closed(p: ParserView, line: Seq<char>)
    requires
        model::in_hunk(p.progress.state),
        p.applied == 0,
        model::marker(line) is End || model::marker(line) is Add || model::marker(line) is Delete
            || model::marker(line) is Update,
    ensures
        ({
            let shown = model::hunks_so_far(p);
            let after = model::after_line(p.progress, line);
            match model::marker(line) {
                Marker::Add(path) => after == (Progress {
                    hunks: shown,
                    state: StateView::AddFile {
                        path,
                        header_line_number: 0,
                        contents: Seq::empty(),
                    },
                }),
                Marker::Delete(path) => after == (Progress {
                    hunks: shown.push(HunkView::DeleteFile { path }),
                    state: StateView::BetweenHunks,
                }),
                Marker::Update(path) => after == (Progress {
                    hunks: shown,
                    state: StateView::UpdateFile(
                        UpdateView {
                            path,
                            header_line_number: 0,
                            move_path: None,
                            can_accept_move: true,
                            chunks: Seq::empty(),
                            current_chunk: None,
                        },
                    ),
                }),
                _ => after == (Progress { hunks: shown, state: StateView::Finished }),
            }
        }),
{
}

/// A file may be moved once, right behind the header of its hunk.
pub proof fn law_move_line(p: Progress, u: UpdateView, target: Seq<char>, line_number: int)
    requires
        p.state == StateView::UpdateFile(u),
        target.len() > 0,
        !text::is_white_space(target.last()),
    ensures
        ({
            let line = "*** Move to: "@ + target;
            let moved = Progress {
                state: StateView::UpdateFile(UpdateView { move_path: Some(target), ..u }),
                ..p
            };
            &&& u.can_accept_move && u.move_path is None ==> model::after_complete_line(
                p,
                line,
                line_number,
            ) == Ok::<Progress, ErrorView>(moved) && model::after_line(p, line) == moved
            &&& !u.can_accept_move || u.move_path is Some ==> model::after_complete_line(
                p,
                line,
                line_number,
            ) is Err
        }),
{
    let line = "*** Move to: "@ + target;
    grammar::lemma_move_line(target);
    grammar::lemma_marker_texts();
    assert(line[0] == '*');
    assert(line.last() == target.last());
    text::lemma_nothing_to_trim(line);
    text::lemma_no_prefix(line, model::CHANGE_CONTEXT_MARKER@);
    if line == model::EOF_MARKER@ {
        assert(line[4] == 'M');
    }
}

/// A patch is read line by line, and an arriving one character by character.
pub proof fn law_one_after_the_other(
    p: Progress,
    lines: Seq<Seq<char>>,
    line: Seq<char>,
    q: ParserView,
    delta: Seq<char>,
    c: char,
    n: int,
)
    ensures
        model::after_lines(p, Seq::empty()) == p,
        model::after_lines(p, lines.push(line)) == model::after_line(
            model::after_lines(p, lines),
            text::without_trailing(line, '\r'),
        ),
        model::after_complete_lines(p, Seq::empty(), n) == Ok::<Progress, ErrorView>(p),
        model::after_complete_lines(p, lines, n) matches Ok(next) ==> model::after_complete_lines(
            p,
            lines.push(line),
            n,
        ) == model::after_complete_line(
            next,
            text::without_trailing(line, '\r'),
            n + lines.len(),
        ),
        model::after_chars(q, Seq::empty()) == q,
        model::after_chars(q, delta.push(c)) == model::after_char(model::after_chars(q, delta), c),
{
    assert(lines.push(line).drop_last() =~= lines);
    assert(delta.push(c).drop_last() =~= delta);
    assert(lines.push(line) =~= lines + seq![line]);
    grammar::lemma_two_parts(p, lines, seq![line], n);
    if let Ok(next) = model::after_complete_lines(p, lines, n) {
        let one = seq![line];
        assert(one.drop_first() =~= Seq::empty());
        match model::after_complete_line(
            next,
            text::without_trailing(line, '\r'),
            n + lines.len(),
        ) {
            Ok(last) => {
                assert(model::after_complete_lines(
                    last,
                    one.drop_first(),
                    n + lines.len() + 1,
                ) == Ok::<Progress, ErrorView>(last));
            },
            Err(_) => {},
        }
    }
}

/// What is left once a line was refused. Outside of hunks nothing changes. The header of
/// another hunk, and the end of the patch, are refused for the open hunk, which is gone
/// then. A stray line ends an add hunk, and ends the open chunk of an update hunk that has
/// lines; a chunk that the header of another is refused for is gone. The hunks and the
/// chunks that are complete stay.
pub proof fn law_after_a_refused_line(p: Progress, line: Seq<char>, line_number: int)
    requires
        model::after_complete_line(p, line, line_number) is Err,
    ensures
        ({
            let left = model::after_refused_line(p, line);
            let is_header = model::marker(line) is Add || model::marker(line) is Delete
                || model::marker(line) is Update;
            match p.state {
                StateView::AddFile { path, contents, .. } => if model::marker(line) is Begin {
                    left == p
                } else if is_header || model::marker(line) is End {
                    left.hunks == p.hunks && left.state is BetweenHunks
                } else {
                    left.hunks == p.hunks.push(HunkView::AddFile { path, contents })
                        && left.state is BetweenHunks
                },
                StateView::UpdateFile(u) => if model::marker(line) is Begin {
                    left == p
                } else if is_header || model::marker(line) is End {
                    left.hunks == p.hunks && left.state is BetweenHunks
                } else {
                    &&& left.hunks == p.hunks
                    &&& left.state matches StateView::UpdateFile(v) && {
                        &&& v.path == u.path
                        &&& v.header_line_number == u.header_line_number
                        &&& v.move_path == u.move_path
                        &&& !v.can_accept_move
                        &&& if model::opened_chunk(line) is Some {
                            v.chunks == u.chunks && v.current_chunk is None
                        } else if model::is_eof_line(line) {
                            v.chunks == u.chunks && v.current_chunk == u.current_chunk
                        } else {
                            match u.current_chunk {
                                Some(chunk) => if chunk.old_lines.len() > 0
                                    || chunk.new_lines.len() > 0 {
                                    v.chunks == u.chunks.push(chunk) && v.current_chunk is None
                                } else {
                                    v.chunks == u.chunks && v.current_chunk == u.current_chunk
                                },
                                None => v.chunks == u.chunks && (u.chunks.len() > 0
                                    ==> v.current_chunk is None) && (u.chunks.len() == 0 ==> (
                                v.current_chunk matches Some(c) && c == (ChunkView {
                                    change_context: None,
                                    old_lines: Seq::empty(),
                                    new_lines: Seq::empty(),
                                    is_end_of_file: false,
                                }))),
                            }
                        }
                    }
                },
                _ => left == p,
            }
        }),
{
}

/// No other lines are markers: apart from the white space around it, a line that begins or
/// ends a patch, or ends a file, is just its marker, and one that starts a hunk or a chunk,
/// or moves a file, is its marker and what follows it.
pub proof fn law_only_markers_are_markers(line: Seq<char>, rest: Seq<char>)
    ensures
        ({
            let t = text::trimmed(line);
            &&& model::marker(line) is Begin <==> t == "*** Begin Patch"@
            &&& model::marker(line) is End <==> t == "*** End Patch"@
            &&& model::marker(line) == Marker::Add(rest) <==> t == "*** Add File: "@ + rest
            &&& model::marker(line) == Marker::Delete(rest) <==> t == "*** Delete File: "@ + rest
            &&& model::marker(line) == Marker::Update(rest) <==> t == "*** Update File: "@ + rest
            &&& model::move_target(line) == Some(rest) <==> t == "*** Move to: "@ + rest
            &&& model::is_eof_line(line) <==> t == "*** End of File"@
            &&& model::opened_chunk(line) matches Some(c) ==> c == (ChunkView {
                change_context: c.change_context,
                old_lines: Seq::empty(),
                new_lines: Seq::empty(),
                is_end_of_file: false,
            })
            &&& (model::opened_chunk(line) matches Some(c) && c.change_context is None) <==> t
                == "@@"@
            &&& (model::opened_chunk(line) matches Some(c) && c.change_context == Some(rest))
                <==> t == "@@ "@ + rest
        }),
{
    let t = text::trimmed(line);
    reveal_strlit("*** Begin Patch");
    reveal_strlit("*** End Patch");
    reveal_strlit("*** Add File: ");
    reveal_strlit("*** Delete File: ");
    reveal_strlit("*** Update File: ");
    reveal_strlit("@@");
    reveal_strlit("@@ ");
    text::law_prefix_and_suffix(t, "*** Add File: "@, rest);
    text::law_prefix_and_suffix(t, "*** Delete File: "@, rest);
    text::law_prefix_and_suffix(t, "*** Update File: "@, rest);
    text::law_prefix_and_suffix(t, "*** Move to: "@, rest);
    text::law_prefix_and_suffix(t, "@@ "@, rest);
    if t == "*** Add File: "@ + rest {
        assert(t[4] == 'A');
    }
    if t == "*** Delete File: "@ + rest {
        assert(t[4] == 'D');
    }
    if t == "*** Update File: "@ + rest {
        assert(t[4] == 'U');
    }
    if t == "@@ "@ + rest {
        assert(t.len() >= 3);
    }
    if "*** Add File: "@.is_prefix_of(t) {
        assert(t.subrange(0, 14)[4] == 'A');
    }
    if "*** Delete File: "@.is_prefix_of(t) {
        assert(t.subrange(0, 17)[4] == 'D');
    }
    if "*** Update File: "@.is_prefix_of(t) {
        assert(t.subrange(0, 17)[4] == 'U');
    }
}

} // verus!
