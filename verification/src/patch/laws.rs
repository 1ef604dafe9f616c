//! Laws of the parser.

use vstd::prelude::*;

use crate::patch::model;
use crate::patch::model::ChunkView;
use crate::patch::model::ErrorView;
use crate::patch::model::HunkView;
use crate::patch::model::ParserView;
use crate::patch::model::Progress;
use crate::patch::model::StateView;
use crate::patch::model::UpdateView;
use crate::patch::parse;
use crate::patch::parse::ParseMode;
use crate::text;

verus! {

/// Characters that arrive in two pieces leave the parser as they do in one.
pub proof fn law_two_pieces(p: ParserView, a: Seq<char>, b: Seq<char>)
    ensures
        model::after_chars(model::after_chars(p, a), b) == model::after_chars(p, a + b),
    decreases b.len(),
{
    if b.len() == 0 {
        assert(a + b =~= a);
    } else {
        assert((a + b).drop_last() =~= a + b.drop_last());
        law_two_pieces(p, a, b.drop_last());
    }
}

/// The parser after it has taken the pieces, and reported after each of them.
pub open spec fn after_pieces(p: ParserView, pieces: Seq<Seq<char>>) -> ParserView
    decreases pieces.len(),
{
    if pieces.len() == 0 {
        p
    } else {
        model::reported(model::after_chars(after_pieces(p, pieces.drop_last()), pieces.last()))
    }
}

/// All the pieces in one.
pub open spec fn in_one(pieces: Seq<Seq<char>>) -> Seq<char>
    decreases pieces.len(),
{
    if pieces.len() == 0 {
        Seq::empty()
    } else {
        in_one(pieces.drop_last()) + pieces.last()
    }
}

/// What was last reported has no part in what is read.
proof fn lemma_snapshot_is_apart(p: ParserView, q: ParserView, delta: Seq<char>)
    requires
        p == (ParserView { last_snapshot: p.last_snapshot, ..q }),
    ensures
        model::after_chars(p, delta) == (ParserView {
            last_snapshot: p.last_snapshot,
            ..model::after_chars(q, delta)
        }),
        model::after_chars(p, delta).last_snapshot == p.last_snapshot,
    decreases delta.len(),
{
    if delta.len() > 0 {
        lemma_snapshot_is_apart(p, q, delta.drop_last());
    }
}

/// However a patch is cut into pieces, the parser reads the same.
pub proof fn law_pieces_do_not_matter(p: ParserView, pieces: Seq<Seq<char>>)
    ensures
        ({
            let cut = after_pieces(p, pieces);
            let whole = model::after_chars(p, in_one(pieces));
            &&& cut == (ParserView { last_snapshot: cut.last_snapshot, ..whole })
            &&& model::hunks_so_far(cut) == model::hunks_so_far(whole)
        }),
    decreases pieces.len(),
{
    if pieces.len() > 0 {
        let before = pieces.drop_last();
        law_pieces_do_not_matter(p, before);
        let cut = after_pieces(p, before);
        let whole = model::after_chars(p, in_one(before));
        lemma_snapshot_is_apart(cut, whole, pieces.last());
        law_two_pieces(p, in_one(before), pieces.last());
    }
}

/// What has been reported is not reported again.
pub proof fn law_no_news_twice(p: ParserView)
    ensures
        model::news(model::reported(p)) is None,
{
}

/// A report is made exactly when there is something new: where the hunks so far
/// are not none and not those that were reported last, they are reported, and
/// otherwise nothing is.
pub proof fn law_what_is_new_is_reported(p: ParserView)
    ensures
        ({
            let hunks = model::hunks_so_far(p);
            if hunks.len() > 0 && hunks != p.last_snapshot {
                &&& model::news(p) == Some(hunks)
                &&& model::reported(p) == (ParserView { last_snapshot: hunks, ..p })
            } else {
                &&& model::news(p) is None
                &&& model::reported(p) == p
            }
        }),
{
}

/// Whatever arrives, a change of the hunks is reported with it.
pub proof fn law_every_change_is_reported(p: ParserView, delta: Seq<char>)
    ensures
        ({
            let arrived = model::after_chars(p, delta);
            let hunks = model::hunks_so_far(arrived);
            &&& model::news(arrived) is Some <==> hunks.len() > 0 && hunks != p.last_snapshot
            &&& model::news(arrived) is Some ==> model::news(arrived) == Some(hunks)
                && model::reported(arrived).last_snapshot == hunks
            &&& model::news(arrived) is None ==> model::reported(arrived).last_snapshot
                == p.last_snapshot
        }),
{
    lemma_snapshot_is_apart(p, p, delta);
}

/// What is shown are the complete hunks, and the open one as far as it says
/// something: a file that is added at once, with the line that arrives, and an
/// updated file once one of its chunks has a line or stands at the end of the file.
pub proof fn law_what_is_shown(p: ParserView)
    ensures
        ({
            let done = p.progress.hunks;
            let shown = model::hunks_so_far(p);
            match p.progress.state {
                StateView::AddFile { path, contents, .. } => shown == done.push(
                    HunkView::AddFile {
                        path,
                        contents: if p.applied > 0 && p.line.len() > 0 && p.line[0] == '+' {
                            contents + seq!['\n']
                        } else {
                            contents
                        },
                    },
                ),
                StateView::UpdateFile(u) => {
                    let chunks = match u.current_chunk {
                        Some(c) => if c.old_lines.len() > 0 || c.new_lines.len() > 0
                            || c.is_end_of_file {
                            u.chunks.push(c)
                        } else {
                            u.chunks
                        },
                        None => u.chunks,
                    };
                    if chunks.len() > 0 {
                        shown == done.push(
                            HunkView::UpdateFile { path: u.path, move_path: u.move_path, chunks },
                        )
                    } else {
                        shown == done
                    }
                },
                _ => shown == done,
            }
        }),
{
    if let StateView::AddFile { contents, .. } = p.progress.state {
        assert(contents.push('\n') =~= contents + seq!['\n']);
    }
}

/// What is reported are the hunks so far.
pub proof fn law_report_is_so_far(p: ParserView)
    ensures
        model::news(p) matches Some(hunks) ==> hunks == model::hunks_so_far(p)
            && model::reported(p).last_snapshot == hunks,
        model::hunks_so_far(model::reported(p)) == model::hunks_so_far(p),
{
}

/// A hunk that is complete stays as it is.
pub proof fn law_complete_hunks_stay(p: ParserView, delta: Seq<char>)
    ensures
        p.progress.hunks.is_prefix_of(model::after_chars(p, delta).progress.hunks),
    decreases delta.len(),
{
    if delta.len() > 0 {
        law_complete_hunks_stay(p, delta.drop_last());
        let q = model::after_chars(p, delta.drop_last());
        let next = model::after_char(q, delta.last());
        assert(q.progress.hunks.is_prefix_of(next.progress.hunks));
        assert(p.progress.hunks =~= next.progress.hunks.take(p.progress.hunks.len() as int));
    }
}

/// The number of hunks so far does not shrink with a line.
proof fn lemma_line_keeps_count(p: Progress, line: Seq<char>)
    ensures
        model::all_hunks(model::after_line(p, line)).len() >= model::all_hunks(p).len(),
{
}

/// The number of hunks so far never decreases while a patch arrives.
pub proof fn law_hunk_count_never_decreases(p: ParserView, delta: Seq<char>)
    ensures
        model::hunks_so_far(model::after_chars(p, delta)).len() >= model::hunks_so_far(p).len(),
    decreases delta.len(),
{
    if delta.len() > 0 {
        law_hunk_count_never_decreases(p, delta.drop_last());
        let q = model::after_chars(p, delta.drop_last());
        let c = delta.last();
        if c == '\n' && q.applied == 0 {
            lemma_line_keeps_count(q.progress, text::without_trailing(q.line, '\r'));
        }
    }
}

/// Closing the open hunk neither adds nor drops nor changes a hunk that is
/// shown, and closing once more changes nothing.
pub proof fn law_closing_shows_the_same(p: Progress)
    ensures
        model::all_hunks(model::closed_hunk(p)) == model::all_hunks(p),
        model::closed_hunk(model::closed_hunk(p)) == model::closed_hunk(p),
{
}

/// Where no line is half there, what is shown are the same hunks before and
/// after the open hunk is closed.
pub proof fn law_closing_keeps_what_has_arrived(p: ParserView)
    requires
        p.applied == 0,
    ensures
        model::hunks_so_far(ParserView { progress: model::closed_hunk(p.progress), ..p })
            == model::hunks_so_far(p),
{
    law_closing_shows_the_same(p.progress);
}

/// A patch has one start: once a patch has begun, another begin marker is
/// refused where the patch is all there, and passed over where it may still be
/// on its way.
pub proof fn law_patch_begins_once(p: Progress, line: Seq<char>, line_number: int)
    requires
        p.state !is WaitingForBegin,
        model::marker(line) is Begin,
    ensures
        model::after_complete_line(p, line, line_number) is Err,
        model::after_line(p, line) == p,
{
}

/// The line is taken character by character as it arrives.
pub open spec fn applies_at_once(state: StateView, line: Seq<char>) -> bool {
    line.len() > 0 && match state {
        StateView::AddFile { .. } => line[0] == '+',
        StateView::UpdateFile(_) => model::is_change_kind(line[0]),
        _ => false,
    }
}

/// A complete line would be taken for something else than a change.
pub open spec fn is_no_change(u: UpdateView, line: Seq<char>) -> bool {
    ||| model::marker(line) !is NoMarker
    ||| u.can_accept_move && u.move_path is None && model::move_target(line) is Some
    ||| model::opened_chunk(line) is Some
    ||| model::is_eof_line(line)
}

/// It makes no difference whether the line is taken as it arrives or when it
/// is complete. It would where more than one carriage return ends the line, of
/// which only one is taken back, and where a marker follows a space that also
/// starts a line of context.
pub open spec fn arrives_whole(state: StateView, line: Seq<char>) -> bool {
    applies_at_once(state, line) ==> {
        let complete = text::without_trailing(line, '\r');
        &&& complete == text::without_carriage_return(line)
        &&& state matches StateView::UpdateFile(u) ==> line[0] == ' ' ==> !is_no_change(u, complete)
    }
}

/// An added or removed line is nothing else.
pub proof fn lemma_no_marker(line: Seq<char>)
    requires
        line.len() > 0,
        line[0] == '+' || line[0] == '-',
    ensures
        model::marker(line) is NoMarker,
        model::move_target(line) is None,
        model::opened_chunk(line) is None,
        !model::is_eof_line(line),
{
    text::lemma_trimmed_keeps_first(line);
    reveal_strlit("*** Begin Patch");
    reveal_strlit("*** End Patch");
    reveal_strlit("*** Add File: ");
    reveal_strlit("*** Delete File: ");
    reveal_strlit("*** Update File: ");
    reveal_strlit("*** Move to: ");
    reveal_strlit("*** End of File");
    reveal_strlit("@@ ");
    reveal_strlit("@@");
    let t = text::trimmed(line);
    text::lemma_no_prefix(t, model::ADD_FILE_MARKER@);
    text::lemma_no_prefix(t, model::DELETE_FILE_MARKER@);
    text::lemma_no_prefix(t, model::UPDATE_FILE_MARKER@);
    text::lemma_no_prefix(t, model::MOVE_TO_MARKER@);
    text::lemma_no_prefix(t, model::CHANGE_CONTEXT_MARKER@);
}

/// An empty line is no marker and no header.
pub proof fn lemma_empty_line(line: Seq<char>)
    requires
        line.len() == 0,
    ensures
        model::marker(line) is NoMarker,
        model::move_target(line) is None,
        model::opened_chunk(line) is None,
        !model::is_eof_line(line),
        text::trimmed(line).len() == 0,
{
    reveal_strlit("*** Begin Patch");
    reveal_strlit("*** End Patch");
    reveal_strlit("*** Add File: ");
    reveal_strlit("*** Delete File: ");
    reveal_strlit("*** Update File: ");
    reveal_strlit("*** Move to: ");
    reveal_strlit("*** End of File");
    reveal_strlit("@@ ");
    reveal_strlit("@@");
}

/// The state once the characters of a line have been applied.
spec fn applied_state(state: StateView, line: Seq<char>) -> StateView {
    match state {
        StateView::AddFile { path, header_line_number, contents } => StateView::AddFile {
            path,
            header_line_number,
            contents: contents + line.skip(1),
        },
        StateView::UpdateFile(u) => StateView::UpdateFile(
            model::update_with_partial_line(u, line, 0),
        ),
        _ => state,
    }
}

/// The parser while a line arrives that is taken at once.
proof fn lemma_applied_chars(p: ParserView, line: Seq<char>)
    requires
        p.line.len() == 0,
        p.applied == 0,
        applies_at_once(p.progress.state, line),
        forall|i: int| 0 <= i < line.len() ==> line[i] != '\n',
    ensures
        model::after_chars(p, line) == (ParserView {
            line,
            applied: line.len(),
            progress: Progress { state: applied_state(p.progress.state, line), ..p.progress },
            ..p
        }),
    decreases line.len(),
{
    let before = line.drop_last();
    assert(before.push(line.last()) =~= line);
    if before.len() == 0 {
        assert(model::after_chars(p, before) == p);
        assert(p.line.push(line.last()) =~= line);
    } else {
        lemma_applied_chars(p, before);
        assert(before.skip(1) + line.skip(before.len() as int) =~= line.skip(1));
        match p.progress.state {
            StateView::AddFile { contents, .. } => {
                assert((contents + before.skip(1)) + line.skip(before.len() as int) =~= contents
                    + line.skip(1));
            },
            StateView::UpdateFile(u) => {
                let chunk = match u.current_chunk {
                    Some(chunk) => chunk,
                    None => model::empty_chunk(None),
                };
                let first = model::with_change(chunk, line[0], before.skip(1));
                let second = model::with_longer_change(
                    first,
                    line[0],
                    line.skip(before.len() as int),
                );
                lemma_longer_last(chunk.old_lines, before.skip(1), line.skip(before.len() as int));
                lemma_longer_last(chunk.new_lines, before.skip(1), line.skip(before.len() as int));
                assert(second == model::with_change(chunk, line[0], line.skip(1)));
            },
            _ => {},
        }
    }
}

proof fn lemma_longer_last(lines: Seq<Seq<char>>, a: Seq<char>, b: Seq<char>)
    ensures
        model::with_longer_last(lines.push(a), b) == lines.push(a + b),
{
    assert(lines.push(a).drop_last() =~= lines);
}

proof fn lemma_shorter_last(lines: Seq<Seq<char>>, a: Seq<char>)
    ensures
        model::with_shorter_last(lines.push(a)) == lines.push(model::without_last(a)),
{
    assert(lines.push(a).drop_last() =~= lines);
}

/// The parser while a line arrives that is taken when it is complete.
proof fn lemma_buffered_chars(p: ParserView, line: Seq<char>)
    requires
        p.line.len() == 0,
        p.applied == 0,
        !applies_at_once(p.progress.state, line),
        forall|i: int| 0 <= i < line.len() ==> line[i] != '\n',
    ensures
        model::after_chars(p, line) == (ParserView { line, ..p }),
    decreases line.len(),
{
    if line.len() == 0 {
        assert(p.line =~= line);
    } else {
        let before = line.drop_last();
        assert(before.push(line.last()) =~= line);
        if before.len() > 0 {
            assert(before[0] == line[0]);
        }
        lemma_buffered_chars(p, before);
    }
}

/// A line that is taken as it arrives means what it means when it is taken as
/// a whole.
pub proof fn law_line_as_it_arrives(p: ParserView, line: Seq<char>)
    requires
        p.line.len() == 0,
        p.applied == 0,
        forall|i: int| 0 <= i < line.len() ==> line[i] != '\n',
        arrives_whole(p.progress.state, line),
    ensures
        model::after_chars(p, line.push('\n')) == (ParserView {
            progress: model::after_line(p.progress, text::without_trailing(line, '\r')),
            ..p
        }),
{
    assert(line.push('\n').drop_last() =~= line);
    let complete = text::without_trailing(line, '\r');
    if applies_at_once(p.progress.state, line) {
        lemma_applied_chars(p, line);
        text::lemma_without_trailing_keeps_first(line, '\r');
        if line[0] == '+' || line[0] == '-' {
            lemma_no_marker(complete);
        }
        let returned = line.len() > 0 && line.last() == '\r';
        if returned {
            assert(complete =~= line.drop_last());
            assert(model::without_last(line.skip(1)) =~= complete.skip(1));
        } else {
            assert(complete =~= line);
        }
        match p.progress.state {
            StateView::AddFile { contents, .. } => {
                if returned {
                    assert(model::without_last(contents + line.skip(1)) =~= contents
                        + complete.skip(1));
                }
            },
            StateView::UpdateFile(u) => {
                let chunk = match u.current_chunk {
                    Some(chunk) => chunk,
                    None => model::empty_chunk(None),
                };
                if returned {
                    lemma_shorter_last(chunk.old_lines, line.skip(1));
                    lemma_shorter_last(chunk.new_lines, line.skip(1));
                    assert(model::with_shorter_change(
                        model::with_change(chunk, line[0], line.skip(1)),
                        line[0],
                    ) == model::with_change(chunk, line[0], complete.skip(1)));
                }
            },
            _ => {},
        }
        assert(p.line =~= Seq::<char>::empty());
    } else {
        lemma_buffered_chars(p, line);
        assert(p.line =~= Seq::<char>::empty());
    }
}

/// Half a line that adds to a file is shown as if it ended there.
pub proof fn law_half_an_added_line_is_shown(
    p: ParserView,
    path: Seq<char>,
    n: int,
    contents: Seq<char>,
    added: Seq<char>,
)
    requires
        p.line.len() == 0,
        p.applied == 0,
        p.progress.state == (StateView::AddFile { path, header_line_number: n, contents }),
        forall|i: int| 0 <= i < added.len() ==> added[i] != '\n',
    ensures
        model::hunks_so_far(model::after_chars(p, seq!['+'] + added)) == p.progress.hunks.push(
            HunkView::AddFile { path, contents: contents + added + seq!['\n'] },
        ),
{
    let line = seq!['+'] + added;
    lemma_applied_chars(p, line);
    assert(line.skip(1) =~= added);
    assert((contents + added).push('\n') =~= contents + added + seq!['\n']);
}

/// Half a change is shown as if it ended there.
pub proof fn law_half_a_change_is_shown(
    p: ParserView,
    u: UpdateView,
    chunk: ChunkView,
    kind: char,
    changed: Seq<char>,
)
    requires
        p.line.len() == 0,
        p.applied == 0,
        p.progress.state == StateView::UpdateFile(u),
        u.current_chunk == Some(chunk),
        kind == ' ' || kind == '+' || kind == '-',
        forall|i: int| 0 <= i < changed.len() ==> changed[i] != '\n',
    ensures
        model::hunks_so_far(model::after_chars(p, seq![kind] + changed)) == p.progress.hunks.push(
            HunkView::UpdateFile {
                path: u.path,
                move_path: u.move_path,
                chunks: u.chunks.push(
                    ChunkView {
                        old_lines: if kind == '+' {
                            chunk.old_lines
                        } else {
                            chunk.old_lines.push(changed)
                        },
                        new_lines: if kind == '-' {
                            chunk.new_lines
                        } else {
                            chunk.new_lines.push(changed)
                        },
                        ..chunk
                    },
                ),
            },
        ),
{
    let line = seq![kind] + changed;
    assert(line[0] == kind);
    lemma_applied_chars(p, line);
    assert(line.skip(1) =~= changed);
}

/// A line that is neither an added line nor a change shows nothing before it is
/// complete.
pub proof fn law_other_lines_wait(p: ParserView, line: Seq<char>)
    requires
        p.line.len() == 0,
        p.applied == 0,
        forall|i: int| 0 <= i < line.len() ==> line[i] != '\n',
        p.progress.state is AddFile ==> line.len() == 0 || line[0] != '+',
        p.progress.state is UpdateFile ==> line.len() == 0 || (line[0] != ' ' && line[0] != '+'
            && line[0] != '-'),
    ensures
        model::hunks_so_far(model::after_chars(p, line)) == model::hunks_so_far(p),
{
    lemma_buffered_chars(p, line);
}

/// `p` without the line number of the header of the open hunk, which only
/// serves to report errors.
pub open spec fn without_numbers(p: Progress) -> Progress {
    match p.state {
        StateView::AddFile { path, contents, .. } => Progress {
            state: StateView::AddFile { path, header_line_number: 0, contents },
            ..p
        },
        StateView::UpdateFile(u) => Progress {
            state: StateView::UpdateFile(UpdateView { header_line_number: 0, ..u }),
            ..p
        },
        _ => p,
    }
}

/// The line is blank and stands in an update hunk before any chunk is open.
/// It is passed over in a patch that is all there, and taken for an empty line
/// of context in one that may still be on its way.
pub open spec fn is_skipped_blank(state: StateView, line: Seq<char>) -> bool {
    state matches StateView::UpdateFile(u) && u.current_chunk is None && text::trimmed(line).len()
        == 0
}

/// Whatever is accepted of a patch that is all there means the same in a patch
/// that may still be on its way, but for a skipped blank line.
pub proof fn law_readers_agree_on_line(
    p: Progress,
    arriving: Progress,
    line: Seq<char>,
    line_number: int,
)
    requires
        without_numbers(p) == without_numbers(arriving),
        p.state !is Invalid,
        model::after_complete_line(p, line, line_number) is Ok,
        !is_skipped_blank(p.state, line),
    ensures
        without_numbers(model::after_line(arriving, line)) == without_numbers(
            model::after_complete_line(p, line, line_number)->Ok_0,
        ),
        model::after_complete_line(p, line, line_number)->Ok_0.state !is Invalid,
{
}

/// No blank line is skipped among the lines of a patch that is all there.
pub open spec fn skips_no_blank(p: Progress, lines: Seq<Seq<char>>, first_number: int) -> bool
    decreases lines.len(),
{
    lines.len() > 0 ==> {
        let line = text::without_trailing(lines.first(), '\r');
        &&& !is_skipped_blank(p.state, line)
        &&& match model::after_complete_line(p, line, first_number) {
            Ok(next) => skips_no_blank(next, lines.drop_first(), first_number + 1),
            Err(_) => true,
        }
    }
}

/// The first of the lines can be taken first.
proof fn lemma_first_line_first(p: Progress, lines: Seq<Seq<char>>)
    requires
        lines.len() > 0,
    ensures
        model::after_lines(p, lines) == model::after_lines(
            model::after_line(p, text::without_trailing(lines.first(), '\r')),
            lines.drop_first(),
        ),
    decreases lines.len(),
{
    let rest = lines.drop_first();
    if lines.len() == 1 {
        assert(model::after_lines(p, lines.drop_last()) == p);
    } else {
        lemma_first_line_first(p, lines.drop_last());
        assert(lines.drop_last().drop_first() =~= rest.drop_last());
        assert(rest.last() == lines.last());
        assert(lines.drop_last().first() == lines.first());
    }
}

/// The lines of a patch that is accepted mean the same while they arrive, but
/// for skipped blank lines.
pub proof fn law_readers_agree_on_lines(
    p: Progress,
    arriving: Progress,
    lines: Seq<Seq<char>>,
    first_number: int,
)
    requires
        without_numbers(p) == without_numbers(arriving),
        p.state !is Invalid,
        model::after_complete_lines(p, lines, first_number) is Ok,
        skips_no_blank(p, lines, first_number),
    ensures
        without_numbers(model::after_lines(arriving, lines)) == without_numbers(
            model::after_complete_lines(p, lines, first_number)->Ok_0,
        ),
    decreases lines.len(),
{
    if lines.len() > 0 {
        let line = text::without_trailing(lines.first(), '\r');
        law_readers_agree_on_line(p, arriving, line, first_number);
        lemma_first_line_first(arriving, lines);
        law_readers_agree_on_lines(
            model::after_complete_line(p, line, first_number)->Ok_0,
            model::after_line(arriving, line),
            lines.drop_first(),
            first_number + 1,
        );
    }
}

/// The hunks of a patch that is accepted are those that its lines give while
/// they arrive, but for skipped blank lines.
pub proof fn law_arriving_lines_give_the_hunks(lines: Seq<Seq<char>>)
    requires
        model::complete_hunks(lines) is Ok,
        skips_no_blank(model::nothing_read(), lines, 1),
    ensures
        model::all_hunks(model::after_lines(model::nothing_read(), lines))
            == model::complete_hunks(lines)->Ok_0,
{
    law_readers_agree_on_lines(model::nothing_read(), model::nothing_read(), lines, 1);
}

/// The lines as a text, each with a line feed behind it.
pub open spec fn with_line_feeds(lines: Seq<Seq<char>>) -> Seq<char>
    decreases lines.len(),
{
    if lines.len() == 0 {
        Seq::empty()
    } else {
        with_line_feeds(lines.drop_last()) + lines.last().push('\n')
    }
}

/// It makes no difference for any of the lines whether it is taken as it
/// arrives or when it is complete.
pub open spec fn all_arrive_whole(p: Progress, lines: Seq<Seq<char>>) -> bool
    decreases lines.len(),
{
    lines.len() > 0 ==> {
        &&& all_arrive_whole(p, lines.drop_last())
        &&& forall|i: int| 0 <= i < lines.last().len() ==> lines.last()[i] != '\n'
        &&& arrives_whole(model::after_lines(p, lines.drop_last()).state, lines.last())
    }
}

/// Lines that are taken as they arrive mean what they mean when each is taken
/// as a whole.
pub proof fn law_lines_as_they_arrive(p: ParserView, lines: Seq<Seq<char>>)
    requires
        p.line.len() == 0,
        p.applied == 0,
        all_arrive_whole(p.progress, lines),
    ensures
        model::after_chars(p, with_line_feeds(lines)) == (ParserView {
            progress: model::after_lines(p.progress, lines),
            ..p
        }),
    decreases lines.len(),
{
    if lines.len() > 0 {
        let before = lines.drop_last();
        law_lines_as_they_arrive(p, before);
        let q = model::after_chars(p, with_line_feeds(before));
        law_two_pieces(p, with_line_feeds(before), lines.last().push('\n'));
        law_line_as_it_arrives(q, lines.last());
    }
}

/// A patch that is accepted gives the same hunks when it arrives character by
/// character.
pub proof fn law_arriving_patch_gives_the_hunks(lines: Seq<Seq<char>>)
    requires
        model::complete_hunks(lines) is Ok,
        skips_no_blank(model::nothing_read(), lines, 1),
        all_arrive_whole(model::nothing_read(), lines),
    ensures
        model::hunks_so_far(model::after_chars(model::nothing_arrived(), with_line_feeds(lines)))
            == model::complete_hunks(lines)->Ok_0,
{
    law_arriving_lines_give_the_hunks(lines);
    law_lines_as_they_arrive(model::nothing_arrived(), lines);
}

/// A text that is a patch as it stands means the same in both modes.
pub proof fn law_lenient_keeps_strict(patch: Seq<char>)
    requires
        parse::boundary_error(text::lines_of(text::trimmed(patch))) is None,
    ensures
        parse::parsed_patch(patch, ParseMode::Lenient) == parse::parsed_patch(
            patch,
            ParseMode::Strict,
        ),
{
}

/// The lines make up a text that no white space surrounds.
pub open spec fn is_text_of_lines(lines: Seq<Seq<char>>) -> bool {
    &&& lines.len() > 0
    &&& forall|i: int| 0 <= i < lines.len() ==> text::is_one_line(#[trigger] lines[i])
    &&& lines.first().len() > 0
    &&& !text::is_white_space(lines.first().first())
    &&& lines.last().len() > 0
    &&& !text::is_white_space(lines.last().last())
}

/// Nothing is trimmed from such a text.
proof fn lemma_text_of_lines(lines: Seq<Seq<char>>)
    requires
        is_text_of_lines(lines),
    ensures
        text::trimmed(text::joined(lines, "\n"@)) == text::joined(lines, "\n"@),
{
    text::lemma_joined_ends(lines, "\n"@);
    text::lemma_nothing_to_trim(text::joined(lines, "\n"@));
}

/// The lines of a patch may be wrapped in a heredoc in lenient mode, and only
/// there.
pub proof fn law_heredoc_is_unwrapped(open: Seq<char>, lines: Seq<Seq<char>>, close: Seq<char>)
    requires
        parse::opens_heredoc(open),
        "EOF"@.is_suffix_of(close),
        lines.len() >= 2,
        is_text_of_lines(lines),
        parse::boundary_error(lines) is None,
    ensures
        parse::patch_lines(seq![open] + lines + seq![close], ParseMode::Lenient) == Ok::<
            Seq<Seq<char>>,
            ErrorView,
        >(lines),
        parse::patch_lines(seq![open] + lines + seq![close], ParseMode::Strict) == Err::<
            Seq<Seq<char>>,
            ErrorView,
        >(ErrorView::InvalidPatch(model::FIRST_LINE_ERROR@)),
{
    let wrapped = seq![open] + lines + seq![close];
    assert(wrapped.subrange(1, wrapped.len() - 1) =~= lines);
    assert(wrapped.first() == open);
    assert(wrapped.last() == close);
    reveal_strlit("<<EOF");
    reveal_strlit("<<'EOF'");
    reveal_strlit("<<\"EOF\"");
    reveal_strlit("*** Begin Patch");
    text::lemma_trimmed_keeps_first(open);
    lemma_text_of_lines(lines);
    text::lemma_split_of_joined(lines);
}

/// The lines of a patch make up a text that no white space surrounds.
proof fn lemma_patch_lines_make_a_text(patch: Seq<char>, mode: ParseMode)
    requires
        parse::patch_lines(text::lines_of(text::trimmed(patch)), mode) is Ok,
    ensures
        is_text_of_lines(
            parse::patch_lines(text::lines_of(text::trimmed(patch)), mode)->Ok_0,
        ),
{
    let lines = text::lines_of(text::trimmed(patch));
    if parse::boundary_error(lines) is None {
        text::lemma_lines_of_trimmed(patch);
        text::lemma_lines_are_lines(text::trimmed(patch));
    } else {
        let source = text::joined(lines.subrange(1, lines.len() - 1), "\n"@);
        let t = text::trimmed(source);
        text::lemma_trimmed_ends(source);
        text::lemma_split_into_lines(t);
        if t.len() == 0 {
            assert(text::split_on(t, '\n').first() =~= Seq::empty());
            assert(text::trimmed(Seq::empty()) =~= Seq::empty());
            reveal_strlit("*** Begin Patch");
        }
    }
}

/// Carriage returns at the ends of lines make no difference.
proof fn lemma_returns_do_not_matter(
    p: Progress,
    a: Seq<Seq<char>>,
    b: Seq<Seq<char>>,
    first_number: int,
)
    requires
        a.len() == b.len(),
        forall|i: int|
            0 <= i < a.len() ==> text::without_trailing(#[trigger] a[i], '\r')
                == text::without_trailing(b[i], '\r'),
    ensures
        model::after_complete_lines(p, a, first_number) == model::after_complete_lines(
            p,
            b,
            first_number,
        ),
    decreases a.len(),
{
    if a.len() > 0 {
        assert(text::without_trailing(a[0], '\r') == text::without_trailing(b[0], '\r'));
        match model::after_complete_line(p, text::without_trailing(a.first(), '\r'), first_number) {
            Ok(next) => {
                assert forall|i: int| 0 <= i < a.drop_first().len() implies text::without_trailing(
                    #[trigger] a.drop_first()[i],
                    '\r',
                ) == text::without_trailing(b.drop_first()[i], '\r') by {
                    assert(a.drop_first()[i] == a[i + 1]);
                    assert(b.drop_first()[i] == b[i + 1]);
                }
                lemma_returns_do_not_matter(
                    next,
                    a.drop_first(),
                    b.drop_first(),
                    first_number + 1,
                );
            },
            Err(_) => {},
        }
    }
}

/// The patch text that parsing gives back can be parsed again, and says the
/// same. Where no line of it ends with a carriage return, the text that then
/// comes back is the same, too.
pub proof fn law_parsed_text_parses_again(patch: Seq<char>, mode: ParseMode)
    requires
        parse::parsed_patch(patch, mode) is Ok,
    ensures
        ({
            let args = parse::parsed_patch(patch, mode)->Ok_0;
            let lines = parse::patch_lines(text::lines_of(text::trimmed(patch)), mode)->Ok_0;
            let again = parse::parsed_patch(args.patch, ParseMode::Strict);
            &&& again is Ok
            &&& again->Ok_0.hunks == args.hunks
            &&& again->Ok_0.workdir == args.workdir
            &&& (forall|i: int|
                0 <= i < lines.len() ==> text::without_carriage_return(#[trigger] lines[i])
                    == lines[i]) ==> again->Ok_0 == args
        }),
{
    let lines = parse::patch_lines(text::lines_of(text::trimmed(patch)), mode)->Ok_0;
    let strip = |line: Seq<char>| text::without_carriage_return(line);
    let stripped = lines.map_values(strip);
    lemma_patch_lines_make_a_text(patch, mode);
    lemma_text_of_lines(lines);
    text::lemma_lines_of_joined(lines);
    text::lemma_trimmed_without_return(lines.first());
    text::lemma_trimmed_without_return(lines.last());
    assert(stripped.first() == text::without_carriage_return(lines.first()));
    assert(stripped.last() == text::without_carriage_return(lines.last()));
    assert forall|i: int| 0 <= i < stripped.len() implies text::without_trailing(
        #[trigger] stripped[i],
        '\r',
    ) == text::without_trailing(lines[i], '\r') by {
        assert(stripped[i] == text::without_carriage_return(lines[i]));
    }
    lemma_returns_do_not_matter(model::nothing_read(), stripped, lines, 1);
    if forall|i: int|
        0 <= i < lines.len() ==> text::without_carriage_return(#[trigger] lines[i]) == lines[i] {
        assert(stripped =~= lines);
    }
}

/// The text of lines without carriage returns at their ends is parsed line by line,
/// whether a line feed follows the last of them or not.
pub proof fn law_text_is_parsed_by_lines(lines: Seq<Seq<char>>, mode: ParseMode)
    requires
        is_text_of_lines(lines),
        forall|i: int|
            0 <= i < lines.len() ==> text::without_carriage_return(#[trigger] lines[i]) == lines[i],
        text::trimmed(lines.first()) == "*** Begin Patch"@,
        text::trimmed(lines.last()) == "*** End Patch"@,
    ensures
        ({
            let whole = text::joined(lines, "\n"@);
            let expected = match model::complete_hunks(lines) {
                Ok(hunks) => Ok(parse::ArgsView { patch: whole, hunks, workdir: None }),
                Err(error) => Err(error),
            };
            &&& parse::parsed_patch(whole, mode) == expected
            &&& parse::parsed_patch(whole + seq!['\n'], mode) == expected
        }),
{
    let whole = text::joined(lines, "\n"@);
    let strip = |line: Seq<char>| text::without_carriage_return(line);
    lemma_text_of_lines(lines);
    text::lemma_lines_of_joined(lines);
    assert(lines.map_values(strip) =~= lines);
    text::lemma_joined_ends(lines, "\n"@);
    let none = Seq::<char>::empty();
    assert(text::is_white_space('\n'));
    text::law_white_space_around_is_trimmed(none, whole, seq!['\n']);
    assert(none + whole + seq!['\n'] =~= whole + seq!['\n']);
}

/// A text that does not start with the begin marker, or does not end with the end
/// marker, is refused in strict mode, and the error says which. In lenient mode it is
/// refused likewise, unless it is a heredoc of at least four lines.
pub proof fn law_text_needs_its_markers(patch: Seq<char>)
    ensures
        ({
            let lines = text::lines_of(text::trimmed(patch));
            let begins = lines.len() > 0 && text::trimmed(lines.first()) == "*** Begin Patch"@;
            let ends = lines.len() > 0 && text::trimmed(lines.last()) == "*** End Patch"@;
            let strict = parse::parsed_patch(patch, ParseMode::Strict);
            let wrapped = lines.len() >= 4 && (lines.first() == "<<EOF"@ || lines.first()
                == "<<'EOF'"@ || lines.first() == "<<\"EOF\""@) && "EOF"@.is_suffix_of(
                lines.last(),
            );
            &&& lines.len() > 0 && !begins ==> strict == Err::<parse::ArgsView, ErrorView>(
                ErrorView::InvalidPatch(
                    "The first line of the patch must be '*** Begin Patch'"@,
                ),
            )
            &&& (lines.len() == 0 || begins && !ends) ==> strict == Err::<
                parse::ArgsView,
                ErrorView,
            >(ErrorView::InvalidPatch("The last line of the patch must be '*** End Patch'"@))
            &&& begins && ends ==> strict == match model::complete_hunks(lines) {
                Ok(hunks) => Ok(
                    parse::ArgsView {
                        patch: text::joined(lines, "\n"@),
                        hunks,
                        workdir: None,
                    },
                ),
                Err(error) => Err(error),
            }
            &&& !wrapped ==> parse::parsed_patch(patch, ParseMode::Lenient) == strict
        }),
{
}

/// A patch that is wrapped in a heredoc says in lenient mode what it says by itself.
pub proof fn law_wrapped_text_is_parsed(open: Seq<char>, lines: Seq<Seq<char>>)
    requires
        open == "<<EOF"@ || open == "<<'EOF'"@ || open == "<<\"EOF\""@,
        lines.len() >= 2,
        is_text_of_lines(lines),
        forall|i: int|
            0 <= i < lines.len() ==> text::without_carriage_return(#[trigger] lines[i]) == lines[i],
        text::trimmed(lines.first()) == "*** Begin Patch"@,
        text::trimmed(lines.last()) == "*** End Patch"@,
    ensures
        parse::parsed_patch(
            text::joined(seq![open] + lines + seq!["EOF"@], "\n"@),
            ParseMode::Lenient,
        ) == parse::parsed_patch(text::joined(lines, "\n"@), ParseMode::Strict),
{
    let wrapped = seq![open] + lines + seq!["EOF"@];
    let strip = |line: Seq<char>| text::without_carriage_return(line);
    reveal_strlit("<<EOF");
    reveal_strlit("<<'EOF'");
    reveal_strlit("<<\"EOF\"");
    reveal_strlit("EOF");
    assert("EOF"@.subrange(0, 3) =~= "EOF"@);
    assert forall|i: int| 0 <= i < wrapped.len() implies text::is_one_line(#[trigger] wrapped[i])
        && text::without_carriage_return(wrapped[i]) == wrapped[i] by {
        if 0 < i < wrapped.len() - 1 {
            assert(wrapped[i] == lines[i - 1]);
        }
    }
    lemma_text_of_lines(wrapped);
    text::lemma_lines_of_joined(wrapped);
    assert(wrapped.map_values(strip) =~= wrapped);
    law_heredoc_is_unwrapped(open, lines, "EOF"@);
    law_text_is_parsed_by_lines(lines, ParseMode::Strict);
}

/// A line may end with a carriage return and a line feed.
pub proof fn law_carriage_return_is_no_part_of_a_line(p: ParserView, line: Seq<char>)
    requires
        p.line.len() == 0,
        p.applied == 0,
        forall|i: int| 0 <= i < line.len() ==> line[i] != '\n',
        line.len() > 0 ==> line.last() != '\r',
        arrives_whole(p.progress.state, line),
    ensures
        model::after_chars(p, line + seq!['\r', '\n']) == model::after_chars(
            p,
            line + seq!['\n'],
        ),
{
    let returned = line.push('\r');
    assert(returned.drop_last() =~= line);
    assert(text::without_trailing(returned, '\r') == text::without_trailing(line, '\r'));
    assert(line + seq!['\r', '\n'] =~= returned.push('\n'));
    assert(line + seq!['\n'] =~= line.push('\n'));
    if line.len() > 0 {
        assert(returned[0] == line[0]);
        assert(arrives_whole(p.progress.state, returned));
        law_line_as_it_arrives(p, returned);
    } else {
        let state = p.progress.state;
        assert(!applies_at_once(state, returned));
        law_line_as_it_arrives(p, returned);
    }
    law_line_as_it_arrives(p, line);
}

/// What has arrived of a patch is what its lines show; a text that starts otherwise
/// than a patch does is refused.
pub proof fn law_progress_of_a_patch(patch: Seq<char>)
    ensures
        ({
            let lines = text::lines_of(text::trimmed(patch));
            let r = parse::patch_progress(patch);
            &&& lines.len() > 0 && model::marker(text::without_trailing(lines[0], '\r')) !is Begin
                ==> r == Err::<parse::ArgsView, ErrorView>(
                ErrorView::InvalidPatch(
                    "The first line of the patch must be '*** Begin Patch'"@,
                ),
            )
            &&& lines.len() == 0 || model::marker(text::without_trailing(lines[0], '\r')) is Begin
                ==> r == Ok::<parse::ArgsView, ErrorView>(
                parse::ArgsView {
                    patch: text::joined(lines, "\n"@),
                    hunks: model::all_hunks(model::after_lines(model::nothing_read(), lines)),
                    workdir: None,
                },
            )
        }),
{
    let lines = text::lines_of(text::trimmed(patch));
    if lines.len() > 0 {
        lemma_first_line_first(model::nothing_read(), lines);
        let first = model::after_line(
            model::nothing_read(),
            text::without_trailing(lines.first(), '\r'),
        );
        lemma_start_decides(first, lines.drop_first());
    }
}

/// A patch that started as one goes on as one, and another text does not.
proof fn lemma_start_decides(p: Progress, lines: Seq<Seq<char>>)
    requires
        p.state !is WaitingForBegin,
    ensures
        model::after_lines(p, lines).state !is WaitingForBegin,
        model::after_lines(p, lines).state is Invalid <==> p.state is Invalid,
    decreases lines.len(),
{
    if lines.len() > 0 {
        lemma_start_decides(p, lines.drop_last());
    }
}

/// The path of a hunk is the one in its header, unless it moves its file: then it is
/// where the file goes.
pub proof fn law_path_of_a_hunk(path: Seq<char>, target: Seq<char>, contents: Seq<char>, chunks: Seq<
    ChunkView,
>)
    ensures
        model::affected_path(HunkView::AddFile { path, contents }) == path,
        model::affected_path(HunkView::DeleteFile { path }) == path,
        model::affected_path(HunkView::UpdateFile { path, move_path: None, chunks }) == path,
        model::affected_path(HunkView::UpdateFile { path, move_path: Some(target), chunks })
            == target,
        model::named_path(HunkView::UpdateFile { path, move_path: Some(target), chunks }) == path,
        model::named_path(HunkView::UpdateFile { path, move_path: None, chunks }) == path,
        model::named_path(HunkView::AddFile { path, contents }) == path,
        model::named_path(HunkView::DeleteFile { path }) == path,
{
}

/// What is wrong with a patch, in words.
pub proof fn law_words_of_an_error(message: Seq<char>, line_number: nat)
    ensures
        model::error_text(ErrorView::InvalidPatch(message)) == "invalid patch: "@ + message,
        model::error_text(ErrorView::InvalidHunk { message, line_number: line_number as int })
            == "invalid hunk at line "@ + text::decimal(line_number) + ", "@ + message,
{
}

/// In lenient mode, a heredoc is read as the text between its first and its last line,
/// without the white space around it: that text has to start and to end as a patch does,
/// and the error says where it does not.
pub proof fn law_text_of_a_heredoc(patch: Seq<char>)
    requires
        ({
            let lines = text::lines_of(text::trimmed(patch));
            &&& lines.len() >= 4
            &&& lines.first() == "<<EOF"@ || lines.first() == "<<'EOF'"@ || lines.first()
                == "<<\"EOF\""@
            &&& "EOF"@.is_suffix_of(lines.last())
        }),
    ensures
        ({
            let lines = text::lines_of(text::trimmed(patch));
            let inner = text::trimmed(text::joined(lines.subrange(1, lines.len() - 1), "\n"@));
            let pieces = text::split_on(inner, '\n');
            let r = parse::parsed_patch(patch, ParseMode::Lenient);
            let begins = text::trimmed(pieces.first()) == "*** Begin Patch"@;
            let ends = text::trimmed(pieces.last()) == "*** End Patch"@;
            &&& !begins ==> r == Err::<parse::ArgsView, ErrorView>(
                ErrorView::InvalidPatch("The first line of the patch must be '*** Begin Patch'"@),
            )
            &&& begins && !ends ==> r == Err::<parse::ArgsView, ErrorView>(
                ErrorView::InvalidPatch("The last line of the patch must be '*** End Patch'"@),
            )
            &&& begins && ends ==> r == match model::complete_hunks(pieces) {
                Ok(hunks) => Ok(
                    parse::ArgsView { patch: text::joined(pieces, "\n"@), hunks, workdir: None },
                ),
                Err(error) => Err(error),
            }
        }),
{
    let lines = text::lines_of(text::trimmed(patch));
    let open = lines.first();
    let inner = text::trimmed(text::joined(lines.subrange(1, lines.len() - 1), "\n"@));
    reveal_strlit("<<EOF");
    reveal_strlit("<<'EOF'");
    reveal_strlit("<<\"EOF\"");
    reveal_strlit("*** Begin Patch");
    text::lemma_trimmed_keeps_first(open);
    assert(text::trimmed(open)[0] == '<');
    text::law_pieces_make_up_the_text(inner, '\n');
}

} // verus!
