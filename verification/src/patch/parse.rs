//! Parsing a patch that is all there.

use vstd::prelude::*;

use crate::patch::model;
use crate::patch::model::ErrorView;
use crate::patch::model::Hunk;
use crate::patch::model::HunkView;
use crate::patch::model::ParseError;
use crate::patch::stream::StreamingPatchParser;
use crate::text;

verus! {

/// A patch that has been parsed.
#[derive(Debug, PartialEq, Clone)]
pub struct ApplyPatchArgs {
    pub patch: String,
    pub hunks: Vec<Hunk>,
    pub workdir: Option<String>,
}

/// The texts of a patch that has been parsed.
#[verifier::ext_equal]
pub struct ArgsView {
    pub patch: Seq<char>,
    pub hunks: Seq<HunkView>,
    pub workdir: Option<Seq<char>>,
}

impl View for ApplyPatchArgs {
    type V = ArgsView;

    open spec fn view(&self) -> ArgsView {
        ArgsView {
            patch: self.patch@,
            hunks: model::hunk_views(self.hunks@),
            workdir: text::text_of(self.workdir),
        }
    }
}

/// The view of the outcome of parsing.
pub open spec fn outcome(r: Result<ApplyPatchArgs, ParseError>) -> Result<ArgsView, ErrorView> {
    match r {
        Ok(args) => Ok(args@),
        Err(error) => Err(error@),
    }
}

/// How strictly the text of a patch is taken.
#[derive(Debug, Clone, Copy, PartialEq, Eq, Structural)]
pub enum ParseMode {
    /// Parse the patch text argument as is.
    Strict,
    /// Some callers pass the patch as the heredoc that a shell would have
    /// read it from, such as
    ///
    /// ```text
    /// <<'EOF'
    /// *** Begin Patch
    /// *** Update File: README.md
    /// @@...
    /// *** End Patch
    /// EOF
    /// ```
    ///
    /// In lenient mode the text may start with `<<EOF`, the word perhaps
    /// quoted, and end with `EOF`. These markers are then stripped off, what is
    /// left is trimmed, and the result is the patch text.
    Lenient,
}

/// Why the lines do not start and end as those of a patch do.
pub open spec fn boundary_error(lines: Seq<Seq<char>>) -> Option<ErrorView> {
    if lines.len() > 0 && text::trimmed(lines.first()) != model::BEGIN_PATCH_MARKER@ {
        Some(ErrorView::InvalidPatch(model::FIRST_LINE_ERROR@))
    } else if lines.len() == 0 || text::trimmed(lines.last()) != model::END_PATCH_MARKER@ {
        Some(ErrorView::InvalidPatch(model::LAST_LINE_ERROR@))
    } else {
        None
    }
}

/// The line opens a heredoc.
pub open spec fn opens_heredoc(line: Seq<char>) -> bool {
    line == "<<EOF"@ || line == "<<'EOF'"@ || line == "<<\"EOF\""@
}

/// The lines are a heredoc that is long enough to hold a patch.
pub open spec fn is_heredoc(lines: Seq<Seq<char>>) -> bool {
    lines.len() >= 4 && opens_heredoc(lines.first()) && "EOF"@.is_suffix_of(lines.last())
}

/// The lines of the text that a heredoc holds, without white space around it.
pub open spec fn heredoc_lines(lines: Seq<Seq<char>>) -> Seq<Seq<char>> {
    text::split_on(text::trimmed(text::joined(lines.subrange(1, lines.len() - 1), "\n"@)), '\n')
}

/// The lines of the patch among the lines of a text, or why there is none.
pub open spec fn patch_lines(lines: Seq<Seq<char>>, mode: ParseMode) -> Result<
    Seq<Seq<char>>,
    ErrorView,
> {
    match boundary_error(lines) {
        None => Ok(lines),
        Some(error) => if mode == ParseMode::Lenient && is_heredoc(lines) {
            let inner = heredoc_lines(lines);
            match boundary_error(inner) {
                None => Ok(inner),
                Some(inner_error) => Err(inner_error),
            }
        } else {
            Err(error)
        },
    }
}

/// What the lines of a patch say.
pub open spec fn parsed_lines(lines: Seq<Seq<char>>) -> Result<ArgsView, ErrorView> {
    match model::complete_hunks(lines) {
        Ok(hunks) => Ok(ArgsView { patch: text::joined(lines, "\n"@), hunks, workdir: None }),
        Err(error) => Err(error),
    }
}

/// What a patch says, or why the text is none.
pub open spec fn parsed_patch(patch: Seq<char>, mode: ParseMode) -> Result<ArgsView, ErrorView> {
    match patch_lines(text::lines_of(text::trimmed(patch)), mode) {
        Ok(lines) => parsed_lines(lines),
        Err(error) => Err(error),
    }
}

/// Checks the first and the last line of a patch.
fn check_start_and_end_lines_strict(
    first_line: Option<&str>,
    last_line: Option<&str>,
) -> (r: Result<(), ParseError>)
    ensures
        match r {
            Ok(()) => first_line is Some && last_line is Some && text::trimmed(first_line->0@)
                == model::BEGIN_PATCH_MARKER@ && text::trimmed(last_line->0@)
                == model::END_PATCH_MARKER@,
            Err(error) => if first_line is Some && text::trimmed(first_line->0@)
                != model::BEGIN_PATCH_MARKER@ {
                error@ == ErrorView::InvalidPatch(model::FIRST_LINE_ERROR@)
            } else {
                &&& error@ == ErrorView::InvalidPatch(model::LAST_LINE_ERROR@)
                &&& first_line is None || last_line is None || text::trimmed(last_line->0@)
                    != model::END_PATCH_MARKER@
            },
        },
{
    match first_line {
        Some(first) => {
            if !text::same_text(text::trim(first), model::BEGIN_PATCH_MARKER) {
                return Err(ParseError::InvalidPatchError(model::FIRST_LINE_ERROR.to_string()));
            }
            match last_line {
                Some(last) => {
                    if text::same_text(text::trim(last), model::END_PATCH_MARKER) {
                        return Ok(());
                    }
                },
                None => {},
            }
        },
        None => {},
    }
    Err(ParseError::InvalidPatchError(model::LAST_LINE_ERROR.to_string()))
}

/// Checks the start and end lines of the patch text, returning an error if
/// they do not match the expected markers.
fn check_patch_boundaries_strict(lines: &Vec<String>) -> (r: Result<(), ParseError>)
    ensures
        match r {
            Ok(()) => boundary_error(text::texts(lines@)) is None,
            Err(error) => boundary_error(text::texts(lines@)) == Some(error@),
        },
{
    let n: usize = lines.len();
    if n == 0 {
        check_start_and_end_lines_strict(None, None)
    } else {
        assert(text::texts(lines@).first() == lines@[0]@);
        assert(text::texts(lines@).last() == lines@[n - 1]@);
        check_start_and_end_lines_strict(
            Some(lines[0].as_str()),
            Some(lines[n - 1].as_str()),
        )
    }
}

/// Finds the lines of the patch where the text may be a heredoc.
///
/// There must be at least 4 lines in a heredoc, because its markers take up 2
/// lines and the patch text must have at least 2 lines.
fn check_patch_boundaries_lenient(lines: Vec<String>) -> (r: Result<Vec<String>, ParseError>)
    ensures
        match r {
            Ok(found) => patch_lines(text::texts(lines@), ParseMode::Lenient) == Ok::<
                Seq<Seq<char>>,
                ErrorView,
            >(text::texts(found@)),
            Err(error) => patch_lines(text::texts(lines@), ParseMode::Lenient) == Err::<
                Seq<Seq<char>>,
                ErrorView,
            >(error@),
        },
{
    let original_parse_error = match check_patch_boundaries_strict(&lines) {
        Ok(()) => {
            return Ok(lines);
        },
        Err(error) => error,
    };
    let n: usize = lines.len();
    if n < 4 {
        return Err(original_parse_error);
    }
    assert(text::texts(lines@).first() == lines@[0]@);
    assert(text::texts(lines@).last() == lines@[n - 1]@);
    let first = lines[0].as_str();
    if (text::same_text(first, "<<EOF") || text::same_text(first, "<<'EOF'") || text::same_text(
        first,
        "<<\"EOF\"",
    )) && text::ends_with(lines[n - 1].as_str(), "EOF") {
        let inner = copy_lines(&lines, 1, n - 1);
        assert(text::texts(inner@) =~= text::texts(lines@).subrange(1, n - 1));
        let joined = text::join(&inner, "\n");
        let found = text::split(text::trim(joined.as_str()), '\n');
        match check_patch_boundaries_strict(&found) {
            Ok(()) => Ok(found),
            Err(error) => Err(error),
        }
    } else {
        Err(original_parse_error)
    }
}

/// A copy of some of the lines.
fn copy_lines(lines: &Vec<String>, from: usize, to: usize) -> (r: Vec<String>)
    requires
        from <= to <= lines@.len(),
    ensures
        r@ == lines@.subrange(from as int, to as int),
{
    let mut r: Vec<String> = Vec::new();
    let mut i: usize = from;
    while i < to
        invariant
            from <= i <= to <= lines@.len(),
            r@ == lines@.subrange(from as int, i as int),
        decreases to - i,
    {
        r.push(lines[i].clone());
        i = i + 1;
    }
    r
}

/// Parses the text of a patch.
pub fn parse_patch_text(patch: &str, mode: ParseMode) -> (r: Result<ApplyPatchArgs, ParseError>)
    ensures
        outcome(r) == parsed_patch(patch@, mode),
{
    let lines = text::lines(text::trim(patch));
    let found = match mode {
        ParseMode::Strict => match check_patch_boundaries_strict(&lines) {
            Ok(()) => lines,
            Err(error) => {
                return Err(error);
            },
        },
        ParseMode::Lenient => match check_patch_boundaries_lenient(lines) {
            Ok(found) => found,
            Err(error) => {
                return Err(error);
            },
        },
    };
    match StreamingPatchParser::parse_complete_lines(found.as_slice()) {
        Ok(hunks) => Ok(
            ApplyPatchArgs { hunks, patch: text::join(&found, "\n"), workdir: None },
        ),
        Err(error) => Err(error),
    }
}

/// Parses the text of a patch, which may be wrapped in a heredoc.
pub fn parse_patch(patch: &str) -> (r: Result<ApplyPatchArgs, ParseError>)
    ensures
        outcome(r) == parsed_patch(patch@, ParseMode::Lenient),
{
    parse_patch_text(patch, ParseMode::Lenient)
}

/// What has arrived of a patch, or why the text is the start of none.
pub open spec fn patch_progress(patch: Seq<char>) -> Result<ArgsView, ErrorView> {
    let lines = text::lines_of(text::trimmed(patch));
    let p = model::after_lines(model::nothing_read(), lines);
    if p.state is Invalid {
        Err(ErrorView::InvalidPatch(model::FIRST_LINE_ERROR@))
    } else {
        Ok(
            ArgsView {
                patch: text::joined(lines, "\n"@),
                hunks: model::all_hunks(p),
                workdir: None,
            },
        )
    }
}

/// Parses what has arrived of a patch.
pub fn parse_patch_progress(patch: &str) -> (r: Result<ApplyPatchArgs, ParseError>)
    ensures
        outcome(r) == patch_progress(patch@),
{
    let lines = text::lines(text::trim(patch));
    match StreamingPatchParser::parse_incomplete_lines(lines.as_slice()) {
        Ok(hunks) => Ok(
            ApplyPatchArgs { hunks, patch: text::join(&lines, "\n"), workdir: None },
        ),
        Err(error) => Err(error),
    }
}

} // verus!
