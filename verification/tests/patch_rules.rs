use codex_support::patch::model::Hunk;
use codex_support::patch::model::ParseError;
use codex_support::patch::model::UpdateFileChunk;
use codex_support::patch::parse::parse_patch;
use codex_support::patch::parse::parse_patch_progress;
use codex_support::patch::parse::parse_patch_text;
use codex_support::patch::parse::ParseMode;
use codex_support::patch::stream::StreamingPatchParser;

fn chunk(
    context: Option<&str>,
    old_lines: &[&str],
    new_lines: &[&str],
    is_end_of_file: bool,
) -> UpdateFileChunk {
    UpdateFileChunk {
        change_context: context.map(str::to_string),
        old_lines: old_lines.iter().map(|line| line.to_string()).collect(),
        new_lines: new_lines.iter().map(|line| line.to_string()).collect(),
        is_end_of_file,
    }
}

fn update(path: &str, move_path: Option<&str>, chunks: Vec<UpdateFileChunk>) -> Hunk {
    Hunk::UpdateFile {
        path: path.to_string(),
        move_path: move_path.map(str::to_string),
        chunks,
    }
}

fn add(path: &str, contents: &str) -> Hunk {
    Hunk::AddFile {
        path: path.to_string(),
        contents: contents.to_string(),
    }
}

fn delete(path: &str) -> Hunk {
    Hunk::DeleteFile {
        path: path.to_string(),
    }
}

fn patch_of(lines: &[&str]) -> String {
    format!("*** Begin Patch\n{}\n*** End Patch", lines.join("\n"))
}

fn hunks_of(lines: &[&str]) -> Vec<Hunk> {
    parse_patch_text(&patch_of(lines), ParseMode::Strict).unwrap().hunks
}

fn error_of(lines: &[&str]) -> ParseError {
    parse_patch_text(&patch_of(lines), ParseMode::Strict).unwrap_err()
}

fn invalid_hunk(message: &str, line_number: usize) -> ParseError {
    ParseError::InvalidHunkError {
        message: message.to_string(),
        line_number,
    }
}

#[test]
fn hunks_of_all_kinds() {
    assert_eq!(
        hunks_of(&[
            "*** Add File: a.txt",
            "+one",
            "+",
            "+ two",
            "*** Delete File: b.txt",
            "*** Update File: c.txt",
            "*** Move to: d.txt",
            "@@ fn main()",
            " keep",
            "-old",
            "+new",
            "@@",
            "-last",
            "*** End of File",
            "*** Update File: e.txt",
            "-gone",
        ]),
        vec![
            add("a.txt", "one\n\n two\n"),
            delete("b.txt"),
            update(
                "c.txt",
                Some("d.txt"),
                vec![
                    chunk(Some("fn main()"), &["keep", "old"], &["keep", "new"], false),
                    chunk(None, &["last"], &[], true),
                ],
            ),
            update("e.txt", None, vec![chunk(None, &["gone"], &[], false)]),
        ]
    );
}

#[test]
fn white_space_may_surround_markers() {
    assert_eq!(
        hunks_of(&["  *** Update File: a.txt  ", " @@ here ", "+x", "\t*** End of File", ""]),
        vec![update("a.txt", None, vec![chunk(Some("here"), &[], &["x"], true)])]
    );
}

#[test]
fn empty_line_is_a_line_of_context() {
    assert_eq!(
        hunks_of(&["*** Update File: a.txt", "@@", "", "+x"]),
        vec![update("a.txt", None, vec![chunk(None, &[""], &["", "x"], false)])]
    );
}

#[test]
fn carriage_returns_end_lines() {
    let patch = "*** Begin Patch\r\n*** Add File: a.txt\r\n+one\r\n*** End Patch\r\n";
    assert_eq!(
        parse_patch_text(patch, ParseMode::Strict).unwrap().hunks,
        vec![add("a.txt", "one\n")]
    );
    let mut parser = StreamingPatchParser::default();
    assert_eq!(parser.push_delta(patch), Some(vec![add("a.txt", "one\n")]));
}

#[test]
fn lines_that_are_no_header_of_a_hunk() {
    let headers = "Valid hunk headers: '*** Add File: {path}', '*** Delete File: {path}', \
                   '*** Update File: {path}'";
    assert_eq!(
        error_of(&["*** Frobnicate File: foo"]),
        invalid_hunk(
            &format!("'*** Frobnicate File: foo' is not a valid hunk header. {headers}"),
            2
        )
    );
    assert_eq!(
        error_of(&["*** Add File: a", "+x", "y"]),
        invalid_hunk(&format!("'y' is not a valid hunk header. {headers}"), 4)
    );
    assert_eq!(
        error_of(&["*** Update File: a", "@@", "+x", "*** what"]),
        invalid_hunk(&format!("'*** what' is not a valid hunk header. {headers}"), 5)
    );
    assert_eq!(
        error_of(&["*** Delete File: a", "*** End Patch", "more"]),
        invalid_hunk(&format!("'more' is not a valid hunk header. {headers}"), 4)
    );
}

#[test]
fn update_hunks_without_lines() {
    assert_eq!(
        error_of(&["*** Update File: a", "*** Move to: b"]),
        invalid_hunk("Update file hunk for path 'a' is empty", 2)
    );
    assert_eq!(
        error_of(&["*** Update File: a", "@@"]),
        invalid_hunk("Update hunk does not contain any lines", 2)
    );
    assert_eq!(
        error_of(&["*** Update File: a", "@@", "@@ b", "+x"]),
        invalid_hunk("Update hunk does not contain any lines", 4)
    );
    assert_eq!(
        error_of(&["*** Update File: a", "@@", "*** End of File"]),
        invalid_hunk("Update hunk does not contain any lines", 4)
    );
}

#[test]
fn update_hunks_with_lines_that_say_nothing() {
    assert_eq!(
        error_of(&["*** Update File: a", "@@", "x"]),
        invalid_hunk(
            "Unexpected line found in update hunk: 'x'. Every line should start with ' ' \
             (context line), '+' (added line), or '-' (removed line)",
            4
        )
    );
    assert_eq!(
        error_of(&["*** Update File: a", "@@", "+x", "y"]),
        invalid_hunk("Expected update hunk to start with a @@ context marker, got: 'y'", 5)
    );
    assert_eq!(
        error_of(&["*** Update File: a", "*** End of File"]),
        invalid_hunk(
            "Expected update hunk to start with a @@ context marker, got: '*** End of File'",
            3
        )
    );
    assert_eq!(
        error_of(&["*** Update File: a", "@@", "+x", "*** End of File", "+y"]),
        invalid_hunk("Expected update hunk to start with a @@ context marker, got: '+y'", 6)
    );
}

#[test]
fn texts_that_are_no_patch() {
    let first = ParseError::InvalidPatchError(
        "The first line of the patch must be '*** Begin Patch'".to_string(),
    );
    let last = ParseError::InvalidPatchError(
        "The last line of the patch must be '*** End Patch'".to_string(),
    );
    assert_eq!(parse_patch(""), Err(last.clone()));
    assert_eq!(parse_patch("x"), Err(first.clone()));
    assert_eq!(parse_patch("*** Begin Patch"), Err(last.clone()));
    assert_eq!(parse_patch("*** End Patch"), Err(first.clone()));
    assert_eq!(parse_patch_progress("x"), Err(first));
    assert_eq!(parse_patch_progress("").unwrap().hunks, Vec::new());
}

#[test]
fn errors_of_the_parser_in_words() {
    assert_eq!(
        ParseError::InvalidPatchError("no".to_string()).text(),
        "invalid patch: no"
    );
    assert_eq!(invalid_hunk("bad", 1203).text(), "invalid hunk at line 1203, bad");
    assert_eq!(invalid_hunk("bad", 0).text(), "invalid hunk at line 0, bad");
}

#[test]
fn paths_of_hunks() {
    assert_eq!(add("a", "").path(), "a");
    assert_eq!(delete("b").path(), "b");
    assert_eq!(update("c", None, Vec::new()).path(), "c");
    assert_eq!(update("c", Some("d"), Vec::new()).path(), "d");
    assert_eq!(update("c", Some("d"), Vec::new()).header_path(), "c");
    assert_eq!(add("a", "").header_path(), "a");
    assert_eq!(delete("b").header_path(), "b");
}

#[test]
fn heredoc_is_unwrapped_and_trimmed() {
    let patch = patch_of(&["*** Delete File: a"]);
    let parsed = parse_patch(&patch).unwrap();
    assert_eq!(parse_patch(&format!("<<'EOF'\n\n{patch}\n \nEOF")), Ok(parsed.clone()));
    assert_eq!(parse_patch(&format!("\n  {patch}\n\n")), Ok(parsed.clone()));
    assert_eq!(parse_patch(&parsed.patch), Ok(parsed));
    assert!(parse_patch(&format!("<<EOT\n{patch}\nEOT")).is_err());
    assert!(parse_patch("<<EOF\n*** Begin Patch *** End Patch\nEOF").is_err());
}

#[test]
fn pieces_of_a_patch_do_not_matter() {
    let patch = "*** Begin Patch\n*** Update File: a\n*** Move to: b\n@@ c\n x\n-y\n+z\r\n\
                 *** End of File\n*** Add File: d\n+e\u{e9}\n+f\n*** Delete File: g\n*** End Patch\n";
    let mut whole = StreamingPatchParser::default();
    whole.push_delta(patch);
    for size in 1..9 {
        let mut parser = StreamingPatchParser::default();
        let chars: Vec<char> = patch.chars().collect();
        for piece in chars.chunks(size) {
            parser.push_delta(&piece.iter().collect::<String>());
        }
        assert_eq!(parser.current_hunks(), whole.current_hunks());
    }
    assert_eq!(
        whole.current_hunks(),
        parse_patch_text(patch, ParseMode::Strict).unwrap().hunks
    );
}

#[test]
fn news_are_reported_once() {
    let mut parser = StreamingPatchParser::default();
    assert_eq!(parser.push_delta("*** Begin Patch\n*** Update File: a\n"), None);
    assert_eq!(parser.push_delta("@@ fn f()\n"), None);
    let started = Some(vec![update("a", None, vec![chunk(Some("fn f()"), &["o"], &[], false)])]);
    assert_eq!(parser.push_delta("-o"), started);
    assert_eq!(parser.push_delta(""), None);
    assert_eq!(parser.push_delta("\n"), None);
    assert_eq!(parser.current_hunks(), started.unwrap());
    assert_eq!(parser.push_delta("garbage\n"), None);
}

#[test]
fn nothing_follows_the_end_of_a_patch() {
    let mut parser = StreamingPatchParser::default();
    parser.push_delta("*** Begin Patch\n*** Delete File: a\n*** End Patch\n");
    assert_eq!(parser.push_delta("*** Delete File: b\n"), None);
    assert_eq!(parser.current_hunks(), vec![delete("a")]);
    let mut invalid = StreamingPatchParser::default();
    assert_eq!(invalid.push_delta("x\n*** Begin Patch\n*** Delete File: a\n"), None);
    assert_eq!(invalid.current_hunks(), Vec::new());
}

#[test]
fn patch_begins_once() {
    let mut parser = StreamingPatchParser::default();
    parser.push_delta("*** Begin Patch\n*** Add File: a\n+x\n");
    assert_eq!(parser.current_hunks(), vec![add("a", "x\n")]);
    assert_eq!(parser.push_delta("*** Begin Patch\n"), None);
    assert_eq!(parser.current_hunks(), vec![add("a", "x\n")]);
    assert_eq!(parser.push_delta("+y\n"), Some(vec![add("a", "x\ny\n")]));

    let refused = "'*** Begin Patch' is not a valid hunk header. Valid hunk headers: \
                   '*** Add File: {path}', '*** Delete File: {path}', '*** Update File: {path}'";
    assert_eq!(
        error_of(&["*** Add File: a", "+x", " *** Begin Patch "]),
        invalid_hunk(refused, 4)
    );
    assert_eq!(error_of(&["*** Begin Patch"]), invalid_hunk(refused, 2));
    assert!(parse_patch(
        "*** Begin Patch\n*** Add File: a\n+x\n*** Begin Patch\n*** End Patch"
    )
    .is_err());
}

#[test]
fn add_hunk_has_a_line() {
    assert_eq!(
        error_of(&["*** Delete File: b", "*** Add File: a"]),
        invalid_hunk("Add file hunk for path 'a' is empty", 3)
    );
    assert_eq!(
        error_of(&["*** Add File: a", "*** Delete File: b"]),
        invalid_hunk("Add file hunk for path 'a' is empty", 2)
    );
    assert_eq!(hunks_of(&["*** Add File: a", "+"]), vec![add("a", "\n")]);
    // A line that cannot belong to the hunk is what is wrong then.
    assert_eq!(
        error_of(&["*** Add File: a", "x"]),
        invalid_hunk(
            "'x' is not a valid hunk header. Valid hunk headers: '*** Add File: {path}', \
             '*** Delete File: {path}', '*** Update File: {path}'",
            3
        )
    );
    // The file may still get lines while the patch arrives.
    assert_eq!(
        parse_patch_progress("*** Begin Patch\n*** Add File: a").unwrap().hunks,
        vec![add("a", "")]
    );
}

#[test]
fn lines_of_a_heredoc_keep_their_carriage_returns() {
    let wrapped = "<<EOF\n*** Begin Patch\n*** Add File: a\n+x\r\r\n*** End Patch\nEOF\n";
    let args = parse_patch(wrapped).unwrap();
    assert_eq!(args.hunks, vec![add("a", "x\n")]);
    assert_eq!(args.patch, "*** Begin Patch\n*** Add File: a\n+x\r\n*** End Patch");
    // Parsed again, the text says the same.
    let again = parse_patch(&args.patch).unwrap();
    assert_eq!(again.hunks, args.hunks);
    assert_eq!(again.patch, "*** Begin Patch\n*** Add File: a\n+x\n*** End Patch");
    // White space around what a heredoc holds does not matter.
    let spaced = "<<EOF\n \n  *** Begin Patch\n*** Delete File: a\n*** End Patch \n\t\nEOF";
    assert_eq!(
        parse_patch(spaced).unwrap().patch,
        "*** Begin Patch\n*** Delete File: a\n*** End Patch"
    );
    assert_eq!(
        parse_patch("<<EOF\n\n\nEOF").unwrap_err(),
        ParseError::InvalidPatchError(
            "The first line of the patch must be '*** Begin Patch'".to_string()
        )
    );
}

#[test]
fn copy_of_a_parser_goes_on_by_itself() {
    let mut parser = StreamingPatchParser::default();
    parser.push_delta("*** Begin Patch\n*** Delete File: a\n*** Update File: b\n@@\n-o");
    let mut copy = parser.clone();
    assert_eq!(copy.current_hunks(), parser.current_hunks());
    assert_eq!(copy.push_delta(""), None);
    let longer = vec![delete("a"), update("b", None, vec![chunk(None, &["old"], &[], false)])];
    assert_eq!(copy.push_delta("ld"), Some(longer));
    assert_eq!(
        parser.current_hunks(),
        vec![delete("a"), update("b", None, vec![chunk(None, &["o"], &[], false)])]
    );
}
