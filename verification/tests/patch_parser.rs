use codex_support::patch::model::Hunk::AddFile;
use codex_support::patch::model::Hunk::DeleteFile;
use codex_support::patch::model::Hunk::UpdateFile;
use codex_support::patch::model::ParseError::InvalidHunkError;
use codex_support::patch::model::ParseError::InvalidPatchError;
use codex_support::patch::model::UpdateFileChunk;
use codex_support::patch::parse::parse_patch_progress;
use codex_support::patch::parse::parse_patch_text;
use codex_support::patch::parse::ApplyPatchArgs;
use codex_support::patch::parse::ParseMode;
use codex_support::patch::stream::StreamingPatchParser;

#[test]
fn test_streaming_patch_parser_parses_partial_patch_text() {
    assert_eq!(
        parse_patch_progress("*** Begin Patch\n*** Add File: src/hello.txt\n+hello\n+wor"),
        Ok(ApplyPatchArgs {
            hunks: vec![AddFile {
                path: String::from("src/hello.txt"),
                contents: "hello\nwor\n".to_string(),
            }],
            patch: "*** Begin Patch\n*** Add File: src/hello.txt\n+hello\n+wor".to_string(),
            workdir: None,
        })
    );

    assert_eq!(
        parse_patch_progress(
            "*** Begin Patch\n*** Update File: src/old.rs\n*** Move to: src/new.rs\n@@\n-old\n+new",
        ),
        Ok(ApplyPatchArgs {
            hunks: vec![UpdateFile {
                path: String::from("src/old.rs"),
                move_path: Some(String::from("src/new.rs")),
                chunks: vec![UpdateFileChunk {
                    change_context: None,
                    old_lines: vec!["old".to_string()],
                    new_lines: vec!["new".to_string()],
                    is_end_of_file: false,
                }],
            }],
            patch: "*** Begin Patch\n*** Update File: src/old.rs\n*** Move to: src/new.rs\n@@\n-old\n+new".to_string(),
            workdir: None,
        })
    );

    assert!(parse_patch_progress("*** Begin Patch\n*** Delete File: gone.txt").is_ok());
    assert!(
        parse_patch_text(
            "*** Begin Patch\n*** Delete File: gone.txt",
            ParseMode::Strict
        )
        .is_err()
    );

    assert_eq!(
        parse_patch_progress(
            "*** Begin Patch\n*** Add File: src/one.txt\n+one\n*** Delete File: src/two.txt\n",
        ),
        Ok(ApplyPatchArgs {
            hunks: vec![
                AddFile {
                    path: String::from("src/one.txt"),
                    contents: "one\n".to_string(),
                },
                DeleteFile {
                    path: String::from("src/two.txt"),
                },
            ],
            patch: "*** Begin Patch\n*** Add File: src/one.txt\n+one\n*** Delete File: src/two.txt"
                .to_string(),
            workdir: None,
        })
    );
}

#[test]
fn test_streaming_patch_parser_large_patch_by_character() {
    let patch = "\
*** Begin Patch
*** Add File: docs/release-notes.md
+# Release notes
+
+## CLI
+- Surface apply_patch progress while arguments stream.
+- Keep final patch application gated on the completed tool call.
+- Include file summaries in the progress event payload.
*** Update File: src/config.rs
@@ impl Config
-    pub apply_patch_progress: bool,
+    pub stream_apply_patch_progress: bool,
     pub include_diagnostics: bool,
@@ fn default_progress_interval()
-    Duration::from_millis(500)
+    Duration::from_millis(250)
*** Delete File: src/legacy_patch_progress.rs
*** Update File: crates/cli/src/main.rs
*** Move to: crates/cli/src/bin/codex.rs
@@ fn run()
-    let args = Args::parse();
-    dispatch(args)
+    let cli = Cli::parse();
+    dispatch(cli)
*** Add File: tests/fixtures/apply_patch_progress.json
+{
+  \"type\": \"apply_patch_progress\",
+  \"hunks\": [
+    { \"operation\": \"add\", \"path\": \"docs/release-notes.md\" },
+    { \"operation\": \"update\", \"path\": \"src/config.rs\" }
+  ]
+}
*** Update File: README.md
@@ Development workflow
 Build the Rust workspace before opening a pull request.
+When touching streamed tool calls, include parser coverage for partial input.
+Prefer tests that exercise the exact event payload shape.
*** Delete File: docs/old-apply-patch-progress.md
*** End Patch";

    let mut parser = StreamingPatchParser::default();
    let mut max_hunk_count = 0;
    let mut saw_hunk_counts = Vec::new();
    for ch in patch.chars() {
        if let Some(hunks) = parser.push_delta(&ch.to_string()) {
            let hunk_count = hunks.len();
            assert!(
                hunk_count >= max_hunk_count,
                "hunk count should never decrease while streaming: {hunk_count} < {max_hunk_count}",
            );
            if hunk_count > max_hunk_count {
                saw_hunk_counts.push(hunk_count);
                max_hunk_count = hunk_count;
            }
        }
    }

    assert_eq!(saw_hunk_counts, vec![1, 2, 3, 4, 5, 6, 7]);
    let hunks = parser.current_hunks();
    assert_eq!(hunks.len(), 7);
    assert_eq!(
        hunks
            .iter()
            .map(|hunk| match hunk {
                AddFile { .. } => "add",
                DeleteFile { .. } => "delete",
                UpdateFile {
                    move_path: Some(_), ..
                } => "move-update",
                UpdateFile {
                    move_path: None, ..
                } => "update",
            })
            .collect::<Vec<_>>(),
        vec![
            "add",
            "update",
            "delete",
            "move-update",
            "add",
            "update",
            "delete"
        ]
    );
}

#[test]
fn test_streaming_patch_parser_advances_by_character_in_current_line() {
    let mut parser = StreamingPatchParser::default();
    assert_eq!(parser.push_delta("*** Begin Patch\n"), None);
    assert_eq!(
        parser.push_delta("*** Add File: src/hello.txt\n"),
        Some(vec![AddFile {
            path: String::from("src/hello.txt"),
            contents: String::new(),
        }])
    );
    assert_eq!(
        parser.push_delta("+hel"),
        Some(vec![AddFile {
            path: String::from("src/hello.txt"),
            contents: "hel\n".to_string(),
        }])
    );
    assert_eq!(
        parser.push_delta("lo"),
        Some(vec![AddFile {
            path: String::from("src/hello.txt"),
            contents: "hello\n".to_string(),
        }])
    );
    assert_eq!(
        parser.push_delta("\n+world"),
        Some(vec![AddFile {
            path: String::from("src/hello.txt"),
            contents: "hello\nworld\n".to_string(),
        }])
    );
    assert_eq!(
        parser.push_delta("\n*** Delete File: src/gone.txt\n"),
        Some(vec![
            AddFile {
                path: String::from("src/hello.txt"),
                contents: "hello\nworld\n".to_string(),
            },
            DeleteFile {
                path: String::from("src/gone.txt"),
            },
        ])
    );
}

#[test]
fn test_parse_patch() {
    assert_eq!(
        parse_patch_text("bad", ParseMode::Strict),
        Err(InvalidPatchError(
            "The first line of the patch must be '*** Begin Patch'".to_string()
        ))
    );
    assert_eq!(
        parse_patch_text("*** Begin Patch\nbad", ParseMode::Strict),
        Err(InvalidPatchError(
            "The last line of the patch must be '*** End Patch'".to_string()
        ))
    );

    assert_eq!(
        parse_patch_text(
            &[
                "*** Begin Patch",
                " ",
                "\n*** Add File: foo\n+hi\n",
                " ",
                "*** End Patch",
            ]
            .concat(),
            ParseMode::Strict
        )
        .unwrap()
        .hunks,
        vec![AddFile {
            path: String::from("foo"),
            contents: "hi\n".to_string()
        }]
    );
    assert_eq!(
        parse_patch_text(
            "*** Begin Patch\n\
             *** Update File: test.py\n\
             *** End Patch",
            ParseMode::Strict
        ),
        Err(InvalidHunkError {
            message: "Update file hunk for path 'test.py' is empty".to_string(),
            line_number: 2,
        })
    );
    assert_eq!(
        parse_patch_text(
            "*** Begin Patch\n\
             *** End Patch",
            ParseMode::Strict
        )
        .unwrap()
        .hunks,
        Vec::new()
    );
    assert_eq!(
        parse_patch_text(
            "*** Begin Patch\n\
             *** Add File: path/add.py\n\
             +abc\n\
             +def\n\
             *** Delete File: path/delete.py\n\
             *** Update File: path/update.py\n\
             *** Move to: path/update2.py\n\
             @@ def f():\n\
             -    pass\n\
             +    return 123\n\
             *** End Patch",
            ParseMode::Strict
        )
        .unwrap()
        .hunks,
        vec![
            AddFile {
                path: String::from("path/add.py"),
                contents: "abc\ndef\n".to_string()
            },
            DeleteFile {
                path: String::from("path/delete.py")
            },
            UpdateFile {
                path: String::from("path/update.py"),
                move_path: Some(String::from("path/update2.py")),
                chunks: vec![UpdateFileChunk {
                    change_context: Some("def f():".to_string()),
                    old_lines: vec!["    pass".to_string()],
                    new_lines: vec!["    return 123".to_string()],
                    is_end_of_file: false
                }]
            }
        ]
    );
    // Update hunk followed by another hunk (Add File).
    assert_eq!(
        parse_patch_text(
            "*** Begin Patch\n\
             *** Update File: file.py\n\
             @@\n\
             +line\n\
             *** Add File: other.py\n\
             +content\n\
             *** End Patch",
            ParseMode::Strict
        )
        .unwrap()
        .hunks,
        vec![
            UpdateFile {
                path: String::from("file.py"),
                move_path: None,
                chunks: vec![UpdateFileChunk {
                    change_context: None,
                    old_lines: vec![],
                    new_lines: vec!["line".to_string()],
                    is_end_of_file: false
                }],
            },
            AddFile {
                path: String::from("other.py"),
                contents: "content\n".to_string()
            }
        ]
    );

    // Update hunk without an explicit @@ header for the first chunk should parse.
    // Use a raw string to preserve the leading space diff marker on the context line.
    assert_eq!(
        parse_patch_text(
            r#"*** Begin Patch
*** Update File: file2.py
 import foo
+bar
*** End Patch"#,
            ParseMode::Strict
        )
        .unwrap()
        .hunks,
        vec![UpdateFile {
            path: String::from("file2.py"),
            move_path: None,
            chunks: vec![UpdateFileChunk {
                change_context: None,
                old_lines: vec!["import foo".to_string()],
                new_lines: vec!["import foo".to_string(), "bar".to_string()],
                is_end_of_file: false,
            }],
        }]
    );
}

#[test]
fn test_parse_patch_accepts_relative_and_absolute_hunk_paths() {
    let dir = tempfile::tempdir().unwrap();
    let absolute_delete = dir.path().join("absolute-delete.py");
    let absolute_update = dir.path().join("absolute-update.py");
    let patch_text = format!(
        r#"*** Begin Patch
*** Add File: relative-add.py
+content
*** Delete File: {}
*** Update File: {}
@@
-old
+new
*** End Patch"#,
        absolute_delete.display(),
        absolute_update.display()
    );

    assert_eq!(
        parse_patch_text(&patch_text, ParseMode::Strict)
            .unwrap()
            .hunks,
        vec![
            AddFile {
                path: String::from("relative-add.py"),
                contents: "content\n".to_string()
            },
            DeleteFile {
                path: absolute_delete.display().to_string()
            },
            UpdateFile {
                path: absolute_update.display().to_string(),
                move_path: None,
                chunks: vec![UpdateFileChunk {
                    change_context: None,
                    old_lines: vec!["old".to_string()],
                    new_lines: vec!["new".to_string()],
                    is_end_of_file: false
                }]
            },
        ]
    );
}

#[test]
fn test_parse_patch_lenient() {
    let patch_text = r#"*** Begin Patch
*** Update File: file2.py
 import foo
+bar
*** End Patch"#;
    let expected_patch = vec![UpdateFile {
        path: String::from("file2.py"),
        move_path: None,
        chunks: vec![UpdateFileChunk {
            change_context: None,
            old_lines: vec!["import foo".to_string()],
            new_lines: vec!["import foo".to_string(), "bar".to_string()],
            is_end_of_file: false,
        }],
    }];
    let expected_error =
        InvalidPatchError("The first line of the patch must be '*** Begin Patch'".to_string());

    let patch_text_in_heredoc = format!("<<EOF\n{patch_text}\nEOF\n");
    assert_eq!(
        parse_patch_text(&patch_text_in_heredoc, ParseMode::Strict),
        Err(expected_error.clone())
    );
    assert_eq!(
        parse_patch_text(&patch_text_in_heredoc, ParseMode::Lenient),
        Ok(ApplyPatchArgs {
            hunks: expected_patch.clone(),
            patch: patch_text.to_string(),
            workdir: None,
        })
    );

    let patch_text_in_single_quoted_heredoc = format!("<<'EOF'\n{patch_text}\nEOF\n");
    assert_eq!(
        parse_patch_text(&patch_text_in_single_quoted_heredoc, ParseMode::Strict),
        Err(expected_error.clone())
    );
    assert_eq!(
        parse_patch_text(&patch_text_in_single_quoted_heredoc, ParseMode::Lenient),
        Ok(ApplyPatchArgs {
            hunks: expected_patch.clone(),
            patch: patch_text.to_string(),
            workdir: None,
        })
    );

    let patch_text_in_double_quoted_heredoc = format!("<<\"EOF\"\n{patch_text}\nEOF\n");
    assert_eq!(
        parse_patch_text(&patch_text_in_double_quoted_heredoc, ParseMode::Strict),
        Err(expected_error.clone())
    );
    assert_eq!(
        parse_patch_text(&patch_text_in_double_quoted_heredoc, ParseMode::Lenient),
        Ok(ApplyPatchArgs {
            hunks: expected_patch,
            patch: patch_text.to_string(),
            workdir: None,
        })
    );

    let patch_text_in_mismatched_quotes_heredoc = format!("<<\"EOF'\n{patch_text}\nEOF\n");
    assert_eq!(
        parse_patch_text(&patch_text_in_mismatched_quotes_heredoc, ParseMode::Strict),
        Err(expected_error.clone())
    );
    assert_eq!(
        parse_patch_text(&patch_text_in_mismatched_quotes_heredoc, ParseMode::Lenient),
        Err(expected_error.clone())
    );

    let patch_text_with_missing_closing_heredoc =
        "<<EOF\n*** Begin Patch\n*** Update File: file2.py\nEOF\n".to_string();
    assert_eq!(
        parse_patch_text(&patch_text_with_missing_closing_heredoc, ParseMode::Strict),
        Err(expected_error)
    );
    assert_eq!(
        parse_patch_text(&patch_text_with_missing_closing_heredoc, ParseMode::Lenient),
        Err(InvalidPatchError(
            "The last line of the patch must be '*** End Patch'".to_string()
        ))
    );
}
