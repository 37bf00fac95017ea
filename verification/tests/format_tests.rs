use claude_format::formatter::{ClaudeFormatter, FileRecord};

fn record(path: &str, code: &str) -> FileRecord {
    FileRecord { path: Some(path.to_string()), code: Some(code.to_string()) }
}

#[test]
fn example_single_fenced_file() {
    let files = vec![record("a.rs", "```rust\nfn main(){}\n```")];
    let out = ClaudeFormatter::format("/proj", "", &files, None, None, None, None);
    let expected = "<project_path>/proj</project_path>\n\n\
        <files>\n    <file>\n        <path>a.rs</path>\n        <code>\n\
        \x20           fn main(){}\n        </code>\n    </file>\n</files>\n\n\
        <final_instruction>\n    Consider the project path in <project_path>, \
        and the files in <files>. Take a deep breath and think step by step \
        about how to best complete this \
        task.\n</final_instruction>\n";
    assert_eq!(out, expected);
    assert!(out.contains("<project_path>/proj</project_path>"));
    assert!(!out.contains("<source_tree>"));
    assert!(out.contains("<path>a.rs</path>"));
    assert!(out.contains("            fn main(){}"));
    assert!(!out.contains("```"));
    assert!(!out.contains("<git_diff>"));
    assert!(!out.contains("<instructions>"));
}

#[test]
fn determinism_identical_inputs_identical_output() {
    let files = vec![record("x.py", "print(1)\nprint(2)"), record("y.py", "pass")];
    let tree = "root\n  x.py\n  y.py";
    let a = ClaudeFormatter::format(
        "/home/me/proj",
        tree,
        &files,
        Some("diff text"),
        None,
        Some("log text"),
        Some("be careful"),
    );
    let b = ClaudeFormatter::format(
        "/home/me/proj",
        tree,
        &files,
        Some("diff text"),
        None,
        Some("log text"),
        Some("be careful"),
    );
    assert_eq!(a, b);
}

#[test]
fn every_section_present() {
    let files = vec![record("m.rs", "fn f() {}")];
    let out = ClaudeFormatter::format(
        "/p",
        "src\n main.rs",
        &files,
        Some("D"),
        Some("B"),
        Some("L"),
        Some("do it"),
    );
    let expected = "<project_path>/p</project_path>\n\n\
        <source_tree>\n    src\n     main.rs\n</source_tree>\n\n\
        <files>\n    <file>\n        <path>m.rs</path>\n        <code>\n\
        \x20           fn f() {}\n        </code>\n    </file>\n</files>\n\n\
        <git_diff>\n    D\n</git_diff>\n\n\
        <git_diff_branch>\n    B\n</git_diff_branch>\n\n\
        <git_log_branch>\n    L\n</git_log_branch>\n\n\
        <instructions>\n    do it\n</instructions>\n\n\
        <final_instruction>\n    Consider the project path in <project_path>, \
        the source tree in <source_tree>, and the files in <files>. \
        Review any git changes in <git_diff>, <git_diff_branch>, <git_log_branch> \
        if present. Then, follow the instructions given in <instructions>. \
        Take a deep breath and think step by step about how to best complete this \
        task.\n</final_instruction>\n";
    assert_eq!(out, expected);
}

#[test]
fn source_tree_empty_is_omitted() {
    let out = ClaudeFormatter::format("/p", "", &[], None, None, None, None);
    assert!(!out.contains("<source_tree>"));
    assert!(!out.contains(", the source tree in"));
}

#[test]
fn source_tree_indented_blank_lines_left_empty() {
    let out = ClaudeFormatter::format("/p", "a\n\t \nb", &[], None, None, None, None);
    assert!(out.contains("<source_tree>\n    a\n\n    b\n</source_tree>\n\n"));
}

#[test]
fn record_missing_path_or_code_is_skipped() {
    let files = vec![
        FileRecord { path: None, code: Some("lost".to_string()) },
        record("kept.rs", "k"),
        FileRecord { path: Some("lost.rs".to_string()), code: None },
        FileRecord { path: None, code: None },
    ];
    let out = ClaudeFormatter::format("/p", "", &files, None, None, None, None);
    assert!(!out.contains("lost"));
    assert!(out.contains("<path>kept.rs</path>"));
    assert_eq!(out.matches("<file>").count(), 1);
}

#[test]
fn records_kept_in_input_order_duplicates_preserved() {
    let files = vec![record("b.rs", "2"), record("a.rs", "1"), record("b.rs", "2")];
    let out = ClaudeFormatter::format("/p", "", &files, None, None, None, None);
    let first_b = out.find("<path>b.rs</path>").unwrap();
    let a = out.find("<path>a.rs</path>").unwrap();
    let last_b = out.rfind("<path>b.rs</path>").unwrap();
    assert!(first_b < a && a < last_b);
    assert_eq!(out.matches("<file>").count(), 3);
}

#[test]
fn empty_files_list_still_yields_files_section() {
    let out = ClaudeFormatter::format("/p", "", &[], None, None, None, None);
    assert!(out.contains("<files>\n</files>\n\n"));
}

#[test]
fn fences_with_language_tag_and_padding_are_stripped() {
    let files = vec![record("a.py", "``` python \nx = 1\ny = 2\n  ```  ")];
    let out = ClaudeFormatter::format("/p", "", &files, None, None, None, None);
    assert!(out.contains("<code>\n            x = 1\n            y = 2\n        </code>"));
    assert!(!out.contains("```"));
}

#[test]
fn unmatched_fence_passes_through() {
    let files = vec![record("a.txt", "```\nstill open")];
    let out = ClaudeFormatter::format("/p", "", &files, None, None, None, None);
    assert!(out.contains("            ```\n            still open"));
}

#[test]
fn single_fence_line_passes_through() {
    let files = vec![record("a.txt", "```")];
    let out = ClaudeFormatter::format("/p", "", &files, None, None, None, None);
    assert!(out.contains("<code>\n            ```\n        </code>"));
}

#[test]
fn fence_pair_with_empty_interior() {
    let files = vec![record("a.txt", "```\n```")];
    let out = ClaudeFormatter::format("/p", "", &files, None, None, None, None);
    assert!(out.contains("<code>\n\n        </code>"));
}

#[test]
fn crlf_code_lines_are_split_and_joined_with_newline() {
    let files = vec![record("a.c", "```\nint a;\r\nint b;\r\n```")];
    let out = ClaudeFormatter::format("/p", "", &files, None, None, None, None);
    assert!(out.contains("<code>\n            int a;\n            int b;\n        </code>"));
}

#[test]
fn git_sections_present_and_nonempty_only() {
    let out = ClaudeFormatter::format("/p", "", &[], Some("D"), Some(""), None, None);
    assert!(out.contains("<git_diff>\n    D\n</git_diff>\n\n"));
    assert!(!out.contains("<git_diff_branch>\n"));
    assert!(!out.contains("<git_log_branch>"));
}

#[test]
fn git_sections_keep_fixed_order() {
    let out = ClaudeFormatter::format("/p", "", &[], Some("D"), Some("B"), Some("L"), None);
    let d = out.find("<git_diff>\n").unwrap();
    let b = out.find("<git_diff_branch>\n").unwrap();
    let l = out.find("<git_log_branch>\n").unwrap();
    assert!(d < b && b < l);
}

#[test]
fn instructions_empty_string_still_emitted() {
    let out = ClaudeFormatter::format("/p", "", &[], None, None, None, Some(""));
    assert!(out.contains("<instructions>\n\n</instructions>\n\n"));
    assert!(out.contains(". Then, follow the instructions given in <instructions>"));
}

#[test]
fn instructions_absent_not_emitted() {
    let out = ClaudeFormatter::format("/p", "", &[], None, None, None, None);
    assert!(!out.contains("<instructions>"));
    assert!(!out.contains("follow the instructions"));
}

#[test]
fn review_clause_lists_present_tags_in_order() {
    let out = ClaudeFormatter::format("/p", "", &[], Some("D"), None, Some("L"), None);
    assert!(out.contains(
        ". Review any git changes in <git_diff>, <git_log_branch> if present"
    ));
    assert!(!out.contains("<git_diff_branch>"));
}

#[test]
fn review_clause_lists_present_tags_even_with_empty_text() {
    // A present-but-empty diff yields no section of its own, yet the clause,
    // owed to the emitted branch diff, still names every present argument.
    let out = ClaudeFormatter::format("/p", "", &[], Some(""), Some("B"), None, None);
    assert!(!out.contains("<git_diff>\n"));
    assert!(out.contains(
        ". Review any git changes in <git_diff>, <git_diff_branch> if present"
    ));
}

#[test]
fn review_clause_absent_when_no_git_section_emitted() {
    let out = ClaudeFormatter::format("/p", "", &[], Some(""), Some(""), Some(""), None);
    assert!(!out.contains("Review any git changes"));
    let out2 = ClaudeFormatter::format("/p", "", &[], None, None, None, None);
    assert!(!out2.contains("Review any git changes"));
}

#[test]
fn indent_text_pads_nonblank_lines_only() {
    assert_eq!(ClaudeFormatter::indent_text("a\n  \nb", 4), "    a\n\n    b");
    assert_eq!(ClaudeFormatter::indent_text("", 4), "");
    assert_eq!(ClaudeFormatter::indent_text("x\n", 2), "  x");
    assert_eq!(ClaudeFormatter::indent_text("p\r\nq", 1), " p\n q");
    assert_eq!(ClaudeFormatter::indent_text("only", 0), "only");
}

#[test]
fn remove_markdown_fences_exactly_two_fence_lines() {
    assert_eq!(ClaudeFormatter::remove_markdown_fences("```rust\ncode\n```"), "code");
    assert_eq!(ClaudeFormatter::remove_markdown_fences("plain\ntext"), "plain\ntext");
    assert_eq!(ClaudeFormatter::remove_markdown_fences("```\na\nb\n```"), "a\nb");
    assert_eq!(ClaudeFormatter::remove_markdown_fences("x\n```"), "x\n```");
    assert_eq!(ClaudeFormatter::remove_markdown_fences("``\na\n``"), "``\na\n``");
}

#[test]
fn path_is_rendered_verbatim() {
    let out = ClaudeFormatter::format(
        "/tmp/sp ace/pro-ject",
        "",
        &[],
        None,
        None,
        None,
        None,
    );
    assert!(out.starts_with("<project_path>/tmp/sp ace/pro-ject</project_path>\n\n"));
}
