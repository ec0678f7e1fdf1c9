use comment_checker::api::{
    EXIT_BLOCK, EXIT_PASS, EditInput, HookCheckResult, HookInput, ToolInput, check_hook_input,
    decide, fallback_json, filter_new_comments, get_content_to_check, skip, success,
};
use comment_checker::detector::CommentDetector;
use comment_checker::models::{CommentInfo, CommentType};

fn python_detector() -> CommentDetector {
    let mut detector = CommentDetector::new();
    detector.register_grammar("python", tree_sitter_python::LANGUAGE.into());
    detector
}

fn write_input(file_path: &str, content: &str) -> HookInput {
    HookInput {
        tool_name: "Write".to_string(),
        tool_input: ToolInput {
            file_path: file_path.to_string(),
            content: content.to_string(),
            ..ToolInput::default()
        },
    }
}

fn comment(text: &str, line_number: usize) -> CommentInfo {
    CommentInfo::new(text, line_number, "test.py", CommentType::Line, false)
}

#[test]
fn check_hook_input_given_clean_write_returns_pass() {
    // given
    let input =
        r#"{"tool_name":"Write","tool_input":{"file_path":"test.py","content":"print(1)"}}"#;
    let parsed = write_input("test.py", "print(1)");

    // when
    let result = check_hook_input(&python_detector(), input, Some(&parsed), "");

    // then
    assert_eq!(result.exit_code, 0);
    assert!(result.message.contains("Success"));
}

#[test]
fn check_hook_input_given_comment_blocks_with_listing() {
    let input = r##"{"tool_name":"Write","tool_input":{"file_path":"test.py","content":"# comment\nprint(1)"}}"##;
    let parsed = write_input("test.py", "# comment\nprint(1)");
    let result = check_hook_input(&python_detector(), input, Some(&parsed), "");
    assert_eq!(result.exit_code, EXIT_BLOCK);
    assert!(result.message.contains("<comments file=\"test.py\">"));
    assert!(result.message.contains("COMMENT/DOCSTRING DETECTED"));
}

#[test]
fn check_hook_input_skips_empty_and_unreadable_input() {
    let detector = python_detector();
    let empty = check_hook_input(&detector, "", None, "");
    assert_eq!(empty, HookCheckResult::pass("[check-comments] Skipping: No input provided\n"));
    let invalid = check_hook_input(&detector, "invalid json", None, "");
    assert_eq!(invalid.exit_code, EXIT_PASS);
    assert_eq!(invalid.message, "[check-comments] Skipping: Invalid input format\n");
}

#[test]
fn check_hook_input_skips_missing_path_non_code_and_empty_content() {
    let detector = python_detector();
    let no_path = write_input("", "# c");
    assert_eq!(
        check_hook_input(&detector, "{}", Some(&no_path), "").message,
        "[check-comments] Skipping: No file path provided\n"
    );
    let non_code = write_input("notes.txt", "# c");
    assert_eq!(
        check_hook_input(&detector, "{}", Some(&non_code), "").message,
        "[check-comments] Skipping: Non-code file\n"
    );
    let empty = write_input("a.py", "");
    assert_eq!(
        check_hook_input(&detector, "{}", Some(&empty), "").message,
        "[check-comments] Skipping: No content to check\n"
    );
    let mut edit = write_input("a.py", "");
    edit.tool_name = "Edit".to_string();
    assert_eq!(
        check_hook_input(&detector, "{}", Some(&edit), "").message,
        "[check-comments] Skipping: No content to check\n"
    );
    let mut multi = write_input("a.py", "# c");
    multi.tool_name = "MultiEdit".to_string();
    assert_eq!(
        check_hook_input(&detector, "{}", Some(&multi), "").message,
        "[check-comments] Skipping: No content to check\n"
    );
}

#[test]
fn check_hook_input_given_edit_of_existing_comment_passes() {
    let mut edit = write_input("test.py", "");
    edit.tool_name = "Edit".to_string();
    edit.tool_input.old_string = "# comment\nx = 1".to_string();
    edit.tool_input.new_string = "# comment\nx = 2".to_string();
    let result = check_hook_input(&python_detector(), "{}", Some(&edit), "");
    assert_eq!(result.exit_code, EXIT_PASS);
    assert!(result.message.contains("Success"));
}

#[test]
fn check_hook_input_given_multiedit_new_comment_blocks() {
    let mut multi = write_input("test.py", "");
    multi.tool_name = "MultiEdit".to_string();
    multi.tool_input.edits = vec![
        EditInput { old_string: "x".to_string(), new_string: "# comment\ny".to_string() },
        EditInput { old_string: "z".to_string(), new_string: String::new() },
    ];
    let result = check_hook_input(&python_detector(), "{}", Some(&multi), "");
    assert_eq!(result.exit_code, EXIT_BLOCK);
}

#[test]
fn check_hook_input_given_bdd_comment_passes() {
    let parsed = write_input("test.py", "# given\nprint(1)");
    let result = check_hook_input(&python_detector(), "{}", Some(&parsed), "");
    assert_eq!(result.exit_code, EXIT_PASS);
    assert!(result.message.contains("Success"));
}

#[test]
fn get_content_to_check_picks_the_written_text() {
    let mut input = write_input("a.py", "content");
    input.tool_input.new_string = "new".to_string();
    assert_eq!(get_content_to_check(&input), "content");
    input.tool_name = "Edit".to_string();
    assert_eq!(get_content_to_check(&input), "new");
    input.tool_name = "MultiEdit".to_string();
    assert_eq!(get_content_to_check(&input), "");
    input.tool_name = "Other".to_string();
    assert_eq!(get_content_to_check(&input), "content");
    input.tool_input.content = String::new();
    assert_eq!(get_content_to_check(&input), "new");
}

#[test]
fn filter_new_comments_keeps_only_comments_absent_before() {
    let old = vec![comment("  # Same  ", 1), comment("# gone", 2)];
    let new = vec![comment("# same", 4), comment("# Fresh", 5), comment("#   same", 6)];
    let result = filter_new_comments(&old, &new);
    let texts: Vec<&str> = result.iter().map(|c| c.text.as_str()).collect();
    assert_eq!(texts, vec!["# Fresh", "#   same"]);
    assert_eq!(filter_new_comments(&[], &new), new);
}

#[test]
fn decide_passes_allowed_comments_and_blocks_others() {
    assert_eq!(decide(&[], ""), success());
    assert_eq!(decide(&[comment("# given", 1)], ""), success());
    let blocked = decide(&[comment("# real", 1)], "Fix {{comments}}");
    assert_eq!(blocked.exit_code, EXIT_BLOCK);
    assert_eq!(
        blocked.message,
        "Fix <comments file=\"test.py\">\n\t<comment line-number=\"1\"># real</comment>\n</comments>\n"
    );
}

#[test]
fn skip_formats_its_reason() {
    assert_eq!(skip("why").message, "[check-comments] Skipping: why\n");
    assert_eq!(skip("why").exit_code, EXIT_PASS);
    assert_eq!(HookCheckResult::block("m").exit_code, EXIT_BLOCK);
}

#[test]
fn fallback_json_escapes_backslashes_and_quotes() {
    let json = fallback_json("bad \"key\" at C:\\x");
    assert_eq!(
        json,
        "{\"exitCode\":1,\"message\":\"serialization failed: bad \\\"key\\\" at C:\\\\x\"}"
    );
    assert_eq!(fallback_json(""), "{\"exitCode\":1,\"message\":\"serialization failed: \"}");
}

#[test]
fn check_hook_input_given_edit_that_changes_nothing_passes() {
    let mut edit = write_input("test.py", "");
    edit.tool_name = "Edit".to_string();
    edit.tool_input.old_string = "# TODO remove\n\"\"\"Doc.\"\"\"\nx = 1".to_string();
    edit.tool_input.new_string = edit.tool_input.old_string.clone();
    let result = check_hook_input(&python_detector(), "{}", Some(&edit), "");
    assert_eq!(result, success());
}

#[test]
fn check_hook_input_blocks_with_the_message_on_the_filtered_comments() {
    let content = "# given\n# keep me\nprint(1)";
    let parsed = write_input("test.py", content);
    let result = check_hook_input(&python_detector(), "{}", Some(&parsed), "");
    let expected = decide(&[comment("# keep me", 2)], "");
    assert_eq!(result, expected);
    assert_eq!(result.exit_code, EXIT_BLOCK);
}
