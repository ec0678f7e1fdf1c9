use comment_checker::models::{CommentInfo, CommentType};
use comment_checker::output::{build_comments_xml, format_hook_message};

fn comment(text: &str, line_number: usize, file_path: &str) -> CommentInfo {
    CommentInfo::new(text, line_number, file_path, CommentType::Line, false)
}

#[test]
fn build_comments_xml_given_single_comment_returns_exact_shape() {
    // given
    let comments = vec![comment("# TODO: fix this", 10, "src/app.py")];

    // when
    let result = build_comments_xml(&comments, "src/app.py");

    // then
    assert_eq!(
        result,
        "<comments file=\"src/app.py\">\n\t<comment line-number=\"10\"># TODO: fix this</comment>\n</comments>",
    );
}

#[test]
fn build_comments_xml_given_empty_comments_returns_empty_string() {
    // given
    let comments = Vec::new();

    // when
    let result = build_comments_xml(&comments, "src/app.py");

    // then
    assert_eq!(result, "");
}

#[test]
fn format_hook_message_given_single_comment_contains_default_warning() {
    // given
    let comments = vec![comment("# TODO: fix this", 10, "src/app.py")];

    // when
    let result = format_hook_message(&comments, "");

    // then
    assert!(result.contains("COMMENT/DOCSTRING DETECTED - IMMEDIATE ACTION REQUIRED"));
    assert!(result.contains("<comments file=\"src/app.py\">"));
    assert!(result.contains("<comment line-number=\"10\"># TODO: fix this</comment>"));
    assert!(result.contains("PRIORITY-BASED ACTION GUIDELINES:"));
}

#[test]
fn format_hook_message_given_multiple_comments_single_file_groups_xml() {
    // given
    let comments = vec![
        comment("# First comment", 5, "src/main.py"),
        comment("# Second comment", 15, "src/main.py"),
    ];

    // when
    let result = format_hook_message(&comments, "");

    // then
    assert!(result.contains("<comments file=\"src/main.py\">"));
    assert!(result.contains("<comment line-number=\"5\"># First comment</comment>"));
    assert!(result.contains("<comment line-number=\"15\"># Second comment</comment>"));
    assert_eq!(result.matches("<comments file=\"src/main.py\">").count(), 1);
    assert_eq!(result.matches("</comments>").count(), 1);
}

#[test]
fn format_hook_message_given_comments_multiple_files_returns_separate_xml_blocks() {
    // given
    let comments = vec![
        comment("# Comment in file 1", 10, "src/file1.py"),
        comment("# Comment in file 2", 20, "src/file2.py"),
    ];

    // when
    let result = format_hook_message(&comments, "");

    // then
    assert!(result.contains("<comments file=\"src/file1.py\">"));
    assert!(result.contains("<comments file=\"src/file2.py\">"));
    assert!(result.contains("<comment line-number=\"10\"># Comment in file 1</comment>"));
    assert!(result.contains("<comment line-number=\"20\"># Comment in file 2</comment>"));
    assert_eq!(result.matches("</comments>").count(), 2);
}

#[test]
fn format_hook_message_given_empty_list_returns_empty_string() {
    // given
    let comments = Vec::new();

    // when
    let result = format_hook_message(&comments, "");

    // then
    assert_eq!(result, "");
}

#[test]
fn format_hook_message_given_docstring_comment_returns_formatted_message() {
    // given
    let comments = vec![CommentInfo::new(
        "\"\"\"Module docstring.\"\"\"",
        1,
        "src/utils.py",
        CommentType::Docstring,
        true,
    )];

    // when
    let result = format_hook_message(&comments, "");

    // then
    assert!(result.contains("COMMENT/DOCSTRING DETECTED - IMMEDIATE ACTION REQUIRED"));
    assert!(result.contains("<comments file=\"src/utils.py\">"));
    assert!(result.contains(r#"<comment line-number="1">"""Module docstring."""</comment>"#));
    assert!(result.contains("MANDATORY REQUIREMENT:"));
}

#[test]
fn format_hook_message_given_comment_uses_tabs_for_xml_indentation() {
    // given
    let comments = vec![comment("# Comment", 5, "src/test.py")];

    // when
    let result = format_hook_message(&comments, "");

    // then
    assert!(result.contains("\t<comment line-number=\"5\"># Comment</comment>"));
}

#[test]
fn format_hook_message_given_custom_prompt_replaces_placeholder() {
    // given
    let comments = vec![comment("# Test comment", 10, "src/app.py")];
    let custom_prompt = "CUSTOM WARNING\n{{comments}}\nPlease fix.";

    // when
    let result = format_hook_message(&comments, custom_prompt);

    // then
    assert!(result.contains("CUSTOM WARNING"));
    assert!(result.contains("<comments file=\"src/app.py\">"));
    assert!(result.contains("Please fix."));
    assert!(!result.contains("COMMENT/DOCSTRING DETECTED"));
}

#[test]
fn format_hook_message_given_custom_prompt_without_placeholder_returns_custom_only() {
    // given
    let comments = vec![comment("# Test", 1, "test.py")];
    let custom_prompt = "Simple warning without placeholder.";

    // when
    let result = format_hook_message(&comments, custom_prompt);

    // then
    assert_eq!(result, "Simple warning without placeholder.");
}

#[test]
fn format_hook_message_given_agent_memo_contains_memo_warning() {
    // given
    let comments = vec![comment(
        "# Modified to use new implementation",
        1,
        "src/app.py",
    )];

    // when
    let result = format_hook_message(&comments, "");

    // then
    assert!(result.contains("AGENT MEMO"));
    assert!(result.contains("CODE SMELL"));
}

#[test]
fn format_hook_message_replaces_every_placeholder() {
    let comments = vec![comment("# a", 3, "x.py")];
    let listing = "<comments file=\"x.py\">\n\t<comment line-number=\"3\"># a</comment>\n</comments>\n";
    let result = format_hook_message(&comments, "{{comments}}|{{comments}}{{comment");
    assert_eq!(result, format!("{listing}|{listing}{{{{comment"));
}

#[test]
fn format_hook_message_single_file_listing_matches_build_comments_xml() {
    let comments = vec![comment("# a", 1, "x.py"), comment("# b", 22, "x.py")];
    let result = format_hook_message(&comments, "{{comments}}");
    assert_eq!(result, build_comments_xml(&comments, "x.py") + "\n");
}

#[test]
fn format_hook_message_groups_files_in_order_of_first_comment() {
    let comments = vec![
        comment("# b1", 1, "b.py"),
        comment("# a1", 2, "a.py"),
        comment("# b2", 3, "b.py"),
    ];
    let result = format_hook_message(&comments, "{{comments}}");
    assert_eq!(
        result,
        "<comments file=\"b.py\">\n\t<comment line-number=\"1\"># b1</comment>\n\t<comment line-number=\"3\"># b2</comment>\n</comments>\n<comments file=\"a.py\">\n\t<comment line-number=\"2\"># a1</comment>\n</comments>\n"
    );
}

#[test]
fn format_hook_message_lists_agent_memos_with_trimmed_text() {
    let comments = vec![comment("  # Removed the old path  ", 12, "a.py"), comment("# fine", 13, "a.py")];
    let result = format_hook_message(&comments, "");
    assert!(result.starts_with("\u{1F6A8} AGENT MEMO COMMENT DETECTED - CODE SMELL ALERT \u{1F6A8}\n\n"));
    assert!(result.contains("Detected agent memo comments:\n  - Line 12: # Removed the old path\n\n---\n\n"));
    assert!(!result.contains("Line 13:"));
    assert!(result.ends_with("Detected comments/docstrings:\n<comments file=\"a.py\">\n\t<comment line-number=\"12\">  # Removed the old path  </comment>\n\t<comment line-number=\"13\"># fine</comment>\n</comments>\n"));
}

#[test]
fn build_comments_xml_prints_large_line_numbers_in_decimal() {
    let comments = vec![comment("#", 1234567890, "f"), comment("#", 0, "f")];
    assert_eq!(
        build_comments_xml(&comments, "f"),
        "<comments file=\"f\">\n\t<comment line-number=\"1234567890\">#</comment>\n\t<comment line-number=\"0\">#</comment>\n</comments>"
    );
}
