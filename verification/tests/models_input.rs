use comment_checker::input::{decode_file_bytes, latin1_to_string, read_string};
use comment_checker::models::{CommentInfo, CommentType};

#[test]
fn normalized_text_given_whitespace_returns_stripped_lowercase() {
    // given
    let comment = CommentInfo::new("  # HELLO  ", 1, "test.py", CommentType::Line, false);

    // when
    let normalized = comment.normalized_text();

    // then
    assert_eq!(normalized, "# hello");
}

#[test]
fn read_string_given_content_returns_same_content() {
    // given
    let content = "print('hello')";

    // when
    let result = read_string(content);

    // then
    assert_eq!(result, content);
}

#[test]
fn normalized_text_lowers_beyond_ascii_and_trims_unicode_whitespace() {
    let comment = CommentInfo::new("\u{3000}\t# ÉTÉ\u{A0}\n", 3, "a.py", CommentType::Line, false);
    assert_eq!(comment.normalized_text(), "# été");
}

#[test]
fn comment_info_new_keeps_fields_and_has_no_metadata() {
    let comment = CommentInfo::new("// x", 7, "src/a.rs", CommentType::Block, false);
    assert_eq!(comment.text, "// x");
    assert_eq!(comment.line_number, 7);
    assert_eq!(comment.file_path, "src/a.rs");
    assert_eq!(comment.comment_type, CommentType::Block);
    assert!(!comment.is_docstring);
    assert!(comment.metadata.is_empty());
    assert_eq!(comment.duplicate(), comment);
}

#[test]
fn decode_file_bytes_given_utf8_returns_decoded_text() {
    assert_eq!(decode_file_bytes("café ☕".as_bytes()), "café ☕");
    assert_eq!(decode_file_bytes(&[]), "");
}

#[test]
fn decode_file_bytes_given_invalid_utf8_falls_back_to_latin1() {
    assert_eq!(decode_file_bytes(&[0x63, 0x61, 0x66, 0xe9]), "caf\u{e9}");
    assert_eq!(latin1_to_string(&[0x41, 0xff, 0x00]), "A\u{ff}\u{0}");
}
