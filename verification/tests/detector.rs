use comment_checker::detector::{
    CommentDetector, RawCapture, comments_from_captures, detect_python_docstrings,
    determine_comment_type, lines_of,
};
use comment_checker::models::CommentType;

fn detector_with_grammars() -> CommentDetector {
    let mut detector = CommentDetector::new();
    detector.register_grammar("python", tree_sitter_python::LANGUAGE.into());
    detector.register_grammar("go", tree_sitter_go::LANGUAGE.into());
    detector.register_grammar("javascript", tree_sitter_javascript::LANGUAGE.into());
    detector.register_grammar("typescript", tree_sitter_typescript::LANGUAGE_TYPESCRIPT.into());
    detector.register_grammar("tsx", tree_sitter_typescript::LANGUAGE_TSX.into());
    detector.register_grammar("java", tree_sitter_java::LANGUAGE.into());
    detector.register_grammar("c", tree_sitter_c::LANGUAGE.into());
    detector.register_grammar("cpp", tree_sitter_cpp::LANGUAGE.into());
    detector.register_grammar("rust", tree_sitter_rust::LANGUAGE.into());
    detector.register_grammar("ruby", tree_sitter_ruby::LANGUAGE.into());
    detector.register_grammar("bash", tree_sitter_bash::LANGUAGE.into());
    detector.register_grammar("kotlin", tree_sitter_kotlin_sg::LANGUAGE.into());
    detector.register_grammar("swift", tree_sitter_swift::LANGUAGE.into());
    detector
}

#[test]
fn detect_given_python_line_comment_returns_comment_info() {
    // given
    let detector = detector_with_grammars();
    let code = "# This is a comment\nprint('hello')";

    // when
    let comments = detector.detect(code, "test.py", false);

    // then
    assert_eq!(comments.len(), 1);
    assert_eq!(comments[0].text, "# This is a comment");
    assert_eq!(comments[0].line_number, 1);
    assert_eq!(comments[0].file_path, "test.py");
    assert_eq!(comments[0].comment_type, CommentType::Line);
    assert!(!comments[0].is_docstring);
}

#[test]
fn detect_given_typescript_block_comment_returns_block_comment() {
    // given
    let detector = detector_with_grammars();
    let code = "/* This is a block comment */\nconst x = 1;";

    // when
    let comments = detector.detect(code, "test.ts", false);

    // then
    assert_eq!(comments.len(), 1);
    assert_eq!(comments[0].text, "/* This is a block comment */");
    assert_eq!(comments[0].comment_type, CommentType::Block);
}

#[test]
fn detect_given_python_docstring_with_docstrings_returns_docstring() {
    // given
    let detector = detector_with_grammars();
    let code = "\"\"\"This is a module docstring.\"\"\"\ndef hello():\n    pass";

    // when
    let comments = detector.detect(code, "module.py", true);

    // then
    assert!(comments.iter().any(|comment| {
        comment.is_docstring
            && comment.comment_type == CommentType::Docstring
            && comment.text.contains("module docstring")
    }));
}

#[test]
fn detect_given_unsupported_extension_returns_empty_list() {
    // given
    let detector = detector_with_grammars();

    // when
    let comments = detector.detect("some random content", "test.xyz", false);

    // then
    assert!(comments.is_empty());
}

#[test]
fn detect_given_go_comment_returns_comment_info() {
    // given
    let detector = detector_with_grammars();
    let code = "// This is a Go comment\npackage main\n\nfunc main() {}";

    // when
    let comments = detector.detect(code, "main.go", false);

    // then
    assert_eq!(comments.len(), 1);
    assert_eq!(comments[0].text, "// This is a Go comment");
    assert_eq!(comments[0].line_number, 1);
    assert_eq!(comments[0].file_path, "main.go");
    assert_eq!(comments[0].comment_type, CommentType::Line);
    assert!(!comments[0].is_docstring);
}

#[test]
fn detect_given_multilanguage_smoke_cases_returns_comment() {
    // given
    let detector = detector_with_grammars();
    let cases = [
        ("main.go", "// Go comment\npackage main", "Go comment"),
        (
            "test.ts",
            "// TypeScript comment\nconst x: number = 1;",
            "TypeScript comment",
        ),
        (
            "test.js",
            "// JavaScript comment\nconst x = 1;",
            "JavaScript comment",
        ),
        (
            "Test.java",
            "// Java comment\npublic class Test {}",
            "Java comment",
        ),
        (
            "main.c",
            "// C comment\nint main() { return 0; }",
            "C comment",
        ),
        (
            "main.cpp",
            "// C++ comment\nint main() { return 0; }",
            "C++ comment",
        ),
        ("main.rs", "// Rust comment\nfn main() {}", "Rust comment"),
        ("test.rb", "# Ruby comment\nputs \"hello\"", "Ruby comment"),
        (
            "script.sh",
            "# Bash comment\necho \"hello\"",
            "Bash comment",
        ),
        (
            "Main.kt",
            "// Kotlin comment\nfun main() {}",
            "Kotlin comment",
        ),
        (
            "main.swift",
            "// Swift comment\nprint(\"hello\")",
            "Swift comment",
        ),
    ];

    // when
    let results: Vec<_> = cases
        .iter()
        .map(|(path, source, expected)| {
            let comments = detector.detect(source, path, false);
            (comments, expected)
        })
        .collect();

    // then
    for (comments, expected) in results {
        assert_eq!(comments.len(), 1, "expected one comment for {expected}");
        assert!(comments[0].text.contains(expected));
        assert_eq!(comments[0].comment_type, CommentType::Line);
    }
}

#[test]
fn detect_given_javascript_block_comment_returns_block_comment() {
    // given
    let detector = detector_with_grammars();
    let code = "/* block comment */\nconst x = 1;";

    // when
    let comments = detector.detect(code, "test.js", false);

    // then
    assert_eq!(comments.len(), 1);
    assert!(comments[0].text.contains("block comment"));
    assert_eq!(comments[0].comment_type, CommentType::Block);
}

#[test]
fn detect_given_c_block_comment_returns_block_comment() {
    // given
    let detector = detector_with_grammars();
    let code = "/* C block comment */\nint main() { return 0; }";

    // when
    let comments = detector.detect(code, "main.c", false);

    // then
    assert_eq!(comments.len(), 1);
    assert!(comments[0].text.contains("C block comment"));
    assert_eq!(comments[0].comment_type, CommentType::Block);
}

#[test]
fn detect_python_docstrings_numbers_lines_from_one_and_handles_crlf() {
    let content = "x = 1\r\n    \"\"\"Doc.\"\"\"\r\n'''other'''\n\"\"\"last\"\"\"\r";
    let docs = detect_python_docstrings(content, "m.py");
    let found: Vec<(usize, &str)> = docs.iter().map(|c| (c.line_number, c.text.as_str())).collect();
    assert_eq!(found, vec![(2, "\"\"\"Doc.\"\"\""), (3, "'''other'''"), (4, "\"\"\"last\"\"\"\r")]);
    assert!(docs.iter().all(|c| c.is_docstring && c.comment_type == CommentType::Docstring));
}

#[test]
fn detect_lines_of_follows_str_lines() {
    let text = "foo\nbar\n\r\nbaz\r";
    let chars: Vec<char> = text.chars().collect();
    let lines: Vec<String> = lines_of(&chars).into_iter().map(|l| l.into_iter().collect()).collect();
    let expected: Vec<String> = text.lines().map(String::from).collect();
    assert_eq!(lines, expected);
    let empty: Vec<char> = Vec::new();
    assert!(lines_of(&empty).is_empty());
}

#[test]
fn determine_comment_type_uses_node_kind_then_text() {
    assert_eq!(determine_comment_type("/* x */", "line_comment"), CommentType::Line);
    assert_eq!(determine_comment_type("// x", "block_comment"), CommentType::Block);
    assert_eq!(determine_comment_type("x", "multiline_comment"), CommentType::Block);
    assert_eq!(determine_comment_type("  \"\"\"doc\"\"\"", "comment"), CommentType::Docstring);
    assert_eq!(determine_comment_type("'''doc'''", "comment"), CommentType::Docstring);
    assert_eq!(determine_comment_type("# x", "comment"), CommentType::Line);
    assert_eq!(determine_comment_type("<!-- x -->", "comment"), CommentType::Block);
    assert_eq!(determine_comment_type("-- x", "comment"), CommentType::Block);
    assert_eq!(determine_comment_type("; x", "comment"), CommentType::Line);
}

#[test]
fn comments_from_captures_adds_docstrings_after_comments() {
    let captures = vec![
        RawCapture { text: Some("/** Doc */".to_string()), row: 0, kind: "comment".to_string() },
        RawCapture { text: None, row: 3, kind: "comment".to_string() },
        RawCapture { text: Some("// x".to_string()), row: 4, kind: "comment".to_string() },
    ];
    let without = comments_from_captures(&captures, "typescript", "", "a.ts", false);
    let with = comments_from_captures(&captures, "typescript", "", "a.ts", true);
    assert_eq!(without.len(), 2);
    assert_eq!(without[0].line_number, 1);
    assert_eq!(without[1].line_number, 5);
    assert_eq!(without[0].comment_type, CommentType::Block);
    assert_eq!(with.len(), 3);
    assert_eq!(&with[..2], &without[..]);
    assert_eq!(with[2].text, "/** Doc */");
    assert_eq!(with[2].comment_type, CommentType::Docstring);
    assert!(with[2].is_docstring);
    let other = comments_from_captures(&captures, "go", "", "a.go", true);
    assert_eq!(other.len(), 2);
}

#[test]
fn detect_given_jsdoc_with_docstrings_reports_it_twice() {
    let detector = detector_with_grammars();
    let comments = detector.detect("/** Adds. */\nfunction add() {}", "a.js", true);
    assert_eq!(comments.len(), 2);
    assert_eq!(comments[0].comment_type, CommentType::Block);
    assert_eq!(comments[1].comment_type, CommentType::Docstring);
    assert_eq!(comments[1].line_number, 1);
}

#[test]
fn detect_given_unregistered_grammar_returns_empty_list() {
    let detector = CommentDetector::new();
    assert!(detector.detect("# c\nx = 1", "a.py", true).is_empty());
}

#[test]
fn register_grammar_replaces_a_grammar_of_the_same_name() {
    let mut detector = CommentDetector::new();
    detector.register_grammar("python", tree_sitter_go::LANGUAGE.into());
    detector.register_grammar("python", tree_sitter_python::LANGUAGE.into());
    let comments = detector.detect("# c\nx = 1", "a.py", false);
    assert_eq!(comments.len(), 1);
    assert_eq!(comments[0].line_number, 1);
}

#[test]
fn detect_with_docstrings_only_appends_docstrings() {
    let detector = detector_with_grammars();
    let code = "# note\ndef f():\n    \"\"\"Doc.\"\"\"\n    return 1\n";
    let without = detector.detect(code, "m.py", false);
    let with = detector.detect(code, "m.py", true);
    assert!(with.len() > without.len());
    assert_eq!(&with[..without.len()], &without[..]);
    for c in &with[without.len()..] {
        assert_eq!(c.comment_type, CommentType::Docstring);
        assert!(c.is_docstring);
    }
    let go = "// note\npackage main\n";
    assert_eq!(detector.detect(go, "m.go", true), detector.detect(go, "m.go", false));
}

#[test]
fn detect_finds_texts_that_stand_in_the_content() {
    let detector = detector_with_grammars();
    let code = "x = 1  # trailing\n    '''lone'''\n/* no */\n";
    for c in detector.detect(code, "m.py", true) {
        assert!(code.contains(c.text.as_str()), "{:?}", c.text);
    }
    let js = "let a = 1; /** doc */\n// line\n";
    let found = detector.detect(js, "m.js", true);
    assert_eq!(found.len(), 3);
    for c in found {
        assert!(js.contains(c.text.as_str()));
    }
}

#[test]
fn detect_numbers_lines_within_the_content() {
    let detector = detector_with_grammars();
    let code = "# one\n\n\"\"\"two\"\"\"\nx = 1  # three";
    let found = detector.detect(code, "m.py", true);
    assert_eq!(
        found.iter().map(|c| c.line_number).collect::<Vec<_>>(),
        vec![1, 4, 3]
    );
    let last = code.matches('\n').count() + 1;
    for c in found {
        assert!(1 <= c.line_number && c.line_number <= last);
    }
}
