use comment_checker::language::{language_for_extension, language_for_path};

#[test]
fn language_for_path_supports_dockerfile_basename() {
    // given
    let file_path = "Dockerfile";

    // when
    let language = language_for_path(file_path);

    // then
    assert_eq!(language.map(|spec| spec.name), Some("dockerfile"));
}

#[test]
fn language_for_extension_supports_all_go_aliases() {
    // given
    let aliases = [
        "py",
        "js",
        "jsx",
        "ts",
        "tsx",
        "go",
        "java",
        "kt",
        "scala",
        "c",
        "h",
        "cpp",
        "cc",
        "cxx",
        "hpp",
        "rs",
        "rb",
        "sh",
        "bash",
        "cs",
        "swift",
        "ex",
        "exs",
        "lua",
        "php",
        "ml",
        "mli",
        "sql",
        "html",
        "htm",
        "css",
        "yaml",
        "yml",
        "toml",
        "hcl",
        "tf",
        "dockerfile",
        "proto",
        "svelte",
        "elm",
        "groovy",
        "cue",
    ];

    // when
    let missing: Vec<&str> = aliases
        .iter()
        .copied()
        .filter(|alias| language_for_extension(alias).is_none())
        .collect();

    // then
    assert!(missing.is_empty(), "missing aliases: {missing:?}");
}

#[test]
fn language_for_extension_ignores_ascii_case_and_leading_dots() {
    assert_eq!(language_for_extension("PY").map(|spec| spec.name), Some("python"));
    assert_eq!(language_for_extension(".rs").map(|spec| spec.name), Some("rust"));
    assert_eq!(language_for_extension("..Go").map(|spec| spec.name), Some("go"));
    assert_eq!(language_for_extension("xyz"), None);
    assert_eq!(language_for_extension(""), None);
}

#[test]
fn language_for_path_uses_last_segment_and_last_extension() {
    assert_eq!(language_for_path("src/lib.rs").map(|spec| spec.name), Some("rust"));
    assert_eq!(language_for_path("a.b/c.tar.py").map(|spec| spec.name), Some("python"));
    assert_eq!(language_for_path("dir/Dockerfile").map(|spec| spec.name), Some("dockerfile"));
    assert_eq!(language_for_path("dir/"), None);
    assert_eq!(language_for_path("notes.txt"), None);
    assert_eq!(language_for_path("weird."), None);
}

#[test]
fn language_spec_carries_the_queries_of_its_language() {
    let rust = language_for_path("main.rs").unwrap();
    assert_eq!(rust.comment_query, "(line_comment) @comment\n(block_comment) @comment");
    assert_eq!(rust.docstring_query, None);
    let kotlin = language_for_path("Main.kt").unwrap();
    assert_eq!(kotlin.comment_query, "(line_comment) @comment\n(multiline_comment) @comment");
    let python = language_for_path("a.py").unwrap();
    assert_eq!(python.comment_query, "(comment) @comment");
    assert!(python.docstring_query.unwrap().contains("(module . (expression_statement (string) @docstring))"));
    let ts = language_for_path("a.ts").unwrap();
    assert!(ts.docstring_query.unwrap().contains("(#match? @jsdoc \"^/\\*\\*\")"));
    let java = language_for_path("A.java").unwrap();
    assert!(java.docstring_query.unwrap().contains("@javadoc"));
}

#[test]
fn language_for_extension_supports_perl_and_markdown() {
    for ext in ["pl", "pm", ".PL"] {
        assert_eq!(language_for_extension(ext).map(|spec| spec.name), Some("perl"));
    }
    for ext in ["md", "markdown", "MD"] {
        assert_eq!(language_for_extension(ext).map(|spec| spec.name), Some("markdown"));
    }
    assert_eq!(language_for_path("docs/README.md").map(|spec| spec.name), Some("markdown"));
}
