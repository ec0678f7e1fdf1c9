//! Mapping from file names and extensions to tree-sitter languages.
use vstd::prelude::*;

use crate::text::{
    ascii_lower, ascii_lower_seq, ascii_lower_spec, chars_of, copy_range, equals_str,
    is_ascii_upper_spec,
};

verus! {

/// Query that captures `line_comment` and `block_comment` nodes.
pub const LINE_BLOCK_COMMENT_QUERY: &'static str =
    "(line_comment) @comment\n(block_comment) @comment";

/// Query that captures `line_comment` and `multiline_comment` nodes.
pub const LINE_MULTILINE_COMMENT_QUERY: &'static str =
    "(line_comment) @comment\n(multiline_comment) @comment";

/// Query that captures `comment` nodes.
pub const COMMENT_QUERY: &'static str = "(comment) @comment";

/// Query for Python module, class and function docstrings.
pub const PYTHON_DOCSTRING_QUERY: &'static str = "\n\t\t(module . (expression_statement (string) @docstring))\n\t\t(class_definition body: (block . (expression_statement (string) @docstring)))\n\t\t(function_definition body: (block . (expression_statement (string) @docstring)))\n\t";

/// Query for JSDoc comments.
pub const JSDOC_QUERY: &'static str = "\n\t\t(comment) @jsdoc\n\t\t(#match? @jsdoc \"^/\\*\\*\")\n\t";

/// Query for Javadoc comments.
pub const JAVADOC_QUERY: &'static str = "\n\t\t(comment) @javadoc\n\t\t(#match? @javadoc \"^/\\*\\*\")\n\t";

/// A language the detector knows, with the tree-sitter queries used for it.
#[derive(Clone, Copy, Debug, PartialEq, Eq)]
pub struct LanguageSpec {
    pub name: &'static str,
    pub comment_query: &'static str,
    pub docstring_query: Option<&'static str>,
}

/// The mathematical value of a `LanguageSpec`.
pub struct LanguageSpecView {
    pub name: Seq<char>,
    pub comment_query: Seq<char>,
    pub docstring_query: Option<Seq<char>>,
}

impl View for LanguageSpec {
    type V = LanguageSpecView;

    open spec fn view(&self) -> LanguageSpecView {
        LanguageSpecView {
            name: self.name@,
            comment_query: self.comment_query@,
            docstring_query: match self.docstring_query {
                Some(q) => Some(q@),
                None => None,
            },
        }
    }
}

/// The view of an optional `LanguageSpec`.
pub open spec fn language_option_view(o: Option<LanguageSpec>) -> Option<LanguageSpecView> {
    match o {
        Some(s) => Some(s@),
        None => None,
    }
}

/// The language that a (lower-case) extension or file name stands for.
pub open spec fn alias_language_spec(ext: Seq<char>) -> Option<Seq<char>> {
    if ext == "py"@ {
        Some("python"@)
    } else if ext == "js"@ || ext == "jsx"@ {
        Some("javascript"@)
    } else if ext == "ts"@ {
        Some("typescript"@)
    } else if ext == "tsx"@ {
        Some("tsx"@)
    } else if ext == "go"@ {
        Some("go"@)
    } else if ext == "java"@ {
        Some("java"@)
    } else if ext == "kt"@ {
        Some("kotlin"@)
    } else if ext == "scala"@ {
        Some("scala"@)
    } else if ext == "c"@ || ext == "h"@ {
        Some("c"@)
    } else if ext == "cpp"@ || ext == "cc"@ || ext == "cxx"@ || ext == "hpp"@ {
        Some("cpp"@)
    } else if ext == "rs"@ {
        Some("rust"@)
    } else if ext == "rb"@ {
        Some("ruby"@)
    } else if ext == "sh"@ || ext == "bash"@ {
        Some("bash"@)
    } else if ext == "cs"@ {
        Some("csharp"@)
    } else if ext == "swift"@ {
        Some("swift"@)
    } else if ext == "ex"@ || ext == "exs"@ {
        Some("elixir"@)
    } else if ext == "lua"@ {
        Some("lua"@)
    } else if ext == "php"@ {
        Some("php"@)
    } else if ext == "ml"@ || ext == "mli"@ {
        Some("ocaml"@)
    } else if ext == "sql"@ {
        Some("sql"@)
    } else if ext == "html"@ || ext == "htm"@ {
        Some("html"@)
    } else if ext == "css"@ {
        Some("css"@)
    } else if ext == "yaml"@ || ext == "yml"@ {
        Some("yaml"@)
    } else if ext == "toml"@ {
        Some("toml"@)
    } else if ext == "hcl"@ || ext == "tf"@ {
        Some("hcl"@)
    } else if ext == "dockerfile"@ {
        Some("dockerfile"@)
    } else if ext == "proto"@ {
        Some("proto"@)
    } else if ext == "svelte"@ {
        Some("svelte"@)
    } else if ext == "elm"@ {
        Some("elm"@)
    } else if ext == "groovy"@ {
        Some("groovy"@)
    } else if ext == "cue"@ {
        Some("cue"@)
    } else if ext == "pl"@ || ext == "pm"@ {
        Some("perl"@)
    } else if ext == "md"@ || ext == "markdown"@ {
        Some("markdown"@)
    } else {
        None
    }
}

/// The comment query used for a language.
pub open spec fn comment_query_spec(name: Seq<char>) -> Seq<char> {
    if name == "rust"@ || name == "java"@ {
        LINE_BLOCK_COMMENT_QUERY@
    } else if name == "kotlin"@ {
        LINE_MULTILINE_COMMENT_QUERY@
    } else {
        COMMENT_QUERY@
    }
}

/// The docstring query of a language, where it has one.
pub open spec fn docstring_query_spec(name: Seq<char>) -> Option<Seq<char>> {
    if name == "python"@ {
        Some(PYTHON_DOCSTRING_QUERY@)
    } else if name == "javascript"@ || name == "typescript"@ || name == "tsx"@ {
        Some(JSDOC_QUERY@)
    } else if name == "java"@ {
        Some(JAVADOC_QUERY@)
    } else {
        None
    }
}

/// The full description of the language called `name`.
pub open spec fn language_spec_of(name: Seq<char>) -> LanguageSpecView {
    LanguageSpecView {
        name,
        comment_query: comment_query_spec(name),
        docstring_query: docstring_query_spec(name),
    }
}

/// `s` without its leading dots.
pub open spec fn strip_leading_dots_spec(s: Seq<char>) -> Seq<char>
    decreases s.len(),
{
    if s.len() > 0 && s[0] == '.' {
        strip_leading_dots_spec(s.drop_first())
    } else {
        s
    }
}

/// `s` holds an ASCII upper-case letter.
pub open spec fn has_ascii_upper_spec(s: Seq<char>) -> bool {
    exists|i: int| 0 <= i < s.len() && is_ascii_upper_spec(#[trigger] s[i])
}

/// The language named by an extension whose leading dots are gone: the
/// extension as it stands, or else, where it holds an upper-case ASCII
/// letter, its lower-case form.
pub open spec fn name_for_extension_spec(ext: Seq<char>) -> Option<Seq<char>> {
    match alias_language_spec(ext) {
        Some(n) => Some(n),
        None => if has_ascii_upper_spec(ext) {
            alias_language_spec(ascii_lower_seq(ext))
        } else {
            None
        },
    }
}

/// The language for an extension, leading dots ignored.
pub open spec fn language_for_extension_spec(extension: Seq<char>) -> Option<LanguageSpecView> {
    match name_for_extension_spec(strip_leading_dots_spec(extension)) {
        Some(n) => Some(language_spec_of(n)),
        None => None,
    }
}

/// The index of the last occurrence of `c` in `s`, or -1.
pub open spec fn last_index_spec(s: Seq<char>, c: char) -> int
    decreases s.len(),
{
    if s.len() == 0 {
        -1
    } else if s.last() == c {
        s.len() - 1
    } else {
        last_index_spec(s.drop_last(), c)
    }
}

/// The part of a path after its last `/`.
pub open spec fn base_name_spec(path: Seq<char>) -> Seq<char> {
    path.skip(last_index_spec(path, '/') + 1)
}

/// The part of the file name after its last dot, where that is not empty;
/// else the whole file name, where that is not empty.
pub open spec fn extension_or_basename_spec(path: Seq<char>) -> Option<Seq<char>> {
    let name = base_name_spec(path);
    let d = last_index_spec(name, '.');
    if d >= 0 && d + 1 < name.len() {
        Some(name.skip(d + 1))
    } else if name.len() > 0 {
        Some(name)
    } else {
        None
    }
}

/// The language for a file path.
pub open spec fn language_for_path_spec(path: Seq<char>) -> Option<LanguageSpecView> {
    match extension_or_basename_spec(path) {
        Some(ext) => language_for_extension_spec(ext),
        None => None,
    }
}

/// The language a file path names, if any.
pub fn language_for_path(file_path: &str) -> (res: Option<LanguageSpec>)
    ensures
        language_option_view(res) == language_for_path_spec(file_path@),
{
    let path = chars_of(file_path);
    match extension_or_basename(path.as_slice()) {
        Some(ext) => language_for_extension_chars(ext.as_slice()),
        None => None,
    }
}

/// The language an extension names, if any; leading dots are ignored.
pub fn language_for_extension(extension: &str) -> (res: Option<LanguageSpec>)
    ensures
        language_option_view(res) == language_for_extension_spec(extension@),
{
    let ext = chars_of(extension);
    language_for_extension_chars(ext.as_slice())
}

fn language_for_extension_chars(extension: &[char]) -> (res: Option<LanguageSpec>)
    ensures
        language_option_view(res) == language_for_extension_spec(extension@),
{
    let ext = strip_leading_dots(extension);
    let name = match language_name_for_alias(ext.as_slice()) {
        Some(n) => Some(n),
        None => if has_ascii_upper(ext.as_slice()) {
            let lower = ascii_lower_chars(ext.as_slice());
            language_name_for_alias(lower.as_slice())
        } else {
            None
        },
    };
    match name {
        Some(n) => Some(
            LanguageSpec {
                name: n,
                comment_query: comment_query(n),
                docstring_query: docstring_query(n),
            },
        ),
        None => None,
    }
}

fn strip_leading_dots(s: &[char]) -> (res: Vec<char>)
    ensures
        res@ == strip_leading_dots_spec(s@),
{
    let mut i: usize = 0;
    assert(s@.skip(0) =~= s@);
    while i < s.len() && s[i] == '.'
        invariant
            i <= s.len(),
            strip_leading_dots_spec(s@) == strip_leading_dots_spec(s@.skip(i as int)),
        decreases s.len() - i,
    {
        assert(s@.skip(i as int).drop_first() =~= s@.skip(i + 1));
        i = i + 1;
    }
    proof {
        if i < s.len() {
            assert(s@.skip(i as int)[0] == s@[i as int]);
        }
    }
    copy_range(s, i, s.len())
}

fn has_ascii_upper(s: &[char]) -> (res: bool)
    ensures
        res == has_ascii_upper_spec(s@),
{
    let mut i: usize = 0;
    while i < s.len()
        invariant
            i <= s.len(),
            forall|k: int| 0 <= k < i ==> !is_ascii_upper_spec(#[trigger] s@[k]),
        decreases s.len() - i,
    {
        if 'A' <= s[i] && s[i] <= 'Z' {
            return true;
        }
        i = i + 1;
    }
    false
}

fn ascii_lower_chars(s: &[char]) -> (res: Vec<char>)
    ensures
        res@ == ascii_lower_seq(s@),
{
    let mut res: Vec<char> = Vec::new();
    let mut i: usize = 0;
    while i < s.len()
        invariant
            i <= s.len(),
            res@.len() == i,
            forall|k: int| 0 <= k < i ==> res@[k] == ascii_lower_spec(#[trigger] s@[k]),
        decreases s.len() - i,
    {
        res.push(ascii_lower(s[i]));
        i = i + 1;
    }
    assert(res@ =~= ascii_lower_seq(s@));
    res
}

fn language_name_for_alias(ext: &[char]) -> (res: Option<&'static str>)
    ensures
        match res {
            Some(n) => alias_language_spec(ext@) == Some(n@),
            None => alias_language_spec(ext@).is_none(),
        },
{
    if equals_str(ext, "py") {
        Some("python")
    } else if equals_str(ext, "js") || equals_str(ext, "jsx") {
        Some("javascript")
    } else if equals_str(ext, "ts") {
        Some("typescript")
    } else if equals_str(ext, "tsx") {
        Some("tsx")
    } else if equals_str(ext, "go") {
        Some("go")
    } else if equals_str(ext, "java") {
        Some("java")
    } else if equals_str(ext, "kt") {
        Some("kotlin")
    } else if equals_str(ext, "scala") {
        Some("scala")
    } else if equals_str(ext, "c") || equals_str(ext, "h") {
        Some("c")
    } else if equals_str(ext, "cpp") || equals_str(ext, "cc") || equals_str(ext, "cxx") || equals_str(ext, "hpp") {
        Some("cpp")
    } else if equals_str(ext, "rs") {
        Some("rust")
    } else if equals_str(ext, "rb") {
        Some("ruby")
    } else if equals_str(ext, "sh") || equals_str(ext, "bash") {
        Some("bash")
    } else if equals_str(ext, "cs") {
        Some("csharp")
    } else if equals_str(ext, "swift") {
        Some("swift")
    } else if equals_str(ext, "ex") || equals_str(ext, "exs") {
        Some("elixir")
    } else if equals_str(ext, "lua") {
        Some("lua")
    } else if equals_str(ext, "php") {
        Some("php")
    } else if equals_str(ext, "ml") || equals_str(ext, "mli") {
        Some("ocaml")
    } else if equals_str(ext, "sql") {
        Some("sql")
    } else if equals_str(ext, "html") || equals_str(ext, "htm") {
        Some("html")
    } else if equals_str(ext, "css") {
        Some("css")
    } else if equals_str(ext, "yaml") || equals_str(ext, "yml") {
        Some("yaml")
    } else if equals_str(ext, "toml") {
        Some("toml")
    } else if equals_str(ext, "hcl") || equals_str(ext, "tf") {
        Some("hcl")
    } else if equals_str(ext, "dockerfile") {
        Some("dockerfile")
    } else if equals_str(ext, "proto") {
        Some("proto")
    } else if equals_str(ext, "svelte") {
        Some("svelte")
    } else if equals_str(ext, "elm") {
        Some("elm")
    } else if equals_str(ext, "groovy") {
        Some("groovy")
    } else if equals_str(ext, "cue") {
        Some("cue")
    } else if equals_str(ext, "pl") || equals_str(ext, "pm") {
        Some("perl")
    } else if equals_str(ext, "md") || equals_str(ext, "markdown") {
        Some("markdown")
    } else {
        None
    }
}

fn comment_query(name: &str) -> (res: &'static str)
    ensures
        res@ == comment_query_spec(name@),
{
    let n = chars_of(name);
    if equals_str(n.as_slice(), "rust") || equals_str(n.as_slice(), "java") {
        LINE_BLOCK_COMMENT_QUERY
    } else if equals_str(n.as_slice(), "kotlin") {
        LINE_MULTILINE_COMMENT_QUERY
    } else {
        COMMENT_QUERY
    }
}

fn docstring_query(name: &str) -> (res: Option<&'static str>)
    ensures
        match res {
            Some(q) => docstring_query_spec(name@) == Some(q@),
            None => docstring_query_spec(name@).is_none(),
        },
{
    let n = chars_of(name);
    if equals_str(n.as_slice(), "python") {
        Some(PYTHON_DOCSTRING_QUERY)
    } else if equals_str(n.as_slice(), "javascript") || equals_str(n.as_slice(), "typescript")
        || equals_str(n.as_slice(), "tsx") {
        Some(JSDOC_QUERY)
    } else if equals_str(n.as_slice(), "java") {
        Some(JAVADOC_QUERY)
    } else {
        None
    }
}

/// The position just after the last `c` in `s` (0 where `s` holds none).
pub fn after_last(s: &[char], c: char) -> (k: usize)
    ensures
        k as int == last_index_spec(s@, c) + 1,
        k <= s.len(),
{
    let mut j: usize = s.len();
    assert(s@.take(s.len() as int) =~= s@);
    while j > 0 && s[j - 1] != c
        invariant
            j <= s.len(),
            last_index_spec(s@, c) == last_index_spec(s@.take(j as int), c),
        decreases j,
    {
        assert(s@.take(j as int).drop_last() =~= s@.take(j - 1));
        j = j - 1;
    }
    j
}

fn extension_or_basename(path: &[char]) -> (res: Option<Vec<char>>)
    ensures
        match res {
            Some(e) => extension_or_basename_spec(path@) == Some(e@),
            None => extension_or_basename_spec(path@).is_none(),
        },
{
    let start = after_last(path, '/');
    let name = copy_range(path, start, path.len());
    let dot = after_last(name.as_slice(), '.');
    if dot > 0 && dot < name.len() {
        Some(copy_range(name.as_slice(), dot, name.len()))
    } else if name.len() > 0 {
        Some(name)
    } else {
        None
    }
}

} // verus!
