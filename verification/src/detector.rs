//! Comment detection: tree-sitter finds the comment nodes of a source file,
//! and the rest (comment kinds, line numbers, docstrings) is computed here.
use tree_sitter::StreamingIterator;
use vstd::prelude::*;

use crate::language::{language_for_path, language_for_path_spec};
use crate::models::{CommentInfo, CommentType, CommentView, comment_views, new_comment_spec};
use crate::text::{
    chars_of, equals_str, starts_with_spec, starts_with_str, string_from_chars, trim,
    is_whitespace_spec, trim_spec, trim_start, trim_start_spec,
};

verus! {

#[verifier::external_type_specification]
#[verifier::external_body]
pub struct ExLanguage(tree_sitter::Language);

/// One node that the comment query captured: its text (absent where the
/// node's bytes are not UTF-8), its zero-based start row, and its kind.
pub struct RawCapture {
    pub text: Option<String>,
    pub row: usize,
    pub kind: String,
}

/// The mathematical value of a `RawCapture`.
pub struct RawCaptureView {
    pub text: Option<Seq<char>>,
    pub row: usize,
    pub kind: Seq<char>,
}

impl View for RawCapture {
    type V = RawCaptureView;

    open spec fn view(&self) -> RawCaptureView {
        RawCaptureView {
            text: match self.text {
                Some(t) => Some(t@),
                None => None,
            },
            row: self.row,
            kind: self.kind@,
        }
    }
}

/// The views of a sequence of captures.
pub open spec fn capture_views(cs: Seq<RawCapture>) -> Seq<RawCaptureView> {
    cs.map_values(|c: RawCapture| c@)
}

/// The kind of a comment, from its node kind and, where that does not
/// decide, from how its trimmed text begins.
pub open spec fn comment_type_spec(text: Seq<char>, node_kind: Seq<char>) -> CommentType {
    let s = trim_spec(text);
    if node_kind == "line_comment"@ {
        CommentType::Line
    } else if node_kind == "block_comment"@ || node_kind == "multiline_comment"@ {
        CommentType::Block
    } else if starts_with_spec(s, "\"\"\""@) || starts_with_spec(s, "'''"@) {
        CommentType::Docstring
    } else if starts_with_spec(s, "//"@) || starts_with_spec(s, "#"@) {
        CommentType::Line
    } else if starts_with_spec(s, "/*"@) || starts_with_spec(s, "<!--"@) || starts_with_spec(
        s,
        "--"@,
    ) {
        CommentType::Block
    } else {
        CommentType::Line
    }
}

/// The comment that one capture gives: none where the capture has no text
/// (or a row whose line number `usize` cannot hold).
pub open spec fn captured_comment_spec(
    cap: RawCaptureView,
    file_path: Seq<char>,
    force_docstring: bool,
) -> Seq<CommentView> {
    match cap.text {
        None => Seq::empty(),
        Some(t) => if cap.row == usize::MAX {
            Seq::empty()
        } else {
            let ty = if force_docstring {
                CommentType::Docstring
            } else {
                comment_type_spec(t, cap.kind)
            };
            seq![
                new_comment_spec(
                    t,
                    (cap.row + 1) as usize,
                    file_path,
                    ty,
                    ty == CommentType::Docstring,
                ),
            ]
        },
    }
}

/// The comments that the captures give, in order.
pub open spec fn captures_to_comments_spec(
    caps: Seq<RawCaptureView>,
    file_path: Seq<char>,
    force_docstring: bool,
) -> Seq<CommentView>
    decreases caps.len(),
{
    if caps.len() == 0 {
        Seq::empty()
    } else {
        captures_to_comments_spec(caps.drop_last(), file_path, force_docstring)
            + captured_comment_spec(caps.last(), file_path, force_docstring)
    }
}

/// `line` without a final carriage return.
pub open spec fn strip_cr_spec(line: Seq<char>) -> Seq<char> {
    if line.len() > 0 && line.last() == '\r' {
        line.drop_last()
    } else {
        line
    }
}

/// The lines of `s`, given that `cur` has been read of the current line.
pub open spec fn lines_from_spec(s: Seq<char>, cur: Seq<char>) -> Seq<Seq<char>>
    decreases s.len(),
{
    if s.len() == 0 {
        if cur.len() == 0 {
            Seq::empty()
        } else {
            seq![cur]
        }
    } else if s[0] == '\n' {
        seq![strip_cr_spec(cur)] + lines_from_spec(s.drop_first(), Seq::empty())
    } else {
        lines_from_spec(s.drop_first(), cur.push(s[0]))
    }
}

/// The lines of `s` as `str::lines` gives them: split at each `\n`, a `\r`
/// just before it dropped, no empty line after a final `\n`.
pub open spec fn lines_spec(s: Seq<char>) -> Seq<Seq<char>> {
    lines_from_spec(s, Seq::empty())
}

/// The docstring on line `number`, where the line (trimmed at its start)
/// opens with a triple quote.
pub open spec fn docstring_line_spec(line: Seq<char>, number: int, file_path: Seq<char>) -> Seq<
    CommentView,
> {
    let t = trim_start_spec(line);
    if starts_with_spec(t, "\"\"\""@) || starts_with_spec(t, "'''"@) {
        seq![new_comment_spec(t, number as usize, file_path, CommentType::Docstring, true)]
    } else {
        Seq::empty()
    }
}

/// The docstrings of the lines, numbered from 1.
pub open spec fn docstrings_of_lines_spec(lines: Seq<Seq<char>>, file_path: Seq<char>) -> Seq<
    CommentView,
>
    decreases lines.len(),
{
    if lines.len() == 0 {
        Seq::empty()
    } else {
        docstrings_of_lines_spec(lines.drop_last(), file_path) + docstring_line_spec(
            lines.last(),
            lines.len() as int,
            file_path,
        )
    }
}

/// The Python docstrings of `content`: one for each line that opens with a
/// triple quote.
pub open spec fn python_docstrings_spec(content: Seq<char>, file_path: Seq<char>) -> Seq<
    CommentView,
> {
    docstrings_of_lines_spec(lines_spec(content), file_path)
}

/// The docstring copies of the comments that open with `/**`.
pub open spec fn jsdoc_spec(cs: Seq<CommentView>, file_path: Seq<char>) -> Seq<CommentView>
    decreases cs.len(),
{
    if cs.len() == 0 {
        Seq::empty()
    } else {
        let rest = jsdoc_spec(cs.drop_last(), file_path);
        let c = cs.last();
        if starts_with_spec(trim_start_spec(c.text), "/**"@) {
            rest.push(
                new_comment_spec(c.text, c.line_number, file_path, CommentType::Docstring, true),
            )
        } else {
            rest
        }
    }
}

/// The docstrings of a language: Python's by line, those of JavaScript,
/// TypeScript, TSX and Java from its comments; none for other languages.
pub open spec fn docstrings_spec(
    language_name: Seq<char>,
    content: Seq<char>,
    file_path: Seq<char>,
    comments: Seq<CommentView>,
) -> Seq<CommentView> {
    if language_name == "python"@ {
        python_docstrings_spec(content, file_path)
    } else if language_name == "javascript"@ || language_name == "typescript"@ || language_name
        == "tsx"@ || language_name == "java"@ {
        jsdoc_spec(comments, file_path)
    } else {
        Seq::empty()
    }
}

/// The comments detected from the captures, followed by the docstrings
/// where they are asked for.
pub open spec fn detection_spec(
    caps: Seq<RawCaptureView>,
    language_name: Seq<char>,
    content: Seq<char>,
    file_path: Seq<char>,
    include_docstrings: bool,
) -> Seq<CommentView> {
    let cs = captures_to_comments_spec(caps, file_path, false);
    if include_docstrings {
        cs + docstrings_spec(language_name, content, file_path, cs)
    } else {
        cs
    }
}

/// `t` is a stretch of `s`: its characters from one position to a later one.
pub open spec fn occurs_in(t: Seq<char>, s: Seq<char>) -> bool {
    exists|a: int, b: int| 0 <= a <= b <= s.len() && t == #[trigger] s.subrange(a, b)
}

/// The number of line breaks (`\n`) in `s`.
pub open spec fn newline_count(s: Seq<char>) -> nat
    decreases s.len(),
{
    if s.len() == 0 {
        0
    } else {
        (if s[0] == '\n' {
            1nat
        } else {
            0nat
        }) + newline_count(s.drop_first())
    }
}

/// A capture lies in `content`: its text, where it has one, is a stretch of
/// `content`, and its row is at most the number of line breaks there.
pub open spec fn capture_within(cap: RawCaptureView, content: Seq<char>) -> bool {
    &&& match cap.text {
        Some(t) => occurs_in(t, content),
        None => true,
    }
    &&& cap.row <= newline_count(content)
}

/// Every comment of `cs` lies on a line from 1 to `last`.
pub open spec fn line_numbers_within(cs: Seq<CommentView>, last: int) -> bool {
    forall|i: int| 0 <= i < cs.len() ==> 1 <= #[trigger] cs[i].line_number <= last
}

proof fn lemma_lines_within_concat(a: Seq<CommentView>, b: Seq<CommentView>, last: int)
    requires
        line_numbers_within(a, last),
        line_numbers_within(b, last),
    ensures
        line_numbers_within(a + b, last),
{
    assert forall|i: int| 0 <= i < (a + b).len() implies 1 <= #[trigger] (a
        + b)[i].line_number <= last by {
        if i < a.len() {
            assert((a + b)[i] == a[i]);
        } else {
            assert((a + b)[i] == b[i - a.len()]);
        }
    }
}

proof fn lemma_captured_lines_within(caps: Seq<RawCaptureView>, fp: Seq<char>, content: Seq<char>)
    requires
        forall|i: int| 0 <= i < caps.len() ==> capture_within(#[trigger] caps[i], content),
    ensures
        line_numbers_within(
            captures_to_comments_spec(caps, fp, false),
            newline_count(content) + 1int,
        ),
    decreases caps.len(),
{
    if caps.len() > 0 {
        let init = caps.drop_last();
        assert forall|i: int| 0 <= i < init.len() implies capture_within(
            #[trigger] init[i],
            content,
        ) by {
            assert(init[i] == caps[i]);
        }
        lemma_captured_lines_within(init, fp, content);
        assert(capture_within(caps[caps.len() - 1], content));
        lemma_lines_within_concat(
            captures_to_comments_spec(init, fp, false),
            captured_comment_spec(caps.last(), fp, false),
            newline_count(content) + 1int,
        );
    }
}

proof fn lemma_jsdoc_lines_within(cs: Seq<CommentView>, fp: Seq<char>, last: int)
    requires
        line_numbers_within(cs, last),
    ensures
        line_numbers_within(jsdoc_spec(cs, fp), last),
    decreases cs.len(),
{
    if cs.len() > 0 {
        let init = cs.drop_last();
        assert forall|i: int| 0 <= i < init.len() implies 1 <= #[trigger] init[i].line_number
            <= last by {
            assert(init[i] == cs[i]);
        }
        lemma_jsdoc_lines_within(init, fp, last);
        assert(1 <= cs[cs.len() - 1].line_number <= last);
    }
}

proof fn lemma_docstring_lines_within(lines: Seq<Seq<char>>, fp: Seq<char>, last: int)
    requires
        lines.len() <= usize::MAX,
        lines.len() <= last,
    ensures
        line_numbers_within(docstrings_of_lines_spec(lines, fp), last),
    decreases lines.len(),
{
    if lines.len() > 0 {
        lemma_docstring_lines_within(lines.drop_last(), fp, last);
        lemma_lines_within_concat(
            docstrings_of_lines_spec(lines.drop_last(), fp),
            docstring_line_spec(lines.last(), lines.len() as int, fp),
            last,
        );
    }
}

/// The lines of `s`, `cur` read before it, are no more than its line
/// breaks and one, and no more than its characters and one for `cur`.
proof fn lemma_lines_count(s: Seq<char>, cur: Seq<char>)
    ensures
        lines_from_spec(s, cur).len() <= newline_count(s) + 1,
        lines_from_spec(s, cur).len() <= s.len() + if cur.len() > 0 {
            1int
        } else {
            0int
        },
    decreases s.len(),
{
    if s.len() > 0 {
        if s[0] == '\n' {
            lemma_lines_count(s.drop_first(), Seq::empty());
        } else {
            lemma_lines_count(s.drop_first(), cur.push(s[0]));
        }
    }
}

/// Where every capture lies in `content` (and `content` is no longer than a
/// `usize` counts), every comment and docstring detected lies on a line
/// from 1 to the number of line breaks of `content` and one.
proof fn lemma_detection_lines_within(
    caps: Seq<RawCaptureView>,
    language_name: Seq<char>,
    content: Seq<char>,
    file_path: Seq<char>,
    include_docstrings: bool,
)
    requires
        forall|i: int| 0 <= i < caps.len() ==> capture_within(#[trigger] caps[i], content),
        content.len() <= usize::MAX,
    ensures
        line_numbers_within(
            detection_spec(caps, language_name, content, file_path, include_docstrings),
            newline_count(content) + 1int,
        ),
{
    let last = newline_count(content) + 1int;
    let cs = captures_to_comments_spec(caps, file_path, false);
    lemma_captured_lines_within(caps, file_path, content);
    if include_docstrings {
        lemma_lines_count(content, Seq::empty());
        lemma_docstring_lines_within(lines_spec(content), file_path, last);
        lemma_jsdoc_lines_within(cs, file_path, last);
        if !(language_name == "python"@ || language_name == "javascript"@ || language_name
            == "typescript"@ || language_name == "tsx"@ || language_name == "java"@) {
            assert(line_numbers_within(Seq::<CommentView>::empty(), last));
        }
        lemma_lines_within_concat(cs, docstrings_spec(language_name, content, file_path, cs), last);
    }
}

/// The text of every comment of `cs` is a stretch of `content`.
pub open spec fn texts_occur_in(cs: Seq<CommentView>, content: Seq<char>) -> bool {
    forall|i: int| 0 <= i < cs.len() ==> occurs_in(#[trigger] cs[i].text, content)
}

proof fn lemma_texts_concat(a: Seq<CommentView>, b: Seq<CommentView>, content: Seq<char>)
    requires
        texts_occur_in(a, content),
        texts_occur_in(b, content),
    ensures
        texts_occur_in(a + b, content),
{
    assert forall|i: int| 0 <= i < (a + b).len() implies occurs_in(
        #[trigger] (a + b)[i].text,
        content,
    ) by {
        if i < a.len() {
            assert((a + b)[i] == a[i]);
        } else {
            assert((a + b)[i] == b[i - a.len()]);
        }
    }
}

/// The position from which `trim_start_spec` keeps `x`.
proof fn lemma_trim_start_offset(x: Seq<char>) -> (k: int)
    ensures
        0 <= k <= x.len(),
        trim_start_spec(x) == x.skip(k),
    decreases x.len(),
{
    if x.len() > 0 && is_whitespace_spec(x[0]) {
        let k = lemma_trim_start_offset(x.drop_first());
        assert(x.drop_first().skip(k) =~= x.skip(k + 1));
        k + 1
    } else {
        assert(x.skip(0) =~= x);
        0
    }
}

proof fn lemma_trim_start_occurs(t: Seq<char>, s: Seq<char>)
    requires
        occurs_in(t, s),
    ensures
        occurs_in(trim_start_spec(t), s),
{
    let (a, b) = choose|a: int, b: int| 0 <= a <= b <= s.len() && t == #[trigger] s.subrange(a, b);
    let k = lemma_trim_start_offset(t);
    assert(trim_start_spec(t) =~= s.subrange(a + k, b));
}

proof fn lemma_captured_texts_occur(caps: Seq<RawCaptureView>, fp: Seq<char>, content: Seq<char>)
    requires
        forall|i: int| 0 <= i < caps.len() ==> capture_within(#[trigger] caps[i], content),
    ensures
        texts_occur_in(captures_to_comments_spec(caps, fp, false), content),
    decreases caps.len(),
{
    if caps.len() > 0 {
        let init = caps.drop_last();
        assert forall|i: int| 0 <= i < init.len() implies capture_within(
            #[trigger] init[i],
            content,
        ) by {
            assert(init[i] == caps[i]);
        }
        lemma_captured_texts_occur(init, fp, content);
        assert(capture_within(caps[caps.len() - 1], content));
        lemma_texts_concat(
            captures_to_comments_spec(init, fp, false),
            captured_comment_spec(caps.last(), fp, false),
            content,
        );
    }
}

proof fn lemma_jsdoc_texts_occur(cs: Seq<CommentView>, fp: Seq<char>, content: Seq<char>)
    requires
        texts_occur_in(cs, content),
    ensures
        texts_occur_in(jsdoc_spec(cs, fp), content),
    decreases cs.len(),
{
    if cs.len() > 0 {
        let init = cs.drop_last();
        assert forall|i: int| 0 <= i < init.len() implies occurs_in(#[trigger] init[i].text, content) by {
            assert(init[i] == cs[i]);
        }
        lemma_jsdoc_texts_occur(init, fp, content);
        assert(occurs_in(cs[cs.len() - 1].text, content));
    }
}

/// Every line of `lines_from_spec(s, cur)` is a stretch of `whole`, where
/// `s` is what follows position `off` of `whole` and `cur` what precedes it
/// on its line.
proof fn lemma_lines_occur(s: Seq<char>, cur: Seq<char>, whole: Seq<char>, off: int)
    requires
        0 <= cur.len() <= off <= whole.len(),
        s == whole.skip(off),
        cur == whole.subrange(off - cur.len(), off),
    ensures
        forall|i: int|
            0 <= i < lines_from_spec(s, cur).len() ==> occurs_in(
                #[trigger] lines_from_spec(s, cur)[i],
                whole,
            ),
    decreases s.len(),
{
    let lines = lines_from_spec(s, cur);
    if s.len() == 0 {
        if cur.len() > 0 {
            assert(lines[0] == whole.subrange(off - cur.len(), off));
            assert(occurs_in(lines[0], whole));
            assert(lines.len() == 1);
        } else {
            assert(lines.len() == 0);
        }
    } else if s[0] == '\n' {
        assert(s.drop_first() =~= whole.skip(off + 1));
        assert(Seq::<char>::empty() =~= whole.subrange(off + 1, off + 1));
        lemma_lines_occur(s.drop_first(), Seq::empty(), whole, off + 1);
        let first = strip_cr_spec(cur);
        if cur.len() > 0 && cur.last() == '\r' {
            assert(first =~= whole.subrange(off - cur.len(), off - 1));
        } else {
            assert(first == whole.subrange(off - cur.len(), off));
        }
        assert(occurs_in(first, whole));
        let rest = lines_from_spec(s.drop_first(), Seq::empty());
        assert(lines == seq![first] + rest);
        assert forall|i: int| 0 <= i < lines.len() implies occurs_in(#[trigger] lines[i], whole) by {
            if i > 0 {
                assert(lines[i] == rest[i - 1]);
            } else {
                assert(lines[0] == first);
            }
        }
    } else {
        assert(s.drop_first() =~= whole.skip(off + 1));
        assert(s[0] == whole[off]);
        assert(cur.push(s[0]) =~= whole.subrange(off - cur.len(), off + 1));
        lemma_lines_occur(s.drop_first(), cur.push(s[0]), whole, off + 1);
        assert(lines == lines_from_spec(s.drop_first(), cur.push(s[0])));
    }
}

proof fn lemma_docstring_texts_occur(lines: Seq<Seq<char>>, fp: Seq<char>, content: Seq<char>)
    requires
        forall|i: int| 0 <= i < lines.len() ==> occurs_in(#[trigger] lines[i], content),
    ensures
        texts_occur_in(docstrings_of_lines_spec(lines, fp), content),
    decreases lines.len(),
{
    if lines.len() > 0 {
        let init = lines.drop_last();
        assert forall|i: int| 0 <= i < init.len() implies occurs_in(#[trigger] init[i], content) by {
            assert(init[i] == lines[i]);
        }
        lemma_docstring_texts_occur(init, fp, content);
        assert(occurs_in(lines[lines.len() - 1], content));
        lemma_trim_start_occurs(lines.last(), content);
        lemma_texts_concat(
            docstrings_of_lines_spec(init, fp),
            docstring_line_spec(lines.last(), lines.len() as int, fp),
            content,
        );
    }
}

/// Where every captured text is a stretch of `content`, so is the text of
/// every comment and docstring detected.
proof fn lemma_detection_texts_occur(
    caps: Seq<RawCaptureView>,
    language_name: Seq<char>,
    content: Seq<char>,
    file_path: Seq<char>,
    include_docstrings: bool,
)
    requires
        forall|i: int| 0 <= i < caps.len() ==> capture_within(#[trigger] caps[i], content),
    ensures
        texts_occur_in(
            detection_spec(caps, language_name, content, file_path, include_docstrings),
            content,
        ),
{
    let cs = captures_to_comments_spec(caps, file_path, false);
    lemma_captured_texts_occur(caps, file_path, content);
    if include_docstrings {
        assert(content.skip(0) =~= content);
        assert(Seq::<char>::empty() =~= content.subrange(0, 0));
        lemma_lines_occur(content, Seq::empty(), content, 0);
        lemma_docstring_texts_occur(lines_spec(content), file_path, content);
        lemma_jsdoc_texts_occur(cs, file_path, content);
        lemma_texts_concat(cs, docstrings_spec(language_name, content, file_path, cs), content);
    }
}

/// The registered grammars, each with the name it was registered under.
pub type GrammarsView = Seq<(Seq<char>, tree_sitter::Language)>;

/// The position of the first grammar registered under `name`, or the
/// number of grammars where there is none.
pub open spec fn grammar_index_spec(grammars: GrammarsView, name: Seq<char>) -> nat
    decreases grammars.len(),
{
    if grammars.len() == 0 {
        0
    } else if grammars[0].0 == name {
        0
    } else {
        1 + grammar_index_spec(grammars.drop_first(), name)
    }
}

/// The grammar registered under `name`, if any.
pub open spec fn grammar_spec(grammars: GrammarsView, name: Seq<char>) -> Option<
    tree_sitter::Language,
> {
    let i = grammar_index_spec(grammars, name);
    if i < grammars.len() {
        Some(grammars[i as int].1)
    } else {
        None
    }
}

/// What tree-sitter captures with the query `query` in `content` parsed by
/// the grammar `language`, node by node in the order its query cursor
/// yields them; none where the query does not compile for the grammar, the
/// grammar is refused by the parser, or no tree comes of the parse.
pub uninterp spec fn captured_nodes(
    language: tree_sitter::Language,
    query: Seq<char>,
    content: Seq<char>,
) -> Option<Seq<RawCaptureView>>;

/// The comments that `detect` finds: none for a path of no known language,
/// of a language without a registered grammar, or where tree-sitter
/// captures nothing with the language's comment query; else the detection
/// from the nodes that it captured.
pub open spec fn detect_spec(
    grammars: GrammarsView,
    content: Seq<char>,
    file_path: Seq<char>,
    include_docstrings: bool,
) -> Seq<CommentView> {
    match language_for_path_spec(file_path) {
        None => Seq::empty(),
        Some(spec) => match grammar_spec(grammars, spec.name) {
            None => Seq::empty(),
            Some(language) => match captured_nodes(language, spec.comment_query, content) {
                None => Seq::empty(),
                Some(caps) => detection_spec(
                    caps,
                    spec.name,
                    content,
                    file_path,
                    include_docstrings,
                ),
            },
        },
    }
}

/// Compiles `query` for `language` (`tree_sitter::Query::new`), parses
/// `content` with a new `tree_sitter::Parser` set to that grammar, and runs
/// the query over the whole tree with a `tree_sitter::QueryCursor`: each
/// captured node as its text, start row and kind, in the order the cursor
/// yields them. `None` where the query does not compile, the parser refuses
/// the grammar or the parse gives no tree. The result is named
/// `captured_nodes` of the three arguments: what tree-sitter captures is
/// not stated here, only that each captured text is a stretch of `content`
/// (a node's text is the slice of the source between its start and end
/// bytes, and `utf8_text` gives it only where that slice is UTF-8) and that
/// each start row is at most the number of line breaks in `content` (the
/// lexer counts a row at each `\n` it reads, and at nothing else).
#[verifier::external_body]
fn capture_comment_nodes(language: &tree_sitter::Language, query: &str, content: &str) -> (res:
    Option<Vec<RawCapture>>)
    ensures
        match res {
            Some(v) => {
                &&& captured_nodes(*language, query@, content@) == Some(capture_views(v@))
                &&& forall|i: int| 0 <= i < v@.len() ==> capture_within(#[trigger] v@[i]@, content@)
            },
            None => captured_nodes(*language, query@, content@).is_none(),
        },
{
    let query = tree_sitter::Query::new(language, query).ok()?;
    let mut parser = tree_sitter::Parser::new();
    parser.set_language(language).ok()?;
    let tree = parser.parse(content, None)?;
    let bytes = content.as_bytes();
    let mut cursor = tree_sitter::QueryCursor::new();
    let mut captures = cursor.captures(&query, tree.root_node(), bytes);
    let mut found = Vec::new();
    while let Some((m, index)) = captures.next() {
        let node = m.captures()[*index].node;
        let text = node.utf8_text(bytes).ok().map(String::from);
        found.push(RawCapture { text, row: node.start_position().row, kind: node.kind().into() });
    }
    Some(found)
}

/// The kind of a comment from its text and node kind.
pub fn determine_comment_type(text: &str, node_kind: &str) -> (res: CommentType)
    ensures
        res == comment_type_spec(text@, node_kind@),
{
    let tc = chars_of(text);
    let s = trim(tc.as_slice());
    let kind = chars_of(node_kind);
    if equals_str(kind.as_slice(), "line_comment") {
        return CommentType::Line;
    }
    if equals_str(kind.as_slice(), "block_comment") || equals_str(
        kind.as_slice(),
        "multiline_comment",
    ) {
        return CommentType::Block;
    }
    if starts_with_str(s.as_slice(), "\"\"\"") || starts_with_str(s.as_slice(), "'''") {
        return CommentType::Docstring;
    }
    if starts_with_str(s.as_slice(), "//") || starts_with_str(s.as_slice(), "#") {
        return CommentType::Line;
    }
    if starts_with_str(s.as_slice(), "/*") || starts_with_str(s.as_slice(), "<!--")
        || starts_with_str(s.as_slice(), "--") {
        return CommentType::Block;
    }
    CommentType::Line
}

/// The comments that the captures give, in order.
pub fn captures_to_comments(
    captures: &[RawCapture],
    file_path: &str,
    force_docstring: bool,
) -> (res: Vec<CommentInfo>)
    ensures
        comment_views(res@) == captures_to_comments_spec(
            capture_views(captures@),
            file_path@,
            force_docstring,
        ),
{
    let mut res: Vec<CommentInfo> = Vec::new();
    let mut i: usize = 0;
    while i < captures.len()
        invariant
            i <= captures.len(),
            comment_views(res@) == captures_to_comments_spec(
                capture_views(captures@.take(i as int)),
                file_path@,
                force_docstring,
            ),
        decreases captures.len() - i,
    {
        let ghost prefix = capture_views(captures@.take(i as int));
        let ghost before = comment_views(res@);
        assert(capture_views(captures@.take(i + 1)).drop_last() =~= prefix);
        assert(capture_views(captures@.take(i + 1)).last() == captures@[i as int]@);
        let cap = &captures[i];
        match &cap.text {
            None => {
                assert(comment_views(res@) =~= before + captured_comment_spec(
                    cap@,
                    file_path@,
                    force_docstring,
                ));
            },
            Some(text) => {
                if cap.row < usize::MAX {
                    let comment_type = if force_docstring {
                        CommentType::Docstring
                    } else {
                        determine_comment_type(text.as_str(), cap.kind.as_str())
                    };
                    let is_docstring = comment_type == CommentType::Docstring;
                    let c = CommentInfo::new(
                        text.as_str(),
                        cap.row + 1,
                        file_path,
                        comment_type,
                        is_docstring,
                    );
                    res.push(c);
                }
                assert(comment_views(res@) =~= before + captured_comment_spec(
                    cap@,
                    file_path@,
                    force_docstring,
                ));
            },
        }
        i = i + 1;
    }
    assert(captures@.take(captures.len() as int) =~= captures@);
    res
}

/// The views of a sequence of character vectors.
pub open spec fn char_vec_views(vs: Seq<Vec<char>>) -> Seq<Seq<char>> {
    vs.map_values(|v: Vec<char>| v@)
}

/// The lines of `s` (`str::lines`).
pub fn lines_of(s: &[char]) -> (res: Vec<Vec<char>>)
    ensures
        char_vec_views(res@) == lines_spec(s@),
{
    let mut lines: Vec<Vec<char>> = Vec::new();
    let mut cur: Vec<char> = Vec::new();
    let mut i: usize = 0;
    assert(s@.skip(0) =~= s@);
    while i < s.len()
        invariant
            i <= s.len(),
            char_vec_views(lines@) + lines_from_spec(s@.skip(i as int), cur@) == lines_spec(s@),
        decreases s.len() - i,
    {
        let ghost rest = s@.skip(i as int);
        let ghost before = char_vec_views(lines@);
        let ghost old_cur = cur@;
        assert(rest[0] == s@[i as int]);
        assert(rest.drop_first() =~= s@.skip(i + 1));
        if s[i] == '\n' {
            let mut line = cur;
            if line.len() > 0 && line[line.len() - 1] == '\r' {
                line.pop();
            }
            assert(line@ =~= strip_cr_spec(old_cur));
            lines.push(line);
            cur = Vec::new();
            assert(char_vec_views(lines@) =~= before.push(strip_cr_spec(old_cur)));
            assert(char_vec_views(lines@) + lines_from_spec(s@.skip(i + 1), cur@) =~= before
                + lines_from_spec(rest, old_cur));
        } else {
            cur.push(s[i]);
        }
        i = i + 1;
    }
    let ghost before = char_vec_views(lines@);
    if cur.len() > 0 {
        lines.push(cur);
        assert(char_vec_views(lines@) =~= before + lines_from_spec(s@.skip(i as int), cur@));
    } else {
        assert(char_vec_views(lines@) =~= before + lines_from_spec(s@.skip(i as int), cur@));
    }
    lines
}

/// The Python docstrings of `content`: one per line that, trimmed at its
/// start, opens with `"""` or `'''`.
pub fn detect_python_docstrings(content: &str, file_path: &str) -> (res: Vec<CommentInfo>)
    ensures
        comment_views(res@) == python_docstrings_spec(content@, file_path@),
{
    let cs = chars_of(content);
    let lines = lines_of(cs.as_slice());
    let ghost lv = char_vec_views(lines@);
    let mut res: Vec<CommentInfo> = Vec::new();
    let mut k: usize = 0;
    while k < lines.len()
        invariant
            k <= lines.len(),
            lv == char_vec_views(lines@),
            comment_views(res@) == docstrings_of_lines_spec(lv.take(k as int), file_path@),
        decreases lines.len() - k,
    {
        let ghost before = comment_views(res@);
        assert(lv.take(k + 1).drop_last() =~= lv.take(k as int));
        assert(lv.take(k + 1).last() == lines@[k as int]@);
        let trimmed = trim_start(lines[k].as_slice());
        if starts_with_str(trimmed.as_slice(), "\"\"\"") || starts_with_str(
            trimmed.as_slice(),
            "'''",
        ) {
            let text = string_from_chars(trimmed.as_slice());
            res.push(
                CommentInfo::new(text.as_str(), k + 1, file_path, CommentType::Docstring, true),
            );
        }
        assert(comment_views(res@) =~= before + docstring_line_spec(
            lines@[k as int]@,
            k + 1,
            file_path@,
        ));
        k = k + 1;
    }
    assert(lv.take(lines.len() as int) =~= lv);
    res
}

/// Docstring copies of the comments that, trimmed at their start, open with
/// `/**`.
fn jsdoc_comments(comments: &[CommentInfo], file_path: &str) -> (res: Vec<CommentInfo>)
    ensures
        comment_views(res@) == jsdoc_spec(comment_views(comments@), file_path@),
{
    let mut res: Vec<CommentInfo> = Vec::new();
    let mut i: usize = 0;
    while i < comments.len()
        invariant
            i <= comments.len(),
            comment_views(res@) == jsdoc_spec(comment_views(comments@.take(i as int)), file_path@),
        decreases comments.len() - i,
    {
        let ghost prefix = comment_views(comments@.take(i as int));
        assert(comment_views(comments@.take(i + 1)).drop_last() =~= prefix);
        assert(comment_views(comments@.take(i + 1)).last() == comments@[i as int]@);
        let c = &comments[i];
        let text = chars_of(c.text.as_str());
        let t = trim_start(text.as_slice());
        if starts_with_str(t.as_slice(), "/**") {
            res.push(
                CommentInfo::new(
                    c.text.as_str(),
                    c.line_number,
                    file_path,
                    CommentType::Docstring,
                    true,
                ),
            );
        }
        i = i + 1;
    }
    assert(comments@.take(comments.len() as int) =~= comments@);
    res
}

/// The docstrings of the language called `language_name`.
pub fn detect_docstrings(
    language_name: &str,
    content: &str,
    file_path: &str,
    comments: &[CommentInfo],
) -> (res: Vec<CommentInfo>)
    ensures
        comment_views(res@) == docstrings_spec(
            language_name@,
            content@,
            file_path@,
            comment_views(comments@),
        ),
{
    let name = chars_of(language_name);
    if equals_str(name.as_slice(), "python") {
        detect_python_docstrings(content, file_path)
    } else if equals_str(name.as_slice(), "javascript") || equals_str(name.as_slice(), "typescript")
        || equals_str(name.as_slice(), "tsx") || equals_str(name.as_slice(), "java") {
        jsdoc_comments(comments, file_path)
    } else {
        let res: Vec<CommentInfo> = Vec::new();
        assert(comment_views(res@) =~= Seq::<CommentView>::empty());
        res
    }
}

/// The comments of a source file from the nodes that the comment query
/// captured in it, followed by its docstrings where they are asked for.
pub fn comments_from_captures(
    captures: &[RawCapture],
    language_name: &str,
    content: &str,
    file_path: &str,
    include_docstrings: bool,
) -> (res: Vec<CommentInfo>)
    ensures
        comment_views(res@) == detection_spec(
            capture_views(captures@),
            language_name@,
            content@,
            file_path@,
            include_docstrings,
        ),
{
    let mut comments = captures_to_comments(captures, file_path, false);
    if include_docstrings {
        let ghost before = comment_views(comments@);
        let mut docs = detect_docstrings(language_name, content, file_path, comments.as_slice());
        let ghost dv = comment_views(docs@);
        comments.append(&mut docs);
        assert(comment_views(comments@) =~= before + dv);
    }
    comments
}

/// A tree-sitter grammar registered under a language name.
#[derive(Debug)]
struct Grammar {
    name: String,
    language: tree_sitter::Language,
}

/// Finds the comments of source files, with the grammars registered in it.
#[derive(Debug, Default)]
pub struct CommentDetector {
    grammars: Vec<Grammar>,
}

impl View for CommentDetector {
    type V = GrammarsView;

    /// The registered grammars with their names, in order of registration.
    closed spec fn view(&self) -> GrammarsView {
        self.grammars@.map_values(|g: Grammar| (g.name@, g.language))
    }
}

impl CommentDetector {
    /// A detector with no grammar registered.
    pub fn new() -> (res: Self)
        ensures
            res@ == Seq::<(Seq<char>, tree_sitter::Language)>::empty(),
    {
        let res = CommentDetector { grammars: Vec::new() };
        assert(res@ =~= Seq::<(Seq<char>, tree_sitter::Language)>::empty());
        res
    }

    /// The position of the first grammar registered under `name`, or the
    /// number of grammars where there is none.
    fn grammar_index(&self, name: &str) -> (res: usize)
        ensures
            res as nat == grammar_index_spec(self@, name@),
            res <= self@.len(),
    {
        let ghost g = self@;
        let mut i: usize = 0;
        assert(g.subrange(0, g.len() as int) =~= g);
        while i < self.grammars.len()
            invariant
                i <= self.grammars.len(),
                g == self@,
                g.len() == self.grammars.len(),
                grammar_index_spec(g, name@) == i + grammar_index_spec(
                    g.subrange(i as int, g.len() as int),
                    name@,
                ),
            decreases self.grammars.len() - i,
        {
            let ghost rest = g.subrange(i as int, g.len() as int);
            assert(rest[0] == g[i as int]);
            if equals_str(chars_of(self.grammars[i].name.as_str()).as_slice(), name) {
                return i;
            }
            assert(rest.drop_first() =~= g.subrange(i + 1, g.len() as int));
            i = i + 1;
        }
        i
    }

    /// Registers the grammar of the language `name`, in place of any that
    /// was registered under that name.
    pub fn register_grammar(&mut self, name: &str, language: tree_sitter::Language)
        ensures
            final(self)@ == if grammar_index_spec(old(self)@, name@) < old(self)@.len() {
                old(self)@.update(grammar_index_spec(old(self)@, name@) as int, (name@, language))
            } else {
                old(self)@.push((name@, language))
            },
    {
        let i = self.grammar_index(name);
        let ghost before = self@;
        let g = Grammar { name: String::from_str(name), language };
        if i < self.grammars.len() {
            self.grammars.set(i, g);
            assert(self@ =~= before.update(i as int, (name@, language)));
        } else {
            self.grammars.push(g);
            assert(self@ =~= before.push((name@, language)));
        }
    }

    /// The grammar registered under `name`, if any.
    fn grammar_for(&self, name: &str) -> (res: Option<&tree_sitter::Language>)
        ensures
            match res {
                Some(l) => grammar_spec(self@, name@) == Some(*l),
                None => grammar_spec(self@, name@).is_none(),
            },
    {
        let i = self.grammar_index(name);
        if i < self.grammars.len() {
            Some(&self.grammars[i].language)
        } else {
            None
        }
    }

    /// The comments of `content`, a file at `file_path`, with its docstrings
    /// where `include_docstrings` holds. Nothing for a path of no known
    /// language or of one whose grammar is not registered.
    pub fn detect(&self, content: &str, file_path: &str, include_docstrings: bool) -> (res: Vec<
        CommentInfo,
    >)
        ensures
            comment_views(res@) == detect_spec(self@, content@, file_path@, include_docstrings),
            texts_occur_in(comment_views(res@), content@),
            content@.len() <= usize::MAX ==> line_numbers_within(
                comment_views(res@),
                newline_count(content@) + 1int,
            ),
    {
        let spec = match language_for_path(file_path) {
            Some(spec) => spec,
            None => return Vec::new(),
        };
        let language = match self.grammar_for(spec.name) {
            Some(language) => language,
            None => return Vec::new(),
        };
        let captures = match capture_comment_nodes(language, spec.comment_query, content) {
            Some(captures) => captures,
            None => return Vec::new(),
        };
        proof {
            assert forall|i: int| 0 <= i < capture_views(captures@).len() implies capture_within(
                #[trigger] capture_views(captures@)[i],
                content@,
            ) by {
                assert(capture_views(captures@)[i] == captures@[i]@);
            }
            lemma_detection_texts_occur(
                capture_views(captures@),
                spec.name@,
                content@,
                file_path@,
                include_docstrings,
            );
            if content@.len() <= usize::MAX {
                lemma_detection_lines_within(
                    capture_views(captures@),
                    spec.name@,
                    content@,
                    file_path@,
                    include_docstrings,
                );
            }
        }
        comments_from_captures(
            captures.as_slice(),
            spec.name,
            content,
            file_path,
            include_docstrings,
        )
    }
}

} // verus!
