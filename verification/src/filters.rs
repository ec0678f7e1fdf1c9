//! Filters that tell allowed comments (BDD markers, tool directives,
//! shebangs) from the rest, and the agent-memo classifier.
use vstd::prelude::*;

use crate::models::{CommentInfo, CommentView, comment_views};
use crate::text::{
    ascii_lower, ascii_lower_spec, chars_of, copy_range, eq_ic_spec, eq_ic_str,
    is_ascii_alpha_spec, starts_with_ic_spec,
    starts_with_ic_str, starts_with_spec, starts_with_str, trim, trim_spec, trim_start,
    trim_start_spec,
};

verus! {

/// The views of a list of string literals.
pub open spec fn str_views(ps: Seq<&str>) -> Seq<Seq<char>> {
    ps.map_values(|p: &str| p@)
}

/// Comment markers removed before a BDD keyword is looked for.
pub open spec fn bdd_markers() -> Seq<Seq<char>> {
    seq!["#"@, "//"@, "--"@]
}

/// Comment markers removed before a directive is looked for.
pub open spec fn directive_markers() -> Seq<Seq<char>> {
    seq!["#"@, "//"@, "/*"@, "--"@]
}

/// The BDD keywords: a comment that is one of them, and nothing else, is allowed.
pub open spec fn bdd_keywords() -> Seq<Seq<char>> {
    seq![
        "given"@,
        "when"@,
        "then"@,
        "arrange"@,
        "act"@,
        "assert"@,
        "when & then"@,
        "when&then"@,
    ]
}

/// The directive prefixes: a comment that begins with one of them is allowed.
pub open spec fn directive_prefixes() -> Seq<Seq<char>> {
    seq![
        "type:"@,
        "noqa"@,
        "pyright:"@,
        "ruff:"@,
        "mypy:"@,
        "pylint:"@,
        "flake8:"@,
        "pyre:"@,
        "pytype:"@,
        "eslint-disable"@,
        "eslint-ignore"@,
        "prettier-ignore"@,
        "ts-ignore"@,
        "ts-expect-error"@,
        "clippy:"@,
        "allow"@,
        "deny"@,
        "warn"@,
        "forbid"@,
    ]
}

/// `t` with the first of `markers` that it begins with removed and the rest
/// trimmed; `t` itself where it begins with none.
pub open spec fn strip_first_marker_spec(t: Seq<char>, markers: Seq<Seq<char>>) -> Seq<char>
    decreases markers.len(),
{
    if markers.len() == 0 {
        t
    } else if starts_with_spec(t, markers[0]) {
        trim_spec(t.skip(markers[0].len() as int))
    } else {
        strip_first_marker_spec(t, markers.drop_first())
    }
}

/// The comment text with at most one comment marker removed.
pub open spec fn strip_one_prefix_spec(text: Seq<char>, markers: Seq<Seq<char>>) -> Seq<char> {
    strip_first_marker_spec(trim_spec(text), markers)
}

/// A BDD marker comment such as `# given` or `// when & then`.
pub open spec fn is_bdd_spec(text: Seq<char>) -> bool {
    let t = strip_one_prefix_spec(text, bdd_markers());
    exists|i: int| 0 <= i < bdd_keywords().len() && eq_ic_spec(t, #[trigger] bdd_keywords()[i])
}

/// The directive text: the comment without marker and without a leading `@`.
pub open spec fn directive_text_spec(text: Seq<char>) -> Seq<char> {
    let t = strip_one_prefix_spec(text, directive_markers());
    if t.len() > 0 && t[0] == '@' {
        trim_spec(t.drop_first())
    } else {
        t
    }
}

/// A tool directive such as `# noqa` or `// @ts-ignore`.
pub open spec fn is_directive_spec(text: Seq<char>) -> bool {
    let t = directive_text_spec(text);
    exists|i: int|
        0 <= i < directive_prefixes().len() && starts_with_ic_spec(
            t,
            #[trigger] directive_prefixes()[i],
        )
}

/// A shebang line.
pub open spec fn is_shebang_spec(text: Seq<char>) -> bool {
    starts_with_spec(trim_spec(text), "#!"@)
}

/// Removes, in turn, each of `#`, `//`, `/*`, `--`, `*` that the text begins
/// with at that point, trimming after each.
pub open spec fn strip_agent_markers_spec(text: Seq<char>) -> Seq<char> {
    let t0 = text;
    let t1 = if starts_with_spec(t0, "#"@) { trim_spec(t0.skip(1)) } else { t0 };
    let t2 = if starts_with_spec(t1, "//"@) { trim_spec(t1.skip(2)) } else { t1 };
    let t3 = if starts_with_spec(t2, "/*"@) { trim_spec(t2.skip(2)) } else { t2 };
    let t4 = if starts_with_spec(t3, "--"@) { trim_spec(t3.skip(2)) } else { t3 };
    if starts_with_spec(t4, "*"@) { trim_spec(t4.skip(1)) } else { t4 }
}

/// Phrases that open an agent memo on their own.
pub open spec fn memo_phrases() -> Seq<Seq<char>> {
    seq![
        "added"@,
        "add"@,
        "after this"@,
        "before this"@,
        "deleted"@,
        "delete"@,
        "here we"@,
        "implemented"@,
        "implement"@,
        "note:"@,
        "previously"@,
        "refactor"@,
        "replaced"@,
        "replace"@,
        "removed"@,
        "remove"@,
    ]
}

/// Word pairs that open an agent memo: the first word, then after optional
/// whitespace the second.
pub open spec fn memo_word_pairs() -> Seq<(Seq<char>, Seq<char>)> {
    seq![
        ("changed"@, "from"@),
        ("changed"@, "to"@),
        ("change"@, "from"@),
        ("change"@, "to"@),
        ("converted"@, "from"@),
        ("converted"@, "to"@),
        ("convert"@, "from"@),
        ("convert"@, "to"@),
        ("implementation"@, "of"@),
        ("implementation"@, "note"@),
        ("modified"@, "from"@),
        ("modified"@, "to"@),
        ("modify"@, "from"@),
        ("modify"@, "to"@),
        ("moved"@, "from"@),
        ("moved"@, "to"@),
        ("move"@, "from"@),
        ("move"@, "to"@),
        ("migrated"@, "from"@),
        ("migrated"@, "to"@),
        ("migrate"@, "from"@),
        ("migrate"@, "to"@),
        ("now"@, "we"@),
        ("now"@, "this"@),
        ("now"@, "it"@),
        ("renamed"@, "from"@),
        ("renamed"@, "to"@),
        ("rename"@, "from"@),
        ("rename"@, "to"@),
        ("switched"@, "from"@),
        ("switched"@, "to"@),
        ("switch"@, "from"@),
        ("switch"@, "to"@),
        ("this"@, "implements"@),
        ("this"@, "implement"@),
        ("this"@, "adds"@),
        ("this"@, "add"@),
        ("this"@, "removes"@),
        ("this"@, "remove"@),
        ("this"@, "changes"@),
        ("this"@, "change"@),
        ("this"@, "fixes"@),
        ("this"@, "fix"@),
        ("updated"@, "from"@),
        ("updated"@, "to"@),
        ("update"@, "from"@),
        ("update"@, "to"@),
        ("was"@, "changed"@),
    ]
}

/// `t` begins with `first`, then, after optional whitespace, `second`;
/// ASCII letters compared without regard to case.
pub open spec fn word_pair_spec(t: Seq<char>, first: Seq<char>, second: Seq<char>) -> bool {
    starts_with_ic_spec(t, first) && starts_with_ic_spec(
        trim_start_spec(t.skip(first.len() as int)),
        second,
    )
}

/// `t` opens like an agent memo.
pub open spec fn starts_like_memo_spec(t: Seq<char>) -> bool {
    ||| exists|i: int|
        0 <= i < memo_phrases().len() && starts_with_ic_spec(t, #[trigger] memo_phrases()[i])
    ||| exists|j: int|
        0 <= j < memo_word_pairs().len() && word_pair_spec(
            t,
            (#[trigger] memo_word_pairs()[j]).0,
            memo_word_pairs()[j].1,
        )
}

/// The index of the first `->` in `t` at or after `from`.
pub open spec fn arrow_index_from(t: Seq<char>, from: int) -> Option<int>
    decreases t.len() - from,
{
    if from < 0 || from + 1 >= t.len() {
        None
    } else if t[from] == '-' && t[from + 1] == '>' {
        Some(from)
    } else {
        arrow_index_from(t, from + 1)
    }
}

/// `t` reads `old -> new`: around its first `->`, a left side of ASCII
/// letters only and a right side that begins with an ASCII letter, neither
/// empty once trimmed.
pub open spec fn has_ascii_arrow_spec(t: Seq<char>) -> bool {
    match arrow_index_from(t, 0) {
        None => false,
        Some(k) => {
            let left = trim_spec(t.take(k));
            let right = trim_spec(t.skip(k + 2));
            &&& left.len() > 0
            &&& right.len() > 0
            &&& forall|x: int| 0 <= x < left.len() ==> is_ascii_alpha_spec(#[trigger] left[x])
            &&& is_ascii_alpha_spec(right[0])
        },
    }
}

/// A comment in which an agent describes what it changed.
pub open spec fn is_agent_memo_spec(text: Seq<char>) -> bool {
    let t = strip_agent_markers_spec(trim_spec(text));
    starts_like_memo_spec(t) || has_ascii_arrow_spec(t)
}

/// A comment that no filter allows.
pub open spec fn is_kept_spec(c: CommentView) -> bool {
    !is_bdd_spec(c.text) && !is_directive_spec(c.text) && !is_shebang_spec(c.text)
}

/// The comments that no filter allows, in their order.
pub open spec fn apply_filters_spec(cs: Seq<CommentView>) -> Seq<CommentView>
    decreases cs.len(),
{
    if cs.len() == 0 {
        Seq::empty()
    } else {
        let rest = apply_filters_spec(cs.drop_last());
        if is_kept_spec(cs.last()) {
            rest.push(cs.last())
        } else {
            rest
        }
    }
}

/// Allows BDD marker comments.
#[derive(Clone, Copy, Debug, Default)]
pub struct BddFilter;

impl BddFilter {
    /// The comment is a BDD marker such as `# given`.
    pub fn should_skip(&self, comment: &CommentInfo) -> (res: bool)
        ensures
            res == is_bdd_spec(comment.text@),
    {
        let text = chars_of(comment.text.as_str());
        let markers = bdd_marker_list();
        let t = strip_one_prefix(text.as_slice(), markers.as_slice());
        let keywords = bdd_keyword_list();
        any_eq_ic(t.as_slice(), keywords.as_slice())
    }
}

/// Allows tool directives.
#[derive(Clone, Copy, Debug, Default)]
pub struct DirectiveFilter;

impl DirectiveFilter {
    /// The comment is a tool directive such as `# noqa`.
    pub fn should_skip(&self, comment: &CommentInfo) -> (res: bool)
        ensures
            res == is_directive_spec(comment.text@),
    {
        let text = chars_of(comment.text.as_str());
        let markers = directive_marker_list();
        let mut t = strip_one_prefix(text.as_slice(), markers.as_slice());
        if t.len() > 0 && t[0] == '@' {
            let rest = copy_range(t.as_slice(), 1, t.len());
            assert(rest@ =~= t@.drop_first());
            t = trim(rest.as_slice());
        }
        let prefixes = directive_prefix_list();
        any_starts_with_ic(t.as_slice(), prefixes.as_slice())
    }
}

/// Allows shebang lines.
#[derive(Clone, Copy, Debug, Default)]
pub struct ShebangFilter;

impl ShebangFilter {
    /// The comment is a shebang line.
    pub fn should_skip(&self, comment: &CommentInfo) -> (res: bool)
        ensures
            res == is_shebang_spec(comment.text@),
    {
        let text = chars_of(comment.text.as_str());
        let t = trim(text.as_slice());
        starts_with_str(t.as_slice(), "#!")
    }
}

/// Recognises agent memo comments.
#[derive(Clone, Copy, Debug, Default)]
pub struct AgentMemoFilter;

impl AgentMemoFilter {
    /// The comment describes what an agent changed.
    pub fn is_agent_memo(&self, comment: &CommentInfo) -> (res: bool)
        ensures
            res == is_agent_memo_spec(comment.text@),
    {
        let text = chars_of(comment.text.as_str());
        let t = trim(text.as_slice());
        let stripped = strip_agent_prefixes(t.as_slice());
        is_english_agent_memo(stripped.as_slice())
    }
}

fn bdd_marker_list() -> (res: Vec<&'static str>)
    ensures
        str_views(res@) == bdd_markers(),
{
    let mut v: Vec<&'static str> = Vec::new();
    v.push("#");
    v.push("//");
    v.push("--");
    assert(str_views(v@) =~= bdd_markers());
    v
}

fn directive_marker_list() -> (res: Vec<&'static str>)
    ensures
        str_views(res@) == directive_markers(),
{
    let mut v: Vec<&'static str> = Vec::new();
    v.push("#");
    v.push("//");
    v.push("/*");
    v.push("--");
    assert(str_views(v@) =~= directive_markers());
    v
}

fn bdd_keyword_list() -> (res: Vec<&'static str>)
    ensures
        str_views(res@) == bdd_keywords(),
{
    let mut v: Vec<&'static str> = Vec::new();
    v.push("given");
    v.push("when");
    v.push("then");
    v.push("arrange");
    v.push("act");
    v.push("assert");
    v.push("when & then");
    v.push("when&then");
    assert(str_views(v@) =~= bdd_keywords());
    v
}

fn directive_prefix_list() -> (res: Vec<&'static str>)
    ensures
        str_views(res@) == directive_prefixes(),
{
    let mut v: Vec<&'static str> = Vec::new();
    v.push("type:");
    v.push("noqa");
    v.push("pyright:");
    v.push("ruff:");
    v.push("mypy:");
    v.push("pylint:");
    v.push("flake8:");
    v.push("pyre:");
    v.push("pytype:");
    v.push("eslint-disable");
    v.push("eslint-ignore");
    v.push("prettier-ignore");
    v.push("ts-ignore");
    v.push("ts-expect-error");
    v.push("clippy:");
    v.push("allow");
    v.push("deny");
    v.push("warn");
    v.push("forbid");
    assert(str_views(v@) =~= directive_prefixes());
    v
}

/// `t` equals one of `ps`, ASCII letters compared without regard to case.
fn any_eq_ic(t: &[char], ps: &[&str]) -> (res: bool)
    ensures
        res == exists|i: int| 0 <= i < ps@.len() && eq_ic_spec(t@, #[trigger] str_views(ps@)[i]),
{
    let mut i: usize = 0;
    while i < ps.len()
        invariant
            i <= ps.len(),
            forall|k: int| 0 <= k < i ==> !eq_ic_spec(t@, #[trigger] str_views(ps@)[k]),
        decreases ps.len() - i,
    {
        if eq_ic_str(t, ps[i]) {
            assert(eq_ic_spec(t@, str_views(ps@)[i as int]));
            return true;
        }
        i = i + 1;
    }
    false
}

/// `t` begins with one of `ps`, ASCII letters compared without regard to case.
fn any_starts_with_ic(t: &[char], ps: &[&str]) -> (res: bool)
    ensures
        res == exists|i: int|
            0 <= i < ps@.len() && starts_with_ic_spec(t@, #[trigger] str_views(ps@)[i]),
{
    let mut i: usize = 0;
    while i < ps.len()
        invariant
            i <= ps.len(),
            forall|k: int| 0 <= k < i ==> !starts_with_ic_spec(t@, #[trigger] str_views(ps@)[k]),
        decreases ps.len() - i,
    {
        if starts_with_ic_str(t, ps[i]) {
            assert(starts_with_ic_spec(t@, str_views(ps@)[i as int]));
            return true;
        }
        i = i + 1;
    }
    false
}

/// The trimmed text with the first marker of `markers` that it begins with
/// removed, and trimmed again.
fn strip_one_prefix(text: &[char], markers: &[&str]) -> (res: Vec<char>)
    ensures
        res@ == strip_one_prefix_spec(text@, str_views(markers@)),
{
    let t = trim(text);
    let mut i: usize = 0;
    assert(str_views(markers@).skip(0) =~= str_views(markers@));
    while i < markers.len()
        invariant
            i <= markers.len(),
            t@ == trim_spec(text@),
            strip_first_marker_spec(t@, str_views(markers@)) == strip_first_marker_spec(
                t@,
                str_views(markers@).skip(i as int),
            ),
        decreases markers.len() - i,
    {
        let ghost rest = str_views(markers@).skip(i as int);
        assert(rest[0] == markers@[i as int]@);
        assert(rest.drop_first() =~= str_views(markers@).skip(i + 1));
        let m = chars_of(markers[i]);
        if starts_with_str(t.as_slice(), markers[i]) {
            let r = copy_range(t.as_slice(), m.len(), t.len());
            assert(r@ =~= t@.skip(m@.len() as int));
            return trim(r.as_slice());
        }
        i = i + 1;
    }
    t
}

/// Removes one prefix marker when the text begins with it, trimming after.
fn strip_marker_if_present(t: Vec<char>, marker: &str) -> (res: Vec<char>)
    ensures
        res@ == if starts_with_spec(t@, marker@) {
            trim_spec(t@.skip(marker@.len() as int))
        } else {
            t@
        },
{
    if starts_with_str(t.as_slice(), marker) {
        let m = chars_of(marker);
        let r = copy_range(t.as_slice(), m.len(), t.len());
        assert(r@ =~= t@.skip(m@.len() as int));
        trim(r.as_slice())
    } else {
        t
    }
}

fn strip_agent_prefixes(text: &[char]) -> (res: Vec<char>)
    ensures
        res@ == strip_agent_markers_spec(text@),
{
    let t0 = copy_range(text, 0, text.len());
    assert(t0@ =~= text@);
    let t1 = strip_marker_if_present(t0, "#");
    let t2 = strip_marker_if_present(t1, "//");
    let t3 = strip_marker_if_present(t2, "/*");
    let t4 = strip_marker_if_present(t3, "--");
    proof {
        reveal_strlit("#");
        reveal_strlit("//");
        reveal_strlit("/*");
        reveal_strlit("--");
        reveal_strlit("*");
    }
    strip_marker_if_present(t4, "*")
}

fn is_english_agent_memo(text: &[char]) -> (res: bool)
    ensures
        res == (starts_like_memo_spec(text@) || has_ascii_arrow_spec(text@)),
{
    let starts_like_memo = starts_like_memo(text);
    starts_like_memo || has_ascii_arrow(text)
}

/// `text` begins with `first`, then after optional whitespace with `second`.
fn starts_with_word_pair(text: &[char], first: &str, second: &str) -> (res: bool)
    ensures
        res == word_pair_spec(text@, first@, second@),
{
    if !starts_with_ic_str(text, first) {
        return false;
    }
    let f = chars_of(first);
    let rest = copy_range(text, f.len(), text.len());
    assert(rest@ =~= text@.skip(first@.len() as int));
    let rest = trim_start(rest.as_slice());
    starts_with_ic_str(rest.as_slice(), second)
}

/// The memo phrases and word pairs that begin with the (lower-cased) first
/// letter of `t`, and only those, tried on `t`.
pub open spec fn memo_by_first_letter_spec(t: Seq<char>) -> bool {
    if t.len() == 0 {
        false
    } else {
        let c = ascii_lower_spec(t[0]);
        if c == 'a' {
            starts_with_ic_spec(t, "added"@)
                || starts_with_ic_spec(t, "add"@)
                || starts_with_ic_spec(t, "after this"@)
        } else if c == 'b' {
            starts_with_ic_spec(t, "before this"@)
        } else if c == 'c' {
            word_pair_spec(t, "changed"@, "from"@)
                || word_pair_spec(t, "changed"@, "to"@)
                || word_pair_spec(t, "change"@, "from"@)
                || word_pair_spec(t, "change"@, "to"@)
                || word_pair_spec(t, "converted"@, "from"@)
                || word_pair_spec(t, "converted"@, "to"@)
                || word_pair_spec(t, "convert"@, "from"@)
                || word_pair_spec(t, "convert"@, "to"@)
        } else if c == 'd' {
            starts_with_ic_spec(t, "deleted"@)
                || starts_with_ic_spec(t, "delete"@)
        } else if c == 'h' {
            starts_with_ic_spec(t, "here we"@)
        } else if c == 'i' {
            starts_with_ic_spec(t, "implemented"@)
                || starts_with_ic_spec(t, "implement"@)
                || word_pair_spec(t, "implementation"@, "of"@)
                || word_pair_spec(t, "implementation"@, "note"@)
        } else if c == 'm' {
            word_pair_spec(t, "modified"@, "from"@)
                || word_pair_spec(t, "modified"@, "to"@)
                || word_pair_spec(t, "modify"@, "from"@)
                || word_pair_spec(t, "modify"@, "to"@)
                || word_pair_spec(t, "moved"@, "from"@)
                || word_pair_spec(t, "moved"@, "to"@)
                || word_pair_spec(t, "move"@, "from"@)
                || word_pair_spec(t, "move"@, "to"@)
                || word_pair_spec(t, "migrated"@, "from"@)
                || word_pair_spec(t, "migrated"@, "to"@)
                || word_pair_spec(t, "migrate"@, "from"@)
                || word_pair_spec(t, "migrate"@, "to"@)
        } else if c == 'n' {
            word_pair_spec(t, "now"@, "we"@)
                || word_pair_spec(t, "now"@, "this"@)
                || word_pair_spec(t, "now"@, "it"@)
                || starts_with_ic_spec(t, "note:"@)
        } else if c == 'p' {
            starts_with_ic_spec(t, "previously"@)
        } else if c == 'r' {
            starts_with_ic_spec(t, "refactor"@)
                || starts_with_ic_spec(t, "replaced"@)
                || starts_with_ic_spec(t, "replace"@)
                || starts_with_ic_spec(t, "removed"@)
                || starts_with_ic_spec(t, "remove"@)
                || word_pair_spec(t, "renamed"@, "from"@)
                || word_pair_spec(t, "renamed"@, "to"@)
                || word_pair_spec(t, "rename"@, "from"@)
                || word_pair_spec(t, "rename"@, "to"@)
        } else if c == 's' {
            word_pair_spec(t, "switched"@, "from"@)
                || word_pair_spec(t, "switched"@, "to"@)
                || word_pair_spec(t, "switch"@, "from"@)
                || word_pair_spec(t, "switch"@, "to"@)
        } else if c == 't' {
            word_pair_spec(t, "this"@, "implements"@)
                || word_pair_spec(t, "this"@, "implement"@)
                || word_pair_spec(t, "this"@, "adds"@)
                || word_pair_spec(t, "this"@, "add"@)
                || word_pair_spec(t, "this"@, "removes"@)
                || word_pair_spec(t, "this"@, "remove"@)
                || word_pair_spec(t, "this"@, "changes"@)
                || word_pair_spec(t, "this"@, "change"@)
                || word_pair_spec(t, "this"@, "fixes"@)
                || word_pair_spec(t, "this"@, "fix"@)
        } else if c == 'u' {
            word_pair_spec(t, "updated"@, "from"@)
                || word_pair_spec(t, "updated"@, "to"@)
                || word_pair_spec(t, "update"@, "from"@)
                || word_pair_spec(t, "update"@, "to"@)
        } else if c == 'w' {
            word_pair_spec(t, "was"@, "changed"@)
        } else {
            false
        }
    }
}

proof fn lemma_first_letter(t: Seq<char>, p: Seq<char>)
    requires
        p.len() > 0,
        starts_with_ic_spec(t, p),
    ensures
        t.len() > 0,
        ascii_lower_spec(t[0]) == ascii_lower_spec(p[0]),
{
    assert(ascii_lower_spec(t[0]) == ascii_lower_spec(p[0]));
}

proof fn lemma_phrase_dispatch(t: Seq<char>, i: int)
    requires
        0 <= i < memo_phrases().len(),
        starts_with_ic_spec(t, memo_phrases()[i]),
    ensures
        memo_by_first_letter_spec(t),
{
    if i == 0 {
        reveal_strlit("added");
        lemma_first_letter(t, "added"@);
    } else if i == 1 {
        reveal_strlit("add");
        lemma_first_letter(t, "add"@);
    } else if i == 2 {
        reveal_strlit("after this");
        lemma_first_letter(t, "after this"@);
    } else if i == 3 {
        reveal_strlit("before this");
        lemma_first_letter(t, "before this"@);
    } else if i == 4 {
        reveal_strlit("deleted");
        lemma_first_letter(t, "deleted"@);
    } else if i == 5 {
        reveal_strlit("delete");
        lemma_first_letter(t, "delete"@);
    } else if i == 6 {
        reveal_strlit("here we");
        lemma_first_letter(t, "here we"@);
    } else if i == 7 {
        reveal_strlit("implemented");
        lemma_first_letter(t, "implemented"@);
    } else if i == 8 {
        reveal_strlit("implement");
        lemma_first_letter(t, "implement"@);
    } else if i == 9 {
        reveal_strlit("note:");
        lemma_first_letter(t, "note:"@);
    } else if i == 10 {
        reveal_strlit("previously");
        lemma_first_letter(t, "previously"@);
    } else if i == 11 {
        reveal_strlit("refactor");
        lemma_first_letter(t, "refactor"@);
    } else if i == 12 {
        reveal_strlit("replaced");
        lemma_first_letter(t, "replaced"@);
    } else if i == 13 {
        reveal_strlit("replace");
        lemma_first_letter(t, "replace"@);
    } else if i == 14 {
        reveal_strlit("removed");
        lemma_first_letter(t, "removed"@);
    } else if i == 15 {
        reveal_strlit("remove");
        lemma_first_letter(t, "remove"@);
    }
}

proof fn lemma_pair_dispatch(t: Seq<char>, j: int)
    requires
        0 <= j < memo_word_pairs().len(),
        word_pair_spec(t, memo_word_pairs()[j].0, memo_word_pairs()[j].1),
    ensures
        memo_by_first_letter_spec(t),
{
    if j == 0 {
        reveal_strlit("changed");
        lemma_first_letter(t, "changed"@);
    } else if j == 1 {
        reveal_strlit("changed");
        lemma_first_letter(t, "changed"@);
    } else if j == 2 {
        reveal_strlit("change");
        lemma_first_letter(t, "change"@);
    } else if j == 3 {
        reveal_strlit("change");
        lemma_first_letter(t, "change"@);
    } else if j == 4 {
        reveal_strlit("converted");
        lemma_first_letter(t, "converted"@);
    } else if j == 5 {
        reveal_strlit("converted");
        lemma_first_letter(t, "converted"@);
    } else if j == 6 {
        reveal_strlit("convert");
        lemma_first_letter(t, "convert"@);
    } else if j == 7 {
        reveal_strlit("convert");
        lemma_first_letter(t, "convert"@);
    } else if j == 8 {
        reveal_strlit("implementation");
        lemma_first_letter(t, "implementation"@);
    } else if j == 9 {
        reveal_strlit("implementation");
        lemma_first_letter(t, "implementation"@);
    } else if j == 10 {
        reveal_strlit("modified");
        lemma_first_letter(t, "modified"@);
    } else if j == 11 {
        reveal_strlit("modified");
        lemma_first_letter(t, "modified"@);
    } else if j == 12 {
        reveal_strlit("modify");
        lemma_first_letter(t, "modify"@);
    } else if j == 13 {
        reveal_strlit("modify");
        lemma_first_letter(t, "modify"@);
    } else if j == 14 {
        reveal_strlit("moved");
        lemma_first_letter(t, "moved"@);
    } else if j == 15 {
        reveal_strlit("moved");
        lemma_first_letter(t, "moved"@);
    } else if j == 16 {
        reveal_strlit("move");
        lemma_first_letter(t, "move"@);
    } else if j == 17 {
        reveal_strlit("move");
        lemma_first_letter(t, "move"@);
    } else if j == 18 {
        reveal_strlit("migrated");
        lemma_first_letter(t, "migrated"@);
    } else if j == 19 {
        reveal_strlit("migrated");
        lemma_first_letter(t, "migrated"@);
    } else if j == 20 {
        reveal_strlit("migrate");
        lemma_first_letter(t, "migrate"@);
    } else if j == 21 {
        reveal_strlit("migrate");
        lemma_first_letter(t, "migrate"@);
    } else if j == 22 {
        reveal_strlit("now");
        lemma_first_letter(t, "now"@);
    } else if j == 23 {
        reveal_strlit("now");
        lemma_first_letter(t, "now"@);
    } else if j == 24 {
        reveal_strlit("now");
        lemma_first_letter(t, "now"@);
    } else if j == 25 {
        reveal_strlit("renamed");
        lemma_first_letter(t, "renamed"@);
    } else if j == 26 {
        reveal_strlit("renamed");
        lemma_first_letter(t, "renamed"@);
    } else if j == 27 {
        reveal_strlit("rename");
        lemma_first_letter(t, "rename"@);
    } else if j == 28 {
        reveal_strlit("rename");
        lemma_first_letter(t, "rename"@);
    } else if j == 29 {
        reveal_strlit("switched");
        lemma_first_letter(t, "switched"@);
    } else if j == 30 {
        reveal_strlit("switched");
        lemma_first_letter(t, "switched"@);
    } else if j == 31 {
        reveal_strlit("switch");
        lemma_first_letter(t, "switch"@);
    } else if j == 32 {
        reveal_strlit("switch");
        lemma_first_letter(t, "switch"@);
    } else if j == 33 {
        reveal_strlit("this");
        lemma_first_letter(t, "this"@);
    } else if j == 34 {
        reveal_strlit("this");
        lemma_first_letter(t, "this"@);
    } else if j == 35 {
        reveal_strlit("this");
        lemma_first_letter(t, "this"@);
    } else if j == 36 {
        reveal_strlit("this");
        lemma_first_letter(t, "this"@);
    } else if j == 37 {
        reveal_strlit("this");
        lemma_first_letter(t, "this"@);
    } else if j == 38 {
        reveal_strlit("this");
        lemma_first_letter(t, "this"@);
    } else if j == 39 {
        reveal_strlit("this");
        lemma_first_letter(t, "this"@);
    } else if j == 40 {
        reveal_strlit("this");
        lemma_first_letter(t, "this"@);
    } else if j == 41 {
        reveal_strlit("this");
        lemma_first_letter(t, "this"@);
    } else if j == 42 {
        reveal_strlit("this");
        lemma_first_letter(t, "this"@);
    } else if j == 43 {
        reveal_strlit("updated");
        lemma_first_letter(t, "updated"@);
    } else if j == 44 {
        reveal_strlit("updated");
        lemma_first_letter(t, "updated"@);
    } else if j == 45 {
        reveal_strlit("update");
        lemma_first_letter(t, "update"@);
    } else if j == 46 {
        reveal_strlit("update");
        lemma_first_letter(t, "update"@);
    } else if j == 47 {
        reveal_strlit("was");
        lemma_first_letter(t, "was"@);
    }
}

proof fn lemma_dispatch_flat(t: Seq<char>)
    requires
        memo_by_first_letter_spec(t),
    ensures
        starts_like_memo_spec(t),
{
    if starts_with_ic_spec(t, "added"@) {
        assert(memo_phrases()[0] == "added"@);
    }
    if starts_with_ic_spec(t, "add"@) {
        assert(memo_phrases()[1] == "add"@);
    }
    if starts_with_ic_spec(t, "after this"@) {
        assert(memo_phrases()[2] == "after this"@);
    }
    if starts_with_ic_spec(t, "before this"@) {
        assert(memo_phrases()[3] == "before this"@);
    }
    if word_pair_spec(t, "changed"@, "from"@) {
        assert(memo_word_pairs()[0] == ("changed"@, "from"@));
    }
    if word_pair_spec(t, "changed"@, "to"@) {
        assert(memo_word_pairs()[1] == ("changed"@, "to"@));
    }
    if word_pair_spec(t, "change"@, "from"@) {
        assert(memo_word_pairs()[2] == ("change"@, "from"@));
    }
    if word_pair_spec(t, "change"@, "to"@) {
        assert(memo_word_pairs()[3] == ("change"@, "to"@));
    }
    if word_pair_spec(t, "converted"@, "from"@) {
        assert(memo_word_pairs()[4] == ("converted"@, "from"@));
    }
    if word_pair_spec(t, "converted"@, "to"@) {
        assert(memo_word_pairs()[5] == ("converted"@, "to"@));
    }
    if word_pair_spec(t, "convert"@, "from"@) {
        assert(memo_word_pairs()[6] == ("convert"@, "from"@));
    }
    if word_pair_spec(t, "convert"@, "to"@) {
        assert(memo_word_pairs()[7] == ("convert"@, "to"@));
    }
    if starts_with_ic_spec(t, "deleted"@) {
        assert(memo_phrases()[4] == "deleted"@);
    }
    if starts_with_ic_spec(t, "delete"@) {
        assert(memo_phrases()[5] == "delete"@);
    }
    if starts_with_ic_spec(t, "here we"@) {
        assert(memo_phrases()[6] == "here we"@);
    }
    if starts_with_ic_spec(t, "implemented"@) {
        assert(memo_phrases()[7] == "implemented"@);
    }
    if starts_with_ic_spec(t, "implement"@) {
        assert(memo_phrases()[8] == "implement"@);
    }
    if word_pair_spec(t, "implementation"@, "of"@) {
        assert(memo_word_pairs()[8] == ("implementation"@, "of"@));
    }
    if word_pair_spec(t, "implementation"@, "note"@) {
        assert(memo_word_pairs()[9] == ("implementation"@, "note"@));
    }
    if word_pair_spec(t, "modified"@, "from"@) {
        assert(memo_word_pairs()[10] == ("modified"@, "from"@));
    }
    if word_pair_spec(t, "modified"@, "to"@) {
        assert(memo_word_pairs()[11] == ("modified"@, "to"@));
    }
    if word_pair_spec(t, "modify"@, "from"@) {
        assert(memo_word_pairs()[12] == ("modify"@, "from"@));
    }
    if word_pair_spec(t, "modify"@, "to"@) {
        assert(memo_word_pairs()[13] == ("modify"@, "to"@));
    }
    if word_pair_spec(t, "moved"@, "from"@) {
        assert(memo_word_pairs()[14] == ("moved"@, "from"@));
    }
    if word_pair_spec(t, "moved"@, "to"@) {
        assert(memo_word_pairs()[15] == ("moved"@, "to"@));
    }
    if word_pair_spec(t, "move"@, "from"@) {
        assert(memo_word_pairs()[16] == ("move"@, "from"@));
    }
    if word_pair_spec(t, "move"@, "to"@) {
        assert(memo_word_pairs()[17] == ("move"@, "to"@));
    }
    if word_pair_spec(t, "migrated"@, "from"@) {
        assert(memo_word_pairs()[18] == ("migrated"@, "from"@));
    }
    if word_pair_spec(t, "migrated"@, "to"@) {
        assert(memo_word_pairs()[19] == ("migrated"@, "to"@));
    }
    if word_pair_spec(t, "migrate"@, "from"@) {
        assert(memo_word_pairs()[20] == ("migrate"@, "from"@));
    }
    if word_pair_spec(t, "migrate"@, "to"@) {
        assert(memo_word_pairs()[21] == ("migrate"@, "to"@));
    }
    if word_pair_spec(t, "now"@, "we"@) {
        assert(memo_word_pairs()[22] == ("now"@, "we"@));
    }
    if word_pair_spec(t, "now"@, "this"@) {
        assert(memo_word_pairs()[23] == ("now"@, "this"@));
    }
    if word_pair_spec(t, "now"@, "it"@) {
        assert(memo_word_pairs()[24] == ("now"@, "it"@));
    }
    if starts_with_ic_spec(t, "note:"@) {
        assert(memo_phrases()[9] == "note:"@);
    }
    if starts_with_ic_spec(t, "previously"@) {
        assert(memo_phrases()[10] == "previously"@);
    }
    if starts_with_ic_spec(t, "refactor"@) {
        assert(memo_phrases()[11] == "refactor"@);
    }
    if starts_with_ic_spec(t, "replaced"@) {
        assert(memo_phrases()[12] == "replaced"@);
    }
    if starts_with_ic_spec(t, "replace"@) {
        assert(memo_phrases()[13] == "replace"@);
    }
    if starts_with_ic_spec(t, "removed"@) {
        assert(memo_phrases()[14] == "removed"@);
    }
    if starts_with_ic_spec(t, "remove"@) {
        assert(memo_phrases()[15] == "remove"@);
    }
    if word_pair_spec(t, "renamed"@, "from"@) {
        assert(memo_word_pairs()[25] == ("renamed"@, "from"@));
    }
    if word_pair_spec(t, "renamed"@, "to"@) {
        assert(memo_word_pairs()[26] == ("renamed"@, "to"@));
    }
    if word_pair_spec(t, "rename"@, "from"@) {
        assert(memo_word_pairs()[27] == ("rename"@, "from"@));
    }
    if word_pair_spec(t, "rename"@, "to"@) {
        assert(memo_word_pairs()[28] == ("rename"@, "to"@));
    }
    if word_pair_spec(t, "switched"@, "from"@) {
        assert(memo_word_pairs()[29] == ("switched"@, "from"@));
    }
    if word_pair_spec(t, "switched"@, "to"@) {
        assert(memo_word_pairs()[30] == ("switched"@, "to"@));
    }
    if word_pair_spec(t, "switch"@, "from"@) {
        assert(memo_word_pairs()[31] == ("switch"@, "from"@));
    }
    if word_pair_spec(t, "switch"@, "to"@) {
        assert(memo_word_pairs()[32] == ("switch"@, "to"@));
    }
    if word_pair_spec(t, "this"@, "implements"@) {
        assert(memo_word_pairs()[33] == ("this"@, "implements"@));
    }
    if word_pair_spec(t, "this"@, "implement"@) {
        assert(memo_word_pairs()[34] == ("this"@, "implement"@));
    }
    if word_pair_spec(t, "this"@, "adds"@) {
        assert(memo_word_pairs()[35] == ("this"@, "adds"@));
    }
    if word_pair_spec(t, "this"@, "add"@) {
        assert(memo_word_pairs()[36] == ("this"@, "add"@));
    }
    if word_pair_spec(t, "this"@, "removes"@) {
        assert(memo_word_pairs()[37] == ("this"@, "removes"@));
    }
    if word_pair_spec(t, "this"@, "remove"@) {
        assert(memo_word_pairs()[38] == ("this"@, "remove"@));
    }
    if word_pair_spec(t, "this"@, "changes"@) {
        assert(memo_word_pairs()[39] == ("this"@, "changes"@));
    }
    if word_pair_spec(t, "this"@, "change"@) {
        assert(memo_word_pairs()[40] == ("this"@, "change"@));
    }
    if word_pair_spec(t, "this"@, "fixes"@) {
        assert(memo_word_pairs()[41] == ("this"@, "fixes"@));
    }
    if word_pair_spec(t, "this"@, "fix"@) {
        assert(memo_word_pairs()[42] == ("this"@, "fix"@));
    }
    if word_pair_spec(t, "updated"@, "from"@) {
        assert(memo_word_pairs()[43] == ("updated"@, "from"@));
    }
    if word_pair_spec(t, "updated"@, "to"@) {
        assert(memo_word_pairs()[44] == ("updated"@, "to"@));
    }
    if word_pair_spec(t, "update"@, "from"@) {
        assert(memo_word_pairs()[45] == ("update"@, "from"@));
    }
    if word_pair_spec(t, "update"@, "to"@) {
        assert(memo_word_pairs()[46] == ("update"@, "to"@));
    }
    if word_pair_spec(t, "was"@, "changed"@) {
        assert(memo_word_pairs()[47] == ("was"@, "changed"@));
    }
}

proof fn lemma_memo_dispatch(t: Seq<char>)
    ensures
        memo_by_first_letter_spec(t) == starts_like_memo_spec(t),
{
    if memo_by_first_letter_spec(t) {
        lemma_dispatch_flat(t);
    }
    if exists|i: int|
        0 <= i < memo_phrases().len() && starts_with_ic_spec(t, #[trigger] memo_phrases()[i]) {
        let i = choose|i: int|
            0 <= i < memo_phrases().len() && starts_with_ic_spec(t, #[trigger] memo_phrases()[i]);
        lemma_phrase_dispatch(t, i);
    }
    if exists|j: int|
        0 <= j < memo_word_pairs().len() && word_pair_spec(
            t,
            (#[trigger] memo_word_pairs()[j]).0,
            memo_word_pairs()[j].1,
        ) {
        let j = choose|j: int|
            0 <= j < memo_word_pairs().len() && word_pair_spec(
                t,
                (#[trigger] memo_word_pairs()[j]).0,
                memo_word_pairs()[j].1,
            );
        lemma_pair_dispatch(t, j);
    }
}

/// The memo phrases and word pairs that begin with the first letter of
/// `text`, tried on `text`.
fn starts_like_memo(text: &[char]) -> (res: bool)
    ensures
        res == starts_like_memo_spec(text@),
{
    proof {
        lemma_memo_dispatch(text@);
    }
    if text.len() == 0 {
        return false;
    }
    let c = ascii_lower(text[0]);
    let r = if c == 'a' {
        starts_with_ic_str(text, "added")
            || starts_with_ic_str(text, "add")
            || starts_with_ic_str(text, "after this")
    } else if c == 'b' {
        starts_with_ic_str(text, "before this")
    } else if c == 'c' {
        starts_with_word_pair(text, "changed", "from")
            || starts_with_word_pair(text, "changed", "to")
            || starts_with_word_pair(text, "change", "from")
            || starts_with_word_pair(text, "change", "to")
            || starts_with_word_pair(text, "converted", "from")
            || starts_with_word_pair(text, "converted", "to")
            || starts_with_word_pair(text, "convert", "from")
            || starts_with_word_pair(text, "convert", "to")
    } else if c == 'd' {
        starts_with_ic_str(text, "deleted")
            || starts_with_ic_str(text, "delete")
    } else if c == 'h' {
        starts_with_ic_str(text, "here we")
    } else if c == 'i' {
        starts_with_ic_str(text, "implemented")
            || starts_with_ic_str(text, "implement")
            || starts_with_word_pair(text, "implementation", "of")
            || starts_with_word_pair(text, "implementation", "note")
    } else if c == 'm' {
        starts_with_word_pair(text, "modified", "from")
            || starts_with_word_pair(text, "modified", "to")
            || starts_with_word_pair(text, "modify", "from")
            || starts_with_word_pair(text, "modify", "to")
            || starts_with_word_pair(text, "moved", "from")
            || starts_with_word_pair(text, "moved", "to")
            || starts_with_word_pair(text, "move", "from")
            || starts_with_word_pair(text, "move", "to")
            || starts_with_word_pair(text, "migrated", "from")
            || starts_with_word_pair(text, "migrated", "to")
            || starts_with_word_pair(text, "migrate", "from")
            || starts_with_word_pair(text, "migrate", "to")
    } else if c == 'n' {
        starts_with_word_pair(text, "now", "we")
            || starts_with_word_pair(text, "now", "this")
            || starts_with_word_pair(text, "now", "it")
            || starts_with_ic_str(text, "note:")
    } else if c == 'p' {
        starts_with_ic_str(text, "previously")
    } else if c == 'r' {
        starts_with_ic_str(text, "refactor")
            || starts_with_ic_str(text, "replaced")
            || starts_with_ic_str(text, "replace")
            || starts_with_ic_str(text, "removed")
            || starts_with_ic_str(text, "remove")
            || starts_with_word_pair(text, "renamed", "from")
            || starts_with_word_pair(text, "renamed", "to")
            || starts_with_word_pair(text, "rename", "from")
            || starts_with_word_pair(text, "rename", "to")
    } else if c == 's' {
        starts_with_word_pair(text, "switched", "from")
            || starts_with_word_pair(text, "switched", "to")
            || starts_with_word_pair(text, "switch", "from")
            || starts_with_word_pair(text, "switch", "to")
    } else if c == 't' {
        starts_with_word_pair(text, "this", "implements")
            || starts_with_word_pair(text, "this", "implement")
            || starts_with_word_pair(text, "this", "adds")
            || starts_with_word_pair(text, "this", "add")
            || starts_with_word_pair(text, "this", "removes")
            || starts_with_word_pair(text, "this", "remove")
            || starts_with_word_pair(text, "this", "changes")
            || starts_with_word_pair(text, "this", "change")
            || starts_with_word_pair(text, "this", "fixes")
            || starts_with_word_pair(text, "this", "fix")
    } else if c == 'u' {
        starts_with_word_pair(text, "updated", "from")
            || starts_with_word_pair(text, "updated", "to")
            || starts_with_word_pair(text, "update", "from")
            || starts_with_word_pair(text, "update", "to")
    } else if c == 'w' {
        starts_with_word_pair(text, "was", "changed")
    } else {
        false
    };
    r
}

fn arrow_index(t: &[char]) -> (res: Option<usize>)
    ensures
        match res {
            Some(k) => arrow_index_from(t@, 0) == Some(k as int) && k + 1 < t@.len(),
            None => arrow_index_from(t@, 0).is_none(),
        },
{
    let mut i: usize = 0;
    while i < t.len() && i + 1 < t.len()
        invariant
            i <= t.len(),
            arrow_index_from(t@, 0) == arrow_index_from(t@, i as int),
        decreases t.len() - i,
    {
        if t[i] == '-' && t[i + 1] == '>' {
            return Some(i);
        }
        i = i + 1;
    }
    None
}

fn all_ascii_alpha(s: &[char]) -> (res: bool)
    ensures
        res == forall|x: int| 0 <= x < s@.len() ==> is_ascii_alpha_spec(#[trigger] s@[x]),
{
    let mut i: usize = 0;
    while i < s.len()
        invariant
            i <= s.len(),
            forall|x: int| 0 <= x < i ==> is_ascii_alpha_spec(#[trigger] s@[x]),
        decreases s.len() - i,
    {
        let c = s[i];
        if !(('A' <= c && c <= 'Z') || ('a' <= c && c <= 'z')) {
            return false;
        }
        i = i + 1;
    }
    true
}

fn has_ascii_arrow(text: &[char]) -> (res: bool)
    ensures
        res == has_ascii_arrow_spec(text@),
{
    match arrow_index(text) {
        None => false,
        Some(k) => {
            let l = copy_range(text, 0, k);
            let r = copy_range(text, k + 2, text.len());
            assert(l@ =~= text@.take(k as int));
            assert(r@ =~= text@.skip(k + 2));
            let left = trim(l.as_slice());
            let right = trim(r.as_slice());
            if left.len() == 0 || right.len() == 0 {
                return false;
            }
            let c = right[0];
            all_ascii_alpha(left.as_slice()) && (('A' <= c && c <= 'Z') || ('a' <= c && c <= 'z'))
        },
    }
}

/// The comments that none of the BDD, directive and shebang filters allows,
/// in their order.
pub fn apply_filters(comments: &[CommentInfo]) -> (res: Vec<CommentInfo>)
    ensures
        comment_views(res@) == apply_filters_spec(comment_views(comments@)),
{
    let bdd = BddFilter;
    let directive = DirectiveFilter;
    let shebang = ShebangFilter;
    let mut res: Vec<CommentInfo> = Vec::new();
    let mut i: usize = 0;
    while i < comments.len()
        invariant
            i <= comments.len(),
            comment_views(res@) == apply_filters_spec(comment_views(comments@.take(i as int))),
        decreases comments.len() - i,
    {
        let c = &comments[i];
        let ghost prefix = comment_views(comments@.take(i as int));
        assert(comment_views(comments@.take(i + 1)).drop_last() =~= prefix);
        assert(comment_views(comments@.take(i + 1)).last() == c@);
        if !bdd.should_skip(c) && !directive.should_skip(c) && !shebang.should_skip(c) {
            let d = c.duplicate();
            res.push(d);
            assert(comment_views(res@) =~= apply_filters_spec(prefix).push(c@));
        }
        i = i + 1;
    }
    assert(comments@.take(comments.len() as int) =~= comments@);
    res
}

} // verus!
