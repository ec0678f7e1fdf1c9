//! What the hook's steps guarantee of their results, stated over their
//! inputs: which comments count as new, what a multi-edit collects, what
//! the memo warning lists, which markers memo recognition looks through and
//! which directives are allowed.
use vstd::prelude::*;

use crate::api::{EditView, edit_comments_spec, filter_new_spec, multi_edit_comments_spec};
use crate::detector::{GrammarsView, detect_spec, occurs_in};
use crate::filters::{
    directive_text_spec, is_agent_memo_spec, is_bdd_spec, is_directive_spec,
    starts_like_memo_spec, strip_agent_markers_spec, strip_first_marker_spec,
};
use crate::models::{CommentView, normalized_text_spec};
use crate::output::{decimal_spec, format_hook_message_spec, memo_comments_spec, memo_lines_spec};
use crate::text::{
    eq_ic_spec, is_ascii_alpha_spec, is_whitespace_spec, starts_with_ic_spec, starts_with_spec, trim_end_spec,
    trim_spec, trim_start_spec,
};

verus! {

/// No comment of `old` has the normalized text of `c`.
pub open spec fn unseen_in(old: Seq<CommentView>, c: CommentView) -> bool {
    forall|k: int|
        0 <= k < old.len() ==> normalized_text_spec(#[trigger] old[k].text) != normalized_text_spec(
            c.text,
        )
}

/// The new comments are exactly the comments of the new text whose
/// normalized text is that of no old comment, in their order; so a comment
/// added to the new text joins the new comments exactly when no old comment
/// has its normalized text, whatever its line.
pub proof fn law_new_comments_are_the_unseen(
    old: Seq<CommentView>,
    new: Seq<CommentView>,
    c: CommentView,
)
    ensures
        filter_new_spec(old, new) == new.filter(|x: CommentView| unseen_in(old, x)),
        unseen_in(old, c) ==> filter_new_spec(old, new.push(c)) == filter_new_spec(old, new).push(
            c,
        ),
        !unseen_in(old, c) ==> filter_new_spec(old, new.push(c)) == filter_new_spec(old, new),
    decreases new.len(),
{
    reveal(Seq::filter);
    let np = new.push(c);
    assert(np.drop_last() =~= new);
    assert(np.last() == c);
    if new.len() > 0 {
        law_new_comments_are_the_unseen(old, new.drop_last(), new.last());
        assert(new.drop_last().push(new.last()) =~= new);
    } else {
        assert(new.filter(|x: CommentView| unseen_in(old, x)) =~= new);
    }
}

/// The new comments of an edit are the comments detected in the new text
/// whose normalized text is that of no comment detected in the old text, in
/// their order.
pub proof fn law_edit_comments_are_the_unseen_detections(
    grammars: GrammarsView,
    old_string: Seq<char>,
    new_string: Seq<char>,
    file_path: Seq<char>,
)
    ensures
        edit_comments_spec(grammars, old_string, new_string, file_path) == detect_spec(
            grammars,
            new_string,
            file_path,
            true,
        ).filter(
            |x: CommentView| unseen_in(detect_spec(grammars, old_string, file_path, true), x),
        ),
{
    let old = detect_spec(grammars, old_string, file_path, true);
    let new = detect_spec(grammars, new_string, file_path, true);
    law_new_comments_are_the_unseen(old, new, new.first());
}

/// A multi-edit with no edits raises nothing, and each edit with a
/// non-empty new string adds its new comments after those of the edits
/// before it, whatever those edits are; an edit with an empty new string
/// adds nothing.
pub proof fn law_multi_edit_collects_every_edit(
    grammars: GrammarsView,
    edits: Seq<EditView>,
    e: EditView,
    file_path: Seq<char>,
)
    ensures
        multi_edit_comments_spec(grammars, Seq::empty(), file_path) == Seq::<CommentView>::empty(),
        e.new_string.len() > 0 ==> multi_edit_comments_spec(grammars, edits.push(e), file_path)
            == multi_edit_comments_spec(grammars, edits, file_path) + edit_comments_spec(
            grammars,
            e.old_string,
            e.new_string,
            file_path,
        ),
        e.new_string.len() == 0 ==> multi_edit_comments_spec(grammars, edits.push(e), file_path)
            == multi_edit_comments_spec(grammars, edits, file_path),
{
    assert(edits.push(e).drop_last() =~= edits);
    assert(edits.push(e).last() == e);
}

/// The line that lists an agent memo: its line number and trimmed text.
pub open spec fn listed_memo_line(c: CommentView) -> Seq<char> {
    "  - Line "@ + decimal_spec(c.line_number as nat) + ": "@ + trim_spec(c.text) + "\n"@
}

/// The memos are the comments that read as agent memos, in order, and their
/// listing has one line per memo, in order: nothing for no memo, and a memo
/// added at the end adds its line at the end.
pub proof fn law_memo_listing_has_a_line_per_memo(
    cs: Seq<CommentView>,
    ms: Seq<CommentView>,
    c: CommentView,
)
    ensures
        memo_comments_spec(cs) == cs.filter(|x: CommentView| is_agent_memo_spec(x.text)),
        memo_lines_spec(Seq::empty()) == Seq::<char>::empty(),
        memo_lines_spec(ms.push(c)) == memo_lines_spec(ms) + listed_memo_line(c),
    decreases cs.len(),
{
    reveal(Seq::filter);
    assert(ms.push(c).drop_last() =~= ms);
    assert(ms.push(c).last() == c);
    if cs.len() > 0 {
        law_memo_listing_has_a_line_per_memo(cs.drop_last(), ms, c);
    } else {
        assert(cs.filter(|x: CommentView| is_agent_memo_spec(x.text)) =~= cs);
    }
}

proof fn lemma_occurs_in_concat(t: Seq<char>, a: Seq<char>, b: Seq<char>)
    ensures
        occurs_in(t, a) ==> occurs_in(t, a + b),
        occurs_in(t, b) ==> occurs_in(t, a + b),
        occurs_in(a, a + b),
        occurs_in(b, a + b),
{
    let s = a + b;
    assert(a =~= s.subrange(0, a.len() as int));
    assert(b =~= s.subrange(a.len() as int, s.len() as int));
    if occurs_in(t, a) {
        let (x, y) = choose|x: int, y: int| 0 <= x <= y <= a.len() && t == #[trigger] a.subrange(x, y);
        assert(t =~= s.subrange(x, y));
    }
    if occurs_in(t, b) {
        let (x, y) = choose|x: int, y: int| 0 <= x <= y <= b.len() && t == #[trigger] b.subrange(x, y);
        assert(t =~= s.subrange(a.len() + x, a.len() + y));
    }
}

proof fn lemma_memo_kept(cs: Seq<CommentView>, i: int)
    requires
        0 <= i < cs.len(),
        is_agent_memo_spec(cs[i].text),
    ensures
        memo_comments_spec(cs).contains(cs[i]),
    decreases cs.len(),
{
    let ms = memo_comments_spec(cs);
    if i == cs.len() - 1 {
        assert(ms[ms.len() - 1] == cs[i]);
    } else {
        lemma_memo_kept(cs.drop_last(), i);
        let init = memo_comments_spec(cs.drop_last());
        let j = choose|j: int| 0 <= j < init.len() && init[j] == cs.drop_last()[i];
        assert(ms[j] == init[j]);
    }
}

proof fn lemma_memo_line_listed(ms: Seq<CommentView>, j: int)
    requires
        0 <= j < ms.len(),
    ensures
        occurs_in(listed_memo_line(ms[j]), memo_lines_spec(ms)),
    decreases ms.len(),
{
    let init = ms.drop_last();
    lemma_occurs_in_concat(listed_memo_line(ms[j]), memo_lines_spec(init), listed_memo_line(ms.last()));
    if j < ms.len() - 1 {
        lemma_memo_line_listed(init, j);
        assert(init[j] == ms[j]);
    }
}

/// Without a custom prompt, the message on the comments lists the line of
/// every comment that reads as an agent memo: its line number and its
/// trimmed text.
pub proof fn law_message_lists_every_memo(cs: Seq<CommentView>, i: int)
    requires
        0 <= i < cs.len(),
        is_agent_memo_spec(cs[i].text),
    ensures
        occurs_in(listed_memo_line(cs[i]), format_hook_message_spec(cs, Seq::empty())),
{
    let ms = memo_comments_spec(cs);
    lemma_memo_kept(cs, i);
    let j = choose|j: int| 0 <= j < ms.len() && ms[j] == cs[i];
    lemma_memo_line_listed(ms, j);
    let line = listed_memo_line(cs[i]);
    let a = crate::output::AGENT_MEMO_BANNER@ + crate::output::AGENT_MEMO_GUIDANCE@;
    let l = memo_lines_spec(ms);
    let e = crate::output::AGENT_MEMO_END@;
    let rest = crate::output::HOOK_GUIDELINES@ + crate::output::grouped_comments_xml_spec(cs);
    lemma_occurs_in_concat(line, a, l);
    lemma_occurs_in_concat(line, a + l, e);
    lemma_occurs_in_concat(line, a + l + e, rest);
    assert(format_hook_message_spec(cs, Seq::empty()) == a + l + e + rest);
}

/// The first character of `b` that is not whitespace stays first when
/// trailing whitespace is cut, and cutting twice cuts nothing more.
proof fn lemma_trim_end_keeps_start(b: Seq<char>)
    requires
        b.len() > 0,
        !is_whitespace_spec(b[0]),
    ensures
        trim_end_spec(b).len() > 0,
        trim_end_spec(b)[0] == b[0],
        trim_end_spec(b).len() == 0 || !is_whitespace_spec(trim_end_spec(b).last()),
    decreases b.len(),
{
    if is_whitespace_spec(b.last()) {
        assert(b.len() > 1);
        lemma_trim_end_keeps_start(b.drop_last());
    }
}

proof fn lemma_trim_end_after(p: Seq<char>, b: Seq<char>)
    requires
        b.len() > 0,
        !is_whitespace_spec(b[0]),
    ensures
        trim_end_spec(p + b) == p + trim_end_spec(b),
    decreases b.len(),
{
    assert((p + b).last() == b.last());
    if is_whitespace_spec(b.last()) {
        assert(b.len() > 1);
        assert((p + b).drop_last() =~= p + b.drop_last());
        lemma_trim_end_after(p, b.drop_last());
    }
}

/// `x`, which begins and ends with something other than whitespace, is
/// what trimming a space and `x` gives.
proof fn lemma_trim_space_then(x: Seq<char>)
    requires
        x.len() > 0,
        !is_whitespace_spec(x[0]),
        !is_whitespace_spec(x.last()),
    ensures
        trim_spec(seq![' '] + x) == x,
        trim_spec(x) == x,
{
    let s = seq![' '] + x;
    assert(s[0] == ' ');
    assert(s.drop_first() =~= x);
    assert(trim_start_spec(x) == x);
    assert(trim_start_spec(s) == trim_start_spec(s.drop_first()));
    assert(trim_end_spec(x) == x);
}

/// A comment marker (`#`, `//`, `/*`, `--` or `*`) and a space before a
/// text that begins with an ASCII letter do not change whether the text
/// reads as an agent memo.
pub proof fn law_memo_ignores_comment_markers(b: Seq<char>)
    requires
        b.len() > 0,
        is_ascii_alpha_spec(b[0]),
    ensures
        is_agent_memo_spec("# "@ + b) == is_agent_memo_spec(b),
        is_agent_memo_spec("// "@ + b) == is_agent_memo_spec(b),
        is_agent_memo_spec("/* "@ + b) == is_agent_memo_spec(b),
        is_agent_memo_spec("-- "@ + b) == is_agent_memo_spec(b),
        is_agent_memo_spec("* "@ + b) == is_agent_memo_spec(b),
{
    reveal_strlit("# ");
    reveal_strlit("// ");
    reveal_strlit("/* ");
    reveal_strlit("-- ");
    reveal_strlit("* ");
    reveal_strlit("#");
    reveal_strlit("//");
    reveal_strlit("/*");
    reveal_strlit("--");
    reveal_strlit("*");
    lemma_trim_end_keeps_start(b);
    let x = trim_end_spec(b);
    lemma_trim_space_then(x);
    assert(trim_start_spec(b) == b);
    assert(trim_spec(b) == x);
    assert(!starts_with_spec(x, "#"@) && !starts_with_spec(x, "//"@) && !starts_with_spec(x, "/*"@)
        && !starts_with_spec(x, "--"@) && !starts_with_spec(x, "*"@)) by {
        assert(x.subrange(0, 1)[0] == x[0]);
    }
    assert(strip_agent_markers_spec(x) == x);
    let markers = seq!["# "@, "// "@, "/* "@, "-- "@, "* "@];
    assert forall|k: int| 0 <= k < markers.len() implies strip_agent_markers_spec(
        trim_spec(#[trigger] markers[k] + b),
    ) == x by {
        let m = markers[k];
        let s = m + b;
        assert(s[0] == m[0]);
        assert(trim_start_spec(s) == s);
        lemma_trim_end_after(m, b);
        let t = m + x;
        assert(trim_spec(s) == t);
        let rest = seq![' '] + x;
        if k == 0 {
            assert(t.subrange(0, 1) =~= "#"@);
            assert(t.skip(1) =~= rest);
        } else if k == 1 {
            assert(t.subrange(0, 1) != "#"@) by {
                assert(t.subrange(0, 1)[0] == t[0]);
            }
            assert(t.subrange(0, 2) =~= "//"@);
            assert(t.skip(2) =~= rest);
        } else if k == 2 {
            assert(t.subrange(0, 1)[0] == t[0]);
            assert(t.subrange(0, 2)[1] == t[1]);
            assert(t.subrange(0, 2) =~= "/*"@);
            assert(t.skip(2) =~= rest);
        } else if k == 3 {
            assert(t.subrange(0, 1)[0] == t[0]);
            assert(t.subrange(0, 2)[0] == t[0]);
            assert(t.subrange(0, 2) =~= "--"@);
            assert(t.skip(2) =~= rest);
        } else {
            assert(t.subrange(0, 1)[0] == t[0]);
            assert(t.subrange(0, 2)[0] == t[0]);
            assert(t.subrange(0, 1) =~= "*"@);
            assert(t.skip(1) =~= rest);
        }
    }
    assert(markers[0] == "# "@);
    assert(markers[1] == "// "@);
    assert(markers[2] == "/* "@);
    assert(markers[3] == "-- "@);
    assert(markers[4] == "* "@);
}

/// The directive prefixes that are allowed: a comment whose directive text
/// (the comment trimmed, without the first of the markers `#`, `//`, `/*`,
/// `--` that it begins with, and without a leading `@`) begins with one of
/// them, ASCII case aside, is a directive, and no other comment is.
pub proof fn law_allowed_directive_prefixes(text: Seq<char>)
    ensures
        ({
            let t = strip_first_marker_spec(trim_spec(text), seq!["#"@, "//"@, "/*"@, "--"@]);
            directive_text_spec(text) == if t.len() > 0 && t[0] == '@' {
                trim_spec(t.drop_first())
            } else {
                t
            }
        }),
        ({
            let allowed = seq![
                "type:"@,
                "noqa"@,
                "pyright:"@,
                "ruff:"@,
                "mypy:"@,
                "pylint:"@,
                "flake8:"@,
                "pyre:"@,
                "pytype:"@,
                "eslint-disable"@,
                "eslint-ignore"@,
                "prettier-ignore"@,
                "ts-ignore"@,
                "ts-expect-error"@,
                "clippy:"@,
                "allow"@,
                "deny"@,
                "warn"@,
                "forbid"@,
            ];
            is_directive_spec(text) <==> exists|i: int|
                0 <= i < allowed.len() && starts_with_ic_spec(
                    directive_text_spec(text),
                    #[trigger] allowed[i],
                )
        }),
{
}

/// The BDD markers: a comment that, trimmed and without the first of the
/// markers `#`, `//`, `--` that it begins with, is one of `given`, `when`,
/// `then`, `arrange`, `act`, `assert`, `when & then`, `when&then` (ASCII
/// case aside) is a BDD marker, and no other comment is.
pub proof fn law_bdd_keywords(text: Seq<char>)
    ensures
        ({
            let t = strip_first_marker_spec(trim_spec(text), seq!["#"@, "//"@, "--"@]);
            let keywords = seq![
                "given"@,
                "when"@,
                "then"@,
                "arrange"@,
                "act"@,
                "assert"@,
                "when & then"@,
                "when&then"@,
            ];
            is_bdd_spec(text) <==> exists|i: int|
                0 <= i < keywords.len() && eq_ic_spec(t, #[trigger] keywords[i])
        }),
{
}

/// `t` begins with `first` and then, after optional whitespace, `second`,
/// ASCII case aside.
pub open spec fn opens_with_pair(t: Seq<char>, first: Seq<char>, second: Seq<char>) -> bool {
    &&& starts_with_ic_spec(t, first)
    &&& starts_with_ic_spec(trim_start_spec(t.skip(first.len() as int)), second)
}

/// The openings of an agent memo: a text opens like one exactly when it
/// begins (ASCII case aside) with one of the phrases below, or with one of
/// the word pairs below, the two words apart by optional whitespace.
pub proof fn law_memo_openings(t: Seq<char>)
    ensures
        ({
            let phrases = seq![
                "added"@,
                "add"@,
                "after this"@,
                "before this"@,
                "deleted"@,
                "delete"@,
                "here we"@,
                "implemented"@,
                "implement"@,
                "note:"@,
                "previously"@,
                "refactor"@,
                "replaced"@,
                "replace"@,
                "removed"@,
                "remove"@,
            ];
            let pairs = seq![
                ("changed"@, "from"@),
                ("changed"@, "to"@),
                ("change"@, "from"@),
                ("change"@, "to"@),
                ("converted"@, "from"@),
                ("converted"@, "to"@),
                ("convert"@, "from"@),
                ("convert"@, "to"@),
                ("implementation"@, "of"@),
                ("implementation"@, "note"@),
                ("modified"@, "from"@),
                ("modified"@, "to"@),
                ("modify"@, "from"@),
                ("modify"@, "to"@),
                ("moved"@, "from"@),
                ("moved"@, "to"@),
                ("move"@, "from"@),
                ("move"@, "to"@),
                ("migrated"@, "from"@),
                ("migrated"@, "to"@),
                ("migrate"@, "from"@),
                ("migrate"@, "to"@),
                ("now"@, "we"@),
                ("now"@, "this"@),
                ("now"@, "it"@),
                ("renamed"@, "from"@),
                ("renamed"@, "to"@),
                ("rename"@, "from"@),
                ("rename"@, "to"@),
                ("switched"@, "from"@),
                ("switched"@, "to"@),
                ("switch"@, "from"@),
                ("switch"@, "to"@),
                ("this"@, "implements"@),
                ("this"@, "implement"@),
                ("this"@, "adds"@),
                ("this"@, "add"@),
                ("this"@, "removes"@),
                ("this"@, "remove"@),
                ("this"@, "changes"@),
                ("this"@, "change"@),
                ("this"@, "fixes"@),
                ("this"@, "fix"@),
                ("updated"@, "from"@),
                ("updated"@, "to"@),
                ("update"@, "from"@),
                ("update"@, "to"@),
                ("was"@, "changed"@),
            ];
            starts_like_memo_spec(t) <==> (exists|i: int|
                0 <= i < phrases.len() && starts_with_ic_spec(t, #[trigger] phrases[i]))
                || (exists|j: int|
                0 <= j < pairs.len() && opens_with_pair(
                    t,
                    (#[trigger] pairs[j]).0,
                    pairs[j].1,
                ))
        }),
{
}

} // verus!
