//! Properties that hold of the library as a whole.
use vstd::prelude::*;

use crate::api::{
    EXIT_BLOCK, EXIT_PASS, HookInput, check_parsed_spec, comments_to_judge_spec, decide_spec,
    edit_comments_spec, filter_new_spec, skip_reason_spec,
};
use crate::filters::{
    apply_filters_spec, arrow_index_from, bdd_keywords, bdd_markers, directive_markers,
    directive_prefixes, directive_text_spec, has_ascii_arrow_spec, is_agent_memo_spec,
    is_bdd_spec, is_directive_spec, is_kept_spec, is_shebang_spec, memo_phrases,
    memo_word_pairs, starts_like_memo_spec, strip_agent_markers_spec, strip_first_marker_spec, strip_one_prefix_spec,
    word_pair_spec,
};
use crate::language::{
    alias_language_spec, has_ascii_upper_spec, language_for_extension_spec,
    language_for_path_spec, last_index_spec, strip_leading_dots_spec,
};
use crate::text::{
    ascii_lower_seq, ascii_lower_spec, eq_ic_spec, is_ascii_alpha_spec, is_ascii_upper_spec,
    is_whitespace_spec, starts_with_ic_spec, starts_with_spec, trim_end_spec, trim_spec,
    trim_start_spec,
};
use crate::detector::{
    GrammarsView, RawCaptureView, captured_comment_spec, captured_nodes, detect_spec, grammar_spec, captures_to_comments_spec, detection_spec,
    docstring_line_spec, docstrings_of_lines_spec, docstrings_spec, jsdoc_spec, lines_from_spec,
    lines_spec,
};
use crate::models::{CommentType, CommentView, normalized_text_spec};
use crate::output::{
    COMMENTS_PLACEHOLDER, build_comments_xml_spec, comments_in_file_spec, distinct_paths_spec,
    file_group_xml_spec, format_hook_message_spec, grouped_comments_xml_spec,
    grouped_xml_from_spec, replace_spec, AGENT_MEMO_BANNER, AGENT_MEMO_END, AGENT_MEMO_GUIDANCE,
    DEFAULT_BANNER, HOOK_GUIDELINES, memo_comments_spec, memo_lines_spec,
};

verus! {

/// Filtering twice keeps what filtering once kept.
pub proof fn law_apply_filters_idempotent(cs: Seq<CommentView>)
    ensures
        apply_filters_spec(apply_filters_spec(cs)) == apply_filters_spec(cs),
    decreases cs.len(),
{
    lemma_apply_filters_all_kept(cs);
    lemma_filter_of_kept(apply_filters_spec(cs));
}

proof fn lemma_apply_filters_all_kept(cs: Seq<CommentView>)
    ensures
        forall|i: int|
            0 <= i < apply_filters_spec(cs).len() ==> is_kept_spec(
                #[trigger] apply_filters_spec(cs)[i],
            ),
    decreases cs.len(),
{
    if cs.len() > 0 {
        lemma_apply_filters_all_kept(cs.drop_last());
        let r = apply_filters_spec(cs.drop_last());
        let out = apply_filters_spec(cs);
        assert forall|i: int| 0 <= i < out.len() implies is_kept_spec(#[trigger] out[i]) by {
            if i < r.len() {
                assert(out[i] == r[i]);
            }
        }
    }
}

proof fn lemma_filter_of_kept(cs: Seq<CommentView>)
    requires
        forall|i: int| 0 <= i < cs.len() ==> is_kept_spec(#[trigger] cs[i]),
    ensures
        apply_filters_spec(cs) == cs,
    decreases cs.len(),
{
    if cs.len() > 0 {
        assert forall|i: int| 0 <= i < cs.drop_last().len() implies is_kept_spec(
            #[trigger] cs.drop_last()[i],
        ) by {
            assert(cs.drop_last()[i] == cs[i]);
        }
        lemma_filter_of_kept(cs.drop_last());
        assert(is_kept_spec(cs[cs.len() - 1]));
        assert(cs.drop_last().push(cs.last()) =~= cs);
    }
}

/// The filters keep exactly the comments that none of them allows, in their
/// order: every comment kept is one of the input that no filter allows, and
/// every such comment is kept.
pub proof fn law_apply_filters_keeps_exactly_the_unallowed(cs: Seq<CommentView>)
    ensures
        apply_filters_spec(cs).len() <= cs.len(),
        forall|i: int|
            0 <= i < apply_filters_spec(cs).len() ==> is_kept_spec(
                #[trigger] apply_filters_spec(cs)[i],
            ) && cs.contains(apply_filters_spec(cs)[i]),
        forall|i: int|
            0 <= i < cs.len() && is_kept_spec(#[trigger] cs[i]) ==> apply_filters_spec(
                cs,
            ).contains(cs[i]),
    decreases cs.len(),
{
    lemma_apply_filters_all_kept(cs);
    if cs.len() > 0 {
        let init = cs.drop_last();
        law_apply_filters_keeps_exactly_the_unallowed(init);
        let r = apply_filters_spec(init);
        let out = apply_filters_spec(cs);
        assert forall|i: int| 0 <= i < out.len() implies cs.contains(out[i]) by {
            if i < r.len() {
                assert(out[i] == r[i]);
                let k = choose|k: int| 0 <= k < init.len() && init[k] == r[i];
                assert(cs[k] == init[k]);
            } else {
                assert(out[i] == cs.last());
                assert(cs[cs.len() - 1] == cs.last());
            }
        }
        assert forall|i: int| 0 <= i < cs.len() && is_kept_spec(#[trigger] cs[i]) implies out.contains(
            cs[i],
        ) by {
            if i < cs.len() - 1 {
                assert(init[i] == cs[i]);
                assert(r.contains(cs[i]));
                let k = choose|k: int| 0 <= k < r.len() && r[k] == cs[i];
                assert(out[k] == r[k]);
            } else {
                assert(out[out.len() - 1] == cs.last());
            }
        }
    }
}

/// A check on comments blocks exactly when a comment remains once the
/// filters are applied; otherwise it passes.
pub proof fn law_decide_blocks_iff_unallowed_comment(cs: Seq<CommentView>, prompt: Seq<char>)
    ensures
        decide_spec(cs, prompt).exit_code == EXIT_BLOCK <==> apply_filters_spec(cs).len() > 0,
        decide_spec(cs, prompt).exit_code == EXIT_PASS <==> apply_filters_spec(cs).len() == 0,
{
    if cs.len() == 0 {
        assert(apply_filters_spec(cs).len() == 0);
    }
}

/// Every verdict on a parsed hook input either passes (exit code 0) or
/// blocks (exit code 2); a skipped input passes; and the check blocks
/// exactly when nothing is skipped and a comment to judge remains once the
/// filters are applied, with the hook message on those that remain.
pub proof fn law_check_exit_codes(grammars: GrammarsView, h: HookInput, prompt: Seq<char>)
    ensures
        check_parsed_spec(grammars, h, prompt).exit_code == EXIT_PASS || check_parsed_spec(
            grammars,
            h,
            prompt,
        ).exit_code == EXIT_BLOCK,
        skip_reason_spec(h).is_some() ==> check_parsed_spec(grammars, h, prompt).exit_code
            == EXIT_PASS,
        check_parsed_spec(grammars, h, prompt).exit_code == EXIT_BLOCK <==> skip_reason_spec(
            h,
        ).is_none() && apply_filters_spec(comments_to_judge_spec(grammars, h)).len() > 0,
        check_parsed_spec(grammars, h, prompt).exit_code == EXIT_BLOCK ==> check_parsed_spec(
            grammars,
            h,
            prompt,
        ).message == format_hook_message_spec(
            apply_filters_spec(comments_to_judge_spec(grammars, h)),
            prompt,
        ),
{
    law_decide_blocks_iff_unallowed_comment(comments_to_judge_spec(grammars, h), prompt);
}

/// An edit that leaves the comments as they were raises no new comment.
pub proof fn law_unchanged_comments_are_not_new(cs: Seq<CommentView>)
    ensures
        filter_new_spec(cs, cs).len() == 0,
{
    lemma_filter_new_of_present(cs, cs);
}

/// An edit that leaves the text as it was raises no new comment, whatever
/// the grammars and the file.
pub proof fn law_unchanged_edit_raises_nothing(
    grammars: GrammarsView,
    text: Seq<char>,
    file_path: Seq<char>,
)
    ensures
        edit_comments_spec(grammars, text, text, file_path).len() == 0,
{
    law_unchanged_comments_are_not_new(detect_spec(grammars, text, file_path, true));
}

proof fn lemma_filter_new_of_present(old: Seq<CommentView>, new: Seq<CommentView>)
    requires
        forall|i: int| 0 <= i < new.len() ==> old.contains(#[trigger] new[i]),
    ensures
        filter_new_spec(old, new).len() == 0,
    decreases new.len(),
{
    if new.len() > 0 {
        assert forall|i: int| 0 <= i < new.drop_last().len() implies old.contains(
            #[trigger] new.drop_last()[i],
        ) by {
            assert(new.drop_last()[i] == new[i]);
        }
        lemma_filter_new_of_present(old, new.drop_last());
        assert(old.contains(new[new.len() - 1]));
        let k = choose|k: int| 0 <= k < old.len() && old[k] == new.last();
        assert(normalized_text_spec(old[k].text) == normalized_text_spec(new.last().text));
    }
}

/// Where there were no comments before, every comment is new.
pub proof fn law_all_comments_new_without_old(cs: Seq<CommentView>)
    ensures
        filter_new_spec(Seq::empty(), cs) == cs,
    decreases cs.len(),
{
    if cs.len() > 0 {
        law_all_comments_new_without_old(cs.drop_last());
        assert(cs.drop_last().push(cs.last()) =~= cs);
    }
}

/// The new comments are comments of the new text, in order, and none of
/// them has the normalized text of an old comment.
pub proof fn law_new_comments_are_new(old: Seq<CommentView>, new: Seq<CommentView>)
    ensures
        filter_new_spec(old, new).len() <= new.len(),
        forall|i: int|
            0 <= i < filter_new_spec(old, new).len() ==> new.contains(
                #[trigger] filter_new_spec(old, new)[i],
            ),
        forall|i: int, k: int|
            0 <= i < filter_new_spec(old, new).len() && 0 <= k < old.len() ==> normalized_text_spec(
                #[trigger] filter_new_spec(old, new)[i].text,
            ) != normalized_text_spec(#[trigger] old[k].text),
    decreases new.len(),
{
    if new.len() > 0 {
        let init = new.drop_last();
        law_new_comments_are_new(old, init);
        let r = filter_new_spec(old, init);
        let out = filter_new_spec(old, new);
        assert forall|i: int| 0 <= i < out.len() implies new.contains(out[i]) by {
            if i < r.len() {
                assert(out[i] == r[i]);
                let k = choose|k: int| 0 <= k < init.len() && init[k] == r[i];
                assert(new[k] == init[k]);
            } else {
                assert(new[new.len() - 1] == new.last());
            }
        }
        assert forall|i: int, k: int|
            0 <= i < out.len() && 0 <= k < old.len() implies normalized_text_spec(
            #[trigger] out[i].text,
        ) != normalized_text_spec(#[trigger] old[k].text) by {
            if i < r.len() {
                assert(out[i] == r[i]);
            }
        }
    }
}

proof fn lemma_lower_strip_dots(e: Seq<char>)
    ensures
        strip_leading_dots_spec(ascii_lower_seq(e)) == ascii_lower_seq(strip_leading_dots_spec(e)),
    decreases e.len(),
{
    if e.len() > 0 {
        assert(ascii_lower_seq(e).drop_first() =~= ascii_lower_seq(e.drop_first()));
        lemma_lower_strip_dots(e.drop_first());
    }
}

proof fn lemma_lower_without_upper(s: Seq<char>)
    requires
        !has_ascii_upper_spec(s),
    ensures
        ascii_lower_seq(s) == s,
{
    assert forall|i: int| 0 <= i < s.len() implies ascii_lower_seq(s)[i] == s[i] by {
        assert(!is_ascii_upper_spec(s[i]));
    }
    assert(ascii_lower_seq(s) =~= s);
}

proof fn lemma_lower_has_no_upper(s: Seq<char>)
    ensures
        !has_ascii_upper_spec(ascii_lower_seq(s)),
{
    assert forall|i: int| 0 <= i < ascii_lower_seq(s).len() implies !is_ascii_upper_spec(
        #[trigger] ascii_lower_seq(s)[i],
    ) by {
        let c = s[i];
        if is_ascii_upper_spec(c) {
            assert(((c as u32) + 32) as char == ascii_lower_spec(c));
        }
    }
}

/// Every extension or file name that names a language is lower-case.
proof fn lemma_aliases_are_lower_case(s: Seq<char>)
    requires
        alias_language_spec(s).is_some(),
    ensures
        !has_ascii_upper_spec(s),
{
    reveal_strlit("py");
    reveal_strlit("js");
    reveal_strlit("jsx");
    reveal_strlit("ts");
    reveal_strlit("tsx");
    reveal_strlit("go");
    reveal_strlit("java");
    reveal_strlit("kt");
    reveal_strlit("scala");
    reveal_strlit("c");
    reveal_strlit("h");
    reveal_strlit("cpp");
    reveal_strlit("cc");
    reveal_strlit("cxx");
    reveal_strlit("hpp");
    reveal_strlit("rs");
    reveal_strlit("rb");
    reveal_strlit("sh");
    reveal_strlit("bash");
    reveal_strlit("cs");
    reveal_strlit("swift");
    reveal_strlit("ex");
    reveal_strlit("exs");
    reveal_strlit("lua");
    reveal_strlit("php");
    reveal_strlit("ml");
    reveal_strlit("mli");
    reveal_strlit("sql");
    reveal_strlit("html");
    reveal_strlit("htm");
    reveal_strlit("css");
    reveal_strlit("yaml");
    reveal_strlit("yml");
    reveal_strlit("toml");
    reveal_strlit("hcl");
    reveal_strlit("tf");
    reveal_strlit("dockerfile");
    reveal_strlit("proto");
    reveal_strlit("svelte");
    reveal_strlit("elm");
    reveal_strlit("groovy");
    reveal_strlit("cue");
    reveal_strlit("pl");
    reveal_strlit("pm");
    reveal_strlit("md");
    reveal_strlit("markdown");
}

/// Extensions are looked up without regard to ASCII case.
pub proof fn law_extension_lookup_ignores_ascii_case(extension: Seq<char>)
    ensures
        language_for_extension_spec(extension) == language_for_extension_spec(
            ascii_lower_seq(extension),
        ),
{
    let s = strip_leading_dots_spec(extension);
    lemma_lower_strip_dots(extension);
    let ls = ascii_lower_seq(s);
    lemma_lower_has_no_upper(s);
    if alias_language_spec(s).is_some() {
        lemma_aliases_are_lower_case(s);
        lemma_lower_without_upper(s);
    } else if !has_ascii_upper_spec(s) {
        lemma_lower_without_upper(s);
    }
}

/// Leading dots of an extension are ignored.
pub proof fn law_extension_lookup_ignores_leading_dot(extension: Seq<char>)
    ensures
        language_for_extension_spec(seq!['.'] + extension) == language_for_extension_spec(
            extension,
        ),
{
    assert((seq!['.'] + extension).drop_first() =~= extension);
}

proof fn lemma_last_index_of_suffix_without(p: Seq<char>, q: Seq<char>, c: char)
    requires
        forall|i: int| 0 <= i < q.len() ==> q[i] != c,
    ensures
        last_index_spec(p + q, c) == last_index_spec(p, c),
    decreases q.len(),
{
    if q.len() == 0 {
        assert(p + q =~= p);
    } else {
        assert((p + q).drop_last() =~= p + q.drop_last());
        assert((p + q).last() == q[q.len() - 1]);
        lemma_last_index_of_suffix_without(p, q.drop_last(), c);
    }
}

/// The language of a path is that of its last component: directories do not
/// matter.
pub proof fn law_path_language_depends_on_file_name(dir: Seq<char>, name: Seq<char>)
    requires
        forall|i: int| 0 <= i < name.len() ==> name[i] != '/',
    ensures
        language_for_path_spec(dir + seq!['/'] + name) == language_for_path_spec(name),
{
    let p = dir + seq!['/'];
    lemma_last_index_of_suffix_without(p, name, '/');
    assert(p.drop_last() =~= dir);
    assert(last_index_spec(p, '/') == dir.len());
    assert((dir + seq!['/'] + name).skip(dir.len() as int + 1) =~= name);
    lemma_last_index_of_suffix_without(Seq::empty(), name, '/');
    assert(Seq::<char>::empty() + name =~= name);
    assert(name.skip(0) =~= name);
}

/// `pat` occurs somewhere in `s`.
pub open spec fn occurs_in(s: Seq<char>, pat: Seq<char>) -> bool {
    exists|i: int| 0 <= i <= s.len() && starts_with_spec(#[trigger] s.skip(i), pat)
}

proof fn lemma_replace_without_occurrence(s: Seq<char>, pat: Seq<char>, to: Seq<char>)
    requires
        !occurs_in(s, pat),
    ensures
        replace_spec(s, pat, to) == s,
    decreases s.len(),
{
    if s.len() > 0 {
        assert(s.skip(0) =~= s);
        let d = s.drop_first();
        assert forall|i: int| 0 <= i <= d.len() implies !starts_with_spec(#[trigger] d.skip(i), pat) by {
            assert(d.skip(i) =~= s.skip(i + 1));
        }
        lemma_replace_without_occurrence(d, pat, to);
        assert(seq![s[0]] + d =~= s);
    }
}

/// A custom prompt without the `{{comments}}` placeholder is the whole
/// message, as it stands.
pub proof fn law_custom_prompt_without_placeholder_is_kept(cs: Seq<CommentView>, prompt: Seq<char>)
    requires
        cs.len() > 0,
        prompt.len() > 0,
        !occurs_in(prompt, COMMENTS_PLACEHOLDER@),
    ensures
        format_hook_message_spec(cs, prompt) == prompt,
{
    lemma_replace_without_occurrence(prompt, COMMENTS_PLACEHOLDER@, grouped_comments_xml_spec(cs));
}

/// With no comments there is no message, whatever the prompt, and no listing.
pub proof fn law_no_comments_no_message(prompt: Seq<char>, file_path: Seq<char>)
    ensures
        format_hook_message_spec(Seq::empty(), prompt).len() == 0,
        build_comments_xml_spec(Seq::empty(), file_path).len() == 0,
{
}

proof fn lemma_single_file(cs: Seq<CommentView>, p: Seq<char>)
    requires
        cs.len() > 0,
        forall|i: int| 0 <= i < cs.len() ==> (#[trigger] cs[i]).file_path == p,
    ensures
        distinct_paths_spec(cs) == seq![p],
        comments_in_file_spec(cs, p) == cs,
    decreases cs.len(),
{
    let init = cs.drop_last();
    assert(cs[cs.len() - 1].file_path == p);
    if init.len() == 0 {
        assert(distinct_paths_spec(init) =~= Seq::<Seq<char>>::empty());
        assert(comments_in_file_spec(init, p) =~= Seq::<CommentView>::empty());
        assert(Seq::<Seq<char>>::empty().push(p) =~= seq![p]);
        assert(Seq::<CommentView>::empty().push(cs.last()) =~= cs);
    } else {
        assert forall|i: int| 0 <= i < init.len() implies (#[trigger] init[i]).file_path == p by {
            assert(init[i] == cs[i]);
        }
        lemma_single_file(init, p);
        assert(seq![p].contains(p)) by {
            assert(seq![p][0] == p);
        }
        assert(init.push(cs.last()) =~= cs);
    }
}

/// The hook message lists the comments of a single file exactly as
/// `build_comments_xml` does for that file, followed by a newline.
pub proof fn law_single_file_listing(cs: Seq<CommentView>, p: Seq<char>)
    requires
        cs.len() > 0,
        forall|i: int| 0 <= i < cs.len() ==> (#[trigger] cs[i]).file_path == p,
    ensures
        grouped_comments_xml_spec(cs) == build_comments_xml_spec(cs, p) + "\n"@,
{
    lemma_single_file(cs, p);
    assert(seq![p].drop_last() =~= Seq::<Seq<char>>::empty());
    assert(seq![p].last() == p);
    assert(grouped_xml_from_spec(cs, Seq::<Seq<char>>::empty()) =~= Seq::<char>::empty());
    assert(grouped_xml_from_spec(cs, seq![p]) =~= file_group_xml_spec(cs, p));
}

/// A comment as detection makes it: in the given file, on a line counted
/// from 1, a docstring exactly when its type says so, without metadata.
pub open spec fn detected_comment_ok(c: CommentView, file_path: Seq<char>) -> bool {
    &&& c.file_path == file_path
    &&& c.line_number >= 1
    &&& (c.is_docstring <==> c.comment_type == CommentType::Docstring)
    &&& c.metadata == Map::<String, String>::empty()
}

/// All comments of `cs` are as detection makes them.
pub open spec fn all_detected_ok(cs: Seq<CommentView>, file_path: Seq<char>) -> bool {
    forall|i: int| 0 <= i < cs.len() ==> detected_comment_ok(#[trigger] cs[i], file_path)
}

proof fn lemma_all_ok_concat(a: Seq<CommentView>, b: Seq<CommentView>, fp: Seq<char>)
    requires
        all_detected_ok(a, fp),
        all_detected_ok(b, fp),
    ensures
        all_detected_ok(a + b, fp),
{
    assert forall|i: int| 0 <= i < (a + b).len() implies detected_comment_ok(
        #[trigger] (a + b)[i],
        fp,
    ) by {
        if i < a.len() {
            assert((a + b)[i] == a[i]);
        } else {
            assert((a + b)[i] == b[i - a.len()]);
        }
    }
}

proof fn lemma_captured_ok(caps: Seq<RawCaptureView>, fp: Seq<char>)
    ensures
        all_detected_ok(captures_to_comments_spec(caps, fp, false), fp),
    decreases caps.len(),
{
    if caps.len() > 0 {
        lemma_captured_ok(caps.drop_last(), fp);
        lemma_all_ok_concat(
            captures_to_comments_spec(caps.drop_last(), fp, false),
            captured_comment_spec(caps.last(), fp, false),
            fp,
        );
    }
}

proof fn lemma_jsdoc_ok(cs: Seq<CommentView>, fp: Seq<char>)
    requires
        all_detected_ok(cs, fp),
    ensures
        all_detected_ok(jsdoc_spec(cs, fp), fp),
    decreases cs.len(),
{
    if cs.len() > 0 {
        let init = cs.drop_last();
        assert forall|i: int| 0 <= i < init.len() implies detected_comment_ok(
            #[trigger] init[i],
            fp,
        ) by {
            assert(init[i] == cs[i]);
        }
        lemma_jsdoc_ok(init, fp);
        assert(detected_comment_ok(cs[cs.len() - 1], fp));
        let r = jsdoc_spec(init, fp);
        let out = jsdoc_spec(cs, fp);
        assert forall|i: int| 0 <= i < out.len() implies detected_comment_ok(#[trigger] out[i], fp) by {
            if i < r.len() {
                assert(out[i] == r[i]);
            }
        }
    }
}

proof fn lemma_lines_from_len(s: Seq<char>, cur: Seq<char>)
    ensures
        lines_from_spec(s, cur).len() <= s.len() + if cur.len() > 0 {
            1int
        } else {
            0int
        },
    decreases s.len(),
{
    if s.len() > 0 {
        if s[0] == '\n' {
            lemma_lines_from_len(s.drop_first(), Seq::empty());
        } else {
            lemma_lines_from_len(s.drop_first(), cur.push(s[0]));
        }
    }
}

proof fn lemma_docstrings_ok(lines: Seq<Seq<char>>, fp: Seq<char>)
    requires
        lines.len() <= usize::MAX,
    ensures
        all_detected_ok(docstrings_of_lines_spec(lines, fp), fp),
    decreases lines.len(),
{
    if lines.len() > 0 {
        lemma_docstrings_ok(lines.drop_last(), fp);
        lemma_all_ok_concat(
            docstrings_of_lines_spec(lines.drop_last(), fp),
            docstring_line_spec(lines.last(), lines.len() as int, fp),
            fp,
        );
    }
}

/// Every detected comment lies in the file it was detected in, on a line
/// counted from 1, is a docstring exactly when its type is `Docstring`, and
/// has no metadata.
pub proof fn law_detected_comments_well_formed(
    caps: Seq<RawCaptureView>,
    language_name: Seq<char>,
    content: Seq<char>,
    file_path: Seq<char>,
    include_docstrings: bool,
)
    requires
        content.len() <= usize::MAX,
    ensures
        all_detected_ok(
            detection_spec(caps, language_name, content, file_path, include_docstrings),
            file_path,
        ),
{
    let cs = captures_to_comments_spec(caps, file_path, false);
    lemma_captured_ok(caps, file_path);
    if include_docstrings {
        lemma_lines_from_len(content, Seq::empty());
        lemma_docstrings_ok(lines_spec(content), file_path);
        lemma_jsdoc_ok(cs, file_path);
        if language_name == "python"@ {
        } else if language_name == "javascript"@ || language_name == "typescript"@ || language_name
            == "tsx"@ || language_name == "java"@ {
        } else {
            assert(all_detected_ok(Seq::<CommentView>::empty(), file_path));
        }
        lemma_all_ok_concat(cs, docstrings_spec(language_name, content, file_path, cs), file_path);
    }
}

/// Asking for docstrings only adds comments after those found without them,
/// and every comment it adds is a docstring.
pub proof fn law_docstrings_only_extend(
    caps: Seq<RawCaptureView>,
    language_name: Seq<char>,
    content: Seq<char>,
    file_path: Seq<char>,
)
    requires
        content.len() <= usize::MAX,
    ensures
        ({
            let without = detection_spec(caps, language_name, content, file_path, false);
            let with = detection_spec(caps, language_name, content, file_path, true);
            &&& with.take(without.len() as int) == without
            &&& forall|i: int|
                without.len() <= i < with.len() ==> (#[trigger] with[i]).comment_type
                    == CommentType::Docstring
        }),
{
    let without = detection_spec(caps, language_name, content, file_path, false);
    let with = detection_spec(caps, language_name, content, file_path, true);
    assert(with.take(without.len() as int) =~= without);
    let docs = docstrings_spec(language_name, content, file_path, without);
    lemma_captured_ok(caps, file_path);
    lemma_lines_from_len(content, Seq::empty());
    lemma_docstrings_only(lines_spec(content), file_path);
    lemma_jsdoc_only(without, file_path);
    assert forall|i: int| without.len() <= i < with.len() implies (#[trigger] with[i]).comment_type
        == CommentType::Docstring by {
        assert(with[i] == docs[i - without.len()]);
    }
}

proof fn lemma_docstrings_only(lines: Seq<Seq<char>>, fp: Seq<char>)
    ensures
        forall|i: int|
            0 <= i < docstrings_of_lines_spec(lines, fp).len() ==> (#[trigger] docstrings_of_lines_spec(
                lines,
                fp,
            )[i]).comment_type == CommentType::Docstring,
    decreases lines.len(),
{
    if lines.len() > 0 {
        lemma_docstrings_only(lines.drop_last(), fp);
        let a = docstrings_of_lines_spec(lines.drop_last(), fp);
        let b = docstring_line_spec(lines.last(), lines.len() as int, fp);
        assert forall|i: int| 0 <= i < (a + b).len() implies (#[trigger] (a + b)[i]).comment_type
            == CommentType::Docstring by {
            if i < a.len() {
                assert((a + b)[i] == a[i]);
            } else {
                assert((a + b)[i] == b[i - a.len()]);
            }
        }
    }
}

proof fn lemma_jsdoc_only(cs: Seq<CommentView>, fp: Seq<char>)
    ensures
        forall|i: int|
            0 <= i < jsdoc_spec(cs, fp).len() ==> (#[trigger] jsdoc_spec(cs, fp)[i]).comment_type
                == CommentType::Docstring,
    decreases cs.len(),
{
    if cs.len() > 0 {
        lemma_jsdoc_only(cs.drop_last(), fp);
        let r = jsdoc_spec(cs.drop_last(), fp);
        let out = jsdoc_spec(cs, fp);
        assert forall|i: int| 0 <= i < out.len() implies (#[trigger] out[i]).comment_type
            == CommentType::Docstring by {
            if i < r.len() {
                assert(out[i] == r[i]);
            }
        }
    }
}

/// `c` is no ASCII letter.
pub open spec fn no_letters(m: Seq<char>) -> bool {
    forall|i: int| 0 <= i < m.len() ==> !is_ascii_alpha_spec(#[trigger] m[i])
}

proof fn lemma_lower_char(c: char)
    ensures
        is_whitespace_spec(ascii_lower_spec(c)) == is_whitespace_spec(c),
        is_ascii_alpha_spec(ascii_lower_spec(c)) == is_ascii_alpha_spec(c),
        ascii_lower_spec(ascii_lower_spec(c)) == ascii_lower_spec(c),
        !is_ascii_alpha_spec(c) ==> ascii_lower_spec(c) == c,
        is_ascii_alpha_spec(c) ==> is_ascii_alpha_spec(ascii_lower_spec(c)),
{
    if is_ascii_upper_spec(c) {
        let l = ascii_lower_spec(c);
        assert((l as u32) == (c as u32) + 32) by {
            vstd::utf8::char_u32_cast(l, ((c as u32) + 32) as u32);
        }
    }
}

proof fn lemma_lower_same_non_letter(c: char, m: char)
    requires
        !is_ascii_alpha_spec(m),
    ensures
        (ascii_lower_spec(c) == m) == (c == m),
{
    lemma_lower_char(c);
}

proof fn lemma_lower_trim_start(s: Seq<char>)
    ensures
        trim_start_spec(ascii_lower_seq(s)) == ascii_lower_seq(trim_start_spec(s)),
    decreases s.len(),
{
    if s.len() > 0 {
        lemma_lower_char(s[0]);
        assert(ascii_lower_seq(s).drop_first() =~= ascii_lower_seq(s.drop_first()));
        lemma_lower_trim_start(s.drop_first());
    }
}

proof fn lemma_lower_trim_end(s: Seq<char>)
    ensures
        trim_end_spec(ascii_lower_seq(s)) == ascii_lower_seq(trim_end_spec(s)),
    decreases s.len(),
{
    if s.len() > 0 {
        lemma_lower_char(s.last());
        assert(ascii_lower_seq(s).drop_last() =~= ascii_lower_seq(s.drop_last()));
        lemma_lower_trim_end(s.drop_last());
    }
}

proof fn lemma_lower_trim(s: Seq<char>)
    ensures
        trim_spec(ascii_lower_seq(s)) == ascii_lower_seq(trim_spec(s)),
{
    lemma_lower_trim_start(s);
    lemma_lower_trim_end(trim_start_spec(s));
}

proof fn lemma_lower_skip_take(s: Seq<char>, k: int)
    requires
        0 <= k <= s.len(),
    ensures
        ascii_lower_seq(s).skip(k) == ascii_lower_seq(s.skip(k)),
        ascii_lower_seq(s).take(k) == ascii_lower_seq(s.take(k)),
{
    assert(ascii_lower_seq(s).skip(k) =~= ascii_lower_seq(s.skip(k)));
    assert(ascii_lower_seq(s).take(k) =~= ascii_lower_seq(s.take(k)));
}

proof fn lemma_lower_starts_with(t: Seq<char>, m: Seq<char>)
    requires
        no_letters(m),
    ensures
        starts_with_spec(ascii_lower_seq(t), m) == starts_with_spec(t, m),
{
    if m.len() <= t.len() {
        let lt = ascii_lower_seq(t);
        if starts_with_spec(t, m) {
            assert forall|i: int| 0 <= i < m.len() implies lt.subrange(0, m.len() as int)[i]
                == m[i] by {
                assert(t.subrange(0, m.len() as int)[i] == m[i]);
                lemma_lower_same_non_letter(t[i], m[i]);
            }
            assert(lt.subrange(0, m.len() as int) =~= m);
        }
        if starts_with_spec(lt, m) {
            assert forall|i: int| 0 <= i < m.len() implies t.subrange(0, m.len() as int)[i]
                == m[i] by {
                assert(lt.subrange(0, m.len() as int)[i] == m[i]);
                lemma_lower_same_non_letter(t[i], m[i]);
            }
            assert(t.subrange(0, m.len() as int) =~= m);
        }
    }
}

proof fn lemma_lower_starts_with_ic(t: Seq<char>, p: Seq<char>)
    ensures
        starts_with_ic_spec(ascii_lower_seq(t), p) == starts_with_ic_spec(t, p),
        eq_ic_spec(ascii_lower_seq(t), p) == eq_ic_spec(t, p),
{
    let lt = ascii_lower_seq(t);
    if p.len() <= t.len() {
        if starts_with_ic_spec(t, p) {
            assert forall|i: int| 0 <= i < p.len() implies #[trigger] ascii_lower_spec(lt[i])
                == ascii_lower_spec(p[i]) by {
                lemma_lower_char(t[i]);
                assert(ascii_lower_spec(t[i]) == ascii_lower_spec(p[i]));
            }
        }
        if starts_with_ic_spec(lt, p) {
            assert forall|i: int| 0 <= i < p.len() implies #[trigger] ascii_lower_spec(t[i])
                == ascii_lower_spec(p[i]) by {
                lemma_lower_char(t[i]);
                assert(ascii_lower_spec(lt[i]) == ascii_lower_spec(p[i]));
            }
        }
    }
}

proof fn lemma_lower_strip_first_marker(t: Seq<char>, markers: Seq<Seq<char>>)
    requires
        forall|i: int| 0 <= i < markers.len() ==> no_letters(#[trigger] markers[i]),
    ensures
        strip_first_marker_spec(ascii_lower_seq(t), markers) == ascii_lower_seq(
            strip_first_marker_spec(t, markers),
        ),
    decreases markers.len(),
{
    if markers.len() > 0 {
        assert(no_letters(markers[0]));
        lemma_lower_starts_with(t, markers[0]);
        if starts_with_spec(t, markers[0]) {
            lemma_lower_skip_take(t, markers[0].len() as int);
            lemma_lower_trim(t.skip(markers[0].len() as int));
        } else {
            assert forall|i: int| 0 <= i < markers.drop_first().len() implies no_letters(
                #[trigger] markers.drop_first()[i],
            ) by {
                assert(markers.drop_first()[i] == markers[i + 1]);
            }
            lemma_lower_strip_first_marker(t, markers.drop_first());
        }
    }
}

proof fn lemma_marker_literals()
    ensures
        no_letters("#"@),
        no_letters("//"@),
        no_letters("--"@),
        no_letters("/*"@),
        no_letters("*"@),
        no_letters("#!"@),
        forall|i: int| 0 <= i < bdd_markers().len() ==> no_letters(#[trigger] bdd_markers()[i]),
        forall|i: int|
            0 <= i < directive_markers().len() ==> no_letters(#[trigger] directive_markers()[i]),
{
    reveal_strlit("#");
    reveal_strlit("//");
    reveal_strlit("--");
    reveal_strlit("/*");
    reveal_strlit("*");
    reveal_strlit("#!");
}

proof fn lemma_lower_strip_one_prefix(text: Seq<char>, markers: Seq<Seq<char>>)
    requires
        forall|i: int| 0 <= i < markers.len() ==> no_letters(#[trigger] markers[i]),
    ensures
        strip_one_prefix_spec(ascii_lower_seq(text), markers) == ascii_lower_seq(
            strip_one_prefix_spec(text, markers),
        ),
{
    lemma_lower_trim(text);
    lemma_lower_strip_first_marker(trim_spec(text), markers);
}

/// The BDD filter does not regard ASCII case.
pub proof fn law_bdd_filter_ignores_ascii_case(text: Seq<char>)
    ensures
        is_bdd_spec(ascii_lower_seq(text)) == is_bdd_spec(text),
{
    lemma_marker_literals();
    lemma_lower_strip_one_prefix(text, bdd_markers());
    let t = strip_one_prefix_spec(text, bdd_markers());
    assert forall|i: int| 0 <= i < bdd_keywords().len() implies eq_ic_spec(
        ascii_lower_seq(t),
        #[trigger] bdd_keywords()[i],
    ) == eq_ic_spec(t, bdd_keywords()[i]) by {
        lemma_lower_starts_with_ic(t, bdd_keywords()[i]);
    }
}

/// The directive filter does not regard ASCII case.
pub proof fn law_directive_filter_ignores_ascii_case(text: Seq<char>)
    ensures
        is_directive_spec(ascii_lower_seq(text)) == is_directive_spec(text),
{
    lemma_marker_literals();
    lemma_lower_strip_one_prefix(text, directive_markers());
    let t = strip_one_prefix_spec(text, directive_markers());
    let lt = ascii_lower_seq(t);
    if t.len() > 0 {
        lemma_lower_same_non_letter(t[0], '@');
        assert(lt.drop_first() =~= ascii_lower_seq(t.drop_first()));
        lemma_lower_trim(t.drop_first());
    }
    let d = directive_text_spec(text);
    assert(directive_text_spec(ascii_lower_seq(text)) == ascii_lower_seq(d));
    assert forall|i: int| 0 <= i < directive_prefixes().len() implies starts_with_ic_spec(
        ascii_lower_seq(d),
        #[trigger] directive_prefixes()[i],
    ) == starts_with_ic_spec(d, directive_prefixes()[i]) by {
        lemma_lower_starts_with_ic(d, directive_prefixes()[i]);
    }
}

/// The shebang filter does not regard ASCII case.
pub proof fn law_shebang_filter_ignores_ascii_case(text: Seq<char>)
    ensures
        is_shebang_spec(ascii_lower_seq(text)) == is_shebang_spec(text),
{
    lemma_marker_literals();
    lemma_lower_trim(text);
    lemma_lower_starts_with(trim_spec(text), "#!"@);
}

proof fn lemma_lower_strip_marker_step(t: Seq<char>, m: Seq<char>)
    requires
        no_letters(m),
    ensures
        (if starts_with_spec(ascii_lower_seq(t), m) {
            trim_spec(ascii_lower_seq(t).skip(m.len() as int))
        } else {
            ascii_lower_seq(t)
        }) == ascii_lower_seq(
            if starts_with_spec(t, m) {
                trim_spec(t.skip(m.len() as int))
            } else {
                t
            },
        ),
{
    lemma_lower_starts_with(t, m);
    if starts_with_spec(t, m) {
        lemma_lower_skip_take(t, m.len() as int);
        lemma_lower_trim(t.skip(m.len() as int));
    }
}

proof fn lemma_lower_strip_agent_markers(t: Seq<char>)
    ensures
        strip_agent_markers_spec(ascii_lower_seq(t)) == ascii_lower_seq(strip_agent_markers_spec(t)),
{
    lemma_marker_literals();
    let t1 = if starts_with_spec(t, "#"@) { trim_spec(t.skip(1)) } else { t };
    let t2 = if starts_with_spec(t1, "//"@) { trim_spec(t1.skip(2)) } else { t1 };
    let t3 = if starts_with_spec(t2, "/*"@) { trim_spec(t2.skip(2)) } else { t2 };
    let t4 = if starts_with_spec(t3, "--"@) { trim_spec(t3.skip(2)) } else { t3 };
    reveal_strlit("#");
    reveal_strlit("//");
    reveal_strlit("/*");
    reveal_strlit("--");
    reveal_strlit("*");
    lemma_lower_strip_marker_step(t, "#"@);
    lemma_lower_strip_marker_step(t1, "//"@);
    lemma_lower_strip_marker_step(t2, "/*"@);
    lemma_lower_strip_marker_step(t3, "--"@);
    lemma_lower_strip_marker_step(t4, "*"@);
}

proof fn lemma_lower_word_pair(t: Seq<char>, first: Seq<char>, second: Seq<char>)
    ensures
        word_pair_spec(ascii_lower_seq(t), first, second) == word_pair_spec(t, first, second),
{
    lemma_lower_starts_with_ic(t, first);
    if first.len() <= t.len() {
        lemma_lower_skip_take(t, first.len() as int);
        lemma_lower_trim_start(t.skip(first.len() as int));
        lemma_lower_starts_with_ic(trim_start_spec(t.skip(first.len() as int)), second);
    }
}

proof fn lemma_lower_arrow_index(t: Seq<char>, from: int)
    ensures
        arrow_index_from(ascii_lower_seq(t), from) == arrow_index_from(t, from),
    decreases t.len() - from,
{
    if 0 <= from && from + 1 < t.len() {
        lemma_lower_same_non_letter(t[from], '-');
        lemma_lower_same_non_letter(t[from + 1], '>');
        lemma_lower_arrow_index(t, from + 1);
    }
}

proof fn lemma_lower_arrow(t: Seq<char>)
    ensures
        has_ascii_arrow_spec(ascii_lower_seq(t)) == has_ascii_arrow_spec(t),
{
    lemma_lower_arrow_index(t, 0);
    match arrow_index_from(t, 0) {
        None => {},
        Some(k) => {
            lemma_arrow_index_bounds(t, 0);
            let lt = ascii_lower_seq(t);
            lemma_lower_skip_take(t, k);
            lemma_lower_skip_take(t, k + 2);
            lemma_lower_trim(t.take(k));
            lemma_lower_trim(t.skip(k + 2));
            let left = trim_spec(t.take(k));
            let right = trim_spec(t.skip(k + 2));
            let ll = trim_spec(lt.take(k));
            let lr = trim_spec(lt.skip(k + 2));
            assert(ll == ascii_lower_seq(left));
            assert(lr == ascii_lower_seq(right));
            let all_l = forall|x: int| 0 <= x < left.len() ==> is_ascii_alpha_spec(#[trigger] left[x]);
            let all_ll = forall|x: int| 0 <= x < ll.len() ==> is_ascii_alpha_spec(#[trigger] ll[x]);
            if all_l {
                assert forall|x: int| 0 <= x < ll.len() implies is_ascii_alpha_spec(#[trigger] ll[x]) by {
                    lemma_lower_char(left[x]);
                }
            }
            if all_ll {
                assert forall|x: int| 0 <= x < left.len() implies is_ascii_alpha_spec(
                    #[trigger] left[x],
                ) by {
                    lemma_lower_char(left[x]);
                    assert(is_ascii_alpha_spec(ll[x]));
                }
            }
            if right.len() > 0 {
                lemma_lower_char(right[0]);
                assert(lr[0] == ascii_lower_spec(right[0]));
            }
        },
    }
}

proof fn lemma_arrow_index_bounds(t: Seq<char>, from: int)
    ensures
        arrow_index_from(t, from) matches Some(k) ==> 0 <= k && k + 2 <= t.len(),
    decreases t.len() - from,
{
    if 0 <= from && from + 1 < t.len() {
        lemma_arrow_index_bounds(t, from + 1);
    }
}

/// The memo test on a text whose markers are stripped, with its letters
/// lower-cased, agrees with the test on the text itself.
proof fn lemma_english_memo_lower(t: Seq<char>)
    ensures
        (starts_like_memo_spec(ascii_lower_seq(t)) || has_ascii_arrow_spec(ascii_lower_seq(t))) == (
        starts_like_memo_spec(t) || has_ascii_arrow_spec(t)),
{
    assert forall|i: int| 0 <= i < memo_phrases().len() implies starts_with_ic_spec(
        ascii_lower_seq(t),
        #[trigger] memo_phrases()[i],
    ) == starts_with_ic_spec(t, memo_phrases()[i]) by {
        lemma_lower_starts_with_ic(t, memo_phrases()[i]);
    }
    assert forall|j: int| 0 <= j < memo_word_pairs().len() implies word_pair_spec(
        ascii_lower_seq(t),
        (#[trigger] memo_word_pairs()[j]).0,
        memo_word_pairs()[j].1,
    ) == word_pair_spec(t, memo_word_pairs()[j].0, memo_word_pairs()[j].1) by {
        lemma_lower_word_pair(t, memo_word_pairs()[j].0, memo_word_pairs()[j].1);
    }
    lemma_lower_arrow(t);
}

/// Agent memo detection does not regard ASCII case.
pub proof fn law_agent_memo_ignores_ascii_case(text: Seq<char>)
    ensures
        is_agent_memo_spec(ascii_lower_seq(text)) == is_agent_memo_spec(text),
{
    lemma_lower_trim(text);
    let t = strip_agent_markers_spec(trim_spec(text));
    lemma_lower_strip_agent_markers(trim_spec(text));
    lemma_english_memo_lower(t);
}

/// ASCII lower-case letters map to their upper-case form; every other
/// character is unchanged.
pub open spec fn ascii_upper_spec(c: char) -> char {
    if 'a' <= c && c <= 'z' {
        ((c as u32) - 32) as char
    } else {
        c
    }
}

/// `s` with its ASCII letters in upper case.
pub open spec fn ascii_upper_seq(s: Seq<char>) -> Seq<char> {
    Seq::new(s.len(), |i: int| ascii_upper_spec(s[i]))
}

proof fn lemma_lower_of_upper(s: Seq<char>)
    ensures
        ascii_lower_seq(ascii_upper_seq(s)) == ascii_lower_seq(s),
{
    assert forall|i: int| 0 <= i < s.len() implies ascii_lower_spec(
        #[trigger] ascii_upper_seq(s)[i],
    ) == ascii_lower_spec(s[i]) by {
        let c = s[i];
        if 'a' <= c && c <= 'z' {
            let u = ((c as u32) - 32) as char;
            assert(u as u32 == (c as u32) - 32);
            assert(((u as u32) + 32) as char == c);
        }
    }
    assert(ascii_lower_seq(ascii_upper_seq(s)) =~= ascii_lower_seq(s));
}

/// Whether a text, its agent markers stripped, reads as an agent memo does
/// not depend on the ASCII case of its letters: it reads as one in lower
/// case and in upper case exactly when it reads as one as it stands.
pub proof fn law_english_memo_ignores_ascii_case(t: Seq<char>)
    ensures
        (starts_like_memo_spec(ascii_lower_seq(t)) || has_ascii_arrow_spec(ascii_lower_seq(t))) == (
        starts_like_memo_spec(t) || has_ascii_arrow_spec(t)),
        (starts_like_memo_spec(ascii_upper_seq(t)) || has_ascii_arrow_spec(ascii_upper_seq(t))) == (
        starts_like_memo_spec(t) || has_ascii_arrow_spec(t)),
{
    lemma_english_memo_lower(t);
    lemma_english_memo_lower(ascii_upper_seq(t));
    lemma_lower_of_upper(t);
}

proof fn lemma_arrow_index_first(t: Seq<char>, from: int)
    requires
        0 <= from,
    ensures
        match arrow_index_from(t, from) {
            Some(k) => from <= k && k + 1 < t.len() && t[k] == '-' && t[k + 1] == '>' && forall|
                j: int,
            | from <= j < k ==> !(#[trigger] t[j] == '-' && t[j + 1] == '>'),
            None => forall|j: int|
                from <= j && j + 1 < t.len() ==> !(#[trigger] t[j] == '-' && t[j + 1] == '>'),
        },
    decreases t.len() - from,
{
    if from + 1 < t.len() {
        lemma_arrow_index_first(t, from + 1);
    }
}

/// The arrow check splits a text at its first `->`: `arrow_index_from(t, 0)`
/// is the position of the first arrow, and there is none exactly when `t`
/// holds no arrow.
pub proof fn law_arrow_index_is_first(t: Seq<char>)
    ensures
        match arrow_index_from(t, 0) {
            Some(k) => 0 <= k && k + 1 < t.len() && t[k] == '-' && t[k + 1] == '>' && forall|
                j: int,
            | 0 <= j < k ==> !(#[trigger] t[j] == '-' && t[j + 1] == '>'),
            None => forall|j: int|
                0 <= j && j + 1 < t.len() ==> !(#[trigger] t[j] == '-' && t[j + 1] == '>'),
        },
{
    lemma_arrow_index_first(t, 0);
}

proof fn lemma_memo_comments_nonempty(cs: Seq<CommentView>)
    ensures
        memo_comments_spec(cs).len() > 0 <==> exists|i: int|
            0 <= i < cs.len() && is_agent_memo_spec(#[trigger] cs[i].text),
    decreases cs.len(),
{
    if cs.len() > 0 {
        let init = cs.drop_last();
        lemma_memo_comments_nonempty(init);
        if exists|i: int| 0 <= i < init.len() && is_agent_memo_spec(#[trigger] init[i].text) {
            let i = choose|i: int| 0 <= i < init.len() && is_agent_memo_spec(#[trigger] init[i].text);
            assert(cs[i] == init[i]);
        }
        if exists|i: int| 0 <= i < cs.len() && is_agent_memo_spec(#[trigger] cs[i].text) {
            let i = choose|i: int| 0 <= i < cs.len() && is_agent_memo_spec(#[trigger] cs[i].text);
            if i < init.len() {
                assert(init[i] == cs[i]);
            }
        }
    }
}

/// With no custom prompt, the message on some comments opens with the
/// agent-memo banner exactly when one of them reads as an agent memo, and
/// with the plain banner otherwise; it ends with the guidelines (whose last
/// line introduces the listing) and the listing of the comments, texts and
/// paths as they stand.
pub proof fn law_default_message_shape(cs: Seq<CommentView>)
    requires
        cs.len() > 0,
    ensures
        ({
            let m = format_hook_message_spec(cs, Seq::empty());
            let tail = HOOK_GUIDELINES@ + grouped_comments_xml_spec(cs);
            &&& tail.len() <= m.len()
            &&& m.skip(m.len() - tail.len()) == tail
            &&& starts_with_spec(m, AGENT_MEMO_BANNER@) <==> exists|i: int|
                0 <= i < cs.len() && is_agent_memo_spec(#[trigger] cs[i].text)
            &&& !(exists|i: int| 0 <= i < cs.len() && is_agent_memo_spec(#[trigger] cs[i].text))
                ==> starts_with_spec(m, DEFAULT_BANNER@)
        }),
{
    let m = format_hook_message_spec(cs, Seq::empty());
    let xml = grouped_comments_xml_spec(cs);
    let tail = HOOK_GUIDELINES@ + xml;
    let memos = memo_comments_spec(cs);
    lemma_memo_comments_nonempty(cs);
    reveal_strlit("\u{1F6A8} AGENT MEMO COMMENT DETECTED - CODE SMELL ALERT \u{1F6A8}\n\n");
    reveal_strlit("COMMENT/DOCSTRING DETECTED - IMMEDIATE ACTION REQUIRED\n\n");
    let head = if memos.len() > 0 {
        AGENT_MEMO_BANNER@ + AGENT_MEMO_GUIDANCE@ + memo_lines_spec(memos) + AGENT_MEMO_END@
    } else {
        DEFAULT_BANNER@
    };
    assert(m == head + tail);
    assert(m.skip(m.len() - tail.len()) =~= tail);
    if memos.len() > 0 {
        assert(m.subrange(0, AGENT_MEMO_BANNER@.len() as int) =~= AGENT_MEMO_BANNER@);
    } else {
        assert(m.subrange(0, DEFAULT_BANNER@.len() as int) =~= DEFAULT_BANNER@);
        assert(m[0] != AGENT_MEMO_BANNER@[0]);
        assert(!starts_with_spec(m, AGENT_MEMO_BANNER@)) by {
            if starts_with_spec(m, AGENT_MEMO_BANNER@) {
                assert(m.subrange(0, AGENT_MEMO_BANNER@.len() as int)[0] == m[0]);
            }
        }
    }
}

/// With docstrings asked for, `detect` gives the comments it gives without
/// them, followed only by docstrings; for a language other than Python,
/// JavaScript, TypeScript, TSX and Java it gives the same comments either
/// way.
pub proof fn law_detect_docstrings_only_extend(
    grammars: GrammarsView,
    content: Seq<char>,
    file_path: Seq<char>,
)
    requires
        content.len() <= usize::MAX,
    ensures
        ({
            let without = detect_spec(grammars, content, file_path, false);
            let with = detect_spec(grammars, content, file_path, true);
            &&& with.take(without.len() as int) == without
            &&& forall|i: int|
                without.len() <= i < with.len() ==> (#[trigger] with[i]).comment_type
                    == CommentType::Docstring && with[i].is_docstring
            &&& (language_for_path_spec(file_path) matches Some(spec) && spec.name != "python"@
                && spec.name != "javascript"@ && spec.name != "typescript"@ && spec.name
                != "tsx"@ && spec.name != "java"@) ==> with == without
        }),
{
    let without = detect_spec(grammars, content, file_path, false);
    let with = detect_spec(grammars, content, file_path, true);
    match language_for_path_spec(file_path) {
        None => {},
        Some(spec) => match grammar_spec(grammars, spec.name) {
            None => {},
            Some(language) => match captured_nodes(language, spec.comment_query, content) {
                None => {},
                Some(caps) => {
                    law_docstrings_only_extend(caps, spec.name, content, file_path);
                    law_detected_comments_well_formed(caps, spec.name, content, file_path, true);
                    assert forall|i: int| without.len() <= i < with.len() implies (
                    #[trigger] with[i]).comment_type == CommentType::Docstring
                        && with[i].is_docstring by {
                        assert(detected_comment_ok(with[i], file_path));
                    }
                    if spec.name != "python"@ && spec.name != "javascript"@ && spec.name
                        != "typescript"@ && spec.name != "tsx"@ && spec.name != "java"@ {
                        assert(with =~= without);
                    }
                },
            },
        },
    }
}

} // verus!
