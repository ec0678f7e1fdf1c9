//! The hook check: which edit to look at, which comments are new, and the
//! verdict with its message.
use vstd::prelude::*;

use crate::detector::{CommentDetector, GrammarsView, detect_spec};
use crate::filters::{apply_filters, apply_filters_spec};
use crate::language::{language_for_path, language_for_path_spec};
use crate::models::{CommentInfo, CommentView, comment_views, normalized_text_spec};
use crate::output::{format_hook_message, format_hook_message_spec, replace_all, replace_spec};
use crate::text::{chars_of, equals_str, push_chars, push_str};

verus! {

/// Exit code of a check that lets the edit pass.
pub const EXIT_PASS: i32 = 0;

/// Exit code of a check that blocks the edit.
pub const EXIT_BLOCK: i32 = 2;

/// Message of a check that found no comment to complain about.
pub const SUCCESS_MESSAGE: &'static str =
    "[check-comments] Success: No problematic comments/docstrings found\n";

/// The verdict of a hook check.
#[derive(Clone, Debug, PartialEq, Eq)]
pub struct HookCheckResult {
    pub exit_code: i32,
    pub message: String,
}

/// The mathematical value of a `HookCheckResult`.
pub struct HookResultView {
    pub exit_code: i32,
    pub message: Seq<char>,
}

impl View for HookCheckResult {
    type V = HookResultView;

    open spec fn view(&self) -> HookResultView {
        HookResultView { exit_code: self.exit_code, message: self.message@ }
    }
}

impl HookCheckResult {
    /// A verdict that lets the edit pass.
    pub fn pass(message: &str) -> (res: Self)
        ensures
            res@ == (HookResultView { exit_code: EXIT_PASS, message: message@ }),
    {
        HookCheckResult { exit_code: EXIT_PASS, message: String::from_str(message) }
    }

    /// A verdict that blocks the edit.
    pub fn block(message: &str) -> (res: Self)
        ensures
            res@ == (HookResultView { exit_code: EXIT_BLOCK, message: message@ }),
    {
        HookCheckResult { exit_code: EXIT_BLOCK, message: String::from_str(message) }
    }
}

/// One replacement of a multi-edit.
#[derive(Clone, Debug, Default, PartialEq, Eq)]
pub struct EditInput {
    pub old_string: String,
    pub new_string: String,
}

/// What the hook reports of the tool call.
#[derive(Clone, Debug, Default, PartialEq, Eq)]
pub struct ToolInput {
    pub file_path: String,
    pub content: String,
    pub new_string: String,
    pub old_string: String,
    pub edits: Vec<EditInput>,
}

/// The hook's input: the tool's name and what it was given.
#[derive(Clone, Debug, Default, PartialEq, Eq)]
pub struct HookInput {
    pub tool_name: String,
    pub tool_input: ToolInput,
}

/// The mathematical value of an `EditInput`.
pub struct EditView {
    pub old_string: Seq<char>,
    pub new_string: Seq<char>,
}

/// The views of a sequence of edits.
pub open spec fn edit_views(es: Seq<EditInput>) -> Seq<EditView> {
    es.map_values(|e: EditInput| EditView { old_string: e.old_string@, new_string: e.new_string@ })
}

/// The view of a skipped check's message.
pub open spec fn skip_message_spec(reason: Seq<char>) -> Seq<char> {
    "[check-comments] Skipping: "@ + reason + "\n"@
}

/// A check that lets the edit pass because there was nothing to look at.
pub open spec fn skip_spec(reason: Seq<char>) -> HookResultView {
    HookResultView { exit_code: EXIT_PASS, message: skip_message_spec(reason) }
}

/// A check that lets the edit pass because no comment needs a word.
pub open spec fn success_spec() -> HookResultView {
    HookResultView { exit_code: EXIT_PASS, message: SUCCESS_MESSAGE@ }
}

/// The text that a `Write`-like call puts in the file: the content of a
/// `Write`, the new string of an `Edit`, nothing for a `MultiEdit`; for
/// another tool the content where there is one, else the new string.
pub open spec fn content_to_check_spec(
    tool_name: Seq<char>,
    content: Seq<char>,
    new_string: Seq<char>,
) -> Seq<char> {
    if tool_name == "Write"@ {
        content
    } else if tool_name == "Edit"@ {
        new_string
    } else if tool_name == "MultiEdit"@ {
        Seq::empty()
    } else if content.len() > 0 {
        content
    } else {
        new_string
    }
}

/// The new comments: those of `new` whose normalized text is the normalized
/// text of none of `old`, in order.
pub open spec fn filter_new_spec(old: Seq<CommentView>, new: Seq<CommentView>) -> Seq<CommentView>
    decreases new.len(),
{
    if new.len() == 0 {
        Seq::empty()
    } else {
        let rest = filter_new_spec(old, new.drop_last());
        let c = new.last();
        if exists|k: int|
            0 <= k < old.len() && normalized_text_spec(#[trigger] old[k].text)
                == normalized_text_spec(c.text) {
            rest
        } else {
            rest.push(c)
        }
    }
}

/// The new comments of one edit: the comments and docstrings detected in
/// the new text whose normalized text is that of none detected in the old.
pub open spec fn edit_comments_spec(
    grammars: GrammarsView,
    old_string: Seq<char>,
    new_string: Seq<char>,
    file_path: Seq<char>,
) -> Seq<CommentView> {
    filter_new_spec(
        detect_spec(grammars, old_string, file_path, true),
        detect_spec(grammars, new_string, file_path, true),
    )
}

/// The new comments of a multi-edit: those of each edit with a non-empty
/// new string, one edit after the other.
pub open spec fn multi_edit_comments_spec(
    grammars: GrammarsView,
    edits: Seq<EditView>,
    file_path: Seq<char>,
) -> Seq<CommentView>
    decreases edits.len(),
{
    if edits.len() == 0 {
        Seq::empty()
    } else {
        let rest = multi_edit_comments_spec(grammars, edits.drop_last(), file_path);
        let e = edits.last();
        if e.new_string.len() == 0 {
            rest
        } else {
            rest + edit_comments_spec(grammars, e.old_string, e.new_string, file_path)
        }
    }
}

/// Why a parsed hook input is let pass without looking at comments, if it is.
pub open spec fn skip_reason_spec(h: HookInput) -> Option<Seq<char>> {
    let t = h.tool_input;
    let fp = t.file_path@;
    if fp.len() == 0 {
        Some("No file path provided"@)
    } else if language_for_path_spec(fp).is_none() {
        Some("Non-code file"@)
    } else if h.tool_name@ == "Edit"@ {
        if t.new_string@.len() == 0 {
            Some("No content to check"@)
        } else {
            None
        }
    } else if h.tool_name@ == "MultiEdit"@ {
        if t.edits@.len() == 0 {
            Some("No content to check"@)
        } else {
            None
        }
    } else if content_to_check_spec(h.tool_name@, t.content@, t.new_string@).len() == 0 {
        Some("No content to check"@)
    } else {
        None
    }
}

/// The comments to judge: for an `Edit` the new comments of the edit, for a
/// `MultiEdit` those of its edits, else the comments and docstrings of the
/// text the call writes.
pub open spec fn comments_to_judge_spec(grammars: GrammarsView, h: HookInput) -> Seq<
    CommentView,
> {
    let t = h.tool_input;
    if h.tool_name@ == "Edit"@ {
        edit_comments_spec(grammars, t.old_string@, t.new_string@, t.file_path@)
    } else if h.tool_name@ == "MultiEdit"@ {
        multi_edit_comments_spec(grammars, edit_views(t.edits@), t.file_path@)
    } else {
        detect_spec(
            grammars,
            content_to_check_spec(h.tool_name@, t.content@, t.new_string@),
            t.file_path@,
            true,
        )
    }
}

/// The verdict on the comments found: pass where there are none or where
/// the filters allow them all; else block, with the hook message on the
/// comments that remain.
pub open spec fn decide_spec(cs: Seq<CommentView>, prompt: Seq<char>) -> HookResultView {
    if cs.len() == 0 {
        success_spec()
    } else {
        let filtered = apply_filters_spec(cs);
        if filtered.len() == 0 {
            success_spec()
        } else {
            HookResultView {
                exit_code: EXIT_BLOCK,
                message: format_hook_message_spec(filtered, prompt),
            }
        }
    }
}

/// The verdict on a parsed hook input: pass with the reason where there is
/// nothing to look at, else the verdict on the comments to judge.
pub open spec fn check_parsed_spec(
    grammars: GrammarsView,
    h: HookInput,
    prompt: Seq<char>,
) -> HookResultView {
    match skip_reason_spec(h) {
        Some(reason) => skip_spec(reason),
        None => decide_spec(comments_to_judge_spec(grammars, h), prompt),
    }
}

/// A verdict that lets the edit pass, giving the reason.
pub fn skip(reason: &str) -> (res: HookCheckResult)
    ensures
        res@ == skip_spec(reason@),
{
    let mut message = String::new();
    push_str(&mut message, "[check-comments] Skipping: ");
    push_str(&mut message, reason);
    push_str(&mut message, "\n");
    HookCheckResult { exit_code: EXIT_PASS, message }
}

/// The verdict that no comment needs a word.
pub fn success() -> (res: HookCheckResult)
    ensures
        res@ == success_spec(),
{
    HookCheckResult::pass(SUCCESS_MESSAGE)
}

/// The text a call writes into the file, as `content_to_check_spec` says.
pub fn get_content_to_check(input: &HookInput) -> (res: &str)
    ensures
        res@ == content_to_check_spec(
            input.tool_name@,
            input.tool_input.content@,
            input.tool_input.new_string@,
        ),
{
    let name = chars_of(input.tool_name.as_str());
    if equals_str(name.as_slice(), "Write") {
        input.tool_input.content.as_str()
    } else if equals_str(name.as_slice(), "Edit") {
        input.tool_input.new_string.as_str()
    } else if equals_str(name.as_slice(), "MultiEdit") {
        proof {
            reveal_strlit("");
        }
        ""
    } else if chars_of(input.tool_input.content.as_str()).len() > 0 {
        input.tool_input.content.as_str()
    } else {
        input.tool_input.new_string.as_str()
    }
}

/// The comments of `new_comments` whose normalized text is that of none of
/// `old_comments`.
pub fn filter_new_comments(old_comments: &[CommentInfo], new_comments: &[CommentInfo]) -> (res:
    Vec<CommentInfo>)
    ensures
        comment_views(res@) == filter_new_spec(
            comment_views(old_comments@),
            comment_views(new_comments@),
        ),
{
    let ghost ov = comment_views(old_comments@);
    // The old normalized texts are kept in a vector and searched in turn:
    // with `String` keys, a hash set's lookups would give the proof nothing
    // to go on.
    let mut old_texts: Vec<String> = Vec::new();
    let mut i: usize = 0;
    while i < old_comments.len()
        invariant
            i <= old_comments.len(),
            ov == comment_views(old_comments@),
            old_texts@.len() == i,
            forall|k: int|
                0 <= k < i ==> (#[trigger] old_texts@[k])@ == normalized_text_spec(ov[k].text),
        decreases old_comments.len() - i,
    {
        old_texts.push(old_comments[i].normalized_text());
        i = i + 1;
    }
    let mut res: Vec<CommentInfo> = Vec::new();
    let mut j: usize = 0;
    while j < new_comments.len()
        invariant
            j <= new_comments.len(),
            ov == comment_views(old_comments@),
            old_texts@.len() == old_comments@.len(),
            forall|k: int|
                0 <= k < old_texts@.len() ==> (#[trigger] old_texts@[k])@ == normalized_text_spec(
                    ov[k].text,
                ),
            comment_views(res@) == filter_new_spec(ov, comment_views(new_comments@.take(j as int))),
        decreases new_comments.len() - j,
    {
        let ghost prefix = comment_views(new_comments@.take(j as int));
        assert(comment_views(new_comments@.take(j + 1)).drop_last() =~= prefix);
        assert(comment_views(new_comments@.take(j + 1)).last() == new_comments@[j as int]@);
        let normalized = new_comments[j].normalized_text();
        let mut found = false;
        let mut k: usize = 0;
        while k < old_texts.len()
            invariant
                k <= old_texts.len(),
                found ==> exists|x: int|
                    0 <= x < old_texts@.len() && (#[trigger] old_texts@[x])@ == normalized@,
                !found ==> forall|x: int| 0 <= x < k ==> (#[trigger] old_texts@[x])@ != normalized@,
            decreases old_texts.len() - k,
        {
            if old_texts[k] == normalized {
                found = true;
            }
            k = k + 1;
        }
        proof {
            let c = new_comments@[j as int]@;
            if found {
                let x = choose|x: int|
                    0 <= x < old_texts@.len() && (#[trigger] old_texts@[x])@ == normalized@;
                assert(normalized_text_spec(ov[x].text) == normalized_text_spec(c.text));
            } else {
                assert forall|x: int| 0 <= x < ov.len() implies normalized_text_spec(
                    #[trigger] ov[x].text,
                ) != normalized_text_spec(c.text) by {
                    assert(old_texts@[x]@ != normalized@);
                }
            }
        }
        if !found {
            res.push(new_comments[j].duplicate());
        }
        j = j + 1;
    }
    assert(new_comments@.take(new_comments.len() as int) =~= new_comments@);
    res
}

/// The comments that an edit adds: those detected in the new text whose
/// normalized text is not among those detected in the old one.
pub fn detect_new_comments_for_edit(
    detector: &CommentDetector,
    old_string: &str,
    new_string: &str,
    file_path: &str,
) -> (res: Vec<CommentInfo>)
    ensures
        comment_views(res@) == edit_comments_spec(detector@, old_string@, new_string@, file_path@),
{
    let old_comments = detector.detect(old_string, file_path, true);
    let new_comments = detector.detect(new_string, file_path, true);
    filter_new_comments(old_comments.as_slice(), new_comments.as_slice())
}

/// The verdict on comments found: pass where there are none or the filters
/// allow them all, else block with the hook message on those that remain.
pub fn decide(comments: &[CommentInfo], custom_prompt: &str) -> (res: HookCheckResult)
    ensures
        res@ == decide_spec(comment_views(comments@), custom_prompt@),
{
    if comments.len() == 0 {
        return success();
    }
    let filtered = apply_filters(comments);
    if filtered.len() == 0 {
        return success();
    }
    let message = format_hook_message(filtered.as_slice(), custom_prompt);
    HookCheckResult::block(message.as_str())
}

/// The verdict on a parsed hook input.
pub fn check_parsed_hook_input(
    detector: &CommentDetector,
    input: &HookInput,
    custom_prompt: &str,
) -> (res: HookCheckResult)
    ensures
        res@ == check_parsed_spec(detector@, *input, custom_prompt@),
{
    let file_path = input.tool_input.file_path.as_str();
    if chars_of(file_path).len() == 0 {
        return skip("No file path provided");
    }
    if language_for_path(file_path).is_none() {
        return skip("Non-code file");
    }
    let name = chars_of(input.tool_name.as_str());
    let comments = if equals_str(name.as_slice(), "Edit") {
        if chars_of(input.tool_input.new_string.as_str()).len() == 0 {
            return skip("No content to check");
        }
        detect_new_comments_for_edit(
            detector,
            input.tool_input.old_string.as_str(),
            input.tool_input.new_string.as_str(),
            file_path,
        )
    } else if equals_str(name.as_slice(), "MultiEdit") {
        if input.tool_input.edits.len() == 0 {
            return skip("No content to check");
        }
        multi_edit_comments(detector, &input.tool_input.edits, file_path)
    } else {
        let content = get_content_to_check(input);
        if chars_of(content).len() == 0 {
            return skip("No content to check");
        }
        detector.detect(content, file_path, true)
    };
    decide(comments.as_slice(), custom_prompt)
}

/// The new comments of each edit with a non-empty new string, in order.
fn multi_edit_comments(detector: &CommentDetector, edits: &Vec<EditInput>, file_path: &str) -> (res:
    Vec<CommentInfo>)
    ensures
        comment_views(res@) == multi_edit_comments_spec(detector@, edit_views(edits@), file_path@),
{
    let ghost ev = edit_views(edits@);
    let mut comments: Vec<CommentInfo> = Vec::new();
    let mut i: usize = 0;
    while i < edits.len()
        invariant
            i <= edits.len(),
            ev == edit_views(edits@),
            comment_views(comments@) == multi_edit_comments_spec(
                detector@,
                ev.take(i as int),
                file_path@,
            ),
        decreases edits.len() - i,
    {
        let ghost before = comment_views(comments@);
        assert(ev.take(i + 1).drop_last() =~= ev.take(i as int));
        assert(ev.take(i + 1).last() == ev[i as int]);
        let edit = &edits[i];
        if chars_of(edit.new_string.as_str()).len() > 0 {
            let mut found = detect_new_comments_for_edit(
                detector,
                edit.old_string.as_str(),
                edit.new_string.as_str(),
                file_path,
            );
            let ghost fv = comment_views(found@);
            comments.append(&mut found);
            assert(comment_views(comments@) =~= before + fv);
        }
        i = i + 1;
    }
    assert(ev.take(edits.len() as int) =~= ev);
    comments
}

/// The verdict of the hook on its raw input and, where that input could be
/// read as a hook input, on what was read of it: pass with a reason where
/// there is no input or it could not be read; else the verdict on what was
/// read.
pub fn check_hook_input(
    detector: &CommentDetector,
    input: &str,
    parsed: Option<&HookInput>,
    custom_prompt: &str,
) -> (res: HookCheckResult)
    ensures
        input@.len() == 0 ==> res@ == skip_spec("No input provided"@),
        input@.len() > 0 && parsed.is_none() ==> res@ == skip_spec("Invalid input format"@),
        input@.len() > 0 && parsed.is_some() ==> res@ == check_parsed_spec(
            detector@,
            *parsed.unwrap(),
            custom_prompt@,
        ),
{
    if chars_of(input).len() == 0 {
        return skip("No input provided");
    }
    match parsed {
        None => skip("Invalid input format"),
        Some(h) => check_parsed_hook_input(detector, h, custom_prompt),
    }
}

/// The JSON reported when a result cannot be serialized: exit code 1 and
/// the error, with backslashes and double quotes escaped.
pub open spec fn fallback_json_spec(error: Seq<char>) -> Seq<char> {
    let escaped = replace_spec(replace_spec(error, "\\"@, "\\\\"@), "\""@, "\\\""@);
    "{\"exitCode\":1,\"message\":\"serialization failed: "@ + escaped + "\"}"@
}

/// The JSON reported when a result cannot be serialized.
pub fn fallback_json(error: &str) -> (res: String)
    ensures
        res@ == fallback_json_spec(error@),
{
    let e = chars_of(error);
    let backslash = chars_of("\\");
    let escaped_backslash = chars_of("\\\\");
    let quote = chars_of("\"");
    let escaped_quote = chars_of("\\\"");
    proof {
        reveal_strlit("\\");
        reveal_strlit("\"");
    }
    let once = replace_all(e.as_slice(), backslash.as_slice(), escaped_backslash.as_slice());
    let twice = replace_all(once.as_slice(), quote.as_slice(), escaped_quote.as_slice());
    let mut res = String::new();
    push_str(&mut res, "{\"exitCode\":1,\"message\":\"serialization failed: ");
    push_chars(&mut res, twice.as_slice());
    push_str(&mut res, "\"}");
    res
}

} // verus!
