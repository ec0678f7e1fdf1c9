//! The XML listing of comments and the message shown when a hook blocks.
use vstd::prelude::*;

use crate::filters::{AgentMemoFilter, is_agent_memo_spec};
use crate::models::{CommentInfo, CommentView, comment_views};
use crate::text::{
    chars_of, push_chars, push_str, starts_with_spec, string_from_chars, trim, trim_spec,
};

verus! {

/// Placeholder in a custom prompt that the comment listing replaces.
pub const COMMENTS_PLACEHOLDER: &'static str = "{{comments}}";

pub const AGENT_MEMO_BANNER: &'static str = "\u{1F6A8} AGENT MEMO COMMENT DETECTED - CODE SMELL ALERT \u{1F6A8}\n\n";
pub const DEFAULT_BANNER: &'static str = "COMMENT/DOCSTRING DETECTED - IMMEDIATE ACTION REQUIRED\n\n";
pub const AGENT_MEMO_GUIDANCE: &'static str = "\u{26A0}\u{FE0F}  AGENT MEMO COMMENTS DETECTED - THIS IS A CODE SMELL  \u{26A0}\u{FE0F}\n\nYou left \"memo-style\" comments that describe WHAT you changed or HOW you implemented something.\nThese are typically signs of an AI agent leaving notes for itself or the user.\n\nExamples of agent memo patterns detected:\n  - \"Changed from X to Y\", \"Modified to...\", \"Updated from...\"\n  - \"Added new...\", \"Removed...\", \"Refactored...\"\n  - \"This implements...\", \"Here we...\", \"Now this...\"\n  - \"Note:\", \"Implementation of...\"\nWHY THIS IS BAD:\n  1. Code should be self-documenting - if you need to explain what changed, the code isn't clear enough\n  2. These comments become outdated instantly and mislead future readers\n  3. Git history already tracks what changed - comments duplicate this poorly\n  4. It's a sign of rushing without proper refactoring\n\nACTION REQUIRED:\n  -> REMOVE these memo comments immediately\n  -> If the code needs explanation, refactor it to be clearer instead\n  -> Use meaningful variable/function names that explain intent\n  -> Let git commit messages document the \"what\" and \"why\"\n\nDetected agent memo comments:\n";
pub const AGENT_MEMO_END: &'static str = "\n---\n\n";
pub const HOOK_GUIDELINES: &'static str = "Your recent changes contain comments or docstrings, which triggered this hook.\nYou need to take immediate action. You must follow the conditions below.\n(Listed in priority order - you must always act according to this priority order)\n\nCRITICAL WARNING: This hook message MUST NEVER be ignored, even if you receive it multiple times.\nYou MUST provide corresponding explanation or action for EACH occurrence of this message.\nIgnoring this message or failing to respond appropriately is strictly prohibited.\n\nPRIORITY-BASED ACTION GUIDELINES:\n\n1. This is a comment/docstring that already existed before\n\t-> Explain to the user that this is an existing comment/docstring and proceed (justify it)\n\n2. This is a newly written comment: but it's in given, when, then format\n\t-> Tell the user it's a BDD comment and proceed (justify it)\n\t-> Note: This applies to comments only, not docstrings\n\n3. This is a newly written comment/docstring: but it's a necessary comment/docstring\n\t-> Tell the user why this comment/docstring is absolutely necessary and proceed (justify it)\n\t-> Examples of necessary comments: complex algorithms, security-related, performance optimization, regex, mathematical formulas\n\t-> Examples of necessary docstrings: public API documentation, complex module/class interfaces\n\t-> IMPORTANT: Most docstrings are unnecessary if the code is self-explanatory. Only keep truly essential ones.\n\n4. This is a newly written comment/docstring: but it's an unnecessary comment/docstring\n\t-> Apologize to the user and remove the comment/docstring.\n\t-> Make the code itself clearer so it can be understood without comments/docstrings.\n\t-> For verbose docstrings: refactor code to be self-documenting instead of adding lengthy explanations.\n\nMANDATORY REQUIREMENT: You must acknowledge this hook message and take one of the above actions.\nReview in the above priority order and take the corresponding action EVERY TIME this appears.\n\nREMINDER: These rules apply to ALL your future code, not just this specific edit. Always be deliberate and cautious when writing comments - only add them when absolutely necessary.\n\nDetected comments/docstrings:\n";

#[verifier::external_type_specification]
#[verifier::external_body]
pub struct ExNumberBuffer(itoa::Buffer);

/// The decimal digit character for `d < 10`.
pub open spec fn digit_char(d: nat) -> char {
    ((d + 48) as u32) as char
}

/// The decimal representation of `n`, without sign or leading zeros.
pub open spec fn decimal_spec(n: nat) -> Seq<char>
    decreases n,
{
    if n < 10 {
        seq![digit_char(n)]
    } else {
        decimal_spec(n / 10).push(digit_char(n % 10))
    }
}

/// `itoa::Buffer::new`.
#[verifier::external_body]
fn new_number_buffer() -> itoa::Buffer {
    itoa::Buffer::new()
}

/// `itoa::Buffer::format` on a `usize`: it prints the decimal
/// representation of `n`.
#[verifier::external_body]
fn format_number(buffer: &mut itoa::Buffer, n: usize) -> (res: String)
    ensures
        res@ == decimal_spec(n as nat),
{
    buffer.format(n).to_string()
}

/// The opening tag of the listing for one file.
pub open spec fn xml_header_spec(file_path: Seq<char>) -> Seq<char> {
    "<comments file=\""@ + file_path + "\">\n"@
}

/// The element for one comment.
pub open spec fn comment_xml_spec(c: CommentView) -> Seq<char> {
    "\t<comment line-number=\""@ + decimal_spec(c.line_number as nat) + "\">"@ + c.text
        + "</comment>\n"@
}

/// The elements for the comments, in order.
pub open spec fn comments_xml_body_spec(cs: Seq<CommentView>) -> Seq<char>
    decreases cs.len(),
{
    if cs.len() == 0 {
        Seq::empty()
    } else {
        comments_xml_body_spec(cs.drop_last()) + comment_xml_spec(cs.last())
    }
}

/// The listing of `cs` under one file path; empty where `cs` is.
pub open spec fn build_comments_xml_spec(cs: Seq<CommentView>, file_path: Seq<char>) -> Seq<char> {
    if cs.len() == 0 {
        Seq::empty()
    } else {
        xml_header_spec(file_path) + comments_xml_body_spec(cs) + "</comments>"@
    }
}

/// The distinct file paths of `cs`, in the order in which they first occur.
pub open spec fn distinct_paths_spec(cs: Seq<CommentView>) -> Seq<Seq<char>>
    decreases cs.len(),
{
    if cs.len() == 0 {
        Seq::empty()
    } else {
        let d = distinct_paths_spec(cs.drop_last());
        if d.contains(cs.last().file_path) {
            d
        } else {
            d.push(cs.last().file_path)
        }
    }
}

/// The comments of `cs` in the file `p`, in order.
pub open spec fn comments_in_file_spec(cs: Seq<CommentView>, p: Seq<char>) -> Seq<CommentView>
    decreases cs.len(),
{
    if cs.len() == 0 {
        Seq::empty()
    } else {
        let rest = comments_in_file_spec(cs.drop_last(), p);
        if cs.last().file_path == p {
            rest.push(cs.last())
        } else {
            rest
        }
    }
}

/// The listing of the comments of one file, followed by a newline.
pub open spec fn file_group_xml_spec(cs: Seq<CommentView>, p: Seq<char>) -> Seq<char> {
    xml_header_spec(p) + comments_xml_body_spec(comments_in_file_spec(cs, p)) + "</comments>"@
        + "\n"@
}

/// The listings of the files `paths`, in order.
pub open spec fn grouped_xml_from_spec(cs: Seq<CommentView>, paths: Seq<Seq<char>>) -> Seq<char>
    decreases paths.len(),
{
    if paths.len() == 0 {
        Seq::empty()
    } else {
        grouped_xml_from_spec(cs, paths.drop_last()) + file_group_xml_spec(cs, paths.last())
    }
}

/// One listing per file, files in the order of their first comment.
pub open spec fn grouped_comments_xml_spec(cs: Seq<CommentView>) -> Seq<char> {
    grouped_xml_from_spec(cs, distinct_paths_spec(cs))
}

/// `s` with every occurrence of `pat`, found left to right without overlap,
/// replaced by `to` (`str::replace` for a non-empty pattern).
pub open spec fn replace_spec(s: Seq<char>, pat: Seq<char>, to: Seq<char>) -> Seq<char>
    decreases s.len(),
{
    if s.len() == 0 {
        Seq::empty()
    } else if pat.len() > 0 && starts_with_spec(s, pat) {
        to + replace_spec(s.skip(pat.len() as int), pat, to)
    } else {
        seq![s[0]] + replace_spec(s.drop_first(), pat, to)
    }
}

/// The comments of `cs` that read as agent memos, in order.
pub open spec fn memo_comments_spec(cs: Seq<CommentView>) -> Seq<CommentView>
    decreases cs.len(),
{
    if cs.len() == 0 {
        Seq::empty()
    } else {
        let rest = memo_comments_spec(cs.drop_last());
        if is_agent_memo_spec(cs.last().text) {
            rest.push(cs.last())
        } else {
            rest
        }
    }
}

/// One line of the list of agent memos.
pub open spec fn memo_line_spec(c: CommentView) -> Seq<char> {
    "  - Line "@ + decimal_spec(c.line_number as nat) + ": "@ + trim_spec(c.text) + "\n"@
}

/// The lines of the list of agent memos.
pub open spec fn memo_lines_spec(cs: Seq<CommentView>) -> Seq<char>
    decreases cs.len(),
{
    if cs.len() == 0 {
        Seq::empty()
    } else {
        memo_lines_spec(cs.drop_last()) + memo_line_spec(cs.last())
    }
}

/// The built-in message: a warning about agent memos where there are any,
/// else the plain banner; then the guidelines and the listing.
pub open spec fn default_message_spec(cs: Seq<CommentView>, xml: Seq<char>) -> Seq<char> {
    let memos = memo_comments_spec(cs);
    let head = if memos.len() > 0 {
        AGENT_MEMO_BANNER@ + AGENT_MEMO_GUIDANCE@ + memo_lines_spec(memos) + AGENT_MEMO_END@
    } else {
        DEFAULT_BANNER@
    };
    head + HOOK_GUIDELINES@ + xml
}

/// The hook message for `cs`: empty where there are no comments; else the
/// custom prompt with the listing in place of its placeholder, where a
/// prompt is given; else the built-in message.
pub open spec fn format_hook_message_spec(cs: Seq<CommentView>, prompt: Seq<char>) -> Seq<char> {
    if cs.len() == 0 {
        Seq::empty()
    } else if prompt.len() > 0 {
        replace_spec(prompt, COMMENTS_PLACEHOLDER@, grouped_comments_xml_spec(cs))
    } else {
        default_message_spec(cs, grouped_comments_xml_spec(cs))
    }
}

fn push_comments_xml_header(output: &mut String, file_path: &str)
    ensures
        final(output)@ == old(output)@ + xml_header_spec(file_path@),
{
    push_str(output, "<comments file=\"");
    push_str(output, file_path);
    push_str(output, "\">\n");
}

fn push_comment_xml(output: &mut String, comment: &CommentInfo, buffer: &mut itoa::Buffer)
    ensures
        final(output)@ == old(output)@ + comment_xml_spec(comment@),
{
    push_str(output, "\t<comment line-number=\"");
    let n = format_number(buffer, comment.line_number);
    push_str(output, n.as_str());
    push_str(output, "\">");
    push_str(output, comment.text.as_str());
    push_str(output, "</comment>\n");
}

/// The XML listing of `comments` under `file_path`; empty where there are no
/// comments.
pub fn build_comments_xml(comments: &[CommentInfo], file_path: &str) -> (res: String)
    ensures
        res@ == build_comments_xml_spec(comment_views(comments@), file_path@),
{
    if comments.len() == 0 {
        return String::new();
    }
    let mut output = String::new();
    push_comments_xml_header(&mut output, file_path);
    let ghost head = output@;
    let mut buffer = new_number_buffer();
    let mut i: usize = 0;
    while i < comments.len()
        invariant
            i <= comments.len(),
            output@ == head + comments_xml_body_spec(comment_views(comments@.take(i as int))),
        decreases comments.len() - i,
    {
        assert(comment_views(comments@.take(i + 1)).drop_last() =~= comment_views(
            comments@.take(i as int),
        ));
        push_comment_xml(&mut output, &comments[i], &mut buffer);
        i = i + 1;
    }
    push_str(&mut output, "</comments>");
    assert(comments@.take(comments.len() as int) =~= comments@);
    output
}

/// The views of a sequence of strings.
pub open spec fn string_views(ss: Seq<String>) -> Seq<Seq<char>> {
    ss.map_values(|s: String| s@)
}

fn contains_path(paths: &Vec<String>, p: &String) -> (res: bool)
    ensures
        res == string_views(paths@).contains(p@),
{
    let mut i: usize = 0;
    while i < paths.len()
        invariant
            i <= paths.len(),
            forall|k: int| 0 <= k < i ==> paths@[k]@ != p@,
        decreases paths.len() - i,
    {
        if paths[i] == *p {
            assert(string_views(paths@)[i as int] == p@);
            return true;
        }
        i = i + 1;
    }
    proof {
        if string_views(paths@).contains(p@) {
            let k = choose|k: int| 0 <= k < paths@.len() && string_views(paths@)[k] == p@;
            assert(paths@[k]@ == p@);
        }
    }
    false
}

/// The distinct file paths of the comments, in order of first occurrence.
/// They are kept in a vector and searched in turn: with `String` keys, a
/// hash map's lookups would give the proof nothing to go on, and the
/// listing wants the order of first occurrence anyway.
fn distinct_paths(comments: &[CommentInfo]) -> (res: Vec<String>)
    ensures
        string_views(res@) == distinct_paths_spec(comment_views(comments@)),
{
    let mut paths: Vec<String> = Vec::new();
    let mut i: usize = 0;
    while i < comments.len()
        invariant
            i <= comments.len(),
            string_views(paths@) == distinct_paths_spec(comment_views(comments@.take(i as int))),
        decreases comments.len() - i,
    {
        let ghost prefix = comment_views(comments@.take(i as int));
        assert(comment_views(comments@.take(i + 1)).drop_last() =~= prefix);
        assert(comment_views(comments@.take(i + 1)).last() == comments@[i as int]@);
        if !contains_path(&paths, &comments[i].file_path) {
            paths.push(comments[i].file_path.clone());
            assert(string_views(paths@) =~= distinct_paths_spec(prefix).push(
                comments@[i as int].file_path@,
            ));
        }
        i = i + 1;
    }
    assert(comments@.take(comments.len() as int) =~= comments@);
    paths
}

/// Appends the listing of the comments in the file `path`.
fn push_file_group(
    output: &mut String,
    comments: &[CommentInfo],
    path: &String,
    buffer: &mut itoa::Buffer,
)
    ensures
        final(output)@ == old(output)@ + file_group_xml_spec(comment_views(comments@), path@),
{
    let ghost before = output@;
    push_comments_xml_header(output, path.as_str());
    let mut j: usize = 0;
    while j < comments.len()
        invariant
            j <= comments.len(),
            output@ == before + xml_header_spec(path@) + comments_xml_body_spec(
                comments_in_file_spec(comment_views(comments@.take(j as int)), path@),
            ),
        decreases comments.len() - j,
    {
        let ghost prefix = comment_views(comments@.take(j as int));
        assert(comment_views(comments@.take(j + 1)).drop_last() =~= prefix);
        assert(comment_views(comments@.take(j + 1)).last() == comments@[j as int]@);
        if comments[j].file_path == *path {
            push_comment_xml(output, &comments[j], buffer);
            let ghost members = comments_in_file_spec(prefix, path@);
            assert(output@ =~= before + xml_header_spec(path@) + comments_xml_body_spec(
                members.push(comments@[j as int]@),
            )) by {
                assert(members.push(comments@[j as int]@).drop_last() =~= members);
            }
        }
        j = j + 1;
    }
    assert(comments@.take(comments.len() as int) =~= comments@);
    push_str(output, "</comments>");
    push_str(output, "\n");
}

/// One listing per file, in the order in which the files first occur.
fn grouped_comments_xml(comments: &[CommentInfo]) -> (res: String)
    ensures
        res@ == grouped_comments_xml_spec(comment_views(comments@)),
{
    let paths = distinct_paths(comments);
    let ghost pv = string_views(paths@);
    let mut xml = String::new();
    let mut buffer = new_number_buffer();
    let mut g: usize = 0;
    while g < paths.len()
        invariant
            g <= paths.len(),
            pv == string_views(paths@),
            xml@ == grouped_xml_from_spec(comment_views(comments@), pv.take(g as int)),
        decreases paths.len() - g,
    {
        assert(pv.take(g + 1).drop_last() =~= pv.take(g as int));
        assert(pv.take(g + 1).last() == paths@[g as int]@);
        push_file_group(&mut xml, comments, &paths[g], &mut buffer);
        g = g + 1;
    }
    assert(pv.take(paths.len() as int) =~= pv);
    xml
}

/// Whether `pat` occurs in `s` at index `i`.
fn matches_at(s: &[char], i: usize, pat: &[char]) -> (res: bool)
    requires
        i <= s.len(),
    ensures
        res == starts_with_spec(s@.skip(i as int), pat@),
{
    if pat.len() > s.len() - i {
        return false;
    }
    let mut k: usize = 0;
    while k < pat.len()
        invariant
            k <= pat.len(),
            i + pat.len() <= s.len(),
            forall|x: int| 0 <= x < k ==> s@[i + x] == pat@[x],
        decreases pat.len() - k,
    {
        if s[i + k] != pat[k] {
            assert(s@.skip(i as int).subrange(0, pat@.len() as int)[k as int] != pat@[k as int]);
            return false;
        }
        k = k + 1;
    }
    assert(s@.skip(i as int).subrange(0, pat@.len() as int) =~= pat@);
    true
}

/// `s` with each occurrence of a non-empty `pat` replaced by `to`.
pub fn replace_all(s: &[char], pat: &[char], to: &[char]) -> (res: Vec<char>)
    requires
        pat.len() > 0,
    ensures
        res@ == replace_spec(s@, pat@, to@),
{
    let mut res: Vec<char> = Vec::new();
    let mut i: usize = 0;
    assert(s@.skip(0) =~= s@);
    while i < s.len()
        invariant
            i <= s.len(),
            pat@.len() > 0,
            res@ + replace_spec(s@.skip(i as int), pat@, to@) == replace_spec(s@, pat@, to@),
        decreases s.len() - i,
    {
        let ghost before = res@;
        if matches_at(s, i, pat) {
            let mut k: usize = 0;
            while k < to.len()
                invariant
                    k <= to.len(),
                    res@ == before + to@.take(k as int),
                decreases to.len() - k,
            {
                res.push(to[k]);
                assert(before + to@.take(k as int).push(to@[k as int]) =~= before + to@.take(k + 1));
                k = k + 1;
            }
            assert(to@.take(to.len() as int) =~= to@);
            assert(s@.skip(i as int).skip(pat@.len() as int) =~= s@.skip(i + pat@.len()));
            assert(res@ + replace_spec(s@.skip(i + pat@.len()), pat@, to@) =~= before
                + replace_spec(s@.skip(i as int), pat@, to@));
            i = i + pat.len();
        } else {
            res.push(s[i]);
            assert(s@.skip(i as int).drop_first() =~= s@.skip(i + 1));
            assert(s@.skip(i as int)[0] == s@[i as int]);
            assert(res@ + replace_spec(s@.skip(i + 1), pat@, to@) =~= before + replace_spec(
                s@.skip(i as int),
                pat@,
                to@,
            ));
            i = i + 1;
        }
    }
    assert(res@ + replace_spec(s@.skip(i as int), pat@, to@) =~= res@);
    res
}

/// The comments that read as agent memos, in order.
fn memo_comments(comments: &[CommentInfo]) -> (res: Vec<CommentInfo>)
    ensures
        comment_views(res@) == memo_comments_spec(comment_views(comments@)),
{
    let memo = AgentMemoFilter;
    let mut res: Vec<CommentInfo> = Vec::new();
    let mut i: usize = 0;
    while i < comments.len()
        invariant
            i <= comments.len(),
            comment_views(res@) == memo_comments_spec(comment_views(comments@.take(i as int))),
        decreases comments.len() - i,
    {
        let ghost prefix = comment_views(comments@.take(i as int));
        assert(comment_views(comments@.take(i + 1)).drop_last() =~= prefix);
        assert(comment_views(comments@.take(i + 1)).last() == comments@[i as int]@);
        if memo.is_agent_memo(&comments[i]) {
            res.push(comments[i].duplicate());
            assert(comment_views(res@) =~= memo_comments_spec(prefix).push(comments@[i as int]@));
        }
        i = i + 1;
    }
    assert(comments@.take(comments.len() as int) =~= comments@);
    res
}

fn push_memo_lines(output: &mut String, memos: &[CommentInfo])
    ensures
        final(output)@ == old(output)@ + memo_lines_spec(comment_views(memos@)),
{
    let ghost before = output@;
    let mut buffer = new_number_buffer();
    let mut i: usize = 0;
    while i < memos.len()
        invariant
            i <= memos.len(),
            output@ == before + memo_lines_spec(comment_views(memos@.take(i as int))),
        decreases memos.len() - i,
    {
        let ghost mid = output@;
        assert(comment_views(memos@.take(i + 1)).drop_last() =~= comment_views(
            memos@.take(i as int),
        ));
        assert(comment_views(memos@.take(i + 1)).last() == memos@[i as int]@);
        push_str(output, "  - Line ");
        let n = format_number(&mut buffer, memos[i].line_number);
        push_str(output, n.as_str());
        push_str(output, ": ");
        let text = chars_of(memos[i].text.as_str());
        let trimmed = trim(text.as_slice());
        push_chars(output, trimmed.as_slice());
        push_str(output, "\n");
        assert(output@ =~= mid + memo_line_spec(memos@[i as int]@));
        i = i + 1;
    }
    assert(memos@.take(memos.len() as int) =~= memos@);
}

/// The message shown when a hook blocks: empty where there are no comments;
/// the custom prompt with the comment listing in place of `{{comments}}`
/// where a prompt is given; else the built-in instructions, led by an agent
/// memo warning where a comment reads as one, and followed by the listing.
pub fn format_hook_message(comments: &[CommentInfo], custom_prompt: &str) -> (res: String)
    ensures
        res@ == format_hook_message_spec(comment_views(comments@), custom_prompt@),
{
    if comments.len() == 0 {
        return String::new();
    }
    let xml = grouped_comments_xml(comments);
    let prompt = chars_of(custom_prompt);
    if prompt.len() > 0 {
        let pat = chars_of(COMMENTS_PLACEHOLDER);
        proof {
            reveal_strlit("{{comments}}");
        }
        let xc = chars_of(xml.as_str());
        let replaced = replace_all(prompt.as_slice(), pat.as_slice(), xc.as_slice());
        return string_from_chars(replaced.as_slice());
    }
    let memos = memo_comments(comments);
    let mut output = String::new();
    if memos.len() > 0 {
        push_str(&mut output, AGENT_MEMO_BANNER);
        push_str(&mut output, AGENT_MEMO_GUIDANCE);
        push_memo_lines(&mut output, memos.as_slice());
        push_str(&mut output, AGENT_MEMO_END);
    } else {
        push_str(&mut output, DEFAULT_BANNER);
    }
    push_str(&mut output, HOOK_GUIDELINES);
    push_str(&mut output, xml.as_str());
    output
}

} // verus!
