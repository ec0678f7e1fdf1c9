//! The comment record that detection produces and the filters and reports consume.
use std::collections::BTreeMap;

use vstd::prelude::*;

use crate::text::{chars_of, string_from_chars, trim, trim_spec};

verus! {

/// How a comment is written in the source.
#[derive(Clone, Copy, Debug, PartialEq, Eq, Structural)]
pub enum CommentType {
    Line,
    Block,
    Docstring,
}

/// One comment found in a file.
#[derive(Clone, Debug, PartialEq, Eq)]
pub struct CommentInfo {
    pub text: String,
    pub line_number: usize,
    pub file_path: String,
    pub comment_type: CommentType,
    pub is_docstring: bool,
    pub metadata: BTreeMap<String, String>,
}

/// The mathematical value of a `CommentInfo`.
pub struct CommentView {
    pub text: Seq<char>,
    pub line_number: usize,
    pub file_path: Seq<char>,
    pub comment_type: CommentType,
    pub is_docstring: bool,
    pub metadata: Map<String, String>,
}

impl View for CommentInfo {
    type V = CommentView;

    open spec fn view(&self) -> CommentView {
        CommentView {
            text: self.text@,
            line_number: self.line_number,
            file_path: self.file_path@,
            comment_type: self.comment_type,
            is_docstring: self.is_docstring,
            metadata: self.metadata@,
        }
    }
}

/// The views of a sequence of comments.
pub open spec fn comment_views(cs: Seq<CommentInfo>) -> Seq<CommentView> {
    cs.map_values(|c: CommentInfo| c@)
}

/// A comment with the given fields and no metadata.
pub open spec fn new_comment_spec(
    text: Seq<char>,
    line_number: usize,
    file_path: Seq<char>,
    comment_type: CommentType,
    is_docstring: bool,
) -> CommentView {
    CommentView {
        text,
        line_number,
        file_path,
        comment_type,
        is_docstring,
        metadata: Map::empty(),
    }
}

/// `str::to_lowercase`: the Unicode lower-case mapping of `s`.
pub uninterp spec fn unicode_lowercase(s: Seq<char>) -> Seq<char>;

/// `str::to_lowercase`, which maps every character by the Unicode
/// `Lowercase` property; its result is named `unicode_lowercase`, with
/// nothing more said of it.
#[verifier::external_body]
fn to_lowercase(s: &str) -> (res: String)
    ensures
        res@ == unicode_lowercase(s@),
{
    s.to_lowercase()
}

/// The text by which two comments are taken to be the same: trimmed, then
/// lower-cased.
pub open spec fn normalized_text_spec(text: Seq<char>) -> Seq<char> {
    unicode_lowercase(trim_spec(text))
}

impl CommentInfo {
    /// A comment with the given fields and no metadata.
    pub fn new(
        text: &str,
        line_number: usize,
        file_path: &str,
        comment_type: CommentType,
        is_docstring: bool,
    ) -> (res: Self)
        ensures
            res@ == new_comment_spec(text@, line_number, file_path@, comment_type, is_docstring),
    {
        CommentInfo {
            text: String::from_str(text),
            line_number,
            file_path: String::from_str(file_path),
            comment_type,
            is_docstring,
            metadata: BTreeMap::new(),
        }
    }

    /// The comment text trimmed and lower-cased.
    pub fn normalized_text(&self) -> (res: String)
        ensures
            res@ == normalized_text_spec(self.text@),
    {
        let cs = chars_of(self.text.as_str());
        let t = trim(cs.as_slice());
        let s = string_from_chars(t.as_slice());
        to_lowercase(s.as_str())
    }

    /// A copy of this comment.
    pub fn duplicate(&self) -> (res: Self)
        ensures
            res@ == self@,
    {
        CommentInfo {
            text: self.text.clone(),
            line_number: self.line_number,
            file_path: self.file_path.clone(),
            comment_type: self.comment_type,
            is_docstring: self.is_docstring,
            metadata: self.metadata.clone(),
        }
    }
}

} // verus!
