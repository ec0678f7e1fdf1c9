//! Turning file bytes and given text into the source text to check.
use vstd::prelude::*;
use vstd::utf8::{decode_utf8, valid_utf8};

use crate::text::string_from_chars;

verus! {

/// The text `content`, as an owned string.
pub fn read_string(content: &str) -> (res: String)
    ensures
        res@ == content@,
{
    String::from_str(content)
}

/// Each byte read as the character with that code point (Latin-1).
pub open spec fn latin1_spec(bytes: Seq<u8>) -> Seq<char> {
    Seq::new(bytes.len(), |i: int| bytes[i] as char)
}

/// The text of file bytes: their UTF-8 decoding where they are valid UTF-8,
/// else their Latin-1 reading.
pub open spec fn file_text_spec(bytes: Seq<u8>) -> Seq<char> {
    if valid_utf8(bytes) {
        decode_utf8(bytes)
    } else {
        latin1_spec(bytes)
    }
}

/// The bytes read as Latin-1.
pub fn latin1_to_string(bytes: &[u8]) -> (res: String)
    ensures
        res@ == latin1_spec(bytes@),
{
    let mut cs: Vec<char> = Vec::new();
    let mut i: usize = 0;
    while i < bytes.len()
        invariant
            i <= bytes.len(),
            cs@.len() == i,
            forall|k: int| 0 <= k < i ==> cs@[k] == (#[trigger] bytes@[k]) as char,
        decreases bytes.len() - i,
    {
        cs.push(bytes[i] as char);
        i = i + 1;
    }
    assert(cs@ =~= latin1_spec(bytes@));
    string_from_chars(cs.as_slice())
}

/// `std::str::from_utf8`, owned: the decoded text where the bytes are valid
/// UTF-8, nothing where they are not.
#[verifier::external_body]
fn utf8_to_string(bytes: &[u8]) -> (res: Option<String>)
    ensures
        res.is_some() == valid_utf8(bytes@),
        res matches Some(s) ==> s@ == decode_utf8(bytes@),
{
    match std::str::from_utf8(bytes) {
        Ok(s) => Some(s.to_string()),
        Err(_) => None,
    }
}

/// The text of a file's bytes: UTF-8 where they are valid UTF-8, else Latin-1.
pub fn decode_file_bytes(data: &[u8]) -> (res: String)
    ensures
        res@ == file_text_spec(data@),
{
    match utf8_to_string(data) {
        Some(s) => s,
        None => latin1_to_string(data),
    }
}

} // verus!
