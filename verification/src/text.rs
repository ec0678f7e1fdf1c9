//! Character-level text helpers and their mathematical model.
//!
//! Text is modelled as `Seq<char>`, the view of `str` and `String`.
use vstd::prelude::*;

verus! {

/// Unicode `White_Space`: the characters that `char::is_whitespace` accepts.
pub open spec fn is_whitespace_spec(c: char) -> bool {
    ||| c == '\t'
    ||| c == '\n'
    ||| c == '\u{0B}'
    ||| c == '\u{0C}'
    ||| c == '\r'
    ||| c == ' '
    ||| c == '\u{85}'
    ||| c == '\u{A0}'
    ||| c == '\u{1680}'
    ||| ('\u{2000}' as u32 <= c as u32 && c as u32 <= '\u{200A}' as u32)
    ||| c == '\u{2028}'
    ||| c == '\u{2029}'
    ||| c == '\u{202F}'
    ||| c == '\u{205F}'
    ||| c == '\u{3000}'
}

/// `s` without its leading whitespace.
pub open spec fn trim_start_spec(s: Seq<char>) -> Seq<char>
    decreases s.len(),
{
    if s.len() > 0 && is_whitespace_spec(s[0]) {
        trim_start_spec(s.drop_first())
    } else {
        s
    }
}

/// `s` without its trailing whitespace.
pub open spec fn trim_end_spec(s: Seq<char>) -> Seq<char>
    decreases s.len(),
{
    if s.len() > 0 && is_whitespace_spec(s.last()) {
        trim_end_spec(s.drop_last())
    } else {
        s
    }
}

/// `s` without leading and trailing whitespace, as `str::trim` gives it.
pub open spec fn trim_spec(s: Seq<char>) -> Seq<char> {
    trim_end_spec(trim_start_spec(s))
}

/// `s` begins with `p`.
pub open spec fn starts_with_spec(s: Seq<char>, p: Seq<char>) -> bool {
    p.len() <= s.len() && s.subrange(0, p.len() as int) == p
}

/// ASCII upper-case letters map to their lower-case form; every other
/// character is unchanged.
pub open spec fn ascii_lower_spec(c: char) -> char {
    if 'A' <= c && c <= 'Z' {
        ((c as u32) + 32) as char
    } else {
        c
    }
}

/// `c` is an ASCII upper-case letter.
pub open spec fn is_ascii_upper_spec(c: char) -> bool {
    'A' <= c && c <= 'Z'
}

/// `c` is an ASCII letter.
pub open spec fn is_ascii_alpha_spec(c: char) -> bool {
    ('A' <= c && c <= 'Z') || ('a' <= c && c <= 'z')
}

/// `s` with every ASCII upper-case letter lowered.
pub open spec fn ascii_lower_seq(s: Seq<char>) -> Seq<char> {
    Seq::new(s.len(), |i: int| ascii_lower_spec(s[i]))
}

/// `s` begins with `p`, ASCII letters compared without regard to case.
pub open spec fn starts_with_ic_spec(s: Seq<char>, p: Seq<char>) -> bool {
    p.len() <= s.len() && forall|i: int|
        0 <= i < p.len() ==> #[trigger] ascii_lower_spec(s[i]) == ascii_lower_spec(p[i])
}

/// `a` and `b` are equal, ASCII letters compared without regard to case.
pub open spec fn eq_ic_spec(a: Seq<char>, b: Seq<char>) -> bool {
    a.len() == b.len() && starts_with_ic_spec(a, b)
}

/// The characters of `s`, in order.
pub fn chars_of(s: &str) -> (res: Vec<char>)
    ensures
        res@ == s@,
{
    let mut res: Vec<char> = Vec::new();
    for c in it: s.chars()
        invariant
            res@ == it.seq().take(it.index() as int),
    {
        res.push(c);
    }
    res
}

/// Appends one character to `s` (`String::push`).
#[verifier::external_body]
fn push_char(s: &mut String, c: char)
    ensures
        final(s)@ == old(s)@.push(c),
{
    s.push(c);
}

/// A `String` holding exactly the characters of `cs`.
pub fn string_from_chars(cs: &[char]) -> (res: String)
    ensures
        res@ == cs@,
{
    let mut res = String::new();
    let mut i: usize = 0;
    while i < cs.len()
        invariant
            i <= cs.len(),
            res@ == cs@.take(i as int),
        decreases cs.len() - i,
    {
        push_char(&mut res, cs[i]);
        assert(cs@.take(i as int).push(cs@[i as int]) =~= cs@.take(i + 1));
        i = i + 1;
    }
    assert(cs@.take(cs.len() as int) =~= cs@);
    res
}

/// Appends the characters of `cs` to `s`.
pub fn push_chars(s: &mut String, cs: &[char])
    ensures
        final(s)@ == old(s)@ + cs@,
{
    let mut i: usize = 0;
    while i < cs.len()
        invariant
            i <= cs.len(),
            s@ == old(s)@ + cs@.take(i as int),
        decreases cs.len() - i,
    {
        push_char(s, cs[i]);
        assert(old(s)@ + cs@.take(i as int).push(cs@[i as int]) =~= old(s)@ + cs@.take(i + 1));
        i = i + 1;
    }
    assert(cs@.take(cs.len() as int) =~= cs@);
}

/// Appends `t` to `s`.
pub fn push_str(s: &mut String, t: &str)
    ensures
        final(s)@ == old(s)@ + t@,
{
    let cs = chars_of(t);
    push_chars(s, cs.as_slice());
}

/// The characters of `s` from index `from` up to `to`.
pub fn copy_range(s: &[char], from: usize, to: usize) -> (res: Vec<char>)
    requires
        from <= to <= s.len(),
    ensures
        res@ == s@.subrange(from as int, to as int),
{
    let mut res: Vec<char> = Vec::new();
    let mut i: usize = from;
    while i < to
        invariant
            from <= i <= to <= s.len(),
            res@ == s@.subrange(from as int, i as int),
        decreases to - i,
    {
        res.push(s[i]);
        assert(s@.subrange(from as int, i as int).push(s@[i as int]) =~= s@.subrange(
            from as int,
            i + 1,
        ));
        i = i + 1;
    }
    res
}

/// `char::is_whitespace`.
pub fn is_whitespace(c: char) -> (res: bool)
    ensures
        res == is_whitespace_spec(c),
{
    let u = c as u32;
    u == 0x09 || u == 0x0A || u == 0x0B || u == 0x0C || u == 0x0D || u == 0x20 || u == 0x85 || u
        == 0xA0 || u == 0x1680 || (0x2000 <= u && u <= 0x200A) || u == 0x2028 || u == 0x2029 || u
        == 0x202F || u == 0x205F || u == 0x3000
}

proof fn lemma_trim_start_skip(s: Seq<char>, i: int)
    requires
        0 <= i < s.len(),
        is_whitespace_spec(s[i]),
    ensures
        trim_start_spec(s.skip(i)) == trim_start_spec(s.skip(i + 1)),
{
    assert(s.skip(i).drop_first() =~= s.skip(i + 1));
}

proof fn lemma_trim_end_take(s: Seq<char>, j: int)
    requires
        0 < j <= s.len(),
        is_whitespace_spec(s[j - 1]),
    ensures
        trim_end_spec(s.take(j)) == trim_end_spec(s.take(j - 1)),
{
    assert(s.take(j).drop_last() =~= s.take(j - 1));
}

/// The index of the first character of `s` that is not whitespace
/// (`s.len()` where there is none).
pub fn trim_start_index(s: &[char]) -> (i: usize)
    ensures
        i <= s.len(),
        trim_start_spec(s@) == s@.skip(i as int),
{
    let mut i: usize = 0;
    assert(s@.skip(0) =~= s@);
    while i < s.len() && is_whitespace(s[i])
        invariant
            i <= s.len(),
            trim_start_spec(s@) == trim_start_spec(s@.skip(i as int)),
        decreases s.len() - i,
    {
        proof {
            lemma_trim_start_skip(s@, i as int);
        }
        i = i + 1;
    }
    proof {
        if i < s.len() {
            assert(s@.skip(i as int)[0] == s@[i as int]);
        }
    }
    i
}

/// One past the index of the last character of `s` that is not whitespace
/// (0 where there is none).
pub fn trim_end_index(s: &[char]) -> (j: usize)
    ensures
        j <= s.len(),
        trim_end_spec(s@) == s@.take(j as int),
{
    let mut j: usize = s.len();
    assert(s@.take(s.len() as int) =~= s@);
    while j > 0 && is_whitespace(s[j - 1])
        invariant
            j <= s.len(),
            trim_end_spec(s@) == trim_end_spec(s@.take(j as int)),
        decreases j,
    {
        proof {
            lemma_trim_end_take(s@, j as int);
        }
        j = j - 1;
    }
    j
}

/// `s` without leading whitespace (`str::trim_start`).
pub fn trim_start(s: &[char]) -> (res: Vec<char>)
    ensures
        res@ == trim_start_spec(s@),
{
    let i = trim_start_index(s);
    copy_range(s, i, s.len())
}

/// `s` without leading and trailing whitespace (`str::trim`).
pub fn trim(s: &[char]) -> (res: Vec<char>)
    ensures
        res@ == trim_spec(s@),
{
    let t = trim_start(s);
    let j = trim_end_index(t.as_slice());
    copy_range(t.as_slice(), 0, j)
}

/// `s` begins with `p`.
pub fn starts_with(s: &[char], p: &[char]) -> (res: bool)
    ensures
        res == starts_with_spec(s@, p@),
{
    if p.len() > s.len() {
        return false;
    }
    let mut i: usize = 0;
    while i < p.len()
        invariant
            i <= p.len() <= s.len(),
            forall|k: int| 0 <= k < i ==> s@[k] == p@[k],
        decreases p.len() - i,
    {
        if s[i] != p[i] {
            assert(s@.subrange(0, p.len() as int)[i as int] != p@[i as int]);
            return false;
        }
        i = i + 1;
    }
    assert(s@.subrange(0, p.len() as int) =~= p@);
    true
}

/// `s` begins with the characters of the literal `p`.
pub fn starts_with_str(s: &[char], p: &str) -> (res: bool)
    ensures
        res == starts_with_spec(s@, p@),
{
    let pc = chars_of(p);
    starts_with(s, pc.as_slice())
}

/// `s` equals the characters of `p`.
pub fn equals_str(s: &[char], p: &str) -> (res: bool)
    ensures
        res == (s@ == p@),
{
    let pc = chars_of(p);
    if s.len() != pc.len() {
        return false;
    }
    let r = starts_with(s, pc.as_slice());
    assert(s@.subrange(0, pc@.len() as int) =~= s@);
    r
}

/// `char::to_ascii_lowercase`.
pub fn ascii_lower(c: char) -> (res: char)
    ensures
        res == ascii_lower_spec(c),
{
    if 'A' <= c && c <= 'Z' {
        let u = (c as u32) + 32;
        proof {
            assert(u == (c as u32) + 32);
        }
        let b = u as u8;
        b as char
    } else {
        c
    }
}

/// `s` begins with `p`, ASCII letters compared without regard to case.
pub fn starts_with_ic(s: &[char], p: &[char]) -> (res: bool)
    ensures
        res == starts_with_ic_spec(s@, p@),
{
    if p.len() > s.len() {
        return false;
    }
    let mut i: usize = 0;
    while i < p.len()
        invariant
            i <= p.len() <= s.len(),
            forall|k: int| 0 <= k < i ==> #[trigger] ascii_lower_spec(s@[k]) == ascii_lower_spec(p@[k]),
        decreases p.len() - i,
    {
        if ascii_lower(s[i]) != ascii_lower(p[i]) {
            return false;
        }
        i = i + 1;
    }
    true
}

/// `s` begins with the characters of `p`, ASCII letters compared without
/// regard to case.
pub fn starts_with_ic_str(s: &[char], p: &str) -> (res: bool)
    ensures
        res == starts_with_ic_spec(s@, p@),
{
    let pc = chars_of(p);
    starts_with_ic(s, pc.as_slice())
}

/// `s` equals the characters of `p`, ASCII letters compared without regard to
/// case (`str::eq_ignore_ascii_case`).
pub fn eq_ic_str(s: &[char], p: &str) -> (res: bool)
    ensures
        res == eq_ic_spec(s@, p@),
{
    let pc = chars_of(p);
    s.len() == pc.len() && starts_with_ic(s, pc.as_slice())
}

} // verus!
