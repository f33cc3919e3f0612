//! Verified string primitives: equality, case-insensitive comparison,
//! substring search, and the small transformations the converter's file
//! naming needs.

use vstd::prelude::*;
use vstd::string::*;

verus! {

/// An ASCII upper-case letter.
pub open spec fn is_upper_char(c: char) -> bool {
    65 <= c as u32 && c as u32 <= 90
}

/// The code point of `c` with an ASCII upper-case letter folded to lower case.
pub open spec fn lower_code(c: char) -> int {
    if is_upper_char(c) {
        c as u32 + 32
    } else {
        c as u32 as int
    }
}

/// Character equality up to ASCII case.
pub open spec fn chars_eq_ci(a: char, b: char) -> bool {
    lower_code(a) == lower_code(b)
}

/// String equality up to ASCII case, as HTTP compares header names.
pub open spec fn seq_eq_ci(a: Seq<char>, b: Seq<char>) -> bool {
    a.len() == b.len() && forall|i: int| 0 <= i < a.len() ==> chars_eq_ci(a[i], b[i])
}

fn char_eq_ci(a: char, b: char) -> (r: bool)
    ensures
        r == chars_eq_ci(a, b),
{
    let au: u32 = a as u32;
    let bu: u32 = b as u32;
    let al: u32 = if 65 <= au && au <= 90 { au + 32 } else { au };
    let bl: u32 = if 65 <= bu && bu <= 90 { bu + 32 } else { bu };
    al == bl
}

/// The views of a sequence of string pairs.
pub open spec fn pairs_view(s: Seq<(String, String)>) -> Seq<(Seq<char>, Seq<char>)> {
    s.map_values(|p: (String, String)| (p.0@, p.1@))
}

/// The views of a sequence of strings.
pub open spec fn strings_view(s: Seq<String>) -> Seq<Seq<char>> {
    s.map_values(|x: String| x@)
}

/// Copies a list of string pairs, element for element.
pub fn copy_pairs(src: &Vec<(String, String)>) -> (r: Vec<(String, String)>)
    ensures
        r@ == src@,
{
    let mut out: Vec<(String, String)> = Vec::new();
    let mut i: usize = 0;
    while i < src.len()
        invariant
            i <= src@.len(),
            out@.len() == i,
            forall|j: int| 0 <= j < i ==> out@[j] == src@[j],
        decreases src@.len() - i,
    {
        let pair = &src[i];
        out.push((pair.0.clone(), pair.1.clone()));
        i = i + 1;
    }
    proof {
        assert(out@ =~= src@);
    }
    out
}

/// Copies a byte vector.
pub fn copy_bytes(src: &Vec<u8>) -> (r: Vec<u8>)
    ensures
        r@ == src@,
{
    let mut out: Vec<u8> = Vec::new();
    let mut i: usize = 0;
    while i < src.len()
        invariant
            i <= src@.len(),
            out@.len() == i,
            forall|j: int| 0 <= j < i ==> out@[j] == src@[j],
        decreases src@.len() - i,
    {
        out.push(src[i]);
        i = i + 1;
    }
    proof {
        assert(out@ =~= src@);
    }
    out
}

/// Exact string equality.
pub fn str_eq(a: &str, b: &str) -> (r: bool)
    ensures
        r == (a@ == b@),
{
    let alen = a.unicode_len();
    let blen = b.unicode_len();
    if alen != blen {
        assert(a@ != b@);
        return false;
    }
    let mut i: usize = 0;
    while i < alen
        invariant
            alen == a@.len(),
            blen == b@.len(),
            alen == blen,
            i <= alen,
            forall|j: int| 0 <= j < i ==> a@[j] == b@[j],
        decreases alen - i,
    {
        if a.get_char(i) != b.get_char(i) {
            assert(a@ != b@);
            return false;
        }
        i = i + 1;
    }
    proof {
        assert(a@ =~= b@);
    }
    true
}

/// String equality up to ASCII case.
pub fn str_eq_ci(a: &str, b: &str) -> (r: bool)
    ensures
        r == seq_eq_ci(a@, b@),
{
    let alen = a.unicode_len();
    let blen = b.unicode_len();
    if alen != blen {
        return false;
    }
    let mut i: usize = 0;
    while i < alen
        invariant
            alen == a@.len(),
            blen == b@.len(),
            alen == blen,
            i <= alen,
            forall|j: int| 0 <= j < i ==> chars_eq_ci(a@[j], b@[j]),
        decreases alen - i,
    {
        if !char_eq_ci(a.get_char(i), b.get_char(i)) {
            return false;
        }
        i = i + 1;
    }
    true
}

/// `needle` occurs as a contiguous run inside `hay`.
pub open spec fn has_substring(hay: Seq<char>, needle: Seq<char>) -> bool {
    exists|i: int|
        0 <= i && i + needle.len() <= hay.len() && #[trigger] hay.subrange(i, i + needle.len())
            == needle
}

fn match_at(hay: &str, needle: &str, at: usize) -> (r: bool)
    requires
        at + needle@.len() <= hay@.len(),
    ensures
        r == (hay@.subrange(at as int, at as int + needle@.len()) == needle@),
{
    let hlen = hay.unicode_len();
    let nlen = needle.unicode_len();
    let mut j: usize = 0;
    while j < nlen
        invariant
            hlen == hay@.len(),
            nlen == needle@.len(),
            at + nlen <= hay@.len(),
            j <= nlen,
            forall|k: int| 0 <= k < j ==> hay@[at + k] == needle@[k],
        decreases nlen - j,
    {
        if hay.get_char(at + j) != needle.get_char(j) {
            assert(hay@.subrange(at as int, at as int + needle@.len())[j as int] != needle@[j as int]);
            return false;
        }
        j = j + 1;
    }
    proof {
        assert(hay@.subrange(at as int, at as int + needle@.len()) =~= needle@);
    }
    true
}

/// Substring search.
pub fn contains_sub(hay: &str, needle: &str) -> (r: bool)
    ensures
        r == has_substring(hay@, needle@),
{
    let hlen = hay.unicode_len();
    let nlen = needle.unicode_len();
    if nlen > hlen {
        return false;
    }
    if nlen == 0 {
        proof {
            assert(hay@.subrange(0, 0 + needle@.len() as int) =~= needle@);
        }
        return true;
    }
    let mut i: usize = 0;
    while i <= hlen - nlen
        invariant
            hlen == hay@.len(),
            nlen == needle@.len(),
            1 <= nlen <= hlen,
            i <= hlen - nlen + 1,
            forall|k: int|
                0 <= k < i ==> #[trigger] hay@.subrange(k, k + needle@.len()) != needle@,
        decreases hlen - i,
    {
        if match_at(hay, needle, i) {
            return true;
        }
        i = i + 1;
    }
    false
}

/// The index of the last occurrence of `c` in `s`, if any.
pub open spec fn last_index_of(s: Seq<char>, c: char) -> Option<int> {
    if exists|i: int| 0 <= i < s.len() && s[i] == c {
        Some(choose|i: int| 0 <= i < s.len() && s[i] == c && forall|j: int| i < j < s.len() ==> s[j] != c)
    } else {
        None
    }
}

/// Finds the last occurrence of `c` in `s`.
pub fn rfind_char(s: &str, c: char) -> (r: Option<usize>)
    ensures
        match r {
            Some(i) => i < s@.len() && s@[i as int] == c && forall|j: int|
                i < j < s@.len() ==> s@[j] != c,
            None => forall|j: int| 0 <= j < s@.len() ==> s@[j] != c,
        },
{
    let len = s.unicode_len();
    let mut i: usize = len;
    while i > 0
        invariant
            len == s@.len(),
            i <= len,
            forall|j: int| i <= j < len ==> s@[j] != c,
        decreases i,
    {
        i = i - 1;
        if s.get_char(i) == c {
            return Some(i);
        }
    }
    None
}

/// `s` with every `'/'` replaced by `"__"`, built back to front.
pub open spec fn slashes_doubled(s: Seq<char>) -> Seq<char>
    decreases s.len(),
{
    if s.len() == 0 {
        Seq::empty()
    } else {
        slashes_doubled(s.drop_last()) + (if s.last() == '/' {
            seq!['_', '_']
        } else {
            seq![s.last()]
        })
    }
}

/// Replaces every `'/'` with `"__"`.
pub fn replace_slashes(s: &str) -> (r: String)
    ensures
        r@ == slashes_doubled(s@),
{
    let len = s.unicode_len();
    let mut out = String::new();
    let mut i: usize = 0;
    while i < len
        invariant
            len == s@.len(),
            i <= len,
            out@ == slashes_doubled(s@.take(i as int)),
        decreases len - i,
    {
        let ghost prev = s@.take(i as int);
        let ghost next = s@.take(i as int + 1);
        if s.get_char(i) == '/' {
            out.append("__");
            proof {
                reveal_strlit("__");
                assert("__"@ =~= seq!['_', '_']);
            }
        } else {
            let piece = s.substring_char(i, i + 1);
            out.append(piece);
            proof {
                assert(piece@ =~= seq![s@[i as int]]);
            }
        }
        proof {
            assert(next.drop_last() =~= prev);
            assert(next.last() == s@[i as int]);
            assert(out@ == slashes_doubled(next));
        }
        i = i + 1;
    }
    proof {
        assert(s@.take(len as int) =~= s@);
    }
    out
}

/// How many copies of `c` begin `s`.
#[verifier::opaque]
pub open spec fn leading_count(s: Seq<char>, c: char) -> int {
    if exists|i: int| 0 <= i < s.len() && s[i] != c {
        choose|i: int|
            0 <= i < s.len() && s[i] != c && forall|j: int| 0 <= j < i ==> s[j] == c
    } else {
        s.len() as int
    }
}

/// How many copies of `c` end `s`.
#[verifier::opaque]
pub open spec fn trailing_count(s: Seq<char>, c: char) -> int {
    if exists|i: int| 0 <= i < s.len() && s[i] != c {
        s.len() - 1 - (choose|i: int|
            0 <= i < s.len() && s[i] != c && forall|j: int| i < j < s.len() ==> s[j] == c)
    } else {
        s.len() as int
    }
}

/// `s` with leading and trailing copies of `c` removed; all of `s` when it
/// holds nothing else.
#[verifier::opaque]
pub open spec fn trimmed(s: Seq<char>, c: char) -> Seq<char> {
    if leading_count(s, c) == s.len() {
        Seq::empty()
    } else {
        s.subrange(leading_count(s, c), s.len() - trailing_count(s, c))
    }
}

/// Removes leading and trailing copies of `c`.
pub fn trim_char(s: &str, c: char) -> (r: String)
    ensures
        r@ == trimmed(s@, c),
{
    let len = s.unicode_len();
    let mut start: usize = 0;
    while start < len && s.get_char(start) == c
        invariant
            len == s@.len(),
            start <= len,
            forall|j: int| 0 <= j < start ==> s@[j] == c,
        decreases len - start,
    {
        start = start + 1;
    }
    if start == len {
        proof {
            reveal(trimmed);
            reveal(leading_count);
            assert(leading_count(s@, c) == s@.len()) by {
                if exists|i: int| 0 <= i < s@.len() && s@[i] != c {
                    let i = choose|i: int| 0 <= i < s@.len() && s@[i] != c;
                    assert(s@[i] == c);
                }
            }
        }
        return String::new();
    }
    let mut end: usize = len;
    while end > start && s.get_char(end - 1) == c
        invariant
            len == s@.len(),
            start <= end <= len,
            s@[start as int] != c,
            forall|j: int| end <= j < len ==> s@[j] == c,
        decreases end,
    {
        end = end - 1;
    }
    let r = String::from_str(s.substring_char(start, end));
    proof {
        reveal(trimmed);
        reveal(leading_count);
        reveal(trailing_count);
        let sv = s@;
        assert(sv[start as int] != c);
        assert(leading_count(sv, c) == start as int) by {
            let w = choose|i: int|
                0 <= i < sv.len() && sv[i] != c && forall|j: int| 0 <= j < i ==> sv[j] == c;
            assert(sv[start as int] != c && forall|j: int| 0 <= j < start ==> sv[j] == c);
            assert(w == start as int) by {
                if w < start {
                    assert(sv[w] == c);
                }
                if w > start {
                    assert(sv[start as int] == c);
                }
            }
        }
        assert(end > start);
        assert(sv[end - 1] != c) by {
            if end < len {
            }
        }
        assert(trailing_count(sv, c) == len - end) by {
            let w = choose|i: int|
                0 <= i < sv.len() && sv[i] != c && forall|j: int| i < j < sv.len() ==> sv[j] == c;
            assert(sv[end - 1] != c && forall|j: int| end - 1 < j < sv.len() ==> sv[j] == c);
            assert(w == end - 1) by {
                if w < end - 1 {
                    assert(sv[end - 1] == c);
                }
                if w > end - 1 {
                    assert(sv[w] == c);
                }
            }
        }
    }
    r
}

} // verus!
