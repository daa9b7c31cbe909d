//! Verified text utilities: substring search, ASCII case folding, decimal
//! rendering, and blank-string testing, all specified over `Seq<char>` views.

use vstd::prelude::*;

verus! {

/// Relies on String::push: appends the given character to the end of the
/// string.
#[verifier::external_body]
pub fn push_char(s: &mut String, c: char)
    ensures
        final(s)@ == old(s)@.push(c),
{
    s.push(c);
}

/// `needle` occurs as a contiguous run of characters inside `hay`.
pub open spec fn contains_seq(hay: Seq<char>, needle: Seq<char>) -> bool {
    exists|i: int|
        0 <= i <= hay.len() - needle.len() && #[trigger] hay.subrange(i, i + needle.len() as int)
            == needle
}

fn match_at(hay: &str, needle: &str, at: usize, nn: usize) -> (r: bool)
    requires
        nn == needle@.len(),
        at + nn <= hay@.len(),
        at + nn <= usize::MAX,
    ensures
        r == (hay@.subrange(at as int, at + nn as int) == needle@),
{
    let mut j: usize = 0;
    while j < nn
        invariant
            0 <= j <= nn,
            nn == needle@.len(),
            at + nn <= hay@.len(),
            at + nn <= usize::MAX,
            forall|k: int| 0 <= k < j ==> hay@[at + k] == needle@[k],
        decreases nn - j,
    {
        if hay.get_char(at + j) != needle.get_char(j) {
            assert(hay@.subrange(at as int, at + nn as int) != needle@) by {
                assert(hay@.subrange(at as int, at + nn as int)[j as int] == hay@[at + j]);
            }
            return false;
        }
        j += 1;
    }
    assert(hay@.subrange(at as int, at + nn as int) =~= needle@);
    true
}

/// Whether `needle` occurs inside `hay`, by character-wise scan.
pub fn str_contains(hay: &str, needle: &str) -> (r: bool)
    ensures
        r == contains_seq(hay@, needle@),
{
    let hn = hay.unicode_len();
    let nn = needle.unicode_len();
    if nn > hn {
        return false;
    }
    if nn == 0 {
        assert(hay@.subrange(0, 0 + needle@.len() as int) =~= needle@);
        return true;
    }
    let mut i: usize = 0;
    while i < hn - nn + 1
        invariant
            hn == hay@.len(),
            nn == needle@.len(),
            1 <= nn <= hn,
            0 <= i <= hn - nn + 1,
            forall|j: int|
                0 <= j < i ==> #[trigger] hay@.subrange(j, j + nn as int) != needle@,
        decreases hn - nn - i + 1,
    {
        if match_at(hay, needle, i, nn) {
            assert(contains_seq(hay@, needle@)) by {
                assert(hay@.subrange(i as int, i + nn as int) == needle@);
            }
            return true;
        }
        i += 1;
    }
    false
}

/// The character with `c` folded to ASCII lower case.
pub open spec fn lower_char(c: char) -> char {
    if 'A' <= c && c <= 'Z' {
        ((c as u32) + 32) as char
    } else {
        c
    }
}

/// `s` with every ASCII upper-case letter folded to lower case.
pub open spec fn lower_seq(s: Seq<char>) -> Seq<char> {
    Seq::new(s.len(), |i: int| lower_char(s[i]))
}

/// ASCII case folding; characters outside `A`..`Z` are kept as they are.
pub fn ascii_lowercase(s: &str) -> (r: String)
    ensures
        r@ == lower_seq(s@),
{
    let n = s.unicode_len();
    let mut out = String::new();
    let mut i: usize = 0;
    while i < n
        invariant
            n == s@.len(),
            0 <= i <= n,
            out@ == lower_seq(s@).subrange(0, i as int),
        decreases n - i,
    {
        let c = s.get_char(i);
        let lc: char = if 'A' <= c && c <= 'Z' {
            ((c as u8) + 32) as char
        } else {
            c
        };
        assert(lc == lower_char(s@[i as int]));
        push_char(&mut out, lc);
        assert(out@ =~= lower_seq(s@).subrange(0, i + 1));
        i += 1;
    }
    assert(out@ =~= lower_seq(s@));
    out
}

/// The decimal digit character for `d`.
pub open spec fn digit_char(d: nat) -> char {
    ((48 + d) as char)
}

/// The decimal rendering of `n`, most significant digit first.
pub open spec fn spec_decimal(n: nat) -> Seq<char>
    decreases n,
{
    if n < 10 {
        seq![digit_char(n)]
    } else {
        spec_decimal(n / 10).push(digit_char(n % 10))
    }
}

fn digit_of(d: u32) -> (c: char)
    requires
        d < 10,
    ensures
        c == digit_char(d as nat),
{
    ((48 + d as u8) as u8) as char
}

/// Renders `n` in decimal.
pub fn u32_to_string(n: u32) -> (s: String)
    ensures
        s@ == spec_decimal(n as nat),
    decreases n,
{
    if n < 10 {
        let mut s = String::new();
        let c = digit_of(n);
        push_char(&mut s, c);
        assert(s@ =~= spec_decimal(n as nat));
        s
    } else {
        let mut s = u32_to_string(n / 10);
        let c = digit_of(n % 10);
        push_char(&mut s, c);
        s
    }
}

/// The characters that count as white space when testing for a blank string:
/// the set recognized by Rust's `char::is_whitespace`.
pub open spec fn spec_whitespace(c: char) -> bool {
    c == ' ' || c == '\t' || c == '\n' || c == '\r' || c == '\u{000B}' || c == '\u{000C}'
        || c == '\u{0085}' || c == '\u{00A0}' || c == '\u{1680}' || ('\u{2000}' <= c && c
        <= '\u{200A}') || c == '\u{2028}' || c == '\u{2029}' || c == '\u{202F}' || c == '\u{205F}'
        || c == '\u{3000}'
}

/// `s` is empty or consists of white space only.
pub open spec fn spec_blank(s: Seq<char>) -> bool {
    forall|i: int| 0 <= i < s.len() ==> spec_whitespace(s[i])
}

fn is_whitespace_char(c: char) -> (r: bool)
    ensures
        r == spec_whitespace(c),
{
    c == ' ' || c == '\t' || c == '\n' || c == '\r' || c == '\u{000B}' || c == '\u{000C}'
        || c == '\u{0085}' || c == '\u{00A0}' || c == '\u{1680}' || ('\u{2000}' <= c && c
        <= '\u{200A}') || c == '\u{2028}' || c == '\u{2029}' || c == '\u{202F}' || c == '\u{205F}'
        || c == '\u{3000}'
}

/// Whether `s` is empty or all white space.
pub fn is_blank(s: &str) -> (r: bool)
    ensures
        r == spec_blank(s@),
{
    let n = s.unicode_len();
    let mut i: usize = 0;
    while i < n
        invariant
            n == s@.len(),
            0 <= i <= n,
            forall|j: int| 0 <= j < i ==> spec_whitespace(s@[j]),
        decreases n - i,
    {
        if !is_whitespace_char(s.get_char(i)) {
            return false;
        }
        i += 1;
    }
    true
}

/// Whether two strings hold the same characters.
pub fn str_eq(a: &str, b: &str) -> (r: bool)
    ensures
        r == (a@ == b@),
{
    let an = a.unicode_len();
    let bn = b.unicode_len();
    if an != bn {
        assert(a@ != b@);
        return false;
    }
    let mut i: usize = 0;
    while i < an
        invariant
            an == a@.len(),
            an == b@.len(),
            0 <= i <= an,
            forall|j: int| 0 <= j < i ==> a@[j] == b@[j],
        decreases an - i,
    {
        if a.get_char(i) != b.get_char(i) {
            return false;
        }
        i += 1;
    }
    assert(a@ =~= b@);
    true
}

/// Clones a vector of strings.
pub fn clone_strings(v: &Vec<String>) -> (r: Vec<String>)
    ensures
        r@ == v@,
{
    let mut out: Vec<String> = Vec::new();
    let n = v.len();
    let mut i: usize = 0;
    while i < n
        invariant
            n == v@.len(),
            0 <= i <= n,
            out@ =~= v@.take(i as int),
        decreases n - i,
    {
        out.push(v[i].clone());
        assert(out@ =~= v@.take(i + 1));
        i += 1;
    }
    assert(out@ =~= v@);
    out
}

/// The index of the first occurrence of `needle` in `hay`, or -1 when
/// there is none.
pub open spec fn spec_find(hay: Seq<char>, needle: Seq<char>) -> int
    decreases hay.len(),
{
    if needle.len() == 0 {
        0
    } else if hay.len() < needle.len() {
        -1
    } else if hay.subrange(0, needle.len() as int) == needle {
        0
    } else {
        let r = spec_find(hay.drop_first(), needle);
        if r == -1 {
            -1
        } else {
            r + 1
        }
    }
}

proof fn lemma_spec_find_at(hay: Seq<char>, needle: Seq<char>, j: int)
    requires
        needle.len() > 0,
        0 <= j,
        j + needle.len() <= hay.len(),
        hay.subrange(j, j + needle.len() as int) == needle,
        forall|k: int|
            0 <= k < j ==> #[trigger] hay.subrange(k, k + needle.len() as int) != needle,
    ensures
        spec_find(hay, needle) == j,
    decreases j,
{
    if j == 0 {
    } else {
        assert(hay.subrange(0, 0 + needle.len() as int) != needle);
        let tail = hay.drop_first();
        assert(tail.subrange(j - 1, j - 1 + needle.len() as int) =~= hay.subrange(
            j,
            j + needle.len() as int,
        ));
        assert forall|k: int| 0 <= k < j - 1 implies #[trigger] tail.subrange(
            k,
            k + needle.len() as int,
        ) != needle by {
            assert(tail.subrange(k, k + needle.len() as int) =~= hay.subrange(
                k + 1,
                k + 1 + needle.len() as int,
            ));
        }
        lemma_spec_find_at(tail, needle, j - 1);
    }
}

proof fn lemma_spec_find_none(hay: Seq<char>, needle: Seq<char>)
    requires
        forall|k: int|
            0 <= k <= hay.len() - needle.len() ==> #[trigger] hay.subrange(
                k,
                k + needle.len() as int,
            ) != needle,
        needle.len() > 0,
    ensures
        spec_find(hay, needle) == -1,
    decreases hay.len(),
{
    if needle.len() > 0 && hay.len() >= needle.len() {
        let tail = hay.drop_first();
        assert(hay.subrange(0, 0 + needle.len() as int) != needle);
        assert forall|k: int| 0 <= k <= tail.len() - needle.len() implies #[trigger] tail.subrange(
            k,
            k + needle.len() as int,
        ) != needle by {
            assert(tail.subrange(k, k + needle.len() as int) =~= hay.subrange(
                k + 1,
                k + 1 + needle.len() as int,
            ));
        }
        lemma_spec_find_none(tail, needle);
    }
}

/// The index of the first occurrence of `needle` in `hay`, if any.
pub fn str_find(hay: &str, needle: &str) -> (r: Option<usize>)
    ensures
        match r {
            Some(i) => spec_find(hay@, needle@) == i && i + needle@.len() <= hay@.len(),
            None => spec_find(hay@, needle@) == -1,
        },
{
    let hn = hay.unicode_len();
    let nn = needle.unicode_len();
    if nn == 0 {
        return Some(0);
    }
    if nn > hn {
        proof {
            lemma_spec_find_none(hay@, needle@);
        }
        return None;
    }
    let mut i: usize = 0;
    while i <= hn - nn
        invariant
            hn == hay@.len(),
            nn == needle@.len(),
            1 <= nn <= hn,
            0 <= i <= hn - nn + 1,
            forall|j: int|
                0 <= j < i ==> #[trigger] hay@.subrange(j, j + nn as int) != needle@,
        decreases hn - nn - i + 1,
    {
        if match_at(hay, needle, i, nn) {
            proof {
                lemma_spec_find_at(hay@, needle@, i as int);
            }
            return Some(i);
        }
        i += 1;
    }
    proof {
        lemma_spec_find_none(hay@, needle@);
    }
    None
}

} // verus!
