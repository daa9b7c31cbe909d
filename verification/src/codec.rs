//! A verified flat encoding of the planning artifacts.
//!
//! Each artifact serializes to a sequence of 64-bit words and deserializes
//! back; the round-trip law is proved: decoding an encoding yields the
//! value encoded.  Strings are carried as their characters' code points,
//! wide integers as word pairs, and signed values as a sign word and a
//! magnitude.

use vstd::prelude::*;

verus! {

/// Relies on char::from_u32: a character exactly for Unicode scalar
/// values, carrying that code point.
#[verifier::external_body]
fn char_from_u32(v: u32) -> (r: Option<char>)
    ensures
        r is Some <==> (v < 0xD800 || (0xE000 <= v && v < 0x110000)),
        r matches Some(c) ==> c as u32 == v,
{
    char::from_u32(v)
}

/// A trivially satisfied condition, for items that always round-trip.
pub open spec fn trivial_ok(v: u32) -> bool {
    true
}

/// A word that holds a Unicode scalar value.
pub open spec fn is_char_word(w: u64) -> bool {
    w < 0xD800 || (0xE000 <= w && w < 0x110000)
}

/// The encoding of one unsigned word.
pub open spec fn enc_u64(v: u64) -> Seq<u64> {
    seq![v]
}

/// Reads one unsigned word.
pub open spec fn dec_u64(ws: Seq<u64>, i: int) -> Option<(u64, int)> {
    if 0 <= i < ws.len() {
        Some((ws[i], i + 1))
    } else {
        None
    }
}

proof fn lemma_dec_enc_u64(v: u64, ws: Seq<u64>, i: int)
    requires
        0 <= i,
        i + 1 <= ws.len(),
        ws.subrange(i, i + 1) == enc_u64(v),
    ensures
        dec_u64(ws, i) == Some((v, i + 1)),
{
    assert(ws.subrange(i, i + 1)[0] == ws[i]);
}

/// The encoding of a 32-bit value as one word.
pub open spec fn enc_u32(v: u32) -> Seq<u64> {
    seq![v as u64]
}

/// Reads a 32-bit value; larger words are rejected.
pub open spec fn dec_u32(ws: Seq<u64>, i: int) -> Option<(u32, int)> {
    if 0 <= i < ws.len() && ws[i] <= u32::MAX {
        Some((ws[i] as u32, i + 1))
    } else {
        None
    }
}

proof fn lemma_dec_enc_u32(v: u32, ws: Seq<u64>, i: int)
    requires
        0 <= i,
        i + 1 <= ws.len(),
        ws.subrange(i, i + 1) == enc_u32(v),
    ensures
        dec_u32(ws, i) == Some((v, i + 1)),
{
    assert(ws.subrange(i, i + 1)[0] == ws[i]);
}

/// The encoding of a flag as one word.
pub open spec fn enc_bool(v: bool) -> Seq<u64> {
    seq![
        if v {
            1u64
        } else {
            0u64
        },
    ]
}

/// Reads a flag; words other than zero or one are rejected.
pub open spec fn dec_bool(ws: Seq<u64>, i: int) -> Option<(bool, int)> {
    if 0 <= i < ws.len() && (ws[i] == 0 || ws[i] == 1) {
        Some((ws[i] == 1, i + 1))
    } else {
        None
    }
}

proof fn lemma_dec_enc_bool(v: bool, ws: Seq<u64>, i: int)
    requires
        0 <= i,
        i + 1 <= ws.len(),
        ws.subrange(i, i + 1) == enc_bool(v),
    ensures
        dec_bool(ws, i) == Some((v, i + 1)),
{
    assert(ws.subrange(i, i + 1)[0] == ws[i]);
}

/// The encoding of a 128-bit identifier as two words, high half first.
pub open spec fn enc_u128(v: u128) -> Seq<u64> {
    seq![(v / 0x1_0000_0000_0000_0000) as u64, (v % 0x1_0000_0000_0000_0000) as u64]
}

/// Reads a 128-bit identifier from two words.
pub open spec fn dec_u128(ws: Seq<u64>, i: int) -> Option<(u128, int)> {
    if 0 <= i && i + 2 <= ws.len() && ws[i + 1] < 0x1_0000_0000_0000_0000 {
        Some(((ws[i] as u128 * 0x1_0000_0000_0000_0000 + ws[i + 1] as u128) as u128, i + 2))
    } else {
        None
    }
}

proof fn lemma_dec_enc_u128(v: u128, ws: Seq<u64>, i: int)
    requires
        0 <= i,
        i + 2 <= ws.len(),
        ws.subrange(i, i + 2) == enc_u128(v),
    ensures
        dec_u128(ws, i) == Some((v, i + 2)),
{
    assert(ws.subrange(i, i + 2)[0] == ws[i]);
    assert(ws.subrange(i, i + 2)[1] == ws[i + 1]);
    assert(v / 0x1_0000_0000_0000_0000 <= u64::MAX) by (nonlinear_arith);
    assert(v == (v / 0x1_0000_0000_0000_0000) * 0x1_0000_0000_0000_0000 + v
        % 0x1_0000_0000_0000_0000) by (nonlinear_arith);
}

/// The encoding of a signed value as a sign word and a magnitude.
pub open spec fn enc_i64(v: i64) -> Seq<u64> {
    if v < 0 {
        seq![1u64, (-(v as int)) as u64]
    } else {
        seq![0u64, v as u64]
    }
}

/// Reads a signed value from a sign word and a magnitude.
pub open spec fn dec_i64(ws: Seq<u64>, i: int) -> Option<(i64, int)> {
    if 0 <= i && i + 2 <= ws.len() {
        if ws[i] == 0 && ws[i + 1] <= i64::MAX {
            Some((ws[i + 1] as i64, i + 2))
        } else if ws[i] == 1 && 1 <= ws[i + 1] && ws[i + 1] <= 0x8000_0000_0000_0000 {
            Some(((-(ws[i + 1] as int)) as i64, i + 2))
        } else {
            None
        }
    } else {
        None
    }
}

proof fn lemma_dec_enc_i64(v: i64, ws: Seq<u64>, i: int)
    requires
        0 <= i,
        i + 2 <= ws.len(),
        ws.subrange(i, i + 2) == enc_i64(v),
    ensures
        dec_i64(ws, i) == Some((v, i + 2)),
{
    assert(ws.subrange(i, i + 2)[0] == ws[i]);
    assert(ws.subrange(i, i + 2)[1] == ws[i + 1]);
}

/// The encoding of a small signed value, through the signed encoding.
pub open spec fn enc_i32(v: i32) -> Seq<u64> {
    enc_i64(v as i64)
}

/// Reads a small signed value; values outside the 32-bit range are
/// rejected.
pub open spec fn dec_i32(ws: Seq<u64>, i: int) -> Option<(i32, int)> {
    match dec_i64(ws, i) {
        Some((v, j)) => if i32::MIN <= v <= i32::MAX {
            Some((v as i32, j))
        } else {
            None
        },
        None => None,
    }
}

proof fn lemma_dec_enc_i32(v: i32, ws: Seq<u64>, i: int)
    requires
        0 <= i,
        i + 2 <= ws.len(),
        ws.subrange(i, i + 2) == enc_i32(v),
    ensures
        dec_i32(ws, i) == Some((v, i + 2)),
{
    lemma_dec_enc_i64(v as i64, ws, i);
}

/// The characters of a text as words.
pub open spec fn chars_words(s: Seq<char>) -> Seq<u64> {
    Seq::new(s.len(), |j: int| (s[j] as u32) as u64)
}

/// The encoding of a text: its length, then its characters' code points.
pub open spec fn enc_str(s: Seq<char>) -> Seq<u64> {
    seq![s.len() as u64] + chars_words(s)
}

/// Reads a text: a length word, then that many scalar-value words.
pub open spec fn dec_str(ws: Seq<u64>, i: int) -> Option<(Seq<char>, int)> {
    if 0 <= i < ws.len() {
        let n = ws[i] as int;
        if i + 1 + n <= ws.len() && (forall|j: int| 0 <= j < n ==> is_char_word(#[trigger] ws[i + 1 + j])) {
            Some((Seq::new(n as nat, |j: int| (ws[i + 1 + j] as u32) as char), i + 1 + n))
        } else {
            None
        }
    } else {
        None
    }
}

/// Texts round-trip when their length fits one word.
pub open spec fn valid_str(s: Seq<char>) -> bool {
    s.len() <= u64::MAX
}

proof fn lemma_dec_enc_str(s: Seq<char>, ws: Seq<u64>, i: int)
    requires
        0 <= i,
        valid_str(s),
        i + enc_str(s).len() <= ws.len(),
        ws.subrange(i, i + enc_str(s).len() as int) == enc_str(s),
    ensures
        dec_str(ws, i) == Some((s, i + 1 + s.len())),
{
    let e = enc_str(s);
    let n = s.len() as int;
    assert(ws.subrange(i, i + e.len() as int)[0] == ws[i]);
    assert(ws[i] == s.len() as u64);
    assert forall|j: int| 0 <= j < n implies is_char_word(#[trigger] ws[i + 1 + j]) && ws[i + 1
        + j] == (s[j] as u32) as u64 by {
        assert(ws.subrange(i, i + e.len() as int)[1 + j] == ws[i + 1 + j]);
        assert(e[1 + j] == chars_words(s)[j]);
        vstd::utf8::char_is_scalar(s[j]);
    }
    assert(Seq::new(n as nat, |j: int| (ws[i + 1 + j] as u32) as char) =~= s) by {
        assert forall|j: int| 0 <= j < n implies (#[trigger] ws[i + 1 + j] as u32) as char == s[j]
            by {
            assert(ws[i + 1 + j] == (s[j] as u32) as u64);
            vstd::utf8::char_is_scalar(s[j]);
            vstd::utf8::char_u32_cast(s[j], s[j] as u32);
            assert(ws[i + 1 + j] as u32 == s[j] as u32);
        }
    }
}

/// A window of a larger word sequence contains a part of an embedded
/// encoding at its offset.
proof fn lemma_sub_window(ws: Seq<u64>, i: int, e: Seq<u64>, off: int, part: Seq<u64>)
    requires
        0 <= i,
        i + e.len() <= ws.len(),
        ws.subrange(i, i + e.len() as int) == e,
        0 <= off,
        off + part.len() <= e.len(),
        e.subrange(off, off + part.len() as int) == part,
    ensures
        ws.subrange(i + off, i + off + part.len() as int) == part,
{
    assert(ws.subrange(i + off, i + off + part.len() as int) =~= part) by {
        assert forall|k: int| 0 <= k < part.len() implies ws[i + off + k] == part[k] by {
            assert(ws.subrange(i, i + e.len() as int)[off + k] == ws[i + off + k]);
            assert(e.subrange(off, off + part.len() as int)[k] == e[off + k]);
        }
    }
}

/// The encoding of an optional text: an absence flag, then the text.
pub open spec fn enc_opt_str(o: Option<Seq<char>>) -> Seq<u64> {
    match o {
        None => seq![0u64],
        Some(s) => seq![1u64] + enc_str(s),
    }
}

/// Reads an optional text.
pub open spec fn dec_opt_str(ws: Seq<u64>, i: int) -> Option<(Option<Seq<char>>, int)> {
    if 0 <= i < ws.len() {
        if ws[i] == 0 {
            Some((None, i + 1))
        } else if ws[i] == 1 {
            match dec_str(ws, i + 1) {
                Some((s, j)) => Some((Some(s), j)),
                None => None,
            }
        } else {
            None
        }
    } else {
        None
    }
}

pub open spec fn valid_opt_str(o: Option<Seq<char>>) -> bool {
    match o {
        Some(s) => valid_str(s),
        None => true,
    }
}

proof fn lemma_dec_enc_opt_str(o: Option<Seq<char>>, ws: Seq<u64>, i: int)
    requires
        0 <= i,
        valid_opt_str(o),
        i + enc_opt_str(o).len() <= ws.len(),
        ws.subrange(i, i + enc_opt_str(o).len() as int) == enc_opt_str(o),
    ensures
        match o {
            None => dec_opt_str(ws, i) == Some((Option::<Seq<char>>::None, i + 1)),
            Some(s) => dec_opt_str(ws, i) == Some((Some(s), i + 2 + s.len())),
        },
{
    let e = enc_opt_str(o);
    assert(ws.subrange(i, i + e.len() as int)[0] == ws[i]);
    match o {
        None => {},
        Some(s) => {
            assert(e.subrange(1, 1 + enc_str(s).len() as int) =~= enc_str(s));
            lemma_sub_window(ws, i, e, 1, enc_str(s));
            lemma_dec_enc_str(s, ws, i + 1);
        },
    }
}

/// The encodings of the listed texts, in order.
pub open spec fn enc_str_items(ss: Seq<Seq<char>>) -> Seq<u64>
    decreases ss.len(),
{
    if ss.len() == 0 {
        Seq::empty()
    } else {
        enc_str(ss[0]) + enc_str_items(ss.drop_first())
    }
}

/// The encoding of a text list: its length, then each text.
pub open spec fn enc_strs(ss: Seq<Seq<char>>) -> Seq<u64> {
    seq![ss.len() as u64] + enc_str_items(ss)
}

/// Reads `count` texts in order.
pub open spec fn dec_str_items(ws: Seq<u64>, i: int, count: nat) -> Option<(Seq<Seq<char>>, int)>
    decreases count,
{
    if count == 0 {
        Some((Seq::empty(), i))
    } else {
        match dec_str(ws, i) {
            Some((s, j)) => match dec_str_items(ws, j, (count - 1) as nat) {
                Some((rest, k)) => Some((seq![s] + rest, k)),
                None => None,
            },
            None => None,
        }
    }
}

/// Reads a text list.
pub open spec fn dec_strs(ws: Seq<u64>, i: int) -> Option<(Seq<Seq<char>>, int)> {
    match dec_u64(ws, i) {
        Some((n, j)) => dec_str_items(ws, j, n as nat),
        None => None,
    }
}

pub open spec fn valid_strs(ss: Seq<Seq<char>>) -> bool {
    ss.len() <= u64::MAX && (forall|j: int| 0 <= j < ss.len() ==> valid_str(#[trigger] ss[j]))
}

proof fn lemma_dec_enc_str_items(ss: Seq<Seq<char>>, ws: Seq<u64>, i: int)
    requires
        0 <= i,
        forall|j: int| 0 <= j < ss.len() ==> valid_str(#[trigger] ss[j]),
        i + enc_str_items(ss).len() <= ws.len(),
        ws.subrange(i, i + enc_str_items(ss).len() as int) == enc_str_items(ss),
    ensures
        dec_str_items(ws, i, ss.len()) == Some((ss, i + enc_str_items(ss).len())),
    decreases ss.len(),
{
    if ss.len() == 0 {
        assert(ss =~= Seq::<Seq<char>>::empty());
    } else {
        let e = enc_str_items(ss);
        let e0 = enc_str(ss[0]);
        let rest = enc_str_items(ss.drop_first());
        assert(e.subrange(0, e0.len() as int) =~= e0);
        lemma_sub_window(ws, i, e, 0, e0);
        lemma_dec_enc_str(ss[0], ws, i);
        assert(e.subrange(e0.len() as int, e0.len() + rest.len() as int) =~= rest);
        lemma_sub_window(ws, i, e, e0.len() as int, rest);
        lemma_dec_enc_str_items(ss.drop_first(), ws, i + e0.len());
        assert(seq![ss[0]] + ss.drop_first() =~= ss);
    }
}

proof fn lemma_dec_enc_strs(ss: Seq<Seq<char>>, ws: Seq<u64>, i: int)
    requires
        0 <= i,
        valid_strs(ss),
        i + enc_strs(ss).len() <= ws.len(),
        ws.subrange(i, i + enc_strs(ss).len() as int) == enc_strs(ss),
    ensures
        dec_strs(ws, i) == Some((ss, i + enc_strs(ss).len())),
{
    let e = enc_strs(ss);
    assert(ws.subrange(i, i + e.len() as int)[0] == ws[i]);
    assert(e.subrange(1, 1 + enc_str_items(ss).len() as int) =~= enc_str_items(ss));
    lemma_sub_window(ws, i, e, 1, enc_str_items(ss));
    lemma_dec_enc_str_items(ss, ws, i + 1);
}



/// Splits a window that holds a concatenation into the windows of its
/// two halves.
proof fn lemma_split_window(ws: Seq<u64>, i: int, a: Seq<u64>, b: Seq<u64>)
    requires
        0 <= i,
        i + a.len() + b.len() <= ws.len(),
        ws.subrange(i, i + a.len() + b.len()) == a + b,
    ensures
        ws.subrange(i, i + a.len() as int) == a,
        ws.subrange(i + a.len(), i + a.len() + b.len()) == b,
{
    assert(ws.subrange(i, i + a.len() as int) =~= a) by {
        assert forall|k: int| 0 <= k < a.len() implies ws[i + k] == a[k] by {
            assert(ws.subrange(i, i + a.len() + b.len())[k] == ws[i + k]);
        }
    }
    assert(ws.subrange(i + a.len(), i + a.len() + b.len()) =~= b) by {
        assert forall|k: int| 0 <= k < b.len() implies ws[i + a.len() + k] == b[k] by {
            assert(ws.subrange(i, i + a.len() + b.len())[a.len() + k] == ws[i + a.len() + k]);
        }
    }
}


/// The encoding of the variant as one word.
pub open spec fn enc_genre(v: crate::models::NovelGenre) -> Seq<u64> {
    seq![
        match v {
            crate::models::NovelGenre::Fantasy => 0u64,
            crate::models::NovelGenre::Urban => 1u64,
            crate::models::NovelGenre::Xianxia => 2u64,
            crate::models::NovelGenre::Historical => 3u64,
            crate::models::NovelGenre::Romance => 4u64,
            crate::models::NovelGenre::Scifi => 5u64,
            crate::models::NovelGenre::Game => 6u64,
            crate::models::NovelGenre::Horror => 7u64,
            crate::models::NovelGenre::Other => 8u64,
        },
    ]
}

/// Reads the variant; unknown words are rejected.
pub open spec fn dec_genre(ws: Seq<u64>, i: int) -> Option<(crate::models::NovelGenre, int)> {
    if 0 <= i < ws.len() {
        if ws[i] == 0 {
            Some((crate::models::NovelGenre::Fantasy, i + 1))
        } else if ws[i] == 1 {
            Some((crate::models::NovelGenre::Urban, i + 1))
        } else if ws[i] == 2 {
            Some((crate::models::NovelGenre::Xianxia, i + 1))
        } else if ws[i] == 3 {
            Some((crate::models::NovelGenre::Historical, i + 1))
        } else if ws[i] == 4 {
            Some((crate::models::NovelGenre::Romance, i + 1))
        } else if ws[i] == 5 {
            Some((crate::models::NovelGenre::Scifi, i + 1))
        } else if ws[i] == 6 {
            Some((crate::models::NovelGenre::Game, i + 1))
        } else if ws[i] == 7 {
            Some((crate::models::NovelGenre::Horror, i + 1))
        } else if ws[i] == 8 {
            Some((crate::models::NovelGenre::Other, i + 1))
        } else {
            None
        }
    } else {
        None
    }
}

proof fn lemma_dec_enc_genre(v: crate::models::NovelGenre, ws: Seq<u64>, i: int)
    requires
        0 <= i,
        i + 1 <= ws.len(),
        ws.subrange(i, i + 1) == enc_genre(v),
    ensures
        dec_genre(ws, i) == Some((v, i + 1)),
{
    assert(ws.subrange(i, i + 1)[0] == ws[i]);
}


/// The encoding of the variant as one word.
pub open spec fn enc_source(v: crate::models::DataSource) -> Seq<u64> {
    seq![
        match v {
            crate::models::DataSource::FanqieLive => 0u64,
            crate::models::DataSource::FanqieCache => 1u64,
            crate::models::DataSource::Fallback => 2u64,
        },
    ]
}

/// Reads the variant; unknown words are rejected.
pub open spec fn dec_source(ws: Seq<u64>, i: int) -> Option<(crate::models::DataSource, int)> {
    if 0 <= i < ws.len() {
        if ws[i] == 0 {
            Some((crate::models::DataSource::FanqieLive, i + 1))
        } else if ws[i] == 1 {
            Some((crate::models::DataSource::FanqieCache, i + 1))
        } else if ws[i] == 2 {
            Some((crate::models::DataSource::Fallback, i + 1))
        } else {
            None
        }
    } else {
        None
    }
}

proof fn lemma_dec_enc_source(v: crate::models::DataSource, ws: Seq<u64>, i: int)
    requires
        0 <= i,
        i + 1 <= ws.len(),
        ws.subrange(i, i + 1) == enc_source(v),
    ensures
        dec_source(ws, i) == Some((v, i + 1)),
{
    assert(ws.subrange(i, i + 1)[0] == ws[i]);
}


/// The encoding of the variant as one word.
pub open spec fn enc_level(v: crate::models::CompetitionLevel) -> Seq<u64> {
    seq![
        match v {
            crate::models::CompetitionLevel::Low => 0u64,
            crate::models::CompetitionLevel::Medium => 1u64,
            crate::models::CompetitionLevel::High => 2u64,
        },
    ]
}

/// Reads the variant; unknown words are rejected.
pub open spec fn dec_level(ws: Seq<u64>, i: int) -> Option<(crate::models::CompetitionLevel, int)> {
    if 0 <= i < ws.len() {
        if ws[i] == 0 {
            Some((crate::models::CompetitionLevel::Low, i + 1))
        } else if ws[i] == 1 {
            Some((crate::models::CompetitionLevel::Medium, i + 1))
        } else if ws[i] == 2 {
            Some((crate::models::CompetitionLevel::High, i + 1))
        } else {
            None
        }
    } else {
        None
    }
}

proof fn lemma_dec_enc_level(v: crate::models::CompetitionLevel, ws: Seq<u64>, i: int)
    requires
        0 <= i,
        i + 1 <= ws.len(),
        ws.subrange(i, i + 1) == enc_level(v),
    ensures
        dec_level(ws, i) == Some((v, i + 1)),
{
    assert(ws.subrange(i, i + 1)[0] == ws[i]);
}


/// The encoding of the variant as one word.
pub open spec fn enc_rec(v: crate::models::Recommendation) -> Seq<u64> {
    seq![
        match v {
            crate::models::Recommendation::Proceed => 0u64,
            crate::models::Recommendation::Revise => 1u64,
            crate::models::Recommendation::Reject => 2u64,
        },
    ]
}

/// Reads the variant; unknown words are rejected.
pub open spec fn dec_rec(ws: Seq<u64>, i: int) -> Option<(crate::models::Recommendation, int)> {
    if 0 <= i < ws.len() {
        if ws[i] == 0 {
            Some((crate::models::Recommendation::Proceed, i + 1))
        } else if ws[i] == 1 {
            Some((crate::models::Recommendation::Revise, i + 1))
        } else if ws[i] == 2 {
            Some((crate::models::Recommendation::Reject, i + 1))
        } else {
            None
        }
    } else {
        None
    }
}

proof fn lemma_dec_enc_rec(v: crate::models::Recommendation, ws: Seq<u64>, i: int)
    requires
        0 <= i,
        i + 1 <= ws.len(),
        ws.subrange(i, i + 1) == enc_rec(v),
    ensures
        dec_rec(ws, i) == Some((v, i + 1)),
{
    assert(ws.subrange(i, i + 1)[0] == ws[i]);
}


/// The encoding of the variant as one word.
pub open spec fn enc_ostatus(v: crate::models::OutlineStatus) -> Seq<u64> {
    seq![
        match v {
            crate::models::OutlineStatus::Draft => 0u64,
            crate::models::OutlineStatus::Approved => 1u64,
            crate::models::OutlineStatus::Locked => 2u64,
        },
    ]
}

/// Reads the variant; unknown words are rejected.
pub open spec fn dec_ostatus(ws: Seq<u64>, i: int) -> Option<(crate::models::OutlineStatus, int)> {
    if 0 <= i < ws.len() {
        if ws[i] == 0 {
            Some((crate::models::OutlineStatus::Draft, i + 1))
        } else if ws[i] == 1 {
            Some((crate::models::OutlineStatus::Approved, i + 1))
        } else if ws[i] == 2 {
            Some((crate::models::OutlineStatus::Locked, i + 1))
        } else {
            None
        }
    } else {
        None
    }
}

proof fn lemma_dec_enc_ostatus(v: crate::models::OutlineStatus, ws: Seq<u64>, i: int)
    requires
        0 <= i,
        i + 1 <= ws.len(),
        ws.subrange(i, i + 1) == enc_ostatus(v),
    ensures
        dec_ostatus(ws, i) == Some((v, i + 1)),
{
    assert(ws.subrange(i, i + 1)[0] == ws[i]);
}


/// The encoding of the variant as one word.
pub open spec fn enc_wtype(v: crate::models::WorldType) -> Seq<u64> {
    seq![
        match v {
            crate::models::WorldType::Modern => 0u64,
            crate::models::WorldType::Fantasy => 1u64,
            crate::models::WorldType::Scifi => 2u64,
            crate::models::WorldType::Historical => 3u64,
            crate::models::WorldType::Xianxia => 4u64,
        },
    ]
}

/// Reads the variant; unknown words are rejected.
pub open spec fn dec_wtype(ws: Seq<u64>, i: int) -> Option<(crate::models::WorldType, int)> {
    if 0 <= i < ws.len() {
        if ws[i] == 0 {
            Some((crate::models::WorldType::Modern, i + 1))
        } else if ws[i] == 1 {
            Some((crate::models::WorldType::Fantasy, i + 1))
        } else if ws[i] == 2 {
            Some((crate::models::WorldType::Scifi, i + 1))
        } else if ws[i] == 3 {
            Some((crate::models::WorldType::Historical, i + 1))
        } else if ws[i] == 4 {
            Some((crate::models::WorldType::Xianxia, i + 1))
        } else {
            None
        }
    } else {
        None
    }
}

proof fn lemma_dec_enc_wtype(v: crate::models::WorldType, ws: Seq<u64>, i: int)
    requires
        0 <= i,
        i + 1 <= ws.len(),
        ws.subrange(i, i + 1) == enc_wtype(v),
    ensures
        dec_wtype(ws, i) == Some((v, i + 1)),
{
    assert(ws.subrange(i, i + 1)[0] == ws[i]);
}


/// The encoding of the variant as one word.
pub open spec fn enc_role(v: crate::models::CharacterRole) -> Seq<u64> {
    seq![
        match v {
            crate::models::CharacterRole::Protagonist => 0u64,
            crate::models::CharacterRole::Supporting => 1u64,
            crate::models::CharacterRole::Antagonist => 2u64,
        },
    ]
}

/// Reads the variant; unknown words are rejected.
pub open spec fn dec_role(ws: Seq<u64>, i: int) -> Option<(crate::models::CharacterRole, int)> {
    if 0 <= i < ws.len() {
        if ws[i] == 0 {
            Some((crate::models::CharacterRole::Protagonist, i + 1))
        } else if ws[i] == 1 {
            Some((crate::models::CharacterRole::Supporting, i + 1))
        } else if ws[i] == 2 {
            Some((crate::models::CharacterRole::Antagonist, i + 1))
        } else {
            None
        }
    } else {
        None
    }
}

proof fn lemma_dec_enc_role(v: crate::models::CharacterRole, ws: Seq<u64>, i: int)
    requires
        0 <= i,
        i + 1 <= ws.len(),
        ws.subrange(i, i + 1) == enc_role(v),
    ensures
        dec_role(ws, i) == Some((v, i + 1)),
{
    assert(ws.subrange(i, i + 1)[0] == ws[i]);
}


/// The encoding of the variant as one word.
pub open spec fn enc_importance(v: crate::models::LocationImportance) -> Seq<u64> {
    seq![
        match v {
            crate::models::LocationImportance::Major => 0u64,
            crate::models::LocationImportance::Minor => 1u64,
        },
    ]
}

/// Reads the variant; unknown words are rejected.
pub open spec fn dec_importance(ws: Seq<u64>, i: int) -> Option<(crate::models::LocationImportance, int)> {
    if 0 <= i < ws.len() {
        if ws[i] == 0 {
            Some((crate::models::LocationImportance::Major, i + 1))
        } else if ws[i] == 1 {
            Some((crate::models::LocationImportance::Minor, i + 1))
        } else {
            None
        }
    } else {
        None
    }
}

proof fn lemma_dec_enc_importance(v: crate::models::LocationImportance, ws: Seq<u64>, i: int)
    requires
        0 <= i,
        i + 1 <= ws.len(),
        ws.subrange(i, i + 1) == enc_importance(v),
    ensures
        dec_importance(ws, i) == Some((v, i + 1)),
{
    assert(ws.subrange(i, i + 1)[0] == ws[i]);
}


/// The encoding of the variant as one word.
pub open spec fn enc_category(v: crate::models::SensitiveCategory) -> Seq<u64> {
    seq![
        match v {
            crate::models::SensitiveCategory::Violence => 0u64,
            crate::models::SensitiveCategory::Explicit => 1u64,
            crate::models::SensitiveCategory::Political => 2u64,
            crate::models::SensitiveCategory::Other => 3u64,
        },
    ]
}

/// Reads the variant; unknown words are rejected.
pub open spec fn dec_category(ws: Seq<u64>, i: int) -> Option<(crate::models::SensitiveCategory, int)> {
    if 0 <= i < ws.len() {
        if ws[i] == 0 {
            Some((crate::models::SensitiveCategory::Violence, i + 1))
        } else if ws[i] == 1 {
            Some((crate::models::SensitiveCategory::Explicit, i + 1))
        } else if ws[i] == 2 {
            Some((crate::models::SensitiveCategory::Political, i + 1))
        } else if ws[i] == 3 {
            Some((crate::models::SensitiveCategory::Other, i + 1))
        } else {
            None
        }
    } else {
        None
    }
}

proof fn lemma_dec_enc_category(v: crate::models::SensitiveCategory, ws: Seq<u64>, i: int)
    requires
        0 <= i,
        i + 1 <= ws.len(),
        ws.subrange(i, i + 1) == enc_category(v),
    ensures
        dec_category(ws, i) == Some((v, i + 1)),
{
    assert(ws.subrange(i, i + 1)[0] == ws[i]);
}


/// The encoding of the variant as one word.
pub open spec fn enc_severity(v: crate::models::SensitiveSeverity) -> Seq<u64> {
    seq![
        match v {
            crate::models::SensitiveSeverity::Low => 0u64,
            crate::models::SensitiveSeverity::Medium => 1u64,
            crate::models::SensitiveSeverity::High => 2u64,
        },
    ]
}

/// Reads the variant; unknown words are rejected.
pub open spec fn dec_severity(ws: Seq<u64>, i: int) -> Option<(crate::models::SensitiveSeverity, int)> {
    if 0 <= i < ws.len() {
        if ws[i] == 0 {
            Some((crate::models::SensitiveSeverity::Low, i + 1))
        } else if ws[i] == 1 {
            Some((crate::models::SensitiveSeverity::Medium, i + 1))
        } else if ws[i] == 2 {
            Some((crate::models::SensitiveSeverity::High, i + 1))
        } else {
            None
        }
    } else {
        None
    }
}

proof fn lemma_dec_enc_severity(v: crate::models::SensitiveSeverity, ws: Seq<u64>, i: int)
    requires
        0 <= i,
        i + 1 <= ws.len(),
        ws.subrange(i, i + 1) == enc_severity(v),
    ensures
        dec_severity(ws, i) == Some((v, i + 1)),
{
    assert(ws.subrange(i, i + 1)[0] == ws[i]);
}


/// The encoding of an optional 32-bit value: an absence flag, then the value.
pub open spec fn enc_opt_u32(o: Option<u32>) -> Seq<u64> {
    match o {
        None => seq![0u64],
        Some(x) => seq![1u64] + enc_u32(x),
    }
}

pub open spec fn valid_opt_u32(o: Option<u32>) -> bool {
    match o {
        None => true,
        Some(x) => true,
    }
}

/// Reads an optional 32-bit value.
pub open spec fn dec_opt_u32(ws: Seq<u64>, i: int) -> Option<(Option<u32>, int)> {
    if 0 <= i < ws.len() {
        if ws[i] == 0 {
            Some((None, i + 1))
        } else if ws[i] == 1 {
            match dec_u32(ws, i + 1) {
                Some((x, j)) => Some((Some(x), j)),
                None => None,
            }
        } else {
            None
        }
    } else {
        None
    }
}

proof fn lemma_dec_enc_opt_u32(o: Option<u32>, ws: Seq<u64>, i: int)
    requires
        0 <= i,
        valid_opt_u32(o),
        i + enc_opt_u32(o).len() <= ws.len(),
        ws.subrange(i, i + enc_opt_u32(o).len() as int) == enc_opt_u32(o),
    ensures
        dec_opt_u32(ws, i) == Some((o, i + enc_opt_u32(o).len())),
{
    let e = enc_opt_u32(o);
    assert(ws.subrange(i, i + e.len() as int)[0] == ws[i]);
    match o {
        None => {},
        Some(x) => {
            assert(e.subrange(1, 1 + enc_u32(x).len() as int) =~= enc_u32(x));
            lemma_sub_window(ws, i, e, 1, enc_u32(x));
            lemma_dec_enc_u32(x, ws, i + 1);
        },
    }
}


/// The plain view of a character moment.
pub struct CharacterMomentV {
    pub chapter: u32,
    pub description: Seq<char>,
    pub development: Seq<char>,
}

/// The encoding of the record: each field in order.
pub open spec fn enc_moment(v: CharacterMomentV) -> Seq<u64> {
    enc_u32(v.chapter) + (enc_str(v.description) + enc_str(v.development))
}

/// The record round-trips when each field does.
pub open spec fn valid_moment(v: CharacterMomentV) -> bool {
    valid_str(v.description) && valid_str(v.development)
}

/// Reads the record, each field in order.
pub open spec fn dec_moment(ws: Seq<u64>, i: int) -> Option<(CharacterMomentV, int)> {
    match dec_u32(ws, i) {
        None => None,
        Some((f_chapter, i_0)) =>     match dec_str(ws, i_0) {
        None => None,
        Some((f_description, i_1)) =>     match dec_str(ws, i_1) {
        None => None,
        Some((f_development, i_2)) => Some(((CharacterMomentV { chapter: f_chapter, description: f_description, development: f_development }), i_2)),
    }
    }
    }
}

proof fn lemma_dec_enc_moment(v: CharacterMomentV, ws: Seq<u64>, i: int)
    requires
        0 <= i,
        valid_moment(v),
        i + enc_moment(v).len() <= ws.len(),
        ws.subrange(i, i + enc_moment(v).len() as int) == enc_moment(v),
    ensures
        dec_moment(ws, i) == Some((v, i + enc_moment(v).len())),
{
    let e = enc_moment(v);
    let pos_0: int = i;
    assert(ws.subrange(pos_0, pos_0 + e.len() as int) == e);
    let a_0 = enc_u32(v.chapter);
    let b_0 = enc_str(v.description) + enc_str(v.development);
    lemma_split_window(ws, pos_0, a_0, b_0);
    lemma_dec_enc_u32(v.chapter, ws, pos_0);
    let pos_1: int = pos_0 + a_0.len() as int;
    let a_1 = enc_str(v.description);
    let b_1 = enc_str(v.development);
    lemma_split_window(ws, pos_1, a_1, b_1);
    lemma_dec_enc_str(v.description, ws, pos_1);
    let pos_2: int = pos_1 + a_1.len() as int;
    lemma_dec_enc_str(v.development, ws, pos_2);
}


/// The encodings of the listed character moments, in order.
pub open spec fn enc_moments_items(items: Seq<CharacterMomentV>) -> Seq<u64>
    decreases items.len(),
{
    if items.len() == 0 {
        Seq::empty()
    } else {
        enc_moment(items[0]) + enc_moments_items(items.drop_first())
    }
}

/// The encoding of the list: its length, then each item.
pub open spec fn enc_moments(items: Seq<CharacterMomentV>) -> Seq<u64> {
    seq![items.len() as u64] + enc_moments_items(items)
}

/// The list round-trips when its length fits one word and each item
/// round-trips.
pub open spec fn valid_moments(items: Seq<CharacterMomentV>) -> bool {
    items.len() <= u64::MAX && (forall|j: int| 0 <= j < items.len() ==> valid_moment(#[trigger] items[j]))
}

/// Reads `count` items in order.
pub open spec fn dec_moments_items(ws: Seq<u64>, i: int, count: nat) -> Option<(Seq<CharacterMomentV>, int)>
    decreases count,
{
    if count == 0 {
        Some((Seq::empty(), i))
    } else {
        match dec_moment(ws, i) {
            Some((x, j)) => match dec_moments_items(ws, j, (count - 1) as nat) {
                Some((rest, k)) => Some((seq![x] + rest, k)),
                None => None,
            },
            None => None,
        }
    }
}

/// Reads the list.
pub open spec fn dec_moments(ws: Seq<u64>, i: int) -> Option<(Seq<CharacterMomentV>, int)> {
    match dec_u64(ws, i) {
        Some((n, j)) => dec_moments_items(ws, j, n as nat),
        None => None,
    }
}

proof fn lemma_dec_enc_moments_items(items: Seq<CharacterMomentV>, ws: Seq<u64>, i: int)
    requires
        0 <= i,
        forall|j: int| 0 <= j < items.len() ==> valid_moment(#[trigger] items[j]),
        i + enc_moments_items(items).len() <= ws.len(),
        ws.subrange(i, i + enc_moments_items(items).len() as int) == enc_moments_items(items),
    ensures
        dec_moments_items(ws, i, items.len()) == Some((items, i + enc_moments_items(items).len())),
    decreases items.len(),
{
    if items.len() == 0 {
        assert(items =~= Seq::<CharacterMomentV>::empty());
    } else {
        let e = enc_moments_items(items);
        let e0 = enc_moment(items[0]);
        let rest = enc_moments_items(items.drop_first());
        assert(e.subrange(0, e0.len() as int) =~= e0);
        lemma_sub_window(ws, i, e, 0, e0);
        lemma_dec_enc_moment(items[0], ws, i);
        assert(e.subrange(e0.len() as int, e0.len() + rest.len() as int) =~= rest);
        lemma_sub_window(ws, i, e, e0.len() as int, rest);
        lemma_dec_enc_moments_items(items.drop_first(), ws, i + e0.len());
        assert(seq![items[0]] + items.drop_first() =~= items);
    }
}

proof fn lemma_dec_enc_moments(items: Seq<CharacterMomentV>, ws: Seq<u64>, i: int)
    requires
        0 <= i,
        valid_moments(items),
        i + enc_moments(items).len() <= ws.len(),
        ws.subrange(i, i + enc_moments(items).len() as int) == enc_moments(items),
    ensures
        dec_moments(ws, i) == Some((items, i + enc_moments(items).len())),
{
    let e = enc_moments(items);
    assert(ws.subrange(i, i + e.len() as int)[0] == ws[i]);
    assert(e.subrange(1, 1 + enc_moments_items(items).len() as int) =~= enc_moments_items(
        items,
    ));
    lemma_sub_window(ws, i, e, 1, enc_moments_items(items));
    lemma_dec_enc_moments_items(items, ws, i + 1);
}


/// The plain view of a plot arc.
pub struct PlotArcV {
    pub id: u128,
    pub name: Seq<char>,
    pub start_chapter: u32,
    pub end_chapter: u32,
    pub summary: Seq<char>,
    pub key_events: Seq<Seq<char>>,
    pub climax: Seq<char>,
}

/// The encoding of the record: each field in order.
pub open spec fn enc_arc(v: PlotArcV) -> Seq<u64> {
    enc_u128(v.id) + (enc_str(v.name) + (enc_u32(v.start_chapter) + (enc_u32(v.end_chapter) + (enc_str(v.summary) + (enc_strs(v.key_events) + enc_str(v.climax))))))
}

/// The record round-trips when each field does.
pub open spec fn valid_arc(v: PlotArcV) -> bool {
    valid_str(v.name) && valid_str(v.summary) && valid_strs(v.key_events) && valid_str(v.climax)
}

/// Reads the record, each field in order.
pub open spec fn dec_arc(ws: Seq<u64>, i: int) -> Option<(PlotArcV, int)> {
    match dec_u128(ws, i) {
        None => None,
        Some((f_id, i_0)) =>     match dec_str(ws, i_0) {
        None => None,
        Some((f_name, i_1)) =>     match dec_u32(ws, i_1) {
        None => None,
        Some((f_start_chapter, i_2)) =>     match dec_u32(ws, i_2) {
        None => None,
        Some((f_end_chapter, i_3)) =>     match dec_str(ws, i_3) {
        None => None,
        Some((f_summary, i_4)) =>     match dec_strs(ws, i_4) {
        None => None,
        Some((f_key_events, i_5)) =>     match dec_str(ws, i_5) {
        None => None,
        Some((f_climax, i_6)) => Some(((PlotArcV { id: f_id, name: f_name, start_chapter: f_start_chapter, end_chapter: f_end_chapter, summary: f_summary, key_events: f_key_events, climax: f_climax }), i_6)),
    }
    }
    }
    }
    }
    }
    }
}

proof fn lemma_dec_enc_arc(v: PlotArcV, ws: Seq<u64>, i: int)
    requires
        0 <= i,
        valid_arc(v),
        i + enc_arc(v).len() <= ws.len(),
        ws.subrange(i, i + enc_arc(v).len() as int) == enc_arc(v),
    ensures
        dec_arc(ws, i) == Some((v, i + enc_arc(v).len())),
{
    let e = enc_arc(v);
    let pos_0: int = i;
    assert(ws.subrange(pos_0, pos_0 + e.len() as int) == e);
    let a_0 = enc_u128(v.id);
    let b_0 = enc_str(v.name) + (enc_u32(v.start_chapter) + (enc_u32(v.end_chapter) + (enc_str(v.summary) + (enc_strs(v.key_events) + enc_str(v.climax)))));
    lemma_split_window(ws, pos_0, a_0, b_0);
    lemma_dec_enc_u128(v.id, ws, pos_0);
    let pos_1: int = pos_0 + a_0.len() as int;
    let a_1 = enc_str(v.name);
    let b_1 = enc_u32(v.start_chapter) + (enc_u32(v.end_chapter) + (enc_str(v.summary) + (enc_strs(v.key_events) + enc_str(v.climax))));
    lemma_split_window(ws, pos_1, a_1, b_1);
    lemma_dec_enc_str(v.name, ws, pos_1);
    let pos_2: int = pos_1 + a_1.len() as int;
    let a_2 = enc_u32(v.start_chapter);
    let b_2 = enc_u32(v.end_chapter) + (enc_str(v.summary) + (enc_strs(v.key_events) + enc_str(v.climax)));
    lemma_split_window(ws, pos_2, a_2, b_2);
    lemma_dec_enc_u32(v.start_chapter, ws, pos_2);
    let pos_3: int = pos_2 + a_2.len() as int;
    let a_3 = enc_u32(v.end_chapter);
    let b_3 = enc_str(v.summary) + (enc_strs(v.key_events) + enc_str(v.climax));
    lemma_split_window(ws, pos_3, a_3, b_3);
    lemma_dec_enc_u32(v.end_chapter, ws, pos_3);
    let pos_4: int = pos_3 + a_3.len() as int;
    let a_4 = enc_str(v.summary);
    let b_4 = enc_strs(v.key_events) + enc_str(v.climax);
    lemma_split_window(ws, pos_4, a_4, b_4);
    lemma_dec_enc_str(v.summary, ws, pos_4);
    let pos_5: int = pos_4 + a_4.len() as int;
    let a_5 = enc_strs(v.key_events);
    let b_5 = enc_str(v.climax);
    lemma_split_window(ws, pos_5, a_5, b_5);
    lemma_dec_enc_strs(v.key_events, ws, pos_5);
    let pos_6: int = pos_5 + a_5.len() as int;
    lemma_dec_enc_str(v.climax, ws, pos_6);
}


/// The encodings of the listed plot arcs, in order.
pub open spec fn enc_arcs_items(items: Seq<PlotArcV>) -> Seq<u64>
    decreases items.len(),
{
    if items.len() == 0 {
        Seq::empty()
    } else {
        enc_arc(items[0]) + enc_arcs_items(items.drop_first())
    }
}

/// The encoding of the list: its length, then each item.
pub open spec fn enc_arcs(items: Seq<PlotArcV>) -> Seq<u64> {
    seq![items.len() as u64] + enc_arcs_items(items)
}

/// The list round-trips when its length fits one word and each item
/// round-trips.
pub open spec fn valid_arcs(items: Seq<PlotArcV>) -> bool {
    items.len() <= u64::MAX && (forall|j: int| 0 <= j < items.len() ==> valid_arc(#[trigger] items[j]))
}

/// Reads `count` items in order.
pub open spec fn dec_arcs_items(ws: Seq<u64>, i: int, count: nat) -> Option<(Seq<PlotArcV>, int)>
    decreases count,
{
    if count == 0 {
        Some((Seq::empty(), i))
    } else {
        match dec_arc(ws, i) {
            Some((x, j)) => match dec_arcs_items(ws, j, (count - 1) as nat) {
                Some((rest, k)) => Some((seq![x] + rest, k)),
                None => None,
            },
            None => None,
        }
    }
}

/// Reads the list.
pub open spec fn dec_arcs(ws: Seq<u64>, i: int) -> Option<(Seq<PlotArcV>, int)> {
    match dec_u64(ws, i) {
        Some((n, j)) => dec_arcs_items(ws, j, n as nat),
        None => None,
    }
}

proof fn lemma_dec_enc_arcs_items(items: Seq<PlotArcV>, ws: Seq<u64>, i: int)
    requires
        0 <= i,
        forall|j: int| 0 <= j < items.len() ==> valid_arc(#[trigger] items[j]),
        i + enc_arcs_items(items).len() <= ws.len(),
        ws.subrange(i, i + enc_arcs_items(items).len() as int) == enc_arcs_items(items),
    ensures
        dec_arcs_items(ws, i, items.len()) == Some((items, i + enc_arcs_items(items).len())),
    decreases items.len(),
{
    if items.len() == 0 {
        assert(items =~= Seq::<PlotArcV>::empty());
    } else {
        let e = enc_arcs_items(items);
        let e0 = enc_arc(items[0]);
        let rest = enc_arcs_items(items.drop_first());
        assert(e.subrange(0, e0.len() as int) =~= e0);
        lemma_sub_window(ws, i, e, 0, e0);
        lemma_dec_enc_arc(items[0], ws, i);
        assert(e.subrange(e0.len() as int, e0.len() + rest.len() as int) =~= rest);
        lemma_sub_window(ws, i, e, e0.len() as int, rest);
        lemma_dec_enc_arcs_items(items.drop_first(), ws, i + e0.len());
        assert(seq![items[0]] + items.drop_first() =~= items);
    }
}

proof fn lemma_dec_enc_arcs(items: Seq<PlotArcV>, ws: Seq<u64>, i: int)
    requires
        0 <= i,
        valid_arcs(items),
        i + enc_arcs(items).len() <= ws.len(),
        ws.subrange(i, i + enc_arcs(items).len() as int) == enc_arcs(items),
    ensures
        dec_arcs(ws, i) == Some((items, i + enc_arcs(items).len())),
{
    let e = enc_arcs(items);
    assert(ws.subrange(i, i + e.len() as int)[0] == ws[i]);
    assert(e.subrange(1, 1 + enc_arcs_items(items).len() as int) =~= enc_arcs_items(
        items,
    ));
    lemma_sub_window(ws, i, e, 1, enc_arcs_items(items));
    lemma_dec_enc_arcs_items(items, ws, i + 1);
}


/// The plain view of a character arc.
pub struct CharacterArcV {
    pub id: u128,
    pub name: Seq<char>,
    pub role: crate::models::CharacterRole,
    pub description: Seq<char>,
    pub personality_traits: Seq<Seq<char>>,
    pub arc_description: Seq<char>,
    pub key_moments: Seq<CharacterMomentV>,
}

/// The encoding of the record: each field in order.
pub open spec fn enc_charv(v: CharacterArcV) -> Seq<u64> {
    enc_u128(v.id) + (enc_str(v.name) + (enc_role(v.role) + (enc_str(v.description) + (enc_strs(v.personality_traits) + (enc_str(v.arc_description) + enc_moments(v.key_moments))))))
}

/// The record round-trips when each field does.
pub open spec fn valid_charv(v: CharacterArcV) -> bool {
    valid_str(v.name) && valid_str(v.description) && valid_strs(v.personality_traits) && valid_str(v.arc_description) && valid_moments(v.key_moments)
}

/// Reads the record, each field in order.
pub open spec fn dec_charv(ws: Seq<u64>, i: int) -> Option<(CharacterArcV, int)> {
    match dec_u128(ws, i) {
        None => None,
        Some((f_id, i_0)) =>     match dec_str(ws, i_0) {
        None => None,
        Some((f_name, i_1)) =>     match dec_role(ws, i_1) {
        None => None,
        Some((f_role, i_2)) =>     match dec_str(ws, i_2) {
        None => None,
        Some((f_description, i_3)) =>     match dec_strs(ws, i_3) {
        None => None,
        Some((f_personality_traits, i_4)) =>     match dec_str(ws, i_4) {
        None => None,
        Some((f_arc_description, i_5)) =>     match dec_moments(ws, i_5) {
        None => None,
        Some((f_key_moments, i_6)) => Some(((CharacterArcV { id: f_id, name: f_name, role: f_role, description: f_description, personality_traits: f_personality_traits, arc_description: f_arc_description, key_moments: f_key_moments }), i_6)),
    }
    }
    }
    }
    }
    }
    }
}

proof fn lemma_dec_enc_charv(v: CharacterArcV, ws: Seq<u64>, i: int)
    requires
        0 <= i,
        valid_charv(v),
        i + enc_charv(v).len() <= ws.len(),
        ws.subrange(i, i + enc_charv(v).len() as int) == enc_charv(v),
    ensures
        dec_charv(ws, i) == Some((v, i + enc_charv(v).len())),
{
    let e = enc_charv(v);
    let pos_0: int = i;
    assert(ws.subrange(pos_0, pos_0 + e.len() as int) == e);
    let a_0 = enc_u128(v.id);
    let b_0 = enc_str(v.name) + (enc_role(v.role) + (enc_str(v.description) + (enc_strs(v.personality_traits) + (enc_str(v.arc_description) + enc_moments(v.key_moments)))));
    lemma_split_window(ws, pos_0, a_0, b_0);
    lemma_dec_enc_u128(v.id, ws, pos_0);
    let pos_1: int = pos_0 + a_0.len() as int;
    let a_1 = enc_str(v.name);
    let b_1 = enc_role(v.role) + (enc_str(v.description) + (enc_strs(v.personality_traits) + (enc_str(v.arc_description) + enc_moments(v.key_moments))));
    lemma_split_window(ws, pos_1, a_1, b_1);
    lemma_dec_enc_str(v.name, ws, pos_1);
    let pos_2: int = pos_1 + a_1.len() as int;
    let a_2 = enc_role(v.role);
    let b_2 = enc_str(v.description) + (enc_strs(v.personality_traits) + (enc_str(v.arc_description) + enc_moments(v.key_moments)));
    lemma_split_window(ws, pos_2, a_2, b_2);
    lemma_dec_enc_role(v.role, ws, pos_2);
    let pos_3: int = pos_2 + a_2.len() as int;
    let a_3 = enc_str(v.description);
    let b_3 = enc_strs(v.personality_traits) + (enc_str(v.arc_description) + enc_moments(v.key_moments));
    lemma_split_window(ws, pos_3, a_3, b_3);
    lemma_dec_enc_str(v.description, ws, pos_3);
    let pos_4: int = pos_3 + a_3.len() as int;
    let a_4 = enc_strs(v.personality_traits);
    let b_4 = enc_str(v.arc_description) + enc_moments(v.key_moments);
    lemma_split_window(ws, pos_4, a_4, b_4);
    lemma_dec_enc_strs(v.personality_traits, ws, pos_4);
    let pos_5: int = pos_4 + a_4.len() as int;
    let a_5 = enc_str(v.arc_description);
    let b_5 = enc_moments(v.key_moments);
    lemma_split_window(ws, pos_5, a_5, b_5);
    lemma_dec_enc_str(v.arc_description, ws, pos_5);
    let pos_6: int = pos_5 + a_5.len() as int;
    lemma_dec_enc_moments(v.key_moments, ws, pos_6);
}


/// The encodings of the listed character arcs, in order.
pub open spec fn enc_chars_items(items: Seq<CharacterArcV>) -> Seq<u64>
    decreases items.len(),
{
    if items.len() == 0 {
        Seq::empty()
    } else {
        enc_charv(items[0]) + enc_chars_items(items.drop_first())
    }
}

/// The encoding of the list: its length, then each item.
pub open spec fn enc_chars(items: Seq<CharacterArcV>) -> Seq<u64> {
    seq![items.len() as u64] + enc_chars_items(items)
}

/// The list round-trips when its length fits one word and each item
/// round-trips.
pub open spec fn valid_chars(items: Seq<CharacterArcV>) -> bool {
    items.len() <= u64::MAX && (forall|j: int| 0 <= j < items.len() ==> valid_charv(#[trigger] items[j]))
}

/// Reads `count` items in order.
pub open spec fn dec_chars_items(ws: Seq<u64>, i: int, count: nat) -> Option<(Seq<CharacterArcV>, int)>
    decreases count,
{
    if count == 0 {
        Some((Seq::empty(), i))
    } else {
        match dec_charv(ws, i) {
            Some((x, j)) => match dec_chars_items(ws, j, (count - 1) as nat) {
                Some((rest, k)) => Some((seq![x] + rest, k)),
                None => None,
            },
            None => None,
        }
    }
}

/// Reads the list.
pub open spec fn dec_chars(ws: Seq<u64>, i: int) -> Option<(Seq<CharacterArcV>, int)> {
    match dec_u64(ws, i) {
        Some((n, j)) => dec_chars_items(ws, j, n as nat),
        None => None,
    }
}

proof fn lemma_dec_enc_chars_items(items: Seq<CharacterArcV>, ws: Seq<u64>, i: int)
    requires
        0 <= i,
        forall|j: int| 0 <= j < items.len() ==> valid_charv(#[trigger] items[j]),
        i + enc_chars_items(items).len() <= ws.len(),
        ws.subrange(i, i + enc_chars_items(items).len() as int) == enc_chars_items(items),
    ensures
        dec_chars_items(ws, i, items.len()) == Some((items, i + enc_chars_items(items).len())),
    decreases items.len(),
{
    if items.len() == 0 {
        assert(items =~= Seq::<CharacterArcV>::empty());
    } else {
        let e = enc_chars_items(items);
        let e0 = enc_charv(items[0]);
        let rest = enc_chars_items(items.drop_first());
        assert(e.subrange(0, e0.len() as int) =~= e0);
        lemma_sub_window(ws, i, e, 0, e0);
        lemma_dec_enc_charv(items[0], ws, i);
        assert(e.subrange(e0.len() as int, e0.len() + rest.len() as int) =~= rest);
        lemma_sub_window(ws, i, e, e0.len() as int, rest);
        lemma_dec_enc_chars_items(items.drop_first(), ws, i + e0.len());
        assert(seq![items[0]] + items.drop_first() =~= items);
    }
}

proof fn lemma_dec_enc_chars(items: Seq<CharacterArcV>, ws: Seq<u64>, i: int)
    requires
        0 <= i,
        valid_chars(items),
        i + enc_chars(items).len() <= ws.len(),
        ws.subrange(i, i + enc_chars(items).len() as int) == enc_chars(items),
    ensures
        dec_chars(ws, i) == Some((items, i + enc_chars(items).len())),
{
    let e = enc_chars(items);
    assert(ws.subrange(i, i + e.len() as int)[0] == ws[i]);
    assert(e.subrange(1, 1 + enc_chars_items(items).len() as int) =~= enc_chars_items(
        items,
    ));
    lemma_sub_window(ws, i, e, 1, enc_chars_items(items));
    lemma_dec_enc_chars_items(items, ws, i + 1);
}


/// The plain view of a location.
pub struct LocationV {
    pub name: Seq<char>,
    pub description: Seq<char>,
    pub importance: crate::models::LocationImportance,
}

/// The encoding of the record: each field in order.
pub open spec fn enc_loc(v: LocationV) -> Seq<u64> {
    enc_str(v.name) + (enc_str(v.description) + enc_importance(v.importance))
}

/// The record round-trips when each field does.
pub open spec fn valid_loc(v: LocationV) -> bool {
    valid_str(v.name) && valid_str(v.description)
}

/// Reads the record, each field in order.
pub open spec fn dec_loc(ws: Seq<u64>, i: int) -> Option<(LocationV, int)> {
    match dec_str(ws, i) {
        None => None,
        Some((f_name, i_0)) =>     match dec_str(ws, i_0) {
        None => None,
        Some((f_description, i_1)) =>     match dec_importance(ws, i_1) {
        None => None,
        Some((f_importance, i_2)) => Some(((LocationV { name: f_name, description: f_description, importance: f_importance }), i_2)),
    }
    }
    }
}

proof fn lemma_dec_enc_loc(v: LocationV, ws: Seq<u64>, i: int)
    requires
        0 <= i,
        valid_loc(v),
        i + enc_loc(v).len() <= ws.len(),
        ws.subrange(i, i + enc_loc(v).len() as int) == enc_loc(v),
    ensures
        dec_loc(ws, i) == Some((v, i + enc_loc(v).len())),
{
    let e = enc_loc(v);
    let pos_0: int = i;
    assert(ws.subrange(pos_0, pos_0 + e.len() as int) == e);
    let a_0 = enc_str(v.name);
    let b_0 = enc_str(v.description) + enc_importance(v.importance);
    lemma_split_window(ws, pos_0, a_0, b_0);
    lemma_dec_enc_str(v.name, ws, pos_0);
    let pos_1: int = pos_0 + a_0.len() as int;
    let a_1 = enc_str(v.description);
    let b_1 = enc_importance(v.importance);
    lemma_split_window(ws, pos_1, a_1, b_1);
    lemma_dec_enc_str(v.description, ws, pos_1);
    let pos_2: int = pos_1 + a_1.len() as int;
    lemma_dec_enc_importance(v.importance, ws, pos_2);
}


/// The encodings of the listed locations, in order.
pub open spec fn enc_locs_items(items: Seq<LocationV>) -> Seq<u64>
    decreases items.len(),
{
    if items.len() == 0 {
        Seq::empty()
    } else {
        enc_loc(items[0]) + enc_locs_items(items.drop_first())
    }
}

/// The encoding of the list: its length, then each item.
pub open spec fn enc_locs(items: Seq<LocationV>) -> Seq<u64> {
    seq![items.len() as u64] + enc_locs_items(items)
}

/// The list round-trips when its length fits one word and each item
/// round-trips.
pub open spec fn valid_locs(items: Seq<LocationV>) -> bool {
    items.len() <= u64::MAX && (forall|j: int| 0 <= j < items.len() ==> valid_loc(#[trigger] items[j]))
}

/// Reads `count` items in order.
pub open spec fn dec_locs_items(ws: Seq<u64>, i: int, count: nat) -> Option<(Seq<LocationV>, int)>
    decreases count,
{
    if count == 0 {
        Some((Seq::empty(), i))
    } else {
        match dec_loc(ws, i) {
            Some((x, j)) => match dec_locs_items(ws, j, (count - 1) as nat) {
                Some((rest, k)) => Some((seq![x] + rest, k)),
                None => None,
            },
            None => None,
        }
    }
}

/// Reads the list.
pub open spec fn dec_locs(ws: Seq<u64>, i: int) -> Option<(Seq<LocationV>, int)> {
    match dec_u64(ws, i) {
        Some((n, j)) => dec_locs_items(ws, j, n as nat),
        None => None,
    }
}

proof fn lemma_dec_enc_locs_items(items: Seq<LocationV>, ws: Seq<u64>, i: int)
    requires
        0 <= i,
        forall|j: int| 0 <= j < items.len() ==> valid_loc(#[trigger] items[j]),
        i + enc_locs_items(items).len() <= ws.len(),
        ws.subrange(i, i + enc_locs_items(items).len() as int) == enc_locs_items(items),
    ensures
        dec_locs_items(ws, i, items.len()) == Some((items, i + enc_locs_items(items).len())),
    decreases items.len(),
{
    if items.len() == 0 {
        assert(items =~= Seq::<LocationV>::empty());
    } else {
        let e = enc_locs_items(items);
        let e0 = enc_loc(items[0]);
        let rest = enc_locs_items(items.drop_first());
        assert(e.subrange(0, e0.len() as int) =~= e0);
        lemma_sub_window(ws, i, e, 0, e0);
        lemma_dec_enc_loc(items[0], ws, i);
        assert(e.subrange(e0.len() as int, e0.len() + rest.len() as int) =~= rest);
        lemma_sub_window(ws, i, e, e0.len() as int, rest);
        lemma_dec_enc_locs_items(items.drop_first(), ws, i + e0.len());
        assert(seq![items[0]] + items.drop_first() =~= items);
    }
}

proof fn lemma_dec_enc_locs(items: Seq<LocationV>, ws: Seq<u64>, i: int)
    requires
        0 <= i,
        valid_locs(items),
        i + enc_locs(items).len() <= ws.len(),
        ws.subrange(i, i + enc_locs(items).len() as int) == enc_locs(items),
    ensures
        dec_locs(ws, i) == Some((items, i + enc_locs(items).len())),
{
    let e = enc_locs(items);
    assert(ws.subrange(i, i + e.len() as int)[0] == ws[i]);
    assert(e.subrange(1, 1 + enc_locs_items(items).len() as int) =~= enc_locs_items(
        items,
    ));
    lemma_sub_window(ws, i, e, 1, enc_locs_items(items));
    lemma_dec_enc_locs_items(items, ws, i + 1);
}


/// The plain view of world settings.
pub struct WorldSettingsV {
    pub name: Seq<char>,
    pub world_type: crate::models::WorldType,
    pub description: Seq<char>,
    pub rules: Seq<Seq<char>>,
    pub locations: Seq<LocationV>,
}

/// The encoding of the record: each field in order.
pub open spec fn enc_world(v: WorldSettingsV) -> Seq<u64> {
    enc_str(v.name) + (enc_wtype(v.world_type) + (enc_str(v.description) + (enc_strs(v.rules) + enc_locs(v.locations))))
}

/// The record round-trips when each field does.
pub open spec fn valid_world(v: WorldSettingsV) -> bool {
    valid_str(v.name) && valid_str(v.description) && valid_strs(v.rules) && valid_locs(v.locations)
}

/// Reads the record, each field in order.
pub open spec fn dec_world(ws: Seq<u64>, i: int) -> Option<(WorldSettingsV, int)> {
    match dec_str(ws, i) {
        None => None,
        Some((f_name, i_0)) =>     match dec_wtype(ws, i_0) {
        None => None,
        Some((f_world_type, i_1)) =>     match dec_str(ws, i_1) {
        None => None,
        Some((f_description, i_2)) =>     match dec_strs(ws, i_2) {
        None => None,
        Some((f_rules, i_3)) =>     match dec_locs(ws, i_3) {
        None => None,
        Some((f_locations, i_4)) => Some(((WorldSettingsV { name: f_name, world_type: f_world_type, description: f_description, rules: f_rules, locations: f_locations }), i_4)),
    }
    }
    }
    }
    }
}

proof fn lemma_dec_enc_world(v: WorldSettingsV, ws: Seq<u64>, i: int)
    requires
        0 <= i,
        valid_world(v),
        i + enc_world(v).len() <= ws.len(),
        ws.subrange(i, i + enc_world(v).len() as int) == enc_world(v),
    ensures
        dec_world(ws, i) == Some((v, i + enc_world(v).len())),
{
    let e = enc_world(v);
    let pos_0: int = i;
    assert(ws.subrange(pos_0, pos_0 + e.len() as int) == e);
    let a_0 = enc_str(v.name);
    let b_0 = enc_wtype(v.world_type) + (enc_str(v.description) + (enc_strs(v.rules) + enc_locs(v.locations)));
    lemma_split_window(ws, pos_0, a_0, b_0);
    lemma_dec_enc_str(v.name, ws, pos_0);
    let pos_1: int = pos_0 + a_0.len() as int;
    let a_1 = enc_wtype(v.world_type);
    let b_1 = enc_str(v.description) + (enc_strs(v.rules) + enc_locs(v.locations));
    lemma_split_window(ws, pos_1, a_1, b_1);
    lemma_dec_enc_wtype(v.world_type, ws, pos_1);
    let pos_2: int = pos_1 + a_1.len() as int;
    let a_2 = enc_str(v.description);
    let b_2 = enc_strs(v.rules) + enc_locs(v.locations);
    lemma_split_window(ws, pos_2, a_2, b_2);
    lemma_dec_enc_str(v.description, ws, pos_2);
    let pos_3: int = pos_2 + a_2.len() as int;
    let a_3 = enc_strs(v.rules);
    let b_3 = enc_locs(v.locations);
    lemma_split_window(ws, pos_3, a_3, b_3);
    lemma_dec_enc_strs(v.rules, ws, pos_3);
    let pos_4: int = pos_3 + a_3.len() as int;
    lemma_dec_enc_locs(v.locations, ws, pos_4);
}


/// The plain view of a sensitive-content issue.
pub struct SensitiveContentIssueV {
    pub category: crate::models::SensitiveCategory,
    pub description: Seq<char>,
    pub severity: crate::models::SensitiveSeverity,
    pub suggestion: Seq<char>,
}

/// The encoding of the record: each field in order.
pub open spec fn enc_issue(v: SensitiveContentIssueV) -> Seq<u64> {
    enc_category(v.category) + (enc_str(v.description) + (enc_severity(v.severity) + enc_str(v.suggestion)))
}

/// The record round-trips when each field does.
pub open spec fn valid_issue(v: SensitiveContentIssueV) -> bool {
    valid_str(v.description) && valid_str(v.suggestion)
}

/// Reads the record, each field in order.
pub open spec fn dec_issue(ws: Seq<u64>, i: int) -> Option<(SensitiveContentIssueV, int)> {
    match dec_category(ws, i) {
        None => None,
        Some((f_category, i_0)) =>     match dec_str(ws, i_0) {
        None => None,
        Some((f_description, i_1)) =>     match dec_severity(ws, i_1) {
        None => None,
        Some((f_severity, i_2)) =>     match dec_str(ws, i_2) {
        None => None,
        Some((f_suggestion, i_3)) => Some(((SensitiveContentIssueV { category: f_category, description: f_description, severity: f_severity, suggestion: f_suggestion }), i_3)),
    }
    }
    }
    }
}

proof fn lemma_dec_enc_issue(v: SensitiveContentIssueV, ws: Seq<u64>, i: int)
    requires
        0 <= i,
        valid_issue(v),
        i + enc_issue(v).len() <= ws.len(),
        ws.subrange(i, i + enc_issue(v).len() as int) == enc_issue(v),
    ensures
        dec_issue(ws, i) == Some((v, i + enc_issue(v).len())),
{
    let e = enc_issue(v);
    let pos_0: int = i;
    assert(ws.subrange(pos_0, pos_0 + e.len() as int) == e);
    let a_0 = enc_category(v.category);
    let b_0 = enc_str(v.description) + (enc_severity(v.severity) + enc_str(v.suggestion));
    lemma_split_window(ws, pos_0, a_0, b_0);
    lemma_dec_enc_category(v.category, ws, pos_0);
    let pos_1: int = pos_0 + a_0.len() as int;
    let a_1 = enc_str(v.description);
    let b_1 = enc_severity(v.severity) + enc_str(v.suggestion);
    lemma_split_window(ws, pos_1, a_1, b_1);
    lemma_dec_enc_str(v.description, ws, pos_1);
    let pos_2: int = pos_1 + a_1.len() as int;
    let a_2 = enc_severity(v.severity);
    let b_2 = enc_str(v.suggestion);
    lemma_split_window(ws, pos_2, a_2, b_2);
    lemma_dec_enc_severity(v.severity, ws, pos_2);
    let pos_3: int = pos_2 + a_2.len() as int;
    lemma_dec_enc_str(v.suggestion, ws, pos_3);
}


/// The encodings of the listed issues, in order.
pub open spec fn enc_issues_items(items: Seq<SensitiveContentIssueV>) -> Seq<u64>
    decreases items.len(),
{
    if items.len() == 0 {
        Seq::empty()
    } else {
        enc_issue(items[0]) + enc_issues_items(items.drop_first())
    }
}

/// The encoding of the list: its length, then each item.
pub open spec fn enc_issues(items: Seq<SensitiveContentIssueV>) -> Seq<u64> {
    seq![items.len() as u64] + enc_issues_items(items)
}

/// The list round-trips when its length fits one word and each item
/// round-trips.
pub open spec fn valid_issues(items: Seq<SensitiveContentIssueV>) -> bool {
    items.len() <= u64::MAX && (forall|j: int| 0 <= j < items.len() ==> valid_issue(#[trigger] items[j]))
}

/// Reads `count` items in order.
pub open spec fn dec_issues_items(ws: Seq<u64>, i: int, count: nat) -> Option<(Seq<SensitiveContentIssueV>, int)>
    decreases count,
{
    if count == 0 {
        Some((Seq::empty(), i))
    } else {
        match dec_issue(ws, i) {
            Some((x, j)) => match dec_issues_items(ws, j, (count - 1) as nat) {
                Some((rest, k)) => Some((seq![x] + rest, k)),
                None => None,
            },
            None => None,
        }
    }
}

/// Reads the list.
pub open spec fn dec_issues(ws: Seq<u64>, i: int) -> Option<(Seq<SensitiveContentIssueV>, int)> {
    match dec_u64(ws, i) {
        Some((n, j)) => dec_issues_items(ws, j, n as nat),
        None => None,
    }
}

proof fn lemma_dec_enc_issues_items(items: Seq<SensitiveContentIssueV>, ws: Seq<u64>, i: int)
    requires
        0 <= i,
        forall|j: int| 0 <= j < items.len() ==> valid_issue(#[trigger] items[j]),
        i + enc_issues_items(items).len() <= ws.len(),
        ws.subrange(i, i + enc_issues_items(items).len() as int) == enc_issues_items(items),
    ensures
        dec_issues_items(ws, i, items.len()) == Some((items, i + enc_issues_items(items).len())),
    decreases items.len(),
{
    if items.len() == 0 {
        assert(items =~= Seq::<SensitiveContentIssueV>::empty());
    } else {
        let e = enc_issues_items(items);
        let e0 = enc_issue(items[0]);
        let rest = enc_issues_items(items.drop_first());
        assert(e.subrange(0, e0.len() as int) =~= e0);
        lemma_sub_window(ws, i, e, 0, e0);
        lemma_dec_enc_issue(items[0], ws, i);
        assert(e.subrange(e0.len() as int, e0.len() + rest.len() as int) =~= rest);
        lemma_sub_window(ws, i, e, e0.len() as int, rest);
        lemma_dec_enc_issues_items(items.drop_first(), ws, i + e0.len());
        assert(seq![items[0]] + items.drop_first() =~= items);
    }
}

proof fn lemma_dec_enc_issues(items: Seq<SensitiveContentIssueV>, ws: Seq<u64>, i: int)
    requires
        0 <= i,
        valid_issues(items),
        i + enc_issues(items).len() <= ws.len(),
        ws.subrange(i, i + enc_issues(items).len() as int) == enc_issues(items),
    ensures
        dec_issues(ws, i) == Some((items, i + enc_issues(items).len())),
{
    let e = enc_issues(items);
    assert(ws.subrange(i, i + e.len() as int)[0] == ws[i]);
    assert(e.subrange(1, 1 + enc_issues_items(items).len() as int) =~= enc_issues_items(
        items,
    ));
    lemma_sub_window(ws, i, e, 1, enc_issues_items(items));
    lemma_dec_enc_issues_items(items, ws, i + 1);
}


/// The plain view of a sensitive-content result.
pub struct SensitiveContentResultV {
    pub passed: bool,
    pub issues: Seq<SensitiveContentIssueV>,
}

/// The encoding of the record: each field in order.
pub open spec fn enc_sens(v: SensitiveContentResultV) -> Seq<u64> {
    enc_bool(v.passed) + enc_issues(v.issues)
}

/// The record round-trips when each field does.
pub open spec fn valid_sens(v: SensitiveContentResultV) -> bool {
    valid_issues(v.issues)
}

/// Reads the record, each field in order.
pub open spec fn dec_sens(ws: Seq<u64>, i: int) -> Option<(SensitiveContentResultV, int)> {
    match dec_bool(ws, i) {
        None => None,
        Some((f_passed, i_0)) =>     match dec_issues(ws, i_0) {
        None => None,
        Some((f_issues, i_1)) => Some(((SensitiveContentResultV { passed: f_passed, issues: f_issues }), i_1)),
    }
    }
}

proof fn lemma_dec_enc_sens(v: SensitiveContentResultV, ws: Seq<u64>, i: int)
    requires
        0 <= i,
        valid_sens(v),
        i + enc_sens(v).len() <= ws.len(),
        ws.subrange(i, i + enc_sens(v).len() as int) == enc_sens(v),
    ensures
        dec_sens(ws, i) == Some((v, i + enc_sens(v).len())),
{
    let e = enc_sens(v);
    let pos_0: int = i;
    assert(ws.subrange(pos_0, pos_0 + e.len() as int) == e);
    let a_0 = enc_bool(v.passed);
    let b_0 = enc_issues(v.issues);
    lemma_split_window(ws, pos_0, a_0, b_0);
    lemma_dec_enc_bool(v.passed, ws, pos_0);
    let pos_1: int = pos_0 + a_0.len() as int;
    lemma_dec_enc_issues(v.issues, ws, pos_1);
}


/// The plain view of a novel outline.
pub struct NovelOutlineV {
    pub id: u128,
    pub project_id: u128,
    pub premise: Seq<char>,
    pub theme: Seq<char>,
    pub target_word_count: u64,
    pub arcs: Seq<PlotArcV>,
    pub protagonist: CharacterArcV,
    pub supporting_characters: Seq<CharacterArcV>,
    pub world_settings: WorldSettingsV,
    pub sensitive_content_check: SensitiveContentResultV,
    pub status: crate::models::OutlineStatus,
    pub created_at: i64,
    pub updated_at: i64,
}

/// The encoding of the record: each field in order.
pub open spec fn enc_outlinev(v: NovelOutlineV) -> Seq<u64> {
    enc_u128(v.id) + (enc_u128(v.project_id) + (enc_str(v.premise) + (enc_str(v.theme) + (enc_u64(v.target_word_count) + (enc_arcs(v.arcs) + (enc_charv(v.protagonist) + (enc_chars(v.supporting_characters) + (enc_world(v.world_settings) + (enc_sens(v.sensitive_content_check) + (enc_ostatus(v.status) + (enc_i64(v.created_at) + enc_i64(v.updated_at))))))))))))
}

/// The record round-trips when each field does.
pub open spec fn valid_outlinev(v: NovelOutlineV) -> bool {
    valid_str(v.premise) && valid_str(v.theme) && valid_arcs(v.arcs) && valid_charv(v.protagonist) && valid_chars(v.supporting_characters) && valid_world(v.world_settings) && valid_sens(v.sensitive_content_check)
}

/// Reads the record, each field in order.
pub open spec fn dec_outlinev(ws: Seq<u64>, i: int) -> Option<(NovelOutlineV, int)> {
    match dec_u128(ws, i) {
        None => None,
        Some((f_id, i_0)) =>     match dec_u128(ws, i_0) {
        None => None,
        Some((f_project_id, i_1)) =>     match dec_str(ws, i_1) {
        None => None,
        Some((f_premise, i_2)) =>     match dec_str(ws, i_2) {
        None => None,
        Some((f_theme, i_3)) =>     match dec_u64(ws, i_3) {
        None => None,
        Some((f_target_word_count, i_4)) =>     match dec_arcs(ws, i_4) {
        None => None,
        Some((f_arcs, i_5)) =>     match dec_charv(ws, i_5) {
        None => None,
        Some((f_protagonist, i_6)) =>     match dec_chars(ws, i_6) {
        None => None,
        Some((f_supporting_characters, i_7)) =>     match dec_world(ws, i_7) {
        None => None,
        Some((f_world_settings, i_8)) =>     match dec_sens(ws, i_8) {
        None => None,
        Some((f_sensitive_content_check, i_9)) =>     match dec_ostatus(ws, i_9) {
        None => None,
        Some((f_status, i_10)) =>     match dec_i64(ws, i_10) {
        None => None,
        Some((f_created_at, i_11)) =>     match dec_i64(ws, i_11) {
        None => None,
        Some((f_updated_at, i_12)) => Some(((NovelOutlineV { id: f_id, project_id: f_project_id, premise: f_premise, theme: f_theme, target_word_count: f_target_word_count, arcs: f_arcs, protagonist: f_protagonist, supporting_characters: f_supporting_characters, world_settings: f_world_settings, sensitive_content_check: f_sensitive_content_check, status: f_status, created_at: f_created_at, updated_at: f_updated_at }), i_12)),
    }
    }
    }
    }
    }
    }
    }
    }
    }
    }
    }
    }
    }
}

proof fn lemma_dec_enc_outline_tail(
    sup: Seq<CharacterArcV>,
    w: WorldSettingsV,
    sc: SensitiveContentResultV,
    st: crate::models::OutlineStatus,
    ca: i64,
    ua: i64,
    ws: Seq<u64>,
    p: int,
)
    requires
        0 <= p,
        valid_chars(sup),
        valid_world(w),
        valid_sens(sc),
        p + (enc_chars(sup) + (enc_world(w) + (enc_sens(sc) + (enc_ostatus(st) + (enc_i64(ca)
            + enc_i64(ua)))))).len() <= ws.len(),
        ws.subrange(
            p,
            p + (enc_chars(sup) + (enc_world(w) + (enc_sens(sc) + (enc_ostatus(st) + (enc_i64(ca)
                + enc_i64(ua)))))).len() as int,
        ) == enc_chars(sup) + (enc_world(w) + (enc_sens(sc) + (enc_ostatus(st) + (enc_i64(ca)
            + enc_i64(ua))))),
    ensures
        dec_chars(ws, p) == Some((sup, p + enc_chars(sup).len())),
        dec_world(ws, p + enc_chars(sup).len()) == Some(
            (w, p + enc_chars(sup).len() + enc_world(w).len()),
        ),
        dec_sens(ws, p + enc_chars(sup).len() + enc_world(w).len()) == Some(
            (sc, p + enc_chars(sup).len() + enc_world(w).len() + enc_sens(sc).len()),
        ),
        dec_ostatus(ws, p + enc_chars(sup).len() + enc_world(w).len() + enc_sens(sc).len())
            == Some(
            (
                st,
                p + enc_chars(sup).len() + enc_world(w).len() + enc_sens(sc).len() + enc_ostatus(
                    st,
                ).len(),
            ),
        ),
        dec_i64(
            ws,
            p + enc_chars(sup).len() + enc_world(w).len() + enc_sens(sc).len() + enc_ostatus(
                st,
            ).len(),
        ) == Some(
            (
                ca,
                p + enc_chars(sup).len() + enc_world(w).len() + enc_sens(sc).len() + enc_ostatus(
                    st,
                ).len() + enc_i64(ca).len(),
            ),
        ),
        dec_i64(
            ws,
            p + enc_chars(sup).len() + enc_world(w).len() + enc_sens(sc).len() + enc_ostatus(
                st,
            ).len() + enc_i64(ca).len(),
        ) == Some(
            (
                ua,
                p + enc_chars(sup).len() + enc_world(w).len() + enc_sens(sc).len() + enc_ostatus(
                    st,
                ).len() + enc_i64(ca).len() + enc_i64(ua).len(),
            ),
        ),
{
    let pos_0: int = p;
    let a_0 = enc_chars(sup);
    let b_0 = enc_world(w) + (enc_sens(sc) + (enc_ostatus(st) + (enc_i64(ca) + enc_i64(ua))));
    lemma_split_window(ws, pos_0, a_0, b_0);
    lemma_dec_enc_chars(sup, ws, pos_0);
    let pos_1: int = pos_0 + a_0.len() as int;
    let a_1 = enc_world(w);
    let b_1 = enc_sens(sc) + (enc_ostatus(st) + (enc_i64(ca) + enc_i64(ua)));
    lemma_split_window(ws, pos_1, a_1, b_1);
    lemma_dec_enc_world(w, ws, pos_1);
    let pos_2: int = pos_1 + a_1.len() as int;
    let a_2 = enc_sens(sc);
    let b_2 = enc_ostatus(st) + (enc_i64(ca) + enc_i64(ua));
    lemma_split_window(ws, pos_2, a_2, b_2);
    lemma_dec_enc_sens(sc, ws, pos_2);
    let pos_3: int = pos_2 + a_2.len() as int;
    let a_3 = enc_ostatus(st);
    let b_3 = enc_i64(ca) + enc_i64(ua);
    lemma_split_window(ws, pos_3, a_3, b_3);
    lemma_dec_enc_ostatus(st, ws, pos_3);
    let pos_4: int = pos_3 + a_3.len() as int;
    let a_4 = enc_i64(ca);
    let b_4 = enc_i64(ua);
    lemma_split_window(ws, pos_4, a_4, b_4);
    lemma_dec_enc_i64(ca, ws, pos_4);
    let pos_5: int = pos_4 + a_4.len() as int;
    lemma_dec_enc_i64(ua, ws, pos_5);
}

#[verifier::rlimit(100)]
#[verifier::spinoff_prover]
proof fn lemma_dec_enc_outlinev(v: NovelOutlineV, ws: Seq<u64>, i: int)
    requires
        0 <= i,
        valid_outlinev(v),
        i + enc_outlinev(v).len() <= ws.len(),
        ws.subrange(i, i + enc_outlinev(v).len() as int) == enc_outlinev(v),
    ensures
        dec_outlinev(ws, i) == Some((v, i + enc_outlinev(v).len())),
{
    let e = enc_outlinev(v);
    let pos_0: int = i;
    assert(ws.subrange(pos_0, pos_0 + e.len() as int) == e);
    let a_0 = enc_u128(v.id);
    let b_0 = enc_u128(v.project_id) + (enc_str(v.premise) + (enc_str(v.theme) + (enc_u64(
        v.target_word_count,
    ) + (enc_arcs(v.arcs) + (enc_charv(v.protagonist) + (enc_chars(v.supporting_characters) + (
    enc_world(v.world_settings) + (enc_sens(v.sensitive_content_check) + (enc_ostatus(v.status) + (
    enc_i64(v.created_at) + enc_i64(v.updated_at)))))))))));
    lemma_split_window(ws, pos_0, a_0, b_0);
    lemma_dec_enc_u128(v.id, ws, pos_0);
    let pos_1: int = pos_0 + a_0.len() as int;
    let a_1 = enc_u128(v.project_id);
    let b_1 = enc_str(v.premise) + (enc_str(v.theme) + (enc_u64(v.target_word_count) + (enc_arcs(
        v.arcs,
    ) + (enc_charv(v.protagonist) + (enc_chars(v.supporting_characters) + (enc_world(
        v.world_settings,
    ) + (enc_sens(v.sensitive_content_check) + (enc_ostatus(v.status) + (enc_i64(v.created_at)
        + enc_i64(v.updated_at))))))))));
    lemma_split_window(ws, pos_1, a_1, b_1);
    lemma_dec_enc_u128(v.project_id, ws, pos_1);
    let pos_2: int = pos_1 + a_1.len() as int;
    let a_2 = enc_str(v.premise);
    let b_2 = enc_str(v.theme) + (enc_u64(v.target_word_count) + (enc_arcs(v.arcs) + (enc_charv(
        v.protagonist,
    ) + (enc_chars(v.supporting_characters) + (enc_world(v.world_settings) + (enc_sens(
        v.sensitive_content_check,
    ) + (enc_ostatus(v.status) + (enc_i64(v.created_at) + enc_i64(v.updated_at)))))))));
    lemma_split_window(ws, pos_2, a_2, b_2);
    lemma_dec_enc_str(v.premise, ws, pos_2);
    let pos_3: int = pos_2 + a_2.len() as int;
    let a_3 = enc_str(v.theme);
    let b_3 = enc_u64(v.target_word_count) + (enc_arcs(v.arcs) + (enc_charv(v.protagonist) + (
    enc_chars(v.supporting_characters) + (enc_world(v.world_settings) + (enc_sens(
        v.sensitive_content_check,
    ) + (enc_ostatus(v.status) + (enc_i64(v.created_at) + enc_i64(v.updated_at))))))));
    lemma_split_window(ws, pos_3, a_3, b_3);
    lemma_dec_enc_str(v.theme, ws, pos_3);
    let pos_4: int = pos_3 + a_3.len() as int;
    let a_4 = enc_u64(v.target_word_count);
    let b_4 = enc_arcs(v.arcs) + (enc_charv(v.protagonist) + (enc_chars(v.supporting_characters)
        + (enc_world(v.world_settings) + (enc_sens(v.sensitive_content_check) + (enc_ostatus(
        v.status,
    ) + (enc_i64(v.created_at) + enc_i64(v.updated_at)))))));
    lemma_split_window(ws, pos_4, a_4, b_4);
    lemma_dec_enc_u64(v.target_word_count, ws, pos_4);
    let pos_5: int = pos_4 + a_4.len() as int;
    let a_5 = enc_arcs(v.arcs);
    let b_5 = enc_charv(v.protagonist) + (enc_chars(v.supporting_characters) + (enc_world(
        v.world_settings,
    ) + (enc_sens(v.sensitive_content_check) + (enc_ostatus(v.status) + (enc_i64(v.created_at)
        + enc_i64(v.updated_at))))));
    lemma_split_window(ws, pos_5, a_5, b_5);
    lemma_dec_enc_arcs(v.arcs, ws, pos_5);
    let pos_6: int = pos_5 + a_5.len() as int;
    let a_6 = enc_charv(v.protagonist);
    let b_6 = enc_chars(v.supporting_characters) + (enc_world(v.world_settings) + (enc_sens(
        v.sensitive_content_check,
    ) + (enc_ostatus(v.status) + (enc_i64(v.created_at) + enc_i64(v.updated_at)))));
    lemma_split_window(ws, pos_6, a_6, b_6);
    lemma_dec_enc_charv(v.protagonist, ws, pos_6);
    let pos_7: int = pos_6 + a_6.len() as int;
    lemma_dec_enc_outline_tail(
        v.supporting_characters,
        v.world_settings,
        v.sensitive_content_check,
        v.status,
        v.created_at,
        v.updated_at,
        ws,
        pos_7,
    );
}

/// The plain view of a chapter summary.
pub struct ChapterSummaryV {
    pub number: u32,
    pub title: Seq<char>,
    pub summary: Seq<char>,
    pub key_events: Seq<Seq<char>>,
    pub protagonist_development: Seq<char>,
    pub word_count_estimate: u32,
    pub is_plot_twist_chapter: bool,
    pub plot_twist_description: Option<Seq<char>>,
}

/// The encoding of the record: each field in order.
pub open spec fn enc_chap(v: ChapterSummaryV) -> Seq<u64> {
    enc_u32(v.number) + (enc_str(v.title) + (enc_str(v.summary) + (enc_strs(v.key_events) + (enc_str(v.protagonist_development) + (enc_u32(v.word_count_estimate) + (enc_bool(v.is_plot_twist_chapter) + enc_opt_str(v.plot_twist_description)))))))
}

/// The record round-trips when each field does.
pub open spec fn valid_chap(v: ChapterSummaryV) -> bool {
    valid_str(v.title) && valid_str(v.summary) && valid_strs(v.key_events) && valid_str(v.protagonist_development) && valid_opt_str(v.plot_twist_description)
}

/// Reads the record, each field in order.
pub open spec fn dec_chap(ws: Seq<u64>, i: int) -> Option<(ChapterSummaryV, int)> {
    match dec_u32(ws, i) {
        None => None,
        Some((f_number, i_0)) =>     match dec_str(ws, i_0) {
        None => None,
        Some((f_title, i_1)) =>     match dec_str(ws, i_1) {
        None => None,
        Some((f_summary, i_2)) =>     match dec_strs(ws, i_2) {
        None => None,
        Some((f_key_events, i_3)) =>     match dec_str(ws, i_3) {
        None => None,
        Some((f_protagonist_development, i_4)) =>     match dec_u32(ws, i_4) {
        None => None,
        Some((f_word_count_estimate, i_5)) =>     match dec_bool(ws, i_5) {
        None => None,
        Some((f_is_plot_twist_chapter, i_6)) =>     match dec_opt_str(ws, i_6) {
        None => None,
        Some((f_plot_twist_description, i_7)) => Some(((ChapterSummaryV { number: f_number, title: f_title, summary: f_summary, key_events: f_key_events, protagonist_development: f_protagonist_development, word_count_estimate: f_word_count_estimate, is_plot_twist_chapter: f_is_plot_twist_chapter, plot_twist_description: f_plot_twist_description }), i_7)),
    }
    }
    }
    }
    }
    }
    }
    }
}

proof fn lemma_dec_enc_chap(v: ChapterSummaryV, ws: Seq<u64>, i: int)
    requires
        0 <= i,
        valid_chap(v),
        i + enc_chap(v).len() <= ws.len(),
        ws.subrange(i, i + enc_chap(v).len() as int) == enc_chap(v),
    ensures
        dec_chap(ws, i) == Some((v, i + enc_chap(v).len())),
{
    let e = enc_chap(v);
    let pos_0: int = i;
    assert(ws.subrange(pos_0, pos_0 + e.len() as int) == e);
    let a_0 = enc_u32(v.number);
    let b_0 = enc_str(v.title) + (enc_str(v.summary) + (enc_strs(v.key_events) + (enc_str(v.protagonist_development) + (enc_u32(v.word_count_estimate) + (enc_bool(v.is_plot_twist_chapter) + enc_opt_str(v.plot_twist_description))))));
    lemma_split_window(ws, pos_0, a_0, b_0);
    lemma_dec_enc_u32(v.number, ws, pos_0);
    let pos_1: int = pos_0 + a_0.len() as int;
    let a_1 = enc_str(v.title);
    let b_1 = enc_str(v.summary) + (enc_strs(v.key_events) + (enc_str(v.protagonist_development) + (enc_u32(v.word_count_estimate) + (enc_bool(v.is_plot_twist_chapter) + enc_opt_str(v.plot_twist_description)))));
    lemma_split_window(ws, pos_1, a_1, b_1);
    lemma_dec_enc_str(v.title, ws, pos_1);
    let pos_2: int = pos_1 + a_1.len() as int;
    let a_2 = enc_str(v.summary);
    let b_2 = enc_strs(v.key_events) + (enc_str(v.protagonist_development) + (enc_u32(v.word_count_estimate) + (enc_bool(v.is_plot_twist_chapter) + enc_opt_str(v.plot_twist_description))));
    lemma_split_window(ws, pos_2, a_2, b_2);
    lemma_dec_enc_str(v.summary, ws, pos_2);
    let pos_3: int = pos_2 + a_2.len() as int;
    let a_3 = enc_strs(v.key_events);
    let b_3 = enc_str(v.protagonist_development) + (enc_u32(v.word_count_estimate) + (enc_bool(v.is_plot_twist_chapter) + enc_opt_str(v.plot_twist_description)));
    lemma_split_window(ws, pos_3, a_3, b_3);
    lemma_dec_enc_strs(v.key_events, ws, pos_3);
    let pos_4: int = pos_3 + a_3.len() as int;
    let a_4 = enc_str(v.protagonist_development);
    let b_4 = enc_u32(v.word_count_estimate) + (enc_bool(v.is_plot_twist_chapter) + enc_opt_str(v.plot_twist_description));
    lemma_split_window(ws, pos_4, a_4, b_4);
    lemma_dec_enc_str(v.protagonist_development, ws, pos_4);
    let pos_5: int = pos_4 + a_4.len() as int;
    let a_5 = enc_u32(v.word_count_estimate);
    let b_5 = enc_bool(v.is_plot_twist_chapter) + enc_opt_str(v.plot_twist_description);
    lemma_split_window(ws, pos_5, a_5, b_5);
    lemma_dec_enc_u32(v.word_count_estimate, ws, pos_5);
    let pos_6: int = pos_5 + a_5.len() as int;
    let a_6 = enc_bool(v.is_plot_twist_chapter);
    let b_6 = enc_opt_str(v.plot_twist_description);
    lemma_split_window(ws, pos_6, a_6, b_6);
    lemma_dec_enc_bool(v.is_plot_twist_chapter, ws, pos_6);
    let pos_7: int = pos_6 + a_6.len() as int;
    lemma_dec_enc_opt_str(v.plot_twist_description, ws, pos_7);
}


/// The encodings of the listed chapter summaries, in order.
pub open spec fn enc_chaps_items(items: Seq<ChapterSummaryV>) -> Seq<u64>
    decreases items.len(),
{
    if items.len() == 0 {
        Seq::empty()
    } else {
        enc_chap(items[0]) + enc_chaps_items(items.drop_first())
    }
}

/// The encoding of the list: its length, then each item.
pub open spec fn enc_chaps(items: Seq<ChapterSummaryV>) -> Seq<u64> {
    seq![items.len() as u64] + enc_chaps_items(items)
}

/// The list round-trips when its length fits one word and each item
/// round-trips.
pub open spec fn valid_chaps(items: Seq<ChapterSummaryV>) -> bool {
    items.len() <= u64::MAX && (forall|j: int| 0 <= j < items.len() ==> valid_chap(#[trigger] items[j]))
}

/// Reads `count` items in order.
pub open spec fn dec_chaps_items(ws: Seq<u64>, i: int, count: nat) -> Option<(Seq<ChapterSummaryV>, int)>
    decreases count,
{
    if count == 0 {
        Some((Seq::empty(), i))
    } else {
        match dec_chap(ws, i) {
            Some((x, j)) => match dec_chaps_items(ws, j, (count - 1) as nat) {
                Some((rest, k)) => Some((seq![x] + rest, k)),
                None => None,
            },
            None => None,
        }
    }
}

/// Reads the list.
pub open spec fn dec_chaps(ws: Seq<u64>, i: int) -> Option<(Seq<ChapterSummaryV>, int)> {
    match dec_u64(ws, i) {
        Some((n, j)) => dec_chaps_items(ws, j, n as nat),
        None => None,
    }
}

proof fn lemma_dec_enc_chaps_items(items: Seq<ChapterSummaryV>, ws: Seq<u64>, i: int)
    requires
        0 <= i,
        forall|j: int| 0 <= j < items.len() ==> valid_chap(#[trigger] items[j]),
        i + enc_chaps_items(items).len() <= ws.len(),
        ws.subrange(i, i + enc_chaps_items(items).len() as int) == enc_chaps_items(items),
    ensures
        dec_chaps_items(ws, i, items.len()) == Some((items, i + enc_chaps_items(items).len())),
    decreases items.len(),
{
    if items.len() == 0 {
        assert(items =~= Seq::<ChapterSummaryV>::empty());
    } else {
        let e = enc_chaps_items(items);
        let e0 = enc_chap(items[0]);
        let rest = enc_chaps_items(items.drop_first());
        assert(e.subrange(0, e0.len() as int) =~= e0);
        lemma_sub_window(ws, i, e, 0, e0);
        lemma_dec_enc_chap(items[0], ws, i);
        assert(e.subrange(e0.len() as int, e0.len() + rest.len() as int) =~= rest);
        lemma_sub_window(ws, i, e, e0.len() as int, rest);
        lemma_dec_enc_chaps_items(items.drop_first(), ws, i + e0.len());
        assert(seq![items[0]] + items.drop_first() =~= items);
    }
}

proof fn lemma_dec_enc_chaps(items: Seq<ChapterSummaryV>, ws: Seq<u64>, i: int)
    requires
        0 <= i,
        valid_chaps(items),
        i + enc_chaps(items).len() <= ws.len(),
        ws.subrange(i, i + enc_chaps(items).len() as int) == enc_chaps(items),
    ensures
        dec_chaps(ws, i) == Some((items, i + enc_chaps(items).len())),
{
    let e = enc_chaps(items);
    assert(ws.subrange(i, i + e.len() as int)[0] == ws[i]);
    assert(e.subrange(1, 1 + enc_chaps_items(items).len() as int) =~= enc_chaps_items(
        items,
    ));
    lemma_sub_window(ws, i, e, 1, enc_chaps_items(items));
    lemma_dec_enc_chaps_items(items, ws, i + 1);
}


/// The encodings of the listed positions, in order.
pub open spec fn enc_u32s_items(items: Seq<u32>) -> Seq<u64>
    decreases items.len(),
{
    if items.len() == 0 {
        Seq::empty()
    } else {
        enc_u32(items[0]) + enc_u32s_items(items.drop_first())
    }
}

/// The encoding of the list: its length, then each item.
pub open spec fn enc_u32s(items: Seq<u32>) -> Seq<u64> {
    seq![items.len() as u64] + enc_u32s_items(items)
}

/// The list round-trips when its length fits one word and each item
/// round-trips.
pub open spec fn valid_u32s(items: Seq<u32>) -> bool {
    items.len() <= u64::MAX && (forall|j: int| 0 <= j < items.len() ==> #[trigger] trivial_ok(items[j]))
}

/// Reads `count` items in order.
pub open spec fn dec_u32s_items(ws: Seq<u64>, i: int, count: nat) -> Option<(Seq<u32>, int)>
    decreases count,
{
    if count == 0 {
        Some((Seq::empty(), i))
    } else {
        match dec_u32(ws, i) {
            Some((x, j)) => match dec_u32s_items(ws, j, (count - 1) as nat) {
                Some((rest, k)) => Some((seq![x] + rest, k)),
                None => None,
            },
            None => None,
        }
    }
}

/// Reads the list.
pub open spec fn dec_u32s(ws: Seq<u64>, i: int) -> Option<(Seq<u32>, int)> {
    match dec_u64(ws, i) {
        Some((n, j)) => dec_u32s_items(ws, j, n as nat),
        None => None,
    }
}

proof fn lemma_dec_enc_u32s_items(items: Seq<u32>, ws: Seq<u64>, i: int)
    requires
        0 <= i,
        forall|j: int| 0 <= j < items.len() ==> #[trigger] trivial_ok(items[j]),
        i + enc_u32s_items(items).len() <= ws.len(),
        ws.subrange(i, i + enc_u32s_items(items).len() as int) == enc_u32s_items(items),
    ensures
        dec_u32s_items(ws, i, items.len()) == Some((items, i + enc_u32s_items(items).len())),
    decreases items.len(),
{
    if items.len() == 0 {
        assert(items =~= Seq::<u32>::empty());
    } else {
        let e = enc_u32s_items(items);
        let e0 = enc_u32(items[0]);
        let rest = enc_u32s_items(items.drop_first());
        assert(e.subrange(0, e0.len() as int) =~= e0);
        lemma_sub_window(ws, i, e, 0, e0);
        lemma_dec_enc_u32(items[0], ws, i);
        assert(e.subrange(e0.len() as int, e0.len() + rest.len() as int) =~= rest);
        lemma_sub_window(ws, i, e, e0.len() as int, rest);
        lemma_dec_enc_u32s_items(items.drop_first(), ws, i + e0.len());
        assert(seq![items[0]] + items.drop_first() =~= items);
    }
}

proof fn lemma_dec_enc_u32s(items: Seq<u32>, ws: Seq<u64>, i: int)
    requires
        0 <= i,
        valid_u32s(items),
        i + enc_u32s(items).len() <= ws.len(),
        ws.subrange(i, i + enc_u32s(items).len() as int) == enc_u32s(items),
    ensures
        dec_u32s(ws, i) == Some((items, i + enc_u32s(items).len())),
{
    let e = enc_u32s(items);
    assert(ws.subrange(i, i + e.len() as int)[0] == ws[i]);
    assert(e.subrange(1, 1 + enc_u32s_items(items).len() as int) =~= enc_u32s_items(
        items,
    ));
    lemma_sub_window(ws, i, e, 1, enc_u32s_items(items));
    lemma_dec_enc_u32s_items(items, ws, i + 1);
}


/// The plain view of a chapter plan.
pub struct ChapterPlanV {
    pub id: u128,
    pub project_id: u128,
    pub total_chapters: u32,
    pub chapters: Seq<ChapterSummaryV>,
    pub plot_twist_positions: Seq<u32>,
    pub created_at: i64,
    pub updated_at: i64,
}

/// The encoding of the record: each field in order.
pub open spec fn enc_plan(v: ChapterPlanV) -> Seq<u64> {
    enc_u128(v.id) + (enc_u128(v.project_id) + (enc_u32(v.total_chapters) + (enc_chaps(v.chapters) + (enc_u32s(v.plot_twist_positions) + (enc_i64(v.created_at) + enc_i64(v.updated_at))))))
}

/// The record round-trips when each field does.
pub open spec fn valid_plan(v: ChapterPlanV) -> bool {
    valid_chaps(v.chapters) && valid_u32s(v.plot_twist_positions)
}

/// Reads the record, each field in order.
pub open spec fn dec_plan(ws: Seq<u64>, i: int) -> Option<(ChapterPlanV, int)> {
    match dec_u128(ws, i) {
        None => None,
        Some((f_id, i_0)) =>     match dec_u128(ws, i_0) {
        None => None,
        Some((f_project_id, i_1)) =>     match dec_u32(ws, i_1) {
        None => None,
        Some((f_total_chapters, i_2)) =>     match dec_chaps(ws, i_2) {
        None => None,
        Some((f_chapters, i_3)) =>     match dec_u32s(ws, i_3) {
        None => None,
        Some((f_plot_twist_positions, i_4)) =>     match dec_i64(ws, i_4) {
        None => None,
        Some((f_created_at, i_5)) =>     match dec_i64(ws, i_5) {
        None => None,
        Some((f_updated_at, i_6)) => Some(((ChapterPlanV { id: f_id, project_id: f_project_id, total_chapters: f_total_chapters, chapters: f_chapters, plot_twist_positions: f_plot_twist_positions, created_at: f_created_at, updated_at: f_updated_at }), i_6)),
    }
    }
    }
    }
    }
    }
    }
}

proof fn lemma_dec_enc_plan(v: ChapterPlanV, ws: Seq<u64>, i: int)
    requires
        0 <= i,
        valid_plan(v),
        i + enc_plan(v).len() <= ws.len(),
        ws.subrange(i, i + enc_plan(v).len() as int) == enc_plan(v),
    ensures
        dec_plan(ws, i) == Some((v, i + enc_plan(v).len())),
{
    let e = enc_plan(v);
    let pos_0: int = i;
    assert(ws.subrange(pos_0, pos_0 + e.len() as int) == e);
    let a_0 = enc_u128(v.id);
    let b_0 = enc_u128(v.project_id) + (enc_u32(v.total_chapters) + (enc_chaps(v.chapters) + (enc_u32s(v.plot_twist_positions) + (enc_i64(v.created_at) + enc_i64(v.updated_at)))));
    lemma_split_window(ws, pos_0, a_0, b_0);
    lemma_dec_enc_u128(v.id, ws, pos_0);
    let pos_1: int = pos_0 + a_0.len() as int;
    let a_1 = enc_u128(v.project_id);
    let b_1 = enc_u32(v.total_chapters) + (enc_chaps(v.chapters) + (enc_u32s(v.plot_twist_positions) + (enc_i64(v.created_at) + enc_i64(v.updated_at))));
    lemma_split_window(ws, pos_1, a_1, b_1);
    lemma_dec_enc_u128(v.project_id, ws, pos_1);
    let pos_2: int = pos_1 + a_1.len() as int;
    let a_2 = enc_u32(v.total_chapters);
    let b_2 = enc_chaps(v.chapters) + (enc_u32s(v.plot_twist_positions) + (enc_i64(v.created_at) + enc_i64(v.updated_at)));
    lemma_split_window(ws, pos_2, a_2, b_2);
    lemma_dec_enc_u32(v.total_chapters, ws, pos_2);
    let pos_3: int = pos_2 + a_2.len() as int;
    let a_3 = enc_chaps(v.chapters);
    let b_3 = enc_u32s(v.plot_twist_positions) + (enc_i64(v.created_at) + enc_i64(v.updated_at));
    lemma_split_window(ws, pos_3, a_3, b_3);
    lemma_dec_enc_chaps(v.chapters, ws, pos_3);
    let pos_4: int = pos_3 + a_3.len() as int;
    let a_4 = enc_u32s(v.plot_twist_positions);
    let b_4 = enc_i64(v.created_at) + enc_i64(v.updated_at);
    lemma_split_window(ws, pos_4, a_4, b_4);
    lemma_dec_enc_u32s(v.plot_twist_positions, ws, pos_4);
    let pos_5: int = pos_4 + a_4.len() as int;
    let a_5 = enc_i64(v.created_at);
    let b_5 = enc_i64(v.updated_at);
    lemma_split_window(ws, pos_5, a_5, b_5);
    lemma_dec_enc_i64(v.created_at, ws, pos_5);
    let pos_6: int = pos_5 + a_5.len() as int;
    lemma_dec_enc_i64(v.updated_at, ws, pos_6);
}


/// The plain view of a hot book.
pub struct HotBookV {
    pub title: Seq<char>,
    pub author: Seq<char>,
    pub word_count: u64,
    pub likes: u64,
    pub rating: Option<u32>,
}

/// The encoding of the record: each field in order.
pub open spec fn enc_book(v: HotBookV) -> Seq<u64> {
    enc_str(v.title) + (enc_str(v.author) + (enc_u64(v.word_count) + (enc_u64(v.likes) + enc_opt_u32(v.rating))))
}

/// The record round-trips when each field does.
pub open spec fn valid_book(v: HotBookV) -> bool {
    valid_str(v.title) && valid_str(v.author) && valid_opt_u32(v.rating)
}

/// Reads the record, each field in order.
pub open spec fn dec_book(ws: Seq<u64>, i: int) -> Option<(HotBookV, int)> {
    match dec_str(ws, i) {
        None => None,
        Some((f_title, i_0)) =>     match dec_str(ws, i_0) {
        None => None,
        Some((f_author, i_1)) =>     match dec_u64(ws, i_1) {
        None => None,
        Some((f_word_count, i_2)) =>     match dec_u64(ws, i_2) {
        None => None,
        Some((f_likes, i_3)) =>     match dec_opt_u32(ws, i_3) {
        None => None,
        Some((f_rating, i_4)) => Some(((HotBookV { title: f_title, author: f_author, word_count: f_word_count, likes: f_likes, rating: f_rating }), i_4)),
    }
    }
    }
    }
    }
}

proof fn lemma_dec_enc_book(v: HotBookV, ws: Seq<u64>, i: int)
    requires
        0 <= i,
        valid_book(v),
        i + enc_book(v).len() <= ws.len(),
        ws.subrange(i, i + enc_book(v).len() as int) == enc_book(v),
    ensures
        dec_book(ws, i) == Some((v, i + enc_book(v).len())),
{
    let e = enc_book(v);
    let pos_0: int = i;
    assert(ws.subrange(pos_0, pos_0 + e.len() as int) == e);
    let a_0 = enc_str(v.title);
    let b_0 = enc_str(v.author) + (enc_u64(v.word_count) + (enc_u64(v.likes) + enc_opt_u32(v.rating)));
    lemma_split_window(ws, pos_0, a_0, b_0);
    lemma_dec_enc_str(v.title, ws, pos_0);
    let pos_1: int = pos_0 + a_0.len() as int;
    let a_1 = enc_str(v.author);
    let b_1 = enc_u64(v.word_count) + (enc_u64(v.likes) + enc_opt_u32(v.rating));
    lemma_split_window(ws, pos_1, a_1, b_1);
    lemma_dec_enc_str(v.author, ws, pos_1);
    let pos_2: int = pos_1 + a_1.len() as int;
    let a_2 = enc_u64(v.word_count);
    let b_2 = enc_u64(v.likes) + enc_opt_u32(v.rating);
    lemma_split_window(ws, pos_2, a_2, b_2);
    lemma_dec_enc_u64(v.word_count, ws, pos_2);
    let pos_3: int = pos_2 + a_2.len() as int;
    let a_3 = enc_u64(v.likes);
    let b_3 = enc_opt_u32(v.rating);
    lemma_split_window(ws, pos_3, a_3, b_3);
    lemma_dec_enc_u64(v.likes, ws, pos_3);
    let pos_4: int = pos_3 + a_3.len() as int;
    lemma_dec_enc_opt_u32(v.rating, ws, pos_4);
}


/// The encodings of the listed hot books, in order.
pub open spec fn enc_books_items(items: Seq<HotBookV>) -> Seq<u64>
    decreases items.len(),
{
    if items.len() == 0 {
        Seq::empty()
    } else {
        enc_book(items[0]) + enc_books_items(items.drop_first())
    }
}

/// The encoding of the list: its length, then each item.
pub open spec fn enc_books(items: Seq<HotBookV>) -> Seq<u64> {
    seq![items.len() as u64] + enc_books_items(items)
}

/// The list round-trips when its length fits one word and each item
/// round-trips.
pub open spec fn valid_books(items: Seq<HotBookV>) -> bool {
    items.len() <= u64::MAX && (forall|j: int| 0 <= j < items.len() ==> valid_book(#[trigger] items[j]))
}

/// Reads `count` items in order.
pub open spec fn dec_books_items(ws: Seq<u64>, i: int, count: nat) -> Option<(Seq<HotBookV>, int)>
    decreases count,
{
    if count == 0 {
        Some((Seq::empty(), i))
    } else {
        match dec_book(ws, i) {
            Some((x, j)) => match dec_books_items(ws, j, (count - 1) as nat) {
                Some((rest, k)) => Some((seq![x] + rest, k)),
                None => None,
            },
            None => None,
        }
    }
}

/// Reads the list.
pub open spec fn dec_books(ws: Seq<u64>, i: int) -> Option<(Seq<HotBookV>, int)> {
    match dec_u64(ws, i) {
        Some((n, j)) => dec_books_items(ws, j, n as nat),
        None => None,
    }
}

proof fn lemma_dec_enc_books_items(items: Seq<HotBookV>, ws: Seq<u64>, i: int)
    requires
        0 <= i,
        forall|j: int| 0 <= j < items.len() ==> valid_book(#[trigger] items[j]),
        i + enc_books_items(items).len() <= ws.len(),
        ws.subrange(i, i + enc_books_items(items).len() as int) == enc_books_items(items),
    ensures
        dec_books_items(ws, i, items.len()) == Some((items, i + enc_books_items(items).len())),
    decreases items.len(),
{
    if items.len() == 0 {
        assert(items =~= Seq::<HotBookV>::empty());
    } else {
        let e = enc_books_items(items);
        let e0 = enc_book(items[0]);
        let rest = enc_books_items(items.drop_first());
        assert(e.subrange(0, e0.len() as int) =~= e0);
        lemma_sub_window(ws, i, e, 0, e0);
        lemma_dec_enc_book(items[0], ws, i);
        assert(e.subrange(e0.len() as int, e0.len() + rest.len() as int) =~= rest);
        lemma_sub_window(ws, i, e, e0.len() as int, rest);
        lemma_dec_enc_books_items(items.drop_first(), ws, i + e0.len());
        assert(seq![items[0]] + items.drop_first() =~= items);
    }
}

proof fn lemma_dec_enc_books(items: Seq<HotBookV>, ws: Seq<u64>, i: int)
    requires
        0 <= i,
        valid_books(items),
        i + enc_books(items).len() <= ws.len(),
        ws.subrange(i, i + enc_books(items).len() as int) == enc_books(items),
    ensures
        dec_books(ws, i) == Some((items, i + enc_books(items).len())),
{
    let e = enc_books(items);
    assert(ws.subrange(i, i + e.len() as int)[0] == ws[i]);
    assert(e.subrange(1, 1 + enc_books_items(items).len() as int) =~= enc_books_items(
        items,
    ));
    lemma_sub_window(ws, i, e, 1, enc_books_items(items));
    lemma_dec_enc_books_items(items, ws, i + 1);
}


/// The plain view of a market snapshot.
pub struct MarketDataV {
    pub total_books: u32,
    pub hot_books: Seq<HotBookV>,
    pub average_word_count: u64,
    pub tags: Seq<Seq<char>>,
}

/// The encoding of the record: each field in order.
pub open spec fn enc_market(v: MarketDataV) -> Seq<u64> {
    enc_u32(v.total_books) + (enc_books(v.hot_books) + (enc_u64(v.average_word_count) + enc_strs(v.tags)))
}

/// The record round-trips when each field does.
pub open spec fn valid_market(v: MarketDataV) -> bool {
    valid_books(v.hot_books) && valid_strs(v.tags)
}

/// Reads the record, each field in order.
pub open spec fn dec_market(ws: Seq<u64>, i: int) -> Option<(MarketDataV, int)> {
    match dec_u32(ws, i) {
        None => None,
        Some((f_total_books, i_0)) =>     match dec_books(ws, i_0) {
        None => None,
        Some((f_hot_books, i_1)) =>     match dec_u64(ws, i_1) {
        None => None,
        Some((f_average_word_count, i_2)) =>     match dec_strs(ws, i_2) {
        None => None,
        Some((f_tags, i_3)) => Some(((MarketDataV { total_books: f_total_books, hot_books: f_hot_books, average_word_count: f_average_word_count, tags: f_tags }), i_3)),
    }
    }
    }
    }
}

proof fn lemma_dec_enc_market(v: MarketDataV, ws: Seq<u64>, i: int)
    requires
        0 <= i,
        valid_market(v),
        i + enc_market(v).len() <= ws.len(),
        ws.subrange(i, i + enc_market(v).len() as int) == enc_market(v),
    ensures
        dec_market(ws, i) == Some((v, i + enc_market(v).len())),
{
    let e = enc_market(v);
    let pos_0: int = i;
    assert(ws.subrange(pos_0, pos_0 + e.len() as int) == e);
    let a_0 = enc_u32(v.total_books);
    let b_0 = enc_books(v.hot_books) + (enc_u64(v.average_word_count) + enc_strs(v.tags));
    lemma_split_window(ws, pos_0, a_0, b_0);
    lemma_dec_enc_u32(v.total_books, ws, pos_0);
    let pos_1: int = pos_0 + a_0.len() as int;
    let a_1 = enc_books(v.hot_books);
    let b_1 = enc_u64(v.average_word_count) + enc_strs(v.tags);
    lemma_split_window(ws, pos_1, a_1, b_1);
    lemma_dec_enc_books(v.hot_books, ws, pos_1);
    let pos_2: int = pos_1 + a_1.len() as int;
    let a_2 = enc_u64(v.average_word_count);
    let b_2 = enc_strs(v.tags);
    lemma_split_window(ws, pos_2, a_2, b_2);
    lemma_dec_enc_u64(v.average_word_count, ws, pos_2);
    let pos_3: int = pos_2 + a_2.len() as int;
    lemma_dec_enc_strs(v.tags, ws, pos_3);
}


/// The encoding of an optional market snapshot: an absence flag, then the value.
pub open spec fn enc_opt_market(o: Option<MarketDataV>) -> Seq<u64> {
    match o {
        None => seq![0u64],
        Some(x) => seq![1u64] + enc_market(x),
    }
}

pub open spec fn valid_opt_market(o: Option<MarketDataV>) -> bool {
    match o {
        None => true,
        Some(x) => valid_market(x),
    }
}

/// Reads an optional market snapshot.
pub open spec fn dec_opt_market(ws: Seq<u64>, i: int) -> Option<(Option<MarketDataV>, int)> {
    if 0 <= i < ws.len() {
        if ws[i] == 0 {
            Some((None, i + 1))
        } else if ws[i] == 1 {
            match dec_market(ws, i + 1) {
                Some((x, j)) => Some((Some(x), j)),
                None => None,
            }
        } else {
            None
        }
    } else {
        None
    }
}

proof fn lemma_dec_enc_opt_market(o: Option<MarketDataV>, ws: Seq<u64>, i: int)
    requires
        0 <= i,
        valid_opt_market(o),
        i + enc_opt_market(o).len() <= ws.len(),
        ws.subrange(i, i + enc_opt_market(o).len() as int) == enc_opt_market(o),
    ensures
        dec_opt_market(ws, i) == Some((o, i + enc_opt_market(o).len())),
{
    let e = enc_opt_market(o);
    assert(ws.subrange(i, i + e.len() as int)[0] == ws[i]);
    match o {
        None => {},
        Some(x) => {
            assert(e.subrange(1, 1 + enc_market(x).len() as int) =~= enc_market(x));
            lemma_sub_window(ws, i, e, 1, enc_market(x));
            lemma_dec_enc_market(x, ws, i + 1);
        },
    }
}


/// The plain view of a competitive work.
pub struct CompetitiveWorkV {
    pub title: Seq<char>,
    pub author: Seq<char>,
    pub views: u64,
    pub favorites: u64,
    pub rating: u32,
    pub unique_elements: Seq<Seq<char>>,
    pub tags: Seq<Seq<char>>,
}

/// The encoding of the record: each field in order.
pub open spec fn enc_work(v: CompetitiveWorkV) -> Seq<u64> {
    enc_str(v.title) + (enc_str(v.author) + (enc_u64(v.views) + (enc_u64(v.favorites) + (enc_u32(v.rating) + (enc_strs(v.unique_elements) + enc_strs(v.tags))))))
}

/// The record round-trips when each field does.
pub open spec fn valid_work(v: CompetitiveWorkV) -> bool {
    valid_str(v.title) && valid_str(v.author) && valid_strs(v.unique_elements) && valid_strs(v.tags)
}

/// Reads the record, each field in order.
pub open spec fn dec_work(ws: Seq<u64>, i: int) -> Option<(CompetitiveWorkV, int)> {
    match dec_str(ws, i) {
        None => None,
        Some((f_title, i_0)) =>     match dec_str(ws, i_0) {
        None => None,
        Some((f_author, i_1)) =>     match dec_u64(ws, i_1) {
        None => None,
        Some((f_views, i_2)) =>     match dec_u64(ws, i_2) {
        None => None,
        Some((f_favorites, i_3)) =>     match dec_u32(ws, i_3) {
        None => None,
        Some((f_rating, i_4)) =>     match dec_strs(ws, i_4) {
        None => None,
        Some((f_unique_elements, i_5)) =>     match dec_strs(ws, i_5) {
        None => None,
        Some((f_tags, i_6)) => Some(((CompetitiveWorkV { title: f_title, author: f_author, views: f_views, favorites: f_favorites, rating: f_rating, unique_elements: f_unique_elements, tags: f_tags }), i_6)),
    }
    }
    }
    }
    }
    }
    }
}

proof fn lemma_dec_enc_work(v: CompetitiveWorkV, ws: Seq<u64>, i: int)
    requires
        0 <= i,
        valid_work(v),
        i + enc_work(v).len() <= ws.len(),
        ws.subrange(i, i + enc_work(v).len() as int) == enc_work(v),
    ensures
        dec_work(ws, i) == Some((v, i + enc_work(v).len())),
{
    let e = enc_work(v);
    let pos_0: int = i;
    assert(ws.subrange(pos_0, pos_0 + e.len() as int) == e);
    let a_0 = enc_str(v.title);
    let b_0 = enc_str(v.author) + (enc_u64(v.views) + (enc_u64(v.favorites) + (enc_u32(v.rating) + (enc_strs(v.unique_elements) + enc_strs(v.tags)))));
    lemma_split_window(ws, pos_0, a_0, b_0);
    lemma_dec_enc_str(v.title, ws, pos_0);
    let pos_1: int = pos_0 + a_0.len() as int;
    let a_1 = enc_str(v.author);
    let b_1 = enc_u64(v.views) + (enc_u64(v.favorites) + (enc_u32(v.rating) + (enc_strs(v.unique_elements) + enc_strs(v.tags))));
    lemma_split_window(ws, pos_1, a_1, b_1);
    lemma_dec_enc_str(v.author, ws, pos_1);
    let pos_2: int = pos_1 + a_1.len() as int;
    let a_2 = enc_u64(v.views);
    let b_2 = enc_u64(v.favorites) + (enc_u32(v.rating) + (enc_strs(v.unique_elements) + enc_strs(v.tags)));
    lemma_split_window(ws, pos_2, a_2, b_2);
    lemma_dec_enc_u64(v.views, ws, pos_2);
    let pos_3: int = pos_2 + a_2.len() as int;
    let a_3 = enc_u64(v.favorites);
    let b_3 = enc_u32(v.rating) + (enc_strs(v.unique_elements) + enc_strs(v.tags));
    lemma_split_window(ws, pos_3, a_3, b_3);
    lemma_dec_enc_u64(v.favorites, ws, pos_3);
    let pos_4: int = pos_3 + a_3.len() as int;
    let a_4 = enc_u32(v.rating);
    let b_4 = enc_strs(v.unique_elements) + enc_strs(v.tags);
    lemma_split_window(ws, pos_4, a_4, b_4);
    lemma_dec_enc_u32(v.rating, ws, pos_4);
    let pos_5: int = pos_4 + a_4.len() as int;
    let a_5 = enc_strs(v.unique_elements);
    let b_5 = enc_strs(v.tags);
    lemma_split_window(ws, pos_5, a_5, b_5);
    lemma_dec_enc_strs(v.unique_elements, ws, pos_5);
    let pos_6: int = pos_5 + a_5.len() as int;
    lemma_dec_enc_strs(v.tags, ws, pos_6);
}


/// The encodings of the listed competitive works, in order.
pub open spec fn enc_works_items(items: Seq<CompetitiveWorkV>) -> Seq<u64>
    decreases items.len(),
{
    if items.len() == 0 {
        Seq::empty()
    } else {
        enc_work(items[0]) + enc_works_items(items.drop_first())
    }
}

/// The encoding of the list: its length, then each item.
pub open spec fn enc_works(items: Seq<CompetitiveWorkV>) -> Seq<u64> {
    seq![items.len() as u64] + enc_works_items(items)
}

/// The list round-trips when its length fits one word and each item
/// round-trips.
pub open spec fn valid_works(items: Seq<CompetitiveWorkV>) -> bool {
    items.len() <= u64::MAX && (forall|j: int| 0 <= j < items.len() ==> valid_work(#[trigger] items[j]))
}

/// Reads `count` items in order.
pub open spec fn dec_works_items(ws: Seq<u64>, i: int, count: nat) -> Option<(Seq<CompetitiveWorkV>, int)>
    decreases count,
{
    if count == 0 {
        Some((Seq::empty(), i))
    } else {
        match dec_work(ws, i) {
            Some((x, j)) => match dec_works_items(ws, j, (count - 1) as nat) {
                Some((rest, k)) => Some((seq![x] + rest, k)),
                None => None,
            },
            None => None,
        }
    }
}

/// Reads the list.
pub open spec fn dec_works(ws: Seq<u64>, i: int) -> Option<(Seq<CompetitiveWorkV>, int)> {
    match dec_u64(ws, i) {
        Some((n, j)) => dec_works_items(ws, j, n as nat),
        None => None,
    }
}

proof fn lemma_dec_enc_works_items(items: Seq<CompetitiveWorkV>, ws: Seq<u64>, i: int)
    requires
        0 <= i,
        forall|j: int| 0 <= j < items.len() ==> valid_work(#[trigger] items[j]),
        i + enc_works_items(items).len() <= ws.len(),
        ws.subrange(i, i + enc_works_items(items).len() as int) == enc_works_items(items),
    ensures
        dec_works_items(ws, i, items.len()) == Some((items, i + enc_works_items(items).len())),
    decreases items.len(),
{
    if items.len() == 0 {
        assert(items =~= Seq::<CompetitiveWorkV>::empty());
    } else {
        let e = enc_works_items(items);
        let e0 = enc_work(items[0]);
        let rest = enc_works_items(items.drop_first());
        assert(e.subrange(0, e0.len() as int) =~= e0);
        lemma_sub_window(ws, i, e, 0, e0);
        lemma_dec_enc_work(items[0], ws, i);
        assert(e.subrange(e0.len() as int, e0.len() + rest.len() as int) =~= rest);
        lemma_sub_window(ws, i, e, e0.len() as int, rest);
        lemma_dec_enc_works_items(items.drop_first(), ws, i + e0.len());
        assert(seq![items[0]] + items.drop_first() =~= items);
    }
}

proof fn lemma_dec_enc_works(items: Seq<CompetitiveWorkV>, ws: Seq<u64>, i: int)
    requires
        0 <= i,
        valid_works(items),
        i + enc_works(items).len() <= ws.len(),
        ws.subrange(i, i + enc_works(items).len() as int) == enc_works(items),
    ensures
        dec_works(ws, i) == Some((items, i + enc_works(items).len())),
{
    let e = enc_works(items);
    assert(ws.subrange(i, i + e.len() as int)[0] == ws[i]);
    assert(e.subrange(1, 1 + enc_works_items(items).len() as int) =~= enc_works_items(
        items,
    ));
    lemma_sub_window(ws, i, e, 1, enc_works_items(items));
    lemma_dec_enc_works_items(items, ws, i + 1);
}


/// The plain view of a feasibility report.
pub struct FeasibilityReportV {
    pub id: u128,
    pub project_id: u128,
    pub genre: crate::models::NovelGenre,
    pub market_data: Option<MarketDataV>,
    pub data_source: crate::models::DataSource,
    pub total_works_in_genre: u32,
    pub average_views_top100: u64,
    pub average_favorites_top100: u64,
    pub trend_score: i32,
    pub top_works: Seq<CompetitiveWorkV>,
    pub market_gaps: Seq<Seq<char>>,
    pub market_viability: u32,
    pub competition_level: crate::models::CompetitionLevel,
    pub differentiation_potential: u32,
    pub recommendation: crate::models::Recommendation,
    pub suggested_angles: Seq<Seq<char>>,
    pub generated_at: i64,
}

/// The encoding of the record: each field in order.
pub open spec fn enc_report(v: FeasibilityReportV) -> Seq<u64> {
    enc_u128(v.id) + (enc_u128(v.project_id) + (enc_genre(v.genre) + (enc_opt_market(v.market_data) + (enc_source(v.data_source) + (enc_u32(v.total_works_in_genre) + (enc_u64(v.average_views_top100) + (enc_u64(v.average_favorites_top100) + (enc_i32(v.trend_score) + (enc_works(v.top_works) + (enc_strs(v.market_gaps) + (enc_u32(v.market_viability) + (enc_level(v.competition_level) + (enc_u32(v.differentiation_potential) + (enc_rec(v.recommendation) + (enc_strs(v.suggested_angles) + enc_i64(v.generated_at))))))))))))))))
}

/// The record round-trips when each field does.
pub open spec fn valid_report(v: FeasibilityReportV) -> bool {
    valid_opt_market(v.market_data) && valid_works(v.top_works) && valid_strs(v.market_gaps) && valid_strs(v.suggested_angles)
}

/// Reads the record, each field in order.
pub open spec fn dec_report(ws: Seq<u64>, i: int) -> Option<(FeasibilityReportV, int)> {
    match dec_u128(ws, i) {
        None => None,
        Some((f_id, i_0)) =>     match dec_u128(ws, i_0) {
        None => None,
        Some((f_project_id, i_1)) =>     match dec_genre(ws, i_1) {
        None => None,
        Some((f_genre, i_2)) =>     match dec_opt_market(ws, i_2) {
        None => None,
        Some((f_market_data, i_3)) =>     match dec_source(ws, i_3) {
        None => None,
        Some((f_data_source, i_4)) =>     match dec_u32(ws, i_4) {
        None => None,
        Some((f_total_works_in_genre, i_5)) =>     match dec_u64(ws, i_5) {
        None => None,
        Some((f_average_views_top100, i_6)) =>     match dec_u64(ws, i_6) {
        None => None,
        Some((f_average_favorites_top100, i_7)) =>     match dec_i32(ws, i_7) {
        None => None,
        Some((f_trend_score, i_8)) =>     match dec_works(ws, i_8) {
        None => None,
        Some((f_top_works, i_9)) =>     match dec_strs(ws, i_9) {
        None => None,
        Some((f_market_gaps, i_10)) =>     match dec_u32(ws, i_10) {
        None => None,
        Some((f_market_viability, i_11)) =>     match dec_level(ws, i_11) {
        None => None,
        Some((f_competition_level, i_12)) =>     match dec_u32(ws, i_12) {
        None => None,
        Some((f_differentiation_potential, i_13)) =>     match dec_rec(ws, i_13) {
        None => None,
        Some((f_recommendation, i_14)) =>     match dec_strs(ws, i_14) {
        None => None,
        Some((f_suggested_angles, i_15)) =>     match dec_i64(ws, i_15) {
        None => None,
        Some((f_generated_at, i_16)) => Some(((FeasibilityReportV { id: f_id, project_id: f_project_id, genre: f_genre, market_data: f_market_data, data_source: f_data_source, total_works_in_genre: f_total_works_in_genre, average_views_top100: f_average_views_top100, average_favorites_top100: f_average_favorites_top100, trend_score: f_trend_score, top_works: f_top_works, market_gaps: f_market_gaps, market_viability: f_market_viability, competition_level: f_competition_level, differentiation_potential: f_differentiation_potential, recommendation: f_recommendation, suggested_angles: f_suggested_angles, generated_at: f_generated_at }), i_16)),
    }
    }
    }
    }
    }
    }
    }
    }
    }
    }
    }
    }
    }
    }
    }
    }
    }
}

#[verifier::rlimit(100)]
#[verifier::spinoff_prover]
proof fn lemma_dec_enc_report(v: FeasibilityReportV, ws: Seq<u64>, i: int)
    requires
        0 <= i,
        valid_report(v),
        i + enc_report(v).len() <= ws.len(),
        ws.subrange(i, i + enc_report(v).len() as int) == enc_report(v),
    ensures
        dec_report(ws, i) == Some((v, i + enc_report(v).len())),
{
    let e = enc_report(v);
    let pos_0: int = i;
    assert(ws.subrange(pos_0, pos_0 + e.len() as int) == e);
    let a_0 = enc_u128(v.id);
    let b_0 = enc_u128(v.project_id) + (enc_genre(v.genre) + (enc_opt_market(v.market_data) + (enc_source(v.data_source) + (enc_u32(v.total_works_in_genre) + (enc_u64(v.average_views_top100) + (enc_u64(v.average_favorites_top100) + (enc_i32(v.trend_score) + (enc_works(v.top_works) + (enc_strs(v.market_gaps) + (enc_u32(v.market_viability) + (enc_level(v.competition_level) + (enc_u32(v.differentiation_potential) + (enc_rec(v.recommendation) + (enc_strs(v.suggested_angles) + enc_i64(v.generated_at)))))))))))))));
    lemma_split_window(ws, pos_0, a_0, b_0);
    lemma_dec_enc_u128(v.id, ws, pos_0);
    let pos_1: int = pos_0 + a_0.len() as int;
    let a_1 = enc_u128(v.project_id);
    let b_1 = enc_genre(v.genre) + (enc_opt_market(v.market_data) + (enc_source(v.data_source) + (enc_u32(v.total_works_in_genre) + (enc_u64(v.average_views_top100) + (enc_u64(v.average_favorites_top100) + (enc_i32(v.trend_score) + (enc_works(v.top_works) + (enc_strs(v.market_gaps) + (enc_u32(v.market_viability) + (enc_level(v.competition_level) + (enc_u32(v.differentiation_potential) + (enc_rec(v.recommendation) + (enc_strs(v.suggested_angles) + enc_i64(v.generated_at))))))))))))));
    lemma_split_window(ws, pos_1, a_1, b_1);
    lemma_dec_enc_u128(v.project_id, ws, pos_1);
    let pos_2: int = pos_1 + a_1.len() as int;
    let a_2 = enc_genre(v.genre);
    let b_2 = enc_opt_market(v.market_data) + (enc_source(v.data_source) + (enc_u32(v.total_works_in_genre) + (enc_u64(v.average_views_top100) + (enc_u64(v.average_favorites_top100) + (enc_i32(v.trend_score) + (enc_works(v.top_works) + (enc_strs(v.market_gaps) + (enc_u32(v.market_viability) + (enc_level(v.competition_level) + (enc_u32(v.differentiation_potential) + (enc_rec(v.recommendation) + (enc_strs(v.suggested_angles) + enc_i64(v.generated_at)))))))))))));
    lemma_split_window(ws, pos_2, a_2, b_2);
    lemma_dec_enc_genre(v.genre, ws, pos_2);
    let pos_3: int = pos_2 + a_2.len() as int;
    let a_3 = enc_opt_market(v.market_data);
    let b_3 = enc_source(v.data_source) + (enc_u32(v.total_works_in_genre) + (enc_u64(v.average_views_top100) + (enc_u64(v.average_favorites_top100) + (enc_i32(v.trend_score) + (enc_works(v.top_works) + (enc_strs(v.market_gaps) + (enc_u32(v.market_viability) + (enc_level(v.competition_level) + (enc_u32(v.differentiation_potential) + (enc_rec(v.recommendation) + (enc_strs(v.suggested_angles) + enc_i64(v.generated_at))))))))))));
    lemma_split_window(ws, pos_3, a_3, b_3);
    lemma_dec_enc_opt_market(v.market_data, ws, pos_3);
    let pos_4: int = pos_3 + a_3.len() as int;
    let a_4 = enc_source(v.data_source);
    let b_4 = enc_u32(v.total_works_in_genre) + (enc_u64(v.average_views_top100) + (enc_u64(v.average_favorites_top100) + (enc_i32(v.trend_score) + (enc_works(v.top_works) + (enc_strs(v.market_gaps) + (enc_u32(v.market_viability) + (enc_level(v.competition_level) + (enc_u32(v.differentiation_potential) + (enc_rec(v.recommendation) + (enc_strs(v.suggested_angles) + enc_i64(v.generated_at)))))))))));
    lemma_split_window(ws, pos_4, a_4, b_4);
    lemma_dec_enc_source(v.data_source, ws, pos_4);
    let pos_5: int = pos_4 + a_4.len() as int;
    let a_5 = enc_u32(v.total_works_in_genre);
    let b_5 = enc_u64(v.average_views_top100) + (enc_u64(v.average_favorites_top100) + (enc_i32(v.trend_score) + (enc_works(v.top_works) + (enc_strs(v.market_gaps) + (enc_u32(v.market_viability) + (enc_level(v.competition_level) + (enc_u32(v.differentiation_potential) + (enc_rec(v.recommendation) + (enc_strs(v.suggested_angles) + enc_i64(v.generated_at))))))))));
    lemma_split_window(ws, pos_5, a_5, b_5);
    lemma_dec_enc_u32(v.total_works_in_genre, ws, pos_5);
    let pos_6: int = pos_5 + a_5.len() as int;
    let a_6 = enc_u64(v.average_views_top100);
    let b_6 = enc_u64(v.average_favorites_top100) + (enc_i32(v.trend_score) + (enc_works(v.top_works) + (enc_strs(v.market_gaps) + (enc_u32(v.market_viability) + (enc_level(v.competition_level) + (enc_u32(v.differentiation_potential) + (enc_rec(v.recommendation) + (enc_strs(v.suggested_angles) + enc_i64(v.generated_at)))))))));
    lemma_split_window(ws, pos_6, a_6, b_6);
    lemma_dec_enc_u64(v.average_views_top100, ws, pos_6);
    let pos_7: int = pos_6 + a_6.len() as int;
    let a_7 = enc_u64(v.average_favorites_top100);
    let b_7 = enc_i32(v.trend_score) + (enc_works(v.top_works) + (enc_strs(v.market_gaps) + (enc_u32(v.market_viability) + (enc_level(v.competition_level) + (enc_u32(v.differentiation_potential) + (enc_rec(v.recommendation) + (enc_strs(v.suggested_angles) + enc_i64(v.generated_at))))))));
    lemma_split_window(ws, pos_7, a_7, b_7);
    lemma_dec_enc_u64(v.average_favorites_top100, ws, pos_7);
    let pos_8: int = pos_7 + a_7.len() as int;
    let a_8 = enc_i32(v.trend_score);
    let b_8 = enc_works(v.top_works) + (enc_strs(v.market_gaps) + (enc_u32(v.market_viability) + (enc_level(v.competition_level) + (enc_u32(v.differentiation_potential) + (enc_rec(v.recommendation) + (enc_strs(v.suggested_angles) + enc_i64(v.generated_at)))))));
    lemma_split_window(ws, pos_8, a_8, b_8);
    lemma_dec_enc_i32(v.trend_score, ws, pos_8);
    let pos_9: int = pos_8 + a_8.len() as int;
    let a_9 = enc_works(v.top_works);
    let b_9 = enc_strs(v.market_gaps) + (enc_u32(v.market_viability) + (enc_level(v.competition_level) + (enc_u32(v.differentiation_potential) + (enc_rec(v.recommendation) + (enc_strs(v.suggested_angles) + enc_i64(v.generated_at))))));
    lemma_split_window(ws, pos_9, a_9, b_9);
    lemma_dec_enc_works(v.top_works, ws, pos_9);
    let pos_10: int = pos_9 + a_9.len() as int;
    let a_10 = enc_strs(v.market_gaps);
    let b_10 = enc_u32(v.market_viability) + (enc_level(v.competition_level) + (enc_u32(v.differentiation_potential) + (enc_rec(v.recommendation) + (enc_strs(v.suggested_angles) + enc_i64(v.generated_at)))));
    lemma_split_window(ws, pos_10, a_10, b_10);
    lemma_dec_enc_strs(v.market_gaps, ws, pos_10);
    let pos_11: int = pos_10 + a_10.len() as int;
    let a_11 = enc_u32(v.market_viability);
    let b_11 = enc_level(v.competition_level) + (enc_u32(v.differentiation_potential) + (enc_rec(v.recommendation) + (enc_strs(v.suggested_angles) + enc_i64(v.generated_at))));
    lemma_split_window(ws, pos_11, a_11, b_11);
    lemma_dec_enc_u32(v.market_viability, ws, pos_11);
    let pos_12: int = pos_11 + a_11.len() as int;
    let a_12 = enc_level(v.competition_level);
    let b_12 = enc_u32(v.differentiation_potential) + (enc_rec(v.recommendation) + (enc_strs(v.suggested_angles) + enc_i64(v.generated_at)));
    lemma_split_window(ws, pos_12, a_12, b_12);
    lemma_dec_enc_level(v.competition_level, ws, pos_12);
    let pos_13: int = pos_12 + a_12.len() as int;
    let a_13 = enc_u32(v.differentiation_potential);
    let b_13 = enc_rec(v.recommendation) + (enc_strs(v.suggested_angles) + enc_i64(v.generated_at));
    lemma_split_window(ws, pos_13, a_13, b_13);
    lemma_dec_enc_u32(v.differentiation_potential, ws, pos_13);
    let pos_14: int = pos_13 + a_13.len() as int;
    let a_14 = enc_rec(v.recommendation);
    let b_14 = enc_strs(v.suggested_angles) + enc_i64(v.generated_at);
    lemma_split_window(ws, pos_14, a_14, b_14);
    lemma_dec_enc_rec(v.recommendation, ws, pos_14);
    let pos_15: int = pos_14 + a_14.len() as int;
    let a_15 = enc_strs(v.suggested_angles);
    let b_15 = enc_i64(v.generated_at);
    lemma_split_window(ws, pos_15, a_15, b_15);
    lemma_dec_enc_strs(v.suggested_angles, ws, pos_15);
    let pos_16: int = pos_15 + a_15.len() as int;
    lemma_dec_enc_i64(v.generated_at, ws, pos_16);
}



fn put_u64(out: &mut Vec<u64>, v: u64)
    ensures
        final(out)@ == old(out)@ + enc_u64(v),
{
    out.push(v);
    assert(final(out)@ =~= old(out)@ + enc_u64(v));
}

fn put_u32(out: &mut Vec<u64>, v: u32)
    ensures
        final(out)@ == old(out)@ + enc_u32(v),
{
    out.push(v as u64);
    assert(final(out)@ =~= old(out)@ + enc_u32(v));
}

fn put_bool(out: &mut Vec<u64>, v: bool)
    ensures
        final(out)@ == old(out)@ + enc_bool(v),
{
    if v {
        out.push(1);
    } else {
        out.push(0);
    }
    assert(final(out)@ =~= old(out)@ + enc_bool(v));
}

fn put_u128(out: &mut Vec<u64>, v: u128)
    ensures
        final(out)@ == old(out)@ + enc_u128(v),
{
    proof {
        assert(v / 0x1_0000_0000_0000_0000 <= u64::MAX) by (nonlinear_arith);
    }
    out.push((v / 0x1_0000_0000_0000_0000) as u64);
    out.push((v % 0x1_0000_0000_0000_0000) as u64);
    assert(final(out)@ =~= old(out)@ + enc_u128(v));
}

fn put_i64(out: &mut Vec<u64>, v: i64)
    ensures
        final(out)@ == old(out)@ + enc_i64(v),
{
    if v < 0 {
        out.push(1);
        out.push((-(v as i128)) as u64);
    } else {
        out.push(0);
        out.push(v as u64);
    }
    assert(final(out)@ =~= old(out)@ + enc_i64(v));
}

fn put_i32(out: &mut Vec<u64>, v: i32)
    ensures
        final(out)@ == old(out)@ + enc_i32(v),
{
    put_i64(out, v as i64);
}

fn put_str(out: &mut Vec<u64>, s: &String)
    ensures
        final(out)@ == old(out)@ + enc_str(s@),
{
    let n = s.as_str().unicode_len();
    out.push(n as u64);
    let mut j: usize = 0;
    while j < n
        invariant
            n == s@.len(),
            0 <= j <= n,
            out@ == old(out)@ + seq![n as u64] + chars_words(s@).take(j as int),
        decreases n - j,
    {
        let c = s.as_str().get_char(j);
        out.push((c as u32) as u64);
        assert(out@ =~= old(out)@ + seq![n as u64] + chars_words(s@).take(j + 1));
        j += 1;
    }
    assert(out@ =~= old(out)@ + enc_str(s@));
}

fn put_opt_str(out: &mut Vec<u64>, o: &Option<String>)
    ensures
        final(out)@ == old(out)@ + enc_opt_str(
            match o {
                Some(s) => Some(s@),
                None => None,
            },
        ),
{
    match o {
        None => {
            out.push(0);
            assert(final(out)@ =~= old(out)@ + enc_opt_str(Option::<Seq<char>>::None));
        },
        Some(s) => {
            out.push(1);
            put_str(out, s);
            assert(final(out)@ =~= old(out)@ + enc_opt_str(Some(s@)));
        },
    }
}

proof fn lemma_enc_str_items_push(ss: Seq<Seq<char>>, x: Seq<char>)
    ensures
        enc_str_items(ss.push(x)) == enc_str_items(ss) + enc_str(x),
    decreases ss.len(),
{
    if ss.len() == 0 {
        assert(ss.push(x).drop_first() =~= Seq::<Seq<char>>::empty());
        assert(ss.push(x)[0] == x);
        assert(enc_str_items(Seq::<Seq<char>>::empty()) == Seq::<u64>::empty());
        assert(enc_str_items(ss) == Seq::<u64>::empty());
        assert(enc_str_items(ss.push(x)) == enc_str(x) + enc_str_items(
            ss.push(x).drop_first(),
        ));
        assert(enc_str_items(ss.push(x)) =~= enc_str_items(ss) + enc_str(x));
    } else {
        assert(ss.push(x).drop_first() =~= ss.drop_first().push(x));
        lemma_enc_str_items_push(ss.drop_first(), x);
        assert(enc_str_items(ss.push(x)) =~= enc_str_items(ss) + enc_str(x));
    }
}

fn put_strs(out: &mut Vec<u64>, ss: &Vec<String>)
    ensures
        final(out)@ == old(out)@ + enc_strs(crate::models::validation::seq_views(ss@)),
{
    let n = ss.len();
    out.push(n as u64);
    let mut j: usize = 0;
    while j < n
        invariant
            n == ss@.len(),
            0 <= j <= n,
            out@ == old(out)@ + seq![n as u64] + enc_str_items(
                crate::models::validation::seq_views(ss@).take(j as int),
            ),
        decreases n - j,
    {
        put_str(out, &ss[j]);
        proof {
            lemma_enc_str_items_push(
                crate::models::validation::seq_views(ss@).take(j as int),
                ss@[j as int]@,
            );
            assert(crate::models::validation::seq_views(ss@).take(j + 1)
                =~= crate::models::validation::seq_views(ss@).take(j as int).push(ss@[j as int]@));
            assert(out@ =~= old(out)@ + seq![n as u64] + enc_str_items(
                crate::models::validation::seq_views(ss@).take(j + 1),
            ));
        }
        j += 1;
    }
    proof {
        assert(crate::models::validation::seq_views(ss@).take(n as int)
            =~= crate::models::validation::seq_views(ss@));
        assert(out@ =~= old(out)@ + enc_strs(crate::models::validation::seq_views(ss@)));
    }
}

fn take_u64(ws: &Vec<u64>, i: usize) -> (r: Option<(u64, usize)>)
    ensures
        match r {
            Some((v, j)) => dec_u64(ws@, i as int) == Some((v, j as int)) && j <= ws@.len(),
            None => dec_u64(ws@, i as int) is None,
        },
{
    if i < ws.len() {
        Some((ws[i], i + 1))
    } else {
        None
    }
}

fn take_u32(ws: &Vec<u64>, i: usize) -> (r: Option<(u32, usize)>)
    ensures
        match r {
            Some((v, j)) => dec_u32(ws@, i as int) == Some((v, j as int)) && j <= ws@.len(),
            None => dec_u32(ws@, i as int) is None,
        },
{
    if i < ws.len() && ws[i] <= u32::MAX as u64 {
        Some((ws[i] as u32, i + 1))
    } else {
        None
    }
}

fn take_bool(ws: &Vec<u64>, i: usize) -> (r: Option<(bool, usize)>)
    ensures
        match r {
            Some((v, j)) => dec_bool(ws@, i as int) == Some((v, j as int)) && j <= ws@.len(),
            None => dec_bool(ws@, i as int) is None,
        },
{
    if i < ws.len() && (ws[i] == 0 || ws[i] == 1) {
        Some((ws[i] == 1, i + 1))
    } else {
        None
    }
}

fn take_u128(ws: &Vec<u64>, i: usize) -> (r: Option<(u128, usize)>)
    ensures
        match r {
            Some((v, j)) => dec_u128(ws@, i as int) == Some((v, j as int)) && j <= ws@.len(),
            None => dec_u128(ws@, i as int) is None,
        },
{
    if i < ws.len() && i + 1 < ws.len() {
        let hi = ws[i];
        let lo = ws[i + 1];
        Some((hi as u128 * 0x1_0000_0000_0000_0000 + lo as u128, i + 2))
    } else {
        None
    }
}

fn take_i64(ws: &Vec<u64>, i: usize) -> (r: Option<(i64, usize)>)
    ensures
        match r {
            Some((v, j)) => dec_i64(ws@, i as int) == Some((v, j as int)) && j <= ws@.len(),
            None => dec_i64(ws@, i as int) is None,
        },
{
    if i < ws.len() && i + 1 < ws.len() {
        let flag = ws[i];
        let mag = ws[i + 1];
        if flag == 0 && mag <= i64::MAX as u64 {
            Some((mag as i64, i + 2))
        } else if flag == 1 && 1 <= mag && mag <= 0x8000_0000_0000_0000 {
            Some(((-(mag as i128)) as i64, i + 2))
        } else {
            None
        }
    } else {
        None
    }
}

fn take_i32(ws: &Vec<u64>, i: usize) -> (r: Option<(i32, usize)>)
    ensures
        match r {
            Some((v, j)) => dec_i32(ws@, i as int) == Some((v, j as int)) && j <= ws@.len(),
            None => dec_i32(ws@, i as int) is None,
        },
{
    match take_i64(ws, i) {
        Some((v, j)) => {
            if i32::MIN as i64 <= v && v <= i32::MAX as i64 {
                Some((v as i32, j))
            } else {
                None
            }
        },
        None => None,
    }
}

fn take_str(ws: &Vec<u64>, i: usize) -> (r: Option<(String, usize)>)
    ensures
        match r {
            Some((s, j)) => dec_str(ws@, i as int) == Some((s@, j as int)) && j <= ws@.len(),
            None => dec_str(ws@, i as int) is None,
        },
{
    if i >= ws.len() {
        return None;
    }
    let n64 = ws[i];
    if n64 > (ws.len() - (i + 1)) as u64 {
        return None;
    }
    let n = n64 as usize;
    let ghost target = Seq::new(n as nat, |j: int| (ws@[i + 1 + j] as u32) as char);
    let mut s = String::new();
    let mut j: usize = 0;
    while j < n
        invariant
            i < ws@.len(),
            ws@.len() <= usize::MAX,
            n == ws@[i as int] as int,
            i + 1 + n <= ws@.len(),
            0 <= j <= n,
            target == Seq::new(n as nat, |k: int| (ws@[i + 1 + k] as u32) as char),
            forall|k: int| 0 <= k < j ==> is_char_word(#[trigger] ws@[i + 1 + k]),
            s@ == target.take(j as int),
        decreases n - j,
    {
        let w = ws[i + 1 + j];
        if w > u32::MAX as u64 {
            assert(!is_char_word(ws@[i + 1 + j]));
            return None;
        }
        match char_from_u32(w as u32) {
            Some(c) => {
                assert(is_char_word(ws@[i + 1 + j]));
                proof {
                    vstd::utf8::char_u32_cast(c, c as u32);
                }
                assert(c == target[j as int]);
                crate::strutil::push_char(&mut s, c);
                assert(s@ =~= target.take(j + 1));
                j += 1;
            },
            None => {
                assert(!is_char_word(ws@[i + 1 + j]));
                return None;
            },
        }
    }
    assert(s@ =~= target);
    Some((s, i + 1 + n))
}

fn take_opt_str(ws: &Vec<u64>, i: usize) -> (r: Option<(Option<String>, usize)>)
    ensures
        match r {
            Some((o, j)) => dec_opt_str(ws@, i as int) == Some(
                (
                    match o {
                        Some(s) => Some(s@),
                        None => None,
                    },
                    j as int,
                ),
            ) && j <= ws@.len(),
            None => dec_opt_str(ws@, i as int) is None,
        },
{
    if i >= ws.len() {
        return None;
    }
    if ws[i] == 0 {
        Some((None, i + 1))
    } else if ws[i] == 1 {
        match take_str(ws, i + 1) {
            Some((s, j)) => Some((Some(s), j)),
            None => None,
        }
    } else {
        None
    }
}

fn take_strs(ws: &Vec<u64>, i: usize) -> (r: Option<(Vec<String>, usize)>)
    ensures
        match r {
            Some((ss, j)) => dec_strs(ws@, i as int) == Some(
                (crate::models::validation::seq_views(ss@), j as int),
            ) && j <= ws@.len(),
            None => dec_strs(ws@, i as int) is None,
        },
{
    let (n, start) = match take_u64(ws, i) {
        Some(p) => p,
        None => {
            return None;
        },
    };
    let ghost total_dec = dec_str_items(ws@, start as int, n as nat);
    let mut out: Vec<String> = Vec::new();
    let mut cur: usize = start;
    let mut k: u64 = 0;
    proof {
        if total_dec is Some {
            let pr = total_dec->0;
            assert(crate::models::validation::seq_views(out@) + pr.0 =~= pr.0);
        }
    }
    while k < n
        invariant
            0 <= k <= n,
            cur <= ws@.len(),
            total_dec == dec_str_items(ws@, start as int, n as nat),
            dec_strs(ws@, i as int) == total_dec,
            total_dec is Some <==> dec_str_items(ws@, cur as int, (n - k) as nat) is Some,
            total_dec matches Some(pr) ==> (dec_str_items(ws@, cur as int, (n - k) as nat)
                matches Some(qr) && pr.0 == crate::models::validation::seq_views(out@) + qr.0
                && pr.1 == qr.1),
        decreases n - k,
    {
        match take_str(ws, cur) {
            Some((s, j)) => {
                proof {
                    assert(dec_str_items(ws@, cur as int, (n - k) as nat) == (
                    match dec_str_items(ws@, j as int, (n - k - 1) as nat) {
                        Some((rest, e)) => Some((seq![s@] + rest, e)),
                        None => None::<(Seq<Seq<char>>, int)>,
                    }));
                    crate::models::validation::lemma_seq_views_push(out@, s);
                    if total_dec is Some {
                        let pr = total_dec->0;
                        let qr = dec_str_items(ws@, cur as int, (n - k) as nat)->0;
                        let rr = dec_str_items(ws@, j as int, (n - k - 1) as nat)->0;
                        assert(crate::models::validation::seq_views(out@) + (seq![s@] + rr.0)
                            =~= (crate::models::validation::seq_views(out@) + seq![s@]) + rr.0);
                        assert(crate::models::validation::seq_views(out@) + seq![s@]
                            =~= crate::models::validation::seq_views(out@).push(s@));
                    }
                }
                out.push(s);
                cur = j;
            },
            None => {
                proof {
                    assert(dec_str_items(ws@, cur as int, (n - k) as nat) is None);
                }
                return None;
            },
        }
        k += 1;
    }
    proof {
        if total_dec is Some {
            let pr = total_dec->0;
            assert(crate::models::validation::seq_views(out@) + Seq::<Seq<char>>::empty()
                =~= crate::models::validation::seq_views(out@));
        }
    }
    Some((out, cur))
}



proof fn lemma_concat_assoc(a: Seq<u64>, b: Seq<u64>, c: Seq<u64>)
    ensures
        (a + b) + c == a + (b + c),
{
    assert((a + b) + c =~= a + (b + c));
}

/// The view of an optional string.
pub open spec fn view_opt_str(o: Option<String>) -> Option<Seq<char>> {
    match o {
        Some(s) => Some(s@),
        None => None,
    }
}


fn put_genre(out: &mut Vec<u64>, v: crate::models::NovelGenre)
    ensures
        final(out)@ == old(out)@ + enc_genre(v),
{
    let w: u64 = match v {
        crate::models::NovelGenre::Fantasy => 0,
        crate::models::NovelGenre::Urban => 1,
        crate::models::NovelGenre::Xianxia => 2,
        crate::models::NovelGenre::Historical => 3,
        crate::models::NovelGenre::Romance => 4,
        crate::models::NovelGenre::Scifi => 5,
        crate::models::NovelGenre::Game => 6,
        crate::models::NovelGenre::Horror => 7,
        crate::models::NovelGenre::Other => 8,
    };
    out.push(w);
    assert(final(out)@ =~= old(out)@ + enc_genre(v));
}

fn take_genre(ws: &Vec<u64>, i: usize) -> (r: Option<(crate::models::NovelGenre, usize)>)
    ensures
        match r {
            Some((v, j)) => dec_genre(ws@, i as int) == Some((v, j as int)) && j <= ws@.len(),
            None => dec_genre(ws@, i as int) is None,
        },
{
    if i >= ws.len() {
        return None;
    }
    if ws[i] == 0 {
        Some((crate::models::NovelGenre::Fantasy, i + 1))
    } else if ws[i] == 1 {
        Some((crate::models::NovelGenre::Urban, i + 1))
    } else if ws[i] == 2 {
        Some((crate::models::NovelGenre::Xianxia, i + 1))
    } else if ws[i] == 3 {
        Some((crate::models::NovelGenre::Historical, i + 1))
    } else if ws[i] == 4 {
        Some((crate::models::NovelGenre::Romance, i + 1))
    } else if ws[i] == 5 {
        Some((crate::models::NovelGenre::Scifi, i + 1))
    } else if ws[i] == 6 {
        Some((crate::models::NovelGenre::Game, i + 1))
    } else if ws[i] == 7 {
        Some((crate::models::NovelGenre::Horror, i + 1))
    } else if ws[i] == 8 {
        Some((crate::models::NovelGenre::Other, i + 1))
    } else {
        None
    }
}


fn put_source(out: &mut Vec<u64>, v: crate::models::DataSource)
    ensures
        final(out)@ == old(out)@ + enc_source(v),
{
    let w: u64 = match v {
        crate::models::DataSource::FanqieLive => 0,
        crate::models::DataSource::FanqieCache => 1,
        crate::models::DataSource::Fallback => 2,
    };
    out.push(w);
    assert(final(out)@ =~= old(out)@ + enc_source(v));
}

fn take_source(ws: &Vec<u64>, i: usize) -> (r: Option<(crate::models::DataSource, usize)>)
    ensures
        match r {
            Some((v, j)) => dec_source(ws@, i as int) == Some((v, j as int)) && j <= ws@.len(),
            None => dec_source(ws@, i as int) is None,
        },
{
    if i >= ws.len() {
        return None;
    }
    if ws[i] == 0 {
        Some((crate::models::DataSource::FanqieLive, i + 1))
    } else if ws[i] == 1 {
        Some((crate::models::DataSource::FanqieCache, i + 1))
    } else if ws[i] == 2 {
        Some((crate::models::DataSource::Fallback, i + 1))
    } else {
        None
    }
}


fn put_level(out: &mut Vec<u64>, v: crate::models::CompetitionLevel)
    ensures
        final(out)@ == old(out)@ + enc_level(v),
{
    let w: u64 = match v {
        crate::models::CompetitionLevel::Low => 0,
        crate::models::CompetitionLevel::Medium => 1,
        crate::models::CompetitionLevel::High => 2,
    };
    out.push(w);
    assert(final(out)@ =~= old(out)@ + enc_level(v));
}

fn take_level(ws: &Vec<u64>, i: usize) -> (r: Option<(crate::models::CompetitionLevel, usize)>)
    ensures
        match r {
            Some((v, j)) => dec_level(ws@, i as int) == Some((v, j as int)) && j <= ws@.len(),
            None => dec_level(ws@, i as int) is None,
        },
{
    if i >= ws.len() {
        return None;
    }
    if ws[i] == 0 {
        Some((crate::models::CompetitionLevel::Low, i + 1))
    } else if ws[i] == 1 {
        Some((crate::models::CompetitionLevel::Medium, i + 1))
    } else if ws[i] == 2 {
        Some((crate::models::CompetitionLevel::High, i + 1))
    } else {
        None
    }
}


fn put_rec(out: &mut Vec<u64>, v: crate::models::Recommendation)
    ensures
        final(out)@ == old(out)@ + enc_rec(v),
{
    let w: u64 = match v {
        crate::models::Recommendation::Proceed => 0,
        crate::models::Recommendation::Revise => 1,
        crate::models::Recommendation::Reject => 2,
    };
    out.push(w);
    assert(final(out)@ =~= old(out)@ + enc_rec(v));
}

fn take_rec(ws: &Vec<u64>, i: usize) -> (r: Option<(crate::models::Recommendation, usize)>)
    ensures
        match r {
            Some((v, j)) => dec_rec(ws@, i as int) == Some((v, j as int)) && j <= ws@.len(),
            None => dec_rec(ws@, i as int) is None,
        },
{
    if i >= ws.len() {
        return None;
    }
    if ws[i] == 0 {
        Some((crate::models::Recommendation::Proceed, i + 1))
    } else if ws[i] == 1 {
        Some((crate::models::Recommendation::Revise, i + 1))
    } else if ws[i] == 2 {
        Some((crate::models::Recommendation::Reject, i + 1))
    } else {
        None
    }
}


fn put_ostatus(out: &mut Vec<u64>, v: crate::models::OutlineStatus)
    ensures
        final(out)@ == old(out)@ + enc_ostatus(v),
{
    let w: u64 = match v {
        crate::models::OutlineStatus::Draft => 0,
        crate::models::OutlineStatus::Approved => 1,
        crate::models::OutlineStatus::Locked => 2,
    };
    out.push(w);
    assert(final(out)@ =~= old(out)@ + enc_ostatus(v));
}

fn take_ostatus(ws: &Vec<u64>, i: usize) -> (r: Option<(crate::models::OutlineStatus, usize)>)
    ensures
        match r {
            Some((v, j)) => dec_ostatus(ws@, i as int) == Some((v, j as int)) && j <= ws@.len(),
            None => dec_ostatus(ws@, i as int) is None,
        },
{
    if i >= ws.len() {
        return None;
    }
    if ws[i] == 0 {
        Some((crate::models::OutlineStatus::Draft, i + 1))
    } else if ws[i] == 1 {
        Some((crate::models::OutlineStatus::Approved, i + 1))
    } else if ws[i] == 2 {
        Some((crate::models::OutlineStatus::Locked, i + 1))
    } else {
        None
    }
}


fn put_wtype(out: &mut Vec<u64>, v: crate::models::WorldType)
    ensures
        final(out)@ == old(out)@ + enc_wtype(v),
{
    let w: u64 = match v {
        crate::models::WorldType::Modern => 0,
        crate::models::WorldType::Fantasy => 1,
        crate::models::WorldType::Scifi => 2,
        crate::models::WorldType::Historical => 3,
        crate::models::WorldType::Xianxia => 4,
    };
    out.push(w);
    assert(final(out)@ =~= old(out)@ + enc_wtype(v));
}

fn take_wtype(ws: &Vec<u64>, i: usize) -> (r: Option<(crate::models::WorldType, usize)>)
    ensures
        match r {
            Some((v, j)) => dec_wtype(ws@, i as int) == Some((v, j as int)) && j <= ws@.len(),
            None => dec_wtype(ws@, i as int) is None,
        },
{
    if i >= ws.len() {
        return None;
    }
    if ws[i] == 0 {
        Some((crate::models::WorldType::Modern, i + 1))
    } else if ws[i] == 1 {
        Some((crate::models::WorldType::Fantasy, i + 1))
    } else if ws[i] == 2 {
        Some((crate::models::WorldType::Scifi, i + 1))
    } else if ws[i] == 3 {
        Some((crate::models::WorldType::Historical, i + 1))
    } else if ws[i] == 4 {
        Some((crate::models::WorldType::Xianxia, i + 1))
    } else {
        None
    }
}


fn put_role(out: &mut Vec<u64>, v: crate::models::CharacterRole)
    ensures
        final(out)@ == old(out)@ + enc_role(v),
{
    let w: u64 = match v {
        crate::models::CharacterRole::Protagonist => 0,
        crate::models::CharacterRole::Supporting => 1,
        crate::models::CharacterRole::Antagonist => 2,
    };
    out.push(w);
    assert(final(out)@ =~= old(out)@ + enc_role(v));
}

fn take_role(ws: &Vec<u64>, i: usize) -> (r: Option<(crate::models::CharacterRole, usize)>)
    ensures
        match r {
            Some((v, j)) => dec_role(ws@, i as int) == Some((v, j as int)) && j <= ws@.len(),
            None => dec_role(ws@, i as int) is None,
        },
{
    if i >= ws.len() {
        return None;
    }
    if ws[i] == 0 {
        Some((crate::models::CharacterRole::Protagonist, i + 1))
    } else if ws[i] == 1 {
        Some((crate::models::CharacterRole::Supporting, i + 1))
    } else if ws[i] == 2 {
        Some((crate::models::CharacterRole::Antagonist, i + 1))
    } else {
        None
    }
}


fn put_importance(out: &mut Vec<u64>, v: crate::models::LocationImportance)
    ensures
        final(out)@ == old(out)@ + enc_importance(v),
{
    let w: u64 = match v {
        crate::models::LocationImportance::Major => 0,
        crate::models::LocationImportance::Minor => 1,
    };
    out.push(w);
    assert(final(out)@ =~= old(out)@ + enc_importance(v));
}

fn take_importance(ws: &Vec<u64>, i: usize) -> (r: Option<(crate::models::LocationImportance, usize)>)
    ensures
        match r {
            Some((v, j)) => dec_importance(ws@, i as int) == Some((v, j as int)) && j <= ws@.len(),
            None => dec_importance(ws@, i as int) is None,
        },
{
    if i >= ws.len() {
        return None;
    }
    if ws[i] == 0 {
        Some((crate::models::LocationImportance::Major, i + 1))
    } else if ws[i] == 1 {
        Some((crate::models::LocationImportance::Minor, i + 1))
    } else {
        None
    }
}


fn put_category(out: &mut Vec<u64>, v: crate::models::SensitiveCategory)
    ensures
        final(out)@ == old(out)@ + enc_category(v),
{
    let w: u64 = match v {
        crate::models::SensitiveCategory::Violence => 0,
        crate::models::SensitiveCategory::Explicit => 1,
        crate::models::SensitiveCategory::Political => 2,
        crate::models::SensitiveCategory::Other => 3,
    };
    out.push(w);
    assert(final(out)@ =~= old(out)@ + enc_category(v));
}

fn take_category(ws: &Vec<u64>, i: usize) -> (r: Option<(crate::models::SensitiveCategory, usize)>)
    ensures
        match r {
            Some((v, j)) => dec_category(ws@, i as int) == Some((v, j as int)) && j <= ws@.len(),
            None => dec_category(ws@, i as int) is None,
        },
{
    if i >= ws.len() {
        return None;
    }
    if ws[i] == 0 {
        Some((crate::models::SensitiveCategory::Violence, i + 1))
    } else if ws[i] == 1 {
        Some((crate::models::SensitiveCategory::Explicit, i + 1))
    } else if ws[i] == 2 {
        Some((crate::models::SensitiveCategory::Political, i + 1))
    } else if ws[i] == 3 {
        Some((crate::models::SensitiveCategory::Other, i + 1))
    } else {
        None
    }
}


fn put_severity(out: &mut Vec<u64>, v: crate::models::SensitiveSeverity)
    ensures
        final(out)@ == old(out)@ + enc_severity(v),
{
    let w: u64 = match v {
        crate::models::SensitiveSeverity::Low => 0,
        crate::models::SensitiveSeverity::Medium => 1,
        crate::models::SensitiveSeverity::High => 2,
    };
    out.push(w);
    assert(final(out)@ =~= old(out)@ + enc_severity(v));
}

fn take_severity(ws: &Vec<u64>, i: usize) -> (r: Option<(crate::models::SensitiveSeverity, usize)>)
    ensures
        match r {
            Some((v, j)) => dec_severity(ws@, i as int) == Some((v, j as int)) && j <= ws@.len(),
            None => dec_severity(ws@, i as int) is None,
        },
{
    if i >= ws.len() {
        return None;
    }
    if ws[i] == 0 {
        Some((crate::models::SensitiveSeverity::Low, i + 1))
    } else if ws[i] == 1 {
        Some((crate::models::SensitiveSeverity::Medium, i + 1))
    } else if ws[i] == 2 {
        Some((crate::models::SensitiveSeverity::High, i + 1))
    } else {
        None
    }
}


/// The view of the optional value.
pub open spec fn view_opt_u32(o: Option<u32>) -> Option<u32> {
    match o {
        Some(x) => Some(x),
        None => None,
    }
}

fn put_opt_u32(out: &mut Vec<u64>, o: &Option<u32>)
    ensures
        final(out)@ == old(out)@ + enc_opt_u32(view_opt_u32(*o)),
{
    match o {
        None => {
            out.push(0);
            assert(final(out)@ =~= old(out)@ + enc_opt_u32(view_opt_u32(*o)));
        },
        Some(x) => {
            out.push(1);
            put_u32(out, *x);
            assert(final(out)@ =~= old(out)@ + enc_opt_u32(view_opt_u32(*o)));
        },
    }
}

fn take_opt_u32(ws: &Vec<u64>, i: usize) -> (r: Option<(Option<u32>, usize)>)
    ensures
        match r {
            Some((o, j)) => dec_opt_u32(ws@, i as int) == Some((view_opt_u32(o), j as int)) && j
                <= ws@.len(),
            None => dec_opt_u32(ws@, i as int) is None,
        },
{
    if i >= ws.len() {
        return None;
    }
    if ws[i] == 0 {
        Some((None, i + 1))
    } else if ws[i] == 1 {
        match take_u32(ws, i + 1) {
            Some((x, j)) => Some((Some(x), j)),
            None => None,
        }
    } else {
        None
    }
}


/// The plain view of the record.
pub open spec fn view_moment(v: crate::models::CharacterMoment) -> CharacterMomentV {
    CharacterMomentV {
        chapter: v.chapter,
        description: v.description@,
        development: v.development@,
    }
}

fn put_moment(out: &mut Vec<u64>, v: &crate::models::CharacterMoment)
    ensures
        final(out)@ == old(out)@ + enc_moment(view_moment(*v)),
{
    put_u32(out, v.chapter);
    let ghost l_0 = out@;
    put_str(out, &v.description);
    let ghost l_1 = out@;
    put_str(out, &v.development);
    let ghost l_2 = out@;
    proof {
        let r_2 = enc_str(v.development@);
        let r_1 = enc_str(v.description@) + r_2;
        let r_0 = enc_u32(v.chapter) + r_1;
        lemma_concat_assoc(l_0, enc_str(v.description@), r_2);
        lemma_concat_assoc(old(out)@, enc_u32(v.chapter), r_1);
        assert(out@ == old(out)@ + r_0);
        assert(r_0 == enc_moment(view_moment(*v)));
    }
}

fn take_moment(ws: &Vec<u64>, i: usize) -> (r: Option<(crate::models::CharacterMoment, usize)>)
    ensures
        match r {
            Some((v, j)) => dec_moment(ws@, i as int) == Some((view_moment(v), j as int)) && j
                <= ws@.len(),
            None => dec_moment(ws@, i as int) is None,
        },
{
    let (x_0, p_0) = match take_u32(ws, i) {
        Some(p) => p,
        None => {
            return None;
        },
    };
    let (x_1, p_1) = match take_str(ws, p_0) {
        Some(p) => p,
        None => {
            return None;
        },
    };
    let (x_2, p_2) = match take_str(ws, p_1) {
        Some(p) => p,
        None => {
            return None;
        },
    };
    let built = crate::models::CharacterMoment { chapter: x_0, description: x_1, development: x_2 };
    Some((built, p_2))
}


/// The views of the listed records, in order.
pub open spec fn view_moments(s: Seq<crate::models::CharacterMoment>) -> Seq<CharacterMomentV> {
    s.map_values(|x: crate::models::CharacterMoment| view_moment(x))
}

proof fn lemma_view_moments_push(s: Seq<crate::models::CharacterMoment>, x: crate::models::CharacterMoment)
    ensures
        view_moments(s.push(x)) == view_moments(s).push(view_moment(x)),
{
    assert(view_moments(s.push(x)) =~= view_moments(s).push(view_moment(x)));
}

proof fn lemma_enc_moments_items_push(ss: Seq<CharacterMomentV>, x: CharacterMomentV)
    ensures
        enc_moments_items(ss.push(x)) == enc_moments_items(ss) + enc_moment(x),
    decreases ss.len(),
{
    if ss.len() == 0 {
        assert(ss.push(x).drop_first() =~= Seq::<CharacterMomentV>::empty());
        assert(ss.push(x)[0] == x);
        assert(enc_moments_items(Seq::<CharacterMomentV>::empty()) == Seq::<u64>::empty());
        assert(enc_moments_items(ss) == Seq::<u64>::empty());
        assert(enc_moments_items(ss.push(x)) == enc_moment(x) + enc_moments_items(
            ss.push(x).drop_first(),
        ));
        assert(enc_moments_items(ss.push(x)) =~= enc_moments_items(ss) + enc_moment(x));
    } else {
        assert(ss.push(x).drop_first() =~= ss.drop_first().push(x));
        lemma_enc_moments_items_push(ss.drop_first(), x);
        assert(enc_moments_items(ss.push(x)) =~= enc_moments_items(ss) + enc_moment(x));
    }
}

fn put_moments(out: &mut Vec<u64>, items: &Vec<crate::models::CharacterMoment>)
    ensures
        final(out)@ == old(out)@ + enc_moments(view_moments(items@)),
{
    let n = items.len();
    out.push(n as u64);
    let mut j: usize = 0;
    while j < n
        invariant
            n == items@.len(),
            0 <= j <= n,
            out@ == old(out)@ + seq![n as u64] + enc_moments_items(view_moments(items@.take(j as int))),
        decreases n - j,
    {
        put_moment(out, &items[j]);
        proof {
            lemma_view_moments_push(items@.take(j as int), items@[j as int]);
            lemma_enc_moments_items_push(
                view_moments(items@.take(j as int)),
                view_moment(items@[j as int]),
            );
            assert(items@.take(j + 1) =~= items@.take(j as int).push(items@[j as int]));
            assert(out@ =~= old(out)@ + seq![n as u64] + enc_moments_items(
                view_moments(items@.take(j + 1)),
            ));
        }
        j += 1;
    }
    proof {
        assert(items@.take(n as int) =~= items@);
        assert(out@ =~= old(out)@ + enc_moments(view_moments(items@)));
    }
}

fn take_moments(ws: &Vec<u64>, i: usize) -> (r: Option<(Vec<crate::models::CharacterMoment>, usize)>)
    ensures
        match r {
            Some((items, j)) => dec_moments(ws@, i as int) == Some(
                (view_moments(items@), j as int),
            ) && j <= ws@.len(),
            None => dec_moments(ws@, i as int) is None,
        },
{
    let (n, start) = match take_u64(ws, i) {
        Some(p) => p,
        None => {
            return None;
        },
    };
    let ghost total_dec = dec_moments_items(ws@, start as int, n as nat);
    let mut out_items: Vec<crate::models::CharacterMoment> = Vec::new();
    let mut cur: usize = start;
    let mut k: u64 = 0;
    proof {
        if total_dec is Some {
            let pr = total_dec->0;
            assert(view_moments(out_items@) + pr.0 =~= pr.0);
        }
    }
    while k < n
        invariant
            0 <= k <= n,
            cur <= ws@.len(),
            total_dec == dec_moments_items(ws@, start as int, n as nat),
            dec_moments(ws@, i as int) == total_dec,
            total_dec is Some <==> dec_moments_items(ws@, cur as int, (n - k) as nat) is Some,
            total_dec matches Some(pr) ==> (dec_moments_items(ws@, cur as int, (n - k) as nat)
                matches Some(qr) && pr.0 == view_moments(out_items@) + qr.0 && pr.1 == qr.1),
        decreases n - k,
    {
        match take_moment(ws, cur) {
            Some((x, j)) => {
                proof {
                    assert(dec_moments_items(ws@, cur as int, (n - k) as nat) == (
                    match dec_moments_items(ws@, j as int, (n - k - 1) as nat) {
                        Some((rest, e)) => Some((seq![view_moment(x)] + rest, e)),
                        None => None::<(Seq<CharacterMomentV>, int)>,
                    }));
                    lemma_view_moments_push(out_items@, x);
                    if total_dec is Some {
                        let rr = dec_moments_items(ws@, j as int, (n - k - 1) as nat)->0;
                        assert(view_moments(out_items@) + (seq![view_moment(x)] + rr.0)
                            =~= (view_moments(out_items@) + seq![view_moment(x)]) + rr.0);
                        assert(view_moments(out_items@) + seq![view_moment(x)]
                            =~= view_moments(out_items@).push(view_moment(x)));
                    }
                }
                out_items.push(x);
                cur = j;
            },
            None => {
                proof {
                    assert(dec_moments_items(ws@, cur as int, (n - k) as nat) is None);
                }
                return None;
            },
        }
        k += 1;
    }
    proof {
        if total_dec is Some {
            assert(view_moments(out_items@) + Seq::<CharacterMomentV>::empty() =~= view_moments(out_items@));
        }
    }
    Some((out_items, cur))
}


/// The plain view of the record.
pub open spec fn view_arc(v: crate::models::PlotArc) -> PlotArcV {
    PlotArcV {
        id: v.id,
        name: v.name@,
        start_chapter: v.start_chapter,
        end_chapter: v.end_chapter,
        summary: v.summary@,
        key_events: crate::models::validation::seq_views(v.key_events@),
        climax: v.climax@,
    }
}

fn put_arc(out: &mut Vec<u64>, v: &crate::models::PlotArc)
    ensures
        final(out)@ == old(out)@ + enc_arc(view_arc(*v)),
{
    put_u128(out, v.id);
    let ghost l_0 = out@;
    put_str(out, &v.name);
    let ghost l_1 = out@;
    put_u32(out, v.start_chapter);
    let ghost l_2 = out@;
    put_u32(out, v.end_chapter);
    let ghost l_3 = out@;
    put_str(out, &v.summary);
    let ghost l_4 = out@;
    put_strs(out, &v.key_events);
    let ghost l_5 = out@;
    put_str(out, &v.climax);
    let ghost l_6 = out@;
    proof {
        let r_6 = enc_str(v.climax@);
        let r_5 = enc_strs(crate::models::validation::seq_views(v.key_events@)) + r_6;
        let r_4 = enc_str(v.summary@) + r_5;
        let r_3 = enc_u32(v.end_chapter) + r_4;
        let r_2 = enc_u32(v.start_chapter) + r_3;
        let r_1 = enc_str(v.name@) + r_2;
        let r_0 = enc_u128(v.id) + r_1;
        lemma_concat_assoc(l_4, enc_strs(crate::models::validation::seq_views(v.key_events@)), r_6);
        lemma_concat_assoc(l_3, enc_str(v.summary@), r_5);
        lemma_concat_assoc(l_2, enc_u32(v.end_chapter), r_4);
        lemma_concat_assoc(l_1, enc_u32(v.start_chapter), r_3);
        lemma_concat_assoc(l_0, enc_str(v.name@), r_2);
        lemma_concat_assoc(old(out)@, enc_u128(v.id), r_1);
        assert(out@ == old(out)@ + r_0);
        assert(r_0 == enc_arc(view_arc(*v)));
    }
}

fn take_arc(ws: &Vec<u64>, i: usize) -> (r: Option<(crate::models::PlotArc, usize)>)
    ensures
        match r {
            Some((v, j)) => dec_arc(ws@, i as int) == Some((view_arc(v), j as int)) && j
                <= ws@.len(),
            None => dec_arc(ws@, i as int) is None,
        },
{
    let (x_0, p_0) = match take_u128(ws, i) {
        Some(p) => p,
        None => {
            return None;
        },
    };
    let (x_1, p_1) = match take_str(ws, p_0) {
        Some(p) => p,
        None => {
            return None;
        },
    };
    let (x_2, p_2) = match take_u32(ws, p_1) {
        Some(p) => p,
        None => {
            return None;
        },
    };
    let (x_3, p_3) = match take_u32(ws, p_2) {
        Some(p) => p,
        None => {
            return None;
        },
    };
    let (x_4, p_4) = match take_str(ws, p_3) {
        Some(p) => p,
        None => {
            return None;
        },
    };
    let (x_5, p_5) = match take_strs(ws, p_4) {
        Some(p) => p,
        None => {
            return None;
        },
    };
    let (x_6, p_6) = match take_str(ws, p_5) {
        Some(p) => p,
        None => {
            return None;
        },
    };
    let built = crate::models::PlotArc { id: x_0, name: x_1, start_chapter: x_2, end_chapter: x_3, summary: x_4, key_events: x_5, climax: x_6 };
    Some((built, p_6))
}


/// The views of the listed records, in order.
pub open spec fn view_arcs(s: Seq<crate::models::PlotArc>) -> Seq<PlotArcV> {
    s.map_values(|x: crate::models::PlotArc| view_arc(x))
}

proof fn lemma_view_arcs_push(s: Seq<crate::models::PlotArc>, x: crate::models::PlotArc)
    ensures
        view_arcs(s.push(x)) == view_arcs(s).push(view_arc(x)),
{
    assert(view_arcs(s.push(x)) =~= view_arcs(s).push(view_arc(x)));
}

proof fn lemma_enc_arcs_items_push(ss: Seq<PlotArcV>, x: PlotArcV)
    ensures
        enc_arcs_items(ss.push(x)) == enc_arcs_items(ss) + enc_arc(x),
    decreases ss.len(),
{
    if ss.len() == 0 {
        assert(ss.push(x).drop_first() =~= Seq::<PlotArcV>::empty());
        assert(ss.push(x)[0] == x);
        assert(enc_arcs_items(Seq::<PlotArcV>::empty()) == Seq::<u64>::empty());
        assert(enc_arcs_items(ss) == Seq::<u64>::empty());
        assert(enc_arcs_items(ss.push(x)) == enc_arc(x) + enc_arcs_items(
            ss.push(x).drop_first(),
        ));
        assert(enc_arcs_items(ss.push(x)) =~= enc_arcs_items(ss) + enc_arc(x));
    } else {
        assert(ss.push(x).drop_first() =~= ss.drop_first().push(x));
        lemma_enc_arcs_items_push(ss.drop_first(), x);
        assert(enc_arcs_items(ss.push(x)) =~= enc_arcs_items(ss) + enc_arc(x));
    }
}

fn put_arcs(out: &mut Vec<u64>, items: &Vec<crate::models::PlotArc>)
    ensures
        final(out)@ == old(out)@ + enc_arcs(view_arcs(items@)),
{
    let n = items.len();
    out.push(n as u64);
    let mut j: usize = 0;
    while j < n
        invariant
            n == items@.len(),
            0 <= j <= n,
            out@ == old(out)@ + seq![n as u64] + enc_arcs_items(view_arcs(items@.take(j as int))),
        decreases n - j,
    {
        put_arc(out, &items[j]);
        proof {
            lemma_view_arcs_push(items@.take(j as int), items@[j as int]);
            lemma_enc_arcs_items_push(
                view_arcs(items@.take(j as int)),
                view_arc(items@[j as int]),
            );
            assert(items@.take(j + 1) =~= items@.take(j as int).push(items@[j as int]));
            assert(out@ =~= old(out)@ + seq![n as u64] + enc_arcs_items(
                view_arcs(items@.take(j + 1)),
            ));
        }
        j += 1;
    }
    proof {
        assert(items@.take(n as int) =~= items@);
        assert(out@ =~= old(out)@ + enc_arcs(view_arcs(items@)));
    }
}

fn take_arcs(ws: &Vec<u64>, i: usize) -> (r: Option<(Vec<crate::models::PlotArc>, usize)>)
    ensures
        match r {
            Some((items, j)) => dec_arcs(ws@, i as int) == Some(
                (view_arcs(items@), j as int),
            ) && j <= ws@.len(),
            None => dec_arcs(ws@, i as int) is None,
        },
{
    let (n, start) = match take_u64(ws, i) {
        Some(p) => p,
        None => {
            return None;
        },
    };
    let ghost total_dec = dec_arcs_items(ws@, start as int, n as nat);
    let mut out_items: Vec<crate::models::PlotArc> = Vec::new();
    let mut cur: usize = start;
    let mut k: u64 = 0;
    proof {
        if total_dec is Some {
            let pr = total_dec->0;
            assert(view_arcs(out_items@) + pr.0 =~= pr.0);
        }
    }
    while k < n
        invariant
            0 <= k <= n,
            cur <= ws@.len(),
            total_dec == dec_arcs_items(ws@, start as int, n as nat),
            dec_arcs(ws@, i as int) == total_dec,
            total_dec is Some <==> dec_arcs_items(ws@, cur as int, (n - k) as nat) is Some,
            total_dec matches Some(pr) ==> (dec_arcs_items(ws@, cur as int, (n - k) as nat)
                matches Some(qr) && pr.0 == view_arcs(out_items@) + qr.0 && pr.1 == qr.1),
        decreases n - k,
    {
        match take_arc(ws, cur) {
            Some((x, j)) => {
                proof {
                    assert(dec_arcs_items(ws@, cur as int, (n - k) as nat) == (
                    match dec_arcs_items(ws@, j as int, (n - k - 1) as nat) {
                        Some((rest, e)) => Some((seq![view_arc(x)] + rest, e)),
                        None => None::<(Seq<PlotArcV>, int)>,
                    }));
                    lemma_view_arcs_push(out_items@, x);
                    if total_dec is Some {
                        let rr = dec_arcs_items(ws@, j as int, (n - k - 1) as nat)->0;
                        assert(view_arcs(out_items@) + (seq![view_arc(x)] + rr.0)
                            =~= (view_arcs(out_items@) + seq![view_arc(x)]) + rr.0);
                        assert(view_arcs(out_items@) + seq![view_arc(x)]
                            =~= view_arcs(out_items@).push(view_arc(x)));
                    }
                }
                out_items.push(x);
                cur = j;
            },
            None => {
                proof {
                    assert(dec_arcs_items(ws@, cur as int, (n - k) as nat) is None);
                }
                return None;
            },
        }
        k += 1;
    }
    proof {
        if total_dec is Some {
            assert(view_arcs(out_items@) + Seq::<PlotArcV>::empty() =~= view_arcs(out_items@));
        }
    }
    Some((out_items, cur))
}


/// The plain view of the record.
pub open spec fn view_charv(v: crate::models::CharacterArc) -> CharacterArcV {
    CharacterArcV {
        id: v.id,
        name: v.name@,
        role: v.role,
        description: v.description@,
        personality_traits: crate::models::validation::seq_views(v.personality_traits@),
        arc_description: v.arc_description@,
        key_moments: view_moments(v.key_moments@),
    }
}

fn put_charv(out: &mut Vec<u64>, v: &crate::models::CharacterArc)
    ensures
        final(out)@ == old(out)@ + enc_charv(view_charv(*v)),
{
    put_u128(out, v.id);
    let ghost l_0 = out@;
    put_str(out, &v.name);
    let ghost l_1 = out@;
    put_role(out, v.role);
    let ghost l_2 = out@;
    put_str(out, &v.description);
    let ghost l_3 = out@;
    put_strs(out, &v.personality_traits);
    let ghost l_4 = out@;
    put_str(out, &v.arc_description);
    let ghost l_5 = out@;
    put_moments(out, &v.key_moments);
    let ghost l_6 = out@;
    proof {
        let r_6 = enc_moments(view_moments(v.key_moments@));
        let r_5 = enc_str(v.arc_description@) + r_6;
        let r_4 = enc_strs(crate::models::validation::seq_views(v.personality_traits@)) + r_5;
        let r_3 = enc_str(v.description@) + r_4;
        let r_2 = enc_role(v.role) + r_3;
        let r_1 = enc_str(v.name@) + r_2;
        let r_0 = enc_u128(v.id) + r_1;
        lemma_concat_assoc(l_4, enc_str(v.arc_description@), r_6);
        lemma_concat_assoc(l_3, enc_strs(crate::models::validation::seq_views(v.personality_traits@)), r_5);
        lemma_concat_assoc(l_2, enc_str(v.description@), r_4);
        lemma_concat_assoc(l_1, enc_role(v.role), r_3);
        lemma_concat_assoc(l_0, enc_str(v.name@), r_2);
        lemma_concat_assoc(old(out)@, enc_u128(v.id), r_1);
        assert(out@ == old(out)@ + r_0);
        assert(r_0 == enc_charv(view_charv(*v)));
    }
}

fn take_charv(ws: &Vec<u64>, i: usize) -> (r: Option<(crate::models::CharacterArc, usize)>)
    ensures
        match r {
            Some((v, j)) => dec_charv(ws@, i as int) == Some((view_charv(v), j as int)) && j
                <= ws@.len(),
            None => dec_charv(ws@, i as int) is None,
        },
{
    let (x_0, p_0) = match take_u128(ws, i) {
        Some(p) => p,
        None => {
            return None;
        },
    };
    let (x_1, p_1) = match take_str(ws, p_0) {
        Some(p) => p,
        None => {
            return None;
        },
    };
    let (x_2, p_2) = match take_role(ws, p_1) {
        Some(p) => p,
        None => {
            return None;
        },
    };
    let (x_3, p_3) = match take_str(ws, p_2) {
        Some(p) => p,
        None => {
            return None;
        },
    };
    let (x_4, p_4) = match take_strs(ws, p_3) {
        Some(p) => p,
        None => {
            return None;
        },
    };
    let (x_5, p_5) = match take_str(ws, p_4) {
        Some(p) => p,
        None => {
            return None;
        },
    };
    let (x_6, p_6) = match take_moments(ws, p_5) {
        Some(p) => p,
        None => {
            return None;
        },
    };
    let built = crate::models::CharacterArc { id: x_0, name: x_1, role: x_2, description: x_3, personality_traits: x_4, arc_description: x_5, key_moments: x_6 };
    Some((built, p_6))
}


/// The views of the listed records, in order.
pub open spec fn view_chars(s: Seq<crate::models::CharacterArc>) -> Seq<CharacterArcV> {
    s.map_values(|x: crate::models::CharacterArc| view_charv(x))
}

proof fn lemma_view_chars_push(s: Seq<crate::models::CharacterArc>, x: crate::models::CharacterArc)
    ensures
        view_chars(s.push(x)) == view_chars(s).push(view_charv(x)),
{
    assert(view_chars(s.push(x)) =~= view_chars(s).push(view_charv(x)));
}

proof fn lemma_enc_chars_items_push(ss: Seq<CharacterArcV>, x: CharacterArcV)
    ensures
        enc_chars_items(ss.push(x)) == enc_chars_items(ss) + enc_charv(x),
    decreases ss.len(),
{
    if ss.len() == 0 {
        assert(ss.push(x).drop_first() =~= Seq::<CharacterArcV>::empty());
        assert(ss.push(x)[0] == x);
        assert(enc_chars_items(Seq::<CharacterArcV>::empty()) == Seq::<u64>::empty());
        assert(enc_chars_items(ss) == Seq::<u64>::empty());
        assert(enc_chars_items(ss.push(x)) == enc_charv(x) + enc_chars_items(
            ss.push(x).drop_first(),
        ));
        assert(enc_chars_items(ss.push(x)) =~= enc_chars_items(ss) + enc_charv(x));
    } else {
        assert(ss.push(x).drop_first() =~= ss.drop_first().push(x));
        lemma_enc_chars_items_push(ss.drop_first(), x);
        assert(enc_chars_items(ss.push(x)) =~= enc_chars_items(ss) + enc_charv(x));
    }
}

fn put_chars(out: &mut Vec<u64>, items: &Vec<crate::models::CharacterArc>)
    ensures
        final(out)@ == old(out)@ + enc_chars(view_chars(items@)),
{
    let n = items.len();
    out.push(n as u64);
    let mut j: usize = 0;
    while j < n
        invariant
            n == items@.len(),
            0 <= j <= n,
            out@ == old(out)@ + seq![n as u64] + enc_chars_items(view_chars(items@.take(j as int))),
        decreases n - j,
    {
        put_charv(out, &items[j]);
        proof {
            lemma_view_chars_push(items@.take(j as int), items@[j as int]);
            lemma_enc_chars_items_push(
                view_chars(items@.take(j as int)),
                view_charv(items@[j as int]),
            );
            assert(items@.take(j + 1) =~= items@.take(j as int).push(items@[j as int]));
            assert(out@ =~= old(out)@ + seq![n as u64] + enc_chars_items(
                view_chars(items@.take(j + 1)),
            ));
        }
        j += 1;
    }
    proof {
        assert(items@.take(n as int) =~= items@);
        assert(out@ =~= old(out)@ + enc_chars(view_chars(items@)));
    }
}

fn take_chars(ws: &Vec<u64>, i: usize) -> (r: Option<(Vec<crate::models::CharacterArc>, usize)>)
    ensures
        match r {
            Some((items, j)) => dec_chars(ws@, i as int) == Some(
                (view_chars(items@), j as int),
            ) && j <= ws@.len(),
            None => dec_chars(ws@, i as int) is None,
        },
{
    let (n, start) = match take_u64(ws, i) {
        Some(p) => p,
        None => {
            return None;
        },
    };
    let ghost total_dec = dec_chars_items(ws@, start as int, n as nat);
    let mut out_items: Vec<crate::models::CharacterArc> = Vec::new();
    let mut cur: usize = start;
    let mut k: u64 = 0;
    proof {
        if total_dec is Some {
            let pr = total_dec->0;
            assert(view_chars(out_items@) + pr.0 =~= pr.0);
        }
    }
    while k < n
        invariant
            0 <= k <= n,
            cur <= ws@.len(),
            total_dec == dec_chars_items(ws@, start as int, n as nat),
            dec_chars(ws@, i as int) == total_dec,
            total_dec is Some <==> dec_chars_items(ws@, cur as int, (n - k) as nat) is Some,
            total_dec matches Some(pr) ==> (dec_chars_items(ws@, cur as int, (n - k) as nat)
                matches Some(qr) && pr.0 == view_chars(out_items@) + qr.0 && pr.1 == qr.1),
        decreases n - k,
    {
        match take_charv(ws, cur) {
            Some((x, j)) => {
                proof {
                    assert(dec_chars_items(ws@, cur as int, (n - k) as nat) == (
                    match dec_chars_items(ws@, j as int, (n - k - 1) as nat) {
                        Some((rest, e)) => Some((seq![view_charv(x)] + rest, e)),
                        None => None::<(Seq<CharacterArcV>, int)>,
                    }));
                    lemma_view_chars_push(out_items@, x);
                    if total_dec is Some {
                        let rr = dec_chars_items(ws@, j as int, (n - k - 1) as nat)->0;
                        assert(view_chars(out_items@) + (seq![view_charv(x)] + rr.0)
                            =~= (view_chars(out_items@) + seq![view_charv(x)]) + rr.0);
                        assert(view_chars(out_items@) + seq![view_charv(x)]
                            =~= view_chars(out_items@).push(view_charv(x)));
                    }
                }
                out_items.push(x);
                cur = j;
            },
            None => {
                proof {
                    assert(dec_chars_items(ws@, cur as int, (n - k) as nat) is None);
                }
                return None;
            },
        }
        k += 1;
    }
    proof {
        if total_dec is Some {
            assert(view_chars(out_items@) + Seq::<CharacterArcV>::empty() =~= view_chars(out_items@));
        }
    }
    Some((out_items, cur))
}


/// The plain view of the record.
pub open spec fn view_loc(v: crate::models::Location) -> LocationV {
    LocationV {
        name: v.name@,
        description: v.description@,
        importance: v.importance,
    }
}

fn put_loc(out: &mut Vec<u64>, v: &crate::models::Location)
    ensures
        final(out)@ == old(out)@ + enc_loc(view_loc(*v)),
{
    put_str(out, &v.name);
    let ghost l_0 = out@;
    put_str(out, &v.description);
    let ghost l_1 = out@;
    put_importance(out, v.importance);
    let ghost l_2 = out@;
    proof {
        let r_2 = enc_importance(v.importance);
        let r_1 = enc_str(v.description@) + r_2;
        let r_0 = enc_str(v.name@) + r_1;
        lemma_concat_assoc(l_0, enc_str(v.description@), r_2);
        lemma_concat_assoc(old(out)@, enc_str(v.name@), r_1);
        assert(out@ == old(out)@ + r_0);
        assert(r_0 == enc_loc(view_loc(*v)));
    }
}

fn take_loc(ws: &Vec<u64>, i: usize) -> (r: Option<(crate::models::Location, usize)>)
    ensures
        match r {
            Some((v, j)) => dec_loc(ws@, i as int) == Some((view_loc(v), j as int)) && j
                <= ws@.len(),
            None => dec_loc(ws@, i as int) is None,
        },
{
    let (x_0, p_0) = match take_str(ws, i) {
        Some(p) => p,
        None => {
            return None;
        },
    };
    let (x_1, p_1) = match take_str(ws, p_0) {
        Some(p) => p,
        None => {
            return None;
        },
    };
    let (x_2, p_2) = match take_importance(ws, p_1) {
        Some(p) => p,
        None => {
            return None;
        },
    };
    let built = crate::models::Location { name: x_0, description: x_1, importance: x_2 };
    Some((built, p_2))
}


/// The views of the listed records, in order.
pub open spec fn view_locs(s: Seq<crate::models::Location>) -> Seq<LocationV> {
    s.map_values(|x: crate::models::Location| view_loc(x))
}

proof fn lemma_view_locs_push(s: Seq<crate::models::Location>, x: crate::models::Location)
    ensures
        view_locs(s.push(x)) == view_locs(s).push(view_loc(x)),
{
    assert(view_locs(s.push(x)) =~= view_locs(s).push(view_loc(x)));
}

proof fn lemma_enc_locs_items_push(ss: Seq<LocationV>, x: LocationV)
    ensures
        enc_locs_items(ss.push(x)) == enc_locs_items(ss) + enc_loc(x),
    decreases ss.len(),
{
    if ss.len() == 0 {
        assert(ss.push(x).drop_first() =~= Seq::<LocationV>::empty());
        assert(ss.push(x)[0] == x);
        assert(enc_locs_items(Seq::<LocationV>::empty()) == Seq::<u64>::empty());
        assert(enc_locs_items(ss) == Seq::<u64>::empty());
        assert(enc_locs_items(ss.push(x)) == enc_loc(x) + enc_locs_items(
            ss.push(x).drop_first(),
        ));
        assert(enc_locs_items(ss.push(x)) =~= enc_locs_items(ss) + enc_loc(x));
    } else {
        assert(ss.push(x).drop_first() =~= ss.drop_first().push(x));
        lemma_enc_locs_items_push(ss.drop_first(), x);
        assert(enc_locs_items(ss.push(x)) =~= enc_locs_items(ss) + enc_loc(x));
    }
}

fn put_locs(out: &mut Vec<u64>, items: &Vec<crate::models::Location>)
    ensures
        final(out)@ == old(out)@ + enc_locs(view_locs(items@)),
{
    let n = items.len();
    out.push(n as u64);
    let mut j: usize = 0;
    while j < n
        invariant
            n == items@.len(),
            0 <= j <= n,
            out@ == old(out)@ + seq![n as u64] + enc_locs_items(view_locs(items@.take(j as int))),
        decreases n - j,
    {
        put_loc(out, &items[j]);
        proof {
            lemma_view_locs_push(items@.take(j as int), items@[j as int]);
            lemma_enc_locs_items_push(
                view_locs(items@.take(j as int)),
                view_loc(items@[j as int]),
            );
            assert(items@.take(j + 1) =~= items@.take(j as int).push(items@[j as int]));
            assert(out@ =~= old(out)@ + seq![n as u64] + enc_locs_items(
                view_locs(items@.take(j + 1)),
            ));
        }
        j += 1;
    }
    proof {
        assert(items@.take(n as int) =~= items@);
        assert(out@ =~= old(out)@ + enc_locs(view_locs(items@)));
    }
}

fn take_locs(ws: &Vec<u64>, i: usize) -> (r: Option<(Vec<crate::models::Location>, usize)>)
    ensures
        match r {
            Some((items, j)) => dec_locs(ws@, i as int) == Some(
                (view_locs(items@), j as int),
            ) && j <= ws@.len(),
            None => dec_locs(ws@, i as int) is None,
        },
{
    let (n, start) = match take_u64(ws, i) {
        Some(p) => p,
        None => {
            return None;
        },
    };
    let ghost total_dec = dec_locs_items(ws@, start as int, n as nat);
    let mut out_items: Vec<crate::models::Location> = Vec::new();
    let mut cur: usize = start;
    let mut k: u64 = 0;
    proof {
        if total_dec is Some {
            let pr = total_dec->0;
            assert(view_locs(out_items@) + pr.0 =~= pr.0);
        }
    }
    while k < n
        invariant
            0 <= k <= n,
            cur <= ws@.len(),
            total_dec == dec_locs_items(ws@, start as int, n as nat),
            dec_locs(ws@, i as int) == total_dec,
            total_dec is Some <==> dec_locs_items(ws@, cur as int, (n - k) as nat) is Some,
            total_dec matches Some(pr) ==> (dec_locs_items(ws@, cur as int, (n - k) as nat)
                matches Some(qr) && pr.0 == view_locs(out_items@) + qr.0 && pr.1 == qr.1),
        decreases n - k,
    {
        match take_loc(ws, cur) {
            Some((x, j)) => {
                proof {
                    assert(dec_locs_items(ws@, cur as int, (n - k) as nat) == (
                    match dec_locs_items(ws@, j as int, (n - k - 1) as nat) {
                        Some((rest, e)) => Some((seq![view_loc(x)] + rest, e)),
                        None => None::<(Seq<LocationV>, int)>,
                    }));
                    lemma_view_locs_push(out_items@, x);
                    if total_dec is Some {
                        let rr = dec_locs_items(ws@, j as int, (n - k - 1) as nat)->0;
                        assert(view_locs(out_items@) + (seq![view_loc(x)] + rr.0)
                            =~= (view_locs(out_items@) + seq![view_loc(x)]) + rr.0);
                        assert(view_locs(out_items@) + seq![view_loc(x)]
                            =~= view_locs(out_items@).push(view_loc(x)));
                    }
                }
                out_items.push(x);
                cur = j;
            },
            None => {
                proof {
                    assert(dec_locs_items(ws@, cur as int, (n - k) as nat) is None);
                }
                return None;
            },
        }
        k += 1;
    }
    proof {
        if total_dec is Some {
            assert(view_locs(out_items@) + Seq::<LocationV>::empty() =~= view_locs(out_items@));
        }
    }
    Some((out_items, cur))
}


/// The plain view of the record.
pub open spec fn view_world(v: crate::models::WorldSettings) -> WorldSettingsV {
    WorldSettingsV {
        name: v.name@,
        world_type: v.world_type,
        description: v.description@,
        rules: crate::models::validation::seq_views(v.rules@),
        locations: view_locs(v.locations@),
    }
}

fn put_world(out: &mut Vec<u64>, v: &crate::models::WorldSettings)
    ensures
        final(out)@ == old(out)@ + enc_world(view_world(*v)),
{
    put_str(out, &v.name);
    let ghost l_0 = out@;
    put_wtype(out, v.world_type);
    let ghost l_1 = out@;
    put_str(out, &v.description);
    let ghost l_2 = out@;
    put_strs(out, &v.rules);
    let ghost l_3 = out@;
    put_locs(out, &v.locations);
    let ghost l_4 = out@;
    proof {
        let r_4 = enc_locs(view_locs(v.locations@));
        let r_3 = enc_strs(crate::models::validation::seq_views(v.rules@)) + r_4;
        let r_2 = enc_str(v.description@) + r_3;
        let r_1 = enc_wtype(v.world_type) + r_2;
        let r_0 = enc_str(v.name@) + r_1;
        lemma_concat_assoc(l_2, enc_strs(crate::models::validation::seq_views(v.rules@)), r_4);
        lemma_concat_assoc(l_1, enc_str(v.description@), r_3);
        lemma_concat_assoc(l_0, enc_wtype(v.world_type), r_2);
        lemma_concat_assoc(old(out)@, enc_str(v.name@), r_1);
        assert(out@ == old(out)@ + r_0);
        assert(r_0 == enc_world(view_world(*v)));
    }
}

fn take_world(ws: &Vec<u64>, i: usize) -> (r: Option<(crate::models::WorldSettings, usize)>)
    ensures
        match r {
            Some((v, j)) => dec_world(ws@, i as int) == Some((view_world(v), j as int)) && j
                <= ws@.len(),
            None => dec_world(ws@, i as int) is None,
        },
{
    let (x_0, p_0) = match take_str(ws, i) {
        Some(p) => p,
        None => {
            return None;
        },
    };
    let (x_1, p_1) = match take_wtype(ws, p_0) {
        Some(p) => p,
        None => {
            return None;
        },
    };
    let (x_2, p_2) = match take_str(ws, p_1) {
        Some(p) => p,
        None => {
            return None;
        },
    };
    let (x_3, p_3) = match take_strs(ws, p_2) {
        Some(p) => p,
        None => {
            return None;
        },
    };
    let (x_4, p_4) = match take_locs(ws, p_3) {
        Some(p) => p,
        None => {
            return None;
        },
    };
    let built = crate::models::WorldSettings { name: x_0, world_type: x_1, description: x_2, rules: x_3, locations: x_4 };
    Some((built, p_4))
}


/// The plain view of the record.
pub open spec fn view_issue(v: crate::models::SensitiveContentIssue) -> SensitiveContentIssueV {
    SensitiveContentIssueV {
        category: v.category,
        description: v.description@,
        severity: v.severity,
        suggestion: v.suggestion@,
    }
}

fn put_issue(out: &mut Vec<u64>, v: &crate::models::SensitiveContentIssue)
    ensures
        final(out)@ == old(out)@ + enc_issue(view_issue(*v)),
{
    put_category(out, v.category);
    let ghost l_0 = out@;
    put_str(out, &v.description);
    let ghost l_1 = out@;
    put_severity(out, v.severity);
    let ghost l_2 = out@;
    put_str(out, &v.suggestion);
    let ghost l_3 = out@;
    proof {
        let r_3 = enc_str(v.suggestion@);
        let r_2 = enc_severity(v.severity) + r_3;
        let r_1 = enc_str(v.description@) + r_2;
        let r_0 = enc_category(v.category) + r_1;
        lemma_concat_assoc(l_1, enc_severity(v.severity), r_3);
        lemma_concat_assoc(l_0, enc_str(v.description@), r_2);
        lemma_concat_assoc(old(out)@, enc_category(v.category), r_1);
        assert(out@ == old(out)@ + r_0);
        assert(r_0 == enc_issue(view_issue(*v)));
    }
}

fn take_issue(ws: &Vec<u64>, i: usize) -> (r: Option<(crate::models::SensitiveContentIssue, usize)>)
    ensures
        match r {
            Some((v, j)) => dec_issue(ws@, i as int) == Some((view_issue(v), j as int)) && j
                <= ws@.len(),
            None => dec_issue(ws@, i as int) is None,
        },
{
    let (x_0, p_0) = match take_category(ws, i) {
        Some(p) => p,
        None => {
            return None;
        },
    };
    let (x_1, p_1) = match take_str(ws, p_0) {
        Some(p) => p,
        None => {
            return None;
        },
    };
    let (x_2, p_2) = match take_severity(ws, p_1) {
        Some(p) => p,
        None => {
            return None;
        },
    };
    let (x_3, p_3) = match take_str(ws, p_2) {
        Some(p) => p,
        None => {
            return None;
        },
    };
    let built = crate::models::SensitiveContentIssue { category: x_0, description: x_1, severity: x_2, suggestion: x_3 };
    Some((built, p_3))
}


/// The views of the listed records, in order.
pub open spec fn view_issues(s: Seq<crate::models::SensitiveContentIssue>) -> Seq<SensitiveContentIssueV> {
    s.map_values(|x: crate::models::SensitiveContentIssue| view_issue(x))
}

proof fn lemma_view_issues_push(s: Seq<crate::models::SensitiveContentIssue>, x: crate::models::SensitiveContentIssue)
    ensures
        view_issues(s.push(x)) == view_issues(s).push(view_issue(x)),
{
    assert(view_issues(s.push(x)) =~= view_issues(s).push(view_issue(x)));
}

proof fn lemma_enc_issues_items_push(ss: Seq<SensitiveContentIssueV>, x: SensitiveContentIssueV)
    ensures
        enc_issues_items(ss.push(x)) == enc_issues_items(ss) + enc_issue(x),
    decreases ss.len(),
{
    if ss.len() == 0 {
        assert(ss.push(x).drop_first() =~= Seq::<SensitiveContentIssueV>::empty());
        assert(ss.push(x)[0] == x);
        assert(enc_issues_items(Seq::<SensitiveContentIssueV>::empty()) == Seq::<u64>::empty());
        assert(enc_issues_items(ss) == Seq::<u64>::empty());
        assert(enc_issues_items(ss.push(x)) == enc_issue(x) + enc_issues_items(
            ss.push(x).drop_first(),
        ));
        assert(enc_issues_items(ss.push(x)) =~= enc_issues_items(ss) + enc_issue(x));
    } else {
        assert(ss.push(x).drop_first() =~= ss.drop_first().push(x));
        lemma_enc_issues_items_push(ss.drop_first(), x);
        assert(enc_issues_items(ss.push(x)) =~= enc_issues_items(ss) + enc_issue(x));
    }
}

fn put_issues(out: &mut Vec<u64>, items: &Vec<crate::models::SensitiveContentIssue>)
    ensures
        final(out)@ == old(out)@ + enc_issues(view_issues(items@)),
{
    let n = items.len();
    out.push(n as u64);
    let mut j: usize = 0;
    while j < n
        invariant
            n == items@.len(),
            0 <= j <= n,
            out@ == old(out)@ + seq![n as u64] + enc_issues_items(view_issues(items@.take(j as int))),
        decreases n - j,
    {
        put_issue(out, &items[j]);
        proof {
            lemma_view_issues_push(items@.take(j as int), items@[j as int]);
            lemma_enc_issues_items_push(
                view_issues(items@.take(j as int)),
                view_issue(items@[j as int]),
            );
            assert(items@.take(j + 1) =~= items@.take(j as int).push(items@[j as int]));
            assert(out@ =~= old(out)@ + seq![n as u64] + enc_issues_items(
                view_issues(items@.take(j + 1)),
            ));
        }
        j += 1;
    }
    proof {
        assert(items@.take(n as int) =~= items@);
        assert(out@ =~= old(out)@ + enc_issues(view_issues(items@)));
    }
}

fn take_issues(ws: &Vec<u64>, i: usize) -> (r: Option<(Vec<crate::models::SensitiveContentIssue>, usize)>)
    ensures
        match r {
            Some((items, j)) => dec_issues(ws@, i as int) == Some(
                (view_issues(items@), j as int),
            ) && j <= ws@.len(),
            None => dec_issues(ws@, i as int) is None,
        },
{
    let (n, start) = match take_u64(ws, i) {
        Some(p) => p,
        None => {
            return None;
        },
    };
    let ghost total_dec = dec_issues_items(ws@, start as int, n as nat);
    let mut out_items: Vec<crate::models::SensitiveContentIssue> = Vec::new();
    let mut cur: usize = start;
    let mut k: u64 = 0;
    proof {
        if total_dec is Some {
            let pr = total_dec->0;
            assert(view_issues(out_items@) + pr.0 =~= pr.0);
        }
    }
    while k < n
        invariant
            0 <= k <= n,
            cur <= ws@.len(),
            total_dec == dec_issues_items(ws@, start as int, n as nat),
            dec_issues(ws@, i as int) == total_dec,
            total_dec is Some <==> dec_issues_items(ws@, cur as int, (n - k) as nat) is Some,
            total_dec matches Some(pr) ==> (dec_issues_items(ws@, cur as int, (n - k) as nat)
                matches Some(qr) && pr.0 == view_issues(out_items@) + qr.0 && pr.1 == qr.1),
        decreases n - k,
    {
        match take_issue(ws, cur) {
            Some((x, j)) => {
                proof {
                    assert(dec_issues_items(ws@, cur as int, (n - k) as nat) == (
                    match dec_issues_items(ws@, j as int, (n - k - 1) as nat) {
                        Some((rest, e)) => Some((seq![view_issue(x)] + rest, e)),
                        None => None::<(Seq<SensitiveContentIssueV>, int)>,
                    }));
                    lemma_view_issues_push(out_items@, x);
                    if total_dec is Some {
                        let rr = dec_issues_items(ws@, j as int, (n - k - 1) as nat)->0;
                        assert(view_issues(out_items@) + (seq![view_issue(x)] + rr.0)
                            =~= (view_issues(out_items@) + seq![view_issue(x)]) + rr.0);
                        assert(view_issues(out_items@) + seq![view_issue(x)]
                            =~= view_issues(out_items@).push(view_issue(x)));
                    }
                }
                out_items.push(x);
                cur = j;
            },
            None => {
                proof {
                    assert(dec_issues_items(ws@, cur as int, (n - k) as nat) is None);
                }
                return None;
            },
        }
        k += 1;
    }
    proof {
        if total_dec is Some {
            assert(view_issues(out_items@) + Seq::<SensitiveContentIssueV>::empty() =~= view_issues(out_items@));
        }
    }
    Some((out_items, cur))
}


/// The plain view of the record.
pub open spec fn view_sens(v: crate::models::SensitiveContentResult) -> SensitiveContentResultV {
    SensitiveContentResultV {
        passed: v.passed,
        issues: view_issues(v.issues@),
    }
}

fn put_sens(out: &mut Vec<u64>, v: &crate::models::SensitiveContentResult)
    ensures
        final(out)@ == old(out)@ + enc_sens(view_sens(*v)),
{
    put_bool(out, v.passed);
    let ghost l_0 = out@;
    put_issues(out, &v.issues);
    let ghost l_1 = out@;
    proof {
        let r_1 = enc_issues(view_issues(v.issues@));
        let r_0 = enc_bool(v.passed) + r_1;
        lemma_concat_assoc(old(out)@, enc_bool(v.passed), r_1);
        assert(out@ == old(out)@ + r_0);
        assert(r_0 == enc_sens(view_sens(*v)));
    }
}

fn take_sens(ws: &Vec<u64>, i: usize) -> (r: Option<(crate::models::SensitiveContentResult, usize)>)
    ensures
        match r {
            Some((v, j)) => dec_sens(ws@, i as int) == Some((view_sens(v), j as int)) && j
                <= ws@.len(),
            None => dec_sens(ws@, i as int) is None,
        },
{
    let (x_0, p_0) = match take_bool(ws, i) {
        Some(p) => p,
        None => {
            return None;
        },
    };
    let (x_1, p_1) = match take_issues(ws, p_0) {
        Some(p) => p,
        None => {
            return None;
        },
    };
    let built = crate::models::SensitiveContentResult { passed: x_0, issues: x_1 };
    Some((built, p_1))
}


/// The plain view of the record.
pub open spec fn view_outlinev(v: crate::models::NovelOutline) -> NovelOutlineV {
    NovelOutlineV {
        id: v.id,
        project_id: v.project_id,
        premise: v.premise@,
        theme: v.theme@,
        target_word_count: v.target_word_count,
        arcs: view_arcs(v.arcs@),
        protagonist: view_charv(v.protagonist),
        supporting_characters: view_chars(v.supporting_characters@),
        world_settings: view_world(v.world_settings),
        sensitive_content_check: view_sens(v.sensitive_content_check),
        status: v.status,
        created_at: v.created_at,
        updated_at: v.updated_at,
    }
}

#[verifier::rlimit(100)]
#[verifier::spinoff_prover]
fn put_outlinev(out: &mut Vec<u64>, v: &crate::models::NovelOutline)
    ensures
        final(out)@ == old(out)@ + enc_outlinev(view_outlinev(*v)),
{
    put_u128(out, v.id);
    let ghost l_0 = out@;
    put_u128(out, v.project_id);
    let ghost l_1 = out@;
    put_str(out, &v.premise);
    let ghost l_2 = out@;
    put_str(out, &v.theme);
    let ghost l_3 = out@;
    put_u64(out, v.target_word_count);
    let ghost l_4 = out@;
    put_arcs(out, &v.arcs);
    let ghost l_5 = out@;
    put_charv(out, &v.protagonist);
    let ghost l_6 = out@;
    put_chars(out, &v.supporting_characters);
    let ghost l_7 = out@;
    put_world(out, &v.world_settings);
    let ghost l_8 = out@;
    put_sens(out, &v.sensitive_content_check);
    let ghost l_9 = out@;
    put_ostatus(out, v.status);
    let ghost l_10 = out@;
    put_i64(out, v.created_at);
    let ghost l_11 = out@;
    put_i64(out, v.updated_at);
    let ghost l_12 = out@;
    proof {
        let r_12 = enc_i64(v.updated_at);
        let r_11 = enc_i64(v.created_at) + r_12;
        let r_10 = enc_ostatus(v.status) + r_11;
        let r_9 = enc_sens(view_sens(v.sensitive_content_check)) + r_10;
        let r_8 = enc_world(view_world(v.world_settings)) + r_9;
        let r_7 = enc_chars(view_chars(v.supporting_characters@)) + r_8;
        let r_6 = enc_charv(view_charv(v.protagonist)) + r_7;
        let r_5 = enc_arcs(view_arcs(v.arcs@)) + r_6;
        let r_4 = enc_u64(v.target_word_count) + r_5;
        let r_3 = enc_str(v.theme@) + r_4;
        let r_2 = enc_str(v.premise@) + r_3;
        let r_1 = enc_u128(v.project_id) + r_2;
        let r_0 = enc_u128(v.id) + r_1;
        lemma_concat_assoc(l_10, enc_i64(v.created_at), r_12);
        lemma_concat_assoc(l_9, enc_ostatus(v.status), r_11);
        lemma_concat_assoc(l_8, enc_sens(view_sens(v.sensitive_content_check)), r_10);
        lemma_concat_assoc(l_7, enc_world(view_world(v.world_settings)), r_9);
        lemma_concat_assoc(l_6, enc_chars(view_chars(v.supporting_characters@)), r_8);
        lemma_concat_assoc(l_5, enc_charv(view_charv(v.protagonist)), r_7);
        lemma_concat_assoc(l_4, enc_arcs(view_arcs(v.arcs@)), r_6);
        lemma_concat_assoc(l_3, enc_u64(v.target_word_count), r_5);
        lemma_concat_assoc(l_2, enc_str(v.theme@), r_4);
        lemma_concat_assoc(l_1, enc_str(v.premise@), r_3);
        lemma_concat_assoc(l_0, enc_u128(v.project_id), r_2);
        lemma_concat_assoc(old(out)@, enc_u128(v.id), r_1);
        assert(out@ == old(out)@ + r_0);
        assert(r_0 == enc_outlinev(view_outlinev(*v)));
    }
}

#[verifier::rlimit(100)]
#[verifier::spinoff_prover]
fn take_outlinev(ws: &Vec<u64>, i: usize) -> (r: Option<(crate::models::NovelOutline, usize)>)
    ensures
        match r {
            Some((v, j)) => dec_outlinev(ws@, i as int) == Some((view_outlinev(v), j as int)) && j
                <= ws@.len(),
            None => dec_outlinev(ws@, i as int) is None,
        },
{
    let (x_0, p_0) = match take_u128(ws, i) {
        Some(p) => p,
        None => {
            return None;
        },
    };
    let (x_1, p_1) = match take_u128(ws, p_0) {
        Some(p) => p,
        None => {
            return None;
        },
    };
    let (x_2, p_2) = match take_str(ws, p_1) {
        Some(p) => p,
        None => {
            return None;
        },
    };
    let (x_3, p_3) = match take_str(ws, p_2) {
        Some(p) => p,
        None => {
            return None;
        },
    };
    let (x_4, p_4) = match take_u64(ws, p_3) {
        Some(p) => p,
        None => {
            return None;
        },
    };
    let (x_5, p_5) = match take_arcs(ws, p_4) {
        Some(p) => p,
        None => {
            return None;
        },
    };
    let (x_6, p_6) = match take_charv(ws, p_5) {
        Some(p) => p,
        None => {
            return None;
        },
    };
    let (x_7, p_7) = match take_chars(ws, p_6) {
        Some(p) => p,
        None => {
            return None;
        },
    };
    let (x_8, p_8) = match take_world(ws, p_7) {
        Some(p) => p,
        None => {
            return None;
        },
    };
    let (x_9, p_9) = match take_sens(ws, p_8) {
        Some(p) => p,
        None => {
            return None;
        },
    };
    let (x_10, p_10) = match take_ostatus(ws, p_9) {
        Some(p) => p,
        None => {
            return None;
        },
    };
    let (x_11, p_11) = match take_i64(ws, p_10) {
        Some(p) => p,
        None => {
            return None;
        },
    };
    let (x_12, p_12) = match take_i64(ws, p_11) {
        Some(p) => p,
        None => {
            return None;
        },
    };
    let built = crate::models::NovelOutline { id: x_0, project_id: x_1, premise: x_2, theme: x_3, target_word_count: x_4, arcs: x_5, protagonist: x_6, supporting_characters: x_7, world_settings: x_8, sensitive_content_check: x_9, status: x_10, created_at: x_11, updated_at: x_12 };
    Some((built, p_12))
}


/// The plain view of the record.
pub open spec fn view_chap(v: crate::models::ChapterSummary) -> ChapterSummaryV {
    ChapterSummaryV {
        number: v.number,
        title: v.title@,
        summary: v.summary@,
        key_events: crate::models::validation::seq_views(v.key_events@),
        protagonist_development: v.protagonist_development@,
        word_count_estimate: v.word_count_estimate,
        is_plot_twist_chapter: v.is_plot_twist_chapter,
        plot_twist_description: view_opt_str(v.plot_twist_description),
    }
}

fn put_chap(out: &mut Vec<u64>, v: &crate::models::ChapterSummary)
    ensures
        final(out)@ == old(out)@ + enc_chap(view_chap(*v)),
{
    put_u32(out, v.number);
    let ghost l_0 = out@;
    put_str(out, &v.title);
    let ghost l_1 = out@;
    put_str(out, &v.summary);
    let ghost l_2 = out@;
    put_strs(out, &v.key_events);
    let ghost l_3 = out@;
    put_str(out, &v.protagonist_development);
    let ghost l_4 = out@;
    put_u32(out, v.word_count_estimate);
    let ghost l_5 = out@;
    put_bool(out, v.is_plot_twist_chapter);
    let ghost l_6 = out@;
    put_opt_str(out, &v.plot_twist_description);
    let ghost l_7 = out@;
    proof {
        let r_7 = enc_opt_str(view_opt_str(v.plot_twist_description));
        let r_6 = enc_bool(v.is_plot_twist_chapter) + r_7;
        let r_5 = enc_u32(v.word_count_estimate) + r_6;
        let r_4 = enc_str(v.protagonist_development@) + r_5;
        let r_3 = enc_strs(crate::models::validation::seq_views(v.key_events@)) + r_4;
        let r_2 = enc_str(v.summary@) + r_3;
        let r_1 = enc_str(v.title@) + r_2;
        let r_0 = enc_u32(v.number) + r_1;
        lemma_concat_assoc(l_5, enc_bool(v.is_plot_twist_chapter), r_7);
        lemma_concat_assoc(l_4, enc_u32(v.word_count_estimate), r_6);
        lemma_concat_assoc(l_3, enc_str(v.protagonist_development@), r_5);
        lemma_concat_assoc(l_2, enc_strs(crate::models::validation::seq_views(v.key_events@)), r_4);
        lemma_concat_assoc(l_1, enc_str(v.summary@), r_3);
        lemma_concat_assoc(l_0, enc_str(v.title@), r_2);
        lemma_concat_assoc(old(out)@, enc_u32(v.number), r_1);
        assert(out@ == old(out)@ + r_0);
        assert(r_0 == enc_chap(view_chap(*v)));
    }
}

fn take_chap(ws: &Vec<u64>, i: usize) -> (r: Option<(crate::models::ChapterSummary, usize)>)
    ensures
        match r {
            Some((v, j)) => dec_chap(ws@, i as int) == Some((view_chap(v), j as int)) && j
                <= ws@.len(),
            None => dec_chap(ws@, i as int) is None,
        },
{
    let (x_0, p_0) = match take_u32(ws, i) {
        Some(p) => p,
        None => {
            return None;
        },
    };
    let (x_1, p_1) = match take_str(ws, p_0) {
        Some(p) => p,
        None => {
            return None;
        },
    };
    let (x_2, p_2) = match take_str(ws, p_1) {
        Some(p) => p,
        None => {
            return None;
        },
    };
    let (x_3, p_3) = match take_strs(ws, p_2) {
        Some(p) => p,
        None => {
            return None;
        },
    };
    let (x_4, p_4) = match take_str(ws, p_3) {
        Some(p) => p,
        None => {
            return None;
        },
    };
    let (x_5, p_5) = match take_u32(ws, p_4) {
        Some(p) => p,
        None => {
            return None;
        },
    };
    let (x_6, p_6) = match take_bool(ws, p_5) {
        Some(p) => p,
        None => {
            return None;
        },
    };
    let (x_7, p_7) = match take_opt_str(ws, p_6) {
        Some(p) => p,
        None => {
            return None;
        },
    };
    let built = crate::models::ChapterSummary { number: x_0, title: x_1, summary: x_2, key_events: x_3, protagonist_development: x_4, word_count_estimate: x_5, is_plot_twist_chapter: x_6, plot_twist_description: x_7 };
    Some((built, p_7))
}


/// The views of the listed records, in order.
pub open spec fn view_chaps(s: Seq<crate::models::ChapterSummary>) -> Seq<ChapterSummaryV> {
    s.map_values(|x: crate::models::ChapterSummary| view_chap(x))
}

proof fn lemma_view_chaps_push(s: Seq<crate::models::ChapterSummary>, x: crate::models::ChapterSummary)
    ensures
        view_chaps(s.push(x)) == view_chaps(s).push(view_chap(x)),
{
    assert(view_chaps(s.push(x)) =~= view_chaps(s).push(view_chap(x)));
}

proof fn lemma_enc_chaps_items_push(ss: Seq<ChapterSummaryV>, x: ChapterSummaryV)
    ensures
        enc_chaps_items(ss.push(x)) == enc_chaps_items(ss) + enc_chap(x),
    decreases ss.len(),
{
    if ss.len() == 0 {
        assert(ss.push(x).drop_first() =~= Seq::<ChapterSummaryV>::empty());
        assert(ss.push(x)[0] == x);
        assert(enc_chaps_items(Seq::<ChapterSummaryV>::empty()) == Seq::<u64>::empty());
        assert(enc_chaps_items(ss) == Seq::<u64>::empty());
        assert(enc_chaps_items(ss.push(x)) == enc_chap(x) + enc_chaps_items(
            ss.push(x).drop_first(),
        ));
        assert(enc_chaps_items(ss.push(x)) =~= enc_chaps_items(ss) + enc_chap(x));
    } else {
        assert(ss.push(x).drop_first() =~= ss.drop_first().push(x));
        lemma_enc_chaps_items_push(ss.drop_first(), x);
        assert(enc_chaps_items(ss.push(x)) =~= enc_chaps_items(ss) + enc_chap(x));
    }
}

fn put_chaps(out: &mut Vec<u64>, items: &Vec<crate::models::ChapterSummary>)
    ensures
        final(out)@ == old(out)@ + enc_chaps(view_chaps(items@)),
{
    let n = items.len();
    out.push(n as u64);
    let mut j: usize = 0;
    while j < n
        invariant
            n == items@.len(),
            0 <= j <= n,
            out@ == old(out)@ + seq![n as u64] + enc_chaps_items(view_chaps(items@.take(j as int))),
        decreases n - j,
    {
        put_chap(out, &items[j]);
        proof {
            lemma_view_chaps_push(items@.take(j as int), items@[j as int]);
            lemma_enc_chaps_items_push(
                view_chaps(items@.take(j as int)),
                view_chap(items@[j as int]),
            );
            assert(items@.take(j + 1) =~= items@.take(j as int).push(items@[j as int]));
            assert(out@ =~= old(out)@ + seq![n as u64] + enc_chaps_items(
                view_chaps(items@.take(j + 1)),
            ));
        }
        j += 1;
    }
    proof {
        assert(items@.take(n as int) =~= items@);
        assert(out@ =~= old(out)@ + enc_chaps(view_chaps(items@)));
    }
}

fn take_chaps(ws: &Vec<u64>, i: usize) -> (r: Option<(Vec<crate::models::ChapterSummary>, usize)>)
    ensures
        match r {
            Some((items, j)) => dec_chaps(ws@, i as int) == Some(
                (view_chaps(items@), j as int),
            ) && j <= ws@.len(),
            None => dec_chaps(ws@, i as int) is None,
        },
{
    let (n, start) = match take_u64(ws, i) {
        Some(p) => p,
        None => {
            return None;
        },
    };
    let ghost total_dec = dec_chaps_items(ws@, start as int, n as nat);
    let mut out_items: Vec<crate::models::ChapterSummary> = Vec::new();
    let mut cur: usize = start;
    let mut k: u64 = 0;
    proof {
        if total_dec is Some {
            let pr = total_dec->0;
            assert(view_chaps(out_items@) + pr.0 =~= pr.0);
        }
    }
    while k < n
        invariant
            0 <= k <= n,
            cur <= ws@.len(),
            total_dec == dec_chaps_items(ws@, start as int, n as nat),
            dec_chaps(ws@, i as int) == total_dec,
            total_dec is Some <==> dec_chaps_items(ws@, cur as int, (n - k) as nat) is Some,
            total_dec matches Some(pr) ==> (dec_chaps_items(ws@, cur as int, (n - k) as nat)
                matches Some(qr) && pr.0 == view_chaps(out_items@) + qr.0 && pr.1 == qr.1),
        decreases n - k,
    {
        match take_chap(ws, cur) {
            Some((x, j)) => {
                proof {
                    assert(dec_chaps_items(ws@, cur as int, (n - k) as nat) == (
                    match dec_chaps_items(ws@, j as int, (n - k - 1) as nat) {
                        Some((rest, e)) => Some((seq![view_chap(x)] + rest, e)),
                        None => None::<(Seq<ChapterSummaryV>, int)>,
                    }));
                    lemma_view_chaps_push(out_items@, x);
                    if total_dec is Some {
                        let rr = dec_chaps_items(ws@, j as int, (n - k - 1) as nat)->0;
                        assert(view_chaps(out_items@) + (seq![view_chap(x)] + rr.0)
                            =~= (view_chaps(out_items@) + seq![view_chap(x)]) + rr.0);
                        assert(view_chaps(out_items@) + seq![view_chap(x)]
                            =~= view_chaps(out_items@).push(view_chap(x)));
                    }
                }
                out_items.push(x);
                cur = j;
            },
            None => {
                proof {
                    assert(dec_chaps_items(ws@, cur as int, (n - k) as nat) is None);
                }
                return None;
            },
        }
        k += 1;
    }
    proof {
        if total_dec is Some {
            assert(view_chaps(out_items@) + Seq::<ChapterSummaryV>::empty() =~= view_chaps(out_items@));
        }
    }
    Some((out_items, cur))
}


/// The view of the listed values.
pub open spec fn view_u32s(s: Seq<u32>) -> Seq<u32> {
    s
}

proof fn lemma_view_u32s_push(s: Seq<u32>, x: u32)
    ensures
        view_u32s(s.push(x)) == view_u32s(s).push(x),
{
}

proof fn lemma_enc_u32s_items_push(ss: Seq<u32>, x: u32)
    ensures
        enc_u32s_items(ss.push(x)) == enc_u32s_items(ss) + enc_u32(x),
    decreases ss.len(),
{
    if ss.len() == 0 {
        assert(ss.push(x).drop_first() =~= Seq::<u32>::empty());
        assert(ss.push(x)[0] == x);
        assert(enc_u32s_items(Seq::<u32>::empty()) == Seq::<u64>::empty());
        assert(enc_u32s_items(ss) == Seq::<u64>::empty());
        assert(enc_u32s_items(ss.push(x)) == enc_u32(x) + enc_u32s_items(
            ss.push(x).drop_first(),
        ));
        assert(enc_u32s_items(ss.push(x)) =~= enc_u32s_items(ss) + enc_u32(x));
    } else {
        assert(ss.push(x).drop_first() =~= ss.drop_first().push(x));
        lemma_enc_u32s_items_push(ss.drop_first(), x);
        assert(enc_u32s_items(ss.push(x)) =~= enc_u32s_items(ss) + enc_u32(x));
    }
}

fn put_u32s(out: &mut Vec<u64>, items: &Vec<u32>)
    ensures
        final(out)@ == old(out)@ + enc_u32s(view_u32s(items@)),
{
    let n = items.len();
    out.push(n as u64);
    let mut j: usize = 0;
    while j < n
        invariant
            n == items@.len(),
            0 <= j <= n,
            out@ == old(out)@ + seq![n as u64] + enc_u32s_items(view_u32s(items@.take(j as int))),
        decreases n - j,
    {
        put_u32(out, items[j]);
        proof {
            lemma_view_u32s_push(items@.take(j as int), items@[j as int]);
            lemma_enc_u32s_items_push(
                view_u32s(items@.take(j as int)),
                items@[j as int],
            );
            assert(items@.take(j + 1) =~= items@.take(j as int).push(items@[j as int]));
            assert(out@ =~= old(out)@ + seq![n as u64] + enc_u32s_items(
                view_u32s(items@.take(j + 1)),
            ));
        }
        j += 1;
    }
    proof {
        assert(items@.take(n as int) =~= items@);
        assert(out@ =~= old(out)@ + enc_u32s(view_u32s(items@)));
    }
}

fn take_u32s(ws: &Vec<u64>, i: usize) -> (r: Option<(Vec<u32>, usize)>)
    ensures
        match r {
            Some((items, j)) => dec_u32s(ws@, i as int) == Some(
                (view_u32s(items@), j as int),
            ) && j <= ws@.len(),
            None => dec_u32s(ws@, i as int) is None,
        },
{
    let (n, start) = match take_u64(ws, i) {
        Some(p) => p,
        None => {
            return None;
        },
    };
    let ghost total_dec = dec_u32s_items(ws@, start as int, n as nat);
    let mut out_items: Vec<u32> = Vec::new();
    let mut cur: usize = start;
    let mut k: u64 = 0;
    proof {
        if total_dec is Some {
            let pr = total_dec->0;
            assert(view_u32s(out_items@) + pr.0 =~= pr.0);
        }
    }
    while k < n
        invariant
            0 <= k <= n,
            cur <= ws@.len(),
            total_dec == dec_u32s_items(ws@, start as int, n as nat),
            dec_u32s(ws@, i as int) == total_dec,
            total_dec is Some <==> dec_u32s_items(ws@, cur as int, (n - k) as nat) is Some,
            total_dec matches Some(pr) ==> (dec_u32s_items(ws@, cur as int, (n - k) as nat)
                matches Some(qr) && pr.0 == view_u32s(out_items@) + qr.0 && pr.1 == qr.1),
        decreases n - k,
    {
        match take_u32(ws, cur) {
            Some((x, j)) => {
                proof {
                    assert(dec_u32s_items(ws@, cur as int, (n - k) as nat) == (
                    match dec_u32s_items(ws@, j as int, (n - k - 1) as nat) {
                        Some((rest, e)) => Some((seq![x] + rest, e)),
                        None => None::<(Seq<u32>, int)>,
                    }));
                    lemma_view_u32s_push(out_items@, x);
                    if total_dec is Some {
                        let rr = dec_u32s_items(ws@, j as int, (n - k - 1) as nat)->0;
                        assert(view_u32s(out_items@) + (seq![x] + rr.0)
                            =~= (view_u32s(out_items@) + seq![x]) + rr.0);
                        assert(view_u32s(out_items@) + seq![x]
                            =~= view_u32s(out_items@).push(x));
                    }
                }
                out_items.push(x);
                cur = j;
            },
            None => {
                proof {
                    assert(dec_u32s_items(ws@, cur as int, (n - k) as nat) is None);
                }
                return None;
            },
        }
        k += 1;
    }
    proof {
        if total_dec is Some {
            assert(view_u32s(out_items@) + Seq::<u32>::empty() =~= view_u32s(out_items@));
        }
    }
    Some((out_items, cur))
}


/// The plain view of the record.
pub open spec fn view_plan(v: crate::models::ChapterPlan) -> ChapterPlanV {
    ChapterPlanV {
        id: v.id,
        project_id: v.project_id,
        total_chapters: v.total_chapters,
        chapters: view_chaps(v.chapters@),
        plot_twist_positions: view_u32s(v.plot_twist_positions@),
        created_at: v.created_at,
        updated_at: v.updated_at,
    }
}

fn put_plan(out: &mut Vec<u64>, v: &crate::models::ChapterPlan)
    ensures
        final(out)@ == old(out)@ + enc_plan(view_plan(*v)),
{
    put_u128(out, v.id);
    let ghost l_0 = out@;
    put_u128(out, v.project_id);
    let ghost l_1 = out@;
    put_u32(out, v.total_chapters);
    let ghost l_2 = out@;
    put_chaps(out, &v.chapters);
    let ghost l_3 = out@;
    put_u32s(out, &v.plot_twist_positions);
    let ghost l_4 = out@;
    put_i64(out, v.created_at);
    let ghost l_5 = out@;
    put_i64(out, v.updated_at);
    let ghost l_6 = out@;
    proof {
        let r_6 = enc_i64(v.updated_at);
        let r_5 = enc_i64(v.created_at) + r_6;
        let r_4 = enc_u32s(view_u32s(v.plot_twist_positions@)) + r_5;
        let r_3 = enc_chaps(view_chaps(v.chapters@)) + r_4;
        let r_2 = enc_u32(v.total_chapters) + r_3;
        let r_1 = enc_u128(v.project_id) + r_2;
        let r_0 = enc_u128(v.id) + r_1;
        lemma_concat_assoc(l_4, enc_i64(v.created_at), r_6);
        lemma_concat_assoc(l_3, enc_u32s(view_u32s(v.plot_twist_positions@)), r_5);
        lemma_concat_assoc(l_2, enc_chaps(view_chaps(v.chapters@)), r_4);
        lemma_concat_assoc(l_1, enc_u32(v.total_chapters), r_3);
        lemma_concat_assoc(l_0, enc_u128(v.project_id), r_2);
        lemma_concat_assoc(old(out)@, enc_u128(v.id), r_1);
        assert(out@ == old(out)@ + r_0);
        assert(r_0 == enc_plan(view_plan(*v)));
    }
}

fn take_plan(ws: &Vec<u64>, i: usize) -> (r: Option<(crate::models::ChapterPlan, usize)>)
    ensures
        match r {
            Some((v, j)) => dec_plan(ws@, i as int) == Some((view_plan(v), j as int)) && j
                <= ws@.len(),
            None => dec_plan(ws@, i as int) is None,
        },
{
    let (x_0, p_0) = match take_u128(ws, i) {
        Some(p) => p,
        None => {
            return None;
        },
    };
    let (x_1, p_1) = match take_u128(ws, p_0) {
        Some(p) => p,
        None => {
            return None;
        },
    };
    let (x_2, p_2) = match take_u32(ws, p_1) {
        Some(p) => p,
        None => {
            return None;
        },
    };
    let (x_3, p_3) = match take_chaps(ws, p_2) {
        Some(p) => p,
        None => {
            return None;
        },
    };
    let (x_4, p_4) = match take_u32s(ws, p_3) {
        Some(p) => p,
        None => {
            return None;
        },
    };
    let (x_5, p_5) = match take_i64(ws, p_4) {
        Some(p) => p,
        None => {
            return None;
        },
    };
    let (x_6, p_6) = match take_i64(ws, p_5) {
        Some(p) => p,
        None => {
            return None;
        },
    };
    let built = crate::models::ChapterPlan { id: x_0, project_id: x_1, total_chapters: x_2, chapters: x_3, plot_twist_positions: x_4, created_at: x_5, updated_at: x_6 };
    Some((built, p_6))
}


/// The plain view of the record.
pub open spec fn view_book(v: crate::models::HotBook) -> HotBookV {
    HotBookV {
        title: v.title@,
        author: v.author@,
        word_count: v.word_count,
        likes: v.likes,
        rating: view_opt_u32(v.rating),
    }
}

fn put_book(out: &mut Vec<u64>, v: &crate::models::HotBook)
    ensures
        final(out)@ == old(out)@ + enc_book(view_book(*v)),
{
    put_str(out, &v.title);
    let ghost l_0 = out@;
    put_str(out, &v.author);
    let ghost l_1 = out@;
    put_u64(out, v.word_count);
    let ghost l_2 = out@;
    put_u64(out, v.likes);
    let ghost l_3 = out@;
    put_opt_u32(out, &v.rating);
    let ghost l_4 = out@;
    proof {
        let r_4 = enc_opt_u32(view_opt_u32(v.rating));
        let r_3 = enc_u64(v.likes) + r_4;
        let r_2 = enc_u64(v.word_count) + r_3;
        let r_1 = enc_str(v.author@) + r_2;
        let r_0 = enc_str(v.title@) + r_1;
        lemma_concat_assoc(l_2, enc_u64(v.likes), r_4);
        lemma_concat_assoc(l_1, enc_u64(v.word_count), r_3);
        lemma_concat_assoc(l_0, enc_str(v.author@), r_2);
        lemma_concat_assoc(old(out)@, enc_str(v.title@), r_1);
        assert(out@ == old(out)@ + r_0);
        assert(r_0 == enc_book(view_book(*v)));
    }
}

fn take_book(ws: &Vec<u64>, i: usize) -> (r: Option<(crate::models::HotBook, usize)>)
    ensures
        match r {
            Some((v, j)) => dec_book(ws@, i as int) == Some((view_book(v), j as int)) && j
                <= ws@.len(),
            None => dec_book(ws@, i as int) is None,
        },
{
    let (x_0, p_0) = match take_str(ws, i) {
        Some(p) => p,
        None => {
            return None;
        },
    };
    let (x_1, p_1) = match take_str(ws, p_0) {
        Some(p) => p,
        None => {
            return None;
        },
    };
    let (x_2, p_2) = match take_u64(ws, p_1) {
        Some(p) => p,
        None => {
            return None;
        },
    };
    let (x_3, p_3) = match take_u64(ws, p_2) {
        Some(p) => p,
        None => {
            return None;
        },
    };
    let (x_4, p_4) = match take_opt_u32(ws, p_3) {
        Some(p) => p,
        None => {
            return None;
        },
    };
    let built = crate::models::HotBook { title: x_0, author: x_1, word_count: x_2, likes: x_3, rating: x_4 };
    Some((built, p_4))
}


/// The views of the listed records, in order.
pub open spec fn view_books(s: Seq<crate::models::HotBook>) -> Seq<HotBookV> {
    s.map_values(|x: crate::models::HotBook| view_book(x))
}

proof fn lemma_view_books_push(s: Seq<crate::models::HotBook>, x: crate::models::HotBook)
    ensures
        view_books(s.push(x)) == view_books(s).push(view_book(x)),
{
    assert(view_books(s.push(x)) =~= view_books(s).push(view_book(x)));
}

proof fn lemma_enc_books_items_push(ss: Seq<HotBookV>, x: HotBookV)
    ensures
        enc_books_items(ss.push(x)) == enc_books_items(ss) + enc_book(x),
    decreases ss.len(),
{
    if ss.len() == 0 {
        assert(ss.push(x).drop_first() =~= Seq::<HotBookV>::empty());
        assert(ss.push(x)[0] == x);
        assert(enc_books_items(Seq::<HotBookV>::empty()) == Seq::<u64>::empty());
        assert(enc_books_items(ss) == Seq::<u64>::empty());
        assert(enc_books_items(ss.push(x)) == enc_book(x) + enc_books_items(
            ss.push(x).drop_first(),
        ));
        assert(enc_books_items(ss.push(x)) =~= enc_books_items(ss) + enc_book(x));
    } else {
        assert(ss.push(x).drop_first() =~= ss.drop_first().push(x));
        lemma_enc_books_items_push(ss.drop_first(), x);
        assert(enc_books_items(ss.push(x)) =~= enc_books_items(ss) + enc_book(x));
    }
}

fn put_books(out: &mut Vec<u64>, items: &Vec<crate::models::HotBook>)
    ensures
        final(out)@ == old(out)@ + enc_books(view_books(items@)),
{
    let n = items.len();
    out.push(n as u64);
    let mut j: usize = 0;
    while j < n
        invariant
            n == items@.len(),
            0 <= j <= n,
            out@ == old(out)@ + seq![n as u64] + enc_books_items(view_books(items@.take(j as int))),
        decreases n - j,
    {
        put_book(out, &items[j]);
        proof {
            lemma_view_books_push(items@.take(j as int), items@[j as int]);
            lemma_enc_books_items_push(
                view_books(items@.take(j as int)),
                view_book(items@[j as int]),
            );
            assert(items@.take(j + 1) =~= items@.take(j as int).push(items@[j as int]));
            assert(out@ =~= old(out)@ + seq![n as u64] + enc_books_items(
                view_books(items@.take(j + 1)),
            ));
        }
        j += 1;
    }
    proof {
        assert(items@.take(n as int) =~= items@);
        assert(out@ =~= old(out)@ + enc_books(view_books(items@)));
    }
}

fn take_books(ws: &Vec<u64>, i: usize) -> (r: Option<(Vec<crate::models::HotBook>, usize)>)
    ensures
        match r {
            Some((items, j)) => dec_books(ws@, i as int) == Some(
                (view_books(items@), j as int),
            ) && j <= ws@.len(),
            None => dec_books(ws@, i as int) is None,
        },
{
    let (n, start) = match take_u64(ws, i) {
        Some(p) => p,
        None => {
            return None;
        },
    };
    let ghost total_dec = dec_books_items(ws@, start as int, n as nat);
    let mut out_items: Vec<crate::models::HotBook> = Vec::new();
    let mut cur: usize = start;
    let mut k: u64 = 0;
    proof {
        if total_dec is Some {
            let pr = total_dec->0;
            assert(view_books(out_items@) + pr.0 =~= pr.0);
        }
    }
    while k < n
        invariant
            0 <= k <= n,
            cur <= ws@.len(),
            total_dec == dec_books_items(ws@, start as int, n as nat),
            dec_books(ws@, i as int) == total_dec,
            total_dec is Some <==> dec_books_items(ws@, cur as int, (n - k) as nat) is Some,
            total_dec matches Some(pr) ==> (dec_books_items(ws@, cur as int, (n - k) as nat)
                matches Some(qr) && pr.0 == view_books(out_items@) + qr.0 && pr.1 == qr.1),
        decreases n - k,
    {
        match take_book(ws, cur) {
            Some((x, j)) => {
                proof {
                    assert(dec_books_items(ws@, cur as int, (n - k) as nat) == (
                    match dec_books_items(ws@, j as int, (n - k - 1) as nat) {
                        Some((rest, e)) => Some((seq![view_book(x)] + rest, e)),
                        None => None::<(Seq<HotBookV>, int)>,
                    }));
                    lemma_view_books_push(out_items@, x);
                    if total_dec is Some {
                        let rr = dec_books_items(ws@, j as int, (n - k - 1) as nat)->0;
                        assert(view_books(out_items@) + (seq![view_book(x)] + rr.0)
                            =~= (view_books(out_items@) + seq![view_book(x)]) + rr.0);
                        assert(view_books(out_items@) + seq![view_book(x)]
                            =~= view_books(out_items@).push(view_book(x)));
                    }
                }
                out_items.push(x);
                cur = j;
            },
            None => {
                proof {
                    assert(dec_books_items(ws@, cur as int, (n - k) as nat) is None);
                }
                return None;
            },
        }
        k += 1;
    }
    proof {
        if total_dec is Some {
            assert(view_books(out_items@) + Seq::<HotBookV>::empty() =~= view_books(out_items@));
        }
    }
    Some((out_items, cur))
}


/// The plain view of the record.
pub open spec fn view_market(v: crate::models::MarketData) -> MarketDataV {
    MarketDataV {
        total_books: v.total_books,
        hot_books: view_books(v.hot_books@),
        average_word_count: v.average_word_count,
        tags: crate::models::validation::seq_views(v.tags@),
    }
}

fn put_market(out: &mut Vec<u64>, v: &crate::models::MarketData)
    ensures
        final(out)@ == old(out)@ + enc_market(view_market(*v)),
{
    put_u32(out, v.total_books);
    let ghost l_0 = out@;
    put_books(out, &v.hot_books);
    let ghost l_1 = out@;
    put_u64(out, v.average_word_count);
    let ghost l_2 = out@;
    put_strs(out, &v.tags);
    let ghost l_3 = out@;
    proof {
        let r_3 = enc_strs(crate::models::validation::seq_views(v.tags@));
        let r_2 = enc_u64(v.average_word_count) + r_3;
        let r_1 = enc_books(view_books(v.hot_books@)) + r_2;
        let r_0 = enc_u32(v.total_books) + r_1;
        lemma_concat_assoc(l_1, enc_u64(v.average_word_count), r_3);
        lemma_concat_assoc(l_0, enc_books(view_books(v.hot_books@)), r_2);
        lemma_concat_assoc(old(out)@, enc_u32(v.total_books), r_1);
        assert(out@ == old(out)@ + r_0);
        assert(r_0 == enc_market(view_market(*v)));
    }
}

fn take_market(ws: &Vec<u64>, i: usize) -> (r: Option<(crate::models::MarketData, usize)>)
    ensures
        match r {
            Some((v, j)) => dec_market(ws@, i as int) == Some((view_market(v), j as int)) && j
                <= ws@.len(),
            None => dec_market(ws@, i as int) is None,
        },
{
    let (x_0, p_0) = match take_u32(ws, i) {
        Some(p) => p,
        None => {
            return None;
        },
    };
    let (x_1, p_1) = match take_books(ws, p_0) {
        Some(p) => p,
        None => {
            return None;
        },
    };
    let (x_2, p_2) = match take_u64(ws, p_1) {
        Some(p) => p,
        None => {
            return None;
        },
    };
    let (x_3, p_3) = match take_strs(ws, p_2) {
        Some(p) => p,
        None => {
            return None;
        },
    };
    let built = crate::models::MarketData { total_books: x_0, hot_books: x_1, average_word_count: x_2, tags: x_3 };
    Some((built, p_3))
}


/// The view of the optional value.
pub open spec fn view_opt_market(o: Option<crate::models::MarketData>) -> Option<MarketDataV> {
    match o {
        Some(x) => Some(view_market(x)),
        None => None,
    }
}

fn put_opt_market(out: &mut Vec<u64>, o: &Option<crate::models::MarketData>)
    ensures
        final(out)@ == old(out)@ + enc_opt_market(view_opt_market(*o)),
{
    match o {
        None => {
            out.push(0);
            assert(final(out)@ =~= old(out)@ + enc_opt_market(view_opt_market(*o)));
        },
        Some(x) => {
            out.push(1);
            put_market(out, x);
            assert(final(out)@ =~= old(out)@ + enc_opt_market(view_opt_market(*o)));
        },
    }
}

fn take_opt_market(ws: &Vec<u64>, i: usize) -> (r: Option<(Option<crate::models::MarketData>, usize)>)
    ensures
        match r {
            Some((o, j)) => dec_opt_market(ws@, i as int) == Some((view_opt_market(o), j as int)) && j
                <= ws@.len(),
            None => dec_opt_market(ws@, i as int) is None,
        },
{
    if i >= ws.len() {
        return None;
    }
    if ws[i] == 0 {
        Some((None, i + 1))
    } else if ws[i] == 1 {
        match take_market(ws, i + 1) {
            Some((x, j)) => Some((Some(x), j)),
            None => None,
        }
    } else {
        None
    }
}


/// The plain view of the record.
pub open spec fn view_work(v: crate::models::CompetitiveWork) -> CompetitiveWorkV {
    CompetitiveWorkV {
        title: v.title@,
        author: v.author@,
        views: v.views,
        favorites: v.favorites,
        rating: v.rating,
        unique_elements: crate::models::validation::seq_views(v.unique_elements@),
        tags: crate::models::validation::seq_views(v.tags@),
    }
}

fn put_work(out: &mut Vec<u64>, v: &crate::models::CompetitiveWork)
    ensures
        final(out)@ == old(out)@ + enc_work(view_work(*v)),
{
    put_str(out, &v.title);
    let ghost l_0 = out@;
    put_str(out, &v.author);
    let ghost l_1 = out@;
    put_u64(out, v.views);
    let ghost l_2 = out@;
    put_u64(out, v.favorites);
    let ghost l_3 = out@;
    put_u32(out, v.rating);
    let ghost l_4 = out@;
    put_strs(out, &v.unique_elements);
    let ghost l_5 = out@;
    put_strs(out, &v.tags);
    let ghost l_6 = out@;
    proof {
        let r_6 = enc_strs(crate::models::validation::seq_views(v.tags@));
        let r_5 = enc_strs(crate::models::validation::seq_views(v.unique_elements@)) + r_6;
        let r_4 = enc_u32(v.rating) + r_5;
        let r_3 = enc_u64(v.favorites) + r_4;
        let r_2 = enc_u64(v.views) + r_3;
        let r_1 = enc_str(v.author@) + r_2;
        let r_0 = enc_str(v.title@) + r_1;
        lemma_concat_assoc(l_4, enc_strs(crate::models::validation::seq_views(v.unique_elements@)), r_6);
        lemma_concat_assoc(l_3, enc_u32(v.rating), r_5);
        lemma_concat_assoc(l_2, enc_u64(v.favorites), r_4);
        lemma_concat_assoc(l_1, enc_u64(v.views), r_3);
        lemma_concat_assoc(l_0, enc_str(v.author@), r_2);
        lemma_concat_assoc(old(out)@, enc_str(v.title@), r_1);
        assert(out@ == old(out)@ + r_0);
        assert(r_0 == enc_work(view_work(*v)));
    }
}

fn take_work(ws: &Vec<u64>, i: usize) -> (r: Option<(crate::models::CompetitiveWork, usize)>)
    ensures
        match r {
            Some((v, j)) => dec_work(ws@, i as int) == Some((view_work(v), j as int)) && j
                <= ws@.len(),
            None => dec_work(ws@, i as int) is None,
        },
{
    let (x_0, p_0) = match take_str(ws, i) {
        Some(p) => p,
        None => {
            return None;
        },
    };
    let (x_1, p_1) = match take_str(ws, p_0) {
        Some(p) => p,
        None => {
            return None;
        },
    };
    let (x_2, p_2) = match take_u64(ws, p_1) {
        Some(p) => p,
        None => {
            return None;
        },
    };
    let (x_3, p_3) = match take_u64(ws, p_2) {
        Some(p) => p,
        None => {
            return None;
        },
    };
    let (x_4, p_4) = match take_u32(ws, p_3) {
        Some(p) => p,
        None => {
            return None;
        },
    };
    let (x_5, p_5) = match take_strs(ws, p_4) {
        Some(p) => p,
        None => {
            return None;
        },
    };
    let (x_6, p_6) = match take_strs(ws, p_5) {
        Some(p) => p,
        None => {
            return None;
        },
    };
    let built = crate::models::CompetitiveWork { title: x_0, author: x_1, views: x_2, favorites: x_3, rating: x_4, unique_elements: x_5, tags: x_6 };
    Some((built, p_6))
}


/// The views of the listed records, in order.
pub open spec fn view_works(s: Seq<crate::models::CompetitiveWork>) -> Seq<CompetitiveWorkV> {
    s.map_values(|x: crate::models::CompetitiveWork| view_work(x))
}

proof fn lemma_view_works_push(s: Seq<crate::models::CompetitiveWork>, x: crate::models::CompetitiveWork)
    ensures
        view_works(s.push(x)) == view_works(s).push(view_work(x)),
{
    assert(view_works(s.push(x)) =~= view_works(s).push(view_work(x)));
}

proof fn lemma_enc_works_items_push(ss: Seq<CompetitiveWorkV>, x: CompetitiveWorkV)
    ensures
        enc_works_items(ss.push(x)) == enc_works_items(ss) + enc_work(x),
    decreases ss.len(),
{
    if ss.len() == 0 {
        assert(ss.push(x).drop_first() =~= Seq::<CompetitiveWorkV>::empty());
        assert(ss.push(x)[0] == x);
        assert(enc_works_items(Seq::<CompetitiveWorkV>::empty()) == Seq::<u64>::empty());
        assert(enc_works_items(ss) == Seq::<u64>::empty());
        assert(enc_works_items(ss.push(x)) == enc_work(x) + enc_works_items(
            ss.push(x).drop_first(),
        ));
        assert(enc_works_items(ss.push(x)) =~= enc_works_items(ss) + enc_work(x));
    } else {
        assert(ss.push(x).drop_first() =~= ss.drop_first().push(x));
        lemma_enc_works_items_push(ss.drop_first(), x);
        assert(enc_works_items(ss.push(x)) =~= enc_works_items(ss) + enc_work(x));
    }
}

fn put_works(out: &mut Vec<u64>, items: &Vec<crate::models::CompetitiveWork>)
    ensures
        final(out)@ == old(out)@ + enc_works(view_works(items@)),
{
    let n = items.len();
    out.push(n as u64);
    let mut j: usize = 0;
    while j < n
        invariant
            n == items@.len(),
            0 <= j <= n,
            out@ == old(out)@ + seq![n as u64] + enc_works_items(view_works(items@.take(j as int))),
        decreases n - j,
    {
        put_work(out, &items[j]);
        proof {
            lemma_view_works_push(items@.take(j as int), items@[j as int]);
            lemma_enc_works_items_push(
                view_works(items@.take(j as int)),
                view_work(items@[j as int]),
            );
            assert(items@.take(j + 1) =~= items@.take(j as int).push(items@[j as int]));
            assert(out@ =~= old(out)@ + seq![n as u64] + enc_works_items(
                view_works(items@.take(j + 1)),
            ));
        }
        j += 1;
    }
    proof {
        assert(items@.take(n as int) =~= items@);
        assert(out@ =~= old(out)@ + enc_works(view_works(items@)));
    }
}

fn take_works(ws: &Vec<u64>, i: usize) -> (r: Option<(Vec<crate::models::CompetitiveWork>, usize)>)
    ensures
        match r {
            Some((items, j)) => dec_works(ws@, i as int) == Some(
                (view_works(items@), j as int),
            ) && j <= ws@.len(),
            None => dec_works(ws@, i as int) is None,
        },
{
    let (n, start) = match take_u64(ws, i) {
        Some(p) => p,
        None => {
            return None;
        },
    };
    let ghost total_dec = dec_works_items(ws@, start as int, n as nat);
    let mut out_items: Vec<crate::models::CompetitiveWork> = Vec::new();
    let mut cur: usize = start;
    let mut k: u64 = 0;
    proof {
        if total_dec is Some {
            let pr = total_dec->0;
            assert(view_works(out_items@) + pr.0 =~= pr.0);
        }
    }
    while k < n
        invariant
            0 <= k <= n,
            cur <= ws@.len(),
            total_dec == dec_works_items(ws@, start as int, n as nat),
            dec_works(ws@, i as int) == total_dec,
            total_dec is Some <==> dec_works_items(ws@, cur as int, (n - k) as nat) is Some,
            total_dec matches Some(pr) ==> (dec_works_items(ws@, cur as int, (n - k) as nat)
                matches Some(qr) && pr.0 == view_works(out_items@) + qr.0 && pr.1 == qr.1),
        decreases n - k,
    {
        match take_work(ws, cur) {
            Some((x, j)) => {
                proof {
                    assert(dec_works_items(ws@, cur as int, (n - k) as nat) == (
                    match dec_works_items(ws@, j as int, (n - k - 1) as nat) {
                        Some((rest, e)) => Some((seq![view_work(x)] + rest, e)),
                        None => None::<(Seq<CompetitiveWorkV>, int)>,
                    }));
                    lemma_view_works_push(out_items@, x);
                    if total_dec is Some {
                        let rr = dec_works_items(ws@, j as int, (n - k - 1) as nat)->0;
                        assert(view_works(out_items@) + (seq![view_work(x)] + rr.0)
                            =~= (view_works(out_items@) + seq![view_work(x)]) + rr.0);
                        assert(view_works(out_items@) + seq![view_work(x)]
                            =~= view_works(out_items@).push(view_work(x)));
                    }
                }
                out_items.push(x);
                cur = j;
            },
            None => {
                proof {
                    assert(dec_works_items(ws@, cur as int, (n - k) as nat) is None);
                }
                return None;
            },
        }
        k += 1;
    }
    proof {
        if total_dec is Some {
            assert(view_works(out_items@) + Seq::<CompetitiveWorkV>::empty() =~= view_works(out_items@));
        }
    }
    Some((out_items, cur))
}


/// The plain view of the record.
pub open spec fn view_report(v: crate::models::FeasibilityReport) -> FeasibilityReportV {
    FeasibilityReportV {
        id: v.id,
        project_id: v.project_id,
        genre: v.genre,
        market_data: view_opt_market(v.market_data),
        data_source: v.data_source,
        total_works_in_genre: v.total_works_in_genre,
        average_views_top100: v.average_views_top100,
        average_favorites_top100: v.average_favorites_top100,
        trend_score: v.trend_score,
        top_works: view_works(v.top_works@),
        market_gaps: crate::models::validation::seq_views(v.market_gaps@),
        market_viability: v.scores.market_viability,
        competition_level: v.scores.competition_level,
        differentiation_potential: v.scores.differentiation_potential,
        recommendation: v.recommendation,
        suggested_angles: crate::models::validation::seq_views(v.suggested_angles@),
        generated_at: v.generated_at,
    }
}

#[verifier::rlimit(100)]
#[verifier::spinoff_prover]
fn put_report(out: &mut Vec<u64>, v: &crate::models::FeasibilityReport)
    ensures
        final(out)@ == old(out)@ + enc_report(view_report(*v)),
{
    put_u128(out, v.id);
    let ghost l_0 = out@;
    put_u128(out, v.project_id);
    let ghost l_1 = out@;
    put_genre(out, v.genre);
    let ghost l_2 = out@;
    put_opt_market(out, &v.market_data);
    let ghost l_3 = out@;
    put_source(out, v.data_source);
    let ghost l_4 = out@;
    put_u32(out, v.total_works_in_genre);
    let ghost l_5 = out@;
    put_u64(out, v.average_views_top100);
    let ghost l_6 = out@;
    put_u64(out, v.average_favorites_top100);
    let ghost l_7 = out@;
    put_i32(out, v.trend_score);
    let ghost l_8 = out@;
    put_works(out, &v.top_works);
    let ghost l_9 = out@;
    put_strs(out, &v.market_gaps);
    let ghost l_10 = out@;
    put_u32(out, v.scores.market_viability);
    let ghost l_11 = out@;
    put_level(out, v.scores.competition_level);
    let ghost l_12 = out@;
    put_u32(out, v.scores.differentiation_potential);
    let ghost l_13 = out@;
    put_rec(out, v.recommendation);
    let ghost l_14 = out@;
    put_strs(out, &v.suggested_angles);
    let ghost l_15 = out@;
    put_i64(out, v.generated_at);
    let ghost l_16 = out@;
    proof {
        let r_16 = enc_i64(v.generated_at);
        let r_15 = enc_strs(crate::models::validation::seq_views(v.suggested_angles@)) + r_16;
        let r_14 = enc_rec(v.recommendation) + r_15;
        let r_13 = enc_u32(v.scores.differentiation_potential) + r_14;
        let r_12 = enc_level(v.scores.competition_level) + r_13;
        let r_11 = enc_u32(v.scores.market_viability) + r_12;
        let r_10 = enc_strs(crate::models::validation::seq_views(v.market_gaps@)) + r_11;
        let r_9 = enc_works(view_works(v.top_works@)) + r_10;
        let r_8 = enc_i32(v.trend_score) + r_9;
        let r_7 = enc_u64(v.average_favorites_top100) + r_8;
        let r_6 = enc_u64(v.average_views_top100) + r_7;
        let r_5 = enc_u32(v.total_works_in_genre) + r_6;
        let r_4 = enc_source(v.data_source) + r_5;
        let r_3 = enc_opt_market(view_opt_market(v.market_data)) + r_4;
        let r_2 = enc_genre(v.genre) + r_3;
        let r_1 = enc_u128(v.project_id) + r_2;
        let r_0 = enc_u128(v.id) + r_1;
        lemma_concat_assoc(l_14, enc_strs(crate::models::validation::seq_views(v.suggested_angles@)), r_16);
        lemma_concat_assoc(l_13, enc_rec(v.recommendation), r_15);
        lemma_concat_assoc(l_12, enc_u32(v.scores.differentiation_potential), r_14);
        lemma_concat_assoc(l_11, enc_level(v.scores.competition_level), r_13);
        lemma_concat_assoc(l_10, enc_u32(v.scores.market_viability), r_12);
        lemma_concat_assoc(l_9, enc_strs(crate::models::validation::seq_views(v.market_gaps@)), r_11);
        lemma_concat_assoc(l_8, enc_works(view_works(v.top_works@)), r_10);
        lemma_concat_assoc(l_7, enc_i32(v.trend_score), r_9);
        lemma_concat_assoc(l_6, enc_u64(v.average_favorites_top100), r_8);
        lemma_concat_assoc(l_5, enc_u64(v.average_views_top100), r_7);
        lemma_concat_assoc(l_4, enc_u32(v.total_works_in_genre), r_6);
        lemma_concat_assoc(l_3, enc_source(v.data_source), r_5);
        lemma_concat_assoc(l_2, enc_opt_market(view_opt_market(v.market_data)), r_4);
        lemma_concat_assoc(l_1, enc_genre(v.genre), r_3);
        lemma_concat_assoc(l_0, enc_u128(v.project_id), r_2);
        lemma_concat_assoc(old(out)@, enc_u128(v.id), r_1);
        assert(out@ == old(out)@ + r_0);
        assert(r_0 == enc_report(view_report(*v)));
    }
}

#[verifier::rlimit(100)]
#[verifier::spinoff_prover]
fn take_report(ws: &Vec<u64>, i: usize) -> (r: Option<(crate::models::FeasibilityReport, usize)>)
    ensures
        match r {
            Some((v, j)) => dec_report(ws@, i as int) == Some((view_report(v), j as int)) && j
                <= ws@.len(),
            None => dec_report(ws@, i as int) is None,
        },
{
    let (x_0, p_0) = match take_u128(ws, i) {
        Some(p) => p,
        None => {
            return None;
        },
    };
    let (x_1, p_1) = match take_u128(ws, p_0) {
        Some(p) => p,
        None => {
            return None;
        },
    };
    let (x_2, p_2) = match take_genre(ws, p_1) {
        Some(p) => p,
        None => {
            return None;
        },
    };
    let (x_3, p_3) = match take_opt_market(ws, p_2) {
        Some(p) => p,
        None => {
            return None;
        },
    };
    let (x_4, p_4) = match take_source(ws, p_3) {
        Some(p) => p,
        None => {
            return None;
        },
    };
    let (x_5, p_5) = match take_u32(ws, p_4) {
        Some(p) => p,
        None => {
            return None;
        },
    };
    let (x_6, p_6) = match take_u64(ws, p_5) {
        Some(p) => p,
        None => {
            return None;
        },
    };
    let (x_7, p_7) = match take_u64(ws, p_6) {
        Some(p) => p,
        None => {
            return None;
        },
    };
    let (x_8, p_8) = match take_i32(ws, p_7) {
        Some(p) => p,
        None => {
            return None;
        },
    };
    let (x_9, p_9) = match take_works(ws, p_8) {
        Some(p) => p,
        None => {
            return None;
        },
    };
    let (x_10, p_10) = match take_strs(ws, p_9) {
        Some(p) => p,
        None => {
            return None;
        },
    };
    let (x_11, p_11) = match take_u32(ws, p_10) {
        Some(p) => p,
        None => {
            return None;
        },
    };
    let (x_12, p_12) = match take_level(ws, p_11) {
        Some(p) => p,
        None => {
            return None;
        },
    };
    let (x_13, p_13) = match take_u32(ws, p_12) {
        Some(p) => p,
        None => {
            return None;
        },
    };
    let (x_14, p_14) = match take_rec(ws, p_13) {
        Some(p) => p,
        None => {
            return None;
        },
    };
    let (x_15, p_15) = match take_strs(ws, p_14) {
        Some(p) => p,
        None => {
            return None;
        },
    };
    let (x_16, p_16) = match take_i64(ws, p_15) {
        Some(p) => p,
        None => {
            return None;
        },
    };
    let built = crate::models::FeasibilityReport { id: x_0, project_id: x_1, genre: x_2, market_data: x_3, data_source: x_4, total_works_in_genre: x_5, average_views_top100: x_6, average_favorites_top100: x_7, trend_score: x_8, top_works: x_9, market_gaps: x_10, scores: crate::models::FeasibilityScores { market_viability: x_11, competition_level: x_12, differentiation_potential: x_13 }, recommendation: x_14, suggested_angles: x_15, generated_at: x_16 };
    Some((built, p_16))
}



/// The round-trip law for chapter plans: decoding an encoding yields the
/// encoded value, for every plan view whose lengths fit the length words.
pub proof fn lemma_chapter_plan_round_trip(v: ChapterPlanV)
    requires
        valid_plan(v),
    ensures
        dec_plan(enc_plan(v), 0) == Some((v, enc_plan(v).len() as int)),
{
    let ws = enc_plan(v);
    assert(ws.subrange(0, ws.len() as int) =~= ws);
    lemma_dec_enc_plan(v, ws, 0);
}

/// The round-trip law for novel outlines.
pub proof fn lemma_novel_outline_round_trip(v: NovelOutlineV)
    requires
        valid_outlinev(v),
    ensures
        dec_outlinev(enc_outlinev(v), 0) == Some((v, enc_outlinev(v).len() as int)),
{
    let ws = enc_outlinev(v);
    assert(ws.subrange(0, ws.len() as int) =~= ws);
    lemma_dec_enc_outlinev(v, ws, 0);
}

/// The round-trip law for feasibility reports.
pub proof fn lemma_feasibility_report_round_trip(v: FeasibilityReportV)
    requires
        valid_report(v),
    ensures
        dec_report(enc_report(v), 0) == Some((v, enc_report(v).len() as int)),
{
    let ws = enc_report(v);
    assert(ws.subrange(0, ws.len() as int) =~= ws);
    lemma_dec_enc_report(v, ws, 0);
}

/// Serializes a chapter plan to its word encoding.
pub fn encode_chapter_plan(plan: &crate::models::ChapterPlan) -> (w: Vec<u64>)
    ensures
        w@ == enc_plan(view_plan(*plan)),
{
    let mut out: Vec<u64> = Vec::new();
    put_plan(&mut out, plan);
    assert(out@ =~= enc_plan(view_plan(*plan)));
    out
}

/// Deserializes a chapter plan from its word encoding; the words must be
/// exactly one encoded plan.
pub fn decode_chapter_plan(w: &Vec<u64>) -> (r: Option<crate::models::ChapterPlan>)
    ensures
        match r {
            Some(plan) => dec_plan(w@, 0) == Some((view_plan(plan), w@.len() as int)),
            None => dec_plan(w@, 0) is None || (dec_plan(w@, 0) matches Some(q) && q.1
                != w@.len()),
        },
{
    match take_plan(w, 0) {
        Some((plan, j)) => {
            if j == w.len() {
                Some(plan)
            } else {
                None
            }
        },
        None => None,
    }
}

/// Serializes a novel outline to its word encoding.
pub fn encode_novel_outline(outline: &crate::models::NovelOutline) -> (w: Vec<u64>)
    ensures
        w@ == enc_outlinev(view_outlinev(*outline)),
{
    let mut out: Vec<u64> = Vec::new();
    put_outlinev(&mut out, outline);
    assert(out@ =~= enc_outlinev(view_outlinev(*outline)));
    out
}

/// Deserializes a novel outline from its word encoding.
pub fn decode_novel_outline(w: &Vec<u64>) -> (r: Option<crate::models::NovelOutline>)
    ensures
        match r {
            Some(outline) => dec_outlinev(w@, 0) == Some((view_outlinev(outline), w@.len() as int)),
            None => dec_outlinev(w@, 0) is None || (dec_outlinev(w@, 0) matches Some(q) && q.1
                != w@.len()),
        },
{
    match take_outlinev(w, 0) {
        Some((outline, j)) => {
            if j == w.len() {
                Some(outline)
            } else {
                None
            }
        },
        None => None,
    }
}

/// Serializes a feasibility report to its word encoding.
pub fn encode_feasibility_report(report: &crate::models::FeasibilityReport) -> (w: Vec<u64>)
    ensures
        w@ == enc_report(view_report(*report)),
{
    let mut out: Vec<u64> = Vec::new();
    put_report(&mut out, report);
    assert(out@ =~= enc_report(view_report(*report)));
    out
}

/// Deserializes a feasibility report from its word encoding.
pub fn decode_feasibility_report(w: &Vec<u64>) -> (r: Option<crate::models::FeasibilityReport>)
    ensures
        match r {
            Some(report) => dec_report(w@, 0) == Some((view_report(report), w@.len() as int)),
            None => dec_report(w@, 0) is None || (dec_report(w@, 0) matches Some(q) && q.1
                != w@.len()),
        },
{
    match take_report(w, 0) {
        Some((report, j)) => {
            if j == w.len() {
                Some(report)
            } else {
                None
            }
        },
        None => None,
    }
}

} // verus!
