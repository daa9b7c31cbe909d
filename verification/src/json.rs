//! A plain JSON document model, parsed through serde_json.
//!
//! The tree holds only plain values: numbers are carried as their decimal
//! text, and objects as key-value pairs with unique keys.  Parsing goes
//! through one trusted wrapper; everything that reads the tree is verified.

use vstd::prelude::*;
use crate::strutil::spec_find;

verus! {

/// A JSON value as plain data.
#[derive(Debug)]
pub enum JsonVal {
    Null,
    Bool(bool),
    /// A number, carried as its decimal text.
    Num(String),
    Str(String),
    Arr(Vec<JsonVal>),
    /// An object: key-value pairs with unique keys.  Parsed documents
    /// carry them sorted by key, as serde_json's map orders them; no
    /// contract depends on the order.
    Obj(Vec<(String, JsonVal)>),
}

/// What parsing a JSON text yields: the result depends on the text alone.
pub uninterp spec fn json_of(s: Seq<char>) -> Option<JsonVal>;

/// Relies on serde_json::Value: one arm per variant, each field moved into
/// the plain tree, numbers through their decimal text.
#[verifier::external_body]
fn value_to_tree(v: &serde_json::Value) -> JsonVal {
    match v {
        serde_json::Value::Null => JsonVal::Null,
        serde_json::Value::Bool(b) => JsonVal::Bool(*b),
        serde_json::Value::Number(n) => JsonVal::Num(n.to_string()),
        serde_json::Value::String(s) => JsonVal::Str(s.clone()),
        serde_json::Value::Array(items) => {
            JsonVal::Arr(items.iter().map(value_to_tree).collect())
        },
        serde_json::Value::Object(entries) => {
            JsonVal::Obj(entries.iter().map(|(k, x)| (k.clone(), value_to_tree(x))).collect())
        },
    }
}

/// The serde_json Value type, declared so a reference to it can cross the
/// wrapper boundary.
#[verifier::external_type_specification]
#[verifier::external_body]
pub struct ExValue(serde_json::Value);

/// Relies on serde_json::from_str: parses the text as one JSON document;
/// the parse depends on the text alone.
#[verifier::external_body]
pub fn parse_json(s: &str) -> (r: Option<JsonVal>)
    ensures
        r == json_of(s@),
{
    match serde_json::from_str::<serde_json::Value>(s) {
        Ok(v) => Some(value_to_tree(&v)),
        Err(_) => None,
    }
}

/// The value under the first entry with the given key, when the document
/// is an object holding one.
pub open spec fn spec_get(v: JsonVal, key: Seq<char>) -> Option<JsonVal> {
    match v {
        JsonVal::Obj(entries) => spec_get_entries(entries@, key),
        _ => None,
    }
}

/// The value of the first entry with the given key.
pub open spec fn spec_get_entries(entries: Seq<(String, JsonVal)>, key: Seq<char>) -> Option<
    JsonVal,
>
    decreases entries.len(),
{
    if entries.len() == 0 {
        None
    } else if entries[0].0@ == key {
        Some(entries[0].1)
    } else {
        spec_get_entries(entries.drop_first(), key)
    }
}

/// The value under the first of two alternate keys that is present.
pub open spec fn spec_get2(v: JsonVal, key1: Seq<char>, key2: Seq<char>) -> Option<JsonVal> {
    match spec_get(v, key1) {
        Some(x) => Some(x),
        None => spec_get(v, key2),
    }
}

/// The string content of the document, when it is a string.
pub open spec fn spec_as_str(v: JsonVal) -> Option<Seq<char>> {
    match v {
        JsonVal::Str(s) => Some(s@),
        _ => None,
    }
}

/// The decimal value of `s`, read digit by digit.
pub open spec fn digits_value(s: Seq<char>) -> int
    decreases s.len(),
{
    if s.len() == 0 {
        0
    } else {
        digits_value(s.drop_last()) * 10 + (s.last() as int - 48)
    }
}

/// Every character of `s` is a decimal digit.
pub open spec fn all_digits(s: Seq<char>) -> bool {
    forall|i: int| 0 <= i < s.len() ==> '0' <= #[trigger] s[i] && s[i] <= '9'
}

/// The unsigned value of a JSON number text: defined for plain digit runs
/// whose value fits, as serde_json reports integers.
pub open spec fn spec_num_u64(s: Seq<char>) -> Option<u64> {
    if s.len() > 0 && all_digits(s) && digits_value(s) <= u64::MAX {
        Some(digits_value(s) as u64)
    } else {
        None
    }
}

proof fn lemma_digits_value_nonneg(s: Seq<char>)
    requires
        all_digits(s),
    ensures
        digits_value(s) >= 0,
    decreases s.len(),
{
    if s.len() > 0 {
        assert(all_digits(s.drop_last())) by {
            assert(forall|i: int|
                0 <= i < s.len() - 1 ==> s.drop_last()[i] == #[trigger] s[i]);
        }
        lemma_digits_value_nonneg(s.drop_last());
        assert(s.last() as int - 48 >= 0) by {
            assert('0' <= s[s.len() - 1]);
        }
    }
}

proof fn lemma_digits_value_grows(s: Seq<char>, i: int)
    requires
        0 <= i <= s.len(),
        all_digits(s),
    ensures
        digits_value(s.take(i)) <= digits_value(s),
    decreases s.len() - i,
{
    if i < s.len() {
        assert(s.take(i + 1).drop_last() =~= s.take(i));
        assert(s.take(i + 1).last() == s[i]);
        assert(all_digits(s.take(i))) by {
            assert(forall|j: int| 0 <= j < i ==> s.take(i)[j] == #[trigger] s[j]);
        }
        lemma_digits_value_nonneg(s.take(i));
        assert('0' <= s[i]);
        assert(digits_value(s.take(i)) <= digits_value(s.take(i)) * 10 + (s[i] as int - 48));
        lemma_digits_value_grows(s, i + 1);
    } else {
        assert(s.take(i) =~= s);
    }
}

/// Reads the unsigned decimal value of a number text, when it is a plain
/// digit run whose value fits.
pub fn parse_u64(s: &str) -> (r: Option<u64>)
    ensures
        r == spec_num_u64(s@),
{
    let n = s.unicode_len();
    if n == 0 {
        return None;
    }
    let mut acc: u64 = 0;
    let mut i: usize = 0;
    while i < n
        invariant
            n == s@.len(),
            0 <= i <= n,
            all_digits(s@.take(i as int)),
            acc == digits_value(s@.take(i as int)),
        decreases n - i,
    {
        let c = s.get_char(i);
        if !('0' <= c && c <= '9') {
            assert(!all_digits(s@)) by {
                assert(s@[i as int] == c);
            }
            return None;
        }
        let d: u64 = (c as u8 - 48) as u64;
        proof {
            assert(s@.take(i + 1).drop_last() =~= s@.take(i as int));
            assert(s@.take(i + 1).last() == s@[i as int]);
        }
        if acc > (u64::MAX - d) / 10 {
            proof {
                assert(digits_value(s@.take(i + 1)) > u64::MAX) by (nonlinear_arith)
                    requires
                        digits_value(s@.take(i + 1)) == acc * 10 + d,
                        acc > (u64::MAX - d) / 10,
                        0 <= d <= 9,
                ;
                if all_digits(s@) {
                    lemma_digits_value_grows(s@, i + 1);
                }
            }
            return None;
        }
        proof {
            assert(acc * 10 + d <= u64::MAX) by (nonlinear_arith)
                requires
                    acc <= (u64::MAX - d) / 10,
                    0 <= d <= 9,
            ;
        }
        acc = acc * 10 + d;
        i += 1;
    }
    proof {
        assert(s@.take(n as int) =~= s@);
    }
    Some(acc)
}

/// The value of a JSON number text in hundredths: an integer part and an
/// optional fraction, of which the first two digits count.  Defined when
/// both parts are digit runs and the result fits.
pub open spec fn spec_num_centi(s: Seq<char>) -> Option<u64> {
    let d = spec_find(s, "."@);
    if d == -1 {
        match spec_num_u64(s) {
            Some(v) => if v <= u64::MAX as int / 100 {
                Some((v * 100) as u64)
            } else {
                None
            },
            None => None,
        }
    } else {
        let int_part = s.take(d);
        let frac = s.skip(d + 1);
        if int_part.len() > 0 && all_digits(int_part) && frac.len() > 0 && all_digits(frac)
            && digits_value(int_part) <= (u64::MAX as int - 99) / 100 {
            let frac2: int = if frac.len() == 1 {
                (frac[0] as int - 48) * 10
            } else {
                (frac[0] as int - 48) * 10 + (frac[1] as int - 48)
            };
            Some((digits_value(int_part) * 100 + frac2) as u64)
        } else {
            None
        }
    }
}

/// Reads a JSON number text as a value in hundredths.
pub fn parse_centi(s: &str) -> (r: Option<u64>)
    ensures
        r == spec_num_centi(s@),
{
    match crate::strutil::str_find(s, ".") {
        None => {
            match parse_u64(s) {
                Some(v) => {
                    if v <= u64::MAX / 100 {
                        Some(v * 100)
                    } else {
                        None
                    }
                },
                None => None,
            }
        },
        Some(d) => {
            let n = s.unicode_len();
            assert(d < n) by {
                reveal_strlit(".");
            }
            let int_str = s.substring_char(0, d);
            let frac_str = s.substring_char(d + 1, n);
            proof {
                reveal_strlit(".");
                assert(int_str@ =~= s@.take(d as int));
                assert(frac_str@ =~= s@.skip(d + 1));
            }
            let int_val = parse_u64(int_str);
            proof {
                if int_val is Some {
                    lemma_digits_value_nonneg(int_str@);
                }
            }
            match int_val {
                Some(v) => {
                    if v > (u64::MAX - 99) / 100 {
                        return None;
                    }
                    let fn_ = frac_str.unicode_len();
                    if fn_ == 0 {
                        return None;
                    }
                    if !all_digits_exec(frac_str) {
                        return None;
                    }
                    let f0 = frac_str.get_char(0);
                    let d0: u64 = (f0 as u8 - 48) as u64;
                    let frac2: u64 = if fn_ == 1 {
                        d0 * 10
                    } else {
                        let f1 = frac_str.get_char(1);
                        d0 * 10 + (f1 as u8 - 48) as u64
                    };
                    Some(v * 100 + frac2)
                },
                None => None,
            }
        },
    }
}

fn all_digits_exec(s: &str) -> (r: bool)
    ensures
        r == all_digits(s@),
{
    let n = s.unicode_len();
    let mut i: usize = 0;
    while i < n
        invariant
            n == s@.len(),
            0 <= i <= n,
            forall|j: int| 0 <= j < i ==> '0' <= #[trigger] s@[j] && s@[j] <= '9',
        decreases n - i,
    {
        let c = s.get_char(i);
        if !('0' <= c && c <= '9') {
            return false;
        }
        i += 1;
    }
    true
}

impl JsonVal {
    /// The value under the first entry with the given key, when this is an
    /// object holding one.
    pub fn get<'a>(&'a self, key: &str) -> (r: Option<&'a JsonVal>)
        ensures
            match r {
                Some(x) => spec_get(*self, key@) == Some(*x),
                None => spec_get(*self, key@) is None,
            },
    {
        match self {
            JsonVal::Obj(entries) => {
                let n = entries.len();
                let mut i: usize = 0;
                proof {
                    assert(entries@.skip(0) =~= entries@);
                    assert(spec_get(*self, key@) == spec_get_entries(entries@, key@));
                }
                while i < n
                    invariant
                        n == entries@.len(),
                        0 <= i <= n,
                        spec_get(*self, key@) == spec_get_entries(entries@.skip(i as int), key@),
                    decreases n - i,
                {
                    proof {
                        assert(entries@.skip(i as int)[0] == entries@[i as int]);
                    }
                    if crate::strutil::str_eq(entries[i].0.as_str(), key) {
                        proof {
                            assert(entries@[i as int].0@ == key@);
                            assert(spec_get_entries(entries@.skip(i as int), key@) == Some(
                                entries@[i as int].1,
                            ));
                        }
                        return Some(&entries[i].1);
                    }
                    proof {
                        assert(entries@.skip(i as int).drop_first() =~= entries@.skip(i + 1));
                    }
                    i += 1;
                }
                proof {
                    assert(entries@.skip(n as int) =~= Seq::<(String, JsonVal)>::empty());
                }
                None
            },
            _ => None,
        }
    }

    /// The value under the first of two alternate keys that is present.
    pub fn get2<'a>(&'a self, key1: &str, key2: &str) -> (r: Option<&'a JsonVal>)
        ensures
            match r {
                Some(x) => spec_get2(*self, key1@, key2@) == Some(*x),
                None => spec_get2(*self, key1@, key2@) is None,
            },
    {
        match self.get(key1) {
            Some(x) => Some(x),
            None => self.get(key2),
        }
    }

    /// The string content, when this is a string.
    pub fn as_str<'a>(&'a self) -> (r: Option<&'a String>)
        ensures
            match r {
                Some(s) => spec_as_str(*self) == Some(s@),
                None => spec_as_str(*self) is None,
            },
    {
        match self {
            JsonVal::Str(s) => Some(s),
            _ => None,
        }
    }

    /// The unsigned integer value, when this is a number holding one.
    pub fn as_u64(&self) -> (r: Option<u64>)
        ensures
            r == spec_as_u64(*self),
    {
        match self {
            JsonVal::Num(text) => parse_u64(text.as_str()),
            _ => None,
        }
    }

    /// The value in hundredths, when this is a number it is defined for.
    pub fn as_centi(&self) -> (r: Option<u64>)
        ensures
            r == spec_as_centi(*self),
    {
        match self {
            JsonVal::Num(text) => parse_centi(text.as_str()),
            _ => None,
        }
    }
}

/// The unsigned integer value of the document, when it is an integer
/// number.
pub open spec fn spec_as_u64(v: JsonVal) -> Option<u64> {
    match v {
        JsonVal::Num(text) => spec_num_u64(text@),
        _ => None,
    }
}

/// The value of the document in hundredths, when it is a number.
pub open spec fn spec_as_centi(v: JsonVal) -> Option<u64> {
    match v {
        JsonVal::Num(text) => spec_num_centi(text@),
        _ => None,
    }
}

} // verus!
