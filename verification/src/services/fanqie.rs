//! Publishing-platform rules: mapping a genre name to the platform's
//! category id.  The platform client itself performs network calls and
//! lives outside the library.

use vstd::prelude::*;
use crate::strutil::ascii_lowercase;
use crate::strutil::lower_seq;
use crate::strutil::str_eq;

verus! {

/// The platform category id that a lower-cased genre name maps to; unknown
/// names fall back to the first category.
pub open spec fn spec_category_id(l: Seq<char>) -> u32 {
    if l == "fantasy"@ || l == "玄幻"@ {
        1
    } else if l == "urban"@ || l == "都市"@ {
        2
    } else if l == "xianxia"@ || l == "仙侠"@ {
        3
    } else if l == "wuxia"@ || l == "武侠"@ {
        4
    } else if l == "historical"@ || l == "历史"@ {
        5
    } else if l == "romance"@ || l == "言情"@ {
        6
    } else if l == "scifi"@ || l == "科幻"@ {
        7
    } else if l == "game"@ || l == "游戏"@ {
        8
    } else if l == "horror"@ || l == "悬疑"@ {
        9
    } else {
        1
    }
}

/// Maps a genre name, in English or Chinese, to the platform category id,
/// case-insensitively.
pub fn get_category_id(genre: &str) -> (r: u32)
    ensures
        r == spec_category_id(lower_seq(genre@)),
{
    let lower = ascii_lowercase(genre);
    let l = lower.as_str();
    if str_eq(l, "fantasy") || str_eq(l, "玄幻") {
        1
    } else if str_eq(l, "urban") || str_eq(l, "都市") {
        2
    } else if str_eq(l, "xianxia") || str_eq(l, "仙侠") {
        3
    } else if str_eq(l, "wuxia") || str_eq(l, "武侠") {
        4
    } else if str_eq(l, "historical") || str_eq(l, "历史") {
        5
    } else if str_eq(l, "romance") || str_eq(l, "言情") {
        6
    } else if str_eq(l, "scifi") || str_eq(l, "科幻") {
        7
    } else if str_eq(l, "game") || str_eq(l, "游戏") {
        8
    } else if str_eq(l, "horror") || str_eq(l, "悬疑") {
        9
    } else {
        1
    }
}

} // verus!
