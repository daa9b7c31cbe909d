//! Ranking-source parsing: reading work lists and work details out of the
//! JSON payloads and rendered pages a ranking source serves, and the
//! fallback decision across acquisition tiers.
//!
//! Word-count and read-count proxies are scaled into view and favorite
//! estimates by fixed factors; this is a deliberate approximation, not a
//! precision guarantee.

use vstd::prelude::*;
use crate::json::JsonVal;
use crate::json::json_of;
use crate::json::parse_json;
use crate::json::spec_as_centi;
use crate::json::spec_as_str;
use crate::json::spec_as_u64;
use crate::json::spec_get;
use crate::json::spec_get2;
use crate::models::DataSource;
use crate::models::HotBook;
use crate::models::MarketData;
use crate::strutil::ascii_lowercase;
use crate::strutil::contains_seq;
use crate::strutil::lower_seq;
use crate::strutil::spec_find;
use crate::strutil::str_contains;
use crate::strutil::str_find;

verus! {

/// Work info from a ranking, with the rating in hundredths.
#[derive(Debug, Clone, PartialEq)]
pub struct WorkInfo {
    pub title: String,
    pub author: String,
    pub views: u64,
    pub favorites: u64,
    /// Rating in hundredths.
    pub rating: u32,
}

/// Detailed work information, with the rating in hundredths.
#[derive(Debug, Clone, PartialEq)]
pub struct WorkDetails {
    pub title: String,
    pub author: String,
    pub views: u64,
    pub favorites: u64,
    /// Rating in hundredths.
    pub rating: u32,
    pub tags: Vec<String>,
    pub description: String,
}

/// The view of a ranked work: title, author, views, favorites, rating.
pub open spec fn work_views(w: WorkInfo) -> (Seq<char>, Seq<char>, u64, u64, u32) {
    (w.title@, w.author@, w.views, w.favorites, w.rating)
}

/// The views of the listed works, in order.
pub open spec fn works_views(ws: Seq<WorkInfo>) -> Seq<(Seq<char>, Seq<char>, u64, u64, u32)> {
    ws.map_values(|w: WorkInfo| work_views(w))
}

proof fn lemma_works_views_push(ws: Seq<WorkInfo>, w: WorkInfo)
    ensures
        works_views(ws.push(w)) == works_views(ws).push(work_views(w)),
{
    assert(works_views(ws.push(w)) =~= works_views(ws).push(work_views(w)));
}

/// A count multiplied by a scale factor, saturating at the maximum.
pub open spec fn spec_sat_scale(v: u64, k: int) -> u64 {
    if v * k > u64::MAX {
        u64::MAX
    } else {
        (v * k) as u64
    }
}

fn sat_scale_1000(v: u64) -> (r: u64)
    ensures
        r == spec_sat_scale(v, 1000),
{
    if v > u64::MAX / 1000 {
        u64::MAX
    } else {
        v * 1000
    }
}

fn sat_scale_100(v: u64) -> (r: u64)
    ensures
        r == spec_sat_scale(v, 100),
{
    if v > u64::MAX / 100 {
        u64::MAX
    } else {
        v * 100
    }
}

/// The rating of a work in hundredths: the number under the rating key
/// where it reads as one, else the conservative default of 4.5.
pub open spec fn spec_rating_centi(v: JsonVal) -> u32 {
    match spec_as_centi(v) {
        Some(c) => if c <= u32::MAX {
            c as u32
        } else {
            450u32
        },
        None => 450u32,
    }
}

fn rating_centi_exec(v: &JsonVal) -> (r: u32)
    ensures
        r == spec_rating_centi(*v),
{
    match v.as_centi() {
        Some(c) => {
            if c <= u32::MAX as u64 {
                c as u32
            } else {
                450
            }
        },
        None => 450,
    }
}

/// The string under the option, when it holds one.
pub open spec fn spec_opt_str(v: Option<JsonVal>) -> Option<Seq<char>> {
    match v {
        Some(x) => spec_as_str(x),
        None => None,
    }
}

/// The unsigned integer under the option, when it holds one.
pub open spec fn spec_opt_u64(v: Option<JsonVal>) -> Option<u64> {
    match v {
        Some(x) => spec_as_u64(x),
        None => None,
    }
}

/// The ranked work read from one record, with alternate key names for each
/// field.  Every field must resolve, or the record yields nothing; the
/// rating key must be present but any value defaults to 4.5.
pub open spec fn spec_work_of(
    item: JsonVal,
    t1: Seq<char>,
    t2: Seq<char>,
    a1: Seq<char>,
    a2: Seq<char>,
    v1: Seq<char>,
    v2: Seq<char>,
    f1: Seq<char>,
    f2: Seq<char>,
) -> Option<(Seq<char>, Seq<char>, u64, u64, u32)> {
    match spec_opt_str(spec_get2(item, t1, t2)) {
        None => None,
        Some(title) => match spec_opt_str(spec_get2(item, a1, a2)) {
            None => None,
            Some(author) => match spec_opt_u64(spec_get2(item, v1, v2)) {
                None => None,
                Some(vr) => match spec_opt_u64(spec_get2(item, f1, f2)) {
                    None => None,
                    Some(fr) => match spec_get2(item, "score"@, "rating"@) {
                        None => None,
                        Some(rv) => Some(
                            (
                                title,
                                author,
                                spec_sat_scale(vr, 1000),
                                spec_sat_scale(fr, 100),
                                spec_rating_centi(rv),
                            ),
                        ),
                    },
                },
            },
        },
    }
}

fn work_of(
    item: &JsonVal,
    t1: &str,
    t2: &str,
    a1: &str,
    a2: &str,
    v1: &str,
    v2: &str,
    f1: &str,
    f2: &str,
) -> (r: Option<WorkInfo>)
    ensures
        match r {
            Some(w) => spec_work_of(*item, t1@, t2@, a1@, a2@, v1@, v2@, f1@, f2@) == Some(
                work_views(w),
            ),
            None => spec_work_of(*item, t1@, t2@, a1@, a2@, v1@, v2@, f1@, f2@) is None,
        },
{
    let title = match item.get2(t1, t2) {
        Some(x) => match x.as_str() {
            Some(s) => s.clone(),
            None => {
                return None;
            },
        },
        None => {
            return None;
        },
    };
    let author = match item.get2(a1, a2) {
        Some(x) => match x.as_str() {
            Some(s) => s.clone(),
            None => {
                return None;
            },
        },
        None => {
            return None;
        },
    };
    let views_raw = match item.get2(v1, v2) {
        Some(x) => match x.as_u64() {
            Some(v) => v,
            None => {
                return None;
            },
        },
        None => {
            return None;
        },
    };
    let favorites_raw = match item.get2(f1, f2) {
        Some(x) => match x.as_u64() {
            Some(v) => v,
            None => {
                return None;
            },
        },
        None => {
            return None;
        },
    };
    let rating = match item.get2("score", "rating") {
        Some(x) => rating_centi_exec(x),
        None => {
            return None;
        },
    };
    let views = sat_scale_1000(views_raw);
    let favorites = sat_scale_100(favorites_raw);
    Some(WorkInfo { title, author, views, favorites, rating })
}

/// The ranked works read from a record list, partial records dropped.
pub open spec fn spec_works_list(
    items: Seq<JsonVal>,
    t1: Seq<char>,
    t2: Seq<char>,
    a1: Seq<char>,
    a2: Seq<char>,
    v1: Seq<char>,
    v2: Seq<char>,
    f1: Seq<char>,
    f2: Seq<char>,
) -> Seq<(Seq<char>, Seq<char>, u64, u64, u32)>
    decreases items.len(),
{
    if items.len() == 0 {
        Seq::empty()
    } else {
        spec_works_list(items.drop_last(), t1, t2, a1, a2, v1, v2, f1, f2) + (
        match spec_work_of(items.last(), t1, t2, a1, a2, v1, v2, f1, f2) {
            Some(w) => seq![w],
            None => Seq::empty(),
        })
    }
}

fn works_list(
    items: &Vec<JsonVal>,
    t1: &str,
    t2: &str,
    a1: &str,
    a2: &str,
    v1: &str,
    v2: &str,
    f1: &str,
    f2: &str,
) -> (r: Vec<WorkInfo>)
    ensures
        works_views(r@) == spec_works_list(
            items@,
            t1@,
            t2@,
            a1@,
            a2@,
            v1@,
            v2@,
            f1@,
            f2@,
        ),
{
    let mut out: Vec<WorkInfo> = Vec::new();
    let n = items.len();
    let mut i: usize = 0;
    while i < n
        invariant
            n == items@.len(),
            0 <= i <= n,
            works_views(out@) =~= spec_works_list(
                items@.take(i as int),
                t1@,
                t2@,
                a1@,
                a2@,
                v1@,
                v2@,
                f1@,
                f2@,
            ),
        decreases n - i,
    {
        match work_of(&items[i], t1, t2, a1, a2, v1, v2, f1, f2) {
            Some(w) => {
                proof {
                    lemma_works_views_push(out@, w);
                }
                out.push(w);
            },
            None => {
            },
        }
        proof {
            assert(items@.take(i + 1).drop_last() =~= items@.take(i as int));
            assert(items@.take(i + 1).last() == items@[i as int]);
            assert(works_views(out@) =~= spec_works_list(
                items@.take(i + 1),
                t1@,
                t2@,
                a1@,
                a2@,
                v1@,
                v2@,
                f1@,
                f2@,
            ));
        }
        i += 1;
    }
    proof {
        assert(items@.take(n as int) =~= items@);
    }
    out
}

/// The record list of a rankings payload: the array under `data.list`,
/// else under `data` itself.
pub open spec fn spec_rankings_items(body: JsonVal) -> Option<Seq<JsonVal>> {
    let dl = match spec_get(body, "data"@) {
        Some(d) => spec_get(d, "list"@),
        None => None,
    };
    let node = if dl is Some {
        dl
    } else {
        spec_get(body, "data"@)
    };
    match node {
        Some(JsonVal::Arr(items)) => Some(items@),
        _ => None,
    }
}

/// The ranked works of a rankings payload, read with the payload field
/// names (`author_name` before `author`, and so on); nothing when the
/// payload has no record array.
pub open spec fn spec_api_rankings(body: JsonVal) -> Option<
    Seq<(Seq<char>, Seq<char>, u64, u64, u32)>,
> {
    match spec_rankings_items(body) {
        Some(items) => Some(
            spec_works_list(
                items,
                "title"@,
                "title"@,
                "author_name"@,
                "author"@,
                "word_count"@,
                "views"@,
                "total_reads"@,
                "favorites"@,
            ),
        ),
        None => None,
    }
}

/// Parses a rankings payload: the works under `data.list` or `data`,
/// partial records dropped; nothing when no record array is found.
pub fn parse_api_rankings(body: &JsonVal) -> (r: Option<Vec<WorkInfo>>)
    ensures
        match r {
            Some(works) => spec_api_rankings(*body) == Some(works_views(works@)),
            None => spec_api_rankings(*body) is None,
        },
{
    let node = match body.get("data") {
        Some(d) => match d.get("list") {
            Some(l) => l,
            None => d,
        },
        None => {
            return None;
        },
    };
    match node {
        JsonVal::Arr(items) => {
            let works = works_list(
                items,
                "title",
                "title",
                "author_name",
                "author",
                "word_count",
                "views",
                "total_reads",
                "favorites",
            );
            Some(works)
        },
        _ => None,
    }
}

/// The record list of an embedded-state payload: the array under the first
/// of `rankList`, `ranking`, `bookList`, or `list` that is present.
pub open spec fn spec_state_items(json: JsonVal) -> Option<Seq<JsonVal>> {
    let node = match spec_get(json, "rankList"@) {
        Some(x) => Some(x),
        None => match spec_get(json, "ranking"@) {
            Some(x) => Some(x),
            None => match spec_get(json, "bookList"@) {
                Some(x) => Some(x),
                None => spec_get(json, "list"@),
            },
        },
    };
    match node {
        Some(JsonVal::Arr(items)) => Some(items@),
        _ => None,
    }
}

/// The ranked works of an embedded-state payload, read with the rendered
/// page's field names (`bookName` before `title`, and so on).
pub open spec fn spec_state_rankings(json: JsonVal) -> Option<
    Seq<(Seq<char>, Seq<char>, u64, u64, u32)>,
> {
    match spec_state_items(json) {
        Some(items) => Some(
            spec_works_list(
                items,
                "bookName"@,
                "title"@,
                "authorName"@,
                "author"@,
                "wordCount"@,
                "views"@,
                "totalRead"@,
                "favorites"@,
            ),
        ),
        None => None,
    }
}

/// Extracts ranked works from an embedded state payload; nothing when no
/// ranking array is found under the known keys.
pub fn extract_from_json_state(json: &JsonVal) -> (r: Option<Vec<WorkInfo>>)
    ensures
        match r {
            Some(works) => spec_state_rankings(*json) == Some(works_views(works@)),
            None => spec_state_rankings(*json) is None,
        },
{
    let node = match json.get("rankList") {
        Some(x) => x,
        None => match json.get("ranking") {
            Some(x) => x,
            None => match json.get("bookList") {
                Some(x) => x,
                None => match json.get("list") {
                    Some(x) => x,
                    None => {
                        return None;
                    },
                },
            },
        },
    };
    match node {
        JsonVal::Arr(items) => {
            let works = works_list(
                items,
                "bookName",
                "title",
                "authorName",
                "author",
                "wordCount",
                "views",
                "totalRead",
                "favorites",
            );
            Some(works)
        },
        _ => None,
    }
}

/// The view of detailed work information.
pub open spec fn detail_views(d: WorkDetails) -> (
    Seq<char>,
    Seq<char>,
    u64,
    u64,
    u32,
    Seq<Seq<char>>,
    Seq<char>,
) {
    (
        d.title@,
        d.author@,
        d.views,
        d.favorites,
        d.rating,
        crate::models::validation::seq_views(d.tags@),
        d.description@,
    )
}

/// The strings among the listed values, in order.
pub open spec fn spec_str_items(items: Seq<JsonVal>) -> Seq<Seq<char>>
    decreases items.len(),
{
    if items.len() == 0 {
        Seq::empty()
    } else {
        spec_str_items(items.drop_last()) + (match spec_as_str(items.last()) {
            Some(t) => seq![t],
            None => Seq::empty(),
        })
    }
}

/// The tag list under an optional value: the strings of its array, or
/// nothing at all.
pub open spec fn spec_tags(v: Option<JsonVal>) -> Seq<Seq<char>> {
    match v {
        Some(JsonVal::Arr(items)) => spec_str_items(items@),
        _ => Seq::empty(),
    }
}

fn collect_str_items(items: &Vec<JsonVal>) -> (r: Vec<String>)
    ensures
        crate::models::validation::seq_views(r@) == spec_str_items(items@),
{
    let mut out: Vec<String> = Vec::new();
    let n = items.len();
    let mut i: usize = 0;
    while i < n
        invariant
            n == items@.len(),
            0 <= i <= n,
            crate::models::validation::seq_views(out@) =~= spec_str_items(items@.take(i as int)),
        decreases n - i,
    {
        match items[i].as_str() {
            Some(t) => {
                let c = t.clone();
                proof {
                    crate::models::validation::lemma_seq_views_push(out@, c);
                }
                out.push(c);
            },
            None => {},
        }
        proof {
            assert(items@.take(i + 1).drop_last() =~= items@.take(i as int));
            assert(items@.take(i + 1).last() == items@[i as int]);
            assert(crate::models::validation::seq_views(out@) =~= spec_str_items(
                items@.take(i + 1),
            ));
        }
        i += 1;
    }
    proof {
        assert(items@.take(n as int) =~= items@);
    }
    out
}

fn tags_of(v: Option<&JsonVal>) -> (r: Vec<String>)
    ensures
        crate::models::validation::seq_views(r@) == spec_tags(
            match v {
                Some(x) => Some(*x),
                None => None,
            },
        ),
{
    match v {
        Some(JsonVal::Arr(items)) => collect_str_items(items),
        _ => Vec::new(),
    }
}

/// The detailed work read from a record, with alternate key names.  The
/// author, views, favorites, and rating fields must resolve; the title
/// falls back to the given default only where `title_required` is false;
/// the description falls back to its placeholder.
pub open spec fn spec_detail_of(
    data: JsonVal,
    t1: Seq<char>,
    t2: Seq<char>,
    title_required: bool,
    a1: Seq<char>,
    a2: Seq<char>,
    v1: Seq<char>,
    v2: Seq<char>,
    f1: Seq<char>,
    f2: Seq<char>,
) -> Option<(Seq<char>, Seq<char>, u64, u64, u32, Seq<Seq<char>>, Seq<char>)> {
    let title_opt = spec_opt_str(spec_get2(data, t1, t2));
    if title_required && title_opt is None {
        None
    } else {
        let title = match title_opt {
            Some(t) => t,
            None => "Unknown"@,
        };
        match spec_opt_str(spec_get2(data, a1, a2)) {
            None => None,
            Some(author) => match spec_opt_u64(spec_get2(data, v1, v2)) {
                None => None,
                Some(vr) => match spec_opt_u64(spec_get2(data, f1, f2)) {
                    None => None,
                    Some(fr) => match spec_get2(data, "score"@, "rating"@) {
                        None => None,
                        Some(rv) => {
                            let tags = spec_tags(spec_get(data, "tags"@));
                            let desc = match spec_opt_str(
                                spec_get2(data, "description"@, "intro"@),
                            ) {
                                Some(d) => d,
                                None => "No description"@,
                            };
                            Some(
                                (
                                    title,
                                    author,
                                    spec_sat_scale(vr, 1000),
                                    spec_sat_scale(fr, 100),
                                    spec_rating_centi(rv),
                                    tags,
                                    desc,
                                ),
                            )
                        },
                    },
                },
            },
        }
    }
}

fn detail_of(
    data: &JsonVal,
    t1: &str,
    t2: &str,
    title_required: bool,
    a1: &str,
    a2: &str,
    v1: &str,
    v2: &str,
    f1: &str,
    f2: &str,
) -> (r: Option<WorkDetails>)
    ensures
        match r {
            Some(d) => spec_detail_of(
                *data,
                t1@,
                t2@,
                title_required,
                a1@,
                a2@,
                v1@,
                v2@,
                f1@,
                f2@,
            ) == Some(detail_views(d)),
            None => spec_detail_of(
                *data,
                t1@,
                t2@,
                title_required,
                a1@,
                a2@,
                v1@,
                v2@,
                f1@,
                f2@,
            ) is None,
        },
{
    let title_node = data.get2(t1, t2);
    let title_str: Option<String> = match title_node {
        Some(x) => match x.as_str() {
            Some(s) => Some(s.clone()),
            None => None,
        },
        None => None,
    };
    let title: String = match title_str {
        Some(t) => t,
        None => {
            if title_required {
                return None;
            }
            "Unknown".to_owned()
        },
    };
    let author = match data.get2(a1, a2) {
        Some(x) => match x.as_str() {
            Some(s) => s.clone(),
            None => {
                return None;
            },
        },
        None => {
            return None;
        },
    };
    let views_raw = match data.get2(v1, v2) {
        Some(x) => match x.as_u64() {
            Some(v) => v,
            None => {
                return None;
            },
        },
        None => {
            return None;
        },
    };
    let favorites_raw = match data.get2(f1, f2) {
        Some(x) => match x.as_u64() {
            Some(v) => v,
            None => {
                return None;
            },
        },
        None => {
            return None;
        },
    };
    let rating = match data.get2("score", "rating") {
        Some(x) => rating_centi_exec(x),
        None => {
            return None;
        },
    };
    let tags = tags_of(data.get("tags"));
    let description = match data.get2("description", "intro") {
        Some(x) => match x.as_str() {
            Some(s) => s.clone(),
            None => "No description".to_owned(),
        },
        None => "No description".to_owned(),
    };
    Some(
        WorkDetails {
            title,
            author,
            views: sat_scale_1000(views_raw),
            favorites: sat_scale_100(favorites_raw),
            rating,
            tags,
            description,
        },
    )
}

/// The detailed work of a details payload: the record under `data`, read
/// with the payload field names; the title defaults to its placeholder.
pub open spec fn spec_api_details(body: JsonVal) -> Option<
    (Seq<char>, Seq<char>, u64, u64, u32, Seq<Seq<char>>, Seq<char>),
> {
    match spec_get(body, "data"@) {
        Some(data) => spec_detail_of(
            data,
            "title"@,
            "title"@,
            false,
            "author_name"@,
            "author"@,
            "word_count"@,
            "views"@,
            "total_reads"@,
            "favorites"@,
        ),
        None => None,
    }
}

/// Parses a details payload: the record under `data`, or nothing.
pub fn parse_api_details(body: &JsonVal) -> (r: Option<WorkDetails>)
    ensures
        match r {
            Some(d) => spec_api_details(*body) == Some(detail_views(d)),
            None => spec_api_details(*body) is None,
        },
{
    match body.get("data") {
        Some(data) => detail_of(
            data,
            "title",
            "title",
            false,
            "author_name",
            "author",
            "word_count",
            "views",
            "total_reads",
            "favorites",
        ),
        None => None,
    }
}

/// The detailed work of an embedded-state payload: the record under the
/// first of `bookDetail`, `detail`, or `data`, read with the rendered
/// page's field names; the title is required.
pub open spec fn spec_state_details(json: JsonVal) -> Option<
    (Seq<char>, Seq<char>, u64, u64, u32, Seq<Seq<char>>, Seq<char>),
> {
    let node = match spec_get(json, "bookDetail"@) {
        Some(x) => Some(x),
        None => match spec_get(json, "detail"@) {
            Some(x) => Some(x),
            None => spec_get(json, "data"@),
        },
    };
    match node {
        Some(data) => spec_detail_of(
            data,
            "bookName"@,
            "title"@,
            true,
            "authorName"@,
            "author"@,
            "wordCount"@,
            "views"@,
            "totalRead"@,
            "favorites"@,
        ),
        None => None,
    }
}

/// Extracts detailed work information from an embedded state payload.
pub fn extract_details_from_json(json: &JsonVal) -> (r: Option<WorkDetails>)
    ensures
        match r {
            Some(d) => spec_state_details(*json) == Some(detail_views(d)),
            None => spec_state_details(*json) is None,
        },
{
    let node = match json.get("bookDetail") {
        Some(x) => x,
        None => match json.get("detail") {
            Some(x) => x,
            None => match json.get("data") {
                Some(x) => x,
                None => {
                    return None;
                },
            },
        },
    };
    detail_of(
        node,
        "bookName",
        "title",
        true,
        "authorName",
        "author",
        "wordCount",
        "views",
        "totalRead",
        "favorites",
    )
}

/// The embedded JSON text of a rendered page: the text from the first `{`
/// after the state marker up to the closing script token, when all three
/// are found in order.
pub open spec fn spec_state_blob(html: Seq<char>) -> Option<Seq<char>> {
    let m = spec_find(html, "window.__INITIAL_STATE__"@);
    if m == -1 {
        None
    } else {
        let rest = html.skip(m);
        let e = spec_find(rest, "</script>"@);
        if e == -1 {
            None
        } else {
            let script = rest.take(e);
            let j = spec_find(script, "{"@);
            if j == -1 {
                None
            } else {
                Some(script.skip(j))
            }
        }
    }
}

fn state_blob(html: &str) -> (r: Option<String>)
    ensures
        match r {
            Some(s) => spec_state_blob(html@) == Some(s@),
            None => spec_state_blob(html@) is None,
        },
{
    let n = html.unicode_len();
    match str_find(html, "window.__INITIAL_STATE__") {
        None => None,
        Some(m) => {
            let rest = html.substring_char(m, n);
            proof {
                assert(rest@ =~= html@.skip(m as int));
            }
            let rn = rest.unicode_len();
            match str_find(rest, "</script>") {
                None => None,
                Some(e) => {
                    let script = rest.substring_char(0, e);
                    proof {
                        assert(script@ =~= rest@.take(e as int));
                    }
                    let sn = script.unicode_len();
                    match str_find(script, "{") {
                        None => None,
                        Some(j) => {
                            let blob = script.substring_char(j, sn);
                            proof {
                                assert(blob@ =~= script@.skip(j as int));
                            }
                            Some(blob.to_owned())
                        },
                    }
                },
            }
        },
    }
}

/// The ranked works of a rendered listing page: the embedded state blob
/// parsed as JSON and read for ranking data; empty when any step fails.
pub open spec fn spec_html_rankings(html: Seq<char>) -> Seq<
    (Seq<char>, Seq<char>, u64, u64, u32),
> {
    match spec_state_blob(html) {
        Some(blob) => match json_of(blob) {
            Some(doc) => match spec_state_rankings(doc) {
                Some(works) => works,
                None => Seq::empty(),
            },
            None => Seq::empty(),
        },
        None => Seq::empty(),
    }
}

/// Parses a rendered listing page for ranked works; an unreadable page
/// yields an empty list.
pub fn parse_html_rankings(html: &str) -> (r: Vec<WorkInfo>)
    ensures
        works_views(r@) == spec_html_rankings(html@),
{
    match state_blob(html) {
        Some(blob) => {
            match parse_json(blob.as_str()) {
                Some(doc) => {
                    match extract_from_json_state(&doc) {
                        Some(works) => works,
                        None => {
                            assert(works_views(Seq::<WorkInfo>::empty()) =~= Seq::<
                                (Seq<char>, Seq<char>, u64, u64, u32),
                            >::empty());
                            Vec::new()
                        },
                    }
                },
                None => {
                    assert(works_views(Seq::<WorkInfo>::empty()) =~= Seq::<
                        (Seq<char>, Seq<char>, u64, u64, u32),
                    >::empty());
                    Vec::new()
                },
            }
        },
        None => {
            assert(works_views(Seq::<WorkInfo>::empty()) =~= Seq::<
                (Seq<char>, Seq<char>, u64, u64, u32),
            >::empty());
            Vec::new()
        },
    }
}

/// The detailed work of a rendered book page, or the minimal placeholder
/// record naming the work id when the page cannot be read.
pub open spec fn spec_html_details(html: Seq<char>, work_id: Seq<char>) -> (
    Seq<char>,
    Seq<char>,
    u64,
    u64,
    u32,
    Seq<Seq<char>>,
    Seq<char>,
) {
    let fallback = (
        "Work "@ + work_id,
        "Unknown"@,
        0u64,
        0u64,
        0u32,
        Seq::<Seq<char>>::empty(),
        "Could not fetch details"@,
    );
    match spec_state_blob(html) {
        Some(blob) => match json_of(blob) {
            Some(doc) => match spec_state_details(doc) {
                Some(d) => d,
                None => fallback,
            },
            None => fallback,
        },
        None => fallback,
    }
}

/// Parses a rendered book page for work details; an unreadable page yields
/// the minimal placeholder record.
pub fn parse_html_details(html: &str, work_id: &str) -> (r: WorkDetails)
    ensures
        detail_views(r) == spec_html_details(html@, work_id@),
{
    let parsed: Option<WorkDetails> = match state_blob(html) {
        Some(blob) => match parse_json(blob.as_str()) {
            Some(doc) => extract_details_from_json(&doc),
            None => None,
        },
        None => None,
    };
    match parsed {
        Some(d) => d,
        None => {
            let mut title = "Work ".to_owned();
            title.append(work_id);
            let r = WorkDetails {
                title,
                author: "Unknown".to_owned(),
                views: 0,
                favorites: 0,
                rating: 0,
                tags: Vec::new(),
                description: "Could not fetch details".to_owned(),
            };
            assert(crate::models::validation::seq_views(r.tags@) =~= Seq::<Seq<char>>::empty());
            r
        },
    }
}

/// The ranking-table genre id for a genre name: the id of the first known
/// genre token contained in the lower-cased name, defaulting to the first
/// table entry.
pub open spec fn spec_genre_id(genre: Seq<char>) -> Seq<char> {
    let l = lower_seq(genre);
    if contains_seq(l, "fantasy"@) {
        "1"@
    } else if contains_seq(l, "xianxia"@) {
        "2"@
    } else if contains_seq(l, "urban"@) {
        "3"@
    } else if contains_seq(l, "historical"@) {
        "4"@
    } else if contains_seq(l, "romance"@) {
        "5"@
    } else if contains_seq(l, "scifi"@) {
        "6"@
    } else if contains_seq(l, "game"@) {
        "7"@
    } else if contains_seq(l, "horror"@) {
        "8"@
    } else if contains_seq(l, "wuxia"@) {
        "9"@
    } else if contains_seq(l, "other"@) {
        "10"@
    } else {
        "1"@
    }
}

/// Maps a genre name to the ranking-table genre id, case-insensitively.
pub fn get_genre_id(genre: &str) -> (r: &'static str)
    ensures
        r@ == spec_genre_id(genre@),
{
    let lower = ascii_lowercase(genre);
    let l = lower.as_str();
    if str_contains(l, "fantasy") {
        "1"
    } else if str_contains(l, "xianxia") {
        "2"
    } else if str_contains(l, "urban") {
        "3"
    } else if str_contains(l, "historical") {
        "4"
    } else if str_contains(l, "romance") {
        "5"
    } else if str_contains(l, "scifi") {
        "6"
    } else if str_contains(l, "game") {
        "7"
    } else if str_contains(l, "horror") {
        "8"
    } else if str_contains(l, "wuxia") {
        "9"
    } else if str_contains(l, "other") {
        "10"
    } else {
        "1"
    }
}

/// The sum of the view counts of the listed works.
pub open spec fn sum_views(works: Seq<WorkInfo>) -> int
    decreases works.len(),
{
    if works.len() == 0 {
        0
    } else {
        sum_views(works.drop_last()) + works.last().views
    }
}

/// Bundles ranked works and tags into a market snapshot: one hot book per
/// work, the totals carried over, and the average word count recovered
/// from the scaled view estimates.
pub fn market_data_from_works(works: &Vec<WorkInfo>, tags: Vec<String>) -> (r: MarketData)
    requires
        works@.len() <= u32::MAX,
    ensures
        r.total_books == works@.len(),
        r.tags == tags,
        r.hot_books@.len() == works@.len(),
        forall|i: int|
            0 <= i < works@.len() ==> {
                let b = #[trigger] r.hot_books@[i];
                let w = works@[i];
                &&& b.title@ == w.title@
                &&& b.author@ == w.author@
                &&& b.word_count == w.views
                &&& b.likes == w.favorites
                &&& b.rating == Some(w.rating)
            },
        r.average_word_count == crate::services::feasibility::spec_average(
            sum_views(works@),
            works@.len(),
        ) / 1000,
{
    let n = works.len();
    let mut hot_books: Vec<HotBook> = Vec::new();
    let mut total: u128 = 0;
    let mut i: usize = 0;
    while i < n
        invariant
            n == works@.len(),
            0 <= i <= n,
            hot_books@.len() == i,
            total == sum_views(works@.take(i as int)),
            total <= (i as int) * (u64::MAX as int),
            forall|j: int|
                0 <= j < i ==> {
                    let b = #[trigger] hot_books@[j];
                    let w = works@[j];
                    &&& b.title@ == w.title@
                    &&& b.author@ == w.author@
                    &&& b.word_count == w.views
                    &&& b.likes == w.favorites
                    &&& b.rating == Some(w.rating)
                },
        decreases n - i,
    {
        let w = &works[i];
        hot_books.push(
            HotBook {
                title: w.title.clone(),
                author: w.author.clone(),
                word_count: w.views,
                likes: w.favorites,
                rating: Some(w.rating),
            },
        );
        proof {
            assert(works@.take(i + 1).drop_last() =~= works@.take(i as int));
            assert(works@.take(i + 1).last() == works@[i as int]);
        }
        total = total + w.views as u128;
        i += 1;
    }
    proof {
        assert(works@.take(n as int) =~= works@);
    }
    let divisor: u128 = if n == 0 {
        1
    } else {
        n as u128
    };
    let avg128 = total / divisor;
    proof {
        if n > 0 {
            assert(total / (n as u128) <= u64::MAX) by (nonlinear_arith)
                requires
                    total <= (n as int) * (u64::MAX as int),
                    n > 0,
            ;
        }
    }
    let avg: u64 = (avg128 as u64) / 1000;
    MarketData {
        total_books: n as u32,
        hot_books,
        average_word_count: avg,
        tags,
    }
}

/// The fallback decision across acquisition tiers: the first tier whose
/// snapshot holds at least one hot book wins and is tagged live; when both
/// tiers fail, no snapshot is returned and the provenance is the
/// fallback tier.  Absence of data is a valid outcome, never a failure.
pub fn acquire_outcome(tier1: Option<MarketData>, tier2: Option<MarketData>) -> (r: (
    Option<MarketData>,
    DataSource,
))
    ensures
        (tier1 matches Some(d) && d.hot_books@.len() > 0) ==> r == (tier1, DataSource::FanqieLive),
        (!(tier1 matches Some(d) && d.hot_books@.len() > 0) && (tier2 matches Some(d)
            && d.hot_books@.len() > 0)) ==> r == (tier2, DataSource::FanqieLive),
        (!(tier1 matches Some(d) && d.hot_books@.len() > 0) && !(tier2 matches Some(d)
            && d.hot_books@.len() > 0)) ==> r == (
            None::<MarketData>,
            DataSource::Fallback,
        ),
{
    match tier1 {
        Some(d) => {
            if d.hot_books.len() > 0 {
                return (Some(d), DataSource::FanqieLive);
            }
        },
        None => {},
    }
    match tier2 {
        Some(d) => {
            if d.hot_books.len() > 0 {
                return (Some(d), DataSource::FanqieLive);
            }
        },
        None => {},
    }
    (None, DataSource::Fallback)
}

} // verus!
