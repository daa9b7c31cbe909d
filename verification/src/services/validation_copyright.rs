//! Copyright check for character names against a reference set of
//! well-known characters.

use vstd::prelude::*;
use crate::models::CopyrightCheckResult;
use crate::models::RiskLevel;
use crate::strutil::ascii_lowercase;
use crate::strutil::clone_strings;
use crate::strutil::contains_seq;
use crate::strutil::lower_seq;
use crate::strutil::str_contains;
use crate::strutil::str_eq;

verus! {

/// One reference character: the genre it is known from, its name, the work
/// it appears in, and suggested replacement names.
#[derive(Debug, Clone, PartialEq)]
pub struct CharacterEntry {
    pub genre: String,
    pub name: String,
    pub source: String,
    pub alternatives: Vec<String>,
}

/// The names of the entries, in order.
pub open spec fn entry_names(entries: Seq<CharacterEntry>) -> Seq<Seq<char>> {
    entries.map_values(|e: CharacterEntry| e.name@)
}

/// The source works of the entries, in order.
pub open spec fn entry_sources(entries: Seq<CharacterEntry>) -> Seq<Seq<char>> {
    entries.map_values(|e: CharacterEntry| e.source@)
}

/// The suggested alternatives of the entries, in order.
pub open spec fn entry_alternatives(entries: Seq<CharacterEntry>) -> Seq<Seq<Seq<char>>> {
    entries.map_values(
        |e: CharacterEntry| crate::models::validation::seq_views(e.alternatives@),
    )
}

/// What a copyright check of `name` against `entries` returns: high risk
/// with the first exact match's source and alternatives; else medium risk
/// with the first partial match's; else a clean outcome.
pub open spec fn check_outcome_ok(
    entries: Seq<CharacterEntry>,
    name: Seq<char>,
    r: CopyrightCheckResult,
) -> bool {
    &&& r.character_name@ == name
    &&& ({
        let nl = lower_seq(name);
        match find_exact(entries, nl) {
            Some(e) => {
                &&& r.is_potential_duplicate
                &&& r.risk_level == RiskLevel::High
                &&& r.source_work matches Some(s) && s@ == e.source@
                &&& r.suggested_alternatives@ == e.alternatives@
            },
            None => match find_partial(entries, nl) {
                Some(e) => {
                    &&& r.is_potential_duplicate
                    &&& r.risk_level == RiskLevel::Medium
                    &&& r.source_work matches Some(s) && s@ == e.source@
                    &&& r.suggested_alternatives@ == e.alternatives@
                },
                None => {
                    &&& !r.is_potential_duplicate
                    &&& r.risk_level == RiskLevel::Low
                    &&& r.source_work is None
                    &&& r.suggested_alternatives@.len() == 0
                },
            },
        }
    })
}

/// The entry's name equals the candidate exactly, case-insensitively.
pub open spec fn entry_matches_exact(e: CharacterEntry, name_lower: Seq<char>) -> bool {
    lower_seq(e.name@) == name_lower
}

/// One name contains the other, case-insensitively, and both are longer
/// than two characters.
pub open spec fn entry_matches_partial(e: CharacterEntry, name_lower: Seq<char>) -> bool {
    (contains_seq(lower_seq(e.name@), name_lower) || contains_seq(name_lower, lower_seq(e.name@)))
        && e.name@.len() > 2 && name_lower.len() > 2
}

/// The first entry whose name equals the candidate, case-insensitively.
pub open spec fn find_exact(entries: Seq<CharacterEntry>, name_lower: Seq<char>) -> Option<
    CharacterEntry,
>
    decreases entries.len(),
{
    if entries.len() == 0 {
        None
    } else if entry_matches_exact(entries[0], name_lower) {
        Some(entries[0])
    } else {
        find_exact(entries.drop_first(), name_lower)
    }
}

/// The first entry whose name partially matches the candidate.
pub open spec fn find_partial(entries: Seq<CharacterEntry>, name_lower: Seq<char>) -> Option<
    CharacterEntry,
>
    decreases entries.len(),
{
    if entries.len() == 0 {
        None
    } else if entry_matches_partial(entries[0], name_lower) {
        Some(entries[0])
    } else {
        find_partial(entries.drop_first(), name_lower)
    }
}

/// Character copyright database.
pub struct CopyrightChecker {
    /// The reference entries, in a fixed order.
    pub entries: Vec<CharacterEntry>,
}

fn entry(genre: &str, name: &str, source: &str, a1: &str, a2: &str, a3: &str) -> (e: CharacterEntry)
    ensures
        e.genre@ == genre@,
        e.name@ == name@,
        e.source@ == source@,
        crate::models::validation::seq_views(e.alternatives@) =~= seq![a1@, a2@, a3@],
{
    let mut alternatives: Vec<String> = Vec::new();
    alternatives.push(a1.to_owned());
    alternatives.push(a2.to_owned());
    alternatives.push(a3.to_owned());
    CharacterEntry {
        genre: genre.to_owned(),
        name: name.to_owned(),
        source: source.to_owned(),
        alternatives,
    }
}

impl CopyrightChecker {
    /// Creates a checker with the built-in reference set of well-known
    /// novel characters.
    pub fn new() -> (r: CopyrightChecker)
        ensures
            r.entries@.len() == 16,
            entry_names(r.entries@) =~= seq![
                "萧炎"@,
                "唐三"@,
                "林动"@,
                "牧尘"@,
                "韩立"@,
                "张小凡"@,
                "陆雪琪"@,
                "碧瑶"@,
                "陈北冥"@,
                "叶凡"@,
                "林ako"@,
                "雍正"@,
                "乾隆"@,
                "何以笙箫默"@,
                "刘培强"@,
                "韩朵朵"@,
            ],
            entry_sources(r.entries@) =~= seq![
                "斗破苍穹"@,
                "斗罗大陆"@,
                "武动乾坤"@,
                "大主宰"@,
                "凡人修仙传"@,
                "诛仙"@,
                "诛仙"@,
                "诛仙"@,
                "都市仙尊"@,
                "都市全能高手"@,
                "都市"@,
                "雍正王朝"@,
                "乾隆王朝"@,
                "何以笙箫默"@,
                "流浪地球"@,
                "流浪地球"@,
            ],
            entry_alternatives(r.entries@) =~~= seq![
                seq!["萧云"@, "萧天"@, "萧凡"@],
                seq!["唐云"@, "唐风"@, "唐羽"@],
                seq!["林云"@, "林风"@, "林轩"@],
                seq!["牧云"@, "牧风"@, "牧原"@],
                seq!["韩云"@, "韩风"@, "韩轩"@],
                seq!["张云"@, "张风"@, "张凡"@],
                seq!["陆云"@, "陆霜"@, "陆萱"@],
                seq!["碧云"@, "碧霞"@, "碧莲"@],
                seq!["陈云"@, "陈风"@, "陈南"@],
                seq!["叶云"@, "叶风"@, "叶天"@],
                seq!["林云"@, "林风"@, "林轩"@],
                seq!["胤禛"@, "雍正"@, "弘历"@],
                seq!["弘历"@, "乾隆"@, "永琰"@],
                seq!["何云"@, "何风"@, "何以"@],
                seq!["刘云"@, "刘强"@, "刘风"@],
                seq!["韩云"@, "韩花"@, "韩晓"@],
            ],
    {
        let mut entries: Vec<CharacterEntry> = Vec::new();
        entries.push(entry("fantasy", "萧炎", "斗破苍穹", "萧云", "萧天", "萧凡"));
        entries.push(entry("fantasy", "唐三", "斗罗大陆", "唐云", "唐风", "唐羽"));
        entries.push(entry("fantasy", "林动", "武动乾坤", "林云", "林风", "林轩"));
        entries.push(entry("fantasy", "牧尘", "大主宰", "牧云", "牧风", "牧原"));
        entries.push(entry("xianxia", "韩立", "凡人修仙传", "韩云", "韩风", "韩轩"));
        entries.push(entry("xianxia", "张小凡", "诛仙", "张云", "张风", "张凡"));
        entries.push(entry("xianxia", "陆雪琪", "诛仙", "陆云", "陆霜", "陆萱"));
        entries.push(entry("xianxia", "碧瑶", "诛仙", "碧云", "碧霞", "碧莲"));
        entries.push(entry("urban", "陈北冥", "都市仙尊", "陈云", "陈风", "陈南"));
        entries.push(entry("urban", "叶凡", "都市全能高手", "叶云", "叶风", "叶天"));
        entries.push(entry("urban", "林ako", "都市", "林云", "林风", "林轩"));
        entries.push(entry("historical", "雍正", "雍正王朝", "胤禛", "雍正", "弘历"));
        entries.push(entry("historical", "乾隆", "乾隆王朝", "弘历", "乾隆", "永琰"));
        entries.push(entry("romance", "何以笙箫默", "何以笙箫默", "何云", "何风", "何以"));
        entries.push(entry("scifi", "刘培强", "流浪地球", "刘云", "刘强", "刘风"));
        entries.push(entry("scifi", "韩朵朵", "流浪地球", "韩云", "韩花", "韩晓"));
        CopyrightChecker { entries }
    }

    /// Creates a checker over an injected reference set.
    pub fn with_entries(entries: Vec<CharacterEntry>) -> (r: CopyrightChecker)
        ensures
            r.entries == entries,
    {
        CopyrightChecker { entries }
    }

    /// Checks a character name for potential copyright issues: an exact
    /// case-insensitive match against any reference name is high risk; a
    /// containment either way between names longer than two characters is
    /// medium risk; anything else is safe.  The genre argument does not
    /// narrow the search: all genres are checked.
    pub fn check(&self, name: &str, _genre: Option<&str>) -> (r: CopyrightCheckResult)
        ensures
            check_outcome_ok(self.entries@, name@, r),
    {
        let name_lower = ascii_lowercase(name);
        let ghost nl = lower_seq(name@);

        let n = self.entries.len();
        let mut i: usize = 0;
        proof {
            assert(self.entries@.skip(0) =~= self.entries@);
        }
        while i < n
            invariant
                n == self.entries@.len(),
                0 <= i <= n,
                nl == name_lower@,
                nl == lower_seq(name@),
                find_exact(self.entries@, nl) == find_exact(self.entries@.skip(i as int), nl),
            decreases n - i,
        {
            let e = &self.entries[i];
            let entry_lower = ascii_lowercase(e.name.as_str());
            proof {
                assert(self.entries@.skip(i as int)[0] == self.entries@[i as int]);
            }
            if str_eq(entry_lower.as_str(), name_lower.as_str()) {
                assert(entry_matches_exact(self.entries@[i as int], nl));
                assert(find_exact(self.entries@.skip(i as int), nl) == Some(
                    self.entries@[i as int],
                ));
                return CopyrightCheckResult::risky(
                    name,
                    RiskLevel::High,
                    Some(e.source.clone()),
                    clone_strings(&e.alternatives),
                );
            }
            proof {
                assert(!entry_matches_exact(self.entries@[i as int], nl));
                assert(self.entries@.skip(i as int).drop_first() =~= self.entries@.skip(i + 1));
            }
            i += 1;
        }
        proof {
            assert(self.entries@.skip(n as int) =~= Seq::<CharacterEntry>::empty());
            assert(find_exact(self.entries@, nl) is None);
        }

        let mut i: usize = 0;
        proof {
            assert(self.entries@.skip(0) =~= self.entries@);
        }
        while i < n
            invariant
                n == self.entries@.len(),
                0 <= i <= n,
                nl == name_lower@,
                nl == lower_seq(name@),
                find_partial(self.entries@, nl) == find_partial(self.entries@.skip(i as int), nl),
                find_exact(self.entries@, nl) is None,
            decreases n - i,
        {
            let e = &self.entries[i];
            let entry_lower = ascii_lowercase(e.name.as_str());
            proof {
                assert(self.entries@.skip(i as int)[0] == self.entries@[i as int]);
                assert(entry_lower@.len() == e.name@.len());
                assert(name_lower@.len() == name@.len());
            }
            if (str_contains(entry_lower.as_str(), name_lower.as_str()) || str_contains(
                name_lower.as_str(),
                entry_lower.as_str(),
            )) && e.name.as_str().unicode_len() > 2 && name.unicode_len() > 2 {
                assert(entry_matches_partial(self.entries@[i as int], nl));
                assert(find_partial(self.entries@.skip(i as int), nl) == Some(
                    self.entries@[i as int],
                ));
                return CopyrightCheckResult::risky(
                    name,
                    RiskLevel::Medium,
                    Some(e.source.clone()),
                    clone_strings(&e.alternatives),
                );
            }
            proof {
                assert(!entry_matches_partial(self.entries@[i as int], nl));
                assert(self.entries@.skip(i as int).drop_first() =~= self.entries@.skip(i + 1));
            }
            i += 1;
        }
        proof {
            assert(self.entries@.skip(n as int) =~= Seq::<CharacterEntry>::empty());
            assert(find_partial(self.entries@, nl) is None);
        }

        CopyrightCheckResult::safe(name)
    }

    /// Checks several character names: one outcome per name, in input
    /// order, each exactly what `check` returns for that name.
    pub fn check_multiple(&self, names: &Vec<String>, genre: Option<&str>) -> (r: Vec<
        CopyrightCheckResult,
    >)
        ensures
            r@.len() == names@.len(),
            forall|i: int|
                0 <= i < names@.len() ==> check_outcome_ok(
                    self.entries@,
                    names@[i]@,
                    #[trigger] r@[i],
                ),
    {
        let mut out: Vec<CopyrightCheckResult> = Vec::new();
        let n = names.len();
        let mut i: usize = 0;
        while i < n
            invariant
                n == names@.len(),
                0 <= i <= n,
                out@.len() == i,
                forall|j: int|
                    0 <= j < i ==> check_outcome_ok(self.entries@, names@[j]@, #[trigger] out@[j]),
            decreases n - i,
        {
            let outcome = self.check(names[i].as_str(), genre);
            out.push(outcome);
            i += 1;
        }
        out
    }
}

impl Default for CopyrightChecker {
    /// The default checker with the built-in reference set.
    fn default() -> CopyrightChecker {
        CopyrightChecker::new()
    }
}

/// The common given names that callers may treat as low copyright risk.
pub open spec fn spec_common_names() -> Seq<Seq<char>> {
    seq![
        "张伟"@,
        "李娜"@,
        "王芳"@,
        "刘洋"@,
        "陈静"@,
        "杨明"@,
        "赵磊"@,
        "孙丽"@,
        "周涛"@,
        "吴敏"@,
        "徐强"@,
        "孙杰"@,
        "马超"@,
        "朱华"@,
        "胡军"@,
        "郭磊"@,
        "何云"@,
        "张云"@,
        "李云"@,
        "王云"@,
        "刘云"@,
        "陈云"@,
        "杨云"@,
        "赵云"@,
        "张三"@,
        "李四"@,
        "王五"@,
        "赵六"@,
        "孙七"@,
        "周八"@,
        "吴九"@,
        "郑十"@,
        "小明"@,
        "小红"@,
        "小芳"@,
        "小强"@,
        "小丽"@,
        "小刚"@,
        "小华"@,
        "小军"@,
        "Alex"@,
        "John"@,
        "Mary"@,
        "Bob"@,
        "Tom"@,
        "Jack"@,
        "Lucy"@,
        "Lily"@,
    ]
}

/// Whether the name is, case-insensitively, one of the common given names.
pub fn is_common_name(name: &str) -> (r: bool)
    ensures
        r == (exists|i: int|
            0 <= i < spec_common_names().len() && lower_seq(#[trigger] spec_common_names()[i])
                == lower_seq(name@)),
{
    let mut table: Vec<&'static str> = Vec::new();
    table.push("张伟");
    table.push("李娜");
    table.push("王芳");
    table.push("刘洋");
    table.push("陈静");
    table.push("杨明");
    table.push("赵磊");
    table.push("孙丽");
    table.push("周涛");
    table.push("吴敏");
    table.push("徐强");
    table.push("孙杰");
    table.push("马超");
    table.push("朱华");
    table.push("胡军");
    table.push("郭磊");
    table.push("何云");
    table.push("张云");
    table.push("李云");
    table.push("王云");
    table.push("刘云");
    table.push("陈云");
    table.push("杨云");
    table.push("赵云");
    table.push("张三");
    table.push("李四");
    table.push("王五");
    table.push("赵六");
    table.push("孙七");
    table.push("周八");
    table.push("吴九");
    table.push("郑十");
    table.push("小明");
    table.push("小红");
    table.push("小芳");
    table.push("小强");
    table.push("小丽");
    table.push("小刚");
    table.push("小华");
    table.push("小军");
    table.push("Alex");
    table.push("John");
    table.push("Mary");
    table.push("Bob");
    table.push("Tom");
    table.push("Jack");
    table.push("Lucy");
    table.push("Lily");
    assert(table@.map_values(|s: &'static str| s@) =~= spec_common_names());

    let name_lower = ascii_lowercase(name);
    let n = table.len();
    let mut i: usize = 0;
    while i < n
        invariant
            n == table@.len(),
            table@.map_values(|s: &'static str| s@) == spec_common_names(),
            name_lower@ == lower_seq(name@),
            0 <= i <= n,
            forall|j: int|
                0 <= j < i ==> lower_seq(#[trigger] spec_common_names()[j]) != lower_seq(name@),
        decreases n - i,
    {
        let cand = ascii_lowercase(table[i]);
        proof {
            assert(table@.map_values(|s: &'static str| s@)[i as int] == table@[i as int]@);
        }
        if str_eq(cand.as_str(), name_lower.as_str()) {
            assert(lower_seq(spec_common_names()[i as int]) == lower_seq(name@));
            return true;
        }
        assert(lower_seq(spec_common_names()[i as int]) != lower_seq(name@));
        i += 1;
    }
    false
}

} // verus!
