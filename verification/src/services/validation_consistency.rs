//! Genre consistency checking: how well outline text matches the
//! vocabulary of its genre, and whether contradictory vocabulary appears.

use vstd::prelude::*;
use crate::models::ConsistencyCheckResult;
use crate::models::NovelGenre;
use crate::models::validation::seq_views;
use crate::strutil::ascii_lowercase;
use crate::strutil::contains_seq;
use crate::strutil::lower_seq;
use crate::strutil::spec_decimal;
use crate::strutil::str_contains;
use crate::strutil::str_eq;
use crate::strutil::u32_to_string;

verus! {

/// A genre's vocabulary: the genre key, in lower case, and its words.
#[derive(Debug, Clone, PartialEq)]
pub struct GenreWords {
    pub genre: String,
    pub words: Vec<String>,
}

/// The word list of the first table entry for the genre; empty when the
/// genre is unknown.
pub open spec fn find_words(table: Seq<GenreWords>, genre_lower: Seq<char>) -> Seq<String>
    decreases table.len(),
{
    if table.len() == 0 {
        Seq::empty()
    } else if table[0].genre@ == genre_lower {
        table[0].words@
    } else {
        find_words(table.drop_first(), genre_lower)
    }
}

/// The words of the list that occur in the text, in list order.
pub open spec fn matched_of(words: Seq<String>, text: Seq<char>) -> Seq<String>
    decreases words.len(),
{
    if words.len() == 0 {
        Seq::empty()
    } else {
        matched_of(words.drop_last(), text) + (if contains_seq(text, words.last()@) {
            seq![words.last()]
        } else {
            Seq::empty()
        })
    }
}

/// The mismatch message for one offending term.
pub open spec fn mismatch_msg(genre: Seq<char>, term: Seq<char>) -> Seq<char> {
    "Genre '"@ + genre + "' should not contain '"@ + term + "'"@
}

/// One mismatch message per antonym that occurs in the text, in list order.
pub open spec fn mismatches_of(words: Seq<String>, text: Seq<char>, genre: Seq<char>) -> Seq<
    Seq<char>,
>
    decreases words.len(),
{
    if words.len() == 0 {
        Seq::empty()
    } else {
        mismatches_of(words.drop_last(), text, genre) + (if contains_seq(text, words.last()@) {
            seq![mismatch_msg(genre, words.last()@)]
        } else {
            Seq::empty()
        })
    }
}

/// The consistency score in thousandths: the keyword count caps at ten
/// for a full score, and each antonym hit costs three tenths; the result
/// is clamped to the unit range.
pub open spec fn spec_score(k: int, a: int) -> u32 {
    let capped: int = if k * 100 > 1000 {
        1000
    } else {
        k * 100
    };
    let raw: int = capped - 300 * a;
    if raw < 0 {
        0u32
    } else {
        raw as u32
    }
}

/// The warning when no keyword matched.
pub open spec fn no_keywords_msg(genre: Seq<char>) -> Seq<char> {
    "No genre-specific keywords found. The outline may not match the genre '"@ + genre + "'."@
}

/// The warning when fewer than three keywords matched.
pub open spec fn few_keywords_msg(k: nat) -> Seq<char> {
    "Only "@ + spec_decimal(k) + " genre-specific keywords found. Consider adding more genre elements."@
}

/// The warnings for a keyword count: one for none, one for fewer than
/// three, none otherwise.
pub open spec fn spec_check_warnings(k: nat, genre: Seq<char>) -> Seq<Seq<char>> {
    if k == 0 {
        seq![no_keywords_msg(genre)]
    } else if k < 3 {
        seq![few_keywords_msg(k)]
    } else {
        Seq::empty()
    }
}

/// Genre keyword tables for consistency checking.
pub struct ConsistencyChecker {
    /// Vocabulary strongly associated with each genre.
    pub genre_keywords: Vec<GenreWords>,
    /// Vocabulary that should not appear in each genre.
    pub genre_antonyms: Vec<GenreWords>,
}

fn owned_all(xs: Vec<&str>) -> (r: Vec<String>)
    ensures
        r@.len() == xs@.len(),
        forall|j: int| 0 <= j < xs@.len() ==> (#[trigger] r@[j])@ == xs@[j]@,
{
    let mut out: Vec<String> = Vec::new();
    let n = xs.len();
    let mut i: usize = 0;
    while i < n
        invariant
            n == xs@.len(),
            0 <= i <= n,
            out@.len() == i,
            forall|j: int| 0 <= j < i ==> (#[trigger] out@[j])@ == xs@[j]@,
        decreases n - i,
    {
        out.push(xs[i].to_owned());
        i += 1;
    }
    out
}

fn lookup(table: &Vec<GenreWords>, genre_lower: &str) -> (r: Vec<String>)
    ensures
        r@ == find_words(table@, genre_lower@),
{
    let n = table.len();
    let mut i: usize = 0;
    proof {
        assert(table@.skip(0) =~= table@);
    }
    while i < n
        invariant
            n == table@.len(),
            0 <= i <= n,
            find_words(table@, genre_lower@) == find_words(table@.skip(i as int), genre_lower@),
        decreases n - i,
    {
        proof {
            assert(table@.skip(i as int)[0] == table@[i as int]);
        }
        if str_eq(table[i].genre.as_str(), genre_lower) {
            assert(table@[i as int].genre@ == genre_lower@);
            let r = crate::strutil::clone_strings(&table[i].words);
            return r;
        }
        proof {
            assert(table@[i as int].genre@ != genre_lower@);
            assert(table@.skip(i as int).drop_first() =~= table@.skip(i + 1));
        }
        i += 1;
    }
    proof {
        assert(table@.skip(n as int) =~= Seq::<GenreWords>::empty());
    }
    Vec::new()
}

impl ConsistencyChecker {
    /// Creates a checker over injected vocabulary tables, keyed by
    /// lower-case genre.
    pub fn with_tables(genre_keywords: Vec<GenreWords>, genre_antonyms: Vec<GenreWords>) -> (r:
        ConsistencyChecker)
        ensures
            r.genre_keywords == genre_keywords,
            r.genre_antonyms == genre_antonyms,
    {
        ConsistencyChecker { genre_keywords, genre_antonyms }
    }

    /// Creates a checker with the built-in vocabulary: a keyword set for
    /// each known genre and modern-technology antonym sets for the
    /// historical and cultivation genres.
    pub fn new() -> (r: ConsistencyChecker)
        ensures
            r.genre_keywords@.len() == 8,
            r.genre_antonyms@.len() == 2,
            r.genre_keywords@[0].genre@ == "fantasy"@,
            seq_views(r.genre_keywords@[0].words@) == spec_fantasy_keywords(),
            r.genre_keywords@[1].genre@ == "xianxia"@,
            seq_views(r.genre_keywords@[1].words@) == spec_xianxia_keywords(),
            r.genre_keywords@[2].genre@ == "urban"@,
            seq_views(r.genre_keywords@[2].words@) == spec_urban_keywords(),
            r.genre_keywords@[3].genre@ == "historical"@,
            seq_views(r.genre_keywords@[3].words@) == spec_historical_keywords(),
            r.genre_keywords@[4].genre@ == "romance"@,
            seq_views(r.genre_keywords@[4].words@) == spec_romance_keywords(),
            r.genre_keywords@[5].genre@ == "scifi"@,
            seq_views(r.genre_keywords@[5].words@) == spec_scifi_keywords(),
            r.genre_keywords@[6].genre@ == "game"@,
            seq_views(r.genre_keywords@[6].words@) == spec_game_keywords(),
            r.genre_keywords@[7].genre@ == "horror"@,
            seq_views(r.genre_keywords@[7].words@) == spec_horror_keywords(),
            r.genre_antonyms@[0].genre@ == "xianxia"@,
            seq_views(r.genre_antonyms@[0].words@) == spec_xianxia_antonyms(),
            r.genre_antonyms@[1].genre@ == "historical"@,
            seq_views(r.genre_antonyms@[1].words@) == spec_historical_antonyms(),
    {
        let mut kw: Vec<GenreWords> = Vec::new();
        let mut fantasy: Vec<&str> = Vec::new();
        fantasy.push("魔法");
        fantasy.push("修炼");
        fantasy.push("灵石");
        fantasy.push("宗门");
        fantasy.push("斗气");
        fantasy.push("灵魂");
        fantasy.push("神器");
        fantasy.push("天赋");
        fantasy.push("异火");
        fantasy.push("血脉");
        fantasy.push("法则");
        fantasy.push("次元");
        fantasy.push("召唤");
        fantasy.push("炼药师");
        let w_fantasy = owned_all(fantasy);
        assert(seq_views(w_fantasy@) =~= spec_fantasy_keywords());
        kw.push(GenreWords { genre: "fantasy".to_owned(), words: w_fantasy });

        let mut xianxia: Vec<&str> = Vec::new();
        xianxia.push("修仙");
        xianxia.push("灵气");
        xianxia.push("筑基");
        xianxia.push("金丹");
        xianxia.push("元婴");
        xianxia.push("飞升");
        xianxia.push("渡劫");
        xianxia.push("灵根");
        xianxia.push("功法");
        xianxia.push("丹药");
        xianxia.push("仙剑");
        xianxia.push("洞府");
        xianxia.push("仙宗");
        xianxia.push("妖修");
        xianxia.push("魔道");
        let w_xianxia = owned_all(xianxia);
        assert(seq_views(w_xianxia@) =~= spec_xianxia_keywords());
        kw.push(GenreWords { genre: "xianxia".to_owned(), words: w_xianxia });

        let mut urban: Vec<&str> = Vec::new();
        urban.push("都市");
        urban.push("总裁");
        urban.push("豪门");
        urban.push("创业");
        urban.push("商业");
        urban.push("公司");
        urban.push("投资");
        urban.push("股票");
        urban.push("房地产");
        urban.push("互联网");
        urban.push("黑客");
        urban.push("特工");
        urban.push("医生");
        urban.push("律师");
        urban.push("明星");
        let w_urban = owned_all(urban);
        assert(seq_views(w_urban@) =~= spec_urban_keywords());
        kw.push(GenreWords { genre: "urban".to_owned(), words: w_urban });

        let mut historical: Vec<&str> = Vec::new();
        historical.push("古代");
        historical.push("朝廷");
        historical.push("皇帝");
        historical.push("太子");
        historical.push("王爷");
        historical.push("大臣");
        historical.push("科举");
        historical.push("江湖");
        historical.push("武林");
        historical.push("侠客");
        historical.push("镖局");
        historical.push("青楼");
        historical.push("客栈");
        historical.push("商铺");
        historical.push("银两");
        let w_historical = owned_all(historical);
        assert(seq_views(w_historical@) =~= spec_historical_keywords());
        kw.push(GenreWords { genre: "historical".to_owned(), words: w_historical });

        let mut romance: Vec<&str> = Vec::new();
        romance.push("爱情");
        romance.push("甜蜜");
        romance.push("宠溺");
        romance.push("误会");
        romance.push("表白");
        romance.push("约会");
        romance.push("婚礼");
        romance.push("前任");
        romance.push("出轨");
        romance.push("豪门");
        romance.push("契约");
        romance.push("暗恋");
        romance.push("相亲");
        romance.push("闪婚");
        romance.push("甜宠");
        let w_romance = owned_all(romance);
        assert(seq_views(w_romance@) =~= spec_romance_keywords());
        kw.push(GenreWords { genre: "romance".to_owned(), words: w_romance });

        let mut scifi: Vec<&str> = Vec::new();
        scifi.push("太空");
        scifi.push("飞船");
        scifi.push("星球");
        scifi.push("外星人");
        scifi.push("人工智能");
        scifi.push("机器人");
        scifi.push("基因");
        scifi.push("克隆");
        scifi.push("未来");
        scifi.push("末世");
        scifi.push("机甲");
        scifi.push("星舰");
        scifi.push("维度");
        scifi.push("宇宙");
        scifi.push("时间旅行");
        let w_scifi = owned_all(scifi);
        assert(seq_views(w_scifi@) =~= spec_scifi_keywords());
        kw.push(GenreWords { genre: "scifi".to_owned(), words: w_scifi });

        let mut game: Vec<&str> = Vec::new();
        game.push("游戏");
        game.push("电竞");
        game.push("玩家");
        game.push("副本");
        game.push("装备");
        game.push("技能");
        game.push("升级");
        game.push("公会");
        game.push("排位");
        game.push("主播");
        game.push("代练");
        game.push("全服");
        game.push("首杀");
        game.push("神装");
        game.push("满级");
        let w_game = owned_all(game);
        assert(seq_views(w_game@) =~= spec_game_keywords());
        kw.push(GenreWords { genre: "game".to_owned(), words: w_game });

        let mut horror: Vec<&str> = Vec::new();
        horror.push("恐怖");
        horror.push("鬼魂");
        horror.push("僵尸");
        horror.push("吸血鬼");
        horror.push("狼人");
        horror.push("灵异");
        horror.push("惊悚");
        horror.push("墓地");
        horror.push("凶宅");
        horror.push("诅咒");
        horror.push("附身");
        horror.push("阴阳眼");
        horror.push("捉鬼");
        horror.push("茅山");
        horror.push("盗墓");
        let w_horror = owned_all(horror);
        assert(seq_views(w_horror@) =~= spec_horror_keywords());
        kw.push(GenreWords { genre: "horror".to_owned(), words: w_horror });

        let mut ant: Vec<GenreWords> = Vec::new();
        let mut xianxia_ant: Vec<&str> = Vec::new();
        xianxia_ant.push("电脑");
        xianxia_ant.push("手机");
        xianxia_ant.push("互联网");
        xianxia_ant.push("汽车");
        let w_xianxia_ant = owned_all(xianxia_ant);
        assert(seq_views(w_xianxia_ant@) =~= spec_xianxia_antonyms());
        ant.push(GenreWords { genre: "xianxia".to_owned(), words: w_xianxia_ant });

        let mut historical_ant: Vec<&str> = Vec::new();
        historical_ant.push("电脑");
        historical_ant.push("手机");
        historical_ant.push("互联网");
        historical_ant.push("WiFi");
        let w_historical_ant = owned_all(historical_ant);
        assert(seq_views(w_historical_ant@) =~= spec_historical_antonyms());
        ant.push(GenreWords { genre: "historical".to_owned(), words: w_historical_ant });

        ConsistencyChecker { genre_keywords: kw, genre_antonyms: ant }
    }

    /// Checks how well the outline text and premise match the expected
    /// genre: keyword matches raise the score, antonym hits lower it and
    /// are reported as mismatches, and sparse matches produce warnings.
    pub fn check(&self, genre: &str, outline_content: &str, premise: &str) -> (r:
        ConsistencyCheckResult)
        ensures
            ({
                let text = outline_content@ + " "@ + premise@;
                let gl = lower_seq(genre@);
                let kws = find_words(self.genre_keywords@, gl);
                let ants = find_words(self.genre_antonyms@, gl);
                let matched = matched_of(kws, text);
                let mismatches = mismatches_of(ants, text, genre@);
                &&& r.matched_keywords@ == matched
                &&& seq_views(r.mismatched_elements@) == mismatches
                &&& r.score == spec_score(matched.len() as int, mismatches.len() as int)
                &&& r.is_consistent == (r.score >= 300 && mismatches.len() < 2)
                &&& seq_views(r.warnings@) == spec_check_warnings(matched.len(), genre@)
            }),
    {
        let genre_lower = ascii_lowercase(genre);
        let keywords = lookup(&self.genre_keywords, genre_lower.as_str());
        let antonyms = lookup(&self.genre_antonyms, genre_lower.as_str());

        let mut combined = outline_content.to_owned();
        combined.append(" ");
        combined.append(premise);
        let ghost text = outline_content@ + " "@ + premise@;
        assert(combined@ =~= text);

        let mut matched_keywords: Vec<String> = Vec::new();
        let kn = keywords.len();
        let mut i: usize = 0;
        while i < kn
            invariant
                kn == keywords@.len(),
                0 <= i <= kn,
                text == combined@,
                matched_keywords@ =~= matched_of(keywords@.take(i as int), text),
            decreases kn - i,
        {
            if str_contains(combined.as_str(), keywords[i].as_str()) {
                matched_keywords.push(keywords[i].clone());
            }
            proof {
                assert(keywords@.take(i + 1).drop_last() =~= keywords@.take(i as int));
                assert(keywords@.take(i + 1).last() == keywords@[i as int]);
                assert(matched_keywords@ =~= matched_of(keywords@.take(i + 1), text));
            }
            i += 1;
        }
        proof {
            assert(keywords@.take(kn as int) =~= keywords@);
        }

        let mut mismatched_elements: Vec<String> = Vec::new();
        let an = antonyms.len();
        let mut i: usize = 0;
        while i < an
            invariant
                an == antonyms@.len(),
                0 <= i <= an,
                text == combined@,
                seq_views(mismatched_elements@) =~= mismatches_of(
                    antonyms@.take(i as int),
                    text,
                    genre@,
                ),
            decreases an - i,
        {
            if str_contains(combined.as_str(), antonyms[i].as_str()) {
                let mut msg = String::new();
                msg.append("Genre '");
                msg.append(genre);
                msg.append("' should not contain '");
                msg.append(antonyms[i].as_str());
                msg.append("'");
                assert(msg@ =~= mismatch_msg(genre@, antonyms@[i as int]@));
                proof {
                    crate::models::validation::lemma_seq_views_push(mismatched_elements@, msg);
                }
                mismatched_elements.push(msg);
            }
            proof {
                assert(antonyms@.take(i + 1).drop_last() =~= antonyms@.take(i as int));
                assert(antonyms@.take(i + 1).last() == antonyms@[i as int]);
                assert(seq_views(mismatched_elements@) =~= mismatches_of(
                    antonyms@.take(i + 1),
                    text,
                    genre@,
                ));
            }
            i += 1;
        }
        proof {
            assert(antonyms@.take(an as int) =~= antonyms@);
        }

        let k = matched_keywords.len();
        let a = mismatched_elements.len();
        let capped: u32 = if k >= 10 {
            1000
        } else {
            (k as u32) * 100
        };
        let score: u32 = if a >= 4 {
            assert(capped <= 1000 < 300 * (a as int));
            0
        } else {
            let pen: u32 = (a as u32) * 300;
            if capped > pen {
                capped - pen
            } else {
                0
            }
        };
        assert(score == spec_score(k as int, a as int));

        let mut warnings: Vec<String> = Vec::new();
        if k == 0 {
            let mut msg = String::new();
            msg.append("No genre-specific keywords found. The outline may not match the genre '");
            msg.append(genre);
            msg.append("'.");
            assert(msg@ =~= no_keywords_msg(genre@));
            proof {
                crate::models::validation::lemma_seq_views_push(warnings@, msg);
            }
            warnings.push(msg);
        } else if k < 3 {
            let mut msg = String::new();
            msg.append("Only ");
            let count = u32_to_string(k as u32);
            msg.append(count.as_str());
            msg.append(" genre-specific keywords found. Consider adding more genre elements.");
            assert(msg@ =~= few_keywords_msg(k as nat));
            proof {
                crate::models::validation::lemma_seq_views_push(warnings@, msg);
            }
            warnings.push(msg);
        }
        assert(seq_views(warnings@) =~= spec_check_warnings(k as nat, genre@));

        let is_consistent = score >= 300 && a < 2;

        ConsistencyCheckResult {
            is_consistent,
            score,
            matched_keywords,
            mismatched_elements,
            warnings,
        }
    }

    /// The keyword list for a genre; empty when the genre is unknown.
    pub fn get_keywords(&self, genre: &str) -> (r: Vec<String>)
        ensures
            r@ == find_words(self.genre_keywords@, lower_seq(genre@)),
    {
        let genre_lower = ascii_lowercase(genre);
        lookup(&self.genre_keywords, genre_lower.as_str())
    }
}

impl Default for ConsistencyChecker {
    /// The default checker with the built-in vocabulary.
    fn default() -> ConsistencyChecker {
        ConsistencyChecker::new()
    }
}

/// The built-in fantasy vocabulary.
pub open spec fn spec_fantasy_keywords() -> Seq<Seq<char>> {
    seq!["魔法"@, "修炼"@, "灵石"@, "宗门"@, "斗气"@, "灵魂"@, "神器"@, "天赋"@, "异火"@, "血脉"@, "法则"@, "次元"@, "召唤"@, "炼药师"@]
}

/// The built-in cultivation vocabulary.
pub open spec fn spec_xianxia_keywords() -> Seq<Seq<char>> {
    seq!["修仙"@, "灵气"@, "筑基"@, "金丹"@, "元婴"@, "飞升"@, "渡劫"@, "灵根"@, "功法"@, "丹药"@, "仙剑"@, "洞府"@, "仙宗"@, "妖修"@, "魔道"@]
}

/// The built-in urban vocabulary.
pub open spec fn spec_urban_keywords() -> Seq<Seq<char>> {
    seq!["都市"@, "总裁"@, "豪门"@, "创业"@, "商业"@, "公司"@, "投资"@, "股票"@, "房地产"@, "互联网"@, "黑客"@, "特工"@, "医生"@, "律师"@, "明星"@]
}

/// The built-in historical vocabulary.
pub open spec fn spec_historical_keywords() -> Seq<Seq<char>> {
    seq!["古代"@, "朝廷"@, "皇帝"@, "太子"@, "王爷"@, "大臣"@, "科举"@, "江湖"@, "武林"@, "侠客"@, "镖局"@, "青楼"@, "客栈"@, "商铺"@, "银两"@]
}

/// The built-in romance vocabulary.
pub open spec fn spec_romance_keywords() -> Seq<Seq<char>> {
    seq!["爱情"@, "甜蜜"@, "宠溺"@, "误会"@, "表白"@, "约会"@, "婚礼"@, "前任"@, "出轨"@, "豪门"@, "契约"@, "暗恋"@, "相亲"@, "闪婚"@, "甜宠"@]
}

/// The built-in science-fiction vocabulary.
pub open spec fn spec_scifi_keywords() -> Seq<Seq<char>> {
    seq!["太空"@, "飞船"@, "星球"@, "外星人"@, "人工智能"@, "机器人"@, "基因"@, "克隆"@, "未来"@, "末世"@, "机甲"@, "星舰"@, "维度"@, "宇宙"@, "时间旅行"@]
}

/// The built-in gaming vocabulary.
pub open spec fn spec_game_keywords() -> Seq<Seq<char>> {
    seq!["游戏"@, "电竞"@, "玩家"@, "副本"@, "装备"@, "技能"@, "升级"@, "公会"@, "排位"@, "主播"@, "代练"@, "全服"@, "首杀"@, "神装"@, "满级"@]
}

/// The built-in horror vocabulary.
pub open spec fn spec_horror_keywords() -> Seq<Seq<char>> {
    seq!["恐怖"@, "鬼魂"@, "僵尸"@, "吸血鬼"@, "狼人"@, "灵异"@, "惊悚"@, "墓地"@, "凶宅"@, "诅咒"@, "附身"@, "阴阳眼"@, "捉鬼"@, "茅山"@, "盗墓"@]
}

/// Modern-technology terms that should not appear in the cultivation genre.
pub open spec fn spec_xianxia_antonyms() -> Seq<Seq<char>> {
    seq!["电脑"@, "手机"@, "互联网"@, "汽车"@]
}

/// Modern-technology terms that should not appear in the historical genre.
pub open spec fn spec_historical_antonyms() -> Seq<Seq<char>> {
    seq!["电脑"@, "手机"@, "互联网"@, "WiFi"@]
}

/// The genre that a lower-case genre string names, if any.
pub open spec fn spec_parse_genre(l: Seq<char>) -> Option<NovelGenre> {
    if l == "fantasy"@ {
        Some(NovelGenre::Fantasy)
    } else if l == "urban"@ {
        Some(NovelGenre::Urban)
    } else if l == "xianxia"@ {
        Some(NovelGenre::Xianxia)
    } else if l == "historical"@ {
        Some(NovelGenre::Historical)
    } else if l == "romance"@ {
        Some(NovelGenre::Romance)
    } else if l == "scifi"@ {
        Some(NovelGenre::Scifi)
    } else if l == "game"@ {
        Some(NovelGenre::Game)
    } else if l == "horror"@ {
        Some(NovelGenre::Horror)
    } else {
        None
    }
}

/// Converts a genre string to the genre enum; unknown strings map to
/// nothing.
pub fn parse_genre(genre: &str) -> (r: Option<NovelGenre>)
    ensures
        r == spec_parse_genre(lower_seq(genre@)),
{
    let lower = ascii_lowercase(genre);
    let l = lower.as_str();
    if str_eq(l, "fantasy") {
        Some(NovelGenre::Fantasy)
    } else if str_eq(l, "urban") {
        Some(NovelGenre::Urban)
    } else if str_eq(l, "xianxia") {
        Some(NovelGenre::Xianxia)
    } else if str_eq(l, "historical") {
        Some(NovelGenre::Historical)
    } else if str_eq(l, "romance") {
        Some(NovelGenre::Romance)
    } else if str_eq(l, "scifi") {
        Some(NovelGenre::Scifi)
    } else if str_eq(l, "game") {
        Some(NovelGenre::Game)
    } else if str_eq(l, "horror") {
        Some(NovelGenre::Horror)
    } else {
        None
    }
}

} // verus!
