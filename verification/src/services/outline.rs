//! Outline synthesis: building a structured draft outline from genre,
//! premise, theme, and target length, using deterministic genre templates.

use vstd::prelude::*;
use crate::ids::new_id;
use crate::models::CharacterArc;
use crate::models::CharacterMoment;
use crate::models::CharacterRole;
use crate::models::Location;
use crate::models::LocationImportance;
use crate::models::NovelGenre;
use crate::models::NovelOutline;
use crate::models::OutlineStatus;
use crate::models::PlotArc;
use crate::models::WorldSettings;
use crate::models::WorldType;
use crate::models::outline::arcs_contiguous;
use crate::models::validation::seq_views;
use crate::services::chapter_planning::spec_total_chapters;

verus! {

/// Synthesizing an outline from a degenerate target length is caller
/// misuse.
#[derive(Debug, Clone, Copy, PartialEq, Eq, Structural)]
pub enum OutlineError {
    /// The target word count yields fewer than three chapters, too few for
    /// the three-arc structure.
    DegenerateTarget,
}

/// The protagonist name of a genre's template.
pub open spec fn spec_protagonist_name(genre: NovelGenre) -> Seq<char> {
    match genre {
        NovelGenre::Fantasy | NovelGenre::Xianxia => "叶凡"@,
        NovelGenre::Urban => "林逸"@,
        NovelGenre::Romance => "顾宁"@,
        _ => "主角"@,
    }
}

/// The protagonist traits of a genre's template.
pub open spec fn spec_protagonist_traits(genre: NovelGenre) -> Seq<Seq<char>> {
    match genre {
        NovelGenre::Fantasy | NovelGenre::Xianxia => seq!["坚韧"@, "机智"@, "重情义"@],
        NovelGenre::Urban => seq!["低调"@, "腹黑"@, "护短"@],
        NovelGenre::Romance => seq!["温柔"@, "坚强"@, "善良"@],
        _ => seq!["勇敢"@, "智慧"@],
    }
}

/// The world type of a genre's template.
pub open spec fn spec_world_type(genre: NovelGenre) -> WorldType {
    match genre {
        NovelGenre::Fantasy => WorldType::Fantasy,
        NovelGenre::Xianxia => WorldType::Xianxia,
        NovelGenre::Urban => WorldType::Modern,
        NovelGenre::Scifi => WorldType::Scifi,
        _ => WorldType::Modern,
    }
}

/// The world name of a genre's template.
pub open spec fn spec_world_name(genre: NovelGenre) -> Seq<char> {
    match genre {
        NovelGenre::Fantasy => "玄幻世界"@,
        NovelGenre::Xianxia => "修仙界"@,
        NovelGenre::Urban => "现代都市"@,
        NovelGenre::Scifi => "未来世界"@,
        _ => "普通世界"@,
    }
}

/// The world rules of a genre's template.
pub open spec fn spec_world_rules(genre: NovelGenre) -> Seq<Seq<char>> {
    match genre {
        NovelGenre::Fantasy => seq!["修炼体系"@, "灵石为基础"@],
        NovelGenre::Xianxia => seq!["灵气修炼"@, "境界划分"@, "天劫考验"@],
        NovelGenre::Urban => seq!["金钱至上"@, "弱肉强食"@],
        NovelGenre::Scifi => seq!["科技为主"@, "星际旅行"@],
        _ => Seq::empty(),
    }
}

/// What the synthesizer promises of each of the three arcs, by index.
pub open spec fn arc_template_ok(arc: PlotArc, idx: int, total: u32) -> bool {
    &&& idx == 0 ==> {
        &&& arc.name@ == "序章与起源"@
        &&& arc.start_chapter == 1
        &&& arc.end_chapter == total / 3
        &&& arc.summary@ == "主角经历重大事件,开启冒险之旅"@
        &&& seq_views(arc.key_events@) == seq!["主角身世揭晓"@, "获得能力或机遇"@]
        &&& arc.climax@ == "首次重大胜利"@
    }
    &&& idx == 1 ==> {
        &&& arc.name@ == "成长与挑战"@
        &&& arc.start_chapter == total / 3 + 1
        &&& arc.end_chapter == 2 * total / 3
        &&& arc.summary@ == "主角面对更强的敌人,不断成长"@
        &&& seq_views(arc.key_events@) == seq!["遇见导师"@, "获得珍贵资源"@, "经历重大挫折"@]
        &&& arc.climax@ == "击败强劲对手"@
    }
    &&& idx == 2 ==> {
        &&& arc.name@ == "终极对决"@
        &&& arc.start_chapter == 2 * total / 3 + 1
        &&& arc.end_chapter == total
        &&& arc.summary@ == "最终决战,解决最大威胁"@
        &&& seq_views(arc.key_events@) == seq!["真相大白"@, "最终准备"@]
        &&& arc.climax@ == "终极对决与胜利"@
    }
}

fn push_owned(v: &mut Vec<String>, s: &str)
    ensures
        final(v)@.len() == old(v)@.len() + 1,
        seq_views(final(v)@) == seq_views(old(v)@).push(s@),
{
    let o = s.to_owned();
    proof {
        crate::models::validation::lemma_seq_views_push(v@, o);
    }
    v.push(o);
}

/// Outline generation service.
pub struct OutlineService;

impl OutlineService {
    /// Creates an outline service.
    pub fn new() -> OutlineService {
        OutlineService
    }

    /// Generates a draft outline: three contiguous plot arcs covering every
    /// chapter, a genre-template protagonist, a mentor and an antagonist,
    /// and genre-template world settings.  A target that yields fewer than
    /// three chapters is refused.
    pub fn generate(
        &self,
        project_id: u128,
        genre: NovelGenre,
        premise: String,
        theme: String,
        target_word_count: u64,
    ) -> (r: Result<NovelOutline, OutlineError>)
        requires
            target_word_count / 10_000 <= u32::MAX,
        ensures
            spec_total_chapters(target_word_count) < 3 <==> r == Err::<NovelOutline, OutlineError>(
                OutlineError::DegenerateTarget,
            ),
            r matches Ok(o) ==> ({
                let total = spec_total_chapters(target_word_count) as u32;
                &&& o.project_id == project_id
                &&& o.premise == premise
                &&& o.theme == theme
                &&& o.target_word_count == target_word_count
                &&& o.status == OutlineStatus::Draft
                &&& o.arcs@.len() == 3
                &&& arcs_contiguous(o.arcs@, total)
                &&& forall|i: int| 0 <= i < 3 ==> arc_template_ok(#[trigger] o.arcs@[i], i, total)
                &&& o.protagonist.role == CharacterRole::Protagonist
                &&& o.protagonist.name@ == spec_protagonist_name(genre)
                &&& seq_views(o.protagonist.personality_traits@) == spec_protagonist_traits(genre)
                &&& o.supporting_characters@.len() == 2
                &&& o.supporting_characters@[0].role == CharacterRole::Supporting
                &&& o.supporting_characters@[0].name@ == "导师/贵人"@
                &&& o.supporting_characters@[1].role == CharacterRole::Antagonist
                &&& o.supporting_characters@[1].name@ == "对手/敌人"@
                &&& o.world_settings.world_type == spec_world_type(genre)
                &&& o.world_settings.name@ == spec_world_name(genre)
                &&& seq_views(o.world_settings.rules@) == spec_world_rules(genre)
            }),
    {
        let total64 = target_word_count / 10_000;
        if total64 < 3 {
            return Err(OutlineError::DegenerateTarget);
        }
        let total: u32 = total64 as u32;

        let mut outline = NovelOutline::new(project_id, premise, theme, target_word_count);
        outline.arcs = self.generate_plot_arcs(total);
        outline.protagonist = self.generate_protagonist(genre);
        outline.supporting_characters = self.generate_supporting_characters(genre);
        outline.world_settings = self.generate_world_settings(genre);
        Ok(outline)
    }

    /// Generates the three plot arcs partitioning `1..=total` into thirds,
    /// the last absorbing the remainder.
    pub fn generate_plot_arcs(&self, total: u32) -> (r: Vec<PlotArc>)
        requires
            total >= 3,
        ensures
            r@.len() == 3,
            arcs_contiguous(r@, total),
            forall|i: int| 0 <= i < 3 ==> arc_template_ok(#[trigger] r@[i], i, total),
    {
        proof {
            assert(total / 3 >= 1);
            assert(2 * total / 3 >= total / 3 + 1) by (nonlinear_arith)
                requires
                    total >= 3,
            ;
            assert(total >= 2 * total / 3 + 1) by (nonlinear_arith)
                requires
                    total >= 3,
            ;
            assert(2 * total / 3 >= 2 * (total / 3)) by (nonlinear_arith);
        }
        let third: u32 = total / 3;
        let two_thirds: u32 = ((2u64 * (total as u64)) / 3) as u32;
        assert(two_thirds == 2 * total / 3);
        let mut arcs: Vec<PlotArc> = Vec::new();

        let mut ev1: Vec<String> = Vec::new();
        push_owned(&mut ev1, "主角身世揭晓");
        push_owned(&mut ev1, "获得能力或机遇");
        assert(seq_views(ev1@) =~= seq!["主角身世揭晓"@, "获得能力或机遇"@]);
        arcs.push(
            PlotArc {
                id: new_id(),
                name: "序章与起源".to_owned(),
                start_chapter: 1,
                end_chapter: third,
                summary: "主角经历重大事件,开启冒险之旅".to_owned(),
                key_events: ev1,
                climax: "首次重大胜利".to_owned(),
            },
        );

        let mut ev2: Vec<String> = Vec::new();
        push_owned(&mut ev2, "遇见导师");
        push_owned(&mut ev2, "获得珍贵资源");
        push_owned(&mut ev2, "经历重大挫折");
        assert(seq_views(ev2@) =~= seq!["遇见导师"@, "获得珍贵资源"@, "经历重大挫折"@]);
        arcs.push(
            PlotArc {
                id: new_id(),
                name: "成长与挑战".to_owned(),
                start_chapter: third + 1,
                end_chapter: two_thirds,
                summary: "主角面对更强的敌人,不断成长".to_owned(),
                key_events: ev2,
                climax: "击败强劲对手".to_owned(),
            },
        );

        let mut ev3: Vec<String> = Vec::new();
        push_owned(&mut ev3, "真相大白");
        push_owned(&mut ev3, "最终准备");
        assert(seq_views(ev3@) =~= seq!["真相大白"@, "最终准备"@]);
        arcs.push(
            PlotArc {
                id: new_id(),
                name: "终极对决".to_owned(),
                start_chapter: two_thirds + 1,
                end_chapter: total,
                summary: "最终决战,解决最大威胁".to_owned(),
                key_events: ev3,
                climax: "终极对决与胜利".to_owned(),
            },
        );
        arcs
    }

    /// Generates the genre-template protagonist.
    pub fn generate_protagonist(&self, genre: NovelGenre) -> (r: CharacterArc)
        ensures
            r.role == CharacterRole::Protagonist,
            r.name@ == spec_protagonist_name(genre),
            seq_views(r.personality_traits@) == spec_protagonist_traits(genre),
            r.description@ == "故事的主角,经历重大成长"@,
            r.arc_description@ == "从弱小到强大,从迷茫到坚定"@,
            r.key_moments@.len() == 1,
            r.key_moments@[0].chapter == 1,
    {
        let name: &str;
        let mut traits: Vec<String> = Vec::new();
        match genre {
            NovelGenre::Fantasy | NovelGenre::Xianxia => {
                name = "叶凡";
                push_owned(&mut traits, "坚韧");
                push_owned(&mut traits, "机智");
                push_owned(&mut traits, "重情义");
            },
            NovelGenre::Urban => {
                name = "林逸";
                push_owned(&mut traits, "低调");
                push_owned(&mut traits, "腹黑");
                push_owned(&mut traits, "护短");
            },
            NovelGenre::Romance => {
                name = "顾宁";
                push_owned(&mut traits, "温柔");
                push_owned(&mut traits, "坚强");
                push_owned(&mut traits, "善良");
            },
            _ => {
                name = "主角";
                push_owned(&mut traits, "勇敢");
                push_owned(&mut traits, "智慧");
            },
        }
        assert(name@ == spec_protagonist_name(genre));
        assert(seq_views(traits@) =~= spec_protagonist_traits(genre));

        let mut key_moments: Vec<CharacterMoment> = Vec::new();
        key_moments.push(
            CharacterMoment {
                chapter: 1,
                description: "故事开始".to_owned(),
                development: "展现潜力".to_owned(),
            },
        );
        CharacterArc {
            id: new_id(),
            name: name.to_owned(),
            role: CharacterRole::Protagonist,
            description: "故事的主角,经历重大成长".to_owned(),
            personality_traits: traits,
            arc_description: "从弱小到强大,从迷茫到坚定".to_owned(),
            key_moments,
        }
    }

    /// Generates the fixed pair of supporting archetypes: a mentor and an
    /// antagonist.
    pub fn generate_supporting_characters(&self, _genre: NovelGenre) -> (r: Vec<CharacterArc>)
        ensures
            r@.len() == 2,
            r@[0].role == CharacterRole::Supporting,
            r@[0].name@ == "导师/贵人"@,
            r@[0].description@ == "帮助主角成长的人物"@,
            seq_views(r@[0].personality_traits@) == seq!["智慧"@, "神秘"@],
            r@[0].arc_description@ == "传授技能,提供帮助"@,
            r@[0].key_moments@.len() == 0,
            r@[1].role == CharacterRole::Antagonist,
            r@[1].name@ == "对手/敌人"@,
            r@[1].description@ == "主角的主要对手"@,
            seq_views(r@[1].personality_traits@) == seq!["强大"@, "阴险"@],
            r@[1].arc_description@ == "给主角制造麻烦,最终被打败"@,
            r@[1].key_moments@.len() == 0,
    {
        let mut out: Vec<CharacterArc> = Vec::new();

        let mut mentor_traits: Vec<String> = Vec::new();
        push_owned(&mut mentor_traits, "智慧");
        push_owned(&mut mentor_traits, "神秘");
        assert(seq_views(mentor_traits@) =~= seq!["智慧"@, "神秘"@]);
        out.push(
            CharacterArc {
                id: new_id(),
                name: "导师/贵人".to_owned(),
                role: CharacterRole::Supporting,
                description: "帮助主角成长的人物".to_owned(),
                personality_traits: mentor_traits,
                arc_description: "传授技能,提供帮助".to_owned(),
                key_moments: Vec::new(),
            },
        );

        let mut foe_traits: Vec<String> = Vec::new();
        push_owned(&mut foe_traits, "强大");
        push_owned(&mut foe_traits, "阴险");
        assert(seq_views(foe_traits@) =~= seq!["强大"@, "阴险"@]);
        out.push(
            CharacterArc {
                id: new_id(),
                name: "对手/敌人".to_owned(),
                role: CharacterRole::Antagonist,
                description: "主角的主要对手".to_owned(),
                personality_traits: foe_traits,
                arc_description: "给主角制造麻烦,最终被打败".to_owned(),
                key_moments: Vec::new(),
            },
        );
        out
    }

    /// Generates the genre-template world settings, with one major
    /// location.
    pub fn generate_world_settings(&self, genre: NovelGenre) -> (r: WorldSettings)
        ensures
            r.world_type == spec_world_type(genre),
            r.name@ == spec_world_name(genre),
            seq_views(r.rules@) == spec_world_rules(genre),
            r.description@ == genre.spec_variant_name() + "类型的小说世界"@,
            r.locations@.len() == 1,
            r.locations@[0].name@ == "主要场景"@,
            r.locations@[0].importance == LocationImportance::Major,
    {
        let world_type: WorldType;
        let world_name: &str;
        let mut rules: Vec<String> = Vec::new();
        match genre {
            NovelGenre::Fantasy => {
                world_type = WorldType::Fantasy;
                world_name = "玄幻世界";
                push_owned(&mut rules, "修炼体系");
                push_owned(&mut rules, "灵石为基础");
            },
            NovelGenre::Xianxia => {
                world_type = WorldType::Xianxia;
                world_name = "修仙界";
                push_owned(&mut rules, "灵气修炼");
                push_owned(&mut rules, "境界划分");
                push_owned(&mut rules, "天劫考验");
            },
            NovelGenre::Urban => {
                world_type = WorldType::Modern;
                world_name = "现代都市";
                push_owned(&mut rules, "金钱至上");
                push_owned(&mut rules, "弱肉强食");
            },
            NovelGenre::Scifi => {
                world_type = WorldType::Scifi;
                world_name = "未来世界";
                push_owned(&mut rules, "科技为主");
                push_owned(&mut rules, "星际旅行");
            },
            _ => {
                world_type = WorldType::Modern;
                world_name = "普通世界";
            },
        }
        assert(world_type == spec_world_type(genre));
        assert(world_name@ == spec_world_name(genre));
        assert(seq_views(rules@) =~= spec_world_rules(genre));

        let mut description = genre.variant_name().to_owned();
        description.append("类型的小说世界");

        let mut locations: Vec<Location> = Vec::new();
        locations.push(
            Location {
                name: "主要场景".to_owned(),
                description: "故事主要发生的地点".to_owned(),
                importance: LocationImportance::Major,
            },
        );

        WorldSettings { name: world_name.to_owned(), world_type, description, rules, locations }
    }
}

impl Default for OutlineService {
    /// The default outline service.
    fn default() -> OutlineService {
        OutlineService
    }
}

} // verus!
