//! Chapter planning: expanding an approved outline into a numbered chapter
//! plan with scheduled plot twists.

use vstd::prelude::*;
use vstd::pervasive::VecAdditionalExecFns;
use crate::models::ChapterPlan;
use crate::models::ChapterSummary;
use crate::models::NovelOutline;
use crate::models::OutlineStatus;
use crate::models::PlotArc;
use crate::models::spec_twist_positions;
use crate::models::validation::seq_views;
use crate::strutil::spec_decimal;
use crate::strutil::u32_to_string;

verus! {

/// Planning against an outline that is still a draft is caller misuse.
#[derive(Debug, Clone, Copy, PartialEq, Eq, Structural)]
pub enum PlanError {
    /// The outline has not been approved.
    UnapprovedOutline,
}

/// The number of chapters planned for a target word count: one chapter per
/// ten thousand words, rounded down.
pub open spec fn spec_total_chapters(target_word_count: u64) -> u64 {
    target_word_count / 10_000
}

/// The first arc whose chapter range contains `n`.
pub open spec fn find_arc(arcs: Seq<PlotArc>, n: u32) -> Option<PlotArc>
    decreases arcs.len(),
{
    if arcs.len() == 0 {
        None
    } else if arcs[0].start_chapter <= n && n <= arcs[0].end_chapter {
        Some(arcs[0])
    } else {
        find_arc(arcs.drop_first(), n)
    }
}

/// The rotating table of plot-twist archetypes.
pub open spec fn spec_twist_table() -> Seq<Seq<char>> {
    seq![
        "主角遭遇重大危机"@,
        "隐藏实力被发现"@,
        "神秘强者出现"@,
        "身份意外曝光"@,
        "生死攸关的抉择"@,
        "强大敌人来袭"@,
        "意外获得珍贵宝物"@,
        "亲人/朋友遇险"@,
        "势力格局巨变"@,
        "真相浮出水面"@,
    ]
}

/// The twist text of a twist chapter: the table entry picked by the
/// chapter's position in the schedule, rotating through the table.
pub open spec fn spec_twist_text(chapter: u32) -> Seq<char>
    recommends
        chapter >= 10,
{
    spec_twist_table()[((chapter / 10 - 1) % 10) as int]
}

/// The title of chapter `n`: the arc name on an arc opening, a turning-point
/// mark on an arc close, and the bare number otherwise.
pub open spec fn spec_chapter_title(n: u32, arcs: Seq<PlotArc>) -> Seq<char> {
    match find_arc(arcs, n) {
        Some(arc) => if n == arc.start_chapter {
            "第"@ + spec_decimal(n as nat) + "章 "@ + arc.name@
        } else if n == arc.end_chapter {
            "第"@ + spec_decimal(n as nat) + "章 转折"@
        } else {
            "第"@ + spec_decimal(n as nat) + "章"@
        },
        None => "第"@ + spec_decimal(n as nat) + "章"@,
    }
}

/// The summary of chapter `n`: the arc summary on an arc opening, the arc's
/// climax note on an arc close, a continuation note otherwise, and a
/// transition note when no arc contains the chapter.
pub open spec fn spec_chapter_summary_text(n: u32, arcs: Seq<PlotArc>) -> Seq<char> {
    match find_arc(arcs, n) {
        Some(arc) => if n == arc.start_chapter {
            arc.summary@
        } else if n == arc.end_chapter {
            arc.name@ + "的高潮"@
        } else {
            "继续"@ + arc.name@
        },
        None => "过渡章节"@,
    }
}

/// The key event of chapter `n`: the arc's first key event on an arc
/// opening, its climax on an arc close, and a numbered placeholder
/// otherwise.
pub open spec fn spec_chapter_key_event(n: u32, arcs: Seq<PlotArc>) -> Seq<char> {
    match find_arc(arcs, n) {
        Some(arc) => if n == arc.start_chapter {
            if arc.key_events@.len() > 0 {
                arc.key_events@[0]@
            } else {
                Seq::empty()
            }
        } else if n == arc.end_chapter {
            arc.climax@
        } else {
            "第"@ + spec_decimal(n as nat) + "章的事件"@
        },
        None => "章节"@ + spec_decimal(n as nat) + "事件"@,
    }
}

/// What the planner promises of the summary of chapter `n`.
pub open spec fn chapter_summary_ok(
    c: ChapterSummary,
    n: u32,
    arcs: Seq<PlotArc>,
    protagonist_name: Seq<char>,
) -> bool {
    &&& c.number == n
    &&& c.title@ == spec_chapter_title(n, arcs)
    &&& c.summary@ == spec_chapter_summary_text(n, arcs)
    &&& seq_views(c.key_events@) == seq![spec_chapter_key_event(n, arcs)]
    &&& c.protagonist_development@ == protagonist_name + "的成长"@
    &&& c.word_count_estimate == 10_000
    &&& c.is_plot_twist_chapter == (n % 10 == 0)
    &&& if n % 10 == 0 {
        c.plot_twist_description matches Some(d) && d@ == spec_twist_text(n)
    } else {
        c.plot_twist_description is None
    }
}

/// The index of the first chapter numbered `n`, or -1 when none is.
pub open spec fn find_chapter_index(chapters: Seq<ChapterSummary>, n: u32) -> int
    decreases chapters.len(),
{
    if chapters.len() == 0 {
        -1
    } else if chapters[0].number == n {
        0
    } else {
        let r = find_chapter_index(chapters.drop_first(), n);
        if r == -1 {
            -1
        } else {
            r + 1
        }
    }
}

proof fn lemma_find_chapter_index_at(chapters: Seq<ChapterSummary>, n: u32, j: int)
    requires
        0 <= j < chapters.len(),
        chapters[j].number == n,
        forall|k: int| 0 <= k < j ==> (#[trigger] chapters[k]).number != n,
    ensures
        find_chapter_index(chapters, n) == j,
    decreases j,
{
    if j == 0 {
    } else {
        assert(chapters[0].number != n);
        lemma_find_chapter_index_at(chapters.drop_first(), n, j - 1);
    }
}

proof fn lemma_find_chapter_index_none(chapters: Seq<ChapterSummary>, n: u32)
    requires
        forall|k: int| 0 <= k < chapters.len() ==> (#[trigger] chapters[k]).number != n,
    ensures
        find_chapter_index(chapters, n) == -1,
    decreases chapters.len(),
{
    if chapters.len() > 0 {
        lemma_find_chapter_index_none(chapters.drop_first(), n);
    }
}

fn find_arc_exec<'a>(arcs: &'a Vec<PlotArc>, n: u32) -> (r: Option<&'a PlotArc>)
    ensures
        match r {
            Some(arc) => find_arc(arcs@, n) == Some(*arc),
            None => find_arc(arcs@, n) is None,
        },
{
    let m = arcs.len();
    let mut i: usize = 0;
    proof {
        assert(arcs@.skip(0) =~= arcs@);
    }
    while i < m
        invariant
            m == arcs@.len(),
            0 <= i <= m,
            find_arc(arcs@, n) == find_arc(arcs@.skip(i as int), n),
        decreases m - i,
    {
        proof {
            assert(arcs@.skip(i as int)[0] == arcs@[i as int]);
        }
        if arcs[i].start_chapter <= n && n <= arcs[i].end_chapter {
            return Some(&arcs[i]);
        }
        proof {
            assert(arcs@.skip(i as int).drop_first() =~= arcs@.skip(i + 1));
        }
        i += 1;
    }
    proof {
        assert(arcs@.skip(m as int) =~= Seq::<PlotArc>::empty());
    }
    None
}

/// Chapter planning service.
pub struct ChapterPlanningService;

impl ChapterPlanningService {
    /// Creates a planning service.
    pub fn new() -> ChapterPlanningService {
        ChapterPlanningService
    }

    /// Expands an approved or locked outline into a chapter plan: one
    /// chapter per ten thousand target words, each summary drawn from the
    /// arc that contains it, with a twist on every tenth chapter.  A draft
    /// outline is refused.
    pub fn generate_plan(&self, project_id: u128, outline: &NovelOutline) -> (r: Result<
        ChapterPlan,
        PlanError,
    >)
        requires
            outline.target_word_count / 10_000 <= u32::MAX,
        ensures
            outline.status == OutlineStatus::Draft <==> r == Err::<ChapterPlan, PlanError>(
                PlanError::UnapprovedOutline,
            ),
            r matches Ok(plan) ==> ({
                let total = spec_total_chapters(outline.target_word_count);
                &&& plan.project_id == project_id
                &&& plan.total_chapters == total
                &&& plan.chapters@.len() == total
                &&& forall|i: int|
                    0 <= i < total ==> chapter_summary_ok(
                        #[trigger] plan.chapters@[i],
                        (i + 1) as u32,
                        outline.arcs@,
                        outline.protagonist.name@,
                    )
                &&& plan.plot_twist_positions@ == spec_twist_positions(plan.total_chapters)
            }),
    {
        if matches!(outline.status, OutlineStatus::Draft) {
            return Err(PlanError::UnapprovedOutline);
        }
        let total: u32 = (outline.target_word_count / 10_000) as u32;
        let mut plan = ChapterPlan::new(project_id, total);

        let mut i64x: u64 = 1;
        while i64x <= total as u64
            invariant
                total == spec_total_chapters(outline.target_word_count),
                1 <= i64x <= total + 1,
                plan.project_id == project_id,
                plan.total_chapters == total,
                plan.plot_twist_positions@ == spec_twist_positions(total),
                plan.chapters@.len() == i64x - 1,
                forall|j: int|
                    0 <= j < i64x - 1 ==> chapter_summary_ok(
                        #[trigger] plan.chapters@[j],
                        (j + 1) as u32,
                        outline.arcs@,
                        outline.protagonist.name@,
                    ),
            decreases total - i64x + 1,
        {
            let i: u32 = i64x as u32;
            let is_plot_twist = i % 10 == 0;
            let current_arc = find_arc_exec(&outline.arcs, i);
            let num = u32_to_string(i);

            let mut title = "第".to_owned();
            title.append(num.as_str());
            let mut summary: String;
            let mut key_event: String;
            match current_arc {
                Some(arc) => {
                    if i == arc.start_chapter {
                        title.append("章 ");
                        title.append(arc.name.as_str());
                        summary = arc.summary.clone();
                        key_event = if arc.key_events.len() > 0 {
                            arc.key_events[0].clone()
                        } else {
                            String::new()
                        };
                    } else if i == arc.end_chapter {
                        title.append("章 转折");
                        summary = arc.name.clone();
                        summary.append("的高潮");
                        key_event = arc.climax.clone();
                    } else {
                        title.append("章");
                        summary = "继续".to_owned();
                        summary.append(arc.name.as_str());
                        key_event = "第".to_owned();
                        key_event.append(num.as_str());
                        key_event.append("章的事件");
                    }
                },
                None => {
                    title.append("章");
                    summary = "过渡章节".to_owned();
                    key_event = "章节".to_owned();
                    key_event.append(num.as_str());
                    key_event.append("事件");
                },
            }
            assert(title@ =~= spec_chapter_title(i, outline.arcs@));
            assert(summary@ =~= spec_chapter_summary_text(i, outline.arcs@));
            assert(key_event@ =~= spec_chapter_key_event(i, outline.arcs@));

            let mut key_events: Vec<String> = Vec::new();
            key_events.push(key_event);
            assert(seq_views(key_events@) =~= seq![spec_chapter_key_event(i, outline.arcs@)]);

            let mut protagonist_development = outline.protagonist.name.clone();
            protagonist_development.append("的成长");

            let plot_twist_description: Option<String> = if is_plot_twist {
                Some(self.generate_plot_twist(i))
            } else {
                None
            };

            let chapter = ChapterSummary {
                number: i,
                title,
                summary,
                key_events,
                protagonist_development,
                word_count_estimate: 10_000,
                is_plot_twist_chapter: is_plot_twist,
                plot_twist_description,
            };
            assert(chapter_summary_ok(chapter, i, outline.arcs@, outline.protagonist.name@));
            plan.chapters.push(chapter);
            i64x += 1;
        }
        Ok(plan)
    }

    /// The twist description for a twist chapter, picked deterministically
    /// from the rotating table by the chapter number.
    pub fn generate_plot_twist(&self, chapter: u32) -> (r: String)
        requires
            chapter >= 10,
        ensures
            r@ == spec_twist_text(chapter),
    {
        let mut twists: Vec<&str> = Vec::new();
        twists.push("主角遭遇重大危机");
        twists.push("隐藏实力被发现");
        twists.push("神秘强者出现");
        twists.push("身份意外曝光");
        twists.push("生死攸关的抉择");
        twists.push("强大敌人来袭");
        twists.push("意外获得珍贵宝物");
        twists.push("亲人/朋友遇险");
        twists.push("势力格局巨变");
        twists.push("真相浮出水面");
        let idx: usize = ((chapter / 10 - 1) % 10) as usize;
        assert(forall|j: int| 0 <= j < 10 ==> (#[trigger] twists@[j])@ == spec_twist_table()[j]);
        let r = twists[idx].to_owned();
        r
    }

    /// Replaces the first chapter numbered `chapter_num` in the plan, if
    /// any; the rest of the plan is unchanged.
    pub fn update_chapter(&self, plan: &mut ChapterPlan, chapter_num: u32, summary: ChapterSummary)
        ensures
            ({
                let idx = find_chapter_index(old(plan).chapters@, chapter_num);
                &&& idx == -1 ==> final(plan).chapters == old(plan).chapters
                &&& idx >= 0 ==> final(plan).chapters@ == old(plan).chapters@.update(idx, summary)
            }),
            final(plan).id == old(plan).id,
            final(plan).project_id == old(plan).project_id,
            final(plan).total_chapters == old(plan).total_chapters,
            final(plan).plot_twist_positions == old(plan).plot_twist_positions,
            final(plan).created_at == old(plan).created_at,
            final(plan).updated_at == old(plan).updated_at,
    {
        let n = plan.chapters.len();
        let mut j: usize = 0;
        while j < n
            invariant
                n == plan.chapters@.len(),
                0 <= j <= n,
                *plan == *old(plan),
                forall|k: int| 0 <= k < j ==> (#[trigger] plan.chapters@[k]).number != chapter_num,
            decreases n - j,
        {
            if plan.chapters[j].number == chapter_num {
                proof {
                    lemma_find_chapter_index_at(plan.chapters@, chapter_num, j as int);
                }
                plan.chapters.set(j, summary);
                return ;
            }
            j += 1;
        }
        proof {
            lemma_find_chapter_index_none(plan.chapters@, chapter_num);
        }
    }
}

impl Default for ChapterPlanningService {
    /// The default planning service.
    fn default() -> ChapterPlanningService {
        ChapterPlanningService
    }
}

} // verus!
