//! Chapter models: generated chapters, chapter summaries, and the chapter
//! plan with its plot-twist schedule.

use vstd::prelude::*;
use crate::ids::new_id;
use crate::ids::now_millis;

verus! {

/// Chapter status.
#[derive(Debug, Clone, Copy, PartialEq, Eq, Structural)]
pub enum ChapterStatus {
    Draft,
    Review,
    Approved,
    Published,
}

/// Generation parameters.  The temperature is kept in hundredths (80 stands
/// for 0.8).
#[derive(Debug, Clone, PartialEq)]
pub struct GenerationParams {
    /// Model used.
    pub model: String,
    /// Temperature setting in hundredths.
    pub temperature: u32,
    /// Max tokens.
    pub max_tokens: u32,
}

/// A generated chapter.
#[derive(Debug, Clone, PartialEq)]
pub struct GeneratedChapter {
    pub id: u128,
    pub project_id: u128,
    pub chapter_number: u32,
    pub title: String,
    pub content: String,
    /// Number of characters in the content.
    pub word_count: u32,
    pub generation_params: GenerationParams,
    pub status: ChapterStatus,
    /// Publishing-platform chapter id, once published.
    pub fanqie_chapter_id: Option<String>,
    pub created_at: i64,
    pub updated_at: i64,
}

impl GeneratedChapter {
    /// Creates a draft chapter; the word count is the number of characters
    /// in the content.
    pub fn new(
        project_id: u128,
        chapter_number: u32,
        title: String,
        content: String,
        params: GenerationParams,
    ) -> (r: GeneratedChapter)
        requires
            content@.len() <= u32::MAX,
        ensures
            r.project_id == project_id,
            r.chapter_number == chapter_number,
            r.title == title,
            r.content == content,
            r.word_count == content@.len(),
            r.generation_params == params,
            r.status == ChapterStatus::Draft,
            r.fanqie_chapter_id is None,
            r.created_at == r.updated_at,
    {
        let word_count = content.as_str().unicode_len() as u32;
        let now = now_millis();
        GeneratedChapter {
            id: new_id(),
            project_id,
            chapter_number,
            title,
            content,
            word_count,
            generation_params: params,
            status: ChapterStatus::Draft,
            fanqie_chapter_id: None,
            created_at: now,
            updated_at: now,
        }
    }

    /// Marks the chapter approved and refreshes the update timestamp;
    /// nothing else changes.
    pub fn approve(&mut self)
        ensures
            final(self).status == ChapterStatus::Approved,
            final(self).id == old(self).id,
            final(self).project_id == old(self).project_id,
            final(self).chapter_number == old(self).chapter_number,
            final(self).title == old(self).title,
            final(self).content == old(self).content,
            final(self).word_count == old(self).word_count,
            final(self).generation_params == old(self).generation_params,
            final(self).fanqie_chapter_id == old(self).fanqie_chapter_id,
            final(self).created_at == old(self).created_at,
    {
        self.status = ChapterStatus::Approved;
        self.updated_at = now_millis();
    }
}

/// Chapter plan summary.
#[derive(Debug, Clone, PartialEq)]
pub struct ChapterSummary {
    pub number: u32,
    pub title: String,
    pub summary: String,
    pub key_events: Vec<String>,
    pub protagonist_development: String,
    pub word_count_estimate: u32,
    /// Whether this is a plot-twist chapter (every tenth).
    pub is_plot_twist_chapter: bool,
    /// The twist description; present exactly when this is a twist chapter.
    pub plot_twist_description: Option<String>,
}

/// The plot-twist schedule for a plan of `total` chapters: the multiples of
/// ten that lie in `1..=total`, ascending.
pub open spec fn spec_twist_positions(total: u32) -> Seq<u32> {
    Seq::new((total / 10) as nat, |i: int| (10 * (i + 1)) as u32)
}

/// A chapter number is on the plot-twist schedule exactly when it is a
/// positive multiple of ten that does not exceed the total.
pub proof fn lemma_twist_positions_law(total: u32, p: u32)
    ensures
        spec_twist_positions(total).contains(p) <==> (p % 10 == 0 && 1 <= p <= total),
{
    if spec_twist_positions(total).contains(p) {
        let i = choose|i: int|
            0 <= i < spec_twist_positions(total).len() && spec_twist_positions(total)[i] == p;
        assert(p == 10 * (i + 1));
        assert(i + 1 <= total / 10);
        assert(10 * (i + 1) <= 10 * (total / 10)) by (nonlinear_arith)
            requires
                i + 1 <= total / 10,
        ;
        assert(10 * (total / 10) <= total) by (nonlinear_arith);
        assert(p % 10 == 0) by (nonlinear_arith)
            requires
                p == 10 * (i + 1),
        ;
    }
    if p % 10 == 0 && 1 <= p <= total {
        let i = p / 10 - 1;
        assert(p == 10 * (i + 1)) by (nonlinear_arith)
            requires
                p % 10 == 0,
                i == p / 10 - 1,
                p >= 1,
        ;
        assert(p / 10 <= total / 10) by (nonlinear_arith)
            requires
                p <= total,
        ;
        assert(p / 10 >= 1) by (nonlinear_arith)
            requires
                p >= 1,
                p % 10 == 0,
        ;
        assert(0 <= i < spec_twist_positions(total).len());
        assert(spec_twist_positions(total)[i] == p);
    }
}

/// Chapter plan.
#[derive(Debug, Clone, PartialEq)]
pub struct ChapterPlan {
    pub id: u128,
    pub project_id: u128,
    pub total_chapters: u32,
    pub chapters: Vec<ChapterSummary>,
    /// The plot-twist schedule: every tenth chapter up to the total.
    pub plot_twist_positions: Vec<u32>,
    pub created_at: i64,
    pub updated_at: i64,
}

impl ChapterPlan {
    /// Creates an empty plan whose plot-twist positions are every tenth
    /// chapter in `1..=total_chapters`.
    pub fn new(project_id: u128, total_chapters: u32) -> (r: ChapterPlan)
        ensures
            r.project_id == project_id,
            r.total_chapters == total_chapters,
            r.chapters@ =~= Seq::<ChapterSummary>::empty(),
            r.plot_twist_positions@ == spec_twist_positions(total_chapters),
            r.created_at == r.updated_at,
    {
        let now = now_millis();
        let n = total_chapters / 10;
        let mut positions: Vec<u32> = Vec::new();
        let mut k: u32 = 0;
        while k < n
            invariant
                n == total_chapters / 10,
                0 <= k <= n,
                positions@ =~= spec_twist_positions(total_chapters).take(k as int),
            decreases n - k,
        {
            assert(10 * (k + 1) <= 10 * (total_chapters / 10)) by (nonlinear_arith)
                requires
                    k + 1 <= total_chapters / 10,
            ;
            assert(10 * (total_chapters / 10) <= total_chapters) by (nonlinear_arith);
            positions.push(10 * (k + 1));
            assert(positions@ =~= spec_twist_positions(total_chapters).take(k + 1));
            k += 1;
        }
        assert(positions@ =~= spec_twist_positions(total_chapters));
        ChapterPlan {
            id: new_id(),
            project_id,
            total_chapters,
            chapters: Vec::new(),
            plot_twist_positions: positions,
            created_at: now,
            updated_at: now,
        }
    }
}

/// Consistency issue found across chapters.
#[derive(Debug, Clone, PartialEq)]
pub struct ConsistencyIssue {
    pub issue_type: ConsistencyIssueType,
    pub description: String,
    pub chapter_reference: u32,
}

#[derive(Debug, Clone, Copy, PartialEq, Eq, Structural)]
pub enum ConsistencyIssueType {
    Character,
    Plot,
    Setting,
    Timeline,
}

} // verus!
