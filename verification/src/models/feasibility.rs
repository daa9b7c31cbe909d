//! Feasibility report models and the recommendation rule.

use vstd::prelude::*;
use crate::ids::new_id;
use crate::ids::now_millis;
use super::novel::NovelGenre;

verus! {

/// Which fallback tier satisfied a market-data request.  Never upgraded
/// after creation.
#[derive(Debug, Clone, Copy, PartialEq, Eq, Structural)]
pub enum DataSource {
    /// Real-time data from the ranking source.
    FanqieLive,
    /// Cached data from a previous scrape.
    FanqieCache,
    /// No data could be had; conservative estimates are used.
    Fallback,
}

/// Competition level.
#[derive(Debug, Clone, Copy, PartialEq, Eq, Structural)]
pub enum CompetitionLevel {
    Low,
    Medium,
    High,
}

/// Recommendation derived from the feasibility scores.
#[derive(Debug, Clone, Copy, PartialEq, Eq, Structural)]
pub enum Recommendation {
    Proceed,
    Revise,
    Reject,
}

/// Market data acquired from a ranking source.
#[derive(Debug, Clone, PartialEq)]
pub struct MarketData {
    /// Total books in the genre.
    pub total_books: u32,
    /// Hot books in the genre.
    pub hot_books: Vec<HotBook>,
    /// Average word count.
    pub average_word_count: u64,
    /// Popular tags.
    pub tags: Vec<String>,
}

/// Hot book entry.  The rating, where the source reports one, is kept in
/// hundredths (450 stands for 4.5).
#[derive(Debug, Clone, PartialEq)]
pub struct HotBook {
    pub title: String,
    pub author: String,
    pub word_count: u64,
    pub likes: u64,
    /// Rating in hundredths.
    pub rating: Option<u32>,
}

/// A competitive work.  The rating is kept in hundredths.
#[derive(Debug, Clone, PartialEq)]
pub struct CompetitiveWork {
    pub title: String,
    pub author: String,
    pub views: u64,
    pub favorites: u64,
    /// Rating in hundredths.
    pub rating: u32,
    pub unique_elements: Vec<String>,
    pub tags: Vec<String>,
}

/// Feasibility scores.
#[derive(Debug, Clone, Copy, PartialEq, Eq, Structural)]
pub struct FeasibilityScores {
    /// Market viability, 0 to 100.
    pub market_viability: u32,
    /// Competition level.
    pub competition_level: CompetitionLevel,
    /// Differentiation potential, 0 to 100.
    pub differentiation_potential: u32,
}

/// Feasibility report.  Identifiers are 128-bit values, timestamps are
/// milliseconds since the Unix epoch, and the trend score is kept in
/// thousandths (300 stands for 0.3).
#[derive(Debug, Clone, PartialEq)]
pub struct FeasibilityReport {
    /// Unique identifier.
    pub id: u128,
    /// Project id.
    pub project_id: u128,
    /// Genre analyzed.
    pub genre: NovelGenre,
    /// Market data from acquisition, if any tier succeeded.
    pub market_data: Option<MarketData>,
    /// Which tier supplied the data.
    pub data_source: DataSource,
    /// Total works in the genre.
    pub total_works_in_genre: u32,
    /// Average views over the top works.
    pub average_views_top100: u64,
    /// Average favorites over the top works.
    pub average_favorites_top100: u64,
    /// Trend score in thousandths, between -1000 and 1000.
    pub trend_score: i32,
    /// Top works.
    pub top_works: Vec<CompetitiveWork>,
    /// Market gaps.
    pub market_gaps: Vec<String>,
    /// Scores.
    pub scores: FeasibilityScores,
    /// Recommendation.
    pub recommendation: Recommendation,
    /// Suggested angles.
    pub suggested_angles: Vec<String>,
    /// Generated timestamp.
    pub generated_at: i64,
}

/// The recommendation that a market-viability score maps to: `Proceed` from
/// 70 up, `Revise` from 50 up, `Reject` below.
pub open spec fn spec_recommendation(market_viability: u32) -> Recommendation {
    if market_viability >= 70 {
        Recommendation::Proceed
    } else if market_viability >= 50 {
        Recommendation::Revise
    } else {
        Recommendation::Reject
    }
}

/// The report with its recommendation recomputed from its market-viability
/// score; every other field is kept.
pub open spec fn spec_with_recommendation(r: FeasibilityReport) -> FeasibilityReport {
    FeasibilityReport { recommendation: spec_recommendation(r.scores.market_viability), ..r }
}

/// An ordering on recommendations: `Reject` lowest, `Proceed` highest.
pub open spec fn recommendation_rank(r: Recommendation) -> int {
    match r {
        Recommendation::Reject => 0,
        Recommendation::Revise => 1,
        Recommendation::Proceed => 2,
    }
}

/// Recomputing the recommendation of an unchanged report changes nothing:
/// the derivation is idempotent.
pub proof fn lemma_recommendation_idempotent(r: FeasibilityReport)
    ensures
        spec_with_recommendation(spec_with_recommendation(r)) == spec_with_recommendation(r),
{
}

/// The recommendation is monotonic in the market-viability score: a higher
/// score never yields a lower recommendation.
pub proof fn lemma_recommendation_monotonic(s1: u32, s2: u32)
    requires
        s1 <= s2,
    ensures
        recommendation_rank(spec_recommendation(s1)) <= recommendation_rank(spec_recommendation(s2)),
{
}

impl FeasibilityReport {
    /// Creates an empty report for the given project and genre: no market
    /// data, fallback provenance, zero scores, and a `Revise` placeholder
    /// recommendation.
    pub fn new(project_id: u128, genre: NovelGenre) -> (r: FeasibilityReport)
        ensures
            r.project_id == project_id,
            r.genre == genre,
            r.market_data is None,
            r.data_source == DataSource::Fallback,
            r.total_works_in_genre == 0,
            r.average_views_top100 == 0,
            r.average_favorites_top100 == 0,
            r.trend_score == 0,
            r.top_works@ =~= Seq::<CompetitiveWork>::empty(),
            r.market_gaps@ =~= Seq::<String>::empty(),
            r.scores == (FeasibilityScores {
                market_viability: 0,
                competition_level: CompetitionLevel::Medium,
                differentiation_potential: 0,
            }),
            r.recommendation == Recommendation::Revise,
            r.suggested_angles@ =~= Seq::<String>::empty(),
    {
        FeasibilityReport {
            id: new_id(),
            project_id,
            genre,
            market_data: None,
            data_source: DataSource::Fallback,
            total_works_in_genre: 0,
            average_views_top100: 0,
            average_favorites_top100: 0,
            trend_score: 0,
            top_works: Vec::new(),
            market_gaps: Vec::new(),
            scores: FeasibilityScores {
                market_viability: 0,
                competition_level: CompetitionLevel::Medium,
                differentiation_potential: 0,
            },
            recommendation: Recommendation::Revise,
            suggested_angles: Vec::new(),
            generated_at: now_millis(),
        }
    }

    /// Derives the recommendation from the market-viability score; no other
    /// field changes.
    pub fn calculate_recommendation(&mut self)
        ensures
            *final(self) == spec_with_recommendation(*old(self)),
    {
        let score = self.scores.market_viability;
        if score >= 70 {
            self.recommendation = Recommendation::Proceed;
        } else if score >= 50 {
            self.recommendation = Recommendation::Revise;
        } else {
            self.recommendation = Recommendation::Reject;
        }
    }
}

/// Novel concept score.
#[derive(Debug, Clone, PartialEq)]
pub struct NovelScore {
    /// Total score, 0 to 100.
    pub total_score: u32,
    pub market_score: u32,
    pub content_score: u32,
    pub feasibility_score: u32,
    pub recommendation: Recommendation,
    pub suggested_improvements: Vec<String>,
}

/// The weighted total of the three component scores: market 40%, content
/// 35%, feasibility 25%, rounded down.
pub open spec fn spec_weighted_total(market: u32, content: u32, feasibility: u32) -> int {
    (market * 40 + content * 35 + feasibility * 25) / 100
}

impl NovelScore {
    /// Creates a score whose total is the weighted combination of the three
    /// components and whose recommendation follows the total.
    pub fn calculate(market: u32, content: u32, feasibility: u32) -> (r: NovelScore)
        ensures
            r.total_score == spec_weighted_total(market, content, feasibility),
            r.market_score == market,
            r.content_score == content,
            r.feasibility_score == feasibility,
            r.recommendation == spec_recommendation(r.total_score),
            r.suggested_improvements@ =~= Seq::<String>::empty(),
    {
        let total64: u64 = (market as u64 * 40 + content as u64 * 35 + feasibility as u64 * 25)
            / 100;
        let total: u32 = total64 as u32;
        assert(total == spec_weighted_total(market, content, feasibility));
        let recommendation = if total >= 70 {
            Recommendation::Proceed
        } else if total >= 50 {
            Recommendation::Revise
        } else {
            Recommendation::Reject
        };
        NovelScore {
            total_score: total,
            market_score: market,
            content_score: content,
            feasibility_score: feasibility,
            recommendation,
            suggested_improvements: Vec::new(),
        }
    }
}

} // verus!
