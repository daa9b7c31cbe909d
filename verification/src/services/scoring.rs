//! Scoring of novel concepts before synthesis.

use vstd::prelude::*;
use crate::models::NovelGenre;
use crate::models::NovelScore;
use crate::models::spec_weighted_total;
use crate::models::spec_recommendation;

verus! {

/// Scoring service for evaluating novel concepts.
pub struct ScoringService;

/// The fixed market score of a genre.
pub open spec fn spec_market_score(genre: NovelGenre) -> u32 {
    match genre {
        NovelGenre::Fantasy => 80,
        NovelGenre::Urban => 85,
        NovelGenre::Xianxia => 75,
        NovelGenre::Romance => 90,
        _ => 70,
    }
}

/// The content score: a base of 60 plus the originality, plus 10 where the
/// premise is longer than 20 characters, capped at 100.
pub open spec fn spec_content_score(premise: Seq<char>, originality: u32) -> int {
    let bonus: int = if premise.len() > 20 {
        10
    } else {
        0
    };
    if 60 + originality + bonus > 100 {
        100int
    } else {
        60 + originality + bonus
    }
}

/// The feasibility score: lower for extremely long novels.
pub open spec fn spec_feasibility_score(word_count: u64) -> u32 {
    if word_count > 2_000_000 {
        50
    } else if word_count > 1_000_000 {
        70
    } else {
        85
    }
}

impl ScoringService {
    /// Creates a scoring service.
    pub fn new() -> ScoringService {
        ScoringService
    }

    /// The fixed market score of the genre.
    pub fn calculate_market_score(&self, genre: NovelGenre) -> (r: u32)
        ensures
            r == spec_market_score(genre),
    {
        match genre {
            NovelGenre::Fantasy => 80,
            NovelGenre::Urban => 85,
            NovelGenre::Xianxia => 75,
            NovelGenre::Romance => 90,
            _ => 70,
        }
    }

    /// The content score of a premise and an originality rating.
    pub fn calculate_content_score(&self, premise: &str, originality: u32) -> (r: u32)
        ensures
            r == spec_content_score(premise@, originality),
    {
        let base: u64 = 60;
        let premise_bonus: u64 = if premise.unicode_len() > 20 {
            10
        } else {
            0
        };
        let total: u64 = base + originality as u64 + premise_bonus;
        if total > 100 {
            100
        } else {
            total as u32
        }
    }

    /// The feasibility score of a target word count.
    pub fn calculate_feasibility_score(&self, word_count: u64) -> (r: u32)
        ensures
            r == spec_feasibility_score(word_count),
    {
        if word_count > 2_000_000 {
            50
        } else if word_count > 1_000_000 {
            70
        } else {
            85
        }
    }

    /// Scores a novel concept: market, content at the default originality
    /// of 70, and feasibility, combined by the weighted total.
    pub fn score_concept(&self, genre: NovelGenre, premise: &str, word_count: u64) -> (r:
        NovelScore)
        ensures
            r.market_score == spec_market_score(genre),
            r.content_score == spec_content_score(premise@, 70),
            r.feasibility_score == spec_feasibility_score(word_count),
            r.total_score == spec_weighted_total(
                spec_market_score(genre),
                spec_content_score(premise@, 70) as u32,
                spec_feasibility_score(word_count),
            ),
            r.recommendation == spec_recommendation(r.total_score),
    {
        let market = self.calculate_market_score(genre);
        let content = self.calculate_content_score(premise, 70);
        let feasibility = self.calculate_feasibility_score(word_count);
        NovelScore::calculate(market, content, feasibility)
    }
}

impl Default for ScoringService {
    /// The default scoring service.
    fn default() -> ScoringService {
        ScoringService
    }
}

} // verus!
