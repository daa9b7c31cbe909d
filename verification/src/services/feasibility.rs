//! Feasibility analysis: turning acquired market data into normalized
//! scores, market gaps, suggested angles, and a recommendation.

use vstd::prelude::*;
use crate::models::CompetitionLevel;
use crate::models::CompetitiveWork;
use crate::models::DataSource;
use crate::models::FeasibilityReport;
use crate::models::FeasibilityScores;
use crate::models::HotBook;
use crate::models::MarketData;
use crate::models::NovelGenre;
use crate::models::spec_recommendation;
use crate::models::validation::seq_views;
use crate::strutil::clone_strings;
use crate::strutil::str_eq;

verus! {

/// The sum of the word counts of the listed books.
pub open spec fn sum_word_counts(books: Seq<HotBook>) -> int
    decreases books.len(),
{
    if books.len() == 0 {
        0
    } else {
        sum_word_counts(books.drop_last()) + books.last().word_count
    }
}

/// The sum of the likes of the listed books.
pub open spec fn sum_likes(books: Seq<HotBook>) -> int
    decreases books.len(),
{
    if books.len() == 0 {
        0
    } else {
        sum_likes(books.drop_last()) + books.last().likes
    }
}

/// A sum divided by the list length, an empty list counting as one.
pub open spec fn spec_average(sum: int, len: nat) -> int {
    sum / (if len == 0 {
        1int
    } else {
        len as int
    })
}

/// The market-viability score: a view component of 80, 60, or 40 plus a
/// favorite component of 20, 15, or 10, capped at 100.
pub open spec fn spec_market_viability(avg_views: u64, avg_favorites: u64) -> u32 {
    let view_score: int = if avg_views > 1_000_000 {
        80
    } else if avg_views > 500_000 {
        60
    } else {
        40
    };
    let favorite_score: int = if avg_favorites > 50_000 {
        20
    } else if avg_favorites > 20_000 {
        15
    } else {
        10
    };
    if view_score + favorite_score > 100 {
        100u32
    } else {
        (view_score + favorite_score) as u32
    }
}

/// The competition level implied by the average views.
pub open spec fn spec_competition(avg_views: u64) -> CompetitionLevel {
    if avg_views > 1_500_000 {
        CompetitionLevel::High
    } else if avg_views > 800_000 {
        CompetitionLevel::Medium
    } else {
        CompetitionLevel::Low
    }
}

/// The differentiation potential: higher where fewer top works compete.
pub open spec fn spec_differentiation(n_works: nat) -> u32 {
    if n_works < 5 {
        80
    } else if n_works < 10 {
        60
    } else {
        40
    }
}

/// Whether a tag belongs to the saturated tropes.
pub open spec fn spec_saturated(tag: Seq<char>) -> bool {
    tag == "穿越"@ || tag == "重生"@ || tag == "系统"@ || tag == "都市"@ || tag == "修仙"@ || tag == "玄幻"@
}

/// The tags that are not saturated tropes, in order.
pub open spec fn spec_unsaturated(tags: Seq<String>) -> Seq<Seq<char>>
    decreases tags.len(),
{
    if tags.len() == 0 {
        Seq::empty()
    } else {
        spec_unsaturated(tags.drop_last()) + (if spec_saturated(tags.last()@) {
            Seq::empty()
        } else {
            seq![tags.last()@]
        })
    }
}

/// The market gaps for a tag list: the first three unsaturated tags, or
/// two generic gap placeholders when every tag is saturated.
pub open spec fn spec_market_gaps(tags: Seq<String>) -> Seq<Seq<char>> {
    let f = spec_unsaturated(tags);
    if f.len() == 0 {
        seq!["创新元素"@, "细分题材"@]
    } else if f.len() > 3 {
        f.take(3)
    } else {
        f
    }
}

/// Whether some tag equals the word exactly.
pub open spec fn spec_has_tag(tags: Seq<String>, word: Seq<char>) -> bool {
    exists|i: int| 0 <= i < tags.len() && (#[trigger] tags[i])@ == word
}

/// The suggested angles for a genre name and tag list: two generic angles,
/// plus one more for each of the two trending tags present.
pub open spec fn spec_suggestions(genre: Seq<char>, tags: Seq<String>) -> Seq<Seq<char>> {
    seq!["创新"@ + genre + "流派"@, "融合"@ + genre + "与热门元素"@] + (if spec_has_tag(tags, "系统"@) {
        seq!["在"@ + genre + "中加入系统元素"@]
    } else {
        Seq::empty()
    }) + (if spec_has_tag(tags, "穿越"@) {
        seq!["尝试"@ + genre + "魂穿设定"@]
    } else {
        Seq::empty()
    })
}

fn has_tag(tags: &Vec<String>, word: &str) -> (r: bool)
    ensures
        r == spec_has_tag(tags@, word@),
{
    let n = tags.len();
    let mut i: usize = 0;
    while i < n
        invariant
            n == tags@.len(),
            0 <= i <= n,
            forall|j: int| 0 <= j < i ==> (#[trigger] tags@[j])@ != word@,
        decreases n - i,
    {
        if str_eq(tags[i].as_str(), word) {
            return true;
        }
        i += 1;
    }
    false
}

/// Feasibility analysis service.
pub struct FeasibilityService;

impl FeasibilityService {
    /// Creates a feasibility service.
    pub fn new() -> FeasibilityService {
        FeasibilityService
    }

    /// The market-viability score for average views and favorites.
    pub fn calculate_market_score(&self, avg_views: u64, avg_favorites: u64) -> (r: u32)
        ensures
            r == spec_market_viability(avg_views, avg_favorites),
    {
        let view_score: u32 = if avg_views > 1_000_000 {
            80
        } else if avg_views > 500_000 {
            60
        } else {
            40
        };
        let favorite_score: u32 = if avg_favorites > 50_000 {
            20
        } else if avg_favorites > 20_000 {
            15
        } else {
            10
        };
        let sum = view_score + favorite_score;
        if sum > 100 {
            100
        } else {
            sum
        }
    }

    /// The differentiation potential for a number of top works.
    pub fn calculate_differentiation(&self, n_works: usize) -> (r: u32)
        ensures
            r == spec_differentiation(n_works as nat),
    {
        if n_works < 5 {
            80
        } else if n_works < 10 {
            60
        } else {
            40
        }
    }

    /// The market gaps for the popular tags: the first three that are not
    /// saturated tropes, or two generic placeholders.
    pub fn generate_market_gaps(&self, tags: &Vec<String>) -> (r: Vec<String>)
        ensures
            seq_views(r@) == spec_market_gaps(tags@),
    {
        let mut gaps: Vec<String> = Vec::new();
        let n = tags.len();
        let mut i: usize = 0;
        while i < n
            invariant
                n == tags@.len(),
                0 <= i <= n,
                seq_views(gaps@) =~= spec_unsaturated(tags@.take(i as int)),
            decreases n - i,
        {
            let t = tags[i].as_str();
            let saturated = str_eq(t, "穿越") || str_eq(t, "重生") || str_eq(t, "系统") || str_eq(t, "都市")
                || str_eq(t, "修仙") || str_eq(t, "玄幻");
            if !saturated {
                let c = tags[i].clone();
                proof {
                    crate::models::validation::lemma_seq_views_push(gaps@, c);
                }
                gaps.push(c);
            }
            proof {
                assert(tags@.take(i + 1).drop_last() =~= tags@.take(i as int));
                assert(tags@.take(i + 1).last() == tags@[i as int]);
                assert(seq_views(gaps@) =~= spec_unsaturated(tags@.take(i + 1)));
            }
            i += 1;
        }
        proof {
            assert(tags@.take(n as int) =~= tags@);
        }

        if gaps.len() == 0 {
            let mut out: Vec<String> = Vec::new();
            let g1 = "创新元素".to_owned();
            proof {
                crate::models::validation::lemma_seq_views_push(out@, g1);
            }
            out.push(g1);
            let g2 = "细分题材".to_owned();
            proof {
                crate::models::validation::lemma_seq_views_push(out@, g2);
            }
            out.push(g2);
            assert(seq_views(out@) =~= spec_market_gaps(tags@));
            out
        } else if gaps.len() > 3 {
            let mut out: Vec<String> = Vec::new();
            let mut i: usize = 0;
            while i < 3
                invariant
                    gaps@.len() > 3,
                    0 <= i <= 3,
                    seq_views(out@) =~= seq_views(gaps@).take(i as int),
                decreases 3 - i,
            {
                let c = gaps[i].clone();
                proof {
                    crate::models::validation::lemma_seq_views_push(out@, c);
                }
                out.push(c);
                assert(seq_views(out@) =~= seq_views(gaps@).take(i + 1));
                i += 1;
            }
            assert(seq_views(out@) =~= spec_market_gaps(tags@));
            out
        } else {
            assert(seq_views(gaps@) =~= spec_market_gaps(tags@));
            gaps
        }
    }

    /// The suggested angles for a genre name and the popular tags.
    pub fn generate_suggestions(&self, genre: &str, tags: &Vec<String>) -> (r: Vec<String>)
        ensures
            seq_views(r@) == spec_suggestions(genre@, tags@),
    {
        let mut out: Vec<String> = Vec::new();

        let mut s1 = "创新".to_owned();
        s1.append(genre);
        s1.append("流派");
        assert(s1@ =~= "创新"@ + genre@ + "流派"@);
        proof {
            crate::models::validation::lemma_seq_views_push(out@, s1);
        }
        out.push(s1);

        let mut s2 = "融合".to_owned();
        s2.append(genre);
        s2.append("与热门元素");
        assert(s2@ =~= "融合"@ + genre@ + "与热门元素"@);
        proof {
            crate::models::validation::lemma_seq_views_push(out@, s2);
        }
        out.push(s2);

        if has_tag(tags, "系统") {
            let mut s3 = "在".to_owned();
            s3.append(genre);
            s3.append("中加入系统元素");
            assert(s3@ =~= "在"@ + genre@ + "中加入系统元素"@);
            proof {
                crate::models::validation::lemma_seq_views_push(out@, s3);
            }
            out.push(s3);
        }
        if has_tag(tags, "穿越") {
            let mut s4 = "尝试".to_owned();
            s4.append(genre);
            s4.append("魂穿设定");
            assert(s4@ =~= "尝试"@ + genre@ + "魂穿设定"@);
            proof {
                crate::models::validation::lemma_seq_views_push(out@, s4);
            }
            out.push(s4);
        }
        assert(seq_views(out@) =~= spec_suggestions(genre@, tags@));
        out
    }

    /// Scores a genre from acquired market data.  With data, the averages,
    /// scores, competition, gaps, and suggestions are derived exactly from
    /// the hot books and tags; without data, neutral midpoint values are
    /// used and the gap entry notes the missing data.  Either way the
    /// provenance is carried through and the recommendation follows the
    /// market-viability score.
    #[verifier::rlimit(60)]
    pub fn analyze(
        &self,
        genre: NovelGenre,
        market_data: Option<MarketData>,
        data_source: DataSource,
    ) -> (r: FeasibilityReport)
        ensures
            r.genre == genre,
            r.data_source == data_source,
            r.market_data == market_data,
            r.trend_score == 300,
            r.recommendation == spec_recommendation(r.scores.market_viability),
            match market_data {
                Some(data) => {
                    let avg_views = spec_average(
                        sum_word_counts(data.hot_books@),
                        data.hot_books@.len(),
                    );
                    let avg_favorites = spec_average(sum_likes(data.hot_books@), data.hot_books@.len());
                    &&& r.total_works_in_genre == data.total_books
                    &&& r.average_views_top100 == avg_views
                    &&& r.average_favorites_top100 == avg_favorites
                    &&& r.scores.market_viability == spec_market_viability(
                        avg_views as u64,
                        avg_favorites as u64,
                    )
                    &&& r.scores.competition_level == spec_competition(avg_views as u64)
                    &&& r.scores.differentiation_potential == spec_differentiation(
                        data.hot_books@.len(),
                    )
                    &&& r.top_works@.len() == data.hot_books@.len()
                    &&& forall|i: int|
                        0 <= i < data.hot_books@.len() ==> {
                            let b = data.hot_books@[i];
                            let w = #[trigger] r.top_works@[i];
                            &&& w.title@ == b.title@
                            &&& w.author@ == b.author@
                            &&& w.views == b.word_count
                            &&& w.favorites == b.likes
                            &&& w.rating == (if b.rating is Some {
                                b.rating->0
                            } else {
                                450u32
                            })
                            &&& w.unique_elements@.len() == 0
                            &&& w.tags@ == data.tags@
                        }
                    &&& seq_views(r.market_gaps@) == spec_market_gaps(data.tags@)
                    &&& seq_views(r.suggested_angles@) == spec_suggestions(
                        genre.spec_label(),
                        data.tags@,
                    )
                },
                None => {
                    &&& r.total_works_in_genre == 10_000
                    &&& r.scores.market_viability == 50
                    &&& r.scores.competition_level == CompetitionLevel::Medium
                    &&& r.scores.differentiation_potential == 50
                    &&& seq_views(r.market_gaps@) == seq!["数据获取失败，使用估算值"@]
                    &&& seq_views(r.suggested_angles@) == seq![
                        "建议稍后重新分析"@ + genre.spec_label() + "类型"@,
                    ]
                },
            },
    {
        let genre_str = genre.label();
        let mut report = FeasibilityReport::new(0, genre);
        report.data_source = data_source;
        report.trend_score = 300;

        match market_data {
            Some(data) => {
                report.total_works_in_genre = data.total_books;

                let nb = data.hot_books.len();
                let mut total_views: u128 = 0;
                let mut total_likes: u128 = 0;
                let mut i: usize = 0;
                while i < nb
                    invariant
                        nb == data.hot_books@.len(),
                        0 <= i <= nb,
                        total_views == sum_word_counts(data.hot_books@.take(i as int)),
                        total_likes == sum_likes(data.hot_books@.take(i as int)),
                        total_views <= (i as int) * (u64::MAX as int),
                        total_likes <= (i as int) * (u64::MAX as int),
                    decreases nb - i,
                {
                    proof {
                        assert(data.hot_books@.take(i + 1).drop_last() =~= data.hot_books@.take(
                            i as int,
                        ));
                        assert(data.hot_books@.take(i + 1).last() == data.hot_books@[i as int]);
                    }
                    total_views = total_views + data.hot_books[i].word_count as u128;
                    total_likes = total_likes + data.hot_books[i].likes as u128;
                    i += 1;
                }
                proof {
                    assert(data.hot_books@.take(nb as int) =~= data.hot_books@);
                }

                let divisor: u128 = if nb == 0 {
                    1
                } else {
                    nb as u128
                };
                let avg_views128 = total_views / divisor;
                let avg_likes128 = total_likes / divisor;
                proof {
                    if nb > 0 {
                        assert(total_views / (nb as u128) <= u64::MAX) by (nonlinear_arith)
                            requires
                                total_views <= (nb as int) * (u64::MAX as int),
                                nb > 0,
                        ;
                        assert(total_likes / (nb as u128) <= u64::MAX) by (nonlinear_arith)
                            requires
                                total_likes <= (nb as int) * (u64::MAX as int),
                                nb > 0,
                        ;
                    }
                }
                let avg_views: u64 = avg_views128 as u64;
                let avg_favorites: u64 = avg_likes128 as u64;
                report.average_views_top100 = avg_views;
                report.average_favorites_top100 = avg_favorites;

                let mut top_works: Vec<CompetitiveWork> = Vec::new();
                let mut i: usize = 0;
                while i < nb
                    invariant
                        nb == data.hot_books@.len(),
                        0 <= i <= nb,
                        top_works@.len() == i,
                        forall|j: int|
                            0 <= j < i ==> {
                                let b = data.hot_books@[j];
                                let w = #[trigger] top_works@[j];
                                &&& w.title@ == b.title@
                                &&& w.author@ == b.author@
                                &&& w.views == b.word_count
                                &&& w.favorites == b.likes
                                &&& w.rating == (if b.rating is Some {
                                    b.rating->0
                                } else {
                                    450u32
                                })
                                &&& w.unique_elements@.len() == 0
                                &&& w.tags@ == data.tags@
                            },
                    decreases nb - i,
                {
                    let b = &data.hot_books[i];
                    let rating: u32 = match b.rating {
                        Some(v) => v,
                        None => 450,
                    };
                    let work = CompetitiveWork {
                        title: b.title.clone(),
                        author: b.author.clone(),
                        views: b.word_count,
                        favorites: b.likes,
                        rating,
                        unique_elements: Vec::new(),
                        tags: clone_strings(&data.tags),
                    };
                    top_works.push(work);
                    i += 1;
                }
                report.top_works = top_works;

                report.scores.market_viability = self.calculate_market_score(
                    avg_views,
                    avg_favorites,
                );
                report.scores.competition_level = if avg_views > 1_500_000 {
                    CompetitionLevel::High
                } else if avg_views > 800_000 {
                    CompetitionLevel::Medium
                } else {
                    CompetitionLevel::Low
                };
                report.scores.differentiation_potential = self.calculate_differentiation(nb);

                report.market_gaps = self.generate_market_gaps(&data.tags);
                report.suggested_angles = self.generate_suggestions(genre_str, &data.tags);
                report.market_data = Some(data);
            },
            None => {
                report.total_works_in_genre = 10_000;
                report.scores.market_viability = 50;
                report.scores.competition_level = CompetitionLevel::Medium;
                report.scores.differentiation_potential = 50;

                let mut gaps: Vec<String> = Vec::new();
                let g = "数据获取失败，使用估算值".to_owned();
                proof {
                    crate::models::validation::lemma_seq_views_push(gaps@, g);
                }
                gaps.push(g);
                assert(seq_views(gaps@) =~= seq!["数据获取失败，使用估算值"@]);
                report.market_gaps = gaps;

                let mut angles: Vec<String> = Vec::new();
                let mut a = "建议稍后重新分析".to_owned();
                a.append(genre_str);
                a.append("类型");
                assert(a@ =~= "建议稍后重新分析"@ + genre.spec_label() + "类型"@);
                proof {
                    crate::models::validation::lemma_seq_views_push(angles@, a);
                }
                angles.push(a);
                assert(seq_views(angles@) =~= seq!["建议稍后重新分析"@ + genre.spec_label() + "类型"@]);
                report.suggested_angles = angles;
                report.market_data = None;
            },
        }

        report.calculate_recommendation();
        report
    }
}

impl Default for FeasibilityService {
    /// The default feasibility service.
    fn default() -> FeasibilityService {
        FeasibilityService
    }
}

} // verus!
