//! Contract tests for feasibility analysis.

use ai_novel_agent::models::FeasibilityReport;
use ai_novel_agent::models::NovelGenre;
use ai_novel_agent::models::Recommendation;

#[test]
fn test_create_feasibility_report() {
    let report = FeasibilityReport::new(uuid::Uuid::new_v4().as_u128(), NovelGenre::Fantasy);

    assert_eq!(report.genre, NovelGenre::Fantasy);
    assert_eq!(report.recommendation, Recommendation::Revise);
}

#[test]
fn test_calculate_recommendation() {
    let mut report = FeasibilityReport::new(uuid::Uuid::new_v4().as_u128(), NovelGenre::Urban);

    report.scores.market_viability = 80;
    report.calculate_recommendation();
    assert_eq!(report.recommendation, Recommendation::Proceed);

    let mut report2 = FeasibilityReport::new(uuid::Uuid::new_v4().as_u128(), NovelGenre::Urban);
    report2.scores.market_viability = 60;
    report2.calculate_recommendation();
    assert_eq!(report2.recommendation, Recommendation::Revise);

    let mut report3 = FeasibilityReport::new(uuid::Uuid::new_v4().as_u128(), NovelGenre::Urban);
    report3.scores.market_viability = 40;
    report3.calculate_recommendation();
    assert_eq!(report3.recommendation, Recommendation::Reject);
}
