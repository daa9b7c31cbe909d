//! Unit tests for the data models.

use ai_novel_agent::models::ChapterPlan;
use ai_novel_agent::models::ChapterStatus;
use ai_novel_agent::models::FeasibilityReport;
use ai_novel_agent::models::GeneratedChapter;
use ai_novel_agent::models::GenerationParams;
use ai_novel_agent::models::NovelGenre;
use ai_novel_agent::models::NovelOutline;
use ai_novel_agent::models::NovelProject;
use ai_novel_agent::models::NovelScore;
use ai_novel_agent::models::OutlineStatus;
use ai_novel_agent::models::ProjectStatus;
use ai_novel_agent::models::Recommendation;

#[test]
fn test_novel_genre_display() {
    assert_eq!(NovelGenre::Fantasy.label(), "fantasy");
    assert_eq!(NovelGenre::Urban.label(), "urban");
}

#[test]
fn test_new_project() {
    let project = NovelProject::new("Test Novel".to_string(), NovelGenre::Fantasy, 1_000_000);

    assert_eq!(project.name, "Test Novel");
    assert_eq!(project.genre, NovelGenre::Fantasy);
    assert_eq!(project.status, ProjectStatus::Draft);
}

#[test]
fn test_project_status_transitions() {
    let mut project = NovelProject::new("Test".to_string(), NovelGenre::Fantasy, 1_000_000);

    assert_eq!(project.status, ProjectStatus::Draft);

    project.set_status(ProjectStatus::Feasibility);
    assert_eq!(project.status, ProjectStatus::Feasibility);

    project.set_status(ProjectStatus::Outline);
    assert_eq!(project.status, ProjectStatus::Outline);
}

#[test]
fn test_chapter_plan_creation() {
    let plan = ChapterPlan::new(uuid::Uuid::new_v4().as_u128(), 100);
    assert_eq!(plan.total_chapters, 100);
    assert_eq!(plan.plot_twist_positions.len(), 10);
}

#[test]
fn test_models_test_outline_approval() {
    let mut outline = NovelOutline::new(
        uuid::Uuid::new_v4().as_u128(),
        "test".to_string(),
        "test".to_string(),
        500_000,
    );

    outline.approve();
    assert_eq!(outline.status, OutlineStatus::Approved);

    outline.lock();
    assert_eq!(outline.status, OutlineStatus::Locked);
}

#[test]
fn test_feasibility_recommendation() {
    let mut report = FeasibilityReport::new(uuid::Uuid::new_v4().as_u128(), NovelGenre::Fantasy);

    report.scores.market_viability = 80;
    report.calculate_recommendation();
    assert_eq!(report.recommendation, Recommendation::Proceed);

    report.scores.market_viability = 60;
    report.calculate_recommendation();
    assert_eq!(report.recommendation, Recommendation::Revise);

    report.scores.market_viability = 40;
    report.calculate_recommendation();
    assert_eq!(report.recommendation, Recommendation::Reject);
}

#[test]
fn test_novel_score_calculation() {
    let score = NovelScore::calculate(80, 70, 60);
    assert_eq!(score.total_score, 71);
    assert_eq!(score.recommendation, Recommendation::Proceed);
}

#[test]
fn test_chapter_creation() {
    let project_id = uuid::Uuid::new_v4().as_u128();
    let params = GenerationParams { model: "qwen2.5".to_string(), temperature: 80, max_tokens: 4096 };

    let chapter = GeneratedChapter::new(
        project_id,
        1,
        "第一章".to_string(),
        "这是章节内容".to_string(),
        params,
    );

    assert_eq!(chapter.chapter_number, 1);
    assert_eq!(chapter.status, ChapterStatus::Draft);
}

#[test]
fn chapter_test_plot_twist_positions() {
    let plan = ChapterPlan::new(uuid::Uuid::new_v4().as_u128(), 50);

    assert_eq!(plan.plot_twist_positions, vec![10, 20, 30, 40, 50]);
}

#[test]
fn twist_positions_empty_below_ten() {
    let plan = ChapterPlan::new(uuid::Uuid::new_v4().as_u128(), 9);
    assert_eq!(plan.plot_twist_positions, Vec::<u32>::new());

    let plan0 = ChapterPlan::new(uuid::Uuid::new_v4().as_u128(), 0);
    assert_eq!(plan0.plot_twist_positions, Vec::<u32>::new());
}

#[test]
fn recommendation_boundaries() {
    let mut report = FeasibilityReport::new(1, NovelGenre::Urban);

    report.scores.market_viability = 70;
    report.calculate_recommendation();
    assert_eq!(report.recommendation, Recommendation::Proceed);

    report.scores.market_viability = 69;
    report.calculate_recommendation();
    assert_eq!(report.recommendation, Recommendation::Revise);

    report.scores.market_viability = 50;
    report.calculate_recommendation();
    assert_eq!(report.recommendation, Recommendation::Revise);

    report.scores.market_viability = 49;
    report.calculate_recommendation();
    assert_eq!(report.recommendation, Recommendation::Reject);
}

#[test]
fn recommendation_idempotent() {
    let mut report = FeasibilityReport::new(2, NovelGenre::Urban);
    report.scores.market_viability = 64;
    report.calculate_recommendation();
    let once = report.clone();
    report.calculate_recommendation();
    assert_eq!(report, once);
}

#[test]
fn chapter_word_count_counts_characters() {
    let params = GenerationParams { model: "m".to_string(), temperature: 70, max_tokens: 16 };
    let chapter = GeneratedChapter::new(3, 2, "t".to_string(), "abc 中文".to_string(), params);
    assert_eq!(chapter.word_count, 6);
}
