//! Round-trip tests for the artifact codec: serializing then
//! deserializing a report, an outline, or a chapter plan yields a value
//! equal to the original.

use ai_novel_agent::codec::decode_chapter_plan;
use ai_novel_agent::codec::decode_feasibility_report;
use ai_novel_agent::codec::decode_novel_outline;
use ai_novel_agent::codec::encode_chapter_plan;
use ai_novel_agent::codec::encode_feasibility_report;
use ai_novel_agent::codec::encode_novel_outline;
use ai_novel_agent::models::DataSource;
use ai_novel_agent::models::HotBook;
use ai_novel_agent::models::MarketData;
use ai_novel_agent::models::NovelGenre;
use ai_novel_agent::services::ChapterPlanningService;
use ai_novel_agent::services::FeasibilityService;
use ai_novel_agent::services::OutlineService;

#[test]
fn chapter_plan_round_trips() {
    let service = OutlineService::new();
    let planner = ChapterPlanningService::new();
    let mut outline = service
        .generate(
            uuid::Uuid::new_v4().as_u128(),
            NovelGenre::Fantasy,
            "一个少年踏上修仙之路".to_string(),
            "坚持".to_string(),
            500_000,
        )
        .unwrap();
    outline.approve();
    let plan = planner.generate_plan(outline.project_id, &outline).unwrap();

    let words = encode_chapter_plan(&plan);
    let decoded = decode_chapter_plan(&words).expect("a plan encoding must decode");
    assert_eq!(decoded, plan);
}

#[test]
fn novel_outline_round_trips() {
    let service = OutlineService::new();
    let mut outline = service
        .generate(
            uuid::Uuid::new_v4().as_u128(),
            NovelGenre::Xianxia,
            "premise 前提".to_string(),
            "theme 主题".to_string(),
            120_000,
        )
        .unwrap();
    outline.approve();

    let words = encode_novel_outline(&outline);
    let decoded = decode_novel_outline(&words).expect("an outline encoding must decode");
    assert_eq!(decoded, outline);
}

#[test]
fn feasibility_report_round_trips() {
    let service = FeasibilityService::new();
    let data = MarketData {
        total_books: 3,
        hot_books: vec![
            HotBook {
                title: "甲".to_string(),
                author: "A".to_string(),
                word_count: 1_200_000,
                likes: 30_000,
                rating: Some(480),
            },
            HotBook {
                title: "乙".to_string(),
                author: "B".to_string(),
                word_count: 900_000,
                likes: 10_000,
                rating: None,
            },
        ],
        average_word_count: 1_050,
        tags: vec!["穿越".to_string(), "悬疑".to_string()],
    };
    let report = service.analyze(NovelGenre::Horror, Some(data), DataSource::FanqieLive);

    let words = encode_feasibility_report(&report);
    let decoded = decode_feasibility_report(&words).expect("a report encoding must decode");
    assert_eq!(decoded, report);

    let fallback = service.analyze(NovelGenre::Urban, None, DataSource::Fallback);
    let words = encode_feasibility_report(&fallback);
    let decoded = decode_feasibility_report(&words).expect("a report encoding must decode");
    assert_eq!(decoded, fallback);
}

#[test]
fn truncated_encodings_are_rejected() {
    let plan = ai_novel_agent::models::ChapterPlan::new(7, 20);
    let mut words = encode_chapter_plan(&plan);
    words.pop();
    assert!(decode_chapter_plan(&words).is_none());

    let mut extended = encode_chapter_plan(&plan);
    extended.push(0);
    assert!(decode_chapter_plan(&extended).is_none());
}
