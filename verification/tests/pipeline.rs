//! End-to-end tests of the planning pipeline: acquisition fallback,
//! scoring, planning, and the ranking-payload parsers.

use ai_novel_agent::models::CompetitionLevel;
use ai_novel_agent::models::DataSource;
use ai_novel_agent::models::HotBook;
use ai_novel_agent::models::MarketData;
use ai_novel_agent::models::NovelGenre;
use ai_novel_agent::models::OutlineStatus;
use ai_novel_agent::models::Recommendation;
use ai_novel_agent::services::acquire_outcome;
use ai_novel_agent::services::get_category_id;
use ai_novel_agent::services::get_genre_id;
use ai_novel_agent::services::market_data_from_works;
use ai_novel_agent::services::ChapterPlanningService;
use ai_novel_agent::services::FeasibilityService;
use ai_novel_agent::services::OutlineService;
use ai_novel_agent::services::PlanError;
use ai_novel_agent::services::WorkInfo;
use ai_novel_agent::json::parse_json;

fn sample_market_data() -> MarketData {
    MarketData {
        total_books: 5,
        hot_books: vec![HotBook {
            title: "霸主".to_string(),
            author: "作者甲".to_string(),
            word_count: 2_000_000,
            likes: 60_000,
            rating: Some(470),
        }],
        average_word_count: 2_000,
        tags: vec!["系统".to_string(), "异能".to_string()],
    }
}

#[test]
fn acquire_falls_back_when_both_tiers_fail() {
    let (snapshot, source) = acquire_outcome(None, None);
    assert_eq!(snapshot, None);
    assert_eq!(source, DataSource::Fallback);

    let empty = MarketData {
        total_books: 0,
        hot_books: vec![],
        average_word_count: 0,
        tags: vec![],
    };
    let (snapshot, source) = acquire_outcome(Some(empty.clone()), Some(empty));
    assert_eq!(snapshot, None);
    assert_eq!(source, DataSource::Fallback);
}

#[test]
fn acquire_prefers_first_live_tier() {
    let data = sample_market_data();
    let (snapshot, source) = acquire_outcome(Some(data.clone()), None);
    assert_eq!(snapshot, Some(data.clone()));
    assert_eq!(source, DataSource::FanqieLive);

    let (snapshot, source) = acquire_outcome(None, Some(data.clone()));
    assert_eq!(snapshot, Some(data));
    assert_eq!(source, DataSource::FanqieLive);
}

#[test]
fn analyze_scores_live_data_exactly() {
    let service = FeasibilityService::new();
    let report = service.analyze(NovelGenre::Fantasy, Some(sample_market_data()), DataSource::FanqieLive);

    assert_eq!(report.genre, NovelGenre::Fantasy);
    assert_eq!(report.data_source, DataSource::FanqieLive);
    assert_eq!(report.total_works_in_genre, 5);
    assert_eq!(report.average_views_top100, 2_000_000);
    assert_eq!(report.average_favorites_top100, 60_000);
    assert_eq!(report.scores.market_viability, 100);
    assert_eq!(report.scores.competition_level, CompetitionLevel::High);
    assert_eq!(report.scores.differentiation_potential, 80);
    assert_eq!(report.recommendation, Recommendation::Proceed);
    assert_eq!(report.trend_score, 300);
    assert_eq!(report.top_works.len(), 1);
    assert_eq!(report.top_works[0].views, 2_000_000);
    assert_eq!(report.top_works[0].rating, 470);
    assert_eq!(report.market_gaps, vec!["异能".to_string()]);
    assert_eq!(
        report.suggested_angles,
        vec![
            "创新fantasy流派".to_string(),
            "融合fantasy与热门元素".to_string(),
            "在fantasy中加入系统元素".to_string(),
        ]
    );
}

#[test]
fn analyze_without_data_uses_neutral_midpoints() {
    let service = FeasibilityService::new();
    let report = service.analyze(NovelGenre::Xianxia, None, DataSource::Fallback);

    assert_eq!(report.data_source, DataSource::Fallback);
    assert_eq!(report.total_works_in_genre, 10_000);
    assert_eq!(report.scores.market_viability, 50);
    assert_eq!(report.scores.competition_level, CompetitionLevel::Medium);
    assert_eq!(report.scores.differentiation_potential, 50);
    assert_eq!(report.recommendation, Recommendation::Revise);
    assert_eq!(report.market_gaps, vec!["数据获取失败，使用估算值".to_string()]);
    assert_eq!(report.suggested_angles, vec!["建议稍后重新分析xianxia类型".to_string()]);
}

#[test]
fn plan_requires_approved_outline() {
    let service = OutlineService::new();
    let planner = ChapterPlanningService::new();
    let outline = service
        .generate(1, NovelGenre::Fantasy, "p".to_string(), "t".to_string(), 1_000_000)
        .unwrap();
    assert_eq!(outline.status, OutlineStatus::Draft);
    assert_eq!(planner.generate_plan(1, &outline), Err(PlanError::UnapprovedOutline));
}

#[test]
fn plan_expands_outline_into_chapters() {
    let service = OutlineService::new();
    let planner = ChapterPlanningService::new();
    let mut outline = service
        .generate(1, NovelGenre::Fantasy, "p".to_string(), "t".to_string(), 1_000_000)
        .unwrap();
    outline.approve();
    let plan = planner.generate_plan(1, &outline).unwrap();

    assert_eq!(plan.total_chapters, 100);
    assert_eq!(plan.chapters.len(), 100);
    assert_eq!(plan.plot_twist_positions, vec![10, 20, 30, 40, 50, 60, 70, 80, 90, 100]);

    let first = &plan.chapters[0];
    assert_eq!(first.number, 1);
    assert_eq!(first.title, "第1章 序章与起源");
    assert_eq!(first.summary, "主角经历重大事件,开启冒险之旅");
    assert_eq!(first.key_events, vec!["主角身世揭晓".to_string()]);
    assert!(!first.is_plot_twist_chapter);
    assert_eq!(first.plot_twist_description, None);

    let middle = &plan.chapters[1];
    assert_eq!(middle.title, "第2章");
    assert_eq!(middle.summary, "继续序章与起源");

    let closing = &plan.chapters[32];
    assert_eq!(closing.title, "第33章 转折");
    assert_eq!(closing.summary, "序章与起源的高潮");
    assert_eq!(closing.key_events, vec!["首次重大胜利".to_string()]);

    for c in &plan.chapters {
        assert_eq!(c.is_plot_twist_chapter, c.number % 10 == 0);
        assert_eq!(c.is_plot_twist_chapter, c.plot_twist_description.is_some());
        assert_eq!(c.word_count_estimate, 10_000);
        assert_eq!(c.protagonist_development, "叶凡的成长");
    }
    assert_eq!(
        plan.chapters[9].plot_twist_description,
        Some("主角遭遇重大危机".to_string())
    );
    assert_eq!(
        plan.chapters[19].plot_twist_description,
        Some("隐藏实力被发现".to_string())
    );
}

#[test]
fn plot_twists_rotate_through_table() {
    let planner = ChapterPlanningService::new();
    assert_eq!(planner.generate_plot_twist(10), "主角遭遇重大危机");
    assert_eq!(planner.generate_plot_twist(100), "真相浮出水面");
    assert_eq!(planner.generate_plot_twist(110), "主角遭遇重大危机");
}

#[test]
fn update_chapter_replaces_matching_number() {
    let service = OutlineService::new();
    let planner = ChapterPlanningService::new();
    let mut outline = service
        .generate(1, NovelGenre::Urban, "p".to_string(), "t".to_string(), 100_000)
        .unwrap();
    outline.approve();
    let mut plan = planner.generate_plan(1, &outline).unwrap();

    let mut replacement = plan.chapters[4].clone();
    replacement.title = "改写的一章".to_string();
    planner.update_chapter(&mut plan, 5, replacement);
    assert_eq!(plan.chapters[4].title, "改写的一章");

    let before = plan.clone();
    let spare = plan.chapters[0].clone();
    planner.update_chapter(&mut plan, 999, spare);
    assert_eq!(plan, before);
}

#[test]
fn rankings_payload_is_parsed_and_normalized() {
    let body = parse_json(
        "{\"data\":{\"list\":[\
         {\"title\":\"T\",\"author_name\":\"A\",\"word_count\":100,\"total_reads\":20,\"score\":4.5},\
         {\"title\":\"U\",\"views\":7,\"favorites\":3,\"rating\":5}]}}",
    )
    .unwrap();
    let works = ai_novel_agent::services::parse_api_rankings(&body).unwrap();
    assert_eq!(works.len(), 1);
    assert_eq!(works[0].title, "T");
    assert_eq!(works[0].author, "A");
    assert_eq!(works[0].views, 100_000);
    assert_eq!(works[0].favorites, 2_000);
    assert_eq!(works[0].rating, 450);
}

#[test]
fn html_rankings_are_read_from_state_blob() {
    let html = "<html><script>window.__INITIAL_STATE__ = \
        {\"rankList\":[{\"bookName\":\"B\",\"authorName\":\"C\",\"wordCount\":50,\
        \"totalRead\":7,\"rating\":5}]}</script></html>";
    let works = ai_novel_agent::services::parse_html_rankings(html);
    assert_eq!(works.len(), 1);
    assert_eq!(works[0].title, "B");
    assert_eq!(works[0].author, "C");
    assert_eq!(works[0].views, 50_000);
    assert_eq!(works[0].favorites, 700);
    assert_eq!(works[0].rating, 500);

    assert!(ai_novel_agent::services::parse_html_rankings("no marker here").is_empty());
}

#[test]
fn details_payload_is_parsed_with_defaults() {
    let body = parse_json(
        "{\"data\":{\"author\":\"A\",\"word_count\":10,\"total_reads\":2,\"score\":4,\
         \"tags\":[\"玄幻\",3,\"热血\"]}}",
    )
    .unwrap();
    let details = ai_novel_agent::services::parse_api_details(&body).unwrap();
    assert_eq!(details.title, "Unknown");
    assert_eq!(details.author, "A");
    assert_eq!(details.views, 10_000);
    assert_eq!(details.favorites, 200);
    assert_eq!(details.rating, 400);
    assert_eq!(details.tags, vec!["玄幻".to_string(), "热血".to_string()]);
    assert_eq!(details.description, "No description");
}

#[test]
fn html_details_fall_back_to_placeholder() {
    let details = ai_novel_agent::services::parse_html_details("nothing embedded", "42");
    assert_eq!(details.title, "Work 42");
    assert_eq!(details.author, "Unknown");
    assert_eq!(details.views, 0);
    assert_eq!(details.rating, 0);
    assert_eq!(details.description, "Could not fetch details");
}

#[test]
fn category_ids_cover_both_languages() {
    assert_eq!(get_category_id("fantasy"), 1);
    assert_eq!(get_category_id("玄幻"), 1);
    assert_eq!(get_category_id("XianXia"), 3);
    assert_eq!(get_category_id("悬疑"), 9);
    assert_eq!(get_category_id("unknown"), 1);
}

#[test]
fn genre_ids_match_by_substring() {
    assert_eq!(get_genre_id("xianxia"), "2");
    assert_eq!(get_genre_id("XianXia-ranked"), "2");
    assert_eq!(get_genre_id("romance"), "5");
    assert_eq!(get_genre_id("unheard-of"), "1");
}

#[test]
fn works_bundle_into_market_snapshot() {
    let works = vec![WorkInfo {
        title: "T".to_string(),
        author: "A".to_string(),
        views: 3_000,
        favorites: 40,
        rating: 460,
    }];
    let data = market_data_from_works(&works, vec!["都市".to_string()]);
    assert_eq!(data.total_books, 1);
    assert_eq!(data.hot_books.len(), 1);
    assert_eq!(data.hot_books[0].word_count, 3_000);
    assert_eq!(data.hot_books[0].likes, 40);
    assert_eq!(data.hot_books[0].rating, Some(460));
    assert_eq!(data.average_word_count, 3);
    assert_eq!(data.tags, vec!["都市".to_string()]);
}
