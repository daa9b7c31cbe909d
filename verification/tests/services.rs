//! Tests for the supporting services and verified text utilities.

use ai_novel_agent::config::default_batch_size;
use ai_novel_agent::config::default_max_tokens;
use ai_novel_agent::config::default_storage_path;
use ai_novel_agent::config::default_word_count;
use ai_novel_agent::config::default_words_per_chapter;
use ai_novel_agent::json::parse_centi;
use ai_novel_agent::json::parse_json;
use ai_novel_agent::json::parse_u64;
use ai_novel_agent::json::JsonVal;
use ai_novel_agent::labels::genre_to_chinese;
use ai_novel_agent::labels::pub_status_to_chinese;
use ai_novel_agent::labels::status_to_chinese;
use ai_novel_agent::labels::PublishAction;
use ai_novel_agent::models::ConsistencyCheckResult;
use ai_novel_agent::models::CopyrightCheckResult;
use ai_novel_agent::models::NovelGenre;
use ai_novel_agent::models::OutlineValidation;
use ai_novel_agent::models::ProjectStatus;
use ai_novel_agent::models::PublicationStatus;
use ai_novel_agent::models::Recommendation;
use ai_novel_agent::models::RiskLevel;
use ai_novel_agent::models::ValidationResult;
use ai_novel_agent::models::ValidationWarning;
use ai_novel_agent::models::ChapterPlan;
use ai_novel_agent::models::FeasibilityReport;
use ai_novel_agent::models::GeneratedChapter;
use ai_novel_agent::models::NovelOutline;
use ai_novel_agent::models::NovelProject;
use ai_novel_agent::services::ContentFilter;
use ai_novel_agent::services::ContextService;
use ai_novel_agent::services::ProgressStatus;
use ai_novel_agent::services::ProgressTracker;
use ai_novel_agent::services::ScoringService;
use ai_novel_agent::services::StorageKey;
use ai_novel_agent::strutil::ascii_lowercase;
use ai_novel_agent::strutil::is_blank;
use ai_novel_agent::strutil::str_contains;
use ai_novel_agent::strutil::str_find;
use ai_novel_agent::strutil::u32_to_string;

#[test]
fn decimal_rendering_is_exact() {
    assert_eq!(u32_to_string(0), "0");
    assert_eq!(u32_to_string(7), "7");
    assert_eq!(u32_to_string(12345), "12345");
    assert_eq!(u32_to_string(4294967295), "4294967295");
}

#[test]
fn substring_search_counts_characters() {
    assert!(str_contains("主角用手机修仙", "手机"));
    assert!(!str_contains("主角修仙", "手机"));
    assert_eq!(str_find("abc第10章def", "第10章"), Some(3));
    assert_eq!(str_find("abc", "zz"), None);
}

#[test]
fn ascii_folding_leaves_chinese_alone() {
    assert_eq!(ascii_lowercase("XianXia玄幻A"), "xianxia玄幻a");
    assert!(is_blank("  \t\n"));
    assert!(!is_blank(" x "));
}

#[test]
fn json_numbers_parse_exactly() {
    assert_eq!(parse_u64("12345"), Some(12345));
    assert_eq!(parse_u64("4.5"), None);
    assert_eq!(parse_u64(""), None);
    assert_eq!(parse_centi("4.5"), Some(450));
    assert_eq!(parse_centi("4.57"), Some(457));
    assert_eq!(parse_centi("5"), Some(500));
    assert_eq!(parse_centi("x"), None);
}

#[test]
fn parsed_json_reflects_document_structure() {
    let doc = parse_json("{\"a\":{\"b\":[1,true,\"s\"]}}").unwrap();
    let inner = doc.get("a").unwrap();
    match inner.get("b").unwrap() {
        JsonVal::Arr(items) => {
            assert_eq!(items.len(), 3);
            assert_eq!(items[0].as_u64(), Some(1));
            assert!(matches!(items[1], JsonVal::Bool(true)));
            assert_eq!(items[2].as_str().map(|s| s.as_str()), Some("s"));
        },
        _ => panic!("expected an array"),
    }
    assert!(parse_json("not json").is_none());
}

#[test]
fn chinese_labels_cover_all_variants() {
    assert_eq!(genre_to_chinese(NovelGenre::Fantasy), "奇幻");
    assert_eq!(genre_to_chinese(NovelGenre::Horror), "悬疑");
    assert_eq!(status_to_chinese(ProjectStatus::Feasibility), "可行性分析");
    assert_eq!(pub_status_to_chinese(PublicationStatus::Published), "已发布");
    assert_eq!(PublishAction::Create.label(), "创建小说");
    assert_eq!(PublishAction::default(), PublishAction::Create);
}

#[test]
fn content_filter_flags_sensitive_terms() {
    let filter = ContentFilter::new();
    let clean = filter.check("一个平静的故事");
    assert!(clean.passed);
    assert!(clean.issues.is_empty());

    let flagged = filter.check("充满暴力与政治的故事");
    assert!(!flagged.passed);
    assert_eq!(flagged.issues.len(), 2);
    assert_eq!(flagged.issues[0].description, "Found potentially violent content: 暴力");
    assert_eq!(flagged.issues[1].description, "Found potentially political content: 政治");
    assert_eq!(filter.filter("原样返回"), "原样返回");
}

#[test]
fn context_compression_joins_chapters() {
    let service = ContextService::new();
    assert_eq!(service.get_context("p", 3), "");
    let joined = service.compress_context(&vec!["一".to_string(), "二".to_string(), "三".to_string()]);
    assert_eq!(joined, "一\n\n二\n\n三");
}

#[test]
fn progress_tracker_counts_to_completion() {
    let mut tracker = ProgressTracker::new(2);
    assert_eq!(tracker.status, ProgressStatus::Pending);
    tracker.start();
    assert_eq!(tracker.status, ProgressStatus::Running);
    tracker.increment_completed();
    assert_eq!(tracker.status, ProgressStatus::Running);
    tracker.increment_failed();
    tracker.increment_completed();
    assert_eq!(tracker.status, ProgressStatus::Completed);
    assert_eq!(tracker.completed, 2);
    assert_eq!(tracker.failed, 1);
}

#[test]
fn storage_keys_name_artifact_locations() {
    assert_eq!(NovelProject::storage_folder(), "");
    assert_eq!(NovelProject::storage_filename(), "project");
    assert_eq!(NovelOutline::storage_folder(), "outline");
    assert_eq!(ChapterPlan::storage_folder(), "plans");
    assert_eq!(ChapterPlan::storage_filename(), "plan");
    assert_eq!(GeneratedChapter::storage_folder(), "chapters");
    assert_eq!(FeasibilityReport::storage_folder(), "analysis");
    assert_eq!(FeasibilityReport::storage_filename(), "feasibility");
}

#[test]
fn scoring_combines_weighted_components() {
    let service = ScoringService::new();
    assert_eq!(service.calculate_market_score(NovelGenre::Romance), 90);
    assert_eq!(service.calculate_content_score("short", 70), 130u32.min(100));
    assert_eq!(service.calculate_content_score("一段超过二十个字符的非常详细的小说简介文字说明", 10), 80);
    assert_eq!(service.calculate_feasibility_score(500_000), 85);
    assert_eq!(service.calculate_feasibility_score(1_500_000), 70);
    assert_eq!(service.calculate_feasibility_score(2_500_000), 50);

    let score = service.score_concept(NovelGenre::Urban, "一个都市创业的故事简介", 800_000);
    assert_eq!(score.market_score, 85);
    assert_eq!(score.content_score, 100);
    assert_eq!(score.feasibility_score, 85);
    assert_eq!(score.total_score, (85 * 40 + 100 * 35 + 85 * 25) / 100);
    assert_eq!(score.recommendation, Recommendation::Proceed);
}

#[test]
fn default_configuration_values() {
    assert_eq!(default_max_tokens(), 4096);
    assert_eq!(default_storage_path(), "./data");
    assert_eq!(default_word_count(), 1_000_000);
    assert_eq!(default_words_per_chapter(), 10_000);
    assert_eq!(default_batch_size(), 10);
}

#[test]
fn result_constructors_apply_thresholds() {
    let ok = ConsistencyCheckResult::consistent(700, vec!["修仙".to_string()]);
    assert!(ok.is_consistent);
    let bad = ConsistencyCheckResult::inconsistent(699, vec!["m".to_string()], vec!["w".to_string()]);
    assert!(!bad.is_consistent);

    let safe = CopyrightCheckResult::safe("某人");
    assert!(!safe.is_potential_duplicate);
    let risky = CopyrightCheckResult::risky(
        "某人",
        RiskLevel::Medium,
        Some("来源".to_string()),
        vec!["替代".to_string()],
    );
    assert!(risky.is_potential_duplicate);
    assert!(risky.risk_level.is_high() == false);

    let result = ValidationResult::valid().with_warning(ValidationWarning {
        field: "f".to_string(),
        message: "m".to_string(),
    });
    assert!(result.valid);
    assert_eq!(result.warnings.len(), 1);
}

#[test]
fn outline_validation_gates_and_warns() {
    let validation = OutlineValidation {
        consistency: ConsistencyCheckResult {
            is_consistent: true,
            score: 800,
            matched_keywords: vec![],
            mismatched_elements: vec!["元素不符".to_string()],
            warnings: vec!["关键词稀少".to_string()],
        },
        protagonist_check: CopyrightCheckResult {
            character_name: "萧炎".to_string(),
            is_potential_duplicate: true,
            risk_level: RiskLevel::Medium,
            suggested_alternatives: vec!["萧云".to_string(), "萧天".to_string()],
            source_work: Some("斗破苍穹".to_string()),
        },
        character_checks: vec![CopyrightCheckResult {
            character_name: "唐三".to_string(),
            is_potential_duplicate: true,
            risk_level: RiskLevel::High,
            suggested_alternatives: vec![],
            source_work: Some("斗罗大陆".to_string()),
        }],
    };
    assert!(!validation.is_valid());
    let warnings = validation.warnings();
    assert_eq!(
        warnings,
        vec![
            "关键词稀少".to_string(),
            "元素不符".to_string(),
            "主角名字 '萧炎' 可能与 '斗破苍穹' 重复".to_string(),
            "建议替换名字: 萧云, 萧天".to_string(),
            "角色 '唐三' 可能与 '斗罗大陆' 重复".to_string(),
        ]
    );
}
