//! Tests for the validators: project fields, genre consistency, and
//! character-name copyright checks.

use ai_novel_agent::models::RiskLevel;
use ai_novel_agent::services::validation_consistency::ConsistencyChecker;
use ai_novel_agent::services::validation_copyright::CopyrightChecker;
use ai_novel_agent::services::validation_copyright::is_common_name;
use ai_novel_agent::services::validation_project::ProjectValidator;

#[test]
fn test_fantasy_consistency() {
    let checker = ConsistencyChecker::new();
    let result = checker.check(
        "fantasy",
        "主角拥有变异斗气，开始修炼之路，学习灵气功法成为炼药师",
        "穿越到异世界成为修炼者",
    );
    assert!(result.is_consistent);
    assert!(result.score > 0);
}

#[test]
fn test_xianxia_with_modern_terms() {
    let checker = ConsistencyChecker::new();
    let result = checker.check("xianxia", "主角用手机修仙", "现代都市修仙");
    assert!(!result.mismatched_elements.is_empty() || result.score < 500);
}

#[test]
fn test_urban_consistency() {
    let checker = ConsistencyChecker::new();
    let result = checker.check("urban", "创业成为公司总裁", "都市创业故事");
    assert!(result.is_consistent);
}

#[test]
fn modern_terms_fail_xianxia_consistency() {
    let checker = ConsistencyChecker::new();
    let result = checker.check("xianxia", "主角用手机修仙", "现代都市修仙");
    assert!(!result.mismatched_elements.is_empty());
    assert!(result.score < 300);
    assert!(!result.is_consistent);
    assert_eq!(
        result.mismatched_elements[0],
        "Genre 'xianxia' should not contain '手机'"
    );
}

#[test]
fn consistency_warns_on_sparse_keywords() {
    let checker = ConsistencyChecker::new();
    let result = checker.check("fantasy", "现代生活", "平凡故事");
    assert_eq!(result.matched_keywords.len(), 0);
    assert_eq!(result.score, 0);
    assert_eq!(result.warnings.len(), 1);
    assert!(result.warnings[0].starts_with("No genre-specific keywords found"));

    let sparse = checker.check("fantasy", "他学会了魔法", "普通人");
    assert_eq!(sparse.matched_keywords, vec!["魔法".to_string()]);
    assert_eq!(sparse.score, 100);
    assert_eq!(
        sparse.warnings,
        vec!["Only 1 genre-specific keywords found. Consider adding more genre elements.".to_string()]
    );
}

#[test]
fn keywords_lookup_is_case_insensitive() {
    let checker = ConsistencyChecker::new();
    let upper = checker.get_keywords("Fantasy");
    let lower = checker.get_keywords("fantasy");
    assert_eq!(upper, lower);
    assert_eq!(upper.len(), 14);
    assert!(checker.get_keywords("unknown").is_empty());
}

#[test]
fn test_known_character() {
    let checker = CopyrightChecker::new();
    let result = checker.check("萧炎", None);
    assert!(result.is_potential_duplicate);
    assert_eq!(result.risk_level, RiskLevel::High);
}

#[test]
fn test_common_name() {
    let checker = CopyrightChecker::new();
    let result = checker.check("张三", None);
    assert!(!result.is_potential_duplicate);
    assert_eq!(result.risk_level, RiskLevel::Low);
}

#[test]
fn test_unique_name() {
    let checker = CopyrightChecker::new();
    let result = checker.check("萧云", None);
    assert!(result.suggested_alternatives.len() > 0 || !result.is_potential_duplicate);
}

#[test]
fn known_character_reports_source_work() {
    let checker = CopyrightChecker::new();
    let result = checker.check("萧炎", None);
    assert!(result.is_potential_duplicate);
    assert_eq!(result.risk_level, RiskLevel::High);
    assert_eq!(result.source_work, Some("斗破苍穹".to_string()));
    assert!(!result.source_work.unwrap().is_empty());
    assert_eq!(
        result.suggested_alternatives,
        vec!["萧云".to_string(), "萧天".to_string(), "萧凡".to_string()]
    );

    let safe = checker.check("张三", None);
    assert!(!safe.is_potential_duplicate);
    assert_eq!(safe.risk_level, RiskLevel::Low);
}

#[test]
fn batched_checks_match_single_checks() {
    let checker = CopyrightChecker::new();
    let names = vec!["萧炎".to_string(), "张三".to_string(), "陈北冥传人".to_string()];
    let batched = checker.check_multiple(&names, None);
    assert_eq!(batched.len(), names.len());
    for (name, outcome) in names.iter().zip(batched.iter()) {
        assert_eq!(*outcome, checker.check(name, None));
    }
}

#[test]
fn horror_vocabulary_is_matched() {
    let checker = ConsistencyChecker::new();
    let result = checker.check("horror", "主角有阴阳眼，进入凶宅捉鬼，解开诅咒", "一个灵异惊悚故事");
    assert!(result.is_consistent);
    assert_eq!(result.matched_keywords.len(), 6);
    assert!(result.mismatched_elements.is_empty());
    assert_eq!(checker.get_keywords("horror").len(), 15);
}

#[test]
fn partial_match_is_medium_risk() {
    let checker = CopyrightChecker::new();
    let result = checker.check("陈北冥传人", None);
    assert!(result.is_potential_duplicate);
    assert_eq!(result.risk_level, RiskLevel::Medium);
    assert_eq!(result.source_work, Some("都市仙尊".to_string()));
}

#[test]
fn common_names_match_case_insensitively() {
    assert!(is_common_name("张三"));
    assert!(is_common_name("alex"));
    assert!(is_common_name("ALEX"));
    assert!(!is_common_name("萧炎"));
}

#[test]
fn test_valid_project() {
    let result = ProjectValidator::validate("My Novel", "This is a summary of my novel", "fantasy", 100000);
    assert!(result.valid);
    assert!(result.errors.is_empty());
}

#[test]
fn test_missing_name() {
    let result = ProjectValidator::validate("", "This is a summary", "fantasy", 100000);
    assert!(!result.valid);
    assert!(result.errors.iter().any(|e| e.field == "name"));
}

#[test]
fn test_missing_summary() {
    let result = ProjectValidator::validate("My Novel", "", "fantasy", 100000);
    assert!(!result.valid);
    assert!(result.errors.iter().any(|e| e.field == "summary"));
}

#[test]
fn test_invalid_genre() {
    let result = ProjectValidator::validate("My Novel", "This is a summary", "invalid", 100000);
    assert!(!result.valid);
    assert!(result.errors.iter().any(|e| e.field == "genre"));
}

#[test]
fn test_zero_target() {
    let result = ProjectValidator::validate("My Novel", "This is a summary", "fantasy", 0);
    assert!(!result.valid);
    assert!(result.errors.iter().any(|e| e.field == "target_word_count"));
}

#[test]
fn test_valid_genres() {
    for genre in ProjectValidator::valid_genres() {
        assert!(ProjectValidator::is_valid_genre(genre));
    }
    assert!(!ProjectValidator::is_valid_genre("invalid"));
}

#[test]
fn oversized_fields_are_rejected() {
    let long_name = "x".repeat(101);
    let result = ProjectValidator::validate(&long_name, "a summary long enough", "fantasy", 100000);
    assert!(!result.valid);
    assert_eq!(result.errors[0].message, "Name must be 100 characters or less");

    let result = ProjectValidator::validate("Name", "too short", "fantasy", 100000);
    assert!(!result.valid);
    assert_eq!(result.errors[0].message, "Summary must be at least 10 characters");

    let result = ProjectValidator::validate("Name", "a summary long enough", "fantasy", 10_000_001);
    assert!(!result.valid);
    assert_eq!(result.errors[0].message, "Target word count must be 10,000,000 or less");

    let low = ProjectValidator::validate("Name", "a summary long enough", "fantasy", 5_000);
    assert!(low.valid);
    assert_eq!(low.warnings.len(), 1);
    assert_eq!(low.warnings[0].field, "target_word_count");
}

#[test]
fn validate_target_zero_only() {
    assert!(!ProjectValidator::validate_target(0).valid);
    assert!(ProjectValidator::validate_target(1).valid);
}
