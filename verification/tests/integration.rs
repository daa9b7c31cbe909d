//! Integration tests across the pipeline services.

use ai_novel_agent::models::CharacterRole;
use ai_novel_agent::models::NovelGenre;
use ai_novel_agent::services::consistency::ConsistencyCheckResult;
use ai_novel_agent::services::FeasibilityService;
use ai_novel_agent::services::OutlineService;
use ai_novel_agent::llm::LlmProviderType;

#[test]
fn cross_chapter_check_passes_by_default() {
    let checker = ai_novel_agent::services::ConsistencyChecker::new();
    let result = checker.check_consistency("test-project");
    assert!(result.passed);
    assert!(result.issues.is_empty());
}

#[test]
fn test_consistency_result() {
    let result = ConsistencyCheckResult { passed: true, issues: vec![] };

    assert!(result.passed);
    assert!(result.issues.is_empty());
}

#[test]
fn test_outline_service_generate() {
    let service = OutlineService::new();
    let project_id = uuid::Uuid::new_v4().as_u128();

    let outline = service.generate(
        project_id,
        NovelGenre::Fantasy,
        "一个少年发现自己是天选之子".to_string(),
        "命运与抗争".to_string(),
        1_000_000,
    );

    assert!(outline.is_ok());
}

#[test]
fn test_scraping_service_analyze_genre() {
    let _service = FeasibilityService::new();
}

#[test]
fn test_genre_display() {
    assert_eq!(NovelGenre::Fantasy.label(), "fantasy");
    assert_eq!(NovelGenre::Urban.label(), "urban");
    assert_eq!(NovelGenre::Xianxia.label(), "xianxia");
}

#[test]
fn test_provider_type_from_str() {
    assert_eq!(LlmProviderType::from_str("minimax"), LlmProviderType::MiniMax);
    assert_eq!(LlmProviderType::from_str("MiniMax"), LlmProviderType::MiniMax);
    assert_eq!(LlmProviderType::from_str("qwen"), LlmProviderType::Qwen);
    assert_eq!(LlmProviderType::from_str("openai"), LlmProviderType::OpenAI);
    assert_eq!(LlmProviderType::from_str("unknown"), LlmProviderType::Qwen);
}

#[test]
fn generated_outline_has_contiguous_arcs() {
    let service = OutlineService::new();
    let outline = service
        .generate(
            7,
            NovelGenre::Fantasy,
            "premise".to_string(),
            "theme".to_string(),
            1_000_000,
        )
        .unwrap();

    let arcs = &outline.arcs;
    assert_eq!(arcs.len(), 3);
    assert_eq!(arcs[0].start_chapter, 1);
    assert_eq!(arcs[0].end_chapter, 33);
    assert_eq!(arcs[1].start_chapter, 34);
    assert_eq!(arcs[1].end_chapter, 66);
    assert_eq!(arcs[2].start_chapter, 67);
    assert_eq!(arcs[2].end_chapter, 100);
    for w in arcs.windows(2) {
        assert_eq!(w[1].start_chapter, w[0].end_chapter + 1);
    }
    let protagonists = std::iter::once(&outline.protagonist)
        .chain(outline.supporting_characters.iter())
        .filter(|c| c.role == CharacterRole::Protagonist)
        .count();
    assert_eq!(protagonists, 1);
}

#[test]
fn degenerate_target_is_refused() {
    let service = OutlineService::new();
    let r = service.generate(
        1,
        NovelGenre::Urban,
        "p".to_string(),
        "t".to_string(),
        20_000,
    );
    assert_eq!(r, Err(ai_novel_agent::services::OutlineError::DegenerateTarget));
}

#[test]
fn arcs_cover_remainder_chapters() {
    let service = OutlineService::new();
    let outline = service
        .generate(9, NovelGenre::Scifi, "p".to_string(), "t".to_string(), 50_000)
        .unwrap();
    let arcs = &outline.arcs;
    assert_eq!(arcs[0].start_chapter, 1);
    assert_eq!(arcs[0].end_chapter, 1);
    assert_eq!(arcs[1].start_chapter, 2);
    assert_eq!(arcs[1].end_chapter, 3);
    assert_eq!(arcs[2].start_chapter, 4);
    assert_eq!(arcs[2].end_chapter, 5);
}
