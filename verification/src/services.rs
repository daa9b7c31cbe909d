//! Services of the planning pipeline.

pub mod chapter_planning;
pub mod consistency;
pub mod content_filter;
pub mod context;
pub mod fanqie;
pub mod feasibility;
pub mod outline;
pub mod progress;
pub mod scoring;
pub mod scraping;
pub mod storage;
pub mod validation_consistency;
pub mod validation_copyright;
pub mod validation_project;

pub use chapter_planning::ChapterPlanningService;
pub use chapter_planning::PlanError;
pub use chapter_planning::spec_total_chapters;
pub use consistency::ConsistencyCheckResult;
pub use consistency::ConsistencyChecker;
pub use content_filter::ContentFilter;
pub use context::ContextService;
pub use fanqie::get_category_id;
pub use feasibility::FeasibilityService;
pub use outline::OutlineError;
pub use outline::OutlineService;
pub use progress::ProgressStatus;
pub use progress::ProgressTracker;
pub use scoring::ScoringService;
pub use scraping::WorkDetails;
pub use scraping::WorkInfo;
pub use scraping::acquire_outcome;
pub use scraping::extract_details_from_json;
pub use scraping::extract_from_json_state;
pub use scraping::get_genre_id;
pub use scraping::market_data_from_works;
pub use scraping::parse_api_details;
pub use scraping::parse_api_rankings;
pub use scraping::parse_html_details;
pub use scraping::parse_html_rankings;
pub use storage::StorageKey;
pub use validation_consistency::ConsistencyChecker as ValidationConsistencyChecker;
pub use validation_consistency::GenreWords;
pub use validation_consistency::parse_genre;
pub use validation_copyright::CharacterEntry;
pub use validation_copyright::CopyrightChecker;
pub use validation_copyright::is_common_name;
pub use validation_project::ProjectValidator;
