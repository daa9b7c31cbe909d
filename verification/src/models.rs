//! Data models for the novel planning pipeline.

pub mod chapter;
pub mod fanqie;
pub mod feasibility;
pub mod novel;
pub mod outline;
pub mod validation;

pub use chapter::ChapterPlan;
pub use chapter::ChapterStatus;
pub use chapter::ChapterSummary;
pub use chapter::ConsistencyIssue;
pub use chapter::ConsistencyIssueType;
pub use chapter::GeneratedChapter;
pub use chapter::GenerationParams;
pub use chapter::spec_twist_positions;
pub use fanqie::FanqieChapter;
pub use fanqie::FanqieCredentials;
pub use fanqie::FanqieNovel;
pub use feasibility::CompetitionLevel;
pub use feasibility::CompetitiveWork;
pub use feasibility::DataSource;
pub use feasibility::FeasibilityReport;
pub use feasibility::FeasibilityScores;
pub use feasibility::HotBook;
pub use feasibility::MarketData;
pub use feasibility::NovelScore;
pub use feasibility::Recommendation;
pub use feasibility::lemma_recommendation_idempotent;
pub use feasibility::lemma_recommendation_monotonic;
pub use feasibility::recommendation_rank;
pub use feasibility::spec_recommendation;
pub use feasibility::spec_weighted_total;
pub use feasibility::spec_with_recommendation;
pub use novel::NovelGenre;
pub use novel::NovelProject;
pub use novel::ProjectStatus;
pub use novel::PublicationStatus;
pub use outline::CharacterArc;
pub use outline::CharacterMoment;
pub use outline::CharacterRole;
pub use outline::Location;
pub use outline::LocationImportance;
pub use outline::NovelOutline;
pub use outline::OutlineStatus;
pub use outline::PlotArc;
pub use outline::SensitiveCategory;
pub use outline::SensitiveContentIssue;
pub use outline::SensitiveContentResult;
pub use outline::SensitiveSeverity;
pub use outline::WorldSettings;
pub use outline::WorldType;
pub use validation::ConsistencyCheckResult;
pub use validation::CopyrightCheckResult;
pub use validation::ErrorCode;
pub use validation::OutlineValidation;
pub use validation::RiskLevel;
pub use validation::ValidationError;
pub use validation::ValidationResult;
pub use validation::ValidationWarning;
