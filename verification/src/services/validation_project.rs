//! Field validation for project creation.

use vstd::prelude::*;
use crate::models::ErrorCode;
use crate::models::ValidationError;
use crate::models::ValidationResult;
use crate::models::ValidationWarning;
use crate::strutil::is_blank;
use crate::strutil::lower_seq;
use crate::strutil::ascii_lowercase;
use crate::strutil::spec_blank;
use crate::strutil::str_eq;

verus! {

/// The view of a validation error: its field, message, and code.
pub open spec fn err_views(es: Seq<ValidationError>) -> Seq<(Seq<char>, Seq<char>, ErrorCode)> {
    es.map_values(|e: ValidationError| (e.field@, e.message@, e.code))
}

/// The view of a validation warning: its field and message.
pub open spec fn warn_views(ws: Seq<ValidationWarning>) -> Seq<(Seq<char>, Seq<char>)> {
    ws.map_values(|w: ValidationWarning| (w.field@, w.message@))
}

proof fn lemma_err_views_push(es: Seq<ValidationError>, e: ValidationError)
    ensures
        err_views(es.push(e)) == err_views(es).push((e.field@, e.message@, e.code)),
{
    assert(err_views(es.push(e)) =~= err_views(es).push((e.field@, e.message@, e.code)));
}

proof fn lemma_warn_views_push(ws: Seq<ValidationWarning>, w: ValidationWarning)
    ensures
        warn_views(ws.push(w)) == warn_views(ws).push((w.field@, w.message@)),
{
    assert(warn_views(ws.push(w)) =~= warn_views(ws).push((w.field@, w.message@)));
}

/// The genres a project may use.
pub open spec fn spec_valid_genre(genre: Seq<char>) -> bool {
    let l = lower_seq(genre);
    l == "fantasy"@ || l == "urban"@ || l == "xianxia"@ || l == "historical"@ || l == "romance"@
        || l == "scifi"@ || l == "game"@ || l == "horror"@
}

/// The errors reported for the project name.
pub open spec fn spec_name_errors(name: Seq<char>) -> Seq<(Seq<char>, Seq<char>, ErrorCode)> {
    if spec_blank(name) {
        seq![("name"@, "Name is required"@, ErrorCode::MissingField)]
    } else if name.len() > 100 {
        seq![("name"@, "Name must be 100 characters or less"@, ErrorCode::TooLong)]
    } else {
        Seq::empty()
    }
}

/// The errors reported for the summary.
pub open spec fn spec_summary_errors(summary: Seq<char>) -> Seq<(Seq<char>, Seq<char>, ErrorCode)> {
    if spec_blank(summary) {
        seq![("summary"@, "Summary is required"@, ErrorCode::MissingField)]
    } else if summary.len() < 10 {
        seq![("summary"@, "Summary must be at least 10 characters"@, ErrorCode::TooShort)]
    } else if summary.len() > 2000 {
        seq![("summary"@, "Summary must be 2000 characters or less"@, ErrorCode::TooLong)]
    } else {
        Seq::empty()
    }
}

/// The errors reported for the genre.
pub open spec fn spec_genre_errors(genre: Seq<char>) -> Seq<(Seq<char>, Seq<char>, ErrorCode)> {
    if spec_blank(genre) {
        seq![("genre"@, "Genre is required"@, ErrorCode::MissingField)]
    } else if !spec_valid_genre(genre) {
        seq![
            (
                "genre"@,
                "Invalid genre. Supported: fantasy, urban, xianxia, historical, romance, scifi, game, horror"@,
                ErrorCode::InvalidFormat,
            ),
        ]
    } else {
        Seq::empty()
    }
}

/// The errors reported for the target word count.
pub open spec fn spec_target_errors(target: u64) -> Seq<(Seq<char>, Seq<char>, ErrorCode)> {
    if target == 0 {
        seq![
            (
                "target_word_count"@,
                "Target word count must be greater than 0"@,
                ErrorCode::OutOfRange,
            ),
        ]
    } else if target > 10_000_000 {
        seq![
            (
                "target_word_count"@,
                "Target word count must be 10,000,000 or less"@,
                ErrorCode::OutOfRange,
            ),
        ]
    } else {
        Seq::empty()
    }
}

/// The warnings reported for unusual target word counts.
pub open spec fn spec_target_warnings(target: u64) -> Seq<(Seq<char>, Seq<char>)> {
    if target < 10_000 {
        seq![
            (
                "target_word_count"@,
                "Target word count is very low. Consider at least 30,000 words for a novel."@,
            ),
        ]
    } else if target > 5_000_000 {
        seq![
            (
                "target_word_count"@,
                "Very large target. This may take significant time to generate."@,
            ),
        ]
    } else {
        Seq::empty()
    }
}

/// All errors of a project-creation request, in field order.
pub open spec fn spec_validate_errors(
    name: Seq<char>,
    summary: Seq<char>,
    genre: Seq<char>,
    target: u64,
) -> Seq<(Seq<char>, Seq<char>, ErrorCode)> {
    spec_name_errors(name) + spec_summary_errors(summary) + spec_genre_errors(genre)
        + spec_target_errors(target)
}

/// Validation rules for project fields.
pub struct ProjectValidator;

impl ProjectValidator {
    /// Validates all project-creation fields.  The result is valid exactly
    /// when no field produced an error; the errors and warnings come in
    /// field order.
    #[verifier::rlimit(60)]
    pub fn validate(name: &str, summary: &str, genre: &str, target: u64) -> (r: ValidationResult)
        ensures
            err_views(r.errors@) == spec_validate_errors(name@, summary@, genre@, target),
            warn_views(r.warnings@) == spec_target_warnings(target),
            r.valid == (spec_validate_errors(name@, summary@, genre@, target).len() == 0),
    {
        let mut errors: Vec<ValidationError> = Vec::new();
        let mut warnings: Vec<ValidationWarning> = Vec::new();

        if is_blank(name) {
            let e = ValidationError {
                field: "name".to_owned(),
                message: "Name is required".to_owned(),
                code: ErrorCode::MissingField,
            };
            proof {
                lemma_err_views_push(errors@, e);
            }
            errors.push(e);
        } else if name.unicode_len() > 100 {
            let e = ValidationError {
                field: "name".to_owned(),
                message: "Name must be 100 characters or less".to_owned(),
                code: ErrorCode::TooLong,
            };
            proof {
                lemma_err_views_push(errors@, e);
            }
            errors.push(e);
        }
        assert(err_views(errors@) =~= spec_name_errors(name@));

        if is_blank(summary) {
            let e = ValidationError {
                field: "summary".to_owned(),
                message: "Summary is required".to_owned(),
                code: ErrorCode::MissingField,
            };
            proof {
                lemma_err_views_push(errors@, e);
            }
            errors.push(e);
        } else if summary.unicode_len() < 10 {
            let e = ValidationError {
                field: "summary".to_owned(),
                message: "Summary must be at least 10 characters".to_owned(),
                code: ErrorCode::TooShort,
            };
            proof {
                lemma_err_views_push(errors@, e);
            }
            errors.push(e);
        } else if summary.unicode_len() > 2000 {
            let e = ValidationError {
                field: "summary".to_owned(),
                message: "Summary must be 2000 characters or less".to_owned(),
                code: ErrorCode::TooLong,
            };
            proof {
                lemma_err_views_push(errors@, e);
            }
            errors.push(e);
        }
        assert(err_views(errors@) =~= spec_name_errors(name@) + spec_summary_errors(summary@));

        if is_blank(genre) {
            let e = ValidationError {
                field: "genre".to_owned(),
                message: "Genre is required".to_owned(),
                code: ErrorCode::MissingField,
            };
            proof {
                lemma_err_views_push(errors@, e);
            }
            errors.push(e);
        } else if !Self::is_valid_genre(genre) {
            let e = ValidationError {
                field: "genre".to_owned(),
                message:
                    "Invalid genre. Supported: fantasy, urban, xianxia, historical, romance, scifi, game, horror".to_owned(),
                code: ErrorCode::InvalidFormat,
            };
            proof {
                lemma_err_views_push(errors@, e);
            }
            errors.push(e);
        }
        assert(err_views(errors@) =~= spec_name_errors(name@) + spec_summary_errors(summary@)
            + spec_genre_errors(genre@));

        if target == 0 {
            let e = ValidationError {
                field: "target_word_count".to_owned(),
                message: "Target word count must be greater than 0".to_owned(),
                code: ErrorCode::OutOfRange,
            };
            proof {
                lemma_err_views_push(errors@, e);
            }
            errors.push(e);
        } else if target > 10_000_000 {
            let e = ValidationError {
                field: "target_word_count".to_owned(),
                message: "Target word count must be 10,000,000 or less".to_owned(),
                code: ErrorCode::OutOfRange,
            };
            proof {
                lemma_err_views_push(errors@, e);
            }
            errors.push(e);
        }
        assert(err_views(errors@) =~= spec_validate_errors(name@, summary@, genre@, target));

        if target < 10_000 {
            let w = ValidationWarning {
                field: "target_word_count".to_owned(),
                message:
                    "Target word count is very low. Consider at least 30,000 words for a novel.".to_owned(),
            };
            proof {
                lemma_warn_views_push(warnings@, w);
            }
            warnings.push(w);
        } else if target > 5_000_000 {
            let w = ValidationWarning {
                field: "target_word_count".to_owned(),
                message: "Very large target. This may take significant time to generate.".to_owned(
                ),
            };
            proof {
                lemma_warn_views_push(warnings@, w);
            }
            warnings.push(w);
        }
        assert(warn_views(warnings@) =~= spec_target_warnings(target));

        let valid = errors.len() == 0;
        ValidationResult { valid, errors, warnings }
    }

    /// Validates the target word count alone: zero is rejected.
    pub fn validate_target(target: u64) -> (r: ValidationResult)
        ensures
            r.valid == (target != 0),
            target == 0 ==> err_views(r.errors@) == seq![
                (
                    "target_word_count"@,
                    "Target word count must be greater than 0"@,
                    ErrorCode::OutOfRange,
                ),
            ],
            target != 0 ==> r.errors@.len() == 0,
            r.warnings@.len() == 0,
    {
        if target == 0 {
            let mut errors: Vec<ValidationError> = Vec::new();
            let e = ValidationError {
                field: "target_word_count".to_owned(),
                message: "Target word count must be greater than 0".to_owned(),
                code: ErrorCode::OutOfRange,
            };
            proof {
                lemma_err_views_push(errors@, e);
            }
            errors.push(e);
            let r = ValidationResult::invalid(errors);
            assert(err_views(r.errors@) =~= seq![
                (
                    "target_word_count"@,
                    "Target word count must be greater than 0"@,
                    ErrorCode::OutOfRange,
                ),
            ]);
            r
        } else {
            ValidationResult::valid()
        }
    }

    /// Whether the genre is one of the supported genres, case-insensitively.
    pub fn is_valid_genre(genre: &str) -> (r: bool)
        ensures
            r == spec_valid_genre(genre@),
    {
        let lower = ascii_lowercase(genre);
        let l = lower.as_str();
        str_eq(l, "fantasy") || str_eq(l, "urban") || str_eq(l, "xianxia") || str_eq(
            l,
            "historical",
        ) || str_eq(l, "romance") || str_eq(l, "scifi") || str_eq(l, "game") || str_eq(l, "horror")
    }

    /// The supported genres, in order.
    pub fn valid_genres() -> (r: Vec<&'static str>)
        ensures
            r@.len() == 8,
            r@.map_values(|s: &'static str| s@) =~= seq![
                "fantasy"@,
                "urban"@,
                "xianxia"@,
                "historical"@,
                "romance"@,
                "scifi"@,
                "game"@,
                "horror"@,
            ],
    {
        let mut v: Vec<&'static str> = Vec::new();
        v.push("fantasy");
        v.push("urban");
        v.push("xianxia");
        v.push("historical");
        v.push("romance");
        v.push("scifi");
        v.push("game");
        v.push("horror");
        v
    }
}

} // verus!
