//! Storage keys: where each artifact kind lives relative to its project.
//!
//! The file store itself does input and output and lives outside the
//! library; it asks these methods for the folder and file name of each
//! artifact kind.

use vstd::prelude::*;
use crate::models::ChapterPlan;
use crate::models::FeasibilityReport;
use crate::models::GeneratedChapter;
use crate::models::NovelOutline;
use crate::models::NovelProject;

verus! {

/// Where an artifact kind is stored: a folder under the project directory
/// and a file name without extension.
pub trait StorageKey {
    /// Storage folder name; empty means the project directory itself.
    fn storage_folder() -> &'static str;

    /// Storage file name, without extension.
    fn storage_filename() -> &'static str;
}

impl StorageKey for NovelProject {
    /// Projects are stored in the project directory itself.
    fn storage_folder() -> (r: &'static str)
        ensures
            r@ == ""@,
    {
        ""
    }

    fn storage_filename() -> (r: &'static str)
        ensures
            r@ == "project"@,
    {
        "project"
    }
}

impl StorageKey for NovelOutline {
    fn storage_folder() -> (r: &'static str)
        ensures
            r@ == "outline"@,
    {
        "outline"
    }

    fn storage_filename() -> (r: &'static str)
        ensures
            r@ == "outline"@,
    {
        "outline"
    }
}

impl StorageKey for ChapterPlan {
    fn storage_folder() -> (r: &'static str)
        ensures
            r@ == "plans"@,
    {
        "plans"
    }

    fn storage_filename() -> (r: &'static str)
        ensures
            r@ == "plan"@,
    {
        "plan"
    }
}

impl StorageKey for GeneratedChapter {
    fn storage_folder() -> (r: &'static str)
        ensures
            r@ == "chapters"@,
    {
        "chapters"
    }

    fn storage_filename() -> (r: &'static str)
        ensures
            r@ == "chapter"@,
    {
        "chapter"
    }
}

impl StorageKey for FeasibilityReport {
    fn storage_folder() -> (r: &'static str)
        ensures
            r@ == "analysis"@,
    {
        "analysis"
    }

    fn storage_filename() -> (r: &'static str)
        ensures
            r@ == "feasibility"@,
    {
        "feasibility"
    }
}

} // verus!
