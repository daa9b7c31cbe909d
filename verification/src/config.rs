//! Configuration records that the planning pipeline reads, with the default
//! values used when a setting is absent.

use vstd::prelude::*;

verus! {

/// Default maximum tokens per generation request.
pub fn default_max_tokens() -> (r: u32)
    ensures
        r == 4096,
{
    4096
}

/// Default storage path.
pub fn default_storage_path() -> (r: String)
    ensures
        r@ == "./data"@,
{
    "./data".to_owned()
}

/// Default target word count for a new project.
pub fn default_word_count() -> (r: u64)
    ensures
        r == 1_000_000,
{
    1_000_000
}

/// Default target words per chapter.
pub fn default_words_per_chapter() -> (r: u32)
    ensures
        r == 10_000,
{
    10_000
}

/// Default number of chapters per generation batch.
pub fn default_batch_size() -> (r: u32)
    ensures
        r == 10,
{
    10
}

/// Storage configuration.
#[derive(Debug, Clone, PartialEq)]
pub struct StorageConfig {
    /// Storage path.
    pub path: String,
}

/// Platform configuration.
#[derive(Debug, Clone, PartialEq)]
pub struct FanqieConfig {
    /// Whether platform integration is enabled.
    pub enabled: bool,
    /// Session cookie.
    pub cookie: Option<String>,
    /// Username.
    pub username: Option<String>,
}

/// Generation settings.
#[derive(Debug, Clone, PartialEq)]
pub struct GenerationConfig {
    /// Default word count target.
    pub default_word_count: u64,
    /// Target words per chapter.
    pub words_per_chapter: u32,
    /// Chapters per batch generation.
    pub batch_size: u32,
}

impl Default for GenerationConfig {
    /// The defaults: one million words, ten thousand per chapter, batches of
    /// ten.
    fn default() -> (r: GenerationConfig)
        ensures
            r.default_word_count == 1_000_000,
            r.words_per_chapter == 10_000,
            r.batch_size == 10,
    {
        GenerationConfig { default_word_count: 1_000_000, words_per_chapter: 10_000, batch_size: 10 }
    }
}

} // verus!
