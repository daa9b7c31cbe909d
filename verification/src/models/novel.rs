//! Novel project model.

use vstd::prelude::*;
use crate::ids::new_id;
use crate::ids::now_millis;

verus! {

/// Genre of the novel.
#[derive(Debug, Clone, Copy, PartialEq, Eq, Structural)]
pub enum NovelGenre {
    Fantasy,
    Urban,
    Xianxia,
    Historical,
    Romance,
    Scifi,
    Game,
    Horror,
    Other,
}

impl NovelGenre {
    /// The lower-case name of the genre, as shown to users and handed to
    /// ranking sources.
    pub open spec fn spec_label(self) -> Seq<char> {
        match self {
            NovelGenre::Fantasy => "fantasy"@,
            NovelGenre::Urban => "urban"@,
            NovelGenre::Xianxia => "xianxia"@,
            NovelGenre::Historical => "historical"@,
            NovelGenre::Romance => "romance"@,
            NovelGenre::Scifi => "scifi"@,
            NovelGenre::Game => "game"@,
            NovelGenre::Horror => "horror"@,
            NovelGenre::Other => "other"@,
        }
    }

    /// The lower-case name of the genre.
    pub fn label(&self) -> (r: &'static str)
        ensures
            r@ == self.spec_label(),
    {
        match self {
            NovelGenre::Fantasy => "fantasy",
            NovelGenre::Urban => "urban",
            NovelGenre::Xianxia => "xianxia",
            NovelGenre::Historical => "historical",
            NovelGenre::Romance => "romance",
            NovelGenre::Scifi => "scifi",
            NovelGenre::Game => "game",
            NovelGenre::Horror => "horror",
            NovelGenre::Other => "other",
        }
    }

    /// The name of the genre variant, capitalized as written in the source.
    pub open spec fn spec_variant_name(self) -> Seq<char> {
        match self {
            NovelGenre::Fantasy => "Fantasy"@,
            NovelGenre::Urban => "Urban"@,
            NovelGenre::Xianxia => "Xianxia"@,
            NovelGenre::Historical => "Historical"@,
            NovelGenre::Romance => "Romance"@,
            NovelGenre::Scifi => "Scifi"@,
            NovelGenre::Game => "Game"@,
            NovelGenre::Horror => "Horror"@,
            NovelGenre::Other => "Other"@,
        }
    }

    /// The capitalized variant name.
    pub fn variant_name(&self) -> (r: &'static str)
        ensures
            r@ == self.spec_variant_name(),
    {
        match self {
            NovelGenre::Fantasy => "Fantasy",
            NovelGenre::Urban => "Urban",
            NovelGenre::Xianxia => "Xianxia",
            NovelGenre::Historical => "Historical",
            NovelGenre::Romance => "Romance",
            NovelGenre::Scifi => "Scifi",
            NovelGenre::Game => "Game",
            NovelGenre::Horror => "Horror",
            NovelGenre::Other => "Other",
        }
    }
}

/// Project status.
#[derive(Debug, Clone, Copy, PartialEq, Eq, Structural)]
pub enum ProjectStatus {
    Draft,
    Feasibility,
    Outline,
    Planning,
    Generating,
    Publishing,
    Completed,
}

/// Publication status.
#[derive(Debug, Clone, Copy, PartialEq, Eq, Structural)]
pub enum PublicationStatus {
    NotPublished,
    Created,
    Publishing,
    Published,
}

/// Novel project entity.  Identifiers are 128-bit values; timestamps are
/// milliseconds since the Unix epoch.
#[derive(Debug, Clone, PartialEq)]
pub struct NovelProject {
    /// Unique identifier.
    pub id: u128,
    /// Novel title.
    pub name: String,
    /// Genre.
    pub genre: NovelGenre,
    /// Current status.
    pub status: ProjectStatus,
    /// Target word count.
    pub target_word_count: u64,
    /// Publishing-platform novel id, once created there.
    pub fanqie_novel_id: Option<String>,
    /// Publication status.
    pub publication_status: PublicationStatus,
    /// Created timestamp.
    pub created_at: i64,
    /// Updated timestamp.
    pub updated_at: i64,
}

impl NovelProject {
    /// Creates a new project in `Draft` status.
    pub fn new(name: String, genre: NovelGenre, target_word_count: u64) -> (r: NovelProject)
        ensures
            r.name == name,
            r.genre == genre,
            r.status == ProjectStatus::Draft,
            r.target_word_count == target_word_count,
            r.fanqie_novel_id is None,
            r.publication_status == PublicationStatus::NotPublished,
            r.created_at == r.updated_at,
    {
        let now = now_millis();
        NovelProject {
            id: new_id(),
            name,
            genre,
            status: ProjectStatus::Draft,
            target_word_count,
            fanqie_novel_id: None,
            publication_status: PublicationStatus::NotPublished,
            created_at: now,
            updated_at: now,
        }
    }

    /// Updates the status and the update timestamp; nothing else changes.
    pub fn set_status(&mut self, status: ProjectStatus)
        ensures
            final(self).status == status,
            final(self).id == old(self).id,
            final(self).name == old(self).name,
            final(self).genre == old(self).genre,
            final(self).target_word_count == old(self).target_word_count,
            final(self).fanqie_novel_id == old(self).fanqie_novel_id,
            final(self).publication_status == old(self).publication_status,
            final(self).created_at == old(self).created_at,
    {
        self.status = status;
        self.updated_at = now_millis();
    }
}

} // verus!
