//! Novel outline models.

use vstd::prelude::*;
use crate::ids::new_id;
use crate::ids::now_millis;

verus! {

/// Outline status.  Created `Draft`, moved to `Approved` only when the
/// validators pass, and to `Locked` once chapter planning begins.
#[derive(Debug, Clone, Copy, PartialEq, Eq, Structural)]
pub enum OutlineStatus {
    Draft,
    Approved,
    Locked,
}

/// World type.
#[derive(Debug, Clone, Copy, PartialEq, Eq, Structural)]
pub enum WorldType {
    Modern,
    Fantasy,
    Scifi,
    Historical,
    Xianxia,
}

/// A location in the world.
#[derive(Debug, Clone, PartialEq)]
pub struct Location {
    pub name: String,
    pub description: String,
    pub importance: LocationImportance,
}

#[derive(Debug, Clone, Copy, PartialEq, Eq, Structural)]
pub enum LocationImportance {
    Major,
    Minor,
}

/// World settings.
#[derive(Debug, Clone, PartialEq)]
pub struct WorldSettings {
    pub name: String,
    pub world_type: WorldType,
    pub description: String,
    /// Rules: magic system, technology level, and the like.
    pub rules: Vec<String>,
    pub locations: Vec<Location>,
}

/// A character moment.
#[derive(Debug, Clone, PartialEq)]
pub struct CharacterMoment {
    pub chapter: u32,
    pub description: String,
    pub development: String,
}

/// Character arc.
#[derive(Debug, Clone, PartialEq)]
pub struct CharacterArc {
    pub id: u128,
    pub name: String,
    pub role: CharacterRole,
    pub description: String,
    pub personality_traits: Vec<String>,
    pub arc_description: String,
    pub key_moments: Vec<CharacterMoment>,
}

#[derive(Debug, Clone, Copy, PartialEq, Eq, Structural)]
pub enum CharacterRole {
    Protagonist,
    Supporting,
    Antagonist,
}

/// Plot arc.
#[derive(Debug, Clone, PartialEq)]
pub struct PlotArc {
    pub id: u128,
    pub name: String,
    pub start_chapter: u32,
    pub end_chapter: u32,
    pub summary: String,
    pub key_events: Vec<String>,
    pub climax: String,
}

/// The arcs partition the chapter range `1..=total` without gaps or
/// overlaps: the first starts at chapter 1, each arc ends no earlier than it
/// starts, each next arc starts right after the previous one ends, and the
/// last ends at `total`.
pub open spec fn arcs_contiguous(arcs: Seq<PlotArc>, total: u32) -> bool {
    &&& arcs.len() > 0
    &&& arcs[0].start_chapter == 1
    &&& arcs.last().end_chapter == total
    &&& forall|i: int|
        0 <= i < arcs.len() ==> (#[trigger] arcs[i]).start_chapter <= arcs[i].end_chapter
    &&& forall|i: int|
        0 <= i < arcs.len() - 1 ==> (#[trigger] arcs[i + 1]).start_chapter == arcs[i].end_chapter
            + 1
}

/// Sensitive content issue.
#[derive(Debug, Clone, PartialEq)]
pub struct SensitiveContentIssue {
    pub category: SensitiveCategory,
    pub description: String,
    pub severity: SensitiveSeverity,
    pub suggestion: String,
}

#[derive(Debug, Clone, Copy, PartialEq, Eq, Structural)]
pub enum SensitiveCategory {
    Violence,
    Explicit,
    Political,
    Other,
}

#[derive(Debug, Clone, Copy, PartialEq, Eq, Structural)]
pub enum SensitiveSeverity {
    Low,
    Medium,
    High,
}

/// Sensitive content check result.
#[derive(Debug, Clone, PartialEq)]
pub struct SensitiveContentResult {
    pub passed: bool,
    pub issues: Vec<SensitiveContentIssue>,
}

/// Novel outline.  Identifiers are 128-bit values; timestamps are
/// milliseconds since the Unix epoch.
#[derive(Debug, Clone, PartialEq)]
pub struct NovelOutline {
    pub id: u128,
    pub project_id: u128,
    /// Premise: a one- or two-sentence hook.
    pub premise: String,
    pub theme: String,
    pub target_word_count: u64,
    pub arcs: Vec<PlotArc>,
    pub protagonist: CharacterArc,
    pub supporting_characters: Vec<CharacterArc>,
    pub world_settings: WorldSettings,
    pub sensitive_content_check: SensitiveContentResult,
    pub status: OutlineStatus,
    pub created_at: i64,
    pub updated_at: i64,
}

impl NovelOutline {
    /// Creates an empty draft outline: no arcs yet, a placeholder
    /// protagonist, and a default modern world.
    pub fn new(project_id: u128, premise: String, theme: String, target_word_count: u64) -> (r:
        NovelOutline)
        ensures
            r.project_id == project_id,
            r.premise == premise,
            r.theme == theme,
            r.target_word_count == target_word_count,
            r.arcs@ =~= Seq::<PlotArc>::empty(),
            r.protagonist.name@ =~= Seq::<char>::empty(),
            r.protagonist.role == CharacterRole::Protagonist,
            r.protagonist.personality_traits@ =~= Seq::<String>::empty(),
            r.protagonist.key_moments@ =~= Seq::<CharacterMoment>::empty(),
            r.supporting_characters@ =~= Seq::<CharacterArc>::empty(),
            r.world_settings.name@ =~= Seq::<char>::empty(),
            r.world_settings.world_type == WorldType::Modern,
            r.world_settings.rules@ =~= Seq::<String>::empty(),
            r.world_settings.locations@ =~= Seq::<Location>::empty(),
            r.sensitive_content_check.passed,
            r.sensitive_content_check.issues@ =~= Seq::<SensitiveContentIssue>::empty(),
            r.status == OutlineStatus::Draft,
            r.created_at == r.updated_at,
    {
        let now = now_millis();
        NovelOutline {
            id: new_id(),
            project_id,
            premise,
            theme,
            target_word_count,
            arcs: Vec::new(),
            protagonist: CharacterArc {
                id: new_id(),
                name: String::new(),
                role: CharacterRole::Protagonist,
                description: String::new(),
                personality_traits: Vec::new(),
                arc_description: String::new(),
                key_moments: Vec::new(),
            },
            supporting_characters: Vec::new(),
            world_settings: WorldSettings {
                name: String::new(),
                world_type: WorldType::Modern,
                description: String::new(),
                rules: Vec::new(),
                locations: Vec::new(),
            },
            sensitive_content_check: SensitiveContentResult { passed: true, issues: Vec::new() },
            status: OutlineStatus::Draft,
            created_at: now,
            updated_at: now,
        }
    }

    /// Marks the outline approved and refreshes the update timestamp;
    /// nothing else changes.
    pub fn approve(&mut self)
        ensures
            final(self).status == OutlineStatus::Approved,
            final(self).id == old(self).id,
            final(self).project_id == old(self).project_id,
            final(self).premise == old(self).premise,
            final(self).theme == old(self).theme,
            final(self).target_word_count == old(self).target_word_count,
            final(self).arcs == old(self).arcs,
            final(self).protagonist == old(self).protagonist,
            final(self).supporting_characters == old(self).supporting_characters,
            final(self).world_settings == old(self).world_settings,
            final(self).sensitive_content_check == old(self).sensitive_content_check,
            final(self).created_at == old(self).created_at,
    {
        self.status = OutlineStatus::Approved;
        self.updated_at = now_millis();
    }

    /// Marks the outline locked and refreshes the update timestamp; nothing
    /// else changes.
    pub fn lock(&mut self)
        ensures
            final(self).status == OutlineStatus::Locked,
            final(self).id == old(self).id,
            final(self).project_id == old(self).project_id,
            final(self).premise == old(self).premise,
            final(self).theme == old(self).theme,
            final(self).target_word_count == old(self).target_word_count,
            final(self).arcs == old(self).arcs,
            final(self).protagonist == old(self).protagonist,
            final(self).supporting_characters == old(self).supporting_characters,
            final(self).world_settings == old(self).world_settings,
            final(self).sensitive_content_check == old(self).sensitive_content_check,
            final(self).created_at == old(self).created_at,
    {
        self.status = OutlineStatus::Locked;
        self.updated_at = now_millis();
    }
}

} // verus!
