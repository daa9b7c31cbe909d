//! Chinese display labels for genres and statuses, and the publishing
//! actions a caller can pick from.

use vstd::prelude::*;
use crate::models::NovelGenre;
use crate::models::ProjectStatus;
use crate::models::PublicationStatus;

verus! {

/// The Chinese label of a genre.
pub open spec fn spec_genre_to_chinese(genre: NovelGenre) -> Seq<char> {
    match genre {
        NovelGenre::Fantasy => "奇幻"@,
        NovelGenre::Urban => "都市"@,
        NovelGenre::Xianxia => "仙侠"@,
        NovelGenre::Historical => "历史"@,
        NovelGenre::Romance => "言情"@,
        NovelGenre::Scifi => "科幻"@,
        NovelGenre::Game => "游戏"@,
        NovelGenre::Horror => "悬疑"@,
        NovelGenre::Other => "其他"@,
    }
}

/// The Chinese label of a genre.
pub fn genre_to_chinese(genre: NovelGenre) -> (r: &'static str)
    ensures
        r@ == spec_genre_to_chinese(genre),
{
    match genre {
        NovelGenre::Fantasy => "奇幻",
        NovelGenre::Urban => "都市",
        NovelGenre::Xianxia => "仙侠",
        NovelGenre::Historical => "历史",
        NovelGenre::Romance => "言情",
        NovelGenre::Scifi => "科幻",
        NovelGenre::Game => "游戏",
        NovelGenre::Horror => "悬疑",
        NovelGenre::Other => "其他",
    }
}

/// The Chinese label of a project status.
pub open spec fn spec_status_to_chinese(status: ProjectStatus) -> Seq<char> {
    match status {
        ProjectStatus::Draft => "草稿"@,
        ProjectStatus::Feasibility => "可行性分析"@,
        ProjectStatus::Outline => "大纲"@,
        ProjectStatus::Planning => "规划中"@,
        ProjectStatus::Generating => "生成中"@,
        ProjectStatus::Publishing => "发布中"@,
        ProjectStatus::Completed => "已完成"@,
    }
}

/// The Chinese label of a project status.
pub fn status_to_chinese(status: ProjectStatus) -> (r: &'static str)
    ensures
        r@ == spec_status_to_chinese(status),
{
    match status {
        ProjectStatus::Draft => "草稿",
        ProjectStatus::Feasibility => "可行性分析",
        ProjectStatus::Outline => "大纲",
        ProjectStatus::Planning => "规划中",
        ProjectStatus::Generating => "生成中",
        ProjectStatus::Publishing => "发布中",
        ProjectStatus::Completed => "已完成",
    }
}

/// The Chinese label of a publication status.
pub open spec fn spec_pub_status_to_chinese(status: PublicationStatus) -> Seq<char> {
    match status {
        PublicationStatus::NotPublished => "未发布"@,
        PublicationStatus::Created => "已创建"@,
        PublicationStatus::Publishing => "发布中"@,
        PublicationStatus::Published => "已发布"@,
    }
}

/// The Chinese label of a publication status.
pub fn pub_status_to_chinese(status: PublicationStatus) -> (r: &'static str)
    ensures
        r@ == spec_pub_status_to_chinese(status),
{
    match status {
        PublicationStatus::NotPublished => "未发布",
        PublicationStatus::Created => "已创建",
        PublicationStatus::Publishing => "发布中",
        PublicationStatus::Published => "已发布",
    }
}

/// The publishing actions a caller can pick from.
#[derive(Debug, Clone, Copy, PartialEq, Eq, Structural)]
pub enum PublishAction {
    Create,
    Upload,
    Submit,
}

impl PublishAction {
    /// The Chinese label of the action.
    pub fn label(&self) -> (r: &'static str)
        ensures
            self == PublishAction::Create ==> r@ == "创建小说"@,
            self == PublishAction::Upload ==> r@ == "上传章节"@,
            self == PublishAction::Submit ==> r@ == "提交审核"@,
    {
        match self {
            PublishAction::Create => "创建小说",
            PublishAction::Upload => "上传章节",
            PublishAction::Submit => "提交审核",
        }
    }
}

impl Default for PublishAction {
    /// The default action is creating the novel.
    fn default() -> (r: PublishAction)
        ensures
            r == PublishAction::Create,
    {
        PublishAction::Create
    }
}

} // verus!
