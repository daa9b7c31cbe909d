//! Publishing-platform records: credentials and the metadata the platform
//! hands back for novels and chapters.

use vstd::prelude::*;

verus! {

/// Credentials for platform authentication.
#[derive(Debug, Clone, PartialEq)]
pub struct FanqieCredentials {
    /// Username or phone number.
    pub username: String,
    /// Password.
    pub password: String,
    /// Cookies for session persistence, once a session exists.
    pub cookies: Option<String>,
}

impl FanqieCredentials {
    /// Creates credentials with no session cookies yet.
    pub fn new(username: String, password: String) -> (r: FanqieCredentials)
        ensures
            r.username == username,
            r.password == password,
            r.cookies is None,
    {
        FanqieCredentials { username, password, cookies: None }
    }
}

/// Platform novel metadata.
#[derive(Debug, Clone, PartialEq)]
pub struct FanqieNovel {
    pub novel_id: String,
    pub title: String,
    pub genre: String,
    pub description: String,
    pub status: String,
}

/// Platform chapter metadata.
#[derive(Debug, Clone, PartialEq)]
pub struct FanqieChapter {
    pub chapter_id: String,
    pub chapter_number: u32,
    pub title: String,
    pub word_count: u32,
    pub status: String,
}

} // verus!
