//! Request, response and extractor types of the wiki's service surface,
//! with their validation rules.
//!
//! The transport layer (HTTP routing, serialization, authentication) stays
//! outside this crate; these are the plain shapes it exchanges, and
//! [`ArticleCreateRequest::validate`] and friends state exactly which
//! requests the service accepts.

use vstd::prelude::*;
use std::collections::HashSet;

verus! {

/// A query-string extractor holding the decoded query.
pub struct Query<T>(pub T);

impl<T> Query<T> {
    /// Deconstruct to the inner value.
    pub fn into_inner(self) -> (r: T)
        ensures
            r == self.0,
    {
        self.0
    }
}

/// The authenticated caller, as read from a bearer token.
#[derive(Debug)]
pub struct UserInfo {
    pub id: i32,
}

/// The payload of a service reply.
#[derive(Debug)]
pub enum ResponseResult {
    ArticleGet { full_title: String, html: String },
    ArticleCreate { full_title: String, revision_id: i32 },
    ArticleEdit { full_title: String, revision_id: i32 },
    ArticleDelete { full_title: String, revision_id: i32 },
    Auth { refresh_token: String, access_token: String },
    Refresh { access_token: String },
    Hello,
}

/// A service reply: a status word and the payload.
#[derive(Debug)]
pub struct Response {
    pub status: String,
    pub result: ResponseResult,
}

/// The fields a read request may ask for.
#[derive(Debug, Clone, Copy, PartialEq, Eq, Hash)]
pub enum ArticleGetQueryFields {
    Html,
    Wikitext,
    _Other,
}

/// The query of a read request.
#[derive(Debug)]
pub struct ArticleGetQuery {
    pub fields: HashSet<ArticleGetQueryFields>,
}

/// The reply to a read request.
#[derive(Debug)]
pub struct ArticleGetResponse {
    pub full_title: String,
    pub html: Option<String>,
    pub wikitext: Option<String>,
}

/// One revision's actor, as shown in a revision listing.
#[derive(Debug)]
pub enum ActorEntity {
    User { username: String },
    Anonymous { ip_address: String },
}

/// One entry of a revision listing. The timestamp is seconds since the
/// Unix epoch.
#[derive(Debug)]
pub struct ArticleRevisionEntity {
    pub id: i32,
    pub created_at: i64,
    pub actor: ActorEntity,
    pub comment: String,
}

/// A request to create an article.
#[derive(Debug)]
pub struct ArticleCreateRequest {
    pub full_title: String,
    pub wikitext: String,
    pub comment: String,
}

impl ArticleCreateRequest {
    /// Whether the request is acceptable: a title of one to three hundred
    /// characters, wikitext of at most a million, a comment of at most a
    /// thousand.
    pub fn validate(&self) -> (r: bool)
        ensures
            r == (1 <= self.full_title@.len() <= 300 && self.wikitext@.len() <= 1000000
                && self.comment@.len() <= 1000),
    {
        let tl = self.full_title.as_str().unicode_len();
        let wl = self.wikitext.as_str().unicode_len();
        let cl = self.comment.as_str().unicode_len();
        1 <= tl && tl <= 300 && wl <= 1000000 && cl <= 1000
    }
}

/// The reply to a create request.
#[derive(Debug)]
pub struct ArticleCreateResponse {
    pub full_title: String,
    pub revision_id: i32,
}

/// A request to edit an article's wikitext.
#[derive(Debug)]
pub struct ArticleEditRequest {
    pub wikitext: String,
    pub comment: String,
}

impl ArticleEditRequest {
    /// Whether the request is acceptable: wikitext of at most a million
    /// characters and a comment of at most a thousand.
    pub fn validate(&self) -> (r: bool)
        ensures
            r == (self.wikitext@.len() <= 1000000 && self.comment@.len() <= 1000),
    {
        let wl = self.wikitext.as_str().unicode_len();
        let cl = self.comment.as_str().unicode_len();
        wl <= 1000000 && cl <= 1000
    }
}

/// A request to rename an article.
#[derive(Debug)]
pub struct ArticleRenameRequest {
    pub full_title: String,
    pub comment: String,
}

impl ArticleRenameRequest {
    /// Whether the request is acceptable: a new title of one to three
    /// hundred characters and a comment of at most a thousand.
    pub fn validate(&self) -> (r: bool)
        ensures
            r == (1 <= self.full_title@.len() <= 300 && self.comment@.len() <= 1000),
    {
        let tl = self.full_title.as_str().unicode_len();
        let cl = self.comment.as_str().unicode_len();
        1 <= tl && tl <= 300 && cl <= 1000
    }
}

/// A request to delete an article.
#[derive(Debug)]
pub struct ArticleDeleteRequest {
    pub comment: String,
}

impl ArticleDeleteRequest {
    /// Whether the request is acceptable: a comment of at most a thousand
    /// characters.
    pub fn validate(&self) -> (r: bool)
        ensures
            r == (self.comment@.len() <= 1000),
    {
        let cl = self.comment.as_str().unicode_len();
        cl <= 1000
    }
}

} // verus!
