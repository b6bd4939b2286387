//! Post-side request and enumeration types.

use vstd::prelude::*;

verus! {

/// What a post's body is.
#[derive(Clone, Copy, PartialEq, Eq, Structural, Debug)]
pub enum PostType {
    Text,
    Link,
    Image,
    Video,
}

/// Lifecycle state of a post.
#[derive(Clone, Copy, PartialEq, Eq, Structural, Debug)]
pub enum PostStatus {
    Active,
    Removed,
    Deleted,
    Spam,
}

/// Edit of an existing post.
#[derive(Clone, PartialEq, Eq, Debug)]
pub struct UpdatePostRequest {
    pub title: Option<String>,
    pub content: Option<String>,
    pub is_nsfw: Option<bool>,
    pub is_spoiler: Option<bool>,
}

/// Orderings a post listing can be asked for.
#[derive(Clone, Copy, PartialEq, Eq, Structural, Debug)]
pub enum PostSort {
    Hot,
    New,
    Top,
    Rising,
}

/// Window for top-post queries.
#[derive(Clone, Copy, PartialEq, Eq, Structural, Debug)]
pub enum TimeRange {
    Hour,
    Day,
    Week,
    Month,
    Year,
    All,
}

/// Paging, ordering and filtering of a post listing.
#[derive(Clone, PartialEq, Eq, Debug)]
pub struct GetPostsQuery {
    pub page: Option<u32>,
    pub limit: Option<u32>,
    pub sort: Option<PostSort>,
    pub time: Option<TimeRange>,
    pub community: Option<String>,
}

/// A vote on a post or comment: -1 down, 0 removes the vote, 1 up.
#[derive(Clone, Copy, PartialEq, Eq, Structural, Debug)]
pub struct VoteRequest {
    pub vote_type: i16,
}

/// A report filed against a post.
#[derive(Clone, PartialEq, Eq, Debug)]
pub struct ReportPostRequest {
    pub reason: String,
    pub description: Option<String>,
}

} // verus!
