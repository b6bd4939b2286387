//! Comment-side request and enumeration types.

use vstd::prelude::*;

verus! {

/// Lifecycle state of a comment.
#[derive(Clone, Copy, PartialEq, Eq, Structural, Debug)]
pub enum CommentStatus {
    Active,
    Removed,
    Deleted,
    Spam,
}

/// Edit of an existing comment's text.
#[derive(Clone, PartialEq, Eq, Debug)]
pub struct UpdateCommentRequest {
    pub content: String,
}

/// Orderings a comment listing can be asked for.
#[derive(Clone, Copy, PartialEq, Eq, Structural, Debug)]
pub enum CommentSort {
    Best,
    Top,
    New,
    Controversial,
    Old,
}

/// Paging and ordering of a comment listing.
#[derive(Clone, PartialEq, Eq, Debug)]
pub struct GetCommentsQuery {
    pub sort: Option<CommentSort>,
    pub limit: Option<u32>,
    pub offset: Option<u32>,
}

/// A report filed against a comment.
#[derive(Clone, PartialEq, Eq, Debug)]
pub struct ReportCommentRequest {
    pub reason: String,
    pub description: Option<String>,
}

} // verus!
