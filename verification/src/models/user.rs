//! User-side request and enumeration types.

use vstd::prelude::*;

verus! {

/// How an account authenticates.
#[derive(Clone, Copy, PartialEq, Eq, Structural, Debug)]
pub enum AuthProvider {
    Email,
    Phone,
    Google,
    Apple,
}

/// Lifecycle state of an account.
#[derive(Clone, Copy, PartialEq, Eq, Structural, Debug)]
pub enum UserStatus {
    Active,
    Suspended,
    Deleted,
}

/// Creation of a new account.
#[derive(Clone, PartialEq, Eq, Debug)]
pub struct CreateUserRequest {
    pub username: String,
    pub email: Option<String>,
    pub phone: Option<String>,
    pub password: Option<String>,
    pub auth_provider: AuthProvider,
    pub oauth_id: Option<String>,
}

/// Partial update of a profile.
#[derive(Clone, PartialEq, Eq, Debug)]
pub struct UpdateUserRequest {
    pub display_name: Option<String>,
    pub bio: Option<String>,
    pub avatar_url: Option<String>,
    pub banner_url: Option<String>,
}

/// Partial update of a user's preferences.
#[derive(Clone, PartialEq, Eq, Debug)]
pub struct UpdatePreferencesRequest {
    pub email_notifications: Option<bool>,
    pub push_notifications: Option<bool>,
    pub comment_reply_notifications: Option<bool>,
    pub post_reply_notifications: Option<bool>,
    pub mention_notifications: Option<bool>,
    pub upvote_notifications: Option<bool>,
    pub community_notifications: Option<bool>,
    pub nsfw_content: Option<bool>,
    pub autoplay_videos: Option<bool>,
    pub theme: Option<String>,
    pub language: Option<String>,
}

/// Aggregate counts shown on a profile.
#[derive(Clone, Copy, PartialEq, Eq, Structural, Debug)]
pub struct UserStats {
    pub post_count: i32,
    pub comment_count: i32,
    pub follower_count: i32,
    pub following_count: i32,
}

} // verus!
