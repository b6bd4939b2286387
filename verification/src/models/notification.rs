//! Notification-side types: kinds, settings, counts.

use vstd::prelude::*;

verus! {

/// Every event kind that can produce a notification.
#[derive(Clone, Copy, PartialEq, Eq, Structural, Debug)]
pub enum NotificationType {
    CommentReply,
    PostReply,
    Mention,
    Upvote,
    Downvote,
    Follow,
    CommunityInvite,
    CommunityBan,
    PostRemoved,
    CommentRemoved,
    ModeratorInvite,
    AwardReceived,
    PostTrending,
    SystemAnnouncement,
}

/// How often a digest is sent.
#[derive(Clone, Copy, PartialEq, Eq, Structural, Debug)]
pub enum DigestFrequency {
    Never,
    Daily,
    Weekly,
    Monthly,
}

/// A user's notification preferences.
#[derive(Clone, Copy, PartialEq, Eq, Structural, Debug)]
pub struct NotificationSettings {
    pub email_notifications: bool,
    pub push_notifications: bool,
    pub comment_reply_notifications: bool,
    pub post_reply_notifications: bool,
    pub mention_notifications: bool,
    pub upvote_notifications: bool,
    pub community_notifications: bool,
    pub digest_frequency: DigestFrequency,
}

/// Notification totals for one user, with a per-kind breakdown.
#[derive(Clone, PartialEq, Eq, Debug)]
pub struct NotificationCount {
    pub total: i64,
    pub unread: i64,
    pub by_type: Vec<(NotificationType, i64)>,
}

/// Paging of a notification listing.
#[derive(Clone, Copy, PartialEq, Eq, Structural, Debug)]
pub struct NotificationQuery {
    pub limit: Option<u32>,
    pub offset: Option<u32>,
    pub unread_only: Option<bool>,
}

/// Whether a notification of this kind should be sent under these
/// settings: each kind follows its own toggle, and kinds without one are
/// always sent.
pub open spec fn spec_should_send(settings: NotificationSettings, kind: NotificationType) -> bool {
    match kind {
        NotificationType::CommentReply => settings.comment_reply_notifications,
        NotificationType::PostReply => settings.post_reply_notifications,
        NotificationType::Mention => settings.mention_notifications,
        NotificationType::Upvote => settings.upvote_notifications,
        NotificationType::Downvote => settings.upvote_notifications,
        NotificationType::CommunityInvite => settings.community_notifications,
        NotificationType::CommunityBan => settings.community_notifications,
        _ => true,
    }
}

/// Exec mirror of [`spec_should_send`]; a user with no stored settings
/// is treated by the caller as allowing everything.
pub fn should_send_notification(settings: &NotificationSettings, kind: &NotificationType) -> (r:
    bool)
    ensures
        r == spec_should_send(*settings, *kind),
{
    match kind {
        NotificationType::CommentReply => settings.comment_reply_notifications,
        NotificationType::PostReply => settings.post_reply_notifications,
        NotificationType::Mention => settings.mention_notifications,
        NotificationType::Upvote => settings.upvote_notifications,
        NotificationType::Downvote => settings.upvote_notifications,
        NotificationType::CommunityInvite => settings.community_notifications,
        NotificationType::CommunityBan => settings.community_notifications,
        _ => true,
    }
}

} // verus!
