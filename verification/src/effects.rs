//! Outward effects of the core: bus publishes and socket frames.
//!
//! The core never talks to the shared bus or a socket itself. Every
//! operation that would publish returns [`Publish`] values naming the
//! channel and the message, and the session surface returns
//! [`OutboundFrame`] values for the connection's own stream; the caller
//! performs them. Channels are structured names here — the process edge
//! renders them to the bus's string form.

use vstd::prelude::*;

use crate::typing::TypingUser;

verus! {

/// A named topic on the shared bus's publish/subscribe facility.
#[derive(Clone, Copy, PartialEq, Eq, Structural, Debug)]
pub enum Channel {
    /// Per-user notification channel; every session of the user
    /// subscribes to it for its whole life.
    UserNotifications(u128),
    /// The channel every session subscribes to.
    GlobalNotifications,
    /// Typing updates for a post's top-level thread.
    PostTyping(u128),
    /// Typing updates for one comment thread (post, parent comment).
    CommentTyping(u128, u128),
    /// Announcements fanned out to a community's subscribers.
    CommunityUpdates(u128),
}

/// What is published on a channel.
#[derive(Clone, PartialEq, Eq, Debug)]
pub enum BusMessage {
    /// An opaque serialized notification, forwarded as-is.
    Payload(String),
    /// A full typing snapshot for one thread — ground truth, not a
    /// delta, so receivers never reconcile increments.
    TypingUpdate { post_id: u128, parent_comment_id: Option<u128>, users: Vec<TypingUser> },
    /// The recipient's current unread count, so every open client
    /// converges to the same number.
    NotificationCount(u64),
}

/// One publish the caller must perform on the shared bus.
#[derive(Clone, PartialEq, Eq, Debug)]
pub struct Publish {
    pub channel: Channel,
    pub message: BusMessage,
}

/// A frame for one connection's own outbound stream.
#[derive(Clone, PartialEq, Eq, Debug)]
pub enum OutboundFrame {
    /// The acknowledgement every session sends first.
    Connected { user_id: u128, connection_id: u128 },
    /// An opaque serialized notification.
    Payload(String),
}

/// The channel that carries typing updates for the thread (post, parent).
pub open spec fn spec_typing_channel(post_id: u128, parent: Option<u128>) -> Channel {
    match parent {
        Some(parent_id) => Channel::CommentTyping(post_id, parent_id),
        None => Channel::PostTyping(post_id),
    }
}

/// Exec mirror of [`spec_typing_channel`].
pub fn typing_channel(post_id: u128, parent: Option<u128>) -> (r: Channel)
    ensures
        r == spec_typing_channel(post_id, parent),
{
    match parent {
        Some(parent_id) => Channel::CommentTyping(post_id, parent_id),
        None => Channel::PostTyping(post_id),
    }
}

/// Publish a message on one user's notification channel.
pub fn send_to_user(user_id: u128, message: String) -> (r: Publish)
    ensures
        r == (Publish {
            channel: Channel::UserNotifications(user_id),
            message: BusMessage::Payload(message),
        }),
{
    Publish { channel: Channel::UserNotifications(user_id), message: BusMessage::Payload(message) }
}

/// Publish a message to every connected session.
pub fn broadcast_global(message: String) -> (r: Publish)
    ensures
        r == (Publish {
            channel: Channel::GlobalNotifications,
            message: BusMessage::Payload(message),
        }),
{
    Publish { channel: Channel::GlobalNotifications, message: BusMessage::Payload(message) }
}

/// Publish a message on a community's update channel.
pub fn broadcast_to_community(community_id: u128, message: String) -> (r: Publish)
    ensures
        r == (Publish {
            channel: Channel::CommunityUpdates(community_id),
            message: BusMessage::Payload(message),
        }),
{
    Publish {
        channel: Channel::CommunityUpdates(community_id),
        message: BusMessage::Payload(message),
    }
}

/// The unread-count side channel: after any change that affects a user's
/// unread notification count, the new count goes to the user's channel,
/// independent of any notification payload.
pub fn notification_count_update(user_id: u128, count: u64) -> (r: Publish)
    ensures
        r == (Publish {
            channel: Channel::UserNotifications(user_id),
            message: BusMessage::NotificationCount(count),
        }),
{
    Publish {
        channel: Channel::UserNotifications(user_id),
        message: BusMessage::NotificationCount(count),
    }
}

} // verus!
