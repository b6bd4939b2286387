//! The fan-out core: delivery engine and connection session surface.
//!
//! [`RealtimeCore`] owns the four registers — connection registry, typing
//! register, presence store, offline queues — plus the cross-process
//! connection mirror, and exposes the operations a session or a
//! notification-producing handler calls. Mutating operations return the
//! bus publishes (and, on connect, the socket frames) that the caller
//! must perform; the core itself performs no I/O.

use vstd::prelude::*;

use crate::effects::BusMessage;
use crate::effects::Channel;
use crate::effects::OutboundFrame;
use crate::effects::Publish;
use crate::effects::spec_typing_channel;
use crate::effects::typing_channel;
use crate::mirror::ConnectionMirror;
use crate::mirror::MIRROR_TTL_SECS;
use crate::presence::PRESENCE_TTL_SECS;
use crate::presence::PresenceStore;
use crate::queue::OfflineQueues;
use crate::queue::QUEUE_TTL_SECS;
use crate::registry::ConnectionRegistry;
use crate::typing::TypingRegister;
use crate::typing::refreshed_where;
use crate::typing::snapshot_of;
use crate::typing::upserted;
use crate::typing::TypingIndicator;
use crate::typing::has_key;

use tokio::sync::broadcast::Receiver;

verus! {

/// Latest clock value every mutating core operation accepts: far enough
/// from overflow that any of the TTLs can still be added.
pub const CLOCK_MAX: u64 = 0xffff_ffff_ffff_ffff - 86400;

/// A control message a client sends over its connection, decoded at the
/// process edge into a closed set of kinds.
#[derive(Clone, Copy, PartialEq, Eq, Structural, Debug)]
pub enum InboundKind {
    StartTyping,
    StopTyping,
    TypingHeartbeat,
    SubscribeToPost,
    JoinCommunity,
    LeaveCommunity,
    Heartbeat,
    Unknown,
}

/// A decoded inbound message: the kind plus whichever ids the client
/// supplied. A message missing the id its kind needs is silently ignored.
#[derive(Clone, Copy, PartialEq, Eq, Structural, Debug)]
pub struct InboundMessage {
    pub kind: InboundKind,
    pub post_id: Option<u128>,
    pub parent_comment_id: Option<u128>,
    pub community_id: Option<u128>,
}

/// The kind named by a wire message's `type` field; anything not in the
/// table is `Unknown` and will be ignored.
pub open spec fn spec_kind_of(s: Seq<char>) -> InboundKind {
    if s == "start_typing"@ {
        InboundKind::StartTyping
    } else if s == "stop_typing"@ {
        InboundKind::StopTyping
    } else if s == "typing_heartbeat"@ {
        InboundKind::TypingHeartbeat
    } else if s == "subscribe_to_post"@ {
        InboundKind::SubscribeToPost
    } else if s == "join_community"@ {
        InboundKind::JoinCommunity
    } else if s == "leave_community"@ {
        InboundKind::LeaveCommunity
    } else if s == "heartbeat"@ {
        InboundKind::Heartbeat
    } else {
        InboundKind::Unknown
    }
}

/// Exec mirror of [`spec_kind_of`]: decode a wire message's `type` field.
pub fn kind_of(s: &String) -> (r: InboundKind)
    ensures
        r == spec_kind_of(s@),
{
    if s.eq(&String::from_str("start_typing")) {
        InboundKind::StartTyping
    } else if s.eq(&String::from_str("stop_typing")) {
        InboundKind::StopTyping
    } else if s.eq(&String::from_str("typing_heartbeat")) {
        InboundKind::TypingHeartbeat
    } else if s.eq(&String::from_str("subscribe_to_post")) {
        InboundKind::SubscribeToPost
    } else if s.eq(&String::from_str("join_community")) {
        InboundKind::JoinCommunity
    } else if s.eq(&String::from_str("leave_community")) {
        InboundKind::LeaveCommunity
    } else if s.eq(&String::from_str("heartbeat")) {
        InboundKind::Heartbeat
    } else {
        InboundKind::Unknown
    }
}

/// The whole per-process state of the fan-out core.
pub struct RealtimeCore {
    pub registry: ConnectionRegistry,
    pub typing: TypingRegister,
    pub presence: PresenceStore,
    pub queues: OfflineQueues,
    pub mirror: ConnectionMirror,
}

impl RealtimeCore {
    pub open spec fn wf(&self) -> bool {
        self.registry.wf() && self.typing.wf() && self.presence.wf() && self.queues.wf()
            && self.mirror.wf()
    }

    pub fn new() -> (r: Self)
        ensures
            r.wf(),
            forall|u: u128| !r.registry.registered(u),
            r.registry.spec_count() == 0,
            r.typing@ == Seq::<TypingIndicator>::empty(),
            forall|u: u128, t: u64| !r.presence.online_at(u, t),
            forall|c: u128, u: u128, t: u64| !r.presence.community_has(c, u, t),
            forall|u: u128, t: u64| r.queues.pending(u, t) == Seq::<String>::empty(),
            forall|u: u128, c: u128, t: u64| !r.mirror.mirrored(u, c, t),
    {
        RealtimeCore {
            registry: ConnectionRegistry::new(),
            typing: TypingRegister::new(),
            presence: PresenceStore::new(),
            queues: OfflineQueues::new(),
            mirror: ConnectionMirror::new(),
        }
    }

    /// Deliver a notification: push it to the recipient's live connection
    /// if the registry accepts it; otherwise — no entry, or a dead
    /// channel — queue it for the next connect *and* publish it on the
    /// recipient's bus channel for any other process holding a live
    /// connection. The dual write is deliberate: the publish is
    /// fire-and-forget, the queue survives, so delivery is at-least-once
    /// and consumers de-duplicate by notification id if they must.
    pub fn deliver(&mut self, recipient_id: u128, payload: String, now: u64) -> (r: (
        bool,
        Vec<Publish>,
    ))
        requires
            old(self).wf(),
            now <= CLOCK_MAX,
        ensures
            final(self).wf(),
            !old(self).registry.registered(recipient_id) ==> !r.0,
            r.0 ==> *final(self) == *old(self) && r.1@ == Seq::<Publish>::empty(),
            !r.0 ==> {
                &&& forall|t: u64|
                    final(self).queues.pending(recipient_id, t) == if t < now + QUEUE_TTL_SECS {
                        old(self).queues.pending(recipient_id, now).push(payload)
                    } else {
                        Seq::<String>::empty()
                    }
                &&& forall|u: u128, t: u64|
                    u != recipient_id ==> final(self).queues.pending(u, t) == old(
                        self,
                    ).queues.pending(u, t)
                &&& r.1@ == seq![
                    Publish {
                        channel: Channel::UserNotifications(recipient_id),
                        message: BusMessage::Payload(payload),
                    },
                ]
                &&& final(self).registry == old(self).registry
                &&& final(self).typing == old(self).typing
                &&& final(self).presence == old(self).presence
                &&& final(self).mirror == old(self).mirror
            },
    {
        let sent = self.registry.try_send(recipient_id, payload.clone());
        if sent {
            (true, Vec::new())
        } else {
            self.queues.enqueue(recipient_id, payload.clone(), now);
            let mut publishes: Vec<Publish> = Vec::new();
            publishes.push(
                Publish {
                    channel: Channel::UserNotifications(recipient_id),
                    message: BusMessage::Payload(payload),
                },
            );
            proof {
                assert(publishes@ =~= seq![
                    Publish {
                        channel: Channel::UserNotifications(recipient_id),
                        message: BusMessage::Payload(payload),
                    },
                ]);
            }
            (false, publishes)
        }
    }

    /// Start typing and broadcast the thread's fresh snapshot — the full
    /// list re-read after the upsert, never a delta.
    pub fn start_typing(
        &mut self,
        user_id: u128,
        post_id: u128,
        parent: Option<u128>,
        now: u64,
    ) -> (p: Publish)
        requires
            old(self).wf(),
        ensures
            final(self).wf(),
            final(self).typing@ == upserted(old(self).typing@, user_id, post_id, parent, now),
            p == (Publish {
                channel: spec_typing_channel(post_id, parent),
                message: BusMessage::TypingUpdate {
                    post_id,
                    parent_comment_id: parent,
                    users: p.message->TypingUpdate_users,
                },
            }),
            p.message->TypingUpdate_users@ == snapshot_of(
                final(self).typing@,
                post_id,
                parent,
                now,
            ),
            final(self).registry == old(self).registry,
            final(self).presence == old(self).presence,
            final(self).queues == old(self).queues,
            final(self).mirror == old(self).mirror,
    {
        self.typing.start_typing(user_id, post_id, parent, now);
        let users = self.typing.get_typing_users(post_id, parent, now);
        Publish {
            channel: typing_channel(post_id, parent),
            message: BusMessage::TypingUpdate { post_id, parent_comment_id: parent, users },
        }
    }

    /// Stop typing — the exact key only — and broadcast the thread's
    /// fresh snapshot whether or not an indicator existed.
    pub fn stop_typing(
        &mut self,
        user_id: u128,
        post_id: u128,
        parent: Option<u128>,
        now: u64,
    ) -> (p: Publish)
        requires
            old(self).wf(),
        ensures
            final(self).wf(),
            final(self).typing@ == old(self).typing@.filter(
                |i: TypingIndicator| !has_key(i, user_id, post_id, parent),
            ),
            p == (Publish {
                channel: spec_typing_channel(post_id, parent),
                message: BusMessage::TypingUpdate {
                    post_id,
                    parent_comment_id: parent,
                    users: p.message->TypingUpdate_users,
                },
            }),
            p.message->TypingUpdate_users@ == snapshot_of(
                final(self).typing@,
                post_id,
                parent,
                now,
            ),
            final(self).registry == old(self).registry,
            final(self).presence == old(self).presence,
            final(self).queues == old(self).queues,
            final(self).mirror == old(self).mirror,
    {
        self.typing.stop_typing(user_id, post_id, parent);
        let users = self.typing.get_typing_users(post_id, parent, now);
        Publish {
            channel: typing_channel(post_id, parent),
            message: BusMessage::TypingUpdate { post_id, parent_comment_id: parent, users },
        }
    }

    /// Typing heartbeat: refresh the indicator's last activity without a
    /// broadcast.
    pub fn typing_heartbeat(&mut self, user_id: u128, post_id: u128, parent: Option<u128>, now: u64)
        requires
            old(self).wf(),
        ensures
            final(self).wf(),
            final(self).typing@ == refreshed_where(
                old(self).typing@,
                user_id,
                post_id,
                parent,
                now,
            ),
            final(self).registry == old(self).registry,
            final(self).presence == old(self).presence,
            final(self).queues == old(self).queues,
            final(self).mirror == old(self).mirror,
    {
        self.typing.update_activity(user_id, post_id, parent, now);
    }

    /// Open a session: register the connection (replacing any previous
    /// one for the user), mark the user online, mirror the connection id
    /// for peers, and drain the offline queue. The frames to send first
    /// are the `connected` acknowledgement followed by every queued
    /// notification in the order it was queued — a reconnecting client
    /// sees what it missed before any new live traffic.
    pub fn connect(&mut self, user_id: u128, connection_id: u128, now: u64) -> (r: (
        Receiver<String>,
        Vec<OutboundFrame>,
    ))
        requires
            old(self).wf(),
            now <= CLOCK_MAX,
        ensures
            final(self).wf(),
            final(self).registry.registered(user_id),
            forall|c: u128| final(self).registry.owned_by(user_id, c) == (c == connection_id),
            forall|u: u128|
                u != user_id ==> final(self).registry.registered(u) == old(
                    self,
                ).registry.registered(u),
            forall|u: u128, c: u128|
                u != user_id ==> final(self).registry.owned_by(u, c) == old(
                    self,
                ).registry.owned_by(u, c),
            final(self).registry.spec_count() == old(self).registry.spec_count() + (if old(
                self,
            ).registry.registered(user_id) {
                0int
            } else {
                1int
            }),
            forall|t: u64|
                final(self).presence.online_at(user_id, t) == (t < now + PRESENCE_TTL_SECS),
            forall|u: u128, t: u64|
                u != user_id ==> final(self).presence.online_at(u, t) == old(
                    self,
                ).presence.online_at(u, t),
            forall|c: u128, u: u128, t: u64|
                final(self).presence.community_has(c, u, t) == old(self).presence.community_has(
                    c,
                    u,
                    t,
                ),
            forall|t: u64|
                final(self).mirror.mirrored(user_id, connection_id, t) == (t < now
                    + MIRROR_TTL_SECS),
            forall|u: u128, c: u128, t: u64|
                !(u == user_id && c == connection_id) ==> final(self).mirror.mirrored(u, c, t)
                    == old(self).mirror.mirrored(u, c, t),
            forall|t: u64| final(self).queues.pending(user_id, t) == Seq::<String>::empty(),
            forall|u: u128, t: u64|
                u != user_id ==> final(self).queues.pending(u, t) == old(self).queues.pending(
                    u,
                    t,
                ),
            r.1@ == seq![OutboundFrame::Connected { user_id, connection_id }] + old(
                self,
            ).queues.pending(user_id, now).map_values(|p: String| OutboundFrame::Payload(p)),
            final(self).typing == old(self).typing,
    {
        let rx = self.registry.register(user_id, connection_id);
        self.presence.mark_online(user_id, now);
        self.mirror.register_connection(user_id, connection_id, now);
        let queued = self.queues.drain(user_id, now);
        let ghost qseq = queued@;
        let mut frames: Vec<OutboundFrame> = Vec::new();
        frames.push(OutboundFrame::Connected { user_id, connection_id });
        let n = queued.len();
        let mut i: usize = 0;
        proof {
            assert(frames@ =~= seq![OutboundFrame::Connected { user_id, connection_id }]
                + qseq.take(0).map_values(|p: String| OutboundFrame::Payload(p)));
        }
        while i < n
            invariant
                n == qseq.len(),
                0 <= i <= n,
                queued@ == qseq,
                frames@ == seq![OutboundFrame::Connected { user_id, connection_id }] + qseq.take(
                    i as int,
                ).map_values(|p: String| OutboundFrame::Payload(p)),
            decreases n - i,
        {
            let item = queued[i].clone();
            frames.push(OutboundFrame::Payload(item));
            proof {
                let f = |p: String| OutboundFrame::Payload(p);
                assert(qseq.take(i + 1) =~= qseq.take(i as int).push(qseq[i as int]));
                assert(qseq.take(i + 1).map_values(f) =~= qseq.take(i as int).map_values(f).push(
                    f(qseq[i as int]),
                ));
                assert(frames@ =~= seq![OutboundFrame::Connected { user_id, connection_id }]
                    + qseq.take(i + 1).map_values(f));
            }
            i += 1;
        }
        proof {
            assert(qseq.take(n as int) =~= qseq);
        }
        (rx, frames)
    }

    /// Close a session, reached exactly once per connection whatever
    /// ended it: remove this connection's registry entry — only if it
    /// still owns it, so a superseded session's late teardown never
    /// evicts the session that replaced it — drop the mirrored
    /// connection id, and clean up every typing indicator of the user so
    /// a disconnected user never appears to type forever. Presence is
    /// left to age out on its own.
    pub fn disconnect(&mut self, user_id: u128, connection_id: u128)
        requires
            old(self).wf(),
        ensures
            final(self).wf(),
            old(self).registry.owned_by(user_id, connection_id) ==> {
                &&& !final(self).registry.registered(user_id)
                &&& forall|c: u128| !final(self).registry.owned_by(user_id, c)
                &&& final(self).registry.spec_count() == old(self).registry.spec_count() - 1
            },
            !old(self).registry.owned_by(user_id, connection_id) ==> final(self).registry == old(
                self,
            ).registry,
            forall|u: u128|
                u != user_id ==> final(self).registry.registered(u) == old(
                    self,
                ).registry.registered(u),
            forall|u: u128, c: u128|
                u != user_id ==> final(self).registry.owned_by(u, c) == old(
                    self,
                ).registry.owned_by(u, c),
            forall|t: u64| !final(self).mirror.mirrored(user_id, connection_id, t),
            forall|u: u128, c: u128, t: u64|
                !(u == user_id && c == connection_id) ==> final(self).mirror.mirrored(u, c, t)
                    == old(self).mirror.mirrored(u, c, t),
            final(self).typing@ == old(self).typing@.filter(
                |i: TypingIndicator| i.user_id != user_id,
            ),
            final(self).presence == old(self).presence,
            final(self).queues == old(self).queues,
    {
        self.registry.unregister(user_id, connection_id);
        self.mirror.unregister_connection(user_id, connection_id);
        let _ = self.typing.cleanup_for_user(user_id);
    }

    /// The inbound dispatch table: one decoded client message against the
    /// registers. A kind whose required id is missing changes nothing;
    /// `SubscribeToPost` is reserved and `Unknown` is ignored, so
    /// malformed input never errors and never desynchronizes a session.
    pub fn handle_inbound(&mut self, user_id: u128, msg: InboundMessage, now: u64) -> (r: Vec<
        Publish,
    >)
        requires
            old(self).wf(),
            now <= CLOCK_MAX,
        ensures
            final(self).wf(),
            final(self).registry == old(self).registry,
            final(self).queues == old(self).queues,
            final(self).mirror == old(self).mirror,
            match (msg.kind, msg.post_id, msg.community_id) {
                (InboundKind::StartTyping, Some(post_id), _) => {
                    &&& final(self).typing@ == upserted(
                        old(self).typing@,
                        user_id,
                        post_id,
                        msg.parent_comment_id,
                        now,
                    )
                    &&& final(self).presence == old(self).presence
                    &&& r@.len() == 1
                    &&& r@[0].channel == spec_typing_channel(post_id, msg.parent_comment_id)
                    &&& r@[0].message == (BusMessage::TypingUpdate {
                        post_id,
                        parent_comment_id: msg.parent_comment_id,
                        users: r@[0].message->TypingUpdate_users,
                    })
                    &&& r@[0].message->TypingUpdate_users@ == snapshot_of(
                        final(self).typing@,
                        post_id,
                        msg.parent_comment_id,
                        now,
                    )
                },
                (InboundKind::StopTyping, Some(post_id), _) => {
                    &&& final(self).typing@ == old(self).typing@.filter(
                        |i: TypingIndicator| !has_key(i, user_id, post_id, msg.parent_comment_id),
                    )
                    &&& final(self).presence == old(self).presence
                    &&& r@.len() == 1
                    &&& r@[0].channel == spec_typing_channel(post_id, msg.parent_comment_id)
                    &&& r@[0].message == (BusMessage::TypingUpdate {
                        post_id,
                        parent_comment_id: msg.parent_comment_id,
                        users: r@[0].message->TypingUpdate_users,
                    })
                    &&& r@[0].message->TypingUpdate_users@ == snapshot_of(
                        final(self).typing@,
                        post_id,
                        msg.parent_comment_id,
                        now,
                    )
                },
                (InboundKind::TypingHeartbeat, Some(post_id), _) => {
                    &&& final(self).typing@ == refreshed_where(
                        old(self).typing@,
                        user_id,
                        post_id,
                        msg.parent_comment_id,
                        now,
                    )
                    &&& final(self).presence == old(self).presence
                    &&& r@ == Seq::<Publish>::empty()
                },
                (InboundKind::JoinCommunity, _, Some(community_id)) => {
                    &&& final(self).typing == old(self).typing
                    &&& forall|t: u64|
                        final(self).presence.community_has(community_id, user_id, t) == (t < now
                            + PRESENCE_TTL_SECS)
                    &&& forall|c: u128, u: u128, t: u64|
                        !(c == community_id && u == user_id) ==> final(self).presence.community_has(c, u, t) == old(self).presence.community_has(
                            c,
                            u,
                            t,
                        )
                    &&& forall|u: u128, t: u64|
                        final(self).presence.online_at(u, t) == old(self).presence.online_at(u, t)
                    &&& r@ == Seq::<Publish>::empty()
                },
                (InboundKind::LeaveCommunity, _, Some(community_id)) => {
                    &&& final(self).typing == old(self).typing
                    &&& forall|t: u64| !final(self).presence.community_has(community_id, user_id, t)
                    &&& forall|c: u128, u: u128, t: u64|
                        !(c == community_id && u == user_id) ==> final(self).presence.community_has(c, u, t) == old(self).presence.community_has(
                            c,
                            u,
                            t,
                        )
                    &&& forall|u: u128, t: u64|
                        final(self).presence.online_at(u, t) == old(self).presence.online_at(u, t)
                    &&& r@ == Seq::<Publish>::empty()
                },
                (InboundKind::Heartbeat, _, _) => {
                    &&& final(self).typing == old(self).typing
                    &&& forall|t: u64|
                        final(self).presence.online_at(user_id, t) == (t < now
                            + PRESENCE_TTL_SECS)
                    &&& forall|u: u128, t: u64|
                        u != user_id ==> final(self).presence.online_at(u, t) == old(
                            self,
                        ).presence.online_at(u, t)
                    &&& forall|c: u128, u: u128, t: u64|
                        final(self).presence.community_has(c, u, t) == old(
                            self,
                        ).presence.community_has(c, u, t)
                    &&& r@ == Seq::<Publish>::empty()
                },
                _ => {
                    &&& final(self).typing == old(self).typing
                    &&& final(self).presence == old(self).presence
                    &&& r@ == Seq::<Publish>::empty()
                },
            },
    {
        match msg.kind {
            InboundKind::StartTyping => {
                match msg.post_id {
                    Some(post_id) => {
                        let p = self.start_typing(user_id, post_id, msg.parent_comment_id, now);
                        let mut out: Vec<Publish> = Vec::new();
                        out.push(p);
                        out
                    }
                    None => Vec::new(),
                }
            }
            InboundKind::StopTyping => {
                match msg.post_id {
                    Some(post_id) => {
                        let p = self.stop_typing(user_id, post_id, msg.parent_comment_id, now);
                        let mut out: Vec<Publish> = Vec::new();
                        out.push(p);
                        out
                    }
                    None => Vec::new(),
                }
            }
            InboundKind::TypingHeartbeat => {
                match msg.post_id {
                    Some(post_id) => {
                        self.typing_heartbeat(user_id, post_id, msg.parent_comment_id, now);
                        Vec::new()
                    }
                    None => Vec::new(),
                }
            }
            InboundKind::JoinCommunity => {
                match msg.community_id {
                    Some(community_id) => {
                        self.presence.join_community(community_id, user_id, now);
                        Vec::new()
                    }
                    None => Vec::new(),
                }
            }
            InboundKind::LeaveCommunity => {
                match msg.community_id {
                    Some(community_id) => {
                        self.presence.leave_community(community_id, user_id);
                        Vec::new()
                    }
                    None => Vec::new(),
                }
            }
            InboundKind::Heartbeat => {
                self.presence.mark_online(user_id, now);
                Vec::new()
            }
            InboundKind::SubscribeToPost => Vec::new(),
            InboundKind::Unknown => Vec::new(),
        }
    }

    /// How many users this process holds a live registry entry for — a
    /// process-local metric, not a cluster-wide truth.
    pub fn get_online_count(&self) -> (r: usize)
        ensures
            r == self.registry.spec_count(),
    {
        self.registry.count()
    }

    /// Point-in-time snapshot for REST callers: the typing users of one
    /// thread, first to start first.
    pub fn get_typing_users(&self, post_id: u128, parent: Option<u128>, now: u64) -> (r: Vec<
        crate::typing::TypingUser,
    >)
        ensures
            r@ == snapshot_of(self.typing@, post_id, parent, now),
    {
        self.typing.get_typing_users(post_id, parent, now)
    }

    /// Point-in-time count of a community's live members.
    pub fn get_community_online_count(&self, community_id: u128, now: u64) -> (r: u64)
        ensures
            r == self.presence.community_live(community_id, now).len(),
    {
        self.presence.community_online_count(community_id, now)
    }

    /// Point-in-time list of a community's live members.
    pub fn get_community_online_users(&self, community_id: u128, now: u64) -> (r: Vec<u128>)
        ensures
            r@ == self.presence.community_live(community_id, now),
    {
        self.presence.community_online_users(community_id, now)
    }
}

} // verus!
