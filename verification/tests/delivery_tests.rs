use fanout_core::effects::broadcast_global;
use fanout_core::effects::broadcast_to_community;
use fanout_core::effects::notification_count_update;
use fanout_core::effects::send_to_user;
use fanout_core::effects::typing_channel;
use fanout_core::effects::BusMessage;
use fanout_core::effects::Channel;
use fanout_core::effects::OutboundFrame;
use fanout_core::engine::kind_of;
use fanout_core::engine::InboundKind;
use fanout_core::engine::InboundMessage;
use fanout_core::engine::RealtimeCore;
use fanout_core::registry::ConnectionRegistry;

use tokio::sync::broadcast::error::TryRecvError;

const U2: u128 = 0x2002;
const U3: u128 = 0x3003;
const POST: u128 = 0xb0;
const COMMUNITY: u128 = 0xcc;
const CONN: u128 = 0xffee;
const CONN2: u128 = 0xff22;

#[test]
fn scenario_offline_delivery_lands_in_queue() {
    let mut core = RealtimeCore::new();
    // No connection registered for U2.
    let (sent, publishes) = core.deliver(U2, "{\"title\":\"X\"}".to_string(), 10);
    assert!(!sent);
    assert_eq!(publishes.len(), 1);
    assert_eq!(publishes[0].channel, Channel::UserNotifications(U2));
    assert_eq!(
        publishes[0].message,
        BusMessage::Payload("{\"title\":\"X\"}".to_string())
    );
    // The payload is retrievable exactly once.
    assert_eq!(core.queues.drain(U2, 11), vec!["{\"title\":\"X\"}".to_string()]);
    assert_eq!(core.queues.drain(U2, 12), Vec::<String>::new());
}

#[test]
fn scenario_live_delivery_skips_queue() {
    let mut core = RealtimeCore::new();
    let (mut rx, frames) = core.connect(U3, CONN, 10);
    assert_eq!(frames, vec![OutboundFrame::Connected { user_id: U3, connection_id: CONN }]);
    let (sent, publishes) = core.deliver(U3, "msg".to_string(), 11);
    assert!(sent);
    assert!(publishes.is_empty());
    // The message arrives on the connection's outbound stream ...
    assert_eq!(rx.try_recv(), Ok("msg".to_string()));
    // ... and no queue entry was created.
    assert_eq!(core.queues.drain(U3, 12), Vec::<String>::new());
}

#[test]
fn p6_second_registration_closes_first_channel() {
    let mut registry = ConnectionRegistry::new();
    let mut rx1 = registry.register(U3, CONN);
    assert_eq!(registry.count(), 1);
    let mut rx2 = registry.register(U3, CONN2);
    // Still one entry: the registry replaced, it did not leak.
    assert_eq!(registry.count(), 1);
    // The first connection's receiver observes a closed channel, which
    // is what ends its outbound loop.
    assert_eq!(rx1.try_recv(), Err(TryRecvError::Closed));
    // The second connection is the live one.
    assert!(registry.try_send(U3, "hello".to_string()));
    assert_eq!(rx2.try_recv(), Ok("hello".to_string()));
}

#[test]
fn stale_unregister_spares_replacement_entry() {
    let mut registry = ConnectionRegistry::new();
    let _rx1 = registry.register(U3, CONN);
    let mut rx2 = registry.register(U3, CONN2);
    // The superseded connection's teardown arrives after the replacement:
    // its entry is gone already, so nothing may change.
    registry.unregister(U3, CONN);
    assert_eq!(registry.count(), 1);
    assert!(registry.is_registered(U3));
    assert!(registry.try_send(U3, "still here".to_string()));
    assert_eq!(rx2.try_recv(), Ok("still here".to_string()));
    // The owning connection's teardown does remove it.
    registry.unregister(U3, CONN2);
    assert_eq!(registry.count(), 0);
    assert!(!registry.is_registered(U3));
}

#[test]
fn send_to_dropped_receiver_reports_false() {
    let mut registry = ConnectionRegistry::new();
    let rx = registry.register(U3, CONN);
    drop(rx);
    assert!(!registry.try_send(U3, "x".to_string()));
    assert_eq!(registry.count(), 1);
}

#[test]
fn superseded_teardown_leaves_live_session_reachable() {
    let mut core = RealtimeCore::new();
    let (_rx1, _) = core.connect(U3, CONN, 0);
    let (mut rx2, _) = core.connect(U3, CONN2, 1);
    // The first session settles after being replaced; its teardown must
    // not cut the second session off from local push delivery.
    core.disconnect(U3, CONN);
    assert_eq!(core.registry.count(), 1);
    assert!(core.registry.is_registered(U3));
    let (sent, publishes) = core.deliver(U3, "live".to_string(), 2);
    assert!(sent);
    assert!(publishes.is_empty());
    assert_eq!(rx2.try_recv(), Ok("live".to_string()));
    core.disconnect(U3, CONN2);
    assert_eq!(core.registry.count(), 0);
}

#[test]
fn deliver_falls_back_when_receiver_gone() {
    let mut core = RealtimeCore::new();
    let (rx, _) = core.connect(U3, CONN, 0);
    drop(rx);
    let (sent, publishes) = core.deliver(U3, "queued".to_string(), 1);
    assert!(!sent);
    assert_eq!(publishes.len(), 1);
    assert_eq!(core.queues.drain(U3, 2), vec!["queued".to_string()]);
}

#[test]
fn connect_replays_missed_notifications_in_order() {
    let mut core = RealtimeCore::new();
    core.deliver(U2, "one".to_string(), 0);
    core.deliver(U2, "two".to_string(), 1);
    let (_rx, frames) = core.connect(U2, CONN, 2);
    assert_eq!(
        frames,
        vec![
            OutboundFrame::Connected { user_id: U2, connection_id: CONN },
            OutboundFrame::Payload("one".to_string()),
            OutboundFrame::Payload("two".to_string()),
        ]
    );
    // Drained on connect: nothing left in the queue.
    assert_eq!(core.queues.drain(U2, 3), Vec::<String>::new());
}

#[test]
fn connect_marks_online_and_mirrors() {
    let mut core = RealtimeCore::new();
    let (_rx, _frames) = core.connect(U3, CONN, 100);
    assert!(core.presence.is_online(U3, 399));
    assert!(!core.presence.is_online(U3, 400));
    assert_eq!(core.mirror.connections_of(U3, 101), vec![CONN]);
    assert!(core.registry.is_registered(U3));
}

#[test]
fn disconnect_tears_everything_down() {
    let mut core = RealtimeCore::new();
    let (_rx, _frames) = core.connect(U3, CONN, 0);
    core.handle_inbound(
        U3,
        InboundMessage {
            kind: InboundKind::StartTyping,
            post_id: Some(POST),
            parent_comment_id: None,
            community_id: None,
        },
        1,
    );
    assert!(core.typing.is_user_typing(U3, POST, None, 2));
    core.disconnect(U3, CONN);
    assert!(!core.registry.is_registered(U3));
    assert_eq!(core.registry.count(), 0);
    assert_eq!(core.mirror.connections_of(U3, 2), Vec::<u128>::new());
    assert!(!core.typing.is_user_typing(U3, POST, None, 2));
    // Presence ages out on its own; it is not cleared by teardown.
    assert!(core.presence.is_online(U3, 2));
}

#[test]
fn inbound_start_typing_publishes_snapshot() {
    let mut core = RealtimeCore::new();
    let publishes = core.handle_inbound(
        U3,
        InboundMessage {
            kind: InboundKind::StartTyping,
            post_id: Some(POST),
            parent_comment_id: None,
            community_id: None,
        },
        5,
    );
    assert_eq!(publishes.len(), 1);
    assert_eq!(publishes[0].channel, Channel::PostTyping(POST));
    match &publishes[0].message {
        BusMessage::TypingUpdate { post_id, parent_comment_id, users } => {
            assert_eq!(*post_id, POST);
            assert_eq!(*parent_comment_id, None);
            assert_eq!(users.len(), 1);
            assert_eq!(users[0].user_id, U3);
            assert_eq!(users[0].started_at, 5);
        }
        other => panic!("expected a typing update, got {:?}", other),
    }
}

#[test]
fn inbound_stop_typing_publishes_empty_snapshot() {
    let mut core = RealtimeCore::new();
    core.handle_inbound(
        U3,
        InboundMessage {
            kind: InboundKind::StartTyping,
            post_id: Some(POST),
            parent_comment_id: None,
            community_id: None,
        },
        5,
    );
    let publishes = core.handle_inbound(
        U3,
        InboundMessage {
            kind: InboundKind::StopTyping,
            post_id: Some(POST),
            parent_comment_id: None,
            community_id: None,
        },
        6,
    );
    assert_eq!(publishes.len(), 1);
    match &publishes[0].message {
        BusMessage::TypingUpdate { users, .. } => assert!(users.is_empty()),
        other => panic!("expected a typing update, got {:?}", other),
    }
}

#[test]
fn inbound_missing_post_id_is_ignored() {
    let mut core = RealtimeCore::new();
    let publishes = core.handle_inbound(
        U3,
        InboundMessage {
            kind: InboundKind::StartTyping,
            post_id: None,
            parent_comment_id: None,
            community_id: None,
        },
        5,
    );
    assert!(publishes.is_empty());
    assert_eq!(core.typing.len(), 0);
}

#[test]
fn inbound_community_join_and_leave() {
    let mut core = RealtimeCore::new();
    let join = InboundMessage {
        kind: InboundKind::JoinCommunity,
        post_id: None,
        parent_comment_id: None,
        community_id: Some(COMMUNITY),
    };
    assert!(core.handle_inbound(U3, join, 0).is_empty());
    assert_eq!(core.presence.community_online_count(COMMUNITY, 1), 1);
    let leave = InboundMessage {
        kind: InboundKind::LeaveCommunity,
        post_id: None,
        parent_comment_id: None,
        community_id: Some(COMMUNITY),
    };
    assert!(core.handle_inbound(U3, leave, 2).is_empty());
    assert_eq!(core.presence.community_online_count(COMMUNITY, 3), 0);
}

#[test]
fn inbound_heartbeat_refreshes_presence() {
    let mut core = RealtimeCore::new();
    let heartbeat = InboundMessage {
        kind: InboundKind::Heartbeat,
        post_id: None,
        parent_comment_id: None,
        community_id: None,
    };
    core.handle_inbound(U3, heartbeat, 1000);
    assert!(core.presence.is_online(U3, 1299));
    assert!(!core.presence.is_online(U3, 1300));
}

#[test]
fn inbound_unknown_changes_nothing() {
    let mut core = RealtimeCore::new();
    let unknown = InboundMessage {
        kind: InboundKind::Unknown,
        post_id: Some(POST),
        parent_comment_id: None,
        community_id: Some(COMMUNITY),
    };
    assert!(core.handle_inbound(U3, unknown, 0).is_empty());
    assert_eq!(core.typing.len(), 0);
    assert_eq!(core.presence.community_online_count(COMMUNITY, 1), 0);
}

#[test]
fn typing_channels_by_thread() {
    assert_eq!(typing_channel(POST, None), Channel::PostTyping(POST));
    assert_eq!(
        typing_channel(POST, Some(0x9)),
        Channel::CommentTyping(POST, 0x9)
    );
}

#[test]
fn publish_builders() {
    let p = send_to_user(U2, "n".to_string());
    assert_eq!(p.channel, Channel::UserNotifications(U2));
    assert_eq!(p.message, BusMessage::Payload("n".to_string()));

    let g = broadcast_global("g".to_string());
    assert_eq!(g.channel, Channel::GlobalNotifications);

    let c = broadcast_to_community(COMMUNITY, "c".to_string());
    assert_eq!(c.channel, Channel::CommunityUpdates(COMMUNITY));

    let n = notification_count_update(U2, 7);
    assert_eq!(n.channel, Channel::UserNotifications(U2));
    assert_eq!(n.message, BusMessage::NotificationCount(7));
}

#[test]
fn wire_kind_decoding() {
    assert_eq!(kind_of(&"start_typing".to_string()), InboundKind::StartTyping);
    assert_eq!(kind_of(&"stop_typing".to_string()), InboundKind::StopTyping);
    assert_eq!(kind_of(&"typing_heartbeat".to_string()), InboundKind::TypingHeartbeat);
    assert_eq!(kind_of(&"subscribe_to_post".to_string()), InboundKind::SubscribeToPost);
    assert_eq!(kind_of(&"join_community".to_string()), InboundKind::JoinCommunity);
    assert_eq!(kind_of(&"leave_community".to_string()), InboundKind::LeaveCommunity);
    assert_eq!(kind_of(&"heartbeat".to_string()), InboundKind::Heartbeat);
    assert_eq!(kind_of(&"something_else".to_string()), InboundKind::Unknown);
    assert_eq!(kind_of(&"".to_string()), InboundKind::Unknown);
}
