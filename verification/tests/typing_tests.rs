use fanout_core::typing::TypingRegister;
use fanout_core::typing::TypingUser;

const U1: u128 = 0x11;
const U2: u128 = 0x22;
const U3: u128 = 0x33;
const POST: u128 = 0xb0;
const PARENT: u128 = 0xc0ffee;

#[test]
fn p1_stop_typing_none_spares_some() {
    let mut reg = TypingRegister::new();
    reg.start_typing(U1, POST, Some(PARENT), 10);
    reg.start_typing(U1, POST, None, 10);
    assert_eq!(reg.len(), 2);

    reg.stop_typing(U1, POST, None);
    assert_eq!(reg.len(), 1);
    assert!(reg.is_user_typing(U1, POST, Some(PARENT), 11));
    assert!(!reg.is_user_typing(U1, POST, None, 11));
}

#[test]
fn p1_stop_typing_some_spares_none() {
    let mut reg = TypingRegister::new();
    reg.start_typing(U1, POST, Some(PARENT), 10);
    reg.start_typing(U1, POST, None, 10);

    reg.stop_typing(U1, POST, Some(PARENT));
    assert_eq!(reg.len(), 1);
    assert!(!reg.is_user_typing(U1, POST, Some(PARENT), 11));
    assert!(reg.is_user_typing(U1, POST, None, 11));
}

#[test]
fn p2_stale_indicator_excluded_without_stop() {
    let mut reg = TypingRegister::new();
    reg.start_typing(U1, POST, None, 0);
    assert_eq!(reg.get_typing_users(POST, None, 29).len(), 1);
    // 30 seconds after the last activity the indicator no longer shows,
    // though it was never stopped.
    assert_eq!(reg.get_typing_users(POST, None, 30).len(), 0);
    assert_eq!(reg.get_typing_users(POST, None, 31).len(), 0);
    // It is still stored until a sweep removes it.
    assert_eq!(reg.len(), 1);
    assert_eq!(reg.cleanup_expired(31), 1);
    assert_eq!(reg.len(), 0);
}

#[test]
fn p3_snapshot_ordered_by_start() {
    let mut reg = TypingRegister::new();
    reg.start_typing(U2, POST, None, 2);
    reg.start_typing(U1, POST, None, 1);
    reg.start_typing(U3, POST, None, 3);
    let snap = reg.get_typing_users(POST, None, 4);
    assert_eq!(
        snap,
        vec![
            TypingUser { user_id: U1, started_at: 1 },
            TypingUser { user_id: U2, started_at: 2 },
            TypingUser { user_id: U3, started_at: 3 },
        ]
    );
}

#[test]
fn p3_three_users_in_order() {
    let mut reg = TypingRegister::new();
    reg.start_typing(U1, POST, None, 5);
    reg.start_typing(U2, POST, None, 6);
    reg.start_typing(U3, POST, None, 7);
    let snap = reg.get_typing_users(POST, None, 8);
    let ids: Vec<u128> = snap.iter().map(|t| t.user_id).collect();
    assert_eq!(ids, vec![U1, U2, U3]);
}

#[test]
fn scenario_heartbeat_extends_visibility() {
    let mut reg = TypingRegister::new();
    // U1 starts typing on the post at t = 0.
    reg.start_typing(U1, POST, None, 0);
    let snap = reg.get_typing_users(POST, None, 0);
    assert_eq!(snap.len(), 1);
    assert_eq!(snap[0].user_id, U1);
    // Heartbeat at t + 20.
    reg.update_activity(U1, POST, None, 20);
    // At t + 35 — 15 s after the heartbeat — U1 still shows.
    let snap = reg.get_typing_users(POST, None, 35);
    assert_eq!(snap.len(), 1);
    assert_eq!(snap[0].started_at, 0);
    // At t + 55 U1 has disappeared.
    assert_eq!(reg.get_typing_users(POST, None, 55).len(), 0);
}

#[test]
fn restart_refreshes_but_keeps_start_time() {
    let mut reg = TypingRegister::new();
    reg.start_typing(U1, POST, None, 0);
    reg.start_typing(U1, POST, None, 25);
    assert_eq!(reg.len(), 1);
    let snap = reg.get_typing_users(POST, None, 40);
    assert_eq!(snap.len(), 1);
    assert_eq!(snap[0].started_at, 0);
}

#[test]
fn heartbeat_never_creates() {
    let mut reg = TypingRegister::new();
    reg.update_activity(U1, POST, None, 5);
    assert_eq!(reg.len(), 0);
    assert!(!reg.is_user_typing(U1, POST, None, 5));
}

#[test]
fn snapshot_is_per_thread() {
    let mut reg = TypingRegister::new();
    reg.start_typing(U1, POST, None, 1);
    reg.start_typing(U2, POST, Some(PARENT), 2);
    let top = reg.get_typing_users(POST, None, 3);
    assert_eq!(top.len(), 1);
    assert_eq!(top[0].user_id, U1);
    let thread = reg.get_typing_users(POST, Some(PARENT), 3);
    assert_eq!(thread.len(), 1);
    assert_eq!(thread[0].user_id, U2);
}

#[test]
fn cleanup_for_user_sweeps_every_thread() {
    let mut reg = TypingRegister::new();
    reg.start_typing(U1, POST, None, 1);
    reg.start_typing(U1, POST, Some(PARENT), 2);
    reg.start_typing(U2, POST, None, 3);
    assert_eq!(reg.cleanup_for_user(U1), 2);
    assert_eq!(reg.len(), 1);
    assert!(reg.is_user_typing(U2, POST, None, 4));
}

#[test]
fn cleanup_for_context_sweeps_one_thread() {
    let mut reg = TypingRegister::new();
    reg.start_typing(U1, POST, None, 1);
    reg.start_typing(U2, POST, Some(PARENT), 2);
    assert_eq!(reg.cleanup_for_context(POST, Some(PARENT)), 1);
    assert!(reg.is_user_typing(U1, POST, None, 3));
    assert!(!reg.is_user_typing(U2, POST, Some(PARENT), 3));
}

#[test]
fn threads_of_user_lists_keys() {
    let mut reg = TypingRegister::new();
    reg.start_typing(U1, POST, None, 1);
    reg.start_typing(U1, POST, Some(PARENT), 2);
    let threads = reg.threads_of_user(U1);
    assert_eq!(threads, vec![(POST, None), (POST, Some(PARENT))]);
}

#[test]
fn ttl_boundary_hides_before_sweeping() {
    let mut reg = TypingRegister::new();
    reg.start_typing(U1, POST, None, 0);
    // Exactly at the TTL the indicator is already hidden from readers
    // but not yet old enough for the sweep to delete it.
    assert_eq!(reg.get_typing_users(POST, None, 30).len(), 0);
    assert_eq!(reg.cleanup_expired(30), 0);
    assert_eq!(reg.len(), 1);
    // One tick later the sweep takes it.
    assert_eq!(reg.cleanup_expired(31), 1);
    assert_eq!(reg.len(), 0);
}
