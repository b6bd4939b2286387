use fanout_core::presence::PresenceStore;

const U4: u128 = 0x44;
const U5: u128 = 0x55;
const COMMUNITY: u128 = 0xcc;

#[test]
fn p7_presence_expires_without_refresh() {
    let mut store = PresenceStore::new();
    store.mark_online(U4, 0);
    assert!(store.is_online(U4, 0));
    assert!(store.is_online(U4, 299));
    // The TTL is 300 s: one tick past it the marker is gone.
    assert!(!store.is_online(U4, 300));
    assert!(!store.is_online(U4, 1000));
}

#[test]
fn p7_refresh_keeps_online() {
    let mut store = PresenceStore::new();
    store.mark_online(U4, 0);
    store.mark_online(U4, 250);
    assert!(store.is_online(U4, 300));
    assert!(store.is_online(U4, 549));
    assert!(!store.is_online(U4, 550));
}

#[test]
fn set_offline_removes_marker() {
    let mut store = PresenceStore::new();
    store.mark_online(U4, 0);
    store.mark_online(U5, 0);
    store.set_offline(U4);
    assert!(!store.is_online(U4, 1));
    assert!(store.is_online(U5, 1));
}

#[test]
fn scenario_community_member_expires() {
    let mut store = PresenceStore::new();
    // U4 and U5 join community presence at different times.
    store.join_community(COMMUNITY, U4, 0);
    store.join_community(COMMUNITY, U5, 100);
    assert_eq!(store.community_online_count(COMMUNITY, 150), 2);
    // U4's membership expires at 300; U5 lives until 400.
    assert_eq!(store.community_online_count(COMMUNITY, 350), 1);
    assert_eq!(store.community_online_users(COMMUNITY, 350), vec![U5]);
    assert_eq!(store.community_online_count(COMMUNITY, 400), 0);
}

#[test]
fn leave_community_removes_member() {
    let mut store = PresenceStore::new();
    store.join_community(COMMUNITY, U4, 0);
    store.join_community(COMMUNITY, U5, 0);
    store.leave_community(COMMUNITY, U4);
    assert_eq!(store.community_online_count(COMMUNITY, 1), 1);
    assert_eq!(store.community_online_users(COMMUNITY, 1), vec![U5]);
}

#[test]
fn rejoin_refreshes_membership() {
    let mut store = PresenceStore::new();
    store.join_community(COMMUNITY, U4, 0);
    store.join_community(COMMUNITY, U4, 200);
    assert_eq!(store.community_online_count(COMMUNITY, 350), 1);
    assert_eq!(store.community_online_count(COMMUNITY, 500), 0);
}

#[test]
fn communities_are_independent() {
    let mut store = PresenceStore::new();
    let other: u128 = 0xdd;
    store.join_community(COMMUNITY, U4, 0);
    store.join_community(other, U5, 0);
    assert_eq!(store.community_online_users(COMMUNITY, 1), vec![U4]);
    assert_eq!(store.community_online_users(other, 1), vec![U5]);
    store.leave_community(COMMUNITY, U4);
    assert_eq!(store.community_online_count(other, 1), 1);
}

#[test]
fn online_marker_is_per_user() {
    let mut store = PresenceStore::new();
    store.mark_online(U4, 0);
    assert!(!store.is_online(U5, 1));
}
