//! Process-local connection registry.
//!
//! One entry per currently connected user, mapping the user to the
//! sending half of that connection's outbound broadcast channel, tagged
//! with the connection that owns it. A second connection for the same
//! user replaces the entry — dropping the old sender, whose receiver
//! then observes a closed channel and lets the old session's outbound
//! loop end — so the registry never holds more than one entry per user.
//! Removal is keyed by the owning connection: a superseded session's
//! teardown, arriving after its entry was replaced, leaves the
//! replacement's entry in place. Sends are best-effort: a missing entry
//! or a send on a channel whose receiver is gone reports `false` and the
//! caller falls back to the offline queue.

use vstd::prelude::*;

use tokio::sync::broadcast::Receiver;
use tokio::sync::broadcast::Sender;

verus! {

#[verifier::external_type_specification]
#[verifier::external_body]
#[verifier::reject_recursive_types(T)]
pub struct ExSender<T>(Sender<T>);

#[verifier::external_type_specification]
#[verifier::external_body]
#[verifier::reject_recursive_types(T)]
pub struct ExReceiver<T>(Receiver<T>);

/// Buffered outbound messages per connection before a slow client lags.
pub const CHANNEL_CAPACITY: usize = 100;

/// Relies on tokio::sync::broadcast::channel: yields the connected
/// sender/receiver pair of a fresh channel; it panics only on a capacity
/// of zero or above half `usize::MAX`, which the bound here rules out.
#[verifier::external_body]
fn broadcast_channel(capacity: usize) -> (r: (Sender<String>, Receiver<String>))
    requires
        1 <= capacity <= usize::MAX / 2,
{
    tokio::sync::broadcast::channel(capacity)
}

/// Relies on tokio::sync::broadcast::Sender::send: Ok exactly when some
/// receiver is still live, Err when none is. Which of the two happens
/// depends on the channel's runtime state, so nothing is claimed of the
/// result.
#[verifier::external_body]
fn sender_send(tx: &Sender<String>, message: String) -> (r: bool) {
    tx.send(message).is_ok()
}

/// One user's live entry: the connection that owns it and its sender.
struct ConnectionEntry {
    user_id: u128,
    connection_id: u128,
    sender: Sender<String>,
}

/// The per-process map from connected user to outbound sender.
pub struct ConnectionRegistry {
    connections: Vec<ConnectionEntry>,
}

impl ConnectionRegistry {
    /// At most one entry per user.
    pub closed spec fn wf(&self) -> bool {
        forall|i: int, j: int|
            0 <= i < j < self.connections@.len() ==> self.connections@[i].user_id
                != self.connections@[j].user_id
    }

    /// The user has a registry entry.
    pub closed spec fn registered(&self, user_id: u128) -> bool {
        exists|i: int|
            0 <= i < self.connections@.len() && self.connections@[i].user_id == user_id
    }

    /// The user's entry exists and is owned by this connection.
    pub closed spec fn owned_by(&self, user_id: u128, connection_id: u128) -> bool {
        exists|i: int|
            0 <= i < self.connections@.len() && self.connections@[i].user_id == user_id
                && self.connections@[i].connection_id == connection_id
    }

    /// Number of entries.
    pub closed spec fn spec_count(&self) -> nat {
        self.connections@.len()
    }

    pub fn new() -> (r: Self)
        ensures
            r.wf(),
            forall|u: u128| !r.registered(u),
            forall|u: u128, c: u128| !r.owned_by(u, c),
            r.spec_count() == 0,
    {
        ConnectionRegistry { connections: Vec::new() }
    }

    /// Index of the user's entry.
    fn find(&self, user_id: u128) -> (r: Option<usize>)
        ensures
            match r {
                Some(idx) => 0 <= idx < self.connections@.len() && self.connections@[
                    idx as int
                ].user_id == user_id,
                None => !self.registered(user_id),
            },
    {
        let n = self.connections.len();
        let mut i: usize = 0;
        while i < n
            invariant
                n == self.connections@.len(),
                0 <= i <= n,
                forall|j: int| 0 <= j < i ==> self.connections@[j].user_id != user_id,
            decreases n - i,
        {
            if self.connections[i].user_id == user_id {
                return Some(i);
            }
            i += 1;
        }
        None
    }

    /// Create or replace the user's entry with a fresh channel owned by
    /// this connection, and hand back the receiving half for the
    /// connection's outbound loop. The replaced sender is dropped, which
    /// is what lets a superseded session's loop observe a closed channel
    /// and end; the count grows only when the user was not registered
    /// before.
    pub fn register(&mut self, user_id: u128, connection_id: u128) -> (r: Receiver<String>)
        requires
            old(self).wf(),
        ensures
            final(self).wf(),
            final(self).registered(user_id),
            forall|c: u128| final(self).owned_by(user_id, c) == (c == connection_id),
            forall|u: u128|
                u != user_id ==> final(self).registered(u) == old(self).registered(u),
            forall|u: u128, c: u128|
                u != user_id ==> final(self).owned_by(u, c) == old(self).owned_by(u, c),
            final(self).spec_count() == old(self).spec_count() + (if old(self).registered(
                user_id,
            ) {
                0int
            } else {
                1int
            }),
    {
        let (tx, rx) = broadcast_channel(CHANNEL_CAPACITY);
        let entry = ConnectionEntry { user_id, connection_id, sender: tx };
        match self.find(user_id) {
            Some(idx) => {
                self.connections[idx] = entry;
                proof {
                    let s0 = old(self).connections@;
                    let s1 = self.connections@;
                    let k = idx as int;
                    assert(s1 =~= s0.update(k, s1[k]));
                    assert(s1[k].user_id == user_id && s1[k].connection_id == connection_id);
                    assert forall|i: int, j: int| 0 <= i < j < s1.len() implies s1[i].user_id
                        != s1[j].user_id by {
                        assert(s0[i].user_id != s0[j].user_id);
                    }
                    assert forall|i: int|
                        0 <= i < s0.len() && i != k implies s0[i].user_id != user_id by {}
                    assert forall|c: u128| self.owned_by(user_id, c) == (c == connection_id) by {
                        if self.owned_by(user_id, c) {
                            let m = choose|m: int|
                                0 <= m < s1.len() && s1[m].user_id == user_id
                                    && s1[m].connection_id == c;
                            assert(m == k);
                        }
                    }
                    assert forall|u: u128| u != user_id implies self.registered(u) == old(
                        self,
                    ).registered(u) by {
                        if old(self).registered(u) {
                            let m = choose|m: int| 0 <= m < s0.len() && s0[m].user_id == u;
                            assert(s1[m].user_id == u);
                        }
                        if self.registered(u) {
                            let m = choose|m: int| 0 <= m < s1.len() && s1[m].user_id == u;
                            assert(s0[m].user_id == u);
                        }
                    }
                    assert forall|u: u128, c: u128| u != user_id implies self.owned_by(u, c)
                        == old(self).owned_by(u, c) by {
                        if old(self).owned_by(u, c) {
                            let m = choose|m: int|
                                0 <= m < s0.len() && s0[m].user_id == u && s0[m].connection_id
                                    == c;
                            assert(s1[m].user_id == u && s1[m].connection_id == c);
                        }
                        if self.owned_by(u, c) {
                            let m = choose|m: int|
                                0 <= m < s1.len() && s1[m].user_id == u && s1[m].connection_id
                                    == c;
                            assert(s0[m].user_id == u && s0[m].connection_id == c);
                        }
                    }
                }
            }
            None => {
                self.connections.push(entry);
                proof {
                    let s0 = old(self).connections@;
                    let s1 = self.connections@;
                    let last = s1.len() - 1;
                    assert(s1[last].user_id == user_id && s1[last].connection_id == connection_id);
                    assert forall|c: u128| self.owned_by(user_id, c) == (c == connection_id) by {
                        if self.owned_by(user_id, c) {
                            let m = choose|m: int|
                                0 <= m < s1.len() && s1[m].user_id == user_id
                                    && s1[m].connection_id == c;
                            assert(m == last);
                        }
                    }
                    assert forall|u: u128| u != user_id implies self.registered(u) == old(
                        self,
                    ).registered(u) by {
                        if old(self).registered(u) {
                            let m = choose|m: int| 0 <= m < s0.len() && s0[m].user_id == u;
                            assert(s1[m].user_id == u);
                        }
                        if self.registered(u) {
                            let m = choose|m: int| 0 <= m < s1.len() && s1[m].user_id == u;
                            assert(m != last);
                            assert(s0[m].user_id == u);
                        }
                    }
                    assert forall|u: u128, c: u128| u != user_id implies self.owned_by(u, c)
                        == old(self).owned_by(u, c) by {
                        if old(self).owned_by(u, c) {
                            let m = choose|m: int|
                                0 <= m < s0.len() && s0[m].user_id == u && s0[m].connection_id
                                    == c;
                            assert(s1[m].user_id == u && s1[m].connection_id == c);
                        }
                        if self.owned_by(u, c) {
                            let m = choose|m: int|
                                0 <= m < s1.len() && s1[m].user_id == u && s1[m].connection_id
                                    == c;
                            assert(m != last);
                            assert(s0[m].user_id == u && s0[m].connection_id == c);
                        }
                    }
                }
            }
        }
        rx
    }

    /// Remove the user's entry only when this connection still owns it.
    /// A teardown that arrives after the entry was replaced by a newer
    /// connection — or after it is already gone — changes nothing, so a
    /// superseded session can never evict its replacement.
    pub fn unregister(&mut self, user_id: u128, connection_id: u128)
        requires
            old(self).wf(),
        ensures
            final(self).wf(),
            old(self).owned_by(user_id, connection_id) ==> {
                &&& !final(self).registered(user_id)
                &&& forall|c: u128| !final(self).owned_by(user_id, c)
                &&& forall|u: u128|
                    u != user_id ==> final(self).registered(u) == old(self).registered(u)
                &&& forall|u: u128, c: u128|
                    u != user_id ==> final(self).owned_by(u, c) == old(self).owned_by(u, c)
                &&& final(self).spec_count() == old(self).spec_count() - 1
            },
            !old(self).owned_by(user_id, connection_id) ==> *final(self) == *old(self),
    {
        match self.find(user_id) {
            Some(idx) => {
                if self.connections[idx].connection_id != connection_id {
                    proof {
                        let s0 = old(self).connections@;
                        let k = idx as int;
                        assert forall|i: int|
                            0 <= i < s0.len() && i != k implies s0[i].user_id != user_id by {}
                        assert(!old(self).owned_by(user_id, connection_id)) by {
                            if old(self).owned_by(user_id, connection_id) {
                                let m = choose|m: int|
                                    0 <= m < s0.len() && s0[m].user_id == user_id
                                        && s0[m].connection_id == connection_id;
                                assert(m == k);
                            }
                        }
                    }
                    return ;
                }
                let _ = self.connections.remove(idx);
                proof {
                    let s0 = old(self).connections@;
                    let s1 = self.connections@;
                    let k = idx as int;
                    s0.remove_ensures(k);
                    assert(s1 =~= s0.remove(k));
                    assert(old(self).owned_by(user_id, connection_id));
                    assert forall|i: int|
                        0 <= i < s0.len() && i != k implies s0[i].user_id != user_id by {}
                    assert forall|i: int, j: int| 0 <= i < j < s1.len() implies s1[i].user_id
                        != s1[j].user_id by {
                        let bi: int = if i < k {
                            i
                        } else {
                            i + 1
                        };
                        let bj: int = if j < k {
                            j
                        } else {
                            j + 1
                        };
                        assert(s1[i] == s0[bi] && s1[j] == s0[bj]);
                    }
                    assert forall|i: int| 0 <= i < s1.len() implies s1[i].user_id != user_id by {
                        let b: int = if i < k {
                            i
                        } else {
                            i + 1
                        };
                        assert(s1[i] == s0[b]);
                    }
                    assert forall|u: u128| u != user_id implies self.registered(u) == old(
                        self,
                    ).registered(u) by {
                        if old(self).registered(u) {
                            let m = choose|m: int| 0 <= m < s0.len() && s0[m].user_id == u;
                            let m1: int = if m < k {
                                m
                            } else {
                                m - 1
                            };
                            assert(s1[m1].user_id == u);
                        }
                        if self.registered(u) {
                            let m = choose|m: int| 0 <= m < s1.len() && s1[m].user_id == u;
                            let b: int = if m < k {
                                m
                            } else {
                                m + 1
                            };
                            assert(s0[b].user_id == u);
                        }
                    }
                    assert forall|u: u128, c: u128| u != user_id implies self.owned_by(u, c)
                        == old(self).owned_by(u, c) by {
                        if old(self).owned_by(u, c) {
                            let m = choose|m: int|
                                0 <= m < s0.len() && s0[m].user_id == u && s0[m].connection_id
                                    == c;
                            let m1: int = if m < k {
                                m
                            } else {
                                m - 1
                            };
                            assert(s1[m1].user_id == u && s1[m1].connection_id == c);
                        }
                        if self.owned_by(u, c) {
                            let m = choose|m: int|
                                0 <= m < s1.len() && s1[m].user_id == u && s1[m].connection_id
                                    == c;
                            let b: int = if m < k {
                                m
                            } else {
                                m + 1
                            };
                            assert(s0[b].user_id == u && s0[b].connection_id == c);
                        }
                    }
                }
            }
            None => {
                proof {
                    assert(!old(self).owned_by(user_id, connection_id)) by {
                        if old(self).owned_by(user_id, connection_id) {
                            let m = choose|m: int|
                                0 <= m < old(self).connections@.len()
                                    && old(self).connections@[m].user_id == user_id
                                    && old(self).connections@[m].connection_id == connection_id;
                        }
                    }
                }
            }
        }
    }

    /// Best-effort push to the user's live connection: `false` when no
    /// entry exists or the channel's receiver is gone, `true` when the
    /// channel accepted the message.
    pub fn try_send(&self, user_id: u128, message: String) -> (r: bool)
        ensures
            !self.registered(user_id) ==> r == false,
    {
        match self.find(user_id) {
            Some(idx) => sender_send(&self.connections[idx].sender, message),
            None => false,
        }
    }

    /// Number of registered entries — a process-local liveness metric.
    pub fn count(&self) -> (r: usize)
        ensures
            r == self.spec_count(),
    {
        self.connections.len()
    }

    /// Does the user currently have an entry?
    pub fn is_registered(&self, user_id: u128) -> (r: bool)
        ensures
            r == self.registered(user_id),
    {
        self.find(user_id).is_some()
    }
}

} // verus!
