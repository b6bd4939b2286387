//! Per-user offline notification queues.
//!
//! A notification that cannot be pushed to a live connection is appended
//! to its recipient's queue, which survives for [`QUEUE_TTL_SECS`] from
//! the last append and is read and cleared in one step on the user's next
//! connect. Within a queue the order is first-queued first-delivered, so
//! a reconnecting client replays missed notifications in the order they
//! were sent.

use vstd::prelude::*;

verus! {

/// Seconds an offline queue survives after its last append.
pub const QUEUE_TTL_SECS: u64 = 86400;

/// Latest clock value at which an append can still set an expiry without
/// arithmetic overflow; every append requires the clock at or below it.
pub const QUEUE_CLOCK_MAX: u64 = 0xffff_ffff_ffff_ffff - 86400;

struct OfflineQueue {
    user_id: u128,
    expires_at: u64,
    items: Vec<String>,
}

/// All users' offline queues.
pub struct OfflineQueues {
    queues: Vec<OfflineQueue>,
}

impl OfflineQueues {
    /// At most one queue per user.
    pub closed spec fn wf(&self) -> bool {
        forall|i: int, j: int|
            0 <= i < j < self.queues@.len() ==> self.queues@[i].user_id != self.queues@[j].user_id
    }

    /// What a drain at time `t` would hand the user: the queued payloads
    /// in append order while the queue is live, nothing once it expired.
    pub closed spec fn pending(&self, user_id: u128, t: u64) -> Seq<String> {
        pending_of(self.queues@, user_id, t)
    }

    pub fn new() -> (r: Self)
        ensures
            r.wf(),
            forall|u: u128, t: u64| r.pending(u, t) == Seq::<String>::empty(),
    {
        OfflineQueues { queues: Vec::new() }
    }

    /// Index of the user's queue, live or not.
    fn find_queue(&self, user_id: u128) -> (r: Option<usize>)
        ensures
            match r {
                Some(idx) => 0 <= idx < self.queues@.len() && self.queues@[
                    idx as int
                ].user_id == user_id,
                None => forall|j: int|
                    0 <= j < self.queues@.len() ==> self.queues@[j].user_id != user_id,
            },
    {
        let n = self.queues.len();
        let mut i: usize = 0;
        while i < n
            invariant
                n == self.queues@.len(),
                0 <= i <= n,
                forall|j: int| 0 <= j < i ==> self.queues@[j].user_id != user_id,
            decreases n - i,
        {
            if self.queues[i].user_id == user_id {
                return Some(i);
            }
            i += 1;
        }
        None
    }

    /// Append a payload to the user's queue, starting a fresh queue when
    /// none is live, and push the expiry a full TTL out from `now`. Every
    /// other user's queue is untouched.
    pub fn enqueue(&mut self, user_id: u128, payload: String, now: u64)
        requires
            old(self).wf(),
            now <= QUEUE_CLOCK_MAX,
        ensures
            final(self).wf(),
            forall|t: u64|
                final(self).pending(user_id, t) == if t < now + QUEUE_TTL_SECS {
                    old(self).pending(user_id, now).push(payload)
                } else {
                    Seq::<String>::empty()
                },
            forall|u: u128, t: u64|
                u != user_id ==> final(self).pending(u, t) == old(self).pending(u, t),
    {
        let ghost s0 = old(self).queues@;
        let new_expiry = now + QUEUE_TTL_SECS;
        match self.find_queue(user_id) {
            Some(idx) => {
                let mut q = self.queues.remove(idx);
                let ghost removed = s0.remove(idx as int);
                let ghost olditems = q.items@;
                let ghost was_live = now < q.expires_at;
                if !(now < q.expires_at) {
                    q.items = Vec::new();
                }
                q.items.push(payload);
                q.expires_at = new_expiry;
                self.queues.push(q);
                proof {
                    let s1 = self.queues@;
                    let k = idx as int;
                    s0.remove_ensures(k);
                    assert forall|i: int|
                        0 <= i < s0.len() && i != k implies s0[i].user_id != user_id by {}
                    let last = s1.len() - 1;
                    assert(s1.len() == s0.len());
                    assert(forall|i: int| 0 <= i < removed.len() ==> s1[i] == removed[i]);
                    assert(s1[last].user_id == user_id && s1[last].expires_at == new_expiry);
                    assert(s1[last].items@ == if was_live {
                        olditems.push(payload)
                    } else {
                        Seq::<String>::empty().push(payload)
                    });
                    assert forall|i: int, j: int| 0 <= i < j < s1.len() implies s1[i].user_id
                        != s1[j].user_id by {
                        if j == last {
                            let back: int = if i < k {
                                i
                            } else {
                                i + 1
                            };
                            assert(s1[i] == s0[back]);
                        } else {
                            let bi: int = if i < k {
                                i
                            } else {
                                i + 1
                            };
                            let bj: int = if j < k {
                                j
                            } else {
                                j + 1
                            };
                            assert(s1[i] == s0[bi] && s1[j] == s0[bj]);
                        }
                    }
                    assert(old(self).pending(user_id, now) == if was_live {
                        olditems
                    } else {
                        Seq::<String>::empty()
                    }) by {
                        if was_live {
                            assert(s0[k].user_id == user_id && now < s0[k].expires_at);
                            let w = choose|i: int|
                                0 <= i < s0.len() && s0[i].user_id == user_id && now
                                    < s0[i].expires_at;
                            assert(w == k);
                        } else {
                            if old(self).pending(user_id, now).len() > 0 {
                                let w = choose|i: int|
                                    0 <= i < s0.len() && s0[i].user_id == user_id && now
                                        < s0[i].expires_at;
                                assert(w == k);
                            }
                        }
                    }
                    assert forall|t: u64| self.pending(user_id, t) == (if t < now
                        + QUEUE_TTL_SECS {
                        old(self).pending(user_id, now).push(payload)
                    } else {
                        Seq::<String>::empty()
                    }) by {
                        let last = s1.len() - 1;
                        assert forall|i: int|
                            0 <= i < s1.len() && i != last implies s1[i].user_id != user_id by {
                            assert(s1[i] == removed[i]);
                        }
                        if t < now + QUEUE_TTL_SECS {
                            assert(s1[last].user_id == user_id && t < s1[last].expires_at);
                            let w = choose|i: int|
                                0 <= i < s1.len() && s1[i].user_id == user_id && t
                                    < s1[i].expires_at;
                            assert(w == last);
                        } else {
                            if self.pending(user_id, t).len() > 0 {
                                let w = choose|i: int|
                                    0 <= i < s1.len() && s1[i].user_id == user_id && t
                                        < s1[i].expires_at;
                                assert(w == last);
                            }
                        }
                    }
                    assert forall|u: u128, t: u64| u != user_id implies self.pending(u, t) == old(
                        self,
                    ).pending(u, t) by {
                        lemma_pending_other(s0, s1, removed, k, user_id, u, t);
                    }
                }
            }
            None => {
                let mut items: Vec<String> = Vec::new();
                items.push(payload);
                let q = OfflineQueue { user_id, expires_at: new_expiry, items };
                self.queues.push(q);
                proof {
                    let s1 = self.queues@;
                    let last = s1.len() - 1;
                    assert(old(self).pending(user_id, now) == Seq::<String>::empty());
                    assert(s1[last].items@ =~= Seq::<String>::empty().push(payload));
                    assert forall|t: u64| self.pending(user_id, t) == (if t < now
                        + QUEUE_TTL_SECS {
                        old(self).pending(user_id, now).push(payload)
                    } else {
                        Seq::<String>::empty()
                    }) by {
                        if t < now + QUEUE_TTL_SECS {
                            assert(s1[last].user_id == user_id && t < s1[last].expires_at);
                            let w = choose|i: int|
                                0 <= i < s1.len() && s1[i].user_id == user_id && t
                                    < s1[i].expires_at;
                            assert(w == last);
                        } else {
                            if self.pending(user_id, t).len() > 0 {
                                let w = choose|i: int|
                                    0 <= i < s1.len() && s1[i].user_id == user_id && t
                                        < s1[i].expires_at;
                                assert(w == last);
                            }
                        }
                    }
                    assert forall|u: u128, t: u64| u != user_id implies self.pending(u, t) == old(
                        self,
                    ).pending(u, t) by {
                        if old(self).pending(u, t).len() > 0 || self.pending(u, t).len() > 0 {
                            assert forall|i: int|
                                0 <= i < s0.len() implies s1[i] == s0[i] by {}
                            if exists|i: int|
                                0 <= i < s0.len() && s0[i].user_id == u && t < s0[i].expires_at {
                                let w = choose|i: int|
                                    0 <= i < s0.len() && s0[i].user_id == u && t
                                        < s0[i].expires_at;
                                assert(s1[w].user_id == u && t < s1[w].expires_at);
                                let w1 = choose|i: int|
                                    0 <= i < s1.len() && s1[i].user_id == u && t
                                        < s1[i].expires_at;
                                assert(w1 != last);
                                assert(s0[w1].user_id == u && t < s0[w1].expires_at);
                                assert(w1 == w);
                                let w0 = choose|i: int|
                                    0 <= i < s0.len() && s0[i].user_id == u && t
                                        < s0[i].expires_at;
                                assert(w0 == w);
                            } else {
                                if exists|i: int|
                                    0 <= i < s1.len() && s1[i].user_id == u && t
                                        < s1[i].expires_at {
                                    let w1 = choose|i: int|
                                        0 <= i < s1.len() && s1[i].user_id == u && t
                                            < s1[i].expires_at;
                                    assert(w1 != last);
                                    assert(s0[w1].user_id == u && t < s0[w1].expires_at);
                                }
                            }
                        }
                    }
                }
            }
        }
    }

    /// Read and clear in one step: hand back everything pending at `now`
    /// — in append order — and leave the user with an empty queue, so a
    /// second drain with nothing queued in between yields nothing. Every
    /// other user's queue is untouched.
    pub fn drain(&mut self, user_id: u128, now: u64) -> (r: Vec<String>)
        requires
            old(self).wf(),
        ensures
            final(self).wf(),
            r@ == old(self).pending(user_id, now),
            forall|t: u64| final(self).pending(user_id, t) == Seq::<String>::empty(),
            forall|u: u128, t: u64|
                u != user_id ==> final(self).pending(u, t) == old(self).pending(u, t),
    {
        let ghost s0 = old(self).queues@;
        match self.find_queue(user_id) {
            Some(idx) => {
                let q = self.queues.remove(idx);
                let ghost removed = s0.remove(idx as int);
                proof {
                    let s1 = self.queues@;
                    let k = idx as int;
                    assert(s1 =~= removed);
                    assert forall|i: int|
                        0 <= i < s0.len() && i != k implies s0[i].user_id != user_id by {}
                    assert forall|t: u64| self.pending(user_id, t) == Seq::<String>::empty() by {
                        if self.pending(user_id, t).len() > 0 {
                            let w = choose|i: int|
                                0 <= i < s1.len() && s1[i].user_id == user_id && t
                                    < s1[i].expires_at;
                            assert(s1[w] == if w < k {
                                s0[w]
                            } else {
                                s0[w + 1]
                            });
                        }
                    }
                    assert forall|u: u128, t: u64| u != user_id implies self.pending(u, t) == old(
                        self,
                    ).pending(u, t) by {
                        lemma_pending_other_removed(s0, s1, k, user_id, u, t);
                    }
                    if now < s0[k].expires_at {
                        assert(old(self).pending(user_id, now) == s0[k].items@) by {
                            assert(s0[k].user_id == user_id && now < s0[k].expires_at);
                            let w = choose|i: int|
                                0 <= i < s0.len() && s0[i].user_id == user_id && now
                                    < s0[i].expires_at;
                            assert(w == k);
                        }
                    } else {
                        assert(old(self).pending(user_id, now) == Seq::<String>::empty()) by {
                            if old(self).pending(user_id, now).len() > 0 {
                                let w = choose|i: int|
                                    0 <= i < s0.len() && s0[i].user_id == user_id && now
                                        < s0[i].expires_at;
                                assert(w == k);
                            }
                        }
                    }
                }
                if now < q.expires_at {
                    q.items
                } else {
                    Vec::new()
                }
            }
            None => {
                proof {
                    assert(old(self).pending(user_id, now) == Seq::<String>::empty()) by {
                        if old(self).pending(user_id, now).len() > 0 {
                            let w = choose|i: int|
                                0 <= i < s0.len() && s0[i].user_id == user_id && now
                                    < s0[i].expires_at;
                        }
                    }
                    assert forall|t: u64| self.pending(user_id, t) == Seq::<String>::empty() by {
                        if self.pending(user_id, t).len() > 0 {
                            let w = choose|i: int|
                                0 <= i < self.queues@.len() && self.queues@[i].user_id == user_id
                                    && t < self.queues@[i].expires_at;
                        }
                    }
                }
                Vec::new()
            }
        }
    }
}

/// Law (delivery fallback): when a payload goes to the queue — the
/// delivery engine's path for a recipient without a live connection —
/// the recipient's pending sequence ends with that payload until the
/// queue expires, so the next drain before expiry hands it back.
/// `before` and `after` are the queues around the append, related as
/// [`OfflineQueues::enqueue`] leaves them.
pub proof fn lemma_enqueued_is_pending(
    before: &OfflineQueues,
    after: &OfflineQueues,
    user_id: u128,
    payload: String,
    now: u64,
    t: u64,
)
    requires
        forall|tt: u64|
            after.pending(user_id, tt) == if tt < now + QUEUE_TTL_SECS {
                before.pending(user_id, now).push(payload)
            } else {
                Seq::<String>::empty()
            },
        t < now + QUEUE_TTL_SECS,
    ensures
        after.pending(user_id, t).len() == before.pending(user_id, now).len() + 1,
        after.pending(user_id, t).last() == payload,
        after.pending(user_id, t).contains(payload),
{
    let p = after.pending(user_id, t);
    assert(p == before.pending(user_id, now).push(payload));
    assert(p[p.len() - 1] == payload);
}

/// Replacing the queue at `k` (whose user differs from `u`) by a new last
/// entry for the same user leaves user `u`'s pending view unchanged.
proof fn lemma_pending_other(
    s0: Seq<OfflineQueue>,
    s1: Seq<OfflineQueue>,
    removed: Seq<OfflineQueue>,
    k: int,
    owner: u128,
    u: u128,
    t: u64,
)
    requires
        0 <= k < s0.len(),
        removed == s0.remove(k),
        s1.len() == s0.len(),
        forall|i: int| 0 <= i < removed.len() ==> s1[i] == removed[i],
        s0[k].user_id == owner,
        s1[s1.len() - 1].user_id == owner,
        u != owner,
        forall|i: int, j: int| 0 <= i < j < s0.len() ==> s0[i].user_id != s0[j].user_id,
    ensures
        pending_of(s1, u, t) == pending_of(s0, u, t),
{
    let last = s1.len() - 1;
    assert forall|i: int| 0 <= i < s1.len() && s1[i].user_id == u implies i != last by {}
    if exists|i: int| 0 <= i < s0.len() && s0[i].user_id == u && t < s0[i].expires_at {
        let w = choose|i: int| 0 <= i < s0.len() && s0[i].user_id == u && t < s0[i].expires_at;
        let w1: int = if w < k {
            w
        } else {
            w - 1
        };
        assert(removed[w1] == s0[w]);
        assert(s1[w1].user_id == u && t < s1[w1].expires_at);
        let c1 = choose|i: int| 0 <= i < s1.len() && s1[i].user_id == u && t < s1[i].expires_at;
        assert(c1 != last);
        assert(s1[c1] == removed[c1]);
        let back: int = if c1 < k {
            c1
        } else {
            c1 + 1
        };
        assert(removed[c1] == s0[back]);
        assert(s0[back].user_id == u && t < s0[back].expires_at);
        let c0 = choose|i: int| 0 <= i < s0.len() && s0[i].user_id == u && t < s0[i].expires_at;
        assert(c0 == back && c0 == w);
        assert(c1 == w1);
        assert(pending_of(s1, u, t) == s1[c1].items@ && pending_of(s0, u, t) == s0[c0].items@);
    } else {
        if exists|i: int| 0 <= i < s1.len() && s1[i].user_id == u && t < s1[i].expires_at {
            let c1 = choose|i: int|
                0 <= i < s1.len() && s1[i].user_id == u && t < s1[i].expires_at;
            assert(c1 != last);
            let back: int = if c1 < k {
                c1
            } else {
                c1 + 1
            };
            assert(s1[c1] == removed[c1] && removed[c1] == s0[back]);
            assert(s0[back].user_id == u && t < s0[back].expires_at);
        }
    }
}

/// Removing the queue at `k` (whose user differs from `u`) leaves user
/// `u`'s pending view unchanged.
proof fn lemma_pending_other_removed(
    s0: Seq<OfflineQueue>,
    s1: Seq<OfflineQueue>,
    k: int,
    owner: u128,
    u: u128,
    t: u64,
)
    requires
        0 <= k < s0.len(),
        s1 == s0.remove(k),
        s0[k].user_id == owner,
        u != owner,
        forall|i: int, j: int| 0 <= i < j < s0.len() ==> s0[i].user_id != s0[j].user_id,
    ensures
        pending_of(s1, u, t) == pending_of(s0, u, t),
{
    if exists|i: int| 0 <= i < s0.len() && s0[i].user_id == u && t < s0[i].expires_at {
        let w = choose|i: int| 0 <= i < s0.len() && s0[i].user_id == u && t < s0[i].expires_at;
        assert(w != k);
        let w1: int = if w < k {
            w
        } else {
            w - 1
        };
        assert(s1[w1] == s0[w]);
        let c1 = choose|i: int| 0 <= i < s1.len() && s1[i].user_id == u && t < s1[i].expires_at;
        let back: int = if c1 < k {
            c1
        } else {
            c1 + 1
        };
        assert(s1[c1] == s0[back]);
        assert(s0[back].user_id == u && t < s0[back].expires_at);
        let c0 = choose|i: int| 0 <= i < s0.len() && s0[i].user_id == u && t < s0[i].expires_at;
        assert(c0 == back && c0 == w);
        assert(c1 == w1);
        assert(pending_of(s1, u, t) == s1[c1].items@ && pending_of(s0, u, t) == s0[c0].items@);
    } else {
        if exists|i: int| 0 <= i < s1.len() && s1[i].user_id == u && t < s1[i].expires_at {
            let c1 = choose|i: int|
                0 <= i < s1.len() && s1[i].user_id == u && t < s1[i].expires_at;
            let back: int = if c1 < k {
                c1
            } else {
                c1 + 1
            };
            assert(s1[c1] == s0[back]);
            assert(s0[back].user_id == u && t < s0[back].expires_at);
        }
    }
}

/// [`OfflineQueues::pending`] written over a bare queue table, for the
/// internal lemmas.
spec fn pending_of(s: Seq<OfflineQueue>, user_id: u128, t: u64) -> Seq<String> {
    if exists|i: int| 0 <= i < s.len() && s[i].user_id == user_id && t < s[i].expires_at {
        let i = choose|i: int|
            0 <= i < s.len() && s[i].user_id == user_id && t < s[i].expires_at;
        s[i].items@
    } else {
        Seq::empty()
    }
}

} // verus!
