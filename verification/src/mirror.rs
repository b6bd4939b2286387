//! Cross-process connection mirror.
//!
//! The registry is process-local; for peers, every live connection is
//! also recorded as a (user, connection-id) entry that ages out after
//! [`MIRROR_TTL_SECS`] unless re-registered, so a crashed process's
//! entries disappear on their own. Registering refreshes the entry's
//! expiry; a clean teardown removes it at once.

use vstd::prelude::*;

use crate::seqtools::lemma_filter_push;

verus! {

/// Seconds a mirrored connection entry lives without a re-register.
pub const MIRROR_TTL_SECS: u64 = 3600;

/// Latest clock value at which an entry set now can still expire without
/// arithmetic overflow; registration requires the clock at or below it.
pub const MIRROR_CLOCK_MAX: u64 = 0xffff_ffff_ffff_ffff - 3600;

#[derive(Clone, Copy, PartialEq, Eq, Structural, Debug)]
struct ConnEntry {
    user_id: u128,
    connection_id: u128,
    expires_at: u64,
}

/// True when the entry mirrors this user's connection and is live at `t`.
spec fn entry_live(e: ConnEntry, user_id: u128, t: u64) -> bool {
    e.user_id == user_id && t < e.expires_at
}

/// The table of mirrored connections.
pub struct ConnectionMirror {
    entries: Vec<ConnEntry>,
}

impl ConnectionMirror {
    /// One entry per (user, connection).
    pub closed spec fn wf(&self) -> bool {
        forall|i: int, j: int|
            0 <= i < j < self.entries@.len() ==> !(self.entries@[i].user_id
                == self.entries@[j].user_id && self.entries@[i].connection_id
                == self.entries@[j].connection_id)
    }

    /// The user's connection is mirrored and live at `t`.
    pub closed spec fn mirrored(&self, user_id: u128, connection_id: u128, t: u64) -> bool {
        exists|i: int|
            0 <= i < self.entries@.len() && entry_live(self.entries@[i], user_id, t)
                && self.entries@[i].connection_id == connection_id
    }

    /// The user's live mirrored connection ids at `t`, oldest first.
    pub closed spec fn connections_live(&self, user_id: u128, t: u64) -> Seq<u128> {
        self.entries@.filter(|e: ConnEntry| entry_live(e, user_id, t)).map_values(
            |e: ConnEntry| e.connection_id,
        )
    }

    pub fn new() -> (r: Self)
        ensures
            r.wf(),
            forall|u: u128, c: u128, t: u64| !r.mirrored(u, c, t),
    {
        ConnectionMirror { entries: Vec::new() }
    }

    /// Index of the (user, connection) entry, live or not.
    fn find_entry(&self, user_id: u128, connection_id: u128) -> (r: Option<usize>)
        ensures
            match r {
                Some(idx) => 0 <= idx < self.entries@.len() && self.entries@[
                    idx as int
                ].user_id == user_id && self.entries@[idx as int].connection_id == connection_id,
                None => forall|j: int|
                    0 <= j < self.entries@.len() ==> !(self.entries@[j].user_id == user_id
                        && self.entries@[j].connection_id == connection_id),
            },
    {
        let n = self.entries.len();
        let mut i: usize = 0;
        while i < n
            invariant
                n == self.entries@.len(),
                0 <= i <= n,
                forall|j: int|
                    0 <= j < i ==> !(self.entries@[j].user_id == user_id
                        && self.entries@[j].connection_id == connection_id),
            decreases n - i,
        {
            let e = &self.entries[i];
            if e.user_id == user_id && e.connection_id == connection_id {
                return Some(i);
            }
            i += 1;
        }
        None
    }

    /// Mirror a connection: set or refresh its entry to live for the TTL
    /// from `now`; every other entry is untouched.
    pub fn register_connection(&mut self, user_id: u128, connection_id: u128, now: u64)
        requires
            old(self).wf(),
            now <= MIRROR_CLOCK_MAX,
        ensures
            final(self).wf(),
            forall|t: u64|
                final(self).mirrored(user_id, connection_id, t) == (t < now + MIRROR_TTL_SECS),
            forall|u: u128, c: u128, t: u64|
                !(u == user_id && c == connection_id) ==> final(self).mirrored(u, c, t) == old(
                    self,
                ).mirrored(u, c, t),
    {
        let e = ConnEntry { user_id, connection_id, expires_at: now + MIRROR_TTL_SECS };
        match self.find_entry(user_id, connection_id) {
            Some(idx) => {
                self.entries[idx] = e;
                proof {
                    let s0 = old(self).entries@;
                    let s1 = self.entries@;
                    let k = idx as int;
                    assert(s1 =~= s0.update(k, e));
                    assert forall|i: int|
                        0 <= i < s0.len() && i != k implies !(s0[i].user_id == user_id
                            && s0[i].connection_id == connection_id) by {}
                    assert forall|t: u64| self.mirrored(user_id, connection_id, t) == (t < now
                        + MIRROR_TTL_SECS) by {
                        if t < now + MIRROR_TTL_SECS {
                            assert(entry_live(s1[k], user_id, t) && s1[k].connection_id
                                == connection_id);
                        }
                        if self.mirrored(user_id, connection_id, t) {
                            let m = choose|m: int|
                                0 <= m < s1.len() && entry_live(s1[m], user_id, t)
                                    && s1[m].connection_id == connection_id;
                            assert(m == k);
                        }
                    }
                    assert forall|u: u128, c: u128, t: u64|
                        !(u == user_id && c == connection_id) implies self.mirrored(u, c, t)
                        == old(self).mirrored(u, c, t) by {
                        if old(self).mirrored(u, c, t) {
                            let m = choose|m: int|
                                0 <= m < s0.len() && entry_live(s0[m], u, t) && s0[m].connection_id
                                    == c;
                            assert(entry_live(s1[m], u, t) && s1[m].connection_id == c);
                        }
                        if self.mirrored(u, c, t) {
                            let m = choose|m: int|
                                0 <= m < s1.len() && entry_live(s1[m], u, t) && s1[m].connection_id
                                    == c;
                            assert(entry_live(s0[m], u, t) && s0[m].connection_id == c);
                        }
                    }
                }
            }
            None => {
                self.entries.push(e);
                proof {
                    let s0 = old(self).entries@;
                    let s1 = self.entries@;
                    let last = s1.len() - 1;
                    assert forall|t: u64| self.mirrored(user_id, connection_id, t) == (t < now
                        + MIRROR_TTL_SECS) by {
                        if t < now + MIRROR_TTL_SECS {
                            assert(entry_live(s1[last], user_id, t) && s1[last].connection_id
                                == connection_id);
                        }
                        if self.mirrored(user_id, connection_id, t) {
                            let m = choose|m: int|
                                0 <= m < s1.len() && entry_live(s1[m], user_id, t)
                                    && s1[m].connection_id == connection_id;
                            assert(m == last);
                        }
                    }
                    assert forall|u: u128, c: u128, t: u64|
                        !(u == user_id && c == connection_id) implies self.mirrored(u, c, t)
                        == old(self).mirrored(u, c, t) by {
                        if old(self).mirrored(u, c, t) {
                            let m = choose|m: int|
                                0 <= m < s0.len() && entry_live(s0[m], u, t) && s0[m].connection_id
                                    == c;
                            assert(entry_live(s1[m], u, t) && s1[m].connection_id == c);
                        }
                        if self.mirrored(u, c, t) {
                            let m = choose|m: int|
                                0 <= m < s1.len() && entry_live(s1[m], u, t) && s1[m].connection_id
                                    == c;
                            assert(m != last);
                            assert(entry_live(s0[m], u, t) && s0[m].connection_id == c);
                        }
                    }
                }
            }
        }
    }

    /// Drop a connection's mirror entry outright; every other entry is
    /// untouched.
    pub fn unregister_connection(&mut self, user_id: u128, connection_id: u128)
        requires
            old(self).wf(),
        ensures
            final(self).wf(),
            forall|t: u64| !final(self).mirrored(user_id, connection_id, t),
            forall|u: u128, c: u128, t: u64|
                !(u == user_id && c == connection_id) ==> final(self).mirrored(u, c, t) == old(
                    self,
                ).mirrored(u, c, t),
    {
        let ghost pred = |e: ConnEntry|
            !(e.user_id == user_id && e.connection_id == connection_id);
        let n = self.entries.len();
        let mut out: Vec<ConnEntry> = Vec::new();
        let mut i: usize = 0;
        while i < n
            invariant
                n == self.entries@.len(),
                0 <= i <= n,
                out@ == self.entries@.take(i as int).filter(pred),
                pred == (|e: ConnEntry| !(e.user_id == user_id && e.connection_id
                    == connection_id)),
            decreases n - i,
        {
            let e = self.entries[i];
            proof {
                assert(self.entries@.take(i + 1) =~= self.entries@.take(i as int).push(
                    self.entries@[i as int],
                ));
                lemma_filter_push(self.entries@.take(i as int), self.entries@[i as int], pred);
            }
            if !(e.user_id == user_id && e.connection_id == connection_id) {
                out.push(e);
            }
            i += 1;
        }
        proof {
            assert(self.entries@.take(n as int) =~= self.entries@);
        }
        self.entries = out;
        proof {
            let s0 = old(self).entries@;
            let s1 = self.entries@;
            s0.filter_lemma(pred);
            assert forall|t: u64| !self.mirrored(user_id, connection_id, t) by {
                if self.mirrored(user_id, connection_id, t) {
                    let m = choose|m: int|
                        0 <= m < s1.len() && entry_live(s1[m], user_id, t) && s1[m].connection_id
                            == connection_id;
                    assert(!pred(s1[m]));
                    s0.lemma_filter_pred(pred, m);
                }
            }
            assert forall|u: u128, c: u128, t: u64|
                !(u == user_id && c == connection_id) implies self.mirrored(u, c, t) == old(
                self,
            ).mirrored(u, c, t) by {
                if old(self).mirrored(u, c, t) {
                    let m = choose|m: int|
                        0 <= m < s0.len() && entry_live(s0[m], u, t) && s0[m].connection_id == c;
                    assert(pred(s0[m]));
                    assert(s1.contains(s0[m]));
                    let m1 = choose|m1: int| 0 <= m1 < s1.len() && s1[m1] == s0[m];
                    assert(entry_live(s1[m1], u, t) && s1[m1].connection_id == c);
                }
                if self.mirrored(u, c, t) {
                    let m = choose|m: int|
                        0 <= m < s1.len() && entry_live(s1[m], u, t) && s1[m].connection_id == c;
                    crate::seqtools::lemma_filter_source(s0, pred, m);
                    let m0 = choose|m0: int| 0 <= m0 < s0.len() && s0[m0] == s1[m];
                    assert(entry_live(s0[m0], u, t) && s0[m0].connection_id == c);
                }
            }
            assert forall|i2: int, j2: int| 0 <= i2 < j2 < s1.len() implies !(s1[i2].user_id
                == s1[j2].user_id && s1[i2].connection_id == s1[j2].connection_id) by {
                lemma_entry_filter_distinct(s0, pred, i2, j2);
            }
        }
    }

    /// The user's live mirrored connection ids at `now`, oldest first.
    pub fn connections_of(&self, user_id: u128, now: u64) -> (r: Vec<u128>)
        ensures
            r@ == self.connections_live(user_id, now),
    {
        let ghost pred = |e: ConnEntry| entry_live(e, user_id, now);
        let ghost f = |e: ConnEntry| e.connection_id;
        let n = self.entries.len();
        let mut out: Vec<u128> = Vec::new();
        let mut i: usize = 0;
        while i < n
            invariant
                n == self.entries@.len(),
                0 <= i <= n,
                out@ == self.entries@.take(i as int).filter(pred).map_values(f),
                pred == (|e: ConnEntry| entry_live(e, user_id, now)),
                f == (|e: ConnEntry| e.connection_id),
            decreases n - i,
        {
            let e = &self.entries[i];
            proof {
                assert(self.entries@.take(i + 1) =~= self.entries@.take(i as int).push(
                    self.entries@[i as int],
                ));
                lemma_filter_push(self.entries@.take(i as int), self.entries@[i as int], pred);
                if pred(self.entries@[i as int]) {
                    assert(self.entries@.take(i as int).filter(pred).push(
                        self.entries@[i as int],
                    ).map_values(f) =~= self.entries@.take(i as int).filter(pred).map_values(
                        f,
                    ).push(f(self.entries@[i as int])));
                }
            }
            if e.user_id == user_id && now < e.expires_at {
                out.push(e.connection_id);
            }
            i += 1;
        }
        proof {
            assert(self.entries@.take(n as int) =~= self.entries@);
        }
        out
    }
}

/// On an entry table whose (user, connection) pairs are pairwise
/// distinct, a filter keeps them pairwise distinct.
proof fn lemma_entry_filter_distinct(
    s: Seq<ConnEntry>,
    pred: spec_fn(ConnEntry) -> bool,
    i: int,
    j: int,
)
    requires
        forall|a: int, b: int|
            0 <= a < b < s.len() ==> !(s[a].user_id == s[b].user_id && s[a].connection_id
                == s[b].connection_id),
        0 <= i < j < s.filter(pred).len(),
    ensures
        !(s.filter(pred)[i].user_id == s.filter(pred)[j].user_id && s.filter(
            pred,
        )[i].connection_id == s.filter(pred)[j].connection_id),
    decreases s.len(),
{
    reveal(Seq::filter);
    if s.len() > 0 {
        let d = s.drop_last();
        let f = s.filter(pred);
        let fd = d.filter(pred);
        if pred(s.last()) && j == f.len() - 1 {
            assert(f[i] == fd[i]);
            crate::seqtools::lemma_filter_source(d, pred, i);
            let m = choose|m: int| 0 <= m < d.len() && d[m] == fd[i];
            assert(s[m] == f[i]);
            assert(!(s[m].user_id == s[s.len() - 1].user_id && s[m].connection_id == s[s.len()
                - 1].connection_id));
        } else {
            assert(f[i] == fd[i] && f[j] == fd[j]);
            lemma_entry_filter_distinct(d, pred, i, j);
        }
    }
}

} // verus!
