//! Presence store: TTL-bound liveness markers.
//!
//! A user is online while their marker, refreshed on connect and on every
//! heartbeat, is younger than [`PRESENCE_TTL_SECS`]; absence of a live
//! marker *is* the offline state — there is none to maintain. Community
//! presence works the same way per member: joining sets or refreshes that
//! member's expiry, leaving removes it, and a member whose expiry passes
//! without a refresh simply stops counting. All queries take the clock as
//! an argument, so expiry is a fact about the data, not about a timer.

use vstd::prelude::*;

use crate::seqtools::lemma_filter_push;

verus! {

/// Seconds a presence marker lives without a refresh.
pub const PRESENCE_TTL_SECS: u64 = 300;

/// Latest clock value at which a marker set now can still expire without
/// arithmetic overflow; every mutation requires the clock at or below it.
pub const PRESENCE_CLOCK_MAX: u64 = 0xffff_ffff_ffff_ffff - 300;

#[derive(Clone, Copy, PartialEq, Eq, Structural, Debug)]
struct OnlineMark {
    user_id: u128,
    expires_at: u64,
}

#[derive(Clone, Copy, PartialEq, Eq, Structural, Debug)]
struct MemberMark {
    community_id: u128,
    user_id: u128,
    expires_at: u64,
}

/// True when the member marker is a live entry of the community at `t`.
spec fn member_live(m: MemberMark, community_id: u128, t: u64) -> bool {
    m.community_id == community_id && t < m.expires_at
}

/// The store of online markers and community membership markers.
pub struct PresenceStore {
    online: Vec<OnlineMark>,
    members: Vec<MemberMark>,
}

impl PresenceStore {
    /// One marker per user and one member entry per (community, user).
    pub closed spec fn wf(&self) -> bool {
        (forall|i: int, j: int|
            0 <= i < j < self.online@.len() ==> self.online@[i].user_id != self.online@[j].user_id)
        && (forall|i: int, j: int|
            0 <= i < j < self.members@.len() ==> !(self.members@[i].community_id
                == self.members@[j].community_id && self.members@[i].user_id
                == self.members@[j].user_id))
    }

    /// The user holds a marker still live at time `t`.
    pub closed spec fn online_at(&self, user_id: u128, t: u64) -> bool {
        exists|i: int|
            0 <= i < self.online@.len() && self.online@[i].user_id == user_id && t
                < self.online@[i].expires_at
    }

    /// The user holds a member entry of the community still live at `t`.
    pub closed spec fn community_has(&self, community_id: u128, user_id: u128, t: u64) -> bool {
        exists|i: int|
            0 <= i < self.members@.len() && member_live(self.members@[i], community_id, t)
                && self.members@[i].user_id == user_id
    }

    /// The community's live member ids at time `t`, in join order.
    pub closed spec fn community_live(&self, community_id: u128, t: u64) -> Seq<u128> {
        self.members@.filter(|m: MemberMark| member_live(m, community_id, t)).map_values(
            |m: MemberMark| m.user_id,
        )
    }

    pub fn new() -> (r: Self)
        ensures
            r.wf(),
            forall|u: u128, t: u64| !r.online_at(u, t),
            forall|c: u128, u: u128, t: u64| !r.community_has(c, u, t),
    {
        PresenceStore { online: Vec::new(), members: Vec::new() }
    }

    /// Set or refresh the user's marker: online for exactly the TTL from
    /// `now`, whatever the marker said before; everyone else untouched.
    pub fn mark_online(&mut self, user_id: u128, now: u64)
        requires
            old(self).wf(),
            now <= PRESENCE_CLOCK_MAX,
        ensures
            final(self).wf(),
            forall|t: u64| final(self).online_at(user_id, t) == (t < now + PRESENCE_TTL_SECS),
            forall|u: u128, t: u64|
                u != user_id ==> final(self).online_at(u, t) == old(self).online_at(u, t),
            forall|c: u128, u: u128, t: u64|
                final(self).community_has(c, u, t) == old(self).community_has(c, u, t),
            forall|c: u128, t: u64|
                final(self).community_live(c, t) == old(self).community_live(c, t),
    {
        let mark = OnlineMark { user_id, expires_at: now + PRESENCE_TTL_SECS };
        match self.find_online(user_id) {
            Some(idx) => {
                self.online[idx] = mark;
                proof {
                    let s0 = old(self).online@;
                    let s1 = self.online@;
                    let k = idx as int;
                    assert(s1 =~= s0.update(k, mark));
                    assert(self.members == old(self).members);
                    assert forall|i: int|
                        0 <= i < s0.len() && i != k implies s0[i].user_id != user_id by {}
                    assert forall|t: u64| self.online_at(user_id, t) == (t < now
                        + PRESENCE_TTL_SECS) by {
                        if t < now + PRESENCE_TTL_SECS {
                            assert(s1[k].user_id == user_id && t < s1[k].expires_at);
                        }
                        if self.online_at(user_id, t) {
                            let m = choose|m: int|
                                0 <= m < s1.len() && s1[m].user_id == user_id && t
                                    < s1[m].expires_at;
                            assert(m == k);
                        }
                    }
                    assert forall|u: u128, t: u64| u != user_id implies self.online_at(u, t) == old(
                        self,
                    ).online_at(u, t) by {
                        if old(self).online_at(u, t) {
                            let m = choose|m: int|
                                0 <= m < s0.len() && s0[m].user_id == u && t < s0[m].expires_at;
                            assert(s1[m].user_id == u && t < s1[m].expires_at);
                        }
                        if self.online_at(u, t) {
                            let m = choose|m: int|
                                0 <= m < s1.len() && s1[m].user_id == u && t < s1[m].expires_at;
                            assert(s0[m].user_id == u && t < s0[m].expires_at);
                        }
                    }
                }
            }
            None => {
                self.online.push(mark);
                proof {
                    let s0 = old(self).online@;
                    let s1 = self.online@;
                    assert(self.members == old(self).members);
                    assert forall|t: u64| self.online_at(user_id, t) == (t < now
                        + PRESENCE_TTL_SECS) by {
                        if t < now + PRESENCE_TTL_SECS {
                            assert(s1[s1.len() - 1].user_id == user_id && t < s1[s1.len()
                                - 1].expires_at);
                        }
                        if self.online_at(user_id, t) {
                            let m = choose|m: int|
                                0 <= m < s1.len() && s1[m].user_id == user_id && t
                                    < s1[m].expires_at;
                            assert(m == s1.len() - 1);
                        }
                    }
                    assert forall|u: u128, t: u64| u != user_id implies self.online_at(u, t) == old(
                        self,
                    ).online_at(u, t) by {
                        if old(self).online_at(u, t) {
                            let m = choose|m: int|
                                0 <= m < s0.len() && s0[m].user_id == u && t < s0[m].expires_at;
                            assert(s1[m].user_id == u && t < s1[m].expires_at);
                        }
                        if self.online_at(u, t) {
                            let m = choose|m: int|
                                0 <= m < s1.len() && s1[m].user_id == u && t < s1[m].expires_at;
                            assert(s0[m].user_id == u && t < s0[m].expires_at);
                        }
                    }
                }
            }
        }
    }

    /// Index of the user's marker, live or not.
    fn find_online(&self, user_id: u128) -> (r: Option<usize>)
        ensures
            match r {
                Some(idx) => 0 <= idx < self.online@.len() && self.online@[
                    idx as int
                ].user_id == user_id,
                None => forall|j: int|
                    0 <= j < self.online@.len() ==> self.online@[j].user_id != user_id,
            },
    {
        let n = self.online.len();
        let mut i: usize = 0;
        while i < n
            invariant
                n == self.online@.len(),
                0 <= i <= n,
                forall|j: int| 0 <= j < i ==> self.online@[j].user_id != user_id,
            decreases n - i,
        {
            if self.online[i].user_id == user_id {
                return Some(i);
            }
            i += 1;
        }
        None
    }

    /// Remove the user's marker outright, as a graceful disconnect may:
    /// offline at every time from here on.
    pub fn set_offline(&mut self, user_id: u128)
        requires
            old(self).wf(),
        ensures
            final(self).wf(),
            forall|t: u64| !final(self).online_at(user_id, t),
            forall|u: u128, t: u64|
                u != user_id ==> final(self).online_at(u, t) == old(self).online_at(u, t),
            forall|c: u128, u: u128, t: u64|
                final(self).community_has(c, u, t) == old(self).community_has(c, u, t),
            forall|c: u128, t: u64|
                final(self).community_live(c, t) == old(self).community_live(c, t),
    {
        let ghost pred = |m: OnlineMark| m.user_id != user_id;
        let n = self.online.len();
        let mut out: Vec<OnlineMark> = Vec::new();
        let mut i: usize = 0;
        while i < n
            invariant
                n == self.online@.len(),
                0 <= i <= n,
                out@ == self.online@.take(i as int).filter(pred),
                pred == (|m: OnlineMark| m.user_id != user_id),
            decreases n - i,
        {
            let mark = self.online[i];
            proof {
                assert(self.online@.take(i + 1) =~= self.online@.take(i as int).push(
                    self.online@[i as int],
                ));
                lemma_filter_push(self.online@.take(i as int), self.online@[i as int], pred);
            }
            if mark.user_id != user_id {
                out.push(mark);
            }
            i += 1;
        }
        proof {
            assert(self.online@.take(n as int) =~= self.online@);
        }
        self.online = out;
        proof {
            let s0 = old(self).online@;
            let s1 = self.online@;
            s0.filter_lemma(pred);
            assert(self.members == old(self).members);
            assert forall|u: u128, t: u64| u != user_id implies self.online_at(u, t) == old(
                self,
            ).online_at(u, t) by {
                if old(self).online_at(u, t) {
                    let m = choose|m: int|
                        0 <= m < s0.len() && s0[m].user_id == u && t < s0[m].expires_at;
                    assert(s1.contains(s0[m]));
                    let m1 = choose|m1: int| 0 <= m1 < s1.len() && s1[m1] == s0[m];
                    assert(s1[m1].user_id == u && t < s1[m1].expires_at);
                }
                if self.online_at(u, t) {
                    let m = choose|m: int|
                        0 <= m < s1.len() && s1[m].user_id == u && t < s1[m].expires_at;
                    crate::seqtools::lemma_filter_source(s0, pred, m);
                    let m0 = choose|m0: int| 0 <= m0 < s0.len() && s0[m0] == s1[m];
                    assert(s0[m0].user_id == u && t < s0[m0].expires_at);
                }
            }
            assert forall|i2: int, j2: int| 0 <= i2 < j2 < s1.len() implies s1[i2].user_id
                != s1[j2].user_id by {
                lemma_filter_distinct(s0, pred, i2, j2);
            }
        }
    }

    /// Is the user online at time `now`?
    pub fn is_online(&self, user_id: u128, now: u64) -> (r: bool)
        ensures
            r == self.online_at(user_id, now),
    {
        let n = self.online.len();
        let mut i: usize = 0;
        while i < n
            invariant
                n == self.online@.len(),
                0 <= i <= n,
                forall|j: int|
                    0 <= j < i ==> !(self.online@[j].user_id == user_id && now
                        < self.online@[j].expires_at),
            decreases n - i,
        {
            let mark = &self.online[i];
            if mark.user_id == user_id && now < mark.expires_at {
                return true;
            }
            i += 1;
        }
        false
    }

    /// Index of the (community, user) member marker, live or not.
    fn find_member(&self, community_id: u128, user_id: u128) -> (r: Option<usize>)
        ensures
            match r {
                Some(idx) => 0 <= idx < self.members@.len() && self.members@[
                    idx as int
                ].community_id == community_id && self.members@[idx as int].user_id == user_id,
                None => forall|j: int|
                    0 <= j < self.members@.len() ==> !(self.members@[j].community_id
                        == community_id && self.members@[j].user_id == user_id),
            },
    {
        let n = self.members.len();
        let mut i: usize = 0;
        while i < n
            invariant
                n == self.members@.len(),
                0 <= i <= n,
                forall|j: int|
                    0 <= j < i ==> !(self.members@[j].community_id == community_id
                        && self.members@[j].user_id == user_id),
            decreases n - i,
        {
            let m = &self.members[i];
            if m.community_id == community_id && m.user_id == user_id {
                return Some(i);
            }
            i += 1;
        }
        None
    }

    /// Join (or re-join) a community: the member's marker is set or
    /// refreshed to live for exactly the TTL from `now`; every other
    /// membership and every online marker is untouched.
    pub fn join_community(&mut self, community_id: u128, user_id: u128, now: u64)
        requires
            old(self).wf(),
            now <= PRESENCE_CLOCK_MAX,
        ensures
            final(self).wf(),
            forall|t: u64|
                final(self).community_has(community_id, user_id, t) == (t < now
                    + PRESENCE_TTL_SECS),
            forall|c: u128, u: u128, t: u64|
                !(c == community_id && u == user_id) ==> final(self).community_has(c, u, t) == old(
                    self,
                ).community_has(c, u, t),
            forall|u: u128, t: u64| final(self).online_at(u, t) == old(self).online_at(u, t),
    {
        let mark = MemberMark { community_id, user_id, expires_at: now + PRESENCE_TTL_SECS };
        match self.find_member(community_id, user_id) {
            Some(idx) => {
                self.members[idx] = mark;
                proof {
                    let s0 = old(self).members@;
                    let s1 = self.members@;
                    let k = idx as int;
                    assert(s1 =~= s0.update(k, mark));
                    assert(self.online == old(self).online);
                    assert forall|i: int|
                        0 <= i < s0.len() && i != k implies !(s0[i].community_id == community_id
                            && s0[i].user_id == user_id) by {}
                    assert forall|t: u64| self.community_has(community_id, user_id, t) == (t < now
                        + PRESENCE_TTL_SECS) by {
                        if t < now + PRESENCE_TTL_SECS {
                            assert(member_live(s1[k], community_id, t) && s1[k].user_id == user_id);
                        }
                        if self.community_has(community_id, user_id, t) {
                            let m = choose|m: int|
                                0 <= m < s1.len() && member_live(s1[m], community_id, t)
                                    && s1[m].user_id == user_id;
                            assert(m == k);
                        }
                    }
                    assert forall|c: u128, u: u128, t: u64|
                        !(c == community_id && u == user_id) implies self.community_has(c, u, t)
                        == old(self).community_has(c, u, t) by {
                        if old(self).community_has(c, u, t) {
                            let m = choose|m: int|
                                0 <= m < s0.len() && member_live(s0[m], c, t) && s0[m].user_id
                                    == u;
                            assert(member_live(s1[m], c, t) && s1[m].user_id == u);
                        }
                        if self.community_has(c, u, t) {
                            let m = choose|m: int|
                                0 <= m < s1.len() && member_live(s1[m], c, t) && s1[m].user_id
                                    == u;
                            assert(member_live(s0[m], c, t) && s0[m].user_id == u);
                        }
                    }
                }
            }
            None => {
                self.members.push(mark);
                proof {
                    let s0 = old(self).members@;
                    let s1 = self.members@;
                    assert(self.online == old(self).online);
                    assert forall|t: u64| self.community_has(community_id, user_id, t) == (t < now
                        + PRESENCE_TTL_SECS) by {
                        if t < now + PRESENCE_TTL_SECS {
                            assert(member_live(s1[s1.len() - 1], community_id, t) && s1[s1.len()
                                - 1].user_id == user_id);
                        }
                        if self.community_has(community_id, user_id, t) {
                            let m = choose|m: int|
                                0 <= m < s1.len() && member_live(s1[m], community_id, t)
                                    && s1[m].user_id == user_id;
                            assert(m == s1.len() - 1);
                        }
                    }
                    assert forall|c: u128, u: u128, t: u64|
                        !(c == community_id && u == user_id) implies self.community_has(c, u, t)
                        == old(self).community_has(c, u, t) by {
                        if old(self).community_has(c, u, t) {
                            let m = choose|m: int|
                                0 <= m < s0.len() && member_live(s0[m], c, t) && s0[m].user_id
                                    == u;
                            assert(member_live(s1[m], c, t) && s1[m].user_id == u);
                        }
                        if self.community_has(c, u, t) {
                            let m = choose|m: int|
                                0 <= m < s1.len() && member_live(s1[m], c, t) && s1[m].user_id
                                    == u;
                            assert(member_live(s0[m], c, t) && s0[m].user_id == u);
                        }
                    }
                }
            }
        }
    }

    /// Leave a community: the member's marker goes entirely; every other
    /// membership and every online marker is untouched.
    pub fn leave_community(&mut self, community_id: u128, user_id: u128)
        requires
            old(self).wf(),
        ensures
            final(self).wf(),
            forall|t: u64| !final(self).community_has(community_id, user_id, t),
            forall|c: u128, u: u128, t: u64|
                !(c == community_id && u == user_id) ==> final(self).community_has(c, u, t) == old(
                    self,
                ).community_has(c, u, t),
            forall|u: u128, t: u64| final(self).online_at(u, t) == old(self).online_at(u, t),
    {
        let ghost pred = |m: MemberMark| !(m.community_id == community_id && m.user_id == user_id);
        let n = self.members.len();
        let mut out: Vec<MemberMark> = Vec::new();
        let mut i: usize = 0;
        while i < n
            invariant
                n == self.members@.len(),
                0 <= i <= n,
                out@ == self.members@.take(i as int).filter(pred),
                pred == (|m: MemberMark| !(m.community_id == community_id && m.user_id
                    == user_id)),
            decreases n - i,
        {
            let m = self.members[i];
            proof {
                assert(self.members@.take(i + 1) =~= self.members@.take(i as int).push(
                    self.members@[i as int],
                ));
                lemma_filter_push(self.members@.take(i as int), self.members@[i as int], pred);
            }
            if !(m.community_id == community_id && m.user_id == user_id) {
                out.push(m);
            }
            i += 1;
        }
        proof {
            assert(self.members@.take(n as int) =~= self.members@);
        }
        self.members = out;
        proof {
            let s0 = old(self).members@;
            let s1 = self.members@;
            s0.filter_lemma(pred);
            assert(self.online == old(self).online);
            assert forall|c: u128, u: u128, t: u64|
                !(c == community_id && u == user_id) implies self.community_has(c, u, t) == old(
                self,
            ).community_has(c, u, t) by {
                if old(self).community_has(c, u, t) {
                    let m = choose|m: int|
                        0 <= m < s0.len() && member_live(s0[m], c, t) && s0[m].user_id == u;
                    assert(pred(s0[m]));
                    assert(s1.contains(s0[m]));
                    let m1 = choose|m1: int| 0 <= m1 < s1.len() && s1[m1] == s0[m];
                    assert(member_live(s1[m1], c, t) && s1[m1].user_id == u);
                }
                if self.community_has(c, u, t) {
                    let m = choose|m: int|
                        0 <= m < s1.len() && member_live(s1[m], c, t) && s1[m].user_id == u;
                    crate::seqtools::lemma_filter_source(s0, pred, m);
                    let m0 = choose|m0: int| 0 <= m0 < s0.len() && s0[m0] == s1[m];
                    assert(member_live(s0[m0], c, t) && s0[m0].user_id == u);
                }
            }
            assert forall|t: u64| !self.community_has(community_id, user_id, t) by {
                if self.community_has(community_id, user_id, t) {
                    let m = choose|m: int|
                        0 <= m < s1.len() && member_live(s1[m], community_id, t) && s1[m].user_id
                            == user_id;
                    assert(!pred(s1[m]));
                    s0.lemma_filter_pred(pred, m);
                }
            }
            assert forall|i2: int, j2: int| 0 <= i2 < j2 < s1.len() implies !(s1[i2].community_id
                == s1[j2].community_id && s1[i2].user_id == s1[j2].user_id) by {
                lemma_member_filter_distinct(s0, pred, i2, j2);
            }
        }
    }

    /// How many members of the community are live at `now`.
    pub fn community_online_count(&self, community_id: u128, now: u64) -> (r: u64)
        ensures
            r == self.community_live(community_id, now).len(),
    {
        let ghost pred = |m: MemberMark| member_live(m, community_id, now);
        let n = self.members.len();
        let mut count: u64 = 0;
        let mut i: usize = 0;
        while i < n
            invariant
                n == self.members@.len(),
                0 <= i <= n,
                count == self.members@.take(i as int).filter(pred).len(),
                count <= i,
                pred == (|m: MemberMark| member_live(m, community_id, now)),
            decreases n - i,
        {
            let m = &self.members[i];
            proof {
                assert(self.members@.take(i + 1) =~= self.members@.take(i as int).push(
                    self.members@[i as int],
                ));
                lemma_filter_push(self.members@.take(i as int), self.members@[i as int], pred);
            }
            if m.community_id == community_id && now < m.expires_at {
                count += 1;
            }
            i += 1;
        }
        proof {
            assert(self.members@.take(n as int) =~= self.members@);
        }
        count
    }

    /// The community's live member ids at `now`, in join order.
    pub fn community_online_users(&self, community_id: u128, now: u64) -> (r: Vec<u128>)
        ensures
            r@ == self.community_live(community_id, now),
    {
        let ghost pred = |m: MemberMark| member_live(m, community_id, now);
        let ghost f = |m: MemberMark| m.user_id;
        let n = self.members.len();
        let mut out: Vec<u128> = Vec::new();
        let mut i: usize = 0;
        while i < n
            invariant
                n == self.members@.len(),
                0 <= i <= n,
                out@ == self.members@.take(i as int).filter(pred).map_values(f),
                pred == (|m: MemberMark| member_live(m, community_id, now)),
                f == (|m: MemberMark| m.user_id),
            decreases n - i,
        {
            let m = &self.members[i];
            proof {
                assert(self.members@.take(i + 1) =~= self.members@.take(i as int).push(
                    self.members@[i as int],
                ));
                lemma_filter_push(self.members@.take(i as int), self.members@[i as int], pred);
                if pred(self.members@[i as int]) {
                    assert(self.members@.take(i as int).filter(pred).push(
                        self.members@[i as int],
                    ).map_values(f) =~= self.members@.take(i as int).filter(pred).map_values(
                        f,
                    ).push(f(self.members@[i as int])));
                }
            }
            if m.community_id == community_id && now < m.expires_at {
                out.push(m.user_id);
            }
            i += 1;
        }
        proof {
            assert(self.members@.take(n as int) =~= self.members@);
        }
        out
    }
}

impl PresenceStore {
    /// Law (community presence): the live member list holds exactly the
    /// users whose membership is live — each at most once — so the online
    /// count counts distinct live members.
    pub proof fn lemma_community_live_members(&self, community_id: u128, t: u64)
        requires
            self.wf(),
        ensures
            forall|v: u128|
                self.community_live(community_id, t).contains(v) <==> self.community_has(
                    community_id,
                    v,
                    t,
                ),
            forall|i: int, j: int|
                0 <= i < j < self.community_live(community_id, t).len()
                    ==> self.community_live(community_id, t)[i] != self.community_live(
                    community_id,
                    t,
                )[j],
    {
        let s = self.members@;
        let pred = |m: MemberMark| member_live(m, community_id, t);
        let f = s.filter(pred);
        let live = self.community_live(community_id, t);
        assert forall|v: u128| live.contains(v) implies self.community_has(
            community_id,
            v,
            t,
        ) by {
            let k = choose|k: int| 0 <= k < live.len() && live[k] == v;
            assert(live[k] == f[k].user_id);
            s.lemma_filter_pred(pred, k);
            crate::seqtools::lemma_filter_source(s, pred, k);
            let m = choose|m: int| 0 <= m < s.len() && s[m] == f[k];
            assert(member_live(s[m], community_id, t) && s[m].user_id == v);
        }
        assert forall|v: u128| self.community_has(community_id, v, t) implies live.contains(
            v,
        ) by {
            let m = choose|m: int|
                0 <= m < s.len() && member_live(s[m], community_id, t) && s[m].user_id == v;
            s.lemma_filter_contains(pred, m);
            let k = choose|k: int| 0 <= k < f.len() && f[k] == s[m];
            assert(live[k] == v);
        }
        assert forall|i: int, j: int| 0 <= i < j < live.len() implies live[i] != live[j] by {
            lemma_member_filter_distinct(s, pred, i, j);
            s.lemma_filter_pred(pred, i);
            s.lemma_filter_pred(pred, j);
            assert(live[i] == f[i].user_id && live[j] == f[j].user_id);
        }
    }
}

/// On a member table whose (community, user) pairs are pairwise distinct,
/// a filter keeps them pairwise distinct.
proof fn lemma_member_filter_distinct(
    s: Seq<MemberMark>,
    pred: spec_fn(MemberMark) -> bool,
    i: int,
    j: int,
)
    requires
        forall|a: int, b: int|
            0 <= a < b < s.len() ==> !(s[a].community_id == s[b].community_id && s[a].user_id
                == s[b].user_id),
        0 <= i < j < s.filter(pred).len(),
    ensures
        !(s.filter(pred)[i].community_id == s.filter(pred)[j].community_id && s.filter(
            pred,
        )[i].user_id == s.filter(pred)[j].user_id),
    decreases s.len(),
{
    reveal(Seq::filter);
    if s.len() > 0 {
        let d = s.drop_last();
        let f = s.filter(pred);
        let fd = d.filter(pred);
        if pred(s.last()) && j == f.len() - 1 {
            assert(f[i] == fd[i]);
            crate::seqtools::lemma_filter_source(d, pred, i);
            let m = choose|m: int| 0 <= m < d.len() && d[m] == fd[i];
            assert(s[m] == f[i]);
            assert(!(s[m].community_id == s[s.len() - 1].community_id && s[m].user_id == s[s.len()
                - 1].user_id));
        } else {
            assert(f[i] == fd[i] && f[j] == fd[j]);
            lemma_member_filter_distinct(d, pred, i, j);
        }
    }
}

/// On a sequence whose elements carry pairwise-distinct user ids, a filter
/// keeps them pairwise distinct.
proof fn lemma_filter_distinct(s: Seq<OnlineMark>, pred: spec_fn(OnlineMark) -> bool, i: int, j: int)
    requires
        forall|a: int, b: int| 0 <= a < b < s.len() ==> s[a].user_id != s[b].user_id,
        0 <= i < j < s.filter(pred).len(),
    ensures
        s.filter(pred)[i].user_id != s.filter(pred)[j].user_id,
    decreases s.len(),
{
    reveal(Seq::filter);
    if s.len() > 0 {
        let d = s.drop_last();
        let f = s.filter(pred);
        let fd = d.filter(pred);
        if pred(s.last()) && j == f.len() - 1 {
            assert(f[i] == fd[i]);
            crate::seqtools::lemma_filter_source(d, pred, i);
            let m = choose|m: int| 0 <= m < d.len() && d[m] == fd[i];
            assert(s[m] == f[i]);
            assert(s[m].user_id != s[s.len() - 1].user_id);
        } else {
            assert(f[i] == fd[i] && f[j] == fd[j]);
            lemma_filter_distinct(d, pred, i, j);
        }
    }
}

} // verus!
