//! Typing-indicator register.
//!
//! One indicator per (user, post, optional parent comment) key, recording
//! when the user started composing and when they were last active. An
//! indicator is visible only while its last activity is less than
//! [`TYPING_TTL_SECS`] seconds old; a background sweep removes indicators
//! whose last activity is more than that. The register keeps its indicators
//! sorted by start time, so a snapshot for a thread lists first-to-start
//! first.

use vstd::prelude::*;

use crate::seqtools::lemma_filter_push;

verus! {

/// Seconds of inactivity after which a typing indicator stops being shown.
pub const TYPING_TTL_SECS: u64 = 30;

/// One user actively composing a reply in one thread.
///
/// The thread is a post, or a comment under a post when
/// `parent_comment_id` is set. Times are seconds since an arbitrary epoch,
/// supplied by the caller.
#[derive(Clone, Copy, PartialEq, Eq, Structural, Debug)]
pub struct TypingIndicator {
    pub user_id: u128,
    pub post_id: u128,
    pub parent_comment_id: Option<u128>,
    pub started_at: u64,
    pub last_activity_at: u64,
}

/// Entry of a typing snapshot: who is typing and since when.
#[derive(Clone, Copy, PartialEq, Eq, Structural, Debug)]
pub struct TypingUser {
    pub user_id: u128,
    pub started_at: u64,
}

/// True when `i` is the indicator for exactly this (user, post, parent) key.
/// A missing parent comment matches only a missing parent comment.
pub open spec fn has_key(i: TypingIndicator, user_id: u128, post_id: u128, parent: Option<u128>) -> bool {
    i.user_id == user_id && i.post_id == post_id && i.parent_comment_id == parent
}

/// True when two indicators share their (user, post, parent) key.
pub open spec fn same_key(a: TypingIndicator, b: TypingIndicator) -> bool {
    has_key(a, b.user_id, b.post_id, b.parent_comment_id)
}

/// True when `i` belongs to the thread (post, parent), whoever is typing.
pub open spec fn in_context(i: TypingIndicator, post_id: u128, parent: Option<u128>) -> bool {
    i.post_id == post_id && i.parent_comment_id == parent
}

/// Visible at time `now`: last activity less than the TTL ago.
pub open spec fn active_at(i: TypingIndicator, now: u64) -> bool {
    now < i.last_activity_at + TYPING_TTL_SECS
}

/// Swept at time `now`: last activity more than the TTL ago.
pub open spec fn stale_at(i: TypingIndicator, now: u64) -> bool {
    i.last_activity_at + TYPING_TTL_SECS < now
}

/// `i` with its last activity refreshed to `now`.
pub open spec fn refreshed(i: TypingIndicator, now: u64) -> TypingIndicator {
    TypingIndicator { last_activity_at: now, ..i }
}

/// Snapshot entry drawn from an indicator.
pub open spec fn to_typing_user(i: TypingIndicator) -> TypingUser {
    TypingUser { user_id: i.user_id, started_at: i.started_at }
}

/// Position at which an indicator started at `t` is inserted to keep the
/// register sorted by start time: after every indicator that started at or
/// before `t`, so simultaneous starts keep their arrival order.
pub open spec fn insert_pos(s: Seq<TypingIndicator>, t: u64) -> int
    decreases s.len(),
{
    if s.len() == 0 {
        0
    } else if s[0].started_at <= t {
        1 + insert_pos(s.subrange(1, s.len() as int), t)
    } else {
        0
    }
}

/// True when some indicator in `s` has exactly this key.
pub open spec fn has_key_in(
    s: Seq<TypingIndicator>,
    user_id: u128,
    post_id: u128,
    parent: Option<u128>,
) -> bool {
    exists|i: int| 0 <= i < s.len() && has_key(s[i], user_id, post_id, parent)
}

/// The register after a start-typing upsert: a present key has only its
/// last activity refreshed, an absent key is inserted in start-time
/// order as a fresh indicator.
pub open spec fn upserted(
    s: Seq<TypingIndicator>,
    user_id: u128,
    post_id: u128,
    parent: Option<u128>,
    now: u64,
) -> Seq<TypingIndicator> {
    if has_key_in(s, user_id, post_id, parent) {
        Seq::new(
            s.len(),
            |i: int|
                if has_key(s[i], user_id, post_id, parent) {
                    refreshed(s[i], now)
                } else {
                    s[i]
                },
        )
    } else {
        s.insert(
            insert_pos(s, now),
            TypingIndicator {
                user_id,
                post_id,
                parent_comment_id: parent,
                started_at: now,
                last_activity_at: now,
            },
        )
    }
}

/// The register after a heartbeat: the matching key, if any, has its
/// last activity refreshed; nothing else moves.
pub open spec fn refreshed_where(
    s: Seq<TypingIndicator>,
    user_id: u128,
    post_id: u128,
    parent: Option<u128>,
    now: u64,
) -> Seq<TypingIndicator> {
    Seq::new(
        s.len(),
        |i: int|
            if has_key(s[i], user_id, post_id, parent) {
                refreshed(s[i], now)
            } else {
                s[i]
            },
    )
}

/// The register of live typing indicators.
pub struct TypingRegister {
    indicators: Vec<TypingIndicator>,
}

impl View for TypingRegister {
    type V = Seq<TypingIndicator>;

    closed spec fn view(&self) -> Seq<TypingIndicator> {
        self.indicators@
    }
}

impl TypingRegister {
    /// At most one indicator per (user, post, parent) key, sorted by start
    /// time so snapshots come out first-to-start first.
    pub open spec fn wf(&self) -> bool {
        (forall|i: int, j: int|
            0 <= i < j < self@.len() ==> !same_key(self@[i], self@[j]))
        && (forall|i: int, j: int|
            0 <= i <= j < self@.len() ==> self@[i].started_at <= self@[j].started_at)
    }

    /// True when the exact (user, post, parent) key has an indicator,
    /// whether or not it is still visible.
    pub open spec fn has(&self, user_id: u128, post_id: u128, parent: Option<u128>) -> bool {
        has_key_in(self@, user_id, post_id, parent)
    }

    pub fn new() -> (r: Self)
        ensures
            r.wf(),
            r@ == Seq::<TypingIndicator>::empty(),
    {
        TypingRegister { indicators: Vec::new() }
    }

    /// Number of indicators currently stored, visible or not.
    pub fn len(&self) -> (r: usize)
        ensures
            r == self@.len(),
    {
        self.indicators.len()
    }

    /// Start (or keep) typing: upsert on the exact key. A key already
    /// present only has its last activity refreshed — its start time and
    /// place in the order stay; a new key is inserted in start-time order,
    /// after any indicator started at the same second.
    pub fn start_typing(&mut self, user_id: u128, post_id: u128, parent: Option<u128>, now: u64)
        requires
            old(self).wf(),
        ensures
            final(self).wf(),
            final(self)@ == upserted(old(self)@, user_id, post_id, parent, now),
            final(self).has(user_id, post_id, parent),
    {
        match self.find_key(user_id, post_id, parent) {
            Some(idx) => {
                let mut ind = self.indicators[idx];
                ind.last_activity_at = now;
                self.indicators[idx] = ind;
                proof {
                    let s0 = old(self)@;
                    let s1 = self@;
                    let k = idx as int;
                    assert(s1 =~= s0.update(k, refreshed(s0[k], now)));
                    assert forall|i: int|
                        0 <= i < s0.len() && i != k implies !has_key(
                        s0[i],
                        user_id,
                        post_id,
                        parent,
                    ) by {
                        if has_key(s0[i], user_id, post_id, parent) {
                            if i < k {
                                assert(same_key(s0[i], s0[k]));
                            } else {
                                assert(same_key(s0[k], s0[i]));
                            }
                        }
                    }
                    assert forall|i: int, j: int| 0 <= i < j < s1.len() implies !same_key(
                        s1[i],
                        s1[j],
                    ) by {
                        assert(!same_key(s0[i], s0[j]));
                    }
                    assert forall|i: int, j: int|
                        0 <= i <= j < s1.len() implies s1[i].started_at <= s1[j].started_at by {
                        assert(s0[i].started_at <= s0[j].started_at);
                    }
                    assert(has_key(s1[k], user_id, post_id, parent));
                    assert(s1 =~= upserted(s0, user_id, post_id, parent, now));
                }
            }
            None => {
                let pos = self.sorted_pos(now);
                let ind = TypingIndicator {
                    user_id,
                    post_id,
                    parent_comment_id: parent,
                    started_at: now,
                    last_activity_at: now,
                };
                self.indicators.insert(pos, ind);
                proof {
                    let s0 = old(self)@;
                    let s1 = self@;
                    let p = pos as int;
                    s0.insert_ensures(p, ind);
                    assert(has_key(s1[p], user_id, post_id, parent));
                    assert forall|m: int| 0 <= m < s0.len() implies !has_key(
                        s0[m],
                        user_id,
                        post_id,
                        parent,
                    ) by {}
                    assert forall|i: int, j: int| 0 <= i < j < s1.len() implies !same_key(
                        s1[i],
                        s1[j],
                    ) by {
                        if i == p {
                            assert(s1[j] == s0[j - 1]);
                        } else if j == p {
                            assert(s1[i] == s0[i]);
                        } else {
                            let i0: int = if i < p { i } else { i - 1 };
                            let j0: int = if j < p { j } else { j - 1 };
                            assert(s1[i] == s0[i0] && s1[j] == s0[j0]);
                            assert(!same_key(s0[i0], s0[j0]));
                        }
                    }
                    assert forall|i: int, j: int|
                        0 <= i <= j < s1.len() implies s1[i].started_at <= s1[j].started_at by {
                        if i == p && j == p {
                        } else if i == p {
                            assert(s1[j] == s0[j - 1]);
                            assert(s0[p] == s0[j - 1] || s0[p].started_at <= s0[j - 1].started_at);
                        } else if j == p {
                            assert(s1[i] == s0[i]);
                        } else {
                            let i0: int = if i < p { i } else { i - 1 };
                            let j0: int = if j < p { j } else { j - 1 };
                            assert(s1[i] == s0[i0] && s1[j] == s0[j0]);
                            assert(s0[i0].started_at <= s0[j0].started_at);
                        }
                    }
                }
            }
        }
    }

    /// Index of the indicator with this exact key, if any.
    fn find_key(&self, user_id: u128, post_id: u128, parent: Option<u128>) -> (r: Option<usize>)
        requires
            self.wf(),
        ensures
            match r {
                Some(idx) => 0 <= idx < self@.len() && has_key(self@[idx as int], user_id, post_id, parent),
                None => !self.has(user_id, post_id, parent),
            },
    {
        let n = self.indicators.len();
        let mut i: usize = 0;
        while i < n
            invariant
                n == self@.len(),
                0 <= i <= n,
                forall|j: int| 0 <= j < i ==> !has_key(self@[j], user_id, post_id, parent),
            decreases n - i,
        {
            let ind = &self.indicators[i];
            if ind.user_id == user_id && ind.post_id == post_id
                && opt_eq(&ind.parent_comment_id, &parent) {
                return Some(i);
            }
            i += 1;
        }
        None
    }

    /// First index whose indicator started strictly after `t`, i.e. where
    /// an indicator started at `t` is inserted to keep the order stable.
    fn sorted_pos(&self, t: u64) -> (r: usize)
        requires
            self.wf(),
        ensures
            r == insert_pos(self@, t),
            0 <= r <= self@.len(),
            forall|j: int| 0 <= j < r ==> self@[j].started_at <= t,
            r < self@.len() ==> self@[r as int].started_at > t,
    {
        let n = self.indicators.len();
        let mut i: usize = 0;
        while i < n
            invariant
                n == self@.len(),
                0 <= i <= n,
                forall|j: int| 0 <= j < i ==> self@[j].started_at <= t,
                self.wf(),
            decreases n - i,
        {
            if self.indicators[i].started_at > t {
                proof {
                    lemma_insert_pos_bound(self@, t, i as int);
                }
                return i;
            }
            i += 1;
        }
        proof {
            lemma_insert_pos_bound(self@, t, n as int);
        }
        n
    }

    /// Stop typing: delete the indicator with the exact (user, post,
    /// parent) key, if present. An absent parent comment matches only an
    /// absent one, so stopping on the post never removes an indicator for
    /// a comment thread, and vice versa.
    pub fn stop_typing(&mut self, user_id: u128, post_id: u128, parent: Option<u128>)
        requires
            old(self).wf(),
        ensures
            final(self).wf(),
            final(self)@ == old(self)@.filter(
                |i: TypingIndicator| !has_key(i, user_id, post_id, parent),
            ),
    {
        let ghost pred = |i: TypingIndicator| !has_key(i, user_id, post_id, parent);
        let n = self.indicators.len();
        let mut out: Vec<TypingIndicator> = Vec::new();
        let mut i: usize = 0;
        while i < n
            invariant
                n == self@.len(),
                0 <= i <= n,
                out@ == self@.take(i as int).filter(pred),
                pred == (|i: TypingIndicator| !has_key(i, user_id, post_id, parent)),
            decreases n - i,
        {
            let ind = self.indicators[i];
            proof {
                assert(self@.take(i + 1) =~= self@.take(i as int).push(self@[i as int]));
                lemma_filter_push(self@.take(i as int), self@[i as int], pred);
            }
            if !(ind.user_id == user_id && ind.post_id == post_id
                && opt_eq(&ind.parent_comment_id, &parent)) {
                out.push(ind);
            }
            i += 1;
        }
        proof {
            assert(self@.take(n as int) =~= self@);
            lemma_filter_wf(self@, pred);
        }
        self.indicators = out;
    }

    /// Heartbeat: refresh the last activity of the indicator with the
    /// exact key; do nothing when no such indicator exists.
    pub fn update_activity(&mut self, user_id: u128, post_id: u128, parent: Option<u128>, now: u64)
        requires
            old(self).wf(),
        ensures
            final(self).wf(),
            final(self)@ == refreshed_where(old(self)@, user_id, post_id, parent, now),
    {
        match self.find_key(user_id, post_id, parent) {
            Some(idx) => {
                let mut ind = self.indicators[idx];
                ind.last_activity_at = now;
                self.indicators[idx] = ind;
                proof {
                    let s0 = old(self)@;
                    let s1 = self@;
                    let k = idx as int;
                    assert(s1 =~= s0.update(k, refreshed(s0[k], now)));
                    assert forall|i: int|
                        0 <= i < s0.len() && i != k implies !has_key(
                        s0[i],
                        user_id,
                        post_id,
                        parent,
                    ) by {
                        if has_key(s0[i], user_id, post_id, parent) {
                            if i < k {
                                assert(same_key(s0[i], s0[k]));
                            } else {
                                assert(same_key(s0[k], s0[i]));
                            }
                        }
                    }
                    assert forall|i: int, j: int| 0 <= i < j < s1.len() implies !same_key(
                        s1[i],
                        s1[j],
                    ) by {
                        assert(!same_key(s0[i], s0[j]));
                    }
                    assert forall|i: int, j: int|
                        0 <= i <= j < s1.len() implies s1[i].started_at <= s1[j].started_at by {
                        assert(s0[i].started_at <= s0[j].started_at);
                    }
                    assert(s1 =~= refreshed_where(s0, user_id, post_id, parent, now));
                }
            }
            None => {
                proof {
                    assert(self@ =~= refreshed_where(old(self)@, user_id, post_id, parent, now));
                }
            }
        }
    }

    /// The authoritative read behind every typing broadcast: all visible
    /// indicators of the thread (post, parent) at time `now`, first to
    /// start first.
    pub fn get_typing_users(&self, post_id: u128, parent: Option<u128>, now: u64) -> (r: Vec<
        TypingUser,
    >)
        ensures
            r@ == snapshot_of(self@, post_id, parent, now),
    {
        let n = self.indicators.len();
        let mut out: Vec<TypingUser> = Vec::new();
        let mut i: usize = 0;
        while i < n
            invariant
                n == self@.len(),
                0 <= i <= n,
                out@ == snapshot_of(self@.take(i as int), post_id, parent, now),
            decreases n - i,
        {
            let ind = self.indicators[i];
            proof {
                assert(self@.take(i + 1) =~= self@.take(i as int).push(self@[i as int]));
                lemma_snapshot_push(self@.take(i as int), self@[i as int], post_id, parent, now);
            }
            if ind.post_id == post_id && opt_eq(&ind.parent_comment_id, &parent)
                && is_active(ind.last_activity_at, now) {
                out.push(TypingUser { user_id: ind.user_id, started_at: ind.started_at });
            }
            i += 1;
        }
        proof {
            assert(self@.take(n as int) =~= self@);
        }
        out
    }

    /// Background sweep: delete every indicator whose last activity is
    /// more than the TTL old; returns how many went.
    pub fn cleanup_expired(&mut self, now: u64) -> (r: u64)
        requires
            old(self).wf(),
        ensures
            final(self).wf(),
            final(self)@ == old(self)@.filter(|i: TypingIndicator| !stale_at(i, now)),
            r == old(self)@.len() - final(self)@.len(),
    {
        let ghost pred = |i: TypingIndicator| !stale_at(i, now);
        let n = self.indicators.len();
        let mut out: Vec<TypingIndicator> = Vec::new();
        let mut i: usize = 0;
        while i < n
            invariant
                n == self@.len(),
                0 <= i <= n,
                out@ == self@.take(i as int).filter(pred),
                out@.len() <= i,
                pred == (|i: TypingIndicator| !stale_at(i, now)),
            decreases n - i,
        {
            let ind = self.indicators[i];
            proof {
                assert(self@.take(i + 1) =~= self@.take(i as int).push(self@[i as int]));
                lemma_filter_push(self@.take(i as int), self@[i as int], pred);
            }
            if !is_stale(ind.last_activity_at, now) {
                out.push(ind);
            }
            i += 1;
        }
        proof {
            assert(self@.take(n as int) =~= self@);
            lemma_filter_wf(self@, pred);
        }
        let kept = out.len();
        self.indicators = out;
        (n - kept) as u64
    }

    /// Connection teardown: delete every indicator of this user, in any
    /// thread; returns how many went.
    pub fn cleanup_for_user(&mut self, user_id: u128) -> (r: u64)
        requires
            old(self).wf(),
        ensures
            final(self).wf(),
            final(self)@ == old(self)@.filter(|i: TypingIndicator| i.user_id != user_id),
            r == old(self)@.len() - final(self)@.len(),
    {
        let ghost pred = |i: TypingIndicator| i.user_id != user_id;
        let n = self.indicators.len();
        let mut out: Vec<TypingIndicator> = Vec::new();
        let mut i: usize = 0;
        while i < n
            invariant
                n == self@.len(),
                0 <= i <= n,
                out@ == self@.take(i as int).filter(pred),
                out@.len() <= i,
                pred == (|i: TypingIndicator| i.user_id != user_id),
            decreases n - i,
        {
            let ind = self.indicators[i];
            proof {
                assert(self@.take(i + 1) =~= self@.take(i as int).push(self@[i as int]));
                lemma_filter_push(self@.take(i as int), self@[i as int], pred);
            }
            if ind.user_id != user_id {
                out.push(ind);
            }
            i += 1;
        }
        proof {
            assert(self@.take(n as int) =~= self@);
            lemma_filter_wf(self@, pred);
        }
        let kept = out.len();
        self.indicators = out;
        (n - kept) as u64
    }

    /// Delete every indicator of one thread, whoever was typing; returns
    /// how many went.
    pub fn cleanup_for_context(&mut self, post_id: u128, parent: Option<u128>) -> (r: u64)
        requires
            old(self).wf(),
        ensures
            final(self).wf(),
            final(self)@ == old(self)@.filter(
                |i: TypingIndicator| !in_context(i, post_id, parent),
            ),
            r == old(self)@.len() - final(self)@.len(),
    {
        let ghost pred = |i: TypingIndicator| !in_context(i, post_id, parent);
        let n = self.indicators.len();
        let mut out: Vec<TypingIndicator> = Vec::new();
        let mut i: usize = 0;
        while i < n
            invariant
                n == self@.len(),
                0 <= i <= n,
                out@ == self@.take(i as int).filter(pred),
                out@.len() <= i,
                pred == (|i: TypingIndicator| !in_context(i, post_id, parent)),
            decreases n - i,
        {
            let ind = self.indicators[i];
            proof {
                assert(self@.take(i + 1) =~= self@.take(i as int).push(self@[i as int]));
                lemma_filter_push(self@.take(i as int), self@[i as int], pred);
            }
            if !(ind.post_id == post_id && opt_eq(&ind.parent_comment_id, &parent)) {
                out.push(ind);
            }
            i += 1;
        }
        proof {
            assert(self@.take(n as int) =~= self@);
            lemma_filter_wf(self@, pred);
        }
        let kept = out.len();
        self.indicators = out;
        (n - kept) as u64
    }

    /// Is this user visibly typing in this exact thread at time `now`?
    pub fn is_user_typing(
        &self,
        user_id: u128,
        post_id: u128,
        parent: Option<u128>,
        now: u64,
    ) -> (r: bool)
        ensures
            r == exists|i: int|
                0 <= i < self@.len() && has_key(#[trigger] self@[i], user_id, post_id, parent)
                    && active_at(self@[i], now),
    {
        let n = self.indicators.len();
        let mut i: usize = 0;
        while i < n
            invariant
                n == self@.len(),
                0 <= i <= n,
                forall|j: int|
                    0 <= j < i ==> !(has_key(#[trigger] self@[j], user_id, post_id, parent)
                        && active_at(self@[j], now)),
            decreases n - i,
        {
            let ind = self.indicators[i];
            if ind.user_id == user_id && ind.post_id == post_id
                && opt_eq(&ind.parent_comment_id, &parent)
                && is_active(ind.last_activity_at, now) {
                return true;
            }
            i += 1;
        }
        false
    }

    /// The (post, parent) thread keys in which this user has an
    /// indicator, visible or not, in register order.
    pub fn threads_of_user(&self, user_id: u128) -> (r: Vec<(u128, Option<u128>)>)
        ensures
            r@ == self@.filter(|i: TypingIndicator| i.user_id == user_id).map_values(
                |i: TypingIndicator| (i.post_id, i.parent_comment_id),
            ),
    {
        let ghost pred = |i: TypingIndicator| i.user_id == user_id;
        let ghost f = |i: TypingIndicator| (i.post_id, i.parent_comment_id);
        let n = self.indicators.len();
        let mut out: Vec<(u128, Option<u128>)> = Vec::new();
        let mut i: usize = 0;
        while i < n
            invariant
                n == self@.len(),
                0 <= i <= n,
                out@ == self@.take(i as int).filter(pred).map_values(f),
                pred == (|i: TypingIndicator| i.user_id == user_id),
                f == (|i: TypingIndicator| (i.post_id, i.parent_comment_id)),
            decreases n - i,
        {
            let ind = self.indicators[i];
            proof {
                assert(self@.take(i + 1) =~= self@.take(i as int).push(self@[i as int]));
                lemma_filter_push(self@.take(i as int), self@[i as int], pred);
                if pred(self@[i as int]) {
                    assert(self@.take(i as int).filter(pred).push(self@[i as int]).map_values(f)
                        =~= self@.take(i as int).filter(pred).map_values(f).push(
                        f(self@[i as int]),
                    ));
                }
            }
            if ind.user_id == user_id {
                out.push((ind.post_id, ind.parent_comment_id));
            }
            i += 1;
        }
        proof {
            assert(self@.take(n as int) =~= self@);
        }
        out
    }
}

/// Exec mirror of [`active_at`]: visible when last activity is under the
/// TTL ago (or not yet reached, under a skewed clock).
pub fn is_active(last_activity_at: u64, now: u64) -> (r: bool)
    ensures
        r == (now < last_activity_at + TYPING_TTL_SECS),
{
    if last_activity_at >= now {
        true
    } else {
        now - last_activity_at < TYPING_TTL_SECS
    }
}

/// Exec mirror of [`stale_at`]: swept when last activity is over the TTL
/// ago.
pub fn is_stale(last_activity_at: u64, now: u64) -> (r: bool)
    ensures
        r == (last_activity_at + TYPING_TTL_SECS < now),
{
    if now > TYPING_TTL_SECS {
        last_activity_at < now - TYPING_TTL_SECS
    } else {
        false
    }
}

/// The snapshot drawn from `s` for thread (post, parent) at time `now`:
/// the visible indicators of that thread, in register order, reduced to
/// who is typing and since when.
pub open spec fn snapshot_of(
    s: Seq<TypingIndicator>,
    post_id: u128,
    parent: Option<u128>,
    now: u64,
) -> Seq<TypingUser>
    decreases s.len(),
{
    if s.len() == 0 {
        Seq::empty()
    } else {
        let rest = snapshot_of(s.drop_last(), post_id, parent, now);
        if in_context(s.last(), post_id, parent) && active_at(s.last(), now) {
            rest.push(to_typing_user(s.last()))
        } else {
            rest
        }
    }
}

/// Appending one indicator extends the snapshot by at most that indicator.
proof fn lemma_snapshot_push(
    s: Seq<TypingIndicator>,
    e: TypingIndicator,
    post_id: u128,
    parent: Option<u128>,
    now: u64,
)
    ensures
        snapshot_of(s.push(e), post_id, parent, now) == if in_context(e, post_id, parent)
            && active_at(e, now) {
            snapshot_of(s, post_id, parent, now).push(to_typing_user(e))
        } else {
            snapshot_of(s, post_id, parent, now)
        },
{
    assert(s.push(e).drop_last() =~= s);
    assert(s.push(e).last() == e);
}

/// With every indicator before `k` started at or before `t` and (when
/// `k < len`) the one at `k` started after, `k` is the insertion point.
proof fn lemma_insert_pos_bound(s: Seq<TypingIndicator>, t: u64, k: int)
    requires
        0 <= k <= s.len(),
        forall|j: int| 0 <= j < k ==> s[j].started_at <= t,
        k < s.len() ==> s[k].started_at > t,
        forall|i: int, j: int| 0 <= i <= j < s.len() ==> s[i].started_at <= s[j].started_at,
    ensures
        insert_pos(s, t) == k,
    decreases s.len(),
{
    if s.len() == 0 {
    } else if s[0].started_at <= t {
        let tail = s.subrange(1, s.len() as int);
        lemma_insert_pos_bound(tail, t, k - 1);
    } else {
    }
}

/// Filtering keeps the register well formed: every survivor is an element
/// of the original, keys stay pairwise distinct and the start-time order
/// is preserved.
proof fn lemma_filter_wf(s: Seq<TypingIndicator>, pred: spec_fn(TypingIndicator) -> bool)
    requires
        forall|i: int, j: int| 0 <= i < j < s.len() ==> !same_key(s[i], s[j]),
        forall|i: int, j: int| 0 <= i <= j < s.len() ==> s[i].started_at <= s[j].started_at,
    ensures
        forall|i: int, j: int|
            0 <= i < j < s.filter(pred).len() ==> !same_key(
                s.filter(pred)[i],
                s.filter(pred)[j],
            ),
        forall|i: int, j: int|
            0 <= i <= j < s.filter(pred).len() ==> s.filter(pred)[i].started_at <= s.filter(
                pred,
            )[j].started_at,
        forall|k: int|
            0 <= k < s.filter(pred).len() ==> exists|m: int|
                0 <= m < s.len() && s[m] == #[trigger] s.filter(pred)[k],
    decreases s.len(),
{
    reveal(Seq::filter);
    if s.len() > 0 {
        let d = s.drop_last();
        let f = s.filter(pred);
        let fd = d.filter(pred);
        lemma_filter_wf(d, pred);
        assert forall|k: int| 0 <= k < f.len() implies exists|m: int|
            0 <= m < s.len() && s[m] == #[trigger] f[k] by {
            if pred(s.last()) && k == f.len() - 1 {
                assert(s[s.len() - 1] == f[k]);
            } else {
                assert(f[k] == fd[k]);
                let m = choose|m: int| 0 <= m < d.len() && d[m] == fd[k];
                assert(s[m] == f[k]);
            }
        }
        assert forall|i: int, j: int| 0 <= i < j < f.len() implies !same_key(f[i], f[j]) by {
            if pred(s.last()) && j == f.len() - 1 {
                let m = choose|m: int| 0 <= m < d.len() && d[m] == fd[i];
                assert(f[i] == s[m] && f[j] == s[s.len() - 1]);
                assert(!same_key(s[m], s[s.len() - 1]));
            } else {
                assert(f[i] == fd[i] && f[j] == fd[j]);
            }
        }
        assert forall|i: int, j: int|
            0 <= i <= j < f.len() implies f[i].started_at <= f[j].started_at by {
            if pred(s.last()) && j == f.len() - 1 {
                if i == j {
                } else {
                    let m = choose|m: int| 0 <= m < d.len() && d[m] == fd[i];
                    assert(f[i] == s[m] && f[j] == s[s.len() - 1]);
                    assert(s[m].started_at <= s[s.len() - 1].started_at);
                }
            } else {
                assert(f[i] == fd[i] && f[j] == fd[j]);
            }
        }
    }
}

/// Law (typing key exactness): deleting the indicator for one exact
/// (user, post, parent) key spares every indicator whose parent key
/// differs — stopping typing on a post never removes an indicator for a
/// comment thread under it, and vice versa.
pub proof fn lemma_stop_typing_key_exact(
    s: Seq<TypingIndicator>,
    user_id: u128,
    post_id: u128,
    parent: Option<u128>,
    j: int,
)
    requires
        0 <= j < s.len(),
        s[j].parent_comment_id != parent,
    ensures
        s.filter(|i: TypingIndicator| !has_key(i, user_id, post_id, parent)).contains(s[j]),
{
    Seq::lemma_filter_contains(s, |i: TypingIndicator| !has_key(i, user_id, post_id, parent), j);
}

/// Every snapshot entry is drawn from a visible indicator of the thread.
pub proof fn lemma_snapshot_source(
    s: Seq<TypingIndicator>,
    post_id: u128,
    parent: Option<u128>,
    now: u64,
    k: int,
)
    requires
        0 <= k < snapshot_of(s, post_id, parent, now).len(),
    ensures
        exists|m: int|
            0 <= m < s.len() && in_context(#[trigger] s[m], post_id, parent) && active_at(
                s[m],
                now,
            ) && to_typing_user(s[m]) == snapshot_of(s, post_id, parent, now)[k],
    decreases s.len(),
{
    let snap = snapshot_of(s, post_id, parent, now);
    if s.len() > 0 {
        let d = s.drop_last();
        let rest = snapshot_of(d, post_id, parent, now);
        if in_context(s.last(), post_id, parent) && active_at(s.last(), now) && k == snap.len()
            - 1 {
            assert(in_context(s[s.len() - 1], post_id, parent));
            assert(to_typing_user(s[s.len() - 1]) == snap[k]);
        } else {
            lemma_snapshot_source(d, post_id, parent, now, k);
            let m = choose|m: int|
                0 <= m < d.len() && in_context(#[trigger] d[m], post_id, parent) && active_at(
                    d[m],
                    now,
                ) && to_typing_user(d[m]) == rest[k];
            assert(s[m] == d[m]);
            assert(in_context(s[m], post_id, parent));
        }
    }
}

/// Every visible indicator of the thread appears in the snapshot.
pub proof fn lemma_snapshot_complete(
    s: Seq<TypingIndicator>,
    post_id: u128,
    parent: Option<u128>,
    now: u64,
    j: int,
)
    requires
        0 <= j < s.len(),
        in_context(s[j], post_id, parent),
        active_at(s[j], now),
    ensures
        snapshot_of(s, post_id, parent, now).contains(to_typing_user(s[j])),
    decreases s.len(),
{
    let snap = snapshot_of(s, post_id, parent, now);
    if s.len() > 0 {
        let d = s.drop_last();
        let rest = snapshot_of(d, post_id, parent, now);
        if j == s.len() - 1 {
            assert(snap[snap.len() - 1] == to_typing_user(s[j]));
        } else {
            assert(d[j] == s[j]);
            lemma_snapshot_complete(d, post_id, parent, now, j);
            let k = choose|k: int| 0 <= k < rest.len() && rest[k] == to_typing_user(s[j]);
            assert(snap[k] == to_typing_user(s[j]));
        }
    }
}

/// Law (typing expiry): an indicator of the thread whose last activity
/// is at least the TTL old contributes no snapshot entry — its user is
/// absent from `get_typing_users` even if typing was never stopped,
/// provided keys are unique as the register keeps them.
pub proof fn lemma_stale_excluded(
    s: Seq<TypingIndicator>,
    post_id: u128,
    parent: Option<u128>,
    now: u64,
    j: int,
)
    requires
        forall|i: int, j2: int| 0 <= i < j2 < s.len() ==> !same_key(s[i], s[j2]),
        0 <= j < s.len(),
        in_context(s[j], post_id, parent),
        !active_at(s[j], now),
    ensures
        forall|k: int|
            0 <= k < snapshot_of(s, post_id, parent, now).len() ==> #[trigger] snapshot_of(
                s,
                post_id,
                parent,
                now,
            )[k].user_id != s[j].user_id,
{
    let snap = snapshot_of(s, post_id, parent, now);
    assert forall|k: int| 0 <= k < snap.len() implies #[trigger] snap[k].user_id
        != s[j].user_id by {
        lemma_snapshot_source(s, post_id, parent, now, k);
        let m = choose|m: int|
            0 <= m < s.len() && in_context(#[trigger] s[m], post_id, parent) && active_at(
                s[m],
                now,
            ) && to_typing_user(s[m]) == snap[k];
        if snap[k].user_id == s[j].user_id {
            if m < j {
                assert(same_key(s[m], s[j]));
            } else if j < m {
                assert(same_key(s[j], s[m]));
            }
        }
    }
}

/// Law (typing snapshot ordering): on a register sorted by start time —
/// as [`TypingRegister::wf`] keeps it — every snapshot lists its users
/// by `started_at` ascending, first to start first.
pub proof fn lemma_snapshot_ordered(
    s: Seq<TypingIndicator>,
    post_id: u128,
    parent: Option<u128>,
    now: u64,
)
    requires
        forall|i: int, j: int| 0 <= i <= j < s.len() ==> s[i].started_at <= s[j].started_at,
    ensures
        forall|a: int, b: int|
            0 <= a <= b < snapshot_of(s, post_id, parent, now).len() ==> snapshot_of(
                s,
                post_id,
                parent,
                now,
            )[a].started_at <= snapshot_of(s, post_id, parent, now)[b].started_at,
    decreases s.len(),
{
    let snap = snapshot_of(s, post_id, parent, now);
    if s.len() > 0 {
        let d = s.drop_last();
        let rest = snapshot_of(d, post_id, parent, now);
        lemma_snapshot_ordered(d, post_id, parent, now);
        assert forall|a: int, b: int|
            0 <= a <= b < snap.len() implies snap[a].started_at <= snap[b].started_at by {
            if in_context(s.last(), post_id, parent) && active_at(s.last(), now) && b == snap.len()
                - 1 {
                if a < b {
                    lemma_snapshot_source(d, post_id, parent, now, a);
                    let m = choose|m: int|
                        0 <= m < d.len() && in_context(#[trigger] d[m], post_id, parent)
                            && active_at(d[m], now) && to_typing_user(d[m]) == rest[a];
                    assert(snap[a] == rest[a]);
                    assert(d[m] == s[m]);
                    assert(s[m].started_at <= s[s.len() - 1].started_at);
                }
            } else {
                assert(snap[a] == rest[a] && snap[b] == rest[b]);
            }
        }
    }
}

/// Field-by-field equality for optional ids.
pub fn opt_eq(a: &Option<u128>, b: &Option<u128>) -> (r: bool)
    ensures
        r == (*a == *b),
{
    match (a, b) {
        (Some(x), Some(y)) => *x == *y,
        (None, None) => true,
        _ => false,
    }
}

} // verus!
