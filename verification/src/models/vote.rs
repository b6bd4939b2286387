//! Voting types and the vote-delta rule.

use vstd::prelude::*;

verus! {

/// A caller's current vote as answered back: -1, 0 (none) or 1, plus
/// the resulting tallies.
#[derive(Clone, Copy, PartialEq, Eq, Structural, Debug)]
pub struct VoteResponse {
    pub user_vote: Option<i16>,
    pub upvotes: i32,
    pub downvotes: i32,
    pub score: i32,
}

/// A vote being cast: -1 down, 0 removes the vote, 1 up.
#[derive(Clone, Copy, PartialEq, Eq, Structural, Debug)]
pub struct VoteRequest {
    pub vote_type: i16,
}

impl VoteRequest {
    /// A vote is one of exactly three values.
    pub fn is_valid(&self) -> (r: bool)
        ensures
            r == (self.vote_type == -1 || self.vote_type == 0 || self.vote_type == 1),
    {
        self.vote_type == -1 || self.vote_type == 0 || self.vote_type == 1
    }
}

} // verus!
