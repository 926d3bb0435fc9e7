use vstd::prelude::*;

verus! {

/// Seconds in a day.
pub const SECONDS_PER_DAY: u64 = 24 * 60 * 60;

/// Votes per day that keep an article on the hot list for that day.
pub const VOTES_PER_DAY: u64 = 200;

/// Score units added by one accepted vote: the number of seconds a single
/// vote keeps an article elevated on the hot list.
pub const VOTE_SCORE: u64 = SECONDS_PER_DAY / VOTES_PER_DAY;

/// A day's worth of seconds shared by a day's votes is 432 per vote.
pub proof fn lemma_vote_score_value()
    ensures
        VOTE_SCORE == 432,
{
}

} // verus!
