use forum_server::constants::VOTE_SCORE;
use forum_server::forum::{Forum, ForumError, VoteOutcome};
use forum_server::hot_rank::HotRankIndex;
use forum_server::ledger::{VoteLedger, VoteRecord};
use forum_server::sequence::SequenceGenerator;

const NOW: u64 = 1_700_000_000;

fn forum_with_article() -> (Forum, u32) {
    let mut forum = Forum::new();
    let id = forum
        .create_article("T".to_string(), "C".to_string(), 1, vec!["x".to_string()], NOW)
        .unwrap();
    (forum, id)
}

#[test]
fn vote_score_is_432() {
    assert_eq!(VOTE_SCORE, 432);
    assert_eq!(VOTE_SCORE, 86400 / 200);
}

#[test]
fn two_hundred_voters_lift_a_day() {
    let (mut forum, id) = forum_with_article();
    let base = forum.score_of(id).unwrap();
    let mut accepted = 0;
    for voter in 1..=200u32 {
        if forum.cast_vote(id, voter) == VoteOutcome::Accepted {
            accepted += 1;
        }
    }
    assert_eq!(accepted, 200);
    assert_eq!(forum.score_of(id).unwrap() - base, 200 * 432);
    assert_eq!(forum.score_of(id).unwrap() - base, 86400);
}

#[test]
fn second_vote_of_voter_five_is_duplicate() {
    let (mut forum, id) = forum_with_article();
    let base = forum.score_of(id).unwrap();
    assert_eq!(forum.cast_vote(id, 5), VoteOutcome::Accepted);
    assert_eq!(forum.score_of(id).unwrap(), base + 432);
    assert_eq!(forum.cast_vote(id, 5), VoteOutcome::Duplicate);
    assert_eq!(forum.score_of(id).unwrap(), base + 432);
    assert!(forum.has_voted(id, 5));
    assert!(!forum.has_voted(id, 6));
}

#[test]
fn distinct_voters_both_accepted() {
    let (mut forum, id) = forum_with_article();
    let base = forum.score_of(id).unwrap();
    assert_eq!(forum.cast_vote(id, 1), VoteOutcome::Accepted);
    assert_eq!(forum.cast_vote(id, 2), VoteOutcome::Accepted);
    assert_eq!(forum.score_of(id).unwrap(), base + 2 * 432);
}

#[test]
fn distinct_voters_in_other_order() {
    let (mut forum, id) = forum_with_article();
    let base = forum.score_of(id).unwrap();
    assert_eq!(forum.cast_vote(id, 2), VoteOutcome::Accepted);
    assert_eq!(forum.cast_vote(id, 1), VoteOutcome::Accepted);
    assert_eq!(forum.score_of(id).unwrap(), base + 2 * 432);
}

#[test]
fn many_repeated_votes_count_once() {
    let (mut forum, id) = forum_with_article();
    let base = forum.score_of(id).unwrap();
    let outcomes: Vec<VoteOutcome> = (0..16).map(|_| forum.cast_vote(id, 7)).collect();
    let accepted = outcomes.iter().filter(|o| **o == VoteOutcome::Accepted).count();
    assert_eq!(accepted, 1);
    assert_eq!(outcomes[0], VoteOutcome::Accepted);
    assert!(outcomes[1..].iter().all(|o| *o == VoteOutcome::Duplicate));
    assert_eq!(forum.score_of(id).unwrap(), base + 432);
}

#[test]
fn votes_on_one_article_leave_others_alone() {
    let mut forum = Forum::new();
    let a = forum.create_article("a".to_string(), "".to_string(), 1, vec![], NOW).unwrap();
    let b = forum.create_article("b".to_string(), "".to_string(), 2, vec![], NOW + 5).unwrap();
    assert_eq!(forum.cast_vote(a, 9), VoteOutcome::Accepted);
    assert_eq!(forum.cast_vote(b, 9), VoteOutcome::Accepted);
    assert_eq!(forum.cast_vote(a, 10), VoteOutcome::Accepted);
    assert_eq!(forum.score_of(a), Some(NOW as u128 + 864));
    assert_eq!(forum.score_of(b), Some(NOW as u128 + 5 + 432));
}

#[test]
fn created_ids_strictly_increase() {
    let mut forum = Forum::new();
    let mut last = 0u32;
    for i in 0..10u32 {
        let id = forum
            .create_article(format!("t{}", i), "c".to_string(), i, vec![], NOW + i as u64)
            .unwrap();
        assert!(id > last);
        last = id;
        forum.cast_vote(id, i);
    }
    assert_eq!(last, 10);
}

#[test]
fn first_id_is_one() {
    let (_, id) = forum_with_article();
    assert_eq!(id, 1);
}

#[test]
fn get_after_create_round_trips() {
    let (forum, id) = forum_with_article();
    let article = forum.get_article(id).unwrap();
    assert_eq!(article.title, "T");
    assert_eq!(article.content, "C");
    assert_eq!(article.author_id, 1);
    assert_eq!(article.tags, vec!["x".to_string()]);
    assert_eq!(article.created_at, NOW);
}

#[test]
fn missing_article_is_not_found() {
    let (forum, id) = forum_with_article();
    assert!(forum.get_article(0).is_none());
    assert!(forum.get_article(id + 1).is_none());
    assert!(Forum::new().get_article(1).is_none());
}

#[test]
fn creation_seeds_score_with_time() {
    let (forum, id) = forum_with_article();
    assert_eq!(forum.score_of(id), Some(NOW as u128));
    assert_eq!(forum.score_of(id + 1), None);
}

#[test]
fn vote_on_unknown_article_creates_entry() {
    let mut forum = Forum::new();
    assert_eq!(forum.score_of(42), None);
    assert_eq!(forum.cast_vote(42, 1), VoteOutcome::Accepted);
    assert_eq!(forum.score_of(42), Some(432));
}

#[test]
fn sequence_starts_at_one_and_stops_at_max() {
    let mut ids = SequenceGenerator::new();
    assert_eq!(ids.next(), Some(1));
    assert_eq!(ids.next(), Some(2));
    let mut resumed = SequenceGenerator::starting_after(41);
    assert_eq!(resumed.next(), Some(42));
    let mut full = SequenceGenerator::starting_after(u32::MAX);
    assert_eq!(full.next(), None);
    assert_eq!(full.next(), None);
}

#[test]
fn exhausted_ids_error_is_distinct() {
    assert_eq!(ForumError::IdsExhausted, ForumError::IdsExhausted);
}

#[test]
fn ledger_records_each_voter_once() {
    let mut ledger = VoteLedger::new();
    assert!(!ledger.has_voted(1, 2));
    assert_eq!(ledger.record_vote(1, 2), VoteRecord::Added);
    assert_eq!(ledger.record_vote(1, 2), VoteRecord::AlreadyPresent);
    assert_eq!(ledger.record_vote(1, 3), VoteRecord::Added);
    assert_eq!(ledger.record_vote(2, 2), VoteRecord::Added);
    assert!(ledger.has_voted(1, 2));
    assert!(ledger.has_voted(1, 3));
    assert!(!ledger.has_voted(2, 3));
}

#[test]
fn hot_rank_increment_creates_and_adds() {
    let mut rank = HotRankIndex::new();
    assert_eq!(rank.score_of(3), None);
    assert_eq!(rank.increment(3, 10), 10);
    assert_eq!(rank.increment(3, 432), 442);
    assert_eq!(rank.score_of(3), Some(442));
    assert_eq!(rank.score_of(4), None);
}

#[test]
fn top_orders_by_score_then_lower_id() {
    let mut forum = Forum::new();
    let a = forum.create_article("a".to_string(), "".to_string(), 1, vec![], NOW).unwrap();
    let b = forum.create_article("b".to_string(), "".to_string(), 1, vec![], NOW).unwrap();
    let c = forum.create_article("c".to_string(), "".to_string(), 1, vec![], NOW + 100).unwrap();
    assert_eq!(forum.top(3), vec![c, a, b]);
    forum.cast_vote(b, 1);
    assert_eq!(forum.top(3), vec![b, c, a]);
    forum.cast_vote(a, 1);
    assert_eq!(forum.top(2), vec![a, b]);
}

#[test]
fn top_with_k_beyond_or_zero() {
    let (mut forum, id) = forum_with_article();
    forum.cast_vote(77, 1);
    assert_eq!(forum.top(10), vec![id, 77]);
    assert_eq!(forum.top(0), Vec::<u32>::new());
    assert_eq!(Forum::new().top(5), Vec::<u32>::new());
}

#[test]
fn hot_rank_top_breaks_ties_by_id() {
    let mut rank = HotRankIndex::new();
    rank.increment(9, 5);
    rank.increment(2, 5);
    rank.increment(4, 7);
    assert_eq!(rank.top(3), vec![4, 2, 9]);
    assert_eq!(rank.top(1), vec![4]);
}
