use prediction_amm::amount::UNIT;
use prediction_amm::oracle::{check_consensus, MarketVotes, OracleError, OracleNode, VoteRecord};

fn frac(hundredths: u64) -> u64 {
    hundredths * UNIT / 100
}

fn vote(oracle_id: u64, outcome: u8, confidence: u64) -> VoteRecord {
    VoteRecord {
        oracle_id,
        outcome,
        confidence,
        data_hash: String::from("feed"),
        timestamp: 0,
    }
}

fn active_oracle() -> OracleNode {
    OracleNode::register(String::from("alpha"), String::from("wire"), 11)
}

#[test]
fn register_starts_active_with_full_accuracy() {
    let node = active_oracle();
    assert!(node.is_active);
    assert_eq!(node.accuracy, UNIT);
    assert_eq!(node.total_votes, 0);
    assert_eq!(node.registered_at, 11);
}

#[test]
fn deactivate_and_reactivate_toggle_activity() {
    let mut node = active_oracle();
    node.deactivate();
    assert!(!node.is_active);
    node.reactivate();
    assert!(node.is_active);
}

#[test]
fn count_vote_increments() {
    let mut node = active_oracle();
    node.count_vote();
    node.count_vote();
    assert_eq!(node.total_votes, 2);
}

#[test]
fn submit_vote_validates_confidence() {
    let mut votes = MarketVotes::empty();
    let node = active_oracle();
    let r = votes.submit_vote(&node, vote(1, 0, UNIT + 1));
    assert_eq!(r, Err(OracleError::InvalidConfidence));
    assert_eq!(votes.votes.len(), 0);
}

#[test]
fn submit_vote_requires_active_oracle() {
    let mut votes = MarketVotes::empty();
    let mut node = active_oracle();
    node.deactivate();
    let r = votes.submit_vote(&node, vote(1, 0, frac(80)));
    assert_eq!(r, Err(OracleError::Inactive));
    assert_eq!(votes.votes.len(), 0);
}

#[test]
fn submit_vote_rejects_double_voting() {
    let mut votes = MarketVotes::empty();
    let node = active_oracle();
    votes.submit_vote(&node, vote(1, 0, frac(80))).unwrap();
    let r = votes.submit_vote(&node, vote(1, 1, frac(60)));
    assert_eq!(r, Err(OracleError::AlreadyVoted));
    assert_eq!(votes.votes.len(), 1);
    // A different oracle may still vote.
    votes.submit_vote(&node, vote(2, 1, frac(60))).unwrap();
    assert_eq!(votes.votes.len(), 2);
}

#[test]
fn consensus_needs_quorum() {
    let votes = vec![vote(1, 1, frac(90)), vote(2, 1, frac(90))];
    assert_eq!(check_consensus(&votes, 3, frac(67)), None);
}

#[test]
fn consensus_reports_weighted_majority() {
    // Outcome 1 holds 1.6 of 1.9 total weight: above 67 %.
    let votes = vec![vote(1, 1, frac(80)), vote(2, 1, frac(80)), vote(3, 0, frac(30))];
    assert_eq!(check_consensus(&votes, 3, frac(67)), Some((1, 3)));
}

#[test]
fn consensus_absent_when_no_outcome_reaches_share() {
    // 0.8 against 0.7: neither side reaches 67 %.
    let votes = vec![vote(1, 0, frac(80)), vote(2, 1, frac(70))];
    assert_eq!(check_consensus(&votes, 2, frac(67)), None);
}

#[test]
fn consensus_ignores_all_zero_confidence() {
    let votes = vec![vote(1, 0, 0), vote(2, 0, 0)];
    assert_eq!(check_consensus(&votes, 2, frac(67)), None);
}

#[test]
fn consensus_reports_smallest_qualifying_outcome() {
    // With a 30 % requirement both outcomes qualify; outcome 0 is
    // reported.
    let votes = vec![vote(1, 2, frac(50)), vote(2, 0, frac(50))];
    assert_eq!(check_consensus(&votes, 2, frac(30)), Some((0, 2)));
}
