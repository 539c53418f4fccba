//! Oracle voting: vote validation and the weighted-majority
//! consensus tally.
//!
//! Confidences and the consensus threshold are fixed-point fractions
//! in parts per [`UNIT`](crate::amount::UNIT).

use vstd::prelude::*;

use crate::amount::{sat_add_units, UNIT};

verus! {

/// Why an oracle operation was refused.
#[derive(Clone, Copy, Debug, PartialEq, Eq, Structural)]
pub enum OracleError {
    NotRegistered,
    Inactive,
    AlreadyVoted,
    InvalidConfidence,
    Unauthorized,
}

impl OracleError {
    /// A short description of the failure.
    pub fn describe(self) -> (r: &'static str)
        ensures
            true,
    {
        match self {
            OracleError::NotRegistered => "Oracle not registered",
            OracleError::Inactive => "Oracle is inactive",
            OracleError::AlreadyVoted => "Already voted on this market",
            OracleError::InvalidConfidence => "Invalid confidence value",
            OracleError::Unauthorized => "Unauthorized",
        }
    }
}

/// One oracle's registration record.
#[derive(Clone, Debug)]
pub struct OracleNode {
    pub name: String,
    pub data_source: String,
    /// Reported accuracy, in parts per `UNIT` (`UNIT` is 100 %).
    pub accuracy: u64,
    pub total_votes: u64,
    pub is_active: bool,
    pub registered_at: u64,
}

/// One oracle's vote on a market's outcome.
#[derive(Clone, Debug)]
pub struct VoteRecord {
    pub oracle_id: u64,
    pub outcome: u8,
    /// Confidence in parts per `UNIT`; at most `UNIT`.
    pub confidence: u64,
    pub data_hash: String,
    pub timestamp: u64,
}

/// The votes collected for one market.
#[derive(Clone, Debug)]
pub struct MarketVotes {
    pub votes: Vec<VoteRecord>,
    pub resolved: bool,
    pub final_outcome: Option<u8>,
}

/// Whether `oracle_id` has already voted in this collection.
pub open spec fn has_vote(votes: Seq<VoteRecord>, oracle_id: int) -> bool {
    exists|i: int| 0 <= i < votes.len() && votes[i].oracle_id == oracle_id
}

/// The summed confidence of the votes naming `outcome`.
pub open spec fn outcome_weight(votes: Seq<VoteRecord>, outcome: int) -> int
    decreases votes.len(),
{
    if votes.len() == 0 {
        0
    } else {
        outcome_weight(votes.drop_last(), outcome) + if votes.last().outcome == outcome {
            votes.last().confidence as int
        } else {
            0
        }
    }
}

/// The summed confidence of all votes.
pub open spec fn total_weight(votes: Seq<VoteRecord>) -> int
    decreases votes.len(),
{
    if votes.len() == 0 {
        0
    } else {
        total_weight(votes.drop_last()) + votes.last().confidence
    }
}

/// Whether `outcome` reaches the required share of the total vote
/// weight: `weight / total >= required`, compared exactly as
/// `weight * UNIT >= required * total`. An empty or all-zero tally
/// reaches no consensus.
pub open spec fn reaches_consensus(votes: Seq<VoteRecord>, outcome: int, required: int) -> bool {
    &&& total_weight(votes) > 0
    &&& outcome_weight(votes, outcome) * (UNIT as int) >= required * total_weight(votes)
}

impl OracleNode {
    /// A fresh registration: full reported accuracy, no votes yet,
    /// active.
    pub fn register(name: String, data_source: String, now: u64) -> (r: OracleNode)
        ensures
            r.accuracy == UNIT,
            r.total_votes == 0,
            r.is_active == true,
            r.registered_at == now,
            r.name == name,
            r.data_source == data_source,
    {
        OracleNode {
            name,
            data_source,
            accuracy: UNIT,
            total_votes: 0,
            is_active: true,
            registered_at: now,
        }
    }

    pub fn deactivate(&mut self)
        ensures
            final(self).is_active == false,
            final(self).name == old(self).name,
            final(self).data_source == old(self).data_source,
            final(self).accuracy == old(self).accuracy,
            final(self).total_votes == old(self).total_votes,
            final(self).registered_at == old(self).registered_at,
    {
        self.is_active = false;
    }

    pub fn reactivate(&mut self)
        ensures
            final(self).is_active == true,
            final(self).name == old(self).name,
            final(self).data_source == old(self).data_source,
            final(self).accuracy == old(self).accuracy,
            final(self).total_votes == old(self).total_votes,
            final(self).registered_at == old(self).registered_at,
    {
        self.is_active = true;
    }

    /// Counts one more submitted vote, clamped at the `u64` range.
    pub fn count_vote(&mut self)
        ensures
            final(self).total_votes as int == sat_add_units(old(self).total_votes as int, 1),
            final(self).is_active == old(self).is_active,
            final(self).name == old(self).name,
            final(self).data_source == old(self).data_source,
            final(self).accuracy == old(self).accuracy,
            final(self).registered_at == old(self).registered_at,
    {
        self.total_votes = if self.total_votes < u64::MAX {
            self.total_votes + 1
        } else {
            u64::MAX
        };
    }
}

impl MarketVotes {
    /// An empty, unresolved vote collection.
    pub fn empty() -> (r: MarketVotes)
        ensures
            r.votes@.len() == 0,
            r.resolved == false,
            r.final_outcome is None,
    {
        MarketVotes { votes: Vec::new(), resolved: false, final_outcome: None }
    }

    /// Validates and records one vote: the confidence must be a
    /// fraction (at most `UNIT`), the submitting oracle must be
    /// active, and each oracle votes at most once per market.
    /// Failures leave the collection unchanged.
    pub fn submit_vote(&mut self, oracle: &OracleNode, vote: VoteRecord) -> (r: Result<
        (),
        OracleError,
    >)
        ensures
            r == Err::<(), OracleError>(OracleError::InvalidConfidence) <==> vote.confidence
                > UNIT,
            r == Err::<(), OracleError>(OracleError::Inactive) <==> (vote.confidence <= UNIT
                && !oracle.is_active),
            r == Err::<(), OracleError>(OracleError::AlreadyVoted) <==> (vote.confidence <= UNIT
                && oracle.is_active && has_vote(old(self).votes@, vote.oracle_id as int)),
            r is Ok <==> (vote.confidence <= UNIT && oracle.is_active && !has_vote(
                old(self).votes@,
                vote.oracle_id as int,
            )),
            r is Err ==> *final(self) == *old(self),
            r is Ok ==> final(self).votes@ == old(self).votes@.push(vote),
            final(self).resolved == old(self).resolved,
            final(self).final_outcome == old(self).final_outcome,
    {
        if vote.confidence > UNIT {
            return Err(OracleError::InvalidConfidence);
        }
        if !oracle.is_active {
            return Err(OracleError::Inactive);
        }
        let mut idx: usize = 0;
        while idx < self.votes.len()
            invariant
                0 <= idx <= self.votes@.len(),
                forall|j: int| 0 <= j < idx ==> self.votes@[j].oracle_id != vote.oracle_id,
                *self == *old(self),
                vote.confidence <= UNIT,
                oracle.is_active,
            decreases self.votes@.len() - idx,
        {
            if self.votes[idx].oracle_id == vote.oracle_id {
                return Err(OracleError::AlreadyVoted);
            }
            idx = idx + 1;
        }
        self.votes.push(vote);
        Ok(())
    }
}

/// The summed confidence of the votes naming `outcome`, computed at
/// full width.
fn weight_of(votes: &Vec<VoteRecord>, outcome: u8) -> (w: u128)
    requires
        forall|i: int| 0 <= i < votes@.len() ==> #[trigger] votes@[i].confidence <= UNIT,
    ensures
        w as int == outcome_weight(votes@, outcome as int),
        w as int <= votes@.len() * (UNIT as int),
{
    let ghost s = votes@;
    let mut w: u128 = 0;
    let mut idx: usize = 0;
    while idx < votes.len()
        invariant
            0 <= idx <= s.len(),
            s == votes@,
            forall|i: int| 0 <= i < s.len() ==> #[trigger] s[i].confidence <= UNIT,
            w as int == outcome_weight(s.take(idx as int), outcome as int),
            w as int <= (idx as int) * (UNIT as int),
        decreases s.len() - idx,
    {
        proof {
            assert(s.take(idx + 1).drop_last() =~= s.take(idx as int));
            assert(s.take(idx + 1).last() == s[idx as int]);
            assert((idx as int) * (UNIT as int) + UNIT as int == (idx + 1) * (UNIT as int))
                by (nonlinear_arith);
            assert((idx + 1) * (UNIT as int) <= u128::MAX) by (nonlinear_arith)
                requires
                    0 <= idx + 1 <= usize::MAX as int,
            ;
        }
        if votes[idx].outcome == outcome {
            w = w + votes[idx].confidence as u128;
        }
        idx = idx + 1;
    }
    proof {
        assert(s.take(s.len() as int) =~= s);
    }
    w
}

/// The summed confidence of all votes, computed at full width.
fn total_of(votes: &Vec<VoteRecord>) -> (w: u128)
    requires
        forall|i: int| 0 <= i < votes@.len() ==> #[trigger] votes@[i].confidence <= UNIT,
    ensures
        w as int == total_weight(votes@),
        w as int <= votes@.len() * (UNIT as int),
{
    let ghost s = votes@;
    let mut w: u128 = 0;
    let mut idx: usize = 0;
    while idx < votes.len()
        invariant
            0 <= idx <= s.len(),
            s == votes@,
            forall|i: int| 0 <= i < s.len() ==> #[trigger] s[i].confidence <= UNIT,
            w as int == total_weight(s.take(idx as int)),
            w as int <= (idx as int) * (UNIT as int),
        decreases s.len() - idx,
    {
        proof {
            assert(s.take(idx + 1).drop_last() =~= s.take(idx as int));
            assert(s.take(idx + 1).last() == s[idx as int]);
            assert((idx as int) * (UNIT as int) + UNIT as int == (idx + 1) * (UNIT as int))
                by (nonlinear_arith);
            assert((idx + 1) * (UNIT as int) <= u128::MAX) by (nonlinear_arith)
                requires
                    0 <= idx + 1 <= usize::MAX as int,
            ;
        }
        w = w + votes[idx].confidence as u128;
        idx = idx + 1;
    }
    proof {
        assert(s.take(s.len() as int) =~= s);
    }
    w
}

/// The weighted-majority tally: with at least `min_oracles` votes
/// collected, reports the smallest outcome whose summed confidence
/// reaches the `required_consensus` share of the total, together
/// with the number of votes; reports nothing below the quorum or
/// when no outcome reaches the share.
pub fn check_consensus(votes: &Vec<VoteRecord>, min_oracles: u8, required_consensus: u64) -> (r:
    Option<(u8, u64)>)
    requires
        forall|i: int| 0 <= i < votes@.len() ==> #[trigger] votes@[i].confidence <= UNIT,
        required_consensus <= UNIT,
        votes@.len() <= u64::MAX,
    ensures
        votes@.len() < min_oracles ==> r is None,
        votes@.len() >= min_oracles ==> match r {
            Some(v) => {
                &&& reaches_consensus(votes@, v.0 as int, required_consensus as int)
                &&& (forall|o: int|
                    0 <= o < v.0 ==> !reaches_consensus(votes@, o, required_consensus as int))
                &&& v.1 == votes@.len()
            },
            None => forall|o: int|
                0 <= o < 256 ==> !reaches_consensus(votes@, o, required_consensus as int),
        },
{
    if votes.len() < min_oracles as usize {
        return None;
    }
    let total = total_of(votes);
    proof {
        assert(votes@.len() * (UNIT as int) <= u64::MAX as int * (UNIT as int))
            by (nonlinear_arith)
            requires
                0 <= votes@.len() <= u64::MAX as int,
        ;
        assert((UNIT as int) * (u64::MAX as int * (UNIT as int)) <= u128::MAX)
            by (nonlinear_arith);
    }
    let mut o: u16 = 0;
    while o < 256
        invariant
            0 <= o <= 256,
            votes@.len() >= min_oracles,
            required_consensus <= UNIT,
            total as int == total_weight(votes@),
            total as int <= u64::MAX as int * (UNIT as int),
            forall|c: int|
                0 <= c < o ==> !reaches_consensus(votes@, c, required_consensus as int),
            forall|i: int| 0 <= i < votes@.len() ==> #[trigger] votes@[i].confidence <= UNIT,
            votes@.len() <= u64::MAX,
        decreases 256 - o,
    {
        let w = weight_of(votes, o as u8);
        proof {
            assert(votes@.len() * (UNIT as int) <= u64::MAX as int * (UNIT as int))
                by (nonlinear_arith)
                requires
                    0 <= votes@.len() <= u64::MAX as int,
            ;
            assert(w as int * (UNIT as int) <= (u64::MAX as int * (UNIT as int)) * (UNIT as int))
                by (nonlinear_arith)
                requires
                    0 <= w as int <= u64::MAX as int * (UNIT as int),
            ;
            assert((u64::MAX as int * (UNIT as int)) * (UNIT as int) <= u128::MAX)
                by (nonlinear_arith);
            assert(required_consensus as int * total as int <= (UNIT as int) * (u64::MAX as int
                * (UNIT as int))) by (nonlinear_arith)
                requires
                    0 <= required_consensus as int <= UNIT as int,
                    0 <= total as int <= u64::MAX as int * (UNIT as int),
            ;
        }
        if total > 0 && w * (UNIT as u128) >= (required_consensus as u128) * total {
            return Some((o as u8, votes.len() as u64));
        }
        o = o + 1;
    }
    None
}

} // verus!
