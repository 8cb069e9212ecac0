//! Weighted vote accumulation: per (round, step) tallies, quorum
//! detection and equivocation detection for one height.
//!
//! A quorum is voting power strictly exceeding two thirds of the total
//! power of the height's validator set, summed over distinct voters that
//! agree on one block identifier (or on nil).  The accumulator keeps the
//! first vote seen per (voter, round, step); a later conflicting vote is
//! reported as equivocation and never replaces the stored one, and a
//! quorum is reported exactly once per (round, step, block id).

use vstd::prelude::*;

use crate::types::{BlockHash, Height, QuorumCertificate, Round, Validator, ValidatorId, Vote, VoteStep, VotingPower};

verus! {

/// Two votes occupy the same slot when they come from the same voter for
/// the same (round, step).  At most one stored vote may occupy a slot.
pub open spec fn same_slot(a: Vote, b: Vote) -> bool {
    a.voter == b.voter && a.round == b.round && a.step == b.step
}

/// The vote counts toward (round, step, block_id).
pub open spec fn vote_matches(v: Vote, round: Round, step: VoteStep, block_id: Option<BlockHash>) -> bool {
    v.round == round && v.step == step && v.block_id == block_id
}

/// Some stored vote occupies the slot of `v`.
pub open spec fn has_slot(votes: Seq<Vote>, v: Vote) -> bool {
    exists|i: int| 0 <= i < votes.len() && same_slot(#[trigger] votes[i], v)
}

/// Some stored vote occupies the slot of `v` and names the same block.
pub open spec fn repeats(votes: Seq<Vote>, v: Vote) -> bool {
    exists|i: int|
        0 <= i < votes.len() && same_slot(#[trigger] votes[i], v) && votes[i].block_id
            == v.block_id
}

/// Some stored vote occupies the slot of `v` and names another block:
/// recording `v` would be equivocation.
pub open spec fn conflicts(votes: Seq<Vote>, v: Vote) -> bool {
    exists|i: int|
        0 <= i < votes.len() && same_slot(#[trigger] votes[i], v) && votes[i].block_id
            != v.block_id
}

/// No two stored votes occupy one slot.
pub open spec fn slot_unique(votes: Seq<Vote>) -> bool {
    forall|i: int, j: int|
        0 <= i < j < votes.len() ==> !same_slot(#[trigger] votes[i], #[trigger] votes[j])
}

/// `id` belongs to the validator set.
pub open spec fn is_validator(vals: Seq<Validator>, id: ValidatorId) -> bool {
    exists|i: int| 0 <= i < vals.len() && (#[trigger] vals[i]).id == id
}

/// No two validators share an identifier.
pub open spec fn unique_ids(vals: Seq<Validator>) -> bool {
    forall|i: int, j: int|
        0 <= i < j < vals.len() ==> (#[trigger] vals[i]).id != (#[trigger] vals[j]).id
}

/// The voting power of `id` in the set, and 0 for an outsider.
pub open spec fn power_of(vals: Seq<Validator>, id: ValidatorId) -> int
    decreases vals.len(),
{
    if vals.len() == 0 {
        0
    } else if vals.last().id == id {
        vals.last().power as int
    } else {
        power_of(vals.drop_last(), id)
    }
}

/// The combined voting power of the whole set.
pub open spec fn total_power(vals: Seq<Validator>) -> int
    decreases vals.len(),
{
    if vals.len() == 0 {
        0
    } else {
        total_power(vals.drop_last()) + vals.last().power
    }
}

/// The combined power of the stored votes that count toward
/// (round, step, block_id).
pub open spec fn tally(
    votes: Seq<Vote>,
    vals: Seq<Validator>,
    round: Round,
    step: VoteStep,
    block_id: Option<BlockHash>,
) -> int
    decreases votes.len(),
{
    if votes.len() == 0 {
        0
    } else {
        tally(votes.drop_last(), vals, round, step, block_id) + if vote_matches(
            votes.last(),
            round,
            step,
            block_id,
        ) {
            power_of(vals, votes.last().voter)
        } else {
            0
        }
    }
}

/// The stored votes that count toward (round, step, block_id), in the
/// order they were recorded.
pub open spec fn matching_votes(
    votes: Seq<Vote>,
    round: Round,
    step: VoteStep,
    block_id: Option<BlockHash>,
) -> Seq<Vote>
    decreases votes.len(),
{
    if votes.len() == 0 {
        Seq::empty()
    } else {
        let rest = matching_votes(votes.drop_last(), round, step, block_id);
        if vote_matches(votes.last(), round, step, block_id) {
            rest.push(votes.last())
        } else {
            rest
        }
    }
}

/// Voting power `weight` strictly exceeds two thirds of `total`.
pub open spec fn is_quorum(weight: int, total: int) -> bool {
    3 * weight > 2 * total
}

/// The validator `id` has a stored vote counting toward
/// (round, step, block_id).
pub open spec fn voted_for(
    votes: Seq<Vote>,
    id: ValidatorId,
    round: Round,
    step: VoteStep,
    block_id: Option<BlockHash>,
) -> bool {
    exists|i: int|
        0 <= i < votes.len() && (#[trigger] votes[i]).voter == id && vote_matches(
            votes[i],
            round,
            step,
            block_id,
        )
}

/// The same tally, summed validator by validator instead of vote by
/// vote: each validator contributes its power when it voted for the key.
pub open spec fn tally_by_validators(
    vals: Seq<Validator>,
    votes: Seq<Vote>,
    round: Round,
    step: VoteStep,
    block_id: Option<BlockHash>,
) -> int
    decreases vals.len(),
{
    if vals.len() == 0 {
        0
    } else {
        tally_by_validators(vals.drop_last(), votes, round, step, block_id) + if voted_for(
            votes,
            vals.last().id,
            round,
            step,
            block_id,
        ) {
            vals.last().power as int
        } else {
            0
        }
    }
}

/// A (round, step, block id) for which a quorum has been reported.
#[derive(Clone, Copy, PartialEq, Eq, Debug)]
pub struct QuorumKey {
    pub round: Round,
    pub step: VoteStep,
    pub block_id: Option<BlockHash>,
}

/// The key already stands among the reported quorums.
pub open spec fn reported_contains(
    keys: Seq<QuorumKey>,
    round: Round,
    step: VoteStep,
    block_id: Option<BlockHash>,
) -> bool {
    exists|i: int| 0 <= i < keys.len() && #[trigger] keys[i] == (QuorumKey { round, step, block_id })
}

/// Recording `v` would lift its (round, step, block id) strictly over
/// two thirds of the total power, and no quorum for that key has been
/// reported before.
pub open spec fn completes_quorum_in(
    votes: Seq<Vote>,
    reported: Seq<QuorumKey>,
    vals: Seq<Validator>,
    total: int,
    v: Vote,
) -> bool {
    &&& is_quorum(tally(votes.push(v), vals, v.round, v.step, v.block_id), total)
    &&& !reported_contains(reported, v.round, v.step, v.block_id)
}

/// What `record_vote` returns.
#[derive(Clone, PartialEq, Eq, Debug)]
pub enum Outcome {
    /// The vote was recorded (or was an exact repeat of a stored vote)
    /// and completed no new quorum.
    Accepted,
    /// The voter already voted for this (round, step) with another block
    /// identifier: the stored old vote, then the rejected new one.
    Equivocation(Vote, Vote),
    /// The vote completed a quorum not reported before.
    QuorumReached(QuorumCertificate),
}

/// Per-height accumulator of weighted votes.
pub struct VoteAccumulator {
    /// The height all stored votes belong to.
    pub height: Height,
    /// The height's validator set, fixed for the accumulator's life.
    pub validators: Vec<Validator>,
    /// The combined power of `validators`.
    pub total: VotingPower,
    /// First-seen votes, one per (voter, round, step), in arrival order.
    pub votes: Vec<Vote>,
    /// Keys for which `QuorumReached` has been returned, each once.
    pub reported: Vec<QuorumKey>,
}

impl VoteAccumulator {
    /// Well-formedness: distinct validators, a correct cached total, one
    /// vote per slot, votes of this height from set members only, and
    /// reported keys distinct, each backed by a quorum among the stored
    /// votes.
    pub open spec fn wf(self) -> bool {
        &&& unique_ids(self.validators@)
        &&& self.total as int == total_power(self.validators@)
        &&& slot_unique(self.votes@)
        &&& forall|i: int|
            0 <= i < self.votes@.len() ==> (#[trigger] self.votes@[i]).height == self.height
                && is_validator(self.validators@, self.votes@[i].voter)
        &&& forall|i: int, j: int|
            0 <= i < j < self.reported@.len() ==> #[trigger] self.reported@[i]
                != #[trigger] self.reported@[j]
        &&& forall|i: int|
            0 <= i < self.reported@.len() ==> is_quorum(
                tally(
                    self.votes@,
                    self.validators@,
                    (#[trigger] self.reported@[i]).round,
                    self.reported@[i].step,
                    self.reported@[i].block_id,
                ),
                self.total as int,
            )
    }

    /// Recording `v` would complete a quorum for its key that has not
    /// been reported yet.
    pub open spec fn completes_quorum(self, v: Vote) -> bool {
        completes_quorum_in(self.votes@, self.reported@, self.validators@, self.total as int, v)
    }

    /// An empty accumulator over the height's validator set.
    pub fn new(height: Height, validators: Vec<Validator>) -> (acc: VoteAccumulator)
        requires
            unique_ids(validators@),
            total_power(validators@) <= u64::MAX as int,
        ensures
            acc.wf(),
            acc.height == height,
            acc.validators@ == validators@,
            acc.total as int == total_power(validators@),
            acc.votes@ == Seq::<Vote>::empty(),
            acc.reported@ == Seq::<QuorumKey>::empty(),
    {
        let total = sum_power(&validators);
        VoteAccumulator { height, validators, total, votes: Vec::new(), reported: Vec::new() }
    }
}

/// Computes the combined power of the whole set.
fn sum_power(validators: &Vec<Validator>) -> (total: u64)
    requires
        total_power(validators@) <= u64::MAX as int,
    ensures
        total as int == total_power(validators@),
{
    let mut total: u64 = 0;
    let mut i: usize = 0;
    while i < validators.len()
        invariant
            0 <= i <= validators@.len(),
            total as int == total_power(validators@.subrange(0, i as int)),
            total_power(validators@) <= u64::MAX as int,
        decreases validators@.len() - i,
    {
        proof {
            let pre = validators@.subrange(0, i as int);
            let post = validators@.subrange(0, i + 1);
            assert(post.drop_last() =~= pre);
            assert(post.last() == validators@[i as int]);
            lemma_total_power_prefix(validators@, i + 1);
            lemma_total_power_nonneg(pre);
        }
        total = total + validators[i].power;
        i = i + 1;
    }
    proof {
        assert(validators@.subrange(0, validators@.len() as int) =~= validators@);
    }
    total
}

/// Every power is non-negative, so a prefix of the set never outweighs
/// the whole set.
proof fn lemma_total_power_nonneg(vals: Seq<Validator>)
    ensures
        total_power(vals) >= 0,
    decreases vals.len(),
{
    if vals.len() > 0 {
        lemma_total_power_nonneg(vals.drop_last());
    }
}

proof fn lemma_total_power_prefix(vals: Seq<Validator>, i: int)
    requires
        0 <= i <= vals.len(),
    ensures
        total_power(vals.subrange(0, i)) <= total_power(vals),
    decreases vals.len() - i,
{
    if i == vals.len() {
        assert(vals.subrange(0, i) =~= vals);
    } else {
        lemma_total_power_prefix(vals, i + 1);
        let pre = vals.subrange(0, i);
        let post = vals.subrange(0, i + 1);
        assert(post.drop_last() =~= pre);
        assert(post.last() == vals[i]);
    }
}

proof fn lemma_power_of_nonneg(vals: Seq<Validator>, id: ValidatorId)
    ensures
        power_of(vals, id) >= 0,
    decreases vals.len(),
{
    if vals.len() > 0 && vals.last().id != id {
        lemma_power_of_nonneg(vals.drop_last(), id);
    }
}

/// An identifier outside the set carries no power.
proof fn lemma_power_of_outsider(vals: Seq<Validator>, id: ValidatorId)
    requires
        !is_validator(vals, id),
    ensures
        power_of(vals, id) == 0,
    decreases vals.len(),
{
    if vals.len() > 0 {
        assert(vals.last() == vals[vals.len() - 1]);
        assert(!is_validator(vals.drop_last(), id)) by {
            if is_validator(vals.drop_last(), id) {
                let i = choose|i: int|
                    0 <= i < vals.drop_last().len() && (#[trigger] vals.drop_last()[i]).id == id;
                assert(vals[i] == vals.drop_last()[i]);
            }
        }
        lemma_power_of_outsider(vals.drop_last(), id);
    }
}

/// With distinct identifiers, the power of a member is the power listed
/// at its position.
proof fn lemma_power_of_member(vals: Seq<Validator>, k: int)
    requires
        unique_ids(vals),
        0 <= k < vals.len(),
    ensures
        power_of(vals, vals[k].id) == vals[k].power,
    decreases vals.len(),
{
    assert(vals.last() == vals[vals.len() - 1]);
    if k == vals.len() - 1 {
    } else {
        assert(unique_ids(vals.drop_last())) by {
            assert(forall|i: int|
                0 <= i < vals.len() - 1 ==> #[trigger] vals.drop_last()[i] == vals[i]);
        }
        assert(vals.drop_last()[k] == vals[k]);
        lemma_power_of_member(vals.drop_last(), k);
    }
}

/// Recording one more vote raises the tally of its own key by the
/// voter's power and leaves every other key's tally unchanged.
proof fn lemma_tally_push(
    votes: Seq<Vote>,
    vals: Seq<Validator>,
    v: Vote,
    round: Round,
    step: VoteStep,
    block_id: Option<BlockHash>,
)
    ensures
        tally(votes.push(v), vals, round, step, block_id) == tally(votes, vals, round, step, block_id)
            + if vote_matches(v, round, step, block_id) {
                power_of(vals, v.voter)
            } else {
                0
            },
{
    let s2 = votes.push(v);
    assert(s2.drop_last() =~= votes);
    assert(s2.last() == v);
}

proof fn lemma_tally_prefix(
    votes: Seq<Vote>,
    vals: Seq<Validator>,
    round: Round,
    step: VoteStep,
    block_id: Option<BlockHash>,
    i: int,
)
    requires
        0 <= i <= votes.len(),
    ensures
        tally(votes.subrange(0, i), vals, round, step, block_id) <= tally(
            votes,
            vals,
            round,
            step,
            block_id,
        ),
    decreases votes.len() - i,
{
    if i == votes.len() {
        assert(votes.subrange(0, i) =~= votes);
    } else {
        lemma_tally_prefix(votes, vals, round, step, block_id, i + 1);
        let pre = votes.subrange(0, i);
        let post = votes.subrange(0, i + 1);
        assert(post.drop_last() =~= pre);
        assert(post.last() == votes[i]);
        lemma_power_of_nonneg(vals, votes[i].voter);
    }
}

proof fn lemma_voted_for_push(
    votes: Seq<Vote>,
    v: Vote,
    id: ValidatorId,
    round: Round,
    step: VoteStep,
    block_id: Option<BlockHash>,
)
    ensures
        voted_for(votes.push(v), id, round, step, block_id) <==> (voted_for(
            votes,
            id,
            round,
            step,
            block_id,
        ) || (v.voter == id && vote_matches(v, round, step, block_id))),
{
    let s2 = votes.push(v);
    if voted_for(s2, id, round, step, block_id) {
        let i = choose|i: int|
            0 <= i < s2.len() && (#[trigger] s2[i]).voter == id && vote_matches(
                s2[i],
                round,
                step,
                block_id,
            );
        if i < votes.len() {
            assert(votes[i] == s2[i]);
        } else {
            assert(s2[i] == v);
        }
    }
    if voted_for(votes, id, round, step, block_id) {
        let i = choose|i: int|
            0 <= i < votes.len() && (#[trigger] votes[i]).voter == id && vote_matches(
                votes[i],
                round,
                step,
                block_id,
            );
        assert(s2[i] == votes[i]);
    }
    if v.voter == id && vote_matches(v, round, step, block_id) {
        assert(s2[votes.len() as int] == v);
    }
}

proof fn lemma_tally_v_empty(
    vals: Seq<Validator>,
    round: Round,
    step: VoteStep,
    block_id: Option<BlockHash>,
)
    ensures
        tally_by_validators(vals, Seq::<Vote>::empty(), round, step, block_id) == 0,
    decreases vals.len(),
{
    if vals.len() > 0 {
        lemma_tally_v_empty(vals.drop_last(), round, step, block_id);
    }
}

proof fn lemma_unique_ids_drop_last(vals: Seq<Validator>)
    requires
        unique_ids(vals),
        vals.len() > 0,
    ensures
        unique_ids(vals.drop_last()),
{
    assert(forall|i: int| 0 <= i < vals.len() - 1 ==> #[trigger] vals.drop_last()[i] == vals[i]);
}

/// Recording a vote into a fresh slot raises the validator-by-validator
/// sum for its key by the voter's power (nothing, for an outsider).
proof fn lemma_tally_v_push(
    vals: Seq<Validator>,
    votes: Seq<Vote>,
    v: Vote,
    round: Round,
    step: VoteStep,
    block_id: Option<BlockHash>,
)
    requires
        unique_ids(vals),
        !has_slot(votes, v),
    ensures
        tally_by_validators(vals, votes.push(v), round, step, block_id) == tally_by_validators(
            vals,
            votes,
            round,
            step,
            block_id,
        )
            + if vote_matches(v, round, step, block_id) && is_validator(vals, v.voter) {
                power_of(vals, v.voter)
            } else {
                0
            },
    decreases vals.len(),
{
    if vals.len() == 0 {
        assert(!is_validator(vals, v.voter));
    } else {
        let w = vals.last();
        let rest = vals.drop_last();
        assert(w == vals[vals.len() - 1]);
        lemma_unique_ids_drop_last(vals);
        lemma_tally_v_push(rest, votes, v, round, step, block_id);
        lemma_voted_for_push(votes, v, w.id, round, step, block_id);
        if vote_matches(v, round, step, block_id) {
            if w.id == v.voter {
                assert(!voted_for(votes, w.id, round, step, block_id)) by {
                    if voted_for(votes, w.id, round, step, block_id) {
                        let i = choose|i: int|
                            0 <= i < votes.len() && (#[trigger] votes[i]).voter == w.id
                                && vote_matches(votes[i], round, step, block_id);
                        assert(same_slot(votes[i], v));
                    }
                }
                assert(!is_validator(rest, v.voter)) by {
                    if is_validator(rest, v.voter) {
                        let i = choose|i: int|
                            0 <= i < rest.len() && (#[trigger] rest[i]).id == v.voter;
                        assert(rest[i] == vals[i]);
                    }
                }
                assert(is_validator(vals, v.voter)) by {
                    assert((vals[vals.len() - 1]).id == v.voter);
                }
                lemma_power_of_member(vals, vals.len() - 1);
            } else {
                assert(power_of(vals, v.voter) == power_of(rest, v.voter));
                assert(is_validator(vals, v.voter) <==> is_validator(rest, v.voter)) by {
                    if is_validator(vals, v.voter) {
                        let i = choose|i: int|
                            0 <= i < vals.len() && (#[trigger] vals[i]).id == v.voter;
                        assert(i < vals.len() - 1);
                        assert(rest[i] == vals[i]);
                    }
                    if is_validator(rest, v.voter) {
                        let i = choose|i: int|
                            0 <= i < rest.len() && (#[trigger] rest[i]).id == v.voter;
                        assert(vals[i] == rest[i]);
                    }
                }
            }
        }
    }
}

/// Law: quorum computation is order-independent.  With one vote per
/// slot, the vote-by-vote tally equals a validator-by-validator sum that
/// asks only which votes are present (`voted_for` is a membership test),
/// never in what order they arrived: any arrival order of one set of
/// votes yields one tally.
pub proof fn lemma_tally_by_validators(
    votes: Seq<Vote>,
    vals: Seq<Validator>,
    round: Round,
    step: VoteStep,
    block_id: Option<BlockHash>,
)
    requires
        slot_unique(votes),
        unique_ids(vals),
    ensures
        tally(votes, vals, round, step, block_id) == tally_by_validators(
            vals,
            votes,
            round,
            step,
            block_id,
        ),
    decreases votes.len(),
{
    if votes.len() == 0 {
        lemma_tally_v_empty(vals, round, step, block_id);
        assert(votes =~= Seq::<Vote>::empty());
    } else {
        let v = votes.last();
        let rest = votes.drop_last();
        assert(v == votes[votes.len() - 1]);
        assert(forall|i: int| 0 <= i < rest.len() ==> #[trigger] rest[i] == votes[i]);
        assert(!has_slot(rest, v)) by {
            if has_slot(rest, v) {
                let i = choose|i: int| 0 <= i < rest.len() && same_slot(#[trigger] rest[i], v);
                assert(!same_slot(votes[i], votes[votes.len() - 1]));
            }
        }
        lemma_tally_by_validators(rest, vals, round, step, block_id);
        lemma_tally_v_push(vals, rest, v, round, step, block_id);
        assert(rest.push(v) =~= votes);
        if vote_matches(v, round, step, block_id) && !is_validator(vals, v.voter) {
            lemma_power_of_outsider(vals, v.voter);
        }
    }
}

proof fn lemma_tally_v_bounds(
    vals: Seq<Validator>,
    votes: Seq<Vote>,
    round: Round,
    step: VoteStep,
    block_id: Option<BlockHash>,
)
    ensures
        0 <= tally_by_validators(vals, votes, round, step, block_id) <= total_power(vals),
    decreases vals.len(),
{
    if vals.len() > 0 {
        lemma_tally_v_bounds(vals.drop_last(), votes, round, step, block_id);
    }
}

/// One voter never counts toward two different keys of one (round, step),
/// so the two sums share no contributor.
proof fn lemma_tally_v_disjoint(
    vals: Seq<Validator>,
    votes: Seq<Vote>,
    round: Round,
    step: VoteStep,
    b1: Option<BlockHash>,
    b2: Option<BlockHash>,
)
    requires
        slot_unique(votes),
        b1 != b2,
    ensures
        tally_by_validators(vals, votes, round, step, b1) + tally_by_validators(
            vals,
            votes,
            round,
            step,
            b2,
        ) <= total_power(vals),
    decreases vals.len(),
{
    if vals.len() > 0 {
        let w = vals.last();
        lemma_tally_v_disjoint(vals.drop_last(), votes, round, step, b1, b2);
        assert(!(voted_for(votes, w.id, round, step, b1) && voted_for(votes, w.id, round, step, b2)))
            by {
            if voted_for(votes, w.id, round, step, b1) && voted_for(votes, w.id, round, step, b2) {
                let i = choose|i: int|
                    0 <= i < votes.len() && (#[trigger] votes[i]).voter == w.id && vote_matches(
                        votes[i],
                        round,
                        step,
                        b1,
                    );
                let j = choose|j: int|
                    0 <= j < votes.len() && (#[trigger] votes[j]).voter == w.id && vote_matches(
                        votes[j],
                        round,
                        step,
                        b2,
                    );
                assert(i != j);
                assert(same_slot(votes[i], votes[j]));
            }
        }
    }
}

/// A tally never outweighs the whole validator set.
proof fn lemma_tally_le_total(
    votes: Seq<Vote>,
    vals: Seq<Validator>,
    round: Round,
    step: VoteStep,
    block_id: Option<BlockHash>,
)
    requires
        slot_unique(votes),
        unique_ids(vals),
    ensures
        0 <= tally(votes, vals, round, step, block_id) <= total_power(vals),
{
    lemma_tally_by_validators(votes, vals, round, step, block_id);
    lemma_tally_v_bounds(vals, votes, round, step, block_id);
}

/// Law: quorums are exclusive.  Within one (round, step) of a height,
/// when every voter holds at most one recorded vote, two different block
/// identifiers (nil included) can never both gather voting power
/// exceeding two thirds of the total: whichever sequence of votes was
/// delivered, at most one value reaches a quorum there.
pub proof fn lemma_quorum_exclusive(
    votes: Seq<Vote>,
    vals: Seq<Validator>,
    round: Round,
    step: VoteStep,
    b1: Option<BlockHash>,
    b2: Option<BlockHash>,
)
    requires
        slot_unique(votes),
        unique_ids(vals),
        b1 != b2,
        is_quorum(tally(votes, vals, round, step, b1), total_power(vals)),
    ensures
        !is_quorum(tally(votes, vals, round, step, b2), total_power(vals)),
{
    lemma_tally_by_validators(votes, vals, round, step, b1);
    lemma_tally_by_validators(votes, vals, round, step, b2);
    lemma_tally_v_disjoint(vals, votes, round, step, b1, b2);
    lemma_total_power_nonneg(vals);
}

/// Law: quorums are monotone.  Recording a further vote never lowers a
/// key's tally, so a key that holds a quorum keeps it whatever votes
/// arrive later, and its block identifier never changes.
pub proof fn lemma_quorum_monotonic(
    votes: Seq<Vote>,
    vals: Seq<Validator>,
    v: Vote,
    round: Round,
    step: VoteStep,
    block_id: Option<BlockHash>,
)
    ensures
        tally(votes.push(v), vals, round, step, block_id) >= tally(
            votes,
            vals,
            round,
            step,
            block_id,
        ),
        is_quorum(tally(votes, vals, round, step, block_id), total_power(vals)) ==> is_quorum(
            tally(votes.push(v), vals, round, step, block_id),
            total_power(vals),
        ),
{
    lemma_tally_push(votes, vals, v, round, step, block_id);
    lemma_power_of_nonneg(vals, v.voter);
}

/// Law: certificates are sound.  Every vote of the certificate gathered
/// for a key is a stored vote and matches the key, and no two of them
/// come from one voter — the certificate's power is de-duplicated per
/// voter, so any third party holding the same validator set can verify
/// the quorum it claims.
pub proof fn lemma_matching_votes_sound(
    votes: Seq<Vote>,
    round: Round,
    step: VoteStep,
    block_id: Option<BlockHash>,
)
    requires
        slot_unique(votes),
    ensures
        forall|i: int|
            0 <= i < matching_votes(votes, round, step, block_id).len() ==> vote_matches(
                #[trigger] matching_votes(votes, round, step, block_id)[i],
                round,
                step,
                block_id,
            ) && votes.contains(matching_votes(votes, round, step, block_id)[i]),
        forall|i: int, j: int|
            0 <= i < j < matching_votes(votes, round, step, block_id).len() ==> (
            #[trigger] matching_votes(votes, round, step, block_id)[i]).voter != (
            #[trigger] matching_votes(votes, round, step, block_id)[j]).voter,
    decreases votes.len(),
{
    if votes.len() > 0 {
        let rest = votes.drop_last();
        let last = votes.last();
        let mv_rest = matching_votes(rest, round, step, block_id);
        let mv = matching_votes(votes, round, step, block_id);
        assert(forall|k: int| 0 <= k < rest.len() ==> #[trigger] rest[k] == votes[k]);
        assert(last == votes[votes.len() - 1]);
        lemma_matching_votes_sound(rest, round, step, block_id);
        assert forall|x: Vote| rest.contains(x) implies votes.contains(x) by {
            let k = choose|k: int| 0 <= k < rest.len() && rest[k] == x;
            assert(votes[k] == x);
        }
        if vote_matches(last, round, step, block_id) {
            assert(mv == mv_rest.push(last));
            assert(votes.contains(last));
            assert forall|i: int| 0 <= i < mv_rest.len() implies (#[trigger] mv_rest[i]).voter
                != last.voter by {
                if mv_rest[i].voter == last.voter {
                    let k = choose|k: int| 0 <= k < rest.len() && rest[k] == mv_rest[i];
                    assert(same_slot(votes[k], votes[votes.len() - 1]));
                }
            }
        }
    }
}

/// Law: certificates carry their weight.  The votes gathered for a key
/// sum to the very tally that crossed the threshold, so the certificate
/// alone proves the quorum to a third party holding the same validator
/// set — no stored vote outside it contributes.
pub proof fn lemma_matching_votes_weight(
    votes: Seq<Vote>,
    vals: Seq<Validator>,
    round: Round,
    step: VoteStep,
    block_id: Option<BlockHash>,
)
    ensures
        tally(matching_votes(votes, round, step, block_id), vals, round, step, block_id) == tally(
            votes,
            vals,
            round,
            step,
            block_id,
        ),
    decreases votes.len(),
{
    if votes.len() > 0 {
        let rest = votes.drop_last();
        let last = votes.last();
        lemma_matching_votes_weight(rest, vals, round, step, block_id);
        if vote_matches(last, round, step, block_id) {
            lemma_tally_push(matching_votes(rest, round, step, block_id), vals, last, round, step, block_id);
        }
    }
}

/// Compares two optional block identifiers.
fn block_id_eq(a: Option<BlockHash>, b: Option<BlockHash>) -> (r: bool)
    ensures
        r == (a == b),
{
    match (a, b) {
        (None, None) => true,
        (Some(x), Some(y)) => x == y,
        _ => false,
    }
}

/// Looks up a validator's power; an outsider has none.
fn power_lookup(validators: &Vec<Validator>, id: ValidatorId) -> (p: u64)
    ensures
        p as int == power_of(validators@, id),
{
    let mut i = validators.len();
    proof {
        assert(validators@.subrange(0, i as int) =~= validators@);
    }
    while i > 0
        invariant
            0 <= i <= validators@.len(),
            power_of(validators@, id) == power_of(validators@.subrange(0, i as int), id),
        decreases i,
    {
        i = i - 1;
        proof {
            let cur = validators@.subrange(0, i + 1);
            assert(cur.drop_last() =~= validators@.subrange(0, i as int));
            assert(cur.last() == validators@[i as int]);
        }
        if validators[i].id == id {
            return validators[i].power;
        }
    }
    proof {
        assert(validators@.subrange(0, 0) =~= Seq::<Validator>::empty());
    }
    0
}

impl VoteAccumulator {
    /// Finds the stored vote, if any, that occupies the slot of `vote`.
    fn find_slot(&self, vote: &Vote) -> (r: Option<usize>)
        ensures
            (r matches Some(i) ==> 0 <= i < self.votes@.len() && same_slot(
                self.votes@[i as int],
                *vote,
            )),
            r is None ==> !has_slot(self.votes@, *vote),
    {
        let mut i: usize = 0;
        while i < self.votes.len()
            invariant
                0 <= i <= self.votes@.len(),
                forall|j: int| 0 <= j < i ==> !same_slot(#[trigger] self.votes@[j], *vote),
            decreases self.votes@.len() - i,
        {
            let v = self.votes[i];
            if v.voter == vote.voter && v.round == vote.round && v.step == vote.step {
                return Some(i);
            }
            i = i + 1;
        }
        None
    }

    /// Sums the power behind (round, step, block_id) among the stored
    /// votes.
    fn weight_of(&self, round: Round, step: VoteStep, block_id: Option<BlockHash>) -> (w: u64)
        requires
            slot_unique(self.votes@),
            unique_ids(self.validators@),
            self.total as int == total_power(self.validators@),
        ensures
            w as int == tally(self.votes@, self.validators@, round, step, block_id),
            w <= self.total,
    {
        proof {
            lemma_tally_le_total(self.votes@, self.validators@, round, step, block_id);
        }
        let mut w: u64 = 0;
        let mut i: usize = 0;
        while i < self.votes.len()
            invariant
                0 <= i <= self.votes@.len(),
                slot_unique(self.votes@),
                unique_ids(self.validators@),
                self.total as int == total_power(self.validators@),
                w as int == tally(
                    self.votes@.subrange(0, i as int),
                    self.validators@,
                    round,
                    step,
                    block_id,
                ),
            decreases self.votes@.len() - i,
        {
            proof {
                let pre = self.votes@.subrange(0, i as int);
                let post = self.votes@.subrange(0, i + 1);
                assert(post.drop_last() =~= pre);
                assert(post.last() == self.votes@[i as int]);
                assert(forall|k: int| 0 <= k < post.len() ==> #[trigger] post[k] == self.votes@[k]);
                lemma_tally_prefix(self.votes@, self.validators@, round, step, block_id, i + 1);
                lemma_tally_le_total(self.votes@, self.validators@, round, step, block_id);
                lemma_tally_prefix(self.votes@, self.validators@, round, step, block_id, i as int);
            }
            let v = self.votes[i];
            if v.round == round && block_id_eq(v.block_id, block_id) && v.step == step {
                let p = power_lookup(&self.validators, v.voter);
                proof {
                    lemma_power_of_nonneg(self.validators@, v.voter);
                    let pre = self.votes@.subrange(0, i as int);
                    lemma_tally_nonneg_seq(pre, self.validators@, round, step, block_id);
                }
                w = w + p;
            }
            i = i + 1;
        }
        proof {
            assert(self.votes@.subrange(0, self.votes@.len() as int) =~= self.votes@);
        }
        w
    }

    /// Tests whether a quorum for the key has been reported before.
    fn already_reported(&self, round: Round, step: VoteStep, block_id: Option<BlockHash>) -> (r:
        bool)
        ensures
            r == reported_contains(self.reported@, round, step, block_id),
    {
        let mut i: usize = 0;
        while i < self.reported.len()
            invariant
                0 <= i <= self.reported@.len(),
                forall|j: int|
                    0 <= j < i ==> #[trigger] self.reported@[j] != (QuorumKey {
                        round,
                        step,
                        block_id,
                    }),
            decreases self.reported@.len() - i,
        {
            let k = self.reported[i];
            if k.round == round && k.step == step && block_id_eq(k.block_id, block_id) {
                return true;
            }
            i = i + 1;
        }
        false
    }

    /// Gathers the stored votes counting toward the key, in recording
    /// order.
    pub fn collect_matching(&self, round: Round, step: VoteStep, block_id: Option<BlockHash>) -> (r:
        Vec<Vote>)
        ensures
            r@ == matching_votes(self.votes@, round, step, block_id),
    {
        let mut r: Vec<Vote> = Vec::new();
        let mut i: usize = 0;
        while i < self.votes.len()
            invariant
                0 <= i <= self.votes@.len(),
                r@ == matching_votes(
                    self.votes@.subrange(0, i as int),
                    round,
                    step,
                    block_id,
                ),
            decreases self.votes@.len() - i,
        {
            proof {
                let pre = self.votes@.subrange(0, i as int);
                let post = self.votes@.subrange(0, i + 1);
                assert(post.drop_last() =~= pre);
                assert(post.last() == self.votes@[i as int]);
            }
            let v = self.votes[i];
            if v.round == round && block_id_eq(v.block_id, block_id) && v.step == step {
                r.push(v);
            }
            i = i + 1;
        }
        proof {
            assert(self.votes@.subrange(0, self.votes@.len() as int) =~= self.votes@);
        }
        r
    }
}

impl VoteAccumulator {
    /// Records one vote and reports what it meant.
    ///
    /// The first vote per (voter, round, step) is recorded; an exact
    /// repeat changes nothing; a conflicting vote for an occupied slot is
    /// reported as `Equivocation(stored, new)` and the stored vote is
    /// kept — evidence handling belongs to the caller.  When the recorded
    /// vote lifts its (round, step, block id) strictly over two thirds of
    /// the total power and that key has not been reported before,
    /// `QuorumReached` carries the certificate of exactly the agreeing
    /// stored votes; any later vote for the key is merely `Accepted`.
    ///
    /// The boundary layer keeps votes of other heights and of outsiders
    /// away, so they are required out here.
    pub fn record_vote(&mut self, vote: Vote) -> (out: Outcome)
        requires
            old(self).wf(),
            vote.height == old(self).height,
            is_validator(old(self).validators@, vote.voter),
        ensures
            final(self).wf(),
            final(self).height == old(self).height,
            final(self).validators@ == old(self).validators@,
            final(self).total == old(self).total,
            repeats(old(self).votes@, vote) ==> {
                &&& final(self).votes@ == old(self).votes@
                &&& final(self).reported@ == old(self).reported@
                &&& out == Outcome::Accepted
            },
            conflicts(old(self).votes@, vote) ==> {
                &&& final(self).votes@ == old(self).votes@
                &&& final(self).reported@ == old(self).reported@
                &&& out matches Outcome::Equivocation(prev, cur) && cur == vote && same_slot(
                    prev,
                    vote,
                ) && prev.block_id != vote.block_id && old(self).votes@.contains(prev)
            },
            !has_slot(old(self).votes@, vote) ==> final(self).votes@ == old(self).votes@.push(
                vote,
            ),
            !has_slot(old(self).votes@, vote) && old(self).completes_quorum(vote) ==> {
                &&& final(self).reported@ == old(self).reported@.push(
                    (QuorumKey { round: vote.round, step: vote.step, block_id: vote.block_id }),
                )
                &&& out matches Outcome::QuorumReached(qc) && qc.height == old(self).height
                    && qc.round == vote.round && qc.step == vote.step && qc.block_id
                    == vote.block_id && qc.votes@ == matching_votes(
                    final(self).votes@,
                    vote.round,
                    vote.step,
                    vote.block_id,
                )
            },
            !has_slot(old(self).votes@, vote) && !old(self).completes_quorum(vote) ==> {
                &&& final(self).reported@ == old(self).reported@
                &&& out == Outcome::Accepted
            },
    {
        let found = self.find_slot(&vote);
        match found {
            Some(i) => {
                let prev = self.votes[i];
                proof {
                    assert(self.votes@.contains(prev)) by {
                        assert(self.votes@[i as int] == prev);
                    }
                    assert forall|j: int|
                        0 <= j < self.votes@.len() && same_slot(
                            #[trigger] self.votes@[j],
                            vote,
                        ) implies self.votes@[j] == prev by {
                        if j != i {
                            assert(same_slot(self.votes@[j], self.votes@[i as int]));
                        }
                    }
                }
                if block_id_eq(prev.block_id, vote.block_id) {
                    proof {
                        assert(repeats(self.votes@, vote)) by {
                            assert(same_slot(self.votes@[i as int], vote));
                        }
                        assert(!conflicts(self.votes@, vote)) by {
                            if conflicts(self.votes@, vote) {
                                let j = choose|j: int|
                                    0 <= j < self.votes@.len() && same_slot(
                                        #[trigger] self.votes@[j],
                                        vote,
                                    ) && self.votes@[j].block_id != vote.block_id;
                                assert(self.votes@[j] == prev);
                            }
                        }
                    }
                    Outcome::Accepted
                } else {
                    proof {
                        assert(conflicts(self.votes@, vote)) by {
                            assert(same_slot(self.votes@[i as int], vote));
                        }
                        assert(!repeats(self.votes@, vote)) by {
                            if repeats(self.votes@, vote) {
                                let j = choose|j: int|
                                    0 <= j < self.votes@.len() && same_slot(
                                        #[trigger] self.votes@[j],
                                        vote,
                                    ) && self.votes@[j].block_id == vote.block_id;
                                assert(self.votes@[j] == prev);
                            }
                        }
                    }
                    Outcome::Equivocation(prev, vote)
                }
            },
            None => {
                let ghost old_votes = self.votes@;
                proof {
                    assert(!repeats(old_votes, vote)) by {
                        if repeats(old_votes, vote) {
                            let j = choose|j: int|
                                0 <= j < old_votes.len() && same_slot(#[trigger] old_votes[j], vote)
                                    && old_votes[j].block_id == vote.block_id;
                        }
                    }
                    assert(!conflicts(old_votes, vote)) by {
                        if conflicts(old_votes, vote) {
                            let j = choose|j: int|
                                0 <= j < old_votes.len() && same_slot(#[trigger] old_votes[j], vote)
                                    && old_votes[j].block_id != vote.block_id;
                        }
                    }
                }
                self.votes.push(vote);
                proof {
                    assert(slot_unique(self.votes@)) by {
                        assert forall|a: int, b: int|
                            0 <= a < b < self.votes@.len() implies !same_slot(
                            #[trigger] self.votes@[a],
                            #[trigger] self.votes@[b],
                        ) by {
                            if b == old_votes.len() {
                                assert(self.votes@[a] == old_votes[a]);
                                assert(self.votes@[b] == vote);
                            } else {
                                assert(self.votes@[a] == old_votes[a]);
                                assert(self.votes@[b] == old_votes[b]);
                            }
                        }
                    }
                    assert forall|k: int|
                        0 <= k < self.votes@.len() implies (#[trigger] self.votes@[k]).height
                        == self.height && is_validator(self.validators@, self.votes@[k].voter) by {
                        if k < old_votes.len() {
                            assert(self.votes@[k] == old_votes[k]);
                        } else {
                            assert(self.votes@[k] == vote);
                        }
                    }
                }
                let w = self.weight_of(vote.round, vote.step, vote.block_id);
                let quorum = 3 * (w as u128) > 2 * (self.total as u128);
                proof {
                    assert(quorum == is_quorum(
                        tally(self.votes@, self.validators@, vote.round, vote.step, vote.block_id),
                        self.total as int,
                    ));
                    assert forall|k: int|
                        0 <= k < self.reported@.len() implies is_quorum(
                        tally(
                            self.votes@,
                            self.validators@,
                            (#[trigger] self.reported@[k]).round,
                            self.reported@[k].step,
                            self.reported@[k].block_id,
                        ),
                        self.total as int,
                    ) by {
                        lemma_tally_push(
                            old_votes,
                            self.validators@,
                            vote,
                            self.reported@[k].round,
                            self.reported@[k].step,
                            self.reported@[k].block_id,
                        );
                        lemma_power_of_nonneg(self.validators@, vote.voter);
                    }
                }
                if quorum && !self.already_reported(vote.round, vote.step, vote.block_id) {
                    let ghost old_reported = self.reported@;
                    self.reported.push(
                        QuorumKey { round: vote.round, step: vote.step, block_id: vote.block_id },
                    );
                    proof {
                        let key = QuorumKey {
                            round: vote.round,
                            step: vote.step,
                            block_id: vote.block_id,
                        };
                        assert forall|a: int, b: int|
                            0 <= a < b < self.reported@.len() implies #[trigger] self.reported@[a]
                            != #[trigger] self.reported@[b] by {
                            if b == old_reported.len() {
                                assert(self.reported@[a] == old_reported[a]);
                                assert(self.reported@[b] == key);
                            } else {
                                assert(self.reported@[a] == old_reported[a]);
                                assert(self.reported@[b] == old_reported[b]);
                            }
                        }
                        assert forall|k: int|
                            0 <= k < self.reported@.len() implies is_quorum(
                            tally(
                                self.votes@,
                                self.validators@,
                                (#[trigger] self.reported@[k]).round,
                                self.reported@[k].step,
                                self.reported@[k].block_id,
                            ),
                            self.total as int,
                        ) by {
                            if k < old_reported.len() {
                                assert(self.reported@[k] == old_reported[k]);
                            } else {
                                assert(self.reported@[k] == key);
                            }
                        }
                    }
                    let votes_for = self.collect_matching(vote.round, vote.step, vote.block_id);
                    Outcome::QuorumReached(
                        QuorumCertificate {
                            height: self.height,
                            round: vote.round,
                            step: vote.step,
                            block_id: vote.block_id,
                            votes: votes_for,
                        },
                    )
                } else {
                    Outcome::Accepted
                }
            },
        }
    }
}

proof fn lemma_tally_nonneg_seq(
    votes: Seq<Vote>,
    vals: Seq<Validator>,
    round: Round,
    step: VoteStep,
    block_id: Option<BlockHash>,
)
    ensures
        tally(votes, vals, round, step, block_id) >= 0,
    decreases votes.len(),
{
    if votes.len() > 0 {
        lemma_tally_nonneg_seq(votes.drop_last(), vals, round, step, block_id);
        lemma_power_of_nonneg(vals, votes.last().voter);
    }
}

} // verus!
