//! Deterministic proposer selection.
//!
//! The leader of a (height, round) is picked round-robin from the ordered
//! validator set of the height.  Determinism is a safety requirement:
//! every node holding the same ordered set must name the same leader, and
//! the function is total over every round, so ties cannot occur.

use vstd::prelude::*;

use crate::types::{Height, Round, Validator, ValidatorId};

verus! {

/// The index into the ordered validator set that leads (height, round).
pub open spec fn proposer_index(vals: Seq<Validator>, height: Height, round: Round) -> int {
    (height + round) % (vals.len() as int)
}

/// The validator that leads (height, round): round-robin over the ordered
/// set, stepping one position per height and per round.
pub open spec fn proposer_of(vals: Seq<Validator>, height: Height, round: Round) -> ValidatorId {
    vals[proposer_index(vals, height, round)].id
}

/// Pick the proposer for (height, round) from a non-empty ordered
/// validator set.  Pure and total: the same inputs always name the same
/// leader, on every node.
pub fn proposer(validators: &Vec<Validator>, height: Height, round: Round) -> (id: ValidatorId)
    requires
        validators@.len() > 0,
    ensures
        id == proposer_of(validators@, height, round),
        exists|i: int| 0 <= i < validators@.len() && validators@[i].id == id,
{
    let n = validators.len();
    let idx = (((height as u128) + (round as u128)) % (n as u128)) as usize;
    proof {
        assert(idx as int == proposer_index(validators@, height, round));
    }
    validators[idx].id
}

} // verus!
