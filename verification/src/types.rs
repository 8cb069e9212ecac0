//! The data model of the consensus core.
//!
//! All protocol data is held as plain values.  A validator is named by a
//! numeric identifier (in a deployment this stands for the address
//! registered with the staking contract), and a block by its
//! content-derived hash, reduced to a numeric identifier.  The block
//! identifier is independent of the round, so a value proposed again in a
//! later round of the same height keeps its identifier.

use vstd::prelude::*;

verus! {

/// Position of a block in the committed chain.
pub type Height = u64;

/// One attempt within a height to reach agreement; reset to 0 at the
/// start of each height.
pub type Round = u32;

/// Identifier of a consensus participant, stable for at least the height
/// it participates in.
pub type ValidatorId = u64;

/// Content-derived identifier of a block, independent of the round.
pub type BlockHash = u64;

/// Non-negative weight of a validator's vote at a given height.
pub type VotingPower = u64;

/// A consensus participant together with its voting power for one height.
#[derive(Clone, Copy, PartialEq, Eq, Structural, Debug)]
pub struct Validator {
    pub id: ValidatorId,
    pub power: VotingPower,
}

/// The sub-phase of a round a vote belongs to.
#[derive(Clone, Copy, PartialEq, Eq, Structural, Debug)]
pub enum VoteStep {
    Prevote,
    Precommit,
}

/// One weighted vote.  `block_id` of `None` is a nil vote: an endorsement
/// of "no value", used to signal round failure.  Exactly one vote per
/// (voter, height, round, step) is valid; a second, conflicting vote from
/// the same voter for that key is equivocation.
#[derive(Clone, Copy, PartialEq, Eq, Debug)]
pub struct Vote {
    pub step: VoteStep,
    pub height: Height,
    pub round: Round,
    pub block_id: Option<BlockHash>,
    pub voter: ValidatorId,
}

/// The header of a proposal, sent before content streaming begins.
#[derive(Clone, Copy, PartialEq, Eq, Structural, Debug)]
pub struct ProposalInit {
    pub height: Height,
    pub round: Round,
    pub proposer: ValidatorId,
}

/// A set of votes, all for the same (height, round, step, block id),
/// from distinct voters, whose combined voting power strictly exceeds
/// two thirds of the total voting power for the height.
#[derive(Clone, PartialEq, Eq, Debug)]
pub struct QuorumCertificate {
    pub height: Height,
    pub round: Round,
    pub step: VoteStep,
    pub block_id: Option<BlockHash>,
    pub votes: Vec<Vote>,
}

/// The terminal artifact of a height: the decided block together with the
/// precommits that prove its finality.  Immutable once produced.
#[derive(Clone, PartialEq, Eq, Debug)]
pub struct Decision {
    pub precommits: Vec<Vote>,
    pub block: BlockHash,
}

/// The error taxonomy of the core.  Errors local to one round or one peer
/// never abort a height; only `InvalidEvent`, an internal invariant
/// violation, is fatal.
#[derive(Clone, PartialEq, Eq, Debug)]
pub enum ConsensusError {
    /// An awaited internal channel was dropped by its producer; treated
    /// as "no value" for the round, not fatal to the height.
    Canceled,
    /// A malformed inbound message; the message is discarded.
    ProtobufConversionError(String),
    /// An internally generated event reached an unreachable branch of the
    /// state machine; a programming-invariant violation, fatal.
    InvalidEvent(String),
    /// A peer's proposal failed validation; the round proceeds as if no
    /// valid proposal was received.
    InvalidProposal(ValidatorId, Height, String),
    /// An outbound channel was closed; surfaced to the networking layer.
    SendError(String),
    /// Conflicting votes from one validator for the same key; recorded as
    /// evidence, does not halt the height.
    Equivocation(Height, Vote, Vote),
    /// An opaque failure of the transport collaborator.
    InternalNetworkError(String),
    /// An opaque failure of the chain-sync collaborator.
    SyncError(String),
}

} // verus!
