//! The height-round state machine.
//!
//! One machine drives one height to its decision.  Within a round it
//! walks `Propose -> Prevote -> Precommit`, and from `Precommit` (or on a
//! nil quorum) advances to `Propose` of the next round; `Decided` is
//! terminal for the height.  The machine is a pure transition function
//! from a state and an event to the next state and a list of actions; the
//! surrounding process performs the actions (broadcasting, scheduling
//! timeouts, starting the proposal coordinator) and feeds the resulting
//! events back in.  Waiting never happens here, so handling votes and
//! timeouts is never blocked by slow block building or validation.

use vstd::prelude::*;

use crate::accumulator::{
    completes_quorum_in, conflicts, has_slot, is_quorum, is_validator, lemma_quorum_exclusive,
    matching_votes, repeats, same_slot, total_power, unique_ids, tally, Outcome, QuorumKey,
    VoteAccumulator,
};
use crate::proposer::{proposer, proposer_of};
use crate::types::{
    BlockHash, Decision, Height, ProposalInit, Round, Validator, ValidatorId, Vote, VoteStep,
};

verus! {

/// The protocol phase of the current round.
#[derive(Clone, Copy, PartialEq, Eq, Structural, Debug)]
pub enum Phase {
    /// Waiting for the round's candidate block (own build or the
    /// leader's proposal).
    Propose,
    /// Own prevote is out; accumulating prevotes.
    Prevote,
    /// Own precommit is out; accumulating precommits.
    Precommit,
    /// The height is decided; terminal.
    Decided,
}

/// What the surrounding process feeds into the machine.
#[derive(Clone, Copy, PartialEq, Eq, Debug)]
pub enum Event {
    /// The current round's candidate is known: the built or validated
    /// block's identifier, or `None` when no valid block arrived (the
    /// builder dropped its channel, or validation rejected the content).
    ProposalReady(Option<BlockHash>),
    /// An inbound vote of this height from a known validator; the
    /// boundary layer filters everything else out.
    VoteReceived(Vote),
    /// The timeout scheduled for (round, phase) fired.
    TimeoutExpired(Round, Phase),
}

/// What the surrounding process must perform.
#[derive(Clone, PartialEq, Eq, Debug)]
pub enum Action {
    /// This node leads the round: have the builder stream a proposal
    /// under this header.
    BeginProposal(ProposalInit),
    /// Another node leads the round: open the validation path for its
    /// proposal.
    AwaitProposal(ProposalInit),
    /// Broadcast this node's own vote to all peers.
    Broadcast(Vote),
    /// Schedule the timeout of (round, phase).
    ScheduleTimeout(Round, Phase),
    /// Conflicting votes from one validator: evidence for the stored
    /// vote and the rejected one, in that order.
    ReportEquivocation(Vote, Vote),
    /// Finality: hand the decision and its certificate to storage.
    DecisionReached(Decision),
}

/// The mathematical state of a machine.
#[verifier::ext_equal]
pub ghost struct MachineModel {
    pub id: ValidatorId,
    pub height: Height,
    pub round: int,
    pub phase: Phase,
    pub validators: Seq<Validator>,
    pub total: int,
    pub votes: Seq<Vote>,
    pub reported: Seq<QuorumKey>,
    pub locked: Option<BlockHash>,
    pub decided: Option<BlockHash>,
}

/// The mathematical content of an action.
pub ghost enum ActionModel {
    BeginProposal(ProposalInit),
    AwaitProposal(ProposalInit),
    Broadcast(Vote),
    ScheduleTimeout(int, Phase),
    ReportEquivocation(Vote, Vote),
    DecisionReached(BlockHash, Seq<Vote>),
}

impl View for Action {
    type V = ActionModel;

    open spec fn view(&self) -> ActionModel {
        match self {
            Action::BeginProposal(i) => ActionModel::BeginProposal(*i),
            Action::AwaitProposal(i) => ActionModel::AwaitProposal(*i),
            Action::Broadcast(v) => ActionModel::Broadcast(*v),
            Action::ScheduleTimeout(r, p) => ActionModel::ScheduleTimeout(*r as int, *p),
            Action::ReportEquivocation(a, b) => ActionModel::ReportEquivocation(*a, *b),
            Action::DecisionReached(d) => ActionModel::DecisionReached(d.block, d.precommits@),
        }
    }
}

/// The actions of a list, each as its mathematical content.
pub open spec fn action_views(s: Seq<Action>) -> Seq<ActionModel> {
    Seq::new(s.len(), |i: int| s[i]@)
}

/// This node's own vote for the current round.
pub open spec fn own_vote(m: MachineModel, step: VoteStep, block_id: Option<BlockHash>) -> Vote {
    Vote { step, height: m.height, round: m.round as Round, block_id, voter: m.id }
}

/// The proposal header of the given round of this height.
pub open spec fn proposal_init(m: MachineModel, round: int) -> ProposalInit {
    ProposalInit {
        height: m.height,
        round: round as Round,
        proposer: proposer_of(m.validators, m.height, round as Round),
    }
}

/// How a round opens: this node either leads it or awaits its leader.
pub open spec fn round_action(m: MachineModel, round: int) -> ActionModel {
    if proposer_of(m.validators, m.height, round as Round) == m.id {
        ActionModel::BeginProposal(proposal_init(m, round))
    } else {
        ActionModel::AwaitProposal(proposal_init(m, round))
    }
}

/// The stored votes after recording `v`: unchanged when the voter's slot
/// is already taken.
pub open spec fn votes_after(m: MachineModel, v: Vote) -> Seq<Vote> {
    if has_slot(m.votes, v) {
        m.votes
    } else {
        m.votes.push(v)
    }
}

/// Recording `v` completes a quorum for its key that was never reported.
pub open spec fn completes_quorum_model(m: MachineModel, v: Vote) -> bool {
    !has_slot(m.votes, v) && completes_quorum_in(m.votes, m.reported, m.validators, m.total, v)
}

/// The reported quorum keys after recording `v`.
pub open spec fn reported_after(m: MachineModel, v: Vote) -> Seq<QuorumKey> {
    if completes_quorum_model(m, v) {
        m.reported.push(QuorumKey { round: v.round, step: v.step, block_id: v.block_id })
    } else {
        m.reported
    }
}

/// The stored vote that a conflicting vote `v` equivocates against.
pub open spec fn conflicting_vote(votes: Seq<Vote>, v: Vote) -> Vote {
    choose|w: Vote| votes.contains(w) && same_slot(w, v) && w.block_id != v.block_id
}

/// The transition function of the protocol: from a state and an event to
/// the next state and the actions owed for them.  This is the whole
/// behaviour of the machine; `handle_event` computes exactly this.
pub open spec fn transition(m: MachineModel, e: Event) -> (MachineModel, Seq<ActionModel>) {
    if m.phase is Decided {
        (m, Seq::empty())
    } else {
        match e {
            Event::ProposalReady(block_id) => {
                if m.phase is Propose {
                    (
                        MachineModel { phase: Phase::Prevote, ..m },
                        seq![
                            ActionModel::Broadcast(own_vote(m, VoteStep::Prevote, block_id)),
                            ActionModel::ScheduleTimeout(m.round, Phase::Prevote),
                        ],
                    )
                } else {
                    (m, Seq::empty())
                }
            },
            Event::VoteReceived(v) => {
                let m2 = MachineModel {
                    votes: votes_after(m, v),
                    reported: reported_after(m, v),
                    ..m
                };
                if conflicts(m.votes, v) {
                    (
                        m2,
                        seq![ActionModel::ReportEquivocation(conflicting_vote(m.votes, v), v)],
                    )
                } else if completes_quorum_model(m, v) && v.round as int == m.round {
                    if v.step is Prevote {
                        if m.phase is Prevote {
                            (
                                MachineModel {
                                    phase: Phase::Precommit,
                                    locked: if v.block_id is Some {
                                        v.block_id
                                    } else {
                                        m.locked
                                    },
                                    ..m2
                                },
                                seq![
                                    ActionModel::Broadcast(
                                        own_vote(m, VoteStep::Precommit, v.block_id),
                                    ),
                                    ActionModel::ScheduleTimeout(m.round, Phase::Precommit),
                                ],
                            )
                        } else {
                            (m2, Seq::empty())
                        }
                    } else {
                        match v.block_id {
                            Some(b) => (
                                MachineModel { phase: Phase::Decided, decided: Some(b), ..m2 },
                                seq![
                                    ActionModel::DecisionReached(
                                        b,
                                        matching_votes(
                                            votes_after(m, v),
                                            m.round as Round,
                                            VoteStep::Precommit,
                                            Some(b),
                                        ),
                                    ),
                                ],
                            ),
                            None => (
                                MachineModel { round: m.round + 1, phase: Phase::Propose, ..m2 },
                                seq![
                                    round_action(m, m.round + 1),
                                    ActionModel::ScheduleTimeout(m.round + 1, Phase::Propose),
                                ],
                            ),
                        }
                    }
                } else {
                    (m2, Seq::empty())
                }
            },
            Event::TimeoutExpired(r, ph) => {
                if r as int == m.round && ph == m.phase {
                    match m.phase {
                        Phase::Propose => (
                            MachineModel { phase: Phase::Prevote, ..m },
                            seq![
                                ActionModel::Broadcast(own_vote(m, VoteStep::Prevote, None)),
                                ActionModel::ScheduleTimeout(m.round, Phase::Prevote),
                            ],
                        ),
                        Phase::Prevote => (
                            MachineModel { phase: Phase::Precommit, ..m },
                            seq![
                                ActionModel::Broadcast(own_vote(m, VoteStep::Precommit, None)),
                                ActionModel::ScheduleTimeout(m.round, Phase::Precommit),
                            ],
                        ),
                        Phase::Precommit => (
                            MachineModel { round: m.round + 1, phase: Phase::Propose, ..m },
                            seq![
                                round_action(m, m.round + 1),
                                ActionModel::ScheduleTimeout(m.round + 1, Phase::Propose),
                            ],
                        ),
                        Phase::Decided => (m, Seq::empty()),
                    }
                } else {
                    (m, Seq::empty())
                }
            },
        }
    }
}

/// The state after a whole sequence of events, first to last.
pub open spec fn run(m: MachineModel, events: Seq<Event>) -> MachineModel
    decreases events.len(),
{
    if events.len() == 0 {
        m
    } else {
        run(transition(m, events[0]).0, events.drop_first())
    }
}

/// Law: round-advance determinism.  The machine is a function: two
/// machines in one state, fed one sequence of events (same validator
/// set, same weights, same arrival order), pass through identical states
/// — the same round advances and the same decision.
pub proof fn lemma_run_deterministic(
    m1: MachineModel,
    m2: MachineModel,
    e1: Seq<Event>,
    e2: Seq<Event>,
)
    requires
        m1 == m2,
        e1 == e2,
    ensures
        run(m1, e1) == run(m2, e2),
{
}

/// Law: rounds never move backwards, the height never changes, and a
/// decided machine never changes at all.
pub proof fn lemma_transition_frame(m: MachineModel, e: Event)
    ensures
        transition(m, e).0.round >= m.round,
        transition(m, e).0.height == m.height,
        transition(m, e).0.validators == m.validators,
        m.phase is Decided ==> transition(m, e).0 == m && transition(m, e).1 == Seq::<
            ActionModel,
        >::empty(),
        transition(m, e).0.decided != m.decided ==> transition(m, e).0.phase is Decided,
{
}

/// Law: a decision is irreversible.  Whatever events follow, a decided
/// machine stays exactly as it is for the rest of the height's life.
pub proof fn lemma_run_decided_stable(m: MachineModel, events: Seq<Event>)
    requires
        m.phase is Decided,
    ensures
        run(m, events) == m,
    decreases events.len(),
{
    if events.len() > 0 {
        lemma_transition_frame(m, events[0]);
        lemma_run_decided_stable(m, events.drop_first());
    }
}

/// Law: over any whole run, the round never decreases and the height and
/// validator set never change.
pub proof fn lemma_run_round_monotonic(m: MachineModel, events: Seq<Event>)
    ensures
        run(m, events).round >= m.round,
        run(m, events).height == m.height,
        run(m, events).validators == m.validators,
    decreases events.len(),
{
    if events.len() > 0 {
        lemma_transition_frame(m, events[0]);
        lemma_run_round_monotonic(transition(m, events[0]).0, events.drop_first());
    }
}

/// Law: progress.  An undecided machine always moves under its own
/// timeout: the proposal and prevote timeouts push the round toward
/// `Precommit`, and the precommit timeout opens the next round under the
/// next leader, so no state waits forever once timeouts fire.
pub proof fn lemma_timeout_progress(m: MachineModel)
    requires
        !(m.phase is Decided),
        0 <= m.round <= Round::MAX as int,
    ensures
        m.phase is Propose ==> transition(m, Event::TimeoutExpired(m.round as Round, m.phase)).0
            == (MachineModel { phase: Phase::Prevote, ..m }),
        m.phase is Prevote ==> transition(m, Event::TimeoutExpired(m.round as Round, m.phase)).0
            == (MachineModel { phase: Phase::Precommit, ..m }),
        m.phase is Precommit ==> transition(m, Event::TimeoutExpired(m.round as Round, m.phase)).0
            == (MachineModel { round: m.round + 1, phase: Phase::Propose, ..m }),
{
}

/// One height's driver: the current round and phase, the vote tallies,
/// and the decision once reached.
pub struct HeightStateMachine {
    /// This node's validator identifier.
    pub id: ValidatorId,
    /// The height this machine drives.
    pub height: Height,
    /// The current round; non-decreasing over the machine's life.
    pub round: Round,
    /// The current phase of the round.
    pub phase: Phase,
    /// The height's vote tallies.
    pub accumulator: VoteAccumulator,
    /// The block of the last non-nil prevote quorum seen, enabling
    /// re-proposal without re-streaming content in a later round.
    pub locked: Option<BlockHash>,
    /// The decision, once the height is decided.
    pub decision: Option<Decision>,
}

impl View for HeightStateMachine {
    type V = MachineModel;

    open spec fn view(&self) -> MachineModel {
        MachineModel {
            id: self.id,
            height: self.height,
            round: self.round as int,
            phase: self.phase,
            validators: self.accumulator.validators@,
            total: self.accumulator.total as int,
            votes: self.accumulator.votes@,
            reported: self.accumulator.reported@,
            locked: self.locked,
            decided: match self.decision {
                Some(d) => Some(d.block),
                None => None,
            },
        }
    }
}

impl HeightStateMachine {
    /// Well-formedness: sound tallies over a non-empty validator set of
    /// this height, and a decision exactly in the `Decided` phase, backed
    /// by the stored precommit quorum for its block.
    pub open spec fn wf(self) -> bool {
        &&& self.accumulator.wf()
        &&& self.accumulator.height == self.height
        &&& self.accumulator.validators@.len() > 0
        &&& (self.phase is Decided <==> self.decision is Some)
        &&& (self.decision matches Some(d) ==> {
            &&& d.precommits@ == matching_votes(
                self.accumulator.votes@,
                self.round,
                VoteStep::Precommit,
                Some(d.block),
            )
            &&& is_quorum(
                tally(
                    self.accumulator.votes@,
                    self.accumulator.validators@,
                    self.round,
                    VoteStep::Precommit,
                    Some(d.block),
                ),
                self.accumulator.total as int,
            )
        })
    }

    /// A fresh machine at round 0 of `height`, in the `Propose` phase.
    pub fn new(id: ValidatorId, height: Height, validators: Vec<Validator>) -> (m:
        HeightStateMachine)
        requires
            unique_ids(validators@),
            validators@.len() > 0,
            total_power(validators@) <= u64::MAX as int,
        ensures
            m.wf(),
            m@ == (MachineModel {
                id,
                height,
                round: 0,
                phase: Phase::Propose,
                validators: validators@,
                total: total_power(validators@),
                votes: Seq::<Vote>::empty(),
                reported: Seq::<QuorumKey>::empty(),
                locked: None,
                decided: None,
            }),
    {
        let accumulator = VoteAccumulator::new(height, validators);
        let m = HeightStateMachine {
            id,
            height,
            round: 0,
            phase: Phase::Propose,
            accumulator,
            locked: None,
            decision: None,
        };
        proof {
            assert(m@ =~= (MachineModel {
                id,
                height,
                round: 0,
                phase: Phase::Propose,
                validators: m.accumulator.validators@,
                total: total_power(m.accumulator.validators@),
                votes: Seq::<Vote>::empty(),
                reported: Seq::<QuorumKey>::empty(),
                locked: None,
                decided: None,
            }));
        }
        m
    }

    /// The actions that open the current round: lead it or await its
    /// leader, and arm the proposal timeout.
    pub fn round_start_actions(&self) -> (actions: Vec<Action>)
        requires
            self.wf(),
        ensures
            action_views(actions@) == seq![
                round_action(self@, self@.round),
                ActionModel::ScheduleTimeout(self@.round, Phase::Propose),
            ],
    {
        let leader = proposer(&self.accumulator.validators, self.height, self.round);
        let init = ProposalInit { height: self.height, round: self.round, proposer: leader };
        let mut actions: Vec<Action> = Vec::new();
        if leader == self.id {
            actions.push(Action::BeginProposal(init));
        } else {
            actions.push(Action::AwaitProposal(init));
        }
        actions.push(Action::ScheduleTimeout(self.round, Phase::Propose));
        proof {
            assert(action_views(actions@) =~= seq![
                round_action(self@, self@.round),
                ActionModel::ScheduleTimeout(self@.round, Phase::Propose),
            ]);
        }
        actions
    }

    /// Opens round + 1 in the `Propose` phase: the round's state is
    /// superseded, not merged, and a new leader takes over.
    fn advance_round(&mut self) -> (actions: Vec<Action>)
        requires
            old(self).wf(),
            old(self).round < Round::MAX,
            !(old(self).phase is Decided),
        ensures
            final(self).wf(),
            final(self)@ == (MachineModel {
                round: old(self)@.round + 1,
                phase: Phase::Propose,
                ..old(self)@
            }),
            action_views(actions@) == seq![
                round_action(old(self)@, old(self)@.round + 1),
                ActionModel::ScheduleTimeout(old(self)@.round + 1, Phase::Propose),
            ],
    {
        self.round = self.round + 1;
        self.phase = Phase::Propose;
        let actions = self.round_start_actions();
        proof {
            assert(self@ =~= (MachineModel {
                round: old(self)@.round + 1,
                phase: Phase::Propose,
                ..old(self)@
            }));
        }
        actions
    }
}

impl HeightStateMachine {
    /// Feeds one event through the machine and returns the actions owed.
    ///
    /// The new state and the actions are exactly `transition` applied to
    /// the old state: the machine is deterministic, rounds never move
    /// backwards, and once decided nothing changes any more.  Votes of
    /// other heights or from outside the validator set are the boundary
    /// layer's to discard, not events of the machine.
    pub fn handle_event(&mut self, event: Event) -> (actions: Vec<Action>)
        requires
            old(self).wf(),
            old(self).round < Round::MAX,
            event matches Event::VoteReceived(v) ==> v.height == old(self).height && is_validator(
                old(self).accumulator.validators@,
                v.voter,
            ),
        ensures
            final(self).wf(),
            final(self)@ == transition(old(self)@, event).0,
            action_views(actions@) == transition(old(self)@, event).1,
            final(self).round >= old(self).round,
            final(self).height == old(self).height,
    {
        proof {
            assert(action_views(Seq::<Action>::empty()) =~= Seq::<ActionModel>::empty());
        }
        match self.phase {
            Phase::Decided => {
                return Vec::new();
            },
            _ => {},
        }
        match event {
            Event::ProposalReady(block_id) => {
                match self.phase {
                    Phase::Propose => {
                        let vote = Vote {
                            step: VoteStep::Prevote,
                            height: self.height,
                            round: self.round,
                            block_id,
                            voter: self.id,
                        };
                        self.phase = Phase::Prevote;
                        let mut actions: Vec<Action> = Vec::new();
                        actions.push(Action::Broadcast(vote));
                        actions.push(Action::ScheduleTimeout(self.round, Phase::Prevote));
                        proof {
                            assert(self@ =~= transition(old(self)@, event).0);
                            assert(action_views(actions@) =~= transition(old(self)@, event).1);
                        }
                        actions
                    },
                    _ => Vec::new(),
                }
            },
            Event::VoteReceived(v) => {
                let ghost ov = old(self)@;
                proof {
                    assert(has_slot(ov.votes, v) ==> repeats(ov.votes, v) || conflicts(
                        ov.votes,
                        v,
                    )) by {
                        if has_slot(ov.votes, v) {
                            let j = choose|j: int|
                                0 <= j < ov.votes.len() && same_slot(#[trigger] ov.votes[j], v);
                            if ov.votes[j].block_id == v.block_id {
                                assert(repeats(ov.votes, v));
                            } else {
                                assert(conflicts(ov.votes, v));
                            }
                        }
                    }
                }
                let out = self.accumulator.record_vote(v);
                match out {
                    Outcome::Accepted => {
                        proof {
                            assert(self@ =~= transition(old(self)@, event).0);
                        }
                        Vec::new()
                    },
                    Outcome::Equivocation(prev, cur) => {
                        let mut actions: Vec<Action> = Vec::new();
                        actions.push(Action::ReportEquivocation(prev, cur));
                        proof {
                            assert(conflicts(ov.votes, v));
                            assert(ov.votes.contains(prev) && same_slot(prev, v) && prev.block_id
                                != v.block_id);
                            let w = conflicting_vote(ov.votes, v);
                            assert(ov.votes.contains(w) && same_slot(w, v) && w.block_id
                                != v.block_id) by {
                                assert(ov.votes.contains(prev) && same_slot(prev, v)
                                    && prev.block_id != v.block_id);
                            }
                            let iw = choose|i: int| 0 <= i < ov.votes.len() && ov.votes[i] == w;
                            let ip = choose|i: int| 0 <= i < ov.votes.len() && ov.votes[i] == prev;
                            assert(same_slot(ov.votes[iw], ov.votes[ip]));
                            assert(iw == ip);
                            assert(w == prev);
                            assert(self@ =~= transition(old(self)@, event).0);
                            assert(action_views(actions@) =~= transition(old(self)@, event).1);
                        }
                        actions
                    },
                    Outcome::QuorumReached(qc) => {
                        proof {
                            assert(!has_slot(ov.votes, v) && completes_quorum_model(ov, v));
                        }
                        if v.round == self.round {
                            match v.step {
                                VoteStep::Prevote => {
                                    match self.phase {
                                        Phase::Prevote => {
                                            let pv = Vote {
                                                step: VoteStep::Precommit,
                                                height: self.height,
                                                round: self.round,
                                                block_id: v.block_id,
                                                voter: self.id,
                                            };
                                            if pv.block_id.is_some() {
                                                self.locked = v.block_id;
                                            }
                                            self.phase = Phase::Precommit;
                                            let mut actions: Vec<Action> = Vec::new();
                                            actions.push(Action::Broadcast(pv));
                                            actions.push(
                                                Action::ScheduleTimeout(
                                                    self.round,
                                                    Phase::Precommit,
                                                ),
                                            );
                                            proof {
                                                assert(self@ =~= transition(old(self)@, event).0);
                                                assert(action_views(actions@) =~= transition(
                                                    old(self)@,
                                                    event,
                                                ).1);
                                            }
                                            actions
                                        },
                                        _ => {
                                            proof {
                                                assert(self@ =~= transition(old(self)@, event).0);
                                            }
                                            Vec::new()
                                        },
                                    }
                                },
                                VoteStep::Precommit => {
                                    match v.block_id {
                                        Some(b) => {
                                            let cert = self.accumulator.collect_matching(
                                                v.round,
                                                VoteStep::Precommit,
                                                v.block_id,
                                            );
                                            self.decision = Some(
                                                Decision { precommits: cert, block: b },
                                            );
                                            self.phase = Phase::Decided;
                                            let mut actions: Vec<Action> = Vec::new();
                                            actions.push(
                                                Action::DecisionReached(
                                                    Decision { precommits: qc.votes, block: b },
                                                ),
                                            );
                                            proof {
                                                assert(self@ =~= transition(old(self)@, event).0);
                                                assert(action_views(actions@) =~= transition(
                                                    old(self)@,
                                                    event,
                                                ).1);
                                            }
                                            actions
                                        },
                                        None => {
                                            let actions = self.advance_round();
                                            proof {
                                                assert(self@ =~= transition(old(self)@, event).0);
                                                assert(action_views(actions@) =~= transition(
                                                    old(self)@,
                                                    event,
                                                ).1);
                                            }
                                            actions
                                        },
                                    }
                                },
                            }
                        } else {
                            proof {
                                assert(self@ =~= transition(old(self)@, event).0);
                            }
                            Vec::new()
                        }
                    },
                }
            },
            Event::TimeoutExpired(r, ph) => {
                if r == self.round && ph == self.phase {
                    match self.phase {
                        Phase::Propose => {
                            let vote = Vote {
                                step: VoteStep::Prevote,
                                height: self.height,
                                round: self.round,
                                block_id: None,
                                voter: self.id,
                            };
                            self.phase = Phase::Prevote;
                            let mut actions: Vec<Action> = Vec::new();
                            actions.push(Action::Broadcast(vote));
                            actions.push(Action::ScheduleTimeout(self.round, Phase::Prevote));
                            proof {
                                assert(self@ =~= transition(old(self)@, event).0);
                                assert(action_views(actions@) =~= transition(old(self)@, event).1);
                            }
                            actions
                        },
                        Phase::Prevote => {
                            let vote = Vote {
                                step: VoteStep::Precommit,
                                height: self.height,
                                round: self.round,
                                block_id: None,
                                voter: self.id,
                            };
                            self.phase = Phase::Precommit;
                            let mut actions: Vec<Action> = Vec::new();
                            actions.push(Action::Broadcast(vote));
                            actions.push(Action::ScheduleTimeout(self.round, Phase::Precommit));
                            proof {
                                assert(self@ =~= transition(old(self)@, event).0);
                                assert(action_views(actions@) =~= transition(old(self)@, event).1);
                            }
                            actions
                        },
                        Phase::Precommit => {
                            let actions = self.advance_round();
                            proof {
                                assert(self@ =~= transition(old(self)@, event).0);
                                assert(action_views(actions@) =~= transition(old(self)@, event).1);
                            }
                            actions
                        },
                        Phase::Decided => {
                            proof {
                                assert(false);
                            }
                            Vec::new()
                        },
                    }
                } else {
                    Vec::new()
                }
            },
        }
    }
}

/// Law: safety of the decision.  A decided machine's block is backed by
/// a precommit quorum among its stored votes, and no other value — nil
/// included — holds a precommit quorum in the deciding round: with one
/// recorded vote per voter, no conflicting certificate can exist there.
pub proof fn lemma_decided_block_exclusive(m: HeightStateMachine, d: Decision, other: Option<
    BlockHash,
>)
    requires
        m.wf(),
        m.decision == Some(d),
        other != Some(d.block),
    ensures
        is_quorum(
            tally(
                m.accumulator.votes@,
                m.accumulator.validators@,
                m.round,
                VoteStep::Precommit,
                Some(d.block),
            ),
            m.accumulator.total as int,
        ),
        !is_quorum(
            tally(
                m.accumulator.votes@,
                m.accumulator.validators@,
                m.round,
                VoteStep::Precommit,
                other,
            ),
            m.accumulator.total as int,
        ),
{
    lemma_quorum_exclusive(
        m.accumulator.votes@,
        m.accumulator.validators@,
        m.round,
        VoteStep::Precommit,
        Some(d.block),
        other,
    );
}

/// Law: one decision per height.  A decision action is only ever emitted
/// on the step that enters the terminal `Decided` phase; since a decided
/// machine never changes again, at most one decision is produced over
/// the whole life of a height.
pub proof fn lemma_decision_once(m: MachineModel, e: Event)
    ensures
        (exists|i: int|
            0 <= i < transition(m, e).1.len() && transition(m, e).1[i] is DecisionReached) ==> !(
        m.phase is Decided) && transition(m, e).0.phase is Decided,
{
}

/// Law: decision.  An undecided machine that records a precommit which
/// completes a fresh quorum for a block of the current round decides that
/// block at once, whatever its phase: with honest supermajority votes
/// delivered, `Decided` is reached.
pub proof fn lemma_decides_on_precommit_quorum(m: MachineModel, v: Vote, b: BlockHash)
    requires
        !(m.phase is Decided),
        v.step is Precommit,
        v.block_id == Some(b),
        v.round as int == m.round,
        completes_quorum_model(m, v),
        !conflicts(m.votes, v),
    ensures
        transition(m, Event::VoteReceived(v)).0.phase is Decided,
        transition(m, Event::VoteReceived(v)).0.decided == Some(b),
        transition(m, Event::VoteReceived(v)).0.round == m.round,
{
}

} // verus!
