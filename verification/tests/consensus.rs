use consensus_core::accumulator::{Outcome, VoteAccumulator};
use consensus_core::coordinator::ProposalStream;
use consensus_core::machine::{Action, Event, HeightStateMachine, Phase};
use consensus_core::proposer::proposer;
use consensus_core::types::{ConsensusError, Validator, Vote, VoteStep};

fn equal_validators() -> Vec<Validator> {
    vec![
        Validator { id: 1, power: 1 },
        Validator { id: 2, power: 1 },
        Validator { id: 3, power: 1 },
        Validator { id: 4, power: 1 },
    ]
}

fn vote(step: VoteStep, round: u32, block_id: Option<u64>, voter: u64) -> Vote {
    Vote { step, height: 10, round, block_id, voter }
}

/// Four validators of power 1 each (total 4): the proposer streams block
/// X at height 10, round 0; three precommits for X reach the >2/3
/// threshold (>2.666, i.e. three votes), the decision is handed over
/// exactly once, and the machine is terminal so the next height can
/// begin.
#[test]
fn three_precommits_decide_once() {
    let block_x = 77u64;
    // round-robin leader of (height 10, round 0) over four validators
    let leader = proposer(&equal_validators(), 10, 0);
    assert_eq!(leader, 3);

    let mut m = HeightStateMachine::new(leader, 10, equal_validators());
    let actions = m.round_start_actions();
    assert!(matches!(actions[0], Action::BeginProposal(_)));

    // the builder yields X: the proposer prevotes it
    let actions = m.handle_event(Event::ProposalReady(Some(block_x)));
    match &actions[0] {
        Action::Broadcast(v) => {
            assert_eq!(v.step, VoteStep::Prevote);
            assert_eq!(v.block_id, Some(block_x));
            assert_eq!(v.voter, leader);
        }
        other => panic!("expected a prevote broadcast, got {:?}", other),
    }
    assert_eq!(m.phase, Phase::Prevote);

    // prevote quorum for X: the machine precommits X
    assert!(m.handle_event(Event::VoteReceived(vote(VoteStep::Prevote, 0, Some(block_x), 3))).is_empty());
    assert!(m.handle_event(Event::VoteReceived(vote(VoteStep::Prevote, 0, Some(block_x), 1))).is_empty());
    let actions = m.handle_event(Event::VoteReceived(vote(VoteStep::Prevote, 0, Some(block_x), 2)));
    match &actions[0] {
        Action::Broadcast(v) => {
            assert_eq!(v.step, VoteStep::Precommit);
            assert_eq!(v.block_id, Some(block_x));
        }
        other => panic!("expected a precommit broadcast, got {:?}", other),
    }
    assert_eq!(m.phase, Phase::Precommit);
    assert_eq!(m.locked, Some(block_x));

    // two precommits are not yet a quorum
    assert!(m.handle_event(Event::VoteReceived(vote(VoteStep::Precommit, 0, Some(block_x), 3))).is_empty());
    assert!(m.handle_event(Event::VoteReceived(vote(VoteStep::Precommit, 0, Some(block_x), 1))).is_empty());
    assert_eq!(m.phase, Phase::Precommit);

    // the third precommit decides, with the three-vote certificate
    let actions = m.handle_event(Event::VoteReceived(vote(VoteStep::Precommit, 0, Some(block_x), 2)));
    assert_eq!(actions.len(), 1);
    match &actions[0] {
        Action::DecisionReached(d) => {
            assert_eq!(d.block, block_x);
            assert_eq!(d.precommits.len(), 3);
            let voters: Vec<u64> = d.precommits.iter().map(|v| v.voter).collect();
            assert_eq!(voters, vec![3, 1, 2]);
            assert!(d.precommits.iter().all(|v| v.block_id == Some(block_x)));
        }
        other => panic!("expected the decision, got {:?}", other),
    }
    assert_eq!(m.phase, Phase::Decided);
    assert_eq!(m.round, 0);

    // a fourth agreeing precommit changes nothing: the decision fired once
    let actions = m.handle_event(Event::VoteReceived(vote(VoteStep::Precommit, 0, Some(block_x), 4)));
    assert!(actions.is_empty());
    assert_eq!(m.phase, Phase::Decided);
}

/// Same setup, but the precommits split two for X and two for Y: no value
/// exceeds 2/3, and the precommit timeout advances to round 1 under a new
/// proposer.
#[test]
fn split_precommits_advance_round() {
    let mut m = HeightStateMachine::new(1, 10, equal_validators());

    // no proposal arrives: prevote nil, then precommit nil
    let actions = m.handle_event(Event::TimeoutExpired(0, Phase::Propose));
    assert!(matches!(&actions[0], Action::Broadcast(v) if v.block_id.is_none()));
    let actions = m.handle_event(Event::TimeoutExpired(0, Phase::Prevote));
    assert!(matches!(&actions[0], Action::Broadcast(v) if v.step == VoteStep::Precommit));
    assert_eq!(m.phase, Phase::Precommit);

    // 2 precommits for X, 2 for Y: no quorum anywhere
    assert!(m.handle_event(Event::VoteReceived(vote(VoteStep::Precommit, 0, Some(7), 1))).is_empty());
    assert!(m.handle_event(Event::VoteReceived(vote(VoteStep::Precommit, 0, Some(7), 2))).is_empty());
    assert!(m.handle_event(Event::VoteReceived(vote(VoteStep::Precommit, 0, Some(8), 3))).is_empty());
    assert!(m.handle_event(Event::VoteReceived(vote(VoteStep::Precommit, 0, Some(8), 4))).is_empty());
    assert_eq!(m.phase, Phase::Precommit);

    // the precommit timeout opens round 1 under the next leader
    let actions = m.handle_event(Event::TimeoutExpired(0, Phase::Precommit));
    assert_eq!(m.round, 1);
    assert_eq!(m.phase, Phase::Propose);
    match &actions[0] {
        Action::AwaitProposal(init) => {
            assert_eq!(init.round, 1);
            assert_eq!(init.height, 10);
            assert_eq!(init.proposer, 4);
            assert_ne!(init.proposer, proposer(&equal_validators(), 10, 0));
        }
        other => panic!("expected the new round's proposal await, got {:?}", other),
    }
    assert!(matches!(&actions[1], Action::ScheduleTimeout(1, Phase::Propose)));
}

/// A conflicting second vote is reported as equivocation; the stored
/// first vote stays and keeps counting toward the quorum.
#[test]
fn equivocation_reported_first_vote_kept() {
    let mut acc = VoteAccumulator::new(10, equal_validators());
    let first = vote(VoteStep::Prevote, 0, Some(5), 1);
    assert_eq!(acc.record_vote(first), Outcome::Accepted);

    let conflicting = vote(VoteStep::Prevote, 0, Some(6), 1);
    match acc.record_vote(conflicting) {
        Outcome::Equivocation(old, new) => {
            assert_eq!(old, first);
            assert_eq!(new, conflicting);
        }
        other => panic!("expected equivocation, got {:?}", other),
    }

    // the first-seen vote still counts: two more votes for 5 complete the
    // quorum, and its certificate carries the first vote, not the second
    assert_eq!(acc.record_vote(vote(VoteStep::Prevote, 0, Some(5), 2)), Outcome::Accepted);
    match acc.record_vote(vote(VoteStep::Prevote, 0, Some(5), 3)) {
        Outcome::QuorumReached(qc) => {
            assert_eq!(qc.block_id, Some(5));
            assert_eq!(qc.votes, vec![first, vote(VoteStep::Prevote, 0, Some(5), 2), vote(VoteStep::Prevote, 0, Some(5), 3)]);
        }
        other => panic!("expected a quorum, got {:?}", other),
    }

    // an exact repeat is accepted silently
    assert_eq!(acc.record_vote(first), Outcome::Accepted);
}

/// A quorum is reported exactly once per (round, step, block id): later
/// agreeing votes are accepted without re-emission.
#[test]
fn quorum_reported_once() {
    let mut acc = VoteAccumulator::new(10, equal_validators());
    assert_eq!(acc.record_vote(vote(VoteStep::Precommit, 0, Some(9), 1)), Outcome::Accepted);
    assert_eq!(acc.record_vote(vote(VoteStep::Precommit, 0, Some(9), 2)), Outcome::Accepted);
    assert!(matches!(
        acc.record_vote(vote(VoteStep::Precommit, 0, Some(9), 3)),
        Outcome::QuorumReached(_)
    ));
    assert_eq!(acc.record_vote(vote(VoteStep::Precommit, 0, Some(9), 4)), Outcome::Accepted);
}

/// Nil votes tally separately from block votes, and a nil prevote quorum
/// makes the machine precommit nil.
#[test]
fn nil_prevote_quorum_precommits_nil() {
    let mut m = HeightStateMachine::new(1, 10, equal_validators());
    m.handle_event(Event::ProposalReady(None));
    assert_eq!(m.phase, Phase::Prevote);

    // one block prevote and two nils: nil votes tally apart from block
    // votes, so nothing is a quorum yet
    assert!(m.handle_event(Event::VoteReceived(vote(VoteStep::Prevote, 0, Some(5), 2))).is_empty());
    assert!(m.handle_event(Event::VoteReceived(vote(VoteStep::Prevote, 0, None, 1))).is_empty());
    assert!(m.handle_event(Event::VoteReceived(vote(VoteStep::Prevote, 0, None, 3))).is_empty());
    assert_eq!(m.phase, Phase::Prevote);

    // the third nil prevote is a nil quorum: the round has no value
    let actions = m.handle_event(Event::VoteReceived(vote(VoteStep::Prevote, 0, None, 4)));
    match &actions[0] {
        Action::Broadcast(v) => {
            assert_eq!(v.step, VoteStep::Precommit);
            assert_eq!(v.block_id, None);
        }
        other => panic!("expected a nil precommit, got {:?}", other),
    }
    assert_eq!(m.phase, Phase::Precommit);
}

/// Voting power weighs: with powers 3, 1, 1 (total 5) the quorum needs
/// strictly more than 10/3, so the heavy validator and one light one
/// reach it, while the heavy one alone does not.
#[test]
fn weighted_quorum_threshold() {
    let validators = vec![
        Validator { id: 1, power: 3 },
        Validator { id: 2, power: 1 },
        Validator { id: 3, power: 1 },
    ];
    let mut acc = VoteAccumulator::new(10, validators.clone());
    // power 3 of 5: 9 > 10 is false, no quorum
    assert_eq!(acc.record_vote(vote(VoteStep::Prevote, 0, Some(1), 1)), Outcome::Accepted);
    // power 4 of 5: 12 > 10, quorum
    match acc.record_vote(vote(VoteStep::Prevote, 0, Some(1), 2)) {
        Outcome::QuorumReached(qc) => assert_eq!(qc.votes.len(), 2),
        other => panic!("expected a quorum, got {:?}", other),
    }

    // the two light validators alone (2 of 5) never reach it
    let mut acc = VoteAccumulator::new(10, validators);
    assert_eq!(acc.record_vote(vote(VoteStep::Prevote, 0, Some(1), 2)), Outcome::Accepted);
    assert_eq!(acc.record_vote(vote(VoteStep::Prevote, 0, Some(1), 3)), Outcome::Accepted);
}

/// Proposer selection is total, deterministic and round-robin over the
/// ordered set: repeated calls agree, and the leader steps by one per
/// round.
#[test]
fn proposer_round_robin() {
    let validators = equal_validators();
    assert_eq!(proposer(&validators, 10, 0), 3);
    assert_eq!(proposer(&validators, 10, 1), 4);
    assert_eq!(proposer(&validators, 10, 2), 1);
    assert_eq!(proposer(&validators, 10, 3), 2);
    assert_eq!(proposer(&validators, 10, 4), 3);
    assert_eq!(proposer(&validators, 11, 0), 4);
    for round in 0..8 {
        assert_eq!(proposer(&validators, 10, round), proposer(&validators, 10, round));
    }
}

/// Content chunks reach the stream in order, and a chunk of a concurrent
/// proposal for another round never interleaves.
#[test]
fn content_ordering_preserved() {
    let c1 = vec![1u8, 2, 3];
    let c2 = vec![4u8];
    let c3 = vec![5u8, 6];

    let mut stream = ProposalStream::new(10, 0);
    stream.forward_content(vec![c1.clone(), c2.clone()]);
    // a chunk of round 1's proposal is turned away
    assert!(!stream.accept_chunk(10, 1, vec![9u8, 9]));
    // a chunk of another height is turned away too
    assert!(!stream.accept_chunk(11, 0, vec![8u8]));
    assert!(stream.accept_chunk(10, 0, c3.clone()));
    stream.close();

    assert_eq!(stream.chunks, vec![c1, c2, c3]);
    assert!(stream.closed);
}

/// Two machines with the same validator set, weights and message arrival
/// order pass through identical states: the same round advances and the
/// same decision.
#[test]
fn identical_runs_agree() {
    let events = vec![
        Event::TimeoutExpired(0, Phase::Propose),
        Event::VoteReceived(vote(VoteStep::Prevote, 0, Some(3), 2)),
        Event::TimeoutExpired(0, Phase::Prevote),
        Event::VoteReceived(vote(VoteStep::Precommit, 0, None, 1)),
        Event::VoteReceived(vote(VoteStep::Precommit, 0, None, 2)),
        Event::VoteReceived(vote(VoteStep::Precommit, 0, None, 3)),
        Event::ProposalReady(Some(9)),
        Event::VoteReceived(vote(VoteStep::Prevote, 1, Some(9), 1)),
        Event::VoteReceived(vote(VoteStep::Prevote, 1, Some(9), 2)),
        Event::VoteReceived(vote(VoteStep::Prevote, 1, Some(9), 4)),
    ];
    let mut m1 = HeightStateMachine::new(1, 10, equal_validators());
    let mut m2 = HeightStateMachine::new(1, 10, equal_validators());
    for event in events {
        let a1 = m1.handle_event(event);
        let a2 = m2.handle_event(event);
        assert_eq!(a1, a2);
        assert_eq!(m1.round, m2.round);
        assert_eq!(m1.phase, m2.phase);
        assert_eq!(m1.locked, m2.locked);
        assert_eq!(m1.decision, m2.decision);
    }
    // the nil precommit quorum advanced both to round 1, where the
    // prevote quorum locked the proposed block
    assert_eq!(m1.round, 1);
    assert_eq!(m1.locked, Some(9));
    assert_eq!(m1.phase, Phase::Precommit);
}

/// The error taxonomy distinguishes its cases; errors of one round or
/// one peer carry who and where, equivocation carries both votes.
#[test]
fn consensus_error_variants() {
    let old = vote(VoteStep::Prevote, 0, Some(5), 1);
    let new = vote(VoteStep::Prevote, 0, Some(6), 1);
    let equivocation = ConsensusError::Equivocation(10, old, new);
    match &equivocation {
        ConsensusError::Equivocation(height, a, b) => {
            assert_eq!(*height, 10);
            assert_ne!(a.block_id, b.block_id);
        }
        other => panic!("expected equivocation, got {:?}", other),
    }

    let invalid = ConsensusError::InvalidProposal(2, 10, "bad content".to_string());
    assert_ne!(invalid, equivocation);
    assert_eq!(invalid.clone(), invalid);
    assert!(matches!(ConsensusError::Canceled, ConsensusError::Canceled));
    assert!(matches!(
        ConsensusError::InvalidEvent("unreachable branch".to_string()),
        ConsensusError::InvalidEvent(_)
    ));
}

/// A stale timeout of an earlier round or another phase changes nothing.
#[test]
fn stale_timeout_ignored() {
    let mut m = HeightStateMachine::new(1, 10, equal_validators());
    m.handle_event(Event::TimeoutExpired(0, Phase::Propose));
    m.handle_event(Event::TimeoutExpired(0, Phase::Prevote));
    m.handle_event(Event::TimeoutExpired(0, Phase::Precommit));
    assert_eq!(m.round, 1);
    assert_eq!(m.phase, Phase::Propose);

    // round 0 timeouts are stale now
    assert!(m.handle_event(Event::TimeoutExpired(0, Phase::Propose)).is_empty());
    assert!(m.handle_event(Event::TimeoutExpired(0, Phase::Precommit)).is_empty());
    // a mismatched phase is stale too
    assert!(m.handle_event(Event::TimeoutExpired(1, Phase::Prevote)).is_empty());
    assert_eq!(m.round, 1);
    assert_eq!(m.phase, Phase::Propose);
}

/// A build result that arrives after the machine already prevoted is
/// discarded: it belongs to a superseded wait.
#[test]
fn late_proposal_result_discarded() {
    let mut m = HeightStateMachine::new(1, 10, equal_validators());
    m.handle_event(Event::ProposalReady(Some(5)));
    assert_eq!(m.phase, Phase::Prevote);
    assert!(m.handle_event(Event::ProposalReady(Some(6))).is_empty());
    assert_eq!(m.phase, Phase::Prevote);
    assert_eq!(m.round, 0);
}

/// A quorum of an earlier round no longer moves the machine.
#[test]
fn old_round_quorum_ignored() {
    let mut m = HeightStateMachine::new(1, 10, equal_validators());
    m.handle_event(Event::TimeoutExpired(0, Phase::Propose));
    m.handle_event(Event::TimeoutExpired(0, Phase::Prevote));
    m.handle_event(Event::TimeoutExpired(0, Phase::Precommit));
    assert_eq!(m.round, 1);

    // a precommit quorum for round 0 arrives late: recorded, not acted on
    assert!(m.handle_event(Event::VoteReceived(vote(VoteStep::Precommit, 0, Some(7), 1))).is_empty());
    assert!(m.handle_event(Event::VoteReceived(vote(VoteStep::Precommit, 0, Some(7), 2))).is_empty());
    assert!(m.handle_event(Event::VoteReceived(vote(VoteStep::Precommit, 0, Some(7), 3))).is_empty());
    assert_eq!(m.phase, Phase::Propose);
    assert_eq!(m.round, 1);
}
