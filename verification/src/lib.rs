//! A Byzantine-fault-tolerant consensus core in the Tendermint style.
//!
//! The library drives one height of a leader-based, round-structured
//! agreement protocol: a proposer streams a block proposal, validators
//! exchange weighted prevotes and precommits, and a decision is reached
//! once the precommits for one block exceed two thirds of the total
//! voting power.  Everything here works on plain values (heights, rounds,
//! validator identifiers, block identifiers); networking, block building
//! and signature checking live outside, behind the events and actions of
//! the state machine.

pub mod accumulator;
pub mod context;
pub mod coordinator;
pub mod machine;
pub mod proposer;
pub mod types;
