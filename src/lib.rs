//! An asynchronous Byzantine fault-tolerant atomic-broadcast core in the Dumbo
//! family: Bracha reliable broadcast, multi-round binary agreement with a
//! threshold-signature common coin, and the per-epoch composition of both.

pub mod node;
pub mod quorum_info;
pub mod reliable_broadcast;
pub mod coin;
pub mod aba_messages;
pub mod aba_round;
pub mod aba_pending;
pub mod aba;
pub mod node_states;
pub mod committee_election;
pub mod message;
pub mod epoch;
pub mod protocol;
pub mod laws;
