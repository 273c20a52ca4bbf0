//! Replication core of a peer-to-peer collaboration network.
//!
//! Peers discover, fetch, verify and re-serve cryptographically signed
//! identities and their histories, without a central server.  This crate
//! holds the verified logic of that core: the URN and reference algebra,
//! the tracking registry, the fetchspec planner, the identity verifier,
//! the replication engine and the gossip-facing peer storage facade.
//! I/O, transport and the on-disk object store live outside; the logic
//! here works on an explicit model of the store and is proved against it.

pub mod bytes;
pub mod engine;
pub mod fetch;
pub mod gossip;
pub mod identity;
pub mod ids;
pub mod limiter;
pub mod peer;
pub mod signer;
pub mod path;
pub mod seqtools;
pub mod sigrefs;
pub mod store;
pub mod tracking;
pub mod urn;

use vstd::prelude::*;

verus! {

} // verus!
