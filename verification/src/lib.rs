//! Hierarchical consensus over crash-stop processes with a perfect failure
//! detector.
//!
//! The crate holds the coordination logic: the per-peer consensus state
//! machine, the failure-detector bookkeeping, and the peer directory. All
//! transport (framing, sockets, timers) lives outside; the library consumes
//! plain values and returns the actions the caller must perform.

use vstd::prelude::*;

pub mod cohort_laws;
pub mod hierarchical_consensus;
pub mod peer_set;
pub mod perfect_failure_detector;
pub mod protocol_laws;
pub mod registry;

verus! {

use crate::hierarchical_consensus::ConsensusEvent;

/// Identifier assigned to a peer by the directory, in strictly increasing
/// order of registration. The peer with the lowest live id is the current
/// leader.
pub type PeerId = usize;

/// A participating process: its directory-assigned id and its address. The
/// address type is opaque to the protocol logic, which only passes it along.
#[derive(Clone, Copy, Debug, PartialEq)]
pub struct Peer<A> {
    pub id: PeerId,
    pub addr: A,
}

impl<A> Peer<A> {
    pub fn new(id: PeerId, addr: A) -> (p: Self)
        ensures
            p.id == id,
            p.addr == addr,
    {
        Self { id, addr }
    }
}

/// Everything one peer sends another: heartbeat probes from the failure
/// detector, crash notifications, and the consensus events themselves.
#[derive(Clone, Debug, PartialEq)]
pub enum Message<T, A> {
    RequestHeartbeat { requester: A },
    InformCrash(PeerId),
    ConsensusEvent(ConsensusEvent<T>),
}

/// The addresses a broadcast failed to reach. Transport failures are
/// tolerated: the failure detector, not the sender, is the authority on
/// crashes.
#[derive(Clone, Debug, PartialEq)]
pub struct BroadcastError<A> {
    pub failures: Vec<A>,
}

/// Judges a finished broadcast from the addresses that could not be reached:
/// a broadcast succeeded exactly when every send did.
pub fn broadcast_outcome<A>(failures: Vec<A>) -> (r: Result<(), BroadcastError<A>>)
    ensures
        failures@.len() == 0 <==> r is Ok,
        r is Err ==> r->Err_0.failures@ == failures@,
{
    if failures.is_empty() {
        Ok(())
    } else {
        Err(BroadcastError { failures })
    }
}

} // verus!
