//! The perfect failure detector's bookkeeping.
//!
//! Two concurrent activities share the `confirmed_alive` set: a heartbeat
//! listener that inserts ids, and a probe loop that, once per timeout
//! period, withdraws each peer's liveness flag and demands it be deposited
//! again before the next cycle. A previously known peer whose flag was
//! absent — or one that a probe request cannot reach — is condemned: it
//! enters `assumed_dead` and `InformCrash` is broadcast to every peer.
//!
//! The state and its transitions live here, fully verified; the caller owns
//! the listener loop, the probe loop's timer, the lock around the state and
//! every send.

use vstd::prelude::*;

verus! {

use crate::peer_set::PeerSet;
use crate::PeerId;

/// The one-shot liveness proof a peer deposits each cycle.
#[derive(Clone, Copy, Debug, PartialEq)]
pub struct Heartbeat {
    pub peer_id: PeerId,
}

/// What the probe loop must do for one peer, as decided by
/// [`PerfectFailureDetector::begin_probe`].
#[derive(Clone, Copy, Debug, PartialEq)]
pub enum ProbeDecision {
    /// The peer is already assumed dead: leave it alone.
    Skip,
    /// The peer proved itself alive (or is newly observed): send it a
    /// `RequestHeartbeat` so it can prove itself again this cycle.
    Request,
    /// The peer was known and deposited no heartbeat during the last full
    /// cycle: it is now assumed dead; broadcast `InformCrash` to every peer.
    Condemn,
}

/// Detector state: the shared liveness semaphore set plus the probe loop's
/// history. Monitoring, timing and transport stay with the caller.
pub struct PerfectFailureDetector {
    pub confirmed_alive: PeerSet,
    pub known_peers: PeerSet,
    pub assumed_dead: PeerSet,
}

impl PerfectFailureDetector {
    pub fn new() -> (d: Self)
        ensures
            d.confirmed_alive@ == Set::<int>::empty(),
            d.known_peers@ == Set::<int>::empty(),
            d.assumed_dead@ == Set::<int>::empty(),
    {
        Self {
            confirmed_alive: PeerSet::new(),
            known_peers: PeerSet::new(),
            assumed_dead: PeerSet::new(),
        }
    }

    /// Sets a peer's liveness flag and reports on the prior state: inserting
    /// returns whether the flag was newly raised, withdrawing returns
    /// whether it was up.
    pub fn set_alive(&mut self, peer_id: PeerId, state: bool) -> (r: bool)
        ensures
            state ==> final(self).confirmed_alive@ == old(self).confirmed_alive@.insert(
                peer_id as int,
            ) && r == !old(self).confirmed_alive@.contains(peer_id as int),
            !state ==> final(self).confirmed_alive@ == old(self).confirmed_alive@.remove(
                peer_id as int,
            ) && r == old(self).confirmed_alive@.contains(peer_id as int),
            final(self).known_peers == old(self).known_peers,
            final(self).assumed_dead == old(self).assumed_dead,
    {
        if state {
            self.confirmed_alive.insert(peer_id)
        } else {
            self.confirmed_alive.remove(peer_id)
        }
    }

    /// The heartbeat listener's whole duty: a received `Heartbeat` raises
    /// the sender's liveness flag.
    pub fn record_heartbeat(&mut self, heartbeat: Heartbeat)
        ensures
            final(self).confirmed_alive@ == old(self).confirmed_alive@.insert(
                heartbeat.peer_id as int,
            ),
            final(self).known_peers == old(self).known_peers,
            final(self).assumed_dead == old(self).assumed_dead,
    {
        self.set_alive(heartbeat.peer_id, true);
    }

    /// One probe of one peer. Withdraws the peer's liveness flag and judges
    /// it: condemned exactly when it was already known and had not deposited
    /// a heartbeat during the last full cycle — never on first contact, and
    /// never while its flag was up (detector soundness). A `Request` the
    /// caller cannot deliver is reported through [`Self::condemn`].
    pub fn begin_probe(&mut self, peer_id: PeerId) -> (decision: ProbeDecision)
        ensures
            decision == (if old(self).assumed_dead@.contains(peer_id as int) {
                ProbeDecision::Skip
            } else if old(self).confirmed_alive@.contains(peer_id as int) || !old(
                self,
            ).known_peers@.contains(peer_id as int) {
                ProbeDecision::Request
            } else {
                ProbeDecision::Condemn
            }),
            decision is Skip ==> *final(self) == *old(self),
            decision is Request ==> final(self).confirmed_alive@ == old(
                self,
            ).confirmed_alive@.remove(peer_id as int) && final(self).known_peers@ == old(
                self,
            ).known_peers@.insert(peer_id as int) && final(self).assumed_dead == old(
                self,
            ).assumed_dead,
            decision is Condemn ==> final(self).confirmed_alive@ == old(
                self,
            ).confirmed_alive@.remove(peer_id as int) && final(self).known_peers == old(
                self,
            ).known_peers && final(self).assumed_dead@ == old(self).assumed_dead@.insert(
                peer_id as int,
            ),
    {
        if self.assumed_dead.contains(peer_id) {
            return ProbeDecision::Skip;
        }
        let was_alive = self.set_alive(peer_id, false);
        if was_alive || !self.known_peers.contains(peer_id) {
            self.known_peers.insert(peer_id);
            ProbeDecision::Request
        } else {
            self.assumed_dead.insert(peer_id);
            ProbeDecision::Condemn
        }
    }

    /// Transport failure while delivering a probe request is the crash
    /// signal too: the peer joins `assumed_dead` and the caller broadcasts
    /// `InformCrash`, exactly as for [`ProbeDecision::Condemn`].
    pub fn condemn(&mut self, peer_id: PeerId)
        ensures
            final(self).assumed_dead@ == old(self).assumed_dead@.insert(peer_id as int),
            final(self).confirmed_alive == old(self).confirmed_alive,
            final(self).known_peers == old(self).known_peers,
    {
        self.assumed_dead.insert(peer_id);
    }
}

} // verus!
