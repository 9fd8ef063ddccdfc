//! The peer directory: assigns identifiers in strictly increasing order of
//! registration and answers snapshot queries with the peer list in
//! registration order.
//!
//! The authoritative list is held in memory here; persisting it to a file
//! and serving it over the wire are the caller's concern, as is the client
//! side of the protocol.

use vstd::prelude::*;

verus! {

use crate::Peer;
use crate::PeerId;

/// What a client asks the directory.
#[derive(Clone, Copy, Debug, PartialEq)]
pub enum Request<A> {
    Register(A),
    GetPeers,
}

/// The directory's answer: the id assigned by `Register`, or the snapshot
/// for `GetPeers`.
#[derive(Clone, Debug, PartialEq)]
pub enum Response<A> {
    Registered(PeerId),
    Peers(Vec<Peer<A>>),
}

/// The directory service's state: the peer list, in registration order.
pub struct Server<A> {
    pub peers: Vec<Peer<A>>,
}

impl<A: Copy> Server<A> {
    /// Identifiers are assigned in strictly increasing order, so they are
    /// unique; the list is kept in registration order.
    pub open spec fn wf(self) -> bool {
        forall|i: int, j: int|
            0 <= i < j < self.peers@.len() ==> self.peers@[i].id < self.peers@[j].id
    }

    /// The id `register` will assign next: one past the last, starting at
    /// zero.
    pub open spec fn next_id(self) -> int {
        if self.peers@.len() == 0 {
            0
        } else {
            self.peers@.last().id + 1
        }
    }

    /// A directory with no peers registered yet.
    pub fn new() -> (s: Self)
        ensures
            s.peers@ == Seq::<Peer<A>>::empty(),
            s.wf(),
    {
        let s = Self { peers: Vec::new() };
        proof {
            assert(s.peers@ =~= Seq::<Peer<A>>::empty());
        }
        s
    }

    /// Registers a new peer: appends `(new_id, addr)` where `new_id` is one
    /// past the last assigned id (or zero for the first), and returns
    /// `new_id`. The new id differs from every id already assigned.
    pub fn register(&mut self, peer_addr: A) -> (id: PeerId)
        requires
            old(self).wf(),
            old(self).next_id() <= usize::MAX,
        ensures
            id == old(self).next_id(),
            final(self).peers@ == old(self).peers@.push(Peer { id, addr: peer_addr }),
            final(self).wf(),
            forall|i: int| 0 <= i < old(self).peers@.len() ==> old(self).peers@[i].id < id,
    {
        let n = self.peers.len();
        let id: PeerId = if n == 0 {
            0
        } else {
            self.peers[n - 1].id + 1
        };
        self.peers.push(Peer { id, addr: peer_addr });
        proof {
            assert forall|i: int| 0 <= i < old(self).peers@.len() implies old(self).peers@[i].id
                < id by {
                if i < old(self).peers@.len() - 1 {
                    assert(old(self).peers@[i].id < old(self).peers@.last().id);
                }
            }
        }
        id
    }

    /// The current snapshot, in registration order.
    pub fn get_peers(&self) -> (snapshot: Vec<Peer<A>>)
        ensures
            snapshot@ == self.peers@,
    {
        let mut snapshot: Vec<Peer<A>> = Vec::new();
        let n = self.peers.len();
        let mut k: usize = 0;
        while k < n
            invariant
                n == self.peers@.len(),
                k <= n,
                snapshot@ == self.peers@.subrange(0, k as int),
            decreases n - k,
        {
            snapshot.push(self.peers[k]);
            proof {
                assert(snapshot@ =~= self.peers@.subrange(0, k as int + 1));
            }
            k += 1;
        }
        proof {
            assert(self.peers@.subrange(0, n as int) =~= self.peers@);
        }
        snapshot
    }

    /// One request served: `Register` appends and answers the new id,
    /// `GetPeers` answers the snapshot. (Reading and rewriting the backing
    /// file around this call is the caller's concern.)
    pub fn handle_request(&mut self, request: Request<A>) -> (response: Response<A>)
        requires
            old(self).wf(),
            request is Register ==> old(self).next_id() <= usize::MAX,
        ensures
            final(self).wf(),
            match request {
                Request::Register(addr) => {
                    &&& response == Response::<A>::Registered(old(self).next_id() as usize)
                    &&& final(self).peers@ == old(self).peers@.push(
                        Peer { id: old(self).next_id() as usize, addr },
                    )
                },
                Request::GetPeers => {
                    &&& response is Peers
                    &&& response->Peers_0@ == old(self).peers@
                    &&& *final(self) == *old(self)
                },
            },
    {
        match request {
            Request::Register(addr) => {
                let id = self.register(addr);
                Response::Registered(id)
            },
            Request::GetPeers => {
                let snapshot = self.get_peers();
                Response::Peers(snapshot)
            },
        }
    }
}

} // verus!
