//! The per-peer hierarchical-consensus state machine.
//!
//! Peers are totally ordered by id; in round `r` the peer with id `r` leads.
//! A live leader with a proposal decides it and broadcasts `Decided`; every
//! recipient adopts the value of the lowest-id proposer seen so far and
//! advances. A crashed leader is skipped when the failure detector reports
//! it. The agent here is pure state: every handler returns the list of
//! [`Action`]s the caller must perform (send a heartbeat, run the decision
//! callback, broadcast), so the whole protocol logic is verified while the
//! transport stays outside.

use vstd::prelude::*;

verus! {

use crate::peer_set::PeerSet;
use crate::Message;
use crate::PeerId;

/// A round number. Round `r` names the peer with id `r` as its leader.
pub type Round = usize;

/// A value under agreement, tagged with the id of the peer that first
/// introduced it. Adoption preserves the tag: it is the ordering key the
/// algorithm turns on.
#[derive(Clone, Debug, PartialEq)]
pub struct Proposal<T> {
    pub value: T,
    pub proposer: PeerId,
}

/// The consensus payloads circulated between agents.
#[derive(Clone, Debug, PartialEq)]
pub enum ConsensusEvent<T> {
    /// Reset all agents and begin a new run.
    Start,
    /// The sender decided the carried proposal.
    Decided(Proposal<T>),
    /// The sender is the current leader but has nothing to propose.
    Undecided,
}

/// What a handler asks its caller to do, in order. The caller reads the
/// agent's `proposal` field for the payload of `Deliver` and
/// `BroadcastDecided`.
#[derive(Clone, Debug, PartialEq)]
pub enum Action<A> {
    /// Connect to `requester` and send a heartbeat carrying this agent's id.
    SendHeartbeat { requester: A },
    /// Invoke the decision callback with the decided value.
    Deliver,
    /// Broadcast `ConsensusEvent::Decided` with the current proposal to all
    /// peers.
    BroadcastDecided,
    /// Broadcast `ConsensusEvent::Undecided` to all peers.
    BroadcastUndecided,
}

/// The mathematical state of an agent: what the contracts and the protocol
/// laws speak about.
#[verifier::ext_equal]
pub struct AgentView<T> {
    pub id: int,
    pub current_round: int,
    pub crashed: Set<int>,
    pub proposal: Option<Proposal<T>>,
    pub has_decided: bool,
}

/// `r1` is the first round after `r0` whose leader is not known crashed.
pub open spec fn round_skip(crashed: Set<int>, r0: int, r1: int) -> bool {
    &&& r0 < r1
    &&& !crashed.contains(r1)
    &&& forall|r: int| r0 < r < r1 ==> crashed.contains(r)
}

impl<T> AgentView<T> {
    /// Machine limit: the round counter cannot outrun `usize` while skipping
    /// crashed peers.
    pub open spec fn headroom(self) -> bool {
        self.current_round + self.crashed.len() + 1 < usize::MAX
    }

    pub open spec fn with_round(self, r: int) -> AgentView<T> {
        AgentView { current_round: r, ..self }
    }

    pub open spec fn with_proposal(self, p: Option<Proposal<T>>) -> AgentView<T> {
        AgentView { proposal: p, ..self }
    }

    pub open spec fn insert_crashed(self, pid: int) -> AgentView<T> {
        AgentView { crashed: self.crashed.insert(pid), ..self }
    }

    /// The state an agent returns to on `Start`, given the fresh value its
    /// proposal factory produced.
    pub open spec fn reset_with(self, fresh: Option<T>) -> AgentView<T> {
        AgentView {
            id: self.id,
            current_round: 0,
            crashed: Set::empty(),
            proposal: spec_proposal_of(self.id, fresh),
            has_decided: false,
        }
    }

    /// State after one leader attempt (`try_decide`): an undecided agent
    /// with a proposal decides it; anything else is unchanged.
    pub open spec fn decide_state(self) -> AgentView<T> {
        if !self.has_decided && self.proposal is Some {
            AgentView { has_decided: true, ..self }
        } else {
            self
        }
    }

    /// Actions of one leader attempt: a deciding agent delivers, and also
    /// broadcasts unless it is merely catching up (`current_round > id`); an
    /// agent without a proposal announces `Undecided`.
    pub open spec fn decide_acts<A>(self) -> Seq<Action<A>> {
        if self.has_decided {
            Seq::empty()
        } else if self.proposal is Some {
            if self.current_round > self.id {
                seq![Action::Deliver]
            } else {
                seq![Action::Deliver, Action::BroadcastDecided]
            }
        } else {
            seq![Action::BroadcastUndecided]
        }
    }

    /// Actions of a chain of `done` leader attempts made back-to-back from
    /// this state: only the first can decide; an agent with no proposal
    /// announces `Undecided` each time.
    pub open spec fn chain_acts<A>(self, done: nat) -> Seq<Action<A>> {
        if done == 0 {
            Seq::empty()
        } else if !self.has_decided && self.proposal is None {
            Seq::new(done, |i| Action::BroadcastUndecided)
        } else {
            self.decide_acts()
        }
    }

    /// State after `advance_round` has settled on round `r`.
    pub open spec fn advance_result(self, r: int) -> AgentView<T> {
        if r >= self.id {
            self.with_round(r).decide_state()
        } else {
            self.with_round(r)
        }
    }

    /// Actions emitted by `advance_round` when it settles on round `r`: one
    /// leader attempt per round passed, exactly as the recursive descent of
    /// the protocol performs them.
    pub open spec fn advance_acts<A>(self, r: int) -> Seq<Action<A>> {
        if r >= self.id {
            self.with_round(r).chain_acts((r - self.current_round) as nat)
        } else {
            Seq::empty()
        }
    }
}

/// A fresh value wrapped as this agent's own proposal.
pub open spec fn spec_proposal_of<T>(id: int, value: Option<T>) -> Option<Proposal<T>> {
    match value {
        Some(v) => Some(Proposal { value: v, proposer: id as usize }),
        None => None,
    }
}

/// `advance_round` related as a transition: the rounds of every crashed
/// leader between the old and the new round are skipped, and the new round's
/// leader attempt (if due) is applied.
pub open spec fn advance_rel<T, A>(pre: AgentView<T>, post: AgentView<T>, acts: Seq<Action<A>>) -> bool {
    &&& round_skip(pre.crashed, pre.current_round, post.current_round)
    &&& post == pre.advance_result(post.current_round)
    &&& acts == pre.advance_acts::<A>(post.current_round)
}

/// The messages whose handling can advance the round (and so consume round
/// numbers): only they are subject to the round counter's machine limit.
pub open spec fn may_advance<T, A>(msg: Message<T, A>) -> bool {
    match msg {
        Message::RequestHeartbeat { .. } => false,
        Message::InformCrash(_) => true,
        Message::ConsensusEvent(ConsensusEvent::Start) => false,
        Message::ConsensusEvent(ConsensusEvent::Decided(_)) => true,
        Message::ConsensusEvent(ConsensusEvent::Undecided) => true,
    }
}

/// The complete transition relation of `handle`: everything the agent does
/// with one incoming message. `fresh` is the proposal factory's output,
/// consulted only on `Start`.
pub open spec fn agent_step<T, A>(
    pre: AgentView<T>,
    msg: Message<T, A>,
    fresh: Option<T>,
    post: AgentView<T>,
    acts: Seq<Action<A>>,
) -> bool {
    match msg {
        Message::RequestHeartbeat { requester } => {
            &&& post == pre
            &&& acts == seq![Action::<A>::SendHeartbeat { requester }]
        },
        Message::InformCrash(pid) => {
            let mid = pre.insert_crashed(pid as int);
            if pid as int == pre.current_round && !pre.has_decided {
                advance_rel(mid, post, acts)
            } else {
                post == mid && acts == Seq::<Action<A>>::empty()
            }
        },
        Message::ConsensusEvent(ConsensusEvent::Start) => {
            &&& post == pre.reset_with(fresh)
            &&& acts == Seq::<Action<A>>::empty()
        },
        Message::ConsensusEvent(ConsensusEvent::Decided(p)) => {
            if pre.has_decided {
                post == pre && acts == Seq::<Action<A>>::empty()
            } else if pre.proposal is Some && pre.proposal->0.proposer <= p.proposer {
                advance_rel(pre, post, acts)
            } else {
                advance_rel(pre.with_proposal(Some(p)), post, acts)
            }
        },
        Message::ConsensusEvent(ConsensusEvent::Undecided) => {
            if pre.current_round != pre.id {
                advance_rel(pre, post, acts)
            } else {
                post == pre && acts == Seq::<Action<A>>::empty()
            }
        },
    }
}

/// Per-peer consensus agent. Registration, transport and the decision
/// callback live with the caller; the agent holds exactly the protocol
/// state.
pub struct ConsensusAgent<T> {
    pub id: PeerId,
    pub crashed_peers: PeerSet,
    pub current_round: Round,
    pub proposal: Option<Proposal<T>>,
    pub has_decided: bool,
}

impl<T> View for ConsensusAgent<T> {
    type V = AgentView<T>;

    open spec fn view(&self) -> AgentView<T> {
        AgentView {
            id: self.id as int,
            current_round: self.current_round as int,
            crashed: self.crashed_peers@,
            proposal: self.proposal,
            has_decided: self.has_decided,
        }
    }
}

impl<T> ConsensusAgent<T> {
    /// A freshly registered agent: round zero, nothing crashed, no proposal,
    /// undecided.
    pub fn new(id: PeerId) -> (agent: Self)
        ensures
            agent@ == (AgentView::<T> {
                id: id as int,
                current_round: 0,
                crashed: Set::empty(),
                proposal: None,
                has_decided: false,
            }),
    {
        let agent = Self {
            id,
            crashed_peers: PeerSet::new(),
            current_round: 0,
            proposal: None,
            has_decided: false,
        };
        proof {
            assert(agent@ =~= (AgentView::<T> {
                id: id as int,
                current_round: 0,
                crashed: Set::empty(),
                proposal: None,
                has_decided: false,
            }));
        }
        agent
    }

    /// Takes the proposal factory's output as this agent's own proposal,
    /// tagged with its own id.
    pub fn refresh_proposal(&mut self, value: Option<T>)
        ensures
            final(self)@ == old(self)@.with_proposal(
                spec_proposal_of(old(self)@.id, value),
            ),
    {
        self.proposal = match value {
            Some(v) => Some(Proposal { value: v, proposer: self.id }),
            None => None,
        };
    }

    /// `ConsensusEvent::Start`: return to the initial state and arm a new
    /// run with the factory's fresh value.
    pub fn reset(&mut self, fresh: Option<T>)
        ensures
            final(self)@ == old(self)@.reset_with(fresh),
    {
        self.crashed_peers.clear();
        self.current_round = 0;
        self.refresh_proposal(fresh);
        self.has_decided = false;
        proof {
            assert(self@ =~= old(self)@.reset_with(fresh));
        }
    }

    /// One leader attempt. An undecided agent with a proposal decides it
    /// (delivering exactly once) and broadcasts unless it is catching up
    /// past its own slot; one without a proposal announces `Undecided`.
    pub fn try_decide<A>(&mut self, actions: &mut Vec<Action<A>>)
        ensures
            final(self)@ == old(self)@.decide_state(),
            final(actions)@ == old(actions)@ + old(self)@.decide_acts::<A>(),
    {
        if self.has_decided {
            proof {
                assert(actions@ =~= old(actions)@ + old(self)@.decide_acts::<A>());
            }
            return ;
        }
        match &self.proposal {
            Some(_) => {
                self.has_decided = true;
                actions.push(Action::Deliver);
                if self.current_round > self.id {
                    proof {
                        assert(self@ =~= old(self)@.decide_state());
                        assert(actions@ =~= old(actions)@ + old(self)@.decide_acts::<A>());
                    }
                    return ;
                }
                actions.push(Action::BroadcastDecided);
                proof {
                    assert(self@ =~= old(self)@.decide_state());
                    assert(actions@ =~= old(actions)@ + old(self)@.decide_acts::<A>());
                }
            },
            None => {
                actions.push(Action::BroadcastUndecided);
                proof {
                    assert(self@ =~= old(self)@.decide_state());
                    assert(actions@ =~= old(actions)@ + old(self)@.decide_acts::<A>());
                }
            },
        }
    }

    /// Advances past the current round and past every consecutively crashed
    /// leader after it, then performs one leader attempt per round passed if
    /// this agent's own slot has been reached.
    pub fn advance_round<A>(&mut self, actions: &mut Vec<Action<A>>)
        requires
            old(self)@.current_round + old(self)@.crashed.len() < usize::MAX,
        ensures
            round_skip(old(self)@.crashed, old(self)@.current_round, final(self)@.current_round),
            final(self)@ == old(self)@.advance_result(final(self)@.current_round),
            final(actions)@ == old(actions)@ + old(self)@.advance_acts::<A>(
                final(self)@.current_round,
            ),
    {
        proof {
            self.crashed_peers.lemma_finite();
        }
        let start = self.current_round;
        self.current_round = self.current_round + 1;
        while self.crashed_peers.contains(self.current_round)
            invariant
                self.id == old(self).id,
                self.crashed_peers@ == old(self)@.crashed,
                self.proposal == old(self).proposal,
                self.has_decided == old(self).has_decided,
                old(self)@.crashed.finite(),
                start as int + old(self)@.crashed.len() < usize::MAX,
                start < self.current_round,
                forall|r: int|
                    start < r < self.current_round as int ==> old(self)@.crashed.contains(r),
            decreases old(self)@.crashed.len() + start + 1 - self.current_round,
        {
            proof {
                let cur = self.current_round as int;
                let range = vstd::set_lib::set_int_range(start as int + 1, cur + 1);
                vstd::set_lib::lemma_int_range(start as int + 1, cur + 1);
                assert(range.subset_of(old(self)@.crashed));
                vstd::set_lib::lemma_len_subset(range, old(self)@.crashed);
                assert(cur - start <= old(self)@.crashed.len());
            }
            self.current_round = self.current_round + 1;
        }
        let ghost mid = old(self)@.with_round(self.current_round as int);
        proof {
            assert(self@ =~= mid);
        }
        if self.current_round >= self.id {
            let levels = self.current_round - start;
            let mut done: usize = 0;
            while done < levels
                invariant
                    0 < levels,
                    done <= levels,
                    self.id == old(self).id,
                    self.current_round == mid.current_round,
                    self.crashed_peers@ == old(self)@.crashed,
                    mid == old(self)@.with_round(self.current_round as int),
                    mid.current_round >= mid.id,
                    done == 0 ==> self@ == mid && actions@ == old(actions)@,
                    done >= 1 ==> self@ == mid.decide_state() && actions@ == old(actions)@
                        + mid.chain_acts::<A>(done as nat),
                decreases levels - done,
            {
                let ghost state_before = self@;
                let ghost acts_before = actions@;
                self.try_decide(actions);
                proof {
                    if done == 0 {
                        assert(self@ == mid.decide_state());
                        assert(mid.chain_acts::<A>(1) =~= mid.decide_acts::<A>());
                        assert(actions@ =~= old(actions)@ + mid.chain_acts::<A>(1));
                    } else {
                        assert(state_before == mid.decide_state());
                        assert(mid.decide_state().decide_state() =~= mid.decide_state());
                        assert(self@ == mid.decide_state());
                        if !mid.has_decided && mid.proposal is None {
                            assert(mid.decide_state() =~= mid);
                            assert(mid.decide_acts::<A>() =~= seq![
                                Action::<A>::BroadcastUndecided,
                            ]);
                            assert(mid.chain_acts::<A>((done + 1) as nat) =~= mid.chain_acts::<A>(
                                done as nat,
                            ).push(Action::BroadcastUndecided));
                            assert(actions@ =~= old(actions)@ + mid.chain_acts::<A>(
                                (done + 1) as nat,
                            ));
                        } else {
                            assert(mid.decide_state().decide_acts::<A>() =~= Seq::<
                                Action<A>,
                            >::empty());
                            assert(actions@ =~= old(actions)@ + mid.chain_acts::<A>(
                                (done + 1) as nat,
                            ));
                        }
                    }
                }
                done += 1;
            }
        }
        proof {
            let r = self.current_round as int;
            assert(round_skip(old(self)@.crashed, start as int, r));
            if r >= old(self)@.id {
                assert(self@ == old(self)@.advance_result(r));
                assert(actions@ =~= old(actions)@ + old(self)@.advance_acts::<A>(r));
            } else {
                assert(self@ == old(self)@.advance_result(r));
                assert(actions@ =~= old(actions)@ + old(self)@.advance_acts::<A>(r));
            }
        }
    }

    /// A runtime check for [`AgentView::headroom`], for callers outside the
    /// proof: it answers `true` exactly when `handle` may be called.
    pub fn has_headroom(&self) -> (r: bool)
        ensures
            r == self@.headroom(),
    {
        let l = self.crashed_peers.len();
        if l >= usize::MAX - 1 {
            false
        } else {
            self.current_round < usize::MAX - 1 - l
        }
    }

    /// Processes one incoming message, fully, before the next is dequeued.
    /// `fresh` is the proposal factory's output; it is consulted only when
    /// the message is `ConsensusEvent::Start`. The returned actions are the
    /// sends and callback invocations the caller owes, in order.
    pub fn handle<A>(&mut self, msg: Message<T, A>, fresh: Option<T>) -> (acts: Vec<Action<A>>)
        requires
            may_advance(msg) ==> old(self)@.headroom(),
        ensures
            agent_step(old(self)@, msg, fresh, final(self)@, acts@),
    {
        let mut acts: Vec<Action<A>> = Vec::new();
        match msg {
            Message::RequestHeartbeat { requester } => {
                acts.push(Action::SendHeartbeat { requester });
                proof {
                    assert(acts@ =~= seq![Action::<A>::SendHeartbeat { requester }]);
                }
            },
            Message::InformCrash(pid) => {
                proof {
                    self.crashed_peers.lemma_finite();
                }
                let advance_due = pid == self.current_round && !self.has_decided;
                let ghost pre = self@;
                self.crashed_peers.insert(pid);
                proof {
                    assert(self@ =~= pre.insert_crashed(pid as int));
                }
                if advance_due {
                    self.advance_round(&mut acts);
                    proof {
                        assert(acts@ =~= Seq::<Action<A>>::empty() + pre.insert_crashed(
                            pid as int,
                        ).advance_acts::<A>(self@.current_round));
                    }
                }
            },
            Message::ConsensusEvent(ConsensusEvent::Start) => {
                self.reset(fresh);
            },
            Message::ConsensusEvent(ConsensusEvent::Decided(p)) => {
                if !self.has_decided {
                    let adopt = match &self.proposal {
                        Some(current) => current.proposer > p.proposer,
                        None => true,
                    };
                    let ghost pre = self@;
                    if adopt {
                        self.proposal = Some(p);
                        proof {
                            assert(self@ =~= pre.with_proposal(Some(p)));
                        }
                    }
                    let ghost mid = self@;
                    self.advance_round(&mut acts);
                    proof {
                        assert(acts@ =~= Seq::<Action<A>>::empty() + mid.advance_acts::<A>(
                            self@.current_round,
                        ));
                    }
                }
            },
            Message::ConsensusEvent(ConsensusEvent::Undecided) => {
                if self.current_round != self.id {
                    let ghost pre = self@;
                    self.advance_round(&mut acts);
                    proof {
                        assert(acts@ =~= Seq::<Action<A>>::empty() + pre.advance_acts::<A>(
                            self@.current_round,
                        ));
                    }
                }
            },
        }
        acts
    }

    /// The startup step of `run`: the initial leader makes its first
    /// attempt once the startup delay (the caller's concern) has passed.
    pub fn startup<A>(&mut self) -> (acts: Vec<Action<A>>)
        ensures
            old(self)@.current_round == old(self)@.id ==> {
                &&& final(self)@ == old(self)@.decide_state()
                &&& acts@ == old(self)@.decide_acts::<A>()
            },
            old(self)@.current_round != old(self)@.id ==> {
                &&& final(self)@ == old(self)@
                &&& acts@ == Seq::<Action<A>>::empty()
            },
    {
        let mut acts: Vec<Action<A>> = Vec::new();
        if self.id == self.current_round {
            self.try_decide(&mut acts);
            proof {
                assert(acts@ =~= Seq::<Action<A>>::empty() + old(self)@.decide_acts::<A>());
                assert(acts@ =~= old(self)@.decide_acts::<A>());
            }
        }
        acts
    }
}

} // verus!
