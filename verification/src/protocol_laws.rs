//! The agreement-protocol laws, stated over [`agent_step`], the transition
//! relation that `ConsensusAgent::handle` ensures. A run is any sequence of
//! handled messages; the lemmas here hold for every such sequence, not just
//! the ones a test happens to drive.

use vstd::prelude::*;

verus! {

use crate::hierarchical_consensus::advance_rel;
use crate::hierarchical_consensus::agent_step;
use crate::hierarchical_consensus::Action;
use crate::hierarchical_consensus::AgentView;
use crate::hierarchical_consensus::ConsensusEvent;
use crate::Message;

/// `Start` opens a new run; every law below is scoped to a single run.
pub open spec fn is_start<T, A>(msg: Message<T, A>) -> bool {
    msg matches Message::ConsensusEvent(ConsensusEvent::Start)
}

/// A run of an agent: `states[0]` is where it began, and each handled
/// message relates one state to the next, emitting its actions.
pub open spec fn agent_run<T, A>(
    states: Seq<AgentView<T>>,
    msgs: Seq<Message<T, A>>,
    freshes: Seq<Option<T>>,
    acts: Seq<Seq<Action<A>>>,
) -> bool {
    &&& states.len() == msgs.len() + 1
    &&& freshes.len() == msgs.len()
    &&& acts.len() == msgs.len()
    &&& forall|i: int|
        0 <= i < msgs.len() ==> agent_step(states[i], msgs[i], freshes[i], states[i + 1], acts[i])
}

/// How many times a batch of actions invokes the decision callback.
pub open spec fn deliver_count<A>(acts: Seq<Action<A>>) -> int
    decreases acts.len(),
{
    if acts.len() == 0 {
        0
    } else {
        deliver_count(acts.drop_last()) + if acts.last() is Deliver {
            1int
        } else {
            0int
        }
    }
}

/// Delivery total of a whole run.
pub open spec fn deliver_total<A>(acts: Seq<Seq<Action<A>>>) -> int
    decreases acts.len(),
{
    if acts.len() == 0 {
        0
    } else {
        deliver_total(acts.drop_last()) + deliver_count(acts.last())
    }
}

proof fn lemma_deliver_count_undecided_repeat<A>(n: nat)
    ensures
        deliver_count(Seq::<Action<A>>::new(n, |i| Action::BroadcastUndecided)) == 0,
    decreases n,
{
    let s = Seq::<Action<A>>::new(n, |i| Action::BroadcastUndecided);
    if n > 0 {
        assert(s.drop_last() =~= Seq::<Action<A>>::new((n - 1) as nat, |i| Action::BroadcastUndecided));
        lemma_deliver_count_undecided_repeat::<A>((n - 1) as nat);
    }
}

/// The callback fires in a batch of actions exactly when the step flipped
/// `has_decided` from false to true.
pub proof fn lemma_step_deliver_flip<T, A>(
    pre: AgentView<T>,
    msg: Message<T, A>,
    fresh: Option<T>,
    post: AgentView<T>,
    acts: Seq<Action<A>>,
)
    requires
        agent_step(pre, msg, fresh, post, acts),
        !is_start(msg),
    ensures
        deliver_count(acts) == (if post.has_decided && !pre.has_decided {
            1int
        } else {
            0int
        }),
{
    assert(deliver_count(Seq::<Action<A>>::empty()) == 0);
    match msg {
        Message::RequestHeartbeat { .. } => {
            assert(acts.drop_last() =~= Seq::<Action<A>>::empty());
        },
        Message::InformCrash(pid) => {
            if pid as int == pre.current_round && !pre.has_decided {
                lemma_advance_deliver_flip(pre.insert_crashed(pid as int), post, acts);
            }
        },
        Message::ConsensusEvent(ConsensusEvent::Start) => {},
        Message::ConsensusEvent(ConsensusEvent::Decided(p)) => {
            if pre.has_decided {
            } else if pre.proposal is Some && pre.proposal->0.proposer <= p.proposer {
                lemma_advance_deliver_flip(pre, post, acts);
            } else {
                lemma_advance_deliver_flip(pre.with_proposal(Some(p)), post, acts);
            }
        },
        Message::ConsensusEvent(ConsensusEvent::Undecided) => {
            if pre.current_round != pre.id {
                lemma_advance_deliver_flip(pre, post, acts);
            }
        },
    }
}

proof fn lemma_advance_deliver_flip<T, A>(pre: AgentView<T>, post: AgentView<T>, acts: Seq<Action<A>>)
    requires
        advance_rel(pre, post, acts),
    ensures
        post.has_decided == (pre.has_decided || (pre.proposal is Some && post.current_round
            >= pre.id)),
        post.proposal == pre.proposal,
        deliver_count(acts) == (if post.has_decided && !pre.has_decided {
            1int
        } else {
            0int
        }),
{
    let r = post.current_round;
    assert(deliver_count(Seq::<Action<A>>::empty()) == 0);
    if r >= pre.id {
        let mid = pre.with_round(r);
        if !pre.has_decided && pre.proposal is None {
            lemma_deliver_count_undecided_repeat::<A>((r - pre.current_round) as nat);
        } else if !pre.has_decided {
            let one = seq![Action::<A>::Deliver];
            assert(one.drop_last() =~= Seq::<Action<A>>::empty());
            assert(deliver_count(one) == 1);
            if mid.current_round > mid.id {
                assert(acts == one);
            } else {
                assert(acts == seq![Action::<A>::Deliver, Action::<A>::BroadcastDecided]);
                assert(acts.drop_last() =~= one);
            }
        }
    }
}

/// *Integrity.* Across any run that is not reset by `Start` and begins
/// undecided, the decision callback is invoked at most once; exactly once
/// when the run ends decided.
pub proof fn lemma_integrity<T, A>(
    states: Seq<AgentView<T>>,
    msgs: Seq<Message<T, A>>,
    freshes: Seq<Option<T>>,
    acts: Seq<Seq<Action<A>>>,
)
    requires
        agent_run(states, msgs, freshes, acts),
        forall|i: int| 0 <= i < msgs.len() ==> !is_start(msgs[i]),
        !states[0].has_decided,
    ensures
        deliver_total(acts) == (if states.last().has_decided {
            1int
        } else {
            0int
        }),
        deliver_total(acts) <= 1,
    decreases msgs.len(),
{
    if msgs.len() == 0 {
    } else {
        let n = msgs.len() as int;
        let head_states = states.drop_last();
        let head_msgs = msgs.drop_last();
        let head_freshes = freshes.drop_last();
        let head_acts = acts.drop_last();
        assert forall|i: int| 0 <= i < head_msgs.len() implies agent_step(
            head_states[i],
            head_msgs[i],
            head_freshes[i],
            head_states[i + 1],
            head_acts[i],
        ) by {
            assert(agent_step(states[i], msgs[i], freshes[i], states[i + 1], acts[i]));
        }
        lemma_integrity(head_states, head_msgs, head_freshes, head_acts);
        assert(agent_step(states[n - 1], msgs[n - 1], freshes[n - 1], states[n], acts[n - 1]));
        lemma_step_deliver_flip(states[n - 1], msgs[n - 1], freshes[n - 1], states[n], acts[n - 1]);
        lemma_decision_monotone_run(states, msgs, freshes, acts);
        assert(head_states.last() == states[n - 1]);
        if states[n - 1].has_decided {
            assert(states[n].has_decided) by {
                lemma_step_decision_stable(
                    states[n - 1],
                    msgs[n - 1],
                    freshes[n - 1],
                    states[n],
                    acts[n - 1],
                );
            }
        }
    }
}

/// Once an agent has decided, no later message of the same run changes its
/// decision flag or its adopted proposal: the decided value is stable.
pub proof fn lemma_step_decision_stable<T, A>(
    pre: AgentView<T>,
    msg: Message<T, A>,
    fresh: Option<T>,
    post: AgentView<T>,
    acts: Seq<Action<A>>,
)
    requires
        agent_step(pre, msg, fresh, post, acts),
        !is_start(msg),
        pre.has_decided,
    ensures
        post.has_decided,
        post.proposal == pre.proposal,
{
}

/// *Agreement*, locally: from the moment an agent decides, no later message
/// of the same run changes its decision flag or its adopted proposal — the
/// value it decided is the value it keeps reporting.
pub proof fn lemma_decided_value_stable<T, A>(
    states: Seq<AgentView<T>>,
    msgs: Seq<Message<T, A>>,
    freshes: Seq<Option<T>>,
    acts: Seq<Seq<Action<A>>>,
    i: int,
    j: int,
)
    requires
        agent_run(states, msgs, freshes, acts),
        forall|k: int| 0 <= k < msgs.len() ==> !is_start(msgs[k]),
        0 <= i <= j < states.len(),
        states[i].has_decided,
    ensures
        states[j].has_decided,
        states[j].proposal == states[i].proposal,
    decreases j - i,
{
    if i < j {
        lemma_decided_value_stable(states, msgs, freshes, acts, i, j - 1);
        lemma_step_decision_stable(states[j - 1], msgs[j - 1], freshes[j - 1], states[j], acts[j
            - 1]);
    }
}

proof fn lemma_decision_monotone_run<T, A>(
    states: Seq<AgentView<T>>,
    msgs: Seq<Message<T, A>>,
    freshes: Seq<Option<T>>,
    acts: Seq<Seq<Action<A>>>,
)
    requires
        agent_run(states, msgs, freshes, acts),
        forall|i: int| 0 <= i < msgs.len() ==> !is_start(msgs[i]),
    ensures
        forall|i: int|
            0 <= i < states.len() && states[0].has_decided ==> #[trigger] states[i].has_decided,
{
    assert forall|i: int|
        0 <= i < states.len() && states[0].has_decided implies #[trigger] states[i].has_decided by {
        lemma_decision_monotone_to(states, msgs, freshes, acts, i);
    }
}

proof fn lemma_decision_monotone_to<T, A>(
    states: Seq<AgentView<T>>,
    msgs: Seq<Message<T, A>>,
    freshes: Seq<Option<T>>,
    acts: Seq<Seq<Action<A>>>,
    i: int,
)
    requires
        agent_run(states, msgs, freshes, acts),
        forall|j: int| 0 <= j < msgs.len() ==> !is_start(msgs[j]),
        0 <= i < states.len(),
        states[0].has_decided,
    ensures
        states[i].has_decided,
    decreases i,
{
    if i > 0 {
        lemma_decision_monotone_to(states, msgs, freshes, acts, i - 1);
        lemma_step_decision_stable(states[i - 1], msgs[i - 1], freshes[i - 1], states[i], acts[i
            - 1]);
    }
}

/// *Round monotonicity* and monotone growth of the crash set, for one step.
pub proof fn lemma_step_round_monotonic<T, A>(
    pre: AgentView<T>,
    msg: Message<T, A>,
    fresh: Option<T>,
    post: AgentView<T>,
    acts: Seq<Action<A>>,
)
    requires
        agent_step(pre, msg, fresh, post, acts),
        !is_start(msg),
    ensures
        post.current_round >= pre.current_round,
        pre.crashed.subset_of(post.crashed),
{
}

/// *Round monotonicity* over a whole run: the sequence of `current_round`
/// values an observer reads is non-decreasing, and `crashed` only grows.
pub proof fn lemma_round_monotonic<T, A>(
    states: Seq<AgentView<T>>,
    msgs: Seq<Message<T, A>>,
    freshes: Seq<Option<T>>,
    acts: Seq<Seq<Action<A>>>,
    i: int,
    j: int,
)
    requires
        agent_run(states, msgs, freshes, acts),
        forall|k: int| 0 <= k < msgs.len() ==> !is_start(msgs[k]),
        0 <= i <= j < states.len(),
    ensures
        states[i].current_round <= states[j].current_round,
        states[i].crashed.subset_of(states[j].crashed),
    decreases j - i,
{
    if i < j {
        lemma_round_monotonic(states, msgs, freshes, acts, i, j - 1);
        lemma_step_round_monotonic(states[j - 1], msgs[j - 1], freshes[j - 1], states[j], acts[j
            - 1]);
    }
}

/// *Hierarchy*, locally: an agent only ever replaces its proposal by one
/// whose original proposer ranks no higher, so the adopted proposer id never
/// increases within a run.
pub proof fn lemma_step_proposer_monotonic<T, A>(
    pre: AgentView<T>,
    msg: Message<T, A>,
    fresh: Option<T>,
    post: AgentView<T>,
    acts: Seq<Action<A>>,
)
    requires
        agent_step(pre, msg, fresh, post, acts),
        !is_start(msg),
        pre.proposal is Some,
    ensures
        post.proposal is Some,
        post.proposal->0.proposer <= pre.proposal->0.proposer,
{
}

/// *Hierarchy* over a whole run: the proposer tag of the adopted proposal is
/// non-increasing.
pub proof fn lemma_proposer_monotonic<T, A>(
    states: Seq<AgentView<T>>,
    msgs: Seq<Message<T, A>>,
    freshes: Seq<Option<T>>,
    acts: Seq<Seq<Action<A>>>,
    i: int,
    j: int,
)
    requires
        agent_run(states, msgs, freshes, acts),
        forall|k: int| 0 <= k < msgs.len() ==> !is_start(msgs[k]),
        0 <= i <= j < states.len(),
        states[i].proposal is Some,
    ensures
        states[j].proposal is Some,
        states[j].proposal->0.proposer <= states[i].proposal->0.proposer,
    decreases j - i,
{
    if i < j {
        lemma_proposer_monotonic(states, msgs, freshes, acts, i, j - 1);
        lemma_step_proposer_monotonic(states[j - 1], msgs[j - 1], freshes[j - 1], states[j], acts[j
            - 1]);
    }
}

/// Handling a `Decided(q)` while undecided leaves the agent holding a
/// proposal ranked no higher than `q`: it either adopts `q` or already held
/// something at least as low.
proof fn lemma_step_decided_bound<T, A>(
    pre: AgentView<T>,
    msg: Message<T, A>,
    fresh: Option<T>,
    post: AgentView<T>,
    acts: Seq<Action<A>>,
    q: crate::hierarchical_consensus::Proposal<T>,
)
    requires
        agent_step(pre, msg, fresh, post, acts),
        msg == Message::<T, A>::ConsensusEvent(ConsensusEvent::Decided(q)),
        !pre.has_decided,
    ensures
        post.proposal is Some,
        post.proposal->0.proposer <= q.proposer,
{
}

/// *Hierarchy*, locally and exactly: no offer is passed over. Once an agent
/// has handled `Decided(q)` while still undecided, the proposal it holds at
/// every later point — including the one it decides — ranks no higher than
/// `q`. Together with `lemma_validity` (the held proposal is the initial
/// one or an adopted offer) and `lemma_proposer_monotonic`, the held tag is
/// the minimum over the initial proposal and every offer handled while
/// undecided.
pub proof fn lemma_no_offer_passed_over<T, A>(
    states: Seq<AgentView<T>>,
    msgs: Seq<Message<T, A>>,
    freshes: Seq<Option<T>>,
    acts: Seq<Seq<Action<A>>>,
    j: int,
    i: int,
    q: crate::hierarchical_consensus::Proposal<T>,
)
    requires
        agent_run(states, msgs, freshes, acts),
        forall|k: int| 0 <= k < msgs.len() ==> !is_start(msgs[k]),
        0 <= j < i < states.len(),
        msgs[j] == Message::<T, A>::ConsensusEvent(ConsensusEvent::Decided(q)),
        !states[j].has_decided,
    ensures
        states[i].proposal is Some,
        states[i].proposal->0.proposer <= q.proposer,
{
    lemma_step_decided_bound(states[j], msgs[j], freshes[j], states[j + 1], acts[j], q);
    lemma_proposer_monotonic(states, msgs, freshes, acts, j + 1, i);
}

/// Does this message deliver the proposal `p` to its receiver?
pub open spec fn carries_proposal<T, A>(
    msg: Message<T, A>,
    p: crate::hierarchical_consensus::Proposal<T>,
) -> bool {
    msg matches Message::ConsensusEvent(ConsensusEvent::Decided(q)) && q == p
}

/// *Validity*, locally: whatever proposal an agent holds at any point of a
/// run is either the one it started the run with or one that arrived in a
/// `Decided` message. (Globally, an induction over all peers then grounds
/// every decided value in some peer's initial proposal.)
pub proof fn lemma_validity<T, A>(
    states: Seq<AgentView<T>>,
    msgs: Seq<Message<T, A>>,
    freshes: Seq<Option<T>>,
    acts: Seq<Seq<Action<A>>>,
    i: int,
)
    requires
        agent_run(states, msgs, freshes, acts),
        forall|k: int| 0 <= k < msgs.len() ==> !is_start(msgs[k]),
        0 <= i < states.len(),
        states[i].proposal is Some,
    ensures
        states[i].proposal == states[0].proposal || exists|j: int|
            0 <= j < i && carries_proposal(#[trigger] msgs[j], states[i].proposal->0),
    decreases i,
{
    if i > 0 {
        let pre = states[i - 1];
        let post = states[i];
        let msg = msgs[i - 1];
        assert(agent_step(pre, msg, freshes[i - 1], post, acts[i - 1]));
        if post.proposal == pre.proposal {
            lemma_validity(states, msgs, freshes, acts, i - 1);
        } else {
            assert(carries_proposal(msg, post.proposal->0));
        }
    }
}

/// *Validity* at the moment of decision: a value handed to the decision
/// callback is the initial proposal of the run or arrived in a `Decided`
/// message; nothing else can be decided.
pub proof fn lemma_delivered_value_validity<T, A>(
    states: Seq<AgentView<T>>,
    msgs: Seq<Message<T, A>>,
    freshes: Seq<Option<T>>,
    acts: Seq<Seq<Action<A>>>,
    i: int,
)
    requires
        agent_run(states, msgs, freshes, acts),
        forall|k: int| 0 <= k < msgs.len() ==> !is_start(msgs[k]),
        0 <= i < msgs.len(),
        deliver_count(acts[i]) > 0,
    ensures
        states[i + 1].proposal is Some,
        states[i + 1].proposal == states[0].proposal || exists|j: int|
            0 <= j <= i && carries_proposal(#[trigger] msgs[j], states[i + 1].proposal->0),
{
    lemma_step_deliver_flip(states[i], msgs[i], freshes[i], states[i + 1], acts[i]);
    lemma_step_proposal_some(states[i], msgs[i], freshes[i], states[i + 1], acts[i]);
    lemma_validity(states, msgs, freshes, acts, i + 1);
}

proof fn lemma_step_proposal_some<T, A>(
    pre: AgentView<T>,
    msg: Message<T, A>,
    fresh: Option<T>,
    post: AgentView<T>,
    acts: Seq<Action<A>>,
)
    requires
        agent_step(pre, msg, fresh, post, acts),
        !is_start(msg),
        post.has_decided,
        !pre.has_decided,
    ensures
        post.proposal is Some,
{
}

/// The inductive heart of *Termination*: whenever advancing lands an
/// undecided agent with a proposal on or past its own slot, it decides then
/// and there, with exactly one delivery.
pub proof fn lemma_due_leader_decides<T, A>(
    pre: AgentView<T>,
    post: AgentView<T>,
    acts: Seq<Action<A>>,
)
    requires
        advance_rel(pre, post, acts),
        !pre.has_decided,
        pre.proposal is Some,
        post.current_round >= pre.id,
    ensures
        post.has_decided,
        deliver_count(acts) == 1,
{
    lemma_advance_deliver_flip(pre, post, acts);
}

} // verus!
