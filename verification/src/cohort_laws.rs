//! Laws about the whole cohort: a system run interleaves steps of many
//! agents, one event at a time. Each event either boots an agent (its
//! startup attempt) or delivers one message to one agent; a well-formed run
//! also never delivers a `Decided` message that no agent had broadcast —
//! messages do not materialize. Everything else — which agent moves when,
//! which messages race, which are lost — is left completely free, so these
//! lemmas hold for every interleaving the transport could produce.

use vstd::prelude::*;

verus! {

use crate::hierarchical_consensus::agent_step;
use crate::hierarchical_consensus::Action;
use crate::hierarchical_consensus::AgentView;
use crate::hierarchical_consensus::ConsensusEvent;
use crate::hierarchical_consensus::Proposal;
use crate::protocol_laws::is_start;
use crate::Message;

/// An agent's startup attempt, as `ConsensusAgent::startup` ensures it: the
/// initial leader makes one leader attempt, anyone else does nothing.
pub open spec fn boot_step<T, A>(pre: AgentView<T>, post: AgentView<T>, acts: Seq<Action<A>>) -> bool {
    if pre.current_round == pre.id {
        post == pre.decide_state() && acts == pre.decide_acts::<A>()
    } else {
        post == pre && acts == Seq::<Action<A>>::empty()
    }
}

/// One event of a system run.
pub enum SystemEvent<T, A> {
    /// Agent `agent` runs its startup attempt.
    Boot { agent: int },
    /// Agent `agent` handles one incoming message.
    Deliver { agent: int, msg: Message<T, A>, fresh: Option<T> },
}

pub open spec fn event_agent<T, A>(ev: SystemEvent<T, A>) -> int {
    match ev {
        SystemEvent::Boot { agent } => agent,
        SystemEvent::Deliver { agent, .. } => agent,
    }
}

/// One event moves one agent by its own transition relation and leaves
/// every other agent untouched.
pub open spec fn system_step<T, A>(
    pre: Seq<AgentView<T>>,
    ev: SystemEvent<T, A>,
    post: Seq<AgentView<T>>,
    acts: Seq<Action<A>>,
) -> bool {
    &&& post.len() == pre.len()
    &&& 0 <= event_agent(ev) < pre.len()
    &&& (forall|k: int| 0 <= k < pre.len() && k != event_agent(ev) ==> post[k] == pre[k])
    &&& match ev {
        SystemEvent::Boot { agent } => boot_step(pre[agent], post[agent], acts),
        SystemEvent::Deliver { agent, msg, fresh } => agent_step(
            pre[agent],
            msg,
            fresh,
            post[agent],
            acts,
        ),
    }
}

/// No `Start` is delivered: the run under scrutiny is a single run.
pub open spec fn delivers_no_start<T, A>(ev: SystemEvent<T, A>) -> bool {
    match ev {
        SystemEvent::Deliver { msg, .. } => !is_start(msg),
        SystemEvent::Boot { .. } => true,
    }
}

/// Messages do not materialize: a `Decided(p)` delivered at event `i` was
/// broadcast at some earlier event by an agent that then held exactly `p`.
/// (The caller broadcasts the post-state's proposal when it is told
/// `BroadcastDecided`, so this is what the transport can produce.)
pub open spec fn decided_has_sender<T, A>(
    configs: Seq<Seq<AgentView<T>>>,
    events: Seq<SystemEvent<T, A>>,
    actss: Seq<Seq<Action<A>>>,
    i: int,
) -> bool {
    match events[i] {
        SystemEvent::Deliver { msg, .. } => match msg {
            Message::ConsensusEvent(ConsensusEvent::Decided(p)) => exists|l: int|
                {
                    &&& 0 <= l < i
                    &&& #[trigger] actss[l].contains(Action::BroadcastDecided)
                    &&& configs[l + 1][event_agent(events[l])].proposal == Some(p)
                },
            _ => true,
        },
        SystemEvent::Boot { .. } => true,
    }
}

/// A system run: `configs[0]` is where the cohort began its run, and each
/// event relates one configuration to the next.
pub open spec fn system_run<T, A>(
    configs: Seq<Seq<AgentView<T>>>,
    events: Seq<SystemEvent<T, A>>,
    actss: Seq<Seq<Action<A>>>,
) -> bool {
    &&& configs.len() == events.len() + 1
    &&& actss.len() == events.len()
    &&& (forall|i: int|
        0 <= i < events.len() ==> system_step(
            configs[i],
            #[trigger] events[i],
            configs[i + 1],
            actss[i],
        ))
    &&& (forall|i: int| 0 <= i < events.len() ==> delivers_no_start(#[trigger] events[i]))
    &&& (forall|i: int|
        0 <= i < events.len() ==> #[trigger] decided_has_sender(configs, events, actss, i))
}

/// Agent `a` holds proposal `p` in configuration `c`.
pub open spec fn holds_proposal<T>(c: Seq<AgentView<T>>, a: int, p: Proposal<T>) -> bool {
    0 <= a < c.len() && c[a].proposal == Some(p)
}

/// The proposals the cohort entered the run with.
pub open spec fn initial_proposals<T>(init: Seq<AgentView<T>>) -> Set<Proposal<T>> {
    Set::new(|p: Proposal<T>| exists|a: int| holds_proposal(init, a, p))
}

/// The cohort never shrinks or grows within a run.
proof fn lemma_config_len<T, A>(
    configs: Seq<Seq<AgentView<T>>>,
    events: Seq<SystemEvent<T, A>>,
    actss: Seq<Seq<Action<A>>>,
    i: int,
)
    requires
        system_run(configs, events, actss),
        0 <= i < configs.len(),
    ensures
        configs[i].len() == configs[0].len(),
    decreases i,
{
    if i > 0 {
        lemma_config_len(configs, events, actss, i - 1);
        assert(system_step(configs[i - 1], events[i - 1], configs[i], actss[i - 1]));
    }
}

/// *Validity*, globally: in every interleaving, every proposal any agent
/// holds at any point of the run is one that some peer held when the run
/// began. Adoption can spread proposals around but can never invent one.
pub proof fn lemma_cohort_validity<T, A>(
    configs: Seq<Seq<AgentView<T>>>,
    events: Seq<SystemEvent<T, A>>,
    actss: Seq<Seq<Action<A>>>,
    i: int,
    a: int,
)
    requires
        system_run(configs, events, actss),
        0 <= i < configs.len(),
        0 <= a < configs[i].len(),
        configs[i][a].proposal is Some,
    ensures
        initial_proposals(configs[0]).contains(configs[i][a].proposal->0),
    decreases i,
{
    if i == 0 {
        assert(holds_proposal(configs[0], a, configs[0][a].proposal->0));
    } else {
        let ev = events[i - 1];
        assert(system_step(configs[i - 1], ev, configs[i], actss[i - 1]));
        lemma_config_len(configs, events, actss, i);
        lemma_config_len(configs, events, actss, i - 1);
        if a != event_agent(ev) {
            assert(configs[i][a] == configs[i - 1][a]);
            lemma_cohort_validity(configs, events, actss, i - 1, a);
        } else {
            match ev {
                SystemEvent::Boot { .. } => {
                    assert(configs[i][a].proposal == configs[i - 1][a].proposal);
                    lemma_cohort_validity(configs, events, actss, i - 1, a);
                },
                SystemEvent::Deliver { msg, fresh, .. } => {
                    lemma_step_proposal_change_is_adoption(
                        configs[i - 1][a],
                        msg,
                        fresh,
                        configs[i][a],
                        actss[i - 1],
                    );
                    if configs[i][a].proposal == configs[i - 1][a].proposal {
                        lemma_cohort_validity(configs, events, actss, i - 1, a);
                    } else {
                        let p = configs[i][a].proposal->0;
                        assert(decided_has_sender(configs, events, actss, i - 1));
                        let l = choose|l: int|
                            {
                                &&& 0 <= l < i - 1
                                &&& #[trigger] actss[l].contains(Action::BroadcastDecided)
                                &&& configs[l + 1][event_agent(events[l])].proposal == Some(p)
                            };
                        let sender = event_agent(events[l]);
                        assert(system_step(configs[l], events[l], configs[l + 1], actss[l]));
                        lemma_config_len(configs, events, actss, l);
                        lemma_config_len(configs, events, actss, l + 1);
                        lemma_cohort_validity(configs, events, actss, l + 1, sender);
                    }
                },
            }
        }
    }
}

proof fn lemma_step_proposal_change_is_adoption<T, A>(
    pre: AgentView<T>,
    msg: Message<T, A>,
    fresh: Option<T>,
    post: AgentView<T>,
    acts: Seq<Action<A>>,
)
    requires
        agent_step(pre, msg, fresh, post, acts),
        !is_start(msg),
    ensures
        post.proposal == pre.proposal || (msg matches Message::ConsensusEvent(
            ConsensusEvent::Decided(p),
        ) && post.proposal == Some(p)),
{
}

/// *Validity* for decisions: an agent that decided during the run holds a
/// proposal, and that proposal — the value its callback was given — is the
/// initial proposal of some peer.
pub proof fn lemma_cohort_decided_validity<T, A>(
    configs: Seq<Seq<AgentView<T>>>,
    events: Seq<SystemEvent<T, A>>,
    actss: Seq<Seq<Action<A>>>,
    i: int,
    a: int,
)
    requires
        system_run(configs, events, actss),
        0 <= i < configs.len(),
        0 <= a < configs[i].len(),
        configs[i][a].has_decided,
        !configs[0][a].has_decided,
    ensures
        configs[i][a].proposal is Some,
        initial_proposals(configs[0]).contains(configs[i][a].proposal->0),
    decreases i,
{
    lemma_config_len(configs, events, actss, i);
    if i > 0 {
        let ev = events[i - 1];
        assert(system_step(configs[i - 1], ev, configs[i], actss[i - 1]));
        lemma_config_len(configs, events, actss, i - 1);
        if a != event_agent(ev) {
            assert(configs[i][a] == configs[i - 1][a]);
            lemma_cohort_decided_validity(configs, events, actss, i - 1, a);
        } else if configs[i - 1][a].has_decided {
            lemma_cohort_decided_validity(configs, events, actss, i - 1, a);
            match ev {
                SystemEvent::Boot { .. } => {},
                SystemEvent::Deliver { msg, fresh, .. } => {
                    lemma_step_proposal_change_is_adoption(
                        configs[i - 1][a],
                        msg,
                        fresh,
                        configs[i][a],
                        actss[i - 1],
                    );
                },
            }
        } else {
            // The decision happened at this very event; deciding requires a
            // proposal in hand.
            match ev {
                SystemEvent::Boot { .. } => {},
                SystemEvent::Deliver { .. } => {},
            }
        }
        lemma_cohort_validity(configs, events, actss, i, a);
    }
}

/// Each peer's initial proposal, if any, carries its own id as the proposer
/// tag — the state `refresh_proposal` establishes at startup.
pub open spec fn self_tagged<T>(init: Seq<AgentView<T>>) -> bool {
    forall|a: int|
        0 <= a < init.len() && (#[trigger] init[a]).proposal is Some ==> init[a].proposal->0.proposer
            == a
}

/// *Agreement*, reduced to tags: when every initial proposal is tagged with
/// its own proposer's id, the tag determines the proposal. Two agents that
/// hold — in particular, have decided — proposals with the same proposer
/// tag, at any two points of the run, hold the very same proposal, so their
/// decided values are equal. (Whole agreement would further need that the
/// two decision tags coincide, which a crash notification overtaking a
/// decision broadcast can defeat.)
pub proof fn lemma_equal_tags_agree<T, A>(
    configs: Seq<Seq<AgentView<T>>>,
    events: Seq<SystemEvent<T, A>>,
    actss: Seq<Seq<Action<A>>>,
    i: int,
    a: int,
    j: int,
    b: int,
)
    requires
        system_run(configs, events, actss),
        self_tagged(configs[0]),
        0 <= i < configs.len(),
        0 <= a < configs[i].len(),
        0 <= j < configs.len(),
        0 <= b < configs[j].len(),
        configs[i][a].proposal is Some,
        configs[j][b].proposal is Some,
        configs[i][a].proposal->0.proposer == configs[j][b].proposal->0.proposer,
    ensures
        configs[i][a].proposal == configs[j][b].proposal,
{
    let pa = configs[i][a].proposal->0;
    let pb = configs[j][b].proposal->0;
    lemma_cohort_validity(configs, events, actss, i, a);
    lemma_cohort_validity(configs, events, actss, j, b);
    let a0 = choose|a0: int| holds_proposal(configs[0], a0, pa);
    let b0 = choose|b0: int| holds_proposal(configs[0], b0, pb);
    assert(pa.proposer == a0);
    assert(pb.proposer == b0);
    assert(configs[0][a0].proposal == Some(pa));
    assert(configs[0][b0].proposal == Some(pb));
}

} // verus!
