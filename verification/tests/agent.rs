//! Unit tests for the consensus agent's individual message handlers.

use consensus::hierarchical_consensus::Action;
use consensus::hierarchical_consensus::ConsensusAgent;
use consensus::hierarchical_consensus::ConsensusEvent;
use consensus::hierarchical_consensus::Proposal;
use consensus::Message;

type Addr = u32;

#[test]
fn heartbeat_request_is_answered_and_changes_nothing() {
    let mut a: ConsensusAgent<i32> = ConsensusAgent::new(1);
    a.refresh_proposal(Some(7));
    let acts = a.handle(Message::RequestHeartbeat { requester: 99u32 }, None);
    assert_eq!(acts, vec![Action::SendHeartbeat { requester: 99u32 }]);
    assert_eq!(a.current_round, 0);
    assert!(!a.has_decided);
    assert_eq!(a.proposal.clone().unwrap().value, 7);
}

#[test]
fn refresh_proposal_tags_own_id() {
    let mut a: ConsensusAgent<i32> = ConsensusAgent::new(5);
    a.refresh_proposal(Some(11));
    let p = a.proposal.clone().unwrap();
    assert_eq!(p.value, 11);
    assert_eq!(p.proposer, 5);
    a.refresh_proposal(None);
    assert!(a.proposal.is_none());
}

#[test]
fn start_resets_the_whole_run() {
    let mut a: ConsensusAgent<i32> = ConsensusAgent::new(1);
    a.refresh_proposal(Some(7));
    let _: Vec<Action<Addr>> = a.handle(Message::InformCrash(0), None);
    assert!(a.has_decided);
    assert!(a.current_round > 0);

    let acts: Vec<Action<Addr>> =
        a.handle(Message::ConsensusEvent(ConsensusEvent::Start), Some(8));
    assert!(acts.is_empty());
    assert_eq!(a.current_round, 0);
    assert!(!a.has_decided);
    let p = a.proposal.clone().unwrap();
    assert_eq!(p.value, 8);
    assert_eq!(p.proposer, 1);

    // The crash set was cleared too: the same notification advances again.
    let acts2: Vec<Action<Addr>> = a.handle(Message::InformCrash(0), None);
    assert_eq!(acts2, vec![Action::Deliver, Action::BroadcastDecided]);
}

#[test]
fn higher_ranked_proposer_is_ignored_but_round_advances() {
    let mut a: ConsensusAgent<i32> = ConsensusAgent::new(5);
    a.refresh_proposal(Some(50));
    // Own proposal carries tag 5; an incoming tag 7 ranks higher and loses.
    let incoming = Proposal { value: 70, proposer: 7 };
    let acts: Vec<Action<Addr>> =
        a.handle(Message::ConsensusEvent(ConsensusEvent::Decided(incoming)), None);
    assert!(acts.is_empty());
    assert_eq!(a.current_round, 1);
    assert_eq!(a.proposal.clone().unwrap().value, 50);
    assert_eq!(a.proposal.clone().unwrap().proposer, 5);
}

#[test]
fn equal_ranked_proposer_is_ignored() {
    // Adoption is strict: only a strictly lower proposer tag displaces the
    // held proposal; an equal tag is ignored, though the round still
    // advances.
    let mut a: ConsensusAgent<i32> = ConsensusAgent::new(5);
    a.refresh_proposal(Some(50));
    let incoming = Proposal { value: 51, proposer: 5 };
    let acts: Vec<Action<Addr>> =
        a.handle(Message::ConsensusEvent(ConsensusEvent::Decided(incoming)), None);
    assert!(acts.is_empty());
    assert_eq!(a.current_round, 1);
    assert_eq!(a.proposal.clone().unwrap().value, 50);
    assert_eq!(a.proposal.clone().unwrap().proposer, 5);
}

#[test]
fn crash_notifications_are_idempotent() {
    let mut a: ConsensusAgent<i32> = ConsensusAgent::new(3);
    a.refresh_proposal(Some(30));
    let acts: Vec<Action<Addr>> = a.handle(Message::InformCrash(0), None);
    assert!(acts.is_empty());
    assert_eq!(a.current_round, 1);
    // Repeats of an already-recorded crash change nothing: the crashed peer
    // no longer leads the current round.
    let acts2: Vec<Action<Addr>> = a.handle(Message::InformCrash(0), None);
    assert!(acts2.is_empty());
    assert_eq!(a.current_round, 1);
}

#[test]
fn crash_of_future_leader_does_not_advance() {
    let mut a: ConsensusAgent<i32> = ConsensusAgent::new(3);
    a.refresh_proposal(Some(30));
    let acts: Vec<Action<Addr>> = a.handle(Message::InformCrash(2), None);
    assert!(acts.is_empty());
    assert_eq!(a.current_round, 0);
}

#[test]
fn skipping_crashed_leaders_repeats_undecided() {
    // An agent with nothing to propose passes a chain of crashed leader
    // slots and announces itself undecided once per slot passed.
    let mut a: ConsensusAgent<i32> = ConsensusAgent::new(0);
    a.refresh_proposal(None);
    let empty1: Vec<Action<Addr>> = a.handle(Message::InformCrash(1), None);
    assert!(empty1.is_empty());
    let empty2: Vec<Action<Addr>> = a.handle(Message::InformCrash(2), None);
    assert!(empty2.is_empty());
    assert_eq!(a.current_round, 0);
    let acts: Vec<Action<Addr>> = a.handle(Message::InformCrash(0), None);
    assert_eq!(
        acts,
        vec![
            Action::BroadcastUndecided,
            Action::BroadcastUndecided,
            Action::BroadcastUndecided,
        ]
    );
    assert_eq!(a.current_round, 3);
    assert!(!a.has_decided);
}

#[test]
fn deciding_while_catching_up_does_not_rebroadcast() {
    let mut a: ConsensusAgent<i32> = ConsensusAgent::new(0);
    a.refresh_proposal(None);
    // Round moves past this agent's slot while it has nothing to propose.
    let _: Vec<Action<Addr>> = a.handle(Message::InformCrash(0), None);
    assert_eq!(a.current_round, 1);
    // A later decision arrives: the agent adopts and delivers, but its own
    // slot is long past, so it does not broadcast.
    let incoming = Proposal { value: 9, proposer: 1 };
    let acts: Vec<Action<Addr>> =
        a.handle(Message::ConsensusEvent(ConsensusEvent::Decided(incoming)), None);
    assert_eq!(acts, vec![Action::Deliver]);
    assert!(a.has_decided);
    assert_eq!(a.proposal.clone().unwrap().value, 9);
}

#[test]
fn decision_callback_fires_at_most_once() {
    let mut a: ConsensusAgent<i32> = ConsensusAgent::new(1);
    a.refresh_proposal(Some(10));
    let mut deliveries = 0;
    let msgs: Vec<Message<i32, Addr>> = vec![
        Message::InformCrash(0),
        Message::ConsensusEvent(ConsensusEvent::Decided(Proposal { value: 1, proposer: 0 })),
        Message::ConsensusEvent(ConsensusEvent::Undecided),
        Message::InformCrash(2),
        Message::ConsensusEvent(ConsensusEvent::Decided(Proposal { value: 2, proposer: 2 })),
    ];
    for m in msgs {
        for act in a.handle(m, None) {
            if act == Action::Deliver {
                deliveries += 1;
            }
        }
    }
    assert_eq!(deliveries, 1);
}

#[test]
fn fresh_agents_have_round_headroom() {
    let a: ConsensusAgent<i32> = ConsensusAgent::new(0);
    assert!(a.has_headroom());
}

#[test]
fn rounds_never_decrease_within_a_run() {
    let mut a: ConsensusAgent<i32> = ConsensusAgent::new(2);
    a.refresh_proposal(Some(20));
    let mut last = a.current_round;
    let msgs: Vec<Message<i32, Addr>> = vec![
        Message::RequestHeartbeat { requester: 4 },
        Message::InformCrash(0),
        Message::ConsensusEvent(ConsensusEvent::Undecided),
        Message::InformCrash(1),
        Message::ConsensusEvent(ConsensusEvent::Decided(Proposal { value: 5, proposer: 0 })),
    ];
    for m in msgs {
        let _ = a.handle(m, None);
        assert!(a.current_round >= last);
        last = a.current_round;
    }
}
