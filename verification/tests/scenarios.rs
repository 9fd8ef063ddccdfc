//! End-to-end protocol scenarios, driven by hand: the test plays the role of
//! the transport, delivering each broadcast to every peer in turn.

use consensus::hierarchical_consensus::Action;
use consensus::hierarchical_consensus::ConsensusAgent;
use consensus::hierarchical_consensus::ConsensusEvent;
use consensus::hierarchical_consensus::Proposal;
use consensus::perfect_failure_detector::Heartbeat;
use consensus::perfect_failure_detector::PerfectFailureDetector;
use consensus::perfect_failure_detector::ProbeDecision;
use consensus::Message;

type Addr = u32;

fn decided_msg<T: Clone>(agent: &ConsensusAgent<T>) -> Message<T, Addr> {
    Message::ConsensusEvent(ConsensusEvent::Decided(agent.proposal.clone().unwrap()))
}

#[test]
fn three_live_peers_decide_lowest() {
    let mut a0: ConsensusAgent<i32> = ConsensusAgent::new(0);
    a0.refresh_proposal(Some(10));
    let mut a1: ConsensusAgent<i32> = ConsensusAgent::new(1);
    a1.refresh_proposal(Some(20));
    let mut a2: ConsensusAgent<i32> = ConsensusAgent::new(2);
    a2.refresh_proposal(Some(30));

    let acts0: Vec<Action<Addr>> = a0.startup();
    assert_eq!(acts0, vec![Action::Deliver, Action::BroadcastDecided]);
    assert!(a0.has_decided);
    assert_eq!(a0.proposal.clone().unwrap().value, 10);

    let d0 = decided_msg(&a0);
    assert!(a0.handle(d0.clone(), None).is_empty());
    let acts1 = a1.handle(d0.clone(), None);
    assert_eq!(acts1, vec![Action::Deliver, Action::BroadcastDecided]);
    let acts2 = a2.handle(d0.clone(), None);
    assert!(acts2.is_empty());

    let d1 = decided_msg(&a1);
    assert!(a0.handle(d1.clone(), None).is_empty());
    assert!(a1.handle(d1.clone(), None).is_empty());
    let acts2b = a2.handle(d1, None);
    assert_eq!(acts2b, vec![Action::Deliver, Action::BroadcastDecided]);

    for a in [&a0, &a1, &a2] {
        assert!(a.has_decided);
        assert_eq!(a.proposal.clone().unwrap().value, 10);
        assert_eq!(a.proposal.clone().unwrap().proposer, 0);
    }
}

#[test]
fn leader_crashes_before_broadcasting() {
    // Detector side: peer 0 registers, then crashes without ever
    // heartbeating back after first contact.
    let mut det = PerfectFailureDetector::new();
    for id in 0..3 {
        assert_eq!(det.begin_probe(id), ProbeDecision::Request);
    }
    det.record_heartbeat(Heartbeat { peer_id: 1 });
    det.record_heartbeat(Heartbeat { peer_id: 2 });
    assert_eq!(det.begin_probe(0), ProbeDecision::Condemn);
    assert_eq!(det.begin_probe(1), ProbeDecision::Request);
    assert_eq!(det.begin_probe(2), ProbeDecision::Request);

    // Consensus side: InformCrash(0) is broadcast; 20 wins.
    let mut a1: ConsensusAgent<i32> = ConsensusAgent::new(1);
    a1.refresh_proposal(Some(20));
    let mut a2: ConsensusAgent<i32> = ConsensusAgent::new(2);
    a2.refresh_proposal(Some(30));

    let acts1: Vec<Action<Addr>> = a1.handle(Message::InformCrash(0), None);
    assert_eq!(acts1, vec![Action::Deliver, Action::BroadcastDecided]);
    let acts2: Vec<Action<Addr>> = a2.handle(Message::InformCrash(0), None);
    assert!(acts2.is_empty());

    let d1 = decided_msg(&a1);
    let acts2b = a2.handle(d1, None);
    assert_eq!(acts2b, vec![Action::Deliver, Action::BroadcastDecided]);

    for a in [&a1, &a2] {
        assert!(a.has_decided);
        assert_eq!(a.proposal.clone().unwrap().value, 20);
        assert_eq!(a.proposal.clone().unwrap().proposer, 1);
    }
}

#[test]
fn leader_without_proposal_defers() {
    let mut a0: ConsensusAgent<String> = ConsensusAgent::new(0);
    a0.refresh_proposal(None);
    let mut a1: ConsensusAgent<String> = ConsensusAgent::new(1);
    a1.refresh_proposal(Some("A".to_string()));
    let mut a2: ConsensusAgent<String> = ConsensusAgent::new(2);
    a2.refresh_proposal(Some("B".to_string()));

    let acts0: Vec<Action<Addr>> = a0.startup();
    assert_eq!(acts0, vec![Action::BroadcastUndecided]);
    assert!(!a0.has_decided);

    let undecided: Message<String, Addr> = Message::ConsensusEvent(ConsensusEvent::Undecided);
    // The sender is still in its own slot: it does not advance on its own
    // announcement.
    assert!(a0.handle(undecided.clone(), None).is_empty());
    assert_eq!(a0.current_round, 0);
    let acts1 = a1.handle(undecided.clone(), None);
    assert_eq!(acts1, vec![Action::Deliver, Action::BroadcastDecided]);
    let acts2 = a2.handle(undecided.clone(), None);
    assert!(acts2.is_empty());
    assert_eq!(a2.current_round, 1);

    let d1 = decided_msg(&a1);
    let acts0b = a0.handle(d1.clone(), None);
    // Catching up past its own slot: it decides but does not re-broadcast.
    assert_eq!(acts0b, vec![Action::Deliver]);
    let acts2b = a2.handle(d1, None);
    assert_eq!(acts2b, vec![Action::Deliver, Action::BroadcastDecided]);

    for a in [&a0, &a1, &a2] {
        assert!(a.has_decided);
        assert_eq!(a.proposal.clone().unwrap().value, "A".to_string());
        assert_eq!(a.proposal.clone().unwrap().proposer, 1);
    }
}

#[test]
fn adopted_value_keeps_original_proposer_tag() {
    // Peer 0 crashed mid-broadcast: its decision reached peer 1 only.
    let mut a1: ConsensusAgent<String> = ConsensusAgent::new(1);
    a1.refresh_proposal(Some("W".to_string()));
    let mut a2: ConsensusAgent<String> = ConsensusAgent::new(2);
    a2.refresh_proposal(Some("X".to_string()));

    let v0 = Proposal { value: "V".to_string(), proposer: 0 };
    let acts1: Vec<Action<Addr>> =
        a1.handle(Message::ConsensusEvent(ConsensusEvent::Decided(v0)), None);
    // Peer 1 adopts, becomes leader of round 1 and re-broadcasts the
    // adopted proposal under its original tag.
    assert_eq!(acts1, vec![Action::Deliver, Action::BroadcastDecided]);
    assert_eq!(a1.proposal.clone().unwrap().proposer, 0);
    assert_eq!(a1.proposal.clone().unwrap().value, "V".to_string());

    let acts2: Vec<Action<Addr>> = a2.handle(Message::InformCrash(0), None);
    assert!(acts2.is_empty());
    let d1 = decided_msg(&a1);
    let acts2b = a2.handle(d1, None);
    assert_eq!(acts2b, vec![Action::Deliver, Action::BroadcastDecided]);
    assert_eq!(a2.proposal.clone().unwrap().value, "V".to_string());
    assert_eq!(a2.proposal.clone().unwrap().proposer, 0);

    // The late crash notification changes nothing for peer 1.
    let late: Vec<Action<Addr>> = a1.handle(Message::InformCrash(0), None);
    assert!(late.is_empty());
    assert!(a1.has_decided);
    assert_eq!(a1.proposal.clone().unwrap().value, "V".to_string());
}

#[test]
fn two_leaders_crash_in_sequence() {
    // Detector: five peers; 0 never answers, 1 answers once then crashes.
    let mut det = PerfectFailureDetector::new();
    for id in 0..5 {
        assert_eq!(det.begin_probe(id), ProbeDecision::Request);
    }
    for id in 1..5 {
        det.record_heartbeat(Heartbeat { peer_id: id });
    }
    assert_eq!(det.begin_probe(0), ProbeDecision::Condemn);
    for id in 1..5 {
        assert_eq!(det.begin_probe(id), ProbeDecision::Request);
    }
    for id in 2..5 {
        det.record_heartbeat(Heartbeat { peer_id: id });
    }
    assert_eq!(det.begin_probe(0), ProbeDecision::Skip);
    assert_eq!(det.begin_probe(1), ProbeDecision::Condemn);

    // Consensus: InformCrash(0) then InformCrash(1); "X" from peer 2 wins.
    let mut a2: ConsensusAgent<String> = ConsensusAgent::new(2);
    a2.refresh_proposal(Some("X".to_string()));
    let mut a3: ConsensusAgent<String> = ConsensusAgent::new(3);
    a3.refresh_proposal(Some("Y".to_string()));
    let mut a4: ConsensusAgent<String> = ConsensusAgent::new(4);
    a4.refresh_proposal(Some("Z".to_string()));

    for a in [&mut a2, &mut a3, &mut a4] {
        let acts: Vec<Action<Addr>> = a.handle(Message::InformCrash(0), None);
        assert!(acts.is_empty());
        assert_eq!(a.current_round, 1);
    }
    let acts2: Vec<Action<Addr>> = a2.handle(Message::InformCrash(1), None);
    assert_eq!(acts2, vec![Action::Deliver, Action::BroadcastDecided]);
    for a in [&mut a3, &mut a4] {
        let acts: Vec<Action<Addr>> = a.handle(Message::InformCrash(1), None);
        assert!(acts.is_empty());
        assert_eq!(a.current_round, 2);
    }

    let d2 = decided_msg(&a2);
    let acts3 = a3.handle(d2.clone(), None);
    assert_eq!(acts3, vec![Action::Deliver, Action::BroadcastDecided]);
    let acts4 = a4.handle(d2, None);
    assert!(acts4.is_empty());
    let d3 = decided_msg(&a3);
    let acts4b = a4.handle(d3, None);
    assert_eq!(acts4b, vec![Action::Deliver, Action::BroadcastDecided]);

    for a in [&a2, &a3, &a4] {
        assert!(a.has_decided);
        assert_eq!(a.proposal.clone().unwrap().value, "X".to_string());
        assert_eq!(a.proposal.clone().unwrap().proposer, 2);
    }
}

#[test]
fn single_peer_decides_immediately() {
    let mut a0: ConsensusAgent<i32> = ConsensusAgent::new(0);
    a0.refresh_proposal(Some(42));
    let acts: Vec<Action<Addr>> = a0.startup();
    assert_eq!(acts, vec![Action::Deliver, Action::BroadcastDecided]);
    assert!(a0.has_decided);
    assert_eq!(a0.proposal.clone().unwrap().value, 42);
    assert_eq!(a0.proposal.clone().unwrap().proposer, 0);

    // Its own broadcast comes back and is ignored.
    let d0 = decided_msg(&a0);
    assert!(a0.handle(d0, None).is_empty());
    assert_eq!(a0.proposal.clone().unwrap().value, 42);
}
