//! Unit tests for the peer directory and the shared message types.

use consensus::broadcast_outcome;
use consensus::registry::Request;
use consensus::registry::Response;
use consensus::registry::Server;
use consensus::Peer;

#[test]
fn ids_are_assigned_in_strictly_increasing_order() {
    let mut server: Server<u32> = Server::new();
    assert_eq!(server.register(1000), 0);
    assert_eq!(server.register(1001), 1);
    assert_eq!(server.register(1002), 2);
    let snapshot = server.get_peers();
    let ids: Vec<usize> = snapshot.iter().map(|p| p.id).collect();
    assert_eq!(ids, vec![0, 1, 2]);
}

#[test]
fn snapshot_is_in_registration_order() {
    let mut server: Server<u32> = Server::new();
    server.register(7);
    server.register(5);
    server.register(9);
    let snapshot = server.get_peers();
    let addrs: Vec<u32> = snapshot.iter().map(|p| p.addr).collect();
    assert_eq!(addrs, vec![7, 5, 9]);
}

#[test]
fn requests_are_dispatched() {
    let mut server: Server<u32> = Server::new();
    match server.handle_request(Request::Register(42)) {
        Response::Registered(id) => assert_eq!(id, 0),
        Response::Peers(_) => panic!("expected a registration answer"),
    }
    match server.handle_request(Request::GetPeers) {
        Response::Peers(peers) => {
            assert_eq!(peers.len(), 1);
            assert_eq!(peers[0].id, 0);
            assert_eq!(peers[0].addr, 42);
        }
        Response::Registered(_) => panic!("expected a snapshot"),
    }
}

#[test]
fn peer_new_keeps_its_fields() {
    let p = Peer::new(3, 1234u32);
    assert_eq!(p.id, 3);
    assert_eq!(p.addr, 1234);
}

#[test]
fn broadcast_with_no_failures_is_ok() {
    let failures: Vec<u32> = Vec::new();
    assert!(broadcast_outcome(failures).is_ok());
}

#[test]
fn broadcast_failures_are_reported() {
    let failures: Vec<u32> = vec![8080, 9090];
    let err = broadcast_outcome(failures).unwrap_err();
    assert_eq!(err.failures, vec![8080, 9090]);
}
