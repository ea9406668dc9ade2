use papyrus_network::config::NetworkConfig;
use papyrus_network::executor::execute_query;
use papyrus_network::manager::{NetworkManager, RegistrationError, SubmitOutcome};
use papyrus_network::protocol::Protocol;
use papyrus_network::sqmr::{ClientDelivery, ClientEvent, ServerEffect, ServerEvent, SessionFailureReason};
use papyrus_network::wire::{DataOrFin, Direction, Query};

fn manager() -> NetworkManager {
    NetworkManager::new(NetworkConfig::default()).unwrap()
}

fn query(start: u64, limit: u64) -> Query {
    Query { start_block: start, start_block_hash: None, limit, direction: Direction::Forward, step: 1 }
}

#[test]
fn invalid_config_is_fatal_at_construction() {
    let c = NetworkConfig { secret_key: Some(vec![0u8; 5]), ..NetworkConfig::default() };
    assert!(NetworkManager::new(c).is_err());
}

#[test]
fn local_peer_id_is_deterministic_for_a_fixed_seed() {
    let c = NetworkConfig { secret_key: Some(vec![1u8; 32]), ..NetworkConfig::default() };
    let a = NetworkManager::new(c.clone()).unwrap();
    let b = NetworkManager::new(c).unwrap();
    assert_eq!(a.get_local_peer_id(), "01".repeat(32));
    assert_eq!(a.get_local_peer_id(), b.get_local_peer_id());
    assert_eq!(a.get_local_peer_id(), a.get_local_peer_id());
}

#[test]
fn re_registering_a_role_fails_without_mutating_state() {
    let mut m = manager();
    assert!(m.register_sqmr_client(Protocol::SignedBlockHeader).is_ok());
    assert_eq!(
        m.register_sqmr_client(Protocol::SignedBlockHeader),
        Err(RegistrationError::AlreadyRegistered)
    );
    // the same protocol can still take the other role, and other
    // protocols the same role: nothing was mutated by the refusal
    assert!(m.register_sqmr_server(Protocol::SignedBlockHeader).is_ok());
    assert!(m.register_sqmr_client(Protocol::StateDiff).is_ok());
    assert_eq!(
        m.register_sqmr_server(Protocol::SignedBlockHeader),
        Err(RegistrationError::AlreadyRegistered)
    );
}

#[test]
fn query_without_a_peer_fails_with_no_peer() {
    let mut m = manager();
    m.register_sqmr_client(Protocol::SignedBlockHeader).unwrap();
    match m.submit_query(Protocol::SignedBlockHeader, &query(0, 3)) {
        SubmitOutcome::Rejected(d) => {
            assert_eq!(d, ClientDelivery::Failed(SessionFailureReason::NoPeer));
        }
        SubmitOutcome::Sent { .. } => panic!("no peer is connected"),
    }
    assert_eq!(m.open_session_count(), 0);
}

#[test]
fn header_round_trip_through_the_state_machines() {
    // node B: client side
    let mut b = manager();
    b.register_sqmr_client(Protocol::SignedBlockHeader).unwrap();
    assert!(b.on_peer_connected(42, vec!["/ip4/127.0.0.1/tcp/20000".to_string()]));
    let (sid, peer) = match b.submit_query(Protocol::SignedBlockHeader, &query(0, 3)) {
        SubmitOutcome::Sent { session_id, peer } => (session_id, peer),
        SubmitOutcome::Rejected(_) => panic!("peer 42 is connected"),
    };
    assert_eq!(peer, 42);
    assert_eq!(b.open_session_count(), 1);

    // node A: server side answers from its store
    let store = vec![vec![10u8], vec![11u8], vec![12u8]];
    let frames = execute_query(&query(0, 3), &store, 100000);

    // the frames travel back into B's session
    let mut delivered = Vec::new();
    for f in frames {
        let ev = match f {
            DataOrFin::Data(bytes) => ClientEvent::Frame(bytes),
            DataOrFin::Fin => ClientEvent::FinFrame,
        };
        if let (Some(d), _) = b.handle_session_event(sid, ev) {
            delivered.push(d);
        }
    }
    assert_eq!(
        delivered,
        vec![
            ClientDelivery::Data(vec![10]),
            ClientDelivery::Data(vec![11]),
            ClientDelivery::Data(vec![12]),
            ClientDelivery::Fin,
        ]
    );
    // the session reached Finished and was destroyed
    assert_eq!(b.open_session_count(), 0);
}

#[test]
fn frame_after_fin_is_a_protocol_violation() {
    let mut m = manager();
    m.register_sqmr_client(Protocol::SignedBlockHeader).unwrap();
    m.on_peer_connected(7, Vec::new());
    let sid = match m.submit_query(Protocol::SignedBlockHeader, &query(0, 1)) {
        SubmitOutcome::Sent { session_id, .. } => session_id,
        SubmitOutcome::Rejected(_) => panic!("peer 7 is connected"),
    };
    assert_eq!(
        m.handle_session_event(sid, ClientEvent::FinFrame),
        (Some(ClientDelivery::Fin), false)
    );
    assert_eq!(m.protocol_violation_count(), 0);
    // the session is gone; a late frame counts as a violation, delivers
    // nothing, and asks for a substream reset
    assert_eq!(m.handle_session_event(sid, ClientEvent::Frame(vec![1])), (None, true));
    assert_eq!(m.protocol_violation_count(), 1);
}

#[test]
fn peer_disconnect_fails_open_sessions_without_fin() {
    let mut m = manager();
    m.register_sqmr_client(Protocol::SignedBlockHeader).unwrap();
    m.on_peer_connected(42, Vec::new());
    let sid = match m.submit_query(Protocol::SignedBlockHeader, &query(0, 3)) {
        SubmitOutcome::Sent { session_id, .. } => session_id,
        SubmitOutcome::Rejected(_) => panic!("peer 42 is connected"),
    };
    // one data frame arrives, then the peer goes away
    assert_eq!(
        m.handle_session_event(sid, ClientEvent::Frame(vec![10])),
        (Some(ClientDelivery::Data(vec![10])), false)
    );
    let failed = m.on_peer_disconnected(42);
    assert_eq!(
        failed,
        vec![(sid, ClientDelivery::Failed(SessionFailureReason::PeerDisconnected))]
    );
    assert_eq!(m.open_session_count(), 0);
    // the failure is terminal: nothing more is delivered for that id
    assert_eq!(m.handle_session_event(sid, ClientEvent::FinFrame), (None, true));
}

#[test]
fn session_timeout_fails_the_session() {
    let c = NetworkConfig { session_timeout: 1, ..NetworkConfig::default() };
    let mut m = NetworkManager::new(c).unwrap();
    m.register_sqmr_client(Protocol::SignedBlockHeader).unwrap();
    m.on_peer_connected(42, Vec::new());
    let sid = match m.submit_query(Protocol::SignedBlockHeader, &query(0, 3)) {
        SubmitOutcome::Sent { session_id, .. } => session_id,
        SubmitOutcome::Rejected(_) => panic!("peer 42 is connected"),
    };
    // within the deadline nothing expires
    assert_eq!(m.on_tick(1), Vec::new());
    // two seconds in, the session is past its one-second deadline
    let expired = m.on_tick(2);
    assert_eq!(expired, vec![(sid, ClientDelivery::Failed(SessionFailureReason::Timeout))]);
    assert_eq!(m.open_session_count(), 0);
}

#[test]
fn unknown_protocol_negotiation_is_rejected_and_counted() {
    let mut m = manager();
    assert_eq!(m.on_inbound_negotiation("/starknet/headers/2"), None);
    assert_eq!(m.protocol_violation_count(), 1);
    assert_eq!(m.open_session_count(), 0);
    assert_eq!(m.on_inbound_negotiation("/starknet/headers/1"), Some(Protocol::SignedBlockHeader));
    assert_eq!(m.protocol_violation_count(), 1);
}

#[test]
fn session_ids_are_never_reused() {
    let mut m = manager();
    m.register_sqmr_client(Protocol::SignedBlockHeader).unwrap();
    m.on_peer_connected(1, Vec::new());
    let mut seen = Vec::new();
    for _ in 0..3 {
        let sid = match m.submit_query(Protocol::SignedBlockHeader, &query(0, 1)) {
            SubmitOutcome::Sent { session_id, .. } => session_id,
            SubmitOutcome::Rejected(_) => panic!("peer 1 is connected"),
        };
        assert!(!seen.contains(&sid));
        seen.push(sid);
        // finish the session so the (peer, protocol) slot frees up
        assert_eq!(
            m.handle_session_event(sid, ClientEvent::FinFrame),
            (Some(ClientDelivery::Fin), false)
        );
    }
}

#[test]
fn one_in_flight_query_per_peer_and_protocol() {
    let mut m = manager();
    m.register_sqmr_client(Protocol::SignedBlockHeader).unwrap();
    m.register_sqmr_client(Protocol::StateDiff).unwrap();
    m.on_peer_connected(1, Vec::new());
    let first = m.submit_query(Protocol::SignedBlockHeader, &query(0, 1));
    assert!(matches!(first, SubmitOutcome::Sent { .. }));
    // the only peer is busy with this protocol: the next query queues
    // (surfaced here as NoPeer for the caller to retry)
    let second = m.submit_query(Protocol::SignedBlockHeader, &query(0, 1));
    assert!(matches!(
        second,
        SubmitOutcome::Rejected(ClientDelivery::Failed(SessionFailureReason::NoPeer))
    ));
    // a different protocol still gets through
    let other = m.submit_query(Protocol::StateDiff, &query(0, 1));
    assert!(matches!(other, SubmitOutcome::Sent { .. }));
}

#[test]
fn inbound_stream_opens_a_server_session() {
    let mut m = manager();
    m.register_sqmr_server(Protocol::SignedBlockHeader).unwrap();
    // a known protocol without a registered server is refused quietly
    assert_eq!(m.on_inbound_stream("/starknet/state_diffs/1", 8), None);
    assert_eq!(m.protocol_violation_count(), 0);
    // an unknown protocol is a violation
    assert_eq!(m.on_inbound_stream("/starknet/headers/9", 8), None);
    assert_eq!(m.protocol_violation_count(), 1);
    // a registered one opens a session awaiting the query frame
    let sid = m.on_inbound_stream("/starknet/headers/1", 8).unwrap();
    assert_eq!(
        m.handle_server_session_event(sid, ServerEvent::QueryFrame(vec![5])),
        ServerEffect::DeliverQuery(vec![5])
    );
    assert_eq!(
        m.handle_server_session_event(sid, ServerEvent::EnqueueData(vec![1])),
        ServerEffect::WriteData(vec![1])
    );
    // the sentinel closes the substream and destroys the session
    assert_eq!(m.handle_server_session_event(sid, ServerEvent::EnqueueFin), ServerEffect::WriteFin);
    assert_eq!(
        m.handle_server_session_event(sid, ServerEvent::EnqueueData(vec![2])),
        ServerEffect::Drop
    );
}


#[test]
fn ephemeral_peer_id_is_recorded_once() {
    let mut m = manager();
    assert_eq!(m.get_local_peer_id(), "");
    assert!(m.set_ephemeral_peer_id("12d3koo".to_string()).is_ok());
    assert_eq!(m.get_local_peer_id(), "12d3koo");
    // the identity is fixed for the manager's lifetime
    assert_eq!(
        m.set_ephemeral_peer_id("other".to_string()),
        Err(RegistrationError::AlreadyRegistered)
    );
    assert_eq!(m.get_local_peer_id(), "12d3koo");
}

#[test]
fn seeded_peer_id_cannot_be_overwritten() {
    let c = NetworkConfig { secret_key: Some(vec![1u8; 32]), ..NetworkConfig::default() };
    let mut m = NetworkManager::new(c).unwrap();
    assert_eq!(
        m.set_ephemeral_peer_id("other".to_string()),
        Err(RegistrationError::AlreadyRegistered)
    );
    assert_eq!(m.get_local_peer_id(), "01".repeat(32));
}

#[test]
fn overdue_server_sessions_time_out_too() {
    let c = NetworkConfig { session_timeout: 1, ..NetworkConfig::default() };
    let mut m = NetworkManager::new(c).unwrap();
    m.register_sqmr_server(Protocol::SignedBlockHeader).unwrap();
    let sid = m.on_inbound_stream("/starknet/headers/1", 8).unwrap();
    // alive within its deadline
    assert_eq!(m.on_tick(1), Vec::new());
    assert_eq!(
        m.handle_server_session_event(sid, ServerEvent::QueryFrame(vec![5])),
        ServerEffect::DeliverQuery(vec![5])
    );
    // two seconds in, the session is past its one-second deadline and is
    // destroyed quietly: later caller output is dropped
    let expired = m.on_tick(2);
    assert_eq!(expired, Vec::new());
    assert_eq!(
        m.handle_server_session_event(sid, ServerEvent::EnqueueData(vec![1])),
        ServerEffect::Drop
    );
}
