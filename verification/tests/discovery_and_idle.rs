use papyrus_network::config::NetworkConfig;
use papyrus_network::discovery::Discovery;
use papyrus_network::manager::{NetworkManager, SubmitOutcome};
use papyrus_network::protocol::Protocol;
use papyrus_network::sqmr::{ClientEvent, ServerEvent};
use papyrus_network::wire::{Direction, Query};

#[test]
fn discovery_dials_the_bootstrap_peer_at_startup() {
    let mut d = Discovery::new(Some("/ip4/127.0.0.1/tcp/20000/p2p/pa".to_string()));
    assert_eq!(d.dial_due(0), Some("/ip4/127.0.0.1/tcp/20000/p2p/pa".to_string()));
    // the dial was consumed
    assert_eq!(d.dial_due(0), None);
}

#[test]
fn discovery_without_bootstrap_never_dials() {
    let mut d = Discovery::new(None);
    assert_eq!(d.dial_due(0), None);
    d.on_bootstrap_disconnected(5);
    assert_eq!(d.dial_due(1000), None);
}

#[test]
fn discovery_backoff_doubles_and_caps() {
    let addr = "/ip4/127.0.0.1/tcp/20000/p2p/pa".to_string();
    let mut d = Discovery::new(Some(addr.clone()));
    assert_eq!(d.dial_due(0), Some(addr.clone()));
    d.on_bootstrap_connected();

    // first disconnect at t=10: re-dial one second later
    d.on_bootstrap_disconnected(10);
    assert_eq!(d.dial_due(10), None);
    assert_eq!(d.dial_due(11), Some(addr.clone()));

    // the delays double: 2s, 4s, ... capped at 60s
    d.on_bootstrap_disconnected(20);
    assert_eq!(d.dial_due(21), None);
    assert_eq!(d.dial_due(22), Some(addr.clone()));
    for t in [30u64, 40, 50, 60, 70, 80] {
        d.on_bootstrap_disconnected(t);
        let _ = d.dial_due(t + 60);
    }
    // long past the cap, one more failure still waits at most 60 seconds
    d.on_bootstrap_disconnected(1000);
    assert_eq!(d.dial_due(1059), None);
    assert_eq!(d.dial_due(1060), Some(addr.clone()));
    // a successful connection resets the backoff to one second
    d.on_bootstrap_connected();
    d.on_bootstrap_disconnected(2000);
    assert_eq!(d.dial_due(2001), Some(addr));
}

#[test]
fn idle_peers_are_those_without_sessions() {
    let mut m = NetworkManager::new(NetworkConfig::default()).unwrap();
    m.register_sqmr_client(Protocol::SignedBlockHeader).unwrap();
    m.on_peer_connected(1, Vec::new());
    m.on_peer_connected(2, Vec::new());
    assert_eq!(m.idle_peers(), vec![1, 2]);

    let q = Query {
        start_block: 0,
        start_block_hash: None,
        limit: 1,
        direction: Direction::Forward,
        step: 1,
    };
    let sid = match m.submit_query(Protocol::SignedBlockHeader, &q) {
        SubmitOutcome::Sent { session_id, peer } => {
            assert_eq!(peer, 1);
            session_id
        }
        SubmitOutcome::Rejected(_) => panic!("peer 1 is connected"),
    };
    // peer 1 is busy, peer 2 is idle
    assert_eq!(m.idle_peers(), vec![2]);
    // once the session finishes, peer 1 is idle again
    m.handle_session_event(sid, ClientEvent::FinFrame);
    assert_eq!(m.idle_peers(), vec![1, 2]);
}


#[test]
fn peers_serving_inbound_queries_are_not_idle() {
    let mut m = NetworkManager::new(NetworkConfig::default()).unwrap();
    m.register_sqmr_server(Protocol::SignedBlockHeader).unwrap();
    m.on_peer_connected(5, Vec::new());
    assert_eq!(m.idle_peers(), vec![5]);
    // an inbound query opens a server session referencing peer 5
    let sid = m.on_inbound_stream("/starknet/headers/1", 5).unwrap();
    assert_eq!(m.idle_peers(), Vec::<u64>::new());
    // once the stream finishes, the peer is idle again
    m.handle_server_session_event(sid, ServerEvent::QueryFrame(vec![1]));
    m.handle_server_session_event(sid, ServerEvent::EnqueueFin);
    assert_eq!(m.idle_peers(), vec![5]);
}
