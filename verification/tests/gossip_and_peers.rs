use papyrus_network::config::NetworkConfig;
use papyrus_network::gossip::TopicQueue;
use papyrus_network::manager::{NetworkManager, RegistrationError};
use papyrus_network::peers::PeerManager;
use papyrus_network::protocol::Protocol;

#[test]
fn topic_queue_is_fifo() {
    let mut q = TopicQueue::new(10);
    q.push(vec![1]);
    q.push(vec![2]);
    q.push(vec![3]);
    assert_eq!(q.pop(), Some(vec![1]));
    assert_eq!(q.pop(), Some(vec![2]));
    assert_eq!(q.pop(), Some(vec![3]));
    assert_eq!(q.pop(), None);
}

#[test]
fn full_topic_queue_drops_the_oldest() {
    let mut q = TopicQueue::new(2);
    q.push(vec![1]);
    q.push(vec![2]);
    q.push(vec![3]);
    assert_eq!(q.len(), 2);
    assert_eq!(q.pop(), Some(vec![2]));
    assert_eq!(q.pop(), Some(vec![3]));
}

#[test]
fn zero_capacity_queue_drops_everything() {
    let mut q = TopicQueue::new(0);
    q.push(vec![1]);
    assert_eq!(q.len(), 0);
    assert_eq!(q.pop(), None);
}

#[test]
fn gossip_publish_has_no_loopback() {
    let mut a = NetworkManager::new(NetworkConfig::default()).unwrap();
    let mut b = NetworkManager::new(NetworkConfig::default()).unwrap();
    let topic = "consensus".to_string();
    a.register_broadcast(topic.clone(), 10).unwrap();
    b.register_broadcast(topic.clone(), 10).unwrap();

    // A publishes: the payload goes out to the transport unchanged, and
    // A's own subscriber receives nothing
    let payload = vec![0xde, 0xad, 0xbe, 0xef];
    let on_wire = a.publish(&topic, payload.clone());
    assert_eq!(on_wire, payload);
    assert_eq!(a.take_gossip_message(&topic), None);

    // B receives it from the transport: exactly one message
    b.on_gossip_message(&topic, on_wire);
    assert_eq!(b.take_gossip_message(&topic), Some(payload));
    assert_eq!(b.take_gossip_message(&topic), None);
}

#[test]
fn gossip_message_for_an_unknown_topic_is_dropped() {
    let mut m = NetworkManager::new(NetworkConfig::default()).unwrap();
    m.register_broadcast("consensus".to_string(), 10).unwrap();
    m.on_gossip_message(&"blocks".to_string(), vec![1, 2, 3]);
    assert_eq!(m.take_gossip_message(&"consensus".to_string()), None);
    assert_eq!(m.take_gossip_message(&"blocks".to_string()), None);
}

#[test]
fn re_subscribing_a_topic_fails() {
    let mut m = NetworkManager::new(NetworkConfig::default()).unwrap();
    m.register_broadcast("consensus".to_string(), 10).unwrap();
    assert_eq!(
        m.register_broadcast("consensus".to_string(), 10),
        Err(RegistrationError::AlreadyRegistered)
    );
}

#[test]
fn assign_peer_needs_a_connected_peer() {
    let mut pm = PeerManager::new();
    assert_eq!(pm.assign_peer(Protocol::SignedBlockHeader), None);
    pm.dial(5);
    // dialing is not connected yet
    assert_eq!(pm.assign_peer(Protocol::SignedBlockHeader), None);
    pm.on_dial_result(5, None);
    assert_eq!(pm.assign_peer(Protocol::SignedBlockHeader), Some(5));
}

#[test]
fn assign_peer_rotates_over_eligible_peers() {
    let mut pm = PeerManager::new();
    pm.observe(1, Vec::new());
    pm.observe(2, Vec::new());
    let first = pm.assign_peer(Protocol::SignedBlockHeader).unwrap();
    let second = pm.assign_peer(Protocol::SignedBlockHeader).unwrap();
    assert_ne!(first, second);
    // both peers now hold an in-flight query for this protocol
    assert_eq!(pm.assign_peer(Protocol::SignedBlockHeader), None);
    // another protocol is unaffected
    assert!(pm.assign_peer(Protocol::StateDiff).is_some());
    // releasing one slot frees exactly that pair
    pm.release(first, Protocol::SignedBlockHeader);
    assert_eq!(pm.assign_peer(Protocol::SignedBlockHeader), Some(first));
}

#[test]
fn failed_dial_records_the_error() {
    let mut pm = PeerManager::new();
    pm.dial(9);
    pm.on_dial_result(9, Some("connection refused".to_string()));
    assert_eq!(pm.assign_peer(Protocol::SignedBlockHeader), None);
    // a later successful observation makes the peer eligible again
    pm.observe(9, Vec::new());
    assert_eq!(pm.assign_peer(Protocol::SignedBlockHeader), Some(9));
}

#[test]
fn disconnect_clears_in_flight_marks() {
    let mut pm = PeerManager::new();
    pm.observe(3, Vec::new());
    assert_eq!(pm.assign_peer(Protocol::SignedBlockHeader), Some(3));
    pm.on_disconnect(3);
    assert_eq!(pm.assign_peer(Protocol::SignedBlockHeader), None);
    pm.observe(3, Vec::new());
    assert_eq!(pm.assign_peer(Protocol::SignedBlockHeader), Some(3));
}


#[test]
fn gossip_delivery_is_in_receipt_order_through_the_manager() {
    let mut m = NetworkManager::new(NetworkConfig::default()).unwrap();
    let topic = "consensus".to_string();
    m.register_broadcast(topic.clone(), 10).unwrap();
    m.on_gossip_message(&topic, vec![1]);
    m.on_gossip_message(&topic, vec![2]);
    m.on_gossip_message(&topic, vec![3]);
    assert_eq!(m.take_gossip_message(&topic), Some(vec![1]));
    assert_eq!(m.take_gossip_message(&topic), Some(vec![2]));
    assert_eq!(m.take_gossip_message(&topic), Some(vec![3]));
    assert_eq!(m.take_gossip_message(&topic), None);
}

#[test]
fn observe_keeps_in_flight_marks() {
    let mut pm = PeerManager::new();
    pm.observe(1, Vec::new());
    assert_eq!(pm.assign_peer(Protocol::SignedBlockHeader), Some(1));
    // a fresh sighting of the same peer must not clear its busy mark
    pm.observe(1, vec!["/ip4/10.0.0.1/tcp/1".to_string()]);
    assert_eq!(pm.assign_peer(Protocol::SignedBlockHeader), None);
}
