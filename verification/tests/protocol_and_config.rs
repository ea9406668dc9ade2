use papyrus_network::config::{ConfigError, NetworkConfig};
use papyrus_network::protocol::Protocol;

#[test]
fn wire_names_are_exact() {
    assert_eq!(Protocol::SignedBlockHeader.as_str(), "/starknet/headers/1");
    assert_eq!(Protocol::StateDiff.as_str(), "/starknet/state_diffs/1");
    assert_eq!(Protocol::Transaction.as_str(), "/starknet/transactions/1");
}

#[test]
fn wire_names_round_trip() {
    for p in [Protocol::SignedBlockHeader, Protocol::StateDiff, Protocol::Transaction] {
        let back = Protocol::try_from_wire(p.as_str()).unwrap();
        assert_eq!(back, p);
    }
}

#[test]
fn wire_names_are_pairwise_distinct() {
    assert_ne!(Protocol::SignedBlockHeader.as_str(), Protocol::StateDiff.as_str());
    assert_ne!(Protocol::SignedBlockHeader.as_str(), Protocol::Transaction.as_str());
    assert_ne!(Protocol::StateDiff.as_str(), Protocol::Transaction.as_str());
}

#[test]
fn unknown_wire_name_is_rejected() {
    let err = Protocol::try_from_wire("/starknet/headers/2").unwrap_err();
    assert_eq!(err.unknown_name(), "/starknet/headers/2");
    assert_eq!(err.message(), "Unknown protocol: /starknet/headers/2");
}

#[test]
fn default_config_matches_documented_values() {
    let c = NetworkConfig::default();
    assert_eq!(c.tcp_port, 10000);
    assert_eq!(c.quic_port, 10001);
    assert_eq!(c.session_timeout, 120);
    assert_eq!(c.idle_connection_timeout, 120);
    assert_eq!(c.header_buffer_size, 100000);
    assert!(c.bootstrap_peer_multiaddr.is_none());
    assert!(c.secret_key.is_none());
}

#[test]
fn empty_secret_key_means_generate_random() {
    let c = NetworkConfig { secret_key: Some(Vec::new()), ..NetworkConfig::default() };
    assert!(c.validate().is_ok());
    assert!(c.effective_secret_key().is_none());
}

#[test]
fn absent_secret_key_means_generate_random() {
    let c = NetworkConfig::default();
    assert!(c.validate().is_ok());
    assert!(c.effective_secret_key().is_none());
}

#[test]
fn thirty_two_byte_secret_key_is_used() {
    let c = NetworkConfig { secret_key: Some(vec![1u8; 32]), ..NetworkConfig::default() };
    assert!(c.validate().is_ok());
    assert_eq!(c.effective_secret_key().unwrap(), &vec![1u8; 32]);
}

#[test]
fn wrong_length_secret_key_is_rejected() {
    let c = NetworkConfig { secret_key: Some(vec![1u8; 16]), ..NetworkConfig::default() };
    assert_eq!(c.validate().unwrap_err(), ConfigError::InvalidSecretKeyLength(16));
}
