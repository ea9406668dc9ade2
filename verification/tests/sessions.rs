use papyrus_network::consensus::{ConsensusMessage, Proposal};
use papyrus_network::sqmr::{
    ClientDelivery,
    ClientEvent,
    ClientSession,
    ServerEffect,
    ServerEvent,
    ServerSession,
    SessionFailureReason,
    SessionState,
};

#[test]
fn client_session_delivers_data_then_fin() {
    let mut s = ClientSession::new(0, papyrus_network::protocol::Protocol::SignedBlockHeader, 1, 120);
    assert_eq!(s.state, SessionState::AwaitingResponse);
    let (d, v) = s.on_event(ClientEvent::Frame(vec![1]));
    assert_eq!(d, Some(ClientDelivery::Data(vec![1])));
    assert!(!v);
    assert_eq!(s.state, SessionState::Streaming);
    let (d, v) = s.on_event(ClientEvent::FinFrame);
    assert_eq!(d, Some(ClientDelivery::Fin));
    assert!(!v);
    assert_eq!(s.state, SessionState::Finished);
    // a frame after the sentinel delivers nothing and flags a violation
    let (d, v) = s.on_event(ClientEvent::Frame(vec![2]));
    assert_eq!(d, None);
    assert!(v);
    assert_eq!(s.state, SessionState::Finished);
}

#[test]
fn client_session_failure_is_terminal() {
    let mut s = ClientSession::new(9, papyrus_network::protocol::Protocol::StateDiff, 1, 120);
    let (d, _) = s.on_event(ClientEvent::Error(SessionFailureReason::Timeout));
    assert_eq!(d, Some(ClientDelivery::Failed(SessionFailureReason::Timeout)));
    assert_eq!(s.state, SessionState::Failed);
    // nothing more comes out, not even a sentinel
    let (d, v) = s.on_event(ClientEvent::FinFrame);
    assert_eq!(d, None);
    assert!(!v);
}

#[test]
fn server_session_streams_until_fin() {
    let mut s = ServerSession::new(3, papyrus_network::protocol::Protocol::Transaction, 2, 120);
    assert_eq!(
        s.on_event(ServerEvent::QueryFrame(vec![7])),
        ServerEffect::DeliverQuery(vec![7])
    );
    assert_eq!(s.state, SessionState::Streaming);
    assert_eq!(
        s.on_event(ServerEvent::EnqueueData(vec![1])),
        ServerEffect::WriteData(vec![1])
    );
    assert_eq!(s.on_event(ServerEvent::EnqueueFin), ServerEffect::WriteFin);
    assert_eq!(s.state, SessionState::Finished);
    // output enqueued after the sentinel is a caller error: dropped
    assert_eq!(s.on_event(ServerEvent::EnqueueData(vec![2])), ServerEffect::Drop);
}

#[test]
fn server_session_drops_output_after_an_error() {
    let mut s = ServerSession::new(4, papyrus_network::protocol::Protocol::Transaction, 2, 120);
    assert_eq!(
        s.on_event(ServerEvent::QueryFrame(vec![7])),
        ServerEffect::DeliverQuery(vec![7])
    );
    assert_eq!(
        s.on_event(ServerEvent::Error(SessionFailureReason::PeerDisconnected)),
        ServerEffect::Drop
    );
    assert_eq!(s.state, SessionState::Failed);
    assert_eq!(s.on_event(ServerEvent::EnqueueData(vec![1])), ServerEffect::Drop);
}

#[test]
fn consensus_proposal_reports_its_height() {
    let p = Proposal {
        height: 17,
        proposer: vec![0u8; 32],
        transactions: vec![vec![1, 2], vec![3]],
        block_hash: vec![9u8; 32],
    };
    let m = ConsensusMessage::Proposal(p);
    assert_eq!(m.height(), 17);
}

#[test]
fn decode_failure_surfaces_as_protocol_violation() {
    let mut s = ClientSession::new(2, papyrus_network::protocol::Protocol::SignedBlockHeader, 1, 120);
    let (d, _) = s.on_event(ClientEvent::Error(SessionFailureReason::ProtocolViolation));
    assert_eq!(d, Some(ClientDelivery::Failed(SessionFailureReason::ProtocolViolation)));
    assert_eq!(s.state, SessionState::Failed);
}
