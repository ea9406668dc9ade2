//! The network manager: owner of the registration table, the session
//! tables, the peer manager and the gossip subscriptions. Every decision
//! of the event loop is a method here; the unverified runner only moves
//! bytes between the transport and these methods.

use vstd::prelude::*;
use crate::config::{ConfigError, NetworkConfig};
use crate::gossip::TopicQueue;
use crate::peers::{index_of_peer, ConnectionState, PeerManager, PeerRecord};
use crate::protocol::Protocol;
use crate::sqmr::{
    client_step,
    server_step,
    ClientDelivery,
    ClientEvent,
    ClientSession,
    ServerEffect,
    ServerEvent,
    ServerSession,
    SessionFailureReason,
    SessionState,
};
use crate::wire::Query;

verus! {

/// Registering the same (protocol, role) pair or the same topic twice,
/// or reporting a local identity when one is already set, is refused
/// without mutating any state.
#[derive(Debug, Clone, Copy, PartialEq, Eq, Structural)]
pub enum RegistrationError {
    AlreadyRegistered,
}

/// The outcome of submitting one outbound query.
pub enum SubmitOutcome {
    /// A session was opened: the query travels to `peer` under
    /// `session_id`.
    Sent { session_id: u64, peer: u64 },
    /// No session was opened; the item to deliver on the client channel
    /// instead (a terminal failure).
    Rejected(ClientDelivery),
}

/// One gossip subscription: the topic name and its bounded delivery
/// queue.
pub struct Subscription {
    pub topic: String,
    pub queue: TopicQueue,
}

/// The hexadecimal digit of a nibble.
pub open spec fn hex_digit(n: u8) -> char {
    if n == 0 {
        '0'
    } else if n == 1 {
        '1'
    } else if n == 2 {
        '2'
    } else if n == 3 {
        '3'
    } else if n == 4 {
        '4'
    } else if n == 5 {
        '5'
    } else if n == 6 {
        '6'
    } else if n == 7 {
        '7'
    } else if n == 8 {
        '8'
    } else if n == 9 {
        '9'
    } else if n == 10 {
        'a'
    } else if n == 11 {
        'b'
    } else if n == 12 {
        'c'
    } else if n == 13 {
        'd'
    } else if n == 14 {
        'e'
    } else {
        'f'
    }
}

/// The lowercase hexadecimal form of a byte sequence, two digits per
/// byte.
pub open spec fn hex_of(s: Seq<u8>) -> Seq<char>
    decreases s.len(),
{
    if s.len() == 0 {
        Seq::empty()
    } else {
        hex_of(s.drop_last()) + seq![
            hex_digit(s.last() / 16),
            hex_digit(s.last() % 16),
        ]
    }
}

/// Encodes bytes as lowercase hexadecimal text.
fn to_hex(bytes: &Vec<u8>) -> (out: String)
    ensures
        out@ == hex_of(bytes@),
{
    let mut out = String::new();
    let n = bytes.len();
    let mut i: usize = 0;
    while i < n
        invariant
            i <= n,
            n == bytes@.len(),
            out@ =~= hex_of(bytes@.subrange(0, i as int)),
        decreases n - i,
    {
        let b = bytes[i];
        out.append(hex_str(b / 16));
        out.append(hex_str(b % 16));
        i = i + 1;
        proof {
            assert(bytes@.subrange(0, i as int).drop_last() =~= bytes@.subrange(0, i as int - 1));
            assert(bytes@.subrange(0, i as int).last() == bytes@[i as int - 1]);
        }
    }
    proof {
        assert(bytes@.subrange(0, n as int) =~= bytes@);
    }
    out
}

/// One hexadecimal digit, as text.
fn hex_str(n: u8) -> (s: &'static str)
    requires
        n < 16,
    ensures
        s@ == seq![hex_digit(n)],
{
    proof {
        reveal_strlit("0");
        reveal_strlit("1");
        reveal_strlit("2");
        reveal_strlit("3");
        reveal_strlit("4");
        reveal_strlit("5");
        reveal_strlit("6");
        reveal_strlit("7");
        reveal_strlit("8");
        reveal_strlit("9");
        reveal_strlit("a");
        reveal_strlit("b");
        reveal_strlit("c");
        reveal_strlit("d");
        reveal_strlit("e");
        reveal_strlit("f");
    }
    match n {
        0 => "0",
        1 => "1",
        2 => "2",
        3 => "3",
        4 => "4",
        5 => "5",
        6 => "6",
        7 => "7",
        8 => "8",
        9 => "9",
        10 => "a",
        11 => "b",
        12 => "c",
        13 => "d",
        14 => "e",
        _ => "f",
    }
}

/// The network manager's state. Sessions in a terminal state are removed
/// at once, so the tables hold live sessions only.
pub struct NetworkManager {
    config: NetworkConfig,
    local_peer_id: String,
    registered_clients: Vec<Protocol>,
    registered_servers: Vec<Protocol>,
    subscriptions: Vec<Subscription>,
    peers: PeerManager,
    client_sessions: Vec<ClientSession>,
    server_sessions: Vec<ServerSession>,
    next_session_id: u64,
    now: u64,
    protocol_violations: u64,
}

impl NetworkManager {
    /// Session ids are unique, never reused (all below the allocation
    /// counter), sessions are live, and the registration lists hold each
    /// entry once.
    pub closed spec fn wf(self) -> bool {
        &&& self.peers.wf()
        &&& (forall|i: int, j: int|
            0 <= i < j < self.client_sessions@.len() ==> self.client_sessions@[i].id
                != self.client_sessions@[j].id)
        &&& (forall|i: int|
            0 <= i < self.client_sessions@.len() ==> (#[trigger] self.client_sessions@[i].id)
                < self.next_session_id)
        &&& (forall|i: int|
            0 <= i < self.client_sessions@.len() ==> !(
            #[trigger] self.client_sessions@[i].state).is_terminal())
        &&& (forall|i: int, j: int|
            0 <= i < j < self.server_sessions@.len() ==> self.server_sessions@[i].id
                != self.server_sessions@[j].id)
        &&& (forall|i: int|
            0 <= i < self.server_sessions@.len() ==> (#[trigger] self.server_sessions@[i].id)
                < self.next_session_id)
        &&& (forall|i: int|
            0 <= i < self.server_sessions@.len() ==> !(
            #[trigger] self.server_sessions@[i].state).is_terminal())
        &&& (forall|i: int, j: int|
            0 <= i < j < self.registered_clients@.len() ==> self.registered_clients@[i]
                != self.registered_clients@[j])
        &&& (forall|i: int, j: int|
            0 <= i < j < self.registered_servers@.len() ==> self.registered_servers@[i]
                != self.registered_servers@[j])
        &&& (forall|i: int|
            0 <= i < self.subscriptions@.len() ==> (#[trigger] self.subscriptions@[i]).queue.wf())
        &&& (forall|i: int, j: int|
            0 <= i < j < self.subscriptions@.len() ==> self.subscriptions@[i].topic@
                != self.subscriptions@[j].topic@)
    }

    pub closed spec fn spec_config(self) -> NetworkConfig {
        self.config
    }

    /// The protocols registered as client, in registration order.
    pub closed spec fn clients(self) -> Seq<Protocol> {
        self.registered_clients@
    }

    /// The protocols registered as server, in registration order.
    pub closed spec fn servers(self) -> Seq<Protocol> {
        self.registered_servers@
    }

    /// The live client sessions.
    pub closed spec fn sessions(self) -> Seq<ClientSession> {
        self.client_sessions@
    }

    /// The live server sessions.
    pub closed spec fn server_session_table(self) -> Seq<ServerSession> {
        self.server_sessions@
    }

    /// The next session id to allocate; every id already handed out is
    /// below it.
    pub closed spec fn next_id(self) -> u64 {
        self.next_session_id
    }

    /// The gossip subscriptions.
    pub closed spec fn subs(self) -> Seq<Subscription> {
        self.subscriptions@
    }

    /// The manager's logical clock.
    pub closed spec fn clock(self) -> u64 {
        self.now
    }

    /// How many protocol violations (unknown protocol negotiated, frame
    /// after the sentinel) were observed.
    pub closed spec fn violations(self) -> u64 {
        self.protocol_violations
    }

    pub closed spec fn spec_peers(self) -> PeerManager {
        self.peers
    }

    /// Builds a manager from a validated configuration: an invalid
    /// configuration (a secret key that is neither absent, empty nor 32
    /// bytes) is fatal at construction. The local peer id is the
    /// hexadecimal form of the configured seed, so it is stable and, for
    /// a fixed seed, deterministic; with no seed it is empty until the
    /// transport reports the ephemeral identity.
    pub fn new(config: NetworkConfig) -> (r: Result<NetworkManager, ConfigError>)
        ensures
            r is Ok <==> config.is_valid(),
            r is Ok ==> ({
                let m = r->Ok_0;
                &&& m.wf()
                &&& m.spec_config() == config
                &&& m.clients() == Seq::<Protocol>::empty()
                &&& m.servers() == Seq::<Protocol>::empty()
                &&& m.sessions() == Seq::<ClientSession>::empty()
                &&& m.server_session_table() == Seq::<ServerSession>::empty()
                &&& m.subs() == Seq::<Subscription>::empty()
                &&& m.violations() == 0
                &&& (match config.effective_seed() {
                    Some(seed) => m.peer_id_text() == hex_of(seed),
                    None => m.peer_id_text() == Seq::<char>::empty(),
                })
            }),
    {
        match config.validate() {
            Err(e) => Err(e),
            Ok(()) => {
                let local_peer_id: String = match config.effective_secret_key() {
                    Some(seed) => to_hex(seed),
                    None => String::new(),
                };
                Ok(
                    NetworkManager {
                        config,
                        local_peer_id,
                        registered_clients: Vec::new(),
                        registered_servers: Vec::new(),
                        subscriptions: Vec::new(),
                        peers: PeerManager::new(),
                        client_sessions: Vec::new(),
                        server_sessions: Vec::new(),
                        next_session_id: 0,
                        now: 0,
                        protocol_violations: 0,
                    },
                )
            },
        }
    }

    /// The textual local peer id, stable for the manager's lifetime.
    pub closed spec fn peer_id_text(self) -> Seq<char> {
        self.local_peer_id@
    }

    /// Returns the textual form of the local peer id.
    pub fn get_local_peer_id(&self) -> (s: String)
        ensures
            s@ == self.peer_id_text(),
    {
        self.local_peer_id.clone()
    }

    /// Registers a protocol as client: refused, with no state change,
    /// when it is already registered as client.
    pub fn register_sqmr_client(&mut self, p: Protocol) -> (r: Result<(), RegistrationError>)
        requires
            old(self).wf(),
        ensures
            final(self).wf(),
            final(self).peer_id_text() == old(self).peer_id_text(),
            r is Ok <==> !old(self).clients().contains(p),
            r is Ok ==> final(self).clients() == old(self).clients().push(p),
            r is Err ==> *final(self) == *old(self),
            final(self).servers() == old(self).servers(),
            final(self).sessions() == old(self).sessions(),
            final(self).next_id() == old(self).next_id(),
    {
        if Self::proto_list_contains(&self.registered_clients, p) {
            Err(RegistrationError::AlreadyRegistered)
        } else {
            self.registered_clients.push(p);
            Ok(())
        }
    }

    /// Registers a protocol as server: refused, with no state change,
    /// when it is already registered as server.
    pub fn register_sqmr_server(&mut self, p: Protocol) -> (r: Result<(), RegistrationError>)
        requires
            old(self).wf(),
        ensures
            final(self).wf(),
            final(self).peer_id_text() == old(self).peer_id_text(),
            r is Ok <==> !old(self).servers().contains(p),
            r is Ok ==> final(self).servers() == old(self).servers().push(p),
            r is Err ==> *final(self) == *old(self),
            final(self).clients() == old(self).clients(),
            final(self).sessions() == old(self).sessions(),
            final(self).next_id() == old(self).next_id(),
    {
        if Self::proto_list_contains(&self.registered_servers, p) {
            Err(RegistrationError::AlreadyRegistered)
        } else {
            self.registered_servers.push(p);
            Ok(())
        }
    }

    /// Whether `p` occurs in the list.
    fn proto_list_contains(list: &Vec<Protocol>, p: Protocol) -> (r: bool)
        ensures
            r == list@.contains(p),
    {
        let n = list.len();
        let mut i: usize = 0;
        while i < n
            invariant
                i <= n,
                n == list@.len(),
                forall|j: int| 0 <= j < i ==> list@[j] != p,
            decreases n - i,
        {
            if list[i] == p {
                return true;
            }
            i = i + 1;
        }
        false
    }

    /// Subscribes to a gossip topic with a bounded delivery queue:
    /// refused, with no state change, when the topic is already
    /// subscribed.
    pub fn register_broadcast(&mut self, topic: String, capacity: usize) -> (r: Result<
        (),
        RegistrationError,
    >)
        requires
            old(self).wf(),
        ensures
            final(self).wf(),
            final(self).peer_id_text() == old(self).peer_id_text(),
            r is Ok <==> !(exists|i: int|
                0 <= i < old(self).subs().len() && old(self).subs()[i].topic@ == topic@),
            r is Ok ==> ({
                &&& final(self).subs().len() == old(self).subs().len() + 1
                &&& final(self).subs().last().topic@ == topic@
                &&& final(self).subs().last().queue.wf()
                &&& final(self).subs().last().queue.spec_capacity() == capacity
                &&& final(self).subs().last().queue.messages() == Seq::<Vec<u8>>::empty()
                &&& (forall|i: int|
                    0 <= i < old(self).subs().len() ==> final(self).subs()[i] == old(self).subs()[i])
            }),
            r is Err ==> *final(self) == *old(self),
            final(self).clients() == old(self).clients(),
            final(self).sessions() == old(self).sessions(),
    {
        let n = self.subscriptions.len();
        let mut i: usize = 0;
        while i < n
            invariant
                i <= n,
                n == self.subscriptions@.len(),
                self.wf(),
                *self == *old(self),
                forall|j: int| 0 <= j < i ==> self.subscriptions@[j].topic@ != topic@,
            decreases n - i,
        {
            if self.subscriptions[i].topic == topic {
                proof {
                    assert(old(self).subs()[i as int].topic@ == topic@);
                }
                return Err(RegistrationError::AlreadyRegistered);
            }
            i = i + 1;
        }
        self.subscriptions.push(Subscription { topic, queue: TopicQueue::new(capacity) });
        Ok(())
    }

    /// Publishes a message on a topic. Delivery to remote peers is the
    /// transport's best effort; the local subscriber of the same topic
    /// never receives its own message (no loopback), so no queue moves.
    pub fn publish(&self, topic: &String, message: Vec<u8>) -> (out: Vec<u8>)
        ensures
            out == message,
    {
        message
    }

    /// Accepts one gossip message received from a remote peer: it goes
    /// to the back of the matching subscription's queue (drop-oldest when
    /// full); a message for an unknown topic is dropped.
    pub fn on_gossip_message(&mut self, topic: &String, message: Vec<u8>)
        requires
            old(self).wf(),
        ensures
            final(self).wf(),
            final(self).subs().len() == old(self).subs().len(),
            final(self).peer_id_text() == old(self).peer_id_text(),
            final(self).server_session_table() == old(self).server_session_table(),
            forall|i: int|
                0 <= i < old(self).subs().len() && old(self).subs()[i].topic@ != topic@ ==> final(self).subs()[i] == old(self).subs()[i],
            forall|i: int|
                0 <= i < old(self).subs().len() && old(self).subs()[i].topic@ == topic@ ==> ({
                    &&& final(self).subs()[i].topic == old(self).subs()[i].topic
                    &&& final(self).subs()[i].queue.messages() == crate::gossip::push_model(
                        old(self).subs()[i].queue.spec_capacity() as int,
                        old(self).subs()[i].queue.messages(),
                        message,
                    )
                }),
            final(self).clients() == old(self).clients(),
            final(self).sessions() == old(self).sessions(),
    {
        let n = self.subscriptions.len();
        let mut i: usize = 0;
        while i < n
            invariant
                self.wf(),
                n == self.subscriptions@.len(),
                i <= n,
                *self == *old(self),
                forall|j: int| 0 <= j < i ==> self.subscriptions@[j].topic@ != topic@,
            decreases n - i,
        {
            if self.subscriptions[i].topic == *topic {
                let ghost subs0 = self.subscriptions@;
                let mut sub = self.subscriptions.remove(i);
                sub.queue.push(message);
                self.subscriptions.insert(i, sub);
                proof {
                    assert(self.subscriptions@ =~= subs0.update(
                        i as int,
                        self.subscriptions@[i as int],
                    ));
                    assert forall|j: int|
                        0 <= j < subs0.len() && subs0[j].topic@ == topic@ implies j == i by {
                    }
                }
                return ;
            }
            i = i + 1;
        }
    }

    /// Records a peer connection: the peer becomes eligible for query
    /// assignment. Returns true when the peer transitioned into
    /// `Connected`, in which case the caller flushes any queued queries
    /// for it.
    pub fn on_peer_connected(&mut self, peer: u64, addrs: Vec<String>) -> (newly: bool)
        requires
            old(self).wf(),
        ensures
            final(self).wf(),
            final(self).clients() == old(self).clients(),
            final(self).servers() == old(self).servers(),
            final(self).sessions() == old(self).sessions(),
            final(self).server_session_table() == old(self).server_session_table(),
            final(self).subs() == old(self).subs(),
            final(self).next_id() == old(self).next_id(),
            final(self).clock() == old(self).clock(),
            final(self).violations() == old(self).violations(),
            final(self).peer_id_text() == old(self).peer_id_text(),
            index_of_peer(final(self).spec_peers().records(), peer) is Some,
            ({
                let i = index_of_peer(final(self).spec_peers().records(), peer)->Some_0;
                final(self).spec_peers().records()[i].state is Connected
            }),
            newly <==> (match index_of_peer(old(self).spec_peers().records(), peer) {
                Some(i) => !(old(self).spec_peers().records()[i].state is Connected),
                None => true,
            }),
            match index_of_peer(old(self).spec_peers().records(), peer) {
                Some(i) => final(self).spec_peers().records() == old(
                    self,
                ).spec_peers().records().update(
                    i,
                    (PeerRecord {
                        peer_id: peer,
                        state: ConnectionState::Connected,
                        addrs: addrs,
                        last_error: old(self).spec_peers().records()[i].last_error,
                        inflight: old(self).spec_peers().records()[i].inflight,
                    }),
                ),
                None => {
                    &&& final(self).spec_peers().records().len() == old(
                        self,
                    ).spec_peers().records().len() + 1
                    &&& final(self).spec_peers().records().drop_last() == old(
                        self,
                    ).spec_peers().records()
                    &&& final(self).spec_peers().records().last().peer_id == peer
                    &&& final(self).spec_peers().records().last().state is Connected
                    &&& final(self).spec_peers().records().last().addrs == addrs
                    &&& final(self).spec_peers().records().last().last_error is None
                    &&& final(self).spec_peers().records().last().inflight@
                        == Seq::<Protocol>::empty()
                },
            },
    {
        self.peers.observe(peer, addrs)
    }

    /// Records the ephemeral local peer id that the transport generated,
    /// for the case where no seed was configured: accepted once, while
    /// the identity is still unset; afterwards the id is stable for the
    /// manager's lifetime and a second report is refused without any
    /// state change.
    pub fn set_ephemeral_peer_id(&mut self, id: String) -> (r: Result<(), RegistrationError>)
        requires
            old(self).wf(),
        ensures
            final(self).wf(),
            r is Ok <==> old(self).peer_id_text() == Seq::<char>::empty(),
            r is Ok ==> final(self).peer_id_text() == id@,
            r is Err ==> *final(self) == *old(self),
            final(self).clients() == old(self).clients(),
            final(self).servers() == old(self).servers(),
            final(self).sessions() == old(self).sessions(),
            final(self).server_session_table() == old(self).server_session_table(),
            final(self).subs() == old(self).subs(),
            final(self).next_id() == old(self).next_id(),
            final(self).clock() == old(self).clock(),
            final(self).violations() == old(self).violations(),
            final(self).spec_peers() == old(self).spec_peers(),
            final(self).spec_config() == old(self).spec_config(),
    {
        proof {
            if self.local_peer_id@.len() == 0 {
                assert(self.local_peer_id@ =~= Seq::<char>::empty());
            }
        }
        if self.local_peer_id.as_str().is_empty() {
            self.local_peer_id = id;
            Ok(())
        } else {
            Err(RegistrationError::AlreadyRegistered)
        }
    }

    /// How many protocol violations have been observed.
    pub fn protocol_violation_count(&self) -> (n: u64)
        ensures
            n == self.violations(),
    {
        self.protocol_violations
    }

    /// How many client sessions are open.
    pub fn open_session_count(&self) -> (n: usize)
        ensures
            n == self.sessions().len(),
    {
        self.client_sessions.len()
    }

    /// Reads the delivery queue of a subscribed topic: the oldest waiting
    /// message leaves the queue and is returned; `None` means no
    /// subscription for this topic holds a waiting message, and nothing
    /// changes.
    pub fn take_gossip_message(&mut self, topic: &String) -> (r: Option<Vec<u8>>)
        requires
            old(self).wf(),
        ensures
            final(self).wf(),
            final(self).clients() == old(self).clients(),
            final(self).servers() == old(self).servers(),
            final(self).sessions() == old(self).sessions(),
            final(self).server_session_table() == old(self).server_session_table(),
            final(self).next_id() == old(self).next_id(),
            final(self).clock() == old(self).clock(),
            final(self).violations() == old(self).violations(),
            final(self).peer_id_text() == old(self).peer_id_text(),
            match topic_index(old(self).subs(), topic@) {
                None => r is None && *final(self) == *old(self),
                Some(i) => match r {
                    None => *final(self) == *old(self) && old(self).subs()[i].queue.messages().len()
                        == 0,
                    Some(m) => {
                        &&& old(self).subs()[i].queue.messages().len() > 0
                        &&& m == old(self).subs()[i].queue.messages()[0]
                        &&& final(self).subs().len() == old(self).subs().len()
                        &&& final(self).subs()[i].topic == old(self).subs()[i].topic
                        &&& final(self).subs()[i].queue.messages() == old(
                            self,
                        ).subs()[i].queue.messages().skip(1)
                        &&& final(self).subs()[i].queue.spec_capacity() == old(
                            self,
                        ).subs()[i].queue.spec_capacity()
                        &&& final(self).subs()[i].queue.spec_dropped() == old(
                            self,
                        ).subs()[i].queue.spec_dropped()
                        &&& (forall|j: int|
                            0 <= j < old(self).subs().len() && j != i ==> final(self).subs()[j]
                                == old(self).subs()[j])
                    },
                },
            },
    {
        let n = self.subscriptions.len();
        let mut i: usize = 0;
        while i < n
            invariant
                self.wf(),
                n == self.subscriptions@.len(),
                i <= n,
                *self == *old(self),
                forall|j: int| 0 <= j < i ==> self.subscriptions@[j].topic@ != topic@,
            decreases n - i,
        {
            if self.subscriptions[i].topic == *topic {
                proof {
                    let w = topic_index(self.subscriptions@, topic@)->Some_0;
                    assert(self.subscriptions@[w].topic@ == topic@);
                    assert(w == i);
                }
                if self.subscriptions[i].queue.len() == 0 {
                    return None;
                }
                let ghost subs0 = self.subscriptions@;
                let mut sub = self.subscriptions.remove(i);
                let r = sub.queue.pop();
                self.subscriptions.insert(i, sub);
                proof {
                    assert(self.subscriptions@ =~= subs0.update(
                        i as int,
                        self.subscriptions@[i as int],
                    ));
                }
                return r;
            }
            i = i + 1;
        }
        proof {
            if topic_index(self.subscriptions@, topic@) is Some {
                let w = topic_index(self.subscriptions@, topic@)->Some_0;
                assert(self.subscriptions@[w].topic@ == topic@);
                assert(false);
            }
        }
        None
    }

    /// The connected peers that no live session — client or server —
    /// references: after `idle_connection_timeout` with no activity the
    /// runner closes their connections.
    pub fn idle_peers(&self) -> (ids: Vec<u64>)
        ensures
            ids@ == self.spec_peers().records().filter(
                |r: PeerRecord| r.state is Connected,
            ).map_values(|r: PeerRecord| r.peer_id).filter(
                |id: u64| !peer_in_use(self.sessions(), self.server_session_table(), id),
            ),
    {
        let connected = self.peers.connected_peer_ids();
        let mut ids: Vec<u64> = Vec::new();
        let n = connected.len();
        let mut i: usize = 0;
        while i < n
            invariant
                i <= n,
                n == connected@.len(),
                self.sessions() == self.client_sessions@,
                ids@ =~= connected@.subrange(0, i as int).filter(
                    |id: u64| !peer_in_use(self.client_sessions@, self.server_sessions@, id),
                ),
            decreases n - i,
        {
            proof {
                assert(connected@.subrange(0, i as int + 1) =~= connected@.subrange(
                    0,
                    i as int,
                ).push(connected@[i as int]));
                crate::seqs::lemma_filter_push(
                    connected@.subrange(0, i as int),
                    |id: u64| !peer_in_use(self.client_sessions@, self.server_sessions@, id),
                    connected@[i as int],
                );
            }
            if !self.peer_has_session(connected[i]) {
                ids.push(connected[i]);
            }
            i = i + 1;
        }
        proof {
            assert(connected@.subrange(0, n as int) =~= connected@);
        }
        ids
    }

    /// Whether any live session, client or server, references the peer.
    fn peer_has_session(&self, peer: u64) -> (r: bool)
        ensures
            r == peer_in_use(self.sessions(), self.server_session_table(), peer),
    {
        let n = self.client_sessions.len();
        let mut i: usize = 0;
        while i < n
            invariant
                i <= n,
                n == self.sessions().len(),
                forall|j: int| 0 <= j < i ==> self.sessions()[j].peer != peer,
            decreases n - i,
        {
            if self.client_sessions[i].peer == peer {
                return true;
            }
            i = i + 1;
        }
        let m = self.server_sessions.len();
        let mut k: usize = 0;
        while k < m
            invariant
                k <= m,
                m == self.server_session_table().len(),
                forall|j: int| 0 <= j < k ==> self.server_session_table()[j].peer != peer,
            decreases m - k,
        {
            if self.server_sessions[k].peer == peer {
                return true;
            }
            k = k + 1;
        }
        false
    }


    /// Accepts one inbound substream: when its negotiated wire name is a
    /// protocol registered as server, a server session opens under a
    /// fresh id and awaits the query frame. An unknown wire name is a
    /// protocol violation ([`Self::on_inbound_negotiation`]); a known one
    /// without a registered server is refused quietly.
    pub fn on_inbound_stream(&mut self, wire_name: &str, peer: u64) -> (r: Option<u64>)
        requires
            old(self).wf(),
        ensures
            final(self).wf(),
            final(self).clients() == old(self).clients(),
            final(self).servers() == old(self).servers(),
            final(self).subs() == old(self).subs(),
            final(self).sessions() == old(self).sessions(),
            final(self).clock() == old(self).clock(),
            final(self).peer_id_text() == old(self).peer_id_text(),
            match r {
                Some(id) => {
                    &&& crate::protocol::tag_of_wire(wire_name@) matches Some(p)
                        && old(self).servers().contains(p)
                        && final(self).server_session_table() == old(
                        self,
                    ).server_session_table().push(
                        (ServerSession {
                            id,
                            protocol: p,
                            peer,
                            state: SessionState::AwaitingResponse,
                            deadline: deadline_of(
                                old(self).clock(),
                                old(self).spec_config().session_timeout,
                            ),
                        }),
                    )
                    &&& id == old(self).next_id()
                    &&& final(self).next_id() == old(self).next_id() + 1
                    &&& final(self).violations() == old(self).violations()
                },
                None => {
                    &&& final(self).server_session_table() == old(self).server_session_table()
                    &&& final(self).next_id() == old(self).next_id()
                    &&& (match crate::protocol::tag_of_wire(wire_name@) {
                        None => final(self).violations() == (if old(self).violations() < u64::MAX {
                            (old(self).violations() + 1) as u64
                        } else {
                            old(self).violations()
                        }),
                        Some(p) => (!old(self).servers().contains(p) || old(self).next_id()
                            == u64::MAX) && final(self).violations() == old(self).violations(),
                    })
                },
            },
    {
        match self.on_inbound_negotiation(wire_name) {
            None => None,
            Some(p) => {
                if !Self::proto_list_contains(&self.registered_servers, p) {
                    return None;
                }
                if self.next_session_id == u64::MAX {
                    return None;
                }
                let id = self.next_session_id;
                self.next_session_id = self.next_session_id + 1;
                let deadline = match self.now.checked_add(self.config.session_timeout) {
                    Some(d) => d,
                    None => u64::MAX,
                };
                let session = ServerSession::new(id, p, peer, deadline);
                self.server_sessions.push(session);
                proof {
                    assert(deadline == deadline_of(
                        old(self).clock(),
                        old(self).spec_config().session_timeout,
                    ));
                    assert(self.server_sessions@ =~= old(self).server_sessions@.push(
                        ServerSession {
                            id,
                            protocol: p,
                            peer,
                            state: SessionState::AwaitingResponse,
                            deadline: deadline_of(
                                old(self).clock(),
                                old(self).spec_config().session_timeout,
                            ),
                        },
                    ));
                }
                Some(id)
            },
        }
    }

    /// Looks up the position of a live server session by id.
    fn find_server_session(&self, session_id: u64) -> (r: Option<usize>)
        requires
            self.wf(),
        ensures
            match r {
                Some(i) => server_session_index(self.server_session_table(), session_id) == Some(
                    i as int,
                ),
                None => server_session_index(self.server_session_table(), session_id) is None,
            },
    {
        let n = self.server_sessions.len();
        let mut i: usize = 0;
        while i < n
            invariant
                self.wf(),
                i <= n,
                n == self.server_session_table().len(),
                forall|j: int| 0 <= j < i ==> self.server_session_table()[j].id != session_id,
            decreases n - i,
        {
            if self.server_sessions[i].id == session_id {
                proof {
                    let w = choose|w: int|
                        0 <= w < self.server_session_table().len()
                            && self.server_session_table()[w].id == session_id;
                    assert(self.server_session_table()[w].id == session_id);
                    assert(self.server_session_table()[i as int].id == session_id);
                    if w < i as int {
                        assert(false);
                    } else if w > i as int {
                        assert(self.server_session_table()[i as int].id
                            != self.server_session_table()[w].id);
                        assert(false);
                    }
                }
                return Some(i);
            }
            i = i + 1;
        }
        None
    }

    /// Routes one event of an open server substream — the inbound query
    /// frame, the caller's enqueued output, or a substream error — to its
    /// session, following the server transition table; a terminal step
    /// destroys the session. An event for an unknown session id is
    /// dropped.
    pub fn handle_server_session_event(&mut self, session_id: u64, ev: ServerEvent) -> (eff:
        ServerEffect)
        requires
            old(self).wf(),
        ensures
            final(self).wf(),
            final(self).clients() == old(self).clients(),
            final(self).servers() == old(self).servers(),
            final(self).subs() == old(self).subs(),
            final(self).sessions() == old(self).sessions(),
            final(self).next_id() == old(self).next_id(),
            final(self).clock() == old(self).clock(),
            final(self).violations() == old(self).violations(),
            final(self).peer_id_text() == old(self).peer_id_text(),
            match server_session_index(old(self).server_session_table(), session_id) {
                Some(i) => {
                    let st = server_step(old(self).server_session_table()[i].state, ev);
                    &&& eff == st.effect
                    &&& (st.next.is_terminal() ==> final(self).server_session_table() == old(
                        self,
                    ).server_session_table().remove(i))
                    &&& (!st.next.is_terminal() ==> final(self).server_session_table() == old(
                        self,
                    ).server_session_table().update(
                        i,
                        (ServerSession {
                            id: old(self).server_session_table()[i].id,
                            protocol: old(self).server_session_table()[i].protocol,
                            peer: old(self).server_session_table()[i].peer,
                            state: st.next,
                            deadline: old(self).server_session_table()[i].deadline,
                        }),
                    ))
                },
                None => {
                    &&& eff == ServerEffect::Drop
                    &&& final(self).server_session_table() == old(self).server_session_table()
                },
            },
    {
        match self.find_server_session(session_id) {
            None => ServerEffect::Drop,
            Some(i) => {
                let ghost so = self.server_sessions@;
                let mut session = self.server_sessions[i];
                let effect = session.on_event(ev);
                if session.state == SessionState::Finished || session.state
                    == SessionState::Failed {
                    let _removed = self.server_sessions.remove(i);
                    proof {
                        assert(self.server_sessions@ =~= so.remove(i as int));
                        assert forall|a: int, b: int|
                            0 <= a < b < self.server_sessions@.len() implies self.server_sessions@[a].id
                            != self.server_sessions@[b].id by {
                            assert(self.server_sessions@[a] == (if a < i as int {
                                so[a]
                            } else {
                                so[a + 1]
                            }));
                            assert(self.server_sessions@[b] == (if b < i as int {
                                so[b]
                            } else {
                                so[b + 1]
                            }));
                        }
                    }
                } else {
                    let _replaced = self.server_sessions.remove(i);
                    self.server_sessions.insert(i, session);
                    proof {
                        assert(self.server_sessions@ =~= so.update(i as int, session));
                    }
                }
                effect
            },
        }
    }

    /// Looks up the position of a live session by id.
    fn find_session(&self, session_id: u64) -> (r: Option<usize>)
        requires
            self.wf(),
        ensures
            match r {
                Some(i) => session_index(self.sessions(), session_id) == Some(i as int),
                None => session_index(self.sessions(), session_id) is None,
            },
    {
        let n = self.client_sessions.len();
        let mut i: usize = 0;
        while i < n
            invariant
                self.wf(),
                i <= n,
                n == self.sessions().len(),
                forall|j: int| 0 <= j < i ==> self.sessions()[j].id != session_id,
            decreases n - i,
        {
            if self.client_sessions[i].id == session_id {
                proof {
                    let w = choose|w: int|
                        0 <= w < self.sessions().len() && self.sessions()[w].id == session_id;
                    assert(self.sessions()[w].id == session_id);
                    assert(self.sessions()[i as int].id == session_id);
                    if w < i as int {
                        assert(false);
                    } else if w > i as int {
                        assert(self.sessions()[i as int].id != self.sessions()[w].id);
                        assert(false);
                    }
                }
                return Some(i);
            }
            i = i + 1;
        }
        None
    }

    /// Takes one outbound query from the client channel of `p`: the
    /// round-robin peer gets it under a fresh session id, and when no
    /// peer is eligible (or the id space is exhausted) the caller
    /// delivers the returned failure instead — so every submitted query
    /// either travels toward a server or fails visibly.
    pub fn submit_query(&mut self, p: Protocol, query: &Query) -> (out: SubmitOutcome)
        requires
            old(self).wf(),
            old(self).clients().contains(p),
        ensures
            final(self).wf(),
            final(self).clients() == old(self).clients(),
            final(self).servers() == old(self).servers(),
            final(self).subs() == old(self).subs(),
            final(self).clock() == old(self).clock(),
            final(self).violations() == old(self).violations(),
            final(self).peer_id_text() == old(self).peer_id_text(),
            final(self).server_session_table() == old(self).server_session_table(),
            match out {
                SubmitOutcome::Sent { session_id, peer } => {
                    &&& session_id == old(self).next_id()
                    &&& final(self).next_id() == old(self).next_id() + 1
                    &&& final(self).sessions() == old(self).sessions().push(
                        (ClientSession {
                            id: session_id,
                            protocol: p,
                            peer,
                            state: SessionState::AwaitingResponse,
                            deadline: deadline_of(
                                old(self).clock(),
                                old(self).spec_config().session_timeout,
                            ),
                        }),
                    )
                    &&& (exists|i: int|
                        0 <= i < old(self).spec_peers().records().len() && old(self).spec_peers().records()[i].peer_id == peer && old(self).spec_peers().records()[i].eligible(p))
                },
                SubmitOutcome::Rejected(d) => {
                    &&& d == ClientDelivery::Failed(SessionFailureReason::NoPeer)
                    &&& final(self).sessions() == old(self).sessions()
                    &&& final(self).next_id() == old(self).next_id()
                    &&& (old(self).next_id() == u64::MAX || (forall|i: int|
                        0 <= i < old(self).spec_peers().records().len() ==> !old(self).spec_peers().records()[i].eligible(p)))
                },
            },
    {
        if self.next_session_id == u64::MAX {
            return SubmitOutcome::Rejected(
                ClientDelivery::Failed(SessionFailureReason::NoPeer),
            );
        }
        match self.peers.assign_peer(p) {
            None => SubmitOutcome::Rejected(ClientDelivery::Failed(SessionFailureReason::NoPeer)),
            Some(peer) => {
                let session_id = self.next_session_id;
                self.next_session_id = self.next_session_id + 1;
                let deadline = match self.now.checked_add(self.config.session_timeout) {
                    Some(d) => d,
                    None => u64::MAX,
                };
                let session = ClientSession::new(session_id, p, peer, deadline);
                self.client_sessions.push(session);
                proof {
                    let choice = crate::peers::rr_choice(
                        old(self).spec_peers().records(),
                        old(self).spec_peers().spec_cursor() as int,
                        p,
                    );
                    let w = choice->Some_0;
                    assert(old(self).spec_peers().records()[w].peer_id == peer && old(self).spec_peers().records()[w].eligible(p));
                    assert(deadline == deadline_of(
                        old(self).clock(),
                        old(self).spec_config().session_timeout,
                    ));
                    assert(self.client_sessions@ =~= old(self).client_sessions@.push(
                        ClientSession {
                            id: session_id,
                            protocol: p,
                            peer,
                            state: SessionState::AwaitingResponse,
                            deadline: deadline_of(
                                old(self).clock(),
                                old(self).spec_config().session_timeout,
                            ),
                        },
                    ));
                }
                SubmitOutcome::Sent { session_id, peer }
            },
        }
    }

    /// Routes one event of an open substream to its session and returns
    /// what to deliver on the owning client channel, and whether the
    /// substream must be reset. A terminal step destroys the session and
    /// frees its (peer, protocol) slot. An event for an unknown session
    /// id — in particular any frame arriving after the sentinel, whose
    /// session is already destroyed — delivers nothing; if it is a frame,
    /// it counts as a protocol violation and the substream is reset.
    pub fn handle_session_event(&mut self, session_id: u64, ev: ClientEvent) -> (out: (
        Option<ClientDelivery>,
        bool,
    ))
        requires
            old(self).wf(),
        ensures
            final(self).wf(),
            final(self).clients() == old(self).clients(),
            final(self).servers() == old(self).servers(),
            final(self).subs() == old(self).subs(),
            final(self).next_id() == old(self).next_id(),
            final(self).clock() == old(self).clock(),
            final(self).peer_id_text() == old(self).peer_id_text(),
            final(self).server_session_table() == old(self).server_session_table(),
            match session_index(old(self).sessions(), session_id) {
                Some(i) => {
                    let st = client_step(old(self).sessions()[i].state, ev);
                    &&& out.0 == st.deliver
                    &&& out.1 == false
                    &&& (st.next.is_terminal() ==> final(self).sessions() == old(self).sessions().remove(i))
                    &&& (!st.next.is_terminal() ==> final(self).sessions() == old(self).sessions().update(
                        i,
                        (ClientSession {
                            id: old(self).sessions()[i].id,
                            protocol: old(self).sessions()[i].protocol,
                            peer: old(self).sessions()[i].peer,
                            state: st.next,
                            deadline: old(self).sessions()[i].deadline,
                        }),
                    ))
                    &&& final(self).violations() == old(self).violations()
                    &&& (st.next.is_terminal() ==> (match index_of_peer(
                        old(self).spec_peers().records(),
                        old(self).sessions()[i].peer,
                    ) {
                        Some(pi) => !final(self).spec_peers().records()[pi].inflight@.contains(
                            old(self).sessions()[i].protocol,
                        ),
                        None => true,
                    }))
                },
                None => {
                    &&& out.0 is None
                    &&& out.1 == !(ev is Error)
                    &&& final(self).sessions() == old(self).sessions()
                    &&& final(self).violations() == (if !(ev is Error) && old(self).violations()
                        < u64::MAX {
                        (old(self).violations() + 1) as u64
                    } else {
                        old(self).violations()
                    })
                },
            },
    {
        match self.find_session(session_id) {
            None => {
                let is_frame = !(matches!(ev, ClientEvent::Error(_)));
                if is_frame && self.protocol_violations < u64::MAX {
                    self.protocol_violations = self.protocol_violations + 1;
                }
                (None, is_frame)
            },
            Some(i) => {
                let ghost so = self.client_sessions@;
                let mut session = self.client_sessions[i];
                let (delivery, _violation) = session.on_event(ev);
                if session.state == SessionState::Finished || session.state
                    == SessionState::Failed {
                    let removed = self.client_sessions.remove(i);
                    self.peers.release(removed.peer, removed.protocol);
                    proof {
                        assert(self.client_sessions@ =~= so.remove(i as int));
                        assert forall|a: int, b: int|
                            0 <= a < b < self.client_sessions@.len() implies self.client_sessions@[a].id
                            != self.client_sessions@[b].id by {
                            assert(self.client_sessions@[a] == (if a < i as int {
                                so[a]
                            } else {
                                so[a + 1]
                            }));
                            assert(self.client_sessions@[b] == (if b < i as int {
                                so[b]
                            } else {
                                so[b + 1]
                            }));
                        }
                    }
                } else {
                    let _replaced = self.client_sessions.remove(i);
                    self.client_sessions.insert(i, session);
                    proof {
                        assert(self.client_sessions@ =~= so.update(i as int, session));
                    }
                }
                (delivery, false)
            },
        }
    }

    /// Fails every session owned by a disconnecting peer: each one is
    /// destroyed and its channel receives a single terminal
    /// `Failed(PeerDisconnected)`; the peer record transitions to
    /// `Disconnected` with no in-flight marks.
    pub fn on_peer_disconnected(&mut self, peer: u64) -> (failed: Vec<(u64, ClientDelivery)>)
        requires
            old(self).wf(),
        ensures
            final(self).wf(),
            final(self).clients() == old(self).clients(),
            final(self).servers() == old(self).servers(),
            final(self).subs() == old(self).subs(),
            final(self).next_id() == old(self).next_id(),
            final(self).clock() == old(self).clock(),
            final(self).violations() == old(self).violations(),
            final(self).peer_id_text() == old(self).peer_id_text(),
            final(self).server_session_table() == old(self).server_session_table(),
            final(self).sessions() == old(self).sessions().filter(
                |s: ClientSession| s.peer != peer,
            ),
            ({
                let gone = old(self).sessions().filter(|s: ClientSession| s.peer == peer);
                &&& failed@.len() == gone.len()
                &&& (forall|k: int|
                    0 <= k < gone.len() ==> failed@[k].0 == gone[k].id && failed@[k].1
                        == ClientDelivery::Failed(SessionFailureReason::PeerDisconnected))
            }),
            match index_of_peer(old(self).spec_peers().records(), peer) {
                Some(i) => final(self).spec_peers().records()[i].state
                    is Disconnected && final(self).spec_peers().records()[i].inflight@
                    == Seq::<Protocol>::empty(),
                None => final(self).spec_peers().records() == old(self).spec_peers().records(),
            },
    {
        let (kept, failed) = Self::split_sessions_by_peer(&self.client_sessions, peer);
        proof {
            let orig = self.client_sessions@;
            let keep_pred = |s: ClientSession| s.peer != peer;
            assert forall|a: int, b: int|
                0 <= a < b < orig.filter(keep_pred).len() implies orig.filter(keep_pred)[a].id
                != orig.filter(keep_pred)[b].id by {
                crate::seqs::lemma_filter_positions(orig, keep_pred, a, b);
            }
            assert forall|k: int| 0 <= k < orig.filter(keep_pred).len() implies {
                &&& orig.filter(keep_pred)[k].id < self.next_session_id
                &&& !orig.filter(keep_pred)[k].state.is_terminal()
            } by {
                crate::seqs::lemma_filter_element_position(orig, keep_pred, k);
                let x = choose|x: int|
                    0 <= x < orig.len() && orig.filter(keep_pred)[k] == orig[x];
                assert(orig[x].id < self.next_session_id);
            }
        }
        self.client_sessions = kept;
        self.peers.on_disconnect(peer);
        failed
    }

    /// Splits the sessions of one peer off, turning each into its
    /// terminal failure item.
    fn split_sessions_by_peer(sessions: &Vec<ClientSession>, peer: u64) -> (r: (
        Vec<ClientSession>,
        Vec<(u64, ClientDelivery)>,
    ))
        ensures
            r.0@ == sessions@.filter(|s: ClientSession| s.peer != peer),
            ({
                let gone = sessions@.filter(|s: ClientSession| s.peer == peer);
                &&& r.1@.len() == gone.len()
                &&& (forall|k: int|
                    0 <= k < gone.len() ==> r.1@[k].0 == gone[k].id && r.1@[k].1
                        == ClientDelivery::Failed(SessionFailureReason::PeerDisconnected))
            }),
    {
        let mut kept: Vec<ClientSession> = Vec::new();
        let mut failed: Vec<(u64, ClientDelivery)> = Vec::new();
        let n = sessions.len();
        let mut i: usize = 0;
        while i < n
            invariant
                i <= n,
                n == sessions@.len(),
                kept@ =~= sessions@.subrange(0, i as int).filter(|s: ClientSession| s.peer != peer),
                ({
                    let gone = sessions@.subrange(0, i as int).filter(
                        |s: ClientSession| s.peer == peer,
                    );
                    &&& failed@.len() == gone.len()
                    &&& (forall|k: int|
                        0 <= k < gone.len() ==> failed@[k].0 == gone[k].id && failed@[k].1
                            == ClientDelivery::Failed(SessionFailureReason::PeerDisconnected))
                }),
            decreases n - i,
        {
            let s = sessions[i];
            proof {
                assert(sessions@.subrange(0, i as int + 1) =~= sessions@.subrange(
                    0,
                    i as int,
                ).push(sessions@[i as int]));
                crate::seqs::lemma_filter_push(
                    sessions@.subrange(0, i as int),
                    |s2: ClientSession| s2.peer != peer,
                    sessions@[i as int],
                );
                crate::seqs::lemma_filter_push(
                    sessions@.subrange(0, i as int),
                    |s2: ClientSession| s2.peer == peer,
                    sessions@[i as int],
                );
            }
            if s.peer == peer {
                failed.push((s.id, ClientDelivery::Failed(SessionFailureReason::PeerDisconnected)));
            } else {
                kept.push(s);
            }
            i = i + 1;
        }
        proof {
            assert(sessions@.subrange(0, n as int) =~= sessions@);
        }
        (kept, failed)
    }

    /// Advances the manager's clock and fails every session whose
    /// deadline has passed, client and server alike: each client session
    /// destroyed this way has its channel receive a single terminal
    /// `Failed(Timeout)`; overdue server sessions are destroyed quietly
    /// (their callers' remaining output is dropped); the substreams are
    /// reset by the caller.
    pub fn on_tick(&mut self, now: u64) -> (expired: Vec<(u64, ClientDelivery)>)
        requires
            old(self).wf(),
        ensures
            final(self).wf(),
            final(self).clients() == old(self).clients(),
            final(self).servers() == old(self).servers(),
            final(self).subs() == old(self).subs(),
            final(self).next_id() == old(self).next_id(),
            final(self).violations() == old(self).violations(),
            final(self).peer_id_text() == old(self).peer_id_text(),
            final(self).clock() == now,
            final(self).sessions() == old(self).sessions().filter(
                |s: ClientSession| !(s.deadline < now),
            ),
            final(self).server_session_table() == old(self).server_session_table().filter(
                |s: ServerSession| !(s.deadline < now),
            ),
            ({
                let gone = old(self).sessions().filter(|s: ClientSession| s.deadline < now);
                &&& expired@.len() == gone.len()
                &&& (forall|k: int|
                    0 <= k < gone.len() ==> expired@[k].0 == gone[k].id && expired@[k].1
                        == ClientDelivery::Failed(SessionFailureReason::Timeout))
            }),
    {
        self.now = now;
        let mut kept: Vec<ClientSession> = Vec::new();
        let mut expired: Vec<(u64, ClientDelivery)> = Vec::new();
        let mut gone_sessions: Vec<ClientSession> = Vec::new();
        let ghost orig = self.client_sessions@;
        let n = self.client_sessions.len();
        let mut i: usize = 0;
        while i < n
            invariant
                i <= n,
                n == orig.len(),
                self.client_sessions@ == orig,
                kept@ =~= orig.subrange(0, i as int).filter(|s: ClientSession| !(s.deadline < now)),
                ({
                    let gone = orig.subrange(0, i as int).filter(
                        |s: ClientSession| s.deadline < now,
                    );
                    &&& expired@.len() == gone.len()
                    &&& (forall|k: int|
                        0 <= k < gone.len() ==> expired@[k].0 == gone[k].id && expired@[k].1
                            == ClientDelivery::Failed(SessionFailureReason::Timeout))
                }),
            decreases n - i,
        {
            let s = self.client_sessions[i];
            proof {
                assert(orig.subrange(0, i as int + 1) =~= orig.subrange(0, i as int).push(
                    orig[i as int],
                ));
                crate::seqs::lemma_filter_push(
                    orig.subrange(0, i as int),
                    |s2: ClientSession| !(s2.deadline < now),
                    orig[i as int],
                );
                crate::seqs::lemma_filter_push(
                    orig.subrange(0, i as int),
                    |s2: ClientSession| s2.deadline < now,
                    orig[i as int],
                );
            }
            if s.deadline < now {
                expired.push((s.id, ClientDelivery::Failed(SessionFailureReason::Timeout)));
                gone_sessions.push(s);
            } else {
                kept.push(s);
            }
            i = i + 1;
        }
        proof {
            assert(orig.subrange(0, n as int) =~= orig);
            let keep_pred = |s: ClientSession| !(s.deadline < now);
            assert forall|a: int, b: int|
                0 <= a < b < orig.filter(keep_pred).len() implies orig.filter(keep_pred)[a].id
                != orig.filter(keep_pred)[b].id by {
                crate::seqs::lemma_filter_positions(orig, keep_pred, a, b);
            }
            assert forall|k: int| 0 <= k < orig.filter(keep_pred).len() implies {
                &&& orig.filter(keep_pred)[k].id < self.next_session_id
                &&& !orig.filter(keep_pred)[k].state.is_terminal()
            } by {
                crate::seqs::lemma_filter_element_position(orig, keep_pred, k);
                let x = choose|x: int|
                    0 <= x < orig.len() && orig.filter(keep_pred)[k] == orig[x];
                assert(orig[x].id < self.next_session_id);
            }
        }
        self.client_sessions = kept;
        // overdue server sessions are destroyed as well
        let ghost sorig = self.server_sessions@;
        let mut skept: Vec<ServerSession> = Vec::new();
        let sn = self.server_sessions.len();
        let mut si: usize = 0;
        while si < sn
            invariant
                si <= sn,
                sn == sorig.len(),
                self.server_sessions@ == sorig,
                skept@ =~= sorig.subrange(0, si as int).filter(
                    |s: ServerSession| !(s.deadline < now),
                ),
            decreases sn - si,
        {
            let s = self.server_sessions[si];
            proof {
                assert(sorig.subrange(0, si as int + 1) =~= sorig.subrange(0, si as int).push(
                    sorig[si as int],
                ));
                crate::seqs::lemma_filter_push(
                    sorig.subrange(0, si as int),
                    |s2: ServerSession| !(s2.deadline < now),
                    sorig[si as int],
                );
            }
            if !(s.deadline < now) {
                skept.push(s);
            }
            si = si + 1;
        }
        proof {
            assert(sorig.subrange(0, sn as int) =~= sorig);
            let keep2 = |s: ServerSession| !(s.deadline < now);
            assert forall|a: int, b: int|
                0 <= a < b < sorig.filter(keep2).len() implies sorig.filter(keep2)[a].id
                != sorig.filter(keep2)[b].id by {
                crate::seqs::lemma_filter_positions(sorig, keep2, a, b);
            }
            assert forall|k: int| 0 <= k < sorig.filter(keep2).len() implies {
                &&& sorig.filter(keep2)[k].id < self.next_session_id
                &&& !sorig.filter(keep2)[k].state.is_terminal()
            } by {
                crate::seqs::lemma_filter_element_position(sorig, keep2, k);
                let x = choose|x: int| 0 <= x < sorig.len() && sorig.filter(keep2)[k] == sorig[x];
                assert(sorig[x].id < self.next_session_id);
            }
        }
        self.server_sessions = skept;
        // the expired client sessions' (peer, protocol) slots free up, so
        // queued queries for those pairs can be assigned again
        let m = gone_sessions.len();
        let mut k: usize = 0;
        let ghost mid = *self;
        while k < m
            invariant
                k <= m,
                m == gone_sessions@.len(),
                self.peers.wf(),
                self.config == mid.config,
                self.local_peer_id == mid.local_peer_id,
                self.registered_clients@ == mid.registered_clients@,
                self.registered_servers@ == mid.registered_servers@,
                self.subscriptions@ == mid.subscriptions@,
                self.client_sessions@ == mid.client_sessions@,
                self.server_sessions@ == mid.server_sessions@,
                self.next_session_id == mid.next_session_id,
                self.now == mid.now,
                self.protocol_violations == mid.protocol_violations,
                mid.wf(),
            decreases m - k,
        {
            let s = gone_sessions[k];
            self.peers.release(s.peer, s.protocol);
            k = k + 1;
        }
        expired
    }

    /// Accepts the negotiation of an inbound substream: a known wire name
    /// yields its protocol, an unknown one is refused — no session is
    /// created and the protocol-violation metric grows.
    pub fn on_inbound_negotiation(&mut self, wire_name: &str) -> (r: Option<Protocol>)
        requires
            old(self).wf(),
        ensures
            final(self).wf(),
            final(self).sessions() == old(self).sessions(),
            final(self).server_session_table() == old(self).server_session_table(),
            final(self).clients() == old(self).clients(),
            final(self).servers() == old(self).servers(),
            final(self).subs() == old(self).subs(),
            final(self).next_id() == old(self).next_id(),
            final(self).clock() == old(self).clock(),
            final(self).spec_config() == old(self).spec_config(),
            final(self).spec_peers() == old(self).spec_peers(),
            final(self).peer_id_text() == old(self).peer_id_text(),
            match r {
                Some(p) => crate::protocol::tag_of_wire(wire_name@) == Some(p) && final(self).violations()
                    == old(self).violations(),
                None => crate::protocol::tag_of_wire(wire_name@) is None && final(self).violations() == (
                if old(self).violations() < u64::MAX {
                    (old(self).violations() + 1) as u64
                } else {
                    old(self).violations()
                }),
            },
    {
        match Protocol::try_from_wire(wire_name) {
            Ok(p) => Some(p),
            Err(_e) => {
                if self.protocol_violations < u64::MAX {
                    self.protocol_violations = self.protocol_violations + 1;
                }
                None
            },
        }
    }
}

/// The position of the subscription for a topic, if one exists.
pub open spec fn topic_index(subs: Seq<Subscription>, topic: Seq<char>) -> Option<int> {
    if exists|i: int| 0 <= i < subs.len() && subs[i].topic@ == topic {
        Some(choose|i: int| 0 <= i < subs.len() && subs[i].topic@ == topic)
    } else {
        None
    }
}

/// The position of the live server session with the given id, if any.
pub open spec fn server_session_index(sessions: Seq<ServerSession>, id: u64) -> Option<int> {
    if exists|i: int| 0 <= i < sessions.len() && sessions[i].id == id {
        Some(choose|i: int| 0 <= i < sessions.len() && sessions[i].id == id)
    } else {
        None
    }
}

/// The deadline of a session opened at `now`: `session_timeout` later,
/// saturating at the largest representable time.
pub open spec fn deadline_of(now: u64, timeout: u64) -> u64 {
    if now + timeout > u64::MAX {
        u64::MAX
    } else {
        (now + timeout) as u64
    }
}

/// Whether any live session, client or server, references the peer.
pub open spec fn peer_in_use(
    clients: Seq<ClientSession>,
    servers: Seq<ServerSession>,
    peer: u64,
) -> bool {
    (exists|i: int| 0 <= i < clients.len() && clients[i].peer == peer) || (exists|i: int|
        0 <= i < servers.len() && servers[i].peer == peer)
}

/// The position of the live session with the given id, if there is one.
pub open spec fn session_index(sessions: Seq<ClientSession>, id: u64) -> Option<int> {
    if exists|i: int| 0 <= i < sessions.len() && sessions[i].id == id {
        Some(choose|i: int| 0 <= i < sessions.len() && sessions[i].id == id)
    } else {
        None
    }
}

/// Session ids are handed out once and never reused: the live sessions
/// of a well-formed manager carry pairwise distinct ids, all below the
/// allocation counter — so the ids observed on a client channel are
/// exactly ids the manager assigned, each naming one query.
pub proof fn lemma_session_ids_unique(m: NetworkManager)
    requires
        m.wf(),
    ensures
        forall|i: int, j: int|
            0 <= i < j < m.sessions().len() ==> m.sessions()[i].id != m.sessions()[j].id,
        forall|i: int|
            0 <= i < m.sessions().len() ==> (#[trigger] m.sessions()[i].id) < m.next_id(),
{
}

} // verus!
