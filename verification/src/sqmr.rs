//! SQMR (single query, multiple responses) per-session state machines,
//! for the client and the server side of a substream, and the shape of
//! the item sequences they produce.

use vstd::prelude::*;
use crate::protocol::Protocol;

verus! {

/// The lifecycle of one SQMR session. `Finished` and `Failed` are
/// terminal; a session is destroyed once it reaches either.
#[derive(Debug, Clone, Copy, PartialEq, Eq, Structural)]
pub enum SessionState {
    AwaitingResponse,
    Streaming,
    Finished,
    Failed,
}

/// Why a session failed. Delivered to the owning channel as the single
/// terminal item of a failed session.
#[derive(Debug, Clone, Copy, PartialEq, Eq, Structural)]
pub enum SessionFailureReason {
    /// The peer sent a frame after `Fin`, negotiated an unknown protocol,
    /// or sent a frame that does not decode.
    ProtocolViolation,
    /// The session outlived `session_timeout`.
    Timeout,
    /// The peer's connection closed while the session was open.
    PeerDisconnected,
    /// No connected peer was eligible to take the query.
    NoPeer,
}

impl SessionState {
    /// Terminal states accept no further events.
    pub open spec fn is_terminal(self) -> bool {
        self is Finished || self is Failed
    }
}

/// An event observed by a client-side session.
pub enum ClientEvent {
    /// A response frame with a payload arrived.
    Frame(Vec<u8>),
    /// The end-of-data sentinel arrived.
    FinFrame,
    /// The substream erred, timed out, or the peer went away.
    Error(SessionFailureReason),
}

/// An item delivered into the client channel.
#[derive(Debug, Clone, PartialEq, Eq)]
pub enum ClientDelivery {
    /// One response payload.
    Data(Vec<u8>),
    /// Successful end of the stream; always the last item.
    Fin,
    /// Terminal failure; always the last item, never after `Fin`.
    Failed(SessionFailureReason),
}

/// The outcome of feeding one event to a client session: the next state,
/// what to deliver into the client channel, and whether the substream
/// must be reset for a protocol violation.
pub struct ClientStep {
    pub next: SessionState,
    pub deliver: Option<ClientDelivery>,
    pub violation: bool,
}

/// The client-side transition function. From a terminal state nothing is
/// delivered; a frame arriving after `Fin` flags a protocol violation
/// that resets the substream.
pub open spec fn client_step(s: SessionState, ev: ClientEvent) -> ClientStep {
    if s.is_terminal() {
        ClientStep {
            next: s,
            deliver: None,
            violation: s is Finished && !(ev is Error),
        }
    } else {
        match ev {
            ClientEvent::Frame(b) => ClientStep {
                next: SessionState::Streaming,
                deliver: Some(ClientDelivery::Data(b)),
                violation: false,
            },
            ClientEvent::FinFrame => ClientStep {
                next: SessionState::Finished,
                deliver: Some(ClientDelivery::Fin),
                violation: false,
            },
            ClientEvent::Error(r) => ClientStep {
                next: SessionState::Failed,
                deliver: Some(ClientDelivery::Failed(r)),
                violation: false,
            },
        }
    }
}

/// A client-side session: one outbound query on one substream.
#[derive(Debug, Clone, Copy)]
pub struct ClientSession {
    /// Locally unique for the whole life of the manager.
    pub id: u64,
    pub protocol: Protocol,
    /// The peer the query was assigned to.
    pub peer: u64,
    pub state: SessionState,
    /// Absolute time (in the manager's clock) at which the session times
    /// out: creation time plus `session_timeout`.
    pub deadline: u64,
}

impl ClientSession {
    /// Opens a client session in its initial state.
    pub fn new(id: u64, protocol: Protocol, peer: u64, deadline: u64) -> (s: ClientSession)
        ensures
            s.id == id,
            s.protocol == protocol,
            s.peer == peer,
            s.state == SessionState::AwaitingResponse,
            s.deadline == deadline,
    {
        ClientSession { id, protocol, peer, state: SessionState::AwaitingResponse, deadline }
    }

    /// Feeds one event to the session, following [`client_step`]: the
    /// returned pair is the item to deliver into the client channel (if
    /// any) and whether the substream must be reset.
    pub fn on_event(&mut self, ev: ClientEvent) -> (out: (Option<ClientDelivery>, bool))
        ensures
            final(self).state == client_step(old(self).state, ev).next,
            out.0 == client_step(old(self).state, ev).deliver,
            out.1 == client_step(old(self).state, ev).violation,
            final(self).id == old(self).id,
            final(self).protocol == old(self).protocol,
            final(self).peer == old(self).peer,
            final(self).deadline == old(self).deadline,
    {
        if self.state == SessionState::Finished {
            let violation = !(matches!(ev, ClientEvent::Error(_)));
            (None, violation)
        } else if self.state == SessionState::Failed {
            (None, false)
        } else {
            match ev {
                ClientEvent::Frame(b) => {
                    self.state = SessionState::Streaming;
                    (Some(ClientDelivery::Data(b)), false)
                },
                ClientEvent::FinFrame => {
                    self.state = SessionState::Finished;
                    (Some(ClientDelivery::Fin), false)
                },
                ClientEvent::Error(r) => {
                    self.state = SessionState::Failed;
                    (Some(ClientDelivery::Failed(r)), false)
                },
            }
        }
    }
}

/// Everything a client session starting in state `s` delivers over the
/// events `evs`, in order.
pub open spec fn client_run(s: SessionState, evs: Seq<ClientEvent>) -> Seq<ClientDelivery>
    decreases evs.len(),
{
    if evs.len() == 0 {
        Seq::empty()
    } else {
        let st = client_step(s, evs[0]);
        let head: Seq<ClientDelivery> = match st.deliver {
            Some(d) => seq![d],
            None => Seq::empty(),
        };
        head + client_run(st.next, evs.skip(1))
    }
}

/// The shape every delivered sequence must have: every item but the last
/// is `Data`, so `Fin` or `Failed` can only close the sequence.
pub open spec fn well_shaped_delivery(ds: Seq<ClientDelivery>) -> bool {
    forall|i: int| 0 <= i && i + 1 < ds.len() ==> ds[i] is Data
}

/// A session that has reached a terminal state delivers nothing more,
/// and from any state the delivered sequence is `Data*` followed by at
/// most one of `Fin` or `Failed`: the two are mutually exclusive and
/// terminal.
pub proof fn lemma_client_run_shape(s: SessionState, evs: Seq<ClientEvent>)
    ensures
        s.is_terminal() ==> client_run(s, evs) == Seq::<ClientDelivery>::empty(),
        well_shaped_delivery(client_run(s, evs)),
    decreases evs.len(),
{
    if evs.len() == 0 {
    } else {
        let st = client_step(s, evs[0]);
        lemma_client_run_shape(st.next, evs.skip(1));
        if s.is_terminal() {
            assert(client_run(s, evs) =~= Seq::<ClientDelivery>::empty());
        } else {
            let rest = client_run(st.next, evs.skip(1));
            match st.deliver {
                Some(d) => {
                    if d is Fin || d is Failed {
                        assert(st.next.is_terminal());
                        assert(rest == Seq::<ClientDelivery>::empty());
                        assert(client_run(s, evs) =~= seq![d]);
                    } else {
                        assert(client_run(s, evs) =~= seq![d] + rest);
                    }
                },
                None => {
                },
            }
        }
    }
}

/// The delivered sequence of a whole client session (one that starts at
/// `AwaitingResponse`) is `Data* Fin`, `Data* Failed`, or an unfinished
/// `Data*` prefix; never anything after `Fin` or `Failed`.
pub proof fn lemma_client_session_delivery(evs: Seq<ClientEvent>)
    ensures
        well_shaped_delivery(client_run(SessionState::AwaitingResponse, evs)),
{
    lemma_client_run_shape(SessionState::AwaitingResponse, evs);
}

/// An event observed by a server-side session.
pub enum ServerEvent {
    /// The single query frame arrived from the peer.
    QueryFrame(Vec<u8>),
    /// The caller enqueued one response payload.
    EnqueueData(Vec<u8>),
    /// The caller enqueued the end-of-data sentinel.
    EnqueueFin,
    /// The substream erred.
    Error(SessionFailureReason),
}

/// What a server session does in reaction to one event.
#[derive(Debug, Clone, PartialEq, Eq)]
pub enum ServerEffect {
    /// Hand the inbound query to the server channel.
    DeliverQuery(Vec<u8>),
    /// Write one response frame to the substream.
    WriteData(Vec<u8>),
    /// Write the end-of-data sentinel and close the substream.
    WriteFin,
    /// Drop the event: a caller error or a terminal session.
    Drop,
}

/// The outcome of feeding one event to a server session.
pub struct ServerStep {
    pub next: SessionState,
    pub effect: ServerEffect,
}

/// The server-side transition function. A query is expected first; then
/// caller output is written through until `Fin`; output enqueued after
/// `Fin`, or anything arriving in a terminal state, is dropped.
pub open spec fn server_step(s: SessionState, ev: ServerEvent) -> ServerStep {
    if s.is_terminal() {
        ServerStep { next: s, effect: ServerEffect::Drop }
    } else {
        match ev {
            ServerEvent::QueryFrame(q) => if s is AwaitingResponse {
                ServerStep { next: SessionState::Streaming, effect: ServerEffect::DeliverQuery(q) }
            } else {
                ServerStep { next: s, effect: ServerEffect::Drop }
            },
            ServerEvent::EnqueueData(b) => if s is Streaming {
                ServerStep { next: SessionState::Streaming, effect: ServerEffect::WriteData(b) }
            } else {
                ServerStep { next: s, effect: ServerEffect::Drop }
            },
            ServerEvent::EnqueueFin => if s is Streaming {
                ServerStep { next: SessionState::Finished, effect: ServerEffect::WriteFin }
            } else {
                ServerStep { next: s, effect: ServerEffect::Drop }
            },
            ServerEvent::Error(_) => ServerStep {
                next: SessionState::Failed,
                effect: ServerEffect::Drop,
            },
        }
    }
}

/// A server-side session: one inbound query on one substream.
#[derive(Debug, Clone, Copy)]
pub struct ServerSession {
    pub id: u64,
    pub protocol: Protocol,
    pub peer: u64,
    pub state: SessionState,
    /// Absolute time at which the session times out.
    pub deadline: u64,
}

impl ServerSession {
    /// Opens a server session in its initial state.
    pub fn new(id: u64, protocol: Protocol, peer: u64, deadline: u64) -> (s: ServerSession)
        ensures
            s.id == id,
            s.protocol == protocol,
            s.peer == peer,
            s.state == SessionState::AwaitingResponse,
            s.deadline == deadline,
    {
        ServerSession { id, protocol, peer, state: SessionState::AwaitingResponse, deadline }
    }

    /// Feeds one event to the session, following [`server_step`].
    pub fn on_event(&mut self, ev: ServerEvent) -> (eff: ServerEffect)
        ensures
            final(self).state == server_step(old(self).state, ev).next,
            eff == server_step(old(self).state, ev).effect,
            final(self).id == old(self).id,
            final(self).protocol == old(self).protocol,
            final(self).peer == old(self).peer,
            final(self).deadline == old(self).deadline,
    {
        if self.state == SessionState::Finished || self.state == SessionState::Failed {
            ServerEffect::Drop
        } else {
            match ev {
                ServerEvent::QueryFrame(q) => {
                    if self.state == SessionState::AwaitingResponse {
                        self.state = SessionState::Streaming;
                        ServerEffect::DeliverQuery(q)
                    } else {
                        ServerEffect::Drop
                    }
                },
                ServerEvent::EnqueueData(b) => {
                    if self.state == SessionState::Streaming {
                        ServerEffect::WriteData(b)
                    } else {
                        ServerEffect::Drop
                    }
                },
                ServerEvent::EnqueueFin => {
                    if self.state == SessionState::Streaming {
                        self.state = SessionState::Finished;
                        ServerEffect::WriteFin
                    } else {
                        ServerEffect::Drop
                    }
                },
                ServerEvent::Error(_) => {
                    self.state = SessionState::Failed;
                    ServerEffect::Drop
                },
            }
        }
    }
}

/// Everything a server session starting in state `s` writes to the
/// substream over the events `evs`, in order. `None` stands for the
/// end-of-data sentinel.
pub open spec fn server_writes(s: SessionState, evs: Seq<ServerEvent>) -> Seq<Option<Vec<u8>>>
    decreases evs.len(),
{
    if evs.len() == 0 {
        Seq::empty()
    } else {
        let st = server_step(s, evs[0]);
        let head: Seq<Option<Vec<u8>>> = match st.effect {
            ServerEffect::WriteData(b) => seq![Some(b)],
            ServerEffect::WriteFin => seq![None],
            _ => Seq::empty(),
        };
        head + server_writes(st.next, evs.skip(1))
    }
}

/// The frames a server writes have the wire shape the client relies on:
/// every frame but the last carries data, so the end-of-data sentinel
/// can only close the stream, and nothing follows it.
pub proof fn lemma_server_writes_shape(s: SessionState, evs: Seq<ServerEvent>)
    ensures
        s.is_terminal() ==> server_writes(s, evs) == Seq::<Option<Vec<u8>>>::empty(),
        forall|i: int|
            0 <= i && i + 1 < server_writes(s, evs).len() ==> server_writes(s, evs)[i] is Some,
    decreases evs.len(),
{
    if evs.len() == 0 {
    } else {
        let st = server_step(s, evs[0]);
        lemma_server_writes_shape(st.next, evs.skip(1));
        if s.is_terminal() {
            assert(server_writes(s, evs) =~= Seq::<Option<Vec<u8>>>::empty());
        } else {
            let rest = server_writes(st.next, evs.skip(1));
            match st.effect {
                ServerEffect::WriteFin => {
                    assert(st.next.is_terminal());
                    assert(rest == Seq::<Option<Vec<u8>>>::empty());
                    assert(server_writes(s, evs) =~= seq![Option::<Vec<u8>>::None]);
                },
                ServerEffect::WriteData(b) => {
                    assert(server_writes(s, evs) =~= seq![Some(b)] + rest);
                },
                _ => {
                    assert(server_writes(s, evs) =~= rest);
                },
            }
        }
    }
}

} // verus!
