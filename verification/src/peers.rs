//! The peer manager: known peers, their connection state, and the
//! round-robin assignment of outbound queries to connected peers.

use vstd::prelude::*;
use crate::protocol::Protocol;

verus! {

/// Connection state of a known peer.
#[derive(Debug, Clone, Copy, PartialEq, Eq, Structural)]
pub enum ConnectionState {
    Disconnected,
    Dialing,
    Connected,
}

/// One known peer. Records are created on first sighting and never
/// destroyed while a session references the peer.
pub struct PeerRecord {
    /// Opaque id derived from the peer's public key.
    pub peer_id: u64,
    pub state: ConnectionState,
    /// Listening multiaddresses, textual form.
    pub addrs: Vec<String>,
    /// The last dial error, if any.
    pub last_error: Option<String>,
    /// Protocols with an in-flight query on this peer: at most one per
    /// (peer, protocol) pair.
    pub inflight: Vec<Protocol>,
}

impl PeerRecord {
    /// Eligible to take a query for `p`: connected and not already busy
    /// with an in-flight query for `p`.
    pub open spec fn eligible(self, p: Protocol) -> bool {
        self.state is Connected && !self.inflight@.contains(p)
    }
}

/// Tracks known peers and assigns outbound queries round-robin.
pub struct PeerManager {
    peers: Vec<PeerRecord>,
    /// Round-robin cursor: the index at which the next assignment scan
    /// starts.
    cursor: usize,
}

/// The index of the peer with id `id`, if the id is known.
pub open spec fn index_of_peer(peers: Seq<PeerRecord>, id: u64) -> Option<int> {
    if exists|i: int| 0 <= i < peers.len() && peers[i].peer_id == id {
        Some(choose|i: int| 0 <= i < peers.len() && peers[i].peer_id == id)
    } else {
        None
    }
}

impl PeerManager {
    /// Peer ids are unique and no peer holds two in-flight marks for the
    /// same protocol; the cursor stays within the peer list.
    pub closed spec fn wf(self) -> bool {
        &&& (forall|i: int, j: int|
            0 <= i < j < self.peers@.len() ==> self.peers@[i].peer_id != self.peers@[j].peer_id)
        &&& (forall|i: int, a: int, b: int|
            #![trigger self.peers@[i].inflight@[a], self.peers@[i].inflight@[b]]
            0 <= i < self.peers@.len() && 0 <= a < b < self.peers@[i].inflight@.len()
                ==> self.peers@[i].inflight@[a] != self.peers@[i].inflight@[b])
        &&& (self.peers@.len() == 0 ==> self.cursor == 0)
        &&& (self.peers@.len() > 0 ==> self.cursor < self.peers@.len())
    }

    /// The known peers, in insertion order.
    pub closed spec fn records(self) -> Seq<PeerRecord> {
        self.peers@
    }

    /// A manager that knows no peers.
    pub fn new() -> (m: PeerManager)
        ensures
            m.wf(),
            m.records() == Seq::<PeerRecord>::empty(),
    {
        PeerManager { peers: Vec::new(), cursor: 0 }
    }

    /// Looks up the position of a peer id.
    fn find(&self, id: u64) -> (r: Option<usize>)
        ensures
            match r {
                Some(i) => i < self.records().len() && self.records()[i as int].peer_id == id,
                None => forall|i: int|
                    0 <= i < self.records().len() ==> self.records()[i].peer_id != id,
            },
    {
        let n = self.peers.len();
        let mut i: usize = 0;
        while i < n
            invariant
                i <= n,
                n == self.records().len(),
                forall|j: int| 0 <= j < i ==> self.records()[j].peer_id != id,
            decreases n - i,
        {
            if self.peers[i].peer_id == id {
                return Some(i);
            }
            i = i + 1;
        }
        None
    }

    /// Upserts a peer sighted at `addrs` and marks it connected: new
    /// sightings create a record, known peers keep their in-flight marks.
    /// Returns true when the peer transitioned into `Connected` (the
    /// caller then flushes any queued queries for it).
    pub fn observe(&mut self, id: u64, addrs: Vec<String>) -> (newly_connected: bool)
        requires
            old(self).wf(),
        ensures
            final(self).wf(),
            index_of_peer(final(self).records(), id) is Some,
            ({
                let i = index_of_peer(final(self).records(), id)->Some_0;
                &&& final(self).records()[i].state is Connected
                &&& final(self).records()[i].addrs == addrs
                &&& final(self).records()[i].peer_id == id
            }),
            newly_connected <==> (match index_of_peer(old(self).records(), id) {
                Some(i) => !(old(self).records()[i].state is Connected),
                None => true,
            }),
            match index_of_peer(old(self).records(), id) {
                Some(i) => final(self).records() == old(self).records().update(
                    i,
                    (PeerRecord {
                        peer_id: id,
                        state: ConnectionState::Connected,
                        addrs: addrs,
                        last_error: old(self).records()[i].last_error,
                        inflight: old(self).records()[i].inflight,
                    }),
                ),
                None => {
                    &&& final(self).records().len() == old(self).records().len() + 1
                    &&& final(self).records().drop_last() == old(self).records()
                    &&& final(self).records().last().peer_id == id
                    &&& final(self).records().last().state is Connected
                    &&& final(self).records().last().addrs == addrs
                    &&& final(self).records().last().last_error is None
                    &&& final(self).records().last().inflight@ == Seq::<Protocol>::empty()
                },
            },
    {
        match self.find(id) {
            Some(i) => {
                let ghost oldpeers = self.peers@;
                let mut rec = self.peers.remove(i);
                let newly = !(rec.state == ConnectionState::Connected);
                rec.state = ConnectionState::Connected;
                rec.addrs = addrs;
                self.peers.insert(i, rec);
                proof {
                    assert(index_of_peer(oldpeers, id) is Some);
                    let j = index_of_peer(oldpeers, id)->Some_0;
                    assert(oldpeers[j].peer_id == id && oldpeers[i as int].peer_id == id);
                    assert(j == i);
                    assert(self.peers@[i as int].peer_id == id);
                    let j2 = index_of_peer(self.peers@, id)->Some_0;
                    assert(self.peers@[j2].peer_id == id);
                    assert(j2 == i);
                    assert(self.peers@ =~= oldpeers.update(i as int, self.peers@[i as int]));
                }
                newly
            },
            None => {
                let rec = PeerRecord {
                    peer_id: id,
                    state: ConnectionState::Connected,
                    addrs,
                    last_error: None,
                    inflight: Vec::new(),
                };
                let ghost n = self.peers@.len() as int;
                if self.peers.len() == 0 {
                    self.cursor = 0;
                }
                self.peers.push(rec);
                proof {
                    assert(self.peers@[n].peer_id == id);
                    let j2 = index_of_peer(self.peers@, id)->Some_0;
                    assert(self.peers@[j2].peer_id == id);
                    assert(j2 == n);
                    assert(self.peers@.drop_last() =~= old(self).peers@);
                }
                true
            },
        }
    }

    /// Records the intent to dial a peer: the record transitions to
    /// `Dialing` (it is created first if the peer is new).
    pub fn dial(&mut self, id: u64)
        requires
            old(self).wf(),
        ensures
            final(self).wf(),
            index_of_peer(final(self).records(), id) is Some,
            ({
                let i = index_of_peer(final(self).records(), id)->Some_0;
                &&& final(self).records()[i].state is Dialing
                &&& final(self).records()[i].peer_id == id
            }),
            match index_of_peer(old(self).records(), id) {
                Some(i) => final(self).records() == old(self).records().update(
                    i,
                    (PeerRecord {
                        peer_id: id,
                        state: ConnectionState::Dialing,
                        addrs: old(self).records()[i].addrs,
                        last_error: old(self).records()[i].last_error,
                        inflight: old(self).records()[i].inflight,
                    }),
                ),
                None => {
                    &&& final(self).records().len() == old(self).records().len() + 1
                    &&& final(self).records().drop_last() == old(self).records()
                    &&& final(self).records().last().peer_id == id
                    &&& final(self).records().last().state is Dialing
                    &&& final(self).records().last().addrs@ == Seq::<String>::empty()
                    &&& final(self).records().last().last_error is None
                    &&& final(self).records().last().inflight@ == Seq::<Protocol>::empty()
                },
            },
    {
        match self.find(id) {
            Some(i) => {
                let ghost oldpeers = self.peers@;
                let mut rec = self.peers.remove(i);
                rec.state = ConnectionState::Dialing;
                self.peers.insert(i, rec);
                proof {
                    assert(oldpeers[i as int].peer_id == id);
                    let j0 = index_of_peer(oldpeers, id)->Some_0;
                    assert(oldpeers[j0].peer_id == id);
                    assert(j0 == i);
                    assert(self.peers@[i as int].peer_id == id);
                    let j2 = index_of_peer(self.peers@, id)->Some_0;
                    assert(self.peers@[j2].peer_id == id);
                    assert(j2 == i);
                    assert(self.peers@ =~= oldpeers.update(i as int, self.peers@[i as int]));
                }
            },
            None => {
                let rec = PeerRecord {
                    peer_id: id,
                    state: ConnectionState::Dialing,
                    addrs: Vec::new(),
                    last_error: None,
                    inflight: Vec::new(),
                };
                let ghost n = self.peers@.len() as int;
                if self.peers.len() == 0 {
                    self.cursor = 0;
                }
                self.peers.push(rec);
                proof {
                    assert(self.peers@[n].peer_id == id);
                    let j2 = index_of_peer(self.peers@, id)->Some_0;
                    assert(self.peers@[j2].peer_id == id);
                    assert(j2 == n);
                    assert(self.peers@.drop_last() =~= old(self).peers@);
                }
            },
        }
    }

    /// Records the outcome of a dial: success connects the peer, failure
    /// stores the error and returns the record to `Disconnected`.
    pub fn on_dial_result(&mut self, id: u64, error: Option<String>)
        requires
            old(self).wf(),
        ensures
            final(self).wf(),
            match index_of_peer(final(self).records(), id) {
                Some(i) => {
                    &&& (error is None ==> final(self).records()[i].state is Connected)
                    &&& (error is Some ==> final(self).records()[i].state is Disconnected
                        && final(self).records()[i].last_error == error)
                },
                None => index_of_peer(old(self).records(), id) is None,
            },
            match index_of_peer(old(self).records(), id) {
                Some(i) => final(self).records() == old(self).records().update(
                    i,
                    (PeerRecord {
                        peer_id: id,
                        state: (if error is Some {
                            ConnectionState::Disconnected
                        } else {
                            ConnectionState::Connected
                        }),
                        addrs: old(self).records()[i].addrs,
                        last_error: (if error is Some {
                            error
                        } else {
                            old(self).records()[i].last_error
                        }),
                        inflight: old(self).records()[i].inflight,
                    }),
                ),
                None => final(self).records() == old(self).records(),
            },
    {
        match self.find(id) {
            Some(i) => {
                let ghost oldpeers = self.peers@;
                let mut rec = self.peers.remove(i);
                match error {
                    None => {
                        rec.state = ConnectionState::Connected;
                    },
                    Some(e) => {
                        rec.state = ConnectionState::Disconnected;
                        rec.last_error = Some(e);
                    },
                }
                self.peers.insert(i, rec);
                proof {
                    assert(oldpeers[i as int].peer_id == id);
                    let j0 = index_of_peer(oldpeers, id)->Some_0;
                    assert(oldpeers[j0].peer_id == id);
                    assert(j0 == i);
                    assert(self.peers@[i as int].peer_id == id);
                    if index_of_peer(self.peers@, id) is Some {
                        let j2 = index_of_peer(self.peers@, id)->Some_0;
                        assert(self.peers@[j2].peer_id == id);
                        assert(j2 == i);
                    }
                    assert(index_of_peer(self.peers@, id) is Some);
                    assert(self.peers@ =~= oldpeers.update(i as int, self.peers@[i as int]));
                }
            },
            None => {
            },
        }
    }

    /// Takes one query for `p`: the round-robin choice among eligible
    /// peers, marked busy for `p`; `None` when no connected peer is free
    /// for `p` (returned immediately, never awaited).
    pub fn assign_peer(&mut self, p: Protocol) -> (r: Option<u64>)
        requires
            old(self).wf(),
        ensures
            final(self).wf(),
            match r {
                Some(id) => {
                    let choice = rr_choice(old(self).records(), old(self).spec_cursor() as int, p);
                    &&& choice is Some
                    &&& ({
                        let i = choice->Some_0;
                        &&& 0 <= i < old(self).records().len()
                        &&& old(self).records()[i].peer_id == id
                        &&& old(self).records()[i].eligible(p)
                        &&& final(self).records().len() == old(self).records().len()
                        &&& final(self).records()[i].inflight@ == old(self).records()[i].inflight@.push(p)
                        &&& final(self).records()[i].peer_id == id
                        &&& final(self).records()[i].state == old(self).records()[i].state
                        &&& (forall|j: int|
                            0 <= j < old(self).records().len() && j != i ==> final(self).records()[j] == old(self).records()[j])
                    })
                },
                None => {
                    &&& final(self).records() == old(self).records()
                    &&& (forall|i: int|
                        0 <= i < old(self).records().len() ==> !old(self).records()[i].eligible(p))
                },
            },
    {
        let n = self.peers.len();
        if n == 0 {
            return None;
        }
        let start = self.cursor;
        let mut idx: usize = start;
        // scan [cursor, n)
        while idx < n
            invariant
                start <= idx <= n,
                n == self.peers@.len(),
                start < n,
                self.wf(),
                *self == *old(self),
                start == self.spec_cursor(),
                first_eligible_in(self.peers@, p, start as int, n as int) == first_eligible_in(
                    self.peers@,
                    p,
                    idx as int,
                    n as int,
                ),
            decreases n - idx,
        {
            if self.is_eligible(idx, p) {
                proof {
                    assert(first_eligible_in(self.peers@, p, idx as int, n as int) == Some(
                        idx as int,
                    ));
                    assert(rr_choice(self.peers@, start as int, p) == Some(idx as int));
                }
                return Some(self.take(idx, p));
            }
            idx = idx + 1;
        }
        // scan [0, cursor)
        let mut idx2: usize = 0;
        while idx2 < start
            invariant
                idx2 <= start < n,
                n == self.peers@.len(),
                self.wf(),
                *self == *old(self),
                start == self.spec_cursor(),
                first_eligible_in(self.peers@, p, start as int, n as int) is None,
                first_eligible_in(self.peers@, p, 0, start as int) == first_eligible_in(
                    self.peers@,
                    p,
                    idx2 as int,
                    start as int,
                ),
            decreases start - idx2,
        {
            if self.is_eligible(idx2, p) {
                proof {
                    assert(first_eligible_in(self.peers@, p, idx2 as int, start as int) == Some(
                        idx2 as int,
                    ));
                    assert(rr_choice(self.peers@, start as int, p) == Some(idx2 as int));
                }
                return Some(self.take(idx2, p));
            }
            idx2 = idx2 + 1;
        }
        proof {
            lemma_first_eligible_none(self.peers@, p, start as int, n as int);
            lemma_first_eligible_none(self.peers@, p, 0, start as int);
        }
        None
    }

    /// Whether the peer at `i` can take a query for `p`.
    fn is_eligible(&self, i: usize, p: Protocol) -> (r: bool)
        requires
            i < self.records().len(),
        ensures
            r == self.records()[i as int].eligible(p),
    {
        let rec = &self.peers[i];
        if !(rec.state == ConnectionState::Connected) {
            return false;
        }
        let m = rec.inflight.len();
        let mut k: usize = 0;
        while k < m
            invariant
                k <= m,
                i < self.records().len(),
                m == self.records()[i as int].inflight@.len(),
                forall|j: int| 0 <= j < k ==> self.records()[i as int].inflight@[j] != p,
            decreases m - k,
        {
            if self.peers[i].inflight[k] == p {
                return false;
            }
            k = k + 1;
        }
        true
    }

    /// Marks the peer at `i` busy for `p` and moves the round-robin
    /// cursor just past it.
    fn take(&mut self, i: usize, p: Protocol) -> (id: u64)
        requires
            old(self).wf(),
            i < old(self).records().len(),
            old(self).records()[i as int].eligible(p),
        ensures
            final(self).wf(),
            id == old(self).records()[i as int].peer_id,
            final(self).records().len() == old(self).records().len(),
            final(self).records()[i as int].inflight@ == old(self).records()[i as int].inflight@.push(p),
            final(self).records()[i as int].peer_id == id,
            final(self).records()[i as int].state == old(self).records()[i as int].state,
            forall|j: int|
                0 <= j < old(self).records().len() && j != i ==> final(self).records()[j] == old(self).records()[j],
    {
        let ghost oldpeers = self.peers@;
        let mut rec = self.peers.remove(i);
        let id = rec.peer_id;
        rec.inflight.push(p);
        self.peers.insert(i, rec);
        let n = self.peers.len();
        self.cursor = if i + 1 < n {
            i + 1
        } else {
            0
        };
        proof {
            assert(forall|j: int|
                0 <= j < oldpeers.len() && j != i ==> self.peers@[j] == oldpeers[j]);
            assert(forall|a: int, b: int|
                0 <= a < b < self.peers@[i as int].inflight@.len()
                    ==> self.peers@[i as int].inflight@[a] != self.peers@[i as int].inflight@[b]);
        }
        id
    }

    /// Clears the in-flight mark of (peer, protocol) when its session
    /// reaches a terminal state; queued queries for the pair may then be
    /// assigned again.
    pub fn release(&mut self, id: u64, p: Protocol)
        requires
            old(self).wf(),
        ensures
            final(self).wf(),
            final(self).records().len() == old(self).records().len(),
            match index_of_peer(old(self).records(), id) {
                Some(i) => {
                    &&& !final(self).records()[i].inflight@.contains(p)
                    &&& (forall|q: Protocol|
                        q != p ==> (final(self).records()[i].inflight@.contains(q) <==> old(self).records()[i].inflight@.contains(q)))
                    &&& final(self).records()[i].peer_id == old(self).records()[i].peer_id
                    &&& final(self).records()[i].state == old(self).records()[i].state
                    &&& (forall|j: int|
                        0 <= j < old(self).records().len() && j != i ==> final(self).records()[j]
                            == old(self).records()[j])
                },
                None => final(self).records() == old(self).records(),
            },
    {
        match self.find(id) {
            Some(i) => {
                let ghost oldpeers = self.peers@;
                let mut rec = self.peers.remove(i);
                let m = rec.inflight.len();
                let mut k: usize = 0;
                let mut kept: Vec<Protocol> = Vec::new();
                while k < m
                    invariant
                        k <= m,
                        m == rec.inflight@.len(),
                        kept@ =~= rec.inflight@.subrange(0, k as int).filter(|q: Protocol| q != p),
                    decreases m - k,
                {
                    proof {
                        assert(rec.inflight@.subrange(0, k as int + 1) =~= rec.inflight@.subrange(
                            0,
                            k as int,
                        ).push(rec.inflight@[k as int]));
                        assert(rec.inflight@.subrange(0, k as int).push(
                            rec.inflight@[k as int],
                        ).drop_last() =~= rec.inflight@.subrange(0, k as int));
                        reveal(Seq::filter);
                    }
                    let q = rec.inflight[k];
                    if !(q == p) {
                        kept.push(q);
                    }
                    k = k + 1;
                }
                proof {
                    assert(rec.inflight@.subrange(0, m as int) =~= rec.inflight@);
                    lemma_filter_keeps(rec.inflight@, p);
                }
                rec.inflight = kept;
                self.peers.insert(i, rec);
                proof {
                    assert(oldpeers[i as int].peer_id == id);
                    let j0 = index_of_peer(oldpeers, id)->Some_0;
                    assert(oldpeers[j0].peer_id == id);
                    assert(j0 == i);
                    let s = oldpeers[i as int].inflight@;
                    let fl = s.filter(|q: Protocol| q != p);
                    assert forall|a: int, b: int| 0 <= a < b < fl.len() implies fl[a] != fl[b] by {
                        crate::seqs::lemma_filter_positions(s, |q: Protocol| q != p, a, b);
                        let (x, y) = choose|x: int, y: int|
                            0 <= x < y < s.len() && fl[a] == s[x] && fl[b] == s[y];
                        assert(s[x] != s[y]);
                    }
                }
            },
            None => {
                proof {
                    assert(index_of_peer(self.peers@, id) is None);
                }
            },
        }
    }

    /// Marks a peer disconnected and clears its in-flight marks; the
    /// caller fails every open session owned by the peer.
    pub fn on_disconnect(&mut self, id: u64)
        requires
            old(self).wf(),
        ensures
            final(self).wf(),
            final(self).records().len() == old(self).records().len(),
            match index_of_peer(old(self).records(), id) {
                Some(i) => {
                    &&& final(self).records()[i].state is Disconnected
                    &&& final(self).records()[i].inflight@ == Seq::<Protocol>::empty()
                    &&& final(self).records()[i].peer_id == old(self).records()[i].peer_id
                    &&& (forall|j: int|
                        0 <= j < old(self).records().len() && j != i ==> final(self).records()[j]
                            == old(self).records()[j])
                },
                None => final(self).records() == old(self).records(),
            },
    {
        match self.find(id) {
            Some(i) => {
                let ghost oldpeers = self.peers@;
                let mut rec = self.peers.remove(i);
                rec.state = ConnectionState::Disconnected;
                rec.inflight = Vec::new();
                self.peers.insert(i, rec);
                proof {
                    assert(oldpeers[i as int].peer_id == id);
                    let j0 = index_of_peer(oldpeers, id)->Some_0;
                    assert(oldpeers[j0].peer_id == id);
                    assert(j0 == i);
                }
            },
            None => {
                proof {
                    assert(index_of_peer(self.peers@, id) is None);
                }
            },
        }
    }

    /// The round-robin cursor, for stating the selection rule.
    pub closed spec fn spec_cursor(self) -> usize {
        self.cursor
    }

    /// The ids of the connected peers, in insertion order.
    pub fn connected_peer_ids(&self) -> (ids: Vec<u64>)
        ensures
            ids@ == self.records().filter(|r: PeerRecord| r.state is Connected).map_values(
                |r: PeerRecord| r.peer_id,
            ),
    {
        let mut ids: Vec<u64> = Vec::new();
        let n = self.peers.len();
        let mut i: usize = 0;
        while i < n
            invariant
                i <= n,
                n == self.records().len(),
                ids@ =~= self.records().subrange(0, i as int).filter(
                    |r: PeerRecord| r.state is Connected,
                ).map_values(|r: PeerRecord| r.peer_id),
            decreases n - i,
        {
            proof {
                assert(self.records().subrange(0, i as int + 1) =~= self.records().subrange(
                    0,
                    i as int,
                ).push(self.records()[i as int]));
                crate::seqs::lemma_filter_push(
                    self.records().subrange(0, i as int),
                    |r: PeerRecord| r.state is Connected,
                    self.records()[i as int],
                );
            }
            if self.peers[i].state == ConnectionState::Connected {
                ids.push(self.peers[i].peer_id);
            }
            i = i + 1;
        }
        proof {
            assert(self.records().subrange(0, n as int) =~= self.records());
        }
        ids
    }
}

/// The first index in `[lo, hi)` whose peer is eligible for `p`.
pub open spec fn first_eligible_in(
    peers: Seq<PeerRecord>,
    p: Protocol,
    lo: int,
    hi: int,
) -> Option<int>
    decreases hi - lo,
{
    if lo >= hi {
        None
    } else if 0 <= lo < peers.len() && peers[lo].eligible(p) {
        Some(lo)
    } else {
        first_eligible_in(peers, p, lo + 1, hi)
    }
}

/// The round-robin choice: the first eligible peer at or after the
/// cursor, wrapping around to the front.
pub open spec fn rr_choice(peers: Seq<PeerRecord>, cursor: int, p: Protocol) -> Option<int> {
    match first_eligible_in(peers, p, cursor, peers.len() as int) {
        Some(i) => Some(i),
        None => first_eligible_in(peers, p, 0, cursor),
    }
}

/// When the scan finds nobody, nobody in the range is eligible.
proof fn lemma_first_eligible_none(peers: Seq<PeerRecord>, p: Protocol, lo: int, hi: int)
    requires
        first_eligible_in(peers, p, lo, hi) is None,
    ensures
        forall|i: int| lo <= i < hi && 0 <= i < peers.len() ==> !peers[i].eligible(p),
    decreases hi - lo,
{
    if lo < hi {
        lemma_first_eligible_none(peers, p, lo + 1, hi);
    }
}

/// Filtering one protocol out keeps exactly the others.
proof fn lemma_filter_keeps(s: Seq<Protocol>, p: Protocol)
    ensures
        !s.filter(|q: Protocol| q != p).contains(p),
        forall|q: Protocol|
            q != p ==> (s.filter(|q2: Protocol| q2 != p).contains(q) <==> s.contains(q)),
{
    let pred = |q: Protocol| q != p;
    s.filter_lemma(pred);
    assert(pred == (|q2: Protocol| q2 != p));
    if s.filter(pred).contains(p) {
        let i = choose|i: int| 0 <= i < s.filter(pred).len() && s.filter(pred)[i] == p;
        assert(pred(s.filter(pred)[i]));
    }
    assert forall|q: Protocol| q != p && s.filter(pred).contains(q) implies s.contains(q) by {
        s.lemma_filter_contains_rev(pred, q);
    }
    assert forall|q: Protocol| q != p && s.contains(q) implies s.filter(pred).contains(q) by {
        let i = choose|i: int| 0 <= i < s.len() && s[i] == q;
        assert(pred(s[i]));
        assert(s.filter(pred).contains(s[i]));
    }
}

} // verus!
