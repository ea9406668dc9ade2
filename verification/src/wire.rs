//! The SQMR wire format: little-endian integers, the length-prefixed
//! frame envelope, the query payload, and the response-or-fin payload in
//! which the end-of-data sentinel is the empty payload.

use vstd::prelude::*;

verus! {

/// The direction in which a query walks the chain.
#[derive(Debug, Clone, Copy, PartialEq, Eq, Structural)]
pub enum Direction {
    Forward,
    Backward,
}

/// One SQMR query: a block range request.
#[derive(Debug, Clone, PartialEq, Eq)]
pub struct Query {
    /// First block of the range.
    pub start_block: u64,
    /// Optional hash the start block must match; exactly 32 bytes when
    /// present.
    pub start_block_hash: Option<Vec<u8>>,
    /// Maximal number of items to return.
    pub limit: u64,
    pub direction: Direction,
    /// Distance between consecutive returned blocks.
    pub step: u64,
}

impl Query {
    /// A query is well formed when its optional hash, if present, is
    /// exactly 32 bytes.
    pub open spec fn wf(self) -> bool {
        match self.start_block_hash {
            Some(h) => h@.len() == 32,
            None => true,
        }
    }
}

/// The eight little-endian bytes of `x`.
pub open spec fn u64_le(x: u64) -> Seq<u8> {
    seq![
        (x & 0xff) as u8,
        ((x >> 8) & 0xff) as u8,
        ((x >> 16) & 0xff) as u8,
        ((x >> 24) & 0xff) as u8,
        ((x >> 32) & 0xff) as u8,
        ((x >> 40) & 0xff) as u8,
        ((x >> 48) & 0xff) as u8,
        ((x >> 56) & 0xff) as u8,
    ]
}

/// The value read back from eight little-endian bytes.
pub open spec fn le_u64(s: Seq<u8>) -> u64
    recommends
        s.len() == 8,
{
    (s[0] as u64) | ((s[1] as u64) << 8) | ((s[2] as u64) << 16) | ((s[3] as u64) << 24) | (
    (s[4] as u64) << 32) | ((s[5] as u64) << 40) | ((s[6] as u64) << 48) | ((s[7] as u64) << 56)
}

/// Reading back the little-endian bytes of `x` yields `x`.
pub proof fn lemma_u64_le_round_trip(x: u64)
    ensures
        le_u64(u64_le(x)) == x,
{
    assert((((x & 0xff) as u8) as u64) | (((((x >> 8) & 0xff) as u8) as u64) << 8) | (((((x >> 16)
        & 0xff) as u8) as u64) << 16) | (((((x >> 24) & 0xff) as u8) as u64) << 24) | (((((x >> 32)
        & 0xff) as u8) as u64) << 32) | (((((x >> 40) & 0xff) as u8) as u64) << 40) | (((((x >> 48)
        & 0xff) as u8) as u64) << 48) | (((((x >> 56) & 0xff) as u8) as u64) << 56) == x)
        by (bit_vector);
}

/// Re-encoding the value read from eight little-endian bytes yields the
/// same eight bytes.
pub proof fn lemma_le_u64_bytes(s: Seq<u8>)
    requires
        s.len() == 8,
    ensures
        u64_le(le_u64(s)) =~= s,
{
    let b0 = s[0] as u64;
    let b1 = s[1] as u64;
    let b2 = s[2] as u64;
    let b3 = s[3] as u64;
    let b4 = s[4] as u64;
    let b5 = s[5] as u64;
    let b6 = s[6] as u64;
    let b7 = s[7] as u64;
    let x = b0 | (b1 << 8) | (b2 << 16) | (b3 << 24) | (b4 << 32) | (b5 << 40) | (b6 << 48) | (b7
        << 56);
    assert(b0 < 256 && b1 < 256 && b2 < 256 && b3 < 256 && b4 < 256 && b5 < 256 && b6 < 256 && b7
        < 256);
    assert((x & 0xff) as u8 == b0 as u8 && ((x >> 8) & 0xff) as u8 == b1 as u8 && ((x >> 16)
        & 0xff) as u8 == b2 as u8 && ((x >> 24) & 0xff) as u8 == b3 as u8 && ((x >> 32) & 0xff)
        as u8 == b4 as u8 && ((x >> 40) & 0xff) as u8 == b5 as u8 && ((x >> 48) & 0xff) as u8 == b6
        as u8 && ((x >> 56) & 0xff) as u8 == b7 as u8) by (bit_vector)
        requires
            b0 < 256 && b1 < 256 && b2 < 256 && b3 < 256 && b4 < 256 && b5 < 256 && b6 < 256 && b7
                < 256,
            x == b0 | (b1 << 8) | (b2 << 16) | (b3 << 24) | (b4 << 32) | (b5 << 40) | (b6 << 48) | (
            b7 << 56),
    ;
    assert(s[0] as u64 as u8 == s[0]);
}

/// Appends the eight little-endian bytes of `x` to `out`.
pub fn write_u64(x: u64, out: &mut Vec<u8>)
    ensures
        final(out)@ == old(out)@ + u64_le(x),
{
    out.push((x & 0xff) as u8);
    out.push(((x >> 8) & 0xff) as u8);
    out.push(((x >> 16) & 0xff) as u8);
    out.push(((x >> 24) & 0xff) as u8);
    out.push(((x >> 32) & 0xff) as u8);
    out.push(((x >> 40) & 0xff) as u8);
    out.push(((x >> 48) & 0xff) as u8);
    out.push(((x >> 56) & 0xff) as u8);
    assert(out@ =~= old(out)@ + u64_le(x));
}

/// Reads the eight bytes at `pos` as a little-endian integer.
pub fn read_u64(bytes: &Vec<u8>, pos: usize) -> (x: u64)
    requires
        pos + 8 <= bytes@.len(),
    ensures
        x == le_u64(bytes@.subrange(pos as int, pos as int + 8)),
{
    let n: usize = bytes.len();
    assert(pos + 8 <= n);
    let b0 = bytes[pos] as u64;
    let b1 = bytes[pos + 1] as u64;
    let b2 = bytes[pos + 2] as u64;
    let b3 = bytes[pos + 3] as u64;
    let b4 = bytes[pos + 4] as u64;
    let b5 = bytes[pos + 5] as u64;
    let b6 = bytes[pos + 6] as u64;
    let b7 = bytes[pos + 7] as u64;
    proof {
        let s = bytes@.subrange(pos as int, pos as int + 8);
        assert(s[0] == bytes@[pos as int]);
        let x0 = s[0] as u64;
        let x1 = s[1] as u64;
        let x2 = s[2] as u64;
        let x3 = s[3] as u64;
        let x4 = s[4] as u64;
        let x5 = s[5] as u64;
        let x6 = s[6] as u64;
        let x7 = s[7] as u64;
        assert(x0 | (x1 << 8) | (x2 << 16) | (x3 << 24) | (x4 << 32) | (x5 << 40) | (x6 << 48) | (
        x7 << 56) == le_u64(s));
    }
    b0 | (b1 << 8) | (b2 << 16) | (b3 << 24) | (b4 << 32) | (b5 << 40) | (b6 << 48) | (b7 << 56)
}

/// The encoded form of a query: start block, a presence byte with the
/// optional 32-byte hash, limit, direction byte, step.
pub open spec fn query_bytes(q: Query) -> Seq<u8> {
    u64_le(q.start_block) + (match q.start_block_hash {
        Some(h) => seq![1u8] + h@,
        None => seq![0u8],
    }) + u64_le(q.limit) + (match q.direction {
        Direction::Forward => seq![0u8],
        Direction::Backward => seq![1u8],
    }) + u64_le(q.step)
}

/// Encodes a query for the single client-to-server frame of a session.
pub fn encode_query(q: &Query) -> (out: Vec<u8>)
    requires
        q.wf(),
    ensures
        out@ == query_bytes(*q),
{
    let mut out: Vec<u8> = Vec::new();
    write_u64(q.start_block, &mut out);
    match &q.start_block_hash {
        Some(h) => {
            out.push(1u8);
            out.extend_from_slice(h.as_slice());
        },
        None => {
            out.push(0u8);
        },
    }
    write_u64(q.limit, &mut out);
    match q.direction {
        Direction::Forward => out.push(0u8),
        Direction::Backward => out.push(1u8),
    }
    write_u64(q.step, &mut out);
    assert(out@ =~= query_bytes(*q));
    out
}

/// Decodes a query frame; rejects any byte sequence that is not exactly
/// the encoding of a well-formed query.
#[verifier::rlimit(100)]
pub fn decode_query(bytes: &Vec<u8>) -> (r: Option<Query>)
    ensures
        match r {
            Some(q) => q.wf() && query_bytes(q) == bytes@,
            None => forall|q: Query| q.wf() ==> query_bytes(q) != bytes@,
        },
{
    if bytes.len() < 9 {
        proof {
            assert forall|q: Query| q.wf() implies query_bytes(q) != bytes@ by {
                assert(query_bytes(q).len() >= 26);
            }
        }
        return None;
    }
    let start_block = read_u64(bytes, 0);
    let has_hash = bytes[8];
    if has_hash != 0 && has_hash != 1 {
        proof {
            assert forall|q: Query| q.wf() implies query_bytes(q) != bytes@ by {
                assert(query_bytes(q).len() >= 9);
                assert(query_bytes(q)[8] == 0u8 || query_bytes(q)[8] == 1u8);
            }
        }
        return None;
    }
    let hash_len: usize = if has_hash == 1 {
        32
    } else {
        0
    };
    // start(8) + flag(1) + hash + limit(8) + direction(1) + step(8)
    if bytes.len() != 8 + 1 + hash_len + 8 + 1 + 8 {
        proof {
            assert forall|q: Query| q.wf() implies query_bytes(q) != bytes@ by {
                if query_bytes(q) == bytes@ {
                    assert(query_bytes(q)[8] == bytes@[8]);
                    if q.start_block_hash is Some {
                        assert(query_bytes(q).len() == 58);
                    } else {
                        assert(query_bytes(q).len() == 26);
                    }
                }
            }
        }
        return None;
    }
    let start_block_hash: Option<Vec<u8>> = if has_hash == 1 {
        let mut h: Vec<u8> = Vec::new();
        let mut i: usize = 0;
        while i < 32
            invariant
                i <= 32,
                bytes@.len() == 58,
                h@ =~= bytes@.subrange(9, 9 + i as int),
            decreases 32 - i,
        {
            h.push(bytes[9 + i]);
            i = i + 1;
        }
        Some(h)
    } else {
        None
    };
    let tail: usize = 9 + hash_len;
    let limit = read_u64(bytes, tail);
    let dir_byte = bytes[tail + 8];
    let direction = if dir_byte == 0 {
        Direction::Forward
    } else {
        Direction::Backward
    };
    let step = read_u64(bytes, tail + 9);
    if dir_byte != 0 && dir_byte != 1 {
        proof {
            assert forall|q2: Query| q2.wf() implies query_bytes(q2) != bytes@ by {
                if query_bytes(q2) == bytes@ {
                    if q2.start_block_hash is Some {
                        assert(query_bytes(q2)[8] == 1u8);
                        assert(query_bytes(q2)[49] == 0u8 || query_bytes(q2)[49] == 1u8);
                    } else {
                        assert(query_bytes(q2)[8] == 0u8);
                        assert(query_bytes(q2)[17] == 0u8 || query_bytes(q2)[17] == 1u8);
                    }
                }
            }
        }
        return None;
    }
    let q = Query { start_block, start_block_hash, limit, direction, step };
    proof {
        lemma_le_u64_bytes(bytes@.subrange(0, 8));
        lemma_le_u64_bytes(bytes@.subrange(tail as int, tail as int + 8));
        lemma_le_u64_bytes(bytes@.subrange(tail as int + 9, tail as int + 17));
        assert(query_bytes(q) =~= bytes@);
    }
    Some(q)
}

/// The payload of one server-to-client frame: either one response item
/// or the end-of-data sentinel.
#[derive(Debug, Clone, PartialEq, Eq)]
pub enum DataOrFin {
    /// One response item; its encoding is never empty.
    Data(Vec<u8>),
    /// End of data.
    Fin,
}

impl DataOrFin {
    /// Well-formed payloads carry data in a non-empty encoding, so that
    /// the empty payload is unambiguously the sentinel.
    pub open spec fn wf(self) -> bool {
        match self {
            DataOrFin::Data(b) => b@.len() > 0,
            DataOrFin::Fin => true,
        }
    }
}

/// The encoded payload: `Fin` is the frame containing no payload.
pub open spec fn data_or_fin_bytes(d: DataOrFin) -> Seq<u8> {
    match d {
        DataOrFin::Data(b) => b@,
        DataOrFin::Fin => Seq::empty(),
    }
}

/// Encodes a response-or-fin payload.
pub fn encode_data_or_fin(d: DataOrFin) -> (out: Vec<u8>)
    requires
        d.wf(),
    ensures
        out@ == data_or_fin_bytes(d),
{
    match d {
        DataOrFin::Data(b) => b,
        DataOrFin::Fin => Vec::new(),
    }
}

/// Decodes a frame payload: the empty payload is the sentinel, anything
/// else is data. Total, and the exact inverse of [`encode_data_or_fin`].
pub fn decode_data_or_fin(bytes: Vec<u8>) -> (d: DataOrFin)
    ensures
        d.wf(),
        data_or_fin_bytes(d) == bytes@,
{
    if bytes.len() == 0 {
        assert(bytes@ =~= Seq::<u8>::empty());
        DataOrFin::Fin
    } else {
        DataOrFin::Data(bytes)
    }
}

/// Puts a payload into the length-prefixed frame envelope.
pub fn encode_frame(payload: &Vec<u8>) -> (out: Vec<u8>)
    ensures
        out@ == u64_le(payload@.len() as u64) + payload@,
{
    let mut out: Vec<u8> = Vec::new();
    write_u64(payload.len() as u64, &mut out);
    out.extend_from_slice(payload.as_slice());
    out
}

/// Reads one length-prefixed frame starting at `pos`; returns the
/// payload and the position right after the frame, or `None` when the
/// buffer holds no complete frame at `pos`.
pub fn decode_frame(bytes: &Vec<u8>, pos: usize) -> (r: Option<(Vec<u8>, usize)>)
    requires
        pos <= bytes@.len(),
    ensures
        match r {
            Some(p) => {
                &&& pos + 8 + p.0@.len() == p.1 <= bytes@.len()
                &&& bytes@.subrange(pos as int, p.1 as int) == u64_le(p.0@.len() as u64) + p.0@
            },
            None => pos + 8 > bytes@.len() || ({
                let len = le_u64(bytes@.subrange(pos as int, pos as int + 8));
                pos + 8 + len > bytes@.len()
            }),
        },
{
    let n: usize = bytes.len();
    if n < 8 || pos > n - 8 {
        return None;
    }
    let len = read_u64(bytes, pos);
    if len > (n - pos - 8) as u64 {
        return None;
    }
    let len_usize = len as usize;
    let mut payload: Vec<u8> = Vec::new();
    let mut i: usize = 0;
    while i < len_usize
        invariant
            i <= len_usize,
            n == bytes@.len(),
            pos + 8 + len_usize <= n,
            payload@ =~= bytes@.subrange(pos as int + 8, pos as int + 8 + i as int),
        decreases len_usize - i,
    {
        payload.push(bytes[pos + 8 + i]);
        i = i + 1;
    }
    proof {
        lemma_le_u64_bytes(bytes@.subrange(pos as int, pos as int + 8));
        assert(bytes@.subrange(pos as int, pos as int + 8 + len_usize as int) =~= u64_le(
            payload@.len() as u64,
        ) + payload@);
    }
    Some((payload, pos + 8 + len_usize))
}

/// The query encoding is injective: two well-formed queries with the
/// same encoding agree on every field (hashes as byte sequences). With
/// [`encode_query`] and [`decode_query`] this makes the query codec a
/// round trip.
pub proof fn lemma_query_encoding_injective(q1: Query, q2: Query)
    requires
        q1.wf(),
        q2.wf(),
        query_bytes(q1) == query_bytes(q2),
    ensures
        q1.start_block == q2.start_block,
        q1.limit == q2.limit,
        q1.direction == q2.direction,
        q1.step == q2.step,
        q1.start_block_hash is Some <==> q2.start_block_hash is Some,
        (q1.start_block_hash is Some && q2.start_block_hash is Some)
            ==> q1.start_block_hash->0@ == q2.start_block_hash->0@,
{
    let b = query_bytes(q1);
    assert(b.subrange(0, 8) =~= u64_le(q1.start_block));
    assert(b.subrange(0, 8) =~= u64_le(q2.start_block));
    lemma_u64_le_round_trip(q1.start_block);
    lemma_u64_le_round_trip(q2.start_block);
    assert(b[8] == (if q1.start_block_hash is Some {
        1u8
    } else {
        0u8
    }));
    assert(b[8] == (if q2.start_block_hash is Some {
        1u8
    } else {
        0u8
    }));
    let tail: int = if q1.start_block_hash is Some {
        41
    } else {
        9
    };
    if q1.start_block_hash is Some {
        assert(q1.start_block_hash->0@ =~= b.subrange(9, 41));
        assert(q2.start_block_hash->0@ =~= b.subrange(9, 41));
    }
    assert(b.subrange(tail, tail + 8) =~= u64_le(q1.limit));
    assert(b.subrange(tail, tail + 8) =~= u64_le(q2.limit));
    lemma_u64_le_round_trip(q1.limit);
    lemma_u64_le_round_trip(q2.limit);
    assert(b[tail + 8] == (match q1.direction {
        Direction::Forward => 0u8,
        Direction::Backward => 1u8,
    }));
    assert(b[tail + 8] == (match q2.direction {
        Direction::Forward => 0u8,
        Direction::Backward => 1u8,
    }));
    assert(b.subrange(tail + 9, tail + 17) =~= u64_le(q1.step));
    assert(b.subrange(tail + 9, tail + 17) =~= u64_le(q2.step));
    lemma_u64_le_round_trip(q1.step);
    lemma_u64_le_round_trip(q2.step);
}

} // verus!
