//! Fragmenting a video frame into UDP chunk packets and putting it back
//! together. Each packet carries a 10-byte big-endian header {frame_id: u32,
//! chunk_index: u16, chunk_count: u16, payload_len: u16} and at most 1390
//! payload bytes. A frame that would need more than 65535 chunks is dropped,
//! never sent. A receiver reassembles by frame id and must discard a frame
//! whose chunks did not all arrive before the next frame id begins.
use vstd::arithmetic::div_mod::{lemma_fundamental_div_mod, lemma_fundamental_div_mod_converse};
use vstd::prelude::*;
use vstd::slice::{slice_subrange, slice_to_vec};

verus! {

/// Payload bytes per chunk.
pub const CHUNK_PAYLOAD: usize = 1390;

/// Header bytes per chunk.
pub const CHUNK_HEADER: usize = 10;

/// Big-endian bytes of a 16-bit value.
pub open spec fn u16_be(x: u16) -> Seq<u8> {
    seq![(x >> 8) as u8, x as u8]
}

/// Big-endian bytes of a 32-bit value.
pub open spec fn u32_be(x: u32) -> Seq<u8> {
    seq![(x >> 24) as u8, (x >> 16) as u8, (x >> 8) as u8, x as u8]
}

/// One fragment of a frame, as it travels in a datagram.
pub struct ChunkPacket {
    pub frame_id: u32,
    pub chunk_index: u16,
    pub chunk_count: u16,
    pub payload: Vec<u8>,
}

/// Mathematical image of a `ChunkPacket`.
pub ghost struct ChunkV {
    pub frame_id: u32,
    pub chunk_index: u16,
    pub chunk_count: u16,
    pub payload: Seq<u8>,
}

impl View for ChunkPacket {
    type V = ChunkV;

    open spec fn view(&self) -> ChunkV {
        ChunkV {
            frame_id: self.frame_id,
            chunk_index: self.chunk_index,
            chunk_count: self.chunk_count,
            payload: self.payload@,
        }
    }
}

impl ChunkV {
    pub open spec fn wf(self) -> bool {
        self.payload.len() <= CHUNK_PAYLOAD
    }
}

/// The canonical datagram bytes of a chunk.
pub open spec fn spec_encode_chunk(c: ChunkV) -> Seq<u8> {
    u32_be(c.frame_id) + u16_be(c.chunk_index) + u16_be(c.chunk_count) + u16_be(
        c.payload.len() as u16,
    ) + c.payload
}

/// The value of two big-endian header bytes.
pub open spec fn be16(b0: u8, b1: u8) -> u16 {
    ((b0 as u16) << 8) | (b1 as u16)
}

/// The value of four big-endian header bytes.
pub open spec fn be32(b0: u8, b1: u8, b2: u8, b3: u8) -> u32 {
    ((b0 as u32) << 24) | ((b1 as u32) << 16) | ((b2 as u32) << 8) | (b3 as u32)
}

/// The chunk a datagram denotes: the header must be complete, the length
/// field must match the remaining bytes exactly, and the payload must fit a
/// chunk.
pub open spec fn parse_chunk(data: Seq<u8>) -> Option<ChunkV> {
    if data.len() >= 10 && be16(data[8], data[9]) as int == data.len() - 10 && data.len() - 10
        <= CHUNK_PAYLOAD {
        Some(
            ChunkV {
                frame_id: be32(data[0], data[1], data[2], data[3]),
                chunk_index: be16(data[4], data[5]),
                chunk_count: be16(data[6], data[7]),
                payload: data.subrange(10, data.len() as int),
            },
        )
    } else {
        None
    }
}

/// How many chunks a frame of length `len` needs.
pub open spec fn spec_chunk_count(len: int) -> int {
    if len % 1390 == 0 {
        len / 1390
    } else {
        len / 1390 + 1
    }
}

/// The payload of chunk `i` of a frame.
pub open spec fn spec_chunk_payload(frame: Seq<u8>, i: int) -> Seq<u8> {
    frame.subrange(
        i * 1390,
        if (i + 1) * 1390 <= frame.len() {
            (i + 1) * 1390
        } else {
            frame.len() as int
        },
    )
}

/// The first `n` chunk payloads of a frame, in order.
pub open spec fn spec_payloads_concat(frame: Seq<u8>, n: int) -> Seq<u8>
    decreases n,
{
    if n <= 0 {
        Seq::empty()
    } else {
        spec_payloads_concat(frame, n - 1) + spec_chunk_payload(frame, n - 1)
    }
}

/// The ceiling form of the chunk count, as the header field carries it.
pub proof fn lemma_chunk_count_ceil(len: int)
    requires
        len >= 0,
    ensures
        spec_chunk_count(len) == (len + 1389) / 1390,
        spec_chunk_count(len) >= 0,
        1390 * spec_chunk_count(len) >= len,
        len > 0 ==> 1390 * (spec_chunk_count(len) - 1) < len,
{
    lemma_fundamental_div_mod(len, 1390);
    let q = len / 1390;
    let r = len % 1390;
    if r == 0 {
        lemma_fundamental_div_mod_converse(len + 1389, 1390, q, 1389);
    } else {
        lemma_fundamental_div_mod_converse(len + 1389, 1390, q + 1, r - 1);
    }
}

/// Law: joining chunk payloads 0..n covers the frame's first 1390·n bytes,
/// so joining all of them reproduces the frame exactly.
pub proof fn lemma_payloads_concat_prefix(frame: Seq<u8>, n: int)
    requires
        0 <= n,
        1390 * (n - 1) < frame.len() || n == 0,
    ensures
        spec_payloads_concat(frame, n) == frame.subrange(
            0,
            if 1390 * n <= frame.len() {
                1390 * n
            } else {
                frame.len() as int
            },
        ),
    decreases n,
{
    if n == 0 {
        assert(spec_payloads_concat(frame, 0) =~= frame.subrange(0, 0));
    } else {
        lemma_payloads_concat_prefix(frame, n - 1);
        let hi = if 1390 * n <= frame.len() {
            1390 * n
        } else {
            frame.len() as int
        };
        assert(spec_payloads_concat(frame, n) =~= frame.subrange(0, hi));
    }
}

/// Law: for a frame of length L, the header's chunk count is ceil(L/1390),
/// and reassembling chunks 0..count-1 in order reproduces the frame.
pub proof fn lemma_chunks_reassemble(frame: Seq<u8>)
    ensures
        spec_chunk_count(frame.len() as int) == (frame.len() + 1389) / 1390,
        spec_payloads_concat(frame, spec_chunk_count(frame.len() as int)) == frame,
{
    let len = frame.len() as int;
    lemma_chunk_count_ceil(len);
    let n = spec_chunk_count(len);
    lemma_payloads_concat_prefix(frame, n);
    assert(frame.subrange(0, len) =~= frame);
}

/// Writes the header and payload of one chunk.
pub fn encode_chunk(c: &ChunkPacket) -> (out: Vec<u8>)
    requires
        c@.wf(),
    ensures
        out@ == spec_encode_chunk(c@),
        out@.len() == CHUNK_HEADER + c@.payload.len(),
{
    let mut out: Vec<u8> = Vec::new();
    out.push((c.frame_id >> 24) as u8);
    out.push((c.frame_id >> 16) as u8);
    out.push((c.frame_id >> 8) as u8);
    out.push(c.frame_id as u8);
    out.push((c.chunk_index >> 8) as u8);
    out.push(c.chunk_index as u8);
    out.push((c.chunk_count >> 8) as u8);
    out.push(c.chunk_count as u8);
    let plen = c.payload.len() as u16;
    out.push((plen >> 8) as u8);
    out.push(plen as u8);
    out.extend_from_slice(c.payload.as_slice());
    proof {
        assert(out@ =~= spec_encode_chunk(c@));
    }
    out
}

/// Reads one chunk back from a datagram, exactly as `parse_chunk` says; a
/// found chunk's bytes are its own canonical encoding.
pub fn decode_chunk(data: &[u8]) -> (r: Option<ChunkPacket>)
    ensures
        match r {
            Some(c) => {
                &&& parse_chunk(data@) == Some(c@)
                &&& data@ == spec_encode_chunk(c@)
                &&& c@.wf()
            },
            None => parse_chunk(data@) is None,
        },
{
    if data.len() < 10 {
        return None;
    }
    let frame_id = ((data[0] as u32) << 24) | ((data[1] as u32) << 16) | ((data[2] as u32) << 8)
        | (data[3] as u32);
    let chunk_index = ((data[4] as u16) << 8) | (data[5] as u16);
    let chunk_count = ((data[6] as u16) << 8) | (data[7] as u16);
    let payload_len = ((data[8] as u16) << 8) | (data[9] as u16);
    if payload_len as usize > CHUNK_PAYLOAD {
        return None;
    }
    if data.len() - 10 != payload_len as usize {
        return None;
    }
    let payload = slice_to_vec(slice_subrange(data, 10, data.len()));
    let c = ChunkPacket { frame_id, chunk_index, chunk_count, payload };
    proof {
        let d0 = data@[0];
        let d1 = data@[1];
        let d2 = data@[2];
        let d3 = data@[3];
        let fid = c.frame_id;
        assert(fid == ((d0 as u32) << 24) | ((d1 as u32) << 16) | ((d2 as u32) << 8) | (
        d3 as u32) ==> (fid >> 24) as u8 == d0 && (fid >> 16) as u8 == d1 && (fid >> 8) as u8 == d2
            && fid as u8 == d3) by (bit_vector);
        let d4 = data@[4];
        let d5 = data@[5];
        let ci = c.chunk_index;
        assert(ci == ((d4 as u16) << 8) | (d5 as u16) ==> (ci >> 8) as u8 == d4 && ci as u8 == d5)
            by (bit_vector);
        let d6 = data@[6];
        let d7 = data@[7];
        let cc = c.chunk_count;
        assert(cc == ((d6 as u16) << 8) | (d7 as u16) ==> (cc >> 8) as u8 == d6 && cc as u8 == d7)
            by (bit_vector);
        let d8 = data@[8];
        let d9 = data@[9];
        let pl = ((d8 as u16) << 8) | (d9 as u16);
        assert(pl == ((d8 as u16) << 8) | (d9 as u16) ==> (pl >> 8) as u8 == d8 && pl as u8 == d9)
            by (bit_vector);
        assert(data@ =~= spec_encode_chunk(c@));
    }
    Some(c)
}

/// A slot per expected chunk, each filled at most once.
pub open spec fn empty_parts(n: u16) -> Seq<Option<Seq<u8>>> {
    Seq::new(n as nat, |i: int| None)
}

/// Whether every expected chunk has arrived.
pub open spec fn all_parts(parts: Seq<Option<Seq<u8>>>) -> bool {
    forall|k: int| 0 <= k < parts.len() ==> (#[trigger] parts[k]) is Some
}

/// The first `n` stored payloads, joined in index order.
pub open spec fn concat_parts(parts: Seq<Option<Seq<u8>>>, n: int) -> Seq<u8>
    decreases n,
{
    if n <= 0 {
        Seq::empty()
    } else {
        concat_parts(parts, n - 1) + parts[n - 1]->Some_0
    }
}

/// Mathematical image of a `Reassembler`.
pub ghost struct ReassemblerV {
    pub frame_id: u32,
    pub parts: Seq<Option<Seq<u8>>>,
}

/// One receiver step. A chunk with a malformed header is ignored. A chunk of
/// a different frame id (or a different count) begins a new frame, so an
/// incomplete predecessor is discarded, never delivered. The frame comes out
/// exactly when its last missing chunk arrives.
pub open spec fn spec_feed(s: ReassemblerV, c: ChunkV) -> (ReassemblerV, Option<Seq<u8>>) {
    if c.chunk_count == 0 || c.chunk_index >= c.chunk_count {
        (s, None)
    } else {
        let base = if s.frame_id == c.frame_id && s.parts.len() == c.chunk_count as nat {
            s.parts
        } else {
            empty_parts(c.chunk_count)
        };
        let stored = if base[c.chunk_index as int] is None {
            base.update(c.chunk_index as int, Some(c.payload))
        } else {
            base
        };
        if all_parts(stored) {
            (
                ReassemblerV { frame_id: c.frame_id, parts: Seq::empty() },
                Some(concat_parts(stored, stored.len() as int)),
            )
        } else {
            (ReassemblerV { frame_id: c.frame_id, parts: stored }, None)
        }
    }
}

/// The receiver state: the frame being collected and its arrived chunks.
pub struct Reassembler {
    pub frame_id: u32,
    pub parts: Vec<Option<Vec<u8>>>,
}

impl View for Reassembler {
    type V = ReassemblerV;

    open spec fn view(&self) -> ReassemblerV {
        ReassemblerV {
            frame_id: self.frame_id,
            parts: self.parts@.map_values(
                |p: Option<Vec<u8>>|
                    match p {
                        Some(v) => Some(v@),
                        None => None,
                    },
            ),
        }
    }
}

impl Reassembler {
    /// A receiver with no frame in progress.
    pub fn new() -> (r: Reassembler)
        ensures
            r@.parts.len() == 0,
    {
        Reassembler { frame_id: 0, parts: Vec::new() }
    }

    /// Feeds one received chunk, exactly as `spec_feed` says.
    #[verifier::loop_isolation(false)]
    pub fn feed(&mut self, c: &ChunkPacket) -> (r: Option<Vec<u8>>)
        ensures
            ({
                let (state, out) = spec_feed(old(self)@, c@);
                &&& final(self)@ == state
                &&& match r {
                    Some(frame) => out == Some(frame@),
                    None => out is None,
                }
            }),
    {
        if c.chunk_count == 0 || c.chunk_index >= c.chunk_count {
            return None;
        }
        let count = c.chunk_count as usize;
        if !(self.frame_id == c.frame_id && self.parts.len() == count) {
            let mut fresh: Vec<Option<Vec<u8>>> = Vec::new();
            while fresh.len() < count
                invariant
                    fresh@.len() <= count,
                    forall|k: int| 0 <= k < fresh@.len() ==> (#[trigger] fresh@[k]) is None,
                decreases count - fresh@.len(),
            {
                fresh.push(None);
            }
            self.frame_id = c.frame_id;
            self.parts = fresh;
            proof {
                assert(self@.parts =~= empty_parts(c.chunk_count));
            }
        }
        let ghost base = self@.parts;
        let idx = c.chunk_index as usize;
        if self.parts[idx].is_none() {
            proof {
                assert(base[idx as int] is None);
            }
            self.parts.set(idx, Some(slice_to_vec(c.payload.as_slice())));
            proof {
                assert(self@.parts =~= base.update(idx as int, Some(c@.payload)));
            }
        } else {
            proof {
                assert(base[idx as int] is Some);
            }
        }
        let ghost stored = self@.parts;
        let n = self.parts.len();
        let mut k: usize = 0;
        while k < n
            invariant
                0 <= k <= n,
                n == self.parts@.len(),
                self@.parts == stored,
                self.frame_id == c.frame_id,
                forall|j: int| 0 <= j < k ==> (#[trigger] stored[j]) is Some,
            decreases n - k,
        {
            if self.parts[k].is_none() {
                proof {
                    assert(stored[k as int] is None);
                    assert(!all_parts(stored));
                }
                return None;
            }
            k += 1;
        }
        proof {
            assert(all_parts(stored));
        }
        let mut frame: Vec<u8> = Vec::new();
        let mut i: usize = 0;
        while i < n
            invariant
                0 <= i <= n,
                n == self.parts@.len(),
                self@.parts == stored,
                all_parts(stored),
                frame@ == concat_parts(stored, i as int),
            decreases n - i,
        {
            match &self.parts[i] {
                Some(part) => {
                    proof {
                        assert(stored[i as int] == Some(part@));
                    }
                    frame.extend_from_slice(part.as_slice());
                    proof {
                        assert(frame@ =~= concat_parts(stored, i + 1));
                    }
                },
                None => {
                    proof {
                        assert(stored[i as int] is Some);
                        assert(false);
                    }
                },
            }
            i += 1;
        }
        self.parts = Vec::new();
        proof {
            assert(self@.parts =~= Seq::<Option<Seq<u8>>>::empty());
        }
        Some(frame)
    }
}

/// Law: the slots filled with exactly the chunk payloads of a frame join
/// back to the frame itself.
pub proof fn lemma_parts_of_split_join(frame: Seq<u8>, n: int)
    requires
        0 <= n,
    ensures
        concat_parts(Seq::new(n as nat, |i: int| Some(spec_chunk_payload(frame, i))), n)
            == spec_payloads_concat(frame, n),
    decreases n,
{
    if n > 0 {
        lemma_parts_of_split_join(frame, n - 1);
        let full = Seq::new(n as nat, |i: int| Some(spec_chunk_payload(frame, i)));
        let pre = Seq::new((n - 1) as nat, |i: int| Some(spec_chunk_payload(frame, i)));
        assert(concat_parts(full, n - 1) == concat_parts(pre, n - 1)) by {
            lemma_concat_parts_prefix(full, pre, n - 1);
        }
    }
}

/// Joining reads only the first `n` slots, so equal prefixes join equally.
proof fn lemma_concat_parts_prefix(a: Seq<Option<Seq<u8>>>, b: Seq<Option<Seq<u8>>>, n: int)
    requires
        forall|k: int| 0 <= k < n ==> a[k] == b[k],
    ensures
        concat_parts(a, n) == concat_parts(b, n),
    decreases n,
{
    if n > 0 {
        lemma_concat_parts_prefix(a, b, n - 1);
    }
}

/// Splits a frame into its chunk packets, in index order; a frame needing
/// more than 65535 chunks is refused so it is never sent.
pub fn split_frame(frame: &[u8], frame_id: u32) -> (r: Option<Vec<ChunkPacket>>)
    ensures
        r is Some <==> spec_chunk_count(frame@.len() as int) <= 65535,
        r is Some ==> {
            let chunks = r->Some_0@;
            &&& chunks.len() == spec_chunk_count(frame@.len() as int)
            &&& forall|i: int|
                0 <= i < chunks.len() ==> {
                    &&& (#[trigger] chunks[i])@.frame_id == frame_id
                    &&& chunks[i]@.chunk_index == i
                    &&& chunks[i]@.chunk_count == chunks.len()
                    &&& chunks[i]@.payload == spec_chunk_payload(frame@, i)
                }
        },
{
    let len = frame.len();
    let total = len / 1390 + if len % 1390 == 0 {
        0
    } else {
        1
    };
    proof {
        lemma_chunk_count_ceil(len as int);
    }
    if total > 65535 {
        return None;
    }
    let mut chunks: Vec<ChunkPacket> = Vec::new();
    let mut i: usize = 0;
    let mut start: usize = 0;
    while i < total
        invariant
            0 <= i <= total,
            total == spec_chunk_count(len as int),
            total <= 65535,
            len == frame@.len(),
            start as int == if 1390 * i <= len as int {
                1390 * (i as int)
            } else {
                len as int
            },
            chunks@.len() == i,
            forall|j: int|
                0 <= j < i ==> {
                    &&& (#[trigger] chunks@[j])@.frame_id == frame_id
                    &&& chunks@[j]@.chunk_index == j
                    &&& chunks@[j]@.chunk_count == total
                    &&& chunks@[j]@.payload == spec_chunk_payload(frame@, j)
                },
        decreases total - i,
    {
        proof {
            lemma_chunk_count_ceil(len as int);
            assert(1390 * (total - 1) < len);
            assert(start < len);
        }
        let end = if len - start > 1390 {
            start + 1390
        } else {
            len
        };
        let payload = slice_to_vec(slice_subrange(frame, start, end));
        chunks.push(
            ChunkPacket { frame_id, chunk_index: i as u16, chunk_count: total as u16, payload },
        );
        i += 1;
        start = end;
    }
    Some(chunks)
}

} // verus!
