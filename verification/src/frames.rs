//! Frame capture: turning the continuous MJPEG byte stream of the capture
//! process into discrete frames. A frame is a byte range delimited by the
//! 0xFFD8 start marker and the 0xFFD9 end marker; no structure beyond marker
//! scanning is needed. The accumulator keeps at most one latest frame
//! (latest-value-wins) and clears itself if it grows past a hard cap without
//! resolving markers.
use vstd::prelude::*;
use vstd::slice::{slice_subrange, slice_to_vec};

verus! {

/// A buffer that outgrows this without resolving markers is corrupt and is
/// cleared.
pub const FRAME_BUFFER_CAP: usize = 1048576;

/// First position at or after `i` where the byte pair `a`,`b` stands.
pub open spec fn find_pair(s: Seq<u8>, i: int, a: u8, b: u8) -> Option<int>
    decreases s.len() - i,
{
    if i < 0 || i + 1 >= s.len() {
        None
    } else if s[i] == a && s[i + 1] == b {
        Some(i)
    } else {
        find_pair(s, i + 1, a, b)
    }
}

/// What `find_pair` finds is the first pair, and a miss means there is none.
pub proof fn lemma_find_pair_props(s: Seq<u8>, i: int, a: u8, b: u8)
    requires
        0 <= i,
    ensures
        match find_pair(s, i, a, b) {
            Some(k) => {
                &&& i <= k && k + 1 < s.len()
                &&& s[k] == a && s[k + 1] == b
                &&& forall|j: int| i <= j < k ==> !(#[trigger] s[j] == a && s[j + 1] == b)
            },
            None => forall|j: int| i <= j && j + 1 < s.len() ==> !(#[trigger] s[j] == a && s[j + 1] == b),
        },
    decreases s.len() - i,
{
    if i + 1 < s.len() && !(s[i] == a && s[i + 1] == b) {
        lemma_find_pair_props(s, i + 1, a, b);
    }
}

/// One extraction step: the first complete marker-delimited frame, and what
/// is left after it. Bytes before the start marker are discarded with the
/// frame, as the stream may open mid-frame.
pub open spec fn spec_extract(b: Seq<u8>) -> Option<(Seq<u8>, Seq<u8>)> {
    match find_pair(b, 0, 0xff, 0xd8) {
        None => None,
        Some(s) => match find_pair(b, s, 0xff, 0xd9) {
            None => None,
            Some(e) => Some((b.subrange(s, e + 2), b.subrange(e + 2, b.len() as int))),
        },
    }
}

/// All complete frames a buffer currently holds, in order, and the tail
/// still waiting for more bytes.
pub open spec fn spec_extract_all(b: Seq<u8>) -> (Seq<Seq<u8>>, Seq<u8>)
    decreases b.len(),
    via spec_extract_all_decreases
{
    match spec_extract(b) {
        None => (Seq::empty(), b),
        Some(p) => {
            let tail = spec_extract_all(p.1);
            (seq![p.0] + tail.0, tail.1)
        },
    }
}

#[via_fn]
proof fn spec_extract_all_decreases(b: Seq<u8>) {
    match find_pair(b, 0, 0xff, 0xd8) {
        None => {},
        Some(s) => {
            lemma_find_pair_props(b, 0, 0xff, 0xd8);
            lemma_find_pair_props(b, s, 0xff, 0xd9);
        },
    }
}

/// The leftover after one extraction is strictly shorter.
pub proof fn lemma_extract_shrinks(b: Seq<u8>)
    requires
        spec_extract(b) is Some,
    ensures
        spec_extract(b)->Some_0.1.len() < b.len(),
{
    let s = find_pair(b, 0, 0xff, 0xd8)->Some_0;
    lemma_find_pair_props(b, 0, 0xff, 0xd8);
    lemma_find_pair_props(b, s, 0xff, 0xd9);
}

/// First position of the `a`,`b` byte pair in `buffer` at or after `i`.
pub fn find_pair_from(buffer: &[u8], i: usize, a: u8, b: u8) -> (r: Option<usize>)
    ensures
        match r {
            Some(k) => find_pair(buffer@, i as int, a, b) == Some(k as int),
            None => find_pair(buffer@, i as int, a, b) is None,
        },
{
    let n = buffer.len();
    let mut j = i;
    if n < 2 || j > n - 2 {
        proof {
            assert(find_pair(buffer@, i as int, a, b) is None) by {
                lemma_find_pair_props(buffer@, i as int, a, b);
            }
        }
        return None;
    }
    loop
        invariant
            i <= j <= n - 2,
            n == buffer@.len(),
            n >= 2,
            find_pair(buffer@, i as int, a, b) == find_pair(buffer@, j as int, a, b),
        decreases n - j,
    {
        if buffer[j] == a && buffer[j + 1] == b {
            return Some(j);
        }
        if j == n - 2 {
            proof {
                assert(find_pair(buffer@, j + 1, a, b) is None);
            }
            return None;
        }
        j += 1;
    }
}

/// A well-formed frame as the stream carries it: opens with the start
/// marker, closes with the end marker, and holds no end marker earlier.
pub open spec fn well_formed_frame(f: Seq<u8>) -> bool {
    &&& f.len() >= 4
    &&& f[0] == 0xff && f[1] == 0xd8
    &&& f[f.len() - 2] == 0xff && f[f.len() - 1] == 0xd9
    &&& forall|k: int| 0 <= k < f.len() - 2 ==> !(#[trigger] f[k] == 0xff && f[k + 1] == 0xd9)
}

/// Law: a buffer holding exactly one well-formed frame yields exactly that
/// frame and is left empty.
pub proof fn lemma_single_frame_extracted(f: Seq<u8>)
    requires
        well_formed_frame(f),
    ensures
        spec_extract(f) == Some((f, Seq::<u8>::empty())),
        spec_extract_all(f).0 == seq![f],
        spec_extract_all(f).1 == Seq::<u8>::empty(),
{
    assert(find_pair(f, 0, 0xff, 0xd8) == Some(0int));
    lemma_find_pair_at(f, 0, f.len() - 2, 0xff, 0xd9);
    assert(f.subrange(0, f.len() as int) =~= f);
    assert(f.subrange(f.len() as int, f.len() as int) =~= Seq::<u8>::empty());
    assert(spec_extract(Seq::<u8>::empty()) is None);
    assert(spec_extract_all(Seq::<u8>::empty()) == (Seq::<Seq<u8>>::empty(), Seq::<u8>::empty()));
    assert(spec_extract_all(f).0 =~= seq![f]);
}

/// The scan finds a pair exactly where the first one stands.
pub proof fn lemma_find_pair_at(s: Seq<u8>, i: int, k: int, a: u8, b: u8)
    requires
        0 <= i <= k,
        k + 1 < s.len(),
        s[k] == a && s[k + 1] == b,
        forall|j: int| i <= j < k ==> !(#[trigger] s[j] == a && s[j + 1] == b),
    ensures
        find_pair(s, i, a, b) == Some(k),
    decreases k - i,
{
    if i < k {
        lemma_find_pair_at(s, i + 1, k, a, b);
    }
}

/// The accumulator and single-slot frame store of the capture pipeline.
pub struct CameraCapture {
    pub buffer: Vec<u8>,
    pub running: bool,
    pub latest_frame: Option<Vec<u8>>,
}

/// Mathematical image of a `CameraCapture`.
pub ghost struct CaptureV {
    pub buffer: Seq<u8>,
    pub running: bool,
    pub latest_frame: Option<Seq<u8>>,
}

impl View for CameraCapture {
    type V = CaptureV;

    open spec fn view(&self) -> CaptureV {
        CaptureV {
            buffer: self.buffer@,
            running: self.running,
            latest_frame: match self.latest_frame {
                Some(ref f) => Some(f@),
                None => None,
            },
        }
    }
}

impl CameraCapture {
    /// A fresh capture: stopped, with nothing buffered and no frame yet.
    pub fn new() -> (c: CameraCapture)
        ensures
            !c@.running,
            c@.buffer == Seq::<u8>::empty(),
            c@.latest_frame is None,
    {
        CameraCapture { buffer: Vec::new(), running: false, latest_frame: None }
    }

    /// Starts capturing. A double start is a no-op; the result says whether
    /// this call actually started it, so the caller knows whether to spawn.
    pub fn start(&mut self) -> (started: bool)
        ensures
            started == !old(self)@.running,
            final(self)@.running,
            final(self)@.buffer == old(self)@.buffer,
            final(self)@.latest_frame == old(self)@.latest_frame,
    {
        let started = !self.running;
        self.running = true;
        started
    }

    /// Stops capturing and drops the stored frame, as shutdown does.
    pub fn stop(&mut self)
        ensures
            !final(self)@.running,
            final(self)@.latest_frame is None,
            final(self)@.buffer == Seq::<u8>::empty(),
    {
        self.running = false;
        self.latest_frame = None;
        self.buffer = Vec::new();
    }

    pub fn is_running(&self) -> (r: bool)
        ensures
            r == self@.running,
    {
        self.running
    }

    /// The latest complete frame, copied out; the slot keeps it.
    pub fn latest(&self) -> (r: Option<Vec<u8>>)
        ensures
            match r {
                Some(f) => self@.latest_frame == Some(f@),
                None => self@.latest_frame is None,
            },
    {
        match &self.latest_frame {
            Some(f) => Some(clone_bytes(f)),
            None => None,
        }
    }

    /// First position of a start marker in `buffer`.
    pub fn find_jpeg_start(buffer: &[u8]) -> (r: Option<usize>)
        ensures
            match r {
                Some(k) => find_pair(buffer@, 0, 0xff, 0xd8) == Some(k as int),
                None => find_pair(buffer@, 0, 0xff, 0xd8) is None,
            },
    {
        find_pair_from(buffer, 0, 0xff, 0xd8)
    }

    /// First position of an end marker in `buffer`.
    pub fn find_jpeg_end(buffer: &[u8]) -> (r: Option<usize>)
        ensures
            match r {
                Some(k) => find_pair(buffer@, 0, 0xff, 0xd9) == Some(k as int),
                None => find_pair(buffer@, 0, 0xff, 0xd9) is None,
            },
    {
        find_pair_from(buffer, 0, 0xff, 0xd9)
    }

    /// Takes the first complete frame out of the buffer, if one is there.
    pub fn extract_frame(&mut self) -> (r: Option<Vec<u8>>)
        ensures
            final(self)@.running == old(self)@.running,
            final(self)@.latest_frame == old(self)@.latest_frame,
            match spec_extract(old(self)@.buffer) {
                Some(p) => r is Some && r->Some_0@ == p.0 && final(self)@.buffer == p.1,
                None => r is None && final(self)@.buffer == old(self)@.buffer,
            },
    {
        let start = match find_pair_from(self.buffer.as_slice(), 0, 0xff, 0xd8) {
            Some(s) => s,
            None => {
                return None;
            },
        };
        let end = match find_pair_from(self.buffer.as_slice(), start, 0xff, 0xd9) {
            Some(e) => e,
            None => {
                return None;
            },
        };
        let blen = self.buffer.len();
        proof {
            lemma_find_pair_props(self.buffer@, 0, 0xff, 0xd8);
            lemma_find_pair_props(self.buffer@, start as int, 0xff, 0xd9);
            assert(end + 2 <= blen);
        }
        let frame_end = end + 2;
        let frame = slice_to_vec(slice_subrange(self.buffer.as_slice(), start, frame_end));
        let rest = slice_to_vec(slice_subrange(self.buffer.as_slice(), frame_end, blen));
        self.buffer = rest;
        Some(frame)
    }

    /// Feeds one chunk read from the capture process: appends it, takes out
    /// every frame that completed, keeps the last of them as the latest
    /// frame, and clears a buffer that outgrew the cap without resolving.
    pub fn push_bytes(&mut self, chunk: &[u8]) -> (frames: Vec<Vec<u8>>)
        ensures
            final(self)@.running == old(self)@.running,
            ({
                let all = spec_extract_all(old(self)@.buffer + chunk@);
                &&& frames@.map_values(|f: Vec<u8>| f@) == all.0
                &&& final(self)@.buffer == if all.1.len() > FRAME_BUFFER_CAP as int {
                    Seq::<u8>::empty()
                } else {
                    all.1
                }
                &&& final(self)@.latest_frame == if all.0.len() > 0 {
                    Some(all.0.last())
                } else {
                    old(self)@.latest_frame
                }
            }),
    {
        self.buffer.extend_from_slice(chunk);
        proof {
            assert(self.buffer@ =~= old(self)@.buffer + chunk@);
        }
        let ghost whole = self.buffer@;
        let mut frames: Vec<Vec<u8>> = Vec::new();
        let mut done = false;
        while !done
            invariant
                self@.running == old(self)@.running,
                self@.latest_frame == if frames@.len() > 0 {
                    Some(frames@.last()@)
                } else {
                    old(self)@.latest_frame
                },
                spec_extract_all(whole).0 == frames@.map_values(|f: Vec<u8>| f@)
                    + spec_extract_all(self.buffer@).0,
                spec_extract_all(whole).1 == spec_extract_all(self.buffer@).1,
                done ==> spec_extract(self.buffer@) is None,
            decreases self.buffer@.len(), if done {
                0int
            } else {
                1int
            },
        {
            let ghost prev = self.buffer@;
            let next = self.extract_frame();
            match next {
                Some(f) => {
                    proof {
                        lemma_extract_shrinks(prev);
                    }
                    self.latest_frame = Some(clone_bytes(&f));
                    frames.push(f);
                    proof {
                        assert(frames@.map_values(|f: Vec<u8>| f@) =~= frames@.drop_last()
                            .map_values(|g: Vec<u8>| g@).push(frames@.last()@));
                        assert(spec_extract_all(whole).0 =~= frames@.map_values(|g: Vec<u8>| g@)
                            + spec_extract_all(self.buffer@).0);
                    }
                },
                None => {
                    done = true;
                },
            }
        }
        proof {
            assert(spec_extract_all(self.buffer@) == (Seq::<Seq<u8>>::empty(), self.buffer@));
            assert(spec_extract_all(whole).0 =~= frames@.map_values(|f: Vec<u8>| f@));
        }
        if self.buffer.len() > FRAME_BUFFER_CAP {
            self.buffer = Vec::new();
        }
        frames
    }
}

/// A plain byte-for-byte copy.
fn clone_bytes(v: &Vec<u8>) -> (r: Vec<u8>)
    ensures
        r@ == v@,
{
    slice_to_vec(v.as_slice())
}

} // verus!
