//! Serving the video stream: the subscriber registry with its last-seen
//! expiry, the plaintext control commands on the video port, the multipart
//! framing of the HTTP alternative, and the supervision table for the
//! capture process. Sends themselves are fire-and-forget datagrams done by
//! the transport layer; a per-destination failure never aborts the others.
use crate::frames::CameraCapture;
use crate::types::Endpoint;
use vstd::prelude::*;

verus! {

/// Subscribers unseen for this long are expired.
pub const SUBSCRIBER_TTL_MS: u64 = 60000;

/// A subscriber is fresh when it was seen within the TTL (an entry stamped
/// ahead of the clock counts as fresh).
pub open spec fn fresh_sub(e: (Endpoint, u64), now: u64) -> bool {
    now <= e.1 || now - e.1 < SUBSCRIBER_TTL_MS
}

/// First index at or after `i` registered for `ep`.
pub open spec fn find_sub(subs: Seq<(Endpoint, u64)>, ep: Endpoint, i: int) -> Option<int>
    decreases subs.len() - i,
{
    if i < 0 || i >= subs.len() {
        None
    } else if subs[i].0 == ep {
        Some(i)
    } else {
        find_sub(subs, ep, i + 1)
    }
}

/// What expiry leaves: the fresh entries, in order.
pub open spec fn spec_prune(subs: Seq<(Endpoint, u64)>, now: u64) -> Seq<(Endpoint, u64)>
    decreases subs.len(),
{
    if subs.len() == 0 {
        Seq::empty()
    } else {
        let rest = spec_prune(subs.drop_last(), now);
        if fresh_sub(subs.last(), now) {
            rest.push(subs.last())
        } else {
            rest
        }
    }
}

/// An endpoint appears among some entries.
pub open spec fn has_ep(subs: Seq<(Endpoint, u64)>, ep: Endpoint) -> bool {
    exists|k: int| 0 <= k < subs.len() && (#[trigger] subs[k]).0 == ep
}

/// No endpoint is registered twice.
pub open spec fn unique_eps(subs: Seq<(Endpoint, u64)>) -> bool {
    forall|i: int, j: int|
        0 <= i < j < subs.len() ==> (#[trigger] subs[i]).0 != (#[trigger] subs[j]).0
}

/// Expiry keeps exactly the fresh entries and never invents an endpoint.
pub proof fn lemma_prune_props(subs: Seq<(Endpoint, u64)>, now: u64)
    ensures
        forall|x: (Endpoint, u64)|
            #[trigger] spec_prune(subs, now).contains(x) <==> subs.contains(x) && fresh_sub(x, now),
        forall|ep: Endpoint| #[trigger] has_ep(spec_prune(subs, now), ep) ==> has_ep(subs, ep),
        unique_eps(subs) ==> unique_eps(spec_prune(subs, now)),
    decreases subs.len(),
{
    if subs.len() == 0 {
    } else {
        let pre = subs.drop_last();
        lemma_prune_props(pre, now);
        assert forall|x: (Endpoint, u64)| #[trigger] subs.contains(x) implies pre.contains(x) || x
            == subs.last() by {
            let k = choose|k: int| 0 <= k < subs.len() && subs[k] == x;
            if k < subs.len() - 1 {
                assert(pre[k] == x);
            }
        }
        assert forall|x: (Endpoint, u64)| #[trigger] pre.contains(x) implies subs.contains(x) by {
            let k = choose|k: int| 0 <= k < pre.len() && pre[k] == x;
            assert(subs[k] == x);
        }
        let pruned = spec_prune(subs, now);
        let rest = spec_prune(pre, now);
        if fresh_sub(subs.last(), now) {
            assert forall|x: (Endpoint, u64)| #[trigger] pruned.contains(x) implies subs.contains(
                x,
            ) && fresh_sub(x, now) by {
                let k = choose|k: int| 0 <= k < pruned.len() && pruned[k] == x;
                if k < pruned.len() - 1 {
                    assert(rest[k] == x);
                    assert(rest.contains(x));
                } else {
                    assert(x == subs.last());
                    assert(subs[subs.len() - 1] == x);
                }
            }
            assert forall|x: (Endpoint, u64)|
                subs.contains(x) && fresh_sub(x, now) implies #[trigger] pruned.contains(x) by {
                if pre.contains(x) {
                    assert(rest.contains(x));
                    let k = choose|k: int| 0 <= k < rest.len() && rest[k] == x;
                    assert(pruned[k] == x);
                } else {
                    assert(pruned.last() == x);
                }
            }
            if unique_eps(subs) {
                assert(unique_eps(pre));
                assert forall|ep: Endpoint| #[trigger] has_ep(rest, ep) implies has_ep(pre, ep) by {
                    let k = choose|k: int| 0 <= k < rest.len() && rest[k].0 == ep;
                    assert(rest.contains(rest[k]));
                    let j = choose|j: int| 0 <= j < pre.len() && pre[j] == rest[k];
                }
                assert forall|i: int, j: int| 0 <= i < j < pruned.len() implies (
                #[trigger] pruned[i]).0 != (#[trigger] pruned[j]).0 by {
                    if j < pruned.len() - 1 {
                        assert(pruned[i] == rest[i] && pruned[j] == rest[j]);
                    } else {
                        assert(pruned[i] == rest[i]);
                        assert(rest.contains(rest[i]));
                        let k = choose|k: int| 0 <= k < pre.len() && pre[k] == rest[i];
                        assert(subs[k] == pre[k]);
                        assert(subs.last().0 != subs[k].0);
                    }
                }
            }
        } else {
            assert forall|x: (Endpoint, u64)| #[trigger] pruned.contains(x) implies subs.contains(
                x,
            ) && fresh_sub(x, now) by {}
            assert forall|x: (Endpoint, u64)|
                subs.contains(x) && fresh_sub(x, now) implies #[trigger] pruned.contains(x) by {
                if pre.contains(x) {
                } else {
                    assert(x == subs.last());
                }
            }
        }
        assert forall|ep: Endpoint| #[trigger] has_ep(pruned, ep) implies has_ep(subs, ep) by {
            let k = choose|k: int| 0 <= k < pruned.len() && pruned[k].0 == ep;
            assert(pruned.contains(pruned[k]));
            let j = choose|j: int| 0 <= j < subs.len() && subs[j] == pruned[k];
        }
    }
}

/// The registry of chunk-stream subscribers, keyed by address with last-seen
/// stamps.
pub struct SubscriberRegistry {
    pub subs: Vec<(Endpoint, u64)>,
}

impl SubscriberRegistry {
    pub open spec fn wf(self) -> bool {
        unique_eps(self.subs@)
    }

    pub fn new() -> (r: SubscriberRegistry)
        ensures
            r.wf(),
            r.subs@.len() == 0,
    {
        SubscriberRegistry { subs: Vec::new() }
    }

    /// First index registered for `ep`.
    fn find_index(&self, ep: Endpoint) -> (r: Option<usize>)
        ensures
            match r {
                Some(k) => find_sub(self.subs@, ep, 0) == Some(k as int) && k < self.subs@.len(),
                None => find_sub(self.subs@, ep, 0) is None,
            },
    {
        let n = self.subs.len();
        let mut i: usize = 0;
        while i < n
            invariant
                0 <= i <= n,
                n == self.subs@.len(),
                find_sub(self.subs@, ep, 0) == find_sub(self.subs@, ep, i as int),
            decreases n - i,
        {
            if self.subs[i].0 == ep {
                return Some(i);
            }
            i += 1;
        }
        None
    }

    /// Registers or refreshes a subscriber. True when the registry was
    /// empty before, which is what triggers the lazy camera start.
    pub fn touch(&mut self, ep: Endpoint, now: u64) -> (was_empty: bool)
        requires
            old(self).wf(),
        ensures
            final(self).wf(),
            was_empty == (old(self).subs@.len() == 0),
            match find_sub(old(self).subs@, ep, 0) {
                Some(k) => final(self).subs@ == old(self).subs@.update(k, (ep, now)),
                None => final(self).subs@ == old(self).subs@.push((ep, now)),
            },
    {
        proof {
            lemma_find_sub_props(self.subs@, ep, 0);
        }
        let was_empty = self.subs.len() == 0;
        match self.find_index(ep) {
            Some(k) => {
                self.subs.set(k, (ep, now));
            },
            None => {
                self.subs.push((ep, now));
            },
        }
        was_empty
    }

    /// Unregisters a subscriber. True when the registry is empty afterwards,
    /// which is what triggers the camera stop policy.
    pub fn remove(&mut self, ep: Endpoint) -> (now_empty: bool)
        requires
            old(self).wf(),
        ensures
            final(self).wf(),
            now_empty == (final(self).subs@.len() == 0),
            match find_sub(old(self).subs@, ep, 0) {
                Some(k) => final(self).subs@ == old(self).subs@.remove(k),
                None => final(self).subs@ == old(self).subs@,
            },
    {
        proof {
            lemma_find_sub_props(self.subs@, ep, 0);
        }
        match self.find_index(ep) {
            Some(k) => {
                self.subs.remove(k);
                proof {
                    let subs = self.subs@;
                    assert forall|i: int, j: int| 0 <= i < j < subs.len() implies (
                    #[trigger] subs[i]).0 != (#[trigger] subs[j]).0 by {
                        let oi = if i < k {
                            i
                        } else {
                            i + 1
                        };
                        let oj = if j < k {
                            j
                        } else {
                            j + 1
                        };
                        assert(subs[i] == old(self).subs@[oi]);
                        assert(subs[j] == old(self).subs@[oj]);
                    }
                }
            },
            None => {},
        }
        self.subs.len() == 0
    }

    /// Drops every subscriber unseen for a full TTL.
    pub fn prune(&mut self, now: u64)
        requires
            old(self).wf(),
        ensures
            final(self).wf(),
            final(self).subs@ == spec_prune(old(self).subs@, now),
    {
        let n = self.subs.len();
        let mut out: Vec<(Endpoint, u64)> = Vec::new();
        let mut i: usize = 0;
        while i < n
            invariant
                0 <= i <= n,
                n == self.subs@.len(),
                out@ == spec_prune(self.subs@.subrange(0, i as int), now),
            decreases n - i,
        {
            let e = self.subs[i];
            proof {
                assert(self.subs@.subrange(0, i + 1).drop_last() =~= self.subs@.subrange(
                    0,
                    i as int,
                ));
                assert(self.subs@.subrange(0, i + 1).last() == self.subs@[i as int]);
            }
            if now <= e.1 || now - e.1 < SUBSCRIBER_TTL_MS {
                out.push(e);
            }
            i += 1;
        }
        proof {
            assert(self.subs@.subrange(0, n as int) =~= self.subs@);
            lemma_prune_props(self.subs@, now);
        }
        self.subs = out;
    }

    /// The subscriber addresses, in registry order, for one broadcast pass.
    pub fn addresses(&self) -> (r: Vec<Endpoint>)
        ensures
            r@.len() == self.subs@.len(),
            forall|i: int| 0 <= i < r@.len() ==> r@[i] == (#[trigger] self.subs@[i]).0,
    {
        let n = self.subs.len();
        let mut out: Vec<Endpoint> = Vec::new();
        let mut i: usize = 0;
        while i < n
            invariant
                0 <= i <= n,
                n == self.subs@.len(),
                out@.len() == i,
                forall|j: int| 0 <= j < i ==> out@[j] == (#[trigger] self.subs@[j]).0,
            decreases n - i,
        {
            out.push(self.subs[i].0);
            i += 1;
        }
        out
    }

    pub fn is_empty(&self) -> (r: bool)
        ensures
            r == (self.subs@.len() == 0),
    {
        self.subs.len() == 0
    }
}

/// The find scan returns what it claims to.
pub proof fn lemma_find_sub_props(subs: Seq<(Endpoint, u64)>, ep: Endpoint, i: int)
    requires
        0 <= i,
    ensures
        match find_sub(subs, ep, i) {
            Some(k) => i <= k < subs.len() && subs[k].0 == ep,
            None => forall|j: int| i <= j < subs.len() ==> (#[trigger] subs[j]).0 != ep,
        },
    decreases subs.len() - i,
{
    if i < subs.len() && subs[i].0 != ep {
        lemma_find_sub_props(subs, ep, i + 1);
    }
}

/// A plaintext control command on the video port.
#[derive(Debug, Clone, Copy, PartialEq, Eq, Structural)]
pub enum StreamCommand {
    Discover,
    StartCamera,
    StopCamera,
    Subscribe,
    Unsubscribe,
    Unknown,
}

/// The command a plaintext datagram denotes; anything else is foreign
/// traffic.
pub open spec fn spec_stream_command(msg: Seq<char>) -> StreamCommand {
    if msg == "DISCOVER"@ {
        StreamCommand::Discover
    } else if msg == "START_CAMERA"@ {
        StreamCommand::StartCamera
    } else if msg == "STOP_CAMERA"@ {
        StreamCommand::StopCamera
    } else if msg == "CAMERA_SUBSCRIBE"@ {
        StreamCommand::Subscribe
    } else if msg == "CAMERA_UNSUBSCRIBE"@ {
        StreamCommand::Unsubscribe
    } else {
        StreamCommand::Unknown
    }
}

/// Classifies one plaintext datagram, exactly as `spec_stream_command` says.
pub fn parse_stream_command(msg: &str) -> (c: StreamCommand)
    ensures
        c == spec_stream_command(msg@),
{
    if crate::directory::str_eq(msg, "DISCOVER") {
        StreamCommand::Discover
    } else if crate::directory::str_eq(msg, "START_CAMERA") {
        StreamCommand::StartCamera
    } else if crate::directory::str_eq(msg, "STOP_CAMERA") {
        StreamCommand::StopCamera
    } else if crate::directory::str_eq(msg, "CAMERA_SUBSCRIBE") {
        StreamCommand::Subscribe
    } else if crate::directory::str_eq(msg, "CAMERA_UNSUBSCRIBE") {
        StreamCommand::Unsubscribe
    } else {
        StreamCommand::Unknown
    }
}

/// The reply a discovery probe earns.
pub fn discover_reply() -> (r: &'static str)
    ensures
        r@ == "CAMERA_SERVER"@,
{
    "CAMERA_SERVER"
}

/// What the HTTP stream endpoint's query asks for.
#[derive(Debug, Clone, Copy, PartialEq, Eq, Structural)]
pub enum StreamAction {
    Start,
    Stop,
    Status,
    View,
}

/// The action an optional `action` query value denotes; anything
/// unrecognized, or no action at all, serves the live stream.
pub open spec fn spec_stream_action(action: Option<Seq<char>>) -> StreamAction {
    match action {
        Some(q) => {
            if q == "start"@ {
                StreamAction::Start
            } else if q == "stop"@ {
                StreamAction::Stop
            } else if q == "status"@ {
                StreamAction::Status
            } else {
                StreamAction::View
            }
        },
        None => StreamAction::View,
    }
}

/// Classifies the `action` query value, exactly as `spec_stream_action` says.
pub fn parse_stream_action(action: Option<&str>) -> (a: StreamAction)
    ensures
        a == spec_stream_action(match action {
            Some(q) => Some(q@),
            None => None::<Seq<char>>,
        }),
{
    match action {
        Some(q) => {
            if crate::directory::str_eq(q, "start") {
                StreamAction::Start
            } else if crate::directory::str_eq(q, "stop") {
                StreamAction::Stop
            } else if crate::directory::str_eq(q, "status") {
                StreamAction::Status
            } else {
                StreamAction::View
            }
        },
        None => StreamAction::View,
    }
}

/// The bytes of one multipart piece of the HTTP stream.
pub open spec fn multipart_part(frame: Seq<u8>) -> Seq<u8> {
    vstd::utf8::encode_utf8("--frame\r\nContent-Type: image/jpeg\r\n\r\n"@) + frame
        + vstd::utf8::encode_utf8("\r\n"@)
}

/// Frames one captured image as a multipart piece.
pub fn build_multipart_part(frame: &[u8]) -> (r: Vec<u8>)
    ensures
        r@ == multipart_part(frame@),
{
    let mut out = "--frame\r\nContent-Type: image/jpeg\r\n\r\n".as_bytes_vec();
    out.extend_from_slice(frame);
    let mut tail = "\r\n".as_bytes_vec();
    out.append(&mut tail);
    proof {
        assert(out@ =~= multipart_part(frame@));
    }
    out
}

/// The HTTP streamer: the capture it lazily starts, behind the multipart
/// framing above.
pub struct MjpegStreamer {
    pub capture: CameraCapture,
}

impl MjpegStreamer {
    pub fn new() -> (s: MjpegStreamer)
        ensures
            !s.capture@.running,
            s.capture@.latest_frame is None,
    {
        MjpegStreamer { capture: CameraCapture::new() }
    }

    /// One tick of the multipart body: the latest frame framed as a part, or
    /// nothing yet — a tick with no frame is skipped, never an empty part.
    pub fn next_part(&self) -> (r: Option<Vec<u8>>)
        ensures
            r is Some <==> self.capture@.latest_frame is Some,
            r is Some ==> r->Some_0@ == multipart_part(self.capture@.latest_frame->Some_0),
    {
        match self.capture.latest() {
            Some(frame) => Some(build_multipart_part(frame.as_slice())),
            None => None,
        }
    }
}

/// Where the capture supervision stands.
#[derive(Debug, Clone, Copy, PartialEq, Eq, Structural)]
pub enum CapturePhase {
    Idle,
    Spawning,
    Reading,
}

/// What the supervision loop observed.
#[derive(Debug, Clone, Copy, PartialEq, Eq, Structural)]
pub enum CaptureEvent {
    Start,
    Stop,
    SpawnOk,
    SpawnFailed,
    ChunkRead,
    ReadEof,
    ReadError,
}

/// What the supervision loop must do next.
#[derive(Debug, Clone, Copy, PartialEq, Eq, Structural)]
pub enum CaptureAction {
    SpawnProcess,
    ReadMore,
    RetryAfterDelay { delay_ms: u64 },
    KillAndRestart { delay_ms: u64 },
    KillAndHalt,
    Nothing,
}

/// The supervision table: spawn, read until EOF or error, kill and restart
/// after a brief delay, retry a failed spawn after a long one, and honor a
/// stop at every transition. A start while already reading is a no-op.
pub open spec fn spec_supervise(phase: CapturePhase, event: CaptureEvent) -> (
    CapturePhase,
    CaptureAction,
) {
    match (phase, event) {
        (CapturePhase::Idle, CaptureEvent::Start) => (
            CapturePhase::Spawning,
            CaptureAction::SpawnProcess,
        ),
        (CapturePhase::Idle, _) => (CapturePhase::Idle, CaptureAction::Nothing),
        (CapturePhase::Spawning, CaptureEvent::SpawnOk) => (
            CapturePhase::Reading,
            CaptureAction::ReadMore,
        ),
        (CapturePhase::Spawning, CaptureEvent::SpawnFailed) => (
            CapturePhase::Spawning,
            CaptureAction::RetryAfterDelay { delay_ms: 5000 },
        ),
        (CapturePhase::Spawning, CaptureEvent::Stop) => (
            CapturePhase::Idle,
            CaptureAction::Nothing,
        ),
        (CapturePhase::Spawning, _) => (CapturePhase::Spawning, CaptureAction::Nothing),
        (CapturePhase::Reading, CaptureEvent::ChunkRead) => (
            CapturePhase::Reading,
            CaptureAction::ReadMore,
        ),
        (CapturePhase::Reading, CaptureEvent::ReadEof) => (
            CapturePhase::Spawning,
            CaptureAction::KillAndRestart { delay_ms: 100 },
        ),
        (CapturePhase::Reading, CaptureEvent::ReadError) => (
            CapturePhase::Spawning,
            CaptureAction::KillAndRestart { delay_ms: 100 },
        ),
        (CapturePhase::Reading, CaptureEvent::Stop) => (
            CapturePhase::Idle,
            CaptureAction::KillAndHalt,
        ),
        (CapturePhase::Reading, _) => (CapturePhase::Reading, CaptureAction::Nothing),
    }
}

/// One supervision transition, exactly as the table says.
pub fn supervise_step(phase: CapturePhase, event: CaptureEvent) -> (r: (
    CapturePhase,
    CaptureAction,
))
    ensures
        r == spec_supervise(phase, event),
{
    match (phase, event) {
        (CapturePhase::Idle, CaptureEvent::Start) => (
            CapturePhase::Spawning,
            CaptureAction::SpawnProcess,
        ),
        (CapturePhase::Idle, _) => (CapturePhase::Idle, CaptureAction::Nothing),
        (CapturePhase::Spawning, CaptureEvent::SpawnOk) => (
            CapturePhase::Reading,
            CaptureAction::ReadMore,
        ),
        (CapturePhase::Spawning, CaptureEvent::SpawnFailed) => (
            CapturePhase::Spawning,
            CaptureAction::RetryAfterDelay { delay_ms: 5000 },
        ),
        (CapturePhase::Spawning, CaptureEvent::Stop) => (
            CapturePhase::Idle,
            CaptureAction::Nothing,
        ),
        (CapturePhase::Spawning, _) => (CapturePhase::Spawning, CaptureAction::Nothing),
        (CapturePhase::Reading, CaptureEvent::ChunkRead) => (
            CapturePhase::Reading,
            CaptureAction::ReadMore,
        ),
        (CapturePhase::Reading, CaptureEvent::ReadEof) => (
            CapturePhase::Spawning,
            CaptureAction::KillAndRestart { delay_ms: 100 },
        ),
        (CapturePhase::Reading, CaptureEvent::ReadError) => (
            CapturePhase::Spawning,
            CaptureAction::KillAndRestart { delay_ms: 100 },
        ),
        (CapturePhase::Reading, CaptureEvent::Stop) => (
            CapturePhase::Idle,
            CaptureAction::KillAndHalt,
        ),
        (CapturePhase::Reading, _) => (CapturePhase::Reading, CaptureAction::Nothing),
    }
}

} // verus!
