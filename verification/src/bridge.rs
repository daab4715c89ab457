//! The joystick bridge: raw 2D stick samples in, fixed-rate actuator packets
//! out. Axis values are carried in raw units of 1/32767 of full deflection,
//! so the arithmetic is exact integer arithmetic: the deadzone compares the
//! squared magnitude against the squared radius, and the first-order smoothing
//! with coefficient 12/100 truncates toward zero. A watchdog synthesizes a
//! zeroed fail-safe packet when no sample has been sent for 200 ms, sharing
//! the same wrapping sequence counter.
use crate::packet::ActuatorPacket;
use vstd::math::abs;
use vstd::prelude::*;

verus! {

/// Squared deadzone radius in raw units: (0.04 x 32767)^2, rounded up.
pub const DEADZONE_RAW_SQ: i64 = 1717882;

/// Silence threshold of the watchdog, in milliseconds.
pub const WATCHDOG_MS: u64 = 200;

/// One 2D stick sample in raw units (-32767..=32767 per axis).
#[derive(Debug, Clone, Copy, PartialEq, Eq, Structural)]
pub struct Sample {
    pub x: i16,
    pub y: i16,
}

/// Whether a raw sample falls inside the circular deadzone.
pub open spec fn in_deadzone(x: int, y: int) -> bool {
    x * x + y * y < DEADZONE_RAW_SQ
}

/// Raw axis values are bounded to full deflection; the one two's-complement
/// value below it is pulled up, as the clamp of the filter output would.
pub open spec fn clamp_axis(v: int) -> int {
    if v < -32767 {
        -32767
    } else {
        v
    }
}

/// Division truncating toward zero, as the axis smoothing uses it.
pub open spec fn trunc_div_100(n: int) -> int {
    if n >= 0 {
        n / 100
    } else {
        -((-n) / 100)
    }
}

/// One smoothing step of one axis: state + 12/100 of the way to the input.
pub open spec fn filter_axis(state: int, input: int) -> int {
    trunc_div_100(12 * input + 88 * state)
}

/// The watchdog fires when the last send lies a full threshold in the past.
pub open spec fn idle_due(last_send_ms: int, now_ms: int) -> bool {
    now_ms - last_send_ms >= WATCHDOG_MS
}

/// The filter and watchdog state of the bridge.
pub struct JoystickBridge {
    /// Filtered steering axis, raw units.
    pub x: i32,
    /// Filtered throttle axis, raw units.
    pub y: i32,
    /// Wrapping sequence counter shared by samples and idle packets.
    pub seq: u32,
    /// When the last packet (sample or idle) was sent, in milliseconds.
    pub last_send_ms: u64,
}

impl JoystickBridge {
    /// Both axes within full deflection, so packing into 16 bits is exact.
    pub open spec fn wf(self) -> bool {
        -32767 <= self.x <= 32767 && -32767 <= self.y <= 32767
    }

    /// A fresh bridge at rest; the clock starts the watchdog window.
    pub fn new(now_ms: u64) -> (b: JoystickBridge)
        ensures
            b.x == 0 && b.y == 0 && b.seq == 0 && b.last_send_ms == now_ms,
            b.wf(),
    {
        JoystickBridge { x: 0, y: 0, seq: 0, last_send_ms: now_ms }
    }

    /// Ingests one sample: deadzone, smoothing, packing. The returned packet
    /// carries the current counter; the counter then wraps forward and the
    /// watchdog window restarts.
    pub fn step_sample(&mut self, s: Sample, now_ms: u64) -> (p: ActuatorPacket)
        requires
            old(self).wf(),
        ensures
            final(self).wf(),
            ({
                let cx = clamp_axis(s.x as int);
                let cy = clamp_axis(s.y as int);
                let ex: int = if in_deadzone(cx, cy) {
                    0
                } else {
                    cx
                };
                let ey: int = if in_deadzone(cx, cy) {
                    0
                } else {
                    cy
                };
                &&& final(self).x == filter_axis(old(self).x as int, ex)
                &&& final(self).y == filter_axis(old(self).y as int, ey)
            }),
            p.sequence == old(self).seq,
            p.left == final(self).y,
            p.right == final(self).x,
            final(self).seq == (old(self).seq + 1) % 0x1_0000_0000,
            final(self).last_send_ms == now_ms,
    {
        let cx: i32 = if s.x < -32767 {
            -32767
        } else {
            s.x as i32
        };
        let cy: i32 = if s.y < -32767 {
            -32767
        } else {
            s.y as i32
        };
        let xi = cx as i64;
        let yi = cy as i64;
        proof {
            assert(0 <= xi * xi <= 32767 * 32767) by (nonlinear_arith)
                requires
                    -32767 <= xi <= 32767,
            ;
            assert(0 <= yi * yi <= 32767 * 32767) by (nonlinear_arith)
                requires
                    -32767 <= yi <= 32767,
            ;
        }
        let (ex, ey): (i32, i32) = if xi * xi + yi * yi < DEADZONE_RAW_SQ {
            (0, 0)
        } else {
            (cx, cy)
        };
        self.x = filter_axis_exec(self.x, ex);
        self.y = filter_axis_exec(self.y, ey);
        let p = ActuatorPacket { sequence: self.seq, left: self.y as i16, right: self.x as i16 };
        self.seq = if self.seq == 0xffff_ffffu32 {
            0
        } else {
            self.seq + 1
        };
        self.last_send_ms = now_ms;
        p
    }

    /// The watchdog poll: on a full threshold of silence it emits the zeroed
    /// fail-safe packet and restarts the window; otherwise nothing changes.
    pub fn poll(&mut self, now_ms: u64) -> (r: Option<ActuatorPacket>)
        requires
            old(self).wf(),
            now_ms >= old(self).last_send_ms,
        ensures
            final(self).wf(),
            r is Some <==> idle_due(old(self).last_send_ms as int, now_ms as int),
            r is None ==> *final(self) == *old(self),
            r is Some ==> {
                &&& r->Some_0 == ActuatorPacket { sequence: old(self).seq, left: 0i16, right: 0i16 }
                &&& final(self).seq == (old(self).seq + 1) % 0x1_0000_0000
                &&& final(self).last_send_ms == now_ms
                &&& final(self).x == old(self).x && final(self).y == old(self).y
            },
    {
        if now_ms - self.last_send_ms >= WATCHDOG_MS {
            let p = ActuatorPacket::idle(self.seq);
            self.seq = if self.seq == 0xffff_ffffu32 {
                0
            } else {
                self.seq + 1
            };
            self.last_send_ms = now_ms;
            Some(p)
        } else {
            None
        }
    }
}

/// One smoothing step, exactly as `filter_axis` says; the result stays
/// within full deflection when state and input do.
pub fn filter_axis_exec(state: i32, input: i32) -> (r: i32)
    requires
        -32767 <= state <= 32767,
        -32767 <= input <= 32767,
    ensures
        r == filter_axis(state as int, input as int),
        -32767 <= r <= 32767,
{
    let n: i64 = 12 * (input as i64) + 88 * (state as i64);
    let q: i64 = if n >= 0 {
        n / 100
    } else {
        -((-n) / 100)
    };
    proof {
        if n >= 0 {
            vstd::arithmetic::div_mod::lemma_div_is_ordered(n as int, 3276700, 100);
            vstd::arithmetic::div_mod::lemma_div_pos_is_pos(n as int, 100);
        } else {
            vstd::arithmetic::div_mod::lemma_div_is_ordered(-n as int, 3276700, 100);
            vstd::arithmetic::div_mod::lemma_div_pos_is_pos(-n as int, 100);
        }
    }
    q as i32
}

/// Reads the two little-endian axis values that open a joystick message;
/// anything shorter than 4 bytes carries none.
pub fn decode_axes(data: &[u8]) -> (r: Option<Sample>)
    ensures
        r is Some <==> data@.len() >= 4,
        r is Some ==> {
            let s = r->Some_0;
            &&& s.x == vstd::bytes::spec_u16_from_le_bytes(data@.subrange(0, 2)) as i16
            &&& s.y == vstd::bytes::spec_u16_from_le_bytes(data@.subrange(2, 4)) as i16
        },
{
    if data.len() < 4 {
        return None;
    }
    let x = vstd::bytes::u16_from_le_bytes(vstd::slice::slice_subrange(data, 0, 2)) as i16;
    let y = vstd::bytes::u16_from_le_bytes(vstd::slice::slice_subrange(data, 2, 4)) as i16;
    Some(Sample { x, y })
}

/// Law: a sample inside the deadzone is treated as zero, so a non-zero axis
/// state decays strictly toward zero; and whenever the raw input does not
/// oppose the state's sign, the deadzoned output lies at least as close to
/// zero as the no-deadzone baseline — strictly closer once the aligned input
/// is large enough to move the baseline a full output step. (With an
/// opposing input, or a state already at zero, the baseline itself can be
/// the closer one, so those inputs are left out.)
pub proof fn lemma_deadzone_pulls_to_zero(s: int, x: int)
    requires
        -32767 <= s <= 32767,
        -32767 <= x <= 32767,
        s != 0,
        x * s >= 0,
    ensures
        abs(filter_axis(s, 0)) < abs(s),
        abs(filter_axis(s, 0)) <= abs(filter_axis(s, x)),
        x * s > 0 && abs(x) >= 9 ==> abs(filter_axis(s, 0)) < abs(filter_axis(s, x)),
{
    if s > 0 {
        assert(x >= 0) by (nonlinear_arith)
            requires
                x * s >= 0,
                s > 0,
        ;
        vstd::arithmetic::div_mod::lemma_div_pos_is_pos(88 * s, 100);
        vstd::arithmetic::div_mod::lemma_fundamental_div_mod(88 * s, 100);
        vstd::arithmetic::div_mod::lemma_div_is_ordered(88 * s, 12 * x + 88 * s, 100);
        vstd::arithmetic::div_mod::lemma_div_pos_is_pos(12 * x + 88 * s, 100);
        if x >= 9 {
            lemma_step_apart(88 * s, 12 * x);
        }
        assert(x * s > 0 ==> x > 0) by (nonlinear_arith)
            requires
                s > 0,
        ;
    } else {
        assert(x <= 0) by (nonlinear_arith)
            requires
                x * s >= 0,
                s < 0,
        ;
        vstd::arithmetic::div_mod::lemma_div_pos_is_pos(88 * (-s), 100);
        vstd::arithmetic::div_mod::lemma_fundamental_div_mod(88 * (-s), 100);
        vstd::arithmetic::div_mod::lemma_div_is_ordered(88 * (-s), 12 * (-x) + 88 * (-s), 100);
        vstd::arithmetic::div_mod::lemma_div_pos_is_pos(12 * (-x) + 88 * (-s), 100);
        assert(12 * x + 88 * s == -(12 * (-x) + 88 * (-s)));
        if x <= -9 {
            lemma_step_apart(88 * (-s), 12 * (-x));
        }
        assert(x * s > 0 ==> x < 0) by (nonlinear_arith)
            requires
                s < 0,
        ;
    }
}

/// Adding at least one full denominator to a non-negative dividend moves the
/// truncated quotient strictly up.
proof fn lemma_step_apart(a: int, b: int)
    requires
        a >= 0,
        b >= 100,
    ensures
        (a + b) / 100 > a / 100,
{
    vstd::arithmetic::div_mod::lemma_fundamental_div_mod(a, 100);
    let q = a / 100;
    let r = a % 100;
    vstd::arithmetic::div_mod::lemma_div_is_ordered(100 * (q + 1), a + b, 100);
    vstd::arithmetic::div_mod::lemma_div_by_multiple(q + 1, 100);
}

/// Law: after a packet at time zero and silence afterwards, a watchdog poll
/// before the threshold sends nothing, the first poll at or past it sends
/// the one idle packet, and — the window having restarted — every further
/// poll within a full threshold of it sends nothing again.
pub proof fn lemma_single_idle_packet(t1: int, t2: int)
    requires
        0 <= t1 < WATCHDOG_MS <= t2,
    ensures
        !idle_due(0, t1),
        idle_due(0, t2),
        forall|t3: int| t2 <= t3 < t2 + WATCHDOG_MS ==> !idle_due(t2, t3),
{
}

} // verus!
