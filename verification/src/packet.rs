//! The fixed 8-byte binary control frame of the fast path:
//! {sequence: u32 LE, left: i16 LE, right: i16 LE}, and the rescaling of a
//! raw axis value from the signed 16-bit range to the bounded command range.
use vstd::bytes::{
    spec_u16_from_le_bytes, spec_u16_to_le_bytes, spec_u32_from_le_bytes, spec_u32_to_le_bytes,
    u16_from_le_bytes, u16_to_le_bytes, u32_from_le_bytes, u32_to_le_bytes,
};
use vstd::prelude::*;
use vstd::slice::slice_subrange;

verus! {

/// One high-rate joystick command as it travels over the wire.
#[derive(Debug, Clone, Copy, PartialEq, Eq, Structural)]
pub struct ActuatorPacket {
    pub sequence: u32,
    pub left: i16,
    pub right: i16,
}

/// The canonical 8-byte encoding of a packet.
pub open spec fn spec_encode_actuator(p: ActuatorPacket) -> Seq<u8> {
    spec_u32_to_le_bytes(p.sequence) + spec_u16_to_le_bytes(p.left as u16)
        + spec_u16_to_le_bytes(p.right as u16)
}

/// The packet an 8-byte buffer denotes.
pub open spec fn spec_decode_actuator(s: Seq<u8>) -> ActuatorPacket
    recommends
        s.len() == 8,
{
    ActuatorPacket {
        sequence: spec_u32_from_le_bytes(s.subrange(0, 4)),
        left: spec_u16_from_le_bytes(s.subrange(4, 6)) as i16,
        right: spec_u16_from_le_bytes(s.subrange(6, 8)) as i16,
    }
}

impl ActuatorPacket {
    pub fn new(sequence: u32, left: i16, right: i16) -> (p: ActuatorPacket)
        ensures
            p == (ActuatorPacket { sequence, left, right }),
    {
        ActuatorPacket { sequence, left, right }
    }

    /// The fail-safe frame: both axes at rest, the counter carried on.
    pub fn idle(sequence: u32) -> (p: ActuatorPacket)
        ensures
            p == (ActuatorPacket { sequence, left: 0i16, right: 0i16 }),
    {
        ActuatorPacket { sequence, left: 0, right: 0 }
    }

    pub fn encode(&self) -> (out: Vec<u8>)
        ensures
            out@ == spec_encode_actuator(*self),
            out@.len() == 8,
    {
        let mut out = u32_to_le_bytes(self.sequence);
        let mut left = u16_to_le_bytes(self.left as u16);
        let mut right = u16_to_le_bytes(self.right as u16);
        out.append(&mut left);
        out.append(&mut right);
        out
    }

    /// Reads a packet back from a datagram; anything but exactly 8 bytes is
    /// not a fast-path frame.
    pub fn decode(data: &[u8]) -> (r: Option<ActuatorPacket>)
        ensures
            r is Some <==> data@.len() == 8,
            r is Some ==> r->Some_0 == spec_decode_actuator(data@),
    {
        if data.len() != 8 {
            return None;
        }
        let seq_part = slice_subrange(data, 0, 4);
        let left_part = slice_subrange(data, 4, 6);
        let right_part = slice_subrange(data, 6, 8);
        let sequence = u32_from_le_bytes(seq_part);
        let left = u16_from_le_bytes(left_part) as i16;
        let right = u16_from_le_bytes(right_part) as i16;
        Some(ActuatorPacket { sequence, left, right })
    }
}

/// Round-to-nearest rescaling of a raw axis value from the signed 16-bit
/// range onto -100..=100, ties away from zero.
pub open spec fn spec_rescale(v: int) -> int {
    if v >= 0 {
        (v * 100 + 16383) / 32767
    } else {
        -((-v * 100 + 16383) / 32767)
    }
}

/// Rescales one raw axis value onto the bounded command range.
pub fn rescale_axis(v: i16) -> (r: i8)
    ensures
        r as int == spec_rescale(v as int),
        -100 <= r <= 100,
{
    if v >= 0 {
        let n = (v as i32) * 100 + 16383;
        let q = n / 32767;
        proof {
            vstd::arithmetic::div_mod::lemma_div_is_ordered(n as int, 3293083, 32767);
            vstd::arithmetic::div_mod::lemma_div_pos_is_pos(n as int, 32767);
        }
        q as i8
    } else {
        let n = (-(v as i32)) * 100 + 16383;
        let q = n / 32767;
        proof {
            vstd::arithmetic::div_mod::lemma_div_is_ordered(n as int, 3293183, 32767);
            vstd::arithmetic::div_mod::lemma_div_pos_is_pos(n as int, 32767);
        }
        -(q as i8)
    }
}

/// The two-byte frame the serial actuator driver consumes: steering then
/// throttle, each reinterpreted as one byte.
pub fn uart_frame(msg: &crate::types::ControlMessage) -> (r: Vec<u8>)
    ensures
        r@ == seq![msg.steering as u8, msg.throttle as u8],
{
    let mut r: Vec<u8> = Vec::new();
    r.push(msg.steering as u8);
    r.push(msg.throttle as u8);
    proof {
        assert(r@ =~= seq![msg.steering as u8, msg.throttle as u8]);
    }
    r
}

/// Law: decoding an encoded packet gives the packet back, for every packet.
pub proof fn lemma_actuator_round_trip(p: ActuatorPacket)
    ensures
        spec_decode_actuator(spec_encode_actuator(p)) == p,
{
    vstd::bytes::lemma_auto_spec_u32_to_from_le_bytes();
    vstd::bytes::lemma_auto_spec_u16_to_from_le_bytes();
    let enc = spec_encode_actuator(p);
    assert(enc.subrange(0, 4) =~= spec_u32_to_le_bytes(p.sequence));
    assert(enc.subrange(4, 6) =~= spec_u16_to_le_bytes(p.left as u16));
    assert(enc.subrange(6, 8) =~= spec_u16_to_le_bytes(p.right as u16));
    let l = p.left;
    let r = p.right;
    assert((l as u16) as i16 == l) by (bit_vector);
    assert((r as u16) as i16 == r) by (bit_vector);
}

} // verus!
