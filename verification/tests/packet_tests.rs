//! The 8-byte fast-path frame and axis rescaling.
use radiolink::packet::{rescale_axis, uart_frame, ActuatorPacket};
use radiolink::types::ControlMessage;

#[test]
fn actuator_encode_layout() {
    let p = ActuatorPacket::new(0x01020304, 0x0506, 0x0708);
    let bytes = p.encode();
    assert_eq!(bytes, vec![0x04, 0x03, 0x02, 0x01, 0x06, 0x05, 0x08, 0x07]);
}

#[test]
fn actuator_round_trip() {
    let cases = [
        ActuatorPacket::new(0, 0, 0),
        ActuatorPacket::new(u32::MAX, i16::MIN, i16::MAX),
        ActuatorPacket::new(7, -1234, 4321),
    ];
    for p in cases {
        let bytes = p.encode();
        assert_eq!(ActuatorPacket::decode(&bytes), Some(p));
    }
}

#[test]
fn actuator_decode_rejects_wrong_length() {
    assert_eq!(ActuatorPacket::decode(&[0u8; 7]), None);
    assert_eq!(ActuatorPacket::decode(&[0u8; 9]), None);
    assert_eq!(ActuatorPacket::decode(&[]), None);
}

#[test]
fn actuator_negative_axes_survive() {
    let p = ActuatorPacket::new(42, -32767, -1);
    let bytes = p.encode();
    let q = ActuatorPacket::decode(&bytes).unwrap();
    assert_eq!(q.left, -32767);
    assert_eq!(q.right, -1);
    assert_eq!(q.sequence, 42);
}

#[test]
fn idle_packet_is_zeroed() {
    let p = ActuatorPacket::idle(9);
    assert_eq!(p.sequence, 9);
    assert_eq!(p.left, 0);
    assert_eq!(p.right, 0);
}

#[test]
fn rescale_full_deflection() {
    assert_eq!(rescale_axis(32767), 100);
    assert_eq!(rescale_axis(-32767), -100);
    assert_eq!(rescale_axis(0), 0);
}

#[test]
fn rescale_rounds_to_nearest() {
    // 163/32767 of full scale is 0.497 of one step: rounds down.
    assert_eq!(rescale_axis(163), 0);
    // 164/32767 is 0.5005 of one step: rounds up.
    assert_eq!(rescale_axis(164), 1);
    assert_eq!(rescale_axis(-164), -1);
    // halfway between 49 and 50 steps lands on 50.
    assert_eq!(rescale_axis(16384), 50);
}

#[test]
fn uart_frame_bytes() {
    let frame = uart_frame(&ControlMessage { steering: -7, throttle: 42 });
    assert_eq!(frame, vec![(-7i8) as u8, 42u8]);
}
