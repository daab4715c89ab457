//! The joystick bridge: deadzone, smoothing, sequence counter, and the
//! fail-safe watchdog.
use radiolink::bridge::{decode_axes, JoystickBridge, Sample};

#[test]
fn watchdog_sends_exactly_one_idle_packet_after_silence() {
    let mut bridge = JoystickBridge::new(0);
    let sent = bridge.step_sample(Sample { x: 8000, y: -8000 }, 0);
    assert_eq!(sent.sequence, 0);

    // silence, but not yet a full threshold: nothing is sent
    assert!(bridge.poll(1).is_none());
    assert!(bridge.poll(100).is_none());
    assert!(bridge.poll(199).is_none());

    // the first poll at the threshold sends the one idle packet
    let idle = bridge.poll(200).expect("the watchdog should fire");
    assert_eq!(idle.left, 0);
    assert_eq!(idle.right, 0);
    assert_eq!(idle.sequence, 1);

    // the window restarted: no second idle before another full threshold
    assert!(bridge.poll(201).is_none());
    assert!(bridge.poll(399).is_none());
    let next = bridge.poll(400).expect("the watchdog should fire again");
    assert_eq!(next.sequence, 2);
}

#[test]
fn a_new_sample_restarts_the_watchdog_window() {
    let mut bridge = JoystickBridge::new(0);
    bridge.step_sample(Sample { x: 0, y: 0 }, 150);
    assert!(bridge.poll(349).is_none());
    assert!(bridge.poll(350).is_some());
}

#[test]
fn deadzone_zeroes_small_samples() {
    let mut bridge = JoystickBridge::new(0);
    // magnitude 1310 of 32767 is inside the 4% deadzone
    let p = bridge.step_sample(Sample { x: 1310, y: 0 }, 0);
    assert_eq!(p.right, 0);
    assert_eq!(p.left, 0);
    // just past the radius the sample passes through the filter
    let mut bridge = JoystickBridge::new(0);
    let p = bridge.step_sample(Sample { x: 1311, y: 0 }, 0);
    assert_eq!(p.right, (12 * 1311) / 100);
}

#[test]
fn deadzoned_state_decays_toward_zero() {
    let mut bridge = JoystickBridge::new(0);
    // drive the filter to a non-zero state
    bridge.step_sample(Sample { x: 32767, y: 32767 }, 0);
    let before = bridge.x;
    assert!(before > 0);
    // an in-deadzone sample must pull strictly toward zero
    bridge.step_sample(Sample { x: 100, y: 100 }, 1);
    assert!(bridge.x < before);
    assert!(bridge.x >= 0);
}

#[test]
fn smoothing_follows_the_filter_constant() {
    let mut bridge = JoystickBridge::new(0);
    let p = bridge.step_sample(Sample { x: 10000, y: -10000 }, 0);
    // first step from rest: 12% of the input, truncated toward zero
    assert_eq!(p.right, 1200);
    assert_eq!(p.left, -1200);
    let p = bridge.step_sample(Sample { x: 10000, y: -10000 }, 10);
    // second step: 12% of input plus 88% of state
    assert_eq!(p.right as i32, (12 * 10000 + 88 * 1200) / 100);
    assert_eq!(p.sequence, 1);
}

#[test]
fn sequence_counter_is_shared_and_increments() {
    let mut bridge = JoystickBridge::new(0);
    let a = bridge.step_sample(Sample { x: 0, y: 0 }, 0);
    let b = bridge.step_sample(Sample { x: 0, y: 0 }, 1);
    assert_eq!(a.sequence, 0);
    assert_eq!(b.sequence, 1);
    let idle = bridge.poll(500).unwrap();
    assert_eq!(idle.sequence, 2);
}

#[test]
fn axes_decode_from_message_prefix() {
    // two little-endian 16-bit values, extra bytes ignored
    let msg = [0x10, 0x27, 0xf0, 0xd8, 0x99];
    let s = decode_axes(&msg).unwrap();
    assert_eq!(s.x, 10000);
    assert_eq!(s.y, -10000);
    assert!(decode_axes(&[1, 2, 3]).is_none());
}
