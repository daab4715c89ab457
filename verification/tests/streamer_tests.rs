//! The subscriber registry, the stream control commands, the multipart
//! framing, and the capture supervision table.
use radiolink::streamer::{
    build_multipart_part, discover_reply, parse_stream_action, parse_stream_command,
    supervise_step, CaptureAction, CaptureEvent, CapturePhase, MjpegStreamer, StreamAction,
    StreamCommand, SubscriberRegistry,
};
use radiolink::types::Endpoint;

fn ep(ip: u128, port: u16) -> Endpoint {
    Endpoint { ip, port }
}

#[test]
fn first_subscriber_triggers_the_camera_start() {
    let mut registry = SubscriberRegistry::new();
    assert!(registry.touch(ep(1, 1), 0));
    assert!(!registry.touch(ep(2, 2), 5));
    // a refresh of a known subscriber is not a first
    assert!(!registry.touch(ep(1, 1), 10));
    assert_eq!(registry.addresses(), vec![ep(1, 1), ep(2, 2)]);
}

#[test]
fn last_departure_triggers_the_camera_stop() {
    let mut registry = SubscriberRegistry::new();
    registry.touch(ep(1, 1), 0);
    registry.touch(ep(2, 2), 0);
    assert!(!registry.remove(ep(1, 1)));
    assert!(registry.remove(ep(2, 2)));
    assert!(registry.is_empty());
    // removing an unknown subscriber reports emptiness truthfully
    assert!(registry.remove(ep(9, 9)));
}

#[test]
fn stale_subscribers_expire_after_the_ttl() {
    let mut registry = SubscriberRegistry::new();
    registry.touch(ep(1, 1), 0);
    registry.touch(ep(2, 2), 50_000);
    registry.prune(60_000);
    // the first entry is a full TTL old, the second is not
    assert_eq!(registry.addresses(), vec![ep(2, 2)]);
    registry.prune(109_999);
    assert_eq!(registry.addresses(), vec![ep(2, 2)]);
    registry.prune(110_000);
    assert!(registry.is_empty());
}

#[test]
fn stream_commands_classify_exactly() {
    assert_eq!(parse_stream_command("DISCOVER"), StreamCommand::Discover);
    assert_eq!(parse_stream_command("START_CAMERA"), StreamCommand::StartCamera);
    assert_eq!(parse_stream_command("STOP_CAMERA"), StreamCommand::StopCamera);
    assert_eq!(parse_stream_command("CAMERA_SUBSCRIBE"), StreamCommand::Subscribe);
    assert_eq!(parse_stream_command("CAMERA_UNSUBSCRIBE"), StreamCommand::Unsubscribe);
    assert_eq!(parse_stream_command("discover"), StreamCommand::Unknown);
    assert_eq!(parse_stream_command(""), StreamCommand::Unknown);
    assert_eq!(discover_reply(), "CAMERA_SERVER");
}

#[test]
fn stream_actions_classify_exactly() {
    assert_eq!(parse_stream_action(Some("start")), StreamAction::Start);
    assert_eq!(parse_stream_action(Some("stop")), StreamAction::Stop);
    assert_eq!(parse_stream_action(Some("status")), StreamAction::Status);
    assert_eq!(parse_stream_action(Some("anything")), StreamAction::View);
    assert_eq!(parse_stream_action(None), StreamAction::View);
}

#[test]
fn multipart_part_layout() {
    let part = build_multipart_part(&[1, 2, 3]);
    let mut expected = b"--frame\r\nContent-Type: image/jpeg\r\n\r\n".to_vec();
    expected.extend_from_slice(&[1, 2, 3]);
    expected.extend_from_slice(b"\r\n");
    assert_eq!(part, expected);
}

#[test]
fn http_stream_skips_ticks_with_no_frame() {
    let mut streamer = MjpegStreamer::new();
    assert!(streamer.next_part().is_none());
    streamer.capture.push_bytes(&[0xff, 0xd8, 0x42, 0xff, 0xd9]);
    let part = streamer.next_part().unwrap();
    let mut expected = b"--frame\r\nContent-Type: image/jpeg\r\n\r\n".to_vec();
    expected.extend_from_slice(&[0xff, 0xd8, 0x42, 0xff, 0xd9]);
    expected.extend_from_slice(b"\r\n");
    assert_eq!(part, expected);
}

#[test]
fn supervision_runs_the_retry_loop() {
    // spawn, read, die, restart
    let (p, a) = supervise_step(CapturePhase::Idle, CaptureEvent::Start);
    assert_eq!((p, a), (CapturePhase::Spawning, CaptureAction::SpawnProcess));
    let (p, a) = supervise_step(p, CaptureEvent::SpawnOk);
    assert_eq!((p, a), (CapturePhase::Reading, CaptureAction::ReadMore));
    let (p, a) = supervise_step(p, CaptureEvent::ChunkRead);
    assert_eq!((p, a), (CapturePhase::Reading, CaptureAction::ReadMore));
    let (p, a) = supervise_step(p, CaptureEvent::ReadEof);
    assert_eq!((p, a), (CapturePhase::Spawning, CaptureAction::KillAndRestart { delay_ms: 100 }));
    // a failed spawn backs off and stays ready to retry
    let (p, a) = supervise_step(p, CaptureEvent::SpawnFailed);
    assert_eq!((p, a), (CapturePhase::Spawning, CaptureAction::RetryAfterDelay { delay_ms: 5000 }));
    // stop is honored at the next transition
    let (p, a) = supervise_step(p, CaptureEvent::Stop);
    assert_eq!((p, a), (CapturePhase::Idle, CaptureAction::Nothing));
}

#[test]
fn supervision_stop_while_reading_kills_the_process() {
    let (p, a) = supervise_step(CapturePhase::Reading, CaptureEvent::Stop);
    assert_eq!((p, a), (CapturePhase::Idle, CaptureAction::KillAndHalt));
    // a second start while already reading is a no-op
    let (p, a) = supervise_step(CapturePhase::Reading, CaptureEvent::Start);
    assert_eq!((p, a), (CapturePhase::Reading, CaptureAction::Nothing));
}
