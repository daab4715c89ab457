//! Marker-delimited frame extraction and the capture accumulator.
use radiolink::frames::{CameraCapture, FRAME_BUFFER_CAP};

fn frame(body: &[u8]) -> Vec<u8> {
    let mut f = vec![0xff, 0xd8];
    f.extend_from_slice(body);
    f.extend_from_slice(&[0xff, 0xd9]);
    f
}

#[test]
fn single_frame_extracted_and_buffer_left_empty() {
    let mut capture = CameraCapture::new();
    let f = frame(&[1, 2, 3]);
    let frames = capture.push_bytes(&f);
    assert_eq!(frames, vec![f.clone()]);
    assert!(capture.buffer.is_empty());
    assert_eq!(capture.latest(), Some(f));
}

#[test]
fn partial_frame_waits_for_more_bytes() {
    let mut capture = CameraCapture::new();
    let f = frame(&[9, 9, 9, 9]);
    let frames = capture.push_bytes(&f[..4]);
    assert!(frames.is_empty());
    assert_eq!(capture.latest(), None);
    let frames = capture.push_bytes(&f[4..]);
    assert_eq!(frames, vec![f]);
}

#[test]
fn junk_before_the_start_marker_is_discarded() {
    let mut capture = CameraCapture::new();
    let mut data = vec![0x00, 0x11, 0x22];
    let f = frame(&[5]);
    data.extend_from_slice(&f);
    let frames = capture.push_bytes(&data);
    assert_eq!(frames, vec![f]);
    assert!(capture.buffer.is_empty());
}

#[test]
fn two_frames_in_one_read_come_out_in_order() {
    let mut capture = CameraCapture::new();
    let f1 = frame(&[1]);
    let f2 = frame(&[2, 2]);
    let mut data = f1.clone();
    data.extend_from_slice(&f2);
    let frames = capture.push_bytes(&data);
    assert_eq!(frames, vec![f1, f2.clone()]);
    assert_eq!(capture.latest(), Some(f2));
}

#[test]
fn oversized_unresolved_buffer_is_cleared() {
    let mut capture = CameraCapture::new();
    // marker-free garbage just past the cap
    let garbage = vec![0x00u8; FRAME_BUFFER_CAP + 1];
    let frames = capture.push_bytes(&garbage);
    assert!(frames.is_empty());
    assert!(capture.buffer.is_empty());
}

#[test]
fn buffer_at_the_cap_is_kept() {
    let mut capture = CameraCapture::new();
    let garbage = vec![0x00u8; FRAME_BUFFER_CAP];
    let frames = capture.push_bytes(&garbage);
    assert!(frames.is_empty());
    assert_eq!(capture.buffer.len(), FRAME_BUFFER_CAP);
}

#[test]
fn find_markers() {
    let data = [0x00, 0xff, 0xd8, 0x01, 0xff, 0xd9];
    assert_eq!(CameraCapture::find_jpeg_start(&data), Some(1));
    assert_eq!(CameraCapture::find_jpeg_end(&data), Some(4));
    assert_eq!(CameraCapture::find_jpeg_start(&[0xff]), None);
    assert_eq!(CameraCapture::find_jpeg_end(&[0xd9, 0xff]), None);
}

#[test]
fn start_and_stop_transitions() {
    let mut capture = CameraCapture::new();
    assert!(!capture.is_running());
    assert!(capture.start());
    assert!(capture.is_running());
    // a double start is a no-op
    assert!(!capture.start());
    capture.push_bytes(&frame(&[1]));
    assert!(capture.latest().is_some());
    capture.stop();
    assert!(!capture.is_running());
    assert_eq!(capture.latest(), None);
    assert!(capture.buffer.is_empty());
}
