//! Frame fragmentation into chunk packets and reassembly.
use radiolink::chunks::{decode_chunk, encode_chunk, split_frame, ChunkPacket, Reassembler};

#[test]
fn chunk_count_is_the_ceiling() {
    assert_eq!(split_frame(&[], 0).unwrap().len(), 0);
    assert_eq!(split_frame(&vec![0u8; 1], 0).unwrap().len(), 1);
    assert_eq!(split_frame(&vec![0u8; 1390], 0).unwrap().len(), 1);
    assert_eq!(split_frame(&vec![0u8; 1391], 0).unwrap().len(), 2);
    assert_eq!(split_frame(&vec![0u8; 2780], 0).unwrap().len(), 2);
    assert_eq!(split_frame(&vec![0u8; 2781], 0).unwrap().len(), 3);
}

#[test]
fn reassembling_chunks_in_order_reproduces_the_frame() {
    let frame: Vec<u8> = (0..4000u32).map(|i| (i % 251) as u8).collect();
    let chunks = split_frame(&frame, 7).unwrap();
    assert_eq!(chunks.len(), 3);
    let mut rebuilt: Vec<u8> = Vec::new();
    for (i, c) in chunks.iter().enumerate() {
        assert_eq!(c.frame_id, 7);
        assert_eq!(c.chunk_index as usize, i);
        assert_eq!(c.chunk_count as usize, chunks.len());
        rebuilt.extend_from_slice(&c.payload);
    }
    assert_eq!(rebuilt, frame);
}

#[test]
fn an_oversized_frame_is_never_sent() {
    // one byte past what 65535 chunks can carry
    let frame = vec![0u8; 65535 * 1390 + 1];
    assert!(split_frame(&frame, 0).is_none());
    // exactly at the limit it still goes
    let frame = vec![0u8; 65535 * 1390];
    let chunks = split_frame(&frame, 0).unwrap();
    assert_eq!(chunks.len(), 65535);
}

#[test]
fn chunk_header_layout() {
    let c = ChunkPacket {
        frame_id: 0x01020304,
        chunk_index: 0x0506,
        chunk_count: 0x0708,
        payload: vec![0xaa, 0xbb],
    };
    let bytes = encode_chunk(&c);
    assert_eq!(
        bytes,
        vec![0x01, 0x02, 0x03, 0x04, 0x05, 0x06, 0x07, 0x08, 0x00, 0x02, 0xaa, 0xbb]
    );
}

#[test]
fn chunk_decode_round_trip() {
    let c = ChunkPacket { frame_id: 9, chunk_index: 1, chunk_count: 3, payload: vec![1, 2, 3] };
    let bytes = encode_chunk(&c);
    let d = decode_chunk(&bytes).unwrap();
    assert_eq!(d.frame_id, 9);
    assert_eq!(d.chunk_index, 1);
    assert_eq!(d.chunk_count, 3);
    assert_eq!(d.payload, vec![1, 2, 3]);
}

#[test]
fn chunk_decode_rejects_bad_lengths() {
    assert!(decode_chunk(&[0u8; 9]).is_none());
    // header says two payload bytes, only one follows
    let short = vec![0, 0, 0, 9, 0, 1, 0, 3, 0, 2, 0xaa];
    assert!(decode_chunk(&short).is_none());
    // trailing bytes beyond the declared length
    let long = vec![0, 0, 0, 9, 0, 1, 0, 3, 0, 1, 0xaa, 0xbb];
    assert!(decode_chunk(&long).is_none());
}

#[test]
fn receiver_reassembles_by_frame_id() {
    let frame: Vec<u8> = (0..3000u32).map(|i| (i % 253) as u8).collect();
    let chunks = split_frame(&frame, 5).unwrap();
    assert_eq!(chunks.len(), 3);
    let mut receiver = Reassembler::new();
    assert!(receiver.feed(&chunks[0]).is_none());
    assert!(receiver.feed(&chunks[1]).is_none());
    // a duplicate changes nothing
    assert!(receiver.feed(&chunks[1]).is_none());
    let rebuilt = receiver.feed(&chunks[2]).expect("the last chunk completes the frame");
    assert_eq!(rebuilt, frame);
}

#[test]
fn receiver_discards_an_incomplete_frame_when_a_new_one_begins() {
    let first: Vec<u8> = vec![1u8; 3000];
    let second: Vec<u8> = vec![2u8; 2000];
    let chunks_a = split_frame(&first, 1).unwrap();
    let chunks_b = split_frame(&second, 2).unwrap();
    let mut receiver = Reassembler::new();
    assert!(receiver.feed(&chunks_a[0]).is_none());
    assert!(receiver.feed(&chunks_a[1]).is_none());
    // the next frame id begins: the incomplete first frame is gone for good
    assert!(receiver.feed(&chunks_b[0]).is_none());
    let rebuilt = receiver.feed(&chunks_b[1]).expect("the second frame completes");
    assert_eq!(rebuilt, second);
    // the stale chunk of the first frame starts a fresh collection instead
    assert!(receiver.feed(&chunks_a[2]).is_none());
}

#[test]
fn receiver_ignores_malformed_chunks() {
    let mut receiver = Reassembler::new();
    let bad = ChunkPacket { frame_id: 1, chunk_index: 2, chunk_count: 2, payload: vec![1] };
    assert!(receiver.feed(&bad).is_none());
    let bad = ChunkPacket { frame_id: 1, chunk_index: 0, chunk_count: 0, payload: vec![1] };
    assert!(receiver.feed(&bad).is_none());
    // a single-chunk frame still comes through afterwards
    let only = ChunkPacket { frame_id: 1, chunk_index: 0, chunk_count: 1, payload: vec![7, 8] };
    assert_eq!(receiver.feed(&only), Some(vec![7, 8]));
}
