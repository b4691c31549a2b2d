//! The stream reassembler against noise, chunked delivery, and
//! corruption.

use vexlink::codec::Protocol;
use vexlink::reassembler::StreamReassembler;

fn reply_payload(len: usize) -> Vec<u8> {
    (0..len).map(|i| (i % 97) as u8).collect()
}

#[test]
fn single_garbage_byte_then_frame_emits_once() {
    let payload = reply_payload(6);
    let frame = Protocol::encode_reply(0x56, &payload);
    for garbage in [0x00u8, 0x42, 0xAA, 0x55] {
        let mut input = vec![garbage];
        input.extend_from_slice(&frame);
        let mut reassembler = StreamReassembler::new();
        let emitted = reassembler.feed(&input);
        assert_eq!(emitted.len(), 1, "garbage {:#X}", garbage);
        assert_eq!(emitted[0], payload, "garbage {:#X}", garbage);
        assert_eq!(reassembler.buffered_len(), 0, "garbage {:#X}", garbage);
    }
}

#[test]
fn byte_by_byte_feed_emits_only_on_last_byte() {
    let payload = reply_payload(9);
    let frame = Protocol::encode_reply(0x56, &payload);
    let mut reassembler = StreamReassembler::new();
    for (i, &byte) in frame.iter().enumerate() {
        let emitted = reassembler.feed(&[byte]);
        if i + 1 < frame.len() {
            assert!(emitted.is_empty(), "byte {}", i);
        } else {
            assert_eq!(emitted.len(), 1);
            assert_eq!(emitted[0], payload);
        }
    }
    assert_eq!(reassembler.buffered_len(), 0);
}

#[test]
fn empty_feed_emits_nothing() {
    let mut reassembler = StreamReassembler::new();
    let emitted = reassembler.feed(&[]);
    assert!(emitted.is_empty());
    assert_eq!(reassembler.buffered_len(), 0);
}

#[test]
fn pure_noise_is_discarded_entirely() {
    let mut reassembler = StreamReassembler::new();
    let emitted = reassembler.feed(&[0x01, 0x02, 0x03, 0x04, 0x05]);
    assert!(emitted.is_empty());
    assert_eq!(reassembler.buffered_len(), 0);
}

#[test]
fn short_accumulator_waits_for_more() {
    let mut reassembler = StreamReassembler::new();
    let emitted = reassembler.feed(&[0x01, 0x02, 0x03]);
    assert!(emitted.is_empty());
    assert_eq!(reassembler.buffered_len(), 3);
}

#[test]
fn corrupt_checksum_then_valid_frame_recovers() {
    let first = reply_payload(5);
    let second = reply_payload(7);
    let mut corrupted = Protocol::encode_reply(0x56, &first);
    let n = corrupted.len();
    corrupted[n - 1] ^= 0x01;
    let frame2 = Protocol::encode_reply(0x56, &second);
    let mut input = corrupted;
    input.extend_from_slice(&frame2);
    let mut reassembler = StreamReassembler::new();
    let emitted = reassembler.feed(&input);
    assert_eq!(emitted.len(), 1);
    assert_eq!(emitted[0], second);
    assert_eq!(reassembler.buffered_len(), 0);
}

#[test]
fn corrupt_checksum_discards_marker_then_resynchronizes() {
    let first = reply_payload(5);
    let second = reply_payload(7);
    let mut corrupted = Protocol::encode_reply(0x56, &first);
    let n = corrupted.len();
    corrupted[n - 2] ^= 0x80;
    let frame2 = Protocol::encode_reply(0x56, &second);
    // Deliver the corrupted frame plus only a prefix of the next one:
    // the corrupted frame is rejected, the bytes ahead of the next
    // marker go, and the prefix is retained awaiting completion.
    let split = 4;
    let mut input = corrupted;
    input.extend_from_slice(&frame2[0..split]);
    let mut reassembler = StreamReassembler::new();
    let emitted = reassembler.feed(&input);
    assert!(emitted.is_empty());
    assert_eq!(reassembler.buffered_len(), split);
    let emitted = reassembler.feed(&frame2[split..]);
    assert_eq!(emitted.len(), 1);
    assert_eq!(emitted[0], second);
    assert_eq!(reassembler.buffered_len(), 0);
}

#[test]
fn two_frames_in_one_feed_emit_in_order() {
    let first = reply_payload(3);
    let second = reply_payload(11);
    let mut input = Protocol::encode_reply(0x56, &first);
    input.extend_from_slice(&Protocol::encode_reply(0x56, &second));
    let mut reassembler = StreamReassembler::new();
    let emitted = reassembler.feed(&input);
    assert_eq!(emitted.len(), 2);
    assert_eq!(emitted[0], first);
    assert_eq!(emitted[1], second);
    assert_eq!(reassembler.buffered_len(), 0);
}

#[test]
fn empty_payload_frame_emits_empty_payload_once() {
    // An embedded empty payload is a real emission, distinct from no
    // emission at all.
    let frame = Protocol::encode_reply(0x56, &[]);
    let mut reassembler = StreamReassembler::new();
    let emitted = reassembler.feed(&frame);
    assert_eq!(emitted.len(), 1);
    assert!(emitted[0].is_empty());
}
