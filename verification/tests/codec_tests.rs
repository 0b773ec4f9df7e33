use mclink::codec::{Decoder, Encoder, DecodeError, EncodeError, encode_frame, MAX_FRAME_LEN};
use mclink::varint::write_varint;

/// A payload: packet identifier followed by field bytes.
fn payload(id: u32, data: &[u8]) -> Vec<u8> {
    let mut p: Vec<u8> = Vec::new();
    write_varint(&mut p, id);
    p.extend_from_slice(data);
    p
}

fn decode_one(dec: &mut Decoder, wire: &Vec<u8>) -> (u32, Vec<u8>) {
    dec.queue_input(wire);
    match dec.decode_next() {
        Ok(Some(f)) => (f.id, f.data),
        other => panic!("expected one frame, got {:?}", other),
    }
}

#[test]
fn round_trip_uncompressed() {
    let pl = payload(0x23, &[1, 2, 3, 4, 5, 6, 7, 8]);
    let mut enc = Encoder::new();
    enc.append_payload(&pl).unwrap();
    let wire = enc.take_output();
    assert_eq!(wire[0] as usize, pl.len());
    let mut dec = Decoder::new();
    let (id, data) = decode_one(&mut dec, &wire);
    assert_eq!(id, 0x23);
    assert_eq!(data, vec![1, 2, 3, 4, 5, 6, 7, 8]);
    assert!(matches!(dec.decode_next(), Ok(None)));
}

#[test]
fn round_trip_compressed_over_threshold() {
    let body: Vec<u8> = (0u8..=99).map(|b| b % 7).collect();
    let pl = payload(0x40, &body);
    let mut enc = Encoder::new();
    enc.set_compression(8);
    enc.append_payload(&pl).unwrap();
    let wire = enc.take_output();
    let mut dec = Decoder::new();
    dec.set_compression(8);
    let (id, data) = decode_one(&mut dec, &wire);
    assert_eq!(id, 0x40);
    assert_eq!(data, body);
}

#[test]
fn threshold_boundary_wire_shapes() {
    // Payload of exactly the threshold stays raw behind a zero marker;
    // one byte more and it is compressed. Both decode to the same bytes.
    let t = 16i32;
    let at = payload(0x05, &[0xaa; 15]); // 1 id byte + 15 = 16 bytes
    assert_eq!(at.len(), 16);
    let wire_at = encode_frame(&at, t).unwrap();
    // varint(len+1), zero marker, then the raw payload.
    assert_eq!(wire_at[0] as usize, at.len() + 1);
    assert_eq!(wire_at[1], 0);
    assert_eq!(&wire_at[2..], &at[..]);

    let above = payload(0x05, &[0xaa; 16]); // 17 bytes
    assert_eq!(above.len(), 17);
    let wire_above = encode_frame(&above, t).unwrap();
    // Inner structure: varint(uncompressed_len) then compressed bytes.
    assert_eq!(wire_above[1] as usize, above.len());
    assert_ne!(&wire_above[2..], &above[..]);

    let mut dec = Decoder::new();
    dec.set_compression(t);
    let (_, d1) = decode_one(&mut dec, &wire_at);
    let (_, d2) = decode_one(&mut dec, &wire_above);
    assert_eq!(d1, vec![0xaa; 15]);
    assert_eq!(d2, vec![0xaa; 16]);
}

#[test]
fn partial_frame_stability_all_splits() {
    let pl = payload(0x2a, b"split me anywhere");
    let wire = encode_frame(&pl, -1).unwrap();
    for i in 0..wire.len() {
        let mut dec = Decoder::new();
        let first: Vec<u8> = wire[..i].to_vec();
        let second: Vec<u8> = wire[i..].to_vec();
        dec.queue_input(&first);
        assert!(
            matches!(dec.decode_next(), Ok(None)),
            "split at {} should be incomplete",
            i
        );
        dec.queue_input(&second);
        match dec.decode_next() {
            Ok(Some(f)) => {
                assert_eq!(f.id, 0x2a);
                assert_eq!(f.data, b"split me anywhere".to_vec());
            }
            other => panic!("split at {}: {:?}", i, other),
        }
    }
}

#[test]
fn partial_frame_stability_compressed_splits() {
    let body: Vec<u8> = (0u8..=63).collect();
    let pl = payload(0x09, &body);
    let wire = encode_frame(&pl, 4).unwrap();
    for i in 0..wire.len() {
        let mut dec = Decoder::new();
        dec.set_compression(4);
        let first: Vec<u8> = wire[..i].to_vec();
        let second: Vec<u8> = wire[i..].to_vec();
        dec.queue_input(&first);
        assert!(matches!(dec.decode_next(), Ok(None)));
        dec.queue_input(&second);
        match dec.decode_next() {
            Ok(Some(f)) => assert_eq!(f.data, body),
            other => panic!("split at {}: {:?}", i, other),
        }
    }
}

#[test]
fn two_frames_decode_in_arrival_order() {
    let a = payload(0x01, b"first");
    let b = payload(0x02, b"second");
    let mut enc = Encoder::new();
    enc.append_payload(&a).unwrap();
    enc.append_payload(&b).unwrap();
    let wire = enc.take_output();
    let mut dec = Decoder::new();
    dec.queue_input(&wire);
    let f1 = dec.decode_next().unwrap().unwrap();
    let f2 = dec.decode_next().unwrap().unwrap();
    assert_eq!((f1.id, f1.data), (0x01, b"first".to_vec()));
    assert_eq!((f2.id, f2.data), (0x02, b"second".to_vec()));
    assert!(matches!(dec.decode_next(), Ok(None)));
}

#[test]
fn compression_applies_to_already_buffered_frames() {
    // A compressed frame already sitting in the window decodes correctly
    // once the threshold announcement is installed.
    let body: Vec<u8> = vec![9u8; 40];
    let pl = payload(0x11, &body);
    let wire = encode_frame(&pl, 3).unwrap();
    let mut dec = Decoder::new();
    dec.queue_input(&wire);
    dec.set_compression(3);
    let f = dec.decode_next().unwrap().unwrap();
    assert_eq!(f.data, body);
}

#[test]
fn oversized_declared_length_is_fatal() {
    // varint(2 ^ 21) exceeds the largest permitted frame length.
    let wire = vec![0x80u8, 0x80, 0x80, 0x01];
    let mut dec = Decoder::new();
    dec.queue_input(&wire);
    assert_eq!(dec.decode_next().unwrap_err(), DecodeError::FrameTooLarge);
    // The window is untouched; a second attempt reports the same.
    assert_eq!(dec.decode_next().unwrap_err(), DecodeError::FrameTooLarge);
}

#[test]
fn bad_length_prefix_is_fatal() {
    let wire = vec![0x80u8, 0x80, 0x80, 0x80, 0x80, 0x01];
    let mut dec = Decoder::new();
    dec.queue_input(&wire);
    assert_eq!(dec.decode_next().unwrap_err(), DecodeError::BadLengthPrefix);
}

#[test]
fn empty_frame_has_no_packet_id() {
    let wire = vec![0x00u8];
    let mut dec = Decoder::new();
    dec.queue_input(&wire);
    assert_eq!(dec.decode_next().unwrap_err(), DecodeError::BadPacketId);
}

#[test]
fn corrupt_compressed_bytes_are_fatal() {
    // Frame declares 5 uncompressed bytes but carries garbage.
    let mut inner: Vec<u8> = Vec::new();
    write_varint(&mut inner, 5);
    inner.extend_from_slice(&[1, 2, 3]);
    let mut wire: Vec<u8> = Vec::new();
    write_varint(&mut wire, inner.len() as u32);
    wire.extend_from_slice(&inner);
    let mut dec = Decoder::new();
    dec.set_compression(1);
    dec.queue_input(&wire);
    assert_eq!(dec.decode_next().unwrap_err(), DecodeError::BadCompression);
}

#[test]
fn impossible_uncompressed_length_is_fatal() {
    let mut inner: Vec<u8> = Vec::new();
    write_varint(&mut inner, MAX_FRAME_LEN + 1);
    inner.push(0x55);
    let mut wire: Vec<u8> = Vec::new();
    write_varint(&mut wire, inner.len() as u32);
    wire.extend_from_slice(&inner);
    let mut dec = Decoder::new();
    dec.set_compression(1);
    dec.queue_input(&wire);
    assert_eq!(dec.decode_next().unwrap_err(), DecodeError::BadDataLength);
}

#[test]
fn wrong_declared_uncompressed_length_is_fatal() {
    // Correctly compressed bytes, but the declared length disagrees.
    let body = vec![7u8; 32];
    let pl = payload(0x0c, &body);
    let good = encode_frame(&pl, 1).unwrap();
    // Rebuild the frame with the inner length field off by one.
    let inner_len = good[0] as usize;
    let declared = good[1] as u32; // single-byte varint here (33 < 128)
    assert_eq!(declared as usize, pl.len());
    let mut inner: Vec<u8> = Vec::new();
    write_varint(&mut inner, declared + 1);
    inner.extend_from_slice(&good[2..1 + inner_len]);
    let mut wire: Vec<u8> = Vec::new();
    write_varint(&mut wire, inner.len() as u32);
    wire.extend_from_slice(&inner);
    let mut dec = Decoder::new();
    dec.set_compression(1);
    dec.queue_input(&wire);
    assert_eq!(dec.decode_next().unwrap_err(), DecodeError::BadCompression);
}

#[test]
fn encoder_rejects_oversized_payload() {
    let pl = vec![0u8; MAX_FRAME_LEN as usize + 1];
    assert_eq!(encode_frame(&pl, -1).unwrap_err(), EncodeError::FrameTooLarge);
}

#[test]
fn take_output_clears_the_buffer() {
    let pl = payload(0x01, b"x");
    let mut enc = Encoder::new();
    enc.append_payload(&pl).unwrap();
    let first = enc.take_output();
    assert!(!first.is_empty());
    assert!(enc.take_output().is_empty());
}
