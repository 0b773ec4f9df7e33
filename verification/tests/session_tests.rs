use mclink::codec::{Decoder, DecodeError, encode_frame};
use mclink::packets::{NextState, build_handshake, build_login_hello, build_keep_alive, PROTOCOL_VERSION};
use mclink::protocol::{Phase, CloseReason};
use mclink::session::{Session, PumpStep};
use mclink::varint::write_varint;

fn frame(id: u32, data: &[u8], t: i32) -> Vec<u8> {
    let mut pl: Vec<u8> = Vec::new();
    write_varint(&mut pl, id);
    pl.extend_from_slice(data);
    encode_frame(&pl, t).unwrap()
}

fn started_session() -> Session {
    let mut s = Session::new();
    assert_eq!(s.phase(), Phase::Handshake);
    let addr = b"127.0.0.1".to_vec();
    let name = b"ESP32-S3".to_vec();
    let out = s.start(&addr, 25565, &name, NextState::Login).unwrap();
    let mut expected = encode_frame(
        &build_handshake(PROTOCOL_VERSION, &addr, 25565, NextState::Login).unwrap(),
        -1,
    )
    .unwrap();
    expected.extend_from_slice(
        &encode_frame(&build_login_hello(&name).unwrap(), -1).unwrap(),
    );
    assert_eq!(out, expected);
    assert_eq!(s.phase(), Phase::Login);
    s
}

#[test]
fn start_sends_handshake_then_login_hello() {
    started_session();
}

#[test]
fn start_for_status_sends_only_handshake() {
    let mut s = Session::new();
    let addr = b"h".to_vec();
    let name = Vec::new();
    let out = s.start(&addr, 1, &name, NextState::Status).unwrap();
    let expected = encode_frame(
        &build_handshake(PROTOCOL_VERSION, &addr, 1, NextState::Status).unwrap(),
        -1,
    )
    .unwrap();
    assert_eq!(out, expected);
    assert_eq!(s.phase(), Phase::Status);
}

#[test]
fn login_success_enters_play_and_disconnect_closes() {
    let mut s = started_session();
    s.on_bytes(&frame(0x02, &[], -1)); // login success
    assert!(matches!(s.pump(), PumpStep::Progress));
    assert_eq!(s.phase(), Phase::Play);

    s.on_bytes(&frame(0x1a, &[], -1)); // play-phase disconnect
    match s.pump() {
        PumpStep::Closed(r) => assert_eq!(r, CloseReason::ServerDisconnect),
        other => panic!("expected close, got {:?}", step_name(&other)),
    }
    assert_eq!(s.phase(), Phase::Closed);
    // Closed is absorbing: the session only repeats its reason.
    assert!(matches!(s.pump(), PumpStep::Closed(CloseReason::ServerDisconnect)));
}

#[test]
fn login_disconnect_closes() {
    let mut s = started_session();
    s.on_bytes(&frame(0x00, &[], -1));
    assert!(matches!(s.pump(), PumpStep::Closed(CloseReason::ServerDisconnect)));
    assert_eq!(s.phase(), Phase::Closed);
}

fn step_name(s: &PumpStep) -> &'static str {
    match s {
        PumpStep::NeedInput => "NeedInput",
        PumpStep::Progress => "Progress",
        PumpStep::Send(_) => "Send",
        PumpStep::Closed(_) => "Closed",
    }
}

#[test]
fn keep_alive_is_echoed_before_anything_else() {
    let mut s = started_session();
    s.on_bytes(&frame(0x02, &[], -1)); // success: enter play
    assert!(matches!(s.pump(), PumpStep::Progress));

    // Ping with nonce 0x0102030405060708, followed by another frame in
    // the same read.
    let nonce_bytes = [1u8, 2, 3, 4, 5, 6, 7, 8];
    let mut read = frame(0x23, &nonce_bytes, -1);
    read.extend_from_slice(&frame(0x55, b"later", -1));
    s.on_bytes(&read);

    match s.pump() {
        PumpStep::Send(bytes) => {
            let expected = encode_frame(&build_keep_alive(0x0102030405060708), -1).unwrap();
            assert_eq!(bytes, expected);
        }
        other => panic!("expected the pong, got {:?}", step_name(&other)),
    }
    assert_eq!(s.phase(), Phase::Play);
    // Only then is the later frame processed (and discarded as unknown).
    assert!(matches!(s.pump(), PumpStep::Progress));
    assert!(matches!(s.pump(), PumpStep::NeedInput));
}

#[test]
fn keep_alive_echo_under_compression() {
    let mut s = started_session();
    s.on_bytes(&frame(0x03, &[0x05], -1)); // compression announce, threshold 5
    assert!(matches!(s.pump(), PumpStep::Progress));
    assert_eq!(s.phase(), Phase::Login);

    // From here on the peer compresses; login success now framed under t=5.
    s.on_bytes(&frame(0x02, &[], 5));
    assert!(matches!(s.pump(), PumpStep::Progress));
    assert_eq!(s.phase(), Phase::Play);

    let nonce_bytes = [0u8, 0, 0, 0, 0, 0, 1, 44];
    s.on_bytes(&frame(0x23, &nonce_bytes, 5));
    match s.pump() {
        PumpStep::Send(bytes) => {
            // The pong goes out under the same threshold, and decodes back
            // to a keep-alive reply carrying the same nonce.
            let expected = encode_frame(&build_keep_alive(300), 5).unwrap();
            assert_eq!(bytes, expected);
            let mut dec = Decoder::new();
            dec.set_compression(5);
            dec.queue_input(&bytes);
            let f = dec.decode_next().unwrap().unwrap();
            assert_eq!(f.id, 0x12);
            assert_eq!(f.data, vec![0, 0, 0, 0, 0, 0, 1, 44]);
        }
        other => panic!("expected the pong, got {:?}", step_name(&other)),
    }
}

#[test]
fn compression_announcement_reaches_buffered_frames() {
    let mut s = started_session();
    // One read delivers the announcement (uncompressed) and the login
    // success already framed under the new threshold.
    let mut read = frame(0x03, &[0x01], -1);
    read.extend_from_slice(&frame(0x02, &[], 1));
    s.on_bytes(&read);
    assert!(matches!(s.pump(), PumpStep::Progress));
    assert!(matches!(s.pump(), PumpStep::Progress));
    assert_eq!(s.phase(), Phase::Play);
}

#[test]
fn unknown_play_packet_is_discarded() {
    let mut s = started_session();
    s.on_bytes(&frame(0x02, &[], -1));
    assert!(matches!(s.pump(), PumpStep::Progress));
    s.on_bytes(&frame(0x6f, b"whatever", -1));
    assert!(matches!(s.pump(), PumpStep::Progress));
    assert_eq!(s.phase(), Phase::Play);
    assert!(matches!(s.pump(), PumpStep::NeedInput));
}

#[test]
fn split_read_keeps_session_waiting() {
    let mut s = started_session();
    let wire = frame(0x02, &[], -1);
    for i in 0..wire.len() {
        let mut s2 = started_session();
        s2.on_bytes(&wire[..i].to_vec());
        assert!(matches!(s2.pump(), PumpStep::NeedInput), "split at {}", i);
        s2.on_bytes(&wire[i..].to_vec());
        assert!(matches!(s2.pump(), PumpStep::Progress));
        assert_eq!(s2.phase(), Phase::Play);
    }
    s.on_bytes(&wire);
    assert!(matches!(s.pump(), PumpStep::Progress));
}

#[test]
fn status_phase_discards_out_of_order_frames() {
    let mut s = Session::new();
    let addr = b"h".to_vec();
    s.start(&addr, 1, &Vec::new(), NextState::Status).unwrap();
    s.on_bytes(&frame(0x23, &[1, 2, 3, 4, 5, 6, 7, 8], -1));
    assert!(matches!(s.pump(), PumpStep::Progress));
    assert_eq!(s.phase(), Phase::Status);
}

#[test]
fn handshake_phase_discards_out_of_order_frames() {
    let mut s = Session::new();
    s.on_bytes(&frame(0x02, &[], -1));
    assert!(matches!(s.pump(), PumpStep::Progress));
    assert_eq!(s.phase(), Phase::Handshake);
}

#[test]
fn zero_length_read_closes_with_peer_closed() {
    let mut s = started_session();
    s.on_peer_closed();
    assert_eq!(s.phase(), Phase::Closed);
    assert_eq!(s.close_reason(), Some(CloseReason::PeerClosed));
    assert!(matches!(s.pump(), PumpStep::Closed(CloseReason::PeerClosed)));
}

#[test]
fn io_error_closes() {
    let mut s = started_session();
    s.on_io_error();
    assert_eq!(s.close_reason(), Some(CloseReason::IoFailed));
    // The first reason is kept.
    s.on_peer_closed();
    assert_eq!(s.close_reason(), Some(CloseReason::IoFailed));
}

#[test]
fn malformed_length_terminates_session() {
    let mut s = started_session();
    s.on_bytes(&vec![0x80u8, 0x80, 0x80, 0x01]); // declares 2 ^ 21
    match s.pump() {
        PumpStep::Closed(CloseReason::Decode(e)) => {
            assert_eq!(e, DecodeError::FrameTooLarge)
        }
        other => panic!("expected fatal close, got {:?}", step_name(&other)),
    }
    // No further decode is attempted from the same buffer.
    assert!(matches!(
        s.pump(),
        PumpStep::Closed(CloseReason::Decode(DecodeError::FrameTooLarge))
    ));
}

#[test]
fn malformed_keep_alive_is_fatal() {
    let mut s = started_session();
    s.on_bytes(&frame(0x02, &[], -1));
    assert!(matches!(s.pump(), PumpStep::Progress));
    s.on_bytes(&frame(0x23, &[1, 2], -1)); // ping with a short nonce
    assert!(matches!(
        s.pump(),
        PumpStep::Closed(CloseReason::Decode(DecodeError::BadPacketField))
    ));
}

#[test]
fn start_rejects_long_fields_and_stays_in_handshake() {
    let mut s = Session::new();
    let addr = vec![b'a'; 256];
    let name = b"ok".to_vec();
    assert!(s.start(&addr, 25565, &name, NextState::Login).is_err());
    assert_eq!(s.phase(), Phase::Handshake);
}
