use mclink::varint::{VarScan, scan_varint, write_varint};

fn round_trip(n: u32) -> Vec<u8> {
    let mut out: Vec<u8> = Vec::new();
    write_varint(&mut out, n);
    match scan_varint(&out, 0) {
        VarScan::Val(v, k) => {
            assert_eq!(v, n);
            assert_eq!(k, out.len());
        }
        other => panic!("expected a value, got {:?}", other),
    }
    out
}

#[test]
fn varint_round_trip_boundaries() {
    assert_eq!(round_trip(0), vec![0x00]);
    assert_eq!(round_trip(1), vec![0x01]);
    assert_eq!(round_trip(127), vec![0x7f]);
    assert_eq!(round_trip(128), vec![0x80, 0x01]);
    assert_eq!(round_trip(300), vec![0xac, 0x02]);
    assert_eq!(round_trip(763), vec![0xfb, 0x05]);
    assert_eq!(round_trip(16383), vec![0xff, 0x7f]);
    assert_eq!(round_trip(16384), vec![0x80, 0x80, 0x01]);
    assert_eq!(round_trip(2097151), vec![0xff, 0xff, 0x7f]);
    assert_eq!(round_trip(2097152), vec![0x80, 0x80, 0x80, 0x01]);
    assert_eq!(round_trip(u32::MAX), vec![0xff, 0xff, 0xff, 0xff, 0x0f]);
}

#[test]
fn varint_partial_needs_more() {
    let partial = vec![0x80u8];
    assert!(matches!(scan_varint(&partial, 0), VarScan::More));
    let partial4 = vec![0x80u8, 0x80, 0x80, 0x80];
    assert!(matches!(scan_varint(&partial4, 0), VarScan::More));
    let empty: Vec<u8> = Vec::new();
    assert!(matches!(scan_varint(&empty, 0), VarScan::More));
}

#[test]
fn varint_too_long_is_bad() {
    let six = vec![0x80u8, 0x80, 0x80, 0x80, 0x80, 0x01];
    assert!(matches!(scan_varint(&six, 0), VarScan::Bad));
    // Five continuation bytes already rule out every valid encoding.
    let five = vec![0x80u8; 5];
    assert!(matches!(scan_varint(&five, 0), VarScan::Bad));
}

#[test]
fn varint_overflow_is_bad() {
    // Five bytes whose top group carries bits beyond 32 bits of value.
    let over = vec![0xffu8, 0xff, 0xff, 0xff, 0x7f];
    assert!(matches!(scan_varint(&over, 0), VarScan::Bad));
}

#[test]
fn varint_scans_at_offset() {
    let buf = vec![0x00u8, 0xac, 0x02, 0x7f];
    assert!(matches!(scan_varint(&buf, 1), VarScan::Val(300, 2)));
    assert!(matches!(scan_varint(&buf, 3), VarScan::Val(127, 1)));
    assert!(matches!(scan_varint(&buf, 4), VarScan::More));
}
