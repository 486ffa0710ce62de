use std::str::FromStr;

use opentracingrust_zipkin::TraceID;
use opentracingrust_zipkin::hex::DecodeKind;
use opentracingrust_zipkin::hex::format_hex_u64;
use opentracingrust_zipkin::hex::parse_hex_u64;
use opentracingrust_zipkin::tracer::trace_id::InnerID;

#[test]
fn generate_long_id() {
    let id = TraceID::new();
    match id.0 {
        InnerID::Short(_) => panic!("Generated IDs should be long"),
        _ => (),
    }
}

#[test]
fn id_si_random() {
    let id1 = TraceID::new();
    let id2 = TraceID::new();
    assert_ne!(id1, id2);
}

#[test]
fn trace_id_long_id() {
    let inner: [u8; 16] = [1, 2, 3, 4, 5, 6, 7, 8, 9, 10, 11, 12, 13, 14, 15, 16];
    let id1 = TraceID::from(inner.clone());
    let id2 = TraceID::from(inner);
    assert_eq!(id1, id2);
}

#[test]
fn trace_id_short_id() {
    let inner: [u8; 8] = [1, 2, 3, 4, 5, 6, 7, 8];
    let id1 = TraceID::from(inner.clone());
    let id2 = TraceID::from(inner);
    assert_eq!(id1, id2);
}

#[test]
fn parse_long_id() {
    let id = TraceID::from_str("0102030405060708090a0b0c0d0e0f10").unwrap();
    let expected = TraceID::from([1, 2, 3, 4, 5, 6, 7, 8, 9, 10, 11, 12, 13, 14, 15, 16]);
    assert_eq!(id, expected);
}

#[test]
fn parse_short_id() {
    let id = TraceID::from_str("090a0b0c0d0e0f10").unwrap();
    let expected = TraceID::from([9, 10, 11, 12, 13, 14, 15, 16]);
    assert_eq!(id, expected);
}

#[test]
fn too_short() {
    match TraceID::from_str("deadbeef") {
        Err(err) => assert_eq!(err.kind, DecodeKind::Length),
        _ => panic!("String decoding should have failed"),
    }
}

#[test]
fn too_long() {
    match TraceID::from_str("deadbeef0102030405060708090a0b0c0d0e0f10") {
        Err(err) => assert_eq!(err.kind, DecodeKind::Length),
        _ => panic!("String decoding should have failed"),
    }
}

#[test]
fn parse_rejects_stray_symbol() {
    match TraceID::from_str("zz02030405060708") {
        Err(err) => {
            assert_eq!(err.kind, DecodeKind::Symbol);
            assert_eq!(err.position, 0);
        },
        _ => panic!("String decoding should have failed"),
    }
}

#[test]
fn parse_accepts_uppercase() {
    let id = TraceID::from_str("090A0B0C0D0E0F10").unwrap();
    let expected = TraceID::from([9, 10, 11, 12, 13, 14, 15, 16]);
    assert_eq!(id, expected);
}

#[test]
fn long_id() {
    let id = TraceID::from([1, 2, 3, 4, 5, 6, 7, 8, 9, 10, 11, 12, 13, 14, 15, 16]);
    let id = id.to_string();
    assert_eq!("0102030405060708090a0b0c0d0e0f10", id);
}

#[test]
fn short_id() {
    let id = TraceID::from([9, 10, 11, 12, 13, 14, 15, 16]);
    let id = id.to_string();
    assert_eq!("090a0b0c0d0e0f10", id);
}

#[test]
fn high_and_low() {
    let id = TraceID::from([0, 0, 0, 0, 0, 0, 0, 5, 0, 0, 0, 0, 0, 0, 0, 2]);
    let (high, low): (u64, u64) = id.split();
    assert_eq!(high, 5);
    assert_eq!(low, 2);
}

#[test]
fn high_is_zero_when_low_is_enough() {
    let id = TraceID::from([0, 0, 0, 0, 0, 0, 0, 0, 0, 0, 0, 0, 0, 0, 0, 55]);
    let (high, low): (u64, u64) = id.split();
    assert_eq!(high, 0);
    assert_eq!(low, 55);
}

#[test]
fn high_and_low_for_short() {
    let id = TraceID::from([0, 0, 0, 0, 0, 0, 0, 55]);
    let (high, low): (u64, u64) = id.split();
    assert_eq!(high, 0);
    assert_eq!(low, 55);
}

#[test]
fn trace_id_high_and_low() {
    let id = TraceID::join(5, 2);
    assert_eq!(id, TraceID::from([0, 0, 0, 0, 0, 0, 0, 5, 0, 0, 0, 0, 0, 0, 0, 2]));
}

#[test]
fn trace_id_high_is_zero_when_low_is_enough() {
    let id = TraceID::join(0, 2);
    assert_eq!(id, TraceID::from([0, 0, 0, 0, 0, 0, 0, 0, 0, 0, 0, 0, 0, 0, 0, 2]));
}

#[test]
fn parse_format_round_trip_both_widths() {
    let long = TraceID::from([1, 2, 3, 4, 5, 6, 7, 8, 9, 10, 11, 12, 13, 14, 15, 16]);
    assert_eq!(TraceID::from_str(&long.to_string()).unwrap(), long);
    let short = TraceID::from([9, 10, 11, 12, 13, 14, 15, 16]);
    assert_eq!(TraceID::from_str(&short.to_string()).unwrap(), short);
}

#[test]
fn split_join_round_trip() {
    let (high, low) = TraceID::join(72623859790382856, 651345242494996240).split();
    assert_eq!(high, 72623859790382856);
    assert_eq!(low, 651345242494996240);
}

#[test]
fn example_trace_id_format_and_split() {
    let id = TraceID::from([
        0x01, 0x02, 0x03, 0x04, 0x05, 0x06, 0x07, 0x08, 0x09, 0x0a, 0x0b, 0x0c, 0x0d, 0x0e, 0x0f,
        0x10,
    ]);
    assert_eq!(id.to_string(), "0102030405060708090a0b0c0d0e0f10");
    let (high, low) = id.split();
    assert_eq!(high, 72623859790382856);
    assert_eq!(low, 651345242494996240);
}

#[test]
fn span_id_hex_round_trip() {
    assert_eq!(format_hex_u64(42), "2a");
    assert_eq!(parse_hex_u64("2a"), Ok(42));
    assert_eq!(format_hex_u64(0), "0");
    assert_eq!(parse_hex_u64("ffffffffffffffff"), Ok(u64::MAX));
    assert!(parse_hex_u64("10000000000000000").is_err());
    assert!(parse_hex_u64("").is_err());
    assert!(parse_hex_u64("2g").is_err());
}
