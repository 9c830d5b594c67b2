use bi::ui::PK;

fn pk_eq(a: &PK, b: &PK) -> bool {
    match (a, b) {
        (PK::Text(x), PK::Text(y)) => x == y,
        (PK::Int16(x), PK::Int16(y)) => x == y,
        (PK::Int32(x), PK::Int32(y)) => x == y,
        (PK::Int64(x), PK::Int64(y)) => x == y,
        (PK::Tup2(x1, x2), PK::Tup2(y1, y2)) => x1 == y1 && x2 == y2,
        (PK::Tup3(x1, x2, x3), PK::Tup3(y1, y2, y3)) => x1 == y1 && x2 == y2 && x3 == y3,
        (PK::ISIO(x1, x2, x3, x4), PK::ISIO(y1, y2, y3, y4)) => {
            x1 == y1 && x2 == y2 && x3 == y3 && x4 == y4
        }
        _ => false,
    }
}

fn assert_round_trip(k: PK) {
    let bytes = k.encode();
    let back = PK::decode(&bytes).expect("a serialized key must deserialize");
    assert!(pk_eq(&k, &back), "round trip changed the key");
}

#[test]
fn round_trip_text() {
    assert_round_trip(PK::Text("Chicago".to_string()));
    assert_round_trip(PK::Text("".to_string()));
    assert_round_trip(PK::Text("Zürich — 北京".to_string()));
}

#[test]
fn round_trip_int16() {
    assert_round_trip(PK::Int16(0));
    assert_round_trip(PK::Int16(-7));
    assert_round_trip(PK::Int16(i16::MIN));
    assert_round_trip(PK::Int16(i16::MAX));
}

#[test]
fn round_trip_int32() {
    assert_round_trip(PK::Int32(42));
    assert_round_trip(PK::Int32(i32::MIN));
    assert_round_trip(PK::Int32(i32::MAX));
}

#[test]
fn round_trip_int64() {
    assert_round_trip(PK::Int64(0));
    assert_round_trip(PK::Int64(-1));
    assert_round_trip(PK::Int64(i64::MIN));
    assert_round_trip(PK::Int64(i64::MAX));
}

#[test]
fn round_trip_tuples() {
    assert_round_trip(PK::Tup2(1, -2));
    assert_round_trip(PK::Tup2(i32::MIN, i32::MAX));
    assert_round_trip(PK::Tup3(1, 2, 3));
    assert_round_trip(PK::Tup3(-1, 0, i32::MIN));
}

#[test]
fn round_trip_isio() {
    assert_round_trip(PK::ISIO(5, "Main St".to_string(), 10, Some("Apt 3".to_string())));
    assert_round_trip(PK::ISIO(-5, "".to_string(), 0, None));
}

#[test]
fn round_trip_keeps_variant_distinct() {
    // Same numeric value, different shapes: each comes back in its own shape.
    let bytes16 = PK::Int16(7).encode();
    let bytes32 = PK::Int32(7).encode();
    let bytes64 = PK::Int64(7).encode();
    assert!(matches!(PK::decode(&bytes16), Some(PK::Int16(7))));
    assert!(matches!(PK::decode(&bytes32), Some(PK::Int32(7))));
    assert!(matches!(PK::decode(&bytes64), Some(PK::Int64(7))));
}

#[test]
fn decode_rejects_garbage() {
    assert!(PK::decode(&[]).is_none());
    assert!(PK::decode(&[9]).is_none());
    // A truncated integer field.
    assert!(PK::decode(&[2, 0, 42, 0, 0]).is_none());
    // Trailing bytes after a complete key.
    let mut bytes = PK::Int32(42).encode();
    bytes.push(0);
    assert!(PK::decode(&bytes).is_none());
}

#[test]
fn decode_rejects_invalid_utf8_text() {
    // Tag for the text variant, a recorded length of one, and a byte that
    // is not valid UTF-8.
    let bytes = vec![0u8, 1, 0, 0, 0, 0, 0, 0, 0, 0xFF];
    assert!(PK::decode(&bytes).is_none());
}

#[test]
fn encoded_text_holds_utf8_bytes() {
    // Tag, eight length bytes, then the UTF-8 of the text: decoding must
    // really read the bytes, not echo the input buffer.
    let bytes = PK::Text("ab".to_string()).encode();
    assert_eq!(bytes.len(), 1 + 8 + 2);
    assert_eq!(bytes[0], 0);
    assert_eq!(bytes[1], 2);
    assert_eq!(&bytes[9..], b"ab");
}
