use esphome_api::varint::{from_varuint, to_varuint};

#[test]
fn varint_round_trip_boundaries() {
    for v in [0u32, 1, 127, 128, 16383, 16384, 2097151, 2097152, u32::MAX - 1, u32::MAX] {
        let encoded = to_varuint(v);
        assert_eq!(from_varuint(&encoded), v);
    }
}

#[test]
fn varint_single_byte_values() {
    assert_eq!(to_varuint(0), vec![0x00]);
    assert_eq!(to_varuint(1), vec![0x01]);
    assert_eq!(to_varuint(127), vec![0x7f]);
}

#[test]
fn varint_multi_byte_values() {
    assert_eq!(to_varuint(128), vec![0x80, 0x01]);
    assert_eq!(to_varuint(300), vec![0xac, 0x02]);
    assert_eq!(to_varuint(16383), vec![0xff, 0x7f]);
    assert_eq!(to_varuint(16384), vec![0x80, 0x80, 0x01]);
    assert_eq!(to_varuint(u32::MAX), vec![0xff, 0xff, 0xff, 0xff, 0x0f]);
}

#[test]
fn varint_decode_empty_is_zero() {
    assert_eq!(from_varuint(&vec![]), 0);
}

#[test]
fn varint_decode_unterminated_is_zero() {
    // No byte with a clear continuation flag: the tolerant decoder gives 0.
    assert_eq!(from_varuint(&vec![0x80, 0x80]), 0);
}

#[test]
fn varint_decode_tolerates_non_minimal() {
    // 1 encoded with a needless continuation byte still reads as 1.
    assert_eq!(from_varuint(&vec![0x81, 0x00]), 1);
    assert_eq!(from_varuint(&vec![0x80, 0x00]), 0);
}

#[test]
fn varint_decode_stops_at_terminator() {
    // Bytes after the first terminator are not part of the value.
    assert_eq!(from_varuint(&vec![0x05, 0xff, 0xff]), 5);
}
