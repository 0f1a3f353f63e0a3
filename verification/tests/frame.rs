use esphome_api::frame::{encode_frame, read_frame, FrameError};

#[test]
fn frame_round_trip_all_types() {
    for ty in 1u32..=40 {
        for len in [0usize, 1, 7, 127, 128, 1000] {
            let payload: Vec<u8> = (0..len).map(|i| (i % 251) as u8).collect();
            let wire = encode_frame(ty, &payload);
            let (frame, used) = read_frame(&wire, 0).expect("frame must parse");
            assert_eq!(frame.type_id, ty);
            assert_eq!(frame.payload, payload);
            assert_eq!(used, wire.len());
        }
    }
}

#[test]
fn frame_round_trip_with_trailing_data() {
    let payload = vec![1u8, 2, 3];
    let mut wire = encode_frame(7, &payload);
    let first_len = wire.len();
    let mut second = encode_frame(8, &vec![]);
    wire.append(&mut second);
    let (frame, used) = read_frame(&wire, 0).expect("first frame must parse");
    assert_eq!(frame.type_id, 7);
    assert_eq!(frame.payload, payload);
    assert_eq!(used, first_len);
    let (frame2, used2) = read_frame(&wire, used).expect("second frame must parse");
    assert_eq!(frame2.type_id, 8);
    assert!(frame2.payload.is_empty());
    assert_eq!(used2, wire.len());
}

#[test]
fn frame_exact_wire_bytes() {
    // Preamble, varint length, varint type, payload.
    let wire = encode_frame(7, &vec![]);
    assert_eq!(wire, vec![0x00, 0x00, 0x07]);
    let wire = encode_frame(1, &vec![0xaa, 0xbb]);
    assert_eq!(wire, vec![0x00, 0x02, 0x01, 0xaa, 0xbb]);
}

#[test]
fn frame_eof_maps_to_reserved_type() {
    // A closed stream at the preamble read is the type-0 sentinel, no error.
    let empty: Vec<u8> = vec![];
    let (frame, used) = read_frame(&empty, 0).expect("end of stream is not an error");
    assert_eq!(frame.type_id, 0);
    assert!(frame.payload.is_empty());
    assert_eq!(used, 0);

    let wire = encode_frame(7, &vec![]);
    let end = wire.len();
    let (frame, _) = read_frame(&wire, end).expect("end of stream is not an error");
    assert_eq!(frame.type_id, 0);
}

#[test]
fn frame_invalid_preamble_is_fatal() {
    let wire = vec![0x01, 0x00, 0x07];
    assert_eq!(read_frame(&wire, 0), Err(FrameError::InvalidPreamble));
}

#[test]
fn frame_truncated_is_an_error() {
    // Cut inside the length varint, the type varint, and the payload.
    assert_eq!(read_frame(&vec![0x00], 0), Err(FrameError::Truncated));
    assert_eq!(read_frame(&vec![0x00, 0x80], 0), Err(FrameError::Truncated));
    assert_eq!(read_frame(&vec![0x00, 0x02], 0), Err(FrameError::Truncated));
    assert_eq!(read_frame(&vec![0x00, 0x02, 0x01, 0xaa], 0), Err(FrameError::Truncated));
}
