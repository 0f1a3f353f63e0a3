use esphome_api::messages::{
    encode_connect_response, encode_light_state, encode_sensor_state,
    encode_subscribe_logs_response, parse_connect_request, parse_light_command_request,
    parse_subscribe_logs_request, LightStateResponse, SensorStateResponse,
};
use esphome_api::proto::ProtoError;

#[test]
fn connect_response_exact_bytes() {
    assert_eq!(encode_connect_response(true), vec![0x08, 0x01]);
    assert_eq!(encode_connect_response(false), Vec::<u8>::new());
}

#[test]
fn sensor_state_exact_bytes() {
    let resp = SensorStateResponse { key: 0x01020304, state: f32::to_bits(21.5) };
    let body = encode_sensor_state(&resp);
    let mut expected = vec![0x0d, 0x04, 0x03, 0x02, 0x01, 0x15];
    expected.extend_from_slice(&f32::to_bits(21.5).to_le_bytes());
    assert_eq!(body, expected);
}

#[test]
fn light_state_exact_bytes() {
    let resp = LightStateResponse {
        key: 7,
        state: true,
        brightness: f32::to_bits(1.0),
        red: 0,
        green: 0,
        blue: 0,
    };
    let body = encode_light_state(&resp);
    let mut expected = vec![0x0d, 7, 0, 0, 0, 0x10, 0x01, 0x1d];
    expected.extend_from_slice(&f32::to_bits(1.0).to_le_bytes());
    assert_eq!(body, expected);
}

#[test]
fn log_push_exact_bytes() {
    let body = encode_subscribe_logs_response(3, &b"[I] hello".to_vec());
    let mut expected = vec![0x08, 0x03, 0x1a, 9];
    expected.extend_from_slice(b"[I] hello");
    assert_eq!(body, expected);
}

#[test]
fn parse_connect_reads_password() {
    let req = parse_connect_request(&vec![0x0a, 0x03, b'a', b'b', b'c']).unwrap();
    assert_eq!(req.password, b"abc".to_vec());
}

#[test]
fn parse_connect_empty_payload_means_empty_password() {
    let req = parse_connect_request(&vec![]).unwrap();
    assert!(req.password.is_empty());
}

#[test]
fn parse_skips_unknown_fields() {
    // An unknown varint field 9, an unknown fixed32 field 10, then the
    // password in field 1.
    let mut p = vec![0x48, 0x7f];
    p.extend_from_slice(&[0x55, 1, 2, 3, 4]);
    p.extend_from_slice(&[0x0a, 0x02, b'o', b'k']);
    let req = parse_connect_request(&p).unwrap();
    assert_eq!(req.password, b"ok".to_vec());
}

#[test]
fn parse_last_field_wins() {
    let p = vec![0x0a, 0x01, b'a', 0x0a, 0x01, b'b'];
    let req = parse_connect_request(&p).unwrap();
    assert_eq!(req.password, b"b".to_vec());
}

#[test]
fn parse_malformed_reports_error() {
    // A tag with no terminator.
    assert_eq!(parse_connect_request(&vec![0x80]), Err(ProtoError::Malformed));
    // A length that overruns the payload.
    assert_eq!(parse_connect_request(&vec![0x0a, 0x05, b'a']), Err(ProtoError::Malformed));
    // Field number zero.
    assert_eq!(parse_connect_request(&vec![0x00]), Err(ProtoError::Malformed));
    // A deprecated group wire type.
    assert_eq!(parse_connect_request(&vec![0x0b]), Err(ProtoError::Malformed));
}

#[test]
fn parse_subscribe_logs_reads_level() {
    let req = parse_subscribe_logs_request(&vec![0x08, 0x06]).unwrap();
    assert_eq!(req.level, 6);
    let req = parse_subscribe_logs_request(&vec![]).unwrap();
    assert_eq!(req.level, 0);
}

#[test]
fn parse_light_command_reads_all_fields() {
    let mut p = vec![0x0d];
    p.extend_from_slice(&42u32.to_le_bytes());
    p.extend_from_slice(&[0x10, 0x01, 0x18, 0x01, 0x20, 0x01, 0x2d]);
    p.extend_from_slice(&f32::to_bits(0.5).to_le_bytes());
    p.extend_from_slice(&[0x30, 0x01, 0x3d]);
    p.extend_from_slice(&f32::to_bits(1.0).to_le_bytes());
    p.extend_from_slice(&[0x45]);
    p.extend_from_slice(&f32::to_bits(0.25).to_le_bytes());
    p.extend_from_slice(&[0x4d]);
    p.extend_from_slice(&f32::to_bits(0.75).to_le_bytes());
    let cmd = parse_light_command_request(&p).unwrap();
    assert_eq!(cmd.key, 42);
    assert!(cmd.has_state && cmd.state);
    assert!(cmd.has_brightness);
    assert_eq!(cmd.brightness, f32::to_bits(0.5));
    assert!(cmd.has_rgb);
    assert_eq!(cmd.red, f32::to_bits(1.0));
    assert_eq!(cmd.green, f32::to_bits(0.25));
    assert_eq!(cmd.blue, f32::to_bits(0.75));
}

#[test]
fn parse_light_command_defaults() {
    let cmd = parse_light_command_request(&vec![]).unwrap();
    assert_eq!(cmd.key, 0);
    assert!(!cmd.has_state && !cmd.state);
    assert!(!cmd.has_brightness && cmd.brightness == 0);
    assert!(!cmd.has_rgb && cmd.red == 0 && cmd.green == 0 && cmd.blue == 0);
}
