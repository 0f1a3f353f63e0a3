use esphome_api::components::ComponentUpdate;
use esphome_api::messages::LogLevel;
use esphome_api::msgtype::MessageTypes;
use esphome_api::session::{ConnectionState, Device, EspHomeApiClient};

fn make_device(password: &str) -> Device {
    Device {
        mac: String::from("24:0A:C4:00:00:01"),
        model: String::from("ESP32 DevKit"),
        esphome_version: String::from("rs v0"),
        name: String::from("hub"),
        project_name: String::from("hub.Example"),
        project_version: String::from("0.1.0"),
        server_name: String::from("hub on ESP32 DevKit"),
        password: String::from(password),
        component_description: vec![
            (MessageTypes::ListEntitiesLightResponse, vec![0x0d, 1, 0, 0, 0]),
            (MessageTypes::ListEntitiesSensorResponse, vec![0x0d, 2, 0, 0, 0]),
        ],
    }
}

fn hello_payload() -> Vec<u8> {
    // Field 1, length-delimited: the client-info string.
    vec![0x0a, 0x04, b't', b'e', b's', b't']
}

fn connect_payload(password: &[u8]) -> Vec<u8> {
    let mut p = vec![0x0a, password.len() as u8];
    p.extend_from_slice(password);
    p
}

fn handshake(client: &mut EspHomeApiClient, device: &Device) {
    let r = client.handle_frame(device, 1, &hello_payload());
    assert!(!r.done);
    let r = client.handle_frame(device, 3, &connect_payload(b"test1234"));
    assert!(!r.done);
    assert_eq!(client.state, ConnectionState::Connected);
}

#[test]
fn legality_per_state() {
    let init = ConnectionState::Initialized;
    assert!(init.is_call_legal(MessageTypes::HelloRequest));
    assert!(!init.is_call_legal(MessageTypes::ConnectRequest));
    assert!(!init.is_call_legal(MessageTypes::DeviceInfoRequest));

    let helloed = ConnectionState::Helloed;
    assert!(helloed.is_call_legal(MessageTypes::ConnectRequest));
    assert!(helloed.is_call_legal(MessageTypes::DeviceInfoRequest));
    assert!(!helloed.is_call_legal(MessageTypes::HelloRequest));
    assert!(!helloed.is_call_legal(MessageTypes::ListEntitiesRequest));

    let connected = ConnectionState::Connected;
    assert!(!connected.is_call_legal(MessageTypes::HelloRequest));
    assert!(!connected.is_call_legal(MessageTypes::ConnectRequest));
    assert!(connected.is_call_legal(MessageTypes::ListEntitiesRequest));
    assert!(connected.is_call_legal(MessageTypes::SubscribeStatesRequest));
}

#[test]
fn handshake_ordering_initialized_rejects_non_hello() {
    let device = make_device("test1234");
    // Every kind but hello, disconnect traffic, and ping traffic terminates
    // the session with no reply while the handshake has not begun.
    for ty in [3u32, 9, 11, 20, 28, 32] {
        let mut client = EspHomeApiClient::new();
        let r = client.handle_frame(&device, ty, &vec![]);
        assert!(r.done, "type {} must end the session", ty);
        assert!(r.replies.is_empty(), "type {} must get no reply", ty);
        assert!(r.events.is_empty());
    }
}

#[test]
fn handshake_ordering_helloed_rejects_other_types() {
    let device = make_device("test1234");
    for ty in [1u32, 11, 20, 28, 32] {
        let mut client = EspHomeApiClient::new();
        let r = client.handle_frame(&device, 1, &hello_payload());
        assert!(!r.done);
        assert_eq!(client.state, ConnectionState::Helloed);
        let r = client.handle_frame(&device, ty, &vec![]);
        assert!(r.done, "type {} must end the session", ty);
        assert!(r.replies.is_empty(), "type {} must get no reply", ty);
    }
}

#[test]
fn hello_advances_and_replies() {
    let device = make_device("");
    let mut client = EspHomeApiClient::new();
    let r = client.handle_frame(&device, 1, &hello_payload());
    assert!(!r.done);
    assert_eq!(client.state, ConnectionState::Helloed);
    assert_eq!(r.replies.len(), 1);
    assert_eq!(r.replies[0].0, MessageTypes::HelloResponse);
    // Version 1.6, server info, name.
    let expected: Vec<u8> = {
        let mut p = vec![0x08, 0x01, 0x10, 0x06];
        p.extend_from_slice(&[0x1a, 11]);
        p.extend_from_slice(b"hub.Example");
        p.extend_from_slice(&[0x22, 3]);
        p.extend_from_slice(b"hub");
        p
    };
    assert_eq!(r.replies[0].1, expected);
}

#[test]
fn password_gate_rejects_mismatch() {
    let device = make_device("test1234");
    let mut client = EspHomeApiClient::new();
    client.handle_frame(&device, 1, &hello_payload());
    let r = client.handle_frame(&device, 3, &connect_payload(b"wrong"));
    // One connect response with the invalid-password flag, then the session
    // ends.
    assert_eq!(r.replies.len(), 1);
    assert_eq!(r.replies[0].0, MessageTypes::ConnectResponse);
    assert_eq!(r.replies[0].1, vec![0x08, 0x01]);
    assert!(r.done);
    assert_ne!(client.state, ConnectionState::Connected);
}

#[test]
fn password_gate_accepts_match() {
    let device = make_device("test1234");
    let mut client = EspHomeApiClient::new();
    client.handle_frame(&device, 1, &hello_payload());
    let r = client.handle_frame(&device, 3, &connect_payload(b"test1234"));
    assert!(!r.done);
    assert_eq!(r.replies.len(), 1);
    assert_eq!(r.replies[0].0, MessageTypes::ConnectResponse);
    assert!(r.replies[0].1.is_empty(), "a valid login has no flag set");
    assert_eq!(client.state, ConnectionState::Connected);
}

#[test]
fn password_gate_empty_accepts_any() {
    let device = make_device("");
    for submitted in [&b""[..], b"anything", b"test1234"] {
        let mut client = EspHomeApiClient::new();
        client.handle_frame(&device, 1, &hello_payload());
        let r = client.handle_frame(&device, 3, &connect_payload(submitted));
        assert!(!r.done);
        assert_eq!(client.state, ConnectionState::Connected);
    }
}

#[test]
fn ping_served_in_any_state() {
    let device = make_device("test1234");

    // Initialized.
    let mut client = EspHomeApiClient::new();
    let r = client.handle_frame(&device, 7, &vec![]);
    assert!(!r.done);
    assert_eq!(r.replies.len(), 1);
    assert_eq!(r.replies[0].0, MessageTypes::PingResponse);
    assert!(r.replies[0].1.is_empty());
    assert_eq!(client.state, ConnectionState::Initialized);

    // Helloed.
    client.handle_frame(&device, 1, &hello_payload());
    let r = client.handle_frame(&device, 7, &vec![]);
    assert!(!r.done);
    assert_eq!(r.replies[0].0, MessageTypes::PingResponse);
    assert_eq!(client.state, ConnectionState::Helloed);

    // Connected.
    client.handle_frame(&device, 3, &connect_payload(b"test1234"));
    let r = client.handle_frame(&device, 7, &vec![]);
    assert!(!r.done);
    assert_eq!(r.replies[0].0, MessageTypes::PingResponse);
    assert_eq!(client.state, ConnectionState::Connected);
}

#[test]
fn ping_response_is_a_no_op() {
    let device = make_device("test1234");
    let mut client = EspHomeApiClient::new();
    let r = client.handle_frame(&device, 8, &vec![]);
    assert!(!r.done);
    assert!(r.replies.is_empty());
    assert_eq!(client.state, ConnectionState::Initialized);
}

#[test]
fn disconnect_request_answered_then_ends() {
    let device = make_device("test1234");
    let mut client = EspHomeApiClient::new();
    let r = client.handle_frame(&device, 5, &vec![]);
    assert!(r.done);
    assert_eq!(r.replies.len(), 1);
    assert_eq!(r.replies[0].0, MessageTypes::DisconnectResponse);
    assert!(r.replies[0].1.is_empty());
}

#[test]
fn disconnect_response_ends_silently() {
    let device = make_device("test1234");
    let mut client = EspHomeApiClient::new();
    let r = client.handle_frame(&device, 6, &vec![]);
    assert!(r.done);
    assert!(r.replies.is_empty());
}

#[test]
fn reserved_type_ends_session() {
    let device = make_device("test1234");
    let mut client = EspHomeApiClient::new();
    handshake(&mut client, &device);
    let r = client.handle_frame(&device, 0, &vec![]);
    assert!(r.done);
    assert!(r.replies.is_empty());
    let mut client = EspHomeApiClient::new();
    let r = client.handle_frame(&device, 99, &vec![]);
    assert!(r.done);
    assert!(r.replies.is_empty());
}

#[test]
fn device_info_reports_identity() {
    let device = make_device("test1234");
    let mut client = EspHomeApiClient::new();
    client.handle_frame(&device, 1, &hello_payload());
    let r = client.handle_frame(&device, 9, &vec![]);
    assert!(!r.done);
    assert_eq!(r.replies.len(), 1);
    assert_eq!(r.replies[0].0, MessageTypes::DeviceInfoResponse);
    let expected: Vec<u8> = {
        let mut p = vec![0x08, 0x01];
        p.extend_from_slice(&[0x12, 3]);
        p.extend_from_slice(b"hub");
        p.extend_from_slice(&[0x1a, 17]);
        p.extend_from_slice(b"24:0A:C4:00:00:01");
        p.extend_from_slice(&[0x22, 5]);
        p.extend_from_slice(b"rs v0");
        p.extend_from_slice(&[0x32, 12]);
        p.extend_from_slice(b"ESP32 DevKit");
        p.extend_from_slice(&[0x42, 11]);
        p.extend_from_slice(b"hub.Example");
        p.extend_from_slice(&[0x4a, 5]);
        p.extend_from_slice(b"0.1.0");
        p
    };
    assert_eq!(r.replies[0].1, expected);
    assert_eq!(client.state, ConnectionState::Helloed);
}

#[test]
fn list_entities_streams_descriptions_then_done() {
    let device = make_device("test1234");
    let mut client = EspHomeApiClient::new();
    handshake(&mut client, &device);
    let r = client.handle_frame(&device, 11, &vec![]);
    assert!(!r.done);
    assert_eq!(r.replies.len(), 3);
    assert_eq!(r.replies[0].0, MessageTypes::ListEntitiesLightResponse);
    assert_eq!(r.replies[0].1, device.component_description[0].1);
    assert_eq!(r.replies[1].0, MessageTypes::ListEntitiesSensorResponse);
    assert_eq!(r.replies[1].1, device.component_description[1].1);
    assert_eq!(r.replies[2].0, MessageTypes::ListEntitiesDoneResponse);
    assert!(r.replies[2].1.is_empty());
}

#[test]
fn subscribe_states_raises_broadcast_pull() {
    let device = make_device("test1234");
    let mut client = EspHomeApiClient::new();
    handshake(&mut client, &device);
    let r = client.handle_frame(&device, 20, &vec![]);
    assert!(!r.done);
    assert!(r.replies.is_empty());
    assert_eq!(r.events.len(), 1);
    assert!(matches!(r.events[0], ComponentUpdate::Request(None)));
}

#[test]
fn subscribe_logs_updates_threshold() {
    let device = make_device("test1234");
    let mut client = EspHomeApiClient::new();
    handshake(&mut client, &device);
    assert_eq!(client.log_level, LogLevel::LOG_LEVEL_NONE);
    let r = client.handle_frame(&device, 28, &vec![0x08, 0x05]);
    assert!(!r.done);
    assert!(r.replies.is_empty());
    assert_eq!(client.log_level, LogLevel::LOG_LEVEL_DEBUG);
}

#[test]
fn light_command_raises_router_event() {
    let device = make_device("test1234");
    let mut client = EspHomeApiClient::new();
    handshake(&mut client, &device);
    // Key 5 (fixed32 field 1), has_state (field 2), state on (field 3).
    let payload = vec![0x0d, 5, 0, 0, 0, 0x10, 0x01, 0x18, 0x01];
    let r = client.handle_frame(&device, 32, &payload);
    assert!(!r.done);
    assert!(r.replies.is_empty());
    assert_eq!(r.events.len(), 1);
    match &r.events[0] {
        ComponentUpdate::LightRequest(cmd) => {
            assert_eq!(cmd.key, 5);
            assert!(cmd.has_state);
            assert!(cmd.state);
            assert!(!cmd.has_brightness);
            assert!(!cmd.has_rgb);
        },
        _ => panic!("expected a light request event"),
    }
}

#[test]
fn malformed_payload_ends_session() {
    let device = make_device("test1234");
    let mut client = EspHomeApiClient::new();
    // A hello whose field tag varint never terminates.
    let r = client.handle_frame(&device, 1, &vec![0x80]);
    assert!(r.done);
    assert!(r.replies.is_empty());
    assert_eq!(client.state, ConnectionState::Initialized);
}

#[test]
fn unhandled_known_type_is_ignored_when_connected() {
    let device = make_device("test1234");
    let mut client = EspHomeApiClient::new();
    handshake(&mut client, &device);
    // GetTimeRequest has no handler: a forward-compatible no-op.
    let r = client.handle_frame(&device, 36, &vec![]);
    assert!(!r.done);
    assert!(r.replies.is_empty());
    assert!(r.events.is_empty());
    assert_eq!(client.state, ConnectionState::Connected);
}
