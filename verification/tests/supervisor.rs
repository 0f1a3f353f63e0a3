use esphome_api::components::{
    Bme280, Bme280Reading, Component, ComponentManager, ComponentUpdate,
};
use esphome_api::frame::encode_frame;
use esphome_api::messages::{LogLevel, SubscribeLogsResponse};
use esphome_api::msgtype::MessageTypes;
use esphome_api::server::EspHomeApiServer;
use esphome_api::session::{outbound_frame, Device};

fn make_device() -> Device {
    Device {
        mac: String::from("24:0A:C4:00:00:01"),
        model: String::from("ESP32 DevKit"),
        esphome_version: String::from("rs v0"),
        name: String::from("hub"),
        project_name: String::from("hub.Example"),
        project_version: String::from("0.1.0"),
        server_name: String::from("hub on ESP32 DevKit"),
        password: String::from(""),
        component_description: vec![],
    }
}

fn make_server_with_sensor() -> EspHomeApiServer {
    let mut components = ComponentManager::new();
    let mut bme = Bme280::new(0);
    bme.set_reading(Bme280Reading {
        temperature: f32::to_bits(21.5),
        humidity: f32::to_bits(40.0),
        pressure: f32::to_bits(1013.0),
    });
    components.push(Component::Bme280(bme));
    EspHomeApiServer::new(make_device(), components)
}

#[test]
fn broadcast_reaches_all_clients_identically() {
    let mut server = make_server_with_sensor();
    // Two concurrently connected, fully-handshaked clients.
    server.handle_bus_event(&ComponentUpdate::Connection(1), 0);
    server.handle_bus_event(&ComponentUpdate::Connection(2), 0);
    assert_eq!(server.broadcast_targets(), vec![1, 2]);

    // A tick makes the sensor emit state pushes.
    let msgs = server.handle_bus_event(&ComponentUpdate::Update, 61_000);
    assert_eq!(msgs.len(), 3);
    assert!(matches!(msgs[0], ComponentUpdate::SensorResponse(_)));

    // Every target gets the identical encoded frame for each event.
    for msg in &msgs {
        let mut encodings: Vec<Vec<u8>> = Vec::new();
        for _client in server.broadcast_targets() {
            let (ty, payload) =
                outbound_frame(msg, LogLevel::LOG_LEVEL_NONE).expect("state pushes are sent");
            assert_eq!(ty, MessageTypes::SensorStateResponse);
            encodings.push(encode_frame(ty.to_u32(), &payload));
        }
        assert_eq!(encodings.len(), 2);
        assert_eq!(encodings[0], encodings[1]);
    }
}

#[test]
fn closed_client_leaves_the_broadcast_set() {
    let mut server = make_server_with_sensor();
    server.handle_bus_event(&ComponentUpdate::Connection(1), 0);
    server.handle_bus_event(&ComponentUpdate::Connection(2), 0);

    // Client 2's channel is reported closed: dropping it is silent.
    server.remove_client(2);
    assert_eq!(server.broadcast_targets(), vec![1]);

    // The next broadcast reaches only the remaining client.
    let msgs = server.handle_bus_event(&ComponentUpdate::Update, 61_000);
    assert_eq!(msgs.len(), 3);
    assert_eq!(server.broadcast_targets(), vec![1]);
}

#[test]
fn closing_note_is_dropped() {
    let mut server = make_server_with_sensor();
    server.handle_bus_event(&ComponentUpdate::Connection(1), 0);
    let msgs = server.handle_bus_event(&ComponentUpdate::Closing, 0);
    assert!(msgs.is_empty());
    assert_eq!(server.broadcast_targets(), vec![1]);
}

#[test]
fn log_events_pass_through_to_clients() {
    let mut server = make_server_with_sensor();
    let log = ComponentUpdate::Log(SubscribeLogsResponse {
        level: LogLevel::LOG_LEVEL_INFO,
        message: b"[I] hello".to_vec(),
    });
    let msgs = server.handle_bus_event(&log, 0);
    assert_eq!(msgs.len(), 1);
    match &msgs[0] {
        ComponentUpdate::Log(m) => {
            assert_eq!(m.level, LogLevel::LOG_LEVEL_INFO);
            assert_eq!(m.message, b"[I] hello".to_vec());
        },
        _ => panic!("expected the log line back"),
    }
}

#[test]
fn log_lines_respect_the_session_threshold() {
    let log = ComponentUpdate::Log(SubscribeLogsResponse {
        level: LogLevel::LOG_LEVEL_DEBUG,
        message: b"[D] detail".to_vec(),
    });
    // A session that never subscribed gets nothing.
    assert!(outbound_frame(&log, LogLevel::LOG_LEVEL_NONE).is_none());
    // A session at a lower threshold gets nothing.
    assert!(outbound_frame(&log, LogLevel::LOG_LEVEL_INFO).is_none());
    // A session at or above the line's level gets the encoded push.
    let (ty, payload) = outbound_frame(&log, LogLevel::LOG_LEVEL_DEBUG).unwrap();
    assert_eq!(ty, MessageTypes::SubscribeLogsResponse);
    let mut expected = vec![0x08, 0x05, 0x1a, 10];
    expected.extend_from_slice(b"[D] detail");
    assert_eq!(payload, expected);
}

#[test]
fn outbound_passes_encoded_responses_through() {
    let upd = ComponentUpdate::Response(MessageTypes::HelloResponse, vec![1, 2, 3]);
    let (ty, payload) = outbound_frame(&upd, LogLevel::LOG_LEVEL_NONE).unwrap();
    assert_eq!(ty, MessageTypes::HelloResponse);
    assert_eq!(payload, vec![1, 2, 3]);
}

#[test]
fn outbound_ignores_inbound_events() {
    assert!(outbound_frame(&ComponentUpdate::Update, LogLevel::LOG_LEVEL_NONE).is_none());
    assert!(outbound_frame(&ComponentUpdate::Closing, LogLevel::LOG_LEVEL_NONE).is_none());
    assert!(
        outbound_frame(&ComponentUpdate::Request(None), LogLevel::LOG_LEVEL_NONE).is_none()
    );
}
