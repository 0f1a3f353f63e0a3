use esphome_api::msgtype::MessageTypes;

#[test]
fn registry_assigns_each_value_once() {
    for ty in 1u32..=40 {
        let kind = MessageTypes::from_u32(ty);
        assert_ne!(kind, MessageTypes::Unknown);
        assert_eq!(kind.to_u32(), ty);
    }
}

#[test]
fn registry_known_assignments() {
    assert_eq!(MessageTypes::from_u32(1), MessageTypes::HelloRequest);
    assert_eq!(MessageTypes::from_u32(3), MessageTypes::ConnectRequest);
    assert_eq!(MessageTypes::from_u32(7), MessageTypes::PingRequest);
    assert_eq!(MessageTypes::from_u32(8), MessageTypes::PingResponse);
    assert_eq!(MessageTypes::from_u32(9), MessageTypes::DeviceInfoRequest);
    assert_eq!(MessageTypes::from_u32(11), MessageTypes::ListEntitiesRequest);
    assert_eq!(MessageTypes::from_u32(15), MessageTypes::ListEntitiesLightResponse);
    assert_eq!(MessageTypes::from_u32(16), MessageTypes::ListEntitiesSensorResponse);
    assert_eq!(MessageTypes::from_u32(19), MessageTypes::ListEntitiesDoneResponse);
    assert_eq!(MessageTypes::from_u32(20), MessageTypes::SubscribeStatesRequest);
    assert_eq!(MessageTypes::from_u32(24), MessageTypes::LightStateResponse);
    assert_eq!(MessageTypes::from_u32(25), MessageTypes::SensorStateResponse);
    assert_eq!(MessageTypes::from_u32(28), MessageTypes::SubscribeLogsRequest);
    assert_eq!(MessageTypes::from_u32(32), MessageTypes::LightCommandRequest);
    assert_eq!(MessageTypes::from_u32(40), MessageTypes::HomeAssistantStateResponse);
}

#[test]
fn registry_unassigned_values_are_unknown() {
    assert_eq!(MessageTypes::from_u32(0), MessageTypes::Unknown);
    assert_eq!(MessageTypes::from_u32(41), MessageTypes::Unknown);
    assert_eq!(MessageTypes::from_u32(u32::MAX), MessageTypes::Unknown);
    assert_eq!(MessageTypes::Unknown.to_u32(), 0);
}

#[test]
fn registry_from_trait_matches_lookup() {
    assert_eq!(MessageTypes::from(5u32), MessageTypes::DisconnectRequest);
    assert_eq!(MessageTypes::from(0u32), MessageTypes::Unknown);
}
