//! The message registry: the fixed, process-wide mapping between numeric
//! message-type identifiers and their symbolic tags.  Values 1 through 40
//! each name exactly one kind; every other value is the reserved `Unknown`
//! kind, which doubles as the end-of-stream sentinel (type 0).

use vstd::prelude::*;

verus! {

/// The closed catalogue of protocol message kinds.
#[derive(Clone, Copy, Debug, PartialEq, Eq, Structural)]
pub enum MessageTypes {
    Unknown,
    HelloRequest,
    HelloResponse,
    ConnectRequest,
    ConnectResponse,
    DisconnectRequest,
    DisconnectResponse,
    PingRequest,
    PingResponse,
    DeviceInfoRequest,
    DeviceInfoResponse,
    ListEntitiesRequest,
    ListEntitiesBinarySensorResponse,
    ListEntitiesCoverResponse,
    ListEntitiesFanResponse,
    ListEntitiesLightResponse,
    ListEntitiesSensorResponse,
    ListEntitiesSwitchResponse,
    ListEntitiesTextSensorResponse,
    ListEntitiesDoneResponse,
    SubscribeStatesRequest,
    BinarySensorStateResponse,
    CoverStateResponse,
    FanStateResponse,
    LightStateResponse,
    SensorStateResponse,
    SwitchStateResponse,
    TextSensorStateResponse,
    SubscribeLogsRequest,
    SubscribeLogsResponse,
    CoverCommandRequest,
    FanCommandRequest,
    LightCommandRequest,
    SwitchCommandRequest,
    SubscribeHomeassistantServicesRequest,
    HomeassistantServiceResponse,
    GetTimeRequest,
    GetTimeResponse,
    SubscribeHomeAssistantStatesRequest,
    SubscribeHomeAssistantStateResponse,
    HomeAssistantStateResponse,
}

impl MessageTypes {
    /// The kind assigned to a numeric type identifier.
    pub open spec fn spec_from_u32(ty: u32) -> MessageTypes {
        match ty {
            1u32 => MessageTypes::HelloRequest,
            2u32 => MessageTypes::HelloResponse,
            3u32 => MessageTypes::ConnectRequest,
            4u32 => MessageTypes::ConnectResponse,
            5u32 => MessageTypes::DisconnectRequest,
            6u32 => MessageTypes::DisconnectResponse,
            7u32 => MessageTypes::PingRequest,
            8u32 => MessageTypes::PingResponse,
            9u32 => MessageTypes::DeviceInfoRequest,
            10u32 => MessageTypes::DeviceInfoResponse,
            11u32 => MessageTypes::ListEntitiesRequest,
            12u32 => MessageTypes::ListEntitiesBinarySensorResponse,
            13u32 => MessageTypes::ListEntitiesCoverResponse,
            14u32 => MessageTypes::ListEntitiesFanResponse,
            15u32 => MessageTypes::ListEntitiesLightResponse,
            16u32 => MessageTypes::ListEntitiesSensorResponse,
            17u32 => MessageTypes::ListEntitiesSwitchResponse,
            18u32 => MessageTypes::ListEntitiesTextSensorResponse,
            19u32 => MessageTypes::ListEntitiesDoneResponse,
            20u32 => MessageTypes::SubscribeStatesRequest,
            21u32 => MessageTypes::BinarySensorStateResponse,
            22u32 => MessageTypes::CoverStateResponse,
            23u32 => MessageTypes::FanStateResponse,
            24u32 => MessageTypes::LightStateResponse,
            25u32 => MessageTypes::SensorStateResponse,
            26u32 => MessageTypes::SwitchStateResponse,
            27u32 => MessageTypes::TextSensorStateResponse,
            28u32 => MessageTypes::SubscribeLogsRequest,
            29u32 => MessageTypes::SubscribeLogsResponse,
            30u32 => MessageTypes::CoverCommandRequest,
            31u32 => MessageTypes::FanCommandRequest,
            32u32 => MessageTypes::LightCommandRequest,
            33u32 => MessageTypes::SwitchCommandRequest,
            34u32 => MessageTypes::SubscribeHomeassistantServicesRequest,
            35u32 => MessageTypes::HomeassistantServiceResponse,
            36u32 => MessageTypes::GetTimeRequest,
            37u32 => MessageTypes::GetTimeResponse,
            38u32 => MessageTypes::SubscribeHomeAssistantStatesRequest,
            39u32 => MessageTypes::SubscribeHomeAssistantStateResponse,
            40u32 => MessageTypes::HomeAssistantStateResponse,
            _ => MessageTypes::Unknown,
        }
    }

    /// The numeric identifier of a kind; `Unknown` carries the reserved 0.
    pub open spec fn spec_to_u32(self) -> u32 {
        match self {
            MessageTypes::Unknown => 0,
            MessageTypes::HelloRequest => 1,
            MessageTypes::HelloResponse => 2,
            MessageTypes::ConnectRequest => 3,
            MessageTypes::ConnectResponse => 4,
            MessageTypes::DisconnectRequest => 5,
            MessageTypes::DisconnectResponse => 6,
            MessageTypes::PingRequest => 7,
            MessageTypes::PingResponse => 8,
            MessageTypes::DeviceInfoRequest => 9,
            MessageTypes::DeviceInfoResponse => 10,
            MessageTypes::ListEntitiesRequest => 11,
            MessageTypes::ListEntitiesBinarySensorResponse => 12,
            MessageTypes::ListEntitiesCoverResponse => 13,
            MessageTypes::ListEntitiesFanResponse => 14,
            MessageTypes::ListEntitiesLightResponse => 15,
            MessageTypes::ListEntitiesSensorResponse => 16,
            MessageTypes::ListEntitiesSwitchResponse => 17,
            MessageTypes::ListEntitiesTextSensorResponse => 18,
            MessageTypes::ListEntitiesDoneResponse => 19,
            MessageTypes::SubscribeStatesRequest => 20,
            MessageTypes::BinarySensorStateResponse => 21,
            MessageTypes::CoverStateResponse => 22,
            MessageTypes::FanStateResponse => 23,
            MessageTypes::LightStateResponse => 24,
            MessageTypes::SensorStateResponse => 25,
            MessageTypes::SwitchStateResponse => 26,
            MessageTypes::TextSensorStateResponse => 27,
            MessageTypes::SubscribeLogsRequest => 28,
            MessageTypes::SubscribeLogsResponse => 29,
            MessageTypes::CoverCommandRequest => 30,
            MessageTypes::FanCommandRequest => 31,
            MessageTypes::LightCommandRequest => 32,
            MessageTypes::SwitchCommandRequest => 33,
            MessageTypes::SubscribeHomeassistantServicesRequest => 34,
            MessageTypes::HomeassistantServiceResponse => 35,
            MessageTypes::GetTimeRequest => 36,
            MessageTypes::GetTimeResponse => 37,
            MessageTypes::SubscribeHomeAssistantStatesRequest => 38,
            MessageTypes::SubscribeHomeAssistantStateResponse => 39,
            MessageTypes::HomeAssistantStateResponse => 40,
        }
    }

    /// Looks a numeric identifier up in the registry.
    pub fn from_u32(ty: u32) -> (r: MessageTypes)
        ensures
            r == MessageTypes::spec_from_u32(ty),
    {
        match ty {
            1 => MessageTypes::HelloRequest,
            2 => MessageTypes::HelloResponse,
            3 => MessageTypes::ConnectRequest,
            4 => MessageTypes::ConnectResponse,
            5 => MessageTypes::DisconnectRequest,
            6 => MessageTypes::DisconnectResponse,
            7 => MessageTypes::PingRequest,
            8 => MessageTypes::PingResponse,
            9 => MessageTypes::DeviceInfoRequest,
            10 => MessageTypes::DeviceInfoResponse,
            11 => MessageTypes::ListEntitiesRequest,
            12 => MessageTypes::ListEntitiesBinarySensorResponse,
            13 => MessageTypes::ListEntitiesCoverResponse,
            14 => MessageTypes::ListEntitiesFanResponse,
            15 => MessageTypes::ListEntitiesLightResponse,
            16 => MessageTypes::ListEntitiesSensorResponse,
            17 => MessageTypes::ListEntitiesSwitchResponse,
            18 => MessageTypes::ListEntitiesTextSensorResponse,
            19 => MessageTypes::ListEntitiesDoneResponse,
            20 => MessageTypes::SubscribeStatesRequest,
            21 => MessageTypes::BinarySensorStateResponse,
            22 => MessageTypes::CoverStateResponse,
            23 => MessageTypes::FanStateResponse,
            24 => MessageTypes::LightStateResponse,
            25 => MessageTypes::SensorStateResponse,
            26 => MessageTypes::SwitchStateResponse,
            27 => MessageTypes::TextSensorStateResponse,
            28 => MessageTypes::SubscribeLogsRequest,
            29 => MessageTypes::SubscribeLogsResponse,
            30 => MessageTypes::CoverCommandRequest,
            31 => MessageTypes::FanCommandRequest,
            32 => MessageTypes::LightCommandRequest,
            33 => MessageTypes::SwitchCommandRequest,
            34 => MessageTypes::SubscribeHomeassistantServicesRequest,
            35 => MessageTypes::HomeassistantServiceResponse,
            36 => MessageTypes::GetTimeRequest,
            37 => MessageTypes::GetTimeResponse,
            38 => MessageTypes::SubscribeHomeAssistantStatesRequest,
            39 => MessageTypes::SubscribeHomeAssistantStateResponse,
            40 => MessageTypes::HomeAssistantStateResponse,
            _ => MessageTypes::Unknown,
        }
    }

    /// The numeric identifier this kind is sent with.
    pub fn to_u32(self) -> (r: u32)
        ensures
            r == self.spec_to_u32(),
    {
        match self {
            MessageTypes::Unknown => 0,
            MessageTypes::HelloRequest => 1,
            MessageTypes::HelloResponse => 2,
            MessageTypes::ConnectRequest => 3,
            MessageTypes::ConnectResponse => 4,
            MessageTypes::DisconnectRequest => 5,
            MessageTypes::DisconnectResponse => 6,
            MessageTypes::PingRequest => 7,
            MessageTypes::PingResponse => 8,
            MessageTypes::DeviceInfoRequest => 9,
            MessageTypes::DeviceInfoResponse => 10,
            MessageTypes::ListEntitiesRequest => 11,
            MessageTypes::ListEntitiesBinarySensorResponse => 12,
            MessageTypes::ListEntitiesCoverResponse => 13,
            MessageTypes::ListEntitiesFanResponse => 14,
            MessageTypes::ListEntitiesLightResponse => 15,
            MessageTypes::ListEntitiesSensorResponse => 16,
            MessageTypes::ListEntitiesSwitchResponse => 17,
            MessageTypes::ListEntitiesTextSensorResponse => 18,
            MessageTypes::ListEntitiesDoneResponse => 19,
            MessageTypes::SubscribeStatesRequest => 20,
            MessageTypes::BinarySensorStateResponse => 21,
            MessageTypes::CoverStateResponse => 22,
            MessageTypes::FanStateResponse => 23,
            MessageTypes::LightStateResponse => 24,
            MessageTypes::SensorStateResponse => 25,
            MessageTypes::SwitchStateResponse => 26,
            MessageTypes::TextSensorStateResponse => 27,
            MessageTypes::SubscribeLogsRequest => 28,
            MessageTypes::SubscribeLogsResponse => 29,
            MessageTypes::CoverCommandRequest => 30,
            MessageTypes::FanCommandRequest => 31,
            MessageTypes::LightCommandRequest => 32,
            MessageTypes::SwitchCommandRequest => 33,
            MessageTypes::SubscribeHomeassistantServicesRequest => 34,
            MessageTypes::HomeassistantServiceResponse => 35,
            MessageTypes::GetTimeRequest => 36,
            MessageTypes::GetTimeResponse => 37,
            MessageTypes::SubscribeHomeAssistantStatesRequest => 38,
            MessageTypes::SubscribeHomeAssistantStateResponse => 39,
            MessageTypes::HomeAssistantStateResponse => 40,
        }
    }
}

impl From<u32> for MessageTypes {
    /// Registry lookup through the standard conversion trait.
    fn from(ty: u32) -> (r: MessageTypes) {
        MessageTypes::from_u32(ty)
    }
}

impl vstd::std_specs::convert::FromSpecImpl<u32> for MessageTypes {
    open spec fn obeys_from_spec() -> bool {
        true
    }

    open spec fn from_spec(ty: u32) -> MessageTypes {
        MessageTypes::spec_from_u32(ty)
    }
}

/// Every assigned identifier (1 through 40) names exactly one kind, and that
/// kind is sent back with the same identifier; everything else is `Unknown`.
pub proof fn lemma_registry_bijective(ty: u32)
    ensures
        1 <= ty <= 40 ==> MessageTypes::spec_from_u32(ty) != MessageTypes::Unknown
            && MessageTypes::spec_from_u32(ty).spec_to_u32() == ty,
        ty == 0 || ty > 40 ==> MessageTypes::spec_from_u32(ty) == MessageTypes::Unknown,
{
}

/// A kind looked up by its own identifier gives the kind back.
pub proof fn lemma_registry_round_trip(kind: MessageTypes)
    ensures
        MessageTypes::spec_from_u32(kind.spec_to_u32()) == kind,
{
}

} // verus!
