//! The structured records behind the message types the engine handles, with
//! their payload encodings and parsers.  Fields follow the fixed external
//! schema: values equal to the type's default are omitted on write, unknown
//! fields are skipped on read, and for a field seen twice the last value
//! wins.  Floating-point states travel as the raw bit pattern of their
//! 32-bit encoding; the library never does arithmetic on them.

use vstd::prelude::*;
use vstd::string::*;

use crate::proto::{
    next_field, spec_fixed32_field, spec_len_field, spec_next_field, spec_varint_field,
    write_bytes_field, write_fixed32_field, write_varint_field, FieldData, FieldParse, FieldValue,
    lemma_next_field_used, ProtoError,
};

verus! {

/// A varint field, omitted when zero.
pub open spec fn opt_varint(num: u32, v: u32) -> Seq<u8> {
    if v != 0 {
        spec_varint_field(num, v)
    } else {
        Seq::empty()
    }
}

/// A boolean varint field, omitted when false.
pub open spec fn opt_bool(num: u32, b: bool) -> Seq<u8> {
    if b {
        spec_varint_field(num, 1)
    } else {
        Seq::empty()
    }
}

/// A four-fixed-byte field, omitted when zero.
pub open spec fn opt_fixed32(num: u32, v: u32) -> Seq<u8> {
    if v != 0 {
        spec_fixed32_field(num, v)
    } else {
        Seq::empty()
    }
}

/// A length-delimited field, omitted when empty.
pub open spec fn opt_bytes(num: u32, b: Seq<u8>) -> Seq<u8> {
    if b.len() != 0 {
        spec_len_field(num, b)
    } else {
        Seq::empty()
    }
}

/// Log severity, as carried in log-subscription requests and log pushes.
/// The numeric order is the severity order: a session forwards a log line
/// when the line's level is at or below the session's threshold.
#[allow(non_camel_case_types)]
#[derive(Clone, Copy, Debug, PartialEq, Eq, Structural)]
pub enum LogLevel {
    LOG_LEVEL_NONE,
    LOG_LEVEL_ERROR,
    LOG_LEVEL_WARN,
    LOG_LEVEL_INFO,
    LOG_LEVEL_CONFIG,
    LOG_LEVEL_DEBUG,
    LOG_LEVEL_VERBOSE,
    LOG_LEVEL_VERY_VERBOSE,
}

impl LogLevel {
    /// The numeric value a level travels as.
    pub open spec fn spec_to_u32(self) -> u32 {
        match self {
            LogLevel::LOG_LEVEL_NONE => 0,
            LogLevel::LOG_LEVEL_ERROR => 1,
            LogLevel::LOG_LEVEL_WARN => 2,
            LogLevel::LOG_LEVEL_INFO => 3,
            LogLevel::LOG_LEVEL_CONFIG => 4,
            LogLevel::LOG_LEVEL_DEBUG => 5,
            LogLevel::LOG_LEVEL_VERBOSE => 6,
            LogLevel::LOG_LEVEL_VERY_VERBOSE => 7,
        }
    }

    /// The level a numeric value names; unassigned values fall back to none.
    pub open spec fn spec_from_u32(v: u32) -> LogLevel {
        match v {
            1u32 => LogLevel::LOG_LEVEL_ERROR,
            2u32 => LogLevel::LOG_LEVEL_WARN,
            3u32 => LogLevel::LOG_LEVEL_INFO,
            4u32 => LogLevel::LOG_LEVEL_CONFIG,
            5u32 => LogLevel::LOG_LEVEL_DEBUG,
            6u32 => LogLevel::LOG_LEVEL_VERBOSE,
            7u32 => LogLevel::LOG_LEVEL_VERY_VERBOSE,
            _ => LogLevel::LOG_LEVEL_NONE,
        }
    }

    /// The numeric value a level travels as.
    pub fn to_u32(self) -> (r: u32)
        ensures
            r == self.spec_to_u32(),
    {
        match self {
            LogLevel::LOG_LEVEL_NONE => 0,
            LogLevel::LOG_LEVEL_ERROR => 1,
            LogLevel::LOG_LEVEL_WARN => 2,
            LogLevel::LOG_LEVEL_INFO => 3,
            LogLevel::LOG_LEVEL_CONFIG => 4,
            LogLevel::LOG_LEVEL_DEBUG => 5,
            LogLevel::LOG_LEVEL_VERBOSE => 6,
            LogLevel::LOG_LEVEL_VERY_VERBOSE => 7,
        }
    }

    /// The level a numeric value names; unassigned values fall back to none.
    pub fn from_u32(v: u32) -> (r: LogLevel)
        ensures
            r == LogLevel::spec_from_u32(v),
    {
        match v {
            1 => LogLevel::LOG_LEVEL_ERROR,
            2 => LogLevel::LOG_LEVEL_WARN,
            3 => LogLevel::LOG_LEVEL_INFO,
            4 => LogLevel::LOG_LEVEL_CONFIG,
            5 => LogLevel::LOG_LEVEL_DEBUG,
            6 => LogLevel::LOG_LEVEL_VERBOSE,
            7 => LogLevel::LOG_LEVEL_VERY_VERBOSE,
            _ => LogLevel::LOG_LEVEL_NONE,
        }
    }
}

/// A severity-tagged log line, as pushed to subscribed clients.
#[derive(Clone, Debug)]
pub struct SubscribeLogsResponse {
    pub level: LogLevel,
    pub message: Vec<u8>,
}

/// The opening message of the handshake; the client names itself.
#[derive(Debug, PartialEq, Eq)]
pub struct HelloRequest {
    pub client_info: Vec<u8>,
}

/// The authentication message; carries the submitted password.
#[derive(Debug, PartialEq, Eq)]
pub struct ConnectRequest {
    pub password: Vec<u8>,
}

/// Sets the session's log verbosity threshold.
#[derive(Debug, PartialEq, Eq)]
pub struct SubscribeLogsRequest {
    pub level: u32,
}

/// An inbound actuation request for a light entity.
#[derive(Clone, Copy, Debug, PartialEq, Eq, Structural)]
pub struct LightCommandRequest {
    pub key: u32,
    pub has_state: bool,
    pub state: bool,
    pub has_brightness: bool,
    pub brightness: u32,
    pub has_rgb: bool,
    pub red: u32,
    pub green: u32,
    pub blue: u32,
}

impl LightCommandRequest {
    /// The record every field of which is at its default.
    pub open spec fn spec_default() -> LightCommandRequest {
        LightCommandRequest {
            key: 0,
            has_state: false,
            state: false,
            has_brightness: false,
            brightness: 0,
            has_rgb: false,
            red: 0,
            green: 0,
            blue: 0,
        }
    }
}

/// An outbound state push for a sensor entity; `state` holds the bit
/// pattern of the reported 32-bit floating-point value.
#[derive(Clone, Copy, Debug, PartialEq, Eq, Structural)]
pub struct SensorStateResponse {
    pub key: u32,
    pub state: u32,
}

/// An outbound state push for a light entity; brightness and channels hold
/// 32-bit floating-point bit patterns.
#[derive(Clone, Copy, Debug, PartialEq, Eq, Structural)]
pub struct LightStateResponse {
    pub key: u32,
    pub state: bool,
    pub brightness: u32,
    pub red: u32,
    pub green: u32,
    pub blue: u32,
}

/// The payload of a hello response: the two protocol version integers, the
/// server info string, and the server name.
pub open spec fn spec_hello_response_payload(
    major: u32,
    minor: u32,
    server_info: Seq<u8>,
    name: Seq<u8>,
) -> Seq<u8> {
    opt_varint(1, major) + opt_varint(2, minor) + opt_bytes(3, server_info) + opt_bytes(4, name)
}

/// Serializes a hello response.
pub fn encode_hello_response(major: u32, minor: u32, server_info: &str, name: &str) -> (r: Vec<u8>)
    requires
        server_info.spec_bytes().len() <= u32::MAX,
        name.spec_bytes().len() <= u32::MAX,
    ensures
        r@ == spec_hello_response_payload(major, minor, server_info.spec_bytes(), name.spec_bytes()),
{
    let mut out: Vec<u8> = Vec::new();
    if major != 0 {
        write_varint_field(&mut out, 1, major);
    }
    if minor != 0 {
        write_varint_field(&mut out, 2, minor);
    }
    let si = server_info.as_bytes();
    if si.len() > 0 {
        write_bytes_field(&mut out, 3, si);
    }
    let nm = name.as_bytes();
    if nm.len() > 0 {
        write_bytes_field(&mut out, 4, nm);
    }
    proof {
        assert(out@ =~= spec_hello_response_payload(
            major,
            minor,
            server_info.spec_bytes(),
            name.spec_bytes(),
        ));
    }
    out
}

/// The payload of a connect response: only the invalid-password flag.
pub open spec fn spec_connect_response_payload(invalid_password: bool) -> Seq<u8> {
    opt_bool(1, invalid_password)
}

/// Serializes a connect response.
pub fn encode_connect_response(invalid_password: bool) -> (r: Vec<u8>)
    ensures
        r@ == spec_connect_response_payload(invalid_password),
{
    let mut out: Vec<u8> = Vec::new();
    if invalid_password {
        write_varint_field(&mut out, 1, 1);
    }
    proof {
        assert(out@ =~= spec_connect_response_payload(invalid_password));
    }
    out
}

/// The payload of a device-info response: the identity record's fields.
pub open spec fn spec_device_info_payload(
    uses_password: bool,
    name: Seq<u8>,
    mac: Seq<u8>,
    esphome_version: Seq<u8>,
    model: Seq<u8>,
    project_name: Seq<u8>,
    project_version: Seq<u8>,
) -> Seq<u8> {
    opt_bool(1, uses_password) + opt_bytes(2, name) + opt_bytes(3, mac) + opt_bytes(
        4,
        esphome_version,
    ) + opt_bytes(6, model) + opt_bytes(8, project_name) + opt_bytes(9, project_version)
}

/// Serializes a device-info response.
pub fn encode_device_info_response(
    uses_password: bool,
    name: &str,
    mac: &str,
    esphome_version: &str,
    model: &str,
    project_name: &str,
    project_version: &str,
) -> (r: Vec<u8>)
    requires
        name.spec_bytes().len() <= u32::MAX,
        mac.spec_bytes().len() <= u32::MAX,
        esphome_version.spec_bytes().len() <= u32::MAX,
        model.spec_bytes().len() <= u32::MAX,
        project_name.spec_bytes().len() <= u32::MAX,
        project_version.spec_bytes().len() <= u32::MAX,
    ensures
        r@ == spec_device_info_payload(
            uses_password,
            name.spec_bytes(),
            mac.spec_bytes(),
            esphome_version.spec_bytes(),
            model.spec_bytes(),
            project_name.spec_bytes(),
            project_version.spec_bytes(),
        ),
{
    let mut out: Vec<u8> = Vec::new();
    if uses_password {
        write_varint_field(&mut out, 1, 1);
    }
    let b = name.as_bytes();
    if b.len() > 0 {
        write_bytes_field(&mut out, 2, b);
    }
    let b = mac.as_bytes();
    if b.len() > 0 {
        write_bytes_field(&mut out, 3, b);
    }
    let b = esphome_version.as_bytes();
    if b.len() > 0 {
        write_bytes_field(&mut out, 4, b);
    }
    let b = model.as_bytes();
    if b.len() > 0 {
        write_bytes_field(&mut out, 6, b);
    }
    let b = project_name.as_bytes();
    if b.len() > 0 {
        write_bytes_field(&mut out, 8, b);
    }
    let b = project_version.as_bytes();
    if b.len() > 0 {
        write_bytes_field(&mut out, 9, b);
    }
    proof {
        assert(out@ =~= spec_device_info_payload(
            uses_password,
            name.spec_bytes(),
            mac.spec_bytes(),
            esphome_version.spec_bytes(),
            model.spec_bytes(),
            project_name.spec_bytes(),
            project_version.spec_bytes(),
        ));
    }
    out
}

/// The payload of a log push: severity and message line.
pub open spec fn spec_subscribe_logs_response_payload(level: u32, message: Seq<u8>) -> Seq<u8> {
    opt_varint(1, level) + opt_bytes(3, message)
}

/// Serializes a log push.
pub fn encode_subscribe_logs_response(level: u32, message: &Vec<u8>) -> (r: Vec<u8>)
    requires
        message@.len() <= u32::MAX,
    ensures
        r@ == spec_subscribe_logs_response_payload(level, message@),
{
    let mut out: Vec<u8> = Vec::new();
    if level != 0 {
        write_varint_field(&mut out, 1, level);
    }
    if message.len() > 0 {
        write_bytes_field(&mut out, 3, message.as_slice());
    }
    proof {
        assert(out@ =~= spec_subscribe_logs_response_payload(level, message@));
    }
    out
}

/// The payload of a sensor state push.
pub open spec fn spec_sensor_state_payload(r: SensorStateResponse) -> Seq<u8> {
    opt_fixed32(1, r.key) + opt_fixed32(2, r.state)
}

/// Serializes a sensor state push.
pub fn encode_sensor_state(resp: &SensorStateResponse) -> (r: Vec<u8>)
    ensures
        r@ == spec_sensor_state_payload(*resp),
{
    let mut out: Vec<u8> = Vec::new();
    if resp.key != 0 {
        write_fixed32_field(&mut out, 1, resp.key);
    }
    if resp.state != 0 {
        write_fixed32_field(&mut out, 2, resp.state);
    }
    proof {
        assert(out@ =~= spec_sensor_state_payload(*resp));
    }
    out
}

/// The payload of a light state push.
pub open spec fn spec_light_state_payload(r: LightStateResponse) -> Seq<u8> {
    opt_fixed32(1, r.key) + opt_bool(2, r.state) + opt_fixed32(3, r.brightness) + opt_fixed32(
        4,
        r.red,
    ) + opt_fixed32(5, r.green) + opt_fixed32(6, r.blue)
}

/// Serializes a light state push.
pub fn encode_light_state(resp: &LightStateResponse) -> (r: Vec<u8>)
    ensures
        r@ == spec_light_state_payload(*resp),
{
    let mut out: Vec<u8> = Vec::new();
    if resp.key != 0 {
        write_fixed32_field(&mut out, 1, resp.key);
    }
    if resp.state {
        write_varint_field(&mut out, 2, 1);
    }
    if resp.brightness != 0 {
        write_fixed32_field(&mut out, 3, resp.brightness);
    }
    if resp.red != 0 {
        write_fixed32_field(&mut out, 4, resp.red);
    }
    if resp.green != 0 {
        write_fixed32_field(&mut out, 5, resp.green);
    }
    if resp.blue != 0 {
        write_fixed32_field(&mut out, 6, resp.blue);
    }
    proof {
        assert(out@ =~= spec_light_state_payload(*resp));
    }
    out
}

/// The repeated color-mode entries of a light description, in order.
pub open spec fn spec_color_modes(modes: Seq<u32>) -> Seq<u8>
    decreases modes.len()
{
    if modes.len() == 0 {
        Seq::empty()
    } else {
        spec_varint_field(12, modes[0]) + spec_color_modes(modes.drop_first())
    }
}

/// The payload of a light entity description.
pub open spec fn spec_list_entities_light_payload(
    object_id: Seq<u8>,
    key: u32,
    name: Seq<u8>,
    unique_id: Seq<u8>,
    modes: Seq<u32>,
) -> Seq<u8> {
    opt_bytes(1, object_id) + opt_fixed32(2, key) + opt_bytes(3, name) + opt_bytes(4, unique_id)
        + spec_color_modes(modes)
}

/// Serializes a light entity description.
pub fn encode_list_entities_light(
    object_id: &str,
    key: u32,
    name: &str,
    unique_id: &str,
    modes: &Vec<u32>,
) -> (r: Vec<u8>)
    requires
        object_id.spec_bytes().len() <= u32::MAX,
        name.spec_bytes().len() <= u32::MAX,
        unique_id.spec_bytes().len() <= u32::MAX,
    ensures
        r@ == spec_list_entities_light_payload(
            object_id.spec_bytes(),
            key,
            name.spec_bytes(),
            unique_id.spec_bytes(),
            modes@,
        ),
{
    let mut out: Vec<u8> = Vec::new();
    let b = object_id.as_bytes();
    if b.len() > 0 {
        write_bytes_field(&mut out, 1, b);
    }
    if key != 0 {
        write_fixed32_field(&mut out, 2, key);
    }
    let b = name.as_bytes();
    if b.len() > 0 {
        write_bytes_field(&mut out, 3, b);
    }
    let b = unique_id.as_bytes();
    if b.len() > 0 {
        write_bytes_field(&mut out, 4, b);
    }
    let ghost head = out@;
    let mut j: usize = 0;
    while j < modes.len()
        invariant
            j <= modes@.len(),
            out@ == head + spec_color_modes(modes@.take(j as int)),
        decreases modes@.len() - j,
    {
        write_varint_field(&mut out, 12, modes[j]);
        proof {
            lemma_color_modes_snoc(modes@, j as int);
        }
        j = j + 1;
    }
    proof {
        assert(modes@.take(modes@.len() as int) =~= modes@);
        assert(out@ =~= spec_list_entities_light_payload(
            object_id.spec_bytes(),
            key,
            name.spec_bytes(),
            unique_id.spec_bytes(),
            modes@,
        ));
    }
    out
}

proof fn lemma_color_modes_snoc(modes: Seq<u32>, j: int)
    requires
        0 <= j < modes.len(),
    ensures
        spec_color_modes(modes.take(j + 1)) == spec_color_modes(modes.take(j)) + spec_varint_field(
            12,
            modes[j],
        ),
    decreases j,
{
    if j == 0 {
        assert(modes.take(1) =~= seq![modes[0]]);
        assert(spec_color_modes(seq![modes[0]].drop_first()) == Seq::<u8>::empty());
        assert(spec_color_modes(modes.take(0)) =~= Seq::<u8>::empty());
        assert(spec_color_modes(modes.take(1)) =~= spec_varint_field(12, modes[0]));
    } else {
        lemma_color_modes_snoc(modes.drop_first(), j - 1);
        assert(modes.take(j + 1).drop_first() =~= modes.drop_first().take(j));
        assert(modes.take(j).drop_first() =~= modes.drop_first().take(j - 1));
        assert(modes.take(j + 1)[0] == modes[0]);
        assert(modes.take(j)[0] == modes[0]);
    }
}

/// The payload of a sensor entity description.
pub open spec fn spec_list_entities_sensor_payload(
    object_id: Seq<u8>,
    key: u32,
    name: Seq<u8>,
    unique_id: Seq<u8>,
    unit: Seq<u8>,
    accuracy_decimals: u32,
) -> Seq<u8> {
    opt_bytes(1, object_id) + opt_fixed32(2, key) + opt_bytes(3, name) + opt_bytes(4, unique_id)
        + opt_bytes(6, unit) + opt_varint(7, accuracy_decimals)
}

/// Serializes a sensor entity description.
pub fn encode_list_entities_sensor(
    object_id: &str,
    key: u32,
    name: &str,
    unique_id: &str,
    unit: &str,
    accuracy_decimals: u32,
) -> (r: Vec<u8>)
    requires
        object_id.spec_bytes().len() <= u32::MAX,
        name.spec_bytes().len() <= u32::MAX,
        unique_id.spec_bytes().len() <= u32::MAX,
        unit.spec_bytes().len() <= u32::MAX,
    ensures
        r@ == spec_list_entities_sensor_payload(
            object_id.spec_bytes(),
            key,
            name.spec_bytes(),
            unique_id.spec_bytes(),
            unit.spec_bytes(),
            accuracy_decimals,
        ),
{
    let mut out: Vec<u8> = Vec::new();
    let b = object_id.as_bytes();
    if b.len() > 0 {
        write_bytes_field(&mut out, 1, b);
    }
    if key != 0 {
        write_fixed32_field(&mut out, 2, key);
    }
    let b = name.as_bytes();
    if b.len() > 0 {
        write_bytes_field(&mut out, 3, b);
    }
    let b = unique_id.as_bytes();
    if b.len() > 0 {
        write_bytes_field(&mut out, 4, b);
    }
    let b = unit.as_bytes();
    if b.len() > 0 {
        write_bytes_field(&mut out, 6, b);
    }
    if accuracy_decimals != 0 {
        write_varint_field(&mut out, 7, accuracy_decimals);
    }
    proof {
        assert(out@ =~= spec_list_entities_sensor_payload(
            object_id.spec_bytes(),
            key,
            name.spec_bytes(),
            unique_id.spec_bytes(),
            unit.spec_bytes(),
            accuracy_decimals,
        ));
    }
    out
}

/// The password a connect-request payload submits: the last length-delimited
/// field 1, starting from `acc`; `None` when the payload is malformed.
pub open spec fn spec_parse_connect(s: Seq<u8>, acc: Seq<u8>) -> Option<Seq<u8>>
    decreases s.len()
    via spec_parse_connect_decreases
{
    match spec_next_field(s) {
        FieldParse::Done => Some(acc),
        FieldParse::Malformed => None,
        FieldParse::Field { num, data, used } => {
            let acc2 = if num == 1 && data matches FieldData::Bytes(b) {
                data->Bytes_0
            } else {
                acc
            };
            spec_parse_connect(s.skip(used), acc2)
        },
    }
}

#[via_fn]
proof fn spec_parse_connect_decreases(s: Seq<u8>, acc: Seq<u8>) {
    lemma_next_field_used(s);
}

/// Parses a connect request.
pub fn parse_connect_request(p: &Vec<u8>) -> (r: Result<ConnectRequest, ProtoError>)
    ensures
        match spec_parse_connect(p@, Seq::empty()) {
            Option::None => r matches Err(ProtoError::Malformed),
            Option::Some(pw) => r matches Ok(req) && req.password@ =~= pw,
        },
{
    let mut pos: usize = 0;
    let mut password: Vec<u8> = Vec::new();
    proof {
        assert(p@.skip(0) =~= p@);
    }
    loop
        invariant
            pos <= p@.len(),
            spec_parse_connect(p@, Seq::empty()) == spec_parse_connect(
                p@.skip(pos as int),
                password@,
            ),
        decreases p@.len() - pos,
    {
        match next_field(p, pos) {
            Result::Err(e) => {
                return Err(e);
            },
            Result::Ok(Option::None) => {
                return Ok(ConnectRequest { password });
            },
            Result::Ok(Option::Some((num, value, end))) => {
                proof {
                    assert(p@.skip(pos as int).skip(end - pos as int) =~= p@.skip(end as int));
                }
                if num == 1 {
                    if let FieldValue::Bytes(b) = value {
                        password = b;
                    }
                }
                pos = end;
            },
        }
    }
}

/// The client-info string a hello-request payload carries: the last
/// length-delimited field 1; `None` when the payload is malformed.
pub open spec fn spec_parse_hello(s: Seq<u8>, acc: Seq<u8>) -> Option<Seq<u8>>
    decreases s.len()
    via spec_parse_hello_decreases
{
    match spec_next_field(s) {
        FieldParse::Done => Some(acc),
        FieldParse::Malformed => None,
        FieldParse::Field { num, data, used } => {
            let acc2 = if num == 1 && data matches FieldData::Bytes(b) {
                data->Bytes_0
            } else {
                acc
            };
            spec_parse_hello(s.skip(used), acc2)
        },
    }
}

#[via_fn]
proof fn spec_parse_hello_decreases(s: Seq<u8>, acc: Seq<u8>) {
    lemma_next_field_used(s);
}

/// Parses a hello request.
pub fn parse_hello_request(p: &Vec<u8>) -> (r: Result<HelloRequest, ProtoError>)
    ensures
        match spec_parse_hello(p@, Seq::empty()) {
            Option::None => r matches Err(ProtoError::Malformed),
            Option::Some(info) => r matches Ok(req) && req.client_info@ =~= info,
        },
{
    let mut pos: usize = 0;
    let mut client_info: Vec<u8> = Vec::new();
    proof {
        assert(p@.skip(0) =~= p@);
    }
    loop
        invariant
            pos <= p@.len(),
            spec_parse_hello(p@, Seq::empty()) == spec_parse_hello(
                p@.skip(pos as int),
                client_info@,
            ),
        decreases p@.len() - pos,
    {
        match next_field(p, pos) {
            Result::Err(e) => {
                return Err(e);
            },
            Result::Ok(Option::None) => {
                return Ok(HelloRequest { client_info });
            },
            Result::Ok(Option::Some((num, value, end))) => {
                proof {
                    assert(p@.skip(pos as int).skip(end - pos as int) =~= p@.skip(end as int));
                }
                if num == 1 {
                    if let FieldValue::Bytes(b) = value {
                        client_info = b;
                    }
                }
                pos = end;
            },
        }
    }
}

/// The level a log-subscription payload selects: the last varint field 1;
/// `None` when the payload is malformed.
pub open spec fn spec_parse_subscribe_logs(s: Seq<u8>, acc: u32) -> Option<u32>
    decreases s.len()
    via spec_parse_subscribe_logs_decreases
{
    match spec_next_field(s) {
        FieldParse::Done => Some(acc),
        FieldParse::Malformed => None,
        FieldParse::Field { num, data, used } => {
            let acc2 = if num == 1 && data matches FieldData::Varint(v) {
                data->Varint_0
            } else {
                acc
            };
            spec_parse_subscribe_logs(s.skip(used), acc2)
        },
    }
}

#[via_fn]
proof fn spec_parse_subscribe_logs_decreases(s: Seq<u8>, acc: u32) {
    lemma_next_field_used(s);
}

/// Parses a log-subscription request.
pub fn parse_subscribe_logs_request(p: &Vec<u8>) -> (r: Result<SubscribeLogsRequest, ProtoError>)
    ensures
        match spec_parse_subscribe_logs(p@, 0) {
            Option::None => r matches Err(ProtoError::Malformed),
            Option::Some(level) => r matches Ok(req) && req.level == level,
        },
{
    let mut pos: usize = 0;
    let mut level: u32 = 0;
    proof {
        assert(p@.skip(0) =~= p@);
    }
    loop
        invariant
            pos <= p@.len(),
            spec_parse_subscribe_logs(p@, 0) == spec_parse_subscribe_logs(
                p@.skip(pos as int),
                level,
            ),
        decreases p@.len() - pos,
    {
        match next_field(p, pos) {
            Result::Err(e) => {
                return Err(e);
            },
            Result::Ok(Option::None) => {
                return Ok(SubscribeLogsRequest { level });
            },
            Result::Ok(Option::Some((num, value, end))) => {
                proof {
                    assert(p@.skip(pos as int).skip(end - pos as int) =~= p@.skip(end as int));
                }
                if num == 1 {
                    if let FieldValue::Varint(v) = value {
                        level = v;
                    }
                }
                pos = end;
            },
        }
    }
}

/// Folds one decoded field into a light-command record.
pub open spec fn spec_light_cmd_field(
    acc: LightCommandRequest,
    num: u32,
    data: FieldData,
) -> LightCommandRequest {
    match data {
        FieldData::Fixed32(v) => {
            if num == 1 {
                LightCommandRequest { key: v, ..acc }
            } else if num == 5 {
                LightCommandRequest { brightness: v, ..acc }
            } else if num == 7 {
                LightCommandRequest { red: v, ..acc }
            } else if num == 8 {
                LightCommandRequest { green: v, ..acc }
            } else if num == 9 {
                LightCommandRequest { blue: v, ..acc }
            } else {
                acc
            }
        },
        FieldData::Varint(v) => {
            if num == 2 {
                LightCommandRequest { has_state: v != 0, ..acc }
            } else if num == 3 {
                LightCommandRequest { state: v != 0, ..acc }
            } else if num == 4 {
                LightCommandRequest { has_brightness: v != 0, ..acc }
            } else if num == 6 {
                LightCommandRequest { has_rgb: v != 0, ..acc }
            } else {
                acc
            }
        },
        _ => acc,
    }
}

/// The record a light-command payload builds, starting from `acc`; `None`
/// when the payload is malformed.
pub open spec fn spec_parse_light_command(
    s: Seq<u8>,
    acc: LightCommandRequest,
) -> Option<LightCommandRequest>
    decreases s.len()
    via spec_parse_light_command_decreases
{
    match spec_next_field(s) {
        FieldParse::Done => Some(acc),
        FieldParse::Malformed => None,
        FieldParse::Field { num, data, used } => {
            spec_parse_light_command(s.skip(used), spec_light_cmd_field(acc, num, data))
        },
    }
}

#[via_fn]
proof fn spec_parse_light_command_decreases(s: Seq<u8>, acc: LightCommandRequest) {
    lemma_next_field_used(s);
}

/// Parses a light command.
pub fn parse_light_command_request(p: &Vec<u8>) -> (r: Result<LightCommandRequest, ProtoError>)
    ensures
        match spec_parse_light_command(p@, LightCommandRequest::spec_default()) {
            Option::None => r matches Err(ProtoError::Malformed),
            Option::Some(req) => r matches Ok(got) && got == req,
        },
{
    let mut pos: usize = 0;
    let mut cmd = LightCommandRequest {
        key: 0,
        has_state: false,
        state: false,
        has_brightness: false,
        brightness: 0,
        has_rgb: false,
        red: 0,
        green: 0,
        blue: 0,
    };
    proof {
        assert(p@.skip(0) =~= p@);
    }
    loop
        invariant
            pos <= p@.len(),
            spec_parse_light_command(p@, LightCommandRequest::spec_default())
                == spec_parse_light_command(p@.skip(pos as int), cmd),
        decreases p@.len() - pos,
    {
        match next_field(p, pos) {
            Result::Err(e) => {
                return Err(e);
            },
            Result::Ok(Option::None) => {
                return Ok(cmd);
            },
            Result::Ok(Option::Some((num, value, end))) => {
                proof {
                    assert(p@.skip(pos as int).skip(end - pos as int) =~= p@.skip(end as int));
                }
                match value {
                    FieldValue::Fixed32(v) => {
                        if num == 1 {
                            cmd.key = v;
                        } else if num == 5 {
                            cmd.brightness = v;
                        } else if num == 7 {
                            cmd.red = v;
                        } else if num == 8 {
                            cmd.green = v;
                        } else if num == 9 {
                            cmd.blue = v;
                        }
                    },
                    FieldValue::Varint(v) => {
                        if num == 2 {
                            cmd.has_state = v != 0;
                        } else if num == 3 {
                            cmd.state = v != 0;
                        } else if num == 4 {
                            cmd.has_brightness = v != 0;
                        } else if num == 6 {
                            cmd.has_rgb = v != 0;
                        }
                    },
                    _ => {},
                }
                pos = end;
            },
        }
    }
}

} // verus!
