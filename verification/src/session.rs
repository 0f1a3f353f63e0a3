//! The per-connection protocol state machine: handshake progression,
//! legality checks for incoming message types, and the responses the engine
//! owes for protocol-level requests.  The session works on decoded frames
//! and produces replies for its own client and events for the router; the
//! socket loop around it lives in the embedding application.

use vstd::prelude::*;
use vstd::string::*;

use crate::components::ComponentUpdate;
use crate::messages::{
    parse_connect_request, parse_hello_request, parse_light_command_request,
    parse_subscribe_logs_request, spec_connect_response_payload, spec_device_info_payload,
    spec_hello_response_payload, spec_parse_connect, spec_parse_hello, spec_parse_light_command,
    spec_parse_subscribe_logs, spec_light_state_payload, spec_sensor_state_payload,
    spec_subscribe_logs_response_payload, encode_connect_response, encode_device_info_response,
    encode_hello_response, encode_light_state, encode_sensor_state,
    encode_subscribe_logs_response, LightCommandRequest, LogLevel,
};
use crate::msgtype::MessageTypes;

verus! {

/// Major protocol version the engine speaks.
pub const API_MAX: u32 = 1;

/// Minor protocol version the engine speaks.
pub const API_MIN: u32 = 6;

/// Process-wide immutable identity record, shared read-only by every
/// session.  An empty password means no authentication is required.  The
/// component descriptions are the precomputed `(kind, payload)` pairs
/// contributed by every owned component.
pub struct Device {
    pub mac: String,
    pub model: String,
    pub esphome_version: String,
    pub name: String,
    pub project_name: String,
    pub project_version: String,
    pub server_name: String,
    pub password: String,
    pub component_description: Vec<(MessageTypes, Vec<u8>)>,
}

/// The bytes a string travels as on the wire.
pub open spec fn str_bytes(s: Seq<char>) -> Seq<u8> {
    vstd::utf8::encode_utf8(s)
}

/// A character sequence takes at most four bytes per character on the wire.
pub proof fn lemma_str_bytes_len(s: Seq<char>)
    ensures
        str_bytes(s).len() <= 4 * s.len(),
    decreases s.len(),
{
    if s.len() > 0 {
        lemma_str_bytes_len(s.drop_first());
    }
}

impl Device {
    /// The machine bounds the identity record must respect so that its
    /// fields fit in length-prefixed payload fields.
    pub open spec fn wf(&self) -> bool {
        &&& str_bytes(self.mac@).len() <= u32::MAX
        &&& str_bytes(self.model@).len() <= u32::MAX
        &&& str_bytes(self.esphome_version@).len() <= u32::MAX
        &&& str_bytes(self.name@).len() <= u32::MAX
        &&& str_bytes(self.project_name@).len() <= u32::MAX
        &&& str_bytes(self.project_version@).len() <= u32::MAX
        &&& str_bytes(self.server_name@).len() <= u32::MAX
        &&& str_bytes(self.password@).len() <= u32::MAX
    }
}

/// Handshake progression of one session: never revisited backward, advanced
/// by a well-formed hello and a successful authentication.
#[derive(Clone, Copy, Debug, PartialEq, Eq, Structural)]
pub enum ConnectionState {
    Initialized,
    Helloed,
    Connected,
}

/// How far the handshake has progressed, as a number, so that forward-only
/// progression can be stated as an inequality.
pub open spec fn state_rank(s: ConnectionState) -> int {
    match s {
        ConnectionState::Initialized => 0,
        ConnectionState::Helloed => 1,
        ConnectionState::Connected => 2,
    }
}

/// Whether a message kind is legal in a connection state, once the
/// state-independent kinds (disconnect and ping traffic) are out of the way.
pub open spec fn spec_is_call_legal(state: ConnectionState, ty: MessageTypes) -> bool {
    match state {
        ConnectionState::Initialized => ty == MessageTypes::HelloRequest,
        ConnectionState::Helloed => ty == MessageTypes::ConnectRequest || ty
            == MessageTypes::DeviceInfoRequest,
        ConnectionState::Connected => ty != MessageTypes::HelloRequest && ty
            != MessageTypes::ConnectRequest,
    }
}

impl ConnectionState {
    /// While `Initialized` only a hello is expected; while `Helloed` only
    /// connect and device-info requests; once `Connected` everything but a
    /// repeated hello or connect.
    pub fn is_call_legal(&self, ty: MessageTypes) -> (r: bool)
        ensures
            r == spec_is_call_legal(*self, ty),
    {
        match self {
            ConnectionState::Initialized => matches!(ty, MessageTypes::HelloRequest),
            ConnectionState::Helloed => matches!(
                ty,
                MessageTypes::ConnectRequest | MessageTypes::DeviceInfoRequest
            ),
            ConnectionState::Connected => !matches!(
                ty,
                MessageTypes::HelloRequest | MessageTypes::ConnectRequest
            ),
        }
    }
}

/// The kinds handled identically regardless of state, pre-empting the
/// legality check: disconnect and ping traffic.
pub open spec fn spec_preempts_legality(ty: MessageTypes) -> bool {
    ||| ty == MessageTypes::DisconnectRequest
    ||| ty == MessageTypes::DisconnectResponse
    ||| ty == MessageTypes::PingRequest
    ||| ty == MessageTypes::PingResponse
}

/// What one inbound frame makes the session do: frames to send back to this
/// client in order, events to hand to the router, and whether the session
/// ends once the replies are out.
pub struct StepResult {
    pub replies: Vec<(MessageTypes, Vec<u8>)>,
    pub events: Vec<ComponentUpdate>,
    pub done: bool,
}

impl StepResult {
    /// A step that sends nothing and raises no event.
    pub open spec fn is_silent(&self) -> bool {
        self.replies@.len() == 0 && self.events@.len() == 0
    }

    /// A step whose only effect is one reply frame of kind `ty` with
    /// payload `payload`.
    pub open spec fn is_single_reply(&self, ty: MessageTypes, payload: Seq<u8>) -> bool {
        &&& self.replies@.len() == 1
        &&& self.replies@[0].0 == ty
        &&& self.replies@[0].1@ == payload
        &&& self.events@.len() == 0
    }
}

/// The per-connection protocol engine: handshake state plus the session's
/// own log verbosity threshold.
pub struct EspHomeApiClient {
    pub state: ConnectionState,
    pub log_level: LogLevel,
}

impl EspHomeApiClient {
    /// A fresh session: not yet helloed, forwarding no log lines.
    pub fn new() -> (r: EspHomeApiClient)
        ensures
            r.state == ConnectionState::Initialized,
            r.log_level == LogLevel::LOG_LEVEL_NONE,
    {
        EspHomeApiClient { state: ConnectionState::Initialized, log_level: LogLevel::LOG_LEVEL_NONE }
    }

    /// Feeds the session one decoded frame and returns what it owes in
    /// exchange.  The contract walks the protocol case by case: the reserved
    /// and unassigned kinds end the session; disconnect and ping traffic is
    /// served in any state; an illegal kind for the current state ends the
    /// session silently; the handshake advances on hello and on a connect
    /// with a valid password; a connect with a wrong password is answered
    /// and then ends the session; the informational requests are answered
    /// from the identity record; subscription and command requests raise
    /// router events; a payload that does not parse ends the session.
    #[verifier::spinoff_prover]
    pub fn handle_frame(&mut self, device: &Device, ty: u32, payload: &Vec<u8>) -> (r: StepResult)
        requires
            device.wf(),
        ensures
            state_rank(final(self).state) >= state_rank(old(self).state),
            ({
                let kind = MessageTypes::spec_from_u32(ty);
                let legal = spec_is_call_legal(old(self).state, kind);
                &&& (kind == MessageTypes::Unknown ==> r.done && r.is_silent() && *final(self)
                    == *old(self))
                &&& (kind == MessageTypes::DisconnectRequest ==> r.done && r.is_single_reply(
                    MessageTypes::DisconnectResponse,
                    Seq::empty(),
                ) && *final(self) == *old(self))
                &&& (kind == MessageTypes::DisconnectResponse ==> r.done && r.is_silent()
                    && *final(self) == *old(self))
                &&& (kind == MessageTypes::PingRequest ==> !r.done && r.is_single_reply(
                    MessageTypes::PingResponse,
                    Seq::empty(),
                ) && *final(self) == *old(self))
                &&& (kind == MessageTypes::PingResponse ==> !r.done && r.is_silent() && *final(self)
                    == *old(self))
                &&& (!spec_preempts_legality(kind) && kind != MessageTypes::Unknown && !legal
                    ==> r.done && r.is_silent() && *final(self) == *old(self))
                &&& (kind == MessageTypes::HelloRequest && legal ==> match spec_parse_hello(
                    payload@,
                    Seq::empty(),
                ) {
                    Option::None => r.done && r.is_silent() && *final(self) == *old(self),
                    Option::Some(_) => {
                        &&& !r.done
                        &&& r.is_single_reply(
                            MessageTypes::HelloResponse,
                            spec_hello_response_payload(
                                API_MAX,
                                API_MIN,
                                str_bytes(device.project_name@),
                                str_bytes(device.name@),
                            ),
                        )
                        &&& final(self).state == ConnectionState::Helloed
                        &&& final(self).log_level == old(self).log_level
                    },
                })
                &&& (kind == MessageTypes::ConnectRequest && legal ==> match spec_parse_connect(
                    payload@,
                    Seq::empty(),
                ) {
                    Option::None => r.done && r.is_silent() && *final(self) == *old(self),
                    Option::Some(pw) => {
                        let valid = device.password@.len() == 0 || pw
                            == str_bytes(device.password@);
                        &&& r.is_single_reply(
                            MessageTypes::ConnectResponse,
                            spec_connect_response_payload(!valid),
                        )
                        &&& (valid ==> !r.done && final(self).state == ConnectionState::Connected
                            && final(self).log_level == old(self).log_level)
                        &&& (!valid ==> r.done && *final(self) == *old(self))
                    },
                })
                &&& (kind == MessageTypes::DeviceInfoRequest && legal ==> !r.done
                    && r.is_single_reply(
                    MessageTypes::DeviceInfoResponse,
                    spec_device_info_payload(
                        device.password@.len() != 0,
                        str_bytes(device.name@),
                        str_bytes(device.mac@),
                        str_bytes(device.esphome_version@),
                        str_bytes(device.model@),
                        str_bytes(device.project_name@),
                        str_bytes(device.project_version@),
                    ),
                ) && *final(self) == *old(self))
                &&& (kind == MessageTypes::ListEntitiesRequest && legal ==> {
                    let descs = device.component_description@;
                    &&& !r.done
                    &&& *final(self) == *old(self)
                    &&& r.events@.len() == 0
                    &&& r.replies@.len() == descs.len() + 1
                    &&& forall|i: int|
                        #![trigger r.replies@[i]]
                        0 <= i < descs.len() ==> r.replies@[i].0 == descs[i].0 && r.replies@[i].1@
                            == descs[i].1@
                    &&& r.replies@[descs.len() as int].0 == MessageTypes::ListEntitiesDoneResponse
                    &&& r.replies@[descs.len() as int].1@ == Seq::<u8>::empty()
                })
                &&& (kind == MessageTypes::SubscribeStatesRequest && legal ==> !r.done
                    && *final(self) == *old(self) && r.replies@.len() == 0 && r.events@.len() == 1
                    && (r.events@[0] matches ComponentUpdate::Request(k) && k is None))
                &&& (kind == MessageTypes::SubscribeLogsRequest && legal
                    ==> match spec_parse_subscribe_logs(payload@, 0) {
                    Option::None => r.done && r.is_silent() && *final(self) == *old(self),
                    Option::Some(level) => {
                        &&& !r.done
                        &&& r.is_silent()
                        &&& final(self).state == old(self).state
                        &&& final(self).log_level == LogLevel::spec_from_u32(level)
                    },
                })
                &&& (kind == MessageTypes::LightCommandRequest && legal
                    ==> match spec_parse_light_command(
                    payload@,
                    LightCommandRequest::spec_default(),
                ) {
                    Option::None => r.done && r.is_silent() && *final(self) == *old(self),
                    Option::Some(cmd) => {
                        &&& !r.done
                        &&& *final(self) == *old(self)
                        &&& r.replies@.len() == 0
                        &&& r.events@.len() == 1
                        &&& r.events@[0] matches ComponentUpdate::LightRequest(c) && c == cmd
                    },
                })
                &&& (legal && !spec_preempts_legality(kind) && !(kind
                    == MessageTypes::HelloRequest || kind == MessageTypes::ConnectRequest || kind
                    == MessageTypes::DeviceInfoRequest || kind == MessageTypes::ListEntitiesRequest
                    || kind == MessageTypes::SubscribeStatesRequest || kind
                    == MessageTypes::SubscribeLogsRequest || kind
                    == MessageTypes::LightCommandRequest || kind == MessageTypes::Unknown)
                    ==> !r.done && r.is_silent() && *final(self) == *old(self))
            }),
    {
        let kind = MessageTypes::from_u32(ty);

        if matches!(kind, MessageTypes::Unknown) {
            // The reserved sentinel: the stream is closed, or the peer sent
            // a type outside the catalogue.
            return StepResult { replies: Vec::new(), events: Vec::new(), done: true };
        }

        match kind {
            MessageTypes::DisconnectRequest => {
                let mut replies: Vec<(MessageTypes, Vec<u8>)> = Vec::new();
                replies.push((MessageTypes::DisconnectResponse, Vec::new()));
                return StepResult { replies, events: Vec::new(), done: true };
            },
            MessageTypes::DisconnectResponse => {
                return StepResult { replies: Vec::new(), events: Vec::new(), done: true };
            },
            MessageTypes::PingRequest => {
                let mut replies: Vec<(MessageTypes, Vec<u8>)> = Vec::new();
                replies.push((MessageTypes::PingResponse, Vec::new()));
                return StepResult { replies, events: Vec::new(), done: false };
            },
            MessageTypes::PingResponse => {
                return StepResult { replies: Vec::new(), events: Vec::new(), done: false };
            },
            _ => {},
        }

        if !self.state.is_call_legal(kind) {
            // Illegal call for the current state: no error frame, the
            // session simply ends.
            return StepResult { replies: Vec::new(), events: Vec::new(), done: true };
        }

        match kind {
            MessageTypes::HelloRequest => self.step_hello(device, payload),
            MessageTypes::ConnectRequest => self.step_connect(device, payload),
            MessageTypes::DeviceInfoRequest => self.step_device_info(device),
            MessageTypes::ListEntitiesRequest => self.step_list_entities(device),
            MessageTypes::SubscribeStatesRequest => {
                let mut events: Vec<ComponentUpdate> = Vec::new();
                events.push(ComponentUpdate::Request(None));
                StepResult { replies: Vec::new(), events, done: false }
            },
            MessageTypes::SubscribeLogsRequest => self.step_subscribe_logs(payload),
            MessageTypes::LightCommandRequest => self.step_light_command(payload),
            _ => {
                // Known kinds without a handler: a forward-compatible no-op.
                StepResult { replies: Vec::new(), events: Vec::new(), done: false }
            },
        }
    }

    /// Answers a hello request and advances the handshake.
    fn step_hello(&mut self, device: &Device, payload: &Vec<u8>) -> (r: StepResult)
        requires
            device.wf(),
        ensures
            final(self).log_level == old(self).log_level,
            match spec_parse_hello(payload@, Seq::empty()) {
                Option::None => r.done && r.is_silent() && *final(self) == *old(self),
                Option::Some(_) => {
                    &&& !r.done
                    &&& r.is_single_reply(
                        MessageTypes::HelloResponse,
                        spec_hello_response_payload(
                            API_MAX,
                            API_MIN,
                            str_bytes(device.project_name@),
                            str_bytes(device.name@),
                        ),
                    )
                    &&& final(self).state == ConnectionState::Helloed
                },
            },
    {
        match parse_hello_request(payload) {
            Result::Err(_) => StepResult { replies: Vec::new(), events: Vec::new(), done: true },
            Result::Ok(_req) => {
                let body = encode_hello_response(
                    API_MAX,
                    API_MIN,
                    device.project_name.as_str(),
                    device.name.as_str(),
                );
                let mut replies: Vec<(MessageTypes, Vec<u8>)> = Vec::new();
                replies.push((MessageTypes::HelloResponse, body));
                self.state = ConnectionState::Helloed;
                StepResult { replies, events: Vec::new(), done: false }
            },
        }
    }

    /// Checks the submitted password, always answers, and advances the
    /// handshake only on a valid login.
    fn step_connect(&mut self, device: &Device, payload: &Vec<u8>) -> (r: StepResult)
        requires
            device.wf(),
        ensures
            final(self).log_level == old(self).log_level,
            match spec_parse_connect(payload@, Seq::empty()) {
                Option::None => r.done && r.is_silent() && *final(self) == *old(self),
                Option::Some(pw) => {
                    let valid = device.password@.len() == 0 || pw == str_bytes(device.password@);
                    &&& r.is_single_reply(
                        MessageTypes::ConnectResponse,
                        spec_connect_response_payload(!valid),
                    )
                    &&& (valid ==> !r.done && final(self).state == ConnectionState::Connected)
                    &&& (!valid ==> r.done && *final(self) == *old(self))
                },
            },
    {
        match parse_connect_request(payload) {
            Result::Err(_) => StepResult { replies: Vec::new(), events: Vec::new(), done: true },
            Result::Ok(req) => {
                let no_password = device.password.as_str().is_empty();
                let matches_password = slice_eq(
                    req.password.as_slice(),
                    device.password.as_str().as_bytes(),
                );
                let valid = no_password || matches_password;
                let body = encode_connect_response(!valid);
                let mut replies: Vec<(MessageTypes, Vec<u8>)> = Vec::new();
                replies.push((MessageTypes::ConnectResponse, body));
                if valid {
                    self.state = ConnectionState::Connected;
                    StepResult { replies, events: Vec::new(), done: false }
                } else {
                    StepResult { replies, events: Vec::new(), done: true }
                }
            },
        }
    }

    /// Answers a device-info request from the identity record.
    fn step_device_info(&mut self, device: &Device) -> (r: StepResult)
        requires
            device.wf(),
        ensures
            *final(self) == *old(self),
            !r.done,
            r.is_single_reply(
                MessageTypes::DeviceInfoResponse,
                spec_device_info_payload(
                    device.password@.len() != 0,
                    str_bytes(device.name@),
                    str_bytes(device.mac@),
                    str_bytes(device.esphome_version@),
                    str_bytes(device.model@),
                    str_bytes(device.project_name@),
                    str_bytes(device.project_version@),
                ),
            ),
    {
        let body = encode_device_info_response(
            !device.password.as_str().is_empty(),
            device.name.as_str(),
            device.mac.as_str(),
            device.esphome_version.as_str(),
            device.model.as_str(),
            device.project_name.as_str(),
            device.project_version.as_str(),
        );
        let mut replies: Vec<(MessageTypes, Vec<u8>)> = Vec::new();
        replies.push((MessageTypes::DeviceInfoResponse, body));
        StepResult { replies, events: Vec::new(), done: false }
    }

    /// Streams every precomputed entity description, then the terminating
    /// done response.
    #[verifier::spinoff_prover]
    fn step_list_entities(&mut self, device: &Device) -> (r: StepResult)
        ensures
            *final(self) == *old(self),
            !r.done,
            r.events@.len() == 0,
            ({
                let descs = device.component_description@;
                &&& r.replies@.len() == descs.len() + 1
                &&& forall|i: int|
                    #![trigger r.replies@[i]]
                    0 <= i < descs.len() ==> r.replies@[i].0 == descs[i].0 && r.replies@[i].1@
                        == descs[i].1@
                &&& r.replies@[descs.len() as int].0 == MessageTypes::ListEntitiesDoneResponse
                &&& r.replies@[descs.len() as int].1@ == Seq::<u8>::empty()
            }),
    {
        let mut replies: Vec<(MessageTypes, Vec<u8>)> = Vec::new();
        let n = device.component_description.len();
        let mut i: usize = 0;
        while i < n
            invariant
                i <= n == device.component_description@.len(),
                replies@.len() == i,
                forall|j: int|
                    #![trigger replies@[j]]
                    0 <= j < i ==> replies@[j].0 == device.component_description@[j].0
                        && replies@[j].1@ == device.component_description@[j].1@,
            decreases n - i,
        {
            let entry = &device.component_description[i];
            let mut body: Vec<u8> = Vec::new();
            body.extend_from_slice(entry.1.as_slice());
            replies.push((entry.0, body));
            i = i + 1;
        }
        replies.push((MessageTypes::ListEntitiesDoneResponse, Vec::new()));
        StepResult { replies, events: Vec::new(), done: false }
    }

    /// Updates this session's own log verbosity threshold.
    fn step_subscribe_logs(&mut self, payload: &Vec<u8>) -> (r: StepResult)
        ensures
            final(self).state == old(self).state,
            match spec_parse_subscribe_logs(payload@, 0) {
                Option::None => r.done && r.is_silent() && *final(self) == *old(self),
                Option::Some(level) => {
                    &&& !r.done
                    &&& r.is_silent()
                    &&& final(self).log_level == LogLevel::spec_from_u32(level)
                },
            },
    {
        match parse_subscribe_logs_request(payload) {
            Result::Err(_) => StepResult { replies: Vec::new(), events: Vec::new(), done: true },
            Result::Ok(req) => {
                self.log_level = LogLevel::from_u32(req.level);
                StepResult { replies: Vec::new(), events: Vec::new(), done: false }
            },
        }
    }

    /// Turns a light command into a router event.
    fn step_light_command(&mut self, payload: &Vec<u8>) -> (r: StepResult)
        ensures
            *final(self) == *old(self),
            match spec_parse_light_command(payload@, LightCommandRequest::spec_default()) {
                Option::None => r.done && r.is_silent(),
                Option::Some(cmd) => {
                    &&& !r.done
                    &&& r.replies@.len() == 0
                    &&& r.events@.len() == 1
                    &&& r.events@[0] matches ComponentUpdate::LightRequest(c) && c == cmd
                },
            },
    {
        match parse_light_command_request(payload) {
            Result::Err(_) => StepResult { replies: Vec::new(), events: Vec::new(), done: true },
            Result::Ok(cmd) => {
                let mut events: Vec<ComponentUpdate> = Vec::new();
                events.push(ComponentUpdate::LightRequest(cmd));
                StepResult { replies: Vec::new(), events, done: false }
            },
        }
    }
}

/// Byte-for-byte equality of two slices.
fn slice_eq(a: &[u8], b: &[u8]) -> (r: bool)
    ensures
        r == (a@ == b@),
{
    if a.len() != b.len() {
        proof {
            assert(a@ != b@);
        }
        return false;
    }
    let n = a.len();
    let mut i: usize = 0;
    while i < n
        invariant
            i <= n,
            a@.len() == n,
            b@.len() == n,
            forall|j: int| 0 <= j < i ==> a@[j] == b@[j],
        decreases n - i,
    {
        if a[i] != b[i] {
            proof {
                assert(a@[i as int] != b@[i as int]);
            }
            return false;
        }
        i = i + 1;
    }
    proof {
        assert(a@ =~= b@);
    }
    true
}

/// Decides what an event on a session's outbound queue makes the session
/// send: already-encoded responses pass through, state pushes are encoded,
/// a log line goes out only when its severity is at or below the session's
/// threshold, and inbound-only events are not for a session at all.
pub fn outbound_frame(upd: &ComponentUpdate, threshold: LogLevel) -> (r: Option<
    (MessageTypes, Vec<u8>),
>)
    requires
        upd matches ComponentUpdate::Log(m) ==> m.message@.len() <= u32::MAX,
    ensures
        match upd {
            ComponentUpdate::Response(ty, p) => r matches Some(t) && t.0 == ty && t.1@ == p@,
            ComponentUpdate::LightResponse(s) => r matches Some(t) && t.0
                == MessageTypes::LightStateResponse && t.1@ == spec_light_state_payload(*s),
            ComponentUpdate::SensorResponse(s) => r matches Some(t) && t.0
                == MessageTypes::SensorStateResponse && t.1@ == spec_sensor_state_payload(*s),
            ComponentUpdate::Log(m) => {
                if m.level.spec_to_u32() <= threshold.spec_to_u32() {
                    r matches Some(t) && t.0 == MessageTypes::SubscribeLogsResponse && t.1@
                        == spec_subscribe_logs_response_payload(m.level.spec_to_u32(), m.message@)
                } else {
                    r is None
                }
            },
            _ => r is None,
        },
{
    match upd {
        ComponentUpdate::Response(ty, p) => {
            let mut body: Vec<u8> = Vec::new();
            body.extend_from_slice(p.as_slice());
            Some((*ty, body))
        },
        ComponentUpdate::LightResponse(s) => Some(
            (MessageTypes::LightStateResponse, encode_light_state(s)),
        ),
        ComponentUpdate::SensorResponse(s) => Some(
            (MessageTypes::SensorStateResponse, encode_sensor_state(s)),
        ),
        ComponentUpdate::Log(m) => {
            if m.level.to_u32() <= threshold.to_u32() {
                Some(
                    (
                        MessageTypes::SubscribeLogsResponse,
                        encode_subscribe_logs_response(m.level.to_u32(), &m.message),
                    ),
                )
            } else {
                None
            }
        },
        _ => None,
    }
}

} // verus!
