//! The component side of the engine: the event algebra flowing on the
//! router's bus, the entity base data every component shares, the concrete
//! component kinds, and the manager that owns them in registration order.
//!
//! Hardware stays outside: a light component keeps the desired output state
//! for the embedding application to drive onto pins, and a sensor component
//! reports whatever reading the application last stored in it.  Times are
//! plain millisecond counts supplied by the caller.

use vstd::prelude::*;
use vstd::string::StrSliceExecFns;
use vstd::string::StringExecFns;

use crate::messages::{
    encode_list_entities_light, encode_list_entities_sensor, spec_list_entities_light_payload,
    spec_list_entities_sensor_payload, LightCommandRequest, LightStateResponse,
    SensorStateResponse, SubscribeLogsResponse,
};
use crate::msgtype::MessageTypes;
use crate::session::{lemma_str_bytes_len, str_bytes};
use crate::utils::{name_to_hash, name_to_object, name_to_unique, snake_of, spec_fnv1};

verus! {

/// The internal event algebra of the router's bus.  Inbound events
/// (`Request`, `Update`, `LightRequest`) are consumed by the router;
/// outbound events (`Response`, `LightResponse`, `SensorResponse`, `Log`)
/// are consumed by the sessions; `Connection` and `Closing` are consumed by
/// the supervisor.
#[derive(Clone)]
pub enum ComponentUpdate {
    /// Pull request for a specific entity key, or for all entities when the
    /// key is absent.
    Request(Option<u32>),
    /// Periodic refresh trigger; every component decides for itself whether
    /// enough time has passed to emit something.
    Update,
    /// A client connected; carries the supervisor's handle for its outbound
    /// queue.
    Connection(u64),
    /// A client is closing the connection.
    Closing,
    /// An inbound light actuation request.
    LightRequest(LightCommandRequest),
    /// An outbound light state push.
    LightResponse(LightStateResponse),
    /// An outbound sensor state push.
    SensorResponse(SensorStateResponse),
    /// An already-encoded outbound message.
    Response(MessageTypes, Vec<u8>),
    /// A log line to forward to subscribed clients.
    Log(SubscribeLogsResponse),
}

/// The longest entity name the engine accepts, in characters; keeps every
/// derived string within the bounds of a length-prefixed payload field.
pub const NAME_CHARS_MAX: usize = 0x0010_0000;

/// The longest object identifier a description will carry, in characters.
pub const OBJECT_ID_CHARS_MAX: usize = 0x0400_0000;

/// The identity every entity shares: its human-readable name, the stable
/// 32-bit key derived from the name, and the snake-case object identifier.
pub struct BaseComponent {
    pub name: String,
    pub key: u32,
    pub object_id: String,
}

impl BaseComponent {
    /// The constructor-established relation between the fields.
    pub open spec fn wf(&self) -> bool {
        &&& self.name@.len() <= NAME_CHARS_MAX
        &&& self.key == spec_fnv1(self.name@)
        &&& self.object_id@ == snake_of(self.name@)
    }

    /// Derives key and object identifier from the name.
    pub fn new(name: String) -> (r: BaseComponent)
        requires
            name@.len() <= NAME_CHARS_MAX,
        ensures
            r.name@ == name@,
            r.wf(),
    {
        let key = name_to_hash(name.as_str());
        let object_id = name_to_object(name.as_str());
        BaseComponent { key, name, object_id }
    }

    /// The entity's name.
    pub fn get_name(&self) -> (r: String)
        ensures
            r@ == self.name@,
    {
        String::from_str(self.name.as_str())
    }

    /// The entity's object identifier.
    pub fn get_object_id(&self) -> (r: String)
        ensures
            r@ == self.object_id@,
    {
        String::from_str(self.object_id.as_str())
    }

    /// The entity's stable key.
    pub fn get_object_id_hash(&self) -> (r: u32)
        ensures
            r == self.key,
    {
        self.key
    }
}

/// Bit pattern of the 32-bit floating-point value one.
pub const BRIGHTNESS_FULL: u32 = 0x3F80_0000;

/// Color-mode catalogue value: the light only switches on and off.
pub const COLOR_MODE_ON_OFF: u32 = 1;

/// Color-mode catalogue value: the light dims.
pub const COLOR_MODE_BRIGHTNESS: u32 = 3;

/// Color-mode catalogue value: the light dims and mixes three channels.
pub const COLOR_MODE_RGB: u32 = 35;

/// What kind of output hardware a light drives; brightness and channels are
/// 32-bit floating-point bit patterns.
#[derive(Clone, Copy, Debug, PartialEq, Eq, Structural)]
pub enum LightPlatform {
    Binary,
    Monochromatic { brightness: u32 },
    Rgb { brightness: u32, red: u32, green: u32, blue: u32 },
}

/// A light entity: base identity, on/off state, and platform-specific
/// levels.  The engine records the desired output; driving pins is the
/// embedding application's business.
pub struct Light {
    pub base: BaseComponent,
    pub state: bool,
    pub platform: LightPlatform,
}

/// The color modes a light advertises in its description.
pub open spec fn spec_light_modes(l: Light) -> Seq<u32> {
    match l.platform {
        LightPlatform::Binary => seq![COLOR_MODE_ON_OFF],
        LightPlatform::Monochromatic { .. } => seq![COLOR_MODE_BRIGHTNESS],
        LightPlatform::Rgb { .. } => seq![COLOR_MODE_BRIGHTNESS, COLOR_MODE_RGB],
    }
}

/// The state push a light answers with: key, state, and whatever levels its
/// platform has.
pub open spec fn spec_light_response(l: Light) -> LightStateResponse {
    match l.platform {
        LightPlatform::Binary => LightStateResponse {
            key: l.base.key,
            state: l.state,
            brightness: 0,
            red: 0,
            green: 0,
            blue: 0,
        },
        LightPlatform::Monochromatic { brightness } => LightStateResponse {
            key: l.base.key,
            state: l.state,
            brightness,
            red: 0,
            green: 0,
            blue: 0,
        },
        LightPlatform::Rgb { brightness, red, green, blue } => LightStateResponse {
            key: l.base.key,
            state: l.state,
            brightness,
            red,
            green,
            blue,
        },
    }
}

/// How a light command changes a light: each carried field replaces the
/// matching level, fields the platform does not have are ignored.
pub open spec fn spec_light_apply(l: Light, req: LightCommandRequest) -> Light {
    let state = if req.has_state {
        req.state
    } else {
        l.state
    };
    let platform = match l.platform {
        LightPlatform::Binary => LightPlatform::Binary,
        LightPlatform::Monochromatic { brightness } => LightPlatform::Monochromatic {
            brightness: if req.has_brightness {
                req.brightness
            } else {
                brightness
            },
        },
        LightPlatform::Rgb { brightness, red, green, blue } => LightPlatform::Rgb {
            brightness: if req.has_brightness {
                req.brightness
            } else {
                brightness
            },
            red: if req.has_rgb {
                req.red
            } else {
                red
            },
            green: if req.has_rgb {
                req.green
            } else {
                green
            },
            blue: if req.has_rgb {
                req.blue
            } else {
                blue
            },
        },
    };
    Light { base: l.base, state, platform }
}

/// What one bus event makes a light do: the light afterwards, and the
/// outbound events it emits.  A pull request for all entities or for its own
/// key is answered with a state push; a light command addressed to its key
/// is applied and acknowledged with a state push; everything else is not for
/// this light.
pub open spec fn spec_light_step(l: Light, msg: ComponentUpdate) -> (Light, Seq<ComponentUpdate>) {
    match msg {
        ComponentUpdate::Request(k) => {
            if k is None || k == Some(l.base.key) {
                (l, seq![ComponentUpdate::LightResponse(spec_light_response(l))])
            } else {
                (l, Seq::empty())
            }
        },
        ComponentUpdate::LightRequest(req) => {
            if req.key == l.base.key {
                let l2 = spec_light_apply(l, req);
                (l2, seq![ComponentUpdate::LightResponse(spec_light_response(l2))])
            } else {
                (l, Seq::empty())
            }
        },
        _ => (l, Seq::empty()),
    }
}

/// Whether the encoded description entries `r` realize the entry list `d`:
/// same length, same kinds, and each payload holds the specified bytes.
pub open spec fn desc_matches(r: Seq<(MessageTypes, Vec<u8>)>, d: Seq<(MessageTypes, Seq<u8>)>) -> bool {
    &&& r.len() == d.len()
    &&& forall|i: int|
        #![trigger r[i]]
        0 <= i < d.len() ==> r[i].0 == d[i].0 && r[i].1@ == d[i].1
}

/// The description entries a light contributes: one light entity, provided
/// its snake-case object identifier fits a payload field.
pub open spec fn spec_light_description(l: Light) -> Seq<(MessageTypes, Seq<u8>)> {
    let oid = snake_of(l.base.name@);
    if oid.len() <= OBJECT_ID_CHARS_MAX {
        seq![
            (
                MessageTypes::ListEntitiesLightResponse,
                spec_list_entities_light_payload(
                    str_bytes(oid),
                    l.base.key,
                    str_bytes(l.base.name@),
                    str_bytes("light"@ + l.base.name@),
                    spec_light_modes(l),
                ),
            ),
        ]
    } else {
        Seq::empty()
    }
}

impl Light {
    /// The constructor-established relation between the fields.
    pub open spec fn wf(&self) -> bool {
        self.base.wf()
    }

    /// An on/off light, initially off.
    pub fn new_binary(name: String) -> (r: Light)
        requires
            name@.len() <= NAME_CHARS_MAX,
        ensures
            r.base.name@ == name@,
            r.state == false,
            r.platform == LightPlatform::Binary,
            r.wf(),
    {
        Light { base: BaseComponent::new(name), state: false, platform: LightPlatform::Binary }
    }

    /// A dimmable light, initially off at full brightness.
    pub fn new_monochromatic(name: String) -> (r: Light)
        requires
            name@.len() <= NAME_CHARS_MAX,
        ensures
            r.base.name@ == name@,
            r.state == false,
            r.platform == (LightPlatform::Monochromatic { brightness: BRIGHTNESS_FULL }),
            r.wf(),
    {
        Light {
            base: BaseComponent::new(name),
            state: false,
            platform: LightPlatform::Monochromatic { brightness: BRIGHTNESS_FULL },
        }
    }

    /// A three-channel light, initially off, white at full brightness.
    pub fn new_rgb(name: String) -> (r: Light)
        requires
            name@.len() <= NAME_CHARS_MAX,
        ensures
            r.base.name@ == name@,
            r.state == false,
            r.platform == (LightPlatform::Rgb {
                brightness: BRIGHTNESS_FULL,
                red: BRIGHTNESS_FULL,
                green: BRIGHTNESS_FULL,
                blue: BRIGHTNESS_FULL,
            }),
            r.wf(),
    {
        Light {
            base: BaseComponent::new(name),
            state: false,
            platform: LightPlatform::Rgb {
                brightness: BRIGHTNESS_FULL,
                red: BRIGHTNESS_FULL,
                green: BRIGHTNESS_FULL,
                blue: BRIGHTNESS_FULL,
            },
        }
    }

    /// The state push for this light as it stands.
    pub fn as_response(&self) -> (r: LightStateResponse)
        ensures
            r == spec_light_response(*self),
    {
        match self.platform {
            LightPlatform::Binary => LightStateResponse {
                key: self.base.key,
                state: self.state,
                brightness: 0,
                red: 0,
                green: 0,
                blue: 0,
            },
            LightPlatform::Monochromatic { brightness } => LightStateResponse {
                key: self.base.key,
                state: self.state,
                brightness,
                red: 0,
                green: 0,
                blue: 0,
            },
            LightPlatform::Rgb { brightness, red, green, blue } => LightStateResponse {
                key: self.base.key,
                state: self.state,
                brightness,
                red,
                green,
                blue,
            },
        }
    }

    /// Feeds the light one bus event.
    pub fn handle_update(&mut self, msg: &ComponentUpdate) -> (r: Vec<ComponentUpdate>)
        ensures
            *final(self) == spec_light_step(*old(self), *msg).0,
            r@ == spec_light_step(*old(self), *msg).1,
            final(self).base == old(self).base,
    {
        match msg {
            ComponentUpdate::Request(k) => {
                let addressed = match k {
                    Option::None => true,
                    Option::Some(key) => *key == self.base.key,
                };
                if addressed {
                    let mut out: Vec<ComponentUpdate> = Vec::new();
                    out.push(ComponentUpdate::LightResponse(self.as_response()));
                    out
                } else {
                    Vec::new()
                }
            },
            ComponentUpdate::LightRequest(req) => {
                if req.key == self.base.key {
                    if req.has_state {
                        self.state = req.state;
                    }
                    match &mut self.platform {
                        LightPlatform::Binary => {},
                        LightPlatform::Monochromatic { brightness } => {
                            if req.has_brightness {
                                *brightness = req.brightness;
                            }
                        },
                        LightPlatform::Rgb { brightness, red, green, blue } => {
                            if req.has_brightness {
                                *brightness = req.brightness;
                            }
                            if req.has_rgb {
                                *red = req.red;
                                *green = req.green;
                                *blue = req.blue;
                            }
                        },
                    }
                    let mut out: Vec<ComponentUpdate> = Vec::new();
                    out.push(ComponentUpdate::LightResponse(self.as_response()));
                    out
                } else {
                    Vec::new()
                }
            },
            _ => Vec::new(),
        }
    }

    /// The description entries this light contributes.
    pub fn get_description(&self) -> (r: Vec<(MessageTypes, Vec<u8>)>)
        requires
            self.wf(),
        ensures
            desc_matches(r@, spec_light_description(*self)),
    {
        let oid_chars = self.base.object_id.as_str().unicode_len();
        if oid_chars > OBJECT_ID_CHARS_MAX {
            return Vec::new();
        }
        proof {
            reveal_strlit("light");
            lemma_str_bytes_len(self.base.object_id@);
            lemma_str_bytes_len(self.base.name@);
            lemma_str_bytes_len("light"@ + self.base.name@);
        }
        let unique_id = name_to_unique(self.base.name.as_str(), "light");
        let mut modes: Vec<u32> = Vec::new();
        match self.platform {
            LightPlatform::Binary => {
                modes.push(COLOR_MODE_ON_OFF);
            },
            LightPlatform::Monochromatic { .. } => {
                modes.push(COLOR_MODE_BRIGHTNESS);
            },
            LightPlatform::Rgb { .. } => {
                modes.push(COLOR_MODE_BRIGHTNESS);
                modes.push(COLOR_MODE_RGB);
            },
        }
        proof {
            assert(modes@ =~= spec_light_modes(*self));
        }
        let body = encode_list_entities_light(
            self.base.object_id.as_str(),
            self.base.key,
            self.base.name.as_str(),
            unique_id.as_str(),
            &modes,
        );
        let mut out: Vec<(MessageTypes, Vec<u8>)> = Vec::new();
        out.push((MessageTypes::ListEntitiesLightResponse, body));
        out
    }
}

/// Milliseconds between two tick-driven sensor emissions.
pub const UPDATE_TICK_MS: u64 = 60000;

/// Whether enough wall-clock time has passed since `last` for a tick-driven
/// emission at `now`.
pub open spec fn spec_update_due(last: u64, now: u64) -> bool {
    now >= UPDATE_TICK_MS && now - UPDATE_TICK_MS >= last
}

/// One environment measurement, each value the bit pattern of its 32-bit
/// floating-point encoding, the pressure already in display units.
#[derive(Clone, Copy, Debug, PartialEq, Eq, Structural)]
pub struct Bme280Reading {
    pub temperature: u32,
    pub humidity: u32,
    pub pressure: u32,
}

/// The environment sensor: a three-channel entity whose channel keys are
/// the base key and the next two values.  The embedding application stores
/// the latest measurement; a failed measurement simply leaves none.
pub struct Bme280 {
    pub key: u32,
    pub last_update: u64,
    pub reading: Option<Bme280Reading>,
}

/// The name the sensor's keys and labels derive from.
pub open spec fn bme280_name() -> Seq<char> {
    "Rusty old BME280"@
}

/// The state pushes the sensor answers with: one per channel, keys
/// `key`, `key + 1`, `key + 2`, or nothing while no reading is stored.
pub open spec fn spec_bme280_responses(b: Bme280) -> Seq<ComponentUpdate> {
    match b.reading {
        Option::None => Seq::empty(),
        Option::Some(rd) => seq![
            ComponentUpdate::SensorResponse(
                SensorStateResponse { key: b.key, state: rd.temperature },
            ),
            ComponentUpdate::SensorResponse(
                SensorStateResponse {
                    key: vstd::wrapping::u32_specs::wrapping_add(b.key, 1),
                    state: rd.humidity,
                },
            ),
            ComponentUpdate::SensorResponse(
                SensorStateResponse {
                    key: vstd::wrapping::u32_specs::wrapping_add(b.key, 2),
                    state: rd.pressure,
                },
            ),
        ],
    }
}

/// What one bus event makes the sensor do: a pull request for all entities
/// or for its base key is answered from the stored reading; a tick is
/// answered only when the self-rate-limit has elapsed, and then moves the
/// limit forward; everything else is not for this sensor.
pub open spec fn spec_bme280_step(b: Bme280, msg: ComponentUpdate, now: u64) -> (
    Bme280,
    Seq<ComponentUpdate>,
) {
    match msg {
        ComponentUpdate::Request(k) => {
            if k is None || k == Some(b.key) {
                (b, spec_bme280_responses(b))
            } else {
                (b, Seq::empty())
            }
        },
        ComponentUpdate::Update => {
            if spec_update_due(b.last_update, now) {
                (Bme280 { last_update: now, ..b }, spec_bme280_responses(b))
            } else {
                (b, Seq::empty())
            }
        },
        _ => (b, Seq::empty()),
    }
}

/// The description entries the sensor contributes: one per channel, with
/// the channel name appended to the sensor name, provided the snake-case
/// object identifier fits a payload field.
pub open spec fn spec_sensor_channel_description(
    key: u32,
    name: Seq<char>,
    unit: Seq<char>,
    accuracy_decimals: u32,
) -> Seq<(MessageTypes, Seq<u8>)> {
    let oid = snake_of(name);
    if oid.len() <= OBJECT_ID_CHARS_MAX {
        seq![
            (
                MessageTypes::ListEntitiesSensorResponse,
                spec_list_entities_sensor_payload(
                    str_bytes(oid),
                    key,
                    str_bytes(name),
                    str_bytes("bme280"@ + name),
                    str_bytes(unit),
                    accuracy_decimals,
                ),
            ),
        ]
    } else {
        Seq::empty()
    }
}

/// The three channel descriptions of the sensor, in channel order.
pub open spec fn spec_bme280_description(b: Bme280) -> Seq<(MessageTypes, Seq<u8>)> {
    spec_sensor_channel_description(b.key, bme280_name() + " Temperatur"@, "°C"@, 1)
        + spec_sensor_channel_description(
        vstd::wrapping::u32_specs::wrapping_add(b.key, 1),
        bme280_name() + " Humidity"@,
        "%"@,
        1,
    ) + spec_sensor_channel_description(
        vstd::wrapping::u32_specs::wrapping_add(b.key, 2),
        bme280_name() + " Preasure"@,
        "hPa"@,
        1,
    )
}

/// As long as the base key does not sit at the very top of the key space —
/// which callers must guarantee by their choice of entity names — the three
/// channel state pushes carry the keys `key`, `key + 1`, `key + 2`.
pub proof fn lemma_bme280_sibling_keys(b: Bme280)
    requires
        b.reading is Some,
        b.key + 2 <= u32::MAX,
    ensures
        spec_bme280_responses(b).len() == 3,
        spec_bme280_responses(b)[0] matches ComponentUpdate::SensorResponse(s) && s.key == b.key,
        spec_bme280_responses(b)[1] matches ComponentUpdate::SensorResponse(s) && s.key == b.key
            + 1,
        spec_bme280_responses(b)[2] matches ComponentUpdate::SensorResponse(s) && s.key == b.key
            + 2,
{
}

impl Bme280 {
    /// The constructor-established relation between the fields.
    pub open spec fn wf(&self) -> bool {
        self.key == spec_fnv1(bme280_name())
    }

    /// A sensor with no reading yet, rate-limited from `now`.
    pub fn new(now: u64) -> (r: Bme280)
        ensures
            r.key == spec_fnv1(bme280_name()),
            r.last_update == now,
            r.reading is None,
            r.wf(),
    {
        Bme280 { key: name_to_hash("Rusty old BME280"), last_update: now, reading: None }
    }

    /// The sensor's base key.
    pub fn get_key(&self) -> (r: u32)
        ensures
            r == self.key,
    {
        self.key
    }

    /// Stores the latest measurement; the embedding application calls this
    /// whenever the hardware produced one.
    pub fn set_reading(&mut self, reading: Bme280Reading)
        ensures
            *final(self) == (Bme280 { reading: Some(reading), ..*old(self) }),
    {
        self.reading = Some(reading);
    }

    fn gen_resp(&self) -> (r: Vec<ComponentUpdate>)
        ensures
            r@ == spec_bme280_responses(*self),
    {
        match &self.reading {
            Option::None => Vec::new(),
            Option::Some(rd) => {
                let mut out: Vec<ComponentUpdate> = Vec::new();
                out.push(
                    ComponentUpdate::SensorResponse(
                        SensorStateResponse { key: self.key, state: rd.temperature },
                    ),
                );
                out.push(
                    ComponentUpdate::SensorResponse(
                        SensorStateResponse { key: self.key.wrapping_add(1), state: rd.humidity },
                    ),
                );
                out.push(
                    ComponentUpdate::SensorResponse(
                        SensorStateResponse { key: self.key.wrapping_add(2), state: rd.pressure },
                    ),
                );
                proof {
                    assert(out@ =~= spec_bme280_responses(*self));
                }
                out
            },
        }
    }

    /// Feeds the sensor one bus event at time `now`.
    pub fn handle_update(&mut self, msg: &ComponentUpdate, now: u64) -> (r: Vec<ComponentUpdate>)
        requires
            old(self).wf(),
        ensures
            *final(self) == spec_bme280_step(*old(self), *msg, now).0,
            r@ == spec_bme280_step(*old(self), *msg, now).1,
            final(self).wf(),
    {
        match msg {
            ComponentUpdate::Request(k) => {
                let addressed = match k {
                    Option::None => true,
                    Option::Some(key) => *key == self.key,
                };
                if addressed {
                    self.gen_resp()
                } else {
                    Vec::new()
                }
            },
            ComponentUpdate::Update => {
                if now >= UPDATE_TICK_MS && now - UPDATE_TICK_MS >= self.last_update {
                    let out = self.gen_resp();
                    self.last_update = now;
                    out
                } else {
                    Vec::new()
                }
            },
            _ => Vec::new(),
        }
    }

    /// The description entries this sensor contributes.
    #[verifier::rlimit(50)]
    #[verifier::spinoff_prover]
    pub fn get_description(&self) -> (r: Vec<(MessageTypes, Vec<u8>)>)
        requires
            self.wf(),
        ensures
            desc_matches(r@, spec_bme280_description(*self)),
    {
        proof {
            reveal_strlit(" Temperatur");
            reveal_strlit(" Humidity");
            reveal_strlit(" Preasure");
            reveal_strlit("°C");
            reveal_strlit("%");
            reveal_strlit("hPa");
        }
        let mut out: Vec<(MessageTypes, Vec<u8>)> = Vec::new();
        let ghost d0 = spec_sensor_channel_description(
            self.key,
            bme280_name() + " Temperatur"@,
            "°C"@,
            1,
        );
        let ghost d1 = spec_sensor_channel_description(
            vstd::wrapping::u32_specs::wrapping_add(self.key, 1),
            bme280_name() + " Humidity"@,
            "%"@,
            1,
        );
        let ghost d2 = spec_sensor_channel_description(
            vstd::wrapping::u32_specs::wrapping_add(self.key, 2),
            bme280_name() + " Preasure"@,
            "hPa"@,
            1,
        );
        let mut c0 = self.channel_description(0, " Temperatur", "°C");
        let mut c1 = self.channel_description(1, " Humidity", "%");
        let mut c2 = self.channel_description(2, " Preasure", "hPa");
        let ghost g0 = c0@;
        let ghost g1 = c1@;
        let ghost g2 = c2@;
        out.append(&mut c0);
        out.append(&mut c1);
        out.append(&mut c2);
        proof {
            assert(out@ =~= g0 + g1 + g2);
            let d = spec_bme280_description(*self);
            assert(d =~= d0 + d1 + d2);
            assert(out@.len() == d.len());
            assert forall|i: int|
                0 <= i < out@.len() implies #[trigger] out@[i].0 == d[i].0 && out@[i].1@
                == d[i].1 by {
                if i < d0.len() {
                    assert(d[i] == d0[i]);
                    assert(out@[i] == g0[i]);
                    assert(g0[i].0 == d0[i].0 && g0[i].1@ == d0[i].1);
                } else if i < d0.len() + d1.len() {
                    let j = i - d0.len();
                    assert(d[i] == d1[j]);
                    assert(out@[i] == g1[j]);
                    assert(g1[j].0 == d1[j].0 && g1[j].1@ == d1[j].1);
                } else {
                    let j = i - d0.len() - d1.len();
                    assert(d[i] == d2[j]);
                    assert(out@[i] == g2[j]);
                    assert(g2[j].0 == d2[j].0 && g2[j].1@ == d2[j].1);
                }
            }
        }
        out
    }

    /// The description of one channel.
    fn channel_description(&self, offset: u32, channel: &str, unit: &str) -> (r: Vec<
        (MessageTypes, Vec<u8>),
    >)
        requires
            self.wf(),
            channel@.len() <= 64,
            unit@.len() <= 8,
        ensures
            ({
                let d = spec_sensor_channel_description(
                    vstd::wrapping::u32_specs::wrapping_add(self.key, offset),
                    bme280_name() + channel@,
                    unit@,
                    1,
                );
                desc_matches(r@, d)
            }),
    {
        proof {
            reveal_strlit("Rusty old BME280");
            reveal_strlit("bme280");
        }
        let mut name = String::from_str("Rusty old BME280");
        name.append(channel);
        let oid = name_to_object(name.as_str());
        if oid.as_str().unicode_len() > OBJECT_ID_CHARS_MAX {
            return Vec::new();
        }
        proof {
            lemma_str_bytes_len(oid@);
            lemma_str_bytes_len(name@);
            lemma_str_bytes_len("bme280"@ + name@);
            lemma_str_bytes_len(unit@);
        }
        let unique_id = name_to_unique(name.as_str(), "bme280");
        let key = self.key.wrapping_add(offset);
        let body = encode_list_entities_sensor(
            oid.as_str(),
            key,
            name.as_str(),
            unique_id.as_str(),
            unit,
            1,
        );
        let mut r: Vec<(MessageTypes, Vec<u8>)> = Vec::new();
        r.push((MessageTypes::ListEntitiesSensorResponse, body));
        r
    }
}


/// One owned component: a closed set of kinds, so the router's behaviour is
/// checkable case by case.
pub enum Component {
    Light(Light),
    Bme280(Bme280),
}

impl Component {
    /// The constructor-established relation between a component's fields.
    pub open spec fn wf(&self) -> bool {
        match self {
            Component::Light(l) => l.wf(),
            Component::Bme280(b) => b.wf(),
        }
    }
}

/// What one bus event makes a component do: the component afterwards, and
/// the outbound events it emits.
pub open spec fn spec_component_step(c: Component, msg: ComponentUpdate, now: u64) -> (
    Component,
    Seq<ComponentUpdate>,
) {
    match c {
        Component::Light(l) => {
            let (l2, out) = spec_light_step(l, msg);
            (Component::Light(l2), out)
        },
        Component::Bme280(b) => {
            let (b2, out) = spec_bme280_step(b, msg, now);
            (Component::Bme280(b2), out)
        },
    }
}

/// The description entries a component contributes.
pub open spec fn spec_component_description(c: Component) -> Seq<(MessageTypes, Seq<u8>)> {
    match c {
        Component::Light(l) => spec_light_description(l),
        Component::Bme280(b) => spec_bme280_description(b),
    }
}

/// Feeds one component one bus event, passing the component through.
fn component_step(c: Component, msg: &ComponentUpdate, now: u64) -> (r: (
    Component,
    Vec<ComponentUpdate>,
))
    requires
        c.wf(),
    ensures
        r.0 == spec_component_step(c, *msg, now).0,
        r.1@ == spec_component_step(c, *msg, now).1,
        r.0.wf(),
{
    match c {
        Component::Light(mut l) => {
            let out = l.handle_update(msg);
            (Component::Light(l), out)
        },
        Component::Bme280(mut b) => {
            let out = b.handle_update(msg, now);
            (Component::Bme280(b), out)
        },
    }
}

/// The components each component of `cs` becomes on `msg`.
pub open spec fn spec_manager_states(cs: Seq<Component>, msg: ComponentUpdate, now: u64) -> Seq<
    Component,
> {
    Seq::new(cs.len(), |i: int| spec_component_step(cs[i], msg, now).0)
}

/// The outbound events the components of `cs` emit on `msg`, concatenated
/// in registration order.
pub open spec fn spec_manager_outputs(cs: Seq<Component>, msg: ComponentUpdate, now: u64) -> Seq<
    ComponentUpdate,
>
    decreases cs.len()
{
    if cs.len() == 0 {
        Seq::empty()
    } else {
        spec_component_step(cs[0], msg, now).1 + spec_manager_outputs(cs.drop_first(), msg, now)
    }
}

proof fn lemma_manager_outputs_snoc(cs: Seq<Component>, msg: ComponentUpdate, now: u64, i: int)
    requires
        0 <= i < cs.len(),
    ensures
        spec_manager_outputs(cs.take(i + 1), msg, now) == spec_manager_outputs(
            cs.take(i),
            msg,
            now,
        ) + spec_component_step(cs[i], msg, now).1,
    decreases i,
{
    if i == 0 {
        assert(cs.take(1) =~= seq![cs[0]]);
        assert(cs.take(0) =~= Seq::<Component>::empty());
        assert(seq![cs[0]].drop_first() =~= Seq::<Component>::empty());
        assert(spec_manager_outputs(cs.take(1), msg, now) =~= spec_manager_outputs(
            cs.take(0),
            msg,
            now,
        ) + spec_component_step(cs[0], msg, now).1);
    } else {
        lemma_manager_outputs_snoc(cs.drop_first(), msg, now, i - 1);
        assert(cs.take(i + 1).drop_first() =~= cs.drop_first().take(i));
        assert(cs.take(i).drop_first() =~= cs.drop_first().take(i - 1));
        assert(cs.take(i + 1)[0] == cs[0]);
        assert(cs.take(i)[0] == cs[0]);
        assert(spec_manager_outputs(cs.take(i + 1), msg, now) =~= spec_manager_outputs(
            cs.take(i),
            msg,
            now,
        ) + spec_component_step(cs[i], msg, now).1);
    }
}

/// The description entries of all of `cs`, concatenated in registration
/// order.
pub open spec fn spec_manager_descriptions(cs: Seq<Component>) -> Seq<(MessageTypes, Seq<u8>)>
    decreases cs.len()
{
    if cs.len() == 0 {
        Seq::empty()
    } else {
        spec_component_description(cs[0]) + spec_manager_descriptions(cs.drop_first())
    }
}

proof fn lemma_manager_descriptions_snoc(cs: Seq<Component>, i: int)
    requires
        0 <= i < cs.len(),
    ensures
        spec_manager_descriptions(cs.take(i + 1)) == spec_manager_descriptions(cs.take(i))
            + spec_component_description(cs[i]),
    decreases i,
{
    if i == 0 {
        assert(cs.take(1) =~= seq![cs[0]]);
        assert(cs.take(0) =~= Seq::<Component>::empty());
        assert(seq![cs[0]].drop_first() =~= Seq::<Component>::empty());
        assert(spec_manager_descriptions(cs.take(1)) =~= spec_manager_descriptions(cs.take(0))
            + spec_component_description(cs[0]));
    } else {
        lemma_manager_descriptions_snoc(cs.drop_first(), i - 1);
        assert(cs.take(i + 1).drop_first() =~= cs.drop_first().take(i));
        assert(cs.take(i).drop_first() =~= cs.drop_first().take(i - 1));
        assert(cs.take(i + 1)[0] == cs[0]);
        assert(cs.take(i)[0] == cs[0]);
        assert(spec_manager_descriptions(cs.take(i + 1)) =~= spec_manager_descriptions(cs.take(i))
            + spec_component_description(cs[i]));
    }
}

/// Owner of all components, in registration order: presents every bus event
/// to each of them and concatenates what they emit.
pub struct ComponentManager {
    pub components: Vec<Component>,
}

impl ComponentManager {
    /// Every owned component is well formed.
    pub open spec fn wf(&self) -> bool {
        forall|i: int| 0 <= i < self.components@.len() ==> #[trigger] self.components@[i].wf()
    }

    /// The default component set: a dimmable lamp and two on/off lamps on
    /// the shared name, and the three-channel onboard lamp.
    pub fn new() -> (r: ComponentManager)
        ensures
            r.wf(),
            r.components@.len() == 4,
            (r.components@[0] matches Component::Light(l) && l.base.name@ == "Rusty old LED"@
                + " blue"@ && l.platform == (LightPlatform::Monochromatic {
                brightness: BRIGHTNESS_FULL,
            }) && !l.state),
            (r.components@[1] matches Component::Light(l) && l.base.name@ == "Rusty old LED"@
                + " yellow"@ && l.platform == LightPlatform::Binary && !l.state),
            (r.components@[2] matches Component::Light(l) && l.base.name@ == "Rusty old LED"@
                + " white"@ && l.platform == LightPlatform::Binary && !l.state),
            (r.components@[3] matches Component::Light(l) && l.base.name@
                == "Rusty old RGB Light"@ + " onboard"@ && l.platform == (LightPlatform::Rgb {
                brightness: BRIGHTNESS_FULL,
                red: BRIGHTNESS_FULL,
                green: BRIGHTNESS_FULL,
                blue: BRIGHTNESS_FULL,
            }) && !l.state),
    {
        proof {
            reveal_strlit("Rusty old LED");
            reveal_strlit("Rusty old RGB Light");
            reveal_strlit(" blue");
            reveal_strlit(" yellow");
            reveal_strlit(" white");
            reveal_strlit(" onboard");
        }
        let mut components: Vec<Component> = Vec::new();
        let mut name = String::from_str("Rusty old LED");
        name.append(" blue");
        components.push(Component::Light(Light::new_monochromatic(name)));
        let mut name = String::from_str("Rusty old LED");
        name.append(" yellow");
        components.push(Component::Light(Light::new_binary(name)));
        let mut name = String::from_str("Rusty old LED");
        name.append(" white");
        components.push(Component::Light(Light::new_binary(name)));
        let mut name = String::from_str("Rusty old RGB Light");
        name.append(" onboard");
        components.push(Component::Light(Light::new_rgb(name)));
        ComponentManager { components }
    }

    /// Adds a component to the end of the registration order.
    pub fn push(&mut self, c: Component)
        requires
            c.wf(),
            old(self).wf(),
        ensures
            final(self).components@ == old(self).components@.push(c),
            final(self).wf(),
    {
        self.components.push(c);
    }

    /// Presents one bus event to every component in registration order and
    /// returns their outbound events, concatenated.
    pub fn hanlde(&mut self, msg: &ComponentUpdate, now: u64) -> (r: Vec<ComponentUpdate>)
        requires
            old(self).wf(),
        ensures
            final(self).components@ == spec_manager_states(old(self).components@, *msg, now),
            r@ == spec_manager_outputs(old(self).components@, *msg, now),
            final(self).wf(),
    {
        let ghost orig = self.components@;
        proof {
            assert(forall|j: int| 0 <= j < orig.len() ==> #[trigger] orig[j].wf());
        }
        let mut done: Vec<Component> = Vec::new();
        let mut outs: Vec<ComponentUpdate> = Vec::new();
        proof {
            assert(orig.take(0) =~= Seq::<Component>::empty());
        }
        while self.components.len() > 0
            invariant
                done@.len() + self.components@.len() == orig.len(),
                forall|j: int|
                    0 <= j < done@.len() ==> #[trigger] done@[j] == spec_component_step(
                        orig[j],
                        *msg,
                        now,
                    ).0,
                forall|j: int|
                    0 <= j < self.components@.len() ==> #[trigger] self.components@[j] == orig[
                        done@.len() + j
                    ],
                forall|j: int| 0 <= j < orig.len() ==> #[trigger] orig[j].wf(),
                forall|j: int| 0 <= j < done@.len() ==> #[trigger] done@[j].wf(),
                outs@ == spec_manager_outputs(orig.take(done@.len() as int), *msg, now),
            decreases self.components@.len(),
        {
            let ghost i = done@.len() as int;
            proof {
                assert(self.components@[0] == orig[i]);
            }
            let c = self.components.remove(0);
            proof {
                assert(orig[i].wf());
            }
            let (c2, mut o) = component_step(c, msg, now);
            outs.append(&mut o);
            done.push(c2);
            proof {
                lemma_manager_outputs_snoc(orig, *msg, now, i);
            }
        }
        proof {
            assert(orig.take(done@.len() as int) =~= orig);
            assert(done@ =~= spec_manager_states(orig, *msg, now));
        }
        self.components = done;
        outs
    }

    /// The full description list for every owned component, in registration
    /// order; computed once at startup to build the identity record.
    pub fn get_descriptions(&self) -> (r: Vec<(MessageTypes, Vec<u8>)>)
        requires
            self.wf(),
        ensures
            desc_matches(r@, spec_manager_descriptions(self.components@)),
    {
        let ghost cs = self.components@;
        let mut out: Vec<(MessageTypes, Vec<u8>)> = Vec::new();
        let mut i: usize = 0;
        proof {
            assert(cs.take(0) =~= Seq::<Component>::empty());
        }
        while i < self.components.len()
            invariant
                i <= cs.len() == self.components@.len(),
                cs == self.components@,
                self.wf(),
                desc_matches(out@, spec_manager_descriptions(cs.take(i as int))),
            decreases cs.len() - i,
        {
            let ghost prefix = spec_manager_descriptions(cs.take(i as int));
            let ghost di = spec_component_description(cs[i as int]);
            proof {
                assert(self.components@[i as int].wf());
            }
            let comp = &self.components[i];
            proof {
                assert(*comp == cs[i as int]);
            }
            let mut d = match comp {
                Component::Light(l) => {
                    let dl = l.get_description();
                    proof {
                        assert(di == spec_light_description(*l));
                        assert(desc_matches(dl@, di));
                    }
                    dl
                },
                Component::Bme280(b) => {
                    let db = b.get_description();
                    proof {
                        assert(di == spec_bme280_description(*b));
                        assert(desc_matches(db@, di));
                    }
                    db
                },
            };
            let ghost gd = d@;
            proof {
                assert(desc_matches(gd, di));
            }
            let ghost gout = out@;
            out.append(&mut d);
            proof {
                lemma_manager_descriptions_snoc(cs, i as int);
                let whole = spec_manager_descriptions(cs.take(i + 1));
                assert(whole =~= prefix + di);
                assert forall|j: int| 0 <= j < whole.len() implies out@[j].0 == whole[j].0
                    && out@[j].1@ == whole[j].1 by {
                    if j < gout.len() {
                        assert(out@[j] == gout[j]);
                        assert(whole[j] == prefix[j]);
                    } else {
                        let k = j - gout.len();
                        assert(out@[j] == gd[k]);
                        assert(whole[j] == di[k]);
                    }
                }
                assert(desc_matches(out@, whole));
            }
            i = i + 1;
        }
        proof {
            assert(cs.take(cs.len() as int) =~= cs);
        }
        out
    }
}


} // verus!
