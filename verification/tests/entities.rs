use esphome_api::components::{
    Bme280, Bme280Reading, Component, ComponentManager, ComponentUpdate, Light,
};
use esphome_api::messages::LightCommandRequest;
use esphome_api::utils::{fnv1_hash, name_to_hash, name_to_object, name_to_unique};

#[test]
fn entity_key_is_deterministic() {
    // The key is a pure function of the name: the same value in every run.
    assert_eq!(name_to_hash("Rusty old LED"), 2353619752);
    assert_eq!(name_to_hash("Rusty old LED"), fnv1_hash("Rusty old LED"));
    assert_eq!(fnv1_hash(""), 2166136261);
    assert_eq!(name_to_hash("Rusty old BME280"), 126500731);
}

#[test]
fn sensor_sibling_keys_are_consecutive() {
    let mut bme = Bme280::new(0);
    let base = bme.get_key();
    bme.set_reading(Bme280Reading { temperature: 1, humidity: 2, pressure: 3 });
    let out = bme.handle_update(&ComponentUpdate::Request(None), 0);
    let keys: Vec<u32> = out
        .iter()
        .map(|u| match u {
            ComponentUpdate::SensorResponse(s) => s.key,
            _ => panic!("expected sensor state pushes"),
        })
        .collect();
    assert_eq!(keys, vec![base, base + 1, base + 2]);
}

#[test]
fn device_keys_do_not_collide() {
    // Every key set registered by the default device: the four lights and
    // the sensor's three channels.
    let manager = ComponentManager::new();
    let mut keys: Vec<u32> = manager
        .components
        .iter()
        .map(|c| match c {
            Component::Light(l) => l.base.key,
            Component::Bme280(b) => b.key,
        })
        .collect();
    let bme = Bme280::new(0);
    keys.push(bme.key);
    keys.push(bme.key + 1);
    keys.push(bme.key + 2);
    for i in 0..keys.len() {
        for j in 0..i {
            assert_ne!(keys[i], keys[j], "keys {} and {} collide", i, j);
        }
    }
}

#[test]
fn object_id_is_snake_case() {
    // The conversion must actually transform the name.
    assert_eq!(name_to_object("Rusty old LED"), "rusty_old_led");
    assert_eq!(name_to_object("Rusty old RGB Light onboard"), "rusty_old_rgb_light_onboard");
}

#[test]
fn base_component_derives_its_fields() {
    let base = esphome_api::components::BaseComponent::new(String::from("Rusty old LED"));
    assert_eq!(base.get_name(), "Rusty old LED");
    assert_eq!(base.get_object_id(), "rusty_old_led");
    assert_eq!(base.get_object_id_hash(), 2353619752);
}

#[test]
fn light_description_carries_object_id_and_key() {
    let light = Light::new_monochromatic(String::from("Rusty old LED blue"));
    let descs = light.get_description();
    assert_eq!(descs.len(), 1);
    let payload = &descs[0].1;
    // Field 1: the snake-case object identifier.
    let oid = b"rusty_old_led_blue";
    let mut expected_head = vec![0x0a, oid.len() as u8];
    expected_head.extend_from_slice(oid);
    // Field 2: the entity key, four fixed bytes.
    expected_head.push(0x15);
    expected_head.extend_from_slice(&1759144476u32.to_le_bytes());
    assert_eq!(&payload[..expected_head.len()], &expected_head[..]);
}

#[test]
fn unique_id_prefixes_the_type() {
    assert_eq!(name_to_unique("Rusty old LED", "light"), "lightRusty old LED");
}

#[test]
fn light_answers_pull_requests() {
    let mut light = Light::new_binary(String::from("Rusty old LED yellow"));
    let key = light.base.key;
    let out = light.handle_update(&ComponentUpdate::Request(None));
    assert_eq!(out.len(), 1);
    match &out[0] {
        ComponentUpdate::LightResponse(s) => {
            assert_eq!(s.key, key);
            assert!(!s.state);
        },
        _ => panic!("expected a light state push"),
    }
    // Addressed to another key: nothing.
    let out = light.handle_update(&ComponentUpdate::Request(Some(key.wrapping_add(1))));
    assert!(out.is_empty());
}

#[test]
fn light_applies_addressed_commands() {
    let mut light = Light::new_monochromatic(String::from("Rusty old LED blue"));
    let key = light.base.key;
    let cmd = LightCommandRequest {
        key,
        has_state: true,
        state: true,
        has_brightness: true,
        brightness: f32::to_bits(0.5),
        has_rgb: false,
        red: 0,
        green: 0,
        blue: 0,
    };
    let out = light.handle_update(&ComponentUpdate::LightRequest(cmd));
    assert_eq!(out.len(), 1);
    match &out[0] {
        ComponentUpdate::LightResponse(s) => {
            assert!(s.state);
            assert_eq!(s.brightness, f32::to_bits(0.5));
        },
        _ => panic!("expected a light state push"),
    }
    assert!(light.state);
}

#[test]
fn light_ignores_foreign_commands() {
    let mut light = Light::new_binary(String::from("Rusty old LED white"));
    let cmd = LightCommandRequest {
        key: light.base.key.wrapping_add(7),
        has_state: true,
        state: true,
        has_brightness: false,
        brightness: 0,
        has_rgb: false,
        red: 0,
        green: 0,
        blue: 0,
    };
    let out = light.handle_update(&ComponentUpdate::LightRequest(cmd));
    assert!(out.is_empty());
    assert!(!light.state);
}

#[test]
fn light_swallows_inapplicable_fields() {
    // A brightness sent to an on/off light changes nothing and does not
    // fail; component-level mismatches are swallowed at the boundary.
    let mut light = Light::new_binary(String::from("Rusty old LED yellow"));
    let cmd = LightCommandRequest {
        key: light.base.key,
        has_state: false,
        state: false,
        has_brightness: true,
        brightness: f32::to_bits(0.3),
        has_rgb: true,
        red: 1,
        green: 2,
        blue: 3,
    };
    let out = light.handle_update(&ComponentUpdate::LightRequest(cmd));
    assert_eq!(out.len(), 1);
    match &out[0] {
        ComponentUpdate::LightResponse(s) => {
            assert_eq!(s.brightness, 0);
            assert_eq!(s.red, 0);
        },
        _ => panic!("expected a light state push"),
    }
}

#[test]
fn sensor_without_reading_emits_nothing() {
    let mut bme = Bme280::new(0);
    let out = bme.handle_update(&ComponentUpdate::Request(None), 0);
    assert!(out.is_empty());
}

#[test]
fn sensor_rate_limits_ticks() {
    let mut bme = Bme280::new(1000);
    bme.set_reading(Bme280Reading { temperature: 1, humidity: 2, pressure: 3 });
    // Not yet a minute since construction.
    assert!(bme.handle_update(&ComponentUpdate::Update, 30_000).is_empty());
    // A minute later: emits and moves the limit forward.
    let out = bme.handle_update(&ComponentUpdate::Update, 61_000);
    assert_eq!(out.len(), 3);
    // Right after: rate-limited again.
    assert!(bme.handle_update(&ComponentUpdate::Update, 62_000).is_empty());
    // A pull request is never rate-limited.
    assert_eq!(bme.handle_update(&ComponentUpdate::Request(None), 62_000).len(), 3);
}

#[test]
fn manager_concatenates_in_registration_order() {
    let mut manager = ComponentManager::new();
    let mut bme = Bme280::new(0);
    bme.set_reading(Bme280Reading { temperature: 10, humidity: 20, pressure: 30 });
    manager.push(Component::Bme280(bme));
    let out = manager.hanlde(&ComponentUpdate::Request(None), 0);
    // Four lights answer one push each, then the sensor's three channels.
    assert_eq!(out.len(), 7);
    assert!(matches!(out[0], ComponentUpdate::LightResponse(_)));
    assert!(matches!(out[3], ComponentUpdate::LightResponse(_)));
    assert!(matches!(out[4], ComponentUpdate::SensorResponse(_)));
    assert!(matches!(out[6], ComponentUpdate::SensorResponse(_)));
}

#[test]
fn manager_descriptions_cover_every_entity() {
    let mut manager = ComponentManager::new();
    manager.push(Component::Bme280(Bme280::new(0)));
    let descs = manager.get_descriptions();
    // Four lights and three sensor channels.
    assert_eq!(descs.len(), 7);
    for (_, payload) in &descs {
        assert!(!payload.is_empty());
    }
}
