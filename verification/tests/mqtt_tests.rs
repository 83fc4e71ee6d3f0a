use hyperx_mic_lite::config::MqttConfig;
use hyperx_mic_lite::json::JsonValue;
use hyperx_mic_lite::model::{Effect, LightTarget};
use hyperx_mic_lite::mqtt::{
    discovery_definitions, discovery_messages, mqtt_connection_plan, mqtt_url_component, mqtt_url_with_client_id,
    parse_bool_command, parse_command, parse_effect, parse_percent, parse_target, qos_from_u8,
    state_document, state_messages, trim_topic, MqttCommand, MqttStateSnapshot, MqttTopics, Qos,
};

fn topics() -> MqttTopics {
    MqttTopics::from_config(&MqttConfig::default())
}

fn command(key: &str, payload: &str) -> Option<MqttCommand> {
    let t = topics();
    parse_command(&t, &t.command(key), payload)
}

fn text_member(doc: &JsonValue, key: &str) -> Option<String> {
    match doc.get(key)? {
        JsonValue::Str(s) => Some(s.clone()),
        _ => None,
    }
}

#[test]
fn topics_follow_the_base_topic() {
    let t = topics();
    assert_eq!(t.base, "hyperx_mic_lite/quadcast_s");
    assert_eq!(t.availability(), "hyperx_mic_lite/quadcast_s/status");
    assert_eq!(t.state("mute"), "hyperx_mic_lite/quadcast_s/state/mute");
    assert_eq!(t.command("speed"), "hyperx_mic_lite/quadcast_s/command/speed");
    assert_eq!(t.command_wildcard(), "hyperx_mic_lite/quadcast_s/command/#");
    assert_eq!(
        t.discovery("switch", "mute"),
        "homeassistant/switch/hyperx_mic_lite_mute/config"
    );
}

#[test]
fn trim_topic_removes_spaces_and_slashes() {
    assert_eq!(trim_topic("  /home/mic//  "), "home/mic");
    assert_eq!(trim_topic("///"), "");
    assert_eq!(trim_topic("a / b"), "a / b");
}

#[test]
fn mute_commands() {
    assert_eq!(command("mute", " ON "), Some(MqttCommand::SetMute(true)));
    assert_eq!(command("mute", "Live"), Some(MqttCommand::SetMute(false)));
    assert_eq!(command("mute", "TOGGLE"), Some(MqttCommand::ToggleMute));
    assert_eq!(command("mute", "maybe"), None);
    assert_eq!(command("live_when_muted", "yes"), Some(MqttCommand::SetLiveWhenMuted(true)));
    assert_eq!(command("live_when_muted", "toggle"), None);
}

#[test]
fn percent_commands() {
    assert_eq!(command("mic_volume", "55"), Some(MqttCommand::SetMicVolume(55)));
    assert_eq!(command("mic_monitoring", "0"), Some(MqttCommand::SetMonitoringVolume(0)));
    assert_eq!(command("headphone_volume", "100"), Some(MqttCommand::SetHeadphoneVolume(100)));
    assert_eq!(command("brightness", "+7"), Some(MqttCommand::SetBrightness(7)));
    assert_eq!(command("speed", "101"), None);
    assert_eq!(command("opacity", "-1"), None);
    assert_eq!(command("opacity", "3.5"), None);
    assert_eq!(command("opacity", "300"), None);
}

#[test]
fn lighting_commands() {
    assert_eq!(command("effect", "vu_meter"), Some(MqttCommand::SetEffect(Effect::VuMeter)));
    assert_eq!(command("effect", "Wave"), None);
    assert_eq!(command("target", " bottom\n"), Some(MqttCommand::SetTarget(LightTarget::Bottom)));
    assert_eq!(command("apply", ""), Some(MqttCommand::ApplyLighting));
    assert_eq!(command("stop", "anything"), Some(MqttCommand::StopLighting));
    assert_eq!(command("save", "1"), Some(MqttCommand::SaveLighting));
    assert_eq!(command("reboot", "1"), None);
}

#[test]
fn messages_outside_the_command_topics_are_ignored() {
    let t = topics();
    assert_eq!(parse_command(&t, "hyperx_mic_lite/quadcast_s/state/mute", "ON"), None);
    assert_eq!(parse_command(&t, "other/command/mute", "ON"), None);
    assert_eq!(parse_command(&t, "hyperx_mic_lite/quadcast_s/command/", "ON"), None);
}

#[test]
fn payload_parsers() {
    assert_eq!(parse_bool_command("TRUE"), Some(true));
    assert_eq!(parse_bool_command("0"), Some(false));
    assert_eq!(parse_bool_command(" on"), None);
    assert_eq!(parse_percent("42"), Some(42));
    assert_eq!(parse_percent(""), None);
    assert_eq!(parse_effect("lightning"), Some(Effect::Lightning));
    assert_eq!(parse_target("top"), Some(LightTarget::Top));
    assert_eq!(parse_target("TOP"), None);
}

#[test]
fn qos_levels() {
    assert_eq!(qos_from_u8(0), Qos::AtMostOnce);
    assert_eq!(qos_from_u8(1), Qos::AtLeastOnce);
    assert_eq!(qos_from_u8(2), Qos::ExactlyOnce);
    assert_eq!(qos_from_u8(9), Qos::AtLeastOnce);
}

#[test]
fn url_component_escapes_everything_but_unreserved_bytes() {
    assert_eq!(mqtt_url_component("Az09-_.~"), "Az09-_.~");
    assert_eq!(mqtt_url_component("a b&c=d"), "a%20b%26c%3Dd");
    assert_eq!(mqtt_url_component("é"), "%C3%A9");
    assert_eq!(mqtt_url_component(""), "");
}

#[test]
fn client_id_is_added_to_the_url() {
    assert_eq!(
        mqtt_url_with_client_id("mqtt://localhost:1883", "hyperx-mic-lite"),
        "mqtt://localhost:1883?client_id=hyperx-mic-lite"
    );
    assert_eq!(
        mqtt_url_with_client_id("mqtt://h:1883?keep=1", "id 1"),
        "mqtt://h:1883?keep=1&client_id=id%201"
    );
    assert_eq!(
        mqtt_url_with_client_id("mqtt://h:1883?CLIENT_ID=x", "y"),
        "mqtt://h:1883?CLIENT_ID=x"
    );
}

fn snapshot() -> MqttStateSnapshot {
    MqttStateSnapshot {
        available: true,
        device_name: "HyperX QuadCast S".to_string(),
        device_state: "active".to_string(),
        muted: false,
        mic_volume: 55,
        mic_monitoring: 71,
        headphone_volume: 5,
        input_level: "12.5".to_string(),
        polar_pattern: "cardioid".to_string(),
        lighting_available: true,
        effect: "wave".to_string(),
        target: "all".to_string(),
        brightness: 100,
        speed: 75,
        opacity: 25,
        live_when_muted: true,
    }
}

#[test]
fn state_messages_cover_every_value() {
    let t = topics();
    let messages = state_messages(&t, &snapshot(), false);
    assert_eq!(messages.len(), 16);
    assert_eq!(messages[0].topic, "hyperx_mic_lite/quadcast_s/state/availability");
    assert_eq!(messages[0].payload, "online");
    assert!(messages[0].retain);
    assert_eq!(messages[3].topic, "hyperx_mic_lite/quadcast_s/state/mute");
    assert_eq!(messages[3].payload, "OFF");
    assert!(!messages[3].retain);
    assert_eq!(messages[4].payload, "55");
    assert_eq!(messages[7].topic, "hyperx_mic_lite/quadcast_s/state/input_level");
    assert_eq!(messages[7].payload, "12.5");
    assert!(!messages[7].retain);
    assert_eq!(messages[15].payload, "ON");
    let retained = state_messages(&t, &snapshot(), true);
    assert!(retained[3].retain);
    assert!(!retained[7].retain);
}

#[test]
fn published_state_reads_back_as_the_same_command() {
    let t = topics();
    let messages = state_messages(&t, &snapshot(), true);
    let find = |key: &str| {
        let topic = t.state(key);
        messages.iter().find(|m| m.topic == topic).map(|m| m.payload.clone()).unwrap()
    };
    assert_eq!(command("mute", &find("mute")), Some(MqttCommand::SetMute(false)));
    assert_eq!(command("mic_volume", &find("mic_volume")), Some(MqttCommand::SetMicVolume(55)));
    assert_eq!(command("brightness", &find("brightness")), Some(MqttCommand::SetBrightness(100)));
    assert_eq!(command("effect", &find("effect")), Some(MqttCommand::SetEffect(Effect::Wave)));
    assert_eq!(command("target", &find("target")), Some(MqttCommand::SetTarget(LightTarget::All)));
    assert_eq!(
        command("live_when_muted", &find("live_when_muted")),
        Some(MqttCommand::SetLiveWhenMuted(true))
    );
}

#[test]
fn discovery_announces_every_entity() {
    let t = topics();
    let definitions = discovery_definitions(&t);
    assert_eq!(definitions.len(), 17);
    let (topic, doc) = &definitions[0];
    assert_eq!(topic, "homeassistant/switch/hyperx_mic_lite_mute/config");
    assert_eq!(text_member(doc, "name").as_deref(), Some("Microphone Muted"));
    assert_eq!(text_member(doc, "unique_id").as_deref(), Some("hyperx_mic_lite_mute"));
    assert_eq!(
        text_member(doc, "availability_topic").as_deref(),
        Some("hyperx_mic_lite/quadcast_s/status")
    );
    assert_eq!(text_member(doc, "icon").as_deref(), Some("mdi:microphone"));
    assert_eq!(
        text_member(doc, "command_topic").as_deref(),
        Some("hyperx_mic_lite/quadcast_s/command/mute")
    );
    assert_eq!(text_member(doc, "payload_on").as_deref(), Some("ON"));

    let (topic, doc) = &definitions[2];
    assert_eq!(topic, "homeassistant/switch/hyperx_mic_lite_lighting_available/config");
    assert!(doc.get("command_topic").is_none());

    let (topic, doc) = &definitions[3];
    assert_eq!(topic, "homeassistant/number/hyperx_mic_lite_mic_volume/config");
    assert!(matches!(doc.get("max"), Some(JsonValue::Number(n)) if n == "100"));
    assert_eq!(text_member(doc, "mode").as_deref(), Some("slider"));

    let (_, doc) = &definitions[9];
    assert_eq!(text_member(doc, "unit_of_measurement").as_deref(), Some("%"));
    let (_, doc) = &definitions[10];
    assert!(doc.get("unit_of_measurement").is_none());

    let (topic, doc) = &definitions[12];
    assert_eq!(topic, "homeassistant/select/hyperx_mic_lite_effect/config");
    assert_eq!(text_member(doc, "icon").as_deref(), Some("mdi:form-select"));
    match doc.get("options") {
        Some(JsonValue::Array(items)) => assert_eq!(items.len(), 7),
        _ => panic!("options expected"),
    }

    let (topic, doc) = &definitions[16];
    assert_eq!(topic, "homeassistant/button/hyperx_mic_lite_save/config");
    assert_eq!(text_member(doc, "name").as_deref(), Some("Save Lighting To Mic"));
    assert!(doc.get("state_topic").is_none());
}

#[test]
fn connection_plan_follows_the_configuration() {
    let config = MqttConfig::default();
    assert!(mqtt_connection_plan(&config).is_none());

    let mut config = MqttConfig::default();
    config.enabled = true;
    config.username = Some(String::new());
    config.base_topic = " /home/mic/ ".to_string();
    let plan = mqtt_connection_plan(&config).expect("enabled");
    assert!(plan.credentials.is_none());
    assert_eq!(plan.url, "mqtt://localhost:1883?client_id=hyperx-mic-lite");
    assert_eq!(plan.topics.base, "home/mic");
    assert_eq!(plan.last_will_topic, "home/mic/status");
    assert_eq!(plan.last_will_payload, "offline");
    assert_eq!(plan.qos, Qos::AtLeastOnce);

    config.username = Some("user".to_string());
    let plan = mqtt_connection_plan(&config).expect("enabled");
    assert_eq!(plan.credentials, Some(("user".to_string(), String::new())));
    config.password = Some("SECRET-REDACTED".to_string());
    let plan = mqtt_connection_plan(&config).expect("enabled");
    assert_eq!(plan.credentials, Some(("user".to_string(), "SECRET-REDACTED".to_string())));
}

#[test]
fn state_document_lists_the_snapshot_in_order() {
    let doc = state_document(&snapshot(), "12.5".to_string());
    let members = match doc {
        JsonValue::Object(members) => members,
        _ => panic!("an object expected"),
    };
    let keys: Vec<&str> = members.iter().map(|(k, _)| k.as_str()).collect();
    assert_eq!(
        keys,
        vec![
            "available", "device_name", "device_state", "muted", "mic_volume", "mic_monitoring",
            "headphone_volume", "input_level_percent", "polar_pattern", "lighting_available",
            "effect", "target", "brightness", "speed", "opacity", "live_when_muted",
        ]
    );
    assert!(matches!(&members[0].1, JsonValue::Bool(true)));
    assert!(matches!(&members[1].1, JsonValue::Str(s) if s == "HyperX QuadCast S"));
    assert!(matches!(&members[4].1, JsonValue::Number(n) if n == "55"));
    assert!(matches!(&members[6].1, JsonValue::Number(n) if n == "5"));
    assert!(matches!(&members[7].1, JsonValue::Number(n) if n == "12.5"));
    assert!(matches!(&members[12].1, JsonValue::Number(n) if n == "100"));
    assert!(matches!(&members[15].1, JsonValue::Bool(true)));
}

#[test]
fn discovery_is_published_retained_at_the_connection_qos() {
    let t = MqttTopics { base: "h/q".to_string(), discovery_prefix: "ha".to_string() };
    let messages = discovery_messages(&t, Qos::AtLeastOnce);
    assert_eq!(messages.len(), 17);
    for message in &messages {
        assert!(message.retain);
        assert_eq!(message.qos, Qos::AtLeastOnce);
    }
    let first = &messages[0];
    assert_eq!(first.topic, "ha/switch/hyperx_mic_lite_mute/config");
    assert_eq!(text_member(&first.document, "state_topic").as_deref(), Some("h/q/state/mute"));
    assert_eq!(text_member(&first.document, "command_topic").as_deref(), Some("h/q/command/mute"));
    assert_eq!(text_member(&first.document, "availability_topic").as_deref(), Some("h/q/status"));
    let lighting = messages
        .iter()
        .find(|m| m.topic == "ha/switch/hyperx_mic_lite_lighting_available/config")
        .expect("the lighting availability switch");
    assert!(lighting.document.get("command_topic").is_none());
    let definitions = discovery_definitions(&t);
    for (message, (topic, _)) in messages.iter().zip(definitions.iter()) {
        assert_eq!(&message.topic, topic);
    }
    assert_eq!(discovery_messages(&t, Qos::ExactlyOnce)[5].qos, Qos::ExactlyOnce);
}
