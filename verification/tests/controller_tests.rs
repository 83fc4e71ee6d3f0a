use hyperx_mic_lite::config::{AppConfig, DeviceConfig, ServiceConfig};
use hyperx_mic_lite::controller::{
    ControllerAction, LightingUiEvent, MicController, MicStatusView, NoticeSeverity,
};
use hyperx_mic_lite::hid::{
    attempt_error, interface_label, join_errors, monitor_error_line, monitor_report_line,
    monitor_volume_line, send_attempt_name, send_attempts, with_report_id, LightingCandidate,
};
use hyperx_mic_lite::json::{object_insert, JsonValue};
use hyperx_mic_lite::logging::log_record;
use hyperx_mic_lite::model::{Effect, HidEvent, LightTarget, PolarPattern, Tab};
use hyperx_mic_lite::mqtt::MqttCommand;

fn controller() -> MicController {
    MicController::new(AppConfig::default())
}

fn status(name: &str, state: &str, muted: bool) -> MicStatusView {
    MicStatusView { name: name.to_string(), state: state.to_string(), volume: 42, muted }
}

fn stored_sections() -> (ServiceConfig, DeviceConfig) {
    let stored = AppConfig::default();
    (stored.service, stored.device)
}

#[test]
fn controller_starts_from_the_configuration() {
    let c = controller();
    assert_eq!(c.tab, Tab::Audio);
    assert_eq!(c.mic_volume, 50);
    assert_eq!(c.polar_pattern, PolarPattern::Unknown(255));
    assert_eq!(c.lighting.effect, Effect::Wave);
    assert_eq!(c.lighting.colors.len(), 7);
    assert_eq!(c.lighting.colors[0], [0xff, 0x20, 0x10]);
    assert!(c.startup_actions().is_empty());

    let mut config = AppConfig::default();
    config.lighting.colors = vec!["bad".to_string()];
    config.lighting.selected_color = 3;
    config.audio.mute_on_app_start = true;
    let c = MicController::new(config);
    assert_eq!(c.lighting.colors.len(), 7);
    assert_eq!(c.lighting.selected_color, 3);
    assert_eq!(c.startup_actions(), vec![ControllerAction::SetMute(true)]);

    let mut config = AppConfig::default();
    config.lighting.colors = vec!["#010203".to_string()];
    config.lighting.selected_color = 3;
    let c = MicController::new(config);
    assert_eq!(c.lighting.colors, vec![[1, 2, 3]]);
    assert_eq!(c.lighting.selected_color, 0);
}

#[test]
fn mqtt_commands_change_the_state_and_ask_for_work() {
    let mut c = controller();
    assert_eq!(
        c.apply_mqtt_command(MqttCommand::SetMicVolume(30)),
        vec![ControllerAction::ApplyMicVolume(30), ControllerAction::SaveConfig, ControllerAction::PublishState]
    );
    assert_eq!(c.mic_volume, 30);
    assert_eq!(
        c.apply_mqtt_command(MqttCommand::SetEffect(Effect::Blink)),
        vec![ControllerAction::SaveConfig, ControllerAction::ApplyLighting, ControllerAction::PublishState]
    );
    assert_eq!(c.lighting.effect, Effect::Blink);
    c.record_status(Ok(status("HyperX QuadCast S", "active", true)));
    assert_eq!(c.mic_volume, 42);
    assert_eq!(
        c.apply_mqtt_command(MqttCommand::ToggleMute),
        vec![ControllerAction::SetMute(false), ControllerAction::PublishState]
    );
    c.lighting_stream_active = true;
    assert_eq!(
        c.apply_mqtt_command(MqttCommand::StopLighting),
        vec![ControllerAction::StopLighting, ControllerAction::PublishState]
    );
    assert!(!c.lighting_stream_active);
    let notice = c.lighting_notice.as_ref().unwrap();
    assert_eq!(notice.severity, NoticeSeverity::Info);
    assert_eq!(notice.message, "Lighting stream stopped from MQTT.");
}

#[test]
fn hardware_buttons() {
    let mut c = controller();
    assert_eq!(
        c.apply_hid_event(HidEvent::Mute(false)),
        vec![ControllerAction::SetMute(true), ControllerAction::ShowLiveMuteColor(false)]
    );
    assert!(c.hid_muted);
    assert!(c.is_muted());
    c.lighting_stream_active = true;
    assert_eq!(c.apply_hid_event(HidEvent::Mute(true)), vec![ControllerAction::SetMute(false)]);
    assert_eq!(
        c.apply_hid_event(HidEvent::Pattern(PolarPattern::Omni)),
        vec![ControllerAction::SaveConfig]
    );
    assert_eq!(c.polar_pattern, PolarPattern::Omni);
}

#[test]
fn lighting_program_for_apply() {
    let mut c = controller();
    assert!(c.lighting_program().is_none());
    assert_eq!(
        c.lighting_notice.as_ref().unwrap().message,
        "Lighting controller not detected. Connect the QuadCast S and close NGENUITY."
    );
    c.lighting_device_present = true;
    let program = c.lighting_program().unwrap();
    assert_eq!(program.colors.len(), 7);
    assert_eq!(c.lighting_notice.as_ref().unwrap().message, "Applying Wave lighting.");
    assert!(c.lighting_stream_active);
    c.lighting.effect = Effect::Solid;
    c.lighting.selected_color = 2;
    let program = c.lighting_program().unwrap();
    assert_eq!(program.colors, vec![[0x5d, 0x18, 0xff]]);
    c.lighting.selected_color = 99;
    assert_eq!(c.lighting_program().unwrap().colors, vec![[0, 255, 0]]);
}

#[test]
fn device_notices() {
    let mut c = controller();
    let notices = c.device_status_notices();
    let messages: Vec<&str> = notices.iter().map(|n| n.message.as_str()).collect();
    assert_eq!(
        messages,
        vec![
            "Microphone unavailable.",
            "Lighting HID not detected; effects and persistent save are unavailable.",
            "Input meter unavailable; capture level monitoring is unsupported or busy."
        ]
    );
    c.lighting_device_present = true;
    c.input_monitor_present = true;
    c.record_status(Ok(status("HyperX QuadCast S", "active", false)));
    let notices = c.device_status_notices();
    assert_eq!(notices.len(), 1);
    assert_eq!(notices[0].severity, NoticeSeverity::Good);
    c.record_status(Ok(status("Realtek", "active", false)));
    assert_eq!(c.device_status_notices()[0].message, "Default input is not QuadCast S: Realtek");
    c.record_status(Ok(status("HyperX", "unplugged", false)));
    assert_eq!(c.device_status_notices()[0].message, "Microphone is unplugged: HyperX");
}

#[test]
fn snapshots_of_the_state() {
    let mut c = controller();
    c.record_status(Err("no endpoint".to_string()));
    let snapshot = c.mqtt_state_snapshot("3.5".to_string());
    assert!(!snapshot.available);
    assert_eq!(snapshot.device_name, "Unavailable");
    assert_eq!(snapshot.device_state, "no endpoint");
    assert_eq!(snapshot.effect, "wave");
    assert_eq!(snapshot.input_level, "3.5");
    c.lighting.target = LightTarget::Top;
    c.tab = Tab::Lights;
    let (service, device) = stored_sections();
    let config = c.current_config_snapshot(service, device);
    assert_eq!(config.lighting.target, "top");
    assert_eq!(config.ui.selected_tab, "lights");
    assert_eq!(config.lighting.colors[0], "#ff2010");
    assert_eq!(config.ui.last_polar_pattern, "unknown");
    assert!(config.validate().is_ok());
}

#[test]
fn hid_labels_and_attempts() {
    let c = LightingCandidate { vendor_id: 0x0951, product_id: 0x171f, interface_number: -1, usage_page: 0xff90, usage: 0xff00 };
    assert_eq!(interface_label(&c), "0951:171f if-1 ff90:ff00");
    assert_eq!(
        monitor_report_line(5, "lbl", &[0x05, 0x10, 0x01]),
        "     5ms lbl 05 10 01 mute=live/unmuted"
    );
    assert_eq!(monitor_report_line(1234567, "x", &[0xab]), "1234567ms x ab");
    assert_eq!(monitor_error_line(12, "x", "gone"), "    12ms x read-error: gone");
    assert_eq!(monitor_volume_line(0, 55), "     0ms core-audio mic-volume=55");
    let names: Vec<&str> = send_attempts().into_iter().map(send_attempt_name).collect();
    assert_eq!(names, vec!["feature+id", "feature", "output+id", "output"]);
    assert_eq!(attempt_error(send_attempts()[3], "pipe"), "output: pipe");
    assert_eq!(join_errors(&vec!["a".to_string(), "b".to_string()]), "a; b");
    assert_eq!(join_errors(&vec![]), "");
    let mut packet = [0u8; 64];
    packet[0] = 7;
    packet[63] = 9;
    let framed = with_report_id(&packet);
    assert_eq!(framed[0], 0);
    assert_eq!(framed[1], 7);
    assert_eq!(framed[64], 9);
}

#[test]
fn log_records_and_member_insertion() {
    let record = log_record("17", "info", "app.start", 9, &[("args", "gui".to_string()), ("level", "x".to_string())]);
    match record {
        JsonValue::Object(members) => {
            let keys: Vec<&str> = members.iter().map(|(k, _)| k.as_str()).collect();
            assert_eq!(keys, vec!["ts", "level", "event", "pid", "args"]);
            assert!(matches!(&members[1].1, JsonValue::Str(s) if s == "x"));
            assert!(matches!(&members[3].1, JsonValue::Number(n) if n == "9"));
        }
        _ => panic!("a record is an object"),
    }
    let mut members = vec![("a".to_string(), JsonValue::Null)];
    object_insert(&mut members, "b".to_string(), JsonValue::Bool(true));
    object_insert(&mut members, "a".to_string(), JsonValue::Bool(false));
    assert_eq!(members.len(), 2);
    assert!(matches!(members[0].1, JsonValue::Bool(false)));
}

#[test]
fn mqtt_settings_are_tidied_before_saving() {
    let mut c = controller();
    c.mqtt_config.url = "  mqtt://broker:1883 \n".to_string();
    c.mqtt_config.client_id = " desk ".to_string();
    c.mqtt_config.base_topic = " /home/mic/ ".to_string();
    c.mqtt_config.discovery_prefix = "//homeassistant/".to_string();
    c.mqtt_config.username = Some("  ".to_string());
    c.mqtt_config.password = Some(String::new());
    c.mqtt_config.qos = 7;
    c.mqtt_config.keep_alive_secs = 1;
    c.normalize_mqtt_config();
    assert_eq!(c.mqtt_config.url, "mqtt://broker:1883");
    assert_eq!(c.mqtt_config.client_id, "desk");
    assert_eq!(c.mqtt_config.base_topic, "home/mic");
    assert_eq!(c.mqtt_config.discovery_prefix, "homeassistant");
    assert_eq!(c.mqtt_config.username, None);
    assert_eq!(c.mqtt_config.password, None);
    assert_eq!(c.mqtt_config.qos, 2);
    assert_eq!(c.mqtt_config.keep_alive_secs, 5);

    c.mqtt_config.username = Some(" alice ".to_string());
    c.mqtt_config.password = Some(" secret ".to_string());
    c.mqtt_config.qos = 1;
    c.mqtt_config.keep_alive_secs = 86_400;
    c.normalize_mqtt_config();
    assert_eq!(c.mqtt_config.username.as_deref(), Some("alice"));
    assert_eq!(c.mqtt_config.password.as_deref(), Some(" secret "));
    assert_eq!(c.mqtt_config.qos, 1);
    assert_eq!(c.mqtt_config.keep_alive_secs, 3600);

    c.mqtt_config.keep_alive_secs = 60;
    c.normalize_mqtt_config();
    assert_eq!(c.mqtt_config.keep_alive_secs, 60);
}

#[test]
fn finished_lighting_jobs_leave_a_notice() {
    let mut c = controller();
    let cases = vec![
        (LightingUiEvent::Applied, NoticeSeverity::Good, "Lighting stream is running."),
        (
            LightingUiEvent::ApplyFailed("busy".to_string()),
            NoticeSeverity::Error,
            "Lighting write failed: busy",
        ),
        (LightingUiEvent::Saved, NoticeSeverity::Good, "Lighting saved to microphone memory."),
        (
            LightingUiEvent::SaveFailed("no device".to_string()),
            NoticeSeverity::Error,
            "Persistent save failed: no device",
        ),
    ];
    for (event, severity, message) in cases {
        c.record_lighting_event(event);
        let notice = c.lighting_notice.as_ref().expect("a notice");
        assert_eq!(notice.severity, severity);
        assert_eq!(notice.message, message);
    }
}

#[test]
fn saving_lighting_needs_the_controller() {
    let mut c = controller();
    assert!(!c.save_lighting_to_microphone());
    let notice = c.lighting_notice.as_ref().expect("a notice");
    assert_eq!(notice.severity, NoticeSeverity::Warning);
    assert_eq!(notice.message, "Lighting controller not detected. Persistent save is unavailable.");
    c.lighting_device_present = true;
    assert!(c.save_lighting_to_microphone());
    let notice = c.lighting_notice.as_ref().expect("a notice");
    assert_eq!(notice.severity, NoticeSeverity::Info);
    assert_eq!(notice.message, "Saving lighting to microphone memory.");
}

#[test]
fn live_state_switch_shows_the_state_at_once() {
    let mut c = controller();
    assert_eq!(c.set_live_when_muted(true), vec![ControllerAction::SaveConfig]);
    assert!(c.lighting.live_when_muted);
    c.record_status(Ok(status("Microphone (HyperX QuadCast S)", "active", true)));
    assert_eq!(
        c.set_live_when_muted(true),
        vec![ControllerAction::SaveConfig, ControllerAction::ShowLiveMuteColor(false)]
    );
    assert_eq!(c.set_live_when_muted(false), vec![ControllerAction::SaveConfig]);
    assert!(!c.lighting.live_when_muted);
    c.lighting_stream_active = true;
    assert_eq!(c.set_live_when_muted(true), vec![ControllerAction::SaveConfig]);
}
