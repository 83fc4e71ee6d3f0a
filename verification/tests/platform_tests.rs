use hyperx_mic_lite::audio::{
    is_expected_hyperx_device_name, json_escape, parse_on_off_arg, parse_percent_arg,
    state_name, AudioClassControl, DataFlow,
};
use hyperx_mic_lite::config::AppConfig;
use hyperx_mic_lite::lighting_cli::{
    continue_stream, log_hid_packet_attempt, parse_stream_duration, program_from_config, solid_program,
    solid_seconds_arg, split_packet_log_flag, StreamDuration,
};
use hyperx_mic_lite::logging::{
    event_id_for, event_log_message, event_log_type, log_timestamp, should_write_event_log,
    timestamp_text, EventLogType, EVENTLOG_MESSAGE_ID,
};
use hyperx_mic_lite::model::{Effect, LightTarget};
use hyperx_mic_lite::paths::{
    app_data_dir, config_dir, config_path, default_diagnostics_dir, join_path, log_file_path,
    service_health_path,
};
use hyperx_mic_lite::json::JsonValue;
use hyperx_mic_lite::service::{
    registry_admin_error, restore_service_settings, service_control_reply, service_ownership_plan,
    service_state_label, update_service_config, windows_service_error, RestorePlan,
    ServiceControl, ServiceHealth, ServiceReply, ServiceRunState,
};
use hyperx_mic_lite::tray::{app_icon_bitmaps, copy_wide_into, wide_null, TrayHandle};

#[test]
fn audio_controls_by_name() {
    assert_eq!(AudioClassControl::parse("MIC"), Some(AudioClassControl::Mic));
    assert_eq!(AudioClassControl::parse("sidetone"), Some(AudioClassControl::Monitoring));
    assert_eq!(AudioClassControl::parse("Headphones"), Some(AudioClassControl::Headphone));
    assert_eq!(AudioClassControl::parse("speaker"), None);
    assert_eq!(AudioClassControl::Monitoring.label(), "monitoring");
    assert_eq!(AudioClassControl::Mic.volume_part_id(), 0x20008);
    assert_eq!(AudioClassControl::Headphone.volume_part_id(), 0x20006);
    assert_eq!(AudioClassControl::Monitoring.mute_part_id(), 0x20009);
    assert_eq!(AudioClassControl::Headphone.mute_part_id(), 0x20005);
    assert_eq!(AudioClassControl::Headphone.endpoint_flow(), DataFlow::Render);
    assert_eq!(AudioClassControl::Mic.endpoint_flow(), DataFlow::Capture);
    assert_eq!(AudioClassControl::Monitoring.endpoint_flow(), DataFlow::Capture);
}

#[test]
fn audio_arguments() {
    assert_eq!(parse_percent_arg("100"), Ok(100));
    assert_eq!(parse_percent_arg("101"), Err("Percent must be a number from 0 to 100.".to_string()));
    assert_eq!(parse_percent_arg("x"), Err("Percent must be a number from 0 to 100.".to_string()));
    assert_eq!(parse_on_off_arg("Muted"), Ok(true));
    assert_eq!(parse_on_off_arg("unmuted"), Ok(false));
    assert_eq!(parse_on_off_arg("yes"), Err("Mute value must be on/off or true/false.".to_string()));
}

#[test]
fn endpoint_names_and_states() {
    assert_eq!(state_name(1), "active");
    assert_eq!(state_name(8), "unplugged");
    assert_eq!(state_name(3), "unknown_3");
    assert!(is_expected_hyperx_device_name("Microphone (HyperX QuadCast S)"));
    assert!(is_expected_hyperx_device_name("KINGSTON mic"));
    assert!(!is_expected_hyperx_device_name("Realtek Audio"));
}

#[test]
fn json_escaping() {
    assert_eq!(json_escape("plain"), "plain");
    assert_eq!(json_escape("a\"b\\c"), "a\\\"b\\\\c");
    assert_eq!(json_escape("\n\r\t"), "\\n\\r\\t");
    assert_eq!(json_escape("\u{1}\u{7f}"), "\\u0001\\u007f");
    assert_eq!(json_escape("é"), "é");
}

#[test]
fn event_log_routing() {
    assert!(should_write_event_log("warn", "x"));
    assert!(should_write_event_log("error", "x"));
    assert!(should_write_event_log("info", "gui.exit"));
    assert!(!should_write_event_log("info", "config.save"));
    assert_eq!(event_id_for("anything"), EVENTLOG_MESSAGE_ID);
    assert_eq!(event_log_type("error"), EventLogType::Error);
    assert_eq!(event_log_type("warn"), EventLogType::Warning);
    assert_eq!(event_log_type("debug"), EventLogType::Information);
    let message = event_log_message(
        "app.start",
        "info",
        42,
        "C:\\logs\\app.log",
        &[("mode", "gui".to_string()), ("version", "1".to_string())],
    );
    assert_eq!(
        message,
        "event=app.start\r\nlevel=info\r\npid=42\r\nlog_path=C:\\logs\\app.log\r\nmode=gui\r\nversion=1"
    );
    assert_eq!(timestamp_text(1700000000), "1700000000");
    assert_eq!(timestamp_text(0), "0");
    let now = log_timestamp();
    assert!(!now.is_empty() && now.chars().all(|c| c.is_ascii_digit()));
}

#[test]
fn application_paths() {
    let base = "C:\\Users\\me\\AppData\\Roaming";
    assert_eq!(app_data_dir(base), "C:\\Users\\me\\AppData\\Roaming\\HyperXMicLite");
    assert_eq!(config_dir(base), app_data_dir(base));
    assert_eq!(config_path(base), "C:\\Users\\me\\AppData\\Roaming\\HyperXMicLite\\config.json");
    assert_eq!(log_file_path(base), "C:\\Users\\me\\AppData\\Roaming\\HyperXMicLite\\logs\\app.log");
    assert_eq!(
        service_health_path(base),
        "C:\\Users\\me\\AppData\\Roaming\\HyperXMicLite\\service-health.json"
    );
    assert_eq!(
        default_diagnostics_dir(base, 17),
        "C:\\Users\\me\\AppData\\Roaming\\HyperXMicLite\\diagnostics\\diagnostics-17"
    );
    assert_eq!(join_path("C:\\data\\", "x"), "C:\\data\\x");
    assert_eq!(join_path("D:", "x"), "D:x");
    assert_eq!(join_path("", "x"), "x");
    assert_eq!(join_path(".", "x"), ".\\x");
}

#[test]
fn service_decisions() {
    let mut config = AppConfig::default();
    assert_eq!(restore_service_settings(&config), None);
    config.service.restore_on_startup = true;
    config.audio.mute_on_app_start = true;
    assert_eq!(
        restore_service_settings(&config),
        Some(RestorePlan { mic_volume: 50, muted: true })
    );
    update_service_config(&mut config, true);
    assert!(config.service.enabled);
    assert!(config.service.restore_on_startup);
    assert_eq!(config.audio.mic_volume, 50);
    assert_eq!(
        service_control_reply(ServiceControl::Stop),
        ServiceReply::NoError(true)
    );
    assert_eq!(
        service_control_reply(ServiceControl::Interrogate),
        ServiceReply::NoError(false)
    );
    assert_eq!(service_control_reply(ServiceControl::Other), ServiceReply::NotImplemented);
    assert_eq!(
        registry_admin_error(Some(5), "denied"),
        "Access denied. Run this command from an elevated terminal."
    );
    assert_eq!(registry_admin_error(Some(2), "not found"), "not found");
    assert_eq!(windows_service_error(true, Some(1060), "x"), "HyperX Mic Lite is not installed.");
    assert_eq!(windows_service_error(false, Some(5), "other"), "other");
}

#[test]
fn service_health_record() {
    let mut health = ServiceHealth::new("starting", 7, "100".to_string());
    assert_eq!(health.service_name, "HyperXMicLite");
    assert_eq!(health.heartbeat_count, 0);
    health.record_restore(Err("no device".to_string()), "101".to_string());
    assert_eq!(health.last_error.as_deref(), Some("no device"));
    assert_eq!(health.last_restore, None);
    health.record_restore(Ok(()), "102".to_string());
    assert_eq!(health.last_restore.as_deref(), Some("102"));
    health.enter_state("running", "103".to_string());
    health.heartbeat("104".to_string());
    health.heartbeat("105".to_string());
    assert_eq!(health.state, "running");
    assert_eq!(health.heartbeat_count, 2);
    assert_eq!(health.updated_at, "105");
}

#[test]
fn tray_requests_are_taken_once() {
    let mut tray = TrayHandle::new();
    assert!(!tray.show_requested());
    tray.request_show();
    tray.request_exit();
    assert!(tray.show_requested());
    assert!(!tray.show_requested());
    assert!(tray.exit_requested());
    assert!(!tray.exit_requested());
}

#[test]
fn wide_strings() {
    assert_eq!(wide_null("A\u{1F600}"), vec![0x41, 0xD83D, 0xDE00, 0]);
    assert_eq!(wide_null(""), vec![0]);
    let mut buffer = [9u16; 4];
    copy_wide_into(&mut buffer, "abcdef");
    assert_eq!(buffer, [0x61, 0x62, 0x63, 9]);
    let mut buffer = [9u16; 4];
    copy_wide_into(&mut buffer, "z");
    assert_eq!(buffer, [0x7a, 9, 9, 9]);
    let mut empty: [u16; 0] = [];
    copy_wide_into(&mut empty, "abc");
}

#[test]
fn lighting_command_arguments() {
    let args = vec!["ff0066".to_string(), "--packet-log".to_string(), "5".to_string()];
    let (rest, packet_log) = split_packet_log_flag(&args);
    assert_eq!(rest, vec!["ff0066", "5"]);
    assert!(packet_log);
    let args = vec!["wave".to_string()];
    let (rest, packet_log) = split_packet_log_flag(&args);
    assert_eq!(rest, vec!["wave"]);
    assert!(!packet_log);
    assert_eq!(parse_stream_duration("FOREVER"), Ok(StreamDuration::Forever));
    assert_eq!(parse_stream_duration("0"), Ok(StreamDuration::Timed(1)));
    assert_eq!(parse_stream_duration("500"), Ok(StreamDuration::Timed(120)));
    assert_eq!(parse_stream_duration("30"), Ok(StreamDuration::Timed(30)));
    assert_eq!(
        parse_stream_duration("soon"),
        Err("Duration must be seconds or 'forever'.".to_string())
    );
    assert_eq!(solid_seconds_arg(None), Ok(3));
    assert_eq!(solid_seconds_arg(Some("100")), Ok(60));
    assert_eq!(
        solid_seconds_arg(Some("-1")),
        Err("Duration must be a whole number of seconds.".to_string())
    );
}

#[test]
fn lighting_programs() {
    let solid = solid_program([1, 2, 3]);
    assert_eq!(solid.colors, vec![[1, 2, 3]]);
    assert_eq!(solid.brightness, 100);
    let mut config = AppConfig::default();
    config.lighting.colors = vec!["#ff0000".to_string(), "bad".to_string(), "0000ff".to_string()];
    config.lighting.target = "top".to_string();
    let program = program_from_config(Effect::Pulse, &config.lighting);
    assert_eq!(program.effect, Effect::Pulse);
    assert_eq!(program.target, LightTarget::Top);
    assert_eq!(program.top_effect, Effect::Solid);
    assert_eq!(program.bottom_effect, Effect::Blink);
    assert_eq!(program.colors, vec![[255, 0, 0], [0, 0, 255]]);
    config.lighting.colors = vec!["nope".to_string()];
    let program = program_from_config(Effect::Wave, &config.lighting);
    assert_eq!(program.colors, vec![[0, 255, 0]]);
}

#[test]
fn hid_packet_log_records() {
    let packet = [0u8; 64];
    assert!(log_hid_packet_attempt(false, "feature", true, &packet, None).is_none());
    let fields = log_hid_packet_attempt(true, "feature+id", false, &packet, Some("pipe".to_string()))
        .expect("enabled");
    assert_eq!(fields.len(), 4);
    assert_eq!(fields[0], ("transport".to_string(), "feature+id".to_string()));
    assert_eq!(fields[1], ("success".to_string(), "false".to_string()));
    assert_eq!(fields[2].1.len(), 64 * 3 - 1);
    assert_eq!(fields[3], ("error".to_string(), "pipe".to_string()));
}

#[test]
fn service_states_by_name() {
    assert_eq!(service_state_label(ServiceRunState::Stopped), "stopped");
    assert_eq!(service_state_label(ServiceRunState::StartPending), "start_pending");
    assert_eq!(service_state_label(ServiceRunState::StopPending), "stop_pending");
    assert_eq!(service_state_label(ServiceRunState::Running), "running");
    assert_eq!(service_state_label(ServiceRunState::ContinuePending), "continue_pending");
    assert_eq!(service_state_label(ServiceRunState::PausePending), "pause_pending");
    assert_eq!(service_state_label(ServiceRunState::Paused), "paused");
}

#[test]
fn ownership_plan_shows_the_configured_flags() {
    let mut config = AppConfig::default();
    config.service.enabled = true;
    config.service.owns_lighting_loop = true;
    let plan = service_ownership_plan(&config.service);
    let members = match plan {
        JsonValue::Object(members) => members,
        _ => panic!("an object expected"),
    };
    let keys: Vec<&str> = members.iter().map(|(k, _)| k.as_str()).collect();
    assert_eq!(
        keys,
        vec![
            "service_owns_now",
            "user_session_owns_now",
            "planned_service_candidates",
            "current_flags",
            "decision"
        ]
    );
    match &members[0].1 {
        JsonValue::Array(items) => {
            assert_eq!(items.len(), 4);
            match &items[2] {
                JsonValue::Str(text) => assert_eq!(text, "service health heartbeat"),
                _ => panic!("a string expected"),
            }
        }
        _ => panic!("an array expected"),
    }
    match &members[2].1 {
        JsonValue::Array(items) => assert_eq!(items.len(), 3),
        _ => panic!("an array expected"),
    }
    match &members[3].1 {
        JsonValue::Object(flags) => {
            let flags: Vec<(&str, bool)> = flags
                .iter()
                .map(|(k, v)| match v {
                    JsonValue::Bool(b) => (k.as_str(), *b),
                    _ => panic!("a flag expected"),
                })
                .collect();
            assert_eq!(
                flags,
                vec![
                    ("enabled", true),
                    ("restore_on_startup", config.service.restore_on_startup),
                    ("owns_startup_restore", config.service.owns_startup_restore),
                    ("owns_lighting_loop", true),
                    ("owns_hid_monitoring", config.service.owns_hid_monitoring),
                    ("owns_tray_handoff", config.service.owns_tray_handoff),
                ]
            );
        }
        _ => panic!("an object expected"),
    }
    match &members[4].1 {
        JsonValue::Str(text) => assert!(text.starts_with("Keep the Windows service small")),
        _ => panic!("a string expected"),
    }
}

#[test]
fn streams_stop_when_cancelled_or_timed_out() {
    assert!(continue_stream(StreamDuration::Timed(3), 2_999, false));
    assert!(!continue_stream(StreamDuration::Timed(3), 3_000, false));
    assert!(!continue_stream(StreamDuration::Timed(0), 0, false));
    assert!(continue_stream(StreamDuration::Forever, u64::MAX, false));
    assert!(!continue_stream(StreamDuration::Forever, 0, true));
    assert!(!continue_stream(StreamDuration::Timed(u64::MAX), 0, true));
    assert!(continue_stream(StreamDuration::Timed(u64::MAX), u64::MAX, false));
}

/// The icon drawn in floating point, pixel by pixel, as the tray draws it.
fn icon_in_f32() -> (Vec<u8>, Vec<u8>) {
    const SIZE: usize = 32;
    let mut xor = vec![0u8; SIZE * SIZE * 4];
    let mut and = vec![0xffu8; (SIZE / 8) * SIZE];
    let mut plot = |x: usize, y: usize, r: u8, g: u8, b: u8| {
        let row = SIZE - 1 - y;
        let idx = (row * SIZE + x) * 4;
        xor[idx] = b;
        xor[idx + 1] = g;
        xor[idx + 2] = r;
        xor[idx + 3] = 255;
        let byte = row * (SIZE / 8) + x / 8;
        and[byte] &= !(0x80u8 >> (x % 8));
    };
    let rounded = |x: usize, y: usize, x0: usize, y0: usize, x1: usize, y1: usize, rad: f32| {
        if x < x0 || x > x1 || y < y0 || y > y1 {
            return false;
        }
        let cxl = x0 as f32 + rad;
        let cxr = x1 as f32 - rad;
        let cyt = y0 as f32 + rad;
        let cyb = y1 as f32 - rad;
        let dx = (cxl - x as f32).max(0.0).max(x as f32 - cxr);
        let dy = (cyt - y as f32).max(0.0).max(y as f32 - cyb);
        dx * dx + dy * dy <= rad * rad + 0.5
    };
    for y in 0..SIZE {
        for x in 0..SIZE {
            if rounded(x, y, 11, 3, 20, 19, 4.5) {
                let t = ((y as f32 - 3.0) / 16.0).clamp(0.0, 1.0);
                let g = (32.0 * (1.0 - t)) as u8;
                let b = (16.0 + 138.0 * t) as u8;
                plot(x, y, 255, g, b);
            } else if (15..=16).contains(&x) && (19..=24).contains(&y) {
                plot(x, y, 210, 214, 218);
            } else if rounded(x, y, 9, 25, 22, 27, 2.0) {
                plot(x, y, 210, 214, 218);
            }
        }
    }
    (xor, and)
}

#[test]
fn tray_icon_bitmaps() {
    let (colors, mask) = app_icon_bitmaps();
    let (expected_colors, expected_mask) = icon_in_f32();
    assert_eq!(colors.len(), 4096);
    assert_eq!(mask.len(), 128);
    assert_eq!(colors, expected_colors);
    assert_eq!(mask, expected_mask);
    // top row is transparent; the capsule's top-left pixel at (15, 3) is red
    assert_eq!(&mask[124..128], &[0xff, 0xff, 0xff, 0xff]);
    let idx = ((31 - 3) * 32 + 15) * 4;
    assert_eq!(&colors[idx..idx + 4], &[16, 32, 255, 255]);
}
