use hyperx_mic_lite::json_text::to_json_text;
use hyperx_mic_lite::config::{AppConfig, ConfigError, CONFIG_SCHEMA_VERSION};
use hyperx_mic_lite::config::{validate_percent, validate_rgb_hex, validate_topic_prefix};
use hyperx_mic_lite::config_doc::{default_config_json, migrate_config_value};
use hyperx_mic_lite::json::{is_well_formed, redact_json_value, JsonValue};

fn text(s: &str) -> JsonValue {
    JsonValue::Str(s.to_string())
}

fn number(s: &str) -> JsonValue {
    JsonValue::Number(s.to_string())
}

fn object(members: Vec<(&str, JsonValue)>) -> JsonValue {
    JsonValue::Object(members.into_iter().map(|(k, v)| (k.to_string(), v)).collect())
}

fn at<'a>(value: &'a JsonValue, path: &[&str]) -> Option<&'a JsonValue> {
    let mut current = value;
    for key in path {
        current = current.get(key)?;
    }
    Some(current)
}

fn str_at(value: &JsonValue, path: &[&str]) -> Option<String> {
    match at(value, path)? {
        JsonValue::Str(s) => Some(s.clone()),
        _ => None,
    }
}

fn number_at(value: &JsonValue, path: &[&str]) -> Option<String> {
    match at(value, path)? {
        JsonValue::Number(s) => Some(s.clone()),
        _ => None,
    }
}

fn bool_at(value: &JsonValue, path: &[&str]) -> Option<bool> {
    match at(value, path)? {
        JsonValue::Bool(b) => Some(*b),
        _ => None,
    }
}

#[test]
fn migrate_adds_missing_sections_with_defaults() {
    let value = object(vec![
        ("schema_version", number("1")),
        ("audio", object(vec![("mic_volume", number("33"))])),
    ]);

    let migrated = migrate_config_value(value);

    assert_eq!(str_at(&migrated, &["mqtt", "url"]).as_deref(), Some("mqtt://localhost:1883"));
    assert_eq!(bool_at(&migrated, &["ui", "minimize_to_tray"]), Some(true));
    assert_eq!(str_at(&migrated, &["lighting", "target"]).as_deref(), Some("all"));
}

#[test]
fn migrate_preserves_existing_values() {
    let value = object(vec![
        ("schema_version", number("1")),
        ("audio", object(vec![("mic_volume", number("33"))])),
        ("mqtt", object(vec![("url", text("mqtt://broker.local:1883"))])),
    ]);

    let migrated = migrate_config_value(value);

    assert_eq!(number_at(&migrated, &["audio", "mic_volume"]).as_deref(), Some("33"));
    assert_eq!(str_at(&migrated, &["mqtt", "url"]).as_deref(), Some("mqtt://broker.local:1883"));
}

#[test]
fn validate_accepts_default_config() {
    assert!(AppConfig::default().validate().is_ok());
}

#[test]
fn validate_rejects_percent_above_100() {
    let mut config = AppConfig::default();
    config.audio.mic_volume = 101;

    let error = config.validate().expect_err("101% must be rejected");

    assert!(error.message().contains("audio.mic_volume"));
}

#[test]
fn validate_rejects_invalid_rgb_color() {
    let mut config = AppConfig::default();
    config.lighting.colors = vec!["zzzzzz".to_string()];

    let error = config.validate().expect_err("non-hex color must fail");

    assert!(error.message().contains("Invalid RGB color"));
}

#[test]
fn validate_rejects_selected_color_outside_palette() {
    let mut config = AppConfig::default();
    config.lighting.selected_color = config.lighting.colors.len();

    let error = config.validate().expect_err("out-of-range index");

    assert!(error.message().contains("selected_color"));
}

#[test]
fn validate_rejects_topic_prefix_with_wildcards() {
    let mut config = AppConfig::default();
    config.mqtt.base_topic = "hyperx/#".to_string();

    let error = config.validate().expect_err("wildcard topic must fail");

    assert!(error.message().contains("wildcards"));
}

#[test]
fn validate_rejects_slash_wrapped_topic_prefix() {
    let mut config = AppConfig::default();
    config.mqtt.base_topic = "/hyperx".to_string();

    assert!(config.validate().is_err());
}

#[test]
fn validate_rejects_non_finite_window_position() {
    let mut config = AppConfig::default();
    config.ui.window_x_bits = Some(f32::NAN.to_bits());

    let error = config.validate().expect_err("NaN position must fail");

    assert!(error.message().contains("ui.window_x"));
}

#[test]
fn validation_messages_name_the_setting() {
    assert_eq!(
        validate_percent("lighting.speed", 101),
        Err("lighting.speed must be 0..100.".to_string())
    );
    assert_eq!(validate_percent("lighting.speed", 100), Ok(()));
    assert_eq!(
        validate_rgb_hex("#ff00"),
        Err("Invalid RGB color '#ff00'. Use rrggbb.".to_string())
    );
    assert_eq!(validate_rgb_hex("#A0b1C2"), Ok(()));
    assert_eq!(validate_rgb_hex("a0b1c2"), Ok(()));
    assert_eq!(
        validate_topic_prefix("mqtt.base_topic", "  "),
        Err("mqtt.base_topic must be a non-empty topic prefix without leading/trailing slash.".to_string())
    );
    assert_eq!(
        validate_topic_prefix("mqtt.base_topic", "a/+/b"),
        Err("mqtt.base_topic must not contain MQTT wildcards.".to_string())
    );
    assert_eq!(validate_topic_prefix("mqtt.base_topic", " home/mic "), Ok(()));
}

#[test]
fn validation_checks_schema_qos_and_keep_alive() {
    let mut config = AppConfig::default();
    config.schema_version = 0;
    assert_eq!(
        config.validate().expect_err("schema 0").message(),
        "Unsupported config schema version 0."
    );

    let mut config = AppConfig::default();
    config.mqtt.qos = 3;
    assert_eq!(config.validate().expect_err("qos 3").message(), "mqtt.qos must be 0, 1, or 2.");

    let mut config = AppConfig::default();
    config.mqtt.keep_alive_secs = 4;
    assert_eq!(
        config.validate().expect_err("keep alive 4").message(),
        "mqtt.keep_alive_secs must be 5..3600."
    );

    let mut config = AppConfig::default();
    config.mqtt.client_id = " \t".to_string();
    assert_eq!(
        config.validate().expect_err("blank client id").message(),
        "mqtt.client_id must not be empty."
    );
}

#[test]
fn validation_rejects_small_window() {
    let mut config = AppConfig::default();
    config.ui.window_width_bits = 639.0f32.to_bits();
    assert_eq!(
        config.validate().expect_err("narrow window").message(),
        "ui.window_width/window_height are too small."
    );
    let mut config = AppConfig::default();
    config.ui.window_y_bits = Some(32000.5f32.to_bits());
    assert!(config.validate().expect_err("far window").message().contains("ui.window_y"));
    let mut config = AppConfig::default();
    config.ui.window_y_bits = Some((-32000.0f32).to_bits());
    assert!(config.validate().is_ok());
}

#[test]
fn migrated_raises_old_schema_versions() {
    let mut config = AppConfig::default();
    config.schema_version = 0;
    assert_eq!(config.migrated().schema_version, CONFIG_SCHEMA_VERSION);
    let mut config = AppConfig::default();
    config.schema_version = 7;
    assert_eq!(config.migrated().schema_version, 7);
}

#[test]
fn config_error_messages() {
    let error = ConfigError::InvalidJson { path: "a.json".to_string(), message: "x".to_string() };
    assert_eq!(error.message(), "a.json: invalid JSON: x");
    let error = ConfigError::InvalidConfig { path: "a.json".to_string(), message: "y".to_string() };
    assert_eq!(error.message(), "a.json: invalid config: y");
    let error = ConfigError::Io { path: "a.json".to_string(), message: "gone".to_string() };
    assert_eq!(error.message(), "a.json: gone");
    assert_eq!(ConfigError::Validation("v".to_string()).message(), "v");
}

#[test]
fn default_document_holds_the_defaults() {
    let doc = default_config_json();
    assert!(is_well_formed(&doc));
    assert_eq!(number_at(&doc, &["schema_version"]).as_deref(), Some("1"));
    assert_eq!(number_at(&doc, &["ui", "window_width"]).as_deref(), Some("1120.0"));
    assert_eq!(number_at(&doc, &["device", "lighting_vendor_id"]).as_deref(), Some("2385"));
    assert_eq!(number_at(&doc, &["device", "lighting_product_id"]).as_deref(), Some("5919"));
    assert!(matches!(at(&doc, &["ui", "window_x"]), Some(JsonValue::Null)));
    match at(&doc, &["lighting", "colors"]) {
        Some(JsonValue::Array(items)) => assert_eq!(items.len(), 7),
        _ => panic!("colors must be an array"),
    }
}

#[test]
fn migrate_keeps_foreign_members_and_non_objects() {
    let value = object(vec![("extra", text("kept")), ("audio", text("not an object"))]);
    let migrated = migrate_config_value(value);
    assert_eq!(str_at(&migrated, &["extra"]).as_deref(), Some("kept"));
    assert_eq!(str_at(&migrated, &["audio"]).as_deref(), Some("not an object"));
    assert_eq!(number_at(&migrated, &["schema_version"]).as_deref(), Some("1"));

    let migrated = migrate_config_value(text("scalar"));
    assert!(matches!(migrated, JsonValue::Str(ref s) if s == "scalar"));
}

#[test]
fn well_formedness_rejects_repeated_keys() {
    let value = object(vec![("a", number("1")), ("b", object(vec![("c", number("2")), ("c", number("3"))]))]);
    assert!(!is_well_formed(&value));
    let value = JsonValue::Array(vec![object(vec![("a", number("1"))]), JsonValue::Null]);
    assert!(is_well_formed(&value));
}

#[test]
fn redaction_hides_paths_and_ids() {
    let value = object(vec![
        ("preferred_capture_endpoint_id", text("{0.0.1}")),
        ("config_path", text("C:\\x")),
        ("Lighting_Vendor_ID", number("2385")),
        ("mic_volume", number("50")),
        ("nested", JsonValue::Array(vec![object(vec![("log_path", text("p"))])])),
    ]);
    let redacted = redact_json_value(&value);
    assert_eq!(str_at(&redacted, &["preferred_capture_endpoint_id"]).as_deref(), Some("<redacted>"));
    assert_eq!(str_at(&redacted, &["config_path"]).as_deref(), Some("<redacted>"));
    assert_eq!(str_at(&redacted, &["Lighting_Vendor_ID"]).as_deref(), Some("<redacted>"));
    assert_eq!(number_at(&redacted, &["mic_volume"]).as_deref(), Some("50"));
    match at(&redacted, &["nested"]) {
        Some(JsonValue::Array(items)) => {
            assert_eq!(str_at(&items[0], &["log_path"]).as_deref(), Some("<redacted>"))
        }
        _ => panic!("nested array expected"),
    }
}

#[test]
fn redacting_twice_changes_nothing_more() {
    let value = object(vec![
        ("device_path", text("\\\\?\\hid#1")),
        ("volume", number("3")),
        ("items", JsonValue::Array(vec![object(vec![("vendor_id", number("1"))])])),
    ]);
    let once = redact_json_value(&value);
    let twice = redact_json_value(&once);
    assert_eq!(str_at(&once, &["device_path"]).as_deref(), Some("<redacted>"));
    assert_eq!(str_at(&twice, &["device_path"]).as_deref(), Some("<redacted>"));
    assert_eq!(number_at(&twice, &["volume"]).as_deref(), Some("3"));
    match (at(&once, &["items"]), at(&twice, &["items"])) {
        (Some(JsonValue::Array(a)), Some(JsonValue::Array(b))) => {
            assert_eq!(str_at(&a[0], &["vendor_id"]).as_deref(), Some("<redacted>"));
            assert_eq!(str_at(&b[0], &["vendor_id"]).as_deref(), Some("<redacted>"));
        }
        _ => panic!("arrays expected"),
    }
}

#[test]
fn json_text_is_compact_and_escapes_like_serde() {
    let tricky = "a\"b\\c\n\r\t\u{8}\u{c}\u{1}\u{1f} é\u{7f}";
    assert_eq!(to_json_text(&text(tricky)), serde_json::to_string(tricky).unwrap());
    let value = object(vec![
        ("b", JsonValue::Bool(true)),
        ("a", JsonValue::Array(vec![number("1"), JsonValue::Null, text("x")])),
        ("c", object(vec![])),
        ("d", JsonValue::Array(vec![])),
    ]);
    assert_eq!(to_json_text(&value), r#"{"b":true,"a":[1,null,"x"],"c":{},"d":[]}"#);
}
