//! The persisted configuration: its sections, their defaults, validation
//! and schema migration.
//!
//! Window geometry is stored as `f32` in the configuration file; here each
//! such value is held by its IEEE-754 bit pattern (`f32::to_bits`), and the
//! comparisons that validation makes are stated over those bits.
use vstd::prelude::*;

use crate::model::effect_from_name;
use crate::text::{
    char_vec, concat2, concat3, contains_char_vec, decimal_seq, decimal_string, ends_with_vec, is_ascii_hexdigit, owned, starts_with_seq, ends_with_seq, str_eq, trim_seq, trim_vec, lemma_trim_plain,
};

verus! {

broadcast use vstd::string::group_string_axioms;

pub const CONFIG_SCHEMA_VERSION: u32 = 1;

// ---------------------------------------------------------------------------
// Sections
// ---------------------------------------------------------------------------

pub struct AudioConfig {
    pub mic_volume: u8,
    pub mic_monitoring: u8,
    pub headphone_volume: u8,
    pub mute_on_app_start: bool,
}

pub struct LightingConfig {
    pub effect: String,
    pub target: String,
    pub split_layers: bool,
    pub top_effect: String,
    pub bottom_effect: String,
    pub colors: Vec<String>,
    pub selected_color: usize,
    pub opacity: u8,
    pub speed: u8,
    pub brightness: u8,
    pub live_when_muted: bool,
}

/// Window geometry is held as `f32` bit patterns.
pub struct UiConfig {
    pub selected_tab: String,
    pub window_width_bits: u32,
    pub window_height_bits: u32,
    pub window_x_bits: Option<u32>,
    pub window_y_bits: Option<u32>,
    pub minimize_to_tray: bool,
    pub last_polar_pattern: String,
}

pub struct ServiceConfig {
    pub enabled: bool,
    pub restore_on_startup: bool,
    pub owns_startup_restore: bool,
    pub owns_lighting_loop: bool,
    pub owns_hid_monitoring: bool,
    pub owns_tray_handoff: bool,
}

pub struct DeviceConfig {
    pub preferred_capture_endpoint_id: Option<String>,
    pub lighting_vendor_id: u16,
    pub lighting_product_id: u16,
}

pub struct MqttConfig {
    pub enabled: bool,
    pub url: String,
    pub client_id: String,
    pub username: Option<String>,
    pub password: Option<String>,
    pub base_topic: String,
    pub discovery_prefix: String,
    pub home_assistant_discovery: bool,
    pub retain_state: bool,
    pub qos: u8,
    pub keep_alive_secs: u64,
    pub clean_session: bool,
}

pub struct AppConfig {
    pub schema_version: u32,
    pub audio: AudioConfig,
    pub lighting: LightingConfig,
    pub ui: UiConfig,
    pub service: ServiceConfig,
    pub device: DeviceConfig,
    pub mqtt: MqttConfig,
}

// ---------------------------------------------------------------------------
// Defaults
// ---------------------------------------------------------------------------

pub fn default_lighting_target() -> (r: String)
    ensures
        r@ == "all"@,
{
    owned("all")
}

pub fn default_lighting_top_effect() -> (r: String)
    ensures
        r@ == "solid"@,
{
    owned("solid")
}

pub fn default_lighting_bottom_effect() -> (r: String)
    ensures
        r@ == "blink"@,
{
    owned("blink")
}

pub fn default_minimize_to_tray() -> (r: bool)
    ensures
        r,
{
    true
}

pub fn default_last_polar_pattern() -> (r: String)
    ensures
        r@ == "unknown"@,
{
    owned("unknown")
}

pub fn default_mqtt_url() -> (r: String)
    ensures
        r@ == "mqtt://localhost:1883"@,
{
    owned("mqtt://localhost:1883")
}

pub fn default_mqtt_client_id() -> (r: String)
    ensures
        r@ == "hyperx-mic-lite"@,
{
    owned("hyperx-mic-lite")
}

pub fn default_mqtt_base_topic() -> (r: String)
    ensures
        r@ == "hyperx_mic_lite/quadcast_s"@,
{
    owned("hyperx_mic_lite/quadcast_s")
}

pub fn default_mqtt_discovery_prefix() -> (r: String)
    ensures
        r@ == "homeassistant"@,
{
    owned("homeassistant")
}

pub fn default_true() -> (r: bool)
    ensures
        r,
{
    true
}

pub fn default_mqtt_qos() -> (r: u8)
    ensures
        r == 1,
{
    1
}

pub fn default_mqtt_keep_alive_secs() -> (r: u64)
    ensures
        r == 30,
{
    30
}

/// `1120.0f32`, `760.0f32`: the default window size.
pub const DEFAULT_WINDOW_WIDTH_BITS: u32 = 0x448c_0000;

pub const DEFAULT_WINDOW_HEIGHT_BITS: u32 = 0x443e_0000;

/// The seven palette colours of a fresh configuration.
pub open spec fn default_palette() -> Seq<Seq<char>> {
    seq![
        "#ff2010"@,
        "#ff009a"@,
        "#5d18ff"@,
        "#00a2ff"@,
        "#00edbf"@,
        "#38ee3d"@,
        "#ffea20"@,
    ]
}

pub open spec fn strings_view(v: Seq<String>) -> Seq<Seq<char>> {
    v.map_values(|s: String| s@)
}

pub open spec fn is_default_mqtt(m: MqttConfig) -> bool {
    &&& !m.enabled
    &&& m.url@ == "mqtt://localhost:1883"@
    &&& m.client_id@ == "hyperx-mic-lite"@
    &&& m.username is None
    &&& m.password is None
    &&& m.base_topic@ == "hyperx_mic_lite/quadcast_s"@
    &&& m.discovery_prefix@ == "homeassistant"@
    &&& m.home_assistant_discovery
    &&& m.retain_state
    &&& m.qos == 1
    &&& m.keep_alive_secs == 30
    &&& m.clean_session
}

/// Every field of a fresh configuration.
pub open spec fn is_default_config(c: AppConfig) -> bool {
    &&& c.schema_version == CONFIG_SCHEMA_VERSION
    &&& c.audio.mic_volume == 50
    &&& c.audio.mic_monitoring == 71
    &&& c.audio.headphone_volume == 5
    &&& !c.audio.mute_on_app_start
    &&& c.lighting.effect@ == "wave"@
    &&& c.lighting.target@ == "all"@
    &&& !c.lighting.split_layers
    &&& c.lighting.top_effect@ == "solid"@
    &&& c.lighting.bottom_effect@ == "blink"@
    &&& strings_view(c.lighting.colors@) == default_palette()
    &&& c.lighting.selected_color == 0
    &&& c.lighting.opacity == 25
    &&& c.lighting.speed == 75
    &&& c.lighting.brightness == 100
    &&& c.lighting.live_when_muted
    &&& c.ui.selected_tab@ == "audio"@
    &&& c.ui.window_width_bits == DEFAULT_WINDOW_WIDTH_BITS
    &&& c.ui.window_height_bits == DEFAULT_WINDOW_HEIGHT_BITS
    &&& c.ui.window_x_bits is None
    &&& c.ui.window_y_bits is None
    &&& c.ui.minimize_to_tray
    &&& c.ui.last_polar_pattern@ == "unknown"@
    &&& !c.service.enabled
    &&& !c.service.restore_on_startup
    &&& c.service.owns_startup_restore
    &&& !c.service.owns_lighting_loop
    &&& !c.service.owns_hid_monitoring
    &&& !c.service.owns_tray_handoff
    &&& c.device.preferred_capture_endpoint_id is None
    &&& c.device.lighting_vendor_id == 0x0951
    &&& c.device.lighting_product_id == 0x171f
    &&& is_default_mqtt(c.mqtt)
}

impl Default for MqttConfig {
    fn default() -> (r: Self)
        ensures
            is_default_mqtt(r),
    {
        MqttConfig {
            enabled: false,
            url: default_mqtt_url(),
            client_id: default_mqtt_client_id(),
            username: None,
            password: None,
            base_topic: default_mqtt_base_topic(),
            discovery_prefix: default_mqtt_discovery_prefix(),
            home_assistant_discovery: true,
            retain_state: true,
            qos: 1,
            keep_alive_secs: 30,
            clean_session: true,
        }
    }
}

impl Default for AppConfig {
    fn default() -> (r: Self)
        ensures
            is_default_config(r),
    {
        let mut colors: Vec<String> = Vec::new();
        colors.push(owned("#ff2010"));
        colors.push(owned("#ff009a"));
        colors.push(owned("#5d18ff"));
        colors.push(owned("#00a2ff"));
        colors.push(owned("#00edbf"));
        colors.push(owned("#38ee3d"));
        colors.push(owned("#ffea20"));
        assert(strings_view(colors@) =~= default_palette());
        AppConfig {
            schema_version: CONFIG_SCHEMA_VERSION,
            audio: AudioConfig {
                mic_volume: 50,
                mic_monitoring: 71,
                headphone_volume: 5,
                mute_on_app_start: false,
            },
            lighting: LightingConfig {
                effect: owned("wave"),
                target: owned("all"),
                split_layers: false,
                top_effect: default_lighting_top_effect(),
                bottom_effect: default_lighting_bottom_effect(),
                colors,
                selected_color: 0,
                opacity: 25,
                speed: 75,
                brightness: 100,
                live_when_muted: true,
            },
            ui: UiConfig {
                selected_tab: owned("audio"),
                window_width_bits: DEFAULT_WINDOW_WIDTH_BITS,
                window_height_bits: DEFAULT_WINDOW_HEIGHT_BITS,
                window_x_bits: None,
                window_y_bits: None,
                minimize_to_tray: true,
                last_polar_pattern: owned("unknown"),
            },
            service: ServiceConfig {
                enabled: false,
                restore_on_startup: false,
                owns_startup_restore: true,
                owns_lighting_loop: false,
                owns_hid_monitoring: false,
                owns_tray_handoff: false,
            },
            device: DeviceConfig {
                preferred_capture_endpoint_id: None,
                lighting_vendor_id: 0x0951,
                lighting_product_id: 0x171f,
            },
            mqtt: MqttConfig::default(),
        }
    }
}

// ---------------------------------------------------------------------------
// f32 comparisons on bit patterns
// ---------------------------------------------------------------------------

pub open spec fn f32_exponent(b: u32) -> nat {
    ((b / 0x80_0000) % 256) as nat
}

pub open spec fn f32_is_nan(b: u32) -> bool {
    f32_exponent(b) == 255 && b % 0x80_0000 != 0
}

/// Finite: neither an infinity nor a NaN.
pub open spec fn f32_is_finite(b: u32) -> bool {
    f32_exponent(b) != 255
}

/// Position of a non-NaN value on the number line: the magnitude bits,
/// negated for negative values (both zeros map to 0).
pub open spec fn f32_key(b: u32) -> int {
    if b >= 0x8000_0000 {
        -((b - 0x8000_0000) as int)
    } else {
        b as int
    }
}

/// `a < b` between two `f32` values given by their bits; false when
/// either is NaN.
pub open spec fn f32_lt(a: u32, b: u32) -> bool {
    !f32_is_nan(a) && !f32_is_nan(b) && f32_key(a) < f32_key(b)
}

pub open spec fn f32_le(a: u32, b: u32) -> bool {
    !f32_is_nan(a) && !f32_is_nan(b) && f32_key(a) <= f32_key(b)
}

fn bits_is_nan(b: u32) -> (r: bool)
    ensures
        r == f32_is_nan(b),
{
    (b / 0x80_0000) % 256 == 255 && b % 0x80_0000 != 0
}

fn bits_key(b: u32) -> (r: i64)
    ensures
        r == f32_key(b),
{
    if b >= 0x8000_0000 {
        -((b - 0x8000_0000) as i64)
    } else {
        b as i64
    }
}

pub fn f32_bits_lt(a: u32, b: u32) -> (r: bool)
    ensures
        r == f32_lt(a, b),
{
    !bits_is_nan(a) && !bits_is_nan(b) && bits_key(a) < bits_key(b)
}

pub fn f32_bits_le(a: u32, b: u32) -> (r: bool)
    ensures
        r == f32_le(a, b),
{
    !bits_is_nan(a) && !bits_is_nan(b) && bits_key(a) <= bits_key(b)
}

/// `640.0f32`, `480.0f32`: the smallest window.
pub const MIN_WINDOW_WIDTH_BITS: u32 = 0x4420_0000;

pub const MIN_WINDOW_HEIGHT_BITS: u32 = 0x43f0_0000;

/// `-32000.0f32` and `32000.0f32`: the range of a screen coordinate.
pub const MIN_COORDINATE_BITS: u32 = 0xc6fa_0000;

pub const MAX_COORDINATE_BITS: u32 = 0x46fa_0000;

// ---------------------------------------------------------------------------
// Validation
// ---------------------------------------------------------------------------

/// Why validation fails, or fails to load a configuration.
#[derive(Debug)]
pub enum ConfigError {
    Io { path: String, message: String },
    InvalidJson { path: String, message: String },
    InvalidConfig { path: String, message: String },
    Validation(String),
    Serialize(String),
}

pub open spec fn config_error_text(e: ConfigError) -> Seq<char> {
    match e {
        ConfigError::Io { path, message } => path@ + ": "@ + message@,
        ConfigError::InvalidJson { path, message } => path@ + ": invalid JSON: "@ + message@,
        ConfigError::InvalidConfig { path, message } => path@ + ": invalid config: "@ + message@,
        ConfigError::Validation(m) => m@,
        ConfigError::Serialize(m) => m@,
    }
}

impl ConfigError {
    /// The text the error displays.
    pub fn message(&self) -> (r: String)
        ensures
            r@ == config_error_text(*self),
    {
        match self {
            ConfigError::Io { path, message } => concat3(path.as_str(), ": ", message.as_str()),
            ConfigError::InvalidJson { path, message } => concat3(
                path.as_str(),
                ": invalid JSON: ",
                message.as_str(),
            ),
            ConfigError::InvalidConfig { path, message } => concat3(
                path.as_str(),
                ": invalid config: ",
                message.as_str(),
            ),
            ConfigError::Validation(m) => m.clone(),
            ConfigError::Serialize(m) => m.clone(),
        }
    }
}

pub open spec fn percent_error(name: Seq<char>, value: u8) -> Option<Seq<char>> {
    if value > 100 {
        Some(name + " must be 0..100."@)
    } else {
        None
    }
}

pub fn validate_percent(name: &str, value: u8) -> (r: Result<(), String>)
    ensures
        match percent_error(name@, value) {
            Some(m) => r matches Err(e) && e@ == m,
            None => r is Ok,
        },
{
    if value > 100 {
        Err(concat2(name, " must be 0..100."))
    } else {
        Ok(())
    }
}

pub open spec fn effect_name_error(name: Seq<char>, value: Seq<char>) -> Option<Seq<char>> {
    if effect_from_name(value) is Some {
        None
    } else {
        Some(name + " is invalid."@)
    }
}

pub fn validate_effect_name(name: &str, value: &str) -> (r: Result<(), String>)
    ensures
        match effect_name_error(name@, value@) {
            Some(m) => r matches Err(e) && e@ == m,
            None => r is Ok,
        },
{
    match crate::model::effect_by_name(value) {
        Some(_) => Ok(()),
        None => Err(concat2(name, " is invalid.")),
    }
}

/// `value` without one leading `#`, if it has one.
pub open spec fn strip_hash(value: Seq<char>) -> Seq<char> {
    if value.len() > 0 && value[0] == '#' {
        value.drop_first()
    } else {
        value
    }
}

/// Six ASCII hex digits, after at most one leading `#`.
pub open spec fn is_rgb_text(value: Seq<char>) -> bool {
    let h = strip_hash(value);
    h.len() == 6 && forall|i: int| 0 <= i < 6 ==> is_ascii_hexdigit(#[trigger] h[i])
}

pub open spec fn rgb_error(value: Seq<char>) -> Option<Seq<char>> {
    if is_rgb_text(value) {
        None
    } else {
        Some("Invalid RGB color '"@ + value + "'. Use rrggbb."@)
    }
}

pub fn validate_rgb_hex(value: &str) -> (r: Result<(), String>)
    ensures
        match rgb_error(value@) {
            Some(m) => r matches Err(e) && e@ == m,
            None => r is Ok,
        },
{
    let v = char_vec(value);
    let start: usize = if v.len() > 0 && v[0] == '#' { 1 } else { 0 };
    let ghost h = strip_hash(value@);
    proof {
        if start == 1 {
            assert(h =~= v@.subrange(1, v@.len() as int));
        } else {
            assert(h =~= v@.subrange(0, v@.len() as int));
        }
    }
    let mut ok = v.len() - start == 6;
    if ok {
        let mut i: usize = 0;
        while i < 6
            invariant
                v@.len() - start == 6,
                start <= 1,
                i <= 6,
                h == v@.subrange(start as int, v@.len() as int),
                ok == (forall|j: int| 0 <= j < i ==> is_ascii_hexdigit(#[trigger] h[j])),
            decreases 6 - i,
        {
            let c = v[start + i];
            let hex = ('0' <= c && c <= '9') || ('a' <= c && c <= 'f') || ('A' <= c && c <= 'F');
            proof {
                assert(h[i as int] == c);
            }
            ok = ok && hex;
            i = i + 1;
        }
    }
    if ok {
        Ok(())
    } else {
        let r = concat3("Invalid RGB color '", value, "'. Use rrggbb.");
        Err(r)
    }
}

pub open spec fn topic_prefix_error(name: Seq<char>, value: Seq<char>) -> Option<Seq<char>> {
    let v = trim_seq(value);
    if v.len() == 0 || starts_with_seq(v, seq!['/']) || ends_with_seq(v, seq!['/']) {
        Some(name + " must be a non-empty topic prefix without leading/trailing slash."@)
    } else if v.contains('#') || v.contains('+') {
        Some(name + " must not contain MQTT wildcards."@)
    } else {
        None
    }
}

pub fn validate_topic_prefix(name: &str, value: &str) -> (r: Result<(), String>)
    ensures
        match topic_prefix_error(name@, value@) {
            Some(m) => r matches Err(e) && e@ == m,
            None => r is Ok,
        },
{
    let raw = char_vec(value);
    let v = trim_vec(&raw);
    let mut slash: Vec<char> = Vec::new();
    slash.push('/');
    if v.len() == 0 || crate::text::starts_with_vec(&v, &slash) || ends_with_vec(&v, &slash) {
        return Err(concat2(name, " must be a non-empty topic prefix without leading/trailing slash."));
    }
    if contains_char_vec(&v, '#') || contains_char_vec(&v, '+') {
        return Err(concat2(name, " must not contain MQTT wildcards."));
    }
    Ok(())
}

pub open spec fn window_position_error(name: Seq<char>, value: Option<u32>) -> Option<Seq<char>> {
    match value {
        Some(b) => if !f32_is_finite(b) || !(f32_le(MIN_COORDINATE_BITS, b) && f32_le(
            b,
            MAX_COORDINATE_BITS,
        )) {
            Some(name + " must be a finite screen coordinate."@)
        } else {
            None
        },
        None => None,
    }
}

pub fn validate_optional_window_position(name: &str, value: Option<u32>) -> (r: Result<(), String>)
    ensures
        match window_position_error(name@, value) {
            Some(m) => r matches Err(e) && e@ == m,
            None => r is Ok,
        },
{
    if let Some(b) = value {
        let finite = (b / 0x80_0000) % 256 != 255;
        if !finite || !(f32_bits_le(MIN_COORDINATE_BITS, b) && f32_bits_le(b, MAX_COORDINATE_BITS)) {
            return Err(concat2(name, " must be a finite screen coordinate."));
        }
    }
    Ok(())
}

/// Index of the first palette entry that is not `rrggbb` text.
pub open spec fn first_bad_color(colors: Seq<Seq<char>>) -> Option<int>
    decreases colors.len(),
{
    if colors.len() == 0 {
        None
    } else if !is_rgb_text(colors[0]) {
        Some(0)
    } else {
        match first_bad_color(colors.drop_first()) {
            Some(i) => Some(i + 1),
            None => None,
        }
    }
}

pub open spec fn one_of(s: Seq<char>, options: Seq<Seq<char>>) -> bool {
    exists|i: int| 0 <= i < options.len() && options[i] == s
}

/// The first rule a configuration breaks, in the order they are checked,
/// with the message it is reported with; `None` when it is valid.
pub open spec fn validation_error(c: AppConfig) -> Option<Seq<char>> {
    let colors = strings_view(c.lighting.colors@);
    if c.schema_version == 0 || c.schema_version > CONFIG_SCHEMA_VERSION {
        Some("Unsupported config schema version "@ + decimal_seq(c.schema_version as nat) + "."@)
    } else if percent_error("audio.mic_volume"@, c.audio.mic_volume) is Some {
        percent_error("audio.mic_volume"@, c.audio.mic_volume)
    } else if percent_error("audio.mic_monitoring"@, c.audio.mic_monitoring) is Some {
        percent_error("audio.mic_monitoring"@, c.audio.mic_monitoring)
    } else if percent_error("audio.headphone_volume"@, c.audio.headphone_volume) is Some {
        percent_error("audio.headphone_volume"@, c.audio.headphone_volume)
    } else if percent_error("lighting.opacity"@, c.lighting.opacity) is Some {
        percent_error("lighting.opacity"@, c.lighting.opacity)
    } else if percent_error("lighting.speed"@, c.lighting.speed) is Some {
        percent_error("lighting.speed"@, c.lighting.speed)
    } else if percent_error("lighting.brightness"@, c.lighting.brightness) is Some {
        percent_error("lighting.brightness"@, c.lighting.brightness)
    } else if colors.len() == 0 {
        Some("lighting.colors must contain at least one color."@)
    } else if first_bad_color(colors) is Some {
        rgb_error(colors[first_bad_color(colors)->0])
    } else if c.lighting.selected_color >= colors.len() {
        Some("lighting.selected_color is outside lighting.colors."@)
    } else if !one_of(c.lighting.target@, seq!["all"@, "top"@, "bottom"@]) {
        Some("lighting.target must be 'all', 'top', or 'bottom'."@)
    } else if effect_name_error("lighting.effect"@, c.lighting.effect@) is Some {
        effect_name_error("lighting.effect"@, c.lighting.effect@)
    } else if effect_name_error("lighting.top_effect"@, c.lighting.top_effect@) is Some {
        effect_name_error("lighting.top_effect"@, c.lighting.top_effect@)
    } else if effect_name_error("lighting.bottom_effect"@, c.lighting.bottom_effect@) is Some {
        effect_name_error("lighting.bottom_effect"@, c.lighting.bottom_effect@)
    } else if !one_of(c.ui.selected_tab@, seq!["audio"@, "lights"@]) {
        Some("ui.selected_tab must be 'audio' or 'lights'."@)
    } else if !one_of(
        c.ui.last_polar_pattern@,
        seq!["stereo"@, "omni"@, "cardioid"@, "bidirectional"@, "unknown"@],
    ) {
        Some("ui.last_polar_pattern is invalid."@)
    } else if f32_lt(c.ui.window_width_bits, MIN_WINDOW_WIDTH_BITS) || f32_lt(
        c.ui.window_height_bits,
        MIN_WINDOW_HEIGHT_BITS,
    ) {
        Some("ui.window_width/window_height are too small."@)
    } else if window_position_error("ui.window_x"@, c.ui.window_x_bits) is Some {
        window_position_error("ui.window_x"@, c.ui.window_x_bits)
    } else if window_position_error("ui.window_y"@, c.ui.window_y_bits) is Some {
        window_position_error("ui.window_y"@, c.ui.window_y_bits)
    } else if topic_prefix_error("mqtt.base_topic"@, c.mqtt.base_topic@) is Some {
        topic_prefix_error("mqtt.base_topic"@, c.mqtt.base_topic@)
    } else if topic_prefix_error("mqtt.discovery_prefix"@, c.mqtt.discovery_prefix@) is Some {
        topic_prefix_error("mqtt.discovery_prefix"@, c.mqtt.discovery_prefix@)
    } else if trim_seq(c.mqtt.client_id@).len() == 0 {
        Some("mqtt.client_id must not be empty."@)
    } else if c.mqtt.qos > 2 {
        Some("mqtt.qos must be 0, 1, or 2."@)
    } else if !(5 <= c.mqtt.keep_alive_secs <= 3600) {
        Some("mqtt.keep_alive_secs must be 5..3600."@)
    } else {
        None
    }
}

fn str_in(value: &str, a: &str, b: &str, c: &str, d: &str, e: &str, n: usize) -> (r: bool)
    requires
        2 <= n <= 5,
    ensures
        r == (value@ == a@ || value@ == b@ || (n >= 3 && value@ == c@) || (n >= 4 && value@ == d@)
            || (n >= 5 && value@ == e@)),
{
    str_eq(value, a) || str_eq(value, b) || (n >= 3 && str_eq(value, c)) || (n >= 4 && str_eq(
        value,
        d,
    )) || (n >= 5 && str_eq(value, e))
}

fn check_colors(colors: &Vec<String>) -> (r: Result<(), String>)
    ensures
        match first_bad_color(strings_view(colors@)) {
            Some(i) => r matches Err(e) && Some(e@) == rgb_error(strings_view(colors@)[i]),
            None => r is Ok,
        },
{
    let ghost cs = strings_view(colors@);
    assert(cs.subrange(0, cs.len() as int) =~= cs);
    let mut i: usize = 0;
    while i < colors.len()
        invariant
            i <= colors@.len(),
            cs == strings_view(colors@),
            first_bad_color(cs) == first_bad_from(cs, i as int),
        decreases colors.len() - i,
    {
        proof {
            lemma_first_bad_step(cs, i as int);
        }
        match validate_rgb_hex(colors[i].as_str()) {
            Ok(()) => {},
            Err(e) => {
                return Err(e);
            },
        }
        i = i + 1;
    }
    proof {
        lemma_first_bad_end(cs);
    }
    Ok(())
}

/// `first_bad_color`, counting from index `i` on, when everything before
/// `i` is valid.
pub open spec fn first_bad_from(cs: Seq<Seq<char>>, i: int) -> Option<int> {
    match first_bad_color(cs.subrange(i, cs.len() as int)) {
        Some(j) => Some(i + j),
        None => None,
    }
}

proof fn lemma_first_bad_step(cs: Seq<Seq<char>>, i: int)
    requires
        0 <= i < cs.len(),
    ensures
        first_bad_from(cs, i) == (if !is_rgb_text(cs[i]) {
            Some(i)
        } else {
            first_bad_from(cs, i + 1)
        }),
{
    let t = cs.subrange(i, cs.len() as int);
    assert(t[0] == cs[i]);
    assert(t.drop_first() =~= cs.subrange(i + 1, cs.len() as int));
}

proof fn lemma_first_bad_end(cs: Seq<Seq<char>>)
    ensures
        first_bad_from(cs, cs.len() as int) is None,
{
    assert(cs.subrange(cs.len() as int, cs.len() as int) =~= Seq::<Seq<char>>::empty());
}

impl AppConfig {
    /// Checks the rules in order and reports the first one broken.
    pub fn validate_fields(&self) -> (r: Result<(), String>)
        ensures
            match validation_error(*self) {
                Some(m) => r matches Err(e) && e@ == m,
                None => r is Ok,
            },
    {
        proof {
            assert(self.lighting.colors@.len() == 0 ==> strings_view(self.lighting.colors@).len() == 0);
            assert(self.lighting.colors@.len() == strings_view(self.lighting.colors@).len());
            assert(strings_view(self.lighting.colors@) =~= self.lighting.colors@.map_values(|s: String| s@));
            assert(first_bad_color(strings_view(self.lighting.colors@)) == first_bad_from(
                strings_view(self.lighting.colors@),
                0,
            )) by {
                assert(strings_view(self.lighting.colors@).subrange(
                    0,
                    self.lighting.colors@.len() as int,
                ) =~= strings_view(self.lighting.colors@));
            }
        }
        if self.schema_version == 0 || self.schema_version > CONFIG_SCHEMA_VERSION {
            let n = decimal_string(self.schema_version as u64);
            return Err(concat3("Unsupported config schema version ", n.as_str(), "."));
        }
        validate_percent("audio.mic_volume", self.audio.mic_volume)?;
        validate_percent("audio.mic_monitoring", self.audio.mic_monitoring)?;
        validate_percent("audio.headphone_volume", self.audio.headphone_volume)?;
        validate_percent("lighting.opacity", self.lighting.opacity)?;
        validate_percent("lighting.speed", self.lighting.speed)?;
        validate_percent("lighting.brightness", self.lighting.brightness)?;
        if self.lighting.colors.len() == 0 {
            return Err(owned("lighting.colors must contain at least one color."));
        }
        check_colors(&self.lighting.colors)?;
        if self.lighting.selected_color >= self.lighting.colors.len() {
            return Err(owned("lighting.selected_color is outside lighting.colors."));
        }
        if !str_in(self.lighting.target.as_str(), "all", "top", "bottom", "", "", 3) {
            proof {
                assert(!one_of(self.lighting.target@, seq!["all"@, "top"@, "bottom"@]));
            }
            return Err(owned("lighting.target must be 'all', 'top', or 'bottom'."));
        }
        proof {
            let opts = seq!["all"@, "top"@, "bottom"@];
            if self.lighting.target@ == "all"@ {
                assert(opts[0] == "all"@);
            } else if self.lighting.target@ == "top"@ {
                assert(opts[1] == "top"@);
            } else {
                assert(opts[2] == "bottom"@);
            }
        }
        validate_effect_name("lighting.effect", self.lighting.effect.as_str())?;
        validate_effect_name("lighting.top_effect", self.lighting.top_effect.as_str())?;
        validate_effect_name("lighting.bottom_effect", self.lighting.bottom_effect.as_str())?;
        if !str_in(self.ui.selected_tab.as_str(), "audio", "lights", "", "", "", 2) {
            proof {
                assert(!one_of(self.ui.selected_tab@, seq!["audio"@, "lights"@]));
            }
            return Err(owned("ui.selected_tab must be 'audio' or 'lights'."));
        }
        proof {
            let opts = seq!["audio"@, "lights"@];
            if self.ui.selected_tab@ == "audio"@ {
                assert(opts[0] == "audio"@);
            } else {
                assert(opts[1] == "lights"@);
            }
        }
        if !str_in(
            self.ui.last_polar_pattern.as_str(),
            "stereo",
            "omni",
            "cardioid",
            "bidirectional",
            "unknown",
            5,
        ) {
            proof {
                assert(!one_of(
                    self.ui.last_polar_pattern@,
                    seq!["stereo"@, "omni"@, "cardioid"@, "bidirectional"@, "unknown"@],
                ));
            }
            return Err(owned("ui.last_polar_pattern is invalid."));
        }
        proof {
            let opts = seq!["stereo"@, "omni"@, "cardioid"@, "bidirectional"@, "unknown"@];
            let p = self.ui.last_polar_pattern@;
            if p == "stereo"@ {
                assert(opts[0] == p);
            } else if p == "omni"@ {
                assert(opts[1] == p);
            } else if p == "cardioid"@ {
                assert(opts[2] == p);
            } else if p == "bidirectional"@ {
                assert(opts[3] == p);
            } else {
                assert(opts[4] == p);
            }
        }
        if f32_bits_lt(self.ui.window_width_bits, MIN_WINDOW_WIDTH_BITS) || f32_bits_lt(
            self.ui.window_height_bits,
            MIN_WINDOW_HEIGHT_BITS,
        ) {
            return Err(owned("ui.window_width/window_height are too small."));
        }
        validate_optional_window_position("ui.window_x", self.ui.window_x_bits)?;
        validate_optional_window_position("ui.window_y", self.ui.window_y_bits)?;
        validate_topic_prefix("mqtt.base_topic", self.mqtt.base_topic.as_str())?;
        validate_topic_prefix("mqtt.discovery_prefix", self.mqtt.discovery_prefix.as_str())?;
        let client = char_vec(self.mqtt.client_id.as_str());
        if trim_vec(&client).len() == 0 {
            return Err(owned("mqtt.client_id must not be empty."));
        }
        if self.mqtt.qos > 2 {
            return Err(owned("mqtt.qos must be 0, 1, or 2."));
        }
        if !(5 <= self.mqtt.keep_alive_secs && self.mqtt.keep_alive_secs <= 3600) {
            return Err(owned("mqtt.keep_alive_secs must be 5..3600."));
        }
        Ok(())
    }

    pub fn validate(&self) -> (r: Result<(), ConfigError>)
        ensures
            match validation_error(*self) {
                Some(m) => r matches Err(ConfigError::Validation(e)) && e@ == m,
                None => r is Ok,
            },
    {
        match self.validate_fields() {
            Ok(()) => Ok(()),
            Err(e) => Err(ConfigError::Validation(e)),
        }
    }

    /// Brings an older schema up to the current one.
    pub fn migrated(self) -> (r: Self)
        ensures
            r.schema_version == (if self.schema_version < CONFIG_SCHEMA_VERSION {
                CONFIG_SCHEMA_VERSION
            } else {
                self.schema_version
            }),
            r.audio == self.audio,
            r.lighting == self.lighting,
            r.ui == self.ui,
            r.service == self.service,
            r.device == self.device,
            r.mqtt == self.mqtt,
    {
        let mut c = self;
        if c.schema_version < CONFIG_SCHEMA_VERSION {
            c.schema_version = CONFIG_SCHEMA_VERSION;
        }
        c
    }
}


proof fn lemma_plain_topic(s: Seq<char>)
    requires
        s.len() > 0,
        forall|i: int|
            0 <= i < s.len() ==> ('a' <= #[trigger] s[i] <= 'z' || s[i] == '_' || (s[i] == '/' && 0
                < i < s.len() - 1)),
    ensures
        topic_prefix_error("mqtt.base_topic"@, s) is None,
        topic_prefix_error("mqtt.discovery_prefix"@, s) is None,
{
    assert(s[0] == s[0]);
    assert(s.last() == s[s.len() - 1]);
    lemma_trim_plain(s);
    assert(s.subrange(0, 1)[0] == s[0]);
    assert(!starts_with_seq(s, seq!['/'])) by {
        if starts_with_seq(s, seq!['/']) {
            assert(s.subrange(0, 1)[0] == seq!['/'][0]);
        }
    }
    assert(!ends_with_seq(s, seq!['/'])) by {
        if ends_with_seq(s, seq!['/']) {
            assert(s.subrange(s.len() - 1, s.len() as int)[0] == seq!['/'][0]);
        }
    }
    assert(!s.contains('#'));
    assert(!s.contains('+'));
}

proof fn lemma_palette_entry(w: Seq<char>)
    requires
        w.len() == 7,
        w[0] == '#',
        forall|i: int| 1 <= i < 7 ==> is_ascii_hexdigit(#[trigger] w[i]),
    ensures
        is_rgb_text(w),
{
    let h = strip_hash(w);
    assert forall|i: int| 0 <= i < 6 implies is_ascii_hexdigit(#[trigger] h[i]) by {
        assert(h[i] == w[i + 1]);
    }
}

/// A fresh configuration passes validation.
pub proof fn law_default_config_is_valid(c: AppConfig)
    requires
        is_default_config(c),
    ensures
        validation_error(c) is None,
{
    let colors = strings_view(c.lighting.colors@);
    reveal_strlit("#ff2010");
    reveal_strlit("#ff009a");
    reveal_strlit("#5d18ff");
    reveal_strlit("#00a2ff");
    reveal_strlit("#00edbf");
    reveal_strlit("#38ee3d");
    reveal_strlit("#ffea20");
    lemma_palette_entry("#ff2010"@);
    lemma_palette_entry("#ff009a"@);
    lemma_palette_entry("#5d18ff"@);
    lemma_palette_entry("#00a2ff"@);
    lemma_palette_entry("#00edbf"@);
    lemma_palette_entry("#38ee3d"@);
    lemma_palette_entry("#ffea20"@);
    assert(forall|i: int| 0 <= i < 7 ==> is_rgb_text(#[trigger] colors[i]));
    assert(first_bad_color(colors) is None) by {
        reveal_with_fuel(first_bad_color, 8);
        assert(colors.drop_first()[0] == colors[1]);
        assert(colors.drop_first().drop_first()[0] == colors[2]);
        assert(colors.drop_first().drop_first().drop_first()[0] == colors[3]);
        assert(colors.drop_first().drop_first().drop_first().drop_first()[0] == colors[4]);
        assert(colors.drop_first().drop_first().drop_first().drop_first().drop_first()[0]
            == colors[5]);
        assert(colors.drop_first().drop_first().drop_first().drop_first().drop_first().drop_first()[0]
            == colors[6]);
        assert(colors.drop_first().drop_first().drop_first().drop_first().drop_first().drop_first().drop_first().len() == 0);
    }
    assert(seq!["all"@, "top"@, "bottom"@][0] == "all"@);
    assert(seq!["audio"@, "lights"@][0] == "audio"@);
    assert(seq!["stereo"@, "omni"@, "cardioid"@, "bidirectional"@, "unknown"@][4] == "unknown"@);
    reveal_strlit("hyperx_mic_lite/quadcast_s");
    reveal_strlit("homeassistant");
    reveal_strlit("hyperx-mic-lite");
    lemma_plain_topic("hyperx_mic_lite/quadcast_s"@);
    lemma_plain_topic("homeassistant"@);
    lemma_trim_plain("hyperx-mic-lite"@);
}


/// Any of the three MQTT delivery levels 0, 1 and 2 is as good as another:
/// changing only the QoS of a configuration among them changes neither
/// whether it validates nor the error it gets.
pub proof fn law_qos_levels_are_interchangeable(c: AppConfig, q: u8)
    requires
        c.mqtt.qos <= 2,
        q <= 2,
    ensures
        validation_error(AppConfig { mqtt: MqttConfig { qos: q, ..c.mqtt }, ..c })
            == validation_error(c),
{
}

proof fn lemma_first_bad_is_bad(colors: Seq<Seq<char>>)
    ensures
        first_bad_color(colors) matches Some(i) ==> 0 <= i < colors.len() && !is_rgb_text(
            colors[i],
        ),
    decreases colors.len(),
{
    if colors.len() > 0 && is_rgb_text(colors[0]) {
        lemma_first_bad_is_bad(colors.drop_first());
    }
}

proof fn lemma_qos_above_two_refused(c: AppConfig, q: u8)
    requires
        validation_error(c) is None,
        q > 2,
    ensures
        validation_error(AppConfig { mqtt: MqttConfig { qos: q, ..c.mqtt }, ..c }) is Some,
{
    let d = AppConfig { mqtt: MqttConfig { qos: q, ..c.mqtt }, ..c };
    lemma_first_bad_is_bad(strings_view(c.lighting.colors@));
    assert(validation_error(d) == Some("mqtt.qos must be 0, 1, or 2."@));
}

/// A fresh configuration validates with each QoS level 0, 1 and 2, and with
/// no other value.
pub proof fn law_fresh_config_validates_exactly_the_qos_levels(c: AppConfig, q: u8)
    requires
        is_default_config(c),
    ensures
        validation_error(AppConfig { mqtt: MqttConfig { qos: q, ..c.mqtt }, ..c }) is None
            <==> q <= 2,
{
    law_default_config_is_valid(c);
    if q <= 2 {
        law_qos_levels_are_interchangeable(c, q);
    } else {
        lemma_qos_above_two_refused(c, q);
    }
}

} // verus!
