//! The MQTT bridge's protocol: topic names, the commands read from command
//! topics, the broker URL, the retained state messages and the Home
//! Assistant discovery documents.  Talking to the broker is left to the
//! caller.
use vstd::prelude::*;
use vstd::utf8::encode_utf8;

use crate::config::MqttConfig;
use crate::json::{clone_json, json_view, lemma_object_view, members_view, Json, JsonValue};
use crate::model::{
    effect_as_config, effect_by_name, effect_from_name, law_effect_config_round_trip,
    law_target_config_round_trip, target_as_config, target_by_name, target_from_name, Effect,
    LightTarget,
};
use crate::text::{
    char_vec, chars_eq_str, concat2, concat3, contains_char_vec, contains_vec, has_infix,
    lower_seq, lower_vec, owned, decimal_seq, decimal_string, parse_unsigned, parse_unsigned_spec, push_char, starts_with_seq,
    starts_with_vec, string_from_chars, sub_vec, trim_char_seq, trim_char_vec, trim_seq,
    trim_vec, is_ws, is_ascii_digit, lemma_trim_plain, lemma_decimal_seq_len,
    lemma_decimal_seq_value,
};

verus! {

broadcast use vstd::string::group_string_axioms;

/// A request read from one of the bridge's command topics.
#[derive(Clone, Copy, PartialEq, Eq, Debug, Structural)]
pub enum MqttCommand {
    SetMute(bool),
    ToggleMute,
    SetMicVolume(u8),
    SetMonitoringVolume(u8),
    SetHeadphoneVolume(u8),
    SetEffect(Effect),
    SetTarget(LightTarget),
    SetBrightness(u8),
    SetSpeed(u8),
    SetOpacity(u8),
    SetLiveWhenMuted(bool),
    ApplyLighting,
    StopLighting,
    SaveLighting,
}

/// MQTT delivery guarantee.
#[derive(Clone, Copy, PartialEq, Eq, Debug, Structural)]
pub enum Qos {
    AtMostOnce,
    AtLeastOnce,
    ExactlyOnce,
}

pub open spec fn qos_spec(value: u8) -> Qos {
    if value == 0 {
        Qos::AtMostOnce
    } else if value == 2 {
        Qos::ExactlyOnce
    } else {
        Qos::AtLeastOnce
    }
}

/// The configured QoS level; anything but 0 or 2 means "at least once".
pub fn qos_from_u8(value: u8) -> (r: Qos)
    ensures
        r == qos_spec(value),
{
    match value {
        0 => Qos::AtMostOnce,
        2 => Qos::ExactlyOnce,
        _ => Qos::AtLeastOnce,
    }
}

// ---------------------------------------------------------------------------
// Topics
// ---------------------------------------------------------------------------

/// `value.trim().trim_matches('/')`.
pub open spec fn topic_spec(value: Seq<char>) -> Seq<char> {
    trim_char_seq(trim_seq(value), '/')
}

/// A configured topic prefix with surrounding white space and slashes
/// removed.
pub fn trim_topic(value: &str) -> (r: String)
    ensures
        r@ == topic_spec(value@),
{
    let v = char_vec(value);
    let t = trim_vec(&v);
    let u = trim_char_vec(&t, '/');
    string_from_chars(&u)
}

/// The two topic prefixes the bridge publishes under.
pub struct MqttTopics {
    pub base: String,
    pub discovery_prefix: String,
}

pub open spec fn availability_topic(base: Seq<char>) -> Seq<char> {
    base + "/status"@
}

pub open spec fn state_topic(base: Seq<char>, key: Seq<char>) -> Seq<char> {
    base + "/state/"@ + key
}

pub open spec fn command_prefix(base: Seq<char>) -> Seq<char> {
    base + "/command/"@
}

pub open spec fn command_topic(base: Seq<char>, key: Seq<char>) -> Seq<char> {
    command_prefix(base) + key
}

pub open spec fn discovery_topic(prefix: Seq<char>, component: Seq<char>, key: Seq<char>) -> Seq<char> {
    prefix + "/"@ + component + "/hyperx_mic_lite_"@ + key + "/config"@
}

impl MqttTopics {
    /// The topics of a configuration: both prefixes trimmed.
    pub fn from_config(config: &MqttConfig) -> (r: Self)
        ensures
            r.base@ == topic_spec(config.base_topic@),
            r.discovery_prefix@ == topic_spec(config.discovery_prefix@),
    {
        MqttTopics {
            base: trim_topic(config.base_topic.as_str()),
            discovery_prefix: trim_topic(config.discovery_prefix.as_str()),
        }
    }

    /// Where the bridge says `online` / `offline`.
    pub fn availability(&self) -> (r: String)
        ensures
            r@ == availability_topic(self.base@),
    {
        concat2(self.base.as_str(), "/status")
    }

    pub fn state(&self, key: &str) -> (r: String)
        ensures
            r@ == state_topic(self.base@, key@),
    {
        concat3(self.base.as_str(), "/state/", key)
    }

    pub fn command(&self, key: &str) -> (r: String)
        ensures
            r@ == command_topic(self.base@, key@),
    {
        concat3(self.base.as_str(), "/command/", key)
    }

    /// The subscription that covers every command topic.
    pub fn command_wildcard(&self) -> (r: String)
        ensures
            r@ == self.base@ + "/command/#"@,
    {
        concat2(self.base.as_str(), "/command/#")
    }

    pub fn discovery(&self, component: &str, key: &str) -> (r: String)
        ensures
            r@ == discovery_topic(self.discovery_prefix@, component@, key@),
    {
        let a = concat3(self.discovery_prefix.as_str(), "/", component);
        let b = concat3(a.as_str(), "/hyperx_mic_lite_", key);
        concat2(b.as_str(), "/config")
    }
}

// ---------------------------------------------------------------------------
// Commands
// ---------------------------------------------------------------------------

/// On/off payloads, read without regard to ASCII case.
pub open spec fn bool_command_spec(payload: Seq<char>) -> Option<bool> {
    let l = lower_seq(payload);
    if l == "on"@ || l == "true"@ || l == "1"@ || l == "muted"@ || l == "yes"@ {
        Some(true)
    } else if l == "off"@ || l == "false"@ || l == "0"@ || l == "live"@ || l == "no"@ {
        Some(false)
    } else {
        None
    }
}

pub fn parse_bool_command(payload: &str) -> (r: Option<bool>)
    ensures
        r == bool_command_spec(payload@),
{
    let l = lower_vec(&char_vec(payload));
    if chars_eq_str(&l, "on") || chars_eq_str(&l, "true") || chars_eq_str(&l, "1") || chars_eq_str(
        &l,
        "muted",
    ) || chars_eq_str(&l, "yes") {
        Some(true)
    } else if chars_eq_str(&l, "off") || chars_eq_str(&l, "false") || chars_eq_str(&l, "0")
        || chars_eq_str(&l, "live") || chars_eq_str(&l, "no") {
        Some(false)
    } else {
        None
    }
}

/// An on/off payload means what it spells: it reads as on exactly when,
/// ignoring ASCII case, it is one of `on`, `true`, `1`, `muted`, `yes`, and
/// as off exactly when it is one of `off`, `false`, `0`, `live`, `no`.
pub proof fn law_bool_payload_means_what_it_spells(payload: Seq<char>)
    ensures
        bool_command_spec(payload) == Some(true) <==> set!["on"@, "true"@, "1"@, "muted"@, "yes"@].contains(
            lower_seq(payload),
        ),
        bool_command_spec(payload) == Some(false) <==> set!["off"@, "false"@, "0"@, "live"@, "no"@].contains(
            lower_seq(payload),
        ),
{
    reveal_strlit("on");
    reveal_strlit("true");
    reveal_strlit("1");
    reveal_strlit("muted");
    reveal_strlit("yes");
    reveal_strlit("off");
    reveal_strlit("false");
    reveal_strlit("0");
    reveal_strlit("live");
    reveal_strlit("no");
    assert("on"@.len() != "off"@.len());
    assert("on"@.len() != "false"@.len());
    assert("on"@.len() != "0"@.len());
    assert("on"@.len() != "live"@.len());
    assert("on"@[0] != "no"@[0]);
    assert("true"@.len() != "off"@.len());
    assert("true"@.len() != "false"@.len());
    assert("true"@.len() != "0"@.len());
    assert("true"@[0] != "live"@[0]);
    assert("true"@.len() != "no"@.len());
    assert("1"@.len() != "off"@.len());
    assert("1"@.len() != "false"@.len());
    assert("1"@[0] != "0"@[0]);
    assert("1"@.len() != "live"@.len());
    assert("1"@.len() != "no"@.len());
    assert("muted"@.len() != "off"@.len());
    assert("muted"@[0] != "false"@[0]);
    assert("muted"@.len() != "0"@.len());
    assert("muted"@.len() != "live"@.len());
    assert("muted"@.len() != "no"@.len());
    assert("yes"@[0] != "off"@[0]);
    assert("yes"@.len() != "false"@.len());
    assert("yes"@.len() != "0"@.len());
    assert("yes"@.len() != "live"@.len());
    assert("yes"@.len() != "no"@.len());
    let l = lower_seq(payload);
    let on_words = set!["on"@, "true"@, "1"@, "muted"@, "yes"@];
    let off_words = set!["off"@, "false"@, "0"@, "live"@, "no"@];
    assert(on_words.contains(l) <==> (l == "on"@ || l == "true"@ || l == "1"@ || l == "muted"@
        || l == "yes"@));
    assert(off_words.contains(l) <==> (l == "off"@ || l == "false"@ || l == "0"@ || l == "live"@
        || l == "no"@));
    if off_words.contains(l) {
        assert(!on_words.contains(l));
    }
}

/// A `u8` as `str::parse` reads it, accepted only up to 100.
pub open spec fn percent_spec(payload: Seq<char>) -> Option<u8> {
    match parse_unsigned_spec(payload, 10, 255) {
        Some(v) => if v <= 100 {
            Some(v as u8)
        } else {
            None
        },
        None => None,
    }
}

pub fn parse_percent(payload: &str) -> (r: Option<u8>)
    ensures
        r == percent_spec(payload@),
{
    match parse_unsigned(&char_vec(payload), 10, 255) {
        Some(v) => if v <= 100 {
            Some(v as u8)
        } else {
            None
        },
        None => None,
    }
}

/// An effect name, spelled exactly as in the configuration.
pub fn parse_effect(payload: &str) -> (r: Option<Effect>)
    ensures
        r == effect_from_name(payload@),
{
    effect_by_name(payload)
}

/// A target name, spelled exactly as in the configuration.
pub fn parse_target(payload: &str) -> (r: Option<LightTarget>)
    ensures
        r == target_from_name(payload@),
{
    target_by_name(payload)
}

/// The command a (trimmed) payload on the command topic `key` asks for.
pub open spec fn keyed_command(key: Seq<char>, p: Seq<char>) -> Option<MqttCommand> {
    if key == "mute"@ {
        match bool_command_spec(p) {
            Some(b) => Some(MqttCommand::SetMute(b)),
            None => if lower_seq(p) == "toggle"@ {
                Some(MqttCommand::ToggleMute)
            } else {
                None
            },
        }
    } else if key == "mic_volume"@ {
        match percent_spec(p) {
            Some(v) => Some(MqttCommand::SetMicVolume(v)),
            None => None,
        }
    } else if key == "mic_monitoring"@ {
        match percent_spec(p) {
            Some(v) => Some(MqttCommand::SetMonitoringVolume(v)),
            None => None,
        }
    } else if key == "headphone_volume"@ {
        match percent_spec(p) {
            Some(v) => Some(MqttCommand::SetHeadphoneVolume(v)),
            None => None,
        }
    } else if key == "brightness"@ {
        match percent_spec(p) {
            Some(v) => Some(MqttCommand::SetBrightness(v)),
            None => None,
        }
    } else if key == "speed"@ {
        match percent_spec(p) {
            Some(v) => Some(MqttCommand::SetSpeed(v)),
            None => None,
        }
    } else if key == "opacity"@ {
        match percent_spec(p) {
            Some(v) => Some(MqttCommand::SetOpacity(v)),
            None => None,
        }
    } else if key == "effect"@ {
        match effect_from_name(p) {
            Some(e) => Some(MqttCommand::SetEffect(e)),
            None => None,
        }
    } else if key == "target"@ {
        match target_from_name(p) {
            Some(t) => Some(MqttCommand::SetTarget(t)),
            None => None,
        }
    } else if key == "live_when_muted"@ {
        match bool_command_spec(p) {
            Some(b) => Some(MqttCommand::SetLiveWhenMuted(b)),
            None => None,
        }
    } else if key == "apply"@ {
        Some(MqttCommand::ApplyLighting)
    } else if key == "stop"@ {
        Some(MqttCommand::StopLighting)
    } else if key == "save"@ {
        Some(MqttCommand::SaveLighting)
    } else {
        None
    }
}

/// The command a message asks for: `None` for a topic outside
/// `<base>/command/` or a payload the key does not accept.
pub open spec fn command_spec(base: Seq<char>, topic: Seq<char>, payload: Seq<char>) -> Option<MqttCommand> {
    let prefix = command_prefix(base);
    if starts_with_seq(topic, prefix) {
        keyed_command(topic.subrange(prefix.len() as int, topic.len() as int), trim_seq(payload))
    } else {
        None
    }
}

fn keyed_command_exec(key: &Vec<char>, p: &str) -> (r: Option<MqttCommand>)
    ensures
        r == keyed_command(key@, p@),
{
    if chars_eq_str(key, "mute") {
        match parse_bool_command(p) {
            Some(b) => Some(MqttCommand::SetMute(b)),
            None => if chars_eq_str(&lower_vec(&char_vec(p)), "toggle") {
                Some(MqttCommand::ToggleMute)
            } else {
                None
            },
        }
    } else if chars_eq_str(key, "mic_volume") {
        match parse_percent(p) {
            Some(v) => Some(MqttCommand::SetMicVolume(v)),
            None => None,
        }
    } else if chars_eq_str(key, "mic_monitoring") {
        match parse_percent(p) {
            Some(v) => Some(MqttCommand::SetMonitoringVolume(v)),
            None => None,
        }
    } else if chars_eq_str(key, "headphone_volume") {
        match parse_percent(p) {
            Some(v) => Some(MqttCommand::SetHeadphoneVolume(v)),
            None => None,
        }
    } else if chars_eq_str(key, "brightness") {
        match parse_percent(p) {
            Some(v) => Some(MqttCommand::SetBrightness(v)),
            None => None,
        }
    } else if chars_eq_str(key, "speed") {
        match parse_percent(p) {
            Some(v) => Some(MqttCommand::SetSpeed(v)),
            None => None,
        }
    } else if chars_eq_str(key, "opacity") {
        match parse_percent(p) {
            Some(v) => Some(MqttCommand::SetOpacity(v)),
            None => None,
        }
    } else if chars_eq_str(key, "effect") {
        match parse_effect(p) {
            Some(e) => Some(MqttCommand::SetEffect(e)),
            None => None,
        }
    } else if chars_eq_str(key, "target") {
        match parse_target(p) {
            Some(t) => Some(MqttCommand::SetTarget(t)),
            None => None,
        }
    } else if chars_eq_str(key, "live_when_muted") {
        match parse_bool_command(p) {
            Some(b) => Some(MqttCommand::SetLiveWhenMuted(b)),
            None => None,
        }
    } else if chars_eq_str(key, "apply") {
        Some(MqttCommand::ApplyLighting)
    } else if chars_eq_str(key, "stop") {
        Some(MqttCommand::StopLighting)
    } else if chars_eq_str(key, "save") {
        Some(MqttCommand::SaveLighting)
    } else {
        None
    }
}

/// Reads a message received on `topic`.
pub fn parse_command(topics: &MqttTopics, topic: &str, payload: &str) -> (r: Option<MqttCommand>)
    ensures
        r == command_spec(topics.base@, topic@, payload@),
{
    let prefix = char_vec(concat2(topics.base.as_str(), "/command/").as_str());
    let t = char_vec(topic);
    if !starts_with_vec(&t, &prefix) {
        return None;
    }
    let key = sub_vec(&t, prefix.len(), t.len());
    let p = string_from_chars(&trim_vec(&char_vec(payload)));
    keyed_command_exec(&key, p.as_str())
}

// ---------------------------------------------------------------------------
// Broker URL
// ---------------------------------------------------------------------------

/// The bytes a URL query value may carry as they are.
pub open spec fn is_unreserved(b: u8) -> bool {
    ||| (65 <= b && b <= 90)
    ||| (97 <= b && b <= 122)
    ||| (48 <= b && b <= 57)
    ||| b == 45
    ||| b == 95
    ||| b == 46
    ||| b == 126
}

pub open spec fn hex_upper(n: u8) -> char {
    if n < 10 {
        (48 + n) as char
    } else {
        (55 + n) as char
    }
}

/// One byte of a percent-encoded URL component.
pub open spec fn url_byte(b: u8) -> Seq<char> {
    if is_unreserved(b) {
        seq![b as char]
    } else {
        seq!['%', hex_upper(b / 16), hex_upper(b % 16)]
    }
}

/// Percent-encoding, byte by byte, with upper-case hex digits.
pub open spec fn url_encode(bs: Seq<u8>) -> Seq<char>
    decreases bs.len(),
{
    if bs.len() == 0 {
        Seq::empty()
    } else {
        url_encode(bs.drop_last()) + url_byte(bs.last())
    }
}

fn hex_upper_char(n: u8) -> (r: char)
    requires
        n < 16,
    ensures
        r == hex_upper(n),
{
    if n < 10 {
        (48 + n) as char
    } else {
        (55 + n) as char
    }
}

/// Percent-encodes the UTF-8 bytes of `value` for a URL query.
pub fn mqtt_url_component(value: &str) -> (r: String)
    ensures
        r@ == url_encode(encode_utf8(value@)),
{
    let bytes = value.as_bytes();
    let mut r = String::new();
    let mut i: usize = 0;
    while i < bytes.len()
        invariant
            i <= bytes@.len(),
            r@ == url_encode(bytes@.subrange(0, i as int)),
        decreases bytes@.len() - i,
    {
        let b = bytes[i];
        let ghost before = r@;
        if (65 <= b && b <= 90) || (97 <= b && b <= 122) || (48 <= b && b <= 57) || b == 45 || b
            == 95 || b == 46 || b == 126 {
            push_char(&mut r, b as char);
        } else {
            push_char(&mut r, '%');
            push_char(&mut r, hex_upper_char(b / 16));
            push_char(&mut r, hex_upper_char(b % 16));
        }
        assert(r@ =~= before + url_byte(b));
        assert(bytes@.subrange(0, i + 1).drop_last() =~= bytes@.subrange(0, i as int));
        i = i + 1;
    }
    assert(bytes@.subrange(0, bytes@.len() as int) =~= bytes@);
    r
}

/// The broker URL with the client id as a query parameter, unless the URL
/// already names one (in any ASCII case).
pub open spec fn url_with_client_id_spec(url: Seq<char>, client_id: Seq<char>) -> Seq<char> {
    if has_infix(lower_seq(url), "client_id="@) {
        url
    } else {
        url + seq![
            if url.contains('?') {
                '&'
            } else {
                '?'
            },
        ] + "client_id="@ + url_encode(encode_utf8(client_id))
    }
}

pub fn mqtt_url_with_client_id(url: &str, client_id: &str) -> (r: String)
    ensures
        r@ == url_with_client_id_spec(url@, client_id@),
{
    let u = char_vec(url);
    if contains_vec(&lower_vec(&u), &char_vec("client_id=")) {
        return string_from_chars(&u);
    }
    let separator = if contains_char_vec(&u, '?') {
        '&'
    } else {
        '?'
    };
    let mut r = string_from_chars(&u);
    push_char(&mut r, separator);
    let r2 = concat3(r.as_str(), "client_id=", mqtt_url_component(client_id).as_str());
    r2
}

/// A character that needs no escaping in a URL query value.
pub open spec fn url_safe_char(c: char) -> bool {
    ||| ('A' <= c && c <= 'Z')
    ||| ('a' <= c && c <= 'z')
    ||| ('0' <= c && c <= '9')
    ||| c == '-'
    ||| c == '_'
    ||| c == '.'
    ||| c == '~'
    ||| c == '%'
}

/// Whatever bytes it is given, percent-encoding yields only URL-safe
/// characters: no `&`, `=`, `?`, `#`, space or non-ASCII character can
/// reach the query string through a client id.
pub proof fn law_url_component_is_url_safe(bs: Seq<u8>)
    ensures
        forall|i: int| 0 <= i < url_encode(bs).len() ==> url_safe_char(#[trigger] url_encode(bs)[i]),
    decreases bs.len(),
{
    if bs.len() > 0 {
        law_url_component_is_url_safe(bs.drop_last());
        let b = bs.last();
        let head = url_encode(bs.drop_last());
        let tail = url_byte(b);
        assert(b / 16 < 16 && b % 16 < 16);
        assert forall|i: int| 0 <= i < tail.len() implies url_safe_char(#[trigger] tail[i]) by {
            if !is_unreserved(b) {
                assert(url_safe_char(hex_upper(b / 16)));
                assert(url_safe_char(hex_upper(b % 16)));
            }
        }
        assert forall|i: int| 0 <= i < url_encode(bs).len() implies url_safe_char(#[trigger] url_encode(bs)[i]) by {
            if i < head.len() {
                assert(url_encode(bs)[i] == head[i]);
            } else {
                assert(url_encode(bs)[i] == tail[i - head.len()]);
            }
        }
    }
}

// ---------------------------------------------------------------------------
// State messages
// ---------------------------------------------------------------------------

/// What the bridge reports about the microphone.
pub struct MqttStateSnapshot {
    pub available: bool,
    pub device_name: String,
    pub device_state: String,
    pub muted: bool,
    pub mic_volume: u8,
    pub mic_monitoring: u8,
    pub headphone_volume: u8,
    /// The input level in percent, already written with one decimal place.
    pub input_level: String,
    pub polar_pattern: String,
    pub lighting_available: bool,
    pub effect: String,
    pub target: String,
    pub brightness: u8,
    pub speed: u8,
    pub opacity: u8,
    pub live_when_muted: bool,
}

/// One message to publish.
pub struct StateMessage {
    pub topic: String,
    pub payload: String,
    pub retain: bool,
}

pub open spec fn message_view(m: StateMessage) -> (Seq<char>, Seq<char>, bool) {
    (m.topic@, m.payload@, m.retain)
}

pub open spec fn on_off(b: bool) -> Seq<char> {
    if b {
        "ON"@
    } else {
        "OFF"@
    }
}

/// The per-value state messages, in publishing order: availability and the
/// device's name and state are always retained, the input level never, the
/// rest as configured.
pub open spec fn state_messages_spec(base: Seq<char>, s: MqttStateSnapshot, retain: bool) -> Seq<
    (Seq<char>, Seq<char>, bool),
> {
    seq![
        (state_topic(base, "availability"@), if s.available {
            "online"@
        } else {
            "offline"@
        }, true),
        (state_topic(base, "device_name"@), s.device_name@, true),
        (state_topic(base, "device_state"@), s.device_state@, true),
        (state_topic(base, "mute"@), on_off(s.muted), retain),
        (state_topic(base, "mic_volume"@), decimal_seq(s.mic_volume as nat), retain),
        (state_topic(base, "mic_monitoring"@), decimal_seq(s.mic_monitoring as nat), retain),
        (state_topic(base, "headphone_volume"@), decimal_seq(s.headphone_volume as nat), retain),
        (state_topic(base, "input_level"@), s.input_level@, false),
        (state_topic(base, "polar_pattern"@), s.polar_pattern@, retain),
        (state_topic(base, "lighting_available"@), on_off(s.lighting_available), retain),
        (state_topic(base, "effect"@), s.effect@, retain),
        (state_topic(base, "target"@), s.target@, retain),
        (state_topic(base, "brightness"@), decimal_seq(s.brightness as nat), retain),
        (state_topic(base, "speed"@), decimal_seq(s.speed as nat), retain),
        (state_topic(base, "opacity"@), decimal_seq(s.opacity as nat), retain),
        (state_topic(base, "live_when_muted"@), on_off(s.live_when_muted), retain),
    ]
}

fn on_off_text(b: bool) -> (r: String)
    ensures
        r@ == on_off(b),
{
    if b {
        owned("ON")
    } else {
        owned("OFF")
    }
}

fn message(topics: &MqttTopics, key: &str, payload: String, retain: bool) -> (r: StateMessage)
    ensures
        message_view(r) == (state_topic(topics.base@, key@), payload@, retain),
{
    StateMessage { topic: topics.state(key), payload, retain }
}

/// The messages that publish each value of `state` under its own topic.
pub fn state_messages(topics: &MqttTopics, state: &MqttStateSnapshot, retain_state: bool) -> (r: Vec<
    StateMessage,
>)
    ensures
        r@.map_values(|m: StateMessage| message_view(m)) == state_messages_spec(
            topics.base@,
            *state,
            retain_state,
        ),
{
    let mut r: Vec<StateMessage> = Vec::new();
    r.push(
        message(
            topics,
            "availability",
            if state.available {
                owned("online")
            } else {
                owned("offline")
            },
            true,
        ),
    );
    r.push(message(topics, "device_name", state.device_name.clone(), true));
    r.push(message(topics, "device_state", state.device_state.clone(), true));
    r.push(message(topics, "mute", on_off_text(state.muted), retain_state));
    r.push(message(topics, "mic_volume", decimal_string(state.mic_volume as u64), retain_state));
    r.push(
        message(topics, "mic_monitoring", decimal_string(state.mic_monitoring as u64), retain_state),
    );
    r.push(
        message(
            topics,
            "headphone_volume",
            decimal_string(state.headphone_volume as u64),
            retain_state,
        ),
    );
    r.push(message(topics, "input_level", state.input_level.clone(), false));
    r.push(message(topics, "polar_pattern", state.polar_pattern.clone(), retain_state));
    r.push(
        message(topics, "lighting_available", on_off_text(state.lighting_available), retain_state),
    );
    r.push(message(topics, "effect", state.effect.clone(), retain_state));
    r.push(message(topics, "target", state.target.clone(), retain_state));
    r.push(message(topics, "brightness", decimal_string(state.brightness as u64), retain_state));
    r.push(message(topics, "speed", decimal_string(state.speed as u64), retain_state));
    r.push(message(topics, "opacity", decimal_string(state.opacity as u64), retain_state));
    r.push(message(topics, "live_when_muted", on_off_text(state.live_when_muted), retain_state));
    assert(r@.map_values(|m: StateMessage| message_view(m)) =~= state_messages_spec(
        topics.base@,
        *state,
        retain_state,
    ));
    r
}

// ---------------------------------------------------------------------------
// Published state read back as commands
// ---------------------------------------------------------------------------

proof fn lemma_command_topic_key(base: Seq<char>, key: Seq<char>)
    ensures
        starts_with_seq(command_topic(base, key), command_prefix(base)),
        command_topic(base, key).subrange(
            command_prefix(base).len() as int,
            command_topic(base, key).len() as int,
        ) == key,
{
    let t = command_topic(base, key);
    let p = command_prefix(base);
    assert(t.subrange(0, p.len() as int) =~= p);
    assert(t.subrange(p.len() as int, t.len() as int) =~= key);
}

proof fn lemma_command_keys()
    ensures
        "mute"@.len() == 4 && "mute"@[1] == 'u',
        "mic_volume"@.len() == 10 && "mic_volume"@[4] == 'v',
        "mic_monitoring"@.len() == 14,
        "headphone_volume"@.len() == 16,
        "brightness"@.len() == 10 && "brightness"@[4] == 'h',
        "speed"@.len() == 5 && "speed"@[0] == 's',
        "opacity"@.len() == 7,
        "effect"@.len() == 6 && "effect"@[0] == 'e',
        "target"@.len() == 6 && "target"@[0] == 't',
        "live_when_muted"@.len() == 15,
        "apply"@.len() == 5 && "apply"@[0] == 'a',
        "stop"@.len() == 4 && "stop"@[1] == 't',
        "save"@.len() == 4 && "save"@[1] == 'a',
{
    reveal_strlit("mute");
    reveal_strlit("mic_volume");
    reveal_strlit("mic_monitoring");
    reveal_strlit("headphone_volume");
    reveal_strlit("brightness");
    reveal_strlit("speed");
    reveal_strlit("opacity");
    reveal_strlit("effect");
    reveal_strlit("target");
    reveal_strlit("live_when_muted");
    reveal_strlit("apply");
    reveal_strlit("stop");
    reveal_strlit("save");
}

proof fn lemma_on_off_reads_back(b: bool)
    ensures
        trim_seq(on_off(b)) == on_off(b),
        bool_command_spec(on_off(b)) == Some(b),
{
    reveal_strlit("ON");
    reveal_strlit("OFF");
    reveal_strlit("on");
    reveal_strlit("off");
    reveal_strlit("true");
    reveal_strlit("1");
    reveal_strlit("muted");
    reveal_strlit("yes");
    let s = on_off(b);
    lemma_trim_plain(s);
    let l = lower_seq(s);
    if b {
        assert(l =~= "on"@);
    } else {
        assert(l =~= "off"@);
        assert(l[0] == 'o' && "yes"@[0] == 'y');
        assert(l != "yes"@);
    }
}

proof fn lemma_percent_reads_back(v: u8)
    requires
        v <= 100,
    ensures
        trim_seq(decimal_seq(v as nat)) == decimal_seq(v as nat),
        percent_spec(decimal_seq(v as nat)) == Some(v),
{
    let s = decimal_seq(v as nat);
    lemma_decimal_seq_len(v as nat);
    lemma_decimal_seq_value(v as nat);
    assert(is_ascii_digit(s[0]));
    assert(is_ascii_digit(s[s.len() - 1]));
    lemma_trim_plain(s);
    assert(parse_unsigned_spec(s, 10, 255) == Some(v as nat));
}

proof fn lemma_names_read_back(e: Effect, t: LightTarget)
    ensures
        trim_seq(effect_as_config(e)) == effect_as_config(e),
        trim_seq(target_as_config(t)) == target_as_config(t),
{
    law_effect_config_round_trip(e);
    law_target_config_round_trip(t);
    let a = effect_as_config(e);
    let b = target_as_config(t);
    reveal_strlit("wave");
    reveal_strlit("solid");
    reveal_strlit("cycle");
    reveal_strlit("pulse");
    reveal_strlit("blink");
    reveal_strlit("lightning");
    reveal_strlit("vu_meter");
    reveal_strlit("all");
    reveal_strlit("top");
    reveal_strlit("bottom");
    assert(a.len() > 0 && !is_ws(a[0]) && !is_ws(a.last()));
    assert(b.len() > 0 && !is_ws(b[0]) && !is_ws(b.last()));
    lemma_trim_plain(a);
    lemma_trim_plain(b);
}

/// What the bridge publishes on a setting's state topic, sent back
/// unchanged to the command topic of the same key, is read as the command
/// that sets the setting to that value.
pub proof fn law_state_payload_reads_back_as_command(
    base: Seq<char>,
    muted: bool,
    v: u8,
    e: Effect,
    t: LightTarget,
    live: bool,
)
    requires
        v <= 100,
    ensures
        command_spec(base, command_topic(base, "mute"@), on_off(muted)) == Some(
            MqttCommand::SetMute(muted),
        ),
        command_spec(base, command_topic(base, "mic_volume"@), decimal_seq(v as nat)) == Some(
            MqttCommand::SetMicVolume(v),
        ),
        command_spec(base, command_topic(base, "mic_monitoring"@), decimal_seq(v as nat)) == Some(
            MqttCommand::SetMonitoringVolume(v),
        ),
        command_spec(base, command_topic(base, "headphone_volume"@), decimal_seq(v as nat))
            == Some(MqttCommand::SetHeadphoneVolume(v)),
        command_spec(base, command_topic(base, "brightness"@), decimal_seq(v as nat)) == Some(
            MqttCommand::SetBrightness(v),
        ),
        command_spec(base, command_topic(base, "speed"@), decimal_seq(v as nat)) == Some(
            MqttCommand::SetSpeed(v),
        ),
        command_spec(base, command_topic(base, "opacity"@), decimal_seq(v as nat)) == Some(
            MqttCommand::SetOpacity(v),
        ),
        command_spec(base, command_topic(base, "effect"@), effect_as_config(e)) == Some(
            MqttCommand::SetEffect(e),
        ),
        command_spec(base, command_topic(base, "target"@), target_as_config(t)) == Some(
            MqttCommand::SetTarget(t),
        ),
        command_spec(base, command_topic(base, "live_when_muted"@), on_off(live)) == Some(
            MqttCommand::SetLiveWhenMuted(live),
        ),
{
    lemma_command_keys();
    lemma_on_off_reads_back(muted);
    lemma_on_off_reads_back(live);
    lemma_percent_reads_back(v);
    lemma_names_read_back(e, t);
    law_effect_config_round_trip(e);
    law_target_config_round_trip(t);
    lemma_command_topic_key(base, "mute"@);
    lemma_command_topic_key(base, "mic_volume"@);
    lemma_command_topic_key(base, "mic_monitoring"@);
    lemma_command_topic_key(base, "headphone_volume"@);
    lemma_command_topic_key(base, "brightness"@);
    lemma_command_topic_key(base, "speed"@);
    lemma_command_topic_key(base, "opacity"@);
    lemma_command_topic_key(base, "effect"@);
    lemma_command_topic_key(base, "target"@);
    lemma_command_topic_key(base, "live_when_muted"@);
}

// ---------------------------------------------------------------------------
// Home Assistant discovery
// ---------------------------------------------------------------------------

/// The device every discovered entity belongs to.
pub open spec fn device_doc() -> Json {
    Json::Object(
        seq![
            ("identifiers"@, Json::Array(seq![Json::Str("hyperx_mic_lite_quadcast_s"@)])),
            ("name"@, Json::Str("HyperX QuadCast S"@)),
            ("manufacturer"@, Json::Str("HyperX"@)),
            ("model"@, Json::Str("QuadCast S"@)),
        ],
    )
}

/// The members every discovery document starts with.
pub open spec fn base_members(base: Seq<char>, key: Seq<char>, name: Seq<char>, icon: Seq<char>) -> Seq<
    (Seq<char>, Json),
> {
    seq![
        ("name"@, Json::Str(name)),
        ("unique_id"@, Json::Str("hyperx_mic_lite_"@ + key)),
        ("object_id"@, Json::Str("hyperx_mic_lite_"@ + key)),
        ("availability_topic"@, Json::Str(availability_topic(base))),
        ("payload_available"@, Json::Str("online"@)),
        ("payload_not_available"@, Json::Str("offline"@)),
        ("icon"@, Json::Str("mdi:"@ + icon)),
        ("device"@, device_doc()),
    ]
}

pub open spec fn switch_doc(
    base: Seq<char>,
    key: Seq<char>,
    name: Seq<char>,
    icon: Seq<char>,
    state: Seq<char>,
    command: Seq<char>,
) -> Json {
    Json::Object(
        base_members(base, key, name, icon) + seq![("state_topic"@, Json::Str(state))] + (if command.len()
            > 0 {
            seq![("command_topic"@, Json::Str(command))]
        } else {
            Seq::empty()
        }) + seq![("payload_on"@, Json::Str("ON"@)), ("payload_off"@, Json::Str("OFF"@))],
    )
}

pub open spec fn number_doc(
    base: Seq<char>,
    key: Seq<char>,
    name: Seq<char>,
    icon: Seq<char>,
    state: Seq<char>,
    command: Seq<char>,
) -> Json {
    Json::Object(
        base_members(base, key, name, icon) + seq![
            ("state_topic"@, Json::Str(state)),
            ("command_topic"@, Json::Str(command)),
            ("min"@, Json::Number("0"@)),
            ("max"@, Json::Number("100"@)),
            ("step"@, Json::Number("1"@)),
            ("mode"@, Json::Str("slider"@)),
        ],
    )
}

pub open spec fn sensor_doc(
    base: Seq<char>,
    key: Seq<char>,
    name: Seq<char>,
    icon: Seq<char>,
    unit: Seq<char>,
    state: Seq<char>,
) -> Json {
    Json::Object(
        base_members(base, key, name, icon) + seq![("state_topic"@, Json::Str(state))] + (if unit.len()
            > 0 {
            seq![("unit_of_measurement"@, Json::Str(unit))]
        } else {
            Seq::empty()
        }),
    )
}

pub open spec fn select_doc(
    base: Seq<char>,
    key: Seq<char>,
    name: Seq<char>,
    options: Seq<Seq<char>>,
    state: Seq<char>,
    command: Seq<char>,
) -> Json {
    Json::Object(
        base_members(base, key, name, "form-select"@) + seq![
            ("state_topic"@, Json::Str(state)),
            ("command_topic"@, Json::Str(command)),
            ("options"@, Json::Array(options.map_values(|o: Seq<char>| Json::Str(o)))),
        ],
    )
}

pub open spec fn button_doc(base: Seq<char>, key: Seq<char>, name: Seq<char>, command: Seq<char>) -> Json {
    Json::Object(
        base_members(base, key, name, "gesture-tap-button"@) + seq![
            ("command_topic"@, Json::Str(command)),
        ],
    )
}

pub open spec fn effect_options() -> Seq<Seq<char>> {
    seq!["wave"@, "solid"@, "cycle"@, "pulse"@, "blink"@, "lightning"@, "vu_meter"@]
}

pub open spec fn target_options() -> Seq<Seq<char>> {
    seq!["all"@, "top"@, "bottom"@]
}

/// Every entity the bridge announces: where its document is published and
/// what it says.
pub open spec fn discovery_spec(base: Seq<char>, prefix: Seq<char>) -> Seq<(Seq<char>, Json)> {
    let st = |k: Seq<char>| state_topic(base, k);
    let ct = |k: Seq<char>| command_topic(base, k);
    seq![
        (discovery_topic(prefix, "switch"@, "mute"@), switch_doc(base, "mute"@, "Microphone Muted"@, "microphone"@, st("mute"@), ct("mute"@))),
        (discovery_topic(prefix, "switch"@, "live_when_muted"@), switch_doc(base, "live_when_muted"@, "Lights Show Live State"@, "light"@, st("live_when_muted"@), ct("live_when_muted"@))),
        (discovery_topic(prefix, "switch"@, "lighting_available"@), switch_doc(base, "lighting_available"@, "Lighting Available"@, "light"@, st("lighting_available"@), Seq::empty())),
        (discovery_topic(prefix, "number"@, "mic_volume"@), number_doc(base, "mic_volume"@, "Mic Volume"@, "volume"@, st("mic_volume"@), ct("mic_volume"@))),
        (discovery_topic(prefix, "number"@, "mic_monitoring"@), number_doc(base, "mic_monitoring"@, "Mic Monitoring"@, "volume"@, st("mic_monitoring"@), ct("mic_monitoring"@))),
        (discovery_topic(prefix, "number"@, "headphone_volume"@), number_doc(base, "headphone_volume"@, "Headphone Volume"@, "volume"@, st("headphone_volume"@), ct("headphone_volume"@))),
        (discovery_topic(prefix, "number"@, "brightness"@), number_doc(base, "brightness"@, "Lighting Brightness"@, "light"@, st("brightness"@), ct("brightness"@))),
        (discovery_topic(prefix, "number"@, "speed"@), number_doc(base, "speed"@, "Lighting Speed"@, "speedometer"@, st("speed"@), ct("speed"@))),
        (discovery_topic(prefix, "number"@, "opacity"@), number_doc(base, "opacity"@, "Lighting Opacity"@, "brightness-percent"@, st("opacity"@), ct("opacity"@))),
        (discovery_topic(prefix, "sensor"@, "input_level"@), sensor_doc(base, "input_level"@, "Input Level"@, "sound-pressure"@, "%"@, st("input_level"@))),
        (discovery_topic(prefix, "sensor"@, "device_state"@), sensor_doc(base, "device_state"@, "Device State"@, "information"@, Seq::empty(), st("device_state"@))),
        (discovery_topic(prefix, "sensor"@, "polar_pattern"@), sensor_doc(base, "polar_pattern"@, "Polar Pattern"@, "microphone"@, Seq::empty(), st("polar_pattern"@))),
        (discovery_topic(prefix, "select"@, "effect"@), select_doc(base, "effect"@, "Lighting Effect"@, effect_options(), st("effect"@), ct("effect"@))),
        (discovery_topic(prefix, "select"@, "target"@), select_doc(base, "target"@, "Lighting Target"@, target_options(), st("target"@), ct("target"@))),
        (discovery_topic(prefix, "button"@, "apply"@), button_doc(base, "apply"@, "Apply Lighting"@, ct("apply"@))),
        (discovery_topic(prefix, "button"@, "stop"@), button_doc(base, "stop"@, "Stop Lighting Stream"@, ct("stop"@))),
        (discovery_topic(prefix, "button"@, "save"@), button_doc(base, "save"@, "Save Lighting To Mic"@, ct("save"@))),
    ]
}

fn text_json(s: &str) -> (r: JsonValue)
    ensures
        json_view(r) == Json::Str(s@),
{
    JsonValue::Str(owned(s))
}

fn string_json(s: String) -> (r: JsonValue)
    ensures
        json_view(r) == Json::Str(s@),
{
    JsonValue::Str(s)
}

fn number_json(text: &str) -> (r: JsonValue)
    ensures
        json_view(r) == Json::Number(text@),
{
    JsonValue::Number(owned(text))
}

fn field(key: &str, v: JsonValue) -> (r: (String, JsonValue))
    ensures
        r.0@ == key@,
        r.1 == v,
{
    (owned(key), v)
}

fn push_field(es: &mut Vec<(String, JsonValue)>, key: &str, v: JsonValue)
    ensures
        members_view(final(es)@) == members_view(old(es)@).push((key@, json_view(v))),
{
    let ghost before = es@;
    es.push(field(key, v));
    assert(members_view(es@) =~= members_view(before).push((key@, json_view(v))));
}

fn byte_json(v: u8) -> (r: JsonValue)
    ensures
        json_view(r) == Json::Number(decimal_seq(v as nat)),
{
    JsonValue::Number(decimal_string(v as u64))
}

/// The document published on the `json` state topic: every field of the
/// snapshot under its own name, in the snapshot's order, with the input
/// level as the JSON number `input_level_number`.
pub open spec fn state_doc(s: MqttStateSnapshot, input_level_number: Seq<char>) -> Json {
    Json::Object(
        seq![
            ("available"@, Json::Bool(s.available)),
            ("device_name"@, Json::Str(s.device_name@)),
            ("device_state"@, Json::Str(s.device_state@)),
            ("muted"@, Json::Bool(s.muted)),
            ("mic_volume"@, Json::Number(decimal_seq(s.mic_volume as nat))),
            ("mic_monitoring"@, Json::Number(decimal_seq(s.mic_monitoring as nat))),
            ("headphone_volume"@, Json::Number(decimal_seq(s.headphone_volume as nat))),
            ("input_level_percent"@, Json::Number(input_level_number)),
            ("polar_pattern"@, Json::Str(s.polar_pattern@)),
            ("lighting_available"@, Json::Bool(s.lighting_available)),
            ("effect"@, Json::Str(s.effect@)),
            ("target"@, Json::Str(s.target@)),
            ("brightness"@, Json::Number(decimal_seq(s.brightness as nat))),
            ("speed"@, Json::Number(decimal_seq(s.speed as nat))),
            ("opacity"@, Json::Number(decimal_seq(s.opacity as nat))),
            ("live_when_muted"@, Json::Bool(s.live_when_muted)),
        ],
    )
}

/// The state document of `state`.  The input level is measured in floating
/// point, so the caller writes it as a JSON number and passes that text.
pub fn state_document(state: &MqttStateSnapshot, input_level_number: String) -> (r: JsonValue)
    ensures
        json_view(r) == state_doc(*state, input_level_number@),
{
    let mut es: Vec<(String, JsonValue)> = Vec::new();
    push_field(&mut es, "available", JsonValue::Bool(state.available));
    push_field(&mut es, "device_name", JsonValue::Str(state.device_name.clone()));
    push_field(&mut es, "device_state", JsonValue::Str(state.device_state.clone()));
    push_field(&mut es, "muted", JsonValue::Bool(state.muted));
    push_field(&mut es, "mic_volume", byte_json(state.mic_volume));
    push_field(&mut es, "mic_monitoring", byte_json(state.mic_monitoring));
    push_field(&mut es, "headphone_volume", byte_json(state.headphone_volume));
    push_field(&mut es, "input_level_percent", JsonValue::Number(input_level_number));
    push_field(&mut es, "polar_pattern", JsonValue::Str(state.polar_pattern.clone()));
    push_field(&mut es, "lighting_available", JsonValue::Bool(state.lighting_available));
    push_field(&mut es, "effect", JsonValue::Str(state.effect.clone()));
    push_field(&mut es, "target", JsonValue::Str(state.target.clone()));
    push_field(&mut es, "brightness", byte_json(state.brightness));
    push_field(&mut es, "speed", byte_json(state.speed));
    push_field(&mut es, "opacity", byte_json(state.opacity));
    push_field(&mut es, "live_when_muted", JsonValue::Bool(state.live_when_muted));
    proof {
        lemma_object_view(es);
    }
    assert(members_view(es@) =~= state_doc(*state, input_level_number@)->Object_0);
    JsonValue::Object(es)
}

fn device_json() -> (r: JsonValue)
    ensures
        json_view(r) == device_doc(),
{
    let mut ids: Vec<JsonValue> = Vec::new();
    ids.push(text_json("hyperx_mic_lite_quadcast_s"));
    let ids_json = JsonValue::Array(ids);
    assert(json_view(ids_json)->Array_0 =~= seq![Json::Str("hyperx_mic_lite_quadcast_s"@)]);
    let mut es: Vec<(String, JsonValue)> = Vec::new();
    push_field(&mut es, "identifiers", ids_json);
    push_field(&mut es, "name", text_json("HyperX QuadCast S"));
    push_field(&mut es, "manufacturer", text_json("HyperX"));
    push_field(&mut es, "model", text_json("QuadCast S"));
    proof {
        lemma_object_view(es);
    }
    assert(members_view(es@) =~= device_doc()->Object_0);
    JsonValue::Object(es)
}

fn discovery_base(topics: &MqttTopics, key: &str, name: &str, icon: &str) -> (r: Vec<(String, JsonValue)>)
    ensures
        members_view(r@) == base_members(topics.base@, key@, name@, icon@),
{
    let mut es: Vec<(String, JsonValue)> = Vec::new();
    push_field(&mut es, "name", text_json(name));
    push_field(&mut es, "unique_id", string_json(concat2("hyperx_mic_lite_", key)));
    push_field(&mut es, "object_id", string_json(concat2("hyperx_mic_lite_", key)));
    push_field(&mut es, "availability_topic", string_json(topics.availability()));
    push_field(&mut es, "payload_available", text_json("online"));
    push_field(&mut es, "payload_not_available", text_json("offline"));
    push_field(&mut es, "icon", string_json(concat2("mdi:", icon)));
    push_field(&mut es, "device", device_json());
    assert(members_view(es@) =~= base_members(topics.base@, key@, name@, icon@));
    es
}

fn discovery_switch(
    topics: &MqttTopics,
    key: &str,
    name: &str,
    icon: &str,
    state_topic: String,
    command_topic: String,
) -> (r: (String, JsonValue))
    ensures
        r.0@ == discovery_topic(topics.discovery_prefix@, "switch"@, key@),
        json_view(r.1) == switch_doc(topics.base@, key@, name@, icon@, state_topic@, command_topic@),
{
    let mut es = discovery_base(topics, key, name, icon);
    let ghost b = members_view(es@);
    push_field(&mut es, "state_topic", string_json(state_topic));
    let ghost c = members_view(es@);
    if !command_topic.as_str().is_empty() {
        push_field(&mut es, "command_topic", string_json(command_topic.clone()));
    }
    let ghost d = members_view(es@);
    assert(d =~= c + (if command_topic@.len() > 0 {
        seq![("command_topic"@, Json::Str(command_topic@))]
    } else {
        Seq::empty()
    }));
    push_field(&mut es, "payload_on", text_json("ON"));
    push_field(&mut es, "payload_off", text_json("OFF"));
    assert(members_view(es@) =~= switch_doc(
        topics.base@,
        key@,
        name@,
        icon@,
        state_topic@,
        command_topic@,
    )->Object_0);
    proof {
        lemma_object_view(es);
    }
    (topics.discovery("switch", key), JsonValue::Object(es))
}

fn discovery_number(
    topics: &MqttTopics,
    key: &str,
    name: &str,
    icon: &str,
    state_topic: String,
    command_topic: String,
) -> (r: (String, JsonValue))
    ensures
        r.0@ == discovery_topic(topics.discovery_prefix@, "number"@, key@),
        json_view(r.1) == number_doc(topics.base@, key@, name@, icon@, state_topic@, command_topic@),
{
    let mut es = discovery_base(topics, key, name, icon);
    push_field(&mut es, "state_topic", string_json(state_topic));
    push_field(&mut es, "command_topic", string_json(command_topic));
    push_field(&mut es, "min", number_json("0"));
    push_field(&mut es, "max", number_json("100"));
    push_field(&mut es, "step", number_json("1"));
    push_field(&mut es, "mode", text_json("slider"));
    assert(members_view(es@) =~= number_doc(
        topics.base@,
        key@,
        name@,
        icon@,
        state_topic@,
        command_topic@,
    )->Object_0);
    proof {
        lemma_object_view(es);
    }
    (topics.discovery("number", key), JsonValue::Object(es))
}

fn discovery_sensor(
    topics: &MqttTopics,
    key: &str,
    name: &str,
    icon: &str,
    unit: &str,
    state_topic: String,
) -> (r: (String, JsonValue))
    ensures
        r.0@ == discovery_topic(topics.discovery_prefix@, "sensor"@, key@),
        json_view(r.1) == sensor_doc(topics.base@, key@, name@, icon@, unit@, state_topic@),
{
    let mut es = discovery_base(topics, key, name, icon);
    push_field(&mut es, "state_topic", string_json(state_topic));
    let ghost c = members_view(es@);
    if !unit.is_empty() {
        push_field(&mut es, "unit_of_measurement", text_json(unit));
    }
    assert(members_view(es@) =~= sensor_doc(
        topics.base@,
        key@,
        name@,
        icon@,
        unit@,
        state_topic@,
    )->Object_0);
    proof {
        lemma_object_view(es);
    }
    (topics.discovery("sensor", key), JsonValue::Object(es))
}

fn discovery_select(
    topics: &MqttTopics,
    key: &str,
    name: &str,
    options: &Vec<&str>,
    state_topic: String,
    command_topic: String,
) -> (r: (String, JsonValue))
    ensures
        r.0@ == discovery_topic(topics.discovery_prefix@, "select"@, key@),
        json_view(r.1) == select_doc(
            topics.base@,
            key@,
            name@,
            options@.map_values(|o: &str| o@),
            state_topic@,
            command_topic@,
        ),
{
    let mut es = discovery_base(topics, key, name, "form-select");
    push_field(&mut es, "state_topic", string_json(state_topic));
    push_field(&mut es, "command_topic", string_json(command_topic));
    let mut items: Vec<JsonValue> = Vec::new();
    let mut i: usize = 0;
    while i < options.len()
        invariant
            i <= options@.len(),
            items@.len() == i,
            forall|k: int| 0 <= k < i ==> json_view(#[trigger] items@[k]) == Json::Str(options@[k]@),
        decreases options@.len() - i,
    {
        items.push(text_json(options[i]));
        i = i + 1;
    }
    let arr = JsonValue::Array(items);
    assert(json_view(arr)->Array_0 =~= options@.map_values(|o: &str| o@).map_values(
        |o: Seq<char>| Json::Str(o),
    ));
    push_field(&mut es, "options", arr);
    assert(members_view(es@) =~= select_doc(
        topics.base@,
        key@,
        name@,
        options@.map_values(|o: &str| o@),
        state_topic@,
        command_topic@,
    )->Object_0);
    proof {
        lemma_object_view(es);
    }
    (topics.discovery("select", key), JsonValue::Object(es))
}

fn discovery_button(topics: &MqttTopics, key: &str, name: &str, command_topic: String) -> (r: (
    String,
    JsonValue,
))
    ensures
        r.0@ == discovery_topic(topics.discovery_prefix@, "button"@, key@),
        json_view(r.1) == button_doc(topics.base@, key@, name@, command_topic@),
{
    let mut es = discovery_base(topics, key, name, "gesture-tap-button");
    push_field(&mut es, "command_topic", string_json(command_topic));
    assert(members_view(es@) =~= button_doc(topics.base@, key@, name@, command_topic@)->Object_0);
    proof {
        lemma_object_view(es);
    }
    (topics.discovery("button", key), JsonValue::Object(es))
}

/// Every entity the bridge announces to Home Assistant, as (topic,
/// document) pairs to publish retained.
pub fn discovery_definitions(topics: &MqttTopics) -> (r: Vec<(String, JsonValue)>)
    ensures
        members_view(r@) == discovery_spec(topics.base@, topics.discovery_prefix@),
{
    let d0 = discovery_switch(topics, "mute", "Microphone Muted", "microphone", topics.state("mute"), topics.command("mute"));
    let d1 = discovery_switch(topics, "live_when_muted", "Lights Show Live State", "light", topics.state("live_when_muted"), topics.command("live_when_muted"));
    let d2 = discovery_switch(topics, "lighting_available", "Lighting Available", "light", topics.state("lighting_available"), String::new());
    let d3 = discovery_number(topics, "mic_volume", "Mic Volume", "volume", topics.state("mic_volume"), topics.command("mic_volume"));
    let d4 = discovery_number(topics, "mic_monitoring", "Mic Monitoring", "volume", topics.state("mic_monitoring"), topics.command("mic_monitoring"));
    let d5 = discovery_number(topics, "headphone_volume", "Headphone Volume", "volume", topics.state("headphone_volume"), topics.command("headphone_volume"));
    let d6 = discovery_number(topics, "brightness", "Lighting Brightness", "light", topics.state("brightness"), topics.command("brightness"));
    let d7 = discovery_number(topics, "speed", "Lighting Speed", "speedometer", topics.state("speed"), topics.command("speed"));
    let d8 = discovery_number(topics, "opacity", "Lighting Opacity", "brightness-percent", topics.state("opacity"), topics.command("opacity"));
    let d9 = discovery_sensor(topics, "input_level", "Input Level", "sound-pressure", "%", topics.state("input_level"));
    let d10 = discovery_sensor(topics, "device_state", "Device State", "information", "", topics.state("device_state"));
    let d11 = discovery_sensor(topics, "polar_pattern", "Polar Pattern", "microphone", "", topics.state("polar_pattern"));
    let mut o12: Vec<&str> = Vec::new();
    o12.push("wave");
    o12.push("solid");
    o12.push("cycle");
    o12.push("pulse");
    o12.push("blink");
    o12.push("lightning");
    o12.push("vu_meter");
    assert(o12@.map_values(|o: &str| o@) =~= effect_options());
    let d12 = discovery_select(topics, "effect", "Lighting Effect", &o12, topics.state("effect"), topics.command("effect"));
    let mut o13: Vec<&str> = Vec::new();
    o13.push("all");
    o13.push("top");
    o13.push("bottom");
    assert(o13@.map_values(|o: &str| o@) =~= target_options());
    let d13 = discovery_select(topics, "target", "Lighting Target", &o13, topics.state("target"), topics.command("target"));
    let d14 = discovery_button(topics, "apply", "Apply Lighting", topics.command("apply"));
    let d15 = discovery_button(topics, "stop", "Stop Lighting Stream", topics.command("stop"));
    let d16 = discovery_button(topics, "save", "Save Lighting To Mic", topics.command("save"));
    let mut r: Vec<(String, JsonValue)> = Vec::new();
    r.push(d0);
    r.push(d1);
    r.push(d2);
    r.push(d3);
    r.push(d4);
    r.push(d5);
    r.push(d6);
    r.push(d7);
    r.push(d8);
    r.push(d9);
    r.push(d10);
    r.push(d11);
    r.push(d12);
    r.push(d13);
    r.push(d14);
    r.push(d15);
    r.push(d16);
    proof {
        reveal_strlit("");
    }
    assert(members_view(r@) =~= discovery_spec(topics.base@, topics.discovery_prefix@));
    r
}

/// One discovery announcement: the document for Home Assistant, the topic
/// it goes to, and how it is published.
pub struct DiscoveryMessage {
    pub topic: String,
    pub document: JsonValue,
    pub retain: bool,
    pub qos: Qos,
}

/// The discovery announcements, in publishing order: every document of
/// `discovery_definitions` under its topic, retained so that Home
/// Assistant finds it after it restarts, at the connection's QoS.
pub fn discovery_messages(topics: &MqttTopics, qos: Qos) -> (r: Vec<DiscoveryMessage>)
    ensures
        r@.len() == discovery_spec(topics.base@, topics.discovery_prefix@).len(),
        r@.len() == 17,
        forall|i: int|
            0 <= i < r@.len() ==> {
                &&& (#[trigger] r@[i]).topic@ == discovery_spec(
                    topics.base@,
                    topics.discovery_prefix@,
                )[i].0
                &&& json_view(r@[i].document) == discovery_spec(
                    topics.base@,
                    topics.discovery_prefix@,
                )[i].1
                &&& r@[i].retain
                &&& r@[i].qos == qos
            },
{
    let definitions = discovery_definitions(topics);
    let ghost spec = discovery_spec(topics.base@, topics.discovery_prefix@);
    assert(definitions@.len() == 17) by {
        assert(members_view(definitions@).len() == spec.len());
    }
    let mut r: Vec<DiscoveryMessage> = Vec::new();
    let mut i: usize = 0;
    while i < definitions.len()
        invariant
            i <= definitions@.len() == 17,
            members_view(definitions@) == spec,
            r@.len() == i,
            forall|j: int|
                0 <= j < i ==> {
                    &&& (#[trigger] r@[j]).topic@ == spec[j].0
                    &&& json_view(r@[j].document) == spec[j].1
                    &&& r@[j].retain
                    &&& r@[j].qos == qos
                },
        decreases 17 - i,
    {
        let (topic, document) = &definitions[i];
        proof {
            assert(members_view(definitions@)[i as int] == (
                definitions@[i as int].0@,
                json_view(definitions@[i as int].1),
            ));
        }
        r.push(
            DiscoveryMessage {
                topic: topic.clone(),
                document: clone_json(document),
                retain: true,
                qos,
            },
        );
        i = i + 1;
    }
    r
}

// ---------------------------------------------------------------------------
// Connection settings
// ---------------------------------------------------------------------------

/// How to connect to the broker and what to announce there.
pub struct MqttConnectionPlan {
    pub url: String,
    pub client_id: String,
    pub keep_alive_secs: u64,
    pub clean_session: bool,
    /// User name and password, when a non-empty user name is configured.
    pub credentials: Option<(String, String)>,
    pub topics: MqttTopics,
    pub qos: Qos,
    pub retain_state: bool,
    pub home_assistant_discovery: bool,
    /// Published retained by the broker when the bridge drops off.
    pub last_will_topic: String,
    pub last_will_payload: String,
}

/// The credentials a configuration asks for: the user name with the
/// password (empty when none is set), if the user name is set and
/// non-empty.
pub open spec fn credentials_spec(config: MqttConfig) -> Option<(Seq<char>, Seq<char>)> {
    match config.username {
        Some(u) => if u@.len() > 0 {
            Some(
                (
                    u@,
                    match config.password {
                        Some(p) => p@,
                        None => Seq::empty(),
                    },
                ),
            )
        } else {
            None
        },
        None => None,
    }
}

pub open spec fn credentials_view(c: Option<(String, String)>) -> Option<(Seq<char>, Seq<char>)> {
    match c {
        Some(p) => Some((p.0@, p.1@)),
        None => None,
    }
}

/// What connecting with `config` takes; `None` when the bridge is disabled.
pub fn mqtt_connection_plan(config: &MqttConfig) -> (r: Option<MqttConnectionPlan>)
    ensures
        r is Some <==> config.enabled,
        r matches Some(p) ==> {
            &&& p.url@ == url_with_client_id_spec(config.url@, config.client_id@)
            &&& p.client_id@ == config.client_id@
            &&& p.keep_alive_secs == config.keep_alive_secs
            &&& p.clean_session == config.clean_session
            &&& credentials_view(p.credentials) == credentials_spec(*config)
            &&& p.topics.base@ == topic_spec(config.base_topic@)
            &&& p.topics.discovery_prefix@ == topic_spec(config.discovery_prefix@)
            &&& p.qos == qos_spec(config.qos)
            &&& p.retain_state == config.retain_state
            &&& p.home_assistant_discovery == config.home_assistant_discovery
            &&& p.last_will_topic@ == availability_topic(p.topics.base@)
            &&& p.last_will_payload@ == "offline"@
        },
{
    if !config.enabled {
        return None;
    }
    let topics = MqttTopics::from_config(config);
    let credentials = match &config.username {
        Some(u) => if !u.as_str().is_empty() {
            let password = match &config.password {
                Some(p) => p.clone(),
                None => String::new(),
            };
            Some((u.clone(), password))
        } else {
            None
        },
        None => None,
    };
    let last_will_topic = topics.availability();
    Some(
        MqttConnectionPlan {
            url: mqtt_url_with_client_id(config.url.as_str(), config.client_id.as_str()),
            client_id: config.client_id.clone(),
            keep_alive_secs: config.keep_alive_secs,
            clean_session: config.clean_session,
            credentials,
            topics,
            qos: qos_from_u8(config.qos),
            retain_state: config.retain_state,
            home_assistant_discovery: config.home_assistant_discovery,
            last_will_topic,
            last_will_payload: owned("offline"),
        },
    )
}

} // verus!
