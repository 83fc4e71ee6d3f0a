//! The configuration as a JSON document: the document of a fresh
//! configuration (numbers as the text `serde_json` writes for them), and the
//! schema migration that fills a stored document's missing settings in from
//! it.
use vstd::prelude::*;

use crate::json::{json_view, json_wf, merge_missing_json, merged, wf_doc, Json, JsonValue};
use crate::text::{decimal_seq, decimal_string, owned};

verus! {

broadcast use vstd::string::group_string_axioms;

pub open spec fn num_doc(n: nat) -> Json {
    Json::Number(decimal_seq(n))
}

pub open spec fn str_doc(s: Seq<char>) -> Json {
    Json::Str(s)
}

fn num_json(n: u64) -> (r: JsonValue)
    ensures
        json_view(r) == num_doc(n as nat),
{
    JsonValue::Number(decimal_string(n))
}

fn number_text_json(text: &str) -> (r: JsonValue)
    ensures
        json_view(r) == Json::Number(text@),
{
    JsonValue::Number(owned(text))
}

fn str_json(s: &str) -> (r: JsonValue)
    ensures
        json_view(r) == str_doc(s@),
{
    JsonValue::Str(owned(s))
}

fn bool_json(b: bool) -> (r: JsonValue)
    ensures
        json_view(r) == Json::Bool(b),
{
    JsonValue::Bool(b)
}

fn null_json() -> (r: JsonValue)
    ensures
        json_view(r) == Json::Null,
{
    JsonValue::Null
}

fn entry(key: &str, v: JsonValue) -> (r: (String, JsonValue))
    ensures
        r.0@ == key@,
        r.1 == v,
{
    (owned(key), v)
}

/// The palette of a fresh configuration.
pub open spec fn default_colors_doc() -> Json {
    Json::Array(
        seq![
            str_doc("#ff2010"@),
            str_doc("#ff009a"@),
            str_doc("#5d18ff"@),
            str_doc("#00a2ff"@),
            str_doc("#00edbf"@),
            str_doc("#38ee3d"@),
            str_doc("#ffea20"@),
        ],
    )
}

proof fn lemma_default_colors_doc_wf()
    ensures
        wf_doc(default_colors_doc()),
{
    let t = default_colors_doc()->Array_0;
    assert(forall|i: int| 0 <= i < t.len() ==> wf_doc(#[trigger] t[i]));
}

fn default_colors_json() -> (r: JsonValue)
    ensures
        json_view(r) == default_colors_doc(),
{
    let e0 = str_json("#ff2010");
    let e1 = str_json("#ff009a");
    let e2 = str_json("#5d18ff");
    let e3 = str_json("#00a2ff");
    let e4 = str_json("#00edbf");
    let e5 = str_json("#38ee3d");
    let e6 = str_json("#ffea20");
    let mut items: Vec<JsonValue> = Vec::new();
    items.push(e0);
    items.push(e1);
    items.push(e2);
    items.push(e3);
    items.push(e4);
    items.push(e5);
    items.push(e6);
    let ghost t = items@;
    assert(t[0] == e0);
    assert(t[1] == e1);
    assert(t[2] == e2);
    assert(t[3] == e3);
    assert(t[4] == e4);
    assert(t[5] == e5);
    assert(t[6] == e6);
    let r = JsonValue::Array(items);
    assert(json_view(r)->Array_0 =~= default_colors_doc()->Array_0);
    r
}

/// The document of the `audio` section of a fresh configuration.
pub open spec fn default_audio_doc() -> Json {
    Json::Object(
        seq![
            ("mic_volume"@, num_doc(50)),
            ("mic_monitoring"@, num_doc(71)),
            ("headphone_volume"@, num_doc(5)),
            ("mute_on_app_start"@, Json::Bool(false)),
        ],
    )
}

proof fn lemma_default_audio_doc_wf()
    ensures
        wf_doc(default_audio_doc()),
{
    reveal_strlit("mic_volume");
    reveal_strlit("mic_monitoring");
    reveal_strlit("headphone_volume");
    reveal_strlit("mute_on_app_start");
    let t = default_audio_doc()->Object_0;
    assert forall|i: int, k: int| 0 <= i < k < t.len() implies (#[trigger] t[i]).0 != (#[trigger] t[k]).0 by {
        if i == 0 && k == 1 {
            assert("mic_volume"@.len() != "mic_monitoring"@.len());
        } else if i == 0 && k == 2 {
            assert("mic_volume"@.len() != "headphone_volume"@.len());
        } else if i == 0 && k == 3 {
            assert("mic_volume"@.len() != "mute_on_app_start"@.len());
        } else if i == 1 && k == 2 {
            assert("mic_monitoring"@.len() != "headphone_volume"@.len());
        } else if i == 1 && k == 3 {
            assert("mic_monitoring"@.len() != "mute_on_app_start"@.len());
        } else if i == 2 && k == 3 {
            assert("headphone_volume"@.len() != "mute_on_app_start"@.len());
        }
    }
    assert(forall|i: int| 0 <= i < t.len() ==> wf_doc(#[trigger] t[i].1));
}

fn default_audio_json() -> (r: JsonValue)
    ensures
        json_view(r) == default_audio_doc(),
{
    let e0 = entry("mic_volume", num_json(50));
    let e1 = entry("mic_monitoring", num_json(71));
    let e2 = entry("headphone_volume", num_json(5));
    let e3 = entry("mute_on_app_start", bool_json(false));
    let mut es: Vec<(String, JsonValue)> = Vec::new();
    es.push(e0);
    es.push(e1);
    es.push(e2);
    es.push(e3);
    let ghost t = es@;
    assert(t[0] == e0);
    assert(t[1] == e1);
    assert(t[2] == e2);
    assert(t[3] == e3);
    let r = JsonValue::Object(es);
    assert(json_view(r)->Object_0 =~= default_audio_doc()->Object_0);
    r
}

/// The document of the `lighting` section of a fresh configuration.
pub open spec fn default_lighting_doc() -> Json {
    Json::Object(
        seq![
            ("effect"@, str_doc("wave"@)),
            ("target"@, str_doc("all"@)),
            ("split_layers"@, Json::Bool(false)),
            ("top_effect"@, str_doc("solid"@)),
            ("bottom_effect"@, str_doc("blink"@)),
            ("colors"@, default_colors_doc()),
            ("selected_color"@, num_doc(0)),
            ("opacity"@, num_doc(25)),
            ("speed"@, num_doc(75)),
            ("brightness"@, num_doc(100)),
            ("live_when_muted"@, Json::Bool(true)),
        ],
    )
}

proof fn lemma_default_lighting_doc_wf()
    ensures
        wf_doc(default_lighting_doc()),
{
    reveal_strlit("effect");
    reveal_strlit("target");
    reveal_strlit("split_layers");
    reveal_strlit("top_effect");
    reveal_strlit("bottom_effect");
    reveal_strlit("colors");
    reveal_strlit("selected_color");
    reveal_strlit("opacity");
    reveal_strlit("speed");
    reveal_strlit("brightness");
    reveal_strlit("live_when_muted");
    lemma_default_colors_doc_wf();
    let t = default_lighting_doc()->Object_0;
    assert forall|i: int, k: int| 0 <= i < k < t.len() implies (#[trigger] t[i]).0 != (#[trigger] t[k]).0 by {
        if i == 0 && k == 1 {
            assert("effect"@[0] != "target"@[0]);
        } else if i == 0 && k == 2 {
            assert("effect"@.len() != "split_layers"@.len());
        } else if i == 0 && k == 3 {
            assert("effect"@.len() != "top_effect"@.len());
        } else if i == 0 && k == 4 {
            assert("effect"@.len() != "bottom_effect"@.len());
        } else if i == 0 && k == 5 {
            assert("effect"@[0] != "colors"@[0]);
        } else if i == 0 && k == 6 {
            assert("effect"@.len() != "selected_color"@.len());
        } else if i == 0 && k == 7 {
            assert("effect"@.len() != "opacity"@.len());
        } else if i == 0 && k == 8 {
            assert("effect"@.len() != "speed"@.len());
        } else if i == 0 && k == 9 {
            assert("effect"@.len() != "brightness"@.len());
        } else if i == 0 && k == 10 {
            assert("effect"@.len() != "live_when_muted"@.len());
        } else if i == 1 && k == 2 {
            assert("target"@.len() != "split_layers"@.len());
        } else if i == 1 && k == 3 {
            assert("target"@.len() != "top_effect"@.len());
        } else if i == 1 && k == 4 {
            assert("target"@.len() != "bottom_effect"@.len());
        } else if i == 1 && k == 5 {
            assert("target"@[0] != "colors"@[0]);
        } else if i == 1 && k == 6 {
            assert("target"@.len() != "selected_color"@.len());
        } else if i == 1 && k == 7 {
            assert("target"@.len() != "opacity"@.len());
        } else if i == 1 && k == 8 {
            assert("target"@.len() != "speed"@.len());
        } else if i == 1 && k == 9 {
            assert("target"@.len() != "brightness"@.len());
        } else if i == 1 && k == 10 {
            assert("target"@.len() != "live_when_muted"@.len());
        } else if i == 2 && k == 3 {
            assert("split_layers"@.len() != "top_effect"@.len());
        } else if i == 2 && k == 4 {
            assert("split_layers"@.len() != "bottom_effect"@.len());
        } else if i == 2 && k == 5 {
            assert("split_layers"@.len() != "colors"@.len());
        } else if i == 2 && k == 6 {
            assert("split_layers"@.len() != "selected_color"@.len());
        } else if i == 2 && k == 7 {
            assert("split_layers"@.len() != "opacity"@.len());
        } else if i == 2 && k == 8 {
            assert("split_layers"@.len() != "speed"@.len());
        } else if i == 2 && k == 9 {
            assert("split_layers"@.len() != "brightness"@.len());
        } else if i == 2 && k == 10 {
            assert("split_layers"@.len() != "live_when_muted"@.len());
        } else if i == 3 && k == 4 {
            assert("top_effect"@.len() != "bottom_effect"@.len());
        } else if i == 3 && k == 5 {
            assert("top_effect"@.len() != "colors"@.len());
        } else if i == 3 && k == 6 {
            assert("top_effect"@.len() != "selected_color"@.len());
        } else if i == 3 && k == 7 {
            assert("top_effect"@.len() != "opacity"@.len());
        } else if i == 3 && k == 8 {
            assert("top_effect"@.len() != "speed"@.len());
        } else if i == 3 && k == 9 {
            assert("top_effect"@[0] != "brightness"@[0]);
        } else if i == 3 && k == 10 {
            assert("top_effect"@.len() != "live_when_muted"@.len());
        } else if i == 4 && k == 5 {
            assert("bottom_effect"@.len() != "colors"@.len());
        } else if i == 4 && k == 6 {
            assert("bottom_effect"@.len() != "selected_color"@.len());
        } else if i == 4 && k == 7 {
            assert("bottom_effect"@.len() != "opacity"@.len());
        } else if i == 4 && k == 8 {
            assert("bottom_effect"@.len() != "speed"@.len());
        } else if i == 4 && k == 9 {
            assert("bottom_effect"@.len() != "brightness"@.len());
        } else if i == 4 && k == 10 {
            assert("bottom_effect"@.len() != "live_when_muted"@.len());
        } else if i == 5 && k == 6 {
            assert("colors"@.len() != "selected_color"@.len());
        } else if i == 5 && k == 7 {
            assert("colors"@.len() != "opacity"@.len());
        } else if i == 5 && k == 8 {
            assert("colors"@.len() != "speed"@.len());
        } else if i == 5 && k == 9 {
            assert("colors"@.len() != "brightness"@.len());
        } else if i == 5 && k == 10 {
            assert("colors"@.len() != "live_when_muted"@.len());
        } else if i == 6 && k == 7 {
            assert("selected_color"@.len() != "opacity"@.len());
        } else if i == 6 && k == 8 {
            assert("selected_color"@.len() != "speed"@.len());
        } else if i == 6 && k == 9 {
            assert("selected_color"@.len() != "brightness"@.len());
        } else if i == 6 && k == 10 {
            assert("selected_color"@.len() != "live_when_muted"@.len());
        } else if i == 7 && k == 8 {
            assert("opacity"@.len() != "speed"@.len());
        } else if i == 7 && k == 9 {
            assert("opacity"@.len() != "brightness"@.len());
        } else if i == 7 && k == 10 {
            assert("opacity"@.len() != "live_when_muted"@.len());
        } else if i == 8 && k == 9 {
            assert("speed"@.len() != "brightness"@.len());
        } else if i == 8 && k == 10 {
            assert("speed"@.len() != "live_when_muted"@.len());
        } else if i == 9 && k == 10 {
            assert("brightness"@.len() != "live_when_muted"@.len());
        }
    }
    assert(forall|i: int| 0 <= i < t.len() ==> wf_doc(#[trigger] t[i].1));
}

fn default_lighting_json() -> (r: JsonValue)
    ensures
        json_view(r) == default_lighting_doc(),
{
    let e0 = entry("effect", str_json("wave"));
    let e1 = entry("target", str_json("all"));
    let e2 = entry("split_layers", bool_json(false));
    let e3 = entry("top_effect", str_json("solid"));
    let e4 = entry("bottom_effect", str_json("blink"));
    let e5 = entry("colors", default_colors_json());
    let e6 = entry("selected_color", num_json(0));
    let e7 = entry("opacity", num_json(25));
    let e8 = entry("speed", num_json(75));
    let e9 = entry("brightness", num_json(100));
    let e10 = entry("live_when_muted", bool_json(true));
    let mut es: Vec<(String, JsonValue)> = Vec::new();
    es.push(e0);
    es.push(e1);
    es.push(e2);
    es.push(e3);
    es.push(e4);
    es.push(e5);
    es.push(e6);
    es.push(e7);
    es.push(e8);
    es.push(e9);
    es.push(e10);
    let ghost t = es@;
    assert(t[0] == e0);
    assert(t[1] == e1);
    assert(t[2] == e2);
    assert(t[3] == e3);
    assert(t[4] == e4);
    assert(t[5] == e5);
    assert(t[6] == e6);
    assert(t[7] == e7);
    assert(t[8] == e8);
    assert(t[9] == e9);
    assert(t[10] == e10);
    let r = JsonValue::Object(es);
    assert(json_view(r)->Object_0 =~= default_lighting_doc()->Object_0);
    r
}

/// The document of the `ui` section of a fresh configuration.
pub open spec fn default_ui_doc() -> Json {
    Json::Object(
        seq![
            ("selected_tab"@, str_doc("audio"@)),
            ("window_width"@, Json::Number("1120.0"@)),
            ("window_height"@, Json::Number("760.0"@)),
            ("window_x"@, Json::Null),
            ("window_y"@, Json::Null),
            ("minimize_to_tray"@, Json::Bool(true)),
            ("last_polar_pattern"@, str_doc("unknown"@)),
        ],
    )
}

proof fn lemma_default_ui_doc_wf()
    ensures
        wf_doc(default_ui_doc()),
{
    reveal_strlit("selected_tab");
    reveal_strlit("window_width");
    reveal_strlit("window_height");
    reveal_strlit("window_x");
    reveal_strlit("window_y");
    reveal_strlit("minimize_to_tray");
    reveal_strlit("last_polar_pattern");
    let t = default_ui_doc()->Object_0;
    assert forall|i: int, k: int| 0 <= i < k < t.len() implies (#[trigger] t[i]).0 != (#[trigger] t[k]).0 by {
        if i == 0 && k == 1 {
            assert("selected_tab"@[0] != "window_width"@[0]);
        } else if i == 0 && k == 2 {
            assert("selected_tab"@.len() != "window_height"@.len());
        } else if i == 0 && k == 3 {
            assert("selected_tab"@.len() != "window_x"@.len());
        } else if i == 0 && k == 4 {
            assert("selected_tab"@.len() != "window_y"@.len());
        } else if i == 0 && k == 5 {
            assert("selected_tab"@.len() != "minimize_to_tray"@.len());
        } else if i == 0 && k == 6 {
            assert("selected_tab"@.len() != "last_polar_pattern"@.len());
        } else if i == 1 && k == 2 {
            assert("window_width"@.len() != "window_height"@.len());
        } else if i == 1 && k == 3 {
            assert("window_width"@.len() != "window_x"@.len());
        } else if i == 1 && k == 4 {
            assert("window_width"@.len() != "window_y"@.len());
        } else if i == 1 && k == 5 {
            assert("window_width"@.len() != "minimize_to_tray"@.len());
        } else if i == 1 && k == 6 {
            assert("window_width"@.len() != "last_polar_pattern"@.len());
        } else if i == 2 && k == 3 {
            assert("window_height"@.len() != "window_x"@.len());
        } else if i == 2 && k == 4 {
            assert("window_height"@.len() != "window_y"@.len());
        } else if i == 2 && k == 5 {
            assert("window_height"@.len() != "minimize_to_tray"@.len());
        } else if i == 2 && k == 6 {
            assert("window_height"@.len() != "last_polar_pattern"@.len());
        } else if i == 3 && k == 4 {
            assert("window_x"@[7] != "window_y"@[7]);
        } else if i == 3 && k == 5 {
            assert("window_x"@.len() != "minimize_to_tray"@.len());
        } else if i == 3 && k == 6 {
            assert("window_x"@.len() != "last_polar_pattern"@.len());
        } else if i == 4 && k == 5 {
            assert("window_y"@.len() != "minimize_to_tray"@.len());
        } else if i == 4 && k == 6 {
            assert("window_y"@.len() != "last_polar_pattern"@.len());
        } else if i == 5 && k == 6 {
            assert("minimize_to_tray"@.len() != "last_polar_pattern"@.len());
        }
    }
    assert(forall|i: int| 0 <= i < t.len() ==> wf_doc(#[trigger] t[i].1));
}

fn default_ui_json() -> (r: JsonValue)
    ensures
        json_view(r) == default_ui_doc(),
{
    let e0 = entry("selected_tab", str_json("audio"));
    let e1 = entry("window_width", number_text_json("1120.0"));
    let e2 = entry("window_height", number_text_json("760.0"));
    let e3 = entry("window_x", null_json());
    let e4 = entry("window_y", null_json());
    let e5 = entry("minimize_to_tray", bool_json(true));
    let e6 = entry("last_polar_pattern", str_json("unknown"));
    let mut es: Vec<(String, JsonValue)> = Vec::new();
    es.push(e0);
    es.push(e1);
    es.push(e2);
    es.push(e3);
    es.push(e4);
    es.push(e5);
    es.push(e6);
    let ghost t = es@;
    assert(t[0] == e0);
    assert(t[1] == e1);
    assert(t[2] == e2);
    assert(t[3] == e3);
    assert(t[4] == e4);
    assert(t[5] == e5);
    assert(t[6] == e6);
    let r = JsonValue::Object(es);
    assert(json_view(r)->Object_0 =~= default_ui_doc()->Object_0);
    r
}

/// The document of the `service` section of a fresh configuration.
pub open spec fn default_service_doc() -> Json {
    Json::Object(
        seq![
            ("enabled"@, Json::Bool(false)),
            ("restore_on_startup"@, Json::Bool(false)),
            ("owns_startup_restore"@, Json::Bool(true)),
            ("owns_lighting_loop"@, Json::Bool(false)),
            ("owns_hid_monitoring"@, Json::Bool(false)),
            ("owns_tray_handoff"@, Json::Bool(false)),
        ],
    )
}

proof fn lemma_default_service_doc_wf()
    ensures
        wf_doc(default_service_doc()),
{
    reveal_strlit("enabled");
    reveal_strlit("restore_on_startup");
    reveal_strlit("owns_startup_restore");
    reveal_strlit("owns_lighting_loop");
    reveal_strlit("owns_hid_monitoring");
    reveal_strlit("owns_tray_handoff");
    let t = default_service_doc()->Object_0;
    assert forall|i: int, k: int| 0 <= i < k < t.len() implies (#[trigger] t[i]).0 != (#[trigger] t[k]).0 by {
        if i == 0 && k == 1 {
            assert("enabled"@.len() != "restore_on_startup"@.len());
        } else if i == 0 && k == 2 {
            assert("enabled"@.len() != "owns_startup_restore"@.len());
        } else if i == 0 && k == 3 {
            assert("enabled"@.len() != "owns_lighting_loop"@.len());
        } else if i == 0 && k == 4 {
            assert("enabled"@.len() != "owns_hid_monitoring"@.len());
        } else if i == 0 && k == 5 {
            assert("enabled"@.len() != "owns_tray_handoff"@.len());
        } else if i == 1 && k == 2 {
            assert("restore_on_startup"@.len() != "owns_startup_restore"@.len());
        } else if i == 1 && k == 3 {
            assert("restore_on_startup"@[0] != "owns_lighting_loop"@[0]);
        } else if i == 1 && k == 4 {
            assert("restore_on_startup"@.len() != "owns_hid_monitoring"@.len());
        } else if i == 1 && k == 5 {
            assert("restore_on_startup"@.len() != "owns_tray_handoff"@.len());
        } else if i == 2 && k == 3 {
            assert("owns_startup_restore"@.len() != "owns_lighting_loop"@.len());
        } else if i == 2 && k == 4 {
            assert("owns_startup_restore"@.len() != "owns_hid_monitoring"@.len());
        } else if i == 2 && k == 5 {
            assert("owns_startup_restore"@.len() != "owns_tray_handoff"@.len());
        } else if i == 3 && k == 4 {
            assert("owns_lighting_loop"@.len() != "owns_hid_monitoring"@.len());
        } else if i == 3 && k == 5 {
            assert("owns_lighting_loop"@.len() != "owns_tray_handoff"@.len());
        } else if i == 4 && k == 5 {
            assert("owns_hid_monitoring"@.len() != "owns_tray_handoff"@.len());
        }
    }
    assert(forall|i: int| 0 <= i < t.len() ==> wf_doc(#[trigger] t[i].1));
}

fn default_service_json() -> (r: JsonValue)
    ensures
        json_view(r) == default_service_doc(),
{
    let e0 = entry("enabled", bool_json(false));
    let e1 = entry("restore_on_startup", bool_json(false));
    let e2 = entry("owns_startup_restore", bool_json(true));
    let e3 = entry("owns_lighting_loop", bool_json(false));
    let e4 = entry("owns_hid_monitoring", bool_json(false));
    let e5 = entry("owns_tray_handoff", bool_json(false));
    let mut es: Vec<(String, JsonValue)> = Vec::new();
    es.push(e0);
    es.push(e1);
    es.push(e2);
    es.push(e3);
    es.push(e4);
    es.push(e5);
    let ghost t = es@;
    assert(t[0] == e0);
    assert(t[1] == e1);
    assert(t[2] == e2);
    assert(t[3] == e3);
    assert(t[4] == e4);
    assert(t[5] == e5);
    let r = JsonValue::Object(es);
    assert(json_view(r)->Object_0 =~= default_service_doc()->Object_0);
    r
}

/// The document of the `device` section of a fresh configuration.
pub open spec fn default_device_doc() -> Json {
    Json::Object(
        seq![
            ("preferred_capture_endpoint_id"@, Json::Null),
            ("lighting_vendor_id"@, num_doc(2385)),
            ("lighting_product_id"@, num_doc(5919)),
        ],
    )
}

proof fn lemma_default_device_doc_wf()
    ensures
        wf_doc(default_device_doc()),
{
    reveal_strlit("preferred_capture_endpoint_id");
    reveal_strlit("lighting_vendor_id");
    reveal_strlit("lighting_product_id");
    let t = default_device_doc()->Object_0;
    assert forall|i: int, k: int| 0 <= i < k < t.len() implies (#[trigger] t[i]).0 != (#[trigger] t[k]).0 by {
        if i == 0 && k == 1 {
            assert("preferred_capture_endpoint_id"@.len() != "lighting_vendor_id"@.len());
        } else if i == 0 && k == 2 {
            assert("preferred_capture_endpoint_id"@.len() != "lighting_product_id"@.len());
        } else if i == 1 && k == 2 {
            assert("lighting_vendor_id"@.len() != "lighting_product_id"@.len());
        }
    }
    assert(forall|i: int| 0 <= i < t.len() ==> wf_doc(#[trigger] t[i].1));
}

fn default_device_json() -> (r: JsonValue)
    ensures
        json_view(r) == default_device_doc(),
{
    let e0 = entry("preferred_capture_endpoint_id", null_json());
    let e1 = entry("lighting_vendor_id", num_json(2385));
    let e2 = entry("lighting_product_id", num_json(5919));
    let mut es: Vec<(String, JsonValue)> = Vec::new();
    es.push(e0);
    es.push(e1);
    es.push(e2);
    let ghost t = es@;
    assert(t[0] == e0);
    assert(t[1] == e1);
    assert(t[2] == e2);
    let r = JsonValue::Object(es);
    assert(json_view(r)->Object_0 =~= default_device_doc()->Object_0);
    r
}

/// The document of the `mqtt` section of a fresh configuration.
pub open spec fn default_mqtt_doc() -> Json {
    Json::Object(
        seq![
            ("enabled"@, Json::Bool(false)),
            ("url"@, str_doc("mqtt://localhost:1883"@)),
            ("client_id"@, str_doc("hyperx-mic-lite"@)),
            ("username"@, Json::Null),
            ("password"@, Json::Null),
            ("base_topic"@, str_doc("hyperx_mic_lite/quadcast_s"@)),
            ("discovery_prefix"@, str_doc("homeassistant"@)),
            ("home_assistant_discovery"@, Json::Bool(true)),
            ("retain_state"@, Json::Bool(true)),
            ("qos"@, num_doc(1)),
            ("keep_alive_secs"@, num_doc(30)),
            ("clean_session"@, Json::Bool(true)),
        ],
    )
}

proof fn lemma_default_mqtt_doc_wf()
    ensures
        wf_doc(default_mqtt_doc()),
{
    reveal_strlit("enabled");
    reveal_strlit("url");
    reveal_strlit("client_id");
    reveal_strlit("username");
    reveal_strlit("password");
    reveal_strlit("base_topic");
    reveal_strlit("discovery_prefix");
    reveal_strlit("home_assistant_discovery");
    reveal_strlit("retain_state");
    reveal_strlit("qos");
    reveal_strlit("keep_alive_secs");
    reveal_strlit("clean_session");
    let t = default_mqtt_doc()->Object_0;
    assert forall|i: int, k: int| 0 <= i < k < t.len() implies (#[trigger] t[i]).0 != (#[trigger] t[k]).0 by {
        if i == 0 && k == 1 {
            assert("enabled"@.len() != "url"@.len());
        } else if i == 0 && k == 2 {
            assert("enabled"@.len() != "client_id"@.len());
        } else if i == 0 && k == 3 {
            assert("enabled"@.len() != "username"@.len());
        } else if i == 0 && k == 4 {
            assert("enabled"@.len() != "password"@.len());
        } else if i == 0 && k == 5 {
            assert("enabled"@.len() != "base_topic"@.len());
        } else if i == 0 && k == 6 {
            assert("enabled"@.len() != "discovery_prefix"@.len());
        } else if i == 0 && k == 7 {
            assert("enabled"@.len() != "home_assistant_discovery"@.len());
        } else if i == 0 && k == 8 {
            assert("enabled"@.len() != "retain_state"@.len());
        } else if i == 0 && k == 9 {
            assert("enabled"@.len() != "qos"@.len());
        } else if i == 0 && k == 10 {
            assert("enabled"@.len() != "keep_alive_secs"@.len());
        } else if i == 0 && k == 11 {
            assert("enabled"@.len() != "clean_session"@.len());
        } else if i == 1 && k == 2 {
            assert("url"@.len() != "client_id"@.len());
        } else if i == 1 && k == 3 {
            assert("url"@.len() != "username"@.len());
        } else if i == 1 && k == 4 {
            assert("url"@.len() != "password"@.len());
        } else if i == 1 && k == 5 {
            assert("url"@.len() != "base_topic"@.len());
        } else if i == 1 && k == 6 {
            assert("url"@.len() != "discovery_prefix"@.len());
        } else if i == 1 && k == 7 {
            assert("url"@.len() != "home_assistant_discovery"@.len());
        } else if i == 1 && k == 8 {
            assert("url"@.len() != "retain_state"@.len());
        } else if i == 1 && k == 9 {
            assert("url"@[0] != "qos"@[0]);
        } else if i == 1 && k == 10 {
            assert("url"@.len() != "keep_alive_secs"@.len());
        } else if i == 1 && k == 11 {
            assert("url"@.len() != "clean_session"@.len());
        } else if i == 2 && k == 3 {
            assert("client_id"@.len() != "username"@.len());
        } else if i == 2 && k == 4 {
            assert("client_id"@.len() != "password"@.len());
        } else if i == 2 && k == 5 {
            assert("client_id"@.len() != "base_topic"@.len());
        } else if i == 2 && k == 6 {
            assert("client_id"@.len() != "discovery_prefix"@.len());
        } else if i == 2 && k == 7 {
            assert("client_id"@.len() != "home_assistant_discovery"@.len());
        } else if i == 2 && k == 8 {
            assert("client_id"@.len() != "retain_state"@.len());
        } else if i == 2 && k == 9 {
            assert("client_id"@.len() != "qos"@.len());
        } else if i == 2 && k == 10 {
            assert("client_id"@.len() != "keep_alive_secs"@.len());
        } else if i == 2 && k == 11 {
            assert("client_id"@.len() != "clean_session"@.len());
        } else if i == 3 && k == 4 {
            assert("username"@[0] != "password"@[0]);
        } else if i == 3 && k == 5 {
            assert("username"@.len() != "base_topic"@.len());
        } else if i == 3 && k == 6 {
            assert("username"@.len() != "discovery_prefix"@.len());
        } else if i == 3 && k == 7 {
            assert("username"@.len() != "home_assistant_discovery"@.len());
        } else if i == 3 && k == 8 {
            assert("username"@.len() != "retain_state"@.len());
        } else if i == 3 && k == 9 {
            assert("username"@.len() != "qos"@.len());
        } else if i == 3 && k == 10 {
            assert("username"@.len() != "keep_alive_secs"@.len());
        } else if i == 3 && k == 11 {
            assert("username"@.len() != "clean_session"@.len());
        } else if i == 4 && k == 5 {
            assert("password"@.len() != "base_topic"@.len());
        } else if i == 4 && k == 6 {
            assert("password"@.len() != "discovery_prefix"@.len());
        } else if i == 4 && k == 7 {
            assert("password"@.len() != "home_assistant_discovery"@.len());
        } else if i == 4 && k == 8 {
            assert("password"@.len() != "retain_state"@.len());
        } else if i == 4 && k == 9 {
            assert("password"@.len() != "qos"@.len());
        } else if i == 4 && k == 10 {
            assert("password"@.len() != "keep_alive_secs"@.len());
        } else if i == 4 && k == 11 {
            assert("password"@.len() != "clean_session"@.len());
        } else if i == 5 && k == 6 {
            assert("base_topic"@.len() != "discovery_prefix"@.len());
        } else if i == 5 && k == 7 {
            assert("base_topic"@.len() != "home_assistant_discovery"@.len());
        } else if i == 5 && k == 8 {
            assert("base_topic"@.len() != "retain_state"@.len());
        } else if i == 5 && k == 9 {
            assert("base_topic"@.len() != "qos"@.len());
        } else if i == 5 && k == 10 {
            assert("base_topic"@.len() != "keep_alive_secs"@.len());
        } else if i == 5 && k == 11 {
            assert("base_topic"@.len() != "clean_session"@.len());
        } else if i == 6 && k == 7 {
            assert("discovery_prefix"@.len() != "home_assistant_discovery"@.len());
        } else if i == 6 && k == 8 {
            assert("discovery_prefix"@.len() != "retain_state"@.len());
        } else if i == 6 && k == 9 {
            assert("discovery_prefix"@.len() != "qos"@.len());
        } else if i == 6 && k == 10 {
            assert("discovery_prefix"@.len() != "keep_alive_secs"@.len());
        } else if i == 6 && k == 11 {
            assert("discovery_prefix"@.len() != "clean_session"@.len());
        } else if i == 7 && k == 8 {
            assert("home_assistant_discovery"@.len() != "retain_state"@.len());
        } else if i == 7 && k == 9 {
            assert("home_assistant_discovery"@.len() != "qos"@.len());
        } else if i == 7 && k == 10 {
            assert("home_assistant_discovery"@.len() != "keep_alive_secs"@.len());
        } else if i == 7 && k == 11 {
            assert("home_assistant_discovery"@.len() != "clean_session"@.len());
        } else if i == 8 && k == 9 {
            assert("retain_state"@.len() != "qos"@.len());
        } else if i == 8 && k == 10 {
            assert("retain_state"@.len() != "keep_alive_secs"@.len());
        } else if i == 8 && k == 11 {
            assert("retain_state"@.len() != "clean_session"@.len());
        } else if i == 9 && k == 10 {
            assert("qos"@.len() != "keep_alive_secs"@.len());
        } else if i == 9 && k == 11 {
            assert("qos"@.len() != "clean_session"@.len());
        } else if i == 10 && k == 11 {
            assert("keep_alive_secs"@.len() != "clean_session"@.len());
        }
    }
    assert(forall|i: int| 0 <= i < t.len() ==> wf_doc(#[trigger] t[i].1));
}

fn default_mqtt_json() -> (r: JsonValue)
    ensures
        json_view(r) == default_mqtt_doc(),
{
    let e0 = entry("enabled", bool_json(false));
    let e1 = entry("url", str_json("mqtt://localhost:1883"));
    let e2 = entry("client_id", str_json("hyperx-mic-lite"));
    let e3 = entry("username", null_json());
    let e4 = entry("password", null_json());
    let e5 = entry("base_topic", str_json("hyperx_mic_lite/quadcast_s"));
    let e6 = entry("discovery_prefix", str_json("homeassistant"));
    let e7 = entry("home_assistant_discovery", bool_json(true));
    let e8 = entry("retain_state", bool_json(true));
    let e9 = entry("qos", num_json(1));
    let e10 = entry("keep_alive_secs", num_json(30));
    let e11 = entry("clean_session", bool_json(true));
    let mut es: Vec<(String, JsonValue)> = Vec::new();
    es.push(e0);
    es.push(e1);
    es.push(e2);
    es.push(e3);
    es.push(e4);
    es.push(e5);
    es.push(e6);
    es.push(e7);
    es.push(e8);
    es.push(e9);
    es.push(e10);
    es.push(e11);
    let ghost t = es@;
    assert(t[0] == e0);
    assert(t[1] == e1);
    assert(t[2] == e2);
    assert(t[3] == e3);
    assert(t[4] == e4);
    assert(t[5] == e5);
    assert(t[6] == e6);
    assert(t[7] == e7);
    assert(t[8] == e8);
    assert(t[9] == e9);
    assert(t[10] == e10);
    assert(t[11] == e11);
    let r = JsonValue::Object(es);
    assert(json_view(r)->Object_0 =~= default_mqtt_doc()->Object_0);
    r
}

/// The document of the whole configuration of a fresh configuration.
pub open spec fn default_config_doc() -> Json {
    Json::Object(
        seq![
            ("schema_version"@, num_doc(1)),
            ("audio"@, default_audio_doc()),
            ("lighting"@, default_lighting_doc()),
            ("ui"@, default_ui_doc()),
            ("service"@, default_service_doc()),
            ("device"@, default_device_doc()),
            ("mqtt"@, default_mqtt_doc()),
        ],
    )
}

proof fn lemma_default_config_doc_wf()
    ensures
        wf_doc(default_config_doc()),
{
    reveal_strlit("schema_version");
    reveal_strlit("audio");
    reveal_strlit("lighting");
    reveal_strlit("ui");
    reveal_strlit("service");
    reveal_strlit("device");
    reveal_strlit("mqtt");
    lemma_default_audio_doc_wf();
    lemma_default_lighting_doc_wf();
    lemma_default_ui_doc_wf();
    lemma_default_service_doc_wf();
    lemma_default_device_doc_wf();
    lemma_default_mqtt_doc_wf();
    let t = default_config_doc()->Object_0;
    assert forall|i: int, k: int| 0 <= i < k < t.len() implies (#[trigger] t[i]).0 != (#[trigger] t[k]).0 by {
        if i == 0 && k == 1 {
            assert("schema_version"@.len() != "audio"@.len());
        } else if i == 0 && k == 2 {
            assert("schema_version"@.len() != "lighting"@.len());
        } else if i == 0 && k == 3 {
            assert("schema_version"@.len() != "ui"@.len());
        } else if i == 0 && k == 4 {
            assert("schema_version"@.len() != "service"@.len());
        } else if i == 0 && k == 5 {
            assert("schema_version"@.len() != "device"@.len());
        } else if i == 0 && k == 6 {
            assert("schema_version"@.len() != "mqtt"@.len());
        } else if i == 1 && k == 2 {
            assert("audio"@.len() != "lighting"@.len());
        } else if i == 1 && k == 3 {
            assert("audio"@.len() != "ui"@.len());
        } else if i == 1 && k == 4 {
            assert("audio"@.len() != "service"@.len());
        } else if i == 1 && k == 5 {
            assert("audio"@.len() != "device"@.len());
        } else if i == 1 && k == 6 {
            assert("audio"@.len() != "mqtt"@.len());
        } else if i == 2 && k == 3 {
            assert("lighting"@.len() != "ui"@.len());
        } else if i == 2 && k == 4 {
            assert("lighting"@.len() != "service"@.len());
        } else if i == 2 && k == 5 {
            assert("lighting"@.len() != "device"@.len());
        } else if i == 2 && k == 6 {
            assert("lighting"@.len() != "mqtt"@.len());
        } else if i == 3 && k == 4 {
            assert("ui"@.len() != "service"@.len());
        } else if i == 3 && k == 5 {
            assert("ui"@.len() != "device"@.len());
        } else if i == 3 && k == 6 {
            assert("ui"@.len() != "mqtt"@.len());
        } else if i == 4 && k == 5 {
            assert("service"@.len() != "device"@.len());
        } else if i == 4 && k == 6 {
            assert("service"@.len() != "mqtt"@.len());
        } else if i == 5 && k == 6 {
            assert("device"@.len() != "mqtt"@.len());
        }
    }
    assert(forall|i: int| 0 <= i < t.len() ==> wf_doc(#[trigger] t[i].1));
}

fn default_config_object() -> (r: JsonValue)
    ensures
        json_view(r) == default_config_doc(),
{
    let e0 = entry("schema_version", num_json(1));
    let e1 = entry("audio", default_audio_json());
    let e2 = entry("lighting", default_lighting_json());
    let e3 = entry("ui", default_ui_json());
    let e4 = entry("service", default_service_json());
    let e5 = entry("device", default_device_json());
    let e6 = entry("mqtt", default_mqtt_json());
    let mut es: Vec<(String, JsonValue)> = Vec::new();
    es.push(e0);
    es.push(e1);
    es.push(e2);
    es.push(e3);
    es.push(e4);
    es.push(e5);
    es.push(e6);
    let ghost t = es@;
    assert(t[0] == e0);
    assert(t[1] == e1);
    assert(t[2] == e2);
    assert(t[3] == e3);
    assert(t[4] == e4);
    assert(t[5] == e5);
    assert(t[6] == e6);
    let r = JsonValue::Object(es);
    assert(json_view(r)->Object_0 =~= default_config_doc()->Object_0);
    r
}

/// The document of a fresh configuration, as serialising the defaults gives
/// it.
pub fn default_config_json() -> (r: JsonValue)
    ensures
        json_view(r) == default_config_doc(),
        json_wf(r),
{
    proof {
        lemma_default_config_doc_wf();
    }
    default_config_object()
}

/// Brings a stored configuration document up to the current schema: every
/// setting it lacks, at any depth, is filled in with its default, and every
/// setting it has is kept.
pub fn migrate_config_value(value: JsonValue) -> (r: JsonValue)
    requires
        json_wf(value),
    ensures
        json_wf(r),
        exists|d: JsonValue| json_view(d) == default_config_doc() && #[trigger] merged(r, value, d),
{
    let defaults = default_config_json();
    let mut v = value;
    merge_missing_json(&mut v, &defaults);
    assert(merged(v, value, defaults));
    v
}

} // verus!
