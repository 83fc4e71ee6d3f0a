//! The device and UI vocabulary: polar patterns, tabs, lighting effects and
//! lighting targets, with their labels and their configuration spellings.
use vstd::prelude::*;

use crate::text::str_eq;

verus! {

broadcast use vstd::string::group_string_axioms;

/// Microphone polar pattern as reported by the device.
#[derive(Clone, Copy, PartialEq, Eq, Debug, Structural)]
pub enum PolarPattern {
    Stereo,
    Omni,
    Cardioid,
    Bidirectional,
    Unknown(u8),
}

/// A decoded report from the microphone's HID interface.
#[derive(Clone, Copy, PartialEq, Eq, Debug, Structural)]
pub enum HidEvent {
    /// `true` when the microphone is live (not muted).
    Mute(bool),
    Pattern(PolarPattern),
}

#[derive(Clone, Copy, PartialEq, Eq, Debug, Structural)]
pub enum Tab {
    Audio,
    Lights,
}

#[derive(Clone, Copy, PartialEq, Eq, Debug, Structural)]
pub enum Effect {
    Wave,
    Solid,
    Cycle,
    Pulse,
    Blink,
    Lightning,
    VuMeter,
}

#[derive(Clone, Copy, PartialEq, Eq, Debug, Structural)]
pub enum LightTarget {
    All,
    Top,
    Bottom,
}

pub open spec fn polar_from_report(value: u8) -> PolarPattern {
    if value == 0 {
        PolarPattern::Stereo
    } else if value == 1 {
        PolarPattern::Omni
    } else if value == 2 {
        PolarPattern::Cardioid
    } else if value == 3 {
        PolarPattern::Bidirectional
    } else {
        PolarPattern::Unknown(value)
    }
}

pub open spec fn polar_label(p: PolarPattern) -> Seq<char> {
    match p {
        PolarPattern::Stereo => "Stereo"@,
        PolarPattern::Omni => "Omni"@,
        PolarPattern::Cardioid => "Cardioid"@,
        PolarPattern::Bidirectional => "Bidirectional"@,
        PolarPattern::Unknown(_) => "Unknown"@,
    }
}

pub open spec fn polar_from_config(s: Seq<char>) -> PolarPattern {
    if s == "stereo"@ {
        PolarPattern::Stereo
    } else if s == "omni"@ {
        PolarPattern::Omni
    } else if s == "cardioid"@ {
        PolarPattern::Cardioid
    } else if s == "bidirectional"@ {
        PolarPattern::Bidirectional
    } else {
        PolarPattern::Unknown(255)
    }
}

pub open spec fn polar_as_config(p: PolarPattern) -> Seq<char> {
    match p {
        PolarPattern::Stereo => "stereo"@,
        PolarPattern::Omni => "omni"@,
        PolarPattern::Cardioid => "cardioid"@,
        PolarPattern::Bidirectional => "bidirectional"@,
        PolarPattern::Unknown(_) => "unknown"@,
    }
}

impl PolarPattern {
    pub fn from_report(value: u8) -> (r: Self)
        ensures
            r == polar_from_report(value),
    {
        match value {
            0 => PolarPattern::Stereo,
            1 => PolarPattern::Omni,
            2 => PolarPattern::Cardioid,
            3 => PolarPattern::Bidirectional,
            other => PolarPattern::Unknown(other),
        }
    }

    pub fn label(self) -> (r: &'static str)
        ensures
            r@ == polar_label(self),
    {
        match self {
            PolarPattern::Stereo => "Stereo",
            PolarPattern::Omni => "Omni",
            PolarPattern::Cardioid => "Cardioid",
            PolarPattern::Bidirectional => "Bidirectional",
            PolarPattern::Unknown(_) => "Unknown",
        }
    }

    pub fn from_config(value: &str) -> (r: Self)
        ensures
            r == polar_from_config(value@),
    {
        if str_eq(value, "stereo") {
            PolarPattern::Stereo
        } else if str_eq(value, "omni") {
            PolarPattern::Omni
        } else if str_eq(value, "cardioid") {
            PolarPattern::Cardioid
        } else if str_eq(value, "bidirectional") {
            PolarPattern::Bidirectional
        } else {
            PolarPattern::Unknown(255)
        }
    }

    pub fn as_config(self) -> (r: &'static str)
        ensures
            r@ == polar_as_config(self),
    {
        match self {
            PolarPattern::Stereo => "stereo",
            PolarPattern::Omni => "omni",
            PolarPattern::Cardioid => "cardioid",
            PolarPattern::Bidirectional => "bidirectional",
            PolarPattern::Unknown(_) => "unknown",
        }
    }
}

pub open spec fn tab_from_config(s: Seq<char>) -> Tab {
    if s == "lights"@ {
        Tab::Lights
    } else {
        Tab::Audio
    }
}

pub open spec fn tab_as_config(t: Tab) -> Seq<char> {
    match t {
        Tab::Audio => "audio"@,
        Tab::Lights => "lights"@,
    }
}

impl Tab {
    pub fn from_config(value: &str) -> (r: Self)
        ensures
            r == tab_from_config(value@),
    {
        if str_eq(value, "lights") {
            Tab::Lights
        } else {
            Tab::Audio
        }
    }

    pub fn as_config(self) -> (r: &'static str)
        ensures
            r@ == tab_as_config(self),
    {
        match self {
            Tab::Audio => "audio",
            Tab::Lights => "lights",
        }
    }
}

pub open spec fn effect_label(e: Effect) -> Seq<char> {
    match e {
        Effect::Wave => "Wave"@,
        Effect::Solid => "Solid"@,
        Effect::Cycle => "Cycle"@,
        Effect::Pulse => "Pulse"@,
        Effect::Blink => "Blink"@,
        Effect::Lightning => "Lightning"@,
        Effect::VuMeter => "VU Meter"@,
    }
}

/// The configuration spelling of a known effect name, if `s` is one.
pub open spec fn effect_from_name(s: Seq<char>) -> Option<Effect> {
    if s == "wave"@ {
        Some(Effect::Wave)
    } else if s == "solid"@ {
        Some(Effect::Solid)
    } else if s == "cycle"@ {
        Some(Effect::Cycle)
    } else if s == "pulse"@ {
        Some(Effect::Pulse)
    } else if s == "blink"@ {
        Some(Effect::Blink)
    } else if s == "lightning"@ {
        Some(Effect::Lightning)
    } else if s == "vu_meter"@ {
        Some(Effect::VuMeter)
    } else {
        None
    }
}

/// Unknown names fall back to `Wave`.
pub open spec fn effect_from_config(s: Seq<char>) -> Effect {
    match effect_from_name(s) {
        Some(e) => e,
        None => Effect::Wave,
    }
}

pub open spec fn effect_as_config(e: Effect) -> Seq<char> {
    match e {
        Effect::Wave => "wave"@,
        Effect::Solid => "solid"@,
        Effect::Cycle => "cycle"@,
        Effect::Pulse => "pulse"@,
        Effect::Blink => "blink"@,
        Effect::Lightning => "lightning"@,
        Effect::VuMeter => "vu_meter"@,
    }
}

/// Reads an effect name; `None` for anything that is not one of the seven.
pub fn effect_by_name(value: &str) -> (r: Option<Effect>)
    ensures
        r == effect_from_name(value@),
{
    if str_eq(value, "wave") {
        Some(Effect::Wave)
    } else if str_eq(value, "solid") {
        Some(Effect::Solid)
    } else if str_eq(value, "cycle") {
        Some(Effect::Cycle)
    } else if str_eq(value, "pulse") {
        Some(Effect::Pulse)
    } else if str_eq(value, "blink") {
        Some(Effect::Blink)
    } else if str_eq(value, "lightning") {
        Some(Effect::Lightning)
    } else if str_eq(value, "vu_meter") {
        Some(Effect::VuMeter)
    } else {
        None
    }
}

impl Effect {
    pub fn label(self) -> (r: &'static str)
        ensures
            r@ == effect_label(self),
    {
        match self {
            Effect::Wave => "Wave",
            Effect::Solid => "Solid",
            Effect::Cycle => "Cycle",
            Effect::Pulse => "Pulse",
            Effect::Blink => "Blink",
            Effect::Lightning => "Lightning",
            Effect::VuMeter => "VU Meter",
        }
    }

    pub fn from_config(value: &str) -> (r: Self)
        ensures
            r == effect_from_config(value@),
    {
        match effect_by_name(value) {
            Some(e) => e,
            None => Effect::Wave,
        }
    }

    pub fn as_config(self) -> (r: &'static str)
        ensures
            r@ == effect_as_config(self),
    {
        match self {
            Effect::Wave => "wave",
            Effect::Solid => "solid",
            Effect::Cycle => "cycle",
            Effect::Pulse => "pulse",
            Effect::Blink => "blink",
            Effect::Lightning => "lightning",
            Effect::VuMeter => "vu_meter",
        }
    }
}

pub open spec fn target_label(t: LightTarget) -> Seq<char> {
    match t {
        LightTarget::All => "All"@,
        LightTarget::Top => "Top"@,
        LightTarget::Bottom => "Bottom"@,
    }
}

pub open spec fn target_from_name(s: Seq<char>) -> Option<LightTarget> {
    if s == "all"@ {
        Some(LightTarget::All)
    } else if s == "top"@ {
        Some(LightTarget::Top)
    } else if s == "bottom"@ {
        Some(LightTarget::Bottom)
    } else {
        None
    }
}

/// Unknown names fall back to `All`.
pub open spec fn target_from_config(s: Seq<char>) -> LightTarget {
    match target_from_name(s) {
        Some(t) => t,
        None => LightTarget::All,
    }
}

pub open spec fn target_as_config(t: LightTarget) -> Seq<char> {
    match t {
        LightTarget::All => "all"@,
        LightTarget::Top => "top"@,
        LightTarget::Bottom => "bottom"@,
    }
}

/// Reads a target name; `None` for anything that is not one of the three.
pub fn target_by_name(value: &str) -> (r: Option<LightTarget>)
    ensures
        r == target_from_name(value@),
{
    if str_eq(value, "all") {
        Some(LightTarget::All)
    } else if str_eq(value, "top") {
        Some(LightTarget::Top)
    } else if str_eq(value, "bottom") {
        Some(LightTarget::Bottom)
    } else {
        None
    }
}

impl LightTarget {
    pub fn label(self) -> (r: &'static str)
        ensures
            r@ == target_label(self),
    {
        match self {
            LightTarget::All => "All",
            LightTarget::Top => "Top",
            LightTarget::Bottom => "Bottom",
        }
    }

    pub fn from_config(value: &str) -> (r: Self)
        ensures
            r == target_from_config(value@),
    {
        match target_by_name(value) {
            Some(t) => t,
            None => LightTarget::All,
        }
    }

    pub fn as_config(self) -> (r: &'static str)
        ensures
            r@ == target_as_config(self),
    {
        match self {
            LightTarget::All => "all",
            LightTarget::Top => "top",
            LightTarget::Bottom => "bottom",
        }
    }
}

/// Reading back the configuration spelling of a known pattern gives the
/// pattern; an unknown pattern reads back as `Unknown(255)`.
pub proof fn law_polar_config_round_trip(p: PolarPattern)
    ensures
        polar_from_config(polar_as_config(p)) == (match p {
            PolarPattern::Unknown(_) => PolarPattern::Unknown(255),
            _ => p,
        }),
{
    reveal_strlit("stereo");
    assert("stereo"@.len() == 6);
    assert("stereo"@[0] == 's');
    reveal_strlit("omni");
    assert("omni"@.len() == 4);
    assert("omni"@[0] == 'o');
    reveal_strlit("cardioid");
    assert("cardioid"@.len() == 8);
    assert("cardioid"@[0] == 'c');
    reveal_strlit("bidirectional");
    assert("bidirectional"@.len() == 13);
    assert("bidirectional"@[0] == 'b');
    reveal_strlit("unknown");
    assert("unknown"@.len() == 7);
    assert("unknown"@[0] == 'u');
}

/// The configuration spelling of a tab reads back as the same tab.
pub proof fn law_tab_config_round_trip(t: Tab)
    ensures
        tab_from_config(tab_as_config(t)) == t,
{
    reveal_strlit("lights");
    assert("lights"@.len() == 6);
    assert("lights"@[0] == 'l');
    reveal_strlit("audio");
    assert("audio"@.len() == 5);
    assert("audio"@[0] == 'a');
}

/// The configuration spelling of an effect reads back as the same effect.
pub proof fn law_effect_config_round_trip(e: Effect)
    ensures
        effect_from_name(effect_as_config(e)) == Some(e),
        effect_from_config(effect_as_config(e)) == e,
{
    reveal_strlit("wave");
    assert("wave"@.len() == 4);
    assert("wave"@[0] == 'w');
    reveal_strlit("solid");
    assert("solid"@.len() == 5);
    assert("solid"@[0] == 's');
    reveal_strlit("cycle");
    assert("cycle"@.len() == 5);
    assert("cycle"@[0] == 'c');
    reveal_strlit("pulse");
    assert("pulse"@.len() == 5);
    assert("pulse"@[0] == 'p');
    reveal_strlit("blink");
    assert("blink"@.len() == 5);
    assert("blink"@[0] == 'b');
    reveal_strlit("lightning");
    assert("lightning"@.len() == 9);
    assert("lightning"@[0] == 'l');
    reveal_strlit("vu_meter");
    assert("vu_meter"@.len() == 8);
    assert("vu_meter"@[0] == 'v');
}

/// The configuration spelling of a target reads back as the same target.
pub proof fn law_target_config_round_trip(t: LightTarget)
    ensures
        target_from_name(target_as_config(t)) == Some(t),
        target_from_config(target_as_config(t)) == t,
{
    reveal_strlit("all");
    assert("all"@.len() == 3);
    assert("all"@[0] == 'a');
    reveal_strlit("top");
    assert("top"@.len() == 3);
    assert("top"@[0] == 't');
    reveal_strlit("bottom");
    assert("bottom"@.len() == 6);
    assert("bottom"@[0] == 'b');
}

} // verus!
