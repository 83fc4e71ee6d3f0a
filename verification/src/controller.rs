//! The window's state and its decisions, apart from drawing: what the
//! controls start from, what a remote command or a hardware button
//! changes and asks the caller to do, which notices describe the devices,
//! the lighting program a press of "Apply" streams, and the configuration
//! the current state saves as.
use vstd::prelude::*;

use crate::config::{
    strings_view, AppConfig, AudioConfig, DeviceConfig, LightingConfig, MqttConfig, ServiceConfig,
    UiConfig, CONFIG_SCHEMA_VERSION, DEFAULT_WINDOW_HEIGHT_BITS, DEFAULT_WINDOW_WIDTH_BITS,
    default_palette,
};
use crate::lighting::{color_hex_spec, color_to_hex, LightingProgram};
use crate::lighting_cli::{parse_palette, parsed_colors, rgb_view};
use crate::model::{
    effect_as_config, effect_from_config, effect_label, polar_as_config, polar_from_config,
    tab_as_config, tab_from_config, target_as_config, target_from_config, Effect, LightTarget,
    PolarPattern, Tab, HidEvent,
};
use crate::mqtt::{MqttCommand, MqttStateSnapshot};
use crate::audio::{hyperx_name_spec, is_expected_hyperx_device_name};
use crate::mqtt::{topic_spec, trim_topic};
use crate::text::{concat2, concat3, owned, str_eq, trim_seq, trim_string};

verus! {

broadcast use vstd::string::group_string_axioms;

/// What the window knows of the default capture device.
pub struct MicStatusView {
    pub name: String,
    pub state: String,
    pub volume: u8,
    pub muted: bool,
}

/// The lighting controls.
pub struct LightingState {
    pub effect: Effect,
    pub target: LightTarget,
    pub split_layers: bool,
    pub top_effect: Effect,
    pub bottom_effect: Effect,
    pub colors: Vec<[u8; 3]>,
    pub selected_color: usize,
    pub opacity: u8,
    pub speed: u8,
    pub brightness: u8,
    pub live_when_muted: bool,
}

#[derive(Clone, Copy, PartialEq, Eq, Debug, Structural)]
pub enum NoticeSeverity {
    Good,
    Info,
    Warning,
    Error,
}

/// A line of status text with its severity.
pub struct UiNotice {
    pub severity: NoticeSeverity,
    pub message: String,
}

/// Device work the caller carries out for the controller, in order.
#[derive(Clone, Copy, PartialEq, Eq, Debug, Structural)]
pub enum ControllerAction {
    /// Mute or unmute the microphone, then read its status again.
    SetMute(bool),
    ApplyMicVolume(u8),
    ApplyMonitoringVolume(u8),
    ApplyHeadphoneVolume(u8),
    /// Save the configuration the controller's state gives.
    SaveConfig,
    /// Stream the program `lighting_program` gives.
    ApplyLighting,
    StopLighting,
    /// Persist the lighting in the microphone.
    SaveLighting,
    /// Show the live (green) or muted (red) colour once.
    ShowLiveMuteColor(bool),
    PublishState,
}

/// The window's state, apart from drawing and device handles.
pub struct MicController {
    pub tab: Tab,
    pub status: Option<MicStatusView>,
    pub status_error: Option<String>,
    pub mic_volume: u8,
    pub mic_monitoring: u8,
    pub headphone_volume: u8,
    pub mute_on_app_start: bool,
    pub hid_muted: bool,
    pub polar_pattern: PolarPattern,
    pub lighting: LightingState,
    pub lighting_device_present: bool,
    pub input_monitor_present: bool,
    pub lighting_stream_active: bool,
    pub lighting_notice: Option<UiNotice>,
    pub mqtt_config: MqttConfig,
    pub minimize_to_tray: bool,
    pub window_x_bits: Option<u32>,
    pub window_y_bits: Option<u32>,
}

fn copy_opt_string(o: &Option<String>) -> (r: Option<String>)
    ensures
        r == *o,
{
    match o {
        Some(s) => Some(s.clone()),
        None => None,
    }
}

impl MqttConfig {
    /// A copy of the MQTT settings.
    pub fn copy_of(&self) -> (r: Self)
        ensures
            r == *self,
    {
        MqttConfig {
            enabled: self.enabled,
            url: self.url.clone(),
            client_id: self.client_id.clone(),
            username: copy_opt_string(&self.username),
            password: copy_opt_string(&self.password),
            base_topic: self.base_topic.clone(),
            discovery_prefix: self.discovery_prefix.clone(),
            home_assistant_discovery: self.home_assistant_discovery,
            retain_state: self.retain_state,
            qos: self.qos,
            keep_alive_secs: self.keep_alive_secs,
            clean_session: self.clean_session,
        }
    }
}

/// The palette the window starts with: the configured colours that parse,
/// or the default palette when none does.
pub open spec fn start_palette(colors: Seq<Seq<char>>) -> Seq<Seq<u8>> {
    if parsed_colors(colors).len() == 0 {
        parsed_colors(default_palette())
    } else {
        parsed_colors(colors)
    }
}

/// The notice about the microphone itself, if any.
pub open spec fn mic_notices(status: Option<MicStatusView>, error: Option<String>) -> Seq<
    (NoticeSeverity, Seq<char>),
> {
    match status {
        Some(s) => if s.state@ != "active"@ {
            seq![(NoticeSeverity::Error, "Microphone is "@ + s.state@ + ": "@ + s.name@)]
        } else if !hyperx_name_spec(s.name@) {
            seq![(NoticeSeverity::Warning, "Default input is not QuadCast S: "@ + s.name@)]
        } else {
            Seq::empty()
        },
        None => match error {
            Some(e) => seq![(NoticeSeverity::Error, "Microphone unavailable: "@ + e@)],
            None => seq![(NoticeSeverity::Error, "Microphone unavailable."@)],
        },
    }
}

pub open spec fn lighting_notices(present: bool) -> Seq<(NoticeSeverity, Seq<char>)> {
    if !present {
        seq![
            (
                NoticeSeverity::Warning,
                "Lighting HID not detected; effects and persistent save are unavailable."@,
            ),
        ]
    } else {
        Seq::empty()
    }
}

pub open spec fn meter_notices(present: bool) -> Seq<(NoticeSeverity, Seq<char>)> {
    if !present {
        seq![
            (
                NoticeSeverity::Warning,
                "Input meter unavailable; capture level monitoring is unsupported or busy."@,
            ),
        ]
    } else {
        Seq::empty()
    }
}

/// Every notice that applies, in order; "ready" when none does.
pub open spec fn device_notices_spec(c: MicController) -> Seq<(NoticeSeverity, Seq<char>)> {
    let all = mic_notices(c.status, c.status_error) + lighting_notices(c.lighting_device_present)
        + meter_notices(c.input_monitor_present);
    if all.len() == 0 {
        seq![(NoticeSeverity::Good, "Audio and lighting devices ready."@)]
    } else {
        all
    }
}

impl MicController {
    /// The state the window opens with for `config`: every control from
    /// the configuration, the palette from its colours (the default
    /// palette when none parses), the selected colour reset to the first
    /// when it is out of range.  No device is known yet.
    pub fn new(config: AppConfig) -> (r: Self)
        ensures
            r.tab == tab_from_config(config.ui.selected_tab@),
            r.status is None,
            r.status_error is None,
            r.mic_volume == config.audio.mic_volume,
            r.mic_monitoring == config.audio.mic_monitoring,
            r.headphone_volume == config.audio.headphone_volume,
            r.mute_on_app_start == config.audio.mute_on_app_start,
            !r.hid_muted,
            r.polar_pattern == polar_from_config(config.ui.last_polar_pattern@),
            r.lighting.effect == effect_from_config(config.lighting.effect@),
            r.lighting.target == target_from_config(config.lighting.target@),
            r.lighting.split_layers == config.lighting.split_layers,
            r.lighting.top_effect == effect_from_config(config.lighting.top_effect@),
            r.lighting.bottom_effect == effect_from_config(config.lighting.bottom_effect@),
            rgb_view(r.lighting.colors@) == start_palette(strings_view(config.lighting.colors@)),
            r.lighting.selected_color == (if config.lighting.selected_color < r.lighting.colors@.len() {
                config.lighting.selected_color
            } else {
                0
            }),
            r.lighting.opacity == config.lighting.opacity,
            r.lighting.speed == config.lighting.speed,
            r.lighting.brightness == config.lighting.brightness,
            r.lighting.live_when_muted == config.lighting.live_when_muted,
            !r.lighting_device_present,
            !r.input_monitor_present,
            !r.lighting_stream_active,
            r.lighting_notice is None,
            r.mqtt_config == config.mqtt,
            r.minimize_to_tray == config.ui.minimize_to_tray,
            r.window_x_bits == config.ui.window_x_bits,
            r.window_y_bits == config.ui.window_y_bits,
    {
        let mut colors = parse_palette(&config.lighting.colors);
        if colors.len() == 0 {
            let defaults = AppConfig::default();
            colors = parse_palette(&defaults.lighting.colors);
        }
        let selected = if config.lighting.selected_color < colors.len() {
            config.lighting.selected_color
        } else {
            0
        };
        MicController {
            tab: Tab::from_config(config.ui.selected_tab.as_str()),
            status: None,
            status_error: None,
            mic_volume: config.audio.mic_volume,
            mic_monitoring: config.audio.mic_monitoring,
            headphone_volume: config.audio.headphone_volume,
            mute_on_app_start: config.audio.mute_on_app_start,
            hid_muted: false,
            polar_pattern: PolarPattern::from_config(config.ui.last_polar_pattern.as_str()),
            lighting: LightingState {
                effect: Effect::from_config(config.lighting.effect.as_str()),
                target: LightTarget::from_config(config.lighting.target.as_str()),
                split_layers: config.lighting.split_layers,
                top_effect: Effect::from_config(config.lighting.top_effect.as_str()),
                bottom_effect: Effect::from_config(config.lighting.bottom_effect.as_str()),
                colors,
                selected_color: selected,
                opacity: config.lighting.opacity,
                speed: config.lighting.speed,
                brightness: config.lighting.brightness,
                live_when_muted: config.lighting.live_when_muted,
            },
            lighting_device_present: false,
            input_monitor_present: false,
            lighting_stream_active: false,
            lighting_notice: None,
            mqtt_config: config.mqtt,
            minimize_to_tray: config.ui.minimize_to_tray,
            window_x_bits: config.ui.window_x_bits,
            window_y_bits: config.ui.window_y_bits,
        }
    }

    /// What the window does right after opening: read the microphone's
    /// status, and mute it when the configuration asks for that.
    pub fn startup_actions(&self) -> (r: Vec<ControllerAction>)
        ensures
            r@ == (if self.mute_on_app_start {
                seq![ControllerAction::SetMute(true)]
            } else {
                Seq::empty()
            }),
    {
        let mut r: Vec<ControllerAction> = Vec::new();
        if self.mute_on_app_start {
            r.push(ControllerAction::SetMute(true));
        }
        r
    }

    /// The microphone counts as muted when the system says so or its own
    /// mute button was last pressed to mute.
    pub open spec fn muted_spec(&self) -> bool {
        (self.status matches Some(s) && s.muted) || self.hid_muted
    }

    pub fn is_muted(&self) -> (r: bool)
        ensures
            r == self.muted_spec(),
    {
        match &self.status {
            Some(s) => s.muted || self.hid_muted,
            None => self.hid_muted,
        }
    }

    /// A fresh reading of the microphone: its volume becomes the volume
    /// control's, or the error is kept for display.
    pub fn record_status(&mut self, reading: Result<MicStatusView, String>)
        ensures
            match reading {
                Ok(s) => final(self).status == Some(s) && final(self).status_error is None
                    && final(self).mic_volume == s.volume,
                Err(e) => final(self).status_error == Some(e) && final(self).status
                    == old(self).status && final(self).mic_volume == old(self).mic_volume,
            },
            final(self).lighting == old(self).lighting,
            final(self).hid_muted == old(self).hid_muted,
    {
        match reading {
            Ok(s) => {
                self.mic_volume = s.volume;
                self.status = Some(s);
                self.status_error = None;
            },
            Err(e) => {
                self.status_error = Some(e);
            },
        }
    }

    /// A command from MQTT: the settings it changes, and the device work
    /// it asks for; the state is published after every command.
    #[verifier::rlimit(40)]
    pub fn apply_mqtt_command(&mut self, command: MqttCommand) -> (r: Vec<ControllerAction>)
        ensures
            r@.len() >= 1,
            r@.last() == ControllerAction::PublishState,
            match command {
                MqttCommand::SetMute(m) => *final(self) == *old(self) && r@ == seq![
                    ControllerAction::SetMute(m),
                    ControllerAction::PublishState,
                ],
                MqttCommand::ToggleMute => *final(self) == *old(self) && r@ == seq![
                    ControllerAction::SetMute(!old(self).muted_spec()),
                    ControllerAction::PublishState,
                ],
                MqttCommand::SetMicVolume(v) => *final(self) == (MicController {
                    mic_volume: v,
                    ..*old(self)
                }) && r@ == seq![
                    ControllerAction::ApplyMicVolume(v),
                    ControllerAction::SaveConfig,
                    ControllerAction::PublishState,
                ],
                MqttCommand::SetMonitoringVolume(v) => *final(self) == (MicController {
                    mic_monitoring: v,
                    ..*old(self)
                }) && r@ == seq![
                    ControllerAction::ApplyMonitoringVolume(v),
                    ControllerAction::SaveConfig,
                    ControllerAction::PublishState,
                ],
                MqttCommand::SetHeadphoneVolume(v) => *final(self) == (MicController {
                    headphone_volume: v,
                    ..*old(self)
                }) && r@ == seq![
                    ControllerAction::ApplyHeadphoneVolume(v),
                    ControllerAction::SaveConfig,
                    ControllerAction::PublishState,
                ],
                MqttCommand::SetEffect(e) => *final(self) == (MicController {
                    lighting: LightingState { effect: e, ..old(self).lighting },
                    ..*old(self)
                }) && r@ == seq![
                    ControllerAction::SaveConfig,
                    ControllerAction::ApplyLighting,
                    ControllerAction::PublishState,
                ],
                MqttCommand::SetTarget(t) => *final(self) == (MicController {
                    lighting: LightingState { target: t, ..old(self).lighting },
                    ..*old(self)
                }) && r@ == seq![
                    ControllerAction::SaveConfig,
                    ControllerAction::ApplyLighting,
                    ControllerAction::PublishState,
                ],
                MqttCommand::SetBrightness(v) => *final(self) == (MicController {
                    lighting: LightingState { brightness: v, ..old(self).lighting },
                    ..*old(self)
                }) && r@ == seq![
                    ControllerAction::SaveConfig,
                    ControllerAction::ApplyLighting,
                    ControllerAction::PublishState,
                ],
                MqttCommand::SetSpeed(v) => *final(self) == (MicController {
                    lighting: LightingState { speed: v, ..old(self).lighting },
                    ..*old(self)
                }) && r@ == seq![
                    ControllerAction::SaveConfig,
                    ControllerAction::ApplyLighting,
                    ControllerAction::PublishState,
                ],
                MqttCommand::SetOpacity(v) => *final(self) == (MicController {
                    lighting: LightingState { opacity: v, ..old(self).lighting },
                    ..*old(self)
                }) && r@ == seq![
                    ControllerAction::SaveConfig,
                    ControllerAction::ApplyLighting,
                    ControllerAction::PublishState,
                ],
                MqttCommand::SetLiveWhenMuted(b) => *final(self) == (MicController {
                    lighting: LightingState { live_when_muted: b, ..old(self).lighting },
                    ..*old(self)
                }) && r@ == seq![ControllerAction::SaveConfig, ControllerAction::PublishState],
                MqttCommand::ApplyLighting => *final(self) == *old(self) && r@ == seq![
                    ControllerAction::ApplyLighting,
                    ControllerAction::PublishState,
                ],
                MqttCommand::StopLighting => *final(self) == (MicController {
                    lighting_stream_active: false,
                    lighting_notice: final(self).lighting_notice,
                    ..*old(self)
                }) && (
                final(self).lighting_notice matches Some(n) && n.severity == NoticeSeverity::Info
                    && n.message@ == "Lighting stream stopped from MQTT."@) && r@ == seq![
                    ControllerAction::StopLighting,
                    ControllerAction::PublishState,
                ],
                MqttCommand::SaveLighting => *final(self) == *old(self) && r@ == seq![
                    ControllerAction::SaveLighting,
                    ControllerAction::PublishState,
                ],
            },
    {
        let mut r: Vec<ControllerAction> = Vec::new();
        match command {
            MqttCommand::SetMute(m) => {
                r.push(ControllerAction::SetMute(m));
            },
            MqttCommand::ToggleMute => {
                let muted = self.is_muted();
                r.push(ControllerAction::SetMute(!muted));
            },
            MqttCommand::SetMicVolume(v) => {
                self.mic_volume = v;
                r.push(ControllerAction::ApplyMicVolume(v));
                r.push(ControllerAction::SaveConfig);
            },
            MqttCommand::SetMonitoringVolume(v) => {
                self.mic_monitoring = v;
                r.push(ControllerAction::ApplyMonitoringVolume(v));
                r.push(ControllerAction::SaveConfig);
            },
            MqttCommand::SetHeadphoneVolume(v) => {
                self.headphone_volume = v;
                r.push(ControllerAction::ApplyHeadphoneVolume(v));
                r.push(ControllerAction::SaveConfig);
            },
            MqttCommand::SetEffect(e) => {
                self.lighting.effect = e;
                r.push(ControllerAction::SaveConfig);
                r.push(ControllerAction::ApplyLighting);
            },
            MqttCommand::SetTarget(t) => {
                self.lighting.target = t;
                r.push(ControllerAction::SaveConfig);
                r.push(ControllerAction::ApplyLighting);
            },
            MqttCommand::SetBrightness(v) => {
                self.lighting.brightness = v;
                r.push(ControllerAction::SaveConfig);
                r.push(ControllerAction::ApplyLighting);
            },
            MqttCommand::SetSpeed(v) => {
                self.lighting.speed = v;
                r.push(ControllerAction::SaveConfig);
                r.push(ControllerAction::ApplyLighting);
            },
            MqttCommand::SetOpacity(v) => {
                self.lighting.opacity = v;
                r.push(ControllerAction::SaveConfig);
                r.push(ControllerAction::ApplyLighting);
            },
            MqttCommand::SetLiveWhenMuted(b) => {
                self.lighting.live_when_muted = b;
                r.push(ControllerAction::SaveConfig);
            },
            MqttCommand::ApplyLighting => {
                r.push(ControllerAction::ApplyLighting);
            },
            MqttCommand::StopLighting => {
                self.lighting_stream_active = false;
                self.lighting_notice = Some(
                    UiNotice {
                        severity: NoticeSeverity::Info,
                        message: owned("Lighting stream stopped from MQTT."),
                    },
                );
                r.push(ControllerAction::StopLighting);
            },
            MqttCommand::SaveLighting => {
                r.push(ControllerAction::SaveLighting);
            },
        }
        r.push(ControllerAction::PublishState);
        r
    }

    /// A report from the microphone's own buttons.  The mute button mutes
    /// or unmutes the system microphone to match and, when the lights
    /// show the live state and no stream is running, shows its colour; a
    /// new polar pattern is remembered and saved.
    pub fn apply_hid_event(&mut self, event: HidEvent) -> (r: Vec<ControllerAction>)
        ensures
            match event {
                HidEvent::Mute(live) => *final(self) == (MicController {
                    hid_muted: !live,
                    ..*old(self)
                }) && r@ == (if old(
                    self,
                ).lighting.live_when_muted && !old(self).lighting_stream_active {
                    seq![ControllerAction::SetMute(!live), ControllerAction::ShowLiveMuteColor(live)]
                } else {
                    seq![ControllerAction::SetMute(!live)]
                }),
                HidEvent::Pattern(p) => *final(self) == (MicController {
                    polar_pattern: p,
                    ..*old(self)
                }) && r@ == seq![
                    ControllerAction::SaveConfig,
                ],
            },
    {
        let mut r: Vec<ControllerAction> = Vec::new();
        match event {
            HidEvent::Mute(live) => {
                self.hid_muted = !live;
                r.push(ControllerAction::SetMute(!live));
                if self.lighting.live_when_muted && !self.lighting_stream_active {
                    r.push(ControllerAction::ShowLiveMuteColor(live));
                }
            },
            HidEvent::Pattern(p) => {
                self.polar_pattern = p;
                r.push(ControllerAction::SaveConfig);
            },
        }
        r
    }

    /// The program "Apply" streams: the selected colour alone for the solid
    /// effect (pure green when none is selected), the whole palette
    /// otherwise.  Without a lighting controller nothing is streamed and a
    /// warning is shown instead.
    pub fn lighting_program(&mut self) -> (r: Option<LightingProgram>)
        ensures
            r is Some <==> old(self).lighting_device_present,
            r is Some ==> final(self).lighting_stream_active,
            r is None ==> (final(self).lighting_notice matches Some(n) && n.severity
                == NoticeSeverity::Warning && n.message@
                == "Lighting controller not detected. Connect the QuadCast S and close NGENUITY."@),
            r matches Some(p) ==> {
                &&& p.effect == old(self).lighting.effect
                &&& p.target == old(self).lighting.target
                &&& p.split_layers == old(self).lighting.split_layers
                &&& p.top_effect == old(self).lighting.top_effect
                &&& p.bottom_effect == old(self).lighting.bottom_effect
                &&& p.speed == old(self).lighting.speed
                &&& p.brightness == old(self).lighting.brightness
                &&& p.colors@ == (if old(self).lighting.effect == Effect::Solid {
                    if old(self).lighting.selected_color < old(self).lighting.colors@.len() {
                        seq![old(self).lighting.colors@[old(self).lighting.selected_color as int]]
                    } else {
                        seq![[0u8, 255u8, 0u8]]
                    }
                } else {
                    old(self).lighting.colors@
                })
                &&& final(self).lighting_notice matches Some(n) && n.severity
                    == NoticeSeverity::Info && n.message@ == "Applying "@ + effect_label(p.effect)
                    + " lighting."@
            },
            r is None ==> final(self).lighting_stream_active == old(self).lighting_stream_active,
            *final(self) == (MicController {
                lighting_stream_active: final(self).lighting_stream_active,
                lighting_notice: final(self).lighting_notice,
                ..*old(self)
            }),
    {
        if !self.lighting_device_present {
            self.lighting_notice = Some(
                UiNotice {
                    severity: NoticeSeverity::Warning,
                    message: owned(
                        "Lighting controller not detected. Connect the QuadCast S and close NGENUITY.",
                    ),
                },
            );
            return None;
        }
        let mut colors: Vec<[u8; 3]> = Vec::new();
        if self.lighting.effect == Effect::Solid {
            if self.lighting.selected_color < self.lighting.colors.len() {
                colors.push(self.lighting.colors[self.lighting.selected_color]);
            } else {
                colors.push([0, 255, 0]);
            }
        } else {
            let mut i: usize = 0;
            while i < self.lighting.colors.len()
                invariant
                    i <= self.lighting.colors@.len(),
                    colors@ == self.lighting.colors@.subrange(0, i as int),
                decreases self.lighting.colors@.len() - i,
            {
                colors.push(self.lighting.colors[i]);
                assert(colors@ =~= self.lighting.colors@.subrange(0, i + 1));
                i = i + 1;
            }
            assert(colors@ =~= self.lighting.colors@);
        }
        let program = LightingProgram {
            effect: self.lighting.effect,
            target: self.lighting.target,
            split_layers: self.lighting.split_layers,
            top_effect: self.lighting.top_effect,
            bottom_effect: self.lighting.bottom_effect,
            colors,
            speed: self.lighting.speed,
            brightness: self.lighting.brightness,
        };
        self.lighting_stream_active = true;
        self.lighting_notice = Some(
            UiNotice {
                severity: NoticeSeverity::Info,
                message: concat3("Applying ", program.effect.label(), " lighting."),
            },
        );
        Some(program)
    }

    /// The notices that describe the devices: the microphone's state (or
    /// why it cannot be read), a missing lighting controller, a missing
    /// input meter; "ready" when all is well.
    pub fn device_status_notices(&self) -> (r: Vec<UiNotice>)
        ensures
            r@.len() >= 1,
            r@.map_values(|n: UiNotice| (n.severity, n.message@)) == device_notices_spec(*self),
    {
        let mut notices: Vec<UiNotice> = Vec::new();
        let ghost v0 = notices@.map_values(|n: UiNotice| (n.severity, n.message@));
        match &self.status {
            Some(s) => {
                if !str_eq(s.state.as_str(), "active") {
                    let mut m = concat2("Microphone is ", s.state.as_str());
                    m.append(": ");
                    m.append(s.name.as_str());
                    notices.push(UiNotice { severity: NoticeSeverity::Error, message: m });
                } else if !is_expected_hyperx_device_name(s.name.as_str()) {
                    notices.push(
                        UiNotice {
                            severity: NoticeSeverity::Warning,
                            message: concat2("Default input is not QuadCast S: ", s.name.as_str()),
                        },
                    );
                }
            },
            None => match &self.status_error {
                Some(e) => {
                    notices.push(
                        UiNotice {
                            severity: NoticeSeverity::Error,
                            message: concat2("Microphone unavailable: ", e.as_str()),
                        },
                    );
                },
                None => {
                    notices.push(
                        UiNotice {
                            severity: NoticeSeverity::Error,
                            message: owned("Microphone unavailable."),
                        },
                    );
                },
            },
        }
        let ghost v1 = notices@.map_values(|n: UiNotice| (n.severity, n.message@));
        if !self.lighting_device_present {
            notices.push(
                UiNotice {
                    severity: NoticeSeverity::Warning,
                    message: owned(
                        "Lighting HID not detected; effects and persistent save are unavailable.",
                    ),
                },
            );
        }
        let ghost v2 = notices@.map_values(|n: UiNotice| (n.severity, n.message@));
        if !self.input_monitor_present {
            notices.push(
                UiNotice {
                    severity: NoticeSeverity::Warning,
                    message: owned(
                        "Input meter unavailable; capture level monitoring is unsupported or busy.",
                    ),
                },
            );
        }
        let ghost v3 = notices@.map_values(|n: UiNotice| (n.severity, n.message@));
        if notices.len() == 0 {
            notices.push(
                UiNotice {
                    severity: NoticeSeverity::Good,
                    message: owned("Audio and lighting devices ready."),
                },
            );
        }
        proof {
            assert(v1 =~= mic_notices(self.status, self.status_error));
            assert(v3 =~= v1 + lighting_notices(self.lighting_device_present) + meter_notices(
                self.input_monitor_present,
            ));
        }
        notices
    }

    /// What MQTT is told of the current state.  `input_level` is the input
    /// level already written as text; without a status reading the device
    /// reads as unavailable, with the last error (or "unavailable") as its
    /// state.
    pub fn mqtt_state_snapshot(&self, input_level: String) -> (r: MqttStateSnapshot)
        ensures
            match self.status {
                Some(s) => {
                    &&& r.available == (s.state@ == "active"@)
                    &&& r.device_name@ == s.name@
                    &&& r.device_state@ == s.state@
                    &&& r.mic_volume == s.volume
                },
                None => {
                    &&& !r.available
                    &&& r.device_name@ == "Unavailable"@
                    &&& r.device_state@ == (match self.status_error {
                        Some(e) => e@,
                        None => "unavailable"@,
                    })
                    &&& r.mic_volume == self.mic_volume
                },
            },
            r.muted == self.muted_spec(),
            r.mic_monitoring == self.mic_monitoring,
            r.headphone_volume == self.headphone_volume,
            r.input_level@ == input_level@,
            r.polar_pattern@ == polar_as_config(self.polar_pattern),
            r.lighting_available == self.lighting_device_present,
            r.effect@ == effect_as_config(self.lighting.effect),
            r.target@ == target_as_config(self.lighting.target),
            r.brightness == self.lighting.brightness,
            r.speed == self.lighting.speed,
            r.opacity == self.lighting.opacity,
            r.live_when_muted == self.lighting.live_when_muted,
    {
        let muted = self.is_muted();
        let (available, device_name, device_state, mic_volume) = match &self.status {
            Some(s) => (str_eq(s.state.as_str(), "active"), s.name.clone(), s.state.clone(), s.volume),
            None => (
                false,
                owned("Unavailable"),
                match &self.status_error {
                    Some(e) => e.clone(),
                    None => owned("unavailable"),
                },
                self.mic_volume,
            ),
        };
        MqttStateSnapshot {
            available,
            device_name,
            device_state,
            muted,
            mic_volume,
            mic_monitoring: self.mic_monitoring,
            headphone_volume: self.headphone_volume,
            input_level,
            polar_pattern: owned(self.polar_pattern.as_config()),
            lighting_available: self.lighting_device_present,
            effect: owned(self.lighting.effect.as_config()),
            target: owned(self.lighting.target.as_config()),
            brightness: self.lighting.brightness,
            speed: self.lighting.speed,
            opacity: self.lighting.opacity,
            live_when_muted: self.lighting.live_when_muted,
        }
    }

    /// The configuration the current state saves as.  The service and
    /// device sections are edited elsewhere, so they come from the stored
    /// file; the window size is always the default.
    pub fn current_config_snapshot(&self, service: ServiceConfig, device: DeviceConfig) -> (r:
        AppConfig)
        ensures
            r.schema_version == CONFIG_SCHEMA_VERSION,
            r.audio.mic_volume == self.mic_volume,
            r.audio.mic_monitoring == self.mic_monitoring,
            r.audio.headphone_volume == self.headphone_volume,
            r.audio.mute_on_app_start == self.mute_on_app_start,
            r.lighting.effect@ == effect_as_config(self.lighting.effect),
            r.lighting.target@ == target_as_config(self.lighting.target),
            r.lighting.split_layers == self.lighting.split_layers,
            r.lighting.top_effect@ == effect_as_config(self.lighting.top_effect),
            r.lighting.bottom_effect@ == effect_as_config(self.lighting.bottom_effect),
            strings_view(r.lighting.colors@) == self.lighting.colors@.map_values(
                |c: [u8; 3]| color_hex_spec(c@),
            ),
            r.lighting.selected_color == self.lighting.selected_color,
            r.lighting.opacity == self.lighting.opacity,
            r.lighting.speed == self.lighting.speed,
            r.lighting.brightness == self.lighting.brightness,
            r.lighting.live_when_muted == self.lighting.live_when_muted,
            r.ui.selected_tab@ == tab_as_config(self.tab),
            r.ui.window_width_bits == DEFAULT_WINDOW_WIDTH_BITS,
            r.ui.window_height_bits == DEFAULT_WINDOW_HEIGHT_BITS,
            r.ui.window_x_bits == self.window_x_bits,
            r.ui.window_y_bits == self.window_y_bits,
            r.ui.minimize_to_tray == self.minimize_to_tray,
            r.ui.last_polar_pattern@ == polar_as_config(self.polar_pattern),
            r.service == service,
            r.device == device,
            r.mqtt == self.mqtt_config,
    {
        let mut colors: Vec<String> = Vec::new();
        let mut i: usize = 0;
        while i < self.lighting.colors.len()
            invariant
                i <= self.lighting.colors@.len(),
                strings_view(colors@) == self.lighting.colors@.subrange(0, i as int).map_values(
                    |c: [u8; 3]| color_hex_spec(c@),
                ),
            decreases self.lighting.colors@.len() - i,
        {
            let ghost before = colors@;
            let h = color_to_hex(self.lighting.colors[i]);
            let ghost hv = h@;
            colors.push(h);
            assert(strings_view(colors@) =~= strings_view(before).push(hv));
            assert(self.lighting.colors@.subrange(0, i + 1) =~= self.lighting.colors@.subrange(
                0,
                i as int,
            ).push(self.lighting.colors@[i as int]));
            assert(strings_view(colors@) =~= self.lighting.colors@.subrange(0, i + 1).map_values(
                |c: [u8; 3]| color_hex_spec(c@),
            ));
            i = i + 1;
        }
        assert(self.lighting.colors@.subrange(0, self.lighting.colors@.len() as int)
            =~= self.lighting.colors@);
        AppConfig {
            schema_version: CONFIG_SCHEMA_VERSION,
            audio: AudioConfig {
                mic_volume: self.mic_volume,
                mic_monitoring: self.mic_monitoring,
                headphone_volume: self.headphone_volume,
                mute_on_app_start: self.mute_on_app_start,
            },
            lighting: LightingConfig {
                effect: owned(self.lighting.effect.as_config()),
                target: owned(self.lighting.target.as_config()),
                split_layers: self.lighting.split_layers,
                top_effect: owned(self.lighting.top_effect.as_config()),
                bottom_effect: owned(self.lighting.bottom_effect.as_config()),
                colors,
                selected_color: self.lighting.selected_color,
                opacity: self.lighting.opacity,
                speed: self.lighting.speed,
                brightness: self.lighting.brightness,
                live_when_muted: self.lighting.live_when_muted,
            },
            ui: UiConfig {
                selected_tab: owned(self.tab.as_config()),
                window_width_bits: DEFAULT_WINDOW_WIDTH_BITS,
                window_height_bits: DEFAULT_WINDOW_HEIGHT_BITS,
                window_x_bits: self.window_x_bits,
                window_y_bits: self.window_y_bits,
                minimize_to_tray: self.minimize_to_tray,
                last_polar_pattern: owned(self.polar_pattern.as_config()),
            },
            service,
            device,
            mqtt: self.mqtt_config.copy_of(),
        }
    }
}

/// How a lighting job that the window started in the background ended.
pub enum LightingUiEvent {
    Applied,
    ApplyFailed(String),
    Saved,
    SaveFailed(String),
}

/// The notice a finished lighting job leaves.
pub open spec fn lighting_event_notice(e: LightingUiEvent) -> (NoticeSeverity, Seq<char>) {
    match e {
        LightingUiEvent::Applied => (NoticeSeverity::Good, "Lighting stream is running."@),
        LightingUiEvent::ApplyFailed(m) => (NoticeSeverity::Error, "Lighting write failed: "@ + m@),
        LightingUiEvent::Saved => (NoticeSeverity::Good, "Lighting saved to microphone memory."@),
        LightingUiEvent::SaveFailed(m) => (NoticeSeverity::Error, "Persistent save failed: "@ + m@),
    }
}

impl MicController {
    /// Records how a background lighting job ended as the lighting notice;
    /// nothing else changes.
    pub fn record_lighting_event(&mut self, event: LightingUiEvent)
        ensures
            final(self).lighting_notice matches Some(n) && (n.severity, n.message@)
                == lighting_event_notice(event),
            *final(self) == (MicController { lighting_notice: final(self).lighting_notice, ..*old(self) }),
    {
        let notice = match event {
            LightingUiEvent::Applied => UiNotice {
                severity: NoticeSeverity::Good,
                message: owned("Lighting stream is running."),
            },
            LightingUiEvent::ApplyFailed(m) => UiNotice {
                severity: NoticeSeverity::Error,
                message: concat2("Lighting write failed: ", m.as_str()),
            },
            LightingUiEvent::Saved => UiNotice {
                severity: NoticeSeverity::Good,
                message: owned("Lighting saved to microphone memory."),
            },
            LightingUiEvent::SaveFailed(m) => UiNotice {
                severity: NoticeSeverity::Error,
                message: concat2("Persistent save failed: ", m.as_str()),
            },
        };
        self.lighting_notice = Some(notice);
    }

    /// The window's part of "Save to Mic": whether the caller should write
    /// the lighting into the microphone's memory now.  Without a lighting
    /// controller it should not, and a warning says so; otherwise a notice
    /// says the save has begun.  Nothing else changes.
    pub fn save_lighting_to_microphone(&mut self) -> (r: bool)
        ensures
            r == old(self).lighting_device_present,
            final(self).lighting_notice matches Some(n) && (if r {
                n.severity == NoticeSeverity::Info && n.message@
                    == "Saving lighting to microphone memory."@
            } else {
                n.severity == NoticeSeverity::Warning && n.message@
                    == "Lighting controller not detected. Persistent save is unavailable."@
            }),
            *final(self) == (MicController { lighting_notice: final(self).lighting_notice, ..*old(self) }),
    {
        if !self.lighting_device_present {
            self.lighting_notice = Some(
                UiNotice {
                    severity: NoticeSeverity::Warning,
                    message: owned("Lighting controller not detected. Persistent save is unavailable."),
                },
            );
            return false;
        }
        self.lighting_notice = Some(
            UiNotice {
                severity: NoticeSeverity::Info,
                message: owned("Saving lighting to microphone memory."),
            },
        );
        true
    }

    /// The "lights show live state" switch: the setting is saved and, when
    /// it is turned on while the microphone's state is known and no stream
    /// is running, the lights show that state at once.
    pub fn set_live_when_muted(&mut self, on: bool) -> (r: Vec<ControllerAction>)
        ensures
            final(self).lighting.live_when_muted == on,
            r@ == (match old(self).status {
                Some(s) => if on && !old(self).lighting_stream_active {
                    seq![ControllerAction::SaveConfig, ControllerAction::ShowLiveMuteColor(!s.muted)]
                } else {
                    seq![ControllerAction::SaveConfig]
                },
                None => seq![ControllerAction::SaveConfig],
            }),
            *final(self) == (MicController {
                lighting: LightingState { live_when_muted: on, ..old(self).lighting },
                ..*old(self)
            }),
    {
        self.lighting.live_when_muted = on;
        let mut r: Vec<ControllerAction> = Vec::new();
        r.push(ControllerAction::SaveConfig);
        if on && !self.lighting_stream_active {
            match &self.status {
                Some(s) => {
                    r.push(ControllerAction::ShowLiveMuteColor(!s.muted));
                },
                None => {},
            }
        }
        r
    }

    /// Tidies the MQTT settings before they are saved: white space around
    /// the URL, client id and user name goes, and so do the slashes around
    /// the two topic prefixes; an empty user name or password counts as
    /// none; the QoS is at most 2 and the keep-alive between 5 and 3600
    /// seconds.  Nothing else changes.
    pub fn normalize_mqtt_config(&mut self)
        ensures
            final(self).mqtt_config.url@ == trim_seq(old(self).mqtt_config.url@),
            final(self).mqtt_config.client_id@ == trim_seq(old(self).mqtt_config.client_id@),
            final(self).mqtt_config.base_topic@ == topic_spec(old(self).mqtt_config.base_topic@),
            final(self).mqtt_config.discovery_prefix@ == topic_spec(
                old(self).mqtt_config.discovery_prefix@,
            ),
            match old(self).mqtt_config.username {
                Some(u) => if trim_seq(u@).len() == 0 {
                    final(self).mqtt_config.username is None
                } else {
                    final(self).mqtt_config.username matches Some(n) && n@ == trim_seq(u@)
                },
                None => final(self).mqtt_config.username is None,
            },
            final(self).mqtt_config.password == (if old(self).mqtt_config.password matches Some(
                p,
            ) && p@.len() == 0 {
                None
            } else {
                old(self).mqtt_config.password
            }),
            final(self).mqtt_config.qos == (if old(self).mqtt_config.qos < 2 {
                old(self).mqtt_config.qos
            } else {
                2
            }),
            final(self).mqtt_config.keep_alive_secs == (if old(self).mqtt_config.keep_alive_secs
                < 5 {
                5
            } else if old(self).mqtt_config.keep_alive_secs > 3600 {
                3600
            } else {
                old(self).mqtt_config.keep_alive_secs
            }),
            final(self).mqtt_config.enabled == old(self).mqtt_config.enabled,
            final(self).mqtt_config.home_assistant_discovery
                == old(self).mqtt_config.home_assistant_discovery,
            final(self).mqtt_config.retain_state == old(self).mqtt_config.retain_state,
            final(self).mqtt_config.clean_session == old(self).mqtt_config.clean_session,
            *final(self) == (MicController { mqtt_config: final(self).mqtt_config, ..*old(self) }),
    {
        let url = trim_string(self.mqtt_config.url.as_str());
        let client_id = trim_string(self.mqtt_config.client_id.as_str());
        let base_topic = trim_topic(self.mqtt_config.base_topic.as_str());
        let discovery_prefix = trim_topic(self.mqtt_config.discovery_prefix.as_str());
        let username = match &self.mqtt_config.username {
            Some(u) => {
                let t = trim_string(u.as_str());
                if t.as_str().is_empty() {
                    None
                } else {
                    Some(t)
                }
            },
            None => None,
        };
        let password = match &self.mqtt_config.password {
            Some(p) => if p.as_str().is_empty() {
                None
            } else {
                Some(p.clone())
            },
            None => None,
        };
        let qos = if self.mqtt_config.qos < 2 {
            self.mqtt_config.qos
        } else {
            2
        };
        let keep_alive = if self.mqtt_config.keep_alive_secs < 5 {
            5
        } else if self.mqtt_config.keep_alive_secs > 3600 {
            3600
        } else {
            self.mqtt_config.keep_alive_secs
        };
        self.mqtt_config.url = url;
        self.mqtt_config.client_id = client_id;
        self.mqtt_config.base_topic = base_topic;
        self.mqtt_config.discovery_prefix = discovery_prefix;
        self.mqtt_config.username = username;
        self.mqtt_config.password = password;
        self.mqtt_config.qos = qos;
        self.mqtt_config.keep_alive_secs = keep_alive;
    }
}

} // verus!
