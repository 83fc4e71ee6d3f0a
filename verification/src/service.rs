//! The background service: what it restores at start, its health record,
//! how it answers the service manager, and its error texts.
use vstd::prelude::*;

use crate::config::{AppConfig, ServiceConfig};
use crate::json::{items_view, json_view, lemma_array_view, lemma_object_view, members_view, Json, JsonValue};
use crate::text::owned;

verus! {

broadcast use vstd::string::group_string_axioms;

pub const SERVICE_NAME: &'static str = "HyperXMicLite";

/// The audio settings the service puts back when it starts.
#[derive(Clone, Copy, PartialEq, Eq, Debug, Structural)]
pub struct RestorePlan {
    pub mic_volume: u8,
    pub muted: bool,
}

/// The configured microphone volume and start-up mute, if the
/// configuration asks the service to restore them; `None` otherwise.
pub fn restore_service_settings(config: &AppConfig) -> (r: Option<RestorePlan>)
    ensures
        r == (if config.service.restore_on_startup {
            Some(
                RestorePlan {
                    mic_volume: config.audio.mic_volume,
                    muted: config.audio.mute_on_app_start,
                },
            )
        } else {
            None
        }),
{
    if config.service.restore_on_startup {
        Some(
            RestorePlan {
                mic_volume: config.audio.mic_volume,
                muted: config.audio.mute_on_app_start,
            },
        )
    } else {
        None
    }
}

/// Records whether the service is enabled; nothing else changes.
pub fn update_service_config(config: &mut AppConfig, enabled: bool)
    ensures
        final(config).service.enabled == enabled,
        final(config).service.restore_on_startup == old(config).service.restore_on_startup,
        final(config).service.owns_startup_restore == old(config).service.owns_startup_restore,
        final(config).service.owns_lighting_loop == old(config).service.owns_lighting_loop,
        final(config).service.owns_hid_monitoring == old(config).service.owns_hid_monitoring,
        final(config).service.owns_tray_handoff == old(config).service.owns_tray_handoff,
        final(config).schema_version == old(config).schema_version,
        final(config).audio == old(config).audio,
        final(config).lighting == old(config).lighting,
        final(config).ui == old(config).ui,
        final(config).device == old(config).device,
        final(config).mqtt == old(config).mqtt,
{
    config.service.enabled = enabled;
}

/// What the service writes about itself for the application to read.
pub struct ServiceHealth {
    pub schema_version: u32,
    pub service_name: String,
    pub state: String,
    pub pid: u32,
    pub updated_at: String,
    pub heartbeat_count: u64,
    pub restore_on_startup: bool,
    pub last_restore: Option<String>,
    pub last_error: Option<String>,
}

impl ServiceHealth {
    /// A fresh record for the process `pid` in `state`, stamped `now`.
    pub fn new(state: &str, pid: u32, now: String) -> (r: Self)
        ensures
            r.schema_version == 1,
            r.service_name@ == "HyperXMicLite"@,
            r.state@ == state@,
            r.pid == pid,
            r.updated_at@ == now@,
            r.heartbeat_count == 0,
            !r.restore_on_startup,
            r.last_restore is None,
            r.last_error is None,
    {
        ServiceHealth {
            schema_version: 1,
            service_name: owned(SERVICE_NAME),
            state: owned(state),
            pid,
            updated_at: now,
            heartbeat_count: 0,
            restore_on_startup: false,
            last_restore: None,
            last_error: None,
        }
    }

    /// One more heartbeat, stamped `now`.
    pub fn heartbeat(&mut self, now: String)
        requires
            old(self).heartbeat_count < u64::MAX,
        ensures
            final(self).heartbeat_count == old(self).heartbeat_count + 1,
            final(self).updated_at@ == now@,
            final(self).state == old(self).state,
            final(self).pid == old(self).pid,
            final(self).restore_on_startup == old(self).restore_on_startup,
            final(self).last_restore == old(self).last_restore,
            final(self).last_error == old(self).last_error,
    {
        self.heartbeat_count = self.heartbeat_count + 1;
        self.updated_at = now;
    }

    /// The service moved to `state` at `now`.
    pub fn enter_state(&mut self, state: &str, now: String)
        ensures
            final(self).state@ == state@,
            final(self).updated_at@ == now@,
            final(self).heartbeat_count == old(self).heartbeat_count,
            final(self).pid == old(self).pid,
            final(self).restore_on_startup == old(self).restore_on_startup,
            final(self).last_restore == old(self).last_restore,
            final(self).last_error == old(self).last_error,
    {
        self.state = owned(state);
        self.updated_at = now;
    }

    /// The outcome of restoring the audio settings: an error is kept as the
    /// last error, a success as the time of the last restore.
    pub fn record_restore(&mut self, outcome: Result<(), String>, now: String)
        ensures
            match outcome {
                Ok(_) => final(self).last_restore == Some(now) && final(self).last_error
                    == old(self).last_error,
                Err(e) => final(self).last_error == Some(e) && final(self).last_restore
                    == old(self).last_restore,
            },
            final(self).state == old(self).state,
            final(self).updated_at == old(self).updated_at,
            final(self).heartbeat_count == old(self).heartbeat_count,
    {
        match outcome {
            Ok(_) => {
                self.last_restore = Some(now);
            },
            Err(e) => {
                self.last_error = Some(e);
            },
        }
    }
}

/// A request from the service manager.
#[derive(Clone, Copy, PartialEq, Eq, Debug, Structural)]
pub enum ServiceControl {
    Interrogate,
    Stop,
    Shutdown,
    Other,
}

/// How the service answers a request.
#[derive(Clone, Copy, PartialEq, Eq, Debug, Structural)]
pub enum ServiceReply {
    /// Handled; `true` when the service must shut down.
    NoError(bool),
    NotImplemented,
}

pub fn service_control_reply(control: ServiceControl) -> (r: ServiceReply)
    ensures
        r == match control {
            ServiceControl::Interrogate => ServiceReply::NoError(false),
            ServiceControl::Stop => ServiceReply::NoError(true),
            ServiceControl::Shutdown => ServiceReply::NoError(true),
            ServiceControl::Other => ServiceReply::NotImplemented,
        },
{
    match control {
        ServiceControl::Interrogate => ServiceReply::NoError(false),
        ServiceControl::Stop | ServiceControl::Shutdown => ServiceReply::NoError(true),
        ServiceControl::Other => ServiceReply::NotImplemented,
    }
}

pub open spec fn access_denied_text() -> Seq<char> {
    "Access denied. Run this command from an elevated terminal."@
}

/// The text of a registry error: a plain hint for "access denied" (OS
/// error 5), the error's own text otherwise.
pub fn registry_admin_error(raw_os_error: Option<i32>, message: &str) -> (r: String)
    ensures
        r@ == (if raw_os_error == Some(5i32) {
            access_denied_text()
        } else {
            message@
        }),
{
    match raw_os_error {
        Some(5) => owned("Access denied. Run this command from an elevated terminal."),
        _ => owned(message),
    }
}

/// The text of a service-manager error: for an OS error, hints for
/// "access denied" (5) and "service not installed" (1060); otherwise the
/// error's own text.
pub fn windows_service_error(os_error: bool, raw_os_error: Option<i32>, message: &str) -> (r: String)
    ensures
        r@ == (if os_error && raw_os_error == Some(5i32) {
            access_denied_text()
        } else if os_error && raw_os_error == Some(1060i32) {
            "HyperX Mic Lite is not installed."@
        } else {
            message@
        }),
{
    if os_error {
        match raw_os_error {
            Some(5) => {
                return owned("Access denied. Run this command from an elevated terminal.");
            },
            Some(1060) => {
                return owned("HyperX Mic Lite is not installed.");
            },
            _ => {},
        }
    }
    owned(message)
}

/// The states the service manager reports a service in.
#[derive(Clone, Copy, PartialEq, Eq, Debug, Structural)]
pub enum ServiceRunState {
    Stopped,
    StartPending,
    StopPending,
    Running,
    ContinuePending,
    PausePending,
    Paused,
}

pub open spec fn service_state_text(state: ServiceRunState) -> Seq<char> {
    match state {
        ServiceRunState::Stopped => "stopped"@,
        ServiceRunState::StartPending => "start_pending"@,
        ServiceRunState::StopPending => "stop_pending"@,
        ServiceRunState::Running => "running"@,
        ServiceRunState::ContinuePending => "continue_pending"@,
        ServiceRunState::PausePending => "pause_pending"@,
        ServiceRunState::Paused => "paused"@,
    }
}

/// The word the status report uses for a service state.
pub fn service_state_label(state: ServiceRunState) -> (r: &'static str)
    ensures
        r@ == service_state_text(state),
{
    match state {
        ServiceRunState::Stopped => "stopped",
        ServiceRunState::StartPending => "start_pending",
        ServiceRunState::StopPending => "stop_pending",
        ServiceRunState::Running => "running",
        ServiceRunState::ContinuePending => "continue_pending",
        ServiceRunState::PausePending => "pause_pending",
        ServiceRunState::Paused => "paused",
    }
}

pub open spec fn text_items(items: Seq<Seq<char>>) -> Json {
    Json::Array(items.map_values(|t: Seq<char>| Json::Str(t)))
}

/// The flags of the service section, as the ownership plan shows them.
pub open spec fn service_flags_doc(s: ServiceConfig) -> Json {
    Json::Object(
        seq![
            ("enabled"@, Json::Bool(s.enabled)),
            ("restore_on_startup"@, Json::Bool(s.restore_on_startup)),
            ("owns_startup_restore"@, Json::Bool(s.owns_startup_restore)),
            ("owns_lighting_loop"@, Json::Bool(s.owns_lighting_loop)),
            ("owns_hid_monitoring"@, Json::Bool(s.owns_hid_monitoring)),
            ("owns_tray_handoff"@, Json::Bool(s.owns_tray_handoff)),
        ],
    )
}

/// Which work the service does, which stays with the user's session,
/// which could move to the service later, the configured flags, and the
/// decision taken.
pub open spec fn ownership_plan_doc(s: ServiceConfig) -> Json {
    Json::Object(
        seq![
            ("service_owns_now"@, text_items(seq![
                "install/start/stop/status lifecycle"@,
                "boot-time microphone restore when service.restore_on_startup is enabled"@,
                "service health heartbeat"@,
                "Event Viewer source registration during service install"@,
            ])),
            ("user_session_owns_now"@, text_items(seq![
                "GUI rendering and user interaction"@,
                "per-user GUI startup"@,
                "interactive lighting effect streams"@,
                "physical HID mute/pattern monitoring for UI refresh"@,
            ])),
            ("planned_service_candidates"@, text_items(seq![
                "lighting loop/effects only if we want effects without the GUI running"@,
                "HID monitoring only if a future background policy needs physical control events"@,
                "tray/GUI handoff via a separate per-user tray process, not directly from the service"@,
            ])),
            ("current_flags"@, service_flags_doc(s)),
            ("decision"@, Json::Str(
                "Keep the Windows service small: boot restore and health only. Keep GUI, lighting streams, HID UI refresh, and tray behavior in the logged-in user session until there is a clear reason to move them."@,
            )),
        ],
    )
}

fn push_text(items: &mut Vec<JsonValue>, t: &str)
    ensures
        items_view(final(items)@) == items_view(old(items)@).push(Json::Str(t@)),
{
    let ghost before = items@;
    items.push(JsonValue::Str(owned(t)));
    assert(items_view(items@) =~= items_view(before).push(Json::Str(t@)));
}

fn push_member(es: &mut Vec<(String, JsonValue)>, key: &str, v: JsonValue)
    ensures
        members_view(final(es)@) == members_view(old(es)@).push((key@, json_view(v))),
{
    let ghost before = es@;
    es.push((owned(key), v));
    assert(members_view(es@) =~= members_view(before).push((key@, json_view(v))));
}

fn text_array(a: &str, b: &str, c: &str, d: Option<&str>) -> (r: JsonValue)
    ensures
        json_view(r) == text_items(
            match d {
                Some(d) => seq![a@, b@, c@, d@],
                None => seq![a@, b@, c@],
            },
        ),
{
    let mut items: Vec<JsonValue> = Vec::new();
    push_text(&mut items, a);
    push_text(&mut items, b);
    push_text(&mut items, c);
    match d {
        Some(d) => {
            push_text(&mut items, d);
        },
        None => {},
    }
    proof {
        lemma_array_view(items);
    }
    let ghost texts = match d {
        Some(d) => seq![a@, b@, c@, d@],
        None => seq![a@, b@, c@],
    };
    assert(items_view(items@) =~= texts.map_values(|t: Seq<char>| Json::Str(t)));
    JsonValue::Array(items)
}

/// The ownership plan of the service, with the flags of `service`.
pub fn service_ownership_plan(service: &ServiceConfig) -> (r: JsonValue)
    ensures
        json_view(r) == ownership_plan_doc(*service),
{
    let mut flags: Vec<(String, JsonValue)> = Vec::new();
    push_member(&mut flags, "enabled", JsonValue::Bool(service.enabled));
    push_member(&mut flags, "restore_on_startup", JsonValue::Bool(service.restore_on_startup));
    push_member(&mut flags, "owns_startup_restore", JsonValue::Bool(service.owns_startup_restore));
    push_member(&mut flags, "owns_lighting_loop", JsonValue::Bool(service.owns_lighting_loop));
    push_member(&mut flags, "owns_hid_monitoring", JsonValue::Bool(service.owns_hid_monitoring));
    push_member(&mut flags, "owns_tray_handoff", JsonValue::Bool(service.owns_tray_handoff));
    proof {
        lemma_object_view(flags);
    }
    assert(members_view(flags@) =~= service_flags_doc(*service)->Object_0);
    let mut es: Vec<(String, JsonValue)> = Vec::new();
    push_member(
        &mut es,
        "service_owns_now",
        text_array(
            "install/start/stop/status lifecycle",
            "boot-time microphone restore when service.restore_on_startup is enabled",
            "service health heartbeat",
            Some("Event Viewer source registration during service install"),
        ),
    );
    push_member(
        &mut es,
        "user_session_owns_now",
        text_array(
            "GUI rendering and user interaction",
            "per-user GUI startup",
            "interactive lighting effect streams",
            Some("physical HID mute/pattern monitoring for UI refresh"),
        ),
    );
    push_member(
        &mut es,
        "planned_service_candidates",
        text_array(
            "lighting loop/effects only if we want effects without the GUI running",
            "HID monitoring only if a future background policy needs physical control events",
            "tray/GUI handoff via a separate per-user tray process, not directly from the service",
            None,
        ),
    );
    push_member(&mut es, "current_flags", JsonValue::Object(flags));
    push_member(
        &mut es,
        "decision",
        JsonValue::Str(
            owned(
                "Keep the Windows service small: boot restore and health only. Keep GUI, lighting streams, HID UI refresh, and tray behavior in the logged-in user session until there is a clear reason to move them.",
            ),
        ),
    );
    proof {
        lemma_object_view(es);
    }
    assert(members_view(es@) =~= ownership_plan_doc(*service)->Object_0);
    JsonValue::Object(es)
}

} // verus!
