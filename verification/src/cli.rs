//! The command line: which command the first word names, and what each
//! command makes of the words after it.  Anything a command does not
//! accept is a `CliError`, which says what to print and how to exit.
use vstd::prelude::*;

use crate::audio::{
    control_from_word, on_off_arg_error, on_off_arg_spec, parse_on_off_arg, parse_percent_arg,
    percent_arg_error, percent_arg_spec, AudioClassControl,
};
use crate::lighting::{parse_rgb_hex, parse_rgb_spec};
use crate::lighting_cli::{
    args_view, clamp_spec, parse_stream_duration, solid_seconds_arg, solid_seconds_spec,
    split_packet_log_flag, stream_duration_spec, strs_view, has_packet_log_flag,
    without_packet_log_flags, StreamDuration,
};
use crate::logs::{line_count_arg, line_count_spec};
use crate::model::{effect_from_config, Effect};
use crate::startup::{startup_flags_spec, startup_install_minimized};
use crate::text::{char_vec, owned, parse_unsigned, parse_unsigned_spec, str_eq};

verus! {

broadcast use vstd::string::group_string_axioms;

/// Which usage text to show.
#[derive(Clone, Copy, PartialEq, Eq, Debug, Structural)]
pub enum Usage {
    Main,
    Audio,
    Config,
    Logs,
    Diagnostics,
    EventLog,
    Service,
    Startup,
}

/// The usage text of each command group.
pub open spec fn usage_spec(u: Usage) -> Seq<char> {
    match u {
        Usage::Main => "hyperx-mic-lite controls the default Windows microphone.\n\nUsage:\n  hyperx-mic-lite list\n  hyperx-mic-lite status\n  hyperx-mic-lite mute\n  hyperx-mic-lite unmute\n  hyperx-mic-lite toggle\n  hyperx-mic-lite volume 75\n  hyperx-mic-lite audio volume <mic|monitoring|headphone> <0-100>\n  hyperx-mic-lite audio mute <mic|monitoring|headphone> <on|off>\n  hyperx-mic-lite lighting-detect\n  hyperx-mic-lite lighting-hid-dump\n  hyperx-mic-lite hid-monitor [seconds]\n  hyperx-mic-lite level-monitor [seconds]\n  hyperx-mic-lite lighting-solid ff0066 [seconds]\n  hyperx-mic-lite lighting-effect <solid|wave|cycle|pulse|blink|lightning|vu_meter> [seconds|forever]\n  hyperx-mic-lite lighting-vu-test <0-100> [seconds]\n  hyperx-mic-lite lighting-save [--packet-log]\n  hyperx-mic-lite config <path|dump|export|import|validate|reset>\n  hyperx-mic-lite logs <path|tail>\n  hyperx-mic-lite diagnostics export [directory]\n  hyperx-mic-lite eventlog <register|unregister|status>\n  hyperx-mic-lite service <install|uninstall|start|stop|status|run>\n  hyperx-mic-lite startup <install|uninstall|status>\n  hyperx-mic-lite gui [--start-minimized]"@,
        Usage::Audio => "Usage:\n  hyperx-mic-lite audio volume <mic|monitoring|headphone> <0-100>\n  hyperx-mic-lite audio mute <mic|monitoring|headphone> <on|off>\n  hyperx-mic-lite audio topology <capture|render>"@,
        Usage::Config => "Usage:\n  hyperx-mic-lite config path\n  hyperx-mic-lite config dump\n  hyperx-mic-lite config export <file>\n  hyperx-mic-lite config import <file>\n  hyperx-mic-lite config validate [file]\n  hyperx-mic-lite config reset"@,
        Usage::Logs => "Usage:\n  hyperx-mic-lite logs path\n  hyperx-mic-lite logs tail [lines]"@,
        Usage::Diagnostics => "Usage:\n  hyperx-mic-lite diagnostics export [directory]"@,
        Usage::EventLog => "Usage:\n  hyperx-mic-lite eventlog register\n  hyperx-mic-lite eventlog unregister\n  hyperx-mic-lite eventlog status"@,
        Usage::Service => "Usage:\n  hyperx-mic-lite service install\n  hyperx-mic-lite service uninstall\n  hyperx-mic-lite service start\n  hyperx-mic-lite service stop\n  hyperx-mic-lite service status\n  hyperx-mic-lite service plan\n  hyperx-mic-lite service run"@,
        Usage::Startup => "Usage:\n  hyperx-mic-lite startup install [--minimized|--normal]\n  hyperx-mic-lite startup uninstall\n  hyperx-mic-lite startup status"@,
    }
}

pub fn usage_text(u: Usage) -> (r: &'static str)
    ensures
        r@ == usage_spec(u),
{
    match u {
        Usage::Main => "hyperx-mic-lite controls the default Windows microphone.\n\nUsage:\n  hyperx-mic-lite list\n  hyperx-mic-lite status\n  hyperx-mic-lite mute\n  hyperx-mic-lite unmute\n  hyperx-mic-lite toggle\n  hyperx-mic-lite volume 75\n  hyperx-mic-lite audio volume <mic|monitoring|headphone> <0-100>\n  hyperx-mic-lite audio mute <mic|monitoring|headphone> <on|off>\n  hyperx-mic-lite lighting-detect\n  hyperx-mic-lite lighting-hid-dump\n  hyperx-mic-lite hid-monitor [seconds]\n  hyperx-mic-lite level-monitor [seconds]\n  hyperx-mic-lite lighting-solid ff0066 [seconds]\n  hyperx-mic-lite lighting-effect <solid|wave|cycle|pulse|blink|lightning|vu_meter> [seconds|forever]\n  hyperx-mic-lite lighting-vu-test <0-100> [seconds]\n  hyperx-mic-lite lighting-save [--packet-log]\n  hyperx-mic-lite config <path|dump|export|import|validate|reset>\n  hyperx-mic-lite logs <path|tail>\n  hyperx-mic-lite diagnostics export [directory]\n  hyperx-mic-lite eventlog <register|unregister|status>\n  hyperx-mic-lite service <install|uninstall|start|stop|status|run>\n  hyperx-mic-lite startup <install|uninstall|status>\n  hyperx-mic-lite gui [--start-minimized]",
        Usage::Audio => "Usage:\n  hyperx-mic-lite audio volume <mic|monitoring|headphone> <0-100>\n  hyperx-mic-lite audio mute <mic|monitoring|headphone> <on|off>\n  hyperx-mic-lite audio topology <capture|render>",
        Usage::Config => "Usage:\n  hyperx-mic-lite config path\n  hyperx-mic-lite config dump\n  hyperx-mic-lite config export <file>\n  hyperx-mic-lite config import <file>\n  hyperx-mic-lite config validate [file]\n  hyperx-mic-lite config reset",
        Usage::Logs => "Usage:\n  hyperx-mic-lite logs path\n  hyperx-mic-lite logs tail [lines]",
        Usage::Diagnostics => "Usage:\n  hyperx-mic-lite diagnostics export [directory]",
        Usage::EventLog => "Usage:\n  hyperx-mic-lite eventlog register\n  hyperx-mic-lite eventlog unregister\n  hyperx-mic-lite eventlog status",
        Usage::Service => "Usage:\n  hyperx-mic-lite service install\n  hyperx-mic-lite service uninstall\n  hyperx-mic-lite service start\n  hyperx-mic-lite service stop\n  hyperx-mic-lite service status\n  hyperx-mic-lite service plan\n  hyperx-mic-lite service run",
        Usage::Startup => "Usage:\n  hyperx-mic-lite startup install [--minimized|--normal]\n  hyperx-mic-lite startup uninstall\n  hyperx-mic-lite startup status",
    }
}

/// Why a command line is not run.
#[derive(Debug)]
pub enum CliError {
    /// Print the usage text; exit status 2.
    Usage(Usage),
    /// Print the message; exit status 2.
    Invalid(String),
    /// Print the message, then the usage text; exit status 2.
    InvalidWithUsage(String, Usage),
    /// Print the message; exit status 1.
    Failed(String),
}

impl CliError {
    /// The process exit status for the error.
    pub fn exit_code(&self) -> (r: i32)
        ensures
            r == (if self is Failed {
                1i32
            } else {
                2i32
            }),
    {
        match self {
            CliError::Failed(_) => 1,
            _ => 2,
        }
    }
}

// ---------------------------------------------------------------------------
// The command word
// ---------------------------------------------------------------------------

/// The command the first word names.
#[derive(Clone, Copy, PartialEq, Eq, Debug, Structural)]
pub enum TopCommand {
    List,
    Status,
    LightingDetect,
    LightingHidDump,
    HidMonitor,
    LevelMonitor,
    LightingSolid,
    LightingEffect,
    LightingVuTest,
    LightingSave,
    Audio,
    Config,
    Logs,
    Diagnostics,
    EventLog,
    Service,
    Startup,
    ServiceRun,
    Gui,
    Mute,
    Unmute,
    Toggle,
    Volume,
}

pub open spec fn top_command_spec(w: Seq<char>) -> Option<TopCommand> {
    if w == "list"@ {
        Some(TopCommand::List)
    } else if w == "status"@ {
        Some(TopCommand::Status)
    } else if w == "lighting-detect"@ {
        Some(TopCommand::LightingDetect)
    } else if w == "lighting-hid-dump"@ {
        Some(TopCommand::LightingHidDump)
    } else if w == "hid-monitor"@ {
        Some(TopCommand::HidMonitor)
    } else if w == "level-monitor"@ {
        Some(TopCommand::LevelMonitor)
    } else if w == "lighting-solid"@ {
        Some(TopCommand::LightingSolid)
    } else if w == "lighting-effect"@ {
        Some(TopCommand::LightingEffect)
    } else if w == "lighting-vu-test"@ {
        Some(TopCommand::LightingVuTest)
    } else if w == "lighting-save"@ {
        Some(TopCommand::LightingSave)
    } else if w == "audio"@ {
        Some(TopCommand::Audio)
    } else if w == "config"@ {
        Some(TopCommand::Config)
    } else if w == "logs"@ {
        Some(TopCommand::Logs)
    } else if w == "diagnostics"@ {
        Some(TopCommand::Diagnostics)
    } else if w == "eventlog"@ {
        Some(TopCommand::EventLog)
    } else if w == "service"@ {
        Some(TopCommand::Service)
    } else if w == "startup"@ {
        Some(TopCommand::Startup)
    } else if w == "service-run"@ {
        Some(TopCommand::ServiceRun)
    } else if w == "gui"@ {
        Some(TopCommand::Gui)
    } else if w == "mute"@ {
        Some(TopCommand::Mute)
    } else if w == "unmute"@ {
        Some(TopCommand::Unmute)
    } else if w == "toggle"@ {
        Some(TopCommand::Toggle)
    } else if w == "volume"@ {
        Some(TopCommand::Volume)
    } else {
        None
    }
}

/// The word that names each command on the command line.
pub open spec fn command_word(c: TopCommand) -> Seq<char> {
    match c {
        TopCommand::List => "list"@,
        TopCommand::Status => "status"@,
        TopCommand::LightingDetect => "lighting-detect"@,
        TopCommand::LightingHidDump => "lighting-hid-dump"@,
        TopCommand::HidMonitor => "hid-monitor"@,
        TopCommand::LevelMonitor => "level-monitor"@,
        TopCommand::LightingSolid => "lighting-solid"@,
        TopCommand::LightingEffect => "lighting-effect"@,
        TopCommand::LightingVuTest => "lighting-vu-test"@,
        TopCommand::LightingSave => "lighting-save"@,
        TopCommand::Audio => "audio"@,
        TopCommand::Config => "config"@,
        TopCommand::Logs => "logs"@,
        TopCommand::Diagnostics => "diagnostics"@,
        TopCommand::EventLog => "eventlog"@,
        TopCommand::Service => "service"@,
        TopCommand::Startup => "startup"@,
        TopCommand::ServiceRun => "service-run"@,
        TopCommand::Gui => "gui"@,
        TopCommand::Mute => "mute"@,
        TopCommand::Unmute => "unmute"@,
        TopCommand::Toggle => "toggle"@,
        TopCommand::Volume => "volume"@,
    }
}

/// Each command word names its own command: the first word of a command
/// line selects command `c` exactly when it is `c`'s name, so no word runs
/// another command than the one it spells.
pub proof fn law_command_words_name_their_commands(w: Seq<char>, c: TopCommand)
    ensures
        top_command_spec(w) == Some(c) <==> w == command_word(c),
{
    reveal_strlit("list");
    reveal_strlit("status");
    reveal_strlit("lighting-detect");
    reveal_strlit("lighting-hid-dump");
    reveal_strlit("hid-monitor");
    reveal_strlit("level-monitor");
    reveal_strlit("lighting-solid");
    reveal_strlit("lighting-effect");
    reveal_strlit("lighting-vu-test");
    reveal_strlit("lighting-save");
    reveal_strlit("audio");
    reveal_strlit("config");
    reveal_strlit("logs");
    reveal_strlit("diagnostics");
    reveal_strlit("eventlog");
    reveal_strlit("service");
    reveal_strlit("startup");
    reveal_strlit("service-run");
    reveal_strlit("gui");
    reveal_strlit("mute");
    reveal_strlit("unmute");
    reveal_strlit("toggle");
    reveal_strlit("volume");
    assert("list"@.len() != "status"@.len());
    assert("list"@.len() != "lighting-detect"@.len());
    assert("list"@.len() != "lighting-hid-dump"@.len());
    assert("list"@.len() != "hid-monitor"@.len());
    assert("list"@.len() != "level-monitor"@.len());
    assert("list"@.len() != "lighting-solid"@.len());
    assert("list"@.len() != "lighting-effect"@.len());
    assert("list"@.len() != "lighting-vu-test"@.len());
    assert("list"@.len() != "lighting-save"@.len());
    assert("list"@.len() != "audio"@.len());
    assert("list"@.len() != "config"@.len());
    assert("list"@[1] != "logs"@[1]);
    assert("list"@.len() != "diagnostics"@.len());
    assert("list"@.len() != "eventlog"@.len());
    assert("list"@.len() != "service"@.len());
    assert("list"@.len() != "startup"@.len());
    assert("list"@.len() != "service-run"@.len());
    assert("list"@.len() != "gui"@.len());
    assert("list"@[0] != "mute"@[0]);
    assert("list"@.len() != "unmute"@.len());
    assert("list"@.len() != "toggle"@.len());
    assert("list"@.len() != "volume"@.len());
    assert("status"@.len() != "lighting-detect"@.len());
    assert("status"@.len() != "lighting-hid-dump"@.len());
    assert("status"@.len() != "hid-monitor"@.len());
    assert("status"@.len() != "level-monitor"@.len());
    assert("status"@.len() != "lighting-solid"@.len());
    assert("status"@.len() != "lighting-effect"@.len());
    assert("status"@.len() != "lighting-vu-test"@.len());
    assert("status"@.len() != "lighting-save"@.len());
    assert("status"@.len() != "audio"@.len());
    assert("status"@[0] != "config"@[0]);
    assert("status"@.len() != "logs"@.len());
    assert("status"@.len() != "diagnostics"@.len());
    assert("status"@.len() != "eventlog"@.len());
    assert("status"@.len() != "service"@.len());
    assert("status"@.len() != "startup"@.len());
    assert("status"@.len() != "service-run"@.len());
    assert("status"@.len() != "gui"@.len());
    assert("status"@.len() != "mute"@.len());
    assert("status"@[0] != "unmute"@[0]);
    assert("status"@[0] != "toggle"@[0]);
    assert("status"@[0] != "volume"@[0]);
    assert("lighting-detect"@.len() != "lighting-hid-dump"@.len());
    assert("lighting-detect"@.len() != "hid-monitor"@.len());
    assert("lighting-detect"@.len() != "level-monitor"@.len());
    assert("lighting-detect"@.len() != "lighting-solid"@.len());
    assert("lighting-detect"@[9] != "lighting-effect"@[9]);
    assert("lighting-detect"@.len() != "lighting-vu-test"@.len());
    assert("lighting-detect"@.len() != "lighting-save"@.len());
    assert("lighting-detect"@.len() != "audio"@.len());
    assert("lighting-detect"@.len() != "config"@.len());
    assert("lighting-detect"@.len() != "logs"@.len());
    assert("lighting-detect"@.len() != "diagnostics"@.len());
    assert("lighting-detect"@.len() != "eventlog"@.len());
    assert("lighting-detect"@.len() != "service"@.len());
    assert("lighting-detect"@.len() != "startup"@.len());
    assert("lighting-detect"@.len() != "service-run"@.len());
    assert("lighting-detect"@.len() != "gui"@.len());
    assert("lighting-detect"@.len() != "mute"@.len());
    assert("lighting-detect"@.len() != "unmute"@.len());
    assert("lighting-detect"@.len() != "toggle"@.len());
    assert("lighting-detect"@.len() != "volume"@.len());
    assert("lighting-hid-dump"@.len() != "hid-monitor"@.len());
    assert("lighting-hid-dump"@.len() != "level-monitor"@.len());
    assert("lighting-hid-dump"@.len() != "lighting-solid"@.len());
    assert("lighting-hid-dump"@.len() != "lighting-effect"@.len());
    assert("lighting-hid-dump"@.len() != "lighting-vu-test"@.len());
    assert("lighting-hid-dump"@.len() != "lighting-save"@.len());
    assert("lighting-hid-dump"@.len() != "audio"@.len());
    assert("lighting-hid-dump"@.len() != "config"@.len());
    assert("lighting-hid-dump"@.len() != "logs"@.len());
    assert("lighting-hid-dump"@.len() != "diagnostics"@.len());
    assert("lighting-hid-dump"@.len() != "eventlog"@.len());
    assert("lighting-hid-dump"@.len() != "service"@.len());
    assert("lighting-hid-dump"@.len() != "startup"@.len());
    assert("lighting-hid-dump"@.len() != "service-run"@.len());
    assert("lighting-hid-dump"@.len() != "gui"@.len());
    assert("lighting-hid-dump"@.len() != "mute"@.len());
    assert("lighting-hid-dump"@.len() != "unmute"@.len());
    assert("lighting-hid-dump"@.len() != "toggle"@.len());
    assert("lighting-hid-dump"@.len() != "volume"@.len());
    assert("hid-monitor"@.len() != "level-monitor"@.len());
    assert("hid-monitor"@.len() != "lighting-solid"@.len());
    assert("hid-monitor"@.len() != "lighting-effect"@.len());
    assert("hid-monitor"@.len() != "lighting-vu-test"@.len());
    assert("hid-monitor"@.len() != "lighting-save"@.len());
    assert("hid-monitor"@.len() != "audio"@.len());
    assert("hid-monitor"@.len() != "config"@.len());
    assert("hid-monitor"@.len() != "logs"@.len());
    assert("hid-monitor"@[0] != "diagnostics"@[0]);
    assert("hid-monitor"@.len() != "eventlog"@.len());
    assert("hid-monitor"@.len() != "service"@.len());
    assert("hid-monitor"@.len() != "startup"@.len());
    assert("hid-monitor"@[0] != "service-run"@[0]);
    assert("hid-monitor"@.len() != "gui"@.len());
    assert("hid-monitor"@.len() != "mute"@.len());
    assert("hid-monitor"@.len() != "unmute"@.len());
    assert("hid-monitor"@.len() != "toggle"@.len());
    assert("hid-monitor"@.len() != "volume"@.len());
    assert("level-monitor"@.len() != "lighting-solid"@.len());
    assert("level-monitor"@.len() != "lighting-effect"@.len());
    assert("level-monitor"@.len() != "lighting-vu-test"@.len());
    assert("level-monitor"@[1] != "lighting-save"@[1]);
    assert("level-monitor"@.len() != "audio"@.len());
    assert("level-monitor"@.len() != "config"@.len());
    assert("level-monitor"@.len() != "logs"@.len());
    assert("level-monitor"@.len() != "diagnostics"@.len());
    assert("level-monitor"@.len() != "eventlog"@.len());
    assert("level-monitor"@.len() != "service"@.len());
    assert("level-monitor"@.len() != "startup"@.len());
    assert("level-monitor"@.len() != "service-run"@.len());
    assert("level-monitor"@.len() != "gui"@.len());
    assert("level-monitor"@.len() != "mute"@.len());
    assert("level-monitor"@.len() != "unmute"@.len());
    assert("level-monitor"@.len() != "toggle"@.len());
    assert("level-monitor"@.len() != "volume"@.len());
    assert("lighting-solid"@.len() != "lighting-effect"@.len());
    assert("lighting-solid"@.len() != "lighting-vu-test"@.len());
    assert("lighting-solid"@.len() != "lighting-save"@.len());
    assert("lighting-solid"@.len() != "audio"@.len());
    assert("lighting-solid"@.len() != "config"@.len());
    assert("lighting-solid"@.len() != "logs"@.len());
    assert("lighting-solid"@.len() != "diagnostics"@.len());
    assert("lighting-solid"@.len() != "eventlog"@.len());
    assert("lighting-solid"@.len() != "service"@.len());
    assert("lighting-solid"@.len() != "startup"@.len());
    assert("lighting-solid"@.len() != "service-run"@.len());
    assert("lighting-solid"@.len() != "gui"@.len());
    assert("lighting-solid"@.len() != "mute"@.len());
    assert("lighting-solid"@.len() != "unmute"@.len());
    assert("lighting-solid"@.len() != "toggle"@.len());
    assert("lighting-solid"@.len() != "volume"@.len());
    assert("lighting-effect"@.len() != "lighting-vu-test"@.len());
    assert("lighting-effect"@.len() != "lighting-save"@.len());
    assert("lighting-effect"@.len() != "audio"@.len());
    assert("lighting-effect"@.len() != "config"@.len());
    assert("lighting-effect"@.len() != "logs"@.len());
    assert("lighting-effect"@.len() != "diagnostics"@.len());
    assert("lighting-effect"@.len() != "eventlog"@.len());
    assert("lighting-effect"@.len() != "service"@.len());
    assert("lighting-effect"@.len() != "startup"@.len());
    assert("lighting-effect"@.len() != "service-run"@.len());
    assert("lighting-effect"@.len() != "gui"@.len());
    assert("lighting-effect"@.len() != "mute"@.len());
    assert("lighting-effect"@.len() != "unmute"@.len());
    assert("lighting-effect"@.len() != "toggle"@.len());
    assert("lighting-effect"@.len() != "volume"@.len());
    assert("lighting-vu-test"@.len() != "lighting-save"@.len());
    assert("lighting-vu-test"@.len() != "audio"@.len());
    assert("lighting-vu-test"@.len() != "config"@.len());
    assert("lighting-vu-test"@.len() != "logs"@.len());
    assert("lighting-vu-test"@.len() != "diagnostics"@.len());
    assert("lighting-vu-test"@.len() != "eventlog"@.len());
    assert("lighting-vu-test"@.len() != "service"@.len());
    assert("lighting-vu-test"@.len() != "startup"@.len());
    assert("lighting-vu-test"@.len() != "service-run"@.len());
    assert("lighting-vu-test"@.len() != "gui"@.len());
    assert("lighting-vu-test"@.len() != "mute"@.len());
    assert("lighting-vu-test"@.len() != "unmute"@.len());
    assert("lighting-vu-test"@.len() != "toggle"@.len());
    assert("lighting-vu-test"@.len() != "volume"@.len());
    assert("lighting-save"@.len() != "audio"@.len());
    assert("lighting-save"@.len() != "config"@.len());
    assert("lighting-save"@.len() != "logs"@.len());
    assert("lighting-save"@.len() != "diagnostics"@.len());
    assert("lighting-save"@.len() != "eventlog"@.len());
    assert("lighting-save"@.len() != "service"@.len());
    assert("lighting-save"@.len() != "startup"@.len());
    assert("lighting-save"@.len() != "service-run"@.len());
    assert("lighting-save"@.len() != "gui"@.len());
    assert("lighting-save"@.len() != "mute"@.len());
    assert("lighting-save"@.len() != "unmute"@.len());
    assert("lighting-save"@.len() != "toggle"@.len());
    assert("lighting-save"@.len() != "volume"@.len());
    assert("audio"@.len() != "config"@.len());
    assert("audio"@.len() != "logs"@.len());
    assert("audio"@.len() != "diagnostics"@.len());
    assert("audio"@.len() != "eventlog"@.len());
    assert("audio"@.len() != "service"@.len());
    assert("audio"@.len() != "startup"@.len());
    assert("audio"@.len() != "service-run"@.len());
    assert("audio"@.len() != "gui"@.len());
    assert("audio"@.len() != "mute"@.len());
    assert("audio"@.len() != "unmute"@.len());
    assert("audio"@.len() != "toggle"@.len());
    assert("audio"@.len() != "volume"@.len());
    assert("config"@.len() != "logs"@.len());
    assert("config"@.len() != "diagnostics"@.len());
    assert("config"@.len() != "eventlog"@.len());
    assert("config"@.len() != "service"@.len());
    assert("config"@.len() != "startup"@.len());
    assert("config"@.len() != "service-run"@.len());
    assert("config"@.len() != "gui"@.len());
    assert("config"@.len() != "mute"@.len());
    assert("config"@[0] != "unmute"@[0]);
    assert("config"@[0] != "toggle"@[0]);
    assert("config"@[0] != "volume"@[0]);
    assert("logs"@.len() != "diagnostics"@.len());
    assert("logs"@.len() != "eventlog"@.len());
    assert("logs"@.len() != "service"@.len());
    assert("logs"@.len() != "startup"@.len());
    assert("logs"@.len() != "service-run"@.len());
    assert("logs"@.len() != "gui"@.len());
    assert("logs"@[0] != "mute"@[0]);
    assert("logs"@.len() != "unmute"@.len());
    assert("logs"@.len() != "toggle"@.len());
    assert("logs"@.len() != "volume"@.len());
    assert("diagnostics"@.len() != "eventlog"@.len());
    assert("diagnostics"@.len() != "service"@.len());
    assert("diagnostics"@.len() != "startup"@.len());
    assert("diagnostics"@[0] != "service-run"@[0]);
    assert("diagnostics"@.len() != "gui"@.len());
    assert("diagnostics"@.len() != "mute"@.len());
    assert("diagnostics"@.len() != "unmute"@.len());
    assert("diagnostics"@.len() != "toggle"@.len());
    assert("diagnostics"@.len() != "volume"@.len());
    assert("eventlog"@.len() != "service"@.len());
    assert("eventlog"@.len() != "startup"@.len());
    assert("eventlog"@.len() != "service-run"@.len());
    assert("eventlog"@.len() != "gui"@.len());
    assert("eventlog"@.len() != "mute"@.len());
    assert("eventlog"@.len() != "unmute"@.len());
    assert("eventlog"@.len() != "toggle"@.len());
    assert("eventlog"@.len() != "volume"@.len());
    assert("service"@[1] != "startup"@[1]);
    assert("service"@.len() != "service-run"@.len());
    assert("service"@.len() != "gui"@.len());
    assert("service"@.len() != "mute"@.len());
    assert("service"@.len() != "unmute"@.len());
    assert("service"@.len() != "toggle"@.len());
    assert("service"@.len() != "volume"@.len());
    assert("startup"@.len() != "service-run"@.len());
    assert("startup"@.len() != "gui"@.len());
    assert("startup"@.len() != "mute"@.len());
    assert("startup"@.len() != "unmute"@.len());
    assert("startup"@.len() != "toggle"@.len());
    assert("startup"@.len() != "volume"@.len());
    assert("service-run"@.len() != "gui"@.len());
    assert("service-run"@.len() != "mute"@.len());
    assert("service-run"@.len() != "unmute"@.len());
    assert("service-run"@.len() != "toggle"@.len());
    assert("service-run"@.len() != "volume"@.len());
    assert("gui"@.len() != "mute"@.len());
    assert("gui"@.len() != "unmute"@.len());
    assert("gui"@.len() != "toggle"@.len());
    assert("gui"@.len() != "volume"@.len());
    assert("mute"@.len() != "unmute"@.len());
    assert("mute"@.len() != "toggle"@.len());
    assert("mute"@.len() != "volume"@.len());
    assert("unmute"@[0] != "toggle"@[0]);
    assert("unmute"@[0] != "volume"@[0]);
    assert("toggle"@[0] != "volume"@[0]);
}

/// The command of a whole command line (without the program name); the
/// usage text for an empty line or an unknown command.
pub fn parse_top_command(args: &[String]) -> (r: Result<TopCommand, CliError>)
    ensures
        args@.len() == 0 ==> r matches Err(CliError::Usage(Usage::Main)),
        args@.len() > 0 ==> match top_command_spec(args@[0]@) {
            Some(c) => r matches Ok(t) && t == c,
            None => r matches Err(CliError::Usage(Usage::Main)),
        },
{
    if args.len() == 0 {
        return Err(CliError::Usage(Usage::Main));
    }
    let w = args[0].as_str();
    let c = if str_eq(w, "list") {
        TopCommand::List
    } else if str_eq(w, "status") {
        TopCommand::Status
    } else if str_eq(w, "lighting-detect") {
        TopCommand::LightingDetect
    } else if str_eq(w, "lighting-hid-dump") {
        TopCommand::LightingHidDump
    } else if str_eq(w, "hid-monitor") {
        TopCommand::HidMonitor
    } else if str_eq(w, "level-monitor") {
        TopCommand::LevelMonitor
    } else if str_eq(w, "lighting-solid") {
        TopCommand::LightingSolid
    } else if str_eq(w, "lighting-effect") {
        TopCommand::LightingEffect
    } else if str_eq(w, "lighting-vu-test") {
        TopCommand::LightingVuTest
    } else if str_eq(w, "lighting-save") {
        TopCommand::LightingSave
    } else if str_eq(w, "audio") {
        TopCommand::Audio
    } else if str_eq(w, "config") {
        TopCommand::Config
    } else if str_eq(w, "logs") {
        TopCommand::Logs
    } else if str_eq(w, "diagnostics") {
        TopCommand::Diagnostics
    } else if str_eq(w, "eventlog") {
        TopCommand::EventLog
    } else if str_eq(w, "service") {
        TopCommand::Service
    } else if str_eq(w, "startup") {
        TopCommand::Startup
    } else if str_eq(w, "service-run") {
        TopCommand::ServiceRun
    } else if str_eq(w, "gui") {
        TopCommand::Gui
    } else if str_eq(w, "mute") {
        TopCommand::Mute
    } else if str_eq(w, "unmute") {
        TopCommand::Unmute
    } else if str_eq(w, "toggle") {
        TopCommand::Toggle
    } else if str_eq(w, "volume") {
        TopCommand::Volume
    } else {
        return Err(CliError::Usage(Usage::Main));
    };
    Ok(c)
}

proof fn lemma_args_view(args: Seq<String>)
    ensures
        args_view(args).len() == args.len(),
        forall|k: int| 0 <= k < args.len() ==> #[trigger] args_view(args)[k] == args[k]@,
{
}

// ---------------------------------------------------------------------------
// config, logs, diagnostics, eventlog, service, startup
// ---------------------------------------------------------------------------

pub enum ConfigCommand {
    Path,
    Dump,
    Export(String),
    Import(String),
    /// The file to check; the configuration file when `None`.
    Validate(Option<String>),
    Reset,
}

/// `config <path|dump|export <file>|import <file>|validate [file]|reset>`;
/// words after `path`, `dump` and `reset` are ignored.
pub fn parse_config_command(args: &[String]) -> (r: Result<ConfigCommand, CliError>)
    ensures
        ({
            let a = args_view(args@);
            if a.len() == 0 {
                r matches Err(CliError::Usage(Usage::Config))
            } else if a[0] == "path"@ {
                r matches Ok(ConfigCommand::Path)
            } else if a[0] == "dump"@ {
                r matches Ok(ConfigCommand::Dump)
            } else if a[0] == "export"@ {
                if a.len() == 2 {
                    r matches Ok(ConfigCommand::Export(f)) && f@ == a[1]
                } else {
                    r matches Err(CliError::Failed(m)) && m@
                        == "Usage: hyperx-mic-lite config export <file>"@
                }
            } else if a[0] == "import"@ {
                if a.len() == 2 {
                    r matches Ok(ConfigCommand::Import(f)) && f@ == a[1]
                } else {
                    r matches Err(CliError::Failed(m)) && m@
                        == "Usage: hyperx-mic-lite config import <file>"@
                }
            } else if a[0] == "validate"@ {
                if a.len() == 2 {
                    r matches Ok(ConfigCommand::Validate(Some(f))) && f@ == a[1]
                } else {
                    r matches Ok(ConfigCommand::Validate(None))
                }
            } else if a[0] == "reset"@ {
                r matches Ok(ConfigCommand::Reset)
            } else {
                r matches Err(CliError::Usage(Usage::Config))
            }
        }),
{
    proof {
        lemma_args_view(args@);
    }
    if args.len() == 0 {
        return Err(CliError::Usage(Usage::Config));
    }
    let w = args[0].as_str();
    if str_eq(w, "path") {
        Ok(ConfigCommand::Path)
    } else if str_eq(w, "dump") {
        Ok(ConfigCommand::Dump)
    } else if str_eq(w, "export") {
        if args.len() != 2 {
            Err(CliError::Failed(owned("Usage: hyperx-mic-lite config export <file>")))
        } else {
            Ok(ConfigCommand::Export(args[1].clone()))
        }
    } else if str_eq(w, "import") {
        if args.len() != 2 {
            Err(CliError::Failed(owned("Usage: hyperx-mic-lite config import <file>")))
        } else {
            Ok(ConfigCommand::Import(args[1].clone()))
        }
    } else if str_eq(w, "validate") {
        if args.len() == 2 {
            Ok(ConfigCommand::Validate(Some(args[1].clone())))
        } else {
            Ok(ConfigCommand::Validate(None))
        }
    } else if str_eq(w, "reset") {
        Ok(ConfigCommand::Reset)
    } else {
        Err(CliError::Usage(Usage::Config))
    }
}

#[derive(Clone, Copy, PartialEq, Eq, Debug, Structural)]
pub enum LogsCommand {
    Path,
    /// Print the last so many lines.
    Tail(usize),
}

/// `logs <path|tail [lines]>`, 80 lines by default.
pub fn parse_logs_command(args: &[String]) -> (r: Result<LogsCommand, CliError>)
    ensures
        ({
            let a = args_view(args@);
            if a.len() == 0 {
                r matches Err(CliError::Usage(Usage::Logs))
            } else if a[0] == "path"@ {
                r matches Ok(LogsCommand::Path)
            } else if a[0] == "tail"@ {
                match line_count_spec(
                    if a.len() > 1 {
                        Some(a[1])
                    } else {
                        None
                    },
                ) {
                    Ok(n) => r matches Ok(LogsCommand::Tail(k)) && k == n,
                    Err(m) => r matches Err(CliError::Invalid(e)) && e@ == m,
                }
            } else {
                r matches Err(CliError::Usage(Usage::Logs))
            }
        }),
{
    proof {
        lemma_args_view(args@);
    }
    if args.len() == 0 {
        return Err(CliError::Usage(Usage::Logs));
    }
    let w = args[0].as_str();
    if str_eq(w, "path") {
        Ok(LogsCommand::Path)
    } else if str_eq(w, "tail") {
        let value = if args.len() > 1 {
            Some(args[1].as_str())
        } else {
            None
        };
        match line_count_arg(value) {
            Ok(n) => Ok(LogsCommand::Tail(n)),
            Err(m) => Err(CliError::Invalid(m)),
        }
    } else {
        Err(CliError::Usage(Usage::Logs))
    }
}

pub enum DiagnosticsCommand {
    /// Write the bundle into this directory, or a fresh default one.
    Export(Option<String>),
}

/// `diagnostics export [directory]`.
pub fn parse_diagnostics_command(args: &[String]) -> (r: Result<DiagnosticsCommand, CliError>)
    ensures
        ({
            let a = args_view(args@);
            if a.len() > 0 && a[0] == "export"@ {
                if a.len() > 1 {
                    r matches Ok(DiagnosticsCommand::Export(Some(d))) && d@ == a[1]
                } else {
                    r matches Ok(DiagnosticsCommand::Export(None))
                }
            } else {
                r matches Err(CliError::Usage(Usage::Diagnostics))
            }
        }),
{
    proof {
        lemma_args_view(args@);
    }
    if args.len() == 0 || !str_eq(args[0].as_str(), "export") {
        return Err(CliError::Usage(Usage::Diagnostics));
    }
    if args.len() > 1 {
        Ok(DiagnosticsCommand::Export(Some(args[1].clone())))
    } else {
        Ok(DiagnosticsCommand::Export(None))
    }
}

#[derive(Clone, Copy, PartialEq, Eq, Debug, Structural)]
pub enum EventLogCommand {
    Register,
    Unregister,
    Status,
}

/// `eventlog <register|unregister|status>`.
pub fn parse_eventlog_command(args: &[String]) -> (r: Result<EventLogCommand, CliError>)
    ensures
        ({
            let a = args_view(args@);
            let c = if a.len() == 0 {
                None
            } else if a[0] == "register"@ {
                Some(EventLogCommand::Register)
            } else if a[0] == "unregister"@ {
                Some(EventLogCommand::Unregister)
            } else if a[0] == "status"@ {
                Some(EventLogCommand::Status)
            } else {
                None
            };
            match c {
                Some(c) => r matches Ok(x) && x == c,
                None => r matches Err(CliError::Usage(Usage::EventLog)),
            }
        }),
{
    proof {
        lemma_args_view(args@);
    }
    if args.len() == 0 {
        return Err(CliError::Usage(Usage::EventLog));
    }
    let w = args[0].as_str();
    if str_eq(w, "register") {
        Ok(EventLogCommand::Register)
    } else if str_eq(w, "unregister") {
        Ok(EventLogCommand::Unregister)
    } else if str_eq(w, "status") {
        Ok(EventLogCommand::Status)
    } else {
        Err(CliError::Usage(Usage::EventLog))
    }
}

#[derive(Clone, Copy, PartialEq, Eq, Debug, Structural)]
pub enum ServiceCommand {
    Install,
    Uninstall,
    Start,
    Stop,
    Status,
    Plan,
    Run,
}

pub open spec fn service_command_spec(w: Seq<char>) -> Option<ServiceCommand> {
    if w == "install"@ {
        Some(ServiceCommand::Install)
    } else if w == "uninstall"@ || w == "delete"@ {
        Some(ServiceCommand::Uninstall)
    } else if w == "start"@ {
        Some(ServiceCommand::Start)
    } else if w == "stop"@ {
        Some(ServiceCommand::Stop)
    } else if w == "status"@ {
        Some(ServiceCommand::Status)
    } else if w == "plan"@ {
        Some(ServiceCommand::Plan)
    } else if w == "run"@ {
        Some(ServiceCommand::Run)
    } else {
        None
    }
}

/// `service <install|uninstall|delete|start|stop|status|plan|run>`.
pub fn parse_service_command(args: &[String]) -> (r: Result<ServiceCommand, CliError>)
    ensures
        args@.len() == 0 ==> r matches Err(CliError::Usage(Usage::Service)),
        args@.len() > 0 ==> match service_command_spec(args@[0]@) {
            Some(c) => r matches Ok(x) && x == c,
            None => r matches Err(CliError::Usage(Usage::Service)),
        },
{
    if args.len() == 0 {
        return Err(CliError::Usage(Usage::Service));
    }
    let w = args[0].as_str();
    if str_eq(w, "install") {
        Ok(ServiceCommand::Install)
    } else if str_eq(w, "uninstall") || str_eq(w, "delete") {
        Ok(ServiceCommand::Uninstall)
    } else if str_eq(w, "start") {
        Ok(ServiceCommand::Start)
    } else if str_eq(w, "stop") {
        Ok(ServiceCommand::Stop)
    } else if str_eq(w, "status") {
        Ok(ServiceCommand::Status)
    } else if str_eq(w, "plan") {
        Ok(ServiceCommand::Plan)
    } else if str_eq(w, "run") {
        Ok(ServiceCommand::Run)
    } else {
        Err(CliError::Usage(Usage::Service))
    }
}

#[derive(Clone, Copy, PartialEq, Eq, Debug, Structural)]
pub enum StartupCommand {
    Install { start_minimized: bool },
    Uninstall,
    Status,
}

/// `startup <install [--minimized|--normal]|uninstall|delete|status>`.
pub fn parse_startup_command(args: &[String]) -> (r: Result<StartupCommand, CliError>)
    ensures
        ({
            let a = args_view(args@);
            if a.len() == 0 {
                r matches Err(CliError::Usage(Usage::Startup))
            } else if a[0] == "install"@ {
                match startup_flags_spec(a.subrange(1, a.len() as int)) {
                    Ok(b) => r matches Ok(StartupCommand::Install { start_minimized })
                        && start_minimized == b,
                    Err(m) => r matches Err(CliError::Failed(e)) && e@ == m,
                }
            } else if a[0] == "uninstall"@ || a[0] == "delete"@ {
                r matches Ok(StartupCommand::Uninstall)
            } else if a[0] == "status"@ {
                r matches Ok(StartupCommand::Status)
            } else {
                r matches Err(CliError::Usage(Usage::Startup))
            }
        }),
{
    proof {
        lemma_args_view(args@);
    }
    if args.len() == 0 {
        return Err(CliError::Usage(Usage::Startup));
    }
    let w = args[0].as_str();
    if str_eq(w, "install") {
        let rest = vstd::slice::slice_subrange(args, 1, args.len());
        proof {
            assert(args_view(rest@) =~= args_view(args@).subrange(1, args@.len() as int));
        }
        match startup_install_minimized(rest) {
            Ok(b) => Ok(StartupCommand::Install { start_minimized: b }),
            Err(m) => Err(CliError::Failed(m)),
        }
    } else if str_eq(w, "uninstall") || str_eq(w, "delete") {
        Ok(StartupCommand::Uninstall)
    } else if str_eq(w, "status") {
        Ok(StartupCommand::Status)
    } else {
        Err(CliError::Usage(Usage::Startup))
    }
}

// ---------------------------------------------------------------------------
// audio, volume, gui
// ---------------------------------------------------------------------------

/// Which side of the device topology to print.
#[derive(Clone, Copy, PartialEq, Eq, Debug, Structural)]
pub enum Flow {
    Capture,
    Render,
}

#[derive(Clone, Copy, PartialEq, Eq, Debug, Structural)]
pub enum AudioCommand {
    Volume(AudioClassControl, u8),
    Mute(AudioClassControl, bool),
    Topology(Flow),
}

pub open spec fn flow_spec(w: Seq<char>) -> Option<Flow> {
    if w == "capture"@ || w == "mic"@ || w == "input"@ {
        Some(Flow::Capture)
    } else if w == "render"@ || w == "headphone"@ || w == "output"@ {
        Some(Flow::Render)
    } else {
        None
    }
}

pub open spec fn unknown_control_text(w: Seq<char>) -> Seq<char> {
    "Unknown audio control '"@ + w + "'."@
}

/// `audio volume <control> <0-100>`, `audio mute <control> <on|off>`,
/// `audio topology <capture|render>`.
pub fn parse_audio_command(args: &[String]) -> (r: Result<AudioCommand, CliError>)
    ensures
        ({
            let a = args_view(args@);
            if a.len() == 0 {
                r matches Err(CliError::Usage(Usage::Audio))
            } else if a[0] == "volume"@ || a[0] == "mute"@ {
                if a.len() != 3 {
                    r matches Err(CliError::Usage(Usage::Audio))
                } else {
                    match control_from_word(a[1]) {
                        None => r matches Err(CliError::InvalidWithUsage(m, Usage::Audio)) && m@
                            == unknown_control_text(a[1]),
                        Some(c) => if a[0] == "volume"@ {
                            match percent_arg_spec(a[2]) {
                                Some(p) => r matches Ok(AudioCommand::Volume(x, v)) && x == c && v
                                    == p,
                                None => r matches Err(CliError::Invalid(m)) && m@
                                    == percent_arg_error(),
                            }
                        } else {
                            match on_off_arg_spec(a[2]) {
                                Some(b) => r matches Ok(AudioCommand::Mute(x, m)) && x == c && m
                                    == b,
                                None => r matches Err(CliError::Invalid(m)) && m@
                                    == on_off_arg_error(),
                            }
                        },
                    }
                }
            } else if a[0] == "topology"@ {
                if a.len() != 2 {
                    r matches Err(CliError::Usage(Usage::Audio))
                } else {
                    match flow_spec(a[1]) {
                        Some(f) => r matches Ok(AudioCommand::Topology(x)) && x == f,
                        None => r matches Err(CliError::Usage(Usage::Audio)),
                    }
                }
            } else {
                r matches Err(CliError::Usage(Usage::Audio))
            }
        }),
{
    proof {
        lemma_args_view(args@);
    }
    if args.len() == 0 {
        return Err(CliError::Usage(Usage::Audio));
    }
    let w = args[0].as_str();
    if str_eq(w, "volume") || str_eq(w, "mute") {
        if args.len() != 3 {
            return Err(CliError::Usage(Usage::Audio));
        }
        let control = match AudioClassControl::parse(args[1].as_str()) {
            Some(c) => c,
            None => {
                let mut m = owned("Unknown audio control '");
                m.append(args[1].as_str());
                m.append("'.");
                return Err(CliError::InvalidWithUsage(m, Usage::Audio));
            },
        };
        if str_eq(w, "volume") {
            match parse_percent_arg(args[2].as_str()) {
                Ok(p) => Ok(AudioCommand::Volume(control, p)),
                Err(m) => Err(CliError::Invalid(m)),
            }
        } else {
            match parse_on_off_arg(args[2].as_str()) {
                Ok(b) => Ok(AudioCommand::Mute(control, b)),
                Err(m) => Err(CliError::Invalid(m)),
            }
        }
    } else if str_eq(w, "topology") {
        if args.len() != 2 {
            return Err(CliError::Usage(Usage::Audio));
        }
        let f = args[1].as_str();
        if str_eq(f, "capture") || str_eq(f, "mic") || str_eq(f, "input") {
            Ok(AudioCommand::Topology(Flow::Capture))
        } else if str_eq(f, "render") || str_eq(f, "headphone") || str_eq(f, "output") {
            Ok(AudioCommand::Topology(Flow::Render))
        } else {
            Err(CliError::Usage(Usage::Audio))
        }
    } else {
        Err(CliError::Usage(Usage::Audio))
    }
}

/// `volume <0-100>`: the microphone volume.
pub fn parse_volume_args(args: &[String]) -> (r: Result<u8, CliError>)
    ensures
        args@.len() != 1 ==> (r matches Err(CliError::Invalid(m)) && m@
            == "Usage: hyperx-mic-lite volume 75"@),
        args@.len() == 1 ==> match percent_arg_spec(args@[0]@) {
            Some(p) => r matches Ok(v) && v == p,
            None => r matches Err(CliError::Invalid(m)) && m@
                == "Volume must be a number from 0 to 100."@,
        },
{
    if args.len() != 1 {
        return Err(CliError::Invalid(owned("Usage: hyperx-mic-lite volume 75")));
    }
    match parse_percent_arg(args[0].as_str()) {
        Ok(p) => Ok(p),
        Err(_) => Err(CliError::Invalid(owned("Volume must be a number from 0 to 100."))),
    }
}

pub open spec fn is_minimized_flag(a: Seq<char>) -> bool {
    a == "--start-minimized"@ || a == "--minimized"@
}

/// `gui [--start-minimized]`: whether the window starts minimized.
pub fn parse_gui_args(args: &[String]) -> (r: Result<bool, CliError>)
    ensures
        ({
            let a = args_view(args@);
            if exists|i: int| 0 <= i < a.len() && !is_minimized_flag(#[trigger] a[i]) {
                r matches Err(CliError::Invalid(m)) && m@
                    == "Usage: hyperx-mic-lite gui [--start-minimized]"@
            } else {
                r matches Ok(b) && b == (a.len() > 0)
            }
        }),
{
    let ghost a = args_view(args@);
    let mut i: usize = 0;
    while i < args.len()
        invariant
            i <= args@.len(),
            a == args_view(args@),
            forall|j: int| 0 <= j < i ==> is_minimized_flag(#[trigger] a[j]),
        decreases args@.len() - i,
    {
        let w = args[i].as_str();
        assert(a[i as int] == w@);
        if !str_eq(w, "--start-minimized") && !str_eq(w, "--minimized") {
            return Err(CliError::Invalid(owned("Usage: hyperx-mic-lite gui [--start-minimized]")));
        }
        i = i + 1;
    }
    Ok(args.len() > 0)
}

// ---------------------------------------------------------------------------
// monitors and lighting commands
// ---------------------------------------------------------------------------

/// The two monitors of the command line.
#[derive(Clone, Copy, PartialEq, Eq, Debug, Structural)]
pub enum Monitor {
    Hid,
    Level,
}

pub open spec fn seconds_spec(value: Option<Seq<char>>, default: nat, lo: nat, hi: nat) -> Result<
    u64,
    Seq<char>,
> {
    match value {
        None => Ok(default as u64),
        Some(v) => match parse_unsigned_spec(v, 10, u64::MAX as nat) {
            Some(n) => Ok(clamp_spec(n, lo, hi) as u64),
            None => Err("Duration must be a whole number of seconds."@),
        },
    }
}

fn seconds_arg(value: Option<&str>, default: u64, lo: u64, hi: u64) -> (r: Result<u64, String>)
    requires
        lo <= hi,
    ensures
        match seconds_spec(
            match value {
                Some(v) => Some(v@),
                None => None,
            },
            default as nat,
            lo as nat,
            hi as nat,
        ) {
            Ok(n) => r == Ok::<u64, String>(n),
            Err(m) => r matches Err(e) && e@ == m,
        },
{
    match value {
        None => Ok(default),
        Some(v) => match parse_unsigned(&char_vec(v), 10, u64::MAX) {
            Some(n) => Ok(
                if n < lo {
                    lo
                } else if n > hi {
                    hi
                } else {
                    n
                },
            ),
            None => Err(owned("Duration must be a whole number of seconds.")),
        },
    }
}

/// `hid-monitor [seconds]` and `level-monitor [seconds]`: 15 seconds by
/// default, held to 1..120.
pub fn parse_monitor_seconds(monitor: Monitor, args: &[String]) -> (r: Result<u64, CliError>)
    ensures
        args@.len() > 1 ==> (r matches Err(CliError::Invalid(m)) && m@ == (match monitor {
            Monitor::Hid => "Usage: hyperx-mic-lite hid-monitor [seconds]"@,
            Monitor::Level => "Usage: hyperx-mic-lite level-monitor [seconds]"@,
        })),
        args@.len() <= 1 ==> match seconds_spec(
            if args@.len() == 1 {
                Some(args@[0]@)
            } else {
                None
            },
            15,
            1,
            120,
        ) {
            Ok(n) => r matches Ok(s) && s == n,
            Err(m) => r matches Err(CliError::Invalid(e)) && e@ == m,
        },
{
    if args.len() > 1 {
        return Err(
            CliError::Invalid(
                match monitor {
                    Monitor::Hid => owned("Usage: hyperx-mic-lite hid-monitor [seconds]"),
                    Monitor::Level => owned("Usage: hyperx-mic-lite level-monitor [seconds]"),
                },
            ),
        );
    }
    let value = if args.len() == 1 {
        Some(args[0].as_str())
    } else {
        None
    };
    match seconds_arg(value, 15, 1, 120) {
        Ok(s) => Ok(s),
        Err(m) => Err(CliError::Invalid(m)),
    }
}

/// What `lighting-solid` runs.
pub struct SolidArgs {
    pub color: [u8; 3],
    pub seconds: u64,
    pub packet_log: bool,
}

pub open spec fn solid_usage_text() -> Seq<char> {
    "Usage: hyperx-mic-lite lighting-solid ff0066 [seconds] [--packet-log]"@
}

/// `lighting-solid <rrggbb> [seconds] [--packet-log]`: 3 seconds by
/// default, held to 1..60.
pub fn parse_lighting_solid_args(args: &[String]) -> (r: Result<SolidArgs, CliError>)
    ensures
        ({
            let rest = without_packet_log_flags(args_view(args@));
            &&& (rest.len() == 0 || rest.len() > 2) ==> (r matches Err(CliError::Invalid(m)) && m@
                == solid_usage_text())
            &&& (1 <= rest.len() <= 2) ==> match parse_rgb_spec(rest[0]) {
                Err(m) => r matches Err(CliError::Invalid(e)) && e@ == m,
                Ok(c) => match solid_seconds_spec(
                    if rest.len() == 2 {
                        Some(rest[1])
                    } else {
                        None
                    },
                ) {
                    Ok(s) => r matches Ok(x) && x.color@ == c && x.seconds == s && x.packet_log
                        == has_packet_log_flag(args_view(args@)),
                    Err(m) => r matches Err(CliError::Invalid(e)) && e@ == m,
                },
            }
        }),
{
    let (rest, packet_log) = split_packet_log_flag(args);
    if rest.len() == 0 || rest.len() > 2 {
        return Err(
            CliError::Invalid(
                owned("Usage: hyperx-mic-lite lighting-solid ff0066 [seconds] [--packet-log]"),
            ),
        );
    }
    assert(strs_view(rest@)[0] == rest@[0]@);
    let color = match parse_rgb_hex(rest[0]) {
        Ok(c) => c,
        Err(e) => {
            return Err(CliError::Invalid(e.message()));
        },
    };
    let value = if rest.len() == 2 {
        assert(strs_view(rest@)[1] == rest@[1]@);
        Some(rest[1])
    } else {
        None
    };
    match solid_seconds_arg(value) {
        Ok(seconds) => Ok(SolidArgs { color, seconds, packet_log }),
        Err(m) => Err(CliError::Invalid(m)),
    }
}

/// What `lighting-effect` runs.
pub struct EffectArgs {
    pub effect: Effect,
    pub duration: StreamDuration,
    pub packet_log: bool,
}

pub open spec fn effect_usage_text() -> Seq<char> {
    "Usage: hyperx-mic-lite lighting-effect <solid|wave|cycle|pulse|blink|lightning|vu_meter> [seconds|forever] [--packet-log]"@
}

/// `lighting-effect <effect> [seconds|forever] [--packet-log]`: an unknown
/// effect name means the wave, a missing duration forever.
pub fn parse_lighting_effect_args(args: &[String]) -> (r: Result<EffectArgs, CliError>)
    ensures
        ({
            let rest = without_packet_log_flags(args_view(args@));
            &&& (rest.len() == 0 || rest.len() > 2) ==> (r matches Err(CliError::Invalid(m)) && m@
                == effect_usage_text())
            &&& (1 <= rest.len() <= 2) ==> if rest.len() == 2 {
                match stream_duration_spec(rest[1]) {
                    Ok(d) => r matches Ok(x) && x.effect == effect_from_config(rest[0]) && x.duration
                        == d && x.packet_log == has_packet_log_flag(args_view(args@)),
                    Err(m) => r matches Err(CliError::Invalid(e)) && e@ == m,
                }
            } else {
                r matches Ok(x) && x.effect == effect_from_config(rest[0]) && x.duration
                    == StreamDuration::Forever && x.packet_log == has_packet_log_flag(
                    args_view(args@),
                )
            }
        }),
{
    let (rest, packet_log) = split_packet_log_flag(args);
    if rest.len() == 0 || rest.len() > 2 {
        return Err(
            CliError::Invalid(
                owned(
                    "Usage: hyperx-mic-lite lighting-effect <solid|wave|cycle|pulse|blink|lightning|vu_meter> [seconds|forever] [--packet-log]",
                ),
            ),
        );
    }
    assert(strs_view(rest@)[0] == rest@[0]@);
    let effect = Effect::from_config(rest[0]);
    if rest.len() == 2 {
        assert(strs_view(rest@)[1] == rest@[1]@);
        match parse_stream_duration(rest[1]) {
            Ok(duration) => Ok(EffectArgs { effect, duration, packet_log }),
            Err(m) => Err(CliError::Invalid(m)),
        }
    } else {
        Ok(EffectArgs { effect, duration: StreamDuration::Forever, packet_log })
    }
}

/// What `lighting-vu-test` runs.
#[derive(Clone, Copy, PartialEq, Eq, Debug, Structural)]
pub struct VuTestArgs {
    pub level: u8,
    pub seconds: u64,
    pub packet_log: bool,
}

pub open spec fn vu_usage_text() -> Seq<char> {
    "Usage: hyperx-mic-lite lighting-vu-test <0-100> [seconds] [--packet-log]"@
}

pub open spec fn level_error_text() -> Seq<char> {
    "Level must be a whole number from 0 to 100."@
}

/// `lighting-vu-test <0-100> [seconds] [--packet-log]`: 2 seconds by
/// default, held to 1..30.
pub fn parse_lighting_vu_test_args(args: &[String]) -> (r: Result<VuTestArgs, CliError>)
    ensures
        ({
            let rest = without_packet_log_flags(args_view(args@));
            &&& (rest.len() == 0 || rest.len() > 2) ==> (r matches Err(CliError::Invalid(m)) && m@
                == vu_usage_text())
            &&& (1 <= rest.len() <= 2) ==> match percent_arg_spec(rest[0]) {
                None => r matches Err(CliError::Invalid(m)) && m@ == level_error_text(),
                Some(level) => match seconds_spec(
                    if rest.len() == 2 {
                        Some(rest[1])
                    } else {
                        None
                    },
                    2,
                    1,
                    30,
                ) {
                    Ok(s) => r matches Ok(x) && x == (VuTestArgs {
                        level,
                        seconds: s,
                        packet_log: has_packet_log_flag(args_view(args@)),
                    }),
                    Err(m) => r matches Err(CliError::Invalid(e)) && e@ == m,
                },
            }
        }),
{
    let (rest, packet_log) = split_packet_log_flag(args);
    if rest.len() == 0 || rest.len() > 2 {
        return Err(
            CliError::Invalid(
                owned("Usage: hyperx-mic-lite lighting-vu-test <0-100> [seconds] [--packet-log]"),
            ),
        );
    }
    assert(strs_view(rest@)[0] == rest@[0]@);
    let level = match parse_percent_arg(rest[0]) {
        Ok(l) => l,
        Err(_) => {
            return Err(CliError::Invalid(owned("Level must be a whole number from 0 to 100.")));
        },
    };
    let value = if rest.len() == 2 {
        assert(strs_view(rest@)[1] == rest@[1]@);
        Some(rest[1])
    } else {
        None
    };
    match seconds_arg(value, 2, 1, 30) {
        Ok(seconds) => Ok(VuTestArgs { level, seconds, packet_log }),
        Err(m) => Err(CliError::Invalid(m)),
    }
}

/// `lighting-save [--packet-log]`: whether to log the packets.
pub fn parse_lighting_save_args(args: &[String]) -> (r: Result<bool, CliError>)
    ensures
        without_packet_log_flags(args_view(args@)).len() > 0 ==> (r matches Err(CliError::Invalid(m))
            && m@ == "Usage: hyperx-mic-lite lighting-save [--packet-log]"@),
        without_packet_log_flags(args_view(args@)).len() == 0 ==> (r matches Ok(b) && b
            == has_packet_log_flag(args_view(args@))),
{
    let (rest, packet_log) = split_packet_log_flag(args);
    if rest.len() > 0 {
        return Err(CliError::Invalid(owned("Usage: hyperx-mic-lite lighting-save [--packet-log]")));
    }
    Ok(packet_log)
}

} // verus!
