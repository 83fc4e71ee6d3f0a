use hyperx_mic_lite::audio::AudioClassControl;
use hyperx_mic_lite::cli::{
    parse_audio_command, parse_config_command, parse_diagnostics_command, parse_eventlog_command,
    parse_gui_args, parse_lighting_effect_args, parse_lighting_save_args, parse_lighting_solid_args,
    parse_lighting_vu_test_args, parse_logs_command, parse_monitor_seconds, parse_service_command,
    parse_startup_command, parse_top_command, parse_volume_args, usage_text, AudioCommand,
    CliError, ConfigCommand, DiagnosticsCommand, EventLogCommand, Flow, LogsCommand, Monitor,
    ServiceCommand, StartupCommand, TopCommand, Usage,
};
use hyperx_mic_lite::lighting_cli::StreamDuration;
use hyperx_mic_lite::logs::{line_count_arg, tail_lines, tail_start, text_lines};
use hyperx_mic_lite::model::Effect;
use hyperx_mic_lite::startup::{startup_command, startup_install_minimized};

fn words(list: &[&str]) -> Vec<String> {
    list.iter().map(|w| w.to_string()).collect()
}

#[test]
fn top_commands() {
    assert!(matches!(parse_top_command(&words(&[])), Err(CliError::Usage(Usage::Main))));
    assert_eq!(parse_top_command(&words(&["lighting-effect", "wave"])).ok(), Some(TopCommand::LightingEffect));
    assert_eq!(parse_top_command(&words(&["service-run"])).ok(), Some(TopCommand::ServiceRun));
    assert!(matches!(parse_top_command(&words(&["reboot"])), Err(CliError::Usage(Usage::Main))));
    assert!(usage_text(Usage::Logs).contains("logs tail [lines]"));
    assert_eq!(CliError::Failed("x".to_string()).exit_code(), 1);
    assert_eq!(CliError::Usage(Usage::Main).exit_code(), 2);
}

#[test]
fn config_commands() {
    assert!(matches!(parse_config_command(&words(&["path", "extra"])), Ok(ConfigCommand::Path)));
    assert!(matches!(parse_config_command(&words(&["export", "a.json"])), Ok(ConfigCommand::Export(f)) if f == "a.json"));
    assert!(matches!(
        parse_config_command(&words(&["export"])),
        Err(CliError::Failed(m)) if m == "Usage: hyperx-mic-lite config export <file>"
    ));
    assert!(matches!(parse_config_command(&words(&["validate"])), Ok(ConfigCommand::Validate(None))));
    assert!(matches!(parse_config_command(&words(&["validate", "b.json"])), Ok(ConfigCommand::Validate(Some(f))) if f == "b.json"));
    assert!(matches!(parse_config_command(&words(&["frobnicate"])), Err(CliError::Usage(Usage::Config))));
    assert!(matches!(parse_config_command(&words(&[])), Err(CliError::Usage(Usage::Config))));
}

#[test]
fn logs_and_diagnostics_commands() {
    assert_eq!(parse_logs_command(&words(&["tail"])).ok(), Some(LogsCommand::Tail(80)));
    assert_eq!(parse_logs_command(&words(&["tail", "5"])).ok(), Some(LogsCommand::Tail(5)));
    assert!(matches!(
        parse_logs_command(&words(&["tail", "x"])),
        Err(CliError::Invalid(m)) if m == "Line count must be a whole number."
    ));
    assert!(matches!(parse_diagnostics_command(&words(&["export"])), Ok(DiagnosticsCommand::Export(None))));
    assert!(matches!(parse_diagnostics_command(&words(&["export", "d"])), Ok(DiagnosticsCommand::Export(Some(d))) if d == "d"));
    assert!(matches!(parse_diagnostics_command(&words(&["import"])), Err(CliError::Usage(Usage::Diagnostics))));
    assert_eq!(parse_eventlog_command(&words(&["status"])).ok(), Some(EventLogCommand::Status));
    assert_eq!(parse_service_command(&words(&["delete"])).ok(), Some(ServiceCommand::Uninstall));
    assert_eq!(parse_service_command(&words(&["plan"])).ok(), Some(ServiceCommand::Plan));
}

#[test]
fn startup_commands() {
    assert_eq!(
        parse_startup_command(&words(&["install"])).ok(),
        Some(StartupCommand::Install { start_minimized: true })
    );
    assert_eq!(
        parse_startup_command(&words(&["install", "--minimized", "--normal"])).ok(),
        Some(StartupCommand::Install { start_minimized: false })
    );
    assert!(matches!(
        parse_startup_command(&words(&["install", "--hidden"])),
        Err(CliError::Failed(m)) if m == "Usage: hyperx-mic-lite startup install [--minimized|--normal]"
    ));
    assert_eq!(startup_install_minimized(&words(&["--normal"])), Ok(false));
    assert_eq!(startup_command("C:\\a b\\mic.exe", true), "\"C:\\a b\\mic.exe\" gui --start-minimized");
    assert_eq!(startup_command("mic.exe", false), "\"mic.exe\" gui");
}

#[test]
fn audio_commands() {
    assert_eq!(
        parse_audio_command(&words(&["volume", "Headphones", "40"])).ok(),
        Some(AudioCommand::Volume(AudioClassControl::Headphone, 40))
    );
    assert_eq!(
        parse_audio_command(&words(&["mute", "mic", "off"])).ok(),
        Some(AudioCommand::Mute(AudioClassControl::Mic, false))
    );
    assert!(matches!(
        parse_audio_command(&words(&["volume", "speaker", "40"])),
        Err(CliError::InvalidWithUsage(m, Usage::Audio)) if m == "Unknown audio control 'speaker'."
    ));
    assert!(matches!(
        parse_audio_command(&words(&["volume", "mic", "400"])),
        Err(CliError::Invalid(m)) if m == "Percent must be a number from 0 to 100."
    ));
    assert!(matches!(parse_audio_command(&words(&["volume", "mic"])), Err(CliError::Usage(Usage::Audio))));
    assert_eq!(parse_audio_command(&words(&["topology", "output"])).ok(), Some(AudioCommand::Topology(Flow::Render)));
    assert!(matches!(parse_audio_command(&words(&["topology", "x"])), Err(CliError::Usage(Usage::Audio))));
}

#[test]
fn volume_gui_and_monitor_arguments() {
    assert_eq!(parse_volume_args(&words(&["75"])).ok(), Some(75));
    assert!(matches!(
        parse_volume_args(&words(&["101"])),
        Err(CliError::Invalid(m)) if m == "Volume must be a number from 0 to 100."
    ));
    assert!(matches!(
        parse_volume_args(&words(&[])),
        Err(CliError::Invalid(m)) if m == "Usage: hyperx-mic-lite volume 75"
    ));
    assert_eq!(parse_gui_args(&words(&[])).ok(), Some(false));
    assert_eq!(parse_gui_args(&words(&["--minimized"])).ok(), Some(true));
    assert!(parse_gui_args(&words(&["--fullscreen"])).is_err());
    assert_eq!(parse_monitor_seconds(Monitor::Hid, &words(&[])).ok(), Some(15));
    assert_eq!(parse_monitor_seconds(Monitor::Level, &words(&["999"])).ok(), Some(120));
    assert!(matches!(
        parse_monitor_seconds(Monitor::Level, &words(&["1", "2"])),
        Err(CliError::Invalid(m)) if m == "Usage: hyperx-mic-lite level-monitor [seconds]"
    ));
}

#[test]
fn lighting_command_lines() {
    let solid = parse_lighting_solid_args(&words(&["#00ff00", "--verbose-hid", "90"])).ok().unwrap();
    assert_eq!(solid.color, [0, 255, 0]);
    assert_eq!(solid.seconds, 60);
    assert!(solid.packet_log);
    assert!(matches!(
        parse_lighting_solid_args(&words(&["zz0000"])),
        Err(CliError::Invalid(m)) if m == "Color must contain only hex digits."
    ));
    assert!(parse_lighting_solid_args(&words(&["--packet-log"])).is_err());
    let effect = parse_lighting_effect_args(&words(&["pulse"])).ok().unwrap();
    assert_eq!(effect.effect, Effect::Pulse);
    assert_eq!(effect.duration, StreamDuration::Forever);
    assert!(!effect.packet_log);
    let effect = parse_lighting_effect_args(&words(&["nonsense", "10"])).ok().unwrap();
    assert_eq!(effect.effect, Effect::Wave);
    assert_eq!(effect.duration, StreamDuration::Timed(10));
    let vu = parse_lighting_vu_test_args(&words(&["50"])).ok().unwrap();
    assert_eq!((vu.level, vu.seconds, vu.packet_log), (50, 2, false));
    assert!(matches!(
        parse_lighting_vu_test_args(&words(&["150"])),
        Err(CliError::Invalid(m)) if m == "Level must be a whole number from 0 to 100."
    ));
    assert_eq!(parse_lighting_save_args(&words(&["--packet-log"])).ok(), Some(true));
    assert!(parse_lighting_save_args(&words(&["now"])).is_err());
}

#[test]
fn log_tail() {
    assert_eq!(tail_start(10), 0);
    assert_eq!(tail_start(70000), 70000 - 65536);
    let text = "one\r\ntwo\nthree\n";
    assert_eq!(text_lines(text).len(), 3);
    assert_eq!(tail_lines(text, 2), vec!["two".to_string(), "three".to_string()]);
    assert_eq!(tail_lines(text, 10), vec!["one".to_string(), "two".to_string(), "three".to_string()]);
    assert_eq!(tail_lines("a\n\nb", 5), vec!["a".to_string(), String::new(), "b".to_string()]);
    assert!(tail_lines("", 3).is_empty());
    assert_eq!(tail_lines("\n", 3), vec![String::new()]);
    assert_eq!(tail_lines("x\r", 1), vec!["x\r".to_string()]);
    assert_eq!(tail_lines("x\r\ny", 1), vec!["y".to_string()]);
    assert_eq!(line_count_arg(None), Ok(80));
    assert_eq!(line_count_arg(Some("12")), Ok(12));
}
