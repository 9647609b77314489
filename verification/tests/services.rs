use ai_dikte::background::{
    running, set_startup, start, startup_enabled, startup_verb, stop, BackgroundError, LockProbe,
    SERVICE,
};
use ai_dikte::config::{Config, Mode, Notifications};
use ai_dikte::controller::Command;
use ai_dikte::daemon::{decode_request, runtime_dir_secure, should_notify, toggle_accepted, ACCEPTED, TOGGLE_REQUEST};
use ai_dikte::diagnostics::{config_report, ConfigReport, MAX_LOG_BYTES, is_executable, log_line, report_text, required_programs, rotate_log};

#[test]
fn lock_probe_decides_whether_the_daemon_runs() {
    assert!(!running(LockProbe::Missing).unwrap());
    assert!(!running(LockProbe::Acquired).unwrap());
    assert!(running(LockProbe::Held).unwrap());
    let error = running(LockProbe::Failed("Permission denied".into())).unwrap_err();
    assert_eq!(error.message(), "Permission denied");
}

#[test]
fn service_manager_answers() {
    assert!(start(true).is_ok());
    assert_eq!(
        start(false).unwrap_err().message(),
        "Cannot start user service; check systemctl --user status ai-dikte.service"
    );
    assert!(stop(true).is_ok());
    assert_eq!(
        stop(false).unwrap_err().message(),
        "Cannot stop user service; check systemctl --user status ai-dikte.service"
    );
    assert!(set_startup(true).is_ok());
    assert!(matches!(set_startup(false), Err(BackgroundError::Startup)));
    assert_eq!(startup_verb(true), "enable");
    assert_eq!(startup_verb(false), "disable");
    assert_eq!(SERVICE, "ai-dikte.service");
}

#[test]
fn startup_state_from_is_enabled_output() {
    assert!(startup_enabled("enabled\n").unwrap());
    assert!(startup_enabled(" enabled-runtime ").unwrap());
    assert!(!startup_enabled("disabled\n").unwrap());
    let error = startup_enabled("masked\n").unwrap_err();
    assert_eq!(
        error.message(),
        "Cannot manage startup (service state: masked); install the user service first"
    );
}

#[test]
fn control_protocol_bytes() {
    assert_eq!(TOGGLE_REQUEST, b'T');
    assert_eq!(ACCEPTED, b'K');
    assert_eq!(decode_request(b'T'), Some(Command::Toggle));
    assert_eq!(decode_request(b'Q'), None);
    assert!(toggle_accepted(b'K'));
    assert!(!toggle_accepted(b'N'));
}

#[test]
fn runtime_directory_must_be_private() {
    assert!(runtime_dir_secure(true, 1000, 1000, 0o700));
    assert!(!runtime_dir_secure(true, 1000, 1000, 0o777));
    assert!(!runtime_dir_secure(true, 1000, 1000, 0o710));
    assert!(!runtime_dir_secure(true, 0, 1000, 0o700));
    assert!(!runtime_dir_secure(false, 1000, 1000, 0o700));
}

#[test]
fn notifications_always_include_errors() {
    assert!(should_notify(Notifications::All, "Ready"));
    assert!(!should_notify(Notifications::Quiet, "Ready"));
    assert!(should_notify(Notifications::Quiet, "Error: no network"));
}

#[test]
fn diagnostics_rules() {
    assert!(!rotate_log(None));
    assert!(!rotate_log(Some(MAX_LOG_BYTES)));
    assert!(rotate_log(Some(MAX_LOG_BYTES + 1)));
    assert_eq!(log_line(1700000000, "Ready"), "1700000000: Ready");
    assert_eq!(log_line(0, ""), "0: ");
    assert_eq!(required_programs("wtype", false), ["pw-record", "notify-send", "wtype"]);
    assert_eq!(required_programs("kwtype", true), ["pw-record", "notify-send", "kwtype", "pw-play"]);
    assert!(is_executable(true, 0o755));
    assert!(is_executable(true, 0o100));
    assert!(!is_executable(true, 0o644));
    assert!(!is_executable(false, 0o755));
}

#[test]
fn report_lists_settings_without_the_key() {
    let loaded = ConfigReport::Loaded {
        language: "tr-TR".to_string(),
        mode: Mode::Verbatim,
        key_configured: true,
    };
    assert_eq!(
        report_text("0.1.0", "linux", &loaded, "Ok(\"wtype\")"),
        "AI Dikte 0.1.0\nPlatform: linux\nModel: gemini-3.5-transcribe-live\n\
         Language: tr-TR / Verbatim\nAPI key: configured\nTyping backend: Ok(\"wtype\")\n\
         Live API, microphone and target window have not been tested by this report."
    );
    let missing = ConfigReport::Unavailable("Cannot read configuration; run setup first".into());
    let text = report_text("0.1.0", "linux", &missing, "Err(Unsupported desktop)");
    assert!(text.contains("\nConfiguration: Cannot read configuration; run setup first\n"));
    assert!(!text.contains("API key"));
}

#[test]
fn report_is_the_same_for_any_stored_key() {
    let with_key = |key: &str| Config { api_key: Some(key.to_string()), ..Config::default() };
    let a = report_text("0.1.0", "linux", &config_report(with_key("secret-one")), "Ok(\"kwtype\")");
    let b = report_text("0.1.0", "linux", &config_report(with_key(" other ")), "Ok(\"kwtype\")");
    assert_eq!(a, b);
    assert!(a.contains("\nAPI key: configured\n"));
    assert!(!a.contains("secret-one"));
    let blank = report_text("0.1.0", "linux", &config_report(with_key("  ")), "Ok(\"kwtype\")");
    assert!(blank.contains("\nAPI key: unavailable\n"));
    assert!(blank.contains("\nLanguage: tr-TR / Smart\n"));
}
