//! Rules of the local diagnostics: the session log, the configuration
//! report and the programs a Linux desktop session needs.
use vstd::prelude::*;
use crate::config::{Config, Mode};
use crate::protocol::MODEL;
use crate::text::{decimal, push_decimal, push_str, trim};

verus! {

/// The session log is started afresh once it grows beyond this size.
pub const MAX_LOG_BYTES: u64 = 131072;

/// Whether the next log line starts a fresh log: only when the log exists
/// and is larger than `MAX_LOG_BYTES`.
pub fn rotate_log(size: Option<u64>) -> (b: bool)
    ensures
        b == (size matches Some(n) && n > MAX_LOG_BYTES),
{
    match size {
        Some(n) => n > MAX_LOG_BYTES,
        None => false,
    }
}

/// One session-log line: seconds since the Unix epoch, a colon, the report.
pub fn log_line(seconds: u64, message: &str) -> (s: String)
    ensures
        s@ == decimal(seconds as nat) + ": "@ + message@,
{
    let mut s = String::new();
    push_decimal(&mut s, seconds);
    push_str(&mut s, ": ");
    push_str(&mut s, message);
    s
}

/// The programs a Linux session needs: the recorder, the notifier and the
/// typing backend, and the player when audio cues are on.
pub fn required_programs(driver: &str, audio_cue: bool) -> (v: Vec<String>)
    ensures
        v.deep_view() == if audio_cue {
            seq!["pw-record"@, "notify-send"@, driver@, "pw-play"@]
        } else {
            seq!["pw-record"@, "notify-send"@, driver@]
        },
{
    let mut v: Vec<String> = Vec::new();
    v.push(String::from_str("pw-record"));
    v.push(String::from_str("notify-send"));
    v.push(String::from_str(driver));
    if audio_cue {
        v.push(String::from_str("pw-play"));
    }
    assert(v.deep_view() =~= if audio_cue {
        seq!["pw-record"@, "notify-send"@, driver@, "pw-play"@]
    } else {
        seq!["pw-record"@, "notify-send"@, driver@]
    });
    v
}

/// Whether a file found on `PATH` can be run: a regular file with an
/// execute bit set.
pub fn is_executable(is_file: bool, mode: u32) -> (b: bool)
    ensures
        b == (is_file && mode & 0o111 != 0),
{
    is_file && mode & 0o111 != 0
}

/// What the configuration report says about the settings.
pub enum ConfigReport {
    /// The settings loaded: the spoken language, the mode, and whether an
    /// API key is stored.
    Loaded { language: String, mode: Mode, key_configured: bool },
    /// The settings could not be loaded; the message says why.
    Unavailable(String),
}

/// Whether settings hold an API key (see `Config::key`).
pub open spec fn key_present(c: Config) -> bool {
    c.api_key matches Some(k) && trim(k@).len() > 0
}

/// What the report says about loaded settings: their language and mode,
/// and only whether a key is stored, never the key.
pub open spec fn config_report_of(c: Config) -> ConfigReport {
    ConfigReport::Loaded { language: c.language, mode: c.mode, key_configured: key_present(c) }
}

/// What the report says about loaded settings (see `config_report_of`).
pub fn config_report(c: Config) -> (r: ConfigReport)
    ensures
        r == config_report_of(c),
{
    let key_configured = c.key().is_ok();
    ConfigReport::Loaded { language: c.language, mode: c.mode, key_configured }
}

/// The name of a mode as the report shows it.
pub open spec fn mode_label(m: Mode) -> Seq<char> {
    match m {
        Mode::Smart => "Smart"@,
        Mode::Verbatim => "Verbatim"@,
    }
}

/// The lines about the settings.
pub open spec fn config_lines(config: ConfigReport) -> Seq<char> {
    match config {
        ConfigReport::Loaded { language, mode, key_configured } => "Language: "@ + language@
            + " / "@ + mode_label(mode) + "\n"@ + if key_configured {
            "API key: configured"@
        } else {
            "API key: unavailable"@
        },
        ConfigReport::Unavailable(m) => "Configuration: "@ + m@,
    }
}

/// The configuration report: release, platform, model, the settings, the
/// typing backend, and a reminder of what the report does not test. It
/// never shows the API key.
pub open spec fn report_spec(
    version: Seq<char>,
    platform: Seq<char>,
    config: ConfigReport,
    backend: Seq<char>,
) -> Seq<char> {
    "AI Dikte "@ + version + "\nPlatform: "@ + platform + "\nModel: "@ + MODEL@ + "\n"@
        + config_lines(config) + "\nTyping backend: "@ + backend
        + "\nLive API, microphone and target window have not been tested by this report."@
}

/// The configuration report (see `report_spec`).
pub fn report_text(version: &str, platform: &str, config: &ConfigReport, backend: &str) -> (s:
    String)
    ensures
        s@ == report_spec(version@, platform@, *config, backend@),
{
    let mut s = String::from_str("AI Dikte ");
    push_str(&mut s, version);
    push_str(&mut s, "\nPlatform: ");
    push_str(&mut s, platform);
    push_str(&mut s, "\nModel: ");
    push_str(&mut s, MODEL);
    push_str(&mut s, "\n");
    match config {
        ConfigReport::Loaded { language, mode, key_configured } => {
            push_str(&mut s, "Language: ");
            push_str(&mut s, language.as_str());
            push_str(&mut s, " / ");
            match mode {
                Mode::Smart => push_str(&mut s, "Smart"),
                Mode::Verbatim => push_str(&mut s, "Verbatim"),
            }
            push_str(&mut s, "\n");
            if *key_configured {
                push_str(&mut s, "API key: configured");
            } else {
                push_str(&mut s, "API key: unavailable");
            }
        },
        ConfigReport::Unavailable(m) => {
            push_str(&mut s, "Configuration: ");
            push_str(&mut s, m.as_str());
        },
    }
    push_str(&mut s, "\nTyping backend: ");
    push_str(&mut s, backend);
    push_str(
        &mut s,
        "\nLive API, microphone and target window have not been tested by this report.",
    );
    assert(s@ =~= report_spec(version@, platform@, *config, backend@));
    s
}

/// Law: the report does not depend on the API key. Two settings that differ
/// only in their stored keys, both set or both missing, give the same
/// report text, which says only whether a key is configured.
pub proof fn law_report_ignores_the_key(
    version: Seq<char>,
    platform: Seq<char>,
    c1: Config,
    c2: Config,
    backend: Seq<char>,
)
    requires
        c1.language == c2.language,
        c1.mode == c2.mode,
        key_present(c1) == key_present(c2),
    ensures
        report_spec(version, platform, config_report_of(c1), backend) == report_spec(
            version,
            platform,
            config_report_of(c2),
            backend,
        ),
{
}

} // verus!
