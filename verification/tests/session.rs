use ai_dikte::config::{Config, ConfigError};
use ai_dikte::live::{
    connect_error, ends_in_silence, final_step, session_url, ConnectError, FinalStep, ENDPOINT,
};
use ai_dikte::protocol::{ServerMessage, Transcript, FINAL_TIMEOUT_NANOS, SETTLE_NANOS};
use ai_dikte::session::{collected, Finished, SessionError};
use ai_dikte::settings::{
    keyed_config, EntryAction, EntryEvent, KeyEntry, SettingsError, VerifiedKey,
};

#[test]
fn refused_connection_never_shows_the_url() {
    let rejected = connect_error(Some(403));
    assert_eq!(rejected, ConnectError::Rejected { status: 403 });
    assert_eq!(
        rejected.message(),
        "Gemini rejected the connection (HTTP 403). Check your API key and model access."
    );
    assert_eq!(
        connect_error(None).message(),
        "Cannot connect to Gemini; check network and API access"
    );
}

#[test]
fn silence_decision_is_conservative() {
    assert!(ends_in_silence(false, false, true));
    assert!(ends_in_silence(true, true, false));
    assert!(!ends_in_silence(true, true, true));
    assert!(!ends_in_silence(true, false, false));
}

#[test]
fn finalization_waits_then_times_out() {
    let mut t = Transcript::default();
    let stopped = 1_000;
    assert_eq!(final_step(&t, stopped, stopped), FinalStep::Wait);
    assert_eq!(final_step(&t, stopped + FINAL_TIMEOUT_NANOS, stopped), FinalStep::TimedOut);
    t.receive(
        &ServerMessage { final_text: Some("tamam".into()), ..ServerMessage::default() },
        stopped,
    )
    .unwrap();
    assert_eq!(final_step(&t, stopped + SETTLE_NANOS - 1, stopped), FinalStep::Wait);
    assert_eq!(final_step(&t, stopped + SETTLE_NANOS, stopped), FinalStep::Ready);
}

#[test]
fn key_is_verified_only_after_the_live_check() {
    let config = Config { language: " en-US ".into(), ..Config::default() };
    let candidate = VerifiedKey::prepare(config.clone(), "  new-key \n").unwrap();
    assert_eq!(candidate.key(), "new-key");
    assert_eq!(candidate.config().language, "en-US");
    let refused = VerifiedKey::verify(candidate, Err("Gemini rejected the connection".into()));
    assert!(matches!(refused, Err(SettingsError::Rejected(ref m)) if m == "Gemini rejected the connection"));
    let candidate = VerifiedKey::prepare(config.clone(), "new-key").unwrap();
    let key = VerifiedKey::verify(candidate, Ok(())).unwrap();
    assert_eq!(key.as_str(), "new-key");
    let saved = keyed_config(Config { api_key: Some("old-key".into()), ..config }, key).unwrap();
    assert_eq!(saved.key().unwrap(), "new-key");
    assert_eq!(saved.language, "en-US");
}

#[test]
fn empty_keys_and_invalid_settings_are_refused() {
    let empty = VerifiedKey::prepare(Config::default(), "   ");
    assert!(matches!(empty, Err(SettingsError::EmptyKey)));
    assert_eq!(SettingsError::EmptyKey.message(), "Enter a Google AI API key");
    let bad = VerifiedKey::prepare(Config { language: "".into(), ..Config::default() }, "k");
    assert!(matches!(bad, Err(SettingsError::Config(ConfigError::EmptyLanguage))));
}

#[test]
fn session_address_carries_the_escaped_key() {
    assert_eq!(
        session_url("test-only").unwrap(),
        format!("{ENDPOINT}?key=test-only")
    );
    assert_eq!(
        session_url("a b&c=d/é").unwrap(),
        format!("{ENDPOINT}?key=a+b%26c%3Dd%2F%C3%A9")
    );
}

#[test]
fn text_is_returned_only_after_a_clean_stop() {
    let ok = collected::<String>(Finished::Stopped { recorded: Ok(()), text: Ok("Evet.".into()) });
    assert!(matches!(ok, Ok(t) if t == "Evet."));
    let r = collected(Finished::Stopped { recorded: Err("mic".to_string()), text: Ok("x".into()) });
    assert!(matches!(r, Err(SessionError::Failed(e)) if e == "mic"));
    let r = collected(Finished::Stopped { recorded: Ok(()), text: Err("net".to_string()) });
    assert!(matches!(r, Err(SessionError::Failed(e)) if e == "net"));
    let r = collected::<String>(Finished::TranscriptionFirst(Ok("partial".into())));
    assert!(matches!(r, Err(SessionError::TranscriptionEndedEarly)));
    let r = collected(Finished::TranscriptionFirst(Err("net".to_string())));
    assert!(matches!(r, Err(SessionError::Failed(e)) if e == "net"));
    let r = collected::<String>(Finished::RecorderFirst(Ok(())));
    assert!(matches!(r, Err(SessionError::RecorderEndedEarly)));
    let r = collected(Finished::RecorderFirst(Err("device disconnected".to_string())));
    assert!(matches!(r, Err(SessionError::Failed(e)) if e == "device disconnected"));
    let early = SessionError::<String>::TranscriptionEndedEarly.early_message();
    assert_eq!(early.as_deref(), Some("Transcription ended while recording was active"));
    let early = SessionError::<String>::RecorderEndedEarly.early_message();
    assert_eq!(early.as_deref(), Some("Recorder ended before stop was requested"));
    assert_eq!(SessionError::Failed("x".to_string()).early_message(), None);
}

#[test]
fn key_entry_saves_only_the_first_accepted_key() {
    let mut entry = KeyEntry::new(Config::default());
    assert!(matches!(
        entry.step(EntryEvent::Typed(Some("  \n".into()))),
        EntryAction::Ask(Some(SettingsError::EmptyKey))
    ));
    assert!(matches!(entry.step(EntryEvent::Typed(Some(" bad\n".into()))), EntryAction::Check));
    assert_eq!(entry.pending().unwrap().key(), "bad");
    assert!(matches!(
        entry.step(EntryEvent::Checked(Err("HTTP 403".into()))),
        EntryAction::Ask(Some(SettingsError::Rejected(m))) if m == "HTTP 403"
    ));
    assert!(entry.pending().is_none());
    assert!(matches!(entry.step(EntryEvent::Typed(Some(" good \n".into()))), EntryAction::Check));
    match entry.step(EntryEvent::Checked(Ok(()))) {
        EntryAction::Save(c) => {
            assert_eq!(c.api_key.as_deref(), Some("good"));
            assert_eq!(c.language, "tr-TR");
        }
        _ => panic!("expected settings to save"),
    }
    assert!(matches!(entry.step(EntryEvent::Checked(Ok(()))), EntryAction::Ignore));
    assert!(matches!(entry.step(EntryEvent::Typed(Some("x".into()))), EntryAction::Ignore));
}

#[test]
fn key_entry_fails_when_input_ends() {
    let mut entry = KeyEntry::new(Config::default());
    assert!(matches!(
        entry.step(EntryEvent::Typed(None)),
        EntryAction::Fail(SettingsError::InputClosed)
    ));
    assert_eq!(
        SettingsError::InputClosed.message(),
        "Input closed before an API key was entered"
    );
    let mut blank = KeyEntry::new(Config { language: " ".into(), ..Config::default() });
    assert!(matches!(
        blank.step(EntryEvent::Typed(Some("key".into()))),
        EntryAction::Fail(SettingsError::Config(ConfigError::EmptyLanguage))
    ));
}
