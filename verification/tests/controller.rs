use ai_dikte::controller::{format_result, Action, Command, Controller, Event, Outcome, Phase, Status};

#[test]
fn ordinary_errors_that_mention_transcription_are_not_reclassified() {
    assert_eq!(
        format_result(&Outcome::Failed("upstream returned no transcription metadata".into())),
        "Error: upstream returned no transcription metadata"
    );
}

#[test]
fn outcome_reports() {
    assert_eq!(format_result(&Outcome::Ready), "Ready");
    assert_eq!(format_result(&Outcome::NoSpeech), "No speech detected");
    assert_eq!(Status::Recording.text(), "Recording — Win+Z to stop");
    assert_eq!(Status::Finishing.text(), "Finishing transcription…");
    assert_eq!(Status::StillFinishing.text(), "Still finishing; wait for Ready");
    assert_eq!(Status::ConfigError("bad".into()).text(), "Error: bad");
}

fn reports(actions: &[Action]) -> Vec<String> {
    actions
        .iter()
        .filter_map(|a| match a {
            Action::Report(s) => Some(s.text()),
            _ => None,
        })
        .collect()
}

#[test]
fn toggle_records_then_finishes() {
    let mut c = Controller::new();
    let a = c.handle(Event::Command(Command::Toggle));
    assert!(matches!(a.as_slice(), [Action::LoadConfig]));
    let a = c.handle(Event::ConfigLoaded);
    assert!(matches!(a.as_slice(), [Action::StartRecording, Action::Report(Status::Recording)]));
    assert_eq!(c.current(), Phase::Recording);
    let a = c.handle(Event::Command(Command::Toggle));
    assert!(matches!(a.as_slice(), [Action::SendStop, Action::Report(Status::Finishing)]));
    let a = c.handle(Event::Command(Command::Toggle));
    assert_eq!(reports(&a), ["Still finishing; wait for Ready"]);
    assert_eq!(c.current(), Phase::Finishing);
    let a = c.handle(Event::Ended(Outcome::Ready));
    assert_eq!(reports(&a), ["Ready"]);
    assert_eq!(c.current(), Phase::Idle);
}

#[test]
fn quit_awaits_cleanup_without_success_feedback() {
    for finishing in [false, true] {
        let mut c = Controller::new();
        c.handle(Event::Command(Command::Toggle));
        c.handle(Event::ConfigLoaded);
        if finishing {
            c.handle(Event::Command(Command::Toggle));
        }
        let a = c.handle(Event::Command(Command::Quit));
        assert!(matches!(a.as_slice(), [Action::Cancel]));
        assert_eq!(c.current(), Phase::Cancelling);
        assert!(c.handle(Event::Command(Command::Toggle)).is_empty());
        let a = c.handle(Event::Ended(Outcome::Ready));
        assert!(matches!(a.as_slice(), [Action::Exit]));
        assert_eq!(c.current(), Phase::Stopped);
    }
}

#[test]
fn cancelled_failure_is_reported_before_exit() {
    let mut c = Controller::new();
    c.handle(Event::Command(Command::Toggle));
    c.handle(Event::ConfigLoaded);
    c.handle(Event::Closed);
    let a = c.handle(Event::Ended(Outcome::Failed("capture failed".into())));
    assert_eq!(reports(&a), ["Error: capture failed"]);
    assert!(matches!(a.last(), Some(Action::Exit)));
}

#[test]
fn config_errors_return_to_idle() {
    let mut c = Controller::new();
    c.handle(Event::Command(Command::Toggle));
    let a = c.handle(Event::ConfigFailed("Cannot read configuration; run setup first".into()));
    assert_eq!(reports(&a), ["Error: Cannot read configuration; run setup first"]);
    assert_eq!(c.current(), Phase::Idle);
    let a = c.handle(Event::Command(Command::Quit));
    assert!(matches!(a.as_slice(), [Action::Exit]));
}
