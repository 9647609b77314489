//! The single owner of hotkey events. A recording is started, stopped or
//! cancelled only here; finishing never starts a new recording, and quitting
//! waits for capture cleanup without reporting success.
use vstd::prelude::*;
use crate::text::push_str;

verus! {

/// A request from the hotkey or the service manager.
#[derive(Clone, Copy, Debug, PartialEq, Eq, Structural)]
pub enum Command {
    /// Start a recording, or stop the one in progress.
    Toggle,
    /// Shut down, cancelling any recording.
    Quit,
}

/// How a recording session ended.
#[derive(Debug)]
pub enum Outcome {
    /// The transcript was typed.
    Ready,
    /// Nothing was said; nothing was typed.
    NoSpeech,
    /// The session failed; the message never holds audio, text or the key.
    Failed(String),
}

/// The report line for a finished session.
pub open spec fn outcome_text(o: &Outcome) -> Seq<char> {
    match o {
        Outcome::Ready => "Ready"@,
        Outcome::NoSpeech => "No speech detected"@,
        Outcome::Failed(m) => "Error: "@ + m@,
    }
}

/// The report line for a finished session (see `outcome_text`).
pub fn format_result(outcome: &Outcome) -> (s: String)
    ensures
        s@ == outcome_text(outcome),
{
    match outcome {
        Outcome::Ready => String::from_str("Ready"),
        Outcome::NoSpeech => String::from_str("No speech detected"),
        Outcome::Failed(m) => {
            let mut s = String::from_str("Error: ");
            push_str(&mut s, m.as_str());
            s
        },
    }
}

/// A status report for the user.
#[derive(Debug)]
pub enum Status {
    /// A recording started.
    Recording,
    /// Recording stopped; Gemini is finalizing the text.
    Finishing,
    /// A toggle arrived while finishing; it was ignored.
    StillFinishing,
    /// A session ended.
    Done(Outcome),
    /// The settings could not be loaded; the message says why.
    ConfigError(String),
}

/// The text of a status report.
pub open spec fn status_text(s: &Status) -> Seq<char> {
    match s {
        Status::Recording => "Recording — Win+Z to stop"@,
        Status::Finishing => "Finishing transcription…"@,
        Status::StillFinishing => "Still finishing; wait for Ready"@,
        Status::Done(o) => outcome_text(o),
        Status::ConfigError(m) => "Error: "@ + m@,
    }
}

impl Status {
    /// The text of the report (see `status_text`).
    pub fn text(&self) -> (s: String)
        ensures
            s@ == status_text(self),
    {
        match self {
            Status::Recording => String::from_str("Recording — Win+Z to stop"),
            Status::Finishing => String::from_str("Finishing transcription…"),
            Status::StillFinishing => String::from_str("Still finishing; wait for Ready"),
            Status::Done(o) => format_result(o),
            Status::ConfigError(m) => {
                let mut s = String::from_str("Error: ");
                push_str(&mut s, m.as_str());
                s
            },
        }
    }
}

/// Where the controller is.
#[derive(Clone, Copy, Debug, PartialEq, Eq, Structural)]
pub enum Phase {
    /// Waiting for a command.
    Idle,
    /// Loading the settings for a new recording.
    Loading,
    /// Recording audio.
    Recording,
    /// Recording stopped; waiting for the transcript.
    Finishing,
    /// Quitting; waiting for the cancelled session to release the microphone.
    Cancelling,
    /// Shut down.
    Stopped,
}

/// Something that happened.
#[derive(Debug)]
pub enum Event {
    /// A command arrived.
    Command(Command),
    /// The command queue was closed.
    Closed,
    /// The settings loaded.
    ConfigLoaded,
    /// The settings could not be loaded; the message says why.
    ConfigFailed(String),
    /// The recording session ended.
    Ended(Outcome),
}

/// Something the caller must do.
#[derive(Debug)]
pub enum Action {
    /// Load the settings; answer with `ConfigLoaded` or `ConfigFailed`.
    LoadConfig,
    /// Start a recording session with the loaded settings.
    StartRecording,
    /// Ask the session to stop recording and finish the transcript.
    SendStop,
    /// Cancel the session: stop capture, type nothing; then await its end.
    Cancel,
    /// Show a status report.
    Report(Status),
    /// Leave the command loop.
    Exit,
}

/// Whether an event asks the controller to shut down.
pub open spec fn is_quit(e: &Event) -> bool {
    match e {
        Event::Command(Command::Quit) => true,
        Event::Closed => true,
        _ => false,
    }
}

/// The controller's transition: the next phase and the actions to perform.
pub open spec fn step(p: Phase, e: Event) -> (Phase, Seq<Action>) {
    match p {
        Phase::Idle => match e {
            Event::Command(Command::Toggle) => (Phase::Loading, seq![Action::LoadConfig]),
            Event::Command(Command::Quit) => (Phase::Stopped, seq![Action::Exit]),
            Event::Closed => (Phase::Stopped, seq![Action::Exit]),
            _ => (Phase::Idle, Seq::empty()),
        },
        Phase::Loading => match e {
            Event::ConfigLoaded => (
                Phase::Recording,
                seq![Action::StartRecording, Action::Report(Status::Recording)],
            ),
            Event::ConfigFailed(m) => (Phase::Idle, seq![Action::Report(Status::ConfigError(m))]),
            _ => (Phase::Loading, Seq::empty()),
        },
        Phase::Recording => match e {
            Event::Command(Command::Toggle) => (
                Phase::Finishing,
                seq![Action::SendStop, Action::Report(Status::Finishing)],
            ),
            Event::Command(Command::Quit) => (Phase::Cancelling, seq![Action::Cancel]),
            Event::Closed => (Phase::Cancelling, seq![Action::Cancel]),
            Event::Ended(o) => (Phase::Idle, seq![Action::Report(Status::Done(o))]),
            _ => (Phase::Recording, Seq::empty()),
        },
        Phase::Finishing => match e {
            Event::Command(Command::Toggle) => (
                Phase::Finishing,
                seq![Action::Report(Status::StillFinishing)],
            ),
            Event::Command(Command::Quit) => (Phase::Cancelling, seq![Action::Cancel]),
            Event::Closed => (Phase::Cancelling, seq![Action::Cancel]),
            Event::Ended(o) => (Phase::Idle, seq![Action::Report(Status::Done(o))]),
            _ => (Phase::Finishing, Seq::empty()),
        },
        Phase::Cancelling => match e {
            Event::Ended(Outcome::Ready) => (Phase::Stopped, seq![Action::Exit]),
            Event::Ended(o) => (
                Phase::Stopped,
                seq![Action::Report(Status::Done(o)), Action::Exit],
            ),
            _ => (Phase::Cancelling, Seq::empty()),
        },
        Phase::Stopped => (Phase::Stopped, Seq::empty()),
    }
}

/// The state machine that serializes recording commands.
pub struct Controller {
    phase: Phase,
}

impl Controller {
    /// A controller waiting for its first command.
    pub fn new() -> (c: Controller)
        ensures
            c.phase() == Phase::Idle,
    {
        Controller { phase: Phase::Idle }
    }

    /// The current phase.
    pub closed spec fn phase(&self) -> Phase {
        self.phase
    }

    /// The current phase.
    pub fn current(&self) -> (p: Phase)
        ensures
            p == self.phase(),
    {
        self.phase
    }

    /// Handles one event (see `step`), returning the actions to perform in order.
    pub fn handle(&mut self, event: Event) -> (actions: Vec<Action>)
        ensures
            (final(self).phase(), actions@) == step(old(self).phase(), event),
    {
        let (next, actions) = match self.phase {
            Phase::Idle => match event {
                Event::Command(Command::Toggle) => (Phase::Loading, vec![Action::LoadConfig]),
                Event::Command(Command::Quit) => (Phase::Stopped, vec![Action::Exit]),
                Event::Closed => (Phase::Stopped, vec![Action::Exit]),
                _ => (Phase::Idle, Vec::new()),
            },
            Phase::Loading => match event {
                Event::ConfigLoaded => (
                    Phase::Recording,
                    vec![Action::StartRecording, Action::Report(Status::Recording)],
                ),
                Event::ConfigFailed(m) => (
                    Phase::Idle,
                    vec![Action::Report(Status::ConfigError(m))],
                ),
                _ => (Phase::Loading, Vec::new()),
            },
            Phase::Recording => match event {
                Event::Command(Command::Toggle) => (
                    Phase::Finishing,
                    vec![Action::SendStop, Action::Report(Status::Finishing)],
                ),
                Event::Command(Command::Quit) => (Phase::Cancelling, vec![Action::Cancel]),
                Event::Closed => (Phase::Cancelling, vec![Action::Cancel]),
                Event::Ended(o) => (Phase::Idle, vec![Action::Report(Status::Done(o))]),
                _ => (Phase::Recording, Vec::new()),
            },
            Phase::Finishing => match event {
                Event::Command(Command::Toggle) => (
                    Phase::Finishing,
                    vec![Action::Report(Status::StillFinishing)],
                ),
                Event::Command(Command::Quit) => (Phase::Cancelling, vec![Action::Cancel]),
                Event::Closed => (Phase::Cancelling, vec![Action::Cancel]),
                Event::Ended(o) => (Phase::Idle, vec![Action::Report(Status::Done(o))]),
                _ => (Phase::Finishing, Vec::new()),
            },
            Phase::Cancelling => match event {
                Event::Ended(Outcome::Ready) => (Phase::Stopped, vec![Action::Exit]),
                Event::Ended(o) => (
                    Phase::Stopped,
                    vec![Action::Report(Status::Done(o)), Action::Exit],
                ),
                _ => (Phase::Cancelling, Vec::new()),
            },
            Phase::Stopped => (Phase::Stopped, Vec::new()),
        };
        self.phase = next;
        actions
    }
}

/// Whether an action starts a recording.
pub open spec fn starts_recording(a: Action) -> bool {
    a matches Action::StartRecording
}

/// Law: finishing never starts a new recording; whatever arrives while the
/// transcript is finishing, no recording starts and none is running after.
pub proof fn law_finishing_never_starts_recording(e: Event)
    ensures
        forall|i: int| 0 <= i < step(Phase::Finishing, e).1.len() ==> !starts_recording(
            #[trigger] step(Phase::Finishing, e).1[i],
        ),
        step(Phase::Finishing, e).0 != Phase::Recording,
{
}

/// Law: a recording starts only once the settings loaded, and only then.
pub proof fn law_recording_starts_only_after_loading(p: Phase, e: Event)
    ensures
        (exists|i: int| 0 <= i < step(p, e).1.len() && starts_recording(#[trigger] step(p, e).1[i]))
            <==> (p == Phase::Loading && e is ConfigLoaded),
{
    if p == Phase::Loading && e is ConfigLoaded {
        assert(starts_recording(step(p, e).1[0]));
    }
}

/// Law: quitting during a recording or while finishing cancels the session
/// and leaves only after the session ended, without a success report.
pub proof fn law_quit_cancels_and_awaits_cleanup(p: Phase, e: Event, o: Outcome)
    requires
        p == Phase::Recording || p == Phase::Finishing,
        is_quit(&e),
    ensures
        step(p, e).0 == Phase::Cancelling,
        step(p, e).1 == seq![Action::Cancel],
        step(Phase::Cancelling, Event::Command(Command::Toggle)).0 == Phase::Cancelling,
        step(Phase::Cancelling, Event::Command(Command::Quit)).0 == Phase::Cancelling,
        step(Phase::Cancelling, Event::Ended(Outcome::Ready)) == (
            Phase::Stopped,
            seq![Action::Exit],
        ),
        step(Phase::Cancelling, Event::Ended(o)).0 == Phase::Stopped,
{
}

/// Law: the controller leaves its loop only by an `Exit`, and only when idle
/// or once a cancelled session has ended.
pub proof fn law_exit_only_when_safe(p: Phase, e: Event)
    ensures
        step(p, e).0 == Phase::Stopped && p != Phase::Stopped ==> (p == Phase::Idle || (p
            == Phase::Cancelling && e is Ended)),
{
}

/// Law: every session end that reaches the controller while recording or
/// finishing is reported, once, with its outcome, and the controller is
/// idle again: a success, silence and a failure alike.
pub proof fn law_session_end_is_reported(p: Phase, o: Outcome)
    requires
        p == Phase::Recording || p == Phase::Finishing,
    ensures
        step(p, Event::Ended(o)).0 == Phase::Idle,
        step(p, Event::Ended(o)).1.len() == 1,
        step(p, Event::Ended(o)).1[0] == Action::Report(Status::Done(o)),
{
}

/// Law: when idle, a quit request or a closed command queue ends the
/// controller at once, with exactly one action, `Exit`; a toggle asks for
/// the settings and nothing else; any other event changes nothing.
pub proof fn law_idle_answers(e: Event)
    ensures
        (e matches Event::Command(Command::Quit) || e is Closed) ==> step(Phase::Idle, e).0
            == Phase::Stopped && step(Phase::Idle, e).1.len() == 1 && step(Phase::Idle, e).1[0]
            == Action::Exit,
        e matches Event::Command(Command::Toggle) ==> step(Phase::Idle, e).0 == Phase::Loading
            && step(Phase::Idle, e).1.len() == 1 && step(Phase::Idle, e).1[0] == Action::LoadConfig,
        (e is ConfigLoaded || e is ConfigFailed || e is Ended) ==> step(Phase::Idle, e).0
            == Phase::Idle && step(Phase::Idle, e).1.len() == 0,
{
}

/// Law: once the settings load, recording starts and is reported; when they
/// fail, the failure is reported with its message and the controller is
/// idle again, with nothing started.
pub proof fn law_loading_answers(m: String)
    ensures
        step(Phase::Loading, Event::ConfigLoaded).0 == Phase::Recording,
        step(Phase::Loading, Event::ConfigLoaded).1 == seq![
            Action::StartRecording,
            Action::Report(Status::Recording),
        ],
        step(Phase::Loading, Event::ConfigFailed(m)).0 == Phase::Idle,
        step(Phase::Loading, Event::ConfigFailed(m)).1 == seq![
            Action::Report(Status::ConfigError(m)),
        ],
{
}

/// Law: the second Win+Z stops the recording and says that the transcript is
/// being finished; a further Win+Z while finishing only says to wait, and
/// never stops, cancels or starts anything.
pub proof fn law_toggle_stops_then_waits()
    ensures
        step(Phase::Recording, Event::Command(Command::Toggle)).0 == Phase::Finishing,
        step(Phase::Recording, Event::Command(Command::Toggle)).1 == seq![
            Action::SendStop,
            Action::Report(Status::Finishing),
        ],
        step(Phase::Finishing, Event::Command(Command::Toggle)).0 == Phase::Finishing,
        step(Phase::Finishing, Event::Command(Command::Toggle)).1 == seq![
            Action::Report(Status::StillFinishing),
        ],
{
}

/// Law: a cancelled session's end closes the controller; a failure or
/// silence is still reported before `Exit`, a success is not.
pub proof fn law_cancelled_end_exits(o: Outcome)
    ensures
        step(Phase::Cancelling, Event::Ended(o)).0 == Phase::Stopped,
        o is Ready ==> step(Phase::Cancelling, Event::Ended(o)).1 == seq![Action::Exit],
        !(o is Ready) ==> step(Phase::Cancelling, Event::Ended(o)).1 == seq![
            Action::Report(Status::Done(o)),
            Action::Exit,
        ],
{
}

/// Law: a stopped controller stays stopped and does nothing more.
pub proof fn law_stopped_is_final(e: Event)
    ensures
        step(Phase::Stopped, e).0 == Phase::Stopped,
        step(Phase::Stopped, e).1.len() == 0,
{
}

/// Law: the user reads every outcome: `Ready`, `No speech detected`, or the
/// failure's own message behind `Error: `, never a message left out.
pub proof fn law_outcomes_read_as_reported(m: String)
    ensures
        outcome_text(&Outcome::Ready) == "Ready"@,
        outcome_text(&Outcome::NoSpeech) == "No speech detected"@,
        outcome_text(&Outcome::Failed(m)) == "Error: "@ + m@,
        outcome_text(&Outcome::Failed(m)).len() == 7 + m@.len(),
        outcome_text(&Outcome::Failed(m)).skip(7) == m@,
{
    assert(("Error: "@ + m@).skip(7) =~= m@) by {
        reveal_strlit("Error: ");
    }
    reveal_strlit("Error: ");
}

} // verus!
