//! Decisions of one dictation: which ending of capture and transcription
//! yields text to type. Nothing is typed unless stop came first and both the
//! recorder and the transcription succeeded.
use vstd::prelude::*;

verus! {

/// How the capture and the transcription of a recording ended, in the order
/// the session saw it.
pub enum Finished<E> {
    /// Stop was requested first; the recorder and the transcription then
    /// both ran to their end.
    Stopped { recorded: Result<(), E>, text: Result<String, E> },
    /// The transcription ended while the recording was still active.
    TranscriptionFirst(Result<String, E>),
    /// The recorder ended before stop was requested.
    RecorderFirst(Result<(), E>),
}

/// Why a recording yields no text.
pub enum SessionError<E> {
    /// The recorder or the transcription failed.
    Failed(E),
    /// The transcription ended before stop was requested.
    TranscriptionEndedEarly,
    /// The recorder ended before stop was requested.
    RecorderEndedEarly,
}

/// The outcome of a recording: the transcript after a clean stop; otherwise
/// the first failure, the recorder's before the transcription's.
pub open spec fn collected_spec<E>(f: Finished<E>) -> Result<String, SessionError<E>> {
    match f {
        Finished::Stopped { recorded, text } => match recorded {
            Err(e) => Err(SessionError::Failed(e)),
            Ok(()) => match text {
                Ok(t) => Ok(t),
                Err(e) => Err(SessionError::Failed(e)),
            },
        },
        Finished::TranscriptionFirst(text) => match text {
            Err(e) => Err(SessionError::Failed(e)),
            Ok(_) => Err(SessionError::TranscriptionEndedEarly),
        },
        Finished::RecorderFirst(recorded) => match recorded {
            Err(e) => Err(SessionError::Failed(e)),
            Ok(()) => Err(SessionError::RecorderEndedEarly),
        },
    }
}

/// The outcome of a recording (see `collected_spec`).
pub fn collected<E>(finished: Finished<E>) -> (r: Result<String, SessionError<E>>)
    ensures
        r == collected_spec(finished),
{
    match finished {
        Finished::Stopped { recorded, text } => match recorded {
            Err(e) => Err(SessionError::Failed(e)),
            Ok(()) => match text {
                Ok(t) => Ok(t),
                Err(e) => Err(SessionError::Failed(e)),
            },
        },
        Finished::TranscriptionFirst(text) => match text {
            Err(e) => Err(SessionError::Failed(e)),
            Ok(_) => Err(SessionError::TranscriptionEndedEarly),
        },
        Finished::RecorderFirst(recorded) => match recorded {
            Err(e) => Err(SessionError::Failed(e)),
            Ok(()) => Err(SessionError::RecorderEndedEarly),
        },
    }
}

impl<E> SessionError<E> {
    /// The message of an early ending; `None` for a failure, which carries
    /// its own.
    pub fn early_message(&self) -> (m: Option<String>)
        ensures
            match self {
                SessionError::Failed(_) => m.is_none(),
                SessionError::TranscriptionEndedEarly => m matches Some(s) && s@
                    == "Transcription ended while recording was active"@,
                SessionError::RecorderEndedEarly => m matches Some(s) && s@
                    == "Recorder ended before stop was requested"@,
            },
    {
        match self {
            SessionError::Failed(_) => None,
            SessionError::TranscriptionEndedEarly => Some(
                String::from_str("Transcription ended while recording was active"),
            ),
            SessionError::RecorderEndedEarly => Some(
                String::from_str("Recorder ended before stop was requested"),
            ),
        }
    }
}

/// Law: text is typed only after a clean stop. A recording yields text
/// exactly when stop was requested first and both the recorder and the
/// transcription succeeded, and then the text is the transcript.
pub proof fn law_text_only_after_clean_stop<E>(f: Finished<E>, t: String)
    ensures
        collected_spec(f) == Ok::<String, SessionError<E>>(t) <==> f == (Finished::Stopped::<E> {
            recorded: Ok(()),
            text: Ok(t),
        }),
{
    match f {
        Finished::Stopped { recorded, text } => match recorded {
            Ok(u) => {
                assert(u == ());
            },
            Err(_) => {},
        },
        _ => {},
    }
}

/// Law: a failure is never lost. When the recorder failed, its failure is
/// the outcome, whatever the transcription gave; when the transcription
/// failed, its failure is the outcome unless the recorder failed first;
/// an early ending without failure is reported as early, never as text.
pub proof fn law_failures_are_reported<E>(recorded: Result<(), E>, text: Result<String, E>)
    ensures
        recorded matches Err(e) ==> collected_spec(Finished::Stopped { recorded, text })
            == Err::<String, SessionError<E>>(SessionError::Failed(e)),
        recorded is Ok ==> (text matches Err(e) ==> collected_spec(
            Finished::Stopped { recorded, text },
        ) == Err::<String, SessionError<E>>(SessionError::Failed(e))),
        text matches Err(e) ==> collected_spec(Finished::TranscriptionFirst(text)) == Err::<
            String,
            SessionError<E>,
        >(SessionError::Failed(e)),
        text is Ok ==> collected_spec(Finished::TranscriptionFirst(text)) == Err::<
            String,
            SessionError<E>,
        >(SessionError::TranscriptionEndedEarly),
        recorded matches Err(e) ==> collected_spec(Finished::<E>::RecorderFirst(recorded)) == Err::<
            String,
            SessionError<E>,
        >(SessionError::Failed(e)),
        recorded is Ok ==> collected_spec(Finished::<E>::RecorderFirst(recorded)) == Err::<
            String,
            SessionError<E>,
        >(SessionError::RecorderEndedEarly),
{
}

} // verus!
