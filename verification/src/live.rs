//! Decisions of a live transcription session: the authenticated address,
//! how a refused connection is reported, when a recording counts as silence,
//! and when the transcript is final. The network itself is driven by the
//! application.
use vstd::prelude::*;
use crate::protocol::{is_ready, Transcript, FINAL_TIMEOUT_NANOS};
use crate::text::{decimal, push_decimal, push_str};

verus! {

/// The Gemini Live endpoint.
pub const ENDPOINT: &'static str = "wss://generativelanguage.googleapis.com/ws/google.ai.generativelanguage.v1beta.GenerativeService.BidiGenerateContent";

/// The URL that the `url` crate serializes after parsing `endpoint` and
/// appending the query pair `name=value` (form-urlencoded); `None` when
/// `endpoint` does not parse as a URL.
pub uninterp spec fn url_with_pair(endpoint: Seq<char>, name: Seq<char>, value: Seq<char>) -> Option<
    Seq<char>,
>;

/// `url::Url::parse(endpoint)`, then `query_pairs_mut().append_pair(name,
/// value)`, serialized. The contract names the result (`url_with_pair`); it
/// does not restate the URL standard or the form-urlencoded escaping.
#[verifier::external_body]
fn append_query_pair(endpoint: &str, name: &str, value: &str) -> (r: Option<String>)
    ensures
        match url_with_pair(endpoint@, name@, value@) {
            Some(u) => r matches Some(s) && s@ == u,
            None => r is None,
        },
{
    match url::Url::parse(endpoint) {
        Ok(mut url) => {
            url.query_pairs_mut().append_pair(name, value);
            Some(String::from(url))
        },
        Err(_) => None,
    }
}

/// The address of a session authenticated by `key`: the endpoint with the
/// query pair `key=<key>`, the key escaped by the `url` crate.
pub fn session_url(key: &str) -> (r: Option<String>)
    ensures
        match url_with_pair(ENDPOINT@, "key"@, key@) {
            Some(u) => r matches Some(s) && s@ == u,
            None => r is None,
        },
{
    append_query_pair(ENDPOINT, "key", key)
}

/// Why the connection to Gemini failed. The message never includes the URL,
/// which carries the API key.
#[derive(Clone, Copy, Debug, PartialEq, Eq, Structural)]
pub enum ConnectError {
    /// The server answered the handshake with this HTTP status.
    Rejected { status: u16 },
    /// No answer: network, DNS or TLS failure.
    Unreachable,
}

/// The connection error for a failed handshake: the HTTP status when the
/// server answered with one.
pub fn connect_error(http_status: Option<u16>) -> (e: ConnectError)
    ensures
        match http_status {
            Some(s) => e == ConnectError::Rejected { status: s },
            None => e == ConnectError::Unreachable,
        },
{
    match http_status {
        Some(status) => ConnectError::Rejected { status },
        None => ConnectError::Unreachable,
    }
}

impl ConnectError {
    /// The message shown to the user.
    pub fn message(&self) -> (s: String)
        ensures
            s@ == match self {
                ConnectError::Rejected { status } => "Gemini rejected the connection (HTTP "@
                    + decimal(*status as nat)
                    + "). Check your API key and model access."@,
                ConnectError::Unreachable => "Cannot connect to Gemini; check network and API access"@,
            },
    {
        match self {
            ConnectError::Rejected { status } => {
                let mut s = String::from_str("Gemini rejected the connection (HTTP ");
                push_decimal(&mut s, *status as u64);
                push_str(&mut s, "). Check your API key and model access.");
                s
            },
            ConnectError::Unreachable => String::from_str(
                "Cannot connect to Gemini; check network and API access",
            ),
        }
    }
}

/// Whether a finished recording ends as silence without waiting for Gemini:
/// when no audio was sent at all, or when the local detector found the
/// signal clearly silent and Gemini has produced no text yet. Ambiguous or
/// quiet audio always waits for Gemini.
pub fn ends_in_silence(has_audio: bool, clearly_silent: bool, has_text: bool) -> (b: bool)
    ensures
        b == (!has_audio || (clearly_silent && !has_text)),
{
    !has_audio || (clearly_silent && !has_text)
}

/// What to do while waiting for the final transcript.
#[derive(Clone, Copy, Debug, PartialEq, Eq, Structural)]
pub enum FinalStep {
    /// The transcript is final: finish it and close the connection.
    Ready,
    /// The wait is over: finish whatever arrived.
    TimedOut,
    /// Keep reading messages.
    Wait,
}

/// The next step at `now` for a recording that stopped at `stopped_at`
/// (nanoseconds since the session started): ready first, then the timeout
/// of `FINAL_TIMEOUT_NANOS` after the stop.
pub fn final_step(transcript: &Transcript, now: u128, stopped_at: u128) -> (s: FinalStep)
    ensures
        is_ready(transcript@, now as nat, stopped_at as nat) ==> s == FinalStep::Ready,
        !is_ready(transcript@, now as nat, stopped_at as nat) && now >= stopped_at
            + FINAL_TIMEOUT_NANOS ==> s == FinalStep::TimedOut,
        !is_ready(transcript@, now as nat, stopped_at as nat) && now < stopped_at
            + FINAL_TIMEOUT_NANOS ==> s == FinalStep::Wait,
{
    if transcript.ready(now, stopped_at) {
        FinalStep::Ready
    } else if now >= stopped_at && now - stopped_at >= FINAL_TIMEOUT_NANOS {
        FinalStep::TimedOut
    } else {
        FinalStep::Wait
    }
}

} // verus!
