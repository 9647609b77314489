//! The Gemini Live wire contract and the transcript reducer; independent of
//! devices and user interface.
use vstd::prelude::*;
use base64::Engine;
use crate::config::{Config, Mode};
use crate::text::{
    contains, join, join_strings, push_char, push_signed_decimal, push_str, signed_decimal,
    starts_with, trim, trim_str,
};

verus! {

/// The Gemini model that transcribes live audio.
pub const MODEL: &'static str = "gemini-3.5-transcribe-live";

/// Sample rate of the audio sent to Gemini, in Hz.
pub const RATE: u32 = 16000;

/// Quiet time after the last transcript change before the text is final, in nanoseconds.
pub const SETTLE_NANOS: u128 = 500_000_000;

/// Longest wait for the final transcript after recording stops, in nanoseconds.
pub const FINAL_TIMEOUT_NANOS: u128 = 10_000_000_000;

/// What the dictation tool reads from one server message. Each field is the
/// value at the named JSON path, when present with the named JSON type.
pub struct ServerMessage {
    /// `error` is present; with its integer `code` when it has one.
    pub error: Option<Option<i64>>,
    /// `serverContent.inputTranscription.text`: committed text.
    pub final_text: Option<String>,
    /// `serverContent.interimInputTranscription.text`: text still changing.
    pub interim_text: Option<String>,
    /// `serverContent.turnComplete`.
    pub turn_complete: Option<bool>,
    /// `setupComplete` is present; whether it is a JSON object.
    pub setup_complete: Option<bool>,
}

impl Default for ServerMessage {
    fn default() -> (m: ServerMessage)
        ensures
            m.error.is_none(),
            m.final_text.is_none(),
            m.interim_text.is_none(),
            m.turn_complete.is_none(),
            m.setup_complete.is_none(),
    {
        ServerMessage {
            error: None,
            final_text: None,
            interim_text: None,
            turn_complete: None,
            setup_complete: None,
        }
    }
}

/// Why the wire contract refuses a message, some audio or a transcript.
#[derive(Clone, Copy, Debug, PartialEq, Eq, Structural)]
pub enum ProtocolError {
    /// Gemini reported an error; only its numeric code is kept, because the
    /// server text can echo request credentials.
    Rejected { code: i64 },
    /// Audio that is empty or ends inside a 16-bit sample.
    IncompletePcm,
    /// Text was still changing when the transcript had to be final.
    Incomplete,
    /// Gemini committed no text.
    NoTranscription,
    /// `setupComplete` was present but not an object.
    InvalidSetupAcknowledgement,
    /// The recording held no speech; nothing is typed.
    NoSpeech,
}

/// The message shown for a protocol error.
pub open spec fn error_message(e: ProtocolError) -> Seq<char> {
    match e {
        ProtocolError::Rejected { code } => "Gemini rejected the request (code "@ + signed_decimal(
            code as int,
        ) + "). Check API key, quota and model access."@,
        ProtocolError::IncompletePcm => "Audio must contain complete signed 16-bit PCM samples"@,
        ProtocolError::Incomplete => "Transcription is incomplete; text was not typed"@,
        ProtocolError::NoTranscription => "Gemini returned no transcription"@,
        ProtocolError::InvalidSetupAcknowledgement => "Gemini returned an invalid setup acknowledgement"@,
        ProtocolError::NoSpeech => "No speech detected"@,
    }
}

impl ProtocolError {
    /// The message shown to the user.
    pub fn message(&self) -> (s: String)
        ensures
            s@ == error_message(*self),
    {
        match self {
            ProtocolError::Rejected { code } => {
                let mut s = String::from_str("Gemini rejected the request (code ");
                push_signed_decimal(&mut s, *code);
                push_str(&mut s, "). Check API key, quota and model access.");
                s
            },
            ProtocolError::IncompletePcm => String::from_str(
                "Audio must contain complete signed 16-bit PCM samples",
            ),
            ProtocolError::Incomplete => String::from_str(
                "Transcription is incomplete; text was not typed",
            ),
            ProtocolError::NoTranscription => String::from_str("Gemini returned no transcription"),
            ProtocolError::InvalidSetupAcknowledgement => String::from_str(
                "Gemini returned an invalid setup acknowledgement",
            ),
            ProtocolError::NoSpeech => String::from_str("No speech detected"),
        }
    }

    /// Whether this is the no-speech outcome rather than a failure.
    pub fn is_no_speech(&self) -> (b: bool)
        ensures
            b == (*self == ProtocolError::NoSpeech),
    {
        matches!(self, ProtocolError::NoSpeech)
    }
}

/// The error that a server message carries, if any.
pub open spec fn message_error(m: &ServerMessage) -> Option<ProtocolError> {
    match m.error {
        Some(code) => Some(
            ProtocolError::Rejected {
                code: match code {
                    Some(c) => c,
                    None => 0,
                },
            },
        ),
        None => None,
    }
}

/// Refuses a message that reports an error, keeping only its code.
pub fn check_error(message: &ServerMessage) -> (r: Result<(), ProtocolError>)
    ensures
        match message_error(message) {
            Some(e) => r == Err::<(), ProtocolError>(e),
            None => r is Ok,
        },
{
    match message.error {
        Some(code) => {
            let code = match code {
                Some(c) => c,
                None => 0,
            };
            Err(ProtocolError::Rejected { code })
        },
        None => Ok(()),
    }
}

/// Reading a message while waiting for the setup acknowledgement: `true`
/// once setup is complete, `false` to keep waiting.
pub fn setup_acknowledged(message: &ServerMessage) -> (r: Result<bool, ProtocolError>)
    ensures
        match message_error(message) {
            Some(e) => r == Err::<bool, ProtocolError>(e),
            None => match message.setup_complete {
                Some(true) => r == Ok::<bool, ProtocolError>(true),
                Some(false) => r == Err::<bool, ProtocolError>(
                    ProtocolError::InvalidSetupAcknowledgement,
                ),
                None => r == Ok::<bool, ProtocolError>(false),
            },
        },
{
    check_error(message)?;
    match message.setup_complete {
        Some(true) => Ok(true),
        Some(false) => Err(ProtocolError::InvalidSetupAcknowledgement),
        None => Ok(false),
    }
}

// ---------------------------------------------------------------------------
// Outgoing messages

/// A string as a JSON string literal, as `serde_json` writes it: `"` and `\`
/// escaped, the short escapes for backspace, tab, line feed, form feed and
/// carriage return, `\u00xx` (lower-case hex) for the other control
/// characters below U+0020, every other character as it is.
pub open spec fn json_quoted(s: Seq<char>) -> Seq<char> {
    seq!['"'] + json_escaped(s) + seq!['"']
}

/// The escaped contents of a JSON string literal.
pub open spec fn json_escaped(s: Seq<char>) -> Seq<char>
    decreases s.len(),
{
    if s.len() == 0 {
        Seq::empty()
    } else {
        json_escaped(s.drop_last()) + json_char(s.last())
    }
}

/// The hexadecimal digit for `d` in `0..16`, lower case.
pub open spec fn hex_digit(d: nat) -> char {
    if d < 10 {
        (48 + d) as char
    } else {
        (87 + d) as char
    }
}

/// One character inside a JSON string literal.
pub open spec fn json_char(c: char) -> Seq<char> {
    let x = c as u32;
    if c == '"' {
        seq!['\\', '"']
    } else if c == '\\' {
        seq!['\\', '\\']
    } else if x == 0x08 {
        seq!['\\', 'b']
    } else if x == 0x09 {
        seq!['\\', 't']
    } else if x == 0x0a {
        seq!['\\', 'n']
    } else if x == 0x0c {
        seq!['\\', 'f']
    } else if x == 0x0d {
        seq!['\\', 'r']
    } else if x < 0x20 {
        seq!['\\', 'u', '0', '0', hex_digit((x / 16) as nat), hex_digit((x % 16) as nat)]
    } else {
        seq![c]
    }
}

/// A string as a JSON string literal (`serde_json::to_string` of a `&str`,
/// which cannot fail: it writes into a growable buffer).
#[verifier::external_body]
fn json_string(s: &str) -> (r: String)
    ensures
        r@ == json_quoted(s@),
{
    serde_json::to_string(s).unwrap_or_default()
}

/// A JSON array of strings.
pub open spec fn json_string_list(items: Seq<Seq<char>>) -> Seq<char> {
    seq!['['] + join(items.map_values(|t: Seq<char>| json_quoted(t)), seq![',']) + seq![']']
}

/// The wire name of a transcription mode.
pub open spec fn mode_name(m: Mode) -> Seq<char> {
    match m {
        Mode::Smart => "SMART"@,
        Mode::Verbatim => "VERBATIM"@,
    }
}

/// The session setup message for a configuration: the transcription model,
/// text responses, manual activity detection, and the spoken language, mode
/// and (when there is one) custom vocabulary. Keys are in sorted order.
pub open spec fn setup_text(c: &Config) -> Seq<char> {
    "{\"setup\":{\"generationConfig\":{\"responseModalities\":[\"TEXT\"]},\"inputAudioTranscription\":{"@
        + (if c.custom_vocabulary.len() > 0 {
        "\"customVocabulary\":"@ + json_string_list(c.custom_vocabulary.deep_view()) + ","@
    } else {
        Seq::empty()
    }) + "\"languageCodes\":["@ + json_quoted(c.language@) + "],\"mode\":\""@ + mode_name(c.mode)
        + "\"},\"model\":\"models/gemini-3.5-transcribe-live\",\"realtimeInputConfig\":{\"automaticActivityDetection\":{\"disabled\":true}}}}"@
}

/// Appends the JSON array of the given strings.
fn push_json_string_list(s: &mut String, items: &Vec<String>)
    ensures
        final(s)@ == old(s)@ + json_string_list(items.deep_view()),
{
    let ghost start = s@;
    let ghost d = items.deep_view();
    let ghost q = d.map_values(|t: Seq<char>| json_quoted(t));
    push_char(s, '[');
    let mut i: usize = 0;
    while i < items.len()
        invariant
            i <= items.len(),
            d == items.deep_view(),
            q == d.map_values(|t: Seq<char>| json_quoted(t)),
            s@ == start + seq!['['] + join(q.take(i as int), seq![',']),
        decreases items.len() - i,
    {
        assert(d[i as int] == items[i as int]@);
        if i > 0 {
            push_char(s, ',');
        }
        let quoted = json_string(items[i].as_str());
        push_str(s, quoted.as_str());
        proof {
            assert(q.take(i + 1).drop_last() =~= q.take(i as int));
            if i == 0 {
                assert(join(q.take(0), seq![',']) =~= Seq::empty());
            }
            assert(s@ =~= start + seq!['['] + join(q.take(i + 1), seq![',']));
        }
        i = i + 1;
    }
    assert(q.take(items.len() as int) =~= q);
    push_char(s, ']');
    assert(s@ =~= start + json_string_list(d));
}

/// The session setup message for a configuration (see `setup_text`).
pub fn setup(config: &Config) -> (r: String)
    ensures
        r@ == setup_text(config),
{
    let mut s = String::new();
    push_str(
        &mut s,
        "{\"setup\":{\"generationConfig\":{\"responseModalities\":[\"TEXT\"]},\"inputAudioTranscription\":{",
    );
    let ghost head = s@;
    if config.custom_vocabulary.len() > 0 {
        push_str(&mut s, "\"customVocabulary\":");
        push_json_string_list(&mut s, &config.custom_vocabulary);
        push_str(&mut s, ",");
    }
    push_str(&mut s, "\"languageCodes\":[");
    let language = json_string(config.language.as_str());
    push_str(&mut s, language.as_str());
    push_str(&mut s, "],\"mode\":\"");
    match config.mode {
        Mode::Smart => push_str(&mut s, "SMART"),
        Mode::Verbatim => push_str(&mut s, "VERBATIM"),
    }
    push_str(
        &mut s,
        "\"},\"model\":\"models/gemini-3.5-transcribe-live\",\"realtimeInputConfig\":{\"automaticActivityDetection\":{\"disabled\":true}}}}",
    );
    assert(s@ =~= setup_text(config));
    s
}

/// The base64 digit (standard alphabet) for `v` in `0..64`.
pub open spec fn base64_digit(v: int) -> char {
    if v < 26 {
        (65 + v) as char
    } else if v < 52 {
        (71 + v) as char
    } else if v < 62 {
        (v - 4) as char
    } else if v == 62 {
        '+'
    } else {
        '/'
    }
}

/// Standard base64 (RFC 4648, alphabet `A-Z a-z 0-9 + /`, `=` padding).
pub open spec fn base64_encoded(b: Seq<u8>) -> Seq<char>
    decreases b.len(),
{
    if b.len() == 0 {
        Seq::empty()
    } else {
        let x0 = b[0] as int;
        let x1 = if b.len() > 1 { b[1] as int } else { 0 };
        let x2 = if b.len() > 2 { b[2] as int } else { 0 };
        let c0 = base64_digit(x0 / 4);
        let c1 = base64_digit((x0 % 4) * 16 + x1 / 16);
        let c2 = base64_digit((x1 % 16) * 4 + x2 / 64);
        let c3 = base64_digit(x2 % 64);
        if b.len() == 1 {
            seq![c0, c1, '=', '=']
        } else if b.len() == 2 {
            seq![c0, c1, c2, '=']
        } else {
            seq![c0, c1, c2, c3] + base64_encoded(b.skip(3))
        }
    }
}

/// The value of a standard base64 digit.
pub open spec fn base64_value(c: char) -> int {
    if 'A' <= c <= 'Z' {
        c as int - 65
    } else if 'a' <= c <= 'z' {
        c as int - 71
    } else if '0' <= c <= '9' {
        c as int + 4
    } else if c == '+' {
        62
    } else {
        63
    }
}

/// Padded standard base64 text decoded, four digits at a time; `=` ends
/// the text.
pub open spec fn base64_decoded(s: Seq<char>) -> Seq<u8>
    decreases s.len(),
{
    if s.len() < 4 {
        Seq::empty()
    } else {
        let v0 = base64_value(s[0]);
        let v1 = base64_value(s[1]);
        let v2 = base64_value(s[2]);
        let v3 = base64_value(s[3]);
        let b0 = (v0 * 4 + v1 / 16) as u8;
        let b1 = ((v1 % 16) * 16 + v2 / 4) as u8;
        let b2 = ((v2 % 4) * 64 + v3) as u8;
        if s[2] == '=' {
            seq![b0]
        } else if s[3] == '=' {
            seq![b0, b1]
        } else {
            seq![b0, b1, b2] + base64_decoded(s.skip(4))
        }
    }
}

proof fn lemma_base64_digit(v: int)
    requires
        0 <= v < 64,
    ensures
        base64_value(base64_digit(v)) == v,
        base64_digit(v) != '=',
{
}

proof fn lemma_base64_group(x0: int, x1: int, x2: int)
    requires
        0 <= x0 < 256,
        0 <= x1 < 256,
        0 <= x2 < 256,
    ensures
        ({
            let v0 = x0 / 4;
            let v1 = (x0 % 4) * 16 + x1 / 16;
            let v2 = (x1 % 16) * 4 + x2 / 64;
            let v3 = x2 % 64;
            &&& 0 <= v0 < 64 && 0 <= v1 < 64 && 0 <= v2 < 64 && 0 <= v3 < 64
            &&& v0 * 4 + v1 / 16 == x0
            &&& (v1 % 16) * 16 + v2 / 4 == x1
            &&& (v2 % 4) * 64 + v3 == x2
        }),
{
    let q1 = x1 / 16;
    let q2 = x2 / 64;
    assert(x0 == (x0 / 4) * 4 + x0 % 4);
    assert(x1 == q1 * 16 + x1 % 16);
    assert(x2 == q2 * 64 + x2 % 64);
    assert(((x0 % 4) * 16 + q1) / 16 == x0 % 4);
    assert(((x0 % 4) * 16 + q1) % 16 == q1);
    assert(((x1 % 16) * 4 + q2) / 4 == x1 % 16);
    assert(((x1 % 16) * 4 + q2) % 4 == q2);
}

/// Law: decoding the base64 of some bytes gives the bytes back, so the
/// audio message carries exactly the recorded samples.
pub proof fn law_base64_round_trip(b: Seq<u8>)
    ensures
        base64_decoded(base64_encoded(b)) == b,
    decreases b.len(),
{
    if b.len() > 0 {
        let x0 = b[0] as int;
        let x1 = if b.len() > 1 { b[1] as int } else { 0 };
        let x2 = if b.len() > 2 { b[2] as int } else { 0 };
        lemma_base64_group(x0, x1, x2);
        let v0 = x0 / 4;
        let v1 = (x0 % 4) * 16 + x1 / 16;
        let v2 = (x1 % 16) * 4 + x2 / 64;
        let v3 = x2 % 64;
        lemma_base64_digit(v0);
        lemma_base64_digit(v1);
        lemma_base64_digit(v2);
        lemma_base64_digit(v3);
        let s = base64_encoded(b);
        if b.len() == 1 {
            assert(s == seq![base64_digit(v0), base64_digit(v1), '=', '=']);
            assert(base64_decoded(s) =~= b);
        } else if b.len() == 2 {
            assert(s == seq![base64_digit(v0), base64_digit(v1), base64_digit(v2), '=']);
            assert(base64_decoded(s) =~= b);
        } else {
            let rest = base64_encoded(b.skip(3));
            law_base64_round_trip(b.skip(3));
            assert(s == seq![base64_digit(v0), base64_digit(v1), base64_digit(v2), base64_digit(v3)]
                + rest);
            assert(s.skip(4) =~= rest);
            assert(base64_decoded(s) == seq![x0 as u8, x1 as u8, x2 as u8] + b.skip(3));
            assert(seq![x0 as u8, x1 as u8, x2 as u8] + b.skip(3) =~= b);
        }
    }
}

/// Standard padded base64 of the bytes (the `base64` crate's `STANDARD` engine).
#[verifier::external_body]
fn base64_standard(bytes: &[u8]) -> (r: String)
    ensures
        r@ == base64_encoded(bytes@),
{
    base64::engine::general_purpose::STANDARD.encode(bytes)
}

/// The message that carries one chunk of 16 kHz signed 16-bit PCM audio.
pub open spec fn audio_text(bytes: Seq<u8>) -> Seq<char> {
    "{\"realtimeInput\":{\"audio\":{\"data\":\""@ + base64_encoded(bytes)
        + "\",\"mimeType\":\"audio/pcm;rate=16000\"}}}"@
}

/// The audio message for a chunk; refused unless the chunk holds at least
/// one whole 16-bit sample and no partial one.
pub fn audio(bytes: &[u8]) -> (r: Result<String, ProtocolError>)
    ensures
        bytes@.len() == 0 || bytes@.len() % 2 == 1 ==> r == Err::<String, ProtocolError>(
            ProtocolError::IncompletePcm,
        ),
        bytes@.len() > 0 && bytes@.len() % 2 == 0 ==> (r matches Ok(s) && s@ == audio_text(bytes@)),
{
    if bytes.len() == 0 || bytes.len() % 2 == 1 {
        return Err(ProtocolError::IncompletePcm);
    }
    let mut s = String::from_str("{\"realtimeInput\":{\"audio\":{\"data\":\"");
    let data = base64_standard(bytes);
    push_str(&mut s, data.as_str());
    push_str(&mut s, "\",\"mimeType\":\"audio/pcm;rate=16000\"}}}");
    Ok(s)
}

/// The message that opens a turn of speech.
pub fn activity_start() -> (s: String)
    ensures
        s@ == "{\"realtimeInput\":{\"activityStart\":{}}}"@,
{
    String::from_str("{\"realtimeInput\":{\"activityStart\":{}}}")
}

/// The message that closes a turn of speech.
pub fn activity_end() -> (s: String)
    ensures
        s@ == "{\"realtimeInput\":{\"activityEnd\":{}}}"@,
{
    String::from_str("{\"realtimeInput\":{\"activityEnd\":{}}}")
}

// ---------------------------------------------------------------------------
// Transcript reducer

/// The abstract state of a transcript.
pub struct TranscriptState {
    /// Committed text segments, in arrival order; repeats are kept.
    pub segments: Seq<Seq<char>>,
    /// Some interim text has not yet been committed.
    pub pending_interim: bool,
    /// Gemini marked the turn complete.
    pub complete: bool,
    /// Time of the last change, in nanoseconds since the session started.
    pub last_update: nat,
}

/// The committed text of a message, trimmed (empty when absent).
pub open spec fn final_part(m: &ServerMessage) -> Seq<char> {
    match m.final_text {
        Some(t) => trim(t@),
        None => Seq::empty(),
    }
}

/// The interim text of a message, trimmed (empty when absent).
pub open spec fn interim_part(m: &ServerMessage) -> Seq<char> {
    match m.interim_text {
        Some(t) => trim(t@),
        None => Seq::empty(),
    }
}

/// The transcript after an error-free message arrives at time `now`: a
/// non-empty final segment is appended and settles any interim text; a
/// non-empty interim marks text as pending; `turnComplete: true` completes
/// the turn. Each of these moves the last-update time to `now`.
pub open spec fn received(t: TranscriptState, m: &ServerMessage, now: nat) -> TranscriptState {
    let f = final_part(m);
    let i = interim_part(m);
    let t1 = if f.len() > 0 {
        TranscriptState { segments: t.segments.push(f), pending_interim: false, last_update: now, ..t }
    } else {
        t
    };
    let t2 = if i.len() > 0 {
        TranscriptState { pending_interim: true, last_update: now, ..t1 }
    } else {
        t1
    };
    if m.turn_complete == Some(true) {
        TranscriptState { complete: true, last_update: now, ..t2 }
    } else {
        t2
    }
}

/// The transcript is final at `now` when no interim text is pending, there
/// is something to report (a completed turn or committed text), and
/// `SETTLE_NANOS` have passed since both the last change and the stop.
pub open spec fn is_ready(t: TranscriptState, now: nat, stopped_at: nat) -> bool {
    let since = if t.last_update >= stopped_at { t.last_update } else { stopped_at };
    &&& !t.pending_interim
    &&& (t.complete || t.segments.len() > 0)
    &&& now >= since + SETTLE_NANOS
}

/// The text a transcript yields: its segments joined by single spaces;
/// refused while interim text is pending or when nothing was committed.
pub open spec fn finished(t: TranscriptState) -> Result<Seq<char>, ProtocolError> {
    if t.pending_interim {
        Err(ProtocolError::Incomplete)
    } else if t.segments.len() == 0 {
        Err(ProtocolError::NoTranscription)
    } else {
        Ok(join(t.segments, seq![' ']))
    }
}

/// Collects Gemini's transcription of one recording.
pub struct Transcript {
    segments: Vec<String>,
    pending_interim: bool,
    complete: bool,
    last_update: u128,
}

impl View for Transcript {
    type V = TranscriptState;

    closed spec fn view(&self) -> TranscriptState {
        TranscriptState {
            segments: self.segments.deep_view(),
            pending_interim: self.pending_interim,
            complete: self.complete,
            last_update: self.last_update as nat,
        }
    }
}

impl Default for Transcript {
    /// An empty transcript.
    fn default() -> (t: Transcript)
        ensures
            t@.segments.len() == 0,
            !t@.pending_interim,
            !t@.complete,
            t@.last_update == 0,
    {
        Transcript::new()
    }
}

impl Transcript {
    /// An empty transcript.
    pub fn new() -> (t: Transcript)
        ensures
            t@.segments.len() == 0,
            !t@.pending_interim,
            !t@.complete,
            t@.last_update == 0,
    {
        Transcript { segments: Vec::new(), pending_interim: false, complete: false, last_update: 0 }
    }

    /// Applies one server message received at `now` (nanoseconds since the
    /// session started). A message that reports an error is refused and
    /// changes nothing.
    pub fn receive(&mut self, message: &ServerMessage, now: u128) -> (r: Result<(), ProtocolError>)
        ensures
            match message_error(message) {
                Some(e) => r == Err::<(), ProtocolError>(e) && final(self)@ == old(self)@,
                None => r is Ok && final(self)@ == received(old(self)@, message, now as nat),
            },
    {
        check_error(message)?;
        let final_text = match &message.final_text {
            Some(t) => trim_str(t.as_str()),
            None => String::new(),
        };
        let interim = match &message.interim_text {
            Some(t) => trim_str(t.as_str()),
            None => String::new(),
        };
        let ghost before = self@;
        if !final_text.as_str().is_empty() {
            let ghost segs = self.segments.deep_view();
            // Repeated finals are distinct spoken segments; never deduplicate.
            self.segments.push(final_text);
            assert(self.segments.deep_view() =~= segs.push(final_part(message)));
            self.pending_interim = false;
            self.last_update = now;
        }
        if !interim.as_str().is_empty() {
            self.pending_interim = true;
            self.last_update = now;
        }
        if message.turn_complete == Some(true) {
            self.complete = true;
            self.last_update = now;
        }
        Ok(())
    }

    /// Whether the transcript is final at `now` for a recording that stopped
    /// at `stopped_at` (see `is_ready`).
    pub fn ready(&self, now: u128, stopped_at: u128) -> (b: bool)
        ensures
            b == is_ready(self@, now as nat, stopped_at as nat),
    {
        let since = if self.last_update >= stopped_at { self.last_update } else { stopped_at };
        !self.pending_interim && (self.complete || self.segments.len() > 0) && now >= since
            && now - since >= SETTLE_NANOS
    }

    /// The transcribed text (see `finished`).
    pub fn finish(&self) -> (r: Result<String, ProtocolError>)
        ensures
            match finished(self@) {
                Ok(text) => r matches Ok(s) && s@ == text,
                Err(e) => r == Err::<String, ProtocolError>(e),
            },
    {
        if self.pending_interim {
            return Err(ProtocolError::Incomplete);
        }
        if self.segments.len() == 0 {
            return Err(ProtocolError::NoTranscription);
        }
        let text = join_strings(&self.segments, " ");
        proof {
            reveal_strlit(" ");
            assert(" "@ =~= seq![' ']);
        }
        Ok(text)
    }

    /// Whether Gemini has produced any text yet, committed or interim.
    pub fn has_text(&self) -> (b: bool)
        ensures
            b == (self@.segments.len() > 0 || self@.pending_interim),
    {
        self.segments.len() > 0 || self.pending_interim
    }
}

/// Law: a transcript that is ready never refuses for pending text: it yields
/// its text when something was committed, and otherwise reports that Gemini
/// returned no transcription (a completed turn without text).
pub proof fn law_ready_transcript_finishes(t: TranscriptState, now: nat, stopped_at: nat)
    requires
        is_ready(t, now, stopped_at),
    ensures
        t.segments.len() > 0 ==> finished(t) == Ok::<Seq<char>, ProtocolError>(
            join(t.segments, seq![' ']),
        ),
        t.segments.len() == 0 ==> finished(t) == Err::<Seq<char>, ProtocolError>(
            ProtocolError::NoTranscription,
        ),
{
}

/// Law: once ready, a transcript stays ready as time passes without messages.
pub proof fn law_ready_is_stable(t: TranscriptState, now: nat, later: nat, stopped_at: nat)
    requires
        is_ready(t, now, stopped_at),
        now <= later,
    ensures
        is_ready(t, later, stopped_at),
{
}

/// Law: repeated final segments are all kept; receiving the same committed
/// text twice yields it twice in the transcript.
pub proof fn law_repeated_finals_are_kept(t: TranscriptState, m: &ServerMessage, now: nat, later: nat)
    requires
        message_error(m).is_none(),
        final_part(m).len() > 0,
        interim_part(m).len() == 0,
    ensures
        received(received(t, m, now), m, later).segments == t.segments.push(final_part(m)).push(
            final_part(m),
        ),
        !received(received(t, m, now), m, later).pending_interim,
{
}

/// Law: pending interim text blocks output, even after the turn completed,
/// until a later final segment settles it.
pub proof fn law_interim_blocks_output(t: TranscriptState, m: &ServerMessage, now: nat, later: nat, stopped_at: nat)
    requires
        interim_part(m).len() > 0,
    ensures
        finished(received(t, m, now)) == Err::<Seq<char>, ProtocolError>(ProtocolError::Incomplete),
        !is_ready(received(t, m, now), later, stopped_at),
{
}

/// Law: a change at `now` restarts the settle window: the transcript is not
/// ready before `SETTLE_NANOS` have passed since `now`.
pub proof fn law_change_restarts_settle(t: TranscriptState, m: &ServerMessage, now: nat, later: nat, stopped_at: nat)
    requires
        final_part(m).len() > 0 || interim_part(m).len() > 0 || m.turn_complete == Some(true),
        later < now + SETTLE_NANOS,
    ensures
        !is_ready(received(t, m, now), later, stopped_at),
{
}

/// Law: what one message does to a transcript. A final segment is
/// appended, and only a final segment settles pending interim text; a
/// message without final text never clears it, completed turn included.
/// Interim text in a message leaves text pending. A completed turn is
/// remembered. A message that changes nothing keeps the transcript as it
/// was; any other moves the last change to `now`.
pub proof fn law_receive_effects(t: TranscriptState, m: &ServerMessage, now: nat)
    ensures
        final_part(m).len() > 0 ==> received(t, m, now).segments == t.segments.push(final_part(m)),
        final_part(m).len() == 0 ==> received(t, m, now).segments == t.segments,
        final_part(m).len() == 0 ==> received(t, m, now).pending_interim == (t.pending_interim
            || interim_part(m).len() > 0),
        final_part(m).len() > 0 ==> received(t, m, now).pending_interim == (interim_part(m).len()
            > 0),
        received(t, m, now).complete == (t.complete || m.turn_complete == Some(true)),
        final_part(m).len() > 0 || interim_part(m).len() > 0 || m.turn_complete == Some(true)
            ==> received(t, m, now).last_update == now,
        final_part(m).len() == 0 && interim_part(m).len() == 0 && m.turn_complete != Some(true)
            ==> received(t, m, now) == t,
{
}

/// Law: a finished transcript is exactly its committed segments, in order,
/// each followed by one space but the last; no pending interim text is
/// ever part of it, and nothing is finished while some is pending.
pub proof fn law_finish_joins_committed_segments(t: TranscriptState)
    ensures
        t.pending_interim ==> finished(t) is Err,
        finished(t) is Ok <==> !t.pending_interim && t.segments.len() > 0,
        t.segments.len() == 1 && !t.pending_interim ==> finished(t) == Ok::<
            Seq<char>,
            ProtocolError,
        >(t.segments[0]),
        t.segments.len() > 1 && !t.pending_interim ==> finished(t) == Ok::<
            Seq<char>,
            ProtocolError,
        >(
            finished(TranscriptState { segments: t.segments.drop_last(), ..t })->Ok_0 + seq![' ']
                + t.segments.last(),
        ),
{
}

/// Law: readiness. A transcript is ready exactly when nothing is pending,
/// there is a completed turn or committed text, and the settle time has
/// passed since both the last change and the stop.
pub proof fn law_ready_exactly_when_settled(t: TranscriptState, now: nat, stopped_at: nat)
    ensures
        is_ready(t, now, stopped_at) <==> (!t.pending_interim && (t.complete || t.segments.len() > 0)
            && now >= t.last_update + SETTLE_NANOS && now >= stopped_at + SETTLE_NANOS),
{
}

/// The opening of every setup message, up to the transcription settings.
pub open spec fn setup_head() -> Seq<char> {
    "{\"setup\":{\"generationConfig\":{\"responseModalities\":[\"TEXT\"]},\"inputAudioTranscription\":{"@
}

/// Law: the setup message carries the custom vocabulary, listing exactly
/// the configured terms, whenever there is one, and omits the field only
/// when the vocabulary is empty: the transcription settings then open with
/// the language.
pub proof fn law_setup_sends_the_vocabulary(c: &Config)
    ensures
        c.custom_vocabulary.len() > 0 ==> starts_with(
            setup_text(c),
            setup_head() + "\"customVocabulary\":"@ + json_string_list(c.custom_vocabulary.deep_view())
                + ","@,
        ),
        c.custom_vocabulary.len() == 0 ==> starts_with(
            setup_text(c),
            setup_head() + "\"languageCodes\":["@,
        ),
{
    let s = setup_text(c);
    if c.custom_vocabulary.len() > 0 {
        let p = setup_head() + "\"customVocabulary\":"@ + json_string_list(
            c.custom_vocabulary.deep_view(),
        ) + ","@;
        let rest = "\"languageCodes\":["@ + json_quoted(c.language@) + "],\"mode\":\""@ + mode_name(
            c.mode,
        )
            + "\"},\"model\":\"models/gemini-3.5-transcribe-live\",\"realtimeInputConfig\":{\"automaticActivityDetection\":{\"disabled\":true}}}}"@;
        assert(s =~= p + rest);
        assert((p + rest).take(p.len() as int) =~= p);
    } else {
        let p = setup_head() + "\"languageCodes\":["@;
        let rest = json_quoted(c.language@) + "],\"mode\":\""@ + mode_name(c.mode)
            + "\"},\"model\":\"models/gemini-3.5-transcribe-live\",\"realtimeInputConfig\":{\"automaticActivityDetection\":{\"disabled\":true}}}}"@;
        assert(s =~= p + rest);
        assert((p + rest).take(p.len() as int) =~= p);
    }
}

/// Law: the setup message names the spoken language, quoted, and the mode
/// in Gemini's words, `SMART` or `VERBATIM`.
pub proof fn law_setup_names_language_and_mode(c: &Config)
    ensures
        c.mode == Mode::Smart ==> contains(
            setup_text(c),
            "\"languageCodes\":["@ + json_quoted(c.language@) + "],\"mode\":\"SMART\"}"@,
        ),
        c.mode == Mode::Verbatim ==> contains(
            setup_text(c),
            "\"languageCodes\":["@ + json_quoted(c.language@) + "],\"mode\":\"VERBATIM\"}"@,
        ),
{
    let s = setup_text(c);
    let vocab = if c.custom_vocabulary.len() > 0 {
        "\"customVocabulary\":"@ + json_string_list(c.custom_vocabulary.deep_view()) + ","@
    } else {
        Seq::empty()
    };
    let pre = setup_head() + vocab;
    let name = if c.mode == Mode::Smart {
        "SMART"@
    } else {
        "VERBATIM"@
    };
    let q = "\"languageCodes\":["@ + json_quoted(c.language@) + "],\"mode\":\""@ + name + "\"}"@;
    let tail = ",\"model\":\"models/gemini-3.5-transcribe-live\",\"realtimeInputConfig\":{\"automaticActivityDetection\":{\"disabled\":true}}}}"@;
    assert(s =~= pre + q + tail) by {
        reveal_strlit("\"},\"model\":\"models/gemini-3.5-transcribe-live\",\"realtimeInputConfig\":{\"automaticActivityDetection\":{\"disabled\":true}}}}");
        reveal_strlit(",\"model\":\"models/gemini-3.5-transcribe-live\",\"realtimeInputConfig\":{\"automaticActivityDetection\":{\"disabled\":true}}}}");
        reveal_strlit("\"}");
    }
    assert(s.subrange(pre.len() as int, (pre.len() + q.len()) as int) =~= q);
    if c.mode == Mode::Smart {
        assert(q =~= "\"languageCodes\":["@ + json_quoted(c.language@) + "],\"mode\":\"SMART\"}"@) by {
            reveal_strlit("],\"mode\":\"SMART\"}");
            reveal_strlit("],\"mode\":\"");
            reveal_strlit("SMART");
            reveal_strlit("\"}");
        }
    } else {
        assert(q =~= "\"languageCodes\":["@ + json_quoted(c.language@) + "],\"mode\":\"VERBATIM\"}"@) by {
            reveal_strlit("],\"mode\":\"VERBATIM\"}");
            reveal_strlit("],\"mode\":\"");
            reveal_strlit("VERBATIM");
            reveal_strlit("\"}");
        }
    }
}

/// Law: a list of strings is written term by term, in order: `[]` when
/// empty, and one more term adds a comma and the quoted term before the
/// closing bracket.
pub proof fn law_string_list_adds_each_term(items: Seq<Seq<char>>, t: Seq<char>)
    ensures
        json_string_list(Seq::empty()) == seq!['[', ']'],
        json_string_list(seq![t]) == seq!['['] + json_quoted(t) + seq![']'],
        items.len() > 0 ==> json_string_list(items.push(t)) == json_string_list(items).drop_last()
            + seq![','] + json_quoted(t) + seq![']'],
{
    let f = |x: Seq<char>| json_quoted(x);
    assert(Seq::<Seq<char>>::empty().map_values(f) =~= Seq::<Seq<char>>::empty());
    assert(seq![t].map_values(f) =~= seq![json_quoted(t)]);
    assert(json_string_list(Seq::empty()) =~= seq!['[', ']']);
    assert(json_string_list(seq![t]) =~= seq!['['] + json_quoted(t) + seq![']']);
    if items.len() > 0 {
        let q = items.map_values(f);
        let q2 = items.push(t).map_values(f);
        assert(q2 =~= q.push(json_quoted(t)));
        assert(q2.drop_last() =~= q);
        let body = join(q, seq![',']);
        assert(json_string_list(items).drop_last() =~= seq!['['] + body);
        assert(json_string_list(items.push(t)) =~= seq!['['] + body + seq![','] + json_quoted(t)
            + seq![']']);
    }
}

/// A character that a JSON string holds as it is.
pub open spec fn json_plain(c: char) -> bool {
    c != '"' && c != '\\' && c as u32 >= 0x20
}

/// Law: text without quotes, backslashes or control characters is quoted
/// as it is, between double quotes.
pub proof fn law_plain_text_is_quoted_as_is(s: Seq<char>)
    requires
        forall|i: int| 0 <= i < s.len() ==> json_plain(#[trigger] s[i]),
    ensures
        json_quoted(s) == seq!['"'] + s + seq!['"'],
{
    lemma_plain_escaped(s);
}

proof fn lemma_plain_escaped(s: Seq<char>)
    requires
        forall|i: int| 0 <= i < s.len() ==> json_plain(#[trigger] s[i]),
    ensures
        json_escaped(s) == s,
    decreases s.len(),
{
    if s.len() > 0 {
        let p = s.drop_last();
        assert forall|i: int| 0 <= i < p.len() implies json_plain(#[trigger] p[i]) by {
            assert(p[i] == s[i]);
        }
        lemma_plain_escaped(p);
        assert(json_plain(s[s.len() - 1]));
        assert(json_char(s.last()) =~= seq![s.last()]);
        assert(p + seq![s.last()] =~= s);
    } else {
        assert(json_escaped(s) =~= s);
    }
}

/// Law: an audio message carries the chunk's bytes: its data decodes to
/// exactly those bytes, and it names the wire format.
pub proof fn law_audio_carries_the_bytes(b: Seq<u8>)
    ensures
        exists|data: Seq<char>|
            audio_text(b) == "{\"realtimeInput\":{\"audio\":{\"data\":\""@ + data
                + "\",\"mimeType\":\"audio/pcm;rate=16000\"}}}"@ && #[trigger] base64_decoded(data)
                == b,
{
    law_base64_round_trip(b);
    assert(base64_decoded(base64_encoded(b)) == b);
}

/// Law: an error message is always refused, keeping only its numeric code
/// (0 when it has none); a message without an error never is.
pub proof fn law_errors_keep_only_the_code(m: &ServerMessage)
    ensures
        m.error is None ==> message_error(m) is None,
        m.error matches Some(Some(c)) ==> message_error(m) == Some(ProtocolError::Rejected { code: c }),
        m.error matches Some(None) ==> message_error(m) == Some(ProtocolError::Rejected { code: 0 }),
{
}

} // verus!
