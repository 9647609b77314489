use ai_dikte::config::{Config, Mode};
use ai_dikte::protocol::{
    activity_end, activity_start, audio, check_error, setup, setup_acknowledged, ProtocolError,
    ServerMessage, Transcript, FINAL_TIMEOUT_NANOS, SETTLE_NANOS,
};
use base64::Engine;
use serde_json::Value;
use std::time::Duration;

fn nanos(d: Duration) -> u128 {
    d.as_nanos()
}

fn final_message(text: &str) -> ServerMessage {
    ServerMessage { final_text: Some(text.to_string()), ..ServerMessage::default() }
}

/// The fields a server message carries, read from its JSON form.
fn from_json(v: &Value) -> ServerMessage {
    let content = &v["serverContent"];
    ServerMessage {
        error: v.get("error").map(|e| e.get("code").and_then(Value::as_i64)),
        final_text: content["inputTranscription"]["text"].as_str().map(str::to_string),
        interim_text: content["interimInputTranscription"]["text"].as_str().map(str::to_string),
        turn_complete: content["turnComplete"].as_bool(),
        setup_complete: v.get("setupComplete").map(Value::is_object),
    }
}

fn json(text: &str) -> Value {
    serde_json::from_str(text).unwrap()
}

#[test]
fn repeated_finals_are_not_lost() {
    let mut t = Transcript::default();
    t.receive(&final_message("Evet."), 0).unwrap();
    t.receive(&final_message("Evet."), 0).unwrap();
    assert_eq!(t.finish().unwrap(), "Evet. Evet.");
}

#[test]
fn final_without_turn_complete_settles_after_stop() {
    let mut t = Transcript::default();
    t.receive(&final_message("Merhaba"), 0).unwrap();
    assert!(!t.ready(nanos(Duration::from_secs(2)), nanos(Duration::from_secs(2))));
    assert!(t.ready(nanos(Duration::from_millis(2500)), nanos(Duration::from_secs(2))));
}

#[test]
fn pending_interim_blocks_partial_output_even_after_completion() {
    let mut t = Transcript::default();
    t.receive(&final_message("Bir"), 0).unwrap();
    t.receive(
        &from_json(&json(
            r#"{"serverContent":{"interimInputTranscription":{"text":"iki"},"turnComplete":true}}"#,
        )),
        0,
    )
    .unwrap();
    assert!(!t.ready(nanos(Duration::from_secs(20)), 0));
    assert!(t.finish().is_err());
    t.receive(&final_message("iki"), nanos(Duration::from_secs(20))).unwrap();
    assert_eq!(t.finish().unwrap(), "Bir iki");
}

#[test]
fn final_and_interim_in_same_message_keep_the_tail_pending() {
    let mut transcript = Transcript::default();
    transcript
        .receive(
            &from_json(&json(
                r#"{"serverContent": {
                    "inputTranscription": {"text": "Bir"},
                    "interimInputTranscription": {"text": "iki"},
                    "turnComplete": true
                }}"#,
            )),
            0,
        )
        .unwrap();
    assert!(!transcript.ready(nanos(Duration::from_secs(20)), 0));
    assert!(transcript.finish().is_err());
    transcript.receive(&final_message("iki"), nanos(Duration::from_secs(20))).unwrap();
    assert_eq!(transcript.finish().unwrap(), "Bir iki");
}

#[test]
fn delayed_final_restarts_settle_window() {
    let mut t = Transcript::default();
    t.receive(&from_json(&json(r#"{"serverContent":{"turnComplete":true}}"#)), 0).unwrap();
    t.receive(&final_message("geç"), nanos(Duration::from_millis(400))).unwrap();
    assert!(!t.ready(nanos(Duration::from_millis(500)), 0));
    assert!(t.ready(nanos(Duration::from_millis(900)), 0));
}

#[test]
fn errors_do_not_echo_secrets() {
    let error =
        check_error(&from_json(&json(r#"{"error":{"code":403,"message":"key=secret"}}"#))).unwrap_err();
    assert!(!error.message().contains("secret"));
}

#[test]
fn pcm_contract() {
    let message = json(&audio(&[0, 128, 255, 127]).unwrap());
    assert_eq!(message["realtimeInput"]["audio"]["data"], "AID/fw==");
    assert!(audio(&[0]).is_err());
    assert!(audio(&[]).is_err());
    let setup = json(&setup(&Config::default()));
    assert_eq!(setup["setup"]["inputAudioTranscription"]["mode"], "SMART");
    assert_eq!(
        setup["setup"]["realtimeInputConfig"]["automaticActivityDetection"]["disabled"],
        true
    );
}

#[test]
fn rejected_request_reports_only_its_code() {
    let error = check_error(&from_json(&json(r#"{"error":{"code":403,"message":"key=secret"}}"#)))
        .unwrap_err();
    assert_eq!(error, ProtocolError::Rejected { code: 403 });
    assert_eq!(
        error.message(),
        "Gemini rejected the request (code 403). Check API key, quota and model access."
    );
    let coded = check_error(&from_json(&json(r#"{"error":{"message":"no code"}}"#))).unwrap_err();
    assert_eq!(coded, ProtocolError::Rejected { code: 0 });
    let negative = ProtocolError::Rejected { code: -12 }.message();
    assert_eq!(negative, "Gemini rejected the request (code -12). Check API key, quota and model access.");
    assert!(check_error(&final_message("ok")).is_ok());
}

#[test]
fn error_message_leaves_transcript_unchanged() {
    let mut t = Transcript::default();
    t.receive(&final_message("Bir"), 0).unwrap();
    let mut bad = final_message("secret text");
    bad.error = Some(Some(500));
    assert_eq!(t.receive(&bad, 1), Err(ProtocolError::Rejected { code: 500 }));
    assert_eq!(t.finish().unwrap(), "Bir");
}

#[test]
fn empty_transcript_and_completed_turn_without_text() {
    let mut t = Transcript::default();
    assert_eq!(t.finish(), Err(ProtocolError::NoTranscription));
    assert!(!t.has_text());
    t.receive(&from_json(&json(r#"{"serverContent":{"turnComplete":true}}"#)), 0).unwrap();
    assert!(t.ready(SETTLE_NANOS, 0));
    assert_eq!(t.finish(), Err(ProtocolError::NoTranscription));
}

#[test]
fn whitespace_only_texts_change_nothing() {
    let mut t = Transcript::default();
    t.receive(&final_message("  \n "), 5).unwrap();
    t.receive(
        &ServerMessage { interim_text: Some("\t".to_string()), ..ServerMessage::default() },
        6,
    )
    .unwrap();
    assert!(!t.has_text());
    t.receive(&final_message("  merhaba  dünya "), 7).unwrap();
    assert!(t.has_text());
    assert_eq!(t.finish().unwrap(), "merhaba  dünya");
}

#[test]
fn ready_stays_ready_as_time_passes() {
    let mut t = Transcript::default();
    t.receive(&final_message("a"), 100).unwrap();
    assert!(!t.ready(100 + SETTLE_NANOS - 1, 0));
    assert!(t.ready(100 + SETTLE_NANOS, 0));
    assert!(t.ready(100 + SETTLE_NANOS + FINAL_TIMEOUT_NANOS, 0));
    assert!(!t.ready(100 + SETTLE_NANOS, 200));
}

#[test]
fn setup_message_carries_language_mode_and_vocabulary() {
    let config = Config {
        language: "en-US".into(),
        mode: Mode::Verbatim,
        custom_vocabulary: vec!["Kubernetes".into(), "say \"hi\"\\\n".into()],
        ..Config::default()
    };
    let text = setup(&config);
    let v = json(&text);
    assert_eq!(v["setup"]["model"], "models/gemini-3.5-transcribe-live");
    assert_eq!(v["setup"]["generationConfig"]["responseModalities"][0], "TEXT");
    let t = &v["setup"]["inputAudioTranscription"];
    assert_eq!(t["languageCodes"][0], "en-US");
    assert_eq!(t["mode"], "VERBATIM");
    assert_eq!(t["customVocabulary"][0], "Kubernetes");
    assert_eq!(t["customVocabulary"][1], "say \"hi\"\\\n");
    let plain = json(&setup(&Config::default()));
    assert!(plain["setup"]["inputAudioTranscription"].get("customVocabulary").is_none());
    assert_eq!(
        setup(&Config::default()),
        r#"{"setup":{"generationConfig":{"responseModalities":["TEXT"]},"inputAudioTranscription":{"languageCodes":["tr-TR"],"mode":"SMART"},"model":"models/gemini-3.5-transcribe-live","realtimeInputConfig":{"automaticActivityDetection":{"disabled":true}}}}"#
    );
}

#[test]
fn audio_message_is_standard_base64() {
    assert_eq!(
        audio(&[1, 2, 3, 4, 5, 6]).unwrap(),
        r#"{"realtimeInput":{"audio":{"data":"AQIDBAUG","mimeType":"audio/pcm;rate=16000"}}}"#
    );
    assert_eq!(json(&audio(&[0xff, 0xfe]).unwrap())["realtimeInput"]["audio"]["data"], "//4=");
    assert_eq!(audio(&[1, 2, 3]), Err(ProtocolError::IncompletePcm));
    assert_eq!(
        ProtocolError::IncompletePcm.message(),
        "Audio must contain complete signed 16-bit PCM samples"
    );
}

#[test]
fn turn_markers_are_json() {
    assert!(json(&activity_start())["realtimeInput"]["activityStart"].is_object());
    assert!(json(&activity_end())["realtimeInput"]["activityEnd"].is_object());
}

#[test]
fn setup_acknowledgement_must_be_an_object() {
    assert_eq!(setup_acknowledged(&from_json(&json(r#"{"setupComplete":{}}"#))), Ok(true));
    assert_eq!(
        setup_acknowledged(&from_json(&json(r#"{"setupComplete":null}"#))),
        Err(ProtocolError::InvalidSetupAcknowledgement)
    );
    assert_eq!(setup_acknowledged(&from_json(&json(r#"{"other":1}"#))), Ok(false));
    assert_eq!(
        setup_acknowledged(&from_json(&json(r#"{"error":{"code":401}}"#))),
        Err(ProtocolError::Rejected { code: 401 })
    );
}

#[test]
fn no_speech_is_recognised() {
    assert!(ProtocolError::NoSpeech.is_no_speech());
    assert!(!ProtocolError::Incomplete.is_no_speech());
    assert_eq!(ProtocolError::NoSpeech.message(), "No speech detected");
}

#[test]
fn audio_data_decodes_to_the_bytes() {
    for bytes in [vec![0u8, 0], vec![1, 2, 3, 4], vec![255, 254, 253, 252, 251, 250]] {
        let message: serde_json::Value =
            serde_json::from_str(&ai_dikte::protocol::audio(&bytes).unwrap()).unwrap();
        let data = message["realtimeInput"]["audio"]["data"].as_str().unwrap();
        assert_eq!(
            base64::engine::general_purpose::STANDARD.decode(data).unwrap(),
            bytes
        );
        assert_eq!(
            message["realtimeInput"]["audio"]["mimeType"],
            "audio/pcm;rate=16000"
        );
    }
}
