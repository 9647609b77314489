use ai_dikte::config::{config_path, unique_vocabulary, Config, PathError, ConfigError, Mode, Notifications, MAX_VOCABULARY};

#[test]
fn vocabulary_preserves_order_and_case() {
    let mut c = Config {
        custom_vocabulary: vec![" Rust ".into(), "".into(), "Rust".into(), "rust".into()],
        ..Config::default()
    };
    c.validate().unwrap();
    assert_eq!(c.custom_vocabulary, ["Rust", "rust"]);
}

#[test]
fn default_configuration() {
    let c = Config::default();
    assert_eq!(c.language, "tr-TR");
    assert_eq!(c.mode, Mode::Smart);
    assert!(c.custom_vocabulary.is_empty());
    assert!(!c.audio_cue);
    assert_eq!(c.notify_mode, Notifications::All);
    assert!(c.input_device.is_none());
    assert!(c.api_key.is_none());
}

#[test]
fn language_is_trimmed_and_required() {
    let mut c = Config { language: "  en-US\t".into(), ..Config::default() };
    c.validate().unwrap();
    assert_eq!(c.language, "en-US");
    let mut empty = Config { language: " \n ".into(), custom_vocabulary: vec![" a ".into()], ..Config::default() };
    assert_eq!(empty.validate(), Err(ConfigError::EmptyLanguage));
    assert_eq!(empty.language, "");
    assert_eq!(empty.custom_vocabulary, [" a "]);
    assert_eq!(ConfigError::EmptyLanguage.message(), "Language cannot be empty");
}

#[test]
fn vocabulary_limit_counts_distinct_terms() {
    let mut many: Vec<String> = (0..=MAX_VOCABULARY).map(|i| format!("term{i}")).collect();
    let mut c = Config { custom_vocabulary: many.clone(), ..Config::default() };
    assert_eq!(c.validate(), Err(ConfigError::TooManyTerms));
    assert_eq!(c.custom_vocabulary, many);
    assert_eq!(ConfigError::TooManyTerms.message(), "At most 1000 vocabulary terms are supported");
    many.pop();
    many.push("term0".into());
    let mut ok = Config { custom_vocabulary: many, ..Config::default() };
    ok.validate().unwrap();
    assert_eq!(ok.custom_vocabulary.len(), MAX_VOCABULARY);
}

#[test]
fn validating_twice_changes_nothing() {
    let mut c = Config {
        language: " de-DE ".into(),
        custom_vocabulary: vec!["b".into(), " a".into(), "b ".into(), "".into()],
        ..Config::default()
    };
    c.validate().unwrap();
    let (language, vocabulary) = (c.language.clone(), c.custom_vocabulary.clone());
    c.validate().unwrap();
    assert_eq!(c.language, language);
    assert_eq!(c.custom_vocabulary, vocabulary);
    assert_eq!(vocabulary, ["b", "a"]);
}

#[test]
fn stored_key_is_trimmed_and_required() {
    let c = Config { api_key: Some("  abc \n".into()), ..Config::default() };
    assert_eq!(c.key().unwrap(), "abc");
    let blank = Config { api_key: Some("   ".into()), ..Config::default() };
    assert_eq!(blank.key(), Err(ConfigError::MissingKey));
    assert_eq!(Config::default().key(), Err(ConfigError::MissingKey));
    assert_eq!(ConfigError::MissingKey.message(), "API key missing; run setup first");
}

#[test]
fn cleaning_loses_no_term_and_invents_none() {
    let input: Vec<String> = ["  Kubernetes", "rust ", "", "Rust", "rust", " \t "]
        .iter()
        .map(|s| s.to_string())
        .collect();
    let cleaned = unique_vocabulary(&input);
    assert_eq!(cleaned, ["Kubernetes", "rust", "Rust"]);
    for term in &input {
        let t = term.trim();
        assert!(t.is_empty() || cleaned.iter().any(|c| c == t));
    }
    for c in &cleaned {
        assert!(input.iter().any(|term| term.trim() == c));
    }
}

#[test]
fn settings_path_follows_xdg_then_home() {
    assert_eq!(
        config_path(Some(b"/x/cfg"), Some(b"/home/u")).unwrap(),
        b"/x/cfg/ai-dikte/config.json".to_vec()
    );
    assert_eq!(
        config_path(Some(b"/x/cfg/"), None).unwrap(),
        b"/x/cfg/ai-dikte/config.json".to_vec()
    );
    assert_eq!(
        config_path(None, Some(b"/home/u")).unwrap(),
        b"/home/u/.config/ai-dikte/config.json".to_vec()
    );
    assert_eq!(config_path(None, None), Err(PathError::HomeMissing));
    assert_eq!(config_path(Some(b"relative"), Some(b"/home/u")), Err(PathError::NotAbsolute));
    assert_eq!(config_path(Some(b""), Some(b"/home/u")), Err(PathError::NotAbsolute));
    assert_eq!(config_path(None, Some(b"home")), Err(PathError::NotAbsolute));
    assert_eq!(PathError::HomeMissing.message(), "HOME is missing");
}
