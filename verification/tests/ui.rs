use ai_dikte::config::{Config, Mode};
use ai_dikte::ui::{mask_key, parse_vocabulary, replace_answer, Answer, apply_style_edit, StyleEdit};

#[test]
fn test_mask_key() {
    assert_eq!(mask_key(""), "Not configured");
    assert_eq!(mask_key("12345"), "Configured (hidden)");
    assert_eq!(mask_key("1234567890"), "Configured (hidden)");
}

#[test]
fn test_parse_vocabulary() {
    assert_eq!(parse_vocabulary(""), Vec::<String>::new());
    assert_eq!(
        parse_vocabulary("  Kubernetes , Rust, , DevOps "),
        vec!["Kubernetes".to_string(), "Rust".to_string(), "DevOps".to_string()]
    );
}

#[test]
fn vocabulary_keeps_order_case_and_repeats() {
    assert_eq!(parse_vocabulary(",a,,A,a,"), vec!["a", "A", "a"]);
    assert_eq!(parse_vocabulary("İstanbul,  çay  "), vec!["İstanbul", "çay"]);
}

#[test]
fn replace_answers() {
    for keep in ["", "  ", "n", "N", "no", " No\n", "NO"] {
        assert_eq!(replace_answer(keep), Answer::Keep, "{keep:?}");
    }
    for replace in ["y", "Y", "yes", "YES", " yEs \n"] {
        assert_eq!(replace_answer(replace), Answer::Replace, "{replace:?}");
    }
    for invalid in ["maybe", "ye", "nope", "y e s", "1"] {
        assert_eq!(replace_answer(invalid), Answer::Invalid, "{invalid:?}");
    }
}

#[test]
fn style_menu_answers() {
    let mut c = Config { api_key: Some("k".into()), ..Config::default() };
    assert!(!apply_style_edit(&mut c, StyleEdit::Language("  \n".into())));
    assert_eq!(c.language, "tr-TR");
    assert!(apply_style_edit(&mut c, StyleEdit::Language(" en-US\n".into())));
    assert_eq!(c.language, "en-US");
    assert!(apply_style_edit(&mut c, StyleEdit::ToggleMode));
    assert_eq!(c.mode, Mode::Verbatim);
    assert!(apply_style_edit(&mut c, StyleEdit::ToggleMode));
    assert_eq!(c.mode, Mode::Smart);
    assert!(!apply_style_edit(&mut c, StyleEdit::Vocabulary("\n".into())));
    assert!(c.custom_vocabulary.is_empty());
    assert!(apply_style_edit(&mut c, StyleEdit::Vocabulary(" Rust, , rust ,Rust\n".into())));
    assert_eq!(c.custom_vocabulary, ["Rust", "rust", "Rust"]);
    assert_eq!(c.api_key.as_deref(), Some("k"));
}

#[test]
fn joined_terms_parse_back() {
    let terms = vec!["Kubernetes".to_string(), "Rust".to_string(), "Rust".to_string(), "a b".to_string()];
    assert_eq!(parse_vocabulary(&terms.join(", ")), terms);
    assert_eq!(parse_vocabulary(&Vec::<String>::new().join(", ")), Vec::<String>::new());
}
