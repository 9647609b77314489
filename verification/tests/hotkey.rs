use ai_dikte::hotkey::{
    chord_event, error_display_text, osd_layout, osd_origin, osd_status, ChordAction, GREEN, RED,
    YELLOW,
};

#[test]
fn unicode_error_messages_are_truncated_without_panicking() {
    let detail = "ş".repeat(40);
    let displayed = error_display_text(&format!("Error:{detail}"));
    assert_eq!(displayed, format!("Error: {}", "ş".repeat(34)));
    assert_eq!(error_display_text("Error:短い"), "Error: 短い");
}

#[test]
fn error_text_without_prefix_is_kept() {
    assert_eq!(error_display_text("plain"), "Error: plain");
    assert_eq!(error_display_text(""), "Error: ");
    assert_eq!(error_display_text(&"x".repeat(34)), format!("Error: {}", "x".repeat(34)));
}

#[test]
fn win_released_before_z_does_not_leak_repeat_or_toggle_twice() {
    let mut active = false;
    assert_eq!(chord_event(&mut active, true, false, true), ChordAction::Toggle);
    for win in [true, false, false] {
        assert_eq!(chord_event(&mut active, true, false, win), ChordAction::Consume);
    }
    assert_eq!(chord_event(&mut active, false, true, false), ChordAction::Consume);
    assert_eq!(chord_event(&mut active, true, false, false), ChordAction::Pass);
    assert_eq!(chord_event(&mut active, false, true, false), ChordAction::Pass);
    assert_eq!(chord_event(&mut active, true, false, true), ChordAction::Toggle);
}

#[test]
fn one_toggle_per_press_until_release() {
    let mut active = false;
    let mut toggles = 0;
    for _ in 0..5 {
        if chord_event(&mut active, true, false, true) == ChordAction::Toggle {
            toggles += 1;
        }
    }
    assert_eq!(toggles, 1);
    assert_eq!(chord_event(&mut active, false, true, true), ChordAction::Consume);
    assert!(!active);
    assert_eq!(chord_event(&mut active, true, false, true), ChordAction::Toggle);
}

#[test]
fn capsule_shows_each_report() {
    let s = osd_status("Recording — Win+Z to stop");
    assert_eq!((s.color, s.text.as_str(), s.hide_ms), (RED, "Listening...", None));
    let s = osd_status("Finishing transcription…");
    assert_eq!((s.color, s.text.as_str(), s.hide_ms), (YELLOW, "Transcribing...", None));
    let s = osd_status("Ready");
    assert_eq!((s.color, s.text.as_str(), s.hide_ms), (GREEN, "Text inserted", Some(1200)));
    let s = osd_status("No speech detected");
    assert_eq!((s.color, s.text.as_str(), s.hide_ms), (YELLOW, "No speech detected", Some(1500)));
    let s = osd_status("Error: network down");
    assert_eq!((s.color, s.text.as_str(), s.hide_ms), (RED, "Error:  network down", Some(3500)));
    let s = osd_status("Still finishing; wait for Ready");
    assert_eq!(
        (s.color, s.text.as_str(), s.hide_ms),
        (GREEN, "Still finishing; wait for Ready", Some(1500))
    );
}

#[test]
fn capsule_sits_in_the_bottom_right_corner() {
    assert_eq!(osd_origin(Some((2560, 1400))), (2296, 1336));
    assert_eq!(osd_origin(None), (1656, 1016));
}

#[test]
fn capsule_centres_dot_and_text() {
    let l = osd_layout(0, 0, 240, 40, 100);
    assert_eq!((l.dot_left, l.dot_top, l.text_left, l.text_right), (61, 16, 79, 179));
    // Long text is cut to the room inside the padding.
    let l = osd_layout(0, 0, 240, 40, 500);
    assert_eq!((l.dot_left, l.dot_top, l.text_left, l.text_right), (16, 16, 34, 224));
    // A rectangle narrower than dot and gap: the group is centred, rounding toward zero.
    let l = osd_layout(0, 0, 11, 3, 20);
    assert_eq!((l.dot_left, l.dot_top, l.text_left, l.text_right), (-3, -2, 15, 15));
}
