use ai_dikte::output::{select_driver, OutputError};

#[test]
fn desktop_selection_is_explicit() {
    assert_eq!(select_driver("kde", false, false).unwrap(), "kwtype");
    assert_eq!(select_driver("hyprland", false, false).unwrap(), "wtype");
    assert!(select_driver("gnome", false, false).is_err());
}

#[test]
fn session_flags_and_names_choose_the_backend() {
    assert_eq!(select_driver("", true, true).unwrap(), "wtype");
    assert_eq!(select_driver("", false, true).unwrap(), "kwtype");
    assert_eq!(select_driver("ubuntu:gnome plasma", false, false).unwrap(), "kwtype");
    assert_eq!(select_driver("kde hyprland", false, false).unwrap(), "wtype");
    assert_eq!(select_driver("sway", false, false), Err(OutputError::UnsupportedDesktop));
    assert_eq!(
        OutputError::UnsupportedDesktop.message(),
        "Unsupported desktop: KDE Plasma or Hyprland Wayland is required"
    );
}
