use ai_dikte::shortcut::{
    plan_edits, update_step, UpdateAction, UpdateEvent, UpdateState,
    planned_text, reports_config_errors, select_target, with_block, without_block, ShortcutError,
    Target,
};

#[test]
fn preserves_unrelated_bindings() {
    assert_eq!(
        without_block("before\n# >>> ai-dikte >>>\nbind\n# <<< ai-dikte <<<\nafter\n").unwrap(),
        "before\nafter\n"
    );
}

#[test]
fn incomplete_markers_do_not_delete_user_text() {
    assert!(without_block("# >>> ai-dikte >>>\nuser data").is_err());
}

#[test]
fn marker_errors_are_distinguished() {
    assert_eq!(without_block("# >>> ai-dikte >>>\nx"), Err(ShortcutError::Unterminated));
    assert_eq!(
        without_block("-- >>> ai-dikte >>>\n-- >>> ai-dikte >>>\n"),
        Err(ShortcutError::Nested)
    );
    assert_eq!(without_block("# <<< ai-dikte <<<\n"), Err(ShortcutError::Unmatched));
    assert_eq!(
        ShortcutError::Unterminated.message(),
        "Unterminated AI Dikte shortcut block; refusing to remove user configuration"
    );
    assert_eq!(ShortcutError::Nested.message(), "Nested AI Dikte shortcut markers");
    assert_eq!(ShortcutError::Unmatched.message(), "Unmatched AI Dikte shortcut end marker");
}

#[test]
fn text_without_markers_is_kept_byte_for_byte() {
    for text in ["", "first\r\nlast without newline", "# User bindings\n", "a\n\n\nb"] {
        assert_eq!(without_block(text).unwrap(), text);
    }
}

#[test]
fn markers_accept_comment_marks_and_crlf() {
    assert_eq!(
        without_block("keep\r\n## -- >>> ai-dikte >>>\r\nx\r\n#<<< ai-dikte <<<\r\n").unwrap(),
        "keep\r\n"
    );
}

#[test]
fn install_appends_block_after_a_line_feed() {
    assert_eq!(
        with_block("# User configuration\r\nlast", false).unwrap(),
        "# User configuration\r\nlast\n# >>> ai-dikte >>>\nbind = SUPER, Z, exec, ai-dikte-toggle\n# <<< ai-dikte <<<\n"
    );
    assert_eq!(
        with_block("", true).unwrap(),
        "-- >>> ai-dikte >>>\no.bind(\"SUPER + Z\", \"AI Dikte\", \"ai-dikte-toggle\")\n-- <<< ai-dikte <<<\n"
    );
}

#[test]
fn reinstall_and_remove_round_trip() {
    for lua in [false, true] {
        let user_text = "# User bindings\n";
        let installed = with_block(user_text, lua).unwrap();
        assert_eq!(with_block(&installed, lua).unwrap(), installed);
        assert_eq!(planned_text(&installed, true, lua).unwrap(), None);
        assert_eq!(planned_text(&installed, false, lua).unwrap(), Some(user_text.to_string()));
        assert_eq!(without_block(&installed).unwrap(), user_text);
    }
    assert_eq!(planned_text("first\r\nlast without newline", false, false).unwrap(), None);
    assert_eq!(
        planned_text("# >>> ai-dikte >>>\nuser data", true, false),
        Err(ShortcutError::Unterminated)
    );
}

#[test]
fn target_prefers_lua_then_bindings() {
    assert_eq!(select_target(true, false, true, true), Ok(Target::BindingsLua));
    assert_eq!(select_target(false, true, false, false), Ok(Target::BindingsLua));
    assert_eq!(select_target(false, false, true, true), Ok(Target::BindingsConf));
    assert_eq!(select_target(false, false, false, true), Ok(Target::HyprlandConf));
    assert_eq!(select_target(false, false, false, false), Err(ShortcutError::NoConfig));
    assert_eq!(Target::BindingsLua.file_name(), "bindings.lua");
    assert!(Target::BindingsLua.is_lua());
    assert!(!Target::HyprlandConf.is_lua());
    assert_eq!(
        ShortcutError::NoConfig.message(),
        "Cannot find an existing Hyprland config; add the Win+Z binding manually"
    );
}

#[test]
fn config_error_reports_are_recognised() {
    assert!(!reports_config_errors(""));
    assert!(!reports_config_errors("  \n"));
    assert!(!reports_config_errors("No errors\n"));
    assert!(!reports_config_errors("config: NO ERRORS found"));
    assert!(reports_config_errors("Config error in file hyprland.conf at line 3"));
}

fn run_update(events: Vec<UpdateEvent>) -> Vec<String> {
    let mut state = UpdateState::new();
    let mut actions = Vec::new();
    for event in events {
        let (next, action) = update_step(state, event);
        state = next;
        actions.push(match action {
            UpdateAction::WriteNew(i) => format!("new {i}"),
            UpdateAction::WriteOld(i) => format!("old {i}"),
            UpdateAction::Reload => "reload".to_string(),
            UpdateAction::Done => "done".to_string(),
            UpdateAction::Fail(failure) => format!("fail: {}", failure.message()),
            UpdateAction::Ignore => "ignore".to_string(),
        });
    }
    actions
}

#[test]
fn no_edits_means_no_writes_and_no_reload() {
    assert_eq!(
        run_update(vec![UpdateEvent::Start(0), UpdateEvent::Wrote, UpdateEvent::Reloaded]),
        ["done", "ignore", "ignore"]
    );
}

#[test]
fn edits_are_written_in_order_then_reloaded() {
    assert_eq!(
        run_update(vec![UpdateEvent::Start(3), UpdateEvent::Wrote, UpdateEvent::Wrote, UpdateEvent::Wrote, UpdateEvent::Reloaded]),
        ["new 0", "new 1", "new 2", "reload", "done"]
    );
}

#[test]
fn failed_write_restores_only_the_files_written() {
    assert_eq!(
        run_update(vec![UpdateEvent::Start(3), UpdateEvent::Wrote, UpdateEvent::Wrote, UpdateEvent::WriteFailed("disk full".into()), UpdateEvent::Wrote, UpdateEvent::Wrote, UpdateEvent::Reloaded]),
        ["new 0", "new 1", "new 2", "old 0", "old 1", "reload", "fail: disk full"]
    );
    assert_eq!(
        run_update(vec![UpdateEvent::Start(2), UpdateEvent::WriteFailed("denied".into()), UpdateEvent::Reloaded]),
        ["new 0", "reload", "fail: denied"]
    );
}

#[test]
fn failed_reload_restores_every_file() {
    assert_eq!(
        run_update(vec![
            UpdateEvent::Start(2),
            UpdateEvent::Wrote,
            UpdateEvent::Wrote,
            UpdateEvent::ReloadFailed("Hyprland reports configuration errors: bad".into()),
            UpdateEvent::Wrote,
            UpdateEvent::Wrote,
            UpdateEvent::Reloaded,
        ]),
        [
            "new 0",
            "new 1",
            "reload",
            "old 0",
            "old 1",
            "reload",
            "fail: Hyprland reports configuration errors: bad",
        ]
    );
}

#[test]
fn failures_while_restoring_are_reported() {
    assert_eq!(
        run_update(vec![UpdateEvent::Start(2), UpdateEvent::Wrote, UpdateEvent::WriteFailed("a".into()), UpdateEvent::WriteFailed("b".into())]),
        ["new 0", "new 1", "old 0", "fail: Could not restore Hyprland configuration: b"]
    );
    assert_eq!(
        run_update(vec![UpdateEvent::Start(1), UpdateEvent::Wrote, UpdateEvent::ReloadFailed("a".into()), UpdateEvent::Wrote, UpdateEvent::ReloadFailed("c".into())]),
        [
            "new 0",
            "reload",
            "old 0",
            "reload",
            "fail: Original Hyprland config restored, but reload failed: c",
        ]
    );
}

#[test]
fn removing_twice_is_removing_once() {
    let text = "a\n# >>> ai-dikte >>>\nbind\n# <<< ai-dikte <<<\nb\r\n-- >>> ai-dikte >>>\nx\n--<<< ai-dikte <<<";
    let once = without_block(text).unwrap();
    assert_eq!(once, "a\nb\r\n");
    assert_eq!(without_block(&once).unwrap(), once);
    assert_eq!(
        without_block("# >>> ai-dikte >>>\nuser data"),
        Err(ShortcutError::Unterminated)
    );
}

#[test]
fn every_file_is_planned_before_any_write() {
    let good = "bind = SUPER, A, exec, a\n".to_string();
    let broken = "# >>> ai-dikte >>>\nuser data".to_string();
    assert_eq!(
        plan_edits(&vec![good.clone(), broken.clone()], Some(0), false),
        Err(ShortcutError::Unterminated)
    );
    assert_eq!(
        plan_edits(&vec![broken, "# <<< ai-dikte <<<\n".to_string()], None, false),
        Err(ShortcutError::Unterminated)
    );
    let installed = with_block(&good, false).unwrap();
    assert_eq!(
        plan_edits(&vec![installed.clone(), good.clone()], Some(1), false).unwrap(),
        vec![Some(good.clone()), Some(installed.clone())]
    );
    assert_eq!(
        plan_edits(&vec![good.clone(), installed.clone()], Some(1), false).unwrap(),
        vec![None, None]
    );
}
