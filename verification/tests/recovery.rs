use ddb::recovery::{
    idle_probe_due, idle_reported, keyboard_shown, leftover_entries, needs_relaunch, permission_buttons,
    permission_dialog_possible, permission_prompt_shown, surviving_pid, sweep_due,
};

#[test]
fn idle_probe_every_fifth_poll() {
    assert!(!idle_probe_due(0));
    assert!(!idle_probe_due(4));
    assert!(idle_probe_due(5));
    assert!(!idle_probe_due(7));
    assert!(idle_probe_due(10));
}

#[test]
fn sweep_only_on_clean_state_every_fifth_case() {
    assert!(!sweep_due(true, 0));
    assert!(sweep_due(true, 5));
    assert!(!sweep_due(false, 5));
    assert!(!sweep_due(true, 6));
    assert!(sweep_due(true, 15));
}

#[test]
fn idle_answers() {
    assert!(idle_reported("{\"idle\":true}"));
    assert!(idle_reported("true"));
    assert!(!idle_reported("{\"busy\":1}"));
}

#[test]
fn keyboard_shown_from_dumpsys() {
    assert!(keyboard_shown("  mInputShown=true mShowRequested=true"));
    assert!(!keyboard_shown("  mInputShown=false"));
}

#[test]
fn permission_prompt_is_case_blind() {
    assert!(permission_prompt_shown("resource-id=\"com.android:id/PERMISSION_ALLOW_BUTTON\""));
    assert!(permission_prompt_shown("text=\"While using the app\""));
    assert!(!permission_prompt_shown("text=\"Allow\""));
    assert!(permission_dialog_possible("text=\"Allow\""));
    assert!(!permission_dialog_possible("text=\"Search\""));
}

#[test]
fn relaunch_when_app_left_front() {
    assert!(!needs_relaunch("ActivityRecord{1 u0 com.example/.Main t9}", "com.example"));
    assert!(needs_relaunch("ActivityRecord{1 u0 com.android.launcher/.Home}", "com.example"));
}

#[test]
fn permission_buttons_default_and_configured() {
    assert_eq!(
        permission_buttons(None),
        vec!["permission_allow_foreground_only_button".to_string(), "permission_allow_button".to_string()]
    );
    assert_eq!(permission_buttons(Some(" a , b,c ")), vec!["a".to_string(), "b".to_string(), "c".to_string()]);
}

#[test]
fn leftovers_after_clear() {
    assert_eq!(leftover_entries("run-as: package not debuggable: x is not debuggable"), None);
    assert_eq!(leftover_entries("run-as: Permission denied"), None);
    assert_eq!(leftover_entries("\n"), Some(vec![]));
    assert_eq!(
        leftover_entries("cache\n\nfiles\n"),
        Some(vec!["cache".to_string(), "files".to_string()])
    );
}

#[test]
fn pid_after_force_stop() {
    assert_eq!(surviving_pid("  \n"), None);
    assert_eq!(surviving_pid("4242\n"), Some("4242".to_string()));
}
