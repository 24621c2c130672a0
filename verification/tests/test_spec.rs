use ddb::test_spec::{step_move, StepMove, StepStage};
use ddb::test_element::Target;
use ddb::test_spec::{
    agent_ready_timeout, case_budget, case_passed, check_version, expand_platform_steps, hard_timeout,
    lint_steps, parse_steps, run_exit_code, step_failure, step_label, step_target_desc, suite_entries,
    PlatformSteps, Step, StepRaw, VersionCheck,
};

fn fuzzy(s: &str) -> Target {
    Target {
        id: None,
        text: None,
        content_fuzzy: Some(s.to_string()),
        clickable_only: None,
        exclude_type: None,
        x: None,
        y: None,
    }
}

fn raw(action: Option<&str>, assert: Option<&str>, target: Option<Target>) -> StepRaw {
    StepRaw {
        action: action.map(String::from),
        assert: assert.map(String::from),
        target,
        text: None,
        direction: None,
        output: None,
        catalogue: None,
        seconds: None,
        expected: None,
        hint: None,
        enabled: None,
        times: None,
        url: None,
        site_id: None,
        user_id: None,
        platform: None,
        method: None,
        body: None,
        headers: None,
        save_as: None,
        wait_for: None,
        wait_timeout: None,
        click_after: None,
        source: None,
        max_attempts: None,
    }
}

#[test]
fn test_platform_fork_parsing() {
    // steps:
    //   - action: tap, target: {content_fuzzy: "Search"},
    //     platform: {android: [tap "search", wait 2s], ios: [tap "search ios"]}
    //   - action: scroll_to, target: {content_fuzzy: "questions"}
    let mut wait = raw(Some("wait"), None, None);
    wait.seconds = Some(2);
    let mut first = raw(Some("tap"), None, Some(fuzzy("Search")));
    first.platform = Some(PlatformSteps {
        android: Some(vec![raw(Some("tap"), None, Some(fuzzy("search"))), wait]),
        ios: Some(vec![raw(Some("tap"), None, Some(fuzzy("search ios")))]),
    });
    let steps = vec![first, raw(Some("scroll_to"), None, Some(fuzzy("questions")))];
    assert_eq!(steps.len(), 2, "should have 2 raw steps");

    let first = &steps[0];
    assert!(first.platform.is_some(), "first step should have platform");
    let plat = first.platform.as_ref().unwrap();
    assert!(plat.android.is_some(), "should have android sub-steps");
    let android = plat.android.as_ref().unwrap();
    assert_eq!(android.len(), 2, "android should have 2 sub-steps");
    assert_eq!(android[0].action.as_deref(), Some("tap"));

    // Test expansion — platform fork expands to android sub-steps
    let expanded = expand_platform_steps(steps);
    assert_eq!(expanded.len(), 3, "expanded should have 3 steps (2 android + 1 scroll)");
    assert_eq!(expanded[0].action.as_deref(), Some("tap"));
    assert_eq!(expanded[2].action.as_deref(), Some("scroll_to"));
}

#[test]
fn fork_without_android_steps_keeps_the_step() {
    let mut s = raw(Some("tap"), None, Some(fuzzy("x")));
    s.platform = Some(PlatformSteps { android: None, ios: Some(Vec::new()) });
    let e = expand_platform_steps(vec![s]);
    assert_eq!(e.len(), 1);
    assert_eq!(e[0].action.as_deref(), Some("tap"));
}

#[test]
fn steps_become_actions_or_assertions() {
    let steps = parse_steps(vec![
        raw(Some("tap"), Some("ignored"), Some(fuzzy("Login"))),
        raw(None, Some("element_exists"), None),
    ])
    .unwrap();
    assert_eq!(step_label(&steps[0]), "action:tap");
    assert_eq!(step_label(&steps[1]), "assert:element_exists");
    assert_eq!(step_target_desc(&steps[0]).as_deref(), Some("{content_fuzzy: \"Login\"}"));
    assert_eq!(step_target_desc(&steps[1]), None);
    assert!(matches!(steps[1], Step::Assert(_)));
    let bad = parse_steps(vec![raw(None, None, None)]);
    assert_eq!(bad.err().as_deref(), Some("step must have either 'action' or 'assert' field"));
}

#[test]
fn lint_finds_a_tap_without_target() {
    let steps = parse_steps(vec![
        raw(Some("wait"), None, None),
        raw(Some("long_press"), None, None),
    ])
    .unwrap();
    assert_eq!(lint_steps(&steps), Some((2, "YAML lint: long_press action has no target".to_string())));
    let ok = parse_steps(vec![raw(Some("tap"), None, Some(fuzzy("a")))]).unwrap();
    assert_eq!(lint_steps(&ok), None);
}

#[test]
fn suite_lists_yaml_files() {
    let content = "# smoke\n- login.yaml\n  - profile.yaml  \n# old.yaml\nnotes.txt\n";
    assert_eq!(suite_entries(content), vec!["login.yaml", "profile.yaml"]);
}

#[test]
fn installed_build_check() {
    assert!(matches!(check_version("{\"git_hash\":\"abc\"}", "abc"), Ok(Some(VersionCheck::Matches(h))) if h == "abc"));
    assert!(matches!(check_version("{\"git_hash\":\"\"}", "abc"), Ok(Some(VersionCheck::EmptyHash))));
    assert!(matches!(check_version("{}", "abc"), Ok(Some(VersionCheck::Unreadable))));
    assert!(matches!(check_version("{\"git_hash\":\"abc", "abc"), Ok(None)));
    assert_eq!(
        check_version("{\"git_hash\":\"def\"}", "abc").err().as_deref(),
        Some("STALE BINARY: installed=def expected=abc. Rebuild APK.")
    );
}

#[test]
fn time_budgets() {
    assert_eq!(case_budget(10, 5), 240);
    assert_eq!(case_budget(10, 20), 320);
    assert_eq!(case_budget(100, 5), 420);
    assert_eq!(hard_timeout(Some("77"), 5, 10), 77);
    assert_eq!(hard_timeout(Some("x"), 5, 10), 420);
    assert_eq!(hard_timeout(None, 20, 10), 720);
    assert_eq!(hard_timeout(None, 20, 60), 1020);
    assert_eq!(agent_ready_timeout(Some("9"), true), 9);
    assert_eq!(agent_ready_timeout(None, true), 120);
    assert_eq!(agent_ready_timeout(Some("soon"), false), 5);
}

#[test]
fn case_outcomes() {
    let f = step_failure("TC-1", "login", 2, 5, "element not found", true, None, Vec::new());
    assert_eq!(f.status, "FAIL");
    assert_eq!(f.steps_run, 2);
    let d = f.failure.unwrap();
    assert_eq!(d.step, 3);
    assert_eq!(d.description, "[ADB_ZOMBIE_DETECTED] element not found");
    let p = case_passed("TC-1", "login", 5, Vec::new());
    assert_eq!((p.status.as_str(), p.steps_run), ("PASS", 5));
    assert_eq!(run_exit_code(true, 1, 0), 2);
    assert_eq!(run_exit_code(true, 0, 3), 0);
    assert_eq!(run_exit_code(false, 0, 3), 1);
    assert_eq!(run_exit_code(false, 0, 0), 0);
}

use ddb::test_spec::{animations_url, grant_permissions_command, iso_at, now_iso, now_timestamp_slug, ZombieFlag};

#[test]
fn zombie_flag_take_clears() {
    // Pre-condition: the flag starts clean.
    let mut flag = ZombieFlag::new();
    let _ = flag.take_adb_zombie_flag();
    assert!(!flag.take_adb_zombie_flag(), "fresh flag should be false");

    flag.set_adb_zombie_flag();
    assert!(flag.take_adb_zombie_flag(), "after set, take should observe true");
    assert!(!flag.take_adb_zombie_flag(), "take clears — second take returns false");
}

#[test]
fn run_time_stamps() {
    assert_eq!(iso_at(0), "1970-01-01T00:00:00Z");
    assert_eq!(iso_at(1_700_000_000), "2023-01-01T22:13:20Z");
    assert_eq!(iso_at(3_661), "1970-01-01T01:01:01Z");
    assert!(now_iso().ends_with('Z'));
    assert!(now_timestamp_slug().chars().all(|c| c.is_ascii_digit()));
}

#[test]
fn agent_requests() {
    assert_eq!(
        grant_permissions_command("com.app"),
        "pm grant com.app android.permission.ACCESS_FINE_LOCATION; pm grant com.app android.permission.ACCESS_COARSE_LOCATION; pm grant com.app android.permission.POST_NOTIFICATIONS"
    );
    assert_eq!(animations_url("http://127.0.0.1:9876", false), "http://127.0.0.1:9876/animations?enabled=false");
}

#[test]
fn navigation_hints_last_line_wins() {
    let content = "screens:\n  deprioritize_patterns: \"ad_,promo\"\njaccard_threshold: 0.4\n deprioritize_patterns: banner\n";
    let (p, t) = ddb::test_spec::navigation_hints(content);
    assert_eq!(p, Some("banner".to_string()));
    assert_eq!(t, Some("0.4".to_string()));
    let (p, t) = ddb::test_spec::navigation_hints("deprioritize_patterns: \"ad_,promo\"\n");
    assert_eq!(p, Some("ad_,promo".to_string()));
    assert_eq!(t, None);
}

#[test]
fn step_moves_retry_once_while_time_left() {
    assert_eq!(step_move(StepStage::Begin, false, false), StepMove::FailTimeout);
    assert_eq!(step_move(StepStage::Begin, false, true), StepMove::Run);
    assert_eq!(step_move(StepStage::Ran, true, false), StepMove::Pass);
    assert_eq!(step_move(StepStage::Ran, false, true), StepMove::Recover);
    assert_eq!(step_move(StepStage::Ran, false, false), StepMove::Fail);
    assert_eq!(step_move(StepStage::Recovered, false, true), StepMove::CheckForeground);
    assert_eq!(step_move(StepStage::Recovered, false, false), StepMove::RetryGate);
    assert_eq!(step_move(StepStage::Foreground, false, true), StepMove::Retry);
    assert_eq!(step_move(StepStage::Foreground, false, false), StepMove::Fail);
    assert_eq!(step_move(StepStage::Retried, false, true), StepMove::Fail);
    assert_eq!(step_move(StepStage::Retried, true, true), StepMove::Pass);
}
