use ddb::test_action::{
    action_kind, activity_hit, already_visible, assert_activity, capture_catalogue, capture_output,
    clear_and_type, click_by, click_result, current_activity, found_in_activity_dump, found_in_ui_dump,
    full_url, gallery_paths, precheck, press_args, quoted_result, scroll_attempts, scroll_plan,
    scroll_to_failed, typing_via_agent, unknown_assert, wait_secs, ActionKind, ClickBy,
};
use ddb::test_element::Target;
use ddb::test_action::{api_outcome, api_outcome_defined, found_in_semantic};
use ddb::test_spec::ActionStep;

fn step(action: &str) -> ActionStep {
    ActionStep {
        action: action.to_string(),
        target: None,
        text: None,
        direction: None,
        output: None,
        catalogue: None,
        seconds: None,
        times: None,
        url: None,
        site_id: None,
        user_id: None,
        method: None,
        body: None,
        headers: None,
        save_as: None,
        wait_for: None,
        wait_timeout: None,
        click_after: None,
        source: None,
        max_attempts: None,
    }
}

fn target(id: Option<&str>, fuzzy: Option<&str>) -> Target {
    Target {
        id: id.map(String::from),
        text: None,
        content_fuzzy: fuzzy.map(String::from),
        clickable_only: None,
        exclude_type: None,
        x: None,
        y: None,
    }
}

#[test]
fn action_names() {
    assert!(action_kind("tap") == ActionKind::Tap);
    assert!(action_kind("press_back") == ActionKind::Back);
    assert!(action_kind("scroll_to") == ActionKind::Scroll);
    assert!(action_kind("fly") == ActionKind::Unknown);
}

#[test]
fn prechecks() {
    assert_eq!(precheck(&step("tap")).as_deref(), Some("tap: no target"));
    assert_eq!(precheck(&step("fly")).as_deref(), Some("unknown action: fly"));
    assert_eq!(
        precheck(&step("navigate_to_site")).as_deref(),
        Some("navigate_to_site: direct navigation deleted — use UI search/tap steps instead")
    );
    let mut click = step("click");
    click.target = Some(target(None, None));
    assert_eq!(precheck(&click).as_deref(), Some("click: need content_fuzzy or id"));
    click.target = Some(target(Some("ok"), None));
    assert_eq!(precheck(&click), None);
    assert_eq!(precheck(&step("wait")), None);
}

#[test]
fn press_and_type_commands() {
    assert_eq!(press_args(10, -3, "1500"), vec!["input", "swipe", "10", "-3", "10", "-3", "1500"]);
    let c = clear_and_type("hi there");
    assert_eq!(c[0], vec!["input", "keyevent", "KEYCODE_MOVE_HOME"]);
    assert_eq!(c[2], vec!["input", "keyevent", "KEYCODE_DEL"]);
    assert_eq!(c[3], vec!["input", "text", "hi%sthere"]);
    assert!(typing_via_agent(true, "abc"));
    assert!(typing_via_agent(false, "Åsa"));
    assert!(!typing_via_agent(false, "plain"));
    assert_eq!(quoted_result("typed", "abc"), "typed \"abc\"");
}

#[test]
fn click_and_scroll_helpers() {
    assert!(matches!(click_by(&target(Some("id1"), Some("Save"))), Some(ClickBy::ContentFuzzy(s)) if s == "Save"));
    assert!(matches!(click_by(&target(Some("id1"), None)), Some(ClickBy::ResourceId(s)) if s == "id1"));
    assert!(click_by(&target(None, None)).is_none());
    assert_eq!(click_result("  ok\n"), "click: ok");
    assert_eq!(wait_secs(&step("wait")), 2);
    assert_eq!(scroll_attempts(&step("scroll_to")), 10);
    let mut s = step("scroll");
    s.times = Some(3);
    assert_eq!(scroll_plan(&s), ("down".to_string(), 3));
    assert_eq!(already_visible("Save", 5, 7), "already visible: Save at (5,7)");
    assert_eq!(scroll_to_failed(4), "scroll_to: element not found after 4 attempts");
}

#[test]
fn captures_and_urls() {
    assert_eq!(capture_output("shots/{platform}/home.png"), "shots/android/home.png");
    let (p, args, msg) = gallery_paths("cat.jpg");
    assert_eq!(p, "/sdcard/Pictures/cat.jpg");
    assert_eq!(args[5], "file:///sdcard/Pictures/cat.jpg");
    assert_eq!(msg, "staged cat.jpg → /sdcard/Pictures/cat.jpg");
    assert_eq!(full_url("http://127.0.0.1:9876", "/health"), "http://127.0.0.1:9876/health");
    assert_eq!(full_url("http://b", "https://x/y"), "https://x/y");
    assert_eq!(capture_catalogue(Some("cat"), "nowhere.png"), Some(("cat".to_string(), None)));
    assert_eq!(capture_catalogue(None, "nowhere.png"), None);
}

#[test]
fn activity_and_dumps() {
    assert_eq!(current_activity("  mResumedActivity: u0 com.x/.Main t1}\nmore"), "mResumedActivity: u0 com.x/.Main t1}");
    assert_eq!(current_activity(""), "");
    assert_eq!(assert_activity(Some("Main"), "com.x/.Main"), Ok("activity matches: com.x/.Main".to_string()));
    assert_eq!(assert_activity(Some("Login"), "com.x/.Main"), Err("expected activity Login, got com.x/.Main".to_string()));
    assert_eq!(assert_activity(None, "x"), Err("assert activity: no expected".to_string()));
    assert!(found_in_ui_dump("<node text=\"Sign In\"/>", Some("sign in"), None, None));
    assert!(found_in_ui_dump("<node resource-id=\"app:id/ok\"/>", None, Some("id/ok"), None));
    assert!(!found_in_ui_dump("<node/>", Some("x"), Some("y"), Some("z")));
    assert!(found_in_activity_dump("View SAVE", Some("save")));
    assert_eq!(activity_hit("View SAVE", "save"), Some((540, 1200, "activity dump: save".to_string())));
    assert_eq!(activity_hit("View SAVE", ""), None);
    assert_eq!(unknown_assert("glow"), "unknown assert: glow");
}

#[test]
fn found_in_semantic_reports_the_fuzzy_hits_content_line() {
    let els = vec![
        "id: a\ncontent: \"Other\"".to_string(),
        "id: save_btn\ncontent: \"Save Draft\"\nclickable: true".to_string(),
    ];
    assert_eq!(
        found_in_semantic(&els, Some("save draft"), None).as_deref(),
        Some("found: content: \"Save Draft\"")
    );
    assert_eq!(found_in_semantic(&els, None, Some("save_btn")).as_deref(), Some("found: "));
    assert_eq!(found_in_semantic(&els, Some("missing"), Some("nope")), None);
}

#[test]
fn api_outcome_cut_is_checked_first() {
    assert!(api_outcome_defined("{\"ok\":true}\n200"));
    let (res, body) = api_outcome("GET", "http://h/x", "{\"ok\":true}\n200");
    assert_eq!(res.unwrap(), "api_call GET http://h/x → 200 (11 bytes)");
    assert_eq!(body, "{\"ok\":true}");
    let bad = format!("{}é\n500", "x".repeat(199));
    assert!(!api_outcome_defined(&bad));
    let ok_err = format!("{}\n404", "y".repeat(250));
    assert!(api_outcome_defined(&ok_err));
    let (res2, _) = api_outcome("POST", "u", &ok_err);
    assert_eq!(res2.unwrap_err(), format!("api_call POST u: HTTP 404 — {}", "y".repeat(200)));
}
