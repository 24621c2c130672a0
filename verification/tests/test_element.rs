use ddb::test_element::{
    chunk_exact_match, chunk_tap_point, compute_scroll_bounds, extract_ui_bounds,
    extract_ui_bounds_fuzzy, extract_ui_text_bounds, extract_yaml_int, extract_yaml_int_after,
    idle_barrier_network_only, idle_barrier_sources, parse_bounds_center, scroll_direction,
    search_uiautomator, ElementSource,
};
use ddb::test_element::{fuzzy_haystacks, scroll_swipe_fits, idle_outcome, match_fields, scroll_outcome, scroll_reply_fits, IdleReply, IdleStep, ScrollReply, Target};

#[test]
fn test_extract_yaml_int_after_stops_at_nonmatching_line() {
    let chunk = "tap_target:\n  x: 100\n  y: 200\nother_section:\n  x: 999";
    let x = extract_yaml_int_after(chunk, "tap_target:", "x: ");
    assert_eq!(x, Some(100));
    let y = extract_yaml_int_after(chunk, "tap_target:", "y: ");
    assert_eq!(y, Some(200));
    let chunk2 = "tap_target:\n  w: 50\nz: 300\nx: 999";
    let x2 = extract_yaml_int_after(chunk2, "tap_target:", "x: ");
    assert_eq!(x2, None, "should not find x from outside tap_target section");
}

#[test]
fn test_extract_ui_bounds_invalid_xml_returns_none() {
    let xml = r#"<node bounds="garbage"/>"#;
    let result = extract_ui_bounds(xml, "someId");
    assert_eq!(result, None, "invalid bounds should return None");

    let xml2 = r#"<node resource-id="id/someId" bounds="[abc,def][ghi,jkl]"/>"#;
    let result2 = extract_ui_bounds(xml2, "someId");
    assert_eq!(result2, None, "invalid numeric bounds should return None");
}

#[test]
fn test_extract_ui_bounds_valid_xml_returns_center() {
    let xml = r#"<node resource-id="id/submitButton" bounds="[0,0][100,200]" text="Submit"/>"#;
    let result = extract_ui_bounds(xml, "submitButton");
    assert_eq!(result, Some((50, 100)), "center of [0,0][100,200] should be (50,100)");
}

#[test]
fn test_extract_ui_bounds_fuzzy_case_insensitive() {
    let xml = r#"<node text="Questions &amp; Answers" bounds="[100,200][300,400]"/>"#;
    let result = extract_ui_bounds_fuzzy(xml, "questions");
    assert_eq!(result, Some((200, 300)), "center of [100,200][300,400]");
}

#[test]
fn extract_yaml_int_reads_first_matching_line() {
    assert_eq!(extract_yaml_int("id: a\n  x: 12\n  x: 13", "x: "), Some(12));
    assert_eq!(extract_yaml_int("  x: twelve\n  x: 13", "x: "), None);
    assert_eq!(extract_yaml_int("y: 1", "x: "), None);
}

#[test]
fn parse_bounds_center_rounds_toward_zero() {
    assert_eq!(parse_bounds_center(r#"bounds="[1,2][4,7]""#), Some((2, 4)));
    assert_eq!(parse_bounds_center(r#"bounds="[-5,0][0,0]""#), Some((-2, 0)));
    assert_eq!(parse_bounds_center(r#"bounds="[1,2,3][4,7]""#), None);
}

#[test]
fn extract_ui_text_bounds_finds_text_prefix() {
    let xml = r#"<node text="Sign in now" bounds="[10,10][30,50]"/>"#;
    assert_eq!(extract_ui_text_bounds(xml, "Sign in"), Some((20, 30)));
    assert_eq!(extract_ui_text_bounds(xml, "Log out"), None);
}

#[test]
fn fuzzy_falls_back_to_enclosing_node() {
    // The bounds come before the text inside the same node.
    let pad = "x".repeat(400);
    let xml = format!(r#"<node bounds="[0,0][10,10]" a="{pad}" text="Target"/>"#);
    assert_eq!(extract_ui_bounds_fuzzy(&xml, "target"), Some((5, 5)));
}

#[test]
fn chunk_tap_point_prefers_tap_target() {
    let chunk = "id: a\n  x: 10\n  y: 20\n  w: 100\n  h: 40\n  tap_target:\n    x: 0\n    y: 0\n    w: 10\n    h: 10";
    assert_eq!(chunk_tap_point(chunk), Some((5, 5)));
    let plain = "id: a\n  x: 10\n  y: 20\n  w: 100\n  h: 40";
    assert_eq!(chunk_tap_point(plain), Some((60, 40)));
    assert_eq!(chunk_tap_point("id: a\n  x: 1"), None);
}

#[test]
fn chunk_exact_match_by_id_and_text() {
    let chunk = "id: login\n  platform_id: \"btn_login\"\n  content: Log in";
    assert!(chunk_exact_match(chunk, "btn_login", ""));
    assert!(chunk_exact_match(chunk, "", "Log in"));
    assert!(!chunk_exact_match(chunk, "", ""));
    assert!(!chunk_exact_match(chunk, "signup", "Sign up"));
}

#[test]
fn search_uiautomator_prefers_fuzzy_then_id() {
    let xml = r#"<node resource-id="app:id/go" text="Go Now" bounds="[0,0][20,20]"/>"#;
    let r = search_uiautomator(xml, "go", "", "go now").unwrap();
    assert_eq!((r.0, r.1, r.2.as_str()), (10, 10, "uiautomator: go now"));
    let r2 = search_uiautomator(xml, "go", "", "").unwrap();
    assert_eq!(r2.2, "uiautomator: go");
    assert!(search_uiautomator(xml, "", "", "").is_none());
}

#[test]
fn scroll_bounds_use_big_container_or_defaults() {
    assert_eq!(compute_scroll_bounds(None, "up"), (540, 500, 540, 1500));
    assert_eq!(compute_scroll_bounds(None, "down"), (540, 1500, 540, 500));
    let yaml = "screen: s\n- id: list\n  type: container\n  class: RecyclerView\n  x: 0\n  y: 100\n  w: 1080\n  h: 2000";
    assert_eq!(compute_scroll_bounds(Some(yaml), "down"), (540, 1600, 540, 600));
    assert_eq!(compute_scroll_bounds(Some(yaml), "up"), (540, 600, 540, 1600));
    let args = scroll_direction(Some(yaml), "down").unwrap();
    assert_eq!(args, vec!["input", "swipe", "540", "1600", "540", "600", "500"]);
}

#[test]
fn idle_barrier_source_lists() {
    let all = idle_barrier_sources(7);
    assert_eq!(all.len(), 3);
    match &all[0] {
        ElementSource::IdleBarrier { timeout_s, resources } => {
            assert_eq!(*timeout_s, 7);
            assert_eq!(resources, &vec!["ui_thread", "network", "scroll", "layout", "presentation"]);
        }
        _ => panic!("first source should be the idle barrier"),
    }
    let net = idle_barrier_network_only(3);
    match &net[0] {
        ElementSource::IdleBarrier { resources, .. } => assert_eq!(resources, &vec!["network"]),
        _ => panic!("first source should be the idle barrier"),
    }
    assert!(matches!(net[1], ElementSource::Semantic));
    assert!(matches!(net[2], ElementSource::UIAutomator));
}

use ddb::test_element::{not_found_message, search_semantic_yaml, target_position};

fn tgt(id: Option<&str>, text: Option<&str>, fuzzy: Option<&str>) -> ddb::test_element::Target {
    ddb::test_element::Target {
        id: id.map(String::from),
        text: text.map(String::from),
        content_fuzzy: fuzzy.map(String::from),
        clickable_only: None,
        exclude_type: None,
        x: None,
        y: None,
    }
}

const SCREEN: &str = "screen: home\n- id: \"save_btn\"\n  content: Save\n  clickable: true\n  x: 10\n  y: 20\n  w: 100\n  h: 40\n- content: Help\n  x: 0\n  y: 0\n  w: 10\n  h: 10\n";

#[test]
fn semantic_lookup_exact_then_fuzzy() {
    let none = [false, false, false];
    assert_eq!(
        search_semantic_yaml(SCREEN, &tgt(Some("save_btn"), None, None), &none, "see all,inspiration"),
        Some((60, 40, "content: Save at (60, 40)".to_string()))
    );
    assert_eq!(
        search_semantic_yaml(SCREEN, &tgt(None, None, Some("help")), &[false, false, true], "see all,inspiration"),
        Some((5, 5, "content: Help at (5, 5)".to_string()))
    );
    assert_eq!(search_semantic_yaml(SCREEN, &tgt(None, Some("Nope"), None), &none, "see all"), None);
}

#[test]
fn positions_and_messages() {
    let mut t = tgt(None, None, Some("x"));
    t.x = Some(3);
    t.y = Some(-4);
    assert_eq!(target_position(&t), Some((3, -4, "position (3, -4)".to_string())));
    assert_eq!(target_position(&tgt(None, None, None)), None);
    assert_eq!(not_found_message(&tgt(Some(""), Some("Hi"), Some("h"))), "element not found: Hi");
    assert_eq!(not_found_message(&tgt(None, None, None)), "element not found: ");
}

use ddb::test_element::{fetch_ui_dump, get_semantic_elements, scroll_target, scroll_to_element};

#[test]
fn fetched_dumps() {
    assert_eq!(fetch_ui_dump(Ok("<hierarchy/>".to_string())), "<hierarchy/>");
    assert_eq!(fetch_ui_dump(Ok("  \n".to_string())), "");
    assert_eq!(fetch_ui_dump(Err("no device".to_string())), "");
    assert_eq!(
        get_semantic_elements(Ok("a\n- b\n- c".to_string())),
        Ok(vec!["a".to_string(), "b".to_string(), "c".to_string()])
    );
    assert_eq!(get_semantic_elements(Err("down".to_string())), Err("down".to_string()));
    assert_eq!(scroll_target("FAQ").content_fuzzy.as_deref(), Some("FAQ"));
    assert_eq!(scroll_to_element(true, "FAQ"), Ok(()));
    assert_eq!(
        scroll_to_element(false, "FAQ"),
        Err("scroll_to_element: not found via agent scroll search: FAQ".to_string())
    );
}

fn target(id: Option<&str>, text: Option<&str>, fuzzy: Option<&str>) -> Target {
    Target {
        id: id.map(|s| s.to_string()),
        text: text.map(|s| s.to_string()),
        content_fuzzy: fuzzy.map(|s| s.to_string()),
        clickable_only: None,
        exclude_type: None,
        x: None,
        y: None,
    }
}

#[test]
fn match_fields_lists_present_search_fields_in_order() {
    let f = match_fields(&target(Some("btn"), None, Some("Save")));
    assert_eq!(
        f,
        vec![("id".to_string(), "btn".to_string()), ("content_fuzzy".to_string(), "Save".to_string())]
    );
    assert!(match_fields(&target(None, None, None)).is_empty());
}

fn idle(found: bool, timed_out: bool) -> IdleReply {
    IdleReply { found, timed_out, x: Some(10), y: None, content: Some("Save".to_string()), idle_wait_ms: Some(250) }
}

#[test]
fn idle_outcome_reports_hit_and_retries_timeouts() {
    match idle_outcome("{...}", Some(idle(true, false)), 0) {
        IdleStep::Found(x, y, d) => {
            assert_eq!((x, y), (10, 1200));
            assert_eq!(d, "idle-barrier: Save at (10,1200) wait=250ms");
        }
        _ => panic!("expected a hit"),
    }
    assert!(matches!(idle_outcome("{...}", Some(idle(false, true)), 1), IdleStep::Retry));
    assert!(matches!(idle_outcome("{...}", Some(idle(false, true)), 2), IdleStep::GiveUp));
    assert!(matches!(idle_outcome("", Some(idle(true, false)), 0), IdleStep::GiveUp));
    assert!(matches!(idle_outcome("HTTP 404", Some(idle(true, false)), 0), IdleStep::GiveUp));
    assert!(matches!(idle_outcome("not json", None, 0), IdleStep::GiveUp));
    assert!(matches!(idle_outcome("{}", Some(idle(false, false)), 0), IdleStep::GiveUp));
}

#[test]
fn scroll_outcome_taps_the_middle_of_the_bounds() {
    let rep = ScrollReply {
        found: true,
        bx: Some(100),
        by: Some(400),
        bw: Some(201),
        bh: None,
        content: Some("Row 9".to_string()),
        scrolls: Some(3),
    };
    assert!(scroll_reply_fits(&rep));
    let (x, y, d) = scroll_outcome(Some(rep)).unwrap();
    assert_eq!((x, y), (200, 425));
    assert_eq!(d, "scroll-search: Row 9 at (200,425) scrolls=3");
    let miss = ScrollReply { found: false, bx: None, by: None, bw: None, bh: None, content: None, scrolls: None };
    assert!(scroll_outcome(Some(miss)).is_none());
    assert!(scroll_outcome(None).is_none());
    let big = ScrollReply { found: true, bx: Some(i32::MAX as i64), by: None, bw: Some(10), bh: None, content: None, scrolls: None };
    assert!(!scroll_reply_fits(&big));
}

#[test]
fn scroll_swipe_fits_guards_the_container_sums() {
    assert!(scroll_swipe_fits(None));
    let yaml = "screen: s\n- id: list\n  type: container\n  class: RecyclerView\n  x: 0\n  y: 100\n  w: 1080\n  h: 2000";
    assert!(scroll_swipe_fits(Some(yaml)));
    let huge = "screen: s\n- id: list\n  type: container\n  class: RecyclerView\n  x: 0\n  y: 2147483000\n  w: 1080\n  h: 2000";
    assert!(!scroll_swipe_fits(Some(huge)));
}

#[test]
fn fuzzy_haystacks_are_lowercased_label_lines() {
    let chunk = "id: save\n  content: \"Save Draft\"\n  a11y_label: Save NOW\n  type: button";
    assert_eq!(fuzzy_haystacks(chunk), vec![" \"save draft\"", " save now"]);
    assert!(fuzzy_haystacks("id: x\n  type: view").is_empty());
}

#[test]
fn idle_reply_reads_the_agent_answer() {
    let r = ddb::test_element::idle_reply(
        r#"{"found":true,"element":{"x":120,"y":-4,"content":"Save"},"idle_wait_ms":35}"#,
    )
    .unwrap();
    assert!(r.found);
    assert!(!r.timed_out);
    assert_eq!(r.x, Some(120));
    assert_eq!(r.y, Some(-4));
    assert_eq!(r.content.as_deref(), Some("Save"));
    assert_eq!(r.idle_wait_ms, Some(35));
    let t = ddb::test_element::idle_reply(r#"{"found":"true","timeout":true,"element":[1]}"#).unwrap();
    assert!(!t.found);
    assert!(t.timed_out);
    assert_eq!(t.x, None);
    assert!(ddb::test_element::idle_reply("404 not found").is_none());
}

#[test]
fn scroll_reply_reads_the_bounds() {
    let r = ddb::test_element::scroll_reply(
        r#"{"found":true,"element":{"bounds":{"x":10,"y":20,"w":30.5,"h":40},"content":"Row"},"scrolls":3}"#,
    )
    .unwrap();
    assert!(r.found);
    assert_eq!((r.bx, r.by, r.bw, r.bh), (Some(10), Some(20), None, Some(40)));
    assert_eq!(r.content.as_deref(), Some("Row"));
    assert_eq!(r.scrolls, Some(3));
    assert!(ddb::test_element::scroll_reply("").is_none());
}
