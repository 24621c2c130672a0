use ddb::crawl::{fingerprint, md5_hash, next_tap, parse_semantic_elements, sort_strings, CrawlElement};

const DUMP: &str = "- content: \"Login\"\n  type: button\n  platform_id: \"btn_login\"\n  clickable: true\n- content: Welcome\n  type: text\n";

#[test]
fn semantic_dump_elements() {
    let els = parse_semantic_elements(DUMP);
    assert_eq!(els.len(), 2);
    assert_eq!(els[0].content, "Login");
    assert_eq!(els[0].element_type, "button");
    assert_eq!(els[0].id.as_deref(), Some("btn_login"));
    assert!(els[0].clickable);
    assert!(els[0].bounds.is_none());
    assert_eq!(els[1].content, "Welcome");
    assert_eq!(els[1].element_type, "text");
    assert_eq!(els[1].id, None);
    assert!(!els[1].clickable);
}

#[test]
fn empty_id_keeps_the_previous_one_and_a_type_alone_makes_an_element() {
    let els = parse_semantic_elements("type: header\nid: \"\"\nclickable: false\n");
    assert_eq!(els.len(), 1);
    assert_eq!(els[0].content, "");
    assert_eq!(els[0].element_type, "header");
    assert_eq!(els[0].id, None);
    assert!(parse_semantic_elements("nothing here\n").is_empty());
}

#[test]
fn fnv_hash_values() {
    assert_eq!(md5_hash(""), 0xcbf29ce484222325);
    assert_eq!(md5_hash("a"), 0xaf63dc4c8601ec8c);
}

#[test]
fn screen_fingerprint() {
    let els = parse_semantic_elements(DUMP);
    assert_eq!(fingerprint("unknown", &els), "a97f647d282682fb");
    let mut swapped: Vec<CrawlElement> = parse_semantic_elements(DUMP);
    swapped.reverse();
    assert_eq!(fingerprint("unknown", &swapped), "a97f647d282682fb");
    assert_ne!(fingerprint("other", &els), "a97f647d282682fb");
}

#[test]
fn sorting_is_stable_and_ordered() {
    let v: Vec<String> = vec!["b", "a", "c", "a"].into_iter().map(String::from).collect();
    assert_eq!(sort_strings(&v), vec!["a", "a", "b", "c"]);
    let u: Vec<String> = vec!["é", "z", "Z"].into_iter().map(String::from).collect();
    assert_eq!(sort_strings(&u), vec!["Z", "z", "é"]);
}

fn el(content: &str, clickable: bool) -> CrawlElement {
    CrawlElement { content: content.to_string(), element_type: "button".to_string(), id: None, bounds: None, clickable }
}

#[test]
fn next_tap_skips_excluded_tapped_and_static_elements() {
    let els = vec![el("Title", false), el("Share photo", true), el("Settings", true), el("Profile", true)];
    let exclude = "Share,Delete, Log out ,Uninstall";
    assert_eq!(next_tap(&els, exclude, &vec![]), Some(2));
    assert_eq!(next_tap(&els, exclude, &vec!["Settings".to_string()]), Some(3));
    assert_eq!(next_tap(&els, exclude, &vec!["Settings".to_string(), "Profile".to_string()]), None);
    let logout = vec![el("LOG OUT now", true)];
    assert_eq!(next_tap(&logout, exclude, &vec![]), None);
}
