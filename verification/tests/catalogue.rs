use ddb::catalogue::detect_catalogue_path;
use ddb::catalogue::{
    extract_timestamp, new_manifest, new_manifest_at, record_capture, timestamp_cuts,
    update_manifest_screenshot, update_manifest_semantic,
};

#[test]
fn detect_catalogue_path_valid() {
    let (root, key) = detect_catalogue_path(
        "/Users/Shared/projects/Outdoors/catalogue/android/discover/semantic.yaml",
    )
    .unwrap();
    assert_eq!(root, "/Users/Shared/projects/Outdoors/catalogue");
    assert_eq!(key, "android/discover");
}

#[test]
fn detect_catalogue_path_ios() {
    let (_, key) =
        detect_catalogue_path("/some/path/catalogue/ios/site-detail/screenshot.png").unwrap();
    assert_eq!(key, "ios/site-detail");
}

#[test]
fn detect_catalogue_path_invalid_platform() {
    assert!(detect_catalogue_path("/path/catalogue/windows/screen/file.yaml").is_none());
}

#[test]
fn detect_catalogue_path_too_short() {
    assert!(detect_catalogue_path("/path/catalogue/android").is_none());
}

#[test]
fn components_ignore_repeated_separators_and_dots() {
    let (root, key) = detect_catalogue_path("//a/./catalogue//figma/home/").unwrap();
    assert_eq!(root, "/a/catalogue");
    assert_eq!(key, "figma/home");
    let (rel, k2) = detect_catalogue_path("./catalogue/android/s").unwrap();
    assert_eq!(rel, "./catalogue");
    assert_eq!(k2, "android/s");
    let (plain, _) = detect_catalogue_path("catalogue/ios/x").unwrap();
    assert_eq!(plain, "catalogue");
    assert!(detect_catalogue_path("/no/catalog/here/a/b").is_none());
}

#[test]
fn manifest_records_semantic_then_screenshot() {
    let mut m = new_manifest_at("2026-05-24T00:00:00Z".to_string());
    assert_eq!(m.version, 1);
    assert!(m.entries.is_empty());
    record_capture(&mut m, "android/discover", "T1".to_string(), Some((42, 0)));
    assert_eq!(m.entries.len(), 1);
    assert_eq!(m.updated, "T1");
    let (k, e) = &m.entries[0];
    assert_eq!(k, "android/discover");
    assert_eq!(e.elements, Some(42));
    assert_eq!(e.history_count, Some(0));
    assert_eq!(e.state.as_deref(), Some("default"));
    assert_eq!(e.last_captured, "T1");
    record_capture(&mut m, "android/discover", "T2".to_string(), None);
    assert_eq!(m.entries.len(), 1);
    let (_, e2) = &m.entries[0];
    assert_eq!(e2.elements, Some(42));
    assert_eq!(e2.history_count, Some(0));
    assert_eq!(e2.last_captured, "T2");
    assert_eq!(m.updated, "T2");
}

#[test]
fn manifest_screenshot_of_new_screen_has_no_counts() {
    let mut m = new_manifest();
    update_manifest_screenshot(&mut m, "ios/home");
    assert_eq!(m.entries.len(), 1);
    let (k, e) = &m.entries[0];
    assert_eq!(k, "ios/home");
    assert_eq!(e.elements, None);
    assert_eq!(e.history_count, None);
    assert_eq!(e.state.as_deref(), Some("default"));
    assert_eq!(e.last_captured, m.updated);
    update_manifest_semantic(&mut m, "android/list", 7, 2);
    assert_eq!(m.entries.len(), 2);
    assert_eq!(m.entries[1].1.elements, Some(7));
    assert_eq!(m.entries[1].1.history_count, Some(2));
    assert_eq!(m.entries[0].1.elements, None);
}

#[test]
fn archive_suffix_from_timestamp_line() {
    let content = "timestamp: \"2026-05-24T00:49:16Z\"\nelements:\n  - id: test\n";
    assert!(timestamp_cuts(content));
    assert_eq!(extract_timestamp(content).as_deref(), Some("20260524T0049"));
    let quoted = "screen: x\n  timestamp: '2026-01-02T03:04:05Z'\n";
    assert_eq!(extract_timestamp(quoted).as_deref(), Some("20260102T0304"));
    assert_eq!(extract_timestamp("elements: []\n"), None);
    let late = "a\nb\nc\nd\ne\nf\ng\nh\ni\nj\ntimestamp: 2026-05-24T00:49:16Z\n";
    assert_eq!(extract_timestamp(late), None);
    assert!(!timestamp_cuts("timestamp: 2026\n"));
}
