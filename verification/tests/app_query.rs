use ddb::app_query::{badging_package, focus_lines, focused_on, package_lines};

#[test]
fn focus_lines_keep_the_focus_entries_trimmed() {
    let out = "WINDOW MANAGER\n  mCurrentFocus=Window{a u0 com.x/.Main}\n  other\n  mFocusedApp=ActivityRecord{b}\n";
    assert_eq!(
        focus_lines(out),
        vec!["mCurrentFocus=Window{a u0 com.x/.Main}", "mFocusedApp=ActivityRecord{b}"]
    );
    assert!(focused_on(out, "com.x"));
    assert!(!focused_on(out, "com.y"));
}

#[test]
fn package_lines_strip_prefix_and_filter() {
    let out = "package:com.a.one\npackage:org.b\n  package:com.a.two  \n";
    assert_eq!(package_lines(out, None), vec!["com.a.one", "org.b", "com.a.two"]);
    assert_eq!(package_lines(out, Some("com.a")), vec!["com.a.one", "com.a.two"]);
}

#[test]
fn badging_package_reads_the_name_token() {
    let out = "sdkVersion:'24'\npackage: name='com.example.app' versionCode='7' versionName='1.0'\n";
    assert_eq!(badging_package(out).as_deref(), Some("com.example.app"));
    assert_eq!(badging_package("package: versionCode='7'\n"), None);
    assert_eq!(badging_package("nothing\n"), None);
}
