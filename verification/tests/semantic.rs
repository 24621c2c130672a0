use ddb::semantic::query_activity;
use ddb::semantic::{
    build_element, classify_type, decode_entities, disambiguate_ids, is_framework_container, slugify,
    to_snake, FullNode,
};

fn node(text: &str, desc: &str, rid: &str, class: &str, clickable: bool, bounds: &str) -> FullNode {
    FullNode {
        text: text.to_string(),
        content_desc: desc.to_string(),
        resource_id: rid.to_string(),
        class_name: class.to_string(),
        package: "com.app".to_string(),
        clickable,
        focusable: false,
        checkable: false,
        checked: false,
        enabled: true,
        selected: false,
        scrollable: false,
        bounds: bounds.to_string(),
        index: 0,
    }
}

#[test]
fn names() {
    assert_eq!(decode_entities("a &amp; b &lt;c&gt; &quot;d&quot; &apos;e&apos;"), "a & b <c> \"d\" 'e'");
    assert_eq!(slugify("Sign In!"), "sign_in");
    assert_eq!(slugify("Q &amp; A"), "q_a");
    assert_eq!(to_snake("loginButton"), "loginbutton");
    assert_eq!(to_snake("btn-login__x"), "btn_login_x");
}

#[test]
fn types_and_containers() {
    assert_eq!(classify_type("android.widget.TextView", true), "button");
    assert_eq!(classify_type("android.widget.TextView", false), "text");
    assert_eq!(classify_type("android.widget.EditText", false), "input");
    assert_eq!(classify_type("android.widget.Switch", false), "toggle");
    assert_eq!(classify_type("android.widget.FrameLayout", false), "container");
    assert_eq!(classify_type("com.x.Custom", true), "button");
    assert_eq!(classify_type("com.x.Custom", false), "view");
    assert!(is_framework_container("content", "android.widget.TextView"));
    assert!(is_framework_container("mainContainer", "x.View"));
    assert!(is_framework_container("wrapper", "android.view.ViewGroup"));
    assert!(!is_framework_container("", "android.widget.FrameLayout"));
    assert!(!is_framework_container("title", "android.widget.TextView"));
}

#[test]
fn elements_from_nodes() {
    let e = build_element(&node("Sign In", "", "com.app:id/sign_in_btn", "android.widget.Button", true, "[0,0][10,10]")).unwrap();
    assert_eq!(e.id, "sign_in");
    assert_eq!(e.platform_id.as_deref(), Some("sign_in_btn"));
    assert_eq!(e.elem_type, "button");
    assert_eq!(e.content.as_deref(), Some("Sign In"));
    assert!(e.accessible);
    assert_eq!(e.a11y_label, None);
    assert_eq!(e.a11y_id.as_deref(), Some("sign_in_btn"));
    let icon = build_element(&node("", "Back", "", "android.widget.ImageButton", true, "[0,0][10,10]")).unwrap();
    assert_eq!(icon.id, "back");
    assert_eq!(icon.a11y_label.as_deref(), Some("Back"));
    assert!(build_element(&node("", "", "com.app:id/root_frame", "android.widget.FrameLayout", false, "[0,0][10,10]")).is_none());
    assert!(build_element(&node("Hi", "", "", "android.widget.TextView", false, "[0,0]")).is_none());
    assert!(build_element(&node("", "", "", "android.view.View", true, "[0,0][5,5]")).is_none());
}

#[test]
fn repeated_ids_are_numbered() {
    let mut ids: Vec<String> = vec!["a", "b", "a", ""].into_iter().map(String::from).collect();
    disambiguate_ids(&mut ids);
    assert_eq!(ids, vec!["a_0", "b", "a_1", ""]);
}

#[test]
fn resumed_activity_name() {
    let out = "ACTIVITY MANAGER\n  mResumedActivity: ActivityRecord{1 u0 com.app/.ui.MainActivity t12}\n";
    assert_eq!(query_activity(out), "ui.MainActivity");
    let top = "topResumedActivity=ActivityRecord{2 u0 com.other/com.other.Home}";
    assert_eq!(query_activity(top), "com.other.Home");
    assert_eq!(query_activity("mResumedActivity: none\n"), "");
    assert_eq!(query_activity("mResumedActivity: u0 com.app/.A"), "");
}
