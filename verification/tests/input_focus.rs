use ddb::input_focus::{edit_text_point, focus_failure, focus_needed, input_point, served_view_line};
use ddb::input_focus::{edit_point_defined_exec, input_point_fits, served_view_defined};

#[test]
fn served_view_decides() {
    assert!(focus_needed("mServedView=null\nmInputShown=false"));
    assert!(!focus_needed("mServedView=android.widget.EditText{abc}"));
    assert!(!focus_needed("mServedView=androidx.appcompat.widget.AppCompatEditText{1}"));
    assert!(focus_needed("mServedView=com.android.internal.policy.DecorView{x}"));
    assert_eq!(
        served_view_line("foo\nmServedView=com.x.Y{abc}\nmInputShown=true"),
        "mServedView=com.x.Y{abc}"
    );
    assert_eq!(served_view_line("nothing"), "");
}

#[test]
fn field_points() {
    let yaml = "- type: text\n  x: 0\n- type: input\n  x: 10\n  y: 20\n  w: 100\n  h: 40\n";
    assert_eq!(input_point(yaml), Some((60, 40)));
    assert_eq!(input_point("- type: text\n  x: 1\n  y: 1\n  w: 1\n  h: 1\n"), None);
    let xml = r#"<node class="android.widget.EditText" bounds="[10,20][110,60]"/>"#;
    assert_eq!(edit_text_point(xml), Some((60, 40)));
    assert_eq!(edit_text_point(r#"<node class="Button" bounds="[0,0][1,1]"/>"#), None);
    assert_eq!(
        focus_failure("mServedView=x"),
        "ensure_input_focus: no EditText found on /semantic or UIAutomator after 10 attempts (mServedView snippet: mServedView=x)"
    );
}

#[test]
fn focus_inputs_are_checked_before_use() {
    assert!(served_view_defined("mServedView=abc"));
    let long = format!("mServedView={}é", "a".repeat(67));
    assert!(!served_view_defined(&long));
    assert!(input_point_fits("- type: input\n  x: 10\n  y: 20\n  w: 100\n  h: 40\n"));
    assert!(!input_point_fits("- type: input\n  x: 2147483647\n  y: 20\n  w: 100\n  h: 40\n"));
    assert!(edit_point_defined_exec(r#"<node class="android.widget.EditText" bounds="[10,20][110,60]"/>"#));
    assert!(!edit_point_defined_exec(r#"<node class="EditText" bounds="[2147483647,0][10,0]"/>"#));
    assert!(edit_point_defined_exec("no field here"));
}
