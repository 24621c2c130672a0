use ddb::ui_parser::{element_line, Element};
use ddb::ui_parser::{center, parse, short_id};

#[test]
fn dump_elements() {
    let xml = r#"<hierarchy><node text="Login" resource-id="com.app:id/login" clickable="true" bounds="[0,0][100,50]"/><node text="" content-desc="" resource-id="" clickable="false" bounds="[0,0][1080,1920]"/><node text="" resource-id="com.app:id/icon" focusable="true" bounds="[200,200][240,240]"/></hierarchy>"#;
    let els = parse(xml).unwrap();
    assert_eq!(els.len(), 2);
    assert_eq!((els[0].x, els[0].y), (50, 25));
    assert_eq!(els[0].label, "Login");
    assert_eq!(els[0].id, "login");
    assert!(els[0].clickable);
    assert_eq!((els[1].x, els[1].y), (220, 220));
    assert_eq!(els[1].label, "icon");
    assert_eq!(els[1].id, "");
    assert!(!els[1].clickable);
}

#[test]
fn nearby_labelled_node_wins() {
    let xml = r#"<hierarchy><node resource-id="com.app:id/btn" clickable="true" bounds="[0,0][40,40]"/><node resource-id="com.app:id/btn" clickable="true" bounds="[0,0][40,40]"/><node text="OK" bounds="[2,2][42,42]"/></hierarchy>"#;
    let els = parse(xml).unwrap();
    assert_eq!(els.len(), 1);
    assert_eq!(els[0].label, "OK");
    assert_eq!((els[0].x, els[0].y), (22, 22));
}

#[test]
fn ids_and_centres() {
    assert_eq!(short_id("com.app:id/login"), "login");
    assert_eq!(short_id("login"), "");
    assert_eq!(center("[0,0][100,50]"), Some((50, 25)));
    assert_eq!(center("[1,2]"), None);
    assert!(parse("<hierarchy/>").unwrap().is_empty());
}

#[test]
fn element_line_marks_clickable_and_pads_the_centre() {
    let e = Element { x: 42, y: 1200, label: "Save".to_string(), id: "save_btn".to_string(), clickable: true };
    assert_eq!(element_line(&e), "\u{25cf} (  42,1200)  Save  [save_btn]");
    let f = Element { x: -5, y: 7, label: "Title".to_string(), id: String::new(), clickable: false };
    assert_eq!(element_line(&f), "\u{25cb} (  -5,   7)  Title");
}
