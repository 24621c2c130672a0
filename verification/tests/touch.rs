use ddb::touch::{back, button, home, scroll, swipe, tap, type_text, ButtonArgs, ScrollArgs, SwipeArgs, TapArgs, TypeArgs};

#[test]
fn gestures() {
    assert_eq!(tap(&TapArgs { x: 10, y: -3 }), vec!["input", "tap", "10", "-3"]);
    assert_eq!(
        swipe(&SwipeArgs { x1: 1, y1: 2, x2: 3, y2: 4, duration: 300 }),
        vec!["input", "swipe", "1", "2", "3", "4", "300"]
    );
    assert_eq!(type_text(&TypeArgs { text: "hello big world".to_string() }), vec!["input", "text", "hello%sbig%sworld"]);
    assert_eq!(home(), vec!["input", "keyevent", "3"]);
    assert_eq!(back(), vec!["input", "keyevent", "4"]);
}

#[test]
fn buttons_by_name_or_raw_code() {
    assert_eq!(button(&ButtonArgs { name: "HOME".to_string() })[2], "3");
    assert_eq!(button(&ButtonArgs { name: "Recents".to_string() })[2], "187");
    assert_eq!(button(&ButtonArgs { name: "volup".to_string() })[2], "24");
    assert_eq!(button(&ButtonArgs { name: "del".to_string() })[2], "67");
    assert_eq!(button(&ButtonArgs { name: "85".to_string() })[2], "85");
    assert_eq!(button(&ButtonArgs { name: "KEYCODE_TAB".to_string() })[2], "KEYCODE_TAB");
}

#[test]
fn scroll_directions() {
    assert_eq!(
        scroll(&ScrollArgs { direction: "Down".to_string() }).unwrap(),
        vec!["input", "swipe", "540", "1400", "540", "800", "500"]
    );
    assert_eq!(
        scroll(&ScrollArgs { direction: "left".to_string() }).unwrap(),
        vec!["input", "swipe", "800", "1000", "200", "1000", "500"]
    );
    assert_eq!(
        scroll(&ScrollArgs { direction: "Sideways".to_string() }).unwrap_err(),
        "unknown direction 'sideways'. use: up, down, left, right"
    );
}
