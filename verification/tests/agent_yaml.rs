use ddb::agent_yaml::{chunk_bounds, chunk_bounds_fit, chunk_top_field, split_elements};

#[test]
fn split_elements_treats_leading_dash_as_boundary() {
    let yaml = "header:\n  foo: 1\n- id: a\n  clickable: true\n- id: b\n  clickable: false\n";
    let chunks = split_elements(yaml);
    // 1 prelude + 2 elements
    assert_eq!(chunks.len(), 3);
    assert!(chunks[1].starts_with("id: a"));
    assert!(chunks[2].starts_with("id: b"));
}

#[test]
fn chunk_top_field_handles_first_line_at_column_zero() {
    let chunk = "id: foo\n  platform_id: foo_p\n  clickable: true\n  bounds:\n    x: 1\n    y: 2\n    w: 3\n    h: 4";
    assert_eq!(chunk_top_field(chunk, "id"), Some("foo".into()));
    assert_eq!(chunk_top_field(chunk, "platform_id"), Some("foo_p".into()));
    assert_eq!(chunk_top_field(chunk, "clickable"), Some("true".into()));
}

#[test]
fn chunk_top_field_does_not_shadow_with_nested_type() {
    // outer type=image, image.type=loaded — must not return loaded
    let chunk = "id: foo\n  type: image\n  image:\n    type: loaded";
    assert_eq!(chunk_top_field(chunk, "type"), Some("image".into()));
}

#[test]
fn chunk_bounds_decodes_xywh() {
    let chunk = "id: foo\n  bounds:\n    x: 45\n    y: 469\n    w: 300\n    h: 393";
    assert_eq!(chunk_bounds(chunk), Some([45, 469, 345, 862]));
}

#[test]
fn chunk_bounds_decodes_ltrb() {
    let chunk = "id: foo\n  bounds:\n    left: 10\n    top: 20\n    right: 100\n    bottom: 200";
    assert_eq!(chunk_bounds(chunk), Some([10, 20, 100, 200]));
}

#[test]
fn chunk_bounds_decodes_inline_array() {
    let chunk = "id: foo\n  bounds: [0, 0, 1080, 2340]";
    assert_eq!(chunk_bounds(chunk), Some([0, 0, 1080, 2340]));
}

#[test]
fn split_elements_rejoins_to_the_input() {
    let yaml = "screen: x\n- id: a\n- id: b\n- ";
    let chunks = split_elements(yaml);
    assert_eq!(chunks, vec!["screen: x", "id: a", "id: b", ""]);
    assert_eq!(chunks.join("\n- "), yaml);
}

#[test]
fn chunk_top_field_strips_quotes_and_skips_blank_lines() {
    let chunk = "id: \"quoted\"\n\n  content: 'single'\n    content: nested";
    assert_eq!(chunk_top_field(chunk, "id"), Some("quoted".into()));
    assert_eq!(chunk_top_field(chunk, "content"), Some("single".into()));
    assert_eq!(chunk_top_field(chunk, "missing"), None);
}

#[test]
fn chunk_bounds_prefers_ltrb_and_rejects_short_inline() {
    let chunk = "id: foo\n  bounds:\n    x: 1\n    y: 2\n    w: 3\n    h: 4\n    left: 5\n    top: 6\n    right: 7\n    bottom: 8\n  other: 1";
    assert_eq!(chunk_bounds(chunk), Some([5, 6, 7, 8]));
    assert_eq!(chunk_bounds("id: foo\n  bounds: [1, 2, 3]"), None);
    assert_eq!(chunk_bounds("id: foo\n  bounds:\n    x: 1\n  y: 2"), None);
    assert_eq!(chunk_bounds("id: foo\n  bounds: [-1, +2, 3, 4]"), Some([-1, 2, 3, 4]));
}

#[test]
fn chunk_bounds_fit_guards_the_edge_sums() {
    assert!(chunk_bounds_fit("id: a\n  bounds:\n    x: 10\n    y: 20\n    w: 5\n    h: 5"));
    assert!(!chunk_bounds_fit("id: a\n  bounds:\n    x: 2147483647\n    y: 20\n    w: 5\n    h: 5"));
    assert!(chunk_bounds_fit("id: plain"));
}

#[test]
fn split_elements_joins_back() {
    let yaml = "elements:\n- id: a\n  text: x\n- id: b\n-  not a marker";
    let parts = ddb::agent_yaml::split_elements(yaml);
    assert_eq!(parts.join("\n- "), yaml);
    assert_eq!(parts.len(), yaml.matches("\n- ").count() + 1);
    assert!(parts.iter().all(|p| !p.contains("\n- ")));
}
