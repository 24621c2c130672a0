use ddb::scroll_capture::{
    detect_sticky_top_simple, detect_vanishing_bottom, find_scroll_delta, find_strip_placement,
    frame_step, is_near_identical, place_strips, plan_strips, rows_match, rows_match_at, Frame, Strip,
};

/// A frame whose row `y` is filled with the grey level `shade(y)`.
fn frame(w: u32, h: u32, shade: impl Fn(u32) -> u8) -> Frame {
    let mut pixels = Vec::new();
    for y in 0..h {
        for _ in 0..w {
            let v = shade(y);
            pixels.extend_from_slice(&[v, v, v, 255]);
        }
    }
    Frame { width: w, height: h, pixels }
}

fn stripes(y: u32) -> u8 {
    ((y * 37) % 251) as u8
}

#[test]
fn row_comparison() {
    let a = frame(20, 10, stripes);
    let b = frame(20, 10, |y| stripes(y).wrapping_add(3));
    assert!(rows_match(&a, &b, 2, 20));
    let c = frame(20, 10, |y| stripes(y).wrapping_add(40));
    assert!(!rows_match(&a, &c, 2, 20));
    assert!(rows_match_at(&a, 5, &a, 5, 20));
    assert!(!rows_match_at(&a, 5, &a, 6, 20));
}

#[test]
fn fixed_bars() {
    // rows 0..4 equal in both frames, the rest shifted by 7 rows
    let a = frame(16, 30, |y| if y < 4 { 200 } else { stripes(y) });
    let b = frame(16, 30, |y| if y < 4 { 200 } else { stripes(y + 7) });
    assert_eq!(detect_sticky_top_simple(&a, &b), 4);
    assert_eq!(detect_sticky_top_simple(&a, &a), 10);
    assert_eq!(detect_vanishing_bottom(&a, &b, 0), 0);
    assert_eq!(detect_vanishing_bottom(&a, &b, 7), 0);
}

#[test]
fn unchanged_frames() {
    let a = frame(14, 14, stripes);
    assert!(is_near_identical(&a, &a));
    let b = frame(14, 14, |y| stripes(y).wrapping_add(100));
    assert!(!is_near_identical(&a, &b));
    let c = frame(7, 14, stripes);
    assert!(!is_near_identical(&a, &c));
    assert_eq!(frame_step(true, 0), (false, 1, false));
    assert_eq!(frame_step(true, 1), (false, 2, true));
    assert_eq!(frame_step(false, 1), (true, 0, false));
}

#[test]
fn scroll_between_frames() {
    let prev = frame(8, 100, stripes);
    let curr = frame(8, 100, |y| stripes(y + 13));
    assert_eq!(find_scroll_delta(&prev, &curr, 0, 100), 13);
    assert_eq!(find_scroll_delta(&prev, &prev, 0, 100), 0);
}

#[test]
fn strips_and_placements() {
    let plan = plan_strips(4, 100, 10, 5);
    let v: Vec<(usize, u32, u32)> = plan.iter().map(|s| (s.frame, s.top, s.bottom)).collect();
    // content 10..95, margin 17; frames 1 and 2 stitched, 3 is the at-rest one
    assert_eq!(v, vec![(0, 0, 10), (0, 10, 95), (1, 27, 78), (2, 27, 95), (0, 95, 100)]);

    let f0 = frame(8, 200, stripes);
    let f1 = frame(8, 200, |y| stripes(y + 60));
    let frames = vec![f0, f1];
    let strips = vec![Strip { frame: 0, top: 0, bottom: 200 }, Strip { frame: 1, top: 0, bottom: 200 }];
    assert_eq!(find_strip_placement(&frames, &strips, 0, 1, 8), 60);
    let (ps, h) = place_strips(&frames, &strips, 8);
    assert_eq!(ps, vec![0, 60]);
    assert_eq!(h, 260);
}
