//! Stitching a scrolled screen from successive screenshots: matching rows,
//! fixed bars at the top and bottom, the scroll between two frames, and
//! where each strip goes in the composite.
use vstd::prelude::*;

verus! {

/// A screenshot: RGBA pixels row by row.
pub struct Frame {
    pub width: u32,
    pub height: u32,
    pub pixels: Vec<u8>,
}

/// The pixel buffer holds exactly the width times the height in RGBA.
pub open spec fn frame_wf(f: Frame) -> bool {
    f.pixels@.len() == (f.width as int) * (f.height as int) * 4
}

/// Channel `c` (0 red, 1 green, 2 blue) of pixel `(x, y)`.
pub open spec fn px(f: Frame, x: int, y: int, c: int) -> int {
    f.pixels@[((y * (f.width as int) + x) * 4 + c)] as int
}

pub open spec fn absd(a: int, b: int) -> int {
    if a >= b {
        a - b
    } else {
        b - a
    }
}

proof fn lemma_index(w: int, h: int, x: int, y: int, c: int)
    requires
        0 <= x < w,
        0 <= y < h,
        0 <= c < 4,
    ensures
        0 <= (y * w + x) * 4 + c < w * h * 4,
{
    assert(y * w + x < w * h) by (nonlinear_arith)
        requires
            0 <= x < w,
            0 <= y < h,
    ;
    assert(0 <= y * w) by (nonlinear_arith)
        requires
            0 <= y,
            0 <= x < w,
    ;
}

/// Channel `c` of pixel `(x, y)`.
fn channel(f: &Frame, x: u64, y: u64, c: u64) -> (r: u8)
    requires
        frame_wf(*f),
        x < f.width,
        y < f.height,
        c < 4,
    ensures
        r as int == px(*f, x as int, y as int, c as int),
{
    proof {
        lemma_index(f.width as int, f.height as int, x as int, y as int, c as int);
    }
    let len = f.pixels.len();
    let i = (y * (f.width as u64) + x) * 4 + c;
    f.pixels[i as usize]
}

fn abs_diff(a: u8, b: u8) -> (r: u64)
    ensures
        r as int == absd(a as int, b as int),
        r <= 255,
{
    if a >= b {
        (a - b) as u64
    } else {
        (b - a) as u64
    }
}

// ---------------------------------------------------------------------------
// Matching rows
// ---------------------------------------------------------------------------

/// Two pixels differ when a colour channel differs by more than 5.
pub open spec fn px_differs(a: Frame, xa: int, ya: int, b: Frame, xb: int, yb: int) -> bool {
    absd(px(a, xa, ya, 0), px(b, xb, yb, 0)) > 5 || absd(px(a, xa, ya, 1), px(b, xb, yb, 1)) > 5
        || absd(px(a, xa, ya, 2), px(b, xb, yb, 2)) > 5
}

/// Differing pixels among the even columns from `x` up to `w`.
pub open spec fn mismatches(a: Frame, ya: int, b: Frame, yb: int, w: int, x: int) -> nat
    decreases w + 2 - x,
{
    if x >= w {
        0
    } else {
        (if px_differs(a, x, ya, b, x, yb) {
            1nat
        } else {
            0nat
        }) + mismatches(a, ya, b, yb, w, x + 2)
    }
}

/// Row `ya` of `a` matches row `yb` of `b` when at most a tenth of the
/// width (rounded down) of the even columns differ.
pub open spec fn rows_match_spec(a: Frame, ya: int, b: Frame, yb: int, w: int) -> bool {
    mismatches(a, ya, b, yb, w, 0) <= w / 10
}

/// Whether row `ya` of `a` matches row `yb` of `b` over the first `w`
/// columns.
pub fn rows_match_at(a: &Frame, ya: u64, b: &Frame, yb: u64, w: u64) -> (r: bool)
    requires
        frame_wf(*a),
        frame_wf(*b),
        ya < a.height,
        yb < b.height,
        w <= a.width,
        w <= b.width,
    ensures
        r == rows_match_spec(*a, ya as int, *b, yb as int, w as int),
{
    let threshold = w / 10;
    let mut count: u64 = 0;
    let mut x: u64 = 0;
    while x < w
        invariant
            frame_wf(*a),
            frame_wf(*b),
            ya < a.height,
            yb < b.height,
            w <= a.width,
            w <= b.width,
            threshold == w / 10,
            x % 2 == 0,
            x <= w + 1,
            count <= x,
            count <= threshold,
            count + mismatches(*a, ya as int, *b, yb as int, w as int, x as int) == mismatches(
                *a,
                ya as int,
                *b,
                yb as int,
                w as int,
                0,
            ),
        decreases w + 2 - x,
    {
        let dr = abs_diff(channel(a, x, ya, 0), channel(b, x, yb, 0));
        let dg = abs_diff(channel(a, x, ya, 1), channel(b, x, yb, 1));
        let db = abs_diff(channel(a, x, ya, 2), channel(b, x, yb, 2));
        proof {
            assert(mismatches(*a, ya as int, *b, yb as int, w as int, x as int) == (if px_differs(
                *a,
                x as int,
                ya as int,
                *b,
                x as int,
                yb as int,
            ) {
                1nat
            } else {
                0nat
            }) + mismatches(*a, ya as int, *b, yb as int, w as int, x as int + 2));
        }
        if dr > 5 || dg > 5 || db > 5 {
            assert(px_differs(*a, x as int, ya as int, *b, x as int, yb as int));
            count = count + 1;
            if count > threshold {
                assert(mismatches(*a, ya as int, *b, yb as int, w as int, 0) >= count);
                assert(threshold as int == (w as int) / 10);
                assert(!rows_match_spec(*a, ya as int, *b, yb as int, w as int));
                return false;
            }
        } else {
            assert(!px_differs(*a, x as int, ya as int, *b, x as int, yb as int));
        }
        x = x + 2;
    }
    true
}

/// Whether row `y` is the same in both frames over the first `w` columns.
pub fn rows_match(a: &Frame, b: &Frame, y: u64, w: u64) -> (r: bool)
    requires
        frame_wf(*a),
        frame_wf(*b),
        y < a.height,
        y < b.height,
        w <= a.width,
        w <= b.width,
    ensures
        r == rows_match_spec(*a, y as int, *b, y as int, w as int),
{
    rows_match_at(a, y, b, y, w)
}

/// The leading rows, from `y` on and below `limit`, that match.
pub open spec fn sticky_from(a: Frame, b: Frame, y: int, limit: int) -> int
    decreases limit - y,
{
    if y >= limit {
        limit
    } else if rows_match_spec(a, y, b, y, a.width as int) {
        sticky_from(a, b, y + 1, limit)
    } else {
        y
    }
}

/// The height of a bar fixed at the top: how many leading rows, within
/// the top third, two frames share.
pub fn detect_sticky_top_simple(a: &Frame, b: &Frame) -> (r: u64)
    requires
        frame_wf(*a),
        frame_wf(*b),
        a.width == b.width,
        a.height == b.height,
    ensures
        r == sticky_from(*a, *b, 0, (a.height / 3) as int),
        r <= a.height / 3,
{
    let limit = (a.height / 3) as u64;
    let w = a.width as u64;
    let mut y: u64 = 0;
    while y < limit
        invariant
            frame_wf(*a),
            frame_wf(*b),
            a.width == b.width,
            a.height == b.height,
            limit == a.height / 3,
            w == a.width,
            y <= limit,
            sticky_from(*a, *b, 0, limit as int) == sticky_from(*a, *b, y as int, limit as int),
        decreases limit - y,
    {
        if !rows_match(a, b, y, w) {
            return y;
        }
        y = y + 1;
    }
    limit
}

/// The first offset from the bottom, within the bottom third, at which
/// row `h-1-offset` of `first` matches the row `delta` above it in
/// `second`; 0 when there is none.
pub open spec fn vanish_from(first: Frame, second: Frame, delta: int, off: int) -> int
    decreases (first.height as int) / 3 - off,
{
    let h = first.height as int;
    if off >= h / 3 {
        0
    } else if h - 1 - off < delta {
        0
    } else if rows_match_spec(first, h - 1 - off, second, h - 1 - off - delta, first.width as int) {
        off
    } else {
        vanish_from(first, second, delta, off + 1)
    }
}

/// The height of a bottom bar that disappears when the screen scrolls by
/// `delta` rows.
pub fn detect_vanishing_bottom(first: &Frame, second: &Frame, delta: u64) -> (r: u64)
    requires
        frame_wf(*first),
        frame_wf(*second),
        first.width == second.width,
        first.height == second.height,
    ensures
        r == (if delta == 0 || delta >= first.height {
            0
        } else {
            vanish_from(*first, *second, delta as int, 0)
        }),
        r < first.height / 3 || r == 0,
{
    let h = first.height as u64;
    let w = first.width as u64;
    if delta == 0 || delta >= h {
        return 0;
    }
    let mut off: u64 = 0;
    while off < h / 3
        invariant
            frame_wf(*first),
            frame_wf(*second),
            first.width == second.width,
            first.height == second.height,
            h == first.height,
            w == first.width,
            0 < delta < h,
            off <= h / 3,
            vanish_from(*first, *second, delta as int, 0) == vanish_from(
                *first,
                *second,
                delta as int,
                off as int,
            ),
            forall|o: int| 0 <= o < off ==> #[trigger] vanish_from(*first, *second, delta as int, o)
                == vanish_from(*first, *second, delta as int, off as int),
        decreases h / 3 - off,
    {
        let y_first = h - 1 - off;
        if y_first < delta {
            return 0;
        }
        let y_second = y_first - delta;
        if rows_match_at(first, y_first, second, y_second, w) {
            return off;
        }
        off = off + 1;
    }
    0
}

// ---------------------------------------------------------------------------
// Frames that did not move
// ---------------------------------------------------------------------------

/// Two pixels are close when their channel differences sum to under 15.
pub open spec fn px_close(a: Frame, b: Frame, x: int, y: int) -> bool {
    absd(px(a, x, y, 0), px(b, x, y, 0)) + absd(px(a, x, y, 1), px(b, x, y, 1)) + absd(
        px(a, x, y, 2),
        px(b, x, y, 2),
    ) < 15
}

/// Close pixels of row `y` at the columns `x`, `x+7`, ...
pub open spec fn close_in_row(a: Frame, b: Frame, y: int, x: int) -> nat
    decreases (a.width as int) + 7 - x,
{
    if x >= a.width as int {
        0
    } else {
        (if px_close(a, b, x, y) {
            1nat
        } else {
            0nat
        }) + close_in_row(a, b, y, x + 7)
    }
}

/// Close pixels of the 7-pixel grid from row `y` down.
pub open spec fn close_in_grid(a: Frame, b: Frame, y: int) -> nat
    decreases (a.height as int) + 7 - y,
{
    if y >= a.height as int {
        0
    } else {
        close_in_row(a, b, y, 0) + close_in_grid(a, b, y + 7)
    }
}

/// Two frames show the same thing: equal sizes, and over 99% of the
/// 7-pixel grid (counted against width × height / 49) close.
pub open spec fn near_identical_spec(a: Frame, b: Frame) -> bool {
    if a.width != b.width || a.height != b.height {
        false
    } else {
        let sampled = ((a.width as int) * (a.height as int)) / 49;
        ((close_in_grid(a, b, 0) as int) * 100) / sampled > 99
    }
}

fn close_in_row_exec(a: &Frame, b: &Frame, y: u64) -> (r: u64)
    requires
        frame_wf(*a),
        frame_wf(*b),
        a.width == b.width,
        a.height == b.height,
        y < a.height,
    ensures
        r == close_in_row(*a, *b, y as int, 0),
        r <= (a.width as int + 6) / 7,
{
    let w = a.width as u64;
    let mut x: u64 = 0;
    let mut n: u64 = 0;
    while x < w
        invariant
            frame_wf(*a),
            frame_wf(*b),
            a.width == b.width,
            a.height == b.height,
            y < a.height,
            w == a.width,
            x <= w + 6,
            7 * n <= x,
            n + close_in_row(*a, *b, y as int, x as int) == close_in_row(*a, *b, y as int, 0),
        decreases w + 7 - x,
    {
        let d = abs_diff(channel(a, x, y, 0), channel(b, x, y, 0)) + abs_diff(
            channel(a, x, y, 1),
            channel(b, x, y, 1),
        ) + abs_diff(channel(a, x, y, 2), channel(b, x, y, 2));
        if d < 15 {
            n = n + 1;
        }
        x = x + 7;
    }
    n
}

/// The 7-pixel grid of a frame whose pixels fit in memory is small enough
/// that a hundred times its count fits in `u64`.
proof fn lemma_grid_count_fits(w: int, h: int)
    requires
        0 <= w,
        0 <= h,
        w * h * 4 <= u64::MAX,
        w <= u32::MAX,
        h <= u32::MAX,
    ensures
        100 * (((h + 6) / 7) * ((w + 6) / 7)) <= u64::MAX,
{
    let aa = (h + 6) / 7;
    let bb = (w + 6) / 7;
    assert(0 <= aa && 7 * aa <= h + 6);
    assert(0 <= bb && 7 * bb <= w + 6);
    assert(49 * (aa * bb) <= (h + 6) * (w + 6)) by (nonlinear_arith)
        requires
            0 <= aa,
            0 <= bb,
            7 * aa <= h + 6,
            7 * bb <= w + 6,
    ;
    assert((h + 6) * (w + 6) == w * h + 6 * h + 6 * w + 36) by (nonlinear_arith);
    assert(w * h <= 0x4000_0000_0000_0000);
}

/// Whether two frames show the same screen (see `near_identical_spec`).
/// Frames of equal size must hold at least 49 pixels.
pub fn is_near_identical(a: &Frame, b: &Frame) -> (r: bool)
    requires
        frame_wf(*a),
        frame_wf(*b),
        a.width == b.width && a.height == b.height ==> (a.width as int) * (a.height as int) >= 49,
    ensures
        r == near_identical_spec(*a, *b),
{
    if a.width != b.width || a.height != b.height {
        return false;
    }
    let w = a.width as u64;
    let h = a.height as u64;
    let total = a.pixels.len();
    let ghost bw: int = (w as int + 6) / 7;
    let ghost bh: int = (h as int + 6) / 7;
    proof {
        assert(total as int == (w as int) * (h as int) * 4);
        lemma_grid_count_fits(w as int, h as int);
    }
    let mut y: u64 = 0;
    let mut matching: u64 = 0;
    let ghost mut k: int = 0;
    while y < h
        invariant
            frame_wf(*a),
            frame_wf(*b),
            a.width == b.width,
            a.height == b.height,
            w == a.width,
            h == a.height,
            bw == (w as int + 6) / 7,
            bh == (h as int + 6) / 7,
            100 * (bh * bw) <= u64::MAX,
            y <= h + 6,
            y == 7 * k,
            0 <= k,
            k <= bh,
            matching <= k * bw,
            matching + close_in_grid(*a, *b, y as int) == close_in_grid(*a, *b, 0),
        decreases h + 7 - y,
    {
        let c = close_in_row_exec(a, b, y);
        proof {
            assert(k + 1 <= bh);
            assert(0 <= bw);
            assert(matching + c <= (k + 1) * bw) by (nonlinear_arith)
                requires
                    matching <= k * bw,
                    c <= bw,
            ;
            assert((k + 1) * bw <= bh * bw) by (nonlinear_arith)
                requires
                    k + 1 <= bh,
                    0 <= bw,
            ;
        }
        matching = matching + c;
        y = y + 7;
        proof {
            k = k + 1;
        }
    }
    proof {
        assert(matching <= bh * bw) by (nonlinear_arith)
            requires
                matching <= k * bw,
                k <= bh,
                0 <= bw,
        ;
        assert(close_in_grid(*a, *b, y as int) == 0);
    }
    assert(w * h <= u64::MAX) by (nonlinear_arith)
        requires
            (w as int) * (h as int) * 4 == total as int,
            total <= usize::MAX,
    ;
    let sampled = (w * h) / 49;
    matching * 100 / sampled > 99
}

// ---------------------------------------------------------------------------
// How far the screen scrolled
// ---------------------------------------------------------------------------

/// Sum of the channel differences of two pixels.
pub open spec fn pdiff(a: Frame, xa: int, ya: int, b: Frame, xb: int, yb: int) -> int {
    absd(px(a, xa, ya, 0), px(b, xb, yb, 0)) + absd(px(a, xa, ya, 1), px(b, xb, yb, 1)) + absd(
        px(a, xa, ya, 2),
        px(b, xb, yb, 2),
    )
}

/// Differences of row `ya` of `a` and row `yb` of `b` at every fourth
/// column from `x` up to `w`.
pub open spec fn row_diff(a: Frame, ya: int, b: Frame, yb: int, w: int, x: int) -> int
    decreases w + 4 - x,
{
    if x >= w {
        0
    } else {
        pdiff(a, x, ya, b, x, yb) + row_diff(a, ya, b, yb, w, x + 4)
    }
}

/// Differences of `n` row pairs, `step` rows apart, starting at rows `ya`
/// of `a` and `yb` of `b`.
pub open spec fn rows_diff(a: Frame, ya: int, b: Frame, yb: int, step: int, w: int, n: nat) -> int
    decreases n,
{
    if n == 0 {
        0
    } else {
        rows_diff(a, ya, b, yb, step, w, (n - 1) as nat) + row_diff(
            a,
            ya + (n - 1) * step,
            b,
            yb + (n - 1) * step,
            w,
            0,
        )
    }
}

proof fn lemma_row_diff_nonneg(a: Frame, ya: int, b: Frame, yb: int, w: int, x: int)
    ensures
        row_diff(a, ya, b, yb, w, x) >= 0,
    decreases w + 4 - x,
{
    if x < w {
        lemma_row_diff_nonneg(a, ya, b, yb, w, x + 4);
    }
}

proof fn lemma_rows_diff_mono(a: Frame, ya: int, b: Frame, yb: int, step: int, w: int, n: nat, m: nat)
    requires
        n <= m,
    ensures
        rows_diff(a, ya, b, yb, step, w, n) <= rows_diff(a, ya, b, yb, step, w, m),
    decreases m,
{
    if n < m {
        lemma_rows_diff_mono(a, ya, b, yb, step, w, n, (m - 1) as nat);
        lemma_row_diff_nonneg(a, ya + (m - 1) * step, b, yb + (m - 1) * step, w, 0);
    }
}

/// The bound one row's differences stay under for frames at most 65536
/// pixels wide.
pub open spec fn row_bound() -> int {
    12600000
}

fn row_diff_exec(a: &Frame, ya: u64, b: &Frame, yb: u64) -> (r: u64)
    requires
        frame_wf(*a),
        frame_wf(*b),
        a.width == b.width,
        a.width <= 65536,
        ya < a.height,
        yb < b.height,
    ensures
        r == row_diff(*a, ya as int, *b, yb as int, a.width as int, 0),
        r <= row_bound(),
{
    let w = a.width as u64;
    let mut x: u64 = 0;
    let mut acc: u64 = 0;
    while x < w
        invariant
            frame_wf(*a),
            frame_wf(*b),
            a.width == b.width,
            w == a.width,
            w <= 65536,
            ya < a.height,
            yb < b.height,
            x <= w + 3,
            acc * 4 <= x * 765,
            acc + row_diff(*a, ya as int, *b, yb as int, w as int, x as int) == row_diff(
                *a,
                ya as int,
                *b,
                yb as int,
                w as int,
                0,
            ),
        decreases w + 4 - x,
    {
        let d = abs_diff(channel(a, x, ya, 0), channel(b, x, yb, 0)) + abs_diff(
            channel(a, x, ya, 1),
            channel(b, x, yb, 1),
        ) + abs_diff(channel(a, x, ya, 2), channel(b, x, yb, 2));
        acc = acc + d;
        x = x + 4;
    }
    acc
}

/// The differences of `count` row pairs `step` apart, or, once they pass
/// `bound`, a partial sum that already does.
fn rows_diff_upto(a: &Frame, ya0: u64, b: &Frame, yb0: u64, step: u64, count: u64, bound: u64) -> (r:
    u64)
    requires
        frame_wf(*a),
        frame_wf(*b),
        a.width == b.width,
        a.width <= 65536,
        step > 0,
        1 <= count <= 20,
        ya0 + count * step <= a.height,
        yb0 + count * step <= b.height,
    ensures
        r == rows_diff(*a, ya0 as int, *b, yb0 as int, step as int, a.width as int, count as nat) || (r
            > bound && rows_diff(*a, ya0 as int, *b, yb0 as int, step as int, a.width as int, count as nat)
            >= r),
{
    let ghost w = a.width as int;
    let mut n: u64 = 0;
    let mut ya = ya0;
    let mut yb = yb0;
    let mut diff: u64 = 0;
    while n < count
        invariant
            frame_wf(*a),
            frame_wf(*b),
            a.width == b.width,
            a.width <= 65536,
            w == a.width,
            step > 0,
            1 <= count <= 20,
            ya0 + count * step <= a.height,
            yb0 + count * step <= b.height,
            n <= count,
            ya == ya0 + n * step,
            yb == yb0 + n * step,
            diff <= n * row_bound(),
            diff == rows_diff(*a, ya0 as int, *b, yb0 as int, step as int, w, n as nat),
        decreases count - n,
    {
        proof {
            assert(n * step + step <= count * step) by (nonlinear_arith)
                requires
                    n < count,
                    step > 0,
            ;
        }
        let d = row_diff_exec(a, ya, b, yb);
        diff = diff + d;
        proof {
            assert(ya0 + ((n + 1) - 1) * step == ya) by (nonlinear_arith)
                requires
                    ya == ya0 + n * step,
            ;
            assert(yb0 + ((n + 1) - 1) * step == yb) by (nonlinear_arith)
                requires
                    yb == yb0 + n * step,
            ;
        }
        n = n + 1;
        if n < count {
            ya = ya + step;
            yb = yb + step;
            proof {
                assert(ya == ya0 + n * step) by (nonlinear_arith)
                    requires
                        ya == ya0 + (n - 1) * step + step,
                ;
                assert(yb == yb0 + n * step) by (nonlinear_arith)
                    requires
                        yb == yb0 + (n - 1) * step + step,
                ;
            }
        } else {
            proof {
                assert(ya + step == ya0 + n * step) by (nonlinear_arith)
                    requires
                        ya == ya0 + (n - 1) * step,
                ;
            }
            ya = ya + step;
            yb = yb + step;
            proof {
                assert(yb == yb0 + n * step) by (nonlinear_arith)
                    requires
                        yb == yb0 + (n - 1) * step + step,
                ;
            }
        }
        if diff > bound {
            proof {
                lemma_rows_diff_mono(*a, ya0 as int, *b, yb0 as int, step as int, w, n as nat, count as nat);
            }
            return diff;
        }
    }
    diff
}

/// The best scroll at or after `d`: the first one whose differences are
/// the smallest, among the candidates below half the content height that
/// leave at least 20 overlapping rows; `bd` with score `bs` so far.
pub open spec fn best_delta(prev: Frame, curr: Frame, top: int, ch: int, d: int, bd: int, bs: int) -> int
    decreases ch - d,
{
    if d >= ch / 2 || ch - d < 20 {
        bd
    } else {
        let s = rows_diff(prev, top + d, curr, top, (ch - d) / 20, prev.width as int, 20);
        if s < bs {
            best_delta(prev, curr, top, ch, d + 1, d, s)
        } else {
            best_delta(prev, curr, top, ch, d + 1, bd, bs)
        }
    }
}

/// How many rows the content between `content_top` and `content_bottom`
/// moved up from `prev` to `curr`: the shift, below half the content
/// height, whose sampled rows differ least.
pub fn find_scroll_delta(prev: &Frame, curr: &Frame, content_top: u64, content_bottom: u64) -> (r: u64)
    requires
        frame_wf(*prev),
        frame_wf(*curr),
        prev.width == curr.width,
        prev.height == curr.height,
        prev.width <= 65536,
        content_top <= content_bottom,
        content_bottom <= prev.height,
    ensures
        r == best_delta(
            *prev,
            *curr,
            content_top as int,
            (content_bottom - content_top) as int,
            0,
            0,
            u64::MAX as int,
        ),
{
    let ch = content_bottom - content_top;
    let max_delta = ch / 2;
    let mut best: u64 = 0;
    let mut best_score: u64 = u64::MAX;
    let mut d: u64 = 0;
    while d < max_delta
        invariant
            frame_wf(*prev),
            frame_wf(*curr),
            prev.width == curr.width,
            prev.height == curr.height,
            prev.width <= 65536,
            content_top <= content_bottom,
            content_bottom <= prev.height,
            ch == content_bottom - content_top,
            max_delta == ch / 2,
            d <= max_delta,
            best_delta(*prev, *curr, content_top as int, ch as int, 0, 0, u64::MAX as int)
                == best_delta(
                *prev,
                *curr,
                content_top as int,
                ch as int,
                d as int,
                best as int,
                best_score as int,
            ),
        decreases max_delta - d,
    {
        let overlap = ch - d;
        if overlap < 20 {
            return best;
        }
        let step = overlap / 20;
        proof {
            assert(content_top + d + 20 * step <= prev.height);
        }
        let s = rows_diff_upto(prev, content_top + d, curr, content_top, step, 20, best_score);
        if s < best_score {
            best_score = s;
            best = d;
        }
        d = d + 1;
    }
    best
}

// ---------------------------------------------------------------------------
// Strips and their places in the composite
// ---------------------------------------------------------------------------

/// Rows `top..bottom` of frame number `frame`.
pub struct Strip {
    pub frame: usize,
    pub top: u32,
    pub bottom: u32,
}

pub type StripView = (int, int, int);

pub open spec fn strip_view(s: Strip) -> StripView {
    (s.frame as int, s.top as int, s.bottom as int)
}

pub open spec fn strips_view(v: Seq<Strip>) -> Seq<StripView> {
    v.map_values(|s: Strip| strip_view(s))
}

/// Frames of one screen: each well formed, of the same width, at most
/// 65536 pixels on a side.
pub open spec fn frames_ok(frames: Seq<Frame>, w: int) -> bool {
    forall|i: int|
        0 <= i < frames.len() ==> frame_wf(#[trigger] frames[i]) && frames[i].width == w
            && frames[i].height <= 65536 && w <= 65536
}

/// A strip lies inside its frame and holds at least one row.
pub open spec fn strip_ok(frames: Seq<Frame>, s: StripView) -> bool {
    0 <= s.0 < frames.len() && 0 <= s.1 < s.2 <= frames[s.0].height
}

pub open spec fn strips_ok(frames: Seq<Frame>, ss: Seq<StripView>) -> bool {
    forall|i: int| 0 <= i < ss.len() ==> strip_ok(frames, #[trigger] ss[i])
}

/// The overlap with the strip above that matches best, from `o` on below
/// `max`: sampled at ten rows `o / 10` apart (overlaps under 10 are not
/// tried); `bo` with score `bs` so far.
pub open spec fn best_overlap(
    fp: Frame,
    pbottom: int,
    fs: Frame,
    stop: int,
    w: int,
    max: int,
    o: int,
    bo: int,
    bs: int,
) -> int
    decreases max - o,
{
    if o >= max {
        bo
    } else if o / 10 == 0 {
        best_overlap(fp, pbottom, fs, stop, w, max, o + 1, bo, bs)
    } else {
        let sc = rows_diff(fp, pbottom - o, fs, stop, o / 10, w, 10);
        if sc < bs {
            best_overlap(fp, pbottom, fs, stop, w, max, o + 1, o, sc)
        } else {
            best_overlap(fp, pbottom, fs, stop, w, max, o + 1, bo, bs)
        }
    }
}

pub open spec fn min_int(a: int, b: int) -> int {
    if a <= b {
        a
    } else {
        b
    }
}

/// Where strip `idx` starts in the composite: the bottom of the strip
/// above, moved up by the overlap that matches best.
pub open spec fn placement_spec(
    frames: Seq<Frame>,
    ss: Seq<StripView>,
    prev_y0: int,
    idx: int,
    w: int,
) -> int {
    let p = ss[idx - 1];
    let c = ss[idx];
    let ph = p.2 - p.1;
    let sh = c.2 - c.1;
    prev_y0 + ph - best_overlap(
        frames[p.0],
        p.2,
        frames[c.0],
        c.1,
        w,
        min_int(sh, ph),
        1,
        0,
        u64::MAX as int,
    )
}

/// Where strip `idx` goes, given where the strip above it went.
pub fn find_strip_placement(
    frames: &Vec<Frame>,
    strips: &Vec<Strip>,
    prev_y0: u32,
    idx: usize,
    w: u32,
) -> (r: u32)
    requires
        frames_ok(frames@, w as int),
        strips_ok(frames@, strips_view(strips@)),
        1 <= idx < strips@.len(),
        prev_y0 + (strips@[idx - 1].bottom - strips@[idx - 1].top) <= u32::MAX,
    ensures
        r as int == placement_spec(frames@, strips_view(strips@), prev_y0 as int, idx as int, w as int),
        r <= prev_y0 + (strips@[idx - 1].bottom - strips@[idx - 1].top),
{
    let ghost sv = strips_view(strips@);
    let prev = &strips[idx - 1];
    let cur = &strips[idx];
    assert(strip_ok(frames@, sv[idx - 1]));
    assert(strip_ok(frames@, sv[idx as int]));
    let fp = &frames[prev.frame];
    let fs = &frames[cur.frame];
    assert(frame_wf(*fp) && fp.width == w);
    assert(frame_wf(*fs) && fs.width == w);
    let ph = (prev.bottom - prev.top) as u64;
    let sh = (cur.bottom - cur.top) as u64;
    let max = if sh <= ph {
        sh
    } else {
        ph
    };
    let pbottom = prev.bottom as u64;
    let stop = cur.top as u64;
    let mut best: u64 = 0;
    let mut best_score: u64 = u64::MAX;
    let mut o: u64 = 1;
    assert(best_overlap(*fp, pbottom as int, *fs, stop as int, w as int, max as int, 1, 0, u64::MAX as int)
        == best_overlap(*fp, pbottom as int, *fs, stop as int, w as int, max as int, o as int, best as int, best_score as int));
    while o < max
        invariant
            frame_wf(*fp),
            frame_wf(*fs),
            fp.width == w,
            fs.width == w,
            w <= 65536,
            pbottom <= fp.height,
            ph <= pbottom,
            stop + sh <= fs.height,
            max <= ph,
            max <= sh,
            1 <= o,
            best < max || best == 0,
            best_overlap(*fp, pbottom as int, *fs, stop as int, w as int, max as int, 1, 0, u64::MAX as int)
                == best_overlap(
                *fp,
                pbottom as int,
                *fs,
                stop as int,
                w as int,
                max as int,
                o as int,
                best as int,
                best_score as int,
            ),
        decreases max - o,
    {
        let step = o / 10;
        if step > 0 {
            let sc = rows_diff_upto(fp, pbottom - o, fs, stop, step, 10, best_score);
            if sc < best_score {
                best_score = sc;
                best = o;
            }
        }
        o = o + 1;
    }
    (prev_y0 as u64 + ph - best) as u32
}

/// The strips of a composite from `n` frames (the last one, taken at rest,
/// is not stitched): the top bar, all of the first frame's content, the
/// content of each later frame without a fifth at either end (the last
/// stitched one keeps its bottom), and the bottom bar.
pub open spec fn plan_spec(n: int, h: int, st: int, sb: int) -> Seq<StripView> {
    let ct = st;
    let cb = h - sb;
    let margin = (cb - ct) / 5;
    let sc = n - 1;
    let head: Seq<StripView> = if st > 0 {
        seq![(0int, 0int, st)]
    } else {
        seq![]
    };
    let mids = middles(sc, ct, cb, margin, 1);
    let tail: Seq<StripView> = if sb > 0 {
        seq![(0int, cb, h)]
    } else {
        seq![]
    };
    head + seq![(0int, ct, cb)] + mids + tail
}

/// The strips of frames `i .. sc-1`.
pub open spec fn middles(sc: int, ct: int, cb: int, margin: int, i: int) -> Seq<StripView>
    decreases sc - i,
{
    if i >= sc {
        seq![]
    } else {
        let top = ct + margin;
        let bottom = if i == sc - 1 {
            cb
        } else {
            cb - margin
        };
        if top >= bottom {
            middles(sc, ct, cb, margin, i + 1)
        } else {
            seq![(i, top, bottom)] + middles(sc, ct, cb, margin, i + 1)
        }
    }
}

/// The strips to stitch from `n` frames of height `h`, with bars of
/// `sticky_top` and `sticky_bottom` rows (see `plan_spec`).
pub fn plan_strips(n: usize, h: u32, sticky_top: u32, sticky_bottom: u32) -> (r: Vec<Strip>)
    requires
        n >= 2,
        sticky_top + sticky_bottom < h,
    ensures
        strips_view(r@) == plan_spec(n as int, h as int, sticky_top as int, sticky_bottom as int),
{
    let ct = sticky_top;
    let cb = h - sticky_bottom;
    let margin = (cb - ct) / 5;
    let sc = n - 1;
    let mut r: Vec<Strip> = Vec::new();
    if sticky_top > 0 {
        r.push(Strip { frame: 0, top: 0, bottom: sticky_top });
    }
    r.push(Strip { frame: 0, top: ct, bottom: cb });
    let ghost pre = strips_view(r@);
    let mut i: usize = 1;
    assert(middles(sc as int, ct as int, cb as int, margin as int, 1) =~= middles(
        sc as int,
        ct as int,
        cb as int,
        margin as int,
        1,
    ));
    while i < sc
        invariant
            1 <= i <= sc,
            sc == n - 1,
            ct <= cb,
            margin == (cb - ct) / 5,
            strips_view(r@) + middles(sc as int, ct as int, cb as int, margin as int, i as int) == pre
                + middles(sc as int, ct as int, cb as int, margin as int, 1),
        decreases sc - i,
    {
        let top = ct + margin;
        let bottom = if i == sc - 1 {
            cb
        } else {
            cb - margin
        };
        if top < bottom {
            let ghost before = strips_view(r@);
            r.push(Strip { frame: i, top, bottom });
            assert(strips_view(r@) =~= before.push((i as int, top as int, bottom as int)));
            assert(strips_view(r@) + middles(sc as int, ct as int, cb as int, margin as int, i + 1)
                =~= before + middles(sc as int, ct as int, cb as int, margin as int, i as int));
        }
        i = i + 1;
    }
    assert(middles(sc as int, ct as int, cb as int, margin as int, i as int) =~= Seq::<StripView>::empty());
    if sticky_bottom > 0 {
        let ghost before = strips_view(r@);
        r.push(Strip { frame: 0, top: cb, bottom: h });
        assert(strips_view(r@) =~= before.push((0int, cb as int, h as int)));
    }
    assert(strips_view(r@) =~= plan_spec(n as int, h as int, sticky_top as int, sticky_bottom as int));
    r
}

/// The placements of the first `n` strips: the first at 0, each next one
/// under the one before it.
pub open spec fn placements_spec(frames: Seq<Frame>, ss: Seq<StripView>, w: int, n: nat) -> Seq<int>
    decreases n,
{
    if n == 0 {
        seq![]
    } else if n == 1 {
        seq![0]
    } else {
        let prev = placements_spec(frames, ss, w, (n - 1) as nat);
        prev.push(placement_spec(frames, ss, prev.last(), n - 1, w))
    }
}

/// The height a composite needs: the lowest strip bottom.
pub open spec fn composite_height(ss: Seq<StripView>, ps: Seq<int>, n: nat) -> int
    decreases n,
{
    if n == 0 {
        0
    } else {
        let b = ps[n - 1] + ss[n - 1].2 - ss[n - 1].1;
        let rest = composite_height(ss, ps, (n - 1) as nat);
        if b > rest {
            b
        } else {
            rest
        }
    }
}

/// Where each strip goes in the composite, and the composite's height.
/// There are fewer than 65536 strips.
pub fn place_strips(frames: &Vec<Frame>, strips: &Vec<Strip>, w: u32) -> (r: (Vec<u32>, u32))
    requires
        frames_ok(frames@, w as int),
        strips_ok(frames@, strips_view(strips@)),
        1 <= strips@.len() < 65536,
    ensures
        r.0@.len() == strips@.len(),
        forall|i: int|
            0 <= i < strips@.len() ==> r.0@[i] as int == placements_spec(
                frames@,
                strips_view(strips@),
                w as int,
                strips@.len() as nat,
            )[i],
        r.1 as int == composite_height(
            strips_view(strips@),
            placements_spec(frames@, strips_view(strips@), w as int, strips@.len() as nat),
            strips@.len() as nat,
        ),
{
    let ghost sv = strips_view(strips@);
    assert(strip_ok(frames@, sv[0]));
    let first_h = strips[0].bottom - strips[0].top;
    let mut ps: Vec<u32> = Vec::new();
    ps.push(0);
    let mut height: u32 = first_h;
    let mut i: usize = 1;
    proof {
        assert(frames@[strips@[0].frame as int].height <= 65536);
        let p1 = placements_spec(frames@, sv, w as int, 1);
        assert(p1 == seq![0int]);
        assert(composite_height(sv, p1, 0) == 0);
        assert(composite_height(sv, p1, 1) == first_h as int);
    }
    while i < strips.len()
        invariant
            frames_ok(frames@, w as int),
            strips_ok(frames@, sv),
            sv == strips_view(strips@),
            1 <= i <= strips@.len(),
            strips@.len() < 65536,
            ps@.len() == i,
            forall|j: int| 0 <= j < i ==> ps@[j] as int == #[trigger] placements_spec(frames@, sv, w as int, i as nat)[j],
            placements_spec(frames@, sv, w as int, i as nat).len() == i,
            ps@[i - 1] <= (i - 1) * 65536,
            height as int == composite_height(sv, placements_spec(frames@, sv, w as int, i as nat), i as nat),
            height <= i * 65536,
        decreases strips@.len() - i,
    {
        assert(strip_ok(frames@, sv[i - 1]));
        assert(strip_ok(frames@, sv[i as int]));
        assert(frames@[strips@[i - 1].frame as int].height <= 65536);
        assert(frames@[strips@[i as int].frame as int].height <= 65536);
        let prev_y0 = ps[i - 1];
        let p = find_strip_placement(frames, strips, prev_y0, i, w);
        assert(p <= i * 65536);
        let bottom = p + (strips[i].bottom - strips[i].top);
        let ghost old_ps = placements_spec(frames@, sv, w as int, i as nat);
        ps.push(p);
        if bottom > height {
            height = bottom;
        }
        proof {
            let np = placements_spec(frames@, sv, w as int, (i + 1) as nat);
            assert(np == old_ps.push(placement_spec(frames@, sv, old_ps.last(), i as int, w as int)));
            assert(old_ps.last() == prev_y0 as int);
            assert forall|j: int| 0 <= j < i + 1 implies ps@[j] as int == #[trigger] np[j] by {
                if j < i {
                    assert(np[j] == old_ps[j]);
                }
            }
            lemma_composite_prefix(sv, old_ps, np, i as nat);
        }
        i = i + 1;
    }
    (ps, height)
}

proof fn lemma_composite_prefix(ss: Seq<StripView>, a: Seq<int>, b: Seq<int>, n: nat)
    requires
        a.len() == n,
        b.len() == n + 1,
        forall|j: int| 0 <= j < n ==> a[j] == b[j],
    ensures
        composite_height(ss, a, n) == composite_height(ss, b, n),
    decreases n,
{
    if n > 0 {
        lemma_composite_prefix(ss, a.drop_last(), b.drop_last(), (n - 1) as nat);
        assert(composite_height(ss, a, (n - 1) as nat) == composite_height(ss, a.drop_last(), (n - 1) as nat)) by {
            lemma_composite_same(ss, a, a.drop_last(), (n - 1) as nat);
        }
        assert(composite_height(ss, b, (n - 1) as nat) == composite_height(ss, b.drop_last(), (n - 1) as nat)) by {
            lemma_composite_same(ss, b, b.drop_last(), (n - 1) as nat);
        }
    }
}

proof fn lemma_composite_same(ss: Seq<StripView>, a: Seq<int>, b: Seq<int>, n: nat)
    requires
        n <= a.len(),
        n <= b.len(),
        forall|j: int| 0 <= j < n ==> a[j] == b[j],
    ensures
        composite_height(ss, a, n) == composite_height(ss, b, n),
    decreases n,
{
    if n > 0 {
        lemma_composite_same(ss, a, b, (n - 1) as nat);
    }
}

/// What a new screenshot taken while scrolling leads to: it is kept
/// unless it shows the same as the last kept frame, and the second such
/// screenshot in a row means the bottom was reached. Returns whether to
/// keep it, the new count of unchanged screenshots, and whether to stop.
pub fn frame_step(unchanged: bool, count: u32) -> (r: (bool, u32, bool))
    requires
        count < 2,
    ensures
        unchanged ==> r == (false, (count + 1) as u32, count + 1 >= 2),
        !unchanged ==> r == (true, 0u32, false),
{
    if unchanged {
        let c = count + 1;
        (false, c, c >= 2)
    } else {
        (true, 0, false)
    }
}

} // verus!
