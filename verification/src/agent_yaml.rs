//! Shared low-level helpers for the semantic-agent `/semantic` YAML response.
//!
//! The response is consumed chunk by chunk: `split_elements` cuts it at the
//! top-level list markers, `chunk_top_field` reads a top-level `key: value`
//! of one chunk, and `chunk_bounds` decodes its `bounds:` block.
use vstd::prelude::*;
use crate::text::{
    chars_of, copy_range, ends_with, find, find_exec, is_ws, lemma_deep_view_chars,
    lemma_find_from_props, leading_spaces, leading_spaces_count, lines, lines_vec,
    matches_at_exec, parse_i32, parse_i32_exec, skip_back, skip_fwd, split, split_vec,
    starts_with, starts_with_exec, string_of, trim, trim_char, trim_char_vec, trim_end_char,
    trim_end_char_vec, trim_start, trim_start_char, trim_start_char_vec, trim_start_vec, trim_vec,
    eq_pred, ws_pred, matches_at, find_from, contains, join, match_count, lemma_split_from_props,
};

verus! {

// ---------------------------------------------------------------------------
// Element chunks
// ---------------------------------------------------------------------------

/// The element delimiter `"\n- "`.
pub open spec fn element_delim() -> Seq<char> {
    seq!['\n', '-', ' ']
}

/// Cutting the agent YAML at its list markers loses nothing: the chunks
/// joined with the marker give the text back, there is one chunk more than
/// there are markers, and no chunk holds a marker.
pub proof fn law_split_elements_lossless(yaml: Seq<char>)
    ensures
        join(split(yaml, element_delim()), element_delim()) == yaml,
        split(yaml, element_delim()).len() == match_count(yaml, element_delim()) + 1,
        forall|j: int|
            0 <= j < split(yaml, element_delim()).len() ==> !contains(
                #[trigger] split(yaml, element_delim())[j],
                element_delim(),
            ),
{
    lemma_split_from_props(yaml, element_delim(), 0);
    assert(yaml.subrange(0, yaml.len() as int) =~= yaml);
}

/// Split the agent YAML into raw chunks delimited by top-level list items
/// (`\n- ` marker), exactly as `yaml.split("\n- ")`.
pub fn split_elements(yaml: &str) -> (r: Vec<String>)
    ensures
        r.deep_view() == split(yaml@, element_delim()),
{
    let c = chars_of(yaml);
    let d: Vec<char> = vec!['\n', '-', ' '];
    assert(d@ =~= element_delim());
    let pieces = split_vec(&c, &d);
    let mut r: Vec<String> = Vec::new();
    let mut i: usize = 0;
    while i < pieces.len()
        invariant
            i <= pieces@.len(),
            r.deep_view() =~= pieces.deep_view().take(i as int),
        decreases pieces@.len() - i,
    {
        proof {
            lemma_deep_view_chars(pieces[i as int]);
        }
        let s = string_of(&pieces[i]);
        let ghost old = r.deep_view();
        r.push(s);
        assert(r.deep_view() =~= old.push(pieces.deep_view()[i as int]));
        i = i + 1;
        assert(r.deep_view() =~= pieces.deep_view().take(i as int));
    }
    assert(pieces.deep_view().take(i as int) =~= pieces.deep_view());
    r
}

// ---------------------------------------------------------------------------
// Top-level lines of a chunk
// ---------------------------------------------------------------------------

/// `line.trim_start().trim_start_matches('-').trim_start()`
pub open spec fn undashed(line: Seq<char>) -> Seq<char> {
    trim_start(trim_start_char(trim_start(line), '-'))
}

pub open spec fn is_blank(line: Seq<char>) -> bool {
    trim(line).len() == 0
}

/// Scan of the chunk's lines from `i` for the first top-level line satisfying
/// `pred`. The first non-blank line of a chunk sits at column 0 (its list
/// dash was consumed by the split); the indent of the second non-blank line
/// is the field indent. A line is top-level when its indent is 0 or equals
/// the field indent; blank lines are skipped. `seen` records whether a
/// non-blank line has been passed, `fi` the field indent once known.
pub open spec fn top_scan(
    ls: Seq<Seq<char>>,
    pred: spec_fn(Seq<char>) -> bool,
    i: nat,
    seen: bool,
    fi: Option<nat>,
) -> Option<nat>
    decreases ls.len() - i,
{
    if i >= ls.len() {
        None
    } else if is_blank(ls[i as int]) {
        top_scan(ls, pred, i + 1, seen, fi)
    } else {
        let ind = leading_spaces(ls[i as int]);
        let fi2 = if seen && fi is None {
            Some(ind)
        } else {
            fi
        };
        if (ind == 0 || fi2 == Some(ind)) && pred(ls[i as int]) {
            Some(i)
        } else {
            top_scan(ls, pred, i + 1, true, fi2)
        }
    }
}

/// Index of the first top-level line of `chunk` satisfying `pred`.
pub open spec fn first_top_line(chunk: Seq<char>, pred: spec_fn(Seq<char>) -> bool) -> Option<
    nat,
> {
    top_scan(lines(chunk), pred, 0, false, None)
}

/// What follows `key:` on a line whose undashed form starts with `key:`.
pub open spec fn key_rest(line: Seq<char>, key: Seq<char>) -> Option<Seq<char>> {
    let t = undashed(line);
    let kc = key.push(':');
    if starts_with(t, kc) {
        Some(t.skip(kc.len() as int))
    } else {
        None
    }
}

/// The value text: trimmed, then stripped of surrounding `"` and then `'`.
pub open spec fn clean_value(rest: Seq<char>) -> Seq<char> {
    trim_char(trim_char(trim(rest), '"'), '\'')
}

pub open spec fn has_key(key: Seq<char>) -> spec_fn(Seq<char>) -> bool {
    |l: Seq<char>| key_rest(l, key) is Some
}

/// The value of the first top-level `key:` line of `chunk`.
pub open spec fn top_field(chunk: Seq<char>, key: Seq<char>) -> Option<Seq<char>> {
    match first_top_line(chunk, has_key(key)) {
        Some(i) => Some(clean_value(key_rest(lines(chunk)[i as int], key)->0)),
        None => None,
    }
}

fn undashed_vec(line: &[char]) -> (r: Vec<char>)
    ensures
        r@ == undashed(line@),
{
    let a = trim_start_vec(line);
    let b = trim_start_char_vec(&a, '-');
    trim_start_vec(&b)
}

fn key_rest_exec(line: &[char], kc: &[char]) -> (r: Option<Vec<char>>)
    requires
        kc@.len() > 0,
        kc@.last() == ':',
    ensures
        r matches Some(v) ==> key_rest(line@, kc@.drop_last()) == Some(v@),
        r is None ==> key_rest(line@, kc@.drop_last()) is None,
{
    let t = undashed_vec(line);
    assert(kc@.drop_last().push(':') =~= kc@);
    if starts_with_exec(&t, kc) {
        Some(copy_range(&t, kc.len(), t.len()))
    } else {
        None
    }
}

fn is_blank_exec(line: &[char]) -> (r: bool)
    ensures
        r == is_blank(line@),
{
    let t = trim_vec(line);
    t.len() == 0
}

/// Extract a top-level `key: value` from a chunk, value-only (quote-stripped).
///
/// The first line of a chunk sits at column 0, every later top-level field
/// keeps the indent of the second non-blank line; deeper indents are skipped,
/// so nested children (e.g. `bounds.{x,y,w,h}`) cannot shadow same-name
/// top-level fields.
pub fn chunk_top_field(chunk: &str, key: &str) -> (r: Option<String>)
    ensures
        r matches Some(v) ==> top_field(chunk@, key@) == Some(v@),
        r is None ==> top_field(chunk@, key@) is None,
{
    let c = chars_of(chunk);
    let k = chars_of(key);
    let mut kc = copy_range(&k, 0, k.len());
    kc.push(':');
    assert(kc@.drop_last() =~= key@);
    let ls = lines_vec(&c);
    let ghost lsv = ls.deep_view();
    let ghost pred = has_key(key@);
    let mut seen = false;
    let mut fi: Option<usize> = None;
    let mut i: usize = 0;
    while i < ls.len()
        invariant
            lsv == ls.deep_view(),
            lsv == lines(chunk@),
            kc@.len() > 0,
            kc@.last() == ':',
            kc@.drop_last() == key@,
            pred == has_key(key@),
            i <= ls@.len(),
            fi matches Some(f) ==> f <= usize::MAX,
            first_top_line(chunk@, pred) == top_scan(
                lsv,
                pred,
                i as nat,
                seen,
                match fi {
                    Some(f) => Some(f as nat),
                    None => None,
                },
            ),
        decreases ls@.len() - i,
    {
        let line: &Vec<char> = &ls[i];
        assert(line@ == lsv[i as int]) by {
            lemma_deep_view_chars(*line);
        }
        if !is_blank_exec(line) {
            let ind = leading_spaces_count(line);
            if seen && fi.is_none() {
                fi = Some(ind);
            }
            let is_top = ind == 0 || fi == Some(ind);
            if is_top {
                match key_rest_exec(line, &kc) {
                    Some(rest) => {
                        let t1 = trim_vec(&rest);
                        let t2 = trim_char_vec(&t1, '"');
                        let t3 = trim_char_vec(&t2, '\'');
                        return Some(string_of(&t3));
                    },
                    None => {},
                }
            }
            seen = true;
        }
        i = i + 1;
    }
    None
}

// ---------------------------------------------------------------------------
// Bounds
// ---------------------------------------------------------------------------

pub open spec fn bounds_tag() -> Seq<char> {
    seq!['b', 'o', 'u', 'n', 'd', 's', ':']
}

pub open spec fn is_bounds_line(l: Seq<char>) -> bool {
    starts_with(undashed(l), bounds_tag())
}

pub open spec fn bounds_line_pred() -> spec_fn(Seq<char>) -> bool {
    |l: Seq<char>| is_bounds_line(l)
}

/// First index in `ls` from `i` that satisfies `pred` (`Iterator::find`).
pub open spec fn first_line_from(ls: Seq<Seq<char>>, pred: spec_fn(Seq<char>) -> bool, i: nat) -> Option<
    nat,
>
    decreases ls.len() - i,
{
    if i >= ls.len() {
        None
    } else if pred(ls[i as int]) {
        Some(i)
    } else {
        first_line_from(ls, pred, i + 1)
    }
}

/// The integers among the comma-separated pieces, in order (`filter_map` of
/// `p.trim().parse::<i32>().ok()`).
pub open spec fn parsed_pieces(ps: Seq<Seq<char>>) -> Seq<i32>
    decreases ps.len(),
{
    if ps.len() == 0 {
        seq![]
    } else {
        let rest = parsed_pieces(ps.drop_last());
        match parse_i32(trim(ps.last())) {
            Some(v) => rest.push(v),
            None => rest,
        }
    }
}

/// The text after the first `bounds:` of a line, trimmed.
pub open spec fn after_bounds_tag(line: Seq<char>) -> Option<Seq<char>> {
    match find(line, bounds_tag()) {
        Some(k) => Some(trim(line.skip(k + bounds_tag().len() as int))),
        None => None,
    }
}

/// The inline form `bounds: [l, t, r, b]` on the first line that starts with
/// `bounds:` (after indentation and list dashes).
pub open spec fn inline_bounds(chunk: Seq<char>) -> Option<Seq<i32>> {
    let ls = lines(chunk);
    match first_line_from(ls, bounds_line_pred(), 0) {
        Some(j) => match after_bounds_tag(ls[j as int]) {
            Some(after) => if starts_with(after, seq!['[']) && ends_with(after, seq![']']) {
                let inner = trim_end_char(trim_start_char(after, '['), ']');
                let nums = parsed_pieces(split(inner, seq![',']));
                if nums.len() == 4 {
                    Some(nums)
                } else {
                    None
                }
            } else {
                None
            },
            None => None,
        },
        None => None,
    }
}

/// The eight coordinates a nested `bounds:` block can name.
pub struct NestedBounds {
    pub x: Option<i32>,
    pub y: Option<i32>,
    pub w: Option<i32>,
    pub h: Option<i32>,
    pub left: Option<i32>,
    pub top: Option<i32>,
    pub right: Option<i32>,
    pub bottom: Option<i32>,
}

pub open spec fn empty_nested() -> NestedBounds {
    NestedBounds {
        x: None,
        y: None,
        w: None,
        h: None,
        left: None,
        top: None,
        right: None,
        bottom: None,
    }
}

/// The key of a block line: the text before its first `:` (trimmed), or
/// empty when it has none.
pub open spec fn block_key(l: Seq<char>) -> Seq<char> {
    let t = trim_start(l);
    match find(t, seq![':']) {
        Some(c) => trim(t.take(c as int)),
        None => seq![],
    }
}

/// The value of a block line: the text after its first `:` parsed as i32.
pub open spec fn block_val(l: Seq<char>) -> Option<i32> {
    let t = trim_start(l);
    match find(t, seq![':']) {
        Some(c) => parse_i32(trim(t.skip(c as int + 1))),
        None => None,
    }
}

/// Record the line's value under its key (later lines overwrite).
pub open spec fn assign_coord(acc: NestedBounds, key: Seq<char>, v: Option<i32>) -> NestedBounds {
    if key == seq!['x'] {
        NestedBounds { x: v, ..acc }
    } else if key == seq!['y'] {
        NestedBounds { y: v, ..acc }
    } else if key == seq!['w'] {
        NestedBounds { w: v, ..acc }
    } else if key == seq!['h'] {
        NestedBounds { h: v, ..acc }
    } else if key == seq!['l', 'e', 'f', 't'] {
        NestedBounds { left: v, ..acc }
    } else if key == seq!['t', 'o', 'p'] {
        NestedBounds { top: v, ..acc }
    } else if key == seq!['r', 'i', 'g', 'h', 't'] {
        NestedBounds { right: v, ..acc }
    } else if key == seq!['b', 'o', 't', 't', 'o', 'm'] {
        NestedBounds { bottom: v, ..acc }
    } else {
        acc
    }
}

/// The lines after the `bounds:` header that are indented deeper than it,
/// up to the first non-blank line that is not.
pub open spec fn block_scan(ls: Seq<Seq<char>>, k: nat, bi: nat, acc: NestedBounds) -> NestedBounds
    decreases ls.len() - k,
{
    if k >= ls.len() {
        acc
    } else if is_blank(ls[k as int]) {
        block_scan(ls, k + 1, bi, acc)
    } else if leading_spaces(ls[k as int]) <= bi {
        acc
    } else {
        block_scan(ls, k + 1, bi, assign_coord(acc, block_key(ls[k as int]), block_val(ls[k as int])))
    }
}

/// The coordinates named under the first top-level `bounds:` line.
pub open spec fn nested_bounds(chunk: Seq<char>) -> NestedBounds {
    let ls = lines(chunk);
    match first_top_line(chunk, bounds_line_pred()) {
        Some(j) => block_scan(ls, j + 1, leading_spaces(ls[j as int]), empty_nested()),
        None => empty_nested(),
    }
}

/// The decoded `bounds` of a chunk as `[left, top, right, bottom]`, in
/// mathematical integers: the inline array first, then the nested
/// `{left, top, right, bottom}` mapping, then the nested `{x, y, w, h}`
/// mapping, which gives `[x, y, x + w, y + h]`.
pub open spec fn bounds_of(chunk: Seq<char>) -> Option<Seq<int>> {
    match inline_bounds(chunk) {
        Some(nums) => Some(seq![nums[0] as int, nums[1] as int, nums[2] as int, nums[3] as int]),
        None => {
            let n = nested_bounds(chunk);
            if n.left is Some && n.top is Some && n.right is Some && n.bottom is Some {
                Some(
                    seq![
                        n.left->0 as int,
                        n.top->0 as int,
                        n.right->0 as int,
                        n.bottom->0 as int,
                    ],
                )
            } else if n.x is Some && n.y is Some && n.w is Some && n.h is Some {
                Some(
                    seq![
                        n.x->0 as int,
                        n.y->0 as int,
                        n.x->0 + n.w->0,
                        n.y->0 + n.h->0,
                    ],
                )
            } else {
                None
            }
        },
    }
}

/// Every decoded coordinate fits in `i32` (only `x + w` and `y + h` can fail).
pub open spec fn bounds_fit_i32(chunk: Seq<char>) -> bool {
    bounds_of(chunk) matches Some(b) ==> (forall|i: int|
        0 <= i < 4 ==> i32::MIN <= #[trigger] b[i] <= i32::MAX)
}

fn is_bounds_line_exec(line: &[char]) -> (r: bool)
    ensures
        r == is_bounds_line(line@),
{
    let t = undashed_vec(line);
    let tag: Vec<char> = vec!['b', 'o', 'u', 'n', 'd', 's', ':'];
    assert(tag@ =~= bounds_tag());
    starts_with_exec(&t, &tag)
}

fn parsed_pieces_exec(ps: &Vec<Vec<char>>) -> (r: Vec<i32>)
    ensures
        r@ == parsed_pieces(ps.deep_view()),
{
    let mut r: Vec<i32> = Vec::new();
    let mut i: usize = 0;
    while i < ps.len()
        invariant
            i <= ps@.len(),
            r@ == parsed_pieces(ps.deep_view().take(i as int)),
        decreases ps@.len() - i,
    {
        let t = trim_vec(&ps[i]);
        let v = parse_i32_exec(&t);
        let ghost pre = ps.deep_view().take(i as int);
        let ghost nxt = ps.deep_view().take(i + 1);
        assert(nxt.drop_last() =~= pre);
        assert(nxt.last() == ps[i as int]@) by {
            lemma_deep_view_chars(ps[i as int]);
        }
        match v {
            Some(n) => {
                r.push(n);
            },
            None => {},
        }
        i = i + 1;
    }
    assert(ps.deep_view().take(i as int) =~= ps.deep_view());
    r
}

fn first_bounds_line(ls: &Vec<Vec<char>>) -> (r: Option<usize>)
    ensures
        r matches Some(j) ==> j < ls@.len() && first_line_from(ls.deep_view(), bounds_line_pred(), 0)
            == Some(j as nat),
        r is None ==> first_line_from(ls.deep_view(), bounds_line_pred(), 0) is None,
{
    let ghost lsv = ls.deep_view();
    let ghost pred = bounds_line_pred();
    let mut j: usize = 0;
    while j < ls.len()
        invariant
            lsv == ls.deep_view(),
            lsv.len() == ls@.len(),
            j <= ls@.len(),
            pred == bounds_line_pred(),
            first_line_from(lsv, pred, 0) == first_line_from(lsv, pred, j as nat),
        decreases ls@.len() - j,
    {
        proof {
            lemma_deep_view_chars(ls[j as int]);
        }
        if is_bounds_line_exec(&ls[j]) {
            return Some(j);
        }
        j = j + 1;
    }
    None
}

fn inline_bounds_exec(c: &Vec<char>, ls: &Vec<Vec<char>>) -> (r: Option<[i32; 4]>)
    requires
        ls.deep_view() == lines(c@),
    ensures
        r matches Some(a) ==> inline_bounds(c@) == Some(seq![a[0], a[1], a[2], a[3]]),
        r is None ==> inline_bounds(c@) is None,
{
    let j = match first_bounds_line(ls) {
        Some(j) => j,
        None => {
            return None;
        },
    };
    proof {
        lemma_deep_view_chars(ls[j as int]);
    }
    let line: &Vec<char> = &ls[j];
    let tag: Vec<char> = vec!['b', 'o', 'u', 'n', 'd', 's', ':'];
    assert(tag@ =~= bounds_tag());
    let k = match find_exec(line, &tag) {
        Some(k) => k,
        None => {
            return None;
        },
    };
    proof {
        lemma_find_from_props(line@, bounds_tag(), 0);
    }
    let n = line.len();
    assert(k + 7 <= n);
    let rest = copy_range(line, k + 7, n);
    let after = trim_vec(&rest);
    let lb: Vec<char> = vec!['['];
    let rb: Vec<char> = vec![']'];
    let ghost after_s = after@;
    if !(starts_with_exec(&after, &lb) && matches_at_exec(&after, &rb, after.len() - 1)) {
        proof {
            assert(lb@ =~= seq!['[']);
            assert(rb@ =~= seq![']']);
        }
        return None;
    }
    proof {
        assert(lb@ =~= seq!['[']);
        assert(rb@ =~= seq![']']);
    }
    let inner0 = trim_start_char_vec(&after, '[');
    let inner = trim_end_char_vec(&inner0, ']');
    let comma: Vec<char> = vec![','];
    assert(comma@ =~= seq![',']);
    let pieces = split_vec(&inner, &comma);
    let nums = parsed_pieces_exec(&pieces);
    if nums.len() == 4 {
        assert(nums@ =~= seq![nums[0], nums[1], nums[2], nums[3]]);
        Some([nums[0], nums[1], nums[2], nums[3]])
    } else {
        None
    }
}

fn block_key_val(l: &[char]) -> (r: (Vec<char>, Option<i32>))
    ensures
        r.0@ == block_key(l@),
        r.1 == block_val(l@),
{
    let t = trim_start_vec(l);
    let colon: Vec<char> = vec![':'];
    assert(colon@ =~= seq![':']);
    match find_exec(&t, &colon) {
        Some(c) => {
            proof {
                lemma_find_from_props(t@, seq![':'], 0);
            }
            let tn = t.len();
            assert(c + 1 <= tn);
            let before = copy_range(&t, 0, c);
            let key = trim_vec(&before);
            let after = copy_range(&t, c + 1, tn);
            let vt = trim_vec(&after);
            (key, parse_i32_exec(&vt))
        },
        None => {
            let e: Vec<char> = Vec::new();
            assert(e@ =~= Seq::<char>::empty());
            (e, None)
        },
    }
}

fn eq_chars(a: &[char], b: &[char]) -> (r: bool)
    ensures
        r == (a@ == b@),
{
    if a.len() != b.len() {
        return false;
    }
    let r = matches_at_exec(a, b, 0);
    proof {
        if r {
            assert(a@.subrange(0, b@.len() as int) =~= a@);
        } else {
            if a@ == b@ {
                assert(a@.subrange(0, b@.len() as int) =~= a@);
            }
        }
    }
    r
}

fn assign_coord_exec(acc: &mut NestedBounds, key: &[char], v: Option<i32>)
    ensures
        *final(acc) == assign_coord(*old(acc), key@, v),
{
    let kx: Vec<char> = vec!['x'];
    let ky: Vec<char> = vec!['y'];
    let kw: Vec<char> = vec!['w'];
    let kh: Vec<char> = vec!['h'];
    let kl: Vec<char> = vec!['l', 'e', 'f', 't'];
    let kt: Vec<char> = vec!['t', 'o', 'p'];
    let kr: Vec<char> = vec!['r', 'i', 'g', 'h', 't'];
    let kb: Vec<char> = vec!['b', 'o', 't', 't', 'o', 'm'];
    assert(kx@ =~= seq!['x']);
    assert(ky@ =~= seq!['y']);
    assert(kw@ =~= seq!['w']);
    assert(kh@ =~= seq!['h']);
    assert(kl@ =~= seq!['l', 'e', 'f', 't']);
    assert(kt@ =~= seq!['t', 'o', 'p']);
    assert(kr@ =~= seq!['r', 'i', 'g', 'h', 't']);
    assert(kb@ =~= seq!['b', 'o', 't', 't', 'o', 'm']);
    if eq_chars(key, &kx) {
        acc.x = v;
    } else if eq_chars(key, &ky) {
        acc.y = v;
    } else if eq_chars(key, &kw) {
        acc.w = v;
    } else if eq_chars(key, &kh) {
        acc.h = v;
    } else if eq_chars(key, &kl) {
        acc.left = v;
    } else if eq_chars(key, &kt) {
        acc.top = v;
    } else if eq_chars(key, &kr) {
        acc.right = v;
    } else if eq_chars(key, &kb) {
        acc.bottom = v;
    }
}

fn bounds_header(c: &Vec<char>, ls: &Vec<Vec<char>>) -> (r: Option<usize>)
    requires
        ls.deep_view() == lines(c@),
    ensures
        r matches Some(j) ==> j < ls@.len() && first_top_line(c@, bounds_line_pred()) == Some(
            j as nat,
        ),
        r is None ==> first_top_line(c@, bounds_line_pred()) is None,
{
    let ghost lsv = ls.deep_view();
    let ghost pred = bounds_line_pred();
    let mut seen = false;
    let mut fi: Option<usize> = None;
    let mut j: usize = 0;
    while j < ls.len()
        invariant
            lsv == ls.deep_view(),
            lsv == lines(c@),
            lsv.len() == ls@.len(),
            pred == bounds_line_pred(),
            j <= ls@.len(),
            first_top_line(c@, pred) == top_scan(
                lsv,
                pred,
                j as nat,
                seen,
                match fi {
                    Some(f) => Some(f as nat),
                    None => None,
                },
            ),
        decreases ls@.len() - j,
    {
        let line: &Vec<char> = &ls[j];
        assert(line@ == lsv[j as int]) by {
            lemma_deep_view_chars(*line);
        }
        if !is_blank_exec(line) {
            let ind = leading_spaces_count(line);
            if seen && fi.is_none() {
                fi = Some(ind);
            }
            if (ind == 0 || fi == Some(ind)) && is_bounds_line_exec(line) {
                return Some(j);
            }
            seen = true;
        }
        j = j + 1;
    }
    None
}

fn nested_bounds_exec(c: &Vec<char>, ls: &Vec<Vec<char>>) -> (r: NestedBounds)
    requires
        ls.deep_view() == lines(c@),
    ensures
        r == nested_bounds(c@),
{
    let ghost lsv = ls.deep_view();
    let hdr = bounds_header(c, ls);
    let mut acc = NestedBounds {
        x: None,
        y: None,
        w: None,
        h: None,
        left: None,
        top: None,
        right: None,
        bottom: None,
    };
    let j = match hdr {
        Some(j) => j,
        None => {
            return acc;
        },
    };
    proof {
        lemma_deep_view_chars(ls[j as int]);
    }
    let bi = leading_spaces_count(&ls[j]);
    let nl = ls.len();
    assert(j < nl);
    let mut k = j + 1;
    while k < ls.len()
        invariant
            lsv == ls.deep_view(),
            lsv.len() == ls@.len(),
            j < k <= ls@.len(),
            first_top_line(c@, bounds_line_pred()) == Some(j as nat),
            lsv == lines(c@),
            bi == leading_spaces(lsv[j as int]),
            block_scan(lsv, (j + 1) as nat, bi as nat, empty_nested()) == block_scan(
                lsv,
                k as nat,
                bi as nat,
                acc,
            ),
        decreases ls@.len() - k,
    {
        let line: &Vec<char> = &ls[k];
        assert(line@ == lsv[k as int]) by {
            lemma_deep_view_chars(*line);
        }
        if !is_blank_exec(line) {
            let ind = leading_spaces_count(line);
            if ind <= bi {
                return acc;
            }
            let (key, v) = block_key_val(line);
            assign_coord_exec(&mut acc, &key, v);
        }
        k = k + 1;
    }
    acc
}

/// Extract a nested `bounds:` block as `[left, top, right, bottom]` (pixels).
///
/// Accepts three shapes the agent has been observed to emit:
///   - inline array: `bounds: [l, t, r, b]`
///   - nested mapping `{x, y, w, h}`
///   - nested mapping `{left, top, right, bottom}`
pub fn chunk_bounds(chunk: &str) -> (r: Option<[i32; 4]>)
    requires
        bounds_fit_i32(chunk@),
    ensures
        r matches Some(a) ==> bounds_of(chunk@) == Some(
            seq![a[0] as int, a[1] as int, a[2] as int, a[3] as int],
        ),
        r is None ==> bounds_of(chunk@) is None,
{
    let c = chars_of(chunk);
    let ls = lines_vec(&c);
    match inline_bounds_exec(&c, &ls) {
        Some(a) => {
            return Some(a);
        },
        None => {},
    }
    let n = nested_bounds_exec(&c, &ls);
    match (n.left, n.top, n.right, n.bottom) {
        (Some(l), Some(t), Some(r), Some(b)) => {
            return Some([l, t, r, b]);
        },
        _ => {},
    }
    match (n.x, n.y, n.w, n.h) {
        (Some(x), Some(y), Some(w), Some(h)) => {
            assert(bounds_of(chunk@)->0[2] == x + w);
            assert(bounds_of(chunk@)->0[3] == y + h);
            Some([x, y, x + w, y + h])
        },
        _ => None,
    }
}


/// Whether `chunk_bounds` can take this chunk: bounds given as position and
/// size have right and bottom edges that fit in `i32`.
pub fn chunk_bounds_fit(chunk: &str) -> (r: bool)
    ensures
        r == bounds_fit_i32(chunk@),
{
    let c = chars_of(chunk);
    let ls = lines_vec(&c);
    match inline_bounds_exec(&c, &ls) {
        Some(a) => {
            proof {
                let b = bounds_of(chunk@)->0;
                assert(b[0] == a[0] as int && b[1] == a[1] as int && b[2] == a[2] as int && b[3] == a[3] as int);
            }
            return true;
        },
        None => {},
    }
    let n = nested_bounds_exec(&c, &ls);
    match (n.left, n.top, n.right, n.bottom) {
        (Some(l), Some(t), Some(r), Some(b)) => {
            return true;
        },
        _ => {},
    }
    match (n.x, n.y, n.w, n.h) {
        (Some(x), Some(y), Some(w), Some(h)) => {
            let rx = x as i64 + w as i64;
            let by = y as i64 + h as i64;
            proof {
                let b = bounds_of(chunk@)->0;
                assert(b[0] == x as int && b[1] == y as int);
                assert(b[2] == x + w && b[3] == y + h);
            }
            i32::MIN as i64 <= rx && rx <= i32::MAX as i64 && i32::MIN as i64 <= by && by <= i32::MAX as i64
        },
        _ => true,
    }
}
} // verus!
