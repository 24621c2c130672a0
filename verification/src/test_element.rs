//! Element lookup in the semantic-agent YAML and in uiautomator XML dumps.
use vstd::prelude::*;
use crate::text::{
    chars_of, contains, copy_range, find, find_exec, lemma_deep_view_chars, lemma_find_from_props,
    lines, lines_vec, parse_i32, parse_i32_exec, starts_with, starts_with_exec, trim, trim_vec,
    lowercase, to_lowercase, concat_chars, contains_exec, split, decimal_int, decimal_nat, i64_to_string, str_eq,
};
use vstd::utf8::encode_utf8;
use crate::bytes::{
    copy_range_b, find_b, find_exec_b, lemma_find_from_props_b, parse_i32_b, parse_i32_exec_b,
    rfind_byte, rfind_byte_exec, split_b, split_vec_b, lemma_deep_view_chars_b,
};
use crate::agent_yaml::first_line_from;
use crate::json::{
    i64_at, i64_at_exec, json_check, json_ok, str_at, str_at_exec, true_at, true_at_exec, u64_at,
    u64_at_exec,
};
use vstd::string::StringSliceAdditionalSpecFns;

verus! {

// ---------------------------------------------------------------------------
// YAML integer fields
// ---------------------------------------------------------------------------

pub open spec fn trimmed_starts(key: Seq<char>) -> spec_fn(Seq<char>) -> bool {
    |l: Seq<char>| starts_with(trim(l), key)
}

/// The integer after `key` on the first line whose trimmed form starts with
/// `key` (`None` when there is no such line or its value does not parse).
pub open spec fn yaml_int(chunk: Seq<char>, key: Seq<char>) -> Option<i32> {
    let ls = lines(chunk);
    match first_line_from(ls, trimmed_starts(key), 0) {
        Some(i) => parse_i32(trim(trim(ls[i as int]).skip(key.len() as int))),
        None => None,
    }
}

pub fn extract_yaml_int(chunk: &str, key: &str) -> (r: Option<i32>)
    ensures
        r == yaml_int(chunk@, key@),
{
    let c = chars_of(chunk);
    let k = chars_of(key);
    let ls = lines_vec(&c);
    let ghost lsv = ls.deep_view();
    let ghost pred = trimmed_starts(key@);
    let mut i: usize = 0;
    while i < ls.len()
        invariant
            lsv == ls.deep_view(),
            lsv == lines(chunk@),
            lsv.len() == ls@.len(),
            k@ == key@,
            pred == trimmed_starts(key@),
            i <= ls@.len(),
            first_line_from(lsv, pred, 0) == first_line_from(lsv, pred, i as nat),
        decreases ls@.len() - i,
    {
        proof {
            lemma_deep_view_chars(ls[i as int]);
        }
        let t = trim_vec(&ls[i]);
        if starts_with_exec(&t, &k) {
            let rest = copy_range(&t, k.len(), t.len());
            let v = trim_vec(&rest);
            return parse_i32_exec(&v);
        }
        i = i + 1;
    }
    None
}

/// Scan of the lines after a section header: stop at a blank line or at a
/// line that is not indented by a space or tab; the first indented line whose
/// trimmed form starts with `key` gives the value.
pub open spec fn section_scan(ls: Seq<Seq<char>>, key: Seq<char>, i: nat) -> Option<i32>
    decreases ls.len() - i,
{
    if i >= ls.len() {
        None
    } else {
        let line = ls[i as int];
        let t = trim(line);
        if t.len() == 0 {
            None
        } else if !starts_with(line, seq![' ']) && !starts_with(line, seq!['\t']) {
            None
        } else if starts_with(t, key) {
            parse_i32(trim(t.skip(key.len() as int)))
        } else {
            section_scan(ls, key, i + 1)
        }
    }
}

/// The integer field `key` inside the section that starts at the first
/// occurrence of `section`.
pub open spec fn yaml_int_after(chunk: Seq<char>, section: Seq<char>, key: Seq<char>) -> Option<i32> {
    match find(chunk, section) {
        Some(p) => section_scan(lines(chunk.skip(p as int)), key, 1),
        None => None,
    }
}

pub fn extract_yaml_int_after(chunk: &str, section: &str, key: &str) -> (r: Option<i32>)
    ensures
        r == yaml_int_after(chunk@, section@, key@),
{
    let c = chars_of(chunk);
    let s = chars_of(section);
    let k = chars_of(key);
    let pos = match find_exec(&c, &s) {
        Some(p) => p,
        None => {
            return None;
        },
    };
    proof {
        lemma_find_from_props(c@, s@, 0);
    }
    let after = copy_range(&c, pos, c.len());
    assert(after@ =~= chunk@.skip(pos as int));
    let ls = lines_vec(&after);
    let ghost lsv = ls.deep_view();
    let sp: Vec<char> = vec![' '];
    let tb: Vec<char> = vec!['\t'];
    assert(sp@ =~= seq![' ']);
    assert(tb@ =~= seq!['\t']);
    assert(lsv == lines(chunk@.skip(pos as int)));
    assert(yaml_int_after(chunk@, section@, key@) == section_scan(lsv, key@, 1));
    let mut i: usize = 1;
    while i < ls.len()
        invariant
            lsv == ls.deep_view(),
            lsv.len() == ls@.len(),
            1 <= i,
            k@ == key@,
            sp@ == seq![' '],
            tb@ == seq!['\t'],
            yaml_int_after(chunk@, section@, key@) == section_scan(lsv, key@, i as nat),
        decreases ls@.len() - i,
    {
        proof {
            lemma_deep_view_chars(ls[i as int]);
        }
        let line: &Vec<char> = &ls[i];
        let t = trim_vec(line);
        if t.len() == 0 {
            return None;
        }
        if !starts_with_exec(line, &sp) && !starts_with_exec(line, &tb) {
            return None;
        }
        if starts_with_exec(&t, &k) {
            let rest = copy_range(&t, k.len(), t.len());
            let v = trim_vec(&rest);
            return parse_i32_exec(&v);
        }
        i = i + 1;
    }
    None
}

// ---------------------------------------------------------------------------
// uiautomator bounds `bounds="[x1,y1][x2,y2]"`
// ---------------------------------------------------------------------------

/// `bounds="[`
pub open spec fn bounds_attr() -> Seq<u8> {
    seq![98u8, 111u8, 117u8, 110u8, 100u8, 115u8, 61u8, 34u8, 91u8]
}

/// `]`
pub open spec fn close_bracket() -> Seq<u8> {
    seq![93u8]
}

/// `,`
pub open spec fn comma_b() -> Seq<u8> {
    seq![44u8]
}

/// `str::is_char_boundary` on the bytes of a valid string: the ends, or a
/// byte that does not continue a multi-byte character.
pub open spec fn char_boundary(b: Seq<u8>, i: int) -> bool {
    i == 0 || i == b.len() || (0 <= i < b.len() && !(0x80 <= b[i] && b[i] < 0xC0))
}

/// `a,b` with exactly two comma-separated integers.
pub open spec fn int_pair(piece: Seq<u8>) -> Option<(i32, i32)> {
    let cs = split_b(piece, comma_b());
    if cs.len() == 2 {
        match (parse_i32_b(cs[0]), parse_i32_b(cs[1])) {
            (Some(a), Some(b)) => Some((a, b)),
            _ => None,
        }
    } else {
        None
    }
}

/// `i32` division by two, rounding toward zero.
pub open spec fn half(v: int) -> int {
    if v >= 0 {
        v / 2
    } else {
        -((-v) / 2)
    }
}

/// The first corner: where `[x1,y1]` ends (relative to the text after
/// `bounds="[`), that text's start, and the corner itself.
pub open spec fn first_corner(b: Seq<u8>) -> Option<(nat, nat, (i32, i32))> {
    match find_b(b, bounds_attr()) {
        Some(s) => {
            let bs = b.skip(s + 9int);
            match find_b(bs, close_bracket()) {
                Some(e) => match int_pair(bs.take(e as int)) {
                    Some(p) => Some(((s + 9) as nat, e, p)),
                    None => None,
                },
                None => None,
            }
        },
        None => None,
    }
}

/// The second corner, read after skipping `][` past the first corner.
pub open spec fn second_corner(b: Seq<u8>, st: nat, e: nat) -> Option<(i32, i32)> {
    let rest = b.skip(st + e + 2int);
    match find_b(rest, close_bracket()) {
        Some(e2) => int_pair(rest.take(e2 as int)),
        None => None,
    }
}

/// The centre of the first `bounds="[x1,y1][x2,y2]"` in `b`.
pub open spec fn bounds_center(b: Seq<u8>) -> Option<(int, int)> {
    match first_corner(b) {
        Some((st, e, (x1, y1))) => match second_corner(b, st, e) {
            Some((x2, y2)) => Some((half(x1 + x2), half(y1 + y2))),
            None => None,
        },
        None => None,
    }
}

/// The inputs the bounds parse is defined on: the cut after the
/// first corner lies inside the text at a character boundary, and the
/// coordinate sums fit in `i32`.
pub open spec fn bounds_center_defined(b: Seq<u8>) -> bool {
    match first_corner(b) {
        Some((st, e, (x1, y1))) => {
            &&& st + e + 2 <= b.len()
            &&& char_boundary(b.skip(st as int), e + 2int)
            &&& (second_corner(b, st, e) matches Some((x2, y2)) ==> i32::MIN <= x1 + x2
                <= i32::MAX && i32::MIN <= y1 + y2 <= i32::MAX)
        },
        None => true,
    }
}

fn int_pair_exec(piece: &[u8]) -> (r: Option<(i32, i32)>)
    ensures
        r == int_pair(piece@),
{
    let comma: Vec<u8> = vec![44u8];
    assert(comma@ =~= comma_b());
    let cs = split_vec_b(piece, &comma);
    if cs.len() != 2 {
        return None;
    }
    proof {
        lemma_deep_view_chars_b(cs[0]);
        lemma_deep_view_chars_b(cs[1]);
    }
    match (parse_i32_exec_b(&cs[0]), parse_i32_exec_b(&cs[1])) {
        (Some(a), Some(b)) => Some((a, b)),
        _ => None,
    }
}

fn half_exec(v: i64) -> (r: i64)
    requires
        -0x1_0000_0000 <= v <= 0x1_0000_0000,
    ensures
        r == half(v as int),
{
    if v >= 0 {
        v / 2
    } else {
        -((-v) / 2)
    }
}

fn first_corner_exec(b: &[u8]) -> (r: Option<(usize, usize, (i32, i32))>)
    ensures
        r matches Some((st, e, p)) ==> first_corner(b@) == Some((st as nat, e as nat, p)) && st
            + e < b@.len(),
        r is None ==> first_corner(b@) is None,
{
    let attr: Vec<u8> = vec![98u8, 111u8, 117u8, 110u8, 100u8, 115u8, 61u8, 34u8, 91u8];
    assert(attr@ =~= bounds_attr());
    let s = match find_exec_b(b, &attr) {
        Some(s) => s,
        None => {
            return None;
        },
    };
    proof {
        lemma_find_from_props_b(b@, bounds_attr(), 0);
    }
    let n = b.len();
    assert(s + 9 <= n);
    let bs = copy_range_b(b, s + 9, n);
    assert(bs@ =~= b@.skip(s + 9));
    let cb: Vec<u8> = vec![93u8];
    assert(cb@ =~= close_bracket());
    let e = match find_exec_b(&bs, &cb) {
        Some(e) => e,
        None => {
            return None;
        },
    };
    proof {
        lemma_find_from_props_b(bs@, close_bracket(), 0);
    }
    let head = copy_range_b(&bs, 0, e);
    assert(head@ =~= bs@.take(e as int));
    match int_pair_exec(&head) {
        Some(p) => Some((s + 9, e, p)),
        None => None,
    }
}

fn bounds_center_exec(b: &[u8]) -> (r: Option<(i32, i32)>)
    requires
        bounds_center_defined(b@),
    ensures
        r matches Some((x, y)) ==> bounds_center(b@) == Some((x as int, y as int)),
        r is None ==> bounds_center(b@) is None,
{
    let (st, e, p) = match first_corner_exec(b) {
        Some(t) => t,
        None => {
            return None;
        },
    };
    let (x1, y1) = p;
    let n = b.len();
    let start = st + e + 2;
    let rest = copy_range_b(b, start, n);
    assert(rest@ =~= b@.skip(st + e + 2));
    let cb: Vec<u8> = vec![93u8];
    assert(cb@ =~= close_bracket());
    let e2 = match find_exec_b(&rest, &cb) {
        Some(e2) => e2,
        None => {
            return None;
        },
    };
    proof {
        lemma_find_from_props_b(rest@, close_bracket(), 0);
    }
    let head = copy_range_b(&rest, 0, e2);
    assert(head@ =~= rest@.take(e2 as int));
    match int_pair_exec(&head) {
        Some((x2, y2)) => {
            let cx = half_exec(x1 as i64 + x2 as i64);
            let cy = half_exec(y1 as i64 + y2 as i64);
            Some((cx as i32, cy as i32))
        },
        None => None,
    }
}

/// Centre of the first `bounds="[x1,y1][x2,y2]"` attribute in `chunk`.
pub fn parse_bounds_center(chunk: &str) -> (r: Option<(i32, i32)>)
    requires
        bounds_center_defined(chunk.spec_bytes()),
    ensures
        r matches Some((x, y)) ==> bounds_center(chunk.spec_bytes()) == Some((x as int, y as int)),
        r is None ==> bounds_center(chunk.spec_bytes()) is None,
{
    bounds_center_exec(chunk.as_bytes())
}

/// The window `[idx, min(len, idx + span))` of `b`.
pub open spec fn window(b: Seq<u8>, idx: int, span: int) -> Seq<u8> {
    b.subrange(idx, if b.len() < idx + span { b.len() as int } else { idx + span })
}

pub open spec fn window_end(b: Seq<u8>, idx: int, span: int) -> int {
    if b.len() < idx + span { b.len() as int } else { idx + span }
}

/// Centre of the bounds within `span` bytes after the first occurrence of
/// `pat`.
pub open spec fn bounds_after(b: Seq<u8>, pat: Seq<u8>, span: int) -> Option<(int, int)> {
    match find_b(b, pat) {
        Some(i) => bounds_center(window(b, i as int, span)),
        None => None,
    }
}

/// The window is cut at a byte offset: it must be a character
/// boundary, and the window must parse without panicking.
pub open spec fn bounds_after_defined(b: Seq<u8>, pat: Seq<u8>, span: int) -> bool {
    match find_b(b, pat) {
        Some(i) => char_boundary(b, window_end(b, i as int, span)) && bounds_center_defined(
            window(b, i as int, span),
        ),
        None => true,
    }
}

fn bounds_after_exec(b: &[u8], pat: &[u8], span: usize) -> (r: Option<(i32, i32)>)
    requires
        bounds_after_defined(b@, pat@, span as int),
        span <= 500,
    ensures
        r matches Some((x, y)) ==> bounds_after(b@, pat@, span as int) == Some((x as int, y as int)),
        r is None ==> bounds_after(b@, pat@, span as int) is None,
{
    let i = match find_exec_b(b, pat) {
        Some(i) => i,
        None => {
            return None;
        },
    };
    proof {
        lemma_find_from_props_b(b@, pat@, 0);
    }
    let n = b.len();
    let end = if n - i < span {
        n
    } else {
        i + span
    };
    let w = copy_range_b(b, i, end);
    bounds_center_exec(&w)
}

fn concat_bytes(a: &[u8], b: &[u8]) -> (r: Vec<u8>)
    ensures
        r@ == a@ + b@,
{
    let mut r = copy_range_b(a, 0, a.len());
    let mut i: usize = 0;
    assert(a@.subrange(0, a@.len() as int) =~= a@);
    while i < b.len()
        invariant
            i <= b@.len(),
            r@ == a@ + b@.take(i as int),
        decreases b@.len() - i,
    {
        r.push(b[i]);
        i = i + 1;
        assert(r@ =~= a@ + b@.take(i as int));
    }
    assert(b@.take(i as int) =~= b@);
    r
}

/// `id/`
pub open spec fn id_prefix() -> Seq<u8> {
    seq![105u8, 100u8, 47u8]
}

/// `text="`
pub open spec fn text_prefix() -> Seq<u8> {
    seq![116u8, 101u8, 120u8, 116u8, 61u8, 34u8]
}

/// Centre of the node whose `resource-id` ends in `id/<resource_id>`: the
/// bounds within 200 bytes after the first occurrence of that text.
pub fn extract_ui_bounds(xml: &str, resource_id: &str) -> (r: Option<(i32, i32)>)
    requires
        bounds_after_defined(xml.spec_bytes(), id_prefix() + resource_id.spec_bytes(), 200),
    ensures
        r matches Some((x, y)) ==> bounds_after(
            xml.spec_bytes(),
            id_prefix() + resource_id.spec_bytes(),
            200,
        ) == Some((x as int, y as int)),
        r is None ==> bounds_after(xml.spec_bytes(), id_prefix() + resource_id.spec_bytes(), 200)
            is None,
{
    let pre: Vec<u8> = vec![105u8, 100u8, 47u8];
    assert(pre@ =~= id_prefix());
    let pat = concat_bytes(&pre, resource_id.as_bytes());
    bounds_after_exec(xml.as_bytes(), &pat, 200)
}

/// Centre of the node whose text starts with `text`: the bounds within 300
/// bytes after the first occurrence of `text="<text>`.
pub fn extract_ui_text_bounds(xml: &str, text: &str) -> (r: Option<(i32, i32)>)
    requires
        bounds_after_defined(xml.spec_bytes(), text_prefix() + text.spec_bytes(), 300),
    ensures
        r matches Some((x, y)) ==> bounds_after(
            xml.spec_bytes(),
            text_prefix() + text.spec_bytes(),
            300,
        ) == Some((x as int, y as int)),
        r is None ==> bounds_after(xml.spec_bytes(), text_prefix() + text.spec_bytes(), 300)
            is None,
{
    let pre: Vec<u8> = vec![116u8, 101u8, 120u8, 116u8, 61u8, 34u8];
    assert(pre@ =~= text_prefix());
    let pat = concat_bytes(&pre, text.as_bytes());
    bounds_after_exec(xml.as_bytes(), &pat, 300)
}


// ---------------------------------------------------------------------------
// Panic-freedom checks for the byte-offset cuts
// ---------------------------------------------------------------------------

pub(crate) fn char_boundary_exec(b: &[u8], i: usize) -> (r: bool)
    ensures
        r == char_boundary(b@, i as int),
{
    i == 0 || i == b.len() || (i < b.len() && !(0x80u8 <= b[i] && b[i] < 0xC0u8))
}

fn pair_sum_fits(a: i32, b: i32) -> (r: bool)
    ensures
        r == (i32::MIN <= a + b <= i32::MAX),
{
    let s = a as i64 + b as i64;
    s >= i32::MIN as i64 && s <= i32::MAX as i64
}

/// Whether the bounds parse is defined on `b` (see `bounds_center_defined`).
pub fn bounds_center_defined_exec(b: &[u8]) -> (r: bool)
    ensures
        r == bounds_center_defined(b@),
{
    let (st, e, p) = match first_corner_exec(b) {
        Some(t) => t,
        None => {
            return true;
        },
    };
    let (x1, y1) = p;
    let n = b.len();
    if e + 2 > n - st {
        return false;
    }
    let tail = copy_range_b(b, st, n);
    assert(tail@ =~= b@.skip(st as int));
    if !char_boundary_exec(&tail, e + 2) {
        return false;
    }
    let start = st + e + 2;
    let rest = copy_range_b(b, start, n);
    assert(rest@ =~= b@.skip(st + e + 2));
    let cb: Vec<u8> = vec![93u8];
    assert(cb@ =~= close_bracket());
    let e2 = match find_exec_b(&rest, &cb) {
        Some(e2) => e2,
        None => {
            return true;
        },
    };
    proof {
        lemma_find_from_props_b(rest@, close_bracket(), 0);
    }
    let head = copy_range_b(&rest, 0, e2);
    assert(head@ =~= rest@.take(e2 as int));
    match int_pair_exec(&head) {
        Some((x2, y2)) => pair_sum_fits(x1, x2) && pair_sum_fits(y1, y2),
        None => true,
    }
}

/// Whether the window cut and its parse are defined (see `bounds_after_defined`).
pub fn bounds_after_defined_exec(b: &[u8], pat: &[u8], span: usize) -> (r: bool)
    requires
        span <= 500,
    ensures
        r == bounds_after_defined(b@, pat@, span as int),
{
    let i = match find_exec_b(b, pat) {
        Some(i) => i,
        None => {
            return true;
        },
    };
    proof {
        lemma_find_from_props_b(b@, pat@, 0);
    }
    let n = b.len();
    let end = if n - i < span {
        n
    } else {
        i + span
    };
    if !char_boundary_exec(b, end) {
        return false;
    }
    let w = copy_range_b(b, i, end);
    bounds_center_defined_exec(&w)
}

// ---------------------------------------------------------------------------
// Case-insensitive lookup
// ---------------------------------------------------------------------------

/// `<`
pub open spec fn open_angle() -> u8 {
    60u8
}

/// Bounds near the first match of the lowercased needle `n` in the
/// lowercased dump `l`, read from the dump `x` as written at the same byte
/// offset: within 300 bytes of the match, else within the node that
/// encloses it (from the last `<` before the match's end, up to 500 bytes
/// past the match).
pub open spec fn fuzzy_bounds(x: Seq<u8>, l: Seq<u8>, n: Seq<u8>) -> Option<(int, int)> {
    match find_b(l, n) {
        Some(idx) => match bounds_center(window(x, idx as int, 300)) {
            Some(p) => Some(p),
            None => match rfind_byte(x.take(idx + n.len() as int), open_angle()) {
                Some(ns) => bounds_center(x.subrange(ns as int, window_end(x, idx as int, 500))),
                None => None,
            },
        },
        None => None,
    }
}

/// The inputs on which the byte-offset cuts of `x` fall on character
/// boundaries and the coordinate sums fit.
pub open spec fn fuzzy_bounds_defined(x: Seq<u8>, l: Seq<u8>, n: Seq<u8>) -> bool {
    match find_b(l, n) {
        Some(idx) => {
            &&& idx <= x.len()
            &&& char_boundary(x, idx as int)
            &&& char_boundary(x, window_end(x, idx as int, 300))
            &&& bounds_center_defined(window(x, idx as int, 300))
            &&& (bounds_center(window(x, idx as int, 300)) is None ==> {
                &&& idx + n.len() <= x.len()
                &&& char_boundary(x, idx + n.len() as int)
                &&& (rfind_byte(x.take(idx + n.len() as int), open_angle()) matches Some(ns) ==> {
                    &&& ns <= window_end(x, idx as int, 500)
                    &&& char_boundary(x, window_end(x, idx as int, 500))
                    &&& bounds_center_defined(
                        x.subrange(ns as int, window_end(x, idx as int, 500)),
                    )
                })
            })
        },
        None => true,
    }
}

fn fuzzy_bounds_impl(x: &[u8], l: &[u8], n: &[u8], check: bool) -> (r: (bool, Option<(i32, i32)>))
    requires
        !check ==> fuzzy_bounds_defined(x@, l@, n@),
    ensures
        check ==> r.0 == fuzzy_bounds_defined(x@, l@, n@),
        !check ==> r.0,
        r.0 ==> (r.1 matches Some((a, b)) ==> fuzzy_bounds(x@, l@, n@) == Some((a as int, b as int))),
        r.0 ==> (r.1 is None ==> fuzzy_bounds(x@, l@, n@) is None),
{
    let idx = match find_exec_b(l, n) {
        Some(i) => i,
        None => {
            return (true, None);
        },
    };
    proof {
        lemma_find_from_props_b(l@, n@, 0);
    }
    let xn = x.len();
    if idx > xn {
        return (false, None);
    }
    let end1 = if xn - idx < 300 {
        xn
    } else {
        idx + 300
    };
    if check {
        if !char_boundary_exec(x, idx) || !char_boundary_exec(x, end1) {
            return (false, None);
        }
    }
    let w1 = copy_range_b(x, idx, end1);
    if check {
        if !bounds_center_defined_exec(&w1) {
            return (false, None);
        }
    }
    match bounds_center_exec(&w1) {
        Some(p) => {
            return (true, Some(p));
        },
        None => {},
    }
    let nl = n.len();
    if nl > xn - idx {
        return (false, None);
    }
    let cut = idx + nl;
    if check {
        if !char_boundary_exec(x, cut) {
            return (false, None);
        }
    }
    let before = copy_range_b(x, 0, cut);
    assert(before@ =~= x@.take(idx + n@.len()));
    let ns = match rfind_byte_exec(&before, 60u8) {
        Some(ns) => ns,
        None => {
            return (true, None);
        },
    };
    let end2 = if xn - idx < 500 {
        xn
    } else {
        idx + 500
    };
    if ns > end2 {
        return (false, None);
    }
    if check {
        if !char_boundary_exec(x, end2) {
            return (false, None);
        }
    }
    let node = copy_range_b(x, ns, end2);
    if check {
        if !bounds_center_defined_exec(&node) {
            return (false, None);
        }
    }
    (true, bounds_center_exec(&node))
}

/// Case-insensitive lookup given the lowercased dump and needle (the
/// results of `to_lowercase` on the dump and on the search text).
pub fn extract_ui_bounds_fuzzy_lowered(xml: &str, lower_xml: &str, lower_needle: &str) -> (r:
    Option<(i32, i32)>)
    requires
        fuzzy_bounds_defined(
            xml.spec_bytes(),
            lower_xml.spec_bytes(),
            lower_needle.spec_bytes(),
        ),
    ensures
        r matches Some((a, b)) ==> fuzzy_bounds(
            xml.spec_bytes(),
            lower_xml.spec_bytes(),
            lower_needle.spec_bytes(),
        ) == Some((a as int, b as int)),
        r is None ==> fuzzy_bounds(
            xml.spec_bytes(),
            lower_xml.spec_bytes(),
            lower_needle.spec_bytes(),
        ) is None,
{
    fuzzy_bounds_impl(xml.as_bytes(), lower_xml.as_bytes(), lower_needle.as_bytes(), false).1
}

pub open spec fn lowered_bytes(s: Seq<char>) -> Seq<u8> {
    encode_utf8(lowercase(s))
}

/// Case-insensitive lookup of `fuzzy` in a uiautomator dump. Where the
/// dump's byte offsets would cut a character or overflow the coordinate
/// sums, the result is `None`.
pub fn extract_ui_bounds_fuzzy(xml: &str, fuzzy: &str) -> (r: Option<(i32, i32)>)
    ensures
        fuzzy_bounds_defined(xml.spec_bytes(), lowered_bytes(xml@), lowered_bytes(fuzzy@)) ==> (
        r matches Some((a, b)) ==> fuzzy_bounds(
            xml.spec_bytes(),
            lowered_bytes(xml@),
            lowered_bytes(fuzzy@),
        ) == Some((a as int, b as int))),
        fuzzy_bounds_defined(xml.spec_bytes(), lowered_bytes(xml@), lowered_bytes(fuzzy@)) ==> (
        r is None ==> fuzzy_bounds(xml.spec_bytes(), lowered_bytes(xml@), lowered_bytes(fuzzy@))
            is None),
        !fuzzy_bounds_defined(xml.spec_bytes(), lowered_bytes(xml@), lowered_bytes(fuzzy@)) ==> r
            is None,
{
    let lower = to_lowercase(xml);
    let needle = to_lowercase(fuzzy);
    let (ok, res) = fuzzy_bounds_impl(
        xml.as_bytes(),
        lower.as_str().as_bytes(),
        needle.as_str().as_bytes(),
        true,
    );
    if ok {
        res
    } else {
        None
    }
}


// ---------------------------------------------------------------------------
// Element chunks of the semantic YAML
// ---------------------------------------------------------------------------

/// The tap point of an element chunk: the centre of its `tap_target`
/// rectangle when the chunk has one with all four fields, else the centre of
/// its first `x/y/w/h` fields (`None` when one of those is missing).
pub open spec fn tap_point(c: Seq<char>) -> Option<(int, int)> {
    match (yaml_int(c, "x: "@), yaml_int(c, "y: "@), yaml_int(c, "w: "@), yaml_int(c, "h: "@)) {
        (Some(x), Some(y), Some(w), Some(h)) => {
            let own = (x + half(w as int), y + half(h as int));
            if contains(c, "tap_target:"@) {
                match (
                    yaml_int_after(c, "tap_target:"@, "x: "@),
                    yaml_int_after(c, "tap_target:"@, "y: "@),
                    yaml_int_after(c, "tap_target:"@, "w: "@),
                    yaml_int_after(c, "tap_target:"@, "h: "@),
                ) {
                    (Some(tx), Some(ty), Some(tw), Some(th)) => Some(
                        (tx + half(tw as int), ty + half(th as int)),
                    ),
                    _ => Some(own),
                }
            } else {
                Some(own)
            }
        },
        _ => None,
    }
}

pub open spec fn fits_i32(v: int) -> bool {
    i32::MIN <= v <= i32::MAX
}

/// The tap point's coordinates fit in `i32`, where they are added.
pub open spec fn tap_point_fits(c: Seq<char>) -> bool {
    tap_point(c) matches Some((a, b)) ==> fits_i32(a) && fits_i32(b)
}

fn half_i32(v: i32) -> (r: i32)
    ensures
        r == half(v as int),
{
    if v >= 0 {
        v / 2
    } else if v == i32::MIN {
        -0x4000_0000i32
    } else {
        -((-v) / 2)
    }
}

fn add_fits(a: i32, b: i32) -> (r: bool)
    ensures
        r == fits_i32(a + b),
{
    let s = a as i64 + b as i64;
    s >= i32::MIN as i64 && s <= i32::MAX as i64
}

/// Whether the tap point's coordinates fit in `i32`.
pub fn tap_point_fits_exec(chunk: &str) -> (r: bool)
    ensures
        r == tap_point_fits(chunk@),
{
    match tap_point_wide(chunk) {
        Some((a, b)) => a >= i32::MIN as i64 && a <= i32::MAX as i64 && b >= i32::MIN as i64 && b
            <= i32::MAX as i64,
        None => true,
    }
}

fn tap_point_wide(chunk: &str) -> (r: Option<(i64, i64)>)
    ensures
        r matches Some((a, b)) ==> tap_point(chunk@) == Some((a as int, b as int)),
        r is None ==> tap_point(chunk@) is None,
{
    let x = extract_yaml_int(chunk, "x: ");
    let y = extract_yaml_int(chunk, "y: ");
    let w = extract_yaml_int(chunk, "w: ");
    let h = extract_yaml_int(chunk, "h: ");
    match (x, y, w, h) {
        (Some(x), Some(y), Some(w), Some(h)) => {
            let own = (x as i64 + half_i32(w) as i64, y as i64 + half_i32(h) as i64);
            let c = chars_of(chunk);
            let tt = chars_of("tap_target:");
            if contains_exec(&c, &tt) {
                let tx = extract_yaml_int_after(chunk, "tap_target:", "x: ");
                let ty = extract_yaml_int_after(chunk, "tap_target:", "y: ");
                let tw = extract_yaml_int_after(chunk, "tap_target:", "w: ");
                let th = extract_yaml_int_after(chunk, "tap_target:", "h: ");
                match (tx, ty, tw, th) {
                    (Some(tx), Some(ty), Some(tw), Some(th)) => Some(
                        (tx as i64 + half_i32(tw) as i64, ty as i64 + half_i32(th) as i64),
                    ),
                    _ => Some(own),
                }
            } else {
                Some(own)
            }
        },
        _ => None,
    }
}

/// The tap point of an element chunk (see `tap_point`).
pub fn chunk_tap_point(chunk: &str) -> (r: Option<(i32, i32)>)
    requires
        tap_point_fits(chunk@),
    ensures
        r matches Some((a, b)) ==> tap_point(chunk@) == Some((a as int, b as int)),
        r is None ==> tap_point(chunk@) is None,
{
    match tap_point_wide(chunk) {
        Some((a, b)) => Some((a as i32, b as i32)),
        None => None,
    }
}

/// The chunk names the element by id: `platform_id:` or `id:`, quoted or not.
pub open spec fn id_match(c: Seq<char>, id: Seq<char>) -> bool {
    id.len() > 0 && (contains(c, "platform_id: \""@ + id + "\""@) || contains(
        c,
        "id: \""@ + id + "\""@,
    ) || contains(c, "platform_id: "@ + id) || contains(c, "id: "@ + id))
}

/// The chunk names the element by text: its `content:`, or anywhere.
pub open spec fn text_match(c: Seq<char>, text: Seq<char>) -> bool {
    text.len() > 0 && (contains(c, "content: \""@ + text + "\""@) || contains(
        c,
        "content: "@ + text,
    ) || contains(c, text))
}

fn join3(a: &str, b: &str, c: &str) -> (r: Vec<char>)
    ensures
        r@ == a@ + b@ + c@,
{
    let av = chars_of(a);
    let s1 = concat_chars(&av, b);
    let s1v = chars_of(s1.as_str());
    let s2 = concat_chars(&s1v, c);
    chars_of(s2.as_str())
}

/// Whether an element chunk matches `search_id` or `search_text` exactly.
pub fn chunk_exact_match(chunk: &str, search_id: &str, search_text: &str) -> (r: bool)
    ensures
        r == (id_match(chunk@, search_id@) || text_match(chunk@, search_text@)),
{
    let c = chars_of(chunk);
    let mut idm = false;
    if !search_id.is_empty() {
        let p1 = join3("platform_id: \"", search_id, "\"");
        let p2 = join3("id: \"", search_id, "\"");
        let p3 = join3("platform_id: ", search_id, "");
        let p4 = join3("id: ", search_id, "");
        proof {
            assert(("platform_id: "@ + search_id@ + ""@) =~= ("platform_id: "@ + search_id@)) by {
                reveal_strlit("");
            }
            assert(("id: "@ + search_id@ + ""@) =~= ("id: "@ + search_id@)) by {
                reveal_strlit("");
            }
        }
        idm = contains_exec(&c, &p1) || contains_exec(&c, &p2) || contains_exec(&c, &p3)
            || contains_exec(&c, &p4);
    }
    let mut tm = false;
    if !search_text.is_empty() {
        let q1 = join3("content: \"", search_text, "\"");
        let q2 = join3("content: ", search_text, "");
        let q3 = chars_of(search_text);
        proof {
            assert(("content: "@ + search_text@ + ""@) =~= ("content: "@ + search_text@)) by {
                reveal_strlit("");
            }
        }
        tm = contains_exec(&c, &q1) || contains_exec(&c, &q2) || contains_exec(&c, &q3);
    }
    idm || tm
}


// ---------------------------------------------------------------------------
// uiautomator search
// ---------------------------------------------------------------------------

/// Whether the case-insensitive and the id lookups of `search_uiautomator`
/// cut the dump only at character boundaries, with sums that fit.
pub open spec fn ui_search_defined(xml: Seq<char>, id: Seq<char>, fuzzy: Seq<char>) -> bool {
    &&& (fuzzy.len() > 0 && contains(lowercase(xml), lowercase(fuzzy))) ==> fuzzy_bounds_defined(
        encode_utf8(xml),
        lowered_bytes(xml),
        lowered_bytes(fuzzy),
    )
    &&& (id.len() > 0 && contains(xml, id) && !(fuzzy.len() > 0 && contains(
        lowercase(xml),
        lowercase(fuzzy),
    ) && fuzzy_bounds(encode_utf8(xml), lowered_bytes(xml), lowered_bytes(fuzzy)) is Some))
        ==> bounds_after_defined(encode_utf8(xml), id_prefix() + encode_utf8(id), 200)
}

/// The uiautomator lookup: by case-insensitive text first, then by
/// resource id; the description names what was searched for.
pub open spec fn ui_search(xml: Seq<char>, id: Seq<char>, fuzzy: Seq<char>) -> Option<
    (int, int, Seq<char>),
> {
    let by_fuzzy = if fuzzy.len() > 0 && contains(lowercase(xml), lowercase(fuzzy)) {
        fuzzy_bounds(encode_utf8(xml), lowered_bytes(xml), lowered_bytes(fuzzy))
    } else {
        None
    };
    match by_fuzzy {
        Some((a, b)) => Some((a, b, "uiautomator: "@ + fuzzy)),
        None => if id.len() > 0 && contains(xml, id) {
            match bounds_after(encode_utf8(xml), id_prefix() + encode_utf8(id), 200) {
                Some((a, b)) => Some((a, b, "uiautomator: "@ + id)),
                None => None,
            }
        } else {
            None
        },
    }
}

/// Look an element up in a uiautomator dump, by case-insensitive text
/// first, then by resource id. Where a byte offset would cut a character,
/// that lookup finds nothing.
pub fn search_uiautomator(ui_xml: &str, search_id: &str, search_text: &str, search_fuzzy: &str) -> (r:
    Option<(i32, i32, String)>)
    ensures
        ui_search_defined(ui_xml@, search_id@, search_fuzzy@) ==> (r matches Some((a, b, d)) ==> ui_search(
            ui_xml@,
            search_id@,
            search_fuzzy@,
        ) == Some((a as int, b as int, d@))),
        ui_search_defined(ui_xml@, search_id@, search_fuzzy@) ==> (r is None ==> ui_search(
            ui_xml@,
            search_id@,
            search_fuzzy@,
        ) is None),
{
    let pre = chars_of("uiautomator: ");
    let xc = chars_of(ui_xml);
    if !search_fuzzy.is_empty() {
        let lx = to_lowercase(ui_xml);
        let lf = to_lowercase(search_fuzzy);
        let lxc = chars_of(lx.as_str());
        let lfc = chars_of(lf.as_str());
        if contains_exec(&lxc, &lfc) {
            match extract_ui_bounds_fuzzy(ui_xml, search_fuzzy) {
                Some((a, b)) => {
                    return Some((a, b, concat_chars(&pre, search_fuzzy)));
                },
                None => {},
            }
        }
    }
    if !search_id.is_empty() {
        let ic = chars_of(search_id);
        if contains_exec(&xc, &ic) {
            let pb: Vec<u8> = vec![105u8, 100u8, 47u8];
            assert(pb@ =~= id_prefix());
            let pat = concat_bytes(&pb, search_id.as_bytes());
            if bounds_after_defined_exec(ui_xml.as_bytes(), &pat, 200) {
                match extract_ui_bounds(ui_xml, search_id) {
                    Some((a, b)) => {
                        return Some((a, b, concat_chars(&pre, search_id)));
                    },
                    None => {},
                }
            }
        }
    }
    None
}

// ---------------------------------------------------------------------------
// Scroll geometry
// ---------------------------------------------------------------------------

/// A chunk describing a scrolling container.
pub open spec fn is_scrollable(c: Seq<char>) -> bool {
    contains(c, "type: container"@) && (contains(lowercase(c), "recyclerview"@) || contains(
        lowercase(c),
        "nestedscrollview"@,
    ) || contains(lowercase(c), "scrollview"@))
}

pub open spec fn int_or_zero(v: Option<i32>) -> int {
    match v {
        Some(n) => n as int,
        None => 0,
    }
}

/// The swipe across a container `(x, y, w, h)`: through its horizontal
/// centre, a quarter of its height in from each edge; `up` swipes downward.
pub open spec fn container_swipe(x: int, y: int, w: int, h: int, up: bool) -> (int, int, int, int) {
    let cx = x + half(w);
    let margin = h / 4;
    if up {
        (cx, y + margin, cx, y + h - margin)
    } else {
        (cx, y + h - margin, cx, y + margin)
    }
}

pub open spec fn container_of(c: Seq<char>) -> (int, int, int, int) {
    (
        int_or_zero(yaml_int(c, "x: "@)),
        int_or_zero(yaml_int(c, "y: "@)),
        int_or_zero(yaml_int(c, "w: "@)),
        int_or_zero(yaml_int(c, "h: "@)),
    )
}

/// The first scrollable container wider than 100 and taller than 500.
pub open spec fn big_container(chunks: Seq<Seq<char>>, i: nat) -> Option<(int, int, int, int)>
    decreases chunks.len() - i,
{
    if i >= chunks.len() {
        None
    } else {
        let c = chunks[i as int];
        let (x, y, w, h) = container_of(c);
        if is_scrollable(c) && w > 100 && h > 500 {
            Some((x, y, w, h))
        } else {
            big_container(chunks, i + 1)
        }
    }
}

/// The swipe for scrolling in `dir`: across the first big scrolling
/// container of the agent YAML, else through the middle of a 1080-wide
/// screen.
pub open spec fn scroll_swipe(yaml: Option<Seq<char>>, dir: Seq<char>) -> (int, int, int, int) {
    let up = dir == "up"@;
    let found = match yaml {
        Some(y) => big_container(split(y, crate::agent_yaml::element_delim()), 0),
        None => None,
    };
    match found {
        Some((x, y, w, h)) => container_swipe(x, y, w, h, up),
        None => if up {
            (540, 500, 540, 1500)
        } else {
            (540, 1500, 540, 500)
        },
    }
}

/// The container's swipe coordinates, and every intermediate sum formed
/// on the way, fit in `i32`.
pub open spec fn scroll_swipe_defined(yaml: Option<Seq<char>>) -> bool {
    let found = match yaml {
        Some(y) => big_container(split(y, crate::agent_yaml::element_delim()), 0),
        None => None,
    };
    found matches Some((x, y, w, h)) ==> fits_i32(x + half(w)) && fits_i32(y + h / 4) && fits_i32(
        y + h,
    )
}

fn container_of_exec(chunk: &str) -> (r: (i32, i32, i32, i32))
    ensures
        (r.0 as int, r.1 as int, r.2 as int, r.3 as int) == container_of(chunk@),
{
    let x = match extract_yaml_int(chunk, "x: ") {
        Some(v) => v,
        None => 0,
    };
    let y = match extract_yaml_int(chunk, "y: ") {
        Some(v) => v,
        None => 0,
    };
    let w = match extract_yaml_int(chunk, "w: ") {
        Some(v) => v,
        None => 0,
    };
    let h = match extract_yaml_int(chunk, "h: ") {
        Some(v) => v,
        None => 0,
    };
    (x, y, w, h)
}

fn is_scrollable_exec(chunk: &str) -> (r: bool)
    ensures
        r == is_scrollable(chunk@),
{
    let c = chars_of(chunk);
    let tc = chars_of("type: container");
    if !contains_exec(&c, &tc) {
        return false;
    }
    let l = to_lowercase(chunk);
    let lc = chars_of(l.as_str());
    let a = chars_of("recyclerview");
    let b = chars_of("nestedscrollview");
    let d = chars_of("scrollview");
    contains_exec(&lc, &a) || contains_exec(&lc, &b) || contains_exec(&lc, &d)
}

fn scroll_swipe_wide(yaml: Option<&str>, dir: &str) -> (r: (bool, (i64, i64, i64, i64)))
    ensures
        r.0 == scroll_swipe_defined(
            match yaml {
                Some(y) => Some(y@),
                None => None,
            },
        ),
        (r.1.0 as int, r.1.1 as int, r.1.2 as int, r.1.3 as int) == scroll_swipe(
            match yaml {
                Some(y) => Some(y@),
                None => None,
            },
            dir@,
        ),
        r.0 ==> fits_i32(r.1.0 as int) && fits_i32(r.1.1 as int) && fits_i32(r.1.2 as int)
            && fits_i32(r.1.3 as int),
{
    let up = str_eq(dir, "up");
    let ghost ys = match yaml {
        Some(y) => Some(y@),
        None => None,
    };
    match yaml {
        Some(text) => {
            let chunks = crate::agent_yaml::split_elements(text);
            let ghost cs = chunks.deep_view();
            let mut i: usize = 0;
            while i < chunks.len()
                invariant
                    yaml == Some(text),
                    up == (dir@ == "up"@),
                    cs == chunks.deep_view(),
                    cs.len() == chunks@.len(),
                    cs == split(text@, crate::agent_yaml::element_delim()),
                    i <= chunks@.len(),
                    big_container(cs, 0) == big_container(cs, i as nat),
                decreases chunks@.len() - i,
            {
                let chunk = chunks[i].as_str();
                assert(chunk@ == cs[i as int]);
                let (x, y, w, h) = container_of_exec(chunk);
                if is_scrollable_exec(chunk) && w > 100 && h > 500 {
                    let cx = x as i64 + half_i32(w) as i64;
                    let margin = (h / 4) as i64;
                    let ok = cx >= i32::MIN as i64 && cx <= i32::MAX as i64 && y as i64 + margin
                        >= i32::MIN as i64 && y as i64 + margin <= i32::MAX as i64 && y as i64
                        + h as i64 >= i32::MIN as i64 && y as i64 + h as i64 <= i32::MAX as i64;
                    let lo = y as i64 + margin;
                    let hi = y as i64 + h as i64 - margin;
                    if up {
                        return (ok, (cx, lo, cx, hi));
                    } else {
                        return (ok, (cx, hi, cx, lo));
                    }
                }
                i = i + 1;
            }
        },
        None => {},
    }
    if up {
        (true, (540, 500, 540, 1500))
    } else {
        (true, (540, 1500, 540, 500))
    }
}

/// Whether `compute_scroll_bounds` can take this YAML: the swipe across
/// its scrolling container fits in `i32`.
pub fn scroll_swipe_fits(yaml: Option<&str>) -> (r: bool)
    ensures
        r == scroll_swipe_defined(
            match yaml {
                Some(y) => Some(y@),
                None => None,
            },
        ),
{
    scroll_swipe_wide(yaml, "down").0
}

/// The swipe endpoints `(x1, y1, x2, y2)` for scrolling in `dir`, given the
/// agent YAML of the current screen (when it could be fetched).
pub fn compute_scroll_bounds(yaml: Option<&str>, dir: &str) -> (r: (i32, i32, i32, i32))
    requires
        scroll_swipe_defined(
            match yaml {
                Some(y) => Some(y@),
                None => None,
            },
        ),
    ensures
        (r.0 as int, r.1 as int, r.2 as int, r.3 as int) == scroll_swipe(
            match yaml {
                Some(y) => Some(y@),
                None => None,
            },
            dir@,
        ),
{
    let (_, (a, b, c, d)) = scroll_swipe_wide(yaml, dir);
    (a as i32, b as i32, c as i32, d as i32)
}

/// The `adb shell` arguments of the scroll swipe (`input swipe x1 y1 x2 y2
/// 500`), or `None` where the coordinate sums overflow `i32`.
pub fn scroll_direction(yaml: Option<&str>, dir: &str) -> (r: Option<Vec<String>>)
    ensures
        r is Some <==> scroll_swipe_defined(
            match yaml {
                Some(y) => Some(y@),
                None => None,
            },
        ),
        r matches Some(args) ==> ({
            let sw = scroll_swipe(
                match yaml {
                    Some(y) => Some(y@),
                    None => None,
                },
                dir@,
            );
            args.deep_view() == seq![
                "input"@,
                "swipe"@,
                decimal_int(sw.0),
                decimal_int(sw.1),
                decimal_int(sw.2),
                decimal_int(sw.3),
                "500"@,
            ]
        }),
{
    let (ok, (a, b, c, d)) = scroll_swipe_wide(yaml, dir);
    if !ok {
        return None;
    }
    let mut v: Vec<String> = Vec::new();
    v.push(String::from_str("input"));
    v.push(String::from_str("swipe"));
    v.push(i64_to_string(a));
    v.push(i64_to_string(b));
    v.push(i64_to_string(c));
    v.push(i64_to_string(d));
    v.push(String::from_str("500"));
    assert(v.deep_view() =~= seq![
        "input"@,
        "swipe"@,
        decimal_int(a as int),
        decimal_int(b as int),
        decimal_int(c as int),
        decimal_int(d as int),
        "500"@,
    ]);
    Some(v)
}

// ---------------------------------------------------------------------------
// Search targets and sources
// ---------------------------------------------------------------------------

/// What a test step looks for: an id, a text, a case-insensitive text, or a
/// fixed position; with optional filters.
pub struct Target {
    pub id: Option<String>,
    pub text: Option<String>,
    pub content_fuzzy: Option<String>,
    pub clickable_only: Option<bool>,
    pub exclude_type: Option<String>,
    pub x: Option<i32>,
    pub y: Option<i32>,
}

/// Where an element search looks, in order.
pub enum ElementSource {
    IdleBarrier { timeout_s: u64, resources: Vec<String> },
    Semantic,
    UIAutomator,
    Activity,
}

/// Default search order: the semantic agent, then uiautomator.
pub fn default_sources() -> (r: Vec<ElementSource>)
    ensures
        r@.len() == 2,
        r@[0] is Semantic,
        r@[1] is UIAutomator,
{
    vec![ElementSource::Semantic, ElementSource::UIAutomator]
}

/// The idle barrier over every idle resource, then the semantic agent, then
/// uiautomator.
pub fn idle_barrier_sources(timeout_s: u64) -> (r: Vec<ElementSource>)
    ensures
        r@.len() == 3,
        r@[0] matches ElementSource::IdleBarrier { timeout_s: t, resources } && t == timeout_s
            && resources.deep_view() == seq![
            "ui_thread"@,
            "network"@,
            "scroll"@,
            "layout"@,
            "presentation"@,
        ],
        r@[1] is Semantic,
        r@[2] is UIAutomator,
{
    let resources = vec![
        String::from_str("ui_thread"),
        String::from_str("network"),
        String::from_str("scroll"),
        String::from_str("layout"),
        String::from_str("presentation"),
    ];
    assert(resources.deep_view() =~= seq![
        "ui_thread"@,
        "network"@,
        "scroll"@,
        "layout"@,
        "presentation"@,
    ]);
    vec![
        ElementSource::IdleBarrier { timeout_s, resources },
        ElementSource::Semantic,
        ElementSource::UIAutomator,
    ]
}

/// The idle barrier over the network only, then the semantic agent, then
/// uiautomator.
pub fn idle_barrier_network_only(timeout_s: u64) -> (r: Vec<ElementSource>)
    ensures
        r@.len() == 3,
        r@[0] matches ElementSource::IdleBarrier { timeout_s: t, resources } && t == timeout_s
            && resources.deep_view() == seq!["network"@],
        r@[1] is Semantic,
        r@[2] is UIAutomator,
{
    let resources = vec![String::from_str("network")];
    assert(resources.deep_view() =~= seq!["network"@]);
    vec![
        ElementSource::IdleBarrier { timeout_s, resources },
        ElementSource::Semantic,
        ElementSource::UIAutomator,
    ]
}


// ---------------------------------------------------------------------------
// Semantic-agent search
// ---------------------------------------------------------------------------

/// The value of an optional search field, empty when absent.
pub open spec fn opt_or_empty(o: Option<String>) -> Seq<char> {
    match o {
        Some(s) => s@,
        None => seq![],
    }
}

/// The chunk's first `content:` line, trimmed (empty when there is none).
pub open spec fn content_line(c: Seq<char>) -> Seq<char> {
    let ls = lines(c);
    match first_line_from(ls, trimmed_starts("content:"@), 0) {
        Some(i) => trim(ls[i as int]),
        None => seq![],
    }
}

/// `{content line} at ({x}, {y})`
pub open spec fn element_desc(c: Seq<char>, x: int, y: int) -> Seq<char> {
    content_line(c) + " at ("@ + decimal_int(x) + ", "@ + decimal_int(y) + ")"@
}

/// The chunk, lower-cased, contains one of the comma-separated patterns
/// (each trimmed) that mark navigation links.
pub open spec fn is_nav_link(c: Seq<char>, pats: Seq<Seq<char>>) -> bool {
    exists|k: int| 0 <= k < pats.len() && contains(lowercase(c), trim(#[trigger] pats[k]))
}

/// The scan of the element chunks from `i` on, with the best fuzzy
/// candidate so far (`cand`, clickable or not). An exact id or text match
/// that has a tap point ends the scan; a fuzzy match (`hits[i]`) replaces
/// the candidate when there is none yet, when it is clickable and the
/// candidate is not, or when it is no navigation link. Matches are skipped
/// when the target wants clickable elements and the chunk is not, or when
/// the chunk has the excluded type. The second component says that every
/// tap point computed on the way fits in `i32`.
pub open spec fn semantic_scan(
    chunks: Seq<Seq<char>>,
    hits: Seq<bool>,
    t: Target,
    pats: Seq<Seq<char>>,
    i: nat,
    cand: Option<(int, int, Seq<char>)>,
    cand_click: bool,
) -> (Option<(int, int, Seq<char>)>, bool)
    decreases chunks.len() - i,
{
    if i >= chunks.len() {
        (cand, true)
    } else {
        let c = chunks[i as int];
        let exact = id_match(c, opt_or_empty(t.id)) || text_match(c, opt_or_empty(t.text));
        let next = semantic_scan(chunks, hits, t, pats, i + 1, cand, cand_click);
        if !(exact || hits[i as int]) {
            next
        } else if t.clickable_only == Some(true) && !contains(c, "clickable: true"@) {
            next
        } else if (t.exclude_type matches Some(e) && contains(c, "type: "@ + e@)) {
            next
        } else {
            match tap_point(c) {
                None => next,
                Some((cx, cy)) => {
                    let fits = fits_i32(cx) && fits_i32(cy);
                    let d = (cx, cy, element_desc(c, cx, cy));
                    if exact {
                        (Some(d), fits)
                    } else {
                        let click = contains(c, "clickable: true"@);
                        let better = cand is None || (click && !cand_click) || !is_nav_link(c, pats);
                        let rest = if better {
                            semantic_scan(chunks, hits, t, pats, i + 1, Some(d), click)
                        } else {
                            next
                        };
                        (rest.0, fits && rest.1)
                    }
                },
            }
        }
    }
}

/// A fuzzy match that is no navigation link, that the target's filters let
/// through and that has a tap point always becomes the candidate, whatever
/// candidate came before it (a "see all" link, say, even a clickable one):
/// the scan then goes on from the next chunk with that match.
pub proof fn law_non_nav_match_replaces_candidate(
    chunks: Seq<Seq<char>>,
    hits: Seq<bool>,
    t: Target,
    pats: Seq<Seq<char>>,
    i: nat,
    cand: Option<(int, int, Seq<char>)>,
    cand_click: bool,
    cx: int,
    cy: int,
)
    requires
        i < chunks.len(),
        hits[i as int],
        !id_match(chunks[i as int], opt_or_empty(t.id)),
        !text_match(chunks[i as int], opt_or_empty(t.text)),
        !(t.clickable_only == Some(true) && !contains(chunks[i as int], "clickable: true"@)),
        !(t.exclude_type matches Some(e) && contains(chunks[i as int], "type: "@ + e@)),
        tap_point(chunks[i as int]) == Some((cx, cy)),
        !is_nav_link(chunks[i as int], pats),
    ensures
        semantic_scan(chunks, hits, t, pats, i, cand, cand_click).0 == semantic_scan(
            chunks,
            hits,
            t,
            pats,
            i + 1,
            Some((cx, cy, element_desc(chunks[i as int], cx, cy))),
            contains(chunks[i as int], "clickable: true"@),
        ).0,
{
}

/// A clickable fuzzy match that the target's filters let through and that
/// has a tap point replaces a candidate that is not clickable, navigation
/// link or not.
pub proof fn law_clickable_match_replaces_unclickable(
    chunks: Seq<Seq<char>>,
    hits: Seq<bool>,
    t: Target,
    pats: Seq<Seq<char>>,
    i: nat,
    cand: Option<(int, int, Seq<char>)>,
    cx: int,
    cy: int,
)
    requires
        i < chunks.len(),
        hits[i as int],
        !id_match(chunks[i as int], opt_or_empty(t.id)),
        !text_match(chunks[i as int], opt_or_empty(t.text)),
        !(t.exclude_type matches Some(e) && contains(chunks[i as int], "type: "@ + e@)),
        tap_point(chunks[i as int]) == Some((cx, cy)),
        contains(chunks[i as int], "clickable: true"@),
    ensures
        semantic_scan(chunks, hits, t, pats, i, cand, false).0 == semantic_scan(
            chunks,
            hits,
            t,
            pats,
            i + 1,
            Some((cx, cy, element_desc(chunks[i as int], cx, cy))),
            true,
        ).0,
{
}

/// The semantic-agent lookup over the chunks of `yaml`.
pub open spec fn semantic_search(yaml: Seq<char>, t: Target, hits: Seq<bool>, depri: Seq<char>) -> (
    Option<(int, int, Seq<char>)>,
    bool,
) {
    semantic_scan(
        split(yaml, crate::agent_yaml::element_delim()),
        hits,
        t,
        split(depri, seq![',']),
        0,
        None,
        false,
    )
}

fn opt_str(o: &Option<String>) -> (r: &str)
    ensures
        r@ == opt_or_empty(*o),
{
    match o {
        Some(s) => s.as_str(),
        None => {
            proof {
                reveal_strlit("");
            }
            ""
        },
    }
}

pub(crate) fn content_line_exec(chunk: &str) -> (r: Vec<char>)
    ensures
        r@ == content_line(chunk@),
{
    let c = chars_of(chunk);
    let k = chars_of("content:");
    let ls = lines_vec(&c);
    let ghost lsv = ls.deep_view();
    let ghost pred = trimmed_starts("content:"@);
    let mut i: usize = 0;
    while i < ls.len()
        invariant
            lsv == ls.deep_view(),
            lsv == lines(chunk@),
            lsv.len() == ls@.len(),
            k@ == "content:"@,
            pred == trimmed_starts("content:"@),
            i <= ls@.len(),
            first_line_from(lsv, pred, 0) == first_line_from(lsv, pred, i as nat),
        decreases ls@.len() - i,
    {
        proof {
            lemma_deep_view_chars(ls[i as int]);
        }
        let t = trim_vec(&ls[i]);
        if starts_with_exec(&t, &k) {
            return t;
        }
        i = i + 1;
    }
    Vec::new()
}

fn element_desc_exec(chunk: &str, x: i32, y: i32) -> (r: String)
    ensures
        r@ == element_desc(chunk@, x as int, y as int),
{
    let mut v = content_line_exec(chunk);
    crate::text::push_str(&mut v, " at (");
    crate::text::push_i64(&mut v, x as i64);
    crate::text::push_str(&mut v, ", ");
    crate::text::push_i64(&mut v, y as i64);
    crate::text::push_str(&mut v, ")");
    assert(v@ =~= element_desc(chunk@, x as int, y as int));
    crate::text::string_of(&v)
}

fn is_nav_link_exec(lower_chunk: &[char], pats: &Vec<Vec<char>>) -> (r: bool)
    ensures
        r == exists|k: int| 0 <= k < pats@.len() && contains(lower_chunk@, trim(#[trigger] pats.deep_view()[k])),
{
    let mut k: usize = 0;
    while k < pats.len()
        invariant
            k <= pats@.len(),
            pats.deep_view().len() == pats@.len(),
            forall|j: int| 0 <= j < k ==> !contains(lower_chunk@, trim(#[trigger] pats.deep_view()[j])),
        decreases pats@.len() - k,
    {
        proof {
            lemma_deep_view_chars(pats[k as int]);
        }
        let t = trim_vec(&pats[k]);
        assert(t@ == trim(pats.deep_view()[k as int]));
        if contains_exec(lower_chunk, &t) {
            assert(contains(lower_chunk@, trim(pats.deep_view()[k as int])));
            return true;
        }
        k = k + 1;
    }
    false
}

/// Whether every tap point that `search_semantic_yaml` would compute fits
/// in `i32`.
pub fn semantic_search_fits(yaml: &str, target: &Target, fuzzy_hits: &[bool], deprioritize: &str) -> (r: bool)
    requires
        fuzzy_hits@.len() == split(yaml@, crate::agent_yaml::element_delim()).len(),
    ensures
        r == semantic_search(yaml@, *target, fuzzy_hits@, deprioritize@).1,
{
    semantic_search_impl(yaml, target, fuzzy_hits, deprioritize).0
}

/// Look a target up in the semantic agent's YAML. `fuzzy_hits[i]` says
/// whether chunk `i` matches the target's `content_fuzzy` text (a
/// case-insensitive substring or token-similarity test on its `content:`
/// and `a11y_label:` lines); `deprioritize` is the comma-separated list of
/// navigation-link patterns. The first exact match wins, else the best
/// fuzzy candidate.
pub fn search_semantic_yaml(yaml: &str, target: &Target, fuzzy_hits: &[bool], deprioritize: &str) -> (r:
    Option<(i32, i32, String)>)
    requires
        fuzzy_hits@.len() == split(yaml@, crate::agent_yaml::element_delim()).len(),
        semantic_search(yaml@, *target, fuzzy_hits@, deprioritize@).1,
    ensures
        match r {
            Some((x, y, d)) => semantic_search(yaml@, *target, fuzzy_hits@, deprioritize@).0 == Some(
                (x as int, y as int, d@),
            ),
            None => semantic_search(yaml@, *target, fuzzy_hits@, deprioritize@).0 is None,
        },
{
    semantic_search_impl(yaml, target, fuzzy_hits, deprioritize).1
}

fn semantic_search_impl(yaml: &str, target: &Target, fuzzy_hits: &[bool], deprioritize: &str) -> (r: (
    bool,
    Option<(i32, i32, String)>,
))
    requires
        fuzzy_hits@.len() == split(yaml@, crate::agent_yaml::element_delim()).len(),
    ensures
        r.0 == semantic_search(yaml@, *target, fuzzy_hits@, deprioritize@).1,
        r.0 ==> match r.1 {
            Some((x, y, d)) => semantic_search(yaml@, *target, fuzzy_hits@, deprioritize@).0 == Some(
                (x as int, y as int, d@),
            ),
            None => semantic_search(yaml@, *target, fuzzy_hits@, deprioritize@).0 is None,
        },
{
    let chunks = crate::agent_yaml::split_elements(yaml);
    let ghost cv = chunks.deep_view();
    let dc = chars_of(deprioritize);
    let comma: Vec<char> = vec![','];
    assert(comma@ =~= seq![',']);
    let pats = crate::text::split_vec(&dc, &comma);
    let ghost pv = pats.deep_view();
    let ghost t = *target;
    let search_id = opt_str(&target.id);
    let search_text = opt_str(&target.text);
    let mut cand: Option<(i32, i32, String)> = None;
    let mut cand_click = false;
    let mut fits_so_far = true;
    let mut i: usize = 0;
    assert(cv.len() == chunks@.len());
    assert(pv.len() == pats@.len());
    while i < chunks.len()
        invariant
            cv == chunks.deep_view(),
            cv == split(yaml@, crate::agent_yaml::element_delim()),
            pv == pats.deep_view(),
            pv == split(deprioritize@, seq![',']),
            pv.len() == pats@.len(),
            cv.len() == chunks@.len(),
            fuzzy_hits@.len() == cv.len(),
            t == *target,
            search_id@ == opt_or_empty(t.id),
            search_text@ == opt_or_empty(t.text),
            i <= chunks@.len(),
            ({
                let whole = semantic_scan(cv, fuzzy_hits@, t, pv, 0, None, false);
                let cv_ = match cand {
                    Some((a, b, d)) => Some((a as int, b as int, d@)),
                    None => None,
                };
                let tail = semantic_scan(cv, fuzzy_hits@, t, pv, i as nat, cv_, cand_click);
                &&& whole.1 == (fits_so_far && tail.1)
                &&& fits_so_far ==> whole.0 == tail.0
            }),
        decreases chunks@.len() - i,
    {
        let chunk = chunks[i].as_str();
        assert(chunk@ == cv[i as int]);
        let exact = chunk_exact_match(chunk, search_id, search_text);
        let c = chars_of(chunk);
        let click_pat = chars_of("clickable: true");
        let is_click = contains_exec(&c, &click_pat);
        let mut skip = !(exact || fuzzy_hits[i]);
        if !skip {
            if target.clickable_only == Some(true) && !is_click {
                skip = true;
            } else {
                match &target.exclude_type {
                    Some(e) => {
                        let tl = join3("type: ", e.as_str(), "");
                        proof {
                            assert(("type: "@ + e@ + ""@) =~= ("type: "@ + e@)) by {
                                reveal_strlit("");
                            }
                        }
                        if contains_exec(&c, &tl) {
                            skip = true;
                        }
                    },
                    None => {},
                }
            }
        }
        if !skip {
            match tap_point_wide(chunk) {
                None => {},
                Some((wx, wy)) => {
                    let fits = wx >= i32::MIN as i64 && wx <= i32::MAX as i64 && wy >= i32::MIN as i64
                        && wy <= i32::MAX as i64;
                    if !fits {
                        return (false, None);
                    }
                    let cx = wx as i32;
                    let cy = wy as i32;
                    let d = element_desc_exec(chunk, cx, cy);
                    if exact {
                        return (fits_so_far, Some((cx, cy, d)));
                    }
                    let lc = to_lowercase(chunk);
                    let lcc = chars_of(lc.as_str());
                    let nav = is_nav_link_exec(&lcc, &pats);
                    let better = cand.is_none() || (is_click && !cand_click) || !nav;
                    if better {
                        cand = Some((cx, cy, d));
                        cand_click = is_click;
                    }
                },
            }
        }
        i = i + 1;
    }
    (fits_so_far, cand)
}

/// A target given by position is tapped there without a lookup.
pub fn target_position(target: &Target) -> (r: Option<(i32, i32, String)>)
    ensures
        match (target.x, target.y) {
            (Some(x), Some(y)) => r matches Some((a, b, d)) && a == x && b == y && d@ == "position ("@
                + decimal_int(x as int) + ", "@ + decimal_int(y as int) + ")"@,
            _ => r is None,
        },
{
    match (target.x, target.y) {
        (Some(x), Some(y)) => {
            let mut v: Vec<char> = Vec::new();
            crate::text::push_str(&mut v, "position (");
            crate::text::push_i64(&mut v, x as i64);
            crate::text::push_str(&mut v, ", ");
            crate::text::push_i64(&mut v, y as i64);
            crate::text::push_str(&mut v, ")");
            assert(v@ =~= "position ("@ + decimal_int(x as int) + ", "@ + decimal_int(y as int)
                + ")"@);
            Some((x, y, crate::text::string_of(&v)))
        },
        _ => None,
    }
}

/// What a failed lookup names: the id, else the text, else the fuzzy text.
pub open spec fn sought(t: Target) -> Seq<char> {
    if opt_or_empty(t.id).len() > 0 {
        opt_or_empty(t.id)
    } else if opt_or_empty(t.text).len() > 0 {
        opt_or_empty(t.text)
    } else {
        opt_or_empty(t.content_fuzzy)
    }
}

/// `element not found: {what was sought}`
pub fn not_found_message(target: &Target) -> (r: String)
    ensures
        r@ == "element not found: "@ + sought(*target),
{
    let id = opt_str(&target.id);
    let text = opt_str(&target.text);
    let fz = opt_str(&target.content_fuzzy);
    let what = if !id.is_empty() {
        id
    } else if !text.is_empty() {
        text
    } else {
        fz
    };
    let pre = chars_of("element not found: ");
    concat_chars(&pre, what)
}

// ---------------------------------------------------------------------------
// Dumps as fetched
// ---------------------------------------------------------------------------

/// The uiautomator dump from the `cat` of its file: the output when it
/// has more than whitespace, else empty.
pub fn fetch_ui_dump(cat: Result<String, String>) -> (r: String)
    ensures
        match cat {
            Ok(s) => if trim(s@).len() > 0 {
                r@ == s@
            } else {
                r@ == Seq::<char>::empty()
            },
            Err(_) => r@ == Seq::<char>::empty(),
        },
{
    match cat {
        Ok(s) => {
            let t = crate::text::trim_vec(&chars_of(s.as_str()));
            if t.len() > 0 {
                s
            } else {
                String::new()
            }
        },
        Err(_) => String::new(),
    }
}

/// The element chunks of the semantic agent's answer.
pub fn get_semantic_elements(yaml: Result<String, String>) -> (r: Result<Vec<String>, String>)
    ensures
        match yaml {
            Ok(y) => r matches Ok(v) && v.deep_view() == split(y@, crate::agent_yaml::element_delim()),
            Err(e) => r matches Err(e2) && e2@ == e@,
        },
{
    match yaml {
        Ok(y) => Ok(crate::agent_yaml::split_elements(y.as_str())),
        Err(e) => Err(e),
    }
}

/// What `scroll_to_element` asks the agent's scroll search for: the text,
/// matched loosely.
pub fn scroll_target(id_or_text: &str) -> (r: Target)
    ensures
        r.id is None,
        r.text is None,
        r.content_fuzzy matches Some(f) && f@ == id_or_text@,
        r.clickable_only is None,
        r.exclude_type is None,
        r.x is None,
        r.y is None,
{
    Target {
        id: None,
        text: None,
        content_fuzzy: Some(String::from_str(id_or_text)),
        clickable_only: None,
        exclude_type: None,
        x: None,
        y: None,
    }
}

/// The verdict of `scroll_to_element` once the scroll search answered.
pub fn scroll_to_element(found: bool, id_or_text: &str) -> (r: Result<(), String>)
    ensures
        found ==> r is Ok,
        !found ==> (r matches Err(e) && e@ == "scroll_to_element: not found via agent scroll search: "@
            + id_or_text@),
{
    if found {
        Ok(())
    } else {
        let pre = chars_of("scroll_to_element: not found via agent scroll search: ");
        Err(concat_chars(&pre, id_or_text))
    }
}


// ---------------------------------------------------------------------------
// Agent-side searches: the idle barrier and the scroll search
// ---------------------------------------------------------------------------

/// The search fields of a target as the agent's `match` object holds them:
/// `id`, `text` and `content_fuzzy`, each where the target has it.
pub fn match_fields(target: &Target) -> (r: Vec<(String, String)>)
    ensures
        r@.len() == (if target.id is Some { 1int } else { 0int }) + (if target.text is Some { 1int } else { 0int })
            + (if target.content_fuzzy is Some { 1int } else { 0int }),
        forall|i: int| 0 <= i < r@.len() ==> {
            let (k, v) = #[trigger] r@[i];
            (k@ == "id"@ && target.id == Some(v)) || (k@ == "text"@ && target.text == Some(v)) || (k@
                == "content_fuzzy"@ && target.content_fuzzy == Some(v))
        },
        target.id matches Some(v) ==> r@[0].0@ == "id"@ && r@[0].1 == v,
{
    let mut r: Vec<(String, String)> = Vec::new();
    match &target.id {
        Some(v) => r.push((String::from_str("id"), v.clone())),
        None => {},
    }
    match &target.text {
        Some(v) => r.push((String::from_str("text"), v.clone())),
        None => {},
    }
    match &target.content_fuzzy {
        Some(v) => r.push((String::from_str("content_fuzzy"), v.clone())),
        None => {},
    }
    r
}

/// What the agent's `/query-when-idle` answer says, as far as the search
/// reads it: `found` and `timeout` (each true only when the answer holds
/// the boolean `true`), and the element's `x`, `y` and `content` and the
/// `idle_wait_ms`, where present.
pub struct IdleReply {
    pub found: bool,
    pub timed_out: bool,
    pub x: Option<i64>,
    pub y: Option<i64>,
    pub content: Option<String>,
    pub idle_wait_ms: Option<u64>,
}

/// Read an answer of `/query-when-idle`; `None` when it is not JSON.
pub fn idle_reply(body: &str) -> (r: Option<IdleReply>)
    ensures
        match r {
            Some(rep) => {
                &&& json_ok(body@)
                &&& rep.found == true_at(body@, "/found"@)
                &&& rep.timed_out == true_at(body@, "/timeout"@)
                &&& rep.x == i64_at(body@, "/element/x"@)
                &&& rep.y == i64_at(body@, "/element/y"@)
                &&& crate::text::opt_view(rep.content) == str_at(body@, "/element/content"@)
                &&& rep.idle_wait_ms == u64_at(body@, "/idle_wait_ms"@)
            },
            None => !json_ok(body@),
        },
{
    if json_check(body).is_err() {
        return None;
    }
    Some(
        IdleReply {
            found: true_at_exec(body, "/found"),
            timed_out: true_at_exec(body, "/timeout"),
            x: i64_at_exec(body, "/element/x"),
            y: i64_at_exec(body, "/element/y"),
            content: str_at_exec(body, "/element/content"),
            idle_wait_ms: u64_at_exec(body, "/idle_wait_ms"),
        },
    )
}

/// The next move of the idle-barrier search after an answer.
pub enum IdleStep {
    Found(i32, i32, String),
    Retry,
    GiveUp,
}

pub open spec fn or_i64(o: Option<i64>, d: i64) -> i64 {
    match o {
        Some(v) => v,
        None => d,
    }
}

pub open spec fn or_u64(o: Option<u64>, d: u64) -> u64 {
    match o {
        Some(v) => v,
        None => d,
    }
}

/// `idle-barrier: {content} at ({x},{y}) wait={ms}ms`
pub open spec fn idle_desc(content: Seq<char>, x: i32, y: i32, ms: u64) -> Seq<char> {
    "idle-barrier: "@ + content + " at ("@ + decimal_int(x as int) + ","@ + decimal_int(y as int) + ") wait="@
        + decimal_nat(ms as nat) + "ms"@
}

/// The idle-barrier search after the answer `body` to attempt `attempt`
/// (from 0), read as `reply` where it is JSON: an empty answer or one
/// holding `404` ends the search; a hit is reported at the element's point
/// (540, 1200 where missing); a time-out is retried twice.
pub fn idle_outcome(body: &str, reply: Option<IdleReply>, attempt: u32) -> (r: IdleStep)
    ensures
        (body@.len() == 0 || contains(body@, "404"@)) ==> r is GiveUp,
        !(body@.len() == 0 || contains(body@, "404"@)) ==> match reply {
            None => r is GiveUp,
            Some(rep) => if rep.found {
                r matches IdleStep::Found(x, y, d) && x == or_i64(rep.x, 540) as i32 && y == or_i64(rep.y, 1200)
                    as i32 && d@ == idle_desc(opt_or_empty(rep.content), x, y, or_u64(rep.idle_wait_ms, 0))
            } else if rep.timed_out {
                if attempt < 2 {
                    r is Retry
                } else {
                    r is GiveUp
                }
            } else {
                r is GiveUp
            },
        },
{
    let b = chars_of(body);
    let p = chars_of("404");
    if b.len() == 0 || contains_exec(&b, &p) {
        return IdleStep::GiveUp;
    }
    match reply {
        None => IdleStep::GiveUp,
        Some(rep) => {
            if rep.found {
                let xv: i64 = match rep.x {
                    Some(v) => v,
                    None => 540,
                };
                let yv: i64 = match rep.y {
                    Some(v) => v,
                    None => 1200,
                };
                let x = xv as i32;
                let y = yv as i32;
                let ms: u64 = match rep.idle_wait_ms {
                    Some(v) => v,
                    None => 0,
                };
                let content = opt_str(&rep.content);
                let mut v: Vec<char> = Vec::new();
                crate::text::push_str(&mut v, "idle-barrier: ");
                crate::text::push_str(&mut v, content);
                crate::text::push_str(&mut v, " at (");
                crate::text::push_i64(&mut v, x as i64);
                crate::text::push_str(&mut v, ",");
                crate::text::push_i64(&mut v, y as i64);
                crate::text::push_str(&mut v, ") wait=");
                crate::text::push_u64(&mut v, ms);
                crate::text::push_str(&mut v, "ms");
                assert(v@ =~= idle_desc(opt_or_empty(rep.content), x, y, ms));
                IdleStep::Found(x, y, crate::text::string_of(&v))
            } else if rep.timed_out {
                if attempt < 2 {
                    IdleStep::Retry
                } else {
                    IdleStep::GiveUp
                }
            } else {
                IdleStep::GiveUp
            }
        },
    }
}

/// What the agent's `/scroll-search` answer says, as far as the search
/// reads it: `found` (true only for the boolean `true`), the element's
/// bounds and `content`, and the number of `scrolls`, where present.
pub struct ScrollReply {
    pub found: bool,
    pub bx: Option<i64>,
    pub by: Option<i64>,
    pub bw: Option<i64>,
    pub bh: Option<i64>,
    pub content: Option<String>,
    pub scrolls: Option<u64>,
}

/// Read an answer of `/scroll-search`; `None` when it is not JSON.
pub fn scroll_reply(body: &str) -> (r: Option<ScrollReply>)
    ensures
        match r {
            Some(rep) => {
                &&& json_ok(body@)
                &&& rep.found == true_at(body@, "/found"@)
                &&& rep.bx == i64_at(body@, "/element/bounds/x"@)
                &&& rep.by == i64_at(body@, "/element/bounds/y"@)
                &&& rep.bw == i64_at(body@, "/element/bounds/w"@)
                &&& rep.bh == i64_at(body@, "/element/bounds/h"@)
                &&& crate::text::opt_view(rep.content) == str_at(body@, "/element/content"@)
                &&& rep.scrolls == u64_at(body@, "/scrolls"@)
            },
            None => !json_ok(body@),
        },
{
    if json_check(body).is_err() {
        return None;
    }
    Some(
        ScrollReply {
            found: true_at_exec(body, "/found"),
            bx: i64_at_exec(body, "/element/bounds/x"),
            by: i64_at_exec(body, "/element/bounds/y"),
            bw: i64_at_exec(body, "/element/bounds/w"),
            bh: i64_at_exec(body, "/element/bounds/h"),
            content: str_at_exec(body, "/element/content"),
            scrolls: u64_at_exec(body, "/scrolls"),
        },
    )
}

/// The point a scroll-search hit is tapped at: the middle of its bounds
/// (540, 1200, 100, 50 where missing), each value taken as an `i32`.
pub open spec fn scroll_point(rep: ScrollReply) -> (int, int) {
    (
        (or_i64(rep.bx, 540) as i32) + half((or_i64(rep.bw, 100) as i32) as int),
        (or_i64(rep.by, 1200) as i32) + half((or_i64(rep.bh, 50) as i32) as int),
    )
}

/// The tap point of a hit fits in an `i32` (else its sum overflows).
pub open spec fn scroll_point_fits(rep: ScrollReply) -> bool {
    rep.found ==> fits_i32(scroll_point(rep).0) && fits_i32(scroll_point(rep).1)
}

/// `scroll-search: {content} at ({x},{y}) scrolls={n}`
pub open spec fn scroll_desc(content: Seq<char>, x: int, y: int, n: u64) -> Seq<char> {
    "scroll-search: "@ + content + " at ("@ + decimal_int(x) + ","@ + decimal_int(y) + ") scrolls="@
        + decimal_nat(n as nat)
}

/// Whether `scroll_outcome` can take this answer.
pub fn scroll_reply_fits(rep: &ScrollReply) -> (r: bool)
    ensures
        r == scroll_point_fits(*rep),
{
    if !rep.found {
        return true;
    }
    let bx: i64 = match rep.bx { Some(v) => v, None => 540 };
    let by: i64 = match rep.by { Some(v) => v, None => 1200 };
    let bw: i64 = match rep.bw { Some(v) => v, None => 100 };
    let bh: i64 = match rep.bh { Some(v) => v, None => 50 };
    let x = (bx as i32) as i64 + half_i32(bw as i32) as i64;
    let y = (by as i32) as i64 + half_i32(bh as i32) as i64;
    i32::MIN as i64 <= x && x <= i32::MAX as i64 && i32::MIN as i64 <= y && y <= i32::MAX as i64
}

/// The scroll search's result from the agent's answer, read as `reply`
/// where it is JSON: the hit's tap point and description, or `None`.
pub fn scroll_outcome(reply: Option<ScrollReply>) -> (r: Option<(i32, i32, String)>)
    requires
        reply matches Some(rep) ==> scroll_point_fits(rep),
    ensures
        match reply {
            Some(rep) => if rep.found {
                r matches Some((x, y, d)) && x == scroll_point(rep).0 && y == scroll_point(rep).1 && d@
                    == scroll_desc(opt_or_empty(rep.content), x as int, y as int, or_u64(rep.scrolls, 0))
            } else {
                r is None
            },
            None => r is None,
        },
{
    match reply {
        None => None,
        Some(rep) => {
            if !rep.found {
                return None;
            }
            let bx: i64 = match rep.bx { Some(v) => v, None => 540 };
            let by: i64 = match rep.by { Some(v) => v, None => 1200 };
            let bw: i64 = match rep.bw { Some(v) => v, None => 100 };
            let bh: i64 = match rep.bh { Some(v) => v, None => 50 };
            let x = (bx as i32) + half_i32(bw as i32);
            let y = (by as i32) + half_i32(bh as i32);
            let n: u64 = match rep.scrolls { Some(v) => v, None => 0 };
            let content = opt_str(&rep.content);
            let mut v: Vec<char> = Vec::new();
            crate::text::push_str(&mut v, "scroll-search: ");
            crate::text::push_str(&mut v, content);
            crate::text::push_str(&mut v, " at (");
            crate::text::push_i64(&mut v, x as i64);
            crate::text::push_str(&mut v, ",");
            crate::text::push_i64(&mut v, y as i64);
            crate::text::push_str(&mut v, ") scrolls=");
            crate::text::push_u64(&mut v, n);
            assert(v@ =~= scroll_desc(opt_or_empty(rep.content), x as int, y as int, n));
            Some((x, y, crate::text::string_of(&v)))
        },
    }
}

/// The texts a fuzzy search compares against in an element chunk: the rest
/// of each `content:` or `a11y_label:` line (after trimming), lowercased.
pub open spec fn haystacks_of(ls: Seq<Seq<char>>) -> Seq<Seq<char>>
    decreases ls.len(),
{
    if ls.len() == 0 {
        seq![]
    } else {
        let rest = haystacks_of(ls.drop_last());
        let t = trim(ls.last());
        if starts_with(t, "content:"@) {
            rest.push(lowercase(t.skip(8)))
        } else if starts_with(t, "a11y_label:"@) {
            rest.push(lowercase(t.skip(11)))
        } else {
            rest
        }
    }
}

pub fn fuzzy_haystacks(chunk: &str) -> (r: Vec<String>)
    ensures
        crate::text::strings_view(r@) == haystacks_of(lines(chunk@)),
{
    let c = chars_of(chunk);
    let ls = lines_vec(&c);
    let ghost lv = ls.deep_view();
    let k1 = chars_of("content:");
    let k2 = chars_of("a11y_label:");
    proof {
        reveal_strlit("content:");
        reveal_strlit("a11y_label:");
    }
    let mut r: Vec<String> = Vec::new();
    let mut i: usize = 0;
    assert(lv.take(0) =~= Seq::<Seq<char>>::empty());
    while i < ls.len()
        invariant
            i <= ls@.len(),
            lv == ls.deep_view(),
            lv.len() == ls@.len(),
            k1@ == "content:"@,
            k2@ == "a11y_label:"@,
            k1@.len() == 8,
            k2@.len() == 11,
            crate::text::strings_view(r@) == haystacks_of(lv.take(i as int)),
        decreases ls@.len() - i,
    {
        proof {
            lemma_deep_view_chars(ls@[i as int]);
        }
        let t = trim_vec(&ls[i]);
        assert(lv.take(i + 1).drop_last() =~= lv.take(i as int));
        assert(lv.take(i + 1).last() == lv[i as int]);
        let ghost before = r@;
        if starts_with_exec(&t, &k1) {
            let rest = copy_range(&t, 8, t.len());
            assert(rest@ =~= t@.skip(8));
            let low = to_lowercase(crate::text::string_of(&rest).as_str());
            r.push(low);
            assert(crate::text::strings_view(r@) =~= crate::text::strings_view(before).push(lowercase(t@.skip(8))));
        } else if starts_with_exec(&t, &k2) {
            let rest = copy_range(&t, 11, t.len());
            assert(rest@ =~= t@.skip(11));
            let low = to_lowercase(crate::text::string_of(&rest).as_str());
            r.push(low);
            assert(crate::text::strings_view(r@) =~= crate::text::strings_view(before).push(lowercase(t@.skip(11))));
        }
        i = i + 1;
    }
    assert(lv.take(lv.len() as int) =~= lv);
    r
}
} // verus!
