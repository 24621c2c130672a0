//! Making sure a text field has input focus before typing: reading the
//! input method's state, and finding a field to tap in the agent's YAML or
//! in a uiautomator dump.
use vstd::prelude::*;
use vstd::string::StringSliceAdditionalSpecFns;
use vstd::utf8::encode_utf8;
use crate::bytes::{
    copy_range_b, find_b, find_exec_b, lemma_deep_view_chars_b, lemma_find_from_props_b, parse_i32_b,
    parse_i32_exec_b, split_b, split_vec_b,
};
use crate::test_element::{
    bounds_attr, char_boundary, close_bracket, comma_b, extract_yaml_int, fits_i32, half, yaml_int,
};
use crate::text::{chars_of, contains, contains_exec, lines, lines_vec, push_str, string_of, lemma_deep_view_chars};

verus! {

/// A byte index of valid UTF-8 that is an end or starts no continuation
/// byte is a character boundary.
pub proof fn lemma_char_boundary(bytes: Seq<u8>, i: int)
    requires
        vstd::utf8::valid_utf8(bytes),
        char_boundary(bytes, i),
    ensures
        vstd::utf8::is_char_boundary(bytes, i),
{
    vstd::utf8::is_char_boundary_start_end_of_seq(bytes);
    if 0 <= i < bytes.len() {
        vstd::utf8::is_char_boundary_iff_not_is_continuation_byte(bytes, i);
    }
}

fn text_has(s: &str, p: &str) -> (r: bool)
    ensures
        r == contains(s@, p@),
{
    contains_exec(&chars_of(s), &chars_of(p))
}

/// The input method serves no text field: it serves nothing, or a view
/// that is neither kind of `EditText`.
pub open spec fn focus_needed_spec(dump: Seq<char>) -> bool {
    let null = contains(dump, "mServedView=null"@);
    null || (!contains(dump, "mServedView=android.widget.EditText"@) && !contains(
        dump,
        "mServedView=androidx.appcompat.widget.AppCompatEditText"@,
    ))
}

/// Whether a text field must be tapped, from `dumpsys input_method`.
pub fn focus_needed(dump: &str) -> (r: bool)
    ensures
        r == focus_needed_spec(dump@),
{
    let null = text_has(dump, "mServedView=null");
    let not_edit = !null && !text_has(dump, "mServedView=android.widget.EditText") && !text_has(
        dump,
        "mServedView=androidx.appcompat.widget.AppCompatEditText",
    );
    null || not_edit
}

pub open spec fn served_tag() -> Seq<u8> {
    seq![109u8, 83u8, 101u8, 114u8, 118u8, 101u8, 100u8, 86u8, 105u8, 101u8, 119u8, 61u8]
}

/// Where the 80-byte window after `mServedView=` ends.
pub open spec fn window_end80(b: Seq<u8>) -> int {
    match find_b(b, served_tag()) {
        Some(p) => if p + 80 < b.len() {
            p as int + 80
        } else {
            b.len() as int
        },
        None => 0,
    }
}

/// `line` is what the dump shows of the served view: the first line of
/// the 80 bytes from `mServedView=` (empty when it is absent).
pub open spec fn served_line_is(b: Seq<u8>, line: Seq<char>) -> bool {
    match find_b(b, served_tag()) {
        Some(p) => exists|v: Seq<char>|
            #[trigger] encode_utf8(v) == b.subrange(p as int, window_end80(b)) && line == (if lines(
                v,
            ).len() > 0 {
                lines(v)[0]
            } else {
                seq![]
            }),
        None => line == Seq::<char>::empty(),
    }
}

/// The served view's line of the dump, for the failure message. The
/// window's end must fall on a character boundary.
pub fn served_view_line(dump: &str) -> (r: String)
    requires
        find_b(dump.spec_bytes(), served_tag()) is Some ==> char_boundary(
            dump.spec_bytes(),
            window_end80(dump.spec_bytes()),
        ),
    ensures
        served_line_is(dump.spec_bytes(), r@),
{
    let b = dump.as_bytes();
    let tag: Vec<u8> = vec![109u8, 83u8, 101u8, 114u8, 118u8, 101u8, 100u8, 86u8, 105u8, 101u8, 119u8, 61u8];
    assert(tag@ =~= served_tag());
    match find_exec_b(b, &tag) {
        None => String::new(),
        Some(p) => {
            proof {
                lemma_find_from_props_b(b@, served_tag(), 0);
            }
            let n = b.len();
            let end = if p < n && n - p > 80 {
                p + 80
            } else {
                n
            };
            assert(end as int == window_end80(b@));
            assert(b@[p as int] == 109u8);
            proof {
                vstd::utf8::encode_utf8_valid_utf8(dump@);
                assert(char_boundary(b@, p as int));
                lemma_char_boundary(b@, p as int);
            }
            let (_, tail) = dump.split_at(p);
            assert(tail.spec_bytes() =~= b@.subrange(p as int, n as int));
            proof {
                vstd::utf8::encode_utf8_valid_utf8(tail@);
                assert(char_boundary(b@, end as int));
                if end < n {
                    assert(tail.spec_bytes()[(end - p) as int] == b@[end as int]);
                }
                assert(char_boundary(tail.spec_bytes(), (end - p) as int));
                lemma_char_boundary(tail.spec_bytes(), (end - p) as int);
            }
            let (win, _) = tail.split_at(end - p);
            let ghost wv = win@;
            assert(encode_utf8(wv) == b@.subrange(p as int, end as int));
            let wc = chars_of(win);
            let ls = lines_vec(&wc);
            assert(ls.deep_view().len() == ls@.len());
            if ls.len() > 0 {
                proof {
                    lemma_deep_view_chars(ls[0]);
                }
                string_of(&ls[0])
            } else {
                String::new()
            }
        },
    }
}


// ---------------------------------------------------------------------------
// A field to tap
// ---------------------------------------------------------------------------

/// An element chunk of the agent's YAML that is a text field.
pub open spec fn is_input_chunk(c: Seq<char>) -> bool {
    contains(c, "type: input"@) || contains(c, "type: text_field"@) || contains(c, "type: TextField"@)
        || contains(c, "EditText"@)
}

/// The centre of a chunk's `x`, `y`, `w`, `h`.
pub open spec fn chunk_center(c: Seq<char>) -> Option<(int, int)> {
    match (yaml_int(c, "x: "@), yaml_int(c, "y: "@), yaml_int(c, "w: "@), yaml_int(c, "h: "@)) {
        (Some(x), Some(y), Some(w), Some(h)) => Some((x + half(w as int), y + half(h as int))),
        _ => None,
    }
}

/// The centre of the first text-field chunk from `k` on that has one.
pub open spec fn input_from(chunks: Seq<Seq<char>>, k: nat) -> Option<(int, int)>
    decreases chunks.len() - k,
{
    if k >= chunks.len() {
        None
    } else if is_input_chunk(chunks[k as int]) && chunk_center(chunks[k as int]) is Some {
        chunk_center(chunks[k as int])
    } else {
        input_from(chunks, k + 1)
    }
}

/// Where to tap a text field found in the agent's YAML.
pub open spec fn input_point_spec(yaml: Seq<char>) -> Option<(int, int)> {
    input_from(crate::text::split(yaml, crate::agent_yaml::element_delim()), 0)
}

fn chunk_center_wide(chunk: &str) -> (r: Option<(i64, i64)>)
    ensures
        match r {
            Some((a, b)) => chunk_center(chunk@) == Some((a as int, b as int)),
            None => chunk_center(chunk@) is None,
        },
{
    match (
        extract_yaml_int(chunk, "x: "),
        extract_yaml_int(chunk, "y: "),
        extract_yaml_int(chunk, "w: "),
        extract_yaml_int(chunk, "h: "),
    ) {
        (Some(x), Some(y), Some(w), Some(h)) => {
            let hw: i64 = if w >= 0 {
                (w / 2) as i64
            } else {
                -(((w as i64) * -1) / 2)
            };
            let hh: i64 = if h >= 0 {
                (h / 2) as i64
            } else {
                -(((h as i64) * -1) / 2)
            };
            Some((x as i64 + hw, y as i64 + hh))
        },
        _ => None,
    }
}

fn input_point_wide(yaml: &str) -> (r: Option<(i64, i64)>)
    ensures
        match r {
            Some((a, b)) => input_point_spec(yaml@) == Some((a as int, b as int)),
            None => input_point_spec(yaml@) is None,
        },
{
    let chunks = crate::agent_yaml::split_elements(yaml);
    let ghost cv = chunks.deep_view();
    let mut k: usize = 0;
    assert(cv.len() == chunks@.len());
    while k < chunks.len()
        invariant
            k <= chunks@.len(),
            cv == chunks.deep_view(),
            cv == crate::text::split(yaml@, crate::agent_yaml::element_delim()),
            cv.len() == chunks@.len(),
            input_from(cv, 0) == input_from(cv, k as nat),
        decreases chunks@.len() - k,
    {
        let c = chunks[k].as_str();
        assert(c@ == cv[k as int]);
        let is_input = text_has(c, "type: input") || text_has(c, "type: text_field") || text_has(
            c,
            "type: TextField",
        ) || text_has(c, "EditText");
        if is_input {
            match chunk_center_wide(c) {
                Some((a, b)) => {
                    return Some((a, b));
                },
                None => {},
            }
        }
        k = k + 1;
    }
    None
}

/// Where to tap a text field in the agent's YAML: the centre of the first
/// text-field element with a position and size. The sums must fit in
/// `i32`, where they are computed.
pub fn input_point(yaml: &str) -> (r: Option<(i32, i32)>)
    requires
        input_point_spec(yaml@) matches Some((a, b)) ==> fits_i32(a) && fits_i32(b),
    ensures
        match r {
            Some((a, b)) => input_point_spec(yaml@) == Some((a as int, b as int)),
            None => input_point_spec(yaml@) is None,
        },
{
    match input_point_wide(yaml) {
        Some((a, b)) => Some((a as i32, b as i32)),
        None => None,
    }
}

/// Whether `input_point` can take this YAML: the centre it finds, if any,
/// fits in `i32`.
pub fn input_point_fits(yaml: &str) -> (r: bool)
    ensures
        r == (input_point_spec(yaml@) matches Some((a, b)) ==> fits_i32(a) && fits_i32(b)),
{
    match input_point_wide(yaml) {
        Some((a, b)) => i32::MIN as i64 <= a && a <= i32::MAX as i64 && i32::MIN as i64 <= b && b
            <= i32::MAX as i64,
        None => true,
    }
}

/// Whether `served_view_line` can take this dump: the end of its window
/// falls on a character boundary.
pub fn served_view_defined(dump: &str) -> (r: bool)
    ensures
        r == (find_b(dump.spec_bytes(), served_tag()) is Some ==> char_boundary(
            dump.spec_bytes(),
            window_end80(dump.spec_bytes()),
        )),
{
    let b = dump.as_bytes();
    let tag: Vec<u8> = vec![109u8, 83u8, 101u8, 114u8, 118u8, 101u8, 100u8, 86u8, 105u8, 101u8, 119u8, 61u8];
    assert(tag@ =~= served_tag());
    match find_exec_b(b, &tag) {
        None => true,
        Some(p) => {
            proof {
                lemma_find_from_props_b(b@, served_tag(), 0);
            }
            let n = b.len();
            let end = if p < n && n - p > 80 {
                p + 80
            } else {
                n
            };
            assert(end as int == window_end80(b@));
            crate::test_element::char_boundary_exec(b, end)
        },
    }
}

pub open spec fn edit_text_tag() -> Seq<u8> {
    seq![69u8, 100u8, 105u8, 116u8, 84u8, 101u8, 120u8, 116u8]
}

/// The numbers among comma-separated pieces, skipping pieces that do not
/// parse.
pub open spec fn parsed_list(ps: Seq<Seq<u8>>) -> Seq<i32>
    decreases ps.len(),
{
    if ps.len() == 0 {
        seq![]
    } else {
        match parse_i32_b(ps.last()) {
            Some(v) => parsed_list(ps.drop_last()).push(v),
            None => parsed_list(ps.drop_last()),
        }
    }
}

/// The text after the first `bounds="` following the first `EditText`,
/// and where its first `]` is.
pub open spec fn edit_bounds(b: Seq<u8>) -> Option<(Seq<u8>, nat)> {
    match find_b(b, edit_text_tag()) {
        None => None,
        Some(c) => {
            let after = b.skip(c as int);
            match find_b(after, bounds_attr()) {
                None => None,
                Some(bs) => {
                    let s = after.skip(bs + 8int);
                    match find_b(s, close_bracket()) {
                        None => None,
                        Some(e) => Some((s, e)),
                    }
                },
            }
        },
    }
}

/// The centre of the `EditText` node's bounds in a uiautomator dump.
pub open spec fn edit_point_spec(b: Seq<u8>) -> Option<(int, int)> {
    match edit_bounds(b) {
        None => None,
        Some((s, e)) => {
            let first = s.subrange(1, e as int);
            let rest = s.skip(e + 2int);
            match find_b(rest, close_bracket()) {
                None => None,
                Some(e2) => {
                    let c1 = parsed_list(split_b(first, comma_b()));
                    let c2 = parsed_list(split_b(rest.take(e2 as int), comma_b()));
                    if c1.len() == 2 && c2.len() == 2 {
                        Some((half(c1[0] + c2[0]), half(c1[1] + c2[1])))
                    } else {
                        None
                    }
                },
            }
        },
    }
}

/// The inputs the edit-field parse is defined on: the cut two bytes past
/// the first `]` lies in the text, at a character boundary, and the
/// corner sums fit in `i32`.
pub open spec fn edit_point_defined(b: Seq<u8>) -> bool {
    match edit_bounds(b) {
        None => true,
        Some((s, e)) => {
            &&& e + 2 <= s.len()
            &&& char_boundary(s, e + 2int)
            &&& (find_b(s.skip(e + 2int), close_bracket()) matches Some(e2) ==> {
                let c1 = parsed_list(split_b(s.subrange(1, e as int), comma_b()));
                let c2 = parsed_list(split_b(s.skip(e + 2int).take(e2 as int), comma_b()));
                c1.len() == 2 && c2.len() == 2 ==> fits_i32(c1[0] + c2[0]) && fits_i32(c1[1] + c2[1])
            })
        },
    }
}

fn parsed_list_exec(piece: &[u8]) -> (r: Vec<i32>)
    ensures
        r@ == parsed_list(split_b(piece@, comma_b())),
{
    let comma: Vec<u8> = vec![44u8];
    assert(comma@ =~= comma_b());
    let ps = split_vec_b(piece, &comma);
    let ghost pv = ps.deep_view();
    let mut out: Vec<i32> = Vec::new();
    let mut i: usize = 0;
    assert(pv.len() == ps@.len());
    while i < ps.len()
        invariant
            i <= ps@.len(),
            pv == ps.deep_view(),
            pv.len() == ps@.len(),
            out@ == parsed_list(pv.take(i as int)),
        decreases ps@.len() - i,
    {
        proof {
            lemma_deep_view_chars_b(ps[i as int]);
        }
        assert(pv.take(i + 1).drop_last() =~= pv.take(i as int));
        match parse_i32_exec_b(&ps[i]) {
            Some(v) => out.push(v),
            None => {},
        }
        i = i + 1;
    }
    assert(pv.take(i as int) =~= pv);
    out
}

fn half32(v: i32) -> (r: i32)
    ensures
        r == half(v as int),
{
    if v >= 0 {
        v / 2
    } else if v == i32::MIN {
        -0x4000_0000i32
    } else {
        -((-v) / 2)
    }
}

/// Where to tap the first `EditText` of a uiautomator dump.
pub fn edit_text_point(xml: &str) -> (r: Option<(i32, i32)>)
    requires
        edit_point_defined(xml.spec_bytes()),
    ensures
        match r {
            Some((a, b)) => edit_point_spec(xml.spec_bytes()) == Some((a as int, b as int)),
            None => edit_point_spec(xml.spec_bytes()) is None,
        },
{
    let b = xml.as_bytes();
    let tag: Vec<u8> = vec![69u8, 100u8, 105u8, 116u8, 84u8, 101u8, 120u8, 116u8];
    assert(tag@ =~= edit_text_tag());
    let c = match find_exec_b(b, &tag) {
        Some(c) => c,
        None => {
            return None;
        },
    };
    proof {
        lemma_find_from_props_b(b@, edit_text_tag(), 0);
    }
    let after = copy_range_b(b, c, b.len());
    assert(after@ =~= b@.skip(c as int));
    let attr: Vec<u8> = vec![98u8, 111u8, 117u8, 110u8, 100u8, 115u8, 61u8, 34u8, 91u8];
    assert(attr@ =~= bounds_attr());
    let bs = match find_exec_b(&after, &attr) {
        Some(x) => x,
        None => {
            return None;
        },
    };
    proof {
        lemma_find_from_props_b(after@, bounds_attr(), 0);
    }
    assert(bs + 9 <= after.len());
    let s = copy_range_b(&after, bs + 8, after.len());
    assert(s@ =~= after@.skip(bs + 8int));
    assert(s@[0] == 91u8);
    let cb: Vec<u8> = vec![93u8];
    assert(cb@ =~= close_bracket());
    let e = match find_exec_b(&s, &cb) {
        Some(e) => e,
        None => {
            return None;
        },
    };
    proof {
        lemma_find_from_props_b(s@, close_bracket(), 0);
        if e == 0 {
            assert(s@.subrange(0, 1)[0] == 93u8);
        }
    }
    assert(e >= 1);
    assert(e + 2 <= s.len());
    let first = copy_range_b(&s, 1, e);
    let rest = copy_range_b(&s, e + 2, s.len());
    assert(first@ =~= s@.subrange(1, e as int));
    assert(rest@ =~= s@.skip(e + 2int));
    let e2 = match find_exec_b(&rest, &cb) {
        Some(e2) => e2,
        None => {
            return None;
        },
    };
    proof {
        lemma_find_from_props_b(rest@, close_bracket(), 0);
    }
    let second = copy_range_b(&rest, 0, e2);
    assert(second@ =~= rest@.take(e2 as int));
    let c1 = parsed_list_exec(&first);
    let c2 = parsed_list_exec(&second);
    if c1.len() == 2 && c2.len() == 2 {
        Some((half32(c1[0] + c2[0]), half32(c1[1] + c2[1])))
    } else {
        None
    }
}

/// Whether `edit_text_point` can take this dump (see `edit_point_defined`).
pub fn edit_point_defined_exec(xml: &str) -> (r: bool)
    ensures
        r == edit_point_defined(xml.spec_bytes()),
{
    let b = xml.as_bytes();
    let tag: Vec<u8> = vec![69u8, 100u8, 105u8, 116u8, 84u8, 101u8, 120u8, 116u8];
    assert(tag@ =~= edit_text_tag());
    let c = match find_exec_b(b, &tag) {
        Some(c) => c,
        None => {
            return true;
        },
    };
    proof {
        lemma_find_from_props_b(b@, edit_text_tag(), 0);
    }
    let after = copy_range_b(b, c, b.len());
    assert(after@ =~= b@.skip(c as int));
    let attr: Vec<u8> = vec![98u8, 111u8, 117u8, 110u8, 100u8, 115u8, 61u8, 34u8, 91u8];
    assert(attr@ =~= bounds_attr());
    let bs = match find_exec_b(&after, &attr) {
        Some(x) => x,
        None => {
            return true;
        },
    };
    proof {
        lemma_find_from_props_b(after@, bounds_attr(), 0);
    }
    assert(bs + 9 <= after.len());
    let s = copy_range_b(&after, bs + 8, after.len());
    assert(s@ =~= after@.skip(bs + 8int));
    let cb: Vec<u8> = vec![93u8];
    assert(cb@ =~= close_bracket());
    let e = match find_exec_b(&s, &cb) {
        Some(e) => e,
        None => {
            return true;
        },
    };
    proof {
        lemma_find_from_props_b(s@, close_bracket(), 0);
    }
    if !(e <= s.len() && s.len() - e >= 2) {
        return false;
    }
    if !crate::test_element::char_boundary_exec(&s, e + 2) {
        return false;
    }
    proof {
        assert(s@[0] == 91u8);
        if e == 0 {
            assert(s@.subrange(0, 1)[0] == 93u8);
        }
    }
    let first = copy_range_b(&s, 1, e);
    let rest = copy_range_b(&s, e + 2, s.len());
    assert(first@ =~= s@.subrange(1, e as int));
    assert(rest@ =~= s@.skip(e + 2int));
    let e2 = match find_exec_b(&rest, &cb) {
        Some(e2) => e2,
        None => {
            return true;
        },
    };
    proof {
        lemma_find_from_props_b(rest@, close_bracket(), 0);
    }
    let second = copy_range_b(&rest, 0, e2);
    assert(second@ =~= rest@.take(e2 as int));
    let c1 = parsed_list_exec(&first);
    let c2 = parsed_list_exec(&second);
    if c1.len() == 2 && c2.len() == 2 {
        let sx = c1[0] as i64 + c2[0] as i64;
        let sy = c1[1] as i64 + c2[1] as i64;
        i32::MIN as i64 <= sx && sx <= i32::MAX as i64 && i32::MIN as i64 <= sy && sy <= i32::MAX as i64
    } else {
        true
    }
}

/// The failure when no field could be focused, with the first 200
/// characters of the served view's line.
pub fn focus_failure(val_line: &str) -> (r: String)
    ensures
        r@ == "ensure_input_focus: no EditText found on /semantic or UIAutomator after 10 attempts (mServedView snippet: "@
            + val_line@.take(if val_line@.len() < 200 {
            val_line@.len() as int
        } else {
            200
        }) + ")"@,
{
    let c = chars_of(val_line);
    let n = if c.len() < 200 {
        c.len()
    } else {
        200
    };
    let snippet = crate::text::copy_range(&c, 0, n);
    let mut v: Vec<char> = Vec::new();
    push_str(
        &mut v,
        "ensure_input_focus: no EditText found on /semantic or UIAutomator after 10 attempts (mServedView snippet: ",
    );
    crate::text::push_chars(&mut v, &snippet);
    push_str(&mut v, ")");
    assert(v@ =~= "ensure_input_focus: no EditText found on /semantic or UIAutomator after 10 attempts (mServedView snippet: "@
        + val_line@.take(n as int) + ")"@);
    string_of(&v)
}

} // verus!
