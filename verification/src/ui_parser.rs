//! The compact element list of a uiautomator dump: labelled or interactive
//! nodes, one per spot on the screen.
use vstd::prelude::*;
use crate::text::{
    all_digits, chars_of, copy_string, digits_value, find, find_exec, is_digit, lemma_digits_value_nonneg,
    parse_i32, parse_i32_exec, str_eq, string_of,
};
use crate::xml::{XmlTag, attr_views, read_xml_tags, tag_views, xml_tags_of};

verus! {

// ---------------------------------------------------------------------------
// Attribute values
// ---------------------------------------------------------------------------

/// The value of the last attribute named `key`.
pub open spec fn attr_last(a: Seq<(Seq<char>, Seq<char>)>, key: Seq<char>) -> Option<Seq<char>>
    decreases a.len(),
{
    if a.len() == 0 {
        None
    } else if a.last().0 == key {
        Some(a.last().1)
    } else {
        attr_last(a.drop_last(), key)
    }
}

pub open spec fn attr_or_empty(a: Seq<(Seq<char>, Seq<char>)>, key: Seq<char>) -> Seq<char> {
    match attr_last(a, key) {
        Some(v) => v,
        None => seq![],
    }
}

/// The attribute is present and its last value is `true`.
pub open spec fn attr_true(a: Seq<(Seq<char>, Seq<char>)>, key: Seq<char>) -> bool {
    attr_last(a, key) == Some("true"@)
}

/// The last value of attribute `key` (attributes later in a tag override
/// earlier ones).
pub fn attr_value(attrs: &Vec<(String, String)>, key: &str) -> (r: Option<String>)
    ensures
        crate::text::opt_view(r) == attr_last(attr_views(attrs@), key@),
{
    let ghost av = attr_views(attrs@);
    let mut found: Option<String> = None;
    let mut i: usize = 0;
    while i < attrs.len()
        invariant
            i <= attrs@.len(),
            av == attr_views(attrs@),
            crate::text::opt_view(found) == attr_last(av.take(i as int), key@),
        decreases attrs@.len() - i,
    {
        assert(av.take(i + 1).drop_last() =~= av.take(i as int));
        if str_eq(attrs[i].0.as_str(), key) {
            found = Some(copy_string(&attrs[i].1));
        }
        i = i + 1;
    }
    assert(av.take(i as int) =~= av);
    found
}

fn attr_string(attrs: &Vec<(String, String)>, key: &str) -> (r: String)
    ensures
        r@ == attr_or_empty(attr_views(attrs@), key@),
{
    match attr_value(attrs, key) {
        Some(v) => v,
        None => String::new(),
    }
}

fn attr_is_true(attrs: &Vec<(String, String)>, key: &str) -> (r: bool)
    ensures
        r == attr_true(attr_views(attrs@), key@),
{
    match attr_value(attrs, key) {
        Some(v) => str_eq(v.as_str(), "true"),
        None => false,
    }
}

// ---------------------------------------------------------------------------
// Resource ids and bounds
// ---------------------------------------------------------------------------

/// The part of a resource id after `:id/`, empty when there is none.
pub open spec fn short_id_spec(rid: Seq<char>) -> Seq<char> {
    match find(rid, seq![':', 'i', 'd', '/']) {
        Some(p) => rid.skip(p as int + 4),
        None => seq![],
    }
}

pub fn short_id(resource_id: &str) -> (r: String)
    ensures
        r@ == short_id_spec(resource_id@),
{
    let c = chars_of(resource_id);
    let pat: Vec<char> = vec![':', 'i', 'd', '/'];
    assert(pat@ =~= seq![':', 'i', 'd', '/']);
    match find_exec(&c, &pat) {
        Some(p) => {
            proof {
                crate::text::lemma_find_from_props(c@, pat@, 0);
            }
            assert(p + pat@.len() <= c@.len());
            assert(p + 4 <= c.len());
            let rest = crate::text::copy_range(&c, p + 4, c.len());
            assert(rest@ =~= resource_id@.skip(p as int + 4));
            string_of(&rest)
        },
        None => String::new(),
    }
}

/// The value of a finished run of digits, dropped when it overflows `i32`.
pub open spec fn flush(cur: Seq<char>) -> Seq<i32> {
    if cur.len() > 0 {
        match parse_i32(cur) {
            Some(v) => seq![v],
            None => seq![],
        }
    } else {
        seq![]
    }
}

/// The numbers of the maximal ASCII-digit runs of `s[i..]`, given the run
/// `cur` already started.
pub open spec fn nums_from(s: Seq<char>, i: nat, cur: Seq<char>) -> Seq<i32>
    decreases s.len() - i,
{
    if i >= s.len() {
        flush(cur)
    } else if is_digit(s[i as int]) {
        nums_from(s, i + 1, cur.push(s[i as int]))
    } else {
        flush(cur) + nums_from(s, i + 1, seq![])
    }
}

/// The numbers in a bounds string such as `[0,210][1080,2340]`: its digit
/// runs that parse as `i32`.
pub open spec fn bounds_numbers(s: Seq<char>) -> Seq<i32> {
    nums_from(s, 0, seq![])
}

proof fn lemma_flush_nonneg(cur: Seq<char>)
    requires
        all_digits(cur),
    ensures
        forall|k: int| 0 <= k < flush(cur).len() ==> flush(cur)[k] >= 0,
{
    if cur.len() > 0 {
        lemma_digits_value_nonneg(cur);
        assert(is_digit(cur[0]));
    }
}

proof fn lemma_nums_nonneg(s: Seq<char>, i: nat, cur: Seq<char>)
    requires
        all_digits(cur),
    ensures
        forall|k: int| 0 <= k < nums_from(s, i, cur).len() ==> nums_from(s, i, cur)[k] >= 0,
    decreases s.len() - i,
{
    let whole = nums_from(s, i, cur);
    if i >= s.len() {
        lemma_flush_nonneg(cur);
        assert(whole == flush(cur));
    } else if is_digit(s[i as int]) {
        let c2 = cur.push(s[i as int]);
        assert(all_digits(c2)) by {
            assert forall|k: int| 0 <= k < c2.len() implies is_digit(#[trigger] c2[k]) by {
                if k < cur.len() {
                    assert(c2[k] == cur[k]);
                }
            }
        }
        lemma_nums_nonneg(s, i + 1, c2);
        assert(whole == nums_from(s, i + 1, c2));
    } else {
        lemma_flush_nonneg(cur);
        assert(all_digits(Seq::<char>::empty()));
        lemma_nums_nonneg(s, i + 1, seq![]);
        let a = flush(cur);
        let b = nums_from(s, i + 1, seq![]);
        assert(whole == a + b);
        assert forall|k: int| 0 <= k < whole.len() implies whole[k] >= 0 by {
            if k < a.len() {
                assert(whole[k] == a[k]);
            } else {
                assert(whole[k] == b[k - a.len()]);
            }
        }
    }
}

pub proof fn lemma_bounds_numbers_nonneg(s: Seq<char>)
    ensures
        forall|k: int| 0 <= k < bounds_numbers(s).len() ==> bounds_numbers(s)[k] >= 0,
{
    lemma_nums_nonneg(s, 0, seq![]);
}

fn flush_exec(cur: &Vec<char>, out: &mut Vec<i32>)
    ensures
        final(out)@ == old(out)@ + flush(cur@),
{
    if cur.len() > 0 {
        match parse_i32_exec(cur) {
            Some(v) => {
                out.push(v);
            },
            None => {},
        }
    }
}

/// The numbers of a bounds string (see `bounds_numbers`).
pub fn parse_bounds_numbers(bounds: &str) -> (r: Vec<i32>)
    ensures
        r@ == bounds_numbers(bounds@),
{
    let s = chars_of(bounds);
    let mut out: Vec<i32> = Vec::new();
    let mut cur: Vec<char> = Vec::new();
    let mut i: usize = 0;
    while i < s.len()
        invariant
            i <= s@.len(),
            s@ == bounds@,
            bounds_numbers(bounds@) == out@ + nums_from(s@, i as nat, cur@),
        decreases s@.len() - i,
    {
        let c = s[i];
        if '0' <= c && c <= '9' {
            cur.push(c);
        } else {
            let ghost before = out@;
            flush_exec(&cur, &mut out);
            assert(before + (flush(cur@) + nums_from(s@, i as nat + 1, seq![])) =~= out@ + nums_from(
                s@,
                i as nat + 1,
                seq![],
            ));
            cur = Vec::new();
            assert(cur@ =~= Seq::<char>::empty());
        }
        i = i + 1;
    }
    flush_exec(&cur, &mut out);
    out
}

/// The center of the first two corners of a bounds string.
pub open spec fn center_spec(b: Seq<char>) -> Option<(int, int)> {
    let n = bounds_numbers(b);
    if n.len() < 4 {
        None
    } else {
        Some(((n[0] + n[2]) / 2, (n[1] + n[3]) / 2))
    }
}

/// The sums that `center` forms fit in `i32`.
pub open spec fn center_fits(b: Seq<char>) -> bool {
    let n = bounds_numbers(b);
    n.len() < 4 || (n[0] + n[2] <= i32::MAX && n[1] + n[3] <= i32::MAX)
}

pub fn center(bounds: &str) -> (r: Option<(i32, i32)>)
    requires
        center_fits(bounds@),
    ensures
        match r {
            Some((x, y)) => center_spec(bounds@) == Some((x as int, y as int)) && x >= 0 && y >= 0,
            None => center_spec(bounds@) is None,
        },
{
    let n = parse_bounds_numbers(bounds);
    if n.len() < 4 {
        return None;
    }
    proof {
        lemma_bounds_numbers_nonneg(bounds@);
        assert(n@[0] >= 0 && n@[1] >= 0 && n@[2] >= 0 && n@[3] >= 0);
    }
    Some(((n[0] + n[2]) / 2, (n[1] + n[3]) / 2))
}

/// Whether the centers of a bounds string fit, so `center` may be called.
pub fn center_fits_exec(bounds: &str) -> (r: bool)
    ensures
        r == center_fits(bounds@),
{
    let n = parse_bounds_numbers(bounds);
    if n.len() < 4 {
        return true;
    }
    proof {
        lemma_bounds_numbers_nonneg(bounds@);
    }
    (n[0] as i64 + n[2] as i64) <= i32::MAX as i64 && (n[1] as i64 + n[3] as i64) <= i32::MAX as i64
}

// ---------------------------------------------------------------------------
// Nodes
// ---------------------------------------------------------------------------

/// The attributes of a `node` that the element list reads.
pub struct RawNode {
    pub text: String,
    pub desc: String,
    pub resource_id: String,
    pub clickable: bool,
    pub bounds: String,
}

pub type RawView = (Seq<char>, Seq<char>, Seq<char>, bool, Seq<char>);

pub open spec fn raw_view(n: RawNode) -> RawView {
    (n.text@, n.desc@, n.resource_id@, n.clickable, n.bounds@)
}

pub open spec fn raw_views(s: Seq<RawNode>) -> Seq<RawView> {
    s.map_values(|n: RawNode| raw_view(n))
}

/// The text, else the content description, else nothing.
pub open spec fn label_of(text: Seq<char>, desc: Seq<char>) -> Seq<char> {
    if text.len() > 0 {
        text
    } else if desc.len() > 0 {
        desc
    } else {
        seq![]
    }
}

/// A node worth listing: it has a label, or it is interactive and has an
/// id; and it has bounds. Pure containers are skipped.
pub open spec fn node_of(a: Seq<(Seq<char>, Seq<char>)>) -> Option<RawView> {
    let text = attr_or_empty(a, "text"@);
    let desc = attr_or_empty(a, "content-desc"@);
    let rid = attr_or_empty(a, "resource-id"@);
    let clickable = attr_true(a, "clickable"@);
    let focusable = attr_true(a, "focusable"@);
    let bounds = attr_or_empty(a, "bounds"@);
    let label = label_of(text, desc);
    let sid = short_id_spec(rid);
    if label.len() == 0 && !(clickable || focusable) {
        None
    } else if label.len() == 0 && sid.len() == 0 {
        None
    } else if bounds.len() == 0 {
        None
    } else {
        Some((text, desc, rid, clickable, bounds))
    }
}

pub fn parse_node(attrs: &Vec<(String, String)>) -> (r: Option<RawNode>)
    ensures
        match r {
            Some(n) => node_of(attr_views(attrs@)) == Some(raw_view(n)),
            None => node_of(attr_views(attrs@)) is None,
        },
{
    let text = attr_string(attrs, "text");
    let desc = attr_string(attrs, "content-desc");
    let resource_id = attr_string(attrs, "resource-id");
    let clickable = attr_is_true(attrs, "clickable");
    let focusable = attr_is_true(attrs, "focusable");
    let bounds = attr_string(attrs, "bounds");
    let label_empty = text.as_str().is_empty() && desc.as_str().is_empty();
    let sid = short_id(resource_id.as_str());
    if label_empty && !(clickable || focusable) {
        return None;
    }
    if label_empty && sid.as_str().is_empty() {
        return None;
    }
    if bounds.as_str().is_empty() {
        return None;
    }
    Some(RawNode { text, desc, resource_id, clickable, bounds })
}

/// The listable nodes among the tags: the `node` tags that `node_of` keeps.
pub open spec fn nodes_of(tags: Seq<(Seq<char>, Seq<(Seq<char>, Seq<char>)>)>) -> Seq<RawView>
    decreases tags.len(),
{
    if tags.len() == 0 {
        seq![]
    } else {
        let rest = nodes_of(tags.drop_last());
        let t = tags.last();
        if t.0 == "node"@ {
            match node_of(t.1) {
                Some(n) => rest.push(n),
                None => rest,
            }
        } else {
            rest
        }
    }
}

// ---------------------------------------------------------------------------
// Elements
// ---------------------------------------------------------------------------

pub struct Element {
    pub x: i32,
    pub y: i32,
    pub label: String,
    pub id: String,
    pub clickable: bool,
}

pub type ElemView = (int, int, Seq<char>, Seq<char>, bool);

pub open spec fn elem_view(e: Element) -> ElemView {
    (e.x as int, e.y as int, e.label@, e.id@, e.clickable)
}

pub open spec fn elems_view(s: Seq<Element>) -> Seq<ElemView> {
    s.map_values(|e: Element| elem_view(e))
}

pub open spec fn tagged_view(s: Seq<(Element, bool)>) -> Seq<(ElemView, bool)> {
    s.map_values(|p: (Element, bool)| (elem_view(p.0), p.1))
}

impl Element {
    pub fn copy(&self) -> (r: Element)
        ensures
            elem_view(r) == elem_view(*self),
    {
        Element {
            x: self.x,
            y: self.y,
            label: copy_string(&self.label),
            id: copy_string(&self.id),
            clickable: self.clickable,
        }
    }
}

/// The label shown: the node's text or description, else its short id.
pub open spec fn display_label(n: RawView) -> Seq<char> {
    let l = label_of(n.0, n.1);
    if l.len() > 0 {
        l
    } else {
        short_id_spec(n.2)
    }
}

/// The short id, unless it is empty or already the label.
pub open spec fn id_field(n: RawView) -> Seq<char> {
    let sid = short_id_spec(n.2);
    if sid.len() > 0 && sid != display_label(n) {
        sid
    } else {
        seq![]
    }
}

pub open spec fn abs(v: int) -> int {
    if v < 0 {
        -v
    } else {
        v
    }
}

/// Within 20 pixels on both axes.
pub open spec fn near(e: ElemView, x: int, y: int) -> bool {
    abs(e.0 - x) < 20 && abs(e.1 - y) < 20
}

/// The first element at or after `k` near `(x, y)`.
pub open spec fn first_near(els: Seq<(ElemView, bool)>, x: int, y: int, k: nat) -> Option<nat>
    decreases els.len() - k,
{
    if k >= els.len() {
        None
    } else if near(els[k as int].0, x, y) {
        Some(k)
    } else {
        first_near(els, x, y, k + 1)
    }
}

/// An earlier node has the same bounds string.
pub open spec fn seen_before(nodes: Seq<RawView>, i: int) -> bool {
    exists|j: int| 0 <= j < i && (#[trigger] nodes[j]).4 == nodes[i].4
}

/// First pass over the nodes from `i` on: the first node with a given
/// bounds string counts; its element joins the list unless one lies within
/// 20 pixels, in which case it replaces that one when it has text and the
/// other has none, or it is clickable and the other is not.
pub open spec fn pass1(nodes: Seq<RawView>, i: nat, els: Seq<(ElemView, bool)>) -> Seq<(ElemView, bool)>
    decreases nodes.len() - i,
{
    if i >= nodes.len() {
        els
    } else {
        let n = nodes[i as int];
        if seen_before(nodes, i as int) {
            pass1(nodes, i + 1, els)
        } else {
            match center_spec(n.4) {
                None => pass1(nodes, i + 1, els),
                Some((cx, cy)) => {
                    let e = (cx, cy, display_label(n), id_field(n), n.3);
                    let ht = label_of(n.0, n.1).len() > 0;
                    match first_near(els, cx, cy, 0) {
                        Some(idx) => {
                            let prefer = (ht && !els[idx as int].1) || (n.3 && !els[idx as int].0.4);
                            pass1(
                                nodes,
                                i + 1,
                                if prefer {
                                    els.update(idx as int, (e, ht))
                                } else {
                                    els
                                },
                            )
                        },
                        None => pass1(nodes, i + 1, els.push((e, ht))),
                    }
                },
            }
        }
    }
}

/// A clickable node that lands within 20 pixels of a kept element that is
/// not clickable takes that element's place: whatever else the two carry
/// (text on both, say), the element kept at that spot is then clickable
/// and sits at the new node's centre, and nothing else in the list moves.
pub proof fn law_clickable_node_replaces_nearby(
    nodes: Seq<RawView>,
    i: nat,
    els: Seq<(ElemView, bool)>,
    cx: int,
    cy: int,
    idx: nat,
)
    requires
        i < nodes.len(),
        !seen_before(nodes, i as int),
        center_spec(nodes[i as int].4) == Some((cx, cy)),
        first_near(els, cx, cy, 0) == Some(idx),
        nodes[i as int].3,
        !els[idx as int].0.4,
    ensures
        exists|k: (ElemView, bool)|
            k.0.4 && k.0.0 == cx && k.0.1 == cy && pass1(nodes, i, els) == pass1(
                nodes,
                i + 1,
                #[trigger] els.update(idx as int, k),
            ),
{
    let n = nodes[i as int];
    let k = ((cx, cy, display_label(n), id_field(n), n.3), label_of(n.0, n.1).len() > 0);
    assert(pass1(nodes, i, els) == pass1(nodes, i + 1, els.update(idx as int, k)));
}

/// A clickable element is not displaced by a nearby node that is not
/// clickable, unless that node brings a label the element lacks: then the
/// list is left as it was, and the element stays clickable.
pub proof fn law_clickable_element_stays(
    nodes: Seq<RawView>,
    i: nat,
    els: Seq<(ElemView, bool)>,
    cx: int,
    cy: int,
    idx: nat,
)
    requires
        i < nodes.len(),
        !seen_before(nodes, i as int),
        center_spec(nodes[i as int].4) == Some((cx, cy)),
        first_near(els, cx, cy, 0) == Some(idx),
        !nodes[i as int].3,
        els[idx as int].0.4,
        !(label_of(nodes[i as int].0, nodes[i as int].1).len() > 0 && !els[idx as int].1),
    ensures
        pass1(nodes, i, els) == pass1(nodes, i + 1, els),
{
}

/// A labelled node that lands within 20 pixels of a kept element without a
/// label takes its place: the element kept there then carries the node's
/// label and sits at its centre.
pub proof fn law_labelled_node_replaces_nearby(
    nodes: Seq<RawView>,
    i: nat,
    els: Seq<(ElemView, bool)>,
    cx: int,
    cy: int,
    idx: nat,
)
    requires
        i < nodes.len(),
        !seen_before(nodes, i as int),
        center_spec(nodes[i as int].4) == Some((cx, cy)),
        first_near(els, cx, cy, 0) == Some(idx),
        label_of(nodes[i as int].0, nodes[i as int].1).len() > 0,
        !els[idx as int].1,
    ensures
        exists|k: (ElemView, bool)|
            k.1 && k.0.2 == label_of(nodes[i as int].0, nodes[i as int].1) && k.0.0 == cx && k.0.1
                == cy && pass1(nodes, i, els) == pass1(nodes, i + 1, #[trigger] els.update(idx as int, k)),
{
    let n = nodes[i as int];
    let k = ((cx, cy, display_label(n), id_field(n), n.3), true);
    assert(pass1(nodes, i, els) == pass1(nodes, i + 1, els.update(idx as int, k)));
}

/// Elements share a key when they have the same label in the same 30-pixel
/// column.
pub open spec fn same_key(a: ElemView, b: ElemView) -> bool {
    a.2 == b.2 && a.0 / 30 == b.0 / 30
}

pub open spec fn first_key(res: Seq<ElemView>, e: ElemView, k: nat) -> Option<nat>
    decreases res.len() - k,
{
    if k >= res.len() {
        None
    } else if same_key(res[k as int], e) {
        Some(k)
    } else {
        first_key(res, e, k + 1)
    }
}

/// Second pass: one element per key; an element with an id replaces a
/// kept one without.
pub open spec fn pass2(els: Seq<(ElemView, bool)>, i: nat, res: Seq<ElemView>) -> Seq<ElemView>
    decreases els.len() - i,
{
    if i >= els.len() {
        res
    } else {
        let e = els[i as int].0;
        match first_key(res, e, 0) {
            Some(idx) => pass2(
                els,
                i + 1,
                if e.3.len() > 0 && res[idx as int].3.len() == 0 {
                    res.update(idx as int, e)
                } else {
                    res
                },
            ),
            None => pass2(els, i + 1, res.push(e)),
        }
    }
}

/// The element list of the nodes.
pub open spec fn dedup_spec(nodes: Seq<RawView>) -> Seq<ElemView> {
    pass2(pass1(nodes, 0, seq![]), 0, seq![])
}

/// Every node's bounds give centers that fit in `i32`.
pub open spec fn all_centers_fit(nodes: Seq<RawView>) -> bool {
    forall|i: int| 0 <= i < nodes.len() ==> center_fits((#[trigger] nodes[i]).4)
}

fn seen_before_exec(nodes: &Vec<RawNode>, i: usize) -> (r: bool)
    requires
        i < nodes@.len(),
    ensures
        r == seen_before(raw_views(nodes@), i as int),
{
    let ghost nv = raw_views(nodes@);
    let mut j: usize = 0;
    while j < i
        invariant
            j <= i < nodes@.len(),
            nv == raw_views(nodes@),
            forall|k: int| 0 <= k < j ==> nv[k].4 != nv[i as int].4,
        decreases i - j,
    {
        if str_eq(nodes[j].bounds.as_str(), nodes[i].bounds.as_str()) {
            assert(nv[j as int].4 == nv[i as int].4);
            return true;
        }
        j = j + 1;
    }
    false
}

fn abs_diff_lt_20(a: i32, b: i32) -> (r: bool)
    requires
        a >= 0,
        b >= 0,
    ensures
        r == (abs(a - b) < 20),
{
    if a >= b {
        a - b < 20
    } else {
        b - a < 20
    }
}

fn first_near_exec(els: &Vec<(Element, bool)>, x: i32, y: i32) -> (r: Option<usize>)
    requires
        x >= 0,
        y >= 0,
        forall|k: int| 0 <= k < els@.len() ==> (#[trigger] els@[k]).0.x >= 0 && els@[k].0.y >= 0,
    ensures
        match r {
            Some(i) => first_near(tagged_view(els@), x as int, y as int, 0) == Some(i as nat) && i
                < els@.len(),
            None => first_near(tagged_view(els@), x as int, y as int, 0) is None,
        },
{
    let ghost tv = tagged_view(els@);
    let mut k: usize = 0;
    while k < els.len()
        invariant
            k <= els@.len(),
            x >= 0,
            y >= 0,
            tv == tagged_view(els@),
            forall|j: int| 0 <= j < els@.len() ==> (#[trigger] els@[j]).0.x >= 0 && els@[j].0.y >= 0,
            first_near(tv, x as int, y as int, 0) == first_near(tv, x as int, y as int, k as nat),
        decreases els@.len() - k,
    {
        let e = &els[k].0;
        assert(e.x >= 0 && e.y >= 0);
        if abs_diff_lt_20(e.x, x) && abs_diff_lt_20(e.y, y) {
            return Some(k);
        }
        k = k + 1;
    }
    None
}

fn first_key_exec(res: &Vec<Element>, e: &Element) -> (r: Option<usize>)
    requires
        e.x >= 0,
        forall|k: int| 0 <= k < res@.len() ==> (#[trigger] res@[k]).x >= 0,
    ensures
        match r {
            Some(i) => first_key(elems_view(res@), elem_view(*e), 0) == Some(i as nat) && i
                < res@.len(),
            None => first_key(elems_view(res@), elem_view(*e), 0) is None,
        },
{
    let ghost rv = elems_view(res@);
    let mut k: usize = 0;
    while k < res.len()
        invariant
            k <= res@.len(),
            e.x >= 0,
            rv == elems_view(res@),
            forall|j: int| 0 <= j < res@.len() ==> (#[trigger] res@[j]).x >= 0,
            first_key(rv, elem_view(*e), 0) == first_key(rv, elem_view(*e), k as nat),
        decreases res@.len() - k,
    {
        let r = &res[k];
        if str_eq(r.label.as_str(), e.label.as_str()) && r.x / 30 == e.x / 30 {
            return Some(k);
        }
        k = k + 1;
    }
    None
}

fn make_element(n: &RawNode, cx: i32, cy: i32) -> (r: (Element, bool))
    ensures
        elem_view(r.0) == (cx as int, cy as int, display_label(raw_view(*n)), id_field(raw_view(*n)), n.clickable),
        r.1 == (label_of(n.text@, n.desc@).len() > 0),
{
    let sid = short_id(n.resource_id.as_str());
    let label_text: &str = if !n.text.as_str().is_empty() {
        n.text.as_str()
    } else if !n.desc.as_str().is_empty() {
        n.desc.as_str()
    } else {
        proof {
            reveal_strlit("");
        }
        ""
    };
    let has_text = !label_text.is_empty();
    let display = if has_text {
        String::from_str(label_text)
    } else {
        copy_string(&sid)
    };
    let id_f = if !sid.as_str().is_empty() && !str_eq(sid.as_str(), display.as_str()) {
        sid
    } else {
        String::new()
    };
    (Element { x: cx, y: cy, label: display, id: id_f, clickable: n.clickable }, has_text)
}

/// The element list of a set of nodes: one element per distinct bounds,
/// merged when within 20 pixels, then one per label and 30-pixel column.
pub fn dedup(nodes: &Vec<RawNode>) -> (r: Vec<Element>)
    requires
        all_centers_fit(raw_views(nodes@)),
    ensures
        elems_view(r@) == dedup_spec(raw_views(nodes@)),
{
    let ghost nv = raw_views(nodes@);
    let mut els: Vec<(Element, bool)> = Vec::new();
    let mut i: usize = 0;
    assert(tagged_view(els@) =~= Seq::<(ElemView, bool)>::empty());
    while i < nodes.len()
        invariant
            i <= nodes@.len(),
            nv == raw_views(nodes@),
            all_centers_fit(nv),
            forall|k: int| 0 <= k < els@.len() ==> (#[trigger] els@[k]).0.x >= 0 && els@[k].0.y >= 0,
            pass1(nv, 0, seq![]) == pass1(nv, i as nat, tagged_view(els@)),
        decreases nodes@.len() - i,
    {
        let ghost before = tagged_view(els@);
        if !seen_before_exec(nodes, i) {
            assert(center_fits(nv[i as int].4));
            match center(nodes[i].bounds.as_str()) {
                None => {},
                Some((cx, cy)) => {
                    let (elem, ht) = make_element(&nodes[i], cx, cy);
                    match first_near_exec(&els, cx, cy) {
                        Some(idx) => {
                            let prefer = (ht && !els[idx].1) || (nodes[i].clickable
                                && !els[idx].0.clickable);
                            if prefer {
                                els.set(idx, (elem, ht));
                                assert(tagged_view(els@) =~= before.update(
                                    idx as int,
                                    (elem_view(elem), ht),
                                ));
                            }
                        },
                        None => {
                            els.push((elem, ht));
                            assert(tagged_view(els@) =~= before.push((elem_view(elem), ht)));
                        },
                    }
                },
            }
        }
        i = i + 1;
    }
    let mut res: Vec<Element> = Vec::new();
    let ghost ev = tagged_view(els@);
    let mut j: usize = 0;
    assert(elems_view(res@) =~= Seq::<ElemView>::empty());
    while j < els.len()
        invariant
            j <= els@.len(),
            ev == tagged_view(els@),
            forall|k: int| 0 <= k < els@.len() ==> (#[trigger] els@[k]).0.x >= 0 && els@[k].0.y >= 0,
            forall|k: int| 0 <= k < res@.len() ==> (#[trigger] res@[k]).x >= 0,
            pass2(ev, 0, seq![]) == pass2(ev, j as nat, elems_view(res@)),
        decreases els@.len() - j,
    {
        let e = els[j].0.copy();
        assert(elem_view(e) == ev[j as int].0);
        let ghost before = elems_view(res@);
        match first_key_exec(&res, &e) {
            Some(idx) => {
                if !e.id.as_str().is_empty() && res[idx].id.as_str().is_empty() {
                    res.set(idx, e);
                    assert(elems_view(res@) =~= before.update(idx as int, ev[j as int].0));
                }
            },
            None => {
                res.push(e);
                assert(elems_view(res@) =~= before.push(ev[j as int].0));
            },
        }
        j = j + 1;
    }
    res
}

/// The listable nodes of the tags, in document order.
pub fn nodes_from_tags(tags: &Vec<XmlTag>) -> (r: Vec<RawNode>)
    ensures
        raw_views(r@) == nodes_of(tag_views(tags@)),
{
    let ghost tv = tag_views(tags@);
    let mut out: Vec<RawNode> = Vec::new();
    let mut i: usize = 0;
    assert(raw_views(out@) =~= Seq::<RawView>::empty());
    while i < tags.len()
        invariant
            i <= tags@.len(),
            tv == tag_views(tags@),
            raw_views(out@) == nodes_of(tv.take(i as int)),
        decreases tags@.len() - i,
    {
        assert(tv.take(i + 1).drop_last() =~= tv.take(i as int));
        let ghost before = raw_views(out@);
        if str_eq(tags[i].name.as_str(), "node") {
            match parse_node(&tags[i].attrs) {
                Some(n) => {
                    out.push(n);
                    assert(raw_views(out@) =~= before.push(raw_view(out@.last())));
                },
                None => {},
            }
        }
        i = i + 1;
    }
    assert(tv.take(i as int) =~= tv);
    out
}

/// Whether the centers of all listable nodes of the tags fit in `i32`.
pub fn centers_fit(nodes: &Vec<RawNode>) -> (r: bool)
    ensures
        r == all_centers_fit(raw_views(nodes@)),
{
    let ghost nv = raw_views(nodes@);
    let mut i: usize = 0;
    while i < nodes.len()
        invariant
            i <= nodes@.len(),
            nv == raw_views(nodes@),
            forall|k: int| 0 <= k < i ==> center_fits((#[trigger] nv[k]).4),
        decreases nodes@.len() - i,
    {
        if !center_fits_exec(nodes[i].bounds.as_str()) {
            assert(!center_fits(nv[i as int].4));
            return false;
        }
        i = i + 1;
    }
    true
}

/// The element list of a uiautomator dump; `None` where a node's bounds
/// are so large that the center arithmetic would overflow `i32`.
pub fn parse(xml: &str) -> (r: Option<Vec<Element>>)
    ensures
        all_centers_fit(nodes_of(xml_tags_of(xml@))) ==> (r matches Some(v) && elems_view(v@)
            == dedup_spec(nodes_of(xml_tags_of(xml@)))),
        !all_centers_fit(nodes_of(xml_tags_of(xml@))) ==> r is None,
{
    let tags = read_xml_tags(xml);
    let nodes = nodes_from_tags(&tags);
    if !centers_fit(&nodes) {
        return None;
    }
    Some(dedup(&nodes))
}


/// The line `ui` prints for an element: `●` (clickable) or `○`, the
/// centre right-aligned in four columns, the label and the id in brackets
/// when there is one.
pub open spec fn element_line_spec(e: Element) -> Seq<char> {
    seq![if e.clickable { '\u{25cf}' } else { '\u{25cb}' }] + " ("@ + crate::text::pad_left(crate::text::decimal_int(e.x as int), 4)
        + ","@ + crate::text::pad_left(crate::text::decimal_int(e.y as int), 4) + ")  "@ + e.label@ + (if e.id@.len()
        == 0 {
        Seq::<char>::empty()
    } else {
        "  ["@ + e.id@ + "]"@
    })
}

pub fn element_line(e: &Element) -> (r: String)
    ensures
        r@ == element_line_spec(*e),
{
    let mut v: Vec<char> = Vec::new();
    v.push(if e.clickable { '\u{25cf}' } else { '\u{25cb}' });
    crate::text::push_str(&mut v, " (");
    let mut xs: Vec<char> = Vec::new();
    crate::text::push_i64(&mut xs, e.x as i64);
    crate::text::push_chars(&mut v, &crate::text::pad_left_vec(&xs, 4));
    crate::text::push_str(&mut v, ",");
    let mut ys: Vec<char> = Vec::new();
    crate::text::push_i64(&mut ys, e.y as i64);
    crate::text::push_chars(&mut v, &crate::text::pad_left_vec(&ys, 4));
    crate::text::push_str(&mut v, ")  ");
    crate::text::push_str(&mut v, e.label.as_str());
    if !e.id.as_str().is_empty() {
        crate::text::push_str(&mut v, "  [");
        crate::text::push_str(&mut v, e.id.as_str());
        crate::text::push_str(&mut v, "]");
    }
    assert(v@ =~= element_line_spec(*e));
    crate::text::string_of(&v)
}
} // verus!
