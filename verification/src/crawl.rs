//! Screen discovery: the elements a semantic dump lists, and the
//! fingerprint that tells one screen from another.
use vstd::prelude::*;
use crate::registry::{str_less, str_lt};
use crate::text::{
    chars_of, contains, contains_exec, copy_range, lemma_deep_view_chars, lines, lines_vec, opt_view,
    push_chars, push_str, split, split_vec, starts_with, starts_with_exec, string_of, strings_view,
    trim, trim_char, trim_char_vec, trim_vec,
};

verus! {

/// An element of a screen as the crawler records it.
pub struct CrawlElement {
    pub content: String,
    pub element_type: String,
    pub id: Option<String>,
    pub bounds: Option<[i32; 4]>,
    pub clickable: bool,
}

/// Content, type, id and whether it can be tapped.
pub type CrawlView = (Seq<char>, Seq<char>, Option<Seq<char>>, bool);

pub open spec fn crawl_view(e: CrawlElement) -> CrawlView {
    (e.content@, e.element_type@, opt_view(e.id), e.clickable)
}

pub open spec fn crawl_views(v: Seq<CrawlElement>) -> Seq<CrawlView> {
    v.map_values(|e: CrawlElement| crawl_view(e))
}

// ---------------------------------------------------------------------------
// The semantic dump
// ---------------------------------------------------------------------------

/// `s` with every leading copy of `p` removed (`str::trim_start_matches`).
pub open spec fn strip_all_prefix(s: Seq<char>, p: Seq<char>) -> Seq<char>
    decreases s.len(),
{
    if p.len() > 0 && starts_with(s, p) {
        strip_all_prefix(s.skip(p.len() as int), p)
    } else {
        s
    }
}

/// Trimmed, then without surrounding double quotes.
pub open spec fn unquote(s: Seq<char>) -> Seq<char> {
    trim_char(trim(s), '"')
}

/// The text between the first and the second colon (`split(':').nth(1)`).
pub open spec fn second_field(t: Seq<char>) -> Seq<char> {
    let parts = split(t, seq![':']);
    if parts.len() > 1 {
        parts[1]
    } else {
        seq![]
    }
}

/// The element being read (content, type, id, clickable) and those done.
pub type ScanState = (Seq<char>, Seq<char>, Option<Seq<char>>, bool, Seq<CrawlView>);

/// An element is being read once it has a content or a type.
pub open spec fn pending(st: ScanState) -> bool {
    st.0.len() > 0 || st.1.len() > 0
}

/// The elements done, with the one being read if there is one.
pub open spec fn flushed(st: ScanState) -> Seq<CrawlView> {
    if pending(st) {
        st.4.push((st.0, st.1, st.2, st.3))
    } else {
        st.4
    }
}

/// One line of the dump: a `content:` line starts an element, `type:`,
/// `id:`/`platform_id:` and `clickable:` lines fill the current one.
pub open spec fn scan_line(st: ScanState, line: Seq<char>) -> ScanState {
    let t = trim(line);
    if starts_with(t, "- content:"@) || starts_with(t, "content:"@) {
        (
            unquote(strip_all_prefix(strip_all_prefix(t, "- content:"@), "content:"@)),
            seq![],
            if pending(st) {
                None
            } else {
                st.2
            },
            false,
            flushed(st),
        )
    } else if starts_with(t, "type:"@) {
        (st.0, unquote(t.skip("type:"@.len() as int)), st.2, st.3, st.4)
    } else if starts_with(t, "platform_id:"@) || starts_with(t, "id:"@) {
        let v = unquote(second_field(t));
        (
            st.0,
            st.1,
            if v.len() > 0 {
                Some(v)
            } else {
                st.2
            },
            st.3,
            st.4,
        )
    } else if starts_with(t, "clickable:"@) {
        (st.0, st.1, st.2, contains(t, "true"@), st.4)
    } else {
        st
    }
}

pub open spec fn scan_lines(ls: Seq<Seq<char>>) -> ScanState
    decreases ls.len(),
{
    if ls.len() == 0 {
        (seq![], seq![], None, false, seq![])
    } else {
        scan_line(scan_lines(ls.drop_last()), ls.last())
    }
}

/// The elements a semantic dump lists, in order.
pub open spec fn semantic_elements_spec(yaml: Seq<char>) -> Seq<CrawlView> {
    flushed(scan_lines(lines(yaml)))
}

fn strip_all_prefix_vec(s: &[char], p: &[char]) -> (r: Vec<char>)
    ensures
        r@ == strip_all_prefix(s@, p@),
{
    let mut cur = copy_range(s, 0, s.len());
    assert(cur@ =~= s@);
    if p.len() == 0 {
        return cur;
    }
    while starts_with_exec(&cur, p)
        invariant
            p@.len() > 0,
            strip_all_prefix(cur@, p@) == strip_all_prefix(s@, p@),
        decreases cur@.len(),
    {
        let next = copy_range(&cur, p.len(), cur.len());
        assert(next@ =~= cur@.skip(p@.len() as int));
        cur = next;
    }
    cur
}

fn unquote_vec(s: &[char]) -> (r: Vec<char>)
    ensures
        r@ == unquote(s@),
{
    let t = trim_vec(s);
    trim_char_vec(&t, '"')
}

fn element_of(content: &Vec<char>, ty: &Vec<char>, id: &Option<Vec<char>>, clickable: bool) -> (r:
    CrawlElement)
    ensures
        crawl_view(r) == (content@, ty@, match id {
            Some(v) => Some(v@),
            None => None::<Seq<char>>,
        }, clickable),
        r.bounds is None,
{
    CrawlElement {
        content: string_of(content),
        element_type: string_of(ty),
        id: match id {
            Some(v) => Some(string_of(v)),
            None => None,
        },
        bounds: None,
        clickable,
    }
}

pub open spec fn opt_chars(o: Option<Vec<char>>) -> Option<Seq<char>> {
    match o {
        Some(v) => Some(v@),
        None => None,
    }
}

/// The elements of a semantic dump: each `content:` line starts one, and
/// the `type:`, `id:` (or `platform_id:`) and `clickable:` lines after it
/// fill it in.
pub fn parse_semantic_elements(yaml: &str) -> (r: Vec<CrawlElement>)
    ensures
        crawl_views(r@) == semantic_elements_spec(yaml@),
        forall|i: int| 0 <= i < r@.len() ==> (#[trigger] r@[i]).bounds is None,
{
    let cs = chars_of(yaml);
    let ls = lines_vec(&cs);
    let ghost lv = ls.deep_view();
    let p_item = chars_of("- content:");
    let p_content = chars_of("content:");
    let p_type = chars_of("type:");
    let p_pid = chars_of("platform_id:");
    let p_id = chars_of("id:");
    let p_click = chars_of("clickable:");
    let p_true = chars_of("true");
    let colon = chars_of(":");
    proof {
        reveal_strlit(":");
    }
    let mut elements: Vec<CrawlElement> = Vec::new();
    let mut content: Vec<char> = Vec::new();
    let mut ty: Vec<char> = Vec::new();
    let mut id: Option<Vec<char>> = None;
    let mut clickable = false;
    let mut i: usize = 0;
    assert(lv.take(0) =~= Seq::<Seq<char>>::empty());
    while i < ls.len()
        invariant
            lv == ls.deep_view(),
            lv == lines(yaml@),
            lv.len() == ls@.len(),
            i <= ls@.len(),
            p_item@ == "- content:"@,
            p_content@ == "content:"@,
            p_type@ == "type:"@,
            p_pid@ == "platform_id:"@,
            p_id@ == "id:"@,
            p_click@ == "clickable:"@,
            p_true@ == "true"@,
            colon@ == seq![':'],
            (content@, ty@, opt_chars(id), clickable, crawl_views(elements@)) == scan_lines(
                lv.take(i as int),
            ),
            forall|j: int| 0 <= j < elements@.len() ==> (#[trigger] elements@[j]).bounds is None,
        decreases ls@.len() - i,
    {
        proof {
            lemma_deep_view_chars(ls[i as int]);
            assert(lv.take(i + 1).drop_last() =~= lv.take(i as int));
            assert(lv.take(i + 1).last() == ls@[i as int]@);
        }
        let ghost st = (content@, ty@, opt_chars(id), clickable, crawl_views(elements@));
        let t = trim_vec(&ls[i]);
        if starts_with_exec(&t, &p_item) || starts_with_exec(&t, &p_content) {
            let was_pending = content.len() > 0 || ty.len() > 0;
            if was_pending {
                let e = element_of(&content, &ty, &id, clickable);
                let ghost before = elements@;
                elements.push(e);
                assert(crawl_views(elements@) =~= crawl_views(before).push(crawl_view(e)));
                id = None;
            }
            let s1 = strip_all_prefix_vec(&t, &p_item);
            let s2 = strip_all_prefix_vec(&s1, &p_content);
            content = unquote_vec(&s2);
            ty = Vec::new();
            clickable = false;
            assert(ty@ =~= Seq::<char>::empty());
        } else if starts_with_exec(&t, &p_type) {
            let rest = copy_range(&t, p_type.len(), t.len());
            assert(rest@ =~= t@.skip("type:"@.len() as int));
            ty = unquote_vec(&rest);
        } else if starts_with_exec(&t, &p_pid) || starts_with_exec(&t, &p_id) {
            let parts = split_vec(&t, &colon);
            let ghost pv = parts.deep_view();
            let v = if parts.len() > 1 {
                proof {
                    lemma_deep_view_chars(parts[1]);
                }
                unquote_vec(&parts[1])
            } else {
                unquote_vec(&Vec::new())
            };
            proof {
                if parts@.len() <= 1 {
                    assert(second_field(t@) =~= Seq::<char>::empty());
                }
            }
            if v.len() > 0 {
                id = Some(v);
            }
        } else if starts_with_exec(&t, &p_click) {
            clickable = contains_exec(&t, &p_true);
        }
        assert((content@, ty@, opt_chars(id), clickable, crawl_views(elements@)) == scan_line(
            st,
            lv[i as int],
        ));
        i = i + 1;
    }
    assert(lv.take(i as int) =~= lv);
    if content.len() > 0 || ty.len() > 0 {
        let e = element_of(&content, &ty, &id, clickable);
        let ghost before = elements@;
        elements.push(e);
        assert(crawl_views(elements@) =~= crawl_views(before).push(crawl_view(e)));
    }
    elements
}

// ---------------------------------------------------------------------------
// Screen fingerprints
// ---------------------------------------------------------------------------

pub open spec fn fnv_step(h: u64, b: u8) -> u64 {
    (h ^ (b as u64)).wrapping_mul(0x100000001b3u64)
}

/// The FNV-1a fold of `bytes` from the state `h`.
pub open spec fn fnv_from(h: u64, bytes: Seq<u8>) -> u64
    decreases bytes.len(),
{
    if bytes.len() == 0 {
        h
    } else {
        fnv_from(fnv_step(h, bytes[0]), bytes.drop_first())
    }
}

/// 64-bit FNV-1a of `bytes`.
pub open spec fn fnv1a(bytes: Seq<u8>) -> u64 {
    fnv_from(0xcbf29ce484222325u64, bytes)
}

/// The 64-bit FNV-1a hash of the UTF-8 bytes of `s`.
pub fn md5_hash(s: &str) -> (r: u64)
    ensures
        r == fnv1a(vstd::utf8::encode_utf8(s@)),
{
    let b = s.as_bytes();
    let mut h: u64 = 0xcbf29ce484222325;
    let mut i: usize = 0;
    assert(b@.skip(0) =~= b@);
    while i < b.len()
        invariant
            i <= b@.len(),
            b@ == vstd::utf8::encode_utf8(s@),
            fnv_from(h, b@.skip(i as int)) == fnv1a(b@),
        decreases b@.len() - i,
    {
        assert(b@.skip(i as int).drop_first() =~= b@.skip(i + 1));
        assert(b@.skip(i as int)[0] == b@[i as int]);
        h = (h ^ (b[i] as u64)).wrapping_mul(0x100000001b3);
        i = i + 1;
    }
    assert(b@.skip(i as int) =~= Seq::<u8>::empty());
    h
}

pub open spec fn hex_digit(d: nat) -> char {
    if d == 0 {
        '0'
    } else if d == 1 {
        '1'
    } else if d == 2 {
        '2'
    } else if d == 3 {
        '3'
    } else if d == 4 {
        '4'
    } else if d == 5 {
        '5'
    } else if d == 6 {
        '6'
    } else if d == 7 {
        '7'
    } else if d == 8 {
        '8'
    } else if d == 9 {
        '9'
    } else if d == 10 {
        'a'
    } else if d == 11 {
        'b'
    } else if d == 12 {
        'c'
    } else if d == 13 {
        'd'
    } else if d == 14 {
        'e'
    } else {
        'f'
    }
}

/// Lower-case hexadecimal digits of `n` without leading zeros (`{:x}`).
pub open spec fn hex_nat(n: nat) -> Seq<char>
    decreases n,
{
    if n < 16 {
        seq![hex_digit(n)]
    } else {
        hex_nat(n / 16).push(hex_digit(n % 16))
    }
}

fn hex_digit_exec(d: u64) -> (c: char)
    requires
        d < 16,
    ensures
        c == hex_digit(d as nat),
{
    if d == 0 {
        '0'
    } else if d == 1 {
        '1'
    } else if d == 2 {
        '2'
    } else if d == 3 {
        '3'
    } else if d == 4 {
        '4'
    } else if d == 5 {
        '5'
    } else if d == 6 {
        '6'
    } else if d == 7 {
        '7'
    } else if d == 8 {
        '8'
    } else if d == 9 {
        '9'
    } else if d == 10 {
        'a'
    } else if d == 11 {
        'b'
    } else if d == 12 {
        'c'
    } else if d == 13 {
        'd'
    } else if d == 14 {
        'e'
    } else {
        'f'
    }
}

fn hex_vec(n: u64) -> (r: Vec<char>)
    ensures
        r@ == hex_nat(n as nat),
    decreases n,
{
    let c = hex_digit_exec(n % 16);
    if n < 16 {
        let mut r: Vec<char> = Vec::new();
        r.push(c);
        assert(r@ =~= seq![hex_digit(n as nat)]);
        r
    } else {
        let mut r = hex_vec(n / 16);
        r.push(c);
        r
    }
}

/// Where `x` goes into `s` from position `i` on: before the first element
/// greater than it.
pub open spec fn insert_pos(s: Seq<Seq<char>>, x: Seq<char>, i: nat) -> nat
    decreases s.len() - i,
{
    if i >= s.len() {
        s.len()
    } else if str_lt(x, s[i as int]) {
        i
    } else {
        insert_pos(s, x, i + 1)
    }
}

/// `s` in string order, equal strings in the order given
/// (what `Vec::sort` gives).
pub open spec fn sort_strs(s: Seq<Seq<char>>) -> Seq<Seq<char>>
    decreases s.len(),
{
    if s.len() == 0 {
        s
    } else {
        let p = sort_strs(s.drop_last());
        p.insert(insert_pos(p, s.last(), 0) as int, s.last())
    }
}

pub proof fn lemma_insert_pos_bound(s: Seq<Seq<char>>, x: Seq<char>, i: nat)
    requires
        i <= s.len(),
    ensures
        i <= insert_pos(s, x, i) <= s.len(),
    decreases s.len() - i,
{
    if i < s.len() && !str_lt(x, s[i as int]) {
        lemma_insert_pos_bound(s, x, i + 1);
    }
}

pub proof fn lemma_sort_len(s: Seq<Seq<char>>)
    ensures
        sort_strs(s).len() == s.len(),
    decreases s.len(),
{
    if s.len() > 0 {
        lemma_sort_len(s.drop_last());
        lemma_insert_pos_bound(sort_strs(s.drop_last()), s.last(), 0);
    }
}

/// No element is greater than one after it.
pub open spec fn sorted_le(s: Seq<Seq<char>>) -> bool {
    forall|i: int, j: int| 0 <= i < j < s.len() ==> !str_lt(#[trigger] s[j], #[trigger] s[i])
}

proof fn lemma_insert_pos_props(p: Seq<Seq<char>>, x: Seq<char>, i: nat)
    requires
        i <= p.len(),
    ensures
        forall|m: int| i <= m < insert_pos(p, x, i) ==> !str_lt(x, #[trigger] p[m]),
        insert_pos(p, x, i) < p.len() ==> str_lt(x, p[insert_pos(p, x, i) as int]),
    decreases p.len() - i,
{
    if i < p.len() && !str_lt(x, p[i as int]) {
        lemma_insert_pos_props(p, x, i + 1);
    }
}

proof fn lemma_insert_sorted(p: Seq<Seq<char>>, x: Seq<char>)
    requires
        sorted_le(p),
    ensures
        sorted_le(p.insert(insert_pos(p, x, 0) as int, x)),
{
    let k = insert_pos(p, x, 0) as int;
    lemma_insert_pos_bound(p, x, 0);
    lemma_insert_pos_props(p, x, 0);
    let q = p.insert(k, x);
    assert forall|a: int, b: int| 0 <= a < b < q.len() implies !str_lt(#[trigger] q[b], #[trigger] q[a]) by {
        if b < k {
            assert(q[a] == p[a] && q[b] == p[b]);
        } else if b == k {
            assert(q[a] == p[a]);
        } else if a > k {
            assert(q[a] == p[a - 1] && q[b] == p[b - 1]);
        } else if a == k {
            assert(q[b] == p[b - 1]);
            if str_lt(p[b - 1], x) {
                if b - 1 == k {
                    crate::registry::lemma_str_lt_asym(p[k], x);
                } else {
                    crate::registry::lemma_str_lt_trans(p[b - 1], x, p[k]);
                }
            }
        } else {
            assert(q[a] == p[a] && q[b] == p[b - 1]);
        }
    }
}

/// Sorting puts the strings in order and keeps each of them, as often as
/// it occurs.
pub proof fn law_sort_sorted_permutation(s: Seq<Seq<char>>)
    ensures
        sorted_le(sort_strs(s)),
        sort_strs(s).to_multiset() == s.to_multiset(),
    decreases s.len(),
{
    broadcast use vstd::seq_lib::to_multiset_insert, vstd::seq_lib::to_multiset_build;

    if s.len() > 0 {
        let d = s.drop_last();
        law_sort_sorted_permutation(d);
        let p = sort_strs(d);
        lemma_insert_pos_bound(p, s.last(), 0);
        lemma_insert_sorted(p, s.last());
        assert(s =~= d.push(s.last()));
    } else {
        assert(sort_strs(s) =~= s);
    }
}

/// The strings sorted.
pub fn sort_strings(v: &Vec<String>) -> (r: Vec<String>)
    ensures
        strings_view(r@) == sort_strs(strings_view(v@)),
{
    let ghost sv = strings_view(v@);
    let mut r: Vec<String> = Vec::new();
    let mut i: usize = 0;
    assert(sv.take(0) =~= Seq::<Seq<char>>::empty());
    while i < v.len()
        invariant
            i <= v@.len(),
            sv == strings_view(v@),
            strings_view(r@) == sort_strs(sv.take(i as int)),
        decreases v@.len() - i,
    {
        let ghost p = strings_view(r@);
        let x = &v[i];
        proof {
            lemma_sort_len(sv.take(i as int));
        }
        let mut j: usize = 0;
        while j < r.len() && !str_less(x.as_str(), r[j].as_str())
            invariant
                j <= r@.len(),
                p == strings_view(r@),
                insert_pos(p, x@, 0) == insert_pos(p, x@, j as nat),
            decreases r@.len() - j,
        {
            j = j + 1;
        }
        proof {
            assert(sv.take(i + 1).drop_last() =~= sv.take(i as int));
            assert(sv.take(i + 1).last() == x@);
            assert(insert_pos(p, x@, j as nat) == j);
        }
        r.insert(j, x.clone());
        assert(strings_view(r@) =~= p.insert(j as int, x@));
        i = i + 1;
    }
    assert(sv.take(i as int) =~= sv);
    r
}

/// What identifies an element in a fingerprint: its id (else its content)
/// and its type.
pub open spec fn fingerprint_item(e: CrawlView) -> Seq<char> {
    (match e.2 {
        Some(id) => id,
        None => e.0,
    }) + ":"@ + e.1
}

pub open spec fn fingerprint_items(activity: Seq<char>, els: Seq<CrawlView>) -> Seq<Seq<char>> {
    Seq::new(els.len(), |i: int| fingerprint_item(els[i])).push("activity:"@ + activity)
}

/// The screen id: the hash of the sorted items joined with `|`, in hexadecimal.
pub open spec fn fingerprint_spec(activity: Seq<char>, els: Seq<CrawlView>) -> Seq<char> {
    hex_nat(
        fnv1a(
            vstd::utf8::encode_utf8(
                crate::text::join(sort_strs(fingerprint_items(activity, els)), "|"@),
            ),
        ) as nat,
    )
}

/// The id of a screen with these elements under this activity.
pub fn fingerprint(activity: &str, elements: &[CrawlElement]) -> (r: String)
    ensures
        r@ == fingerprint_spec(activity@, crawl_views(elements@)),
{
    let ghost els = crawl_views(elements@);
    let ghost items = Seq::new(els.len(), |i: int| fingerprint_item(els[i]));
    let mut set: Vec<String> = Vec::new();
    let mut i: usize = 0;
    while i < elements.len()
        invariant
            i <= elements@.len(),
            els == crawl_views(elements@),
            items == Seq::new(els.len(), |i: int| fingerprint_item(els[i])),
            strings_view(set@) == items.take(i as int),
        decreases elements@.len() - i,
    {
        let e = &elements[i];
        let mut v: Vec<char> = Vec::new();
        match &e.id {
            Some(id) => push_str(&mut v, id.as_str()),
            None => push_str(&mut v, e.content.as_str()),
        }
        push_str(&mut v, ":");
        push_str(&mut v, e.element_type.as_str());
        let ghost before = set@;
        set.push(string_of(&v));
        assert(strings_view(set@) =~= strings_view(before).push(items[i as int]));
        assert(items.take(i + 1) =~= items.take(i as int).push(items[i as int]));
        i = i + 1;
    }
    assert(items.take(i as int) =~= items);
    let mut a: Vec<char> = Vec::new();
    push_str(&mut a, "activity:");
    push_str(&mut a, activity);
    let ghost before = set@;
    set.push(string_of(&a));
    assert(strings_view(set@) =~= fingerprint_items(activity@, els));
    let sorted = sort_strings(&set);
    let joined = crate::text::join_strings(&sorted, "|");
    let js = string_of(&joined);
    let h = md5_hash(js.as_str());
    string_of(&hex_vec(h))
}


/// The exclusion patterns of a comma-separated list: each piece trimmed
/// and lowercased.
pub open spec fn exclusion_patterns(exclude: Seq<char>) -> Seq<Seq<char>> {
    split(exclude, seq![',']).map_values(|p: Seq<char>| crate::text::lowercase(trim(p)))
}

/// An element the crawler may tap: clickable, its content free of every
/// excluded pattern (case-insensitively), and not tapped on this screen
/// yet.
pub open spec fn tappable(e: CrawlElement, pats: Seq<Seq<char>>, tapped: Seq<Seq<char>>) -> bool {
    &&& e.clickable
    &&& forall|k: int| 0 <= k < pats.len() ==> !contains(crate::text::lowercase(e.content@), #[trigger] pats[k])
    &&& !tapped.contains(e.content@)
}

/// Index of the first tappable element at or after `i`.
pub open spec fn next_tap_from(es: Seq<CrawlElement>, pats: Seq<Seq<char>>, tapped: Seq<Seq<char>>, i: nat) -> Option<
    int,
>
    decreases es.len() - i,
{
    if i >= es.len() {
        None
    } else if tappable(es[i as int], pats, tapped) {
        Some(i as int)
    } else {
        next_tap_from(es, pats, tapped, i + 1)
    }
}

fn excluded_exec(content: &str, pats: &Vec<String>) -> (r: bool)
    ensures
        r == exists|k: int| 0 <= k < pats@.len() && contains(crate::text::lowercase(content@), #[trigger] strings_view(pats@)[k]),
{
    let low = crate::text::to_lowercase(content);
    let lc = chars_of(low.as_str());
    let mut k: usize = 0;
    while k < pats.len()
        invariant
            k <= pats@.len(),
            lc@ == crate::text::lowercase(content@),
            forall|j: int| 0 <= j < k ==> !contains(crate::text::lowercase(content@), #[trigger] strings_view(pats@)[j]),
        decreases pats@.len() - k,
    {
        if contains_exec(&lc, &chars_of(pats[k].as_str())) {
            assert(contains(crate::text::lowercase(content@), strings_view(pats@)[k as int]));
            return true;
        }
        k = k + 1;
    }
    false
}

fn tapped_exec(content: &str, tapped: &Vec<String>) -> (r: bool)
    ensures
        r == strings_view(tapped@).contains(content@),
{
    let mut k: usize = 0;
    while k < tapped.len()
        invariant
            k <= tapped@.len(),
            forall|j: int| 0 <= j < k ==> strings_view(tapped@)[j] != content@,
        decreases tapped@.len() - k,
    {
        if crate::text::str_eq(tapped[k].as_str(), content) {
            assert(strings_view(tapped@)[k as int] == content@);
            return true;
        }
        k = k + 1;
    }
    false
}

/// The element the crawler taps next on a screen: the first tappable one
/// (see `tappable`), given the comma-separated exclusions and the contents
/// already tapped there.
pub fn next_tap(elements: &Vec<CrawlElement>, exclude: &str, tapped: &Vec<String>) -> (r: Option<usize>)
    ensures
        match next_tap_from(elements@, exclusion_patterns(exclude@), strings_view(tapped@), 0) {
            Some(k) => r matches Some(j) && j == k,
            None => r is None,
        },
{
    let ghost pv = exclusion_patterns(exclude@);
    let comma: Vec<char> = vec![','];
    assert(comma@ =~= seq![',']);
    let pieces = split_vec(&chars_of(exclude), &comma);
    let mut pats: Vec<String> = Vec::new();
    let mut j: usize = 0;
    assert(pieces.deep_view().len() == pieces@.len());
    while j < pieces.len()
        invariant
            j <= pieces@.len(),
            pieces.deep_view() == split(exclude@, seq![',']),
            pieces.deep_view().len() == pieces@.len(),
            pv == exclusion_patterns(exclude@),
            strings_view(pats@) == pv.take(j as int),
        decreases pieces@.len() - j,
    {
        proof {
            lemma_deep_view_chars(pieces@[j as int]);
        }
        let t = trim_vec(&pieces[j]);
        let low = crate::text::to_lowercase(string_of(&t).as_str());
        let ghost before = pats@;
        pats.push(low);
        assert(strings_view(pats@) =~= strings_view(before).push(pv[j as int]));
        assert(pv.take(j + 1) =~= pv.take(j as int).push(pv[j as int]));
        j = j + 1;
    }
    assert(pv.take(pv.len() as int) =~= pv);
    assert(strings_view(pats@) == pv);
    let ghost tv = strings_view(tapped@);
    let mut i: usize = 0;
    while i < elements.len()
        invariant
            i <= elements@.len(),
            strings_view(pats@) == pv,
            pv == exclusion_patterns(exclude@),
            tv == strings_view(tapped@),
            next_tap_from(elements@, pv, tv, 0) == next_tap_from(elements@, pv, tv, i as nat),
        decreases elements@.len() - i,
    {
        let e = &elements[i];
        if e.clickable && !excluded_exec(e.content.as_str(), &pats) && !tapped_exec(e.content.as_str(), tapped) {
            assert(tappable(elements@[i as int], pv, tv));
            return Some(i);
        }
        i = i + 1;
    }
    None
}
} // verus!
