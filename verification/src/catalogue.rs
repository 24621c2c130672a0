//! Where a capture sits in a screen catalogue.
//!
//! A catalogue is a directory named `catalogue` holding one directory per
//! platform and, inside it, one per screen: `catalogue/android/discover/`.
use vstd::prelude::*;
use crate::text::{
    chars_eq, chars_of, chars_views, copy_string, join, join_chars, lemma_deep_view_chars, push_chars, push_str,
    split, split_vec, str_eq, string_of, lines, lines_vec, trim, trim_vec, trim_char, trim_char_vec, starts_with,
    starts_with_exec, copy_range,
};
use vstd::utf8::{encode_utf8, encode_scalar};

verus! {

/// The components of a path from its segments at `i` on: empty segments
/// are dropped, and so is `.` anywhere but at the very start.
pub open spec fn comps_from(segs: Seq<Seq<char>>, i: nat) -> Seq<Seq<char>>
    decreases segs.len() - i,
{
    if i >= segs.len() {
        seq![]
    } else {
        let s = segs[i as int];
        if s.len() == 0 || (s == seq!['.'] && i > 0) {
            comps_from(segs, i + 1)
        } else {
            seq![s] + comps_from(segs, i + 1)
        }
    }
}

/// `Path::components` of a Unix path, each as text: a leading `/` is the
/// root component `/`, then the non-empty segments, without `.` except as
/// the first component of a relative path.
pub open spec fn path_components(p: Seq<char>) -> Seq<Seq<char>> {
    if p.len() > 0 && p[0] == '/' {
        seq![seq!['/']] + comps_from(split(p, seq!['/']), 1)
    } else {
        comps_from(split(p, seq!['/']), 0)
    }
}

/// The path that collecting components into a `PathBuf` gives.
pub open spec fn collect_path(cs: Seq<Seq<char>>) -> Seq<char> {
    if cs.len() > 0 && cs[0] == seq!['/'] {
        seq!['/'] + join(cs.drop_first(), seq!['/'])
    } else {
        join(cs, seq!['/'])
    }
}

/// Index of the first `x` in `cs` at or after `i`.
pub open spec fn position_from(cs: Seq<Seq<char>>, x: Seq<char>, i: nat) -> Option<nat>
    decreases cs.len() - i,
{
    if i >= cs.len() {
        None
    } else if cs[i as int] == x {
        Some(i)
    } else {
        position_from(cs, x, i + 1)
    }
}

pub open spec fn is_platform(p: Seq<char>) -> bool {
    p == "android"@ || p == "ios"@ || p == "figma"@
}

/// The catalogue root and the entry key `{platform}/{screen}` of a file
/// written under `.../catalogue/{platform}/{screen}/`.
pub open spec fn catalogue_path(p: Seq<char>) -> Option<(Seq<char>, Seq<char>)> {
    let cs = path_components(p);
    match position_from(cs, "catalogue"@, 0) {
        None => None,
        Some(i) => if i + 2 >= cs.len() {
            None
        } else if is_platform(cs[i as int + 1]) {
            Some((collect_path(cs.take(i as int + 1)), cs[i as int + 1] + "/"@ + cs[i as int + 2]))
        } else {
            None
        },
    }
}

fn components(p: &str) -> (r: Vec<Vec<char>>)
    ensures
        chars_views(r@) == path_components(p@),
{
    let cs = chars_of(p);
    let slash: Vec<char> = vec!['/'];
    assert(slash@ =~= seq!['/']);
    let segs = split_vec(&cs, &slash);
    let ghost sv = split(p@, seq!['/']);
    let dot: Vec<char> = vec!['.'];
    assert(dot@ =~= seq!['.']);
    let rooted = cs.len() > 0 && cs[0] == '/';
    let mut r: Vec<Vec<char>> = Vec::new();
    if rooted {
        r.push(vec!['/']);
    }
    let start: usize = if rooted {
        1
    } else {
        0
    };
    assert(segs.deep_view().len() == segs@.len());
    let mut i: usize = start;
    assert(chars_views(r@) =~= if rooted {
        seq![seq!['/']]
    } else {
        Seq::<Seq<char>>::empty()
    });
    while i < segs.len()
        invariant
            segs.deep_view() == sv,
            segs.deep_view().len() == segs@.len(),
            dot@ == seq!['.'],
            start <= i,
            i <= segs@.len() || i == start,
            chars_views(r@) + comps_from(sv, i as nat) == (if rooted {
                seq![seq!['/']] + comps_from(sv, start as nat)
            } else {
                comps_from(sv, start as nat)
            }),
        decreases segs@.len() - i,
    {
        let seg = &segs[i];
        assert(seg@ == sv[i as int]) by {
            lemma_deep_view_chars(*seg);
        }
        let ghost before = r@;
        if seg.len() == 0 || (i > 0 && chars_eq(seg, &dot)) {
        } else {
            r.push(crate::text::copy_range(seg, 0, seg.len()));
            assert(seg@.subrange(0, seg@.len() as int) =~= seg@);
            assert(chars_views(r@) =~= chars_views(before) + seq![sv[i as int]]);
        }
        i = i + 1;
    }
    proof {
        assert(comps_from(sv, i as nat) == Seq::<Seq<char>>::empty());
        assert(chars_views(r@) + Seq::<Seq<char>>::empty() =~= chars_views(r@));
    }
    r
}

/// Detect the catalogue root and the entry key (such as `android/discover`)
/// of an output file path; `None` when the path has no `catalogue`
/// component followed by a known platform and a screen.
pub fn detect_catalogue_path(output: &str) -> (r: Option<(String, String)>)
    ensures
        match r {
            Some((root, key)) => catalogue_path(output@) == Some((root@, key@)),
            None => catalogue_path(output@) is None,
        },
{
    let cs = components(output);
    let ghost cv = chars_views(cs@);
    let cat = chars_of("catalogue");
    let mut i: usize = 0;
    while i < cs.len() && !chars_eq(&cs[i], &cat)
        invariant
            i <= cs@.len(),
            cat@ == "catalogue"@,
            cv == chars_views(cs@),
            position_from(cv, "catalogue"@, 0) == position_from(cv, "catalogue"@, i as nat),
        decreases cs@.len() - i,
    {
        i = i + 1;
    }
    if i >= cs.len() {
        return None;
    }
    assert(position_from(cv, "catalogue"@, 0) == Some(i as nat));
    if cs.len() - i <= 2 {
        return None;
    }
    let platform = &cs[i + 1];
    let screen = &cs[i + 2];
    let android = chars_of("android");
    let ios = chars_of("ios");
    let figma = chars_of("figma");
    if !(chars_eq(platform, &android) || chars_eq(platform, &ios) || chars_eq(platform, &figma)) {
        return None;
    }
    let mut key: Vec<char> = Vec::new();
    push_chars(&mut key, platform);
    push_str(&mut key, "/");
    push_chars(&mut key, screen);
    assert(key@ =~= cv[i + 1] + "/"@ + cv[i + 2]);
    let root_slash = cs[0].len() == 1 && cs[0][0] == '/';
    let mut parts: Vec<Vec<char>> = Vec::new();
    let first: usize = if root_slash {
        1
    } else {
        0
    };
    let mut j: usize = first;
    while j <= i
        invariant
            first <= j <= i + 1,
            i < cs.len(),
            first <= 1,
            cv == chars_views(cs@),
            chars_views(parts@) == cv.take(i as int + 1).subrange(first as int, j as int),
        decreases i + 1 - j,
    {
        let ghost before = parts@;
        parts.push(crate::text::copy_range(&cs[j], 0, cs[j].len()));
        assert(cs@[j as int]@.subrange(0, cs@[j as int]@.len() as int) =~= cs@[j as int]@);
        assert(chars_views(parts@) =~= chars_views(before).push(cv[j as int]));
        assert(cv.take(i as int + 1).subrange(first as int, j + 1) =~= cv.take(
            i as int + 1,
        ).subrange(first as int, j as int).push(cv[j as int]));
        j = j + 1;
    }
    let joined = join_chars(&parts, "/");
    let ghost taken = cv.take(i as int + 1);
    let mut root: Vec<char> = Vec::new();
    if root_slash {
        root.push('/');
    }
    push_chars(&mut root, &joined);
    proof {
        assert(seq!['/'] =~= "/"@) by {
            reveal_strlit("/");
        }
        assert(cv[0] == cs@[0]@);
        if root_slash {
            assert(cv[0] =~= seq!['/']);
            assert(taken.drop_first() =~= taken.subrange(1, i as int + 1));
            assert(root@ =~= seq!['/'] + join(taken.drop_first(), seq!['/']));
        } else {
            assert(cv[0] != seq!['/']);
            assert(taken.subrange(0, i as int + 1) =~= taken);
            assert(root@ =~= join(taken, seq!['/']));
        }
        assert(seq!['/'] =~= "/"@) by {
            reveal_strlit("/");
        }
    }
    Some((string_of(&root), string_of(&key)))
}

} // verus!

verus! {

/// A YAML value of the manifest that the library carries through untouched.
#[verifier::external_type_specification]
#[verifier::external_body]
pub struct ExYamlValue(serde_yaml::Value);

/// One screen of the catalogue, as its manifest records it.
pub struct Entry {
    pub last_captured: String,
    pub build: Option<String>,
    pub elements: Option<u64>,
    pub state: Option<String>,
    pub context: Option<serde_yaml::Value>,
    pub history_count: Option<u64>,
    pub regions: Option<u64>,
    pub source_frame: Option<String>,
}

/// The catalogue's `manifest.yaml`. Its entries are keyed by
/// `{platform}/{screen}`; a key occurs at most once (see `keys_unique`).
pub struct Manifest {
    pub version: u32,
    pub updated: String,
    pub project: Option<String>,
    pub tolerances: Option<serde_yaml::Value>,
    pub entries: Vec<(String, Entry)>,
}

/// No key occurs twice among the entries.
pub open spec fn keys_unique(es: Seq<(String, Entry)>) -> bool {
    forall|i: int, j: int| 0 <= i < j < es.len() ==> (#[trigger] es[i]).0@ != (#[trigger] es[j]).0@
}

/// Index of the first entry at or after `i` whose key is `key`.
pub open spec fn key_index_from(es: Seq<(String, Entry)>, key: Seq<char>, i: nat) -> Option<int>
    decreases es.len() - i,
{
    if i >= es.len() {
        None
    } else if es[i as int].0@ == key {
        Some(i as int)
    } else {
        key_index_from(es, key, i + 1)
    }
}

pub open spec fn key_index(es: Seq<(String, Entry)>, key: Seq<char>) -> Option<int> {
    key_index_from(es, key, 0)
}

/// A manifest with no entries, version 1, updated at `now`.
pub open spec fn is_new_manifest(m: Manifest, now: Seq<char>) -> bool {
    &&& m.version == 1
    &&& m.updated@ == now
    &&& m.project is None
    &&& m.tolerances is None
    &&& m.entries@.len() == 0
}

/// `new` is `old` captured again at `now`: with `counts` the element and
/// history counts are set, without them they are kept.
pub open spec fn recaptured(new: Entry, old: Entry, now: Seq<char>, counts: Option<(u64, u64)>) -> bool {
    &&& new.last_captured@ == now
    &&& new.build == old.build
    &&& new.state == old.state
    &&& new.context == old.context
    &&& new.regions == old.regions
    &&& new.source_frame == old.source_frame
    &&& match counts {
        Some((n, h)) => new.elements == Some(n) && new.history_count == Some(h),
        None => new.elements == old.elements && new.history_count == old.history_count,
    }
}

/// `e` is a first capture at `now`: in state `default`, with the counts
/// given or none.
pub open spec fn first_capture(e: Entry, now: Seq<char>, counts: Option<(u64, u64)>) -> bool {
    &&& e.last_captured@ == now
    &&& e.build is None
    &&& e.context is None
    &&& e.regions is None
    &&& e.source_frame is None
    &&& (match e.state {
        Some(s) => s@ == "default"@,
        None => false,
    })
    &&& match counts {
        Some((n, h)) => e.elements == Some(n) && e.history_count == Some(h),
        None => e.elements is None && e.history_count is None,
    }
}

/// `new` is `old` after a capture of the screen `key` at `now`: its entry
/// is captured again, or added at the end if there was none, and the
/// manifest is marked updated at `now`.
pub open spec fn recorded(old: Manifest, new: Manifest, key: Seq<char>, now: Seq<char>, counts: Option<(u64, u64)>) -> bool {
    let (o, n) = (old.entries@, new.entries@);
    &&& new.version == old.version
    &&& new.project == old.project
    &&& new.tolerances == old.tolerances
    &&& new.updated@ == now
    &&& match key_index(o, key) {
        Some(i) => {
            &&& n.len() == o.len()
            &&& forall|j: int| 0 <= j < o.len() && j != i ==> #[trigger] n[j] == o[j]
            &&& n[i].0 == o[i].0
            &&& recaptured(n[i].1, o[i].1, now, counts)
        },
        None => {
            &&& n.len() == o.len() + 1
            &&& n.take(o.len() as int) == o
            &&& n[o.len() as int].0@ == key
            &&& first_capture(n[o.len() as int].1, now, counts)
        },
    }
}

/// `Utc::now()` formatted as `%Y-%m-%dT%H:%M:%SZ`. It reads the clock, so
/// nothing is stated of it.
#[verifier::external_body]
fn utc_now() -> (r: String) {
    chrono::Utc::now().format("%Y-%m-%dT%H:%M:%SZ").to_string()
}

/// The manifest of a catalogue that has none yet, updated at `now`.
pub fn new_manifest_at(now: String) -> (m: Manifest)
    ensures
        is_new_manifest(m, now@),
{
    Manifest { version: 1, updated: now, project: None, tolerances: None, entries: Vec::new() }
}

/// The manifest of a catalogue that has none yet, updated now.
pub fn new_manifest() -> (m: Manifest)
    ensures
        exists|now: Seq<char>| is_new_manifest(m, now),
{
    new_manifest_at(utc_now())
}

/// Record a capture of screen `key` at `now` (see `recorded`).
pub fn record_capture(m: &mut Manifest, key: &str, now: String, counts: Option<(u64, u64)>)
    ensures
        recorded(*old(m), *final(m), key@, now@, counts),
        keys_unique(old(m).entries@) ==> keys_unique(final(m).entries@),
{
    let ghost o = old(m).entries@;
    let mut i: usize = 0;
    while i < m.entries.len() && !str_eq(m.entries[i].0.as_str(), key)
        invariant
            i <= m.entries@.len(),
            m.entries@ == o,
            key_index(o, key@) == key_index_from(o, key@, i as nat),
        decreases m.entries@.len() - i,
    {
        i = i + 1;
    }
    if i < m.entries.len() {
        assert(key_index(o, key@) == Some(i as int));
        let (k, mut e) = m.entries.remove(i);
        e.last_captured = copy_string(&now);
        match counts {
            Some((n, h)) => {
                e.elements = Some(n);
                e.history_count = Some(h);
            },
            None => {},
        }
        m.entries.insert(i, (k, e));
        proof {
            assert forall|j: int| 0 <= j < o.len() && j != i implies #[trigger] m.entries@[j] == o[j] by {
                if j < i {
                } else {
                }
            }
            assert forall|a: int, b: int| 0 <= a < b < o.len() && keys_unique(o) implies (#[trigger] m.entries@[a]).0@
                != (#[trigger] m.entries@[b]).0@ by {
                assert(m.entries@[a].0 == o[a].0);
                assert(m.entries@[b].0 == o[b].0);
                assert(o[a].0@ != o[b].0@);
            }
        }
    } else {
        assert(key_index(o, key@) is None);
        let (elements, history_count) = match counts {
            Some((n, h)) => (Some(n), Some(h)),
            None => (None, None),
        };
        let e = Entry {
            last_captured: copy_string(&now),
            build: None,
            elements,
            state: Some(String::from_str("default")),
            context: None,
            history_count,
            regions: None,
            source_frame: None,
        };
        m.entries.push((String::from_str(key), e));
        proof {
            assert(m.entries@.take(o.len() as int) =~= o);
            assert forall|a: int, b: int| 0 <= a < b < m.entries@.len() && keys_unique(o) implies (
            #[trigger] m.entries@[a]).0@ != (#[trigger] m.entries@[b]).0@ by {
                if b < o.len() {
                    assert(m.entries@[a] == o[a]);
                    assert(m.entries@[b] == o[b]);
                } else {
                    assert(m.entries@[a] == o[a]);
                    lemma_key_absent(o, key@, 0, a);
                }
            }
        }
    }
    m.updated = now;
}

proof fn lemma_key_absent(es: Seq<(String, Entry)>, key: Seq<char>, i: nat, a: int)
    requires
        key_index_from(es, key, i) is None,
        i <= a < es.len(),
    ensures
        es[a].0@ != key,
    decreases es.len() - i,
{
    if i < a {
        lemma_key_absent(es, key, i + 1, a);
    }
}

/// Update the manifest after a semantic capture of screen `key` with
/// `element_count` elements and `history_count` archived captures.
pub fn update_manifest_semantic(m: &mut Manifest, key: &str, element_count: u64, history_count: u64)
    ensures
        recorded(*old(m), *final(m), key@, final(m).updated@, Some((element_count, history_count))),
        keys_unique(old(m).entries@) ==> keys_unique(final(m).entries@),
{
    record_capture(m, key, utc_now(), Some((element_count, history_count)));
}

/// Update the manifest after a screenshot of screen `key`: its time
/// stamp, and nothing of its counts.
pub fn update_manifest_screenshot(m: &mut Manifest, key: &str)
    ensures
        recorded(*old(m), *final(m), key@, final(m).updated@, None),
        keys_unique(old(m).entries@) ==> keys_unique(final(m).entries@),
{
    record_capture(m, key, utc_now(), None);
}

} // verus!

verus! {

/// The time stamp that a semantic capture records on a line
/// `timestamp: "..."` among its first ten lines: the text after the colon,
/// trimmed and without the quotes round it.
pub open spec fn ts_from(ls: Seq<Seq<char>>, i: nat) -> Option<Seq<char>>
    decreases ls.len() - i,
{
    if i >= ls.len() || i >= 10 {
        None
    } else {
        let t = trim(ls[i as int]);
        if starts_with(t, "timestamp:"@) {
            Some(trim_char(trim_char(trim(t.skip(10)), '"'), '\''))
        } else {
            ts_from(ls, i + 1)
        }
    }
}

pub open spec fn timestamp_value(content: Seq<char>) -> Option<Seq<char>> {
    ts_from(lines(content), 0)
}

/// The characters of `s` other than `:` and `-`.
pub open spec fn without_seps(s: Seq<char>) -> Seq<char>
    decreases s.len(),
{
    if s.len() == 0 {
        s
    } else if s.last() == ':' || s.last() == '-' {
        without_seps(s.drop_last())
    } else {
        without_seps(s.drop_last()).push(s.last())
    }
}

/// Number of UTF-8 bytes of `s`.
pub open spec fn utf8_len(s: Seq<char>) -> nat {
    encode_utf8(s).len()
}

/// The first `n` bytes of `s` end on a character boundary.
pub open spec fn cuts_at(s: Seq<char>, n: nat) -> bool {
    exists|k: int| 0 <= k <= s.len() && #[trigger] utf8_len(s.take(k)) == n
}

/// The characters whose UTF-8 encoding is the first `n` bytes of `s`
/// (meaningful where `cuts_at(s, n)`).
pub open spec fn cut_at(s: Seq<char>, n: nat) -> Seq<char> {
    s.take(choose|k: int| 0 <= k <= s.len() && #[trigger] utf8_len(s.take(k)) == n)
}

/// The archive suffix of a capture: its time stamp without `:` and `-`,
/// cut to 13 bytes (`20260524T0049`).
pub open spec fn compact_stamp(ts: Seq<char>) -> Seq<char> {
    cut_at(without_seps(ts), 13)
}

/// The time stamp can be cut to 13 bytes (else the cut panics).
pub open spec fn stamp_cuts(content: Seq<char>) -> bool {
    match timestamp_value(content) {
        Some(ts) => cuts_at(without_seps(ts), 13),
        None => true,
    }
}

proof fn lemma_encode_concat(a: Seq<char>, b: Seq<char>)
    ensures
        encode_utf8(a + b) == encode_utf8(a) + encode_utf8(b),
    decreases a.len(),
{
    if a.len() == 0 {
        assert(a + b =~= b);
        assert(encode_utf8(a) =~= Seq::<u8>::empty());
        assert(encode_utf8(a) + encode_utf8(b) =~= encode_utf8(b));
    } else {
        lemma_encode_concat(a.drop_first(), b);
        assert((a + b).drop_first() =~= a.drop_first() + b);
        assert((a + b)[0] == a[0]);
        assert(encode_utf8(a + b) =~= encode_scalar(a[0] as u32) + encode_utf8(a.drop_first() + b));
    }
}

proof fn lemma_scalar_nonempty(c: char)
    ensures
        1 <= encode_scalar(c as u32).len() <= 4,
{
}

/// Byte counts of prefixes grow with the prefix, strictly.
proof fn lemma_utf8_len_take(s: Seq<char>, i: int, j: int)
    requires
        0 <= i <= j <= s.len(),
    ensures
        utf8_len(s.take(i)) + (j - i) <= utf8_len(s.take(j)),
        j == i + 1 ==> utf8_len(s.take(j)) == utf8_len(s.take(i)) + encode_scalar(s[i] as u32).len(),
    decreases j - i,
{
    if i < j {
        lemma_utf8_len_take(s, i, j - 1);
        assert(s.take(j) =~= s.take(j - 1) + seq![s[j - 1]]);
        lemma_encode_concat(s.take(j - 1), seq![s[j - 1]]);
        assert(seq![s[j - 1]].drop_first() =~= Seq::<char>::empty());
        assert(encode_utf8(seq![s[j - 1]]) =~= encode_scalar(s[j - 1] as u32) + encode_utf8(Seq::<char>::empty()));
        assert(encode_utf8(Seq::<char>::empty()) =~= Seq::<u8>::empty());
        lemma_scalar_nonempty(s[j - 1]);
    }
}

fn char_utf8_len(c: char) -> (r: usize)
    ensures
        r == encode_scalar(c as u32).len(),
{
    proof {
        vstd::utf8::char_is_scalar(c);
    }
    let u = c as u32;
    if u < 0x80 {
        1
    } else if u < 0x800 {
        2
    } else if u < 0x10000 {
        3
    } else {
        4
    }
}

/// The first `n` bytes of `s` as characters, when they end on a character
/// boundary.
fn cut_bytes(s: &[char], n: usize) -> (r: Option<Vec<char>>)
    requires
        n <= 64,
    ensures
        r is Some == cuts_at(s@, n as nat),
        r matches Some(v) ==> v@ == cut_at(s@, n as nat),
{
    let mut i: usize = 0;
    let mut b: usize = 0;
    assert(s@.take(0) =~= Seq::<char>::empty());
    while i < s.len() && b < n
        invariant
            i <= s@.len(),
            b == utf8_len(s@.take(i as int)),
            b <= n + 4,
            n <= 64,
            i > 0 ==> utf8_len(s@.take(i - 1)) < n,
        decreases s@.len() - i,
    {
        proof {
            lemma_utf8_len_take(s@, i as int, i + 1);
        }
        b = b + char_utf8_len(s[i]);
        i = i + 1;
    }
    if b == n {
        proof {
            assert(0 <= i <= s@.len() && utf8_len(s@.take(i as int)) == n);
            let k = choose|k: int| 0 <= k <= s@.len() && #[trigger] utf8_len(s@.take(k)) == n;
            if k < i {
                lemma_utf8_len_take(s@, k, i as int);
            } else if k > i {
                lemma_utf8_len_take(s@, i as int, k);
            }
        }
        Some(copy_range(s, 0, i))
    } else {
        proof {
            assert forall|k: int| 0 <= k <= s@.len() implies #[trigger] utf8_len(s@.take(k)) != n by {
                if k < i {
                    lemma_utf8_len_take(s@, k, i as int - 1);
                } else if k > i {
                    lemma_utf8_len_take(s@, i as int, k);
                }
            }
        }
        None
    }
}

fn drop_seps(s: &[char]) -> (r: Vec<char>)
    ensures
        r@ == without_seps(s@),
{
    let mut r: Vec<char> = Vec::new();
    let mut i: usize = 0;
    assert(s@.take(0) =~= Seq::<char>::empty());
    while i < s.len()
        invariant
            i <= s@.len(),
            r@ == without_seps(s@.take(i as int)),
        decreases s@.len() - i,
    {
        assert(s@.take(i + 1).drop_last() =~= s@.take(i as int));
        if s[i] != ':' && s[i] != '-' {
            r.push(s[i]);
        }
        i = i + 1;
    }
    assert(s@.take(s@.len() as int) =~= s@);
    r
}

fn timestamp_chars(content: &str) -> (r: Option<Vec<char>>)
    ensures
        match r {
            Some(v) => timestamp_value(content@) == Some(v@),
            None => timestamp_value(content@) is None,
        },
{
    let cs = crate::text::chars_of(content);
    let ls = lines_vec(&cs);
    let ghost lv = ls.deep_view();
    let key = crate::text::chars_of("timestamp:");
    proof {
        reveal_strlit("timestamp:");
    }
    let mut i: usize = 0;
    while i < ls.len() && i < 10
        invariant
            i <= ls@.len(),
            lv == ls.deep_view(),
            lv == lines(content@),
            lv.len() == ls@.len(),
            key@ == "timestamp:"@,
            key@.len() == 10,
            ts_from(lv, 0) == ts_from(lv, i as nat),
        decreases ls@.len() - i,
    {
        let t = trim_vec(&ls[i]);
        assert(t@ == trim(lv[i as int])) by {
            lemma_deep_view_chars(ls@[i as int]);
        }
        if starts_with_exec(&t, &key) {
            let rest = copy_range(&t, 10, t.len());
            assert(rest@ =~= t@.skip(10));
            let a = trim_vec(&rest);
            let b = trim_char_vec(&a, '"');
            let c = trim_char_vec(&b, '\'');
            assert(starts_with(trim(lv[i as int]), "timestamp:"@));
            assert(ts_from(lv, i as nat) == Some(c@));
            return Some(c);
        }
        i = i + 1;
    }
    None
}

/// Whether the time stamp of a semantic capture, if it has one, can be
/// cut to its archive suffix (`extract_timestamp` requires it).
pub fn timestamp_cuts(content: &str) -> (r: bool)
    ensures
        r == stamp_cuts(content@),
{
    match timestamp_chars(content) {
        Some(ts) => {
            let c = drop_seps(&ts);
            cut_bytes(&c, 13).is_some()
        },
        None => true,
    }
}

/// The archive suffix of a semantic capture, from the time stamp among
/// its first ten lines: `timestamp: "2026-05-24T00:49:16Z"` gives
/// `20260524T0049`; `None` without such a line.
pub fn extract_timestamp(content: &str) -> (r: Option<String>)
    requires
        stamp_cuts(content@),
    ensures
        match timestamp_value(content@) {
            Some(ts) => r matches Some(x) && x@ == compact_stamp(ts),
            None => r is None,
        },
{
    match timestamp_chars(content) {
        Some(ts) => {
            let c = drop_seps(&ts);
            match cut_bytes(&c, 13) {
                Some(v) => Some(string_of(&v)),
                None => None,
            }
        },
        None => None,
    }
}

} // verus!
