//! Fixture interpolation: `{{fixtures.x.y}}` placeholders in a test case
//! are replaced by the values loaded from the fixtures file.
use vstd::prelude::*;
use crate::text::{
    chars_of, contains, contains_exec, decimal_nat, find, lemma_find_from_props, lemma_replace_absent,
    matches_at, parse_i64, parse_i64_exec, push_chars, push_str,
    push_u64, replace, replace_exec, str_eq, string_of,
};

verus! {

/// One placeholder and its value.
pub open spec fn pair_views(m: Seq<(String, String)>) -> Seq<(Seq<char>, Seq<char>)> {
    m.map_values(|p: (String, String)| (p.0@, p.1@))
}

/// `"pattern"` with its double quotes.
pub open spec fn quoted(p: Seq<char>) -> Seq<char> {
    seq!['"'] + p + seq!['"']
}

/// One placeholder applied: an integer value also replaces the quoted
/// placeholder (so `"{{id}}"` becomes a YAML number), then every bare
/// occurrence is replaced.
pub open spec fn interpolate_one(c: Seq<char>, pat: Seq<char>, rep: Seq<char>) -> Seq<char> {
    let c1 = if parse_i64(rep) is Some {
        replace(c, quoted(pat), rep)
    } else {
        c
    };
    replace(c1, pat, rep)
}

/// Every placeholder applied in turn, in the order of `m`.
pub open spec fn interpolate_all(c: Seq<char>, m: Seq<(Seq<char>, Seq<char>)>) -> Seq<char>
    decreases m.len(),
{
    if m.len() == 0 {
        c
    } else {
        interpolate_one(interpolate_all(c, m.drop_last()), m.last().0, m.last().1)
    }
}

/// Replace the placeholders of `map` in `content`, taking the entries in
/// the order given.
pub fn interpolate_raw(content: &str, map: &[(String, String)]) -> (r: String)
    ensures
        r@ == interpolate_all(content@, pair_views(map@)),
{
    let ghost mv = pair_views(map@);
    let mut result = chars_of(content);
    let mut i: usize = 0;
    while i < map.len()
        invariant
            i <= map@.len(),
            mv == pair_views(map@),
            result@ == interpolate_all(content@, mv.take(i as int)),
        decreases map@.len() - i,
    {
        let pat = chars_of(map[i].0.as_str());
        let rep = chars_of(map[i].1.as_str());
        let mut q: Vec<char> = Vec::new();
        q.push('"');
        push_chars(&mut q, &pat);
        q.push('"');
        assert(q@ =~= quoted(pat@));
        if parse_i64_exec(&rep).is_some() {
            result = replace_exec(&result, &q, &rep);
        }
        result = replace_exec(&result, &pat, &rep);
        assert(mv.take(i + 1).drop_last() =~= mv.take(i as int));
        assert(mv.take(i + 1).last() == (map@[i as int].0@, map@[i as int].1@));
        i = i + 1;
    }
    assert(mv.take(i as int) =~= mv);
    string_of(&result)
}

/// A pattern that does not occur in `c` does not occur quoted either.
proof fn lemma_quoted_absent(c: Seq<char>, p: Seq<char>)
    requires
        !contains(c, p),
    ensures
        !contains(c, quoted(p)),
{
    let q = quoted(p);
    lemma_find_from_props(c, p, 0);
    lemma_find_from_props(c, q, 0);
    if contains(c, q) {
        let k = find(c, q)->0 as int;
        assert(c.subrange(k, k + q.len())[0] == '"');
        assert(c.subrange(k + 1, k + 1 + p.len()) =~= q.subrange(1, 1 + p.len() as int));
        assert(q.subrange(1, 1 + p.len() as int) =~= p);
        assert(matches_at(c, p, k + 1));
    }
}

/// Interpolation leaves a text alone when none of the map's placeholders
/// occurs in it: a placeholder the map does not hold passes through as
/// it was written, neither dropped nor emptied.
pub proof fn law_missing_keys_pass_through(c: Seq<char>, m: Seq<(Seq<char>, Seq<char>)>)
    requires
        forall|i: int| 0 <= i < m.len() ==> #[trigger] m[i].0.len() > 0 && !contains(c, m[i].0),
    ensures
        interpolate_all(c, m) == c,
    decreases m.len(),
{
    if m.len() > 0 {
        let last = m.last();
        assert(m.drop_last().len() == m.len() - 1);
        assert forall|i: int| 0 <= i < m.drop_last().len() implies #[trigger] m.drop_last()[i].0.len()
            > 0 && !contains(c, m.drop_last()[i].0) by {
            assert(m.drop_last()[i] == m[i]);
        }
        law_missing_keys_pass_through(c, m.drop_last());
        assert(m[m.len() - 1].0.len() > 0);
        lemma_quoted_absent(c, last.0);
        lemma_replace_absent(c, quoted(last.0), last.1);
        lemma_replace_absent(c, last.0, last.1);
    }
}

// ---------------------------------------------------------------------------
// Fixture values
// ---------------------------------------------------------------------------

/// A value of a fixtures file or of an API response: an object with its
/// entries in order, a string, a number as it is written back, a boolean,
/// or anything else (null, arrays), which gives no placeholder.
pub enum FixtureValue {
    Object(Vec<(String, FixtureValue)>),
    Str(String),
    Number(String),
    Bool(bool),
    Other,
}

/// `{{prefix}}`
pub open spec fn placeholder(prefix: Seq<char>) -> Seq<char> {
    "{{"@ + prefix + "}}"@
}

pub open spec fn bool_text(b: bool) -> Seq<char> {
    if b {
        "true"@
    } else {
        "false"@
    }
}

/// The placeholders a value defines under `prefix`, in order: one per
/// string, number or boolean leaf, named by its dotted path.
pub open spec fn flat_pairs(prefix: Seq<char>, v: FixtureValue) -> Seq<(Seq<char>, Seq<char>)>
    decreases v, 0nat,
{
    match v {
        FixtureValue::Object(es) => {
            proof {
                assert(decreases_to!(v => es));
                assert(decreases_to!(es => es@));
            }
            flat_entries(prefix, es@, es@.len())
        },
        FixtureValue::Str(s) => seq![(placeholder(prefix), s@)],
        FixtureValue::Number(n) => seq![(placeholder(prefix), n@)],
        FixtureValue::Bool(b) => seq![(placeholder(prefix), bool_text(b))],
        FixtureValue::Other => seq![],
    }
}

/// The placeholders of the first `n` entries of an object.
pub open spec fn flat_entries(prefix: Seq<char>, es: Seq<(String, FixtureValue)>, n: nat) -> Seq<
    (Seq<char>, Seq<char>),
>
    decreases es, n,
{
    if n == 0 || n > es.len() {
        seq![]
    } else {
        let e = es[n - 1];
        proof {
            assert(decreases_to!(es => es[n - 1]));
        }
        flat_entries(prefix, es, (n - 1) as nat) + flat_pairs(prefix + "."@ + e.0@, e.1)
    }
}

/// Where key `k` sits in `m`, if it is there.
pub open spec fn key_pos<V>(m: Seq<(Seq<char>, V)>, k: Seq<char>) -> Option<nat>
    decreases m.len(),
{
    if m.len() == 0 {
        None
    } else if m.last().0 == k {
        Some((m.len() - 1) as nat)
    } else {
        key_pos(m.drop_last(), k)
    }
}

/// `m` with `k` set to `v`: replaced where `k` is, else added at the end.
pub open spec fn upsert<V>(m: Seq<(Seq<char>, V)>, k: Seq<char>, v: V) -> Seq<(Seq<char>, V)> {
    match key_pos(m, k) {
        Some(i) => m.update(i as int, (k, v)),
        None => m.push((k, v)),
    }
}

/// Each pair set in `m` in turn.
pub open spec fn upsert_all(m: Seq<(Seq<char>, Seq<char>)>, ps: Seq<(Seq<char>, Seq<char>)>) -> Seq<
    (Seq<char>, Seq<char>),
>
    decreases ps.len(),
{
    if ps.len() == 0 {
        m
    } else {
        upsert(upsert_all(m, ps.drop_last()), ps.last().0, ps.last().1)
    }
}

proof fn lemma_key_pos<V>(m: Seq<(Seq<char>, V)>, k: Seq<char>)
    ensures
        key_pos(m, k) matches Some(i) ==> i < m.len() && m[i as int].0 == k,
    decreases m.len(),
{
    if m.len() > 0 && m.last().0 != k {
        lemma_key_pos(m.drop_last(), k);
    }
}

fn key_pos_exec(m: &Vec<(String, String)>, k: &str) -> (r: Option<usize>)
    ensures
        match key_pos(pair_views(m@), k@) {
            Some(i) => r == Some(i as usize),
            None => r is None,
        },
{
    let ghost mv = pair_views(m@);
    let mut j = m.len();
    assert(mv.take(j as int) =~= mv);
    while j > 0
        invariant
            j <= m@.len(),
            mv == pair_views(m@),
            key_pos(mv, k@) == key_pos(mv.take(j as int), k@),
        decreases j,
    {
        let ghost t = mv.take(j as int);
        assert(t.drop_last() =~= mv.take(j - 1));
        assert(t.last() == (m@[j - 1].0@, m@[j - 1].1@));
        if str_eq(m[j - 1].0.as_str(), k) {
            return Some(j - 1);
        }
        j = j - 1;
    }
    None
}

/// Set `k` to `v` in the placeholder table.
pub fn upsert_pair(m: &mut Vec<(String, String)>, k: String, v: String)
    ensures
        pair_views(final(m)@) == upsert(pair_views(old(m)@), k@, v@),
{
    let ghost mv = pair_views(m@);
    match key_pos_exec(m, k.as_str()) {
        Some(i) => {
            proof {
                lemma_key_pos(mv, k@);
            }
            let ghost kv = k@;
            let ghost vv = v@;
            m.set(i, (k, v));
            assert(pair_views(m@) =~= mv.update(i as int, (kv, vv)));
            assert(upsert(mv, kv, vv) == mv.update(i as int, (kv, vv)));
        },
        None => {
            let ghost kv = k@;
            let ghost vv = v@;
            m.push((k, v));
            assert(pair_views(m@) =~= mv.push((kv, vv)));
            assert(upsert(mv, kv, vv) == mv.push((kv, vv)));
        },
    }
}

fn placeholder_of(prefix: &str) -> (r: String)
    ensures
        r@ == placeholder(prefix@),
{
    let mut v: Vec<char> = Vec::new();
    push_str(&mut v, "{{");
    push_str(&mut v, prefix);
    push_str(&mut v, "}}");
    string_of(&v)
}

fn dotted(prefix: &str, k: &str) -> (r: String)
    ensures
        r@ == prefix@ + "."@ + k@,
{
    let mut v: Vec<char> = Vec::new();
    push_str(&mut v, prefix);
    push_str(&mut v, ".");
    push_str(&mut v, k);
    string_of(&v)
}

/// The placeholders `val` defines under `prefix`, in order.
fn flat_pairs_exec(prefix: &str, val: &FixtureValue) -> (r: Vec<(String, String)>)
    ensures
        pair_views(r@) == flat_pairs(prefix@, *val),
    decreases val, 1nat,
{
    match val {
        FixtureValue::Object(es) => {
            proof {
                assert(decreases_to!(*val => (*val)->Object_0));
            }
            let r = flat_entries_exec(prefix, es, es.len());
            assert(flat_pairs(prefix@, *val) == flat_entries(prefix@, es@, es@.len()));
            r
        },
        FixtureValue::Str(s) => {
            let mut r: Vec<(String, String)> = Vec::new();
            r.push((placeholder_of(prefix), s.clone()));
            assert(pair_views(r@) =~= flat_pairs(prefix@, *val));
            r
        },
        FixtureValue::Number(n) => {
            let mut r: Vec<(String, String)> = Vec::new();
            r.push((placeholder_of(prefix), n.clone()));
            assert(pair_views(r@) =~= flat_pairs(prefix@, *val));
            r
        },
        FixtureValue::Bool(b) => {
            let t = if *b {
                String::from_str("true")
            } else {
                String::from_str("false")
            };
            let mut r: Vec<(String, String)> = Vec::new();
            r.push((placeholder_of(prefix), t));
            assert(pair_views(r@) =~= flat_pairs(prefix@, *val));
            r
        },
        FixtureValue::Other => {
            let r: Vec<(String, String)> = Vec::new();
            assert(pair_views(r@) =~= flat_pairs(prefix@, *val));
            r
        },
    }
}

/// The placeholders of the first `n` entries of an object under `prefix`.
fn flat_entries_exec(prefix: &str, es: &Vec<(String, FixtureValue)>, n: usize) -> (r: Vec<
    (String, String),
>)
    requires
        n <= es@.len(),
    ensures
        pair_views(r@) == flat_entries(prefix@, es@, n as nat),
    decreases es, n,
{
    if n == 0 {
        let r: Vec<(String, String)> = Vec::new();
        assert(pair_views(r@) =~= flat_entries(prefix@, es@, 0));
        return r;
    }
    let mut r = flat_entries_exec(prefix, es, n - 1);
    let p = dotted(prefix, es[n - 1].0.as_str());
    proof {
        assert(decreases_to!(*es => es@));
        assert(decreases_to!(es@ => es@[n - 1]));
        assert(decreases_to!(es@[n - 1] => es@[n - 1].1));
    }
    let mut more = flat_pairs_exec(p.as_str(), &es[n - 1].1);
    let ghost a = pair_views(r@);
    let ghost b = pair_views(more@);
    r.append(&mut more);
    assert(pair_views(r@) =~= a + b);
    r
}

/// Add the placeholders of `val` under `prefix` to the table `map`
/// (`{{prefix.key}}` for each leaf), replacing those already there.
pub fn flatten_fixtures(prefix: &str, val: &FixtureValue, map: &mut Vec<(String, String)>)
    ensures
        pair_views(final(map)@) == upsert_all(pair_views(old(map)@), flat_pairs(prefix@, *val)),
{
    let ps = flat_pairs_exec(prefix, val);
    let ghost pv = pair_views(ps@);
    let ghost start = pair_views(map@);
    let mut i: usize = 0;
    assert(pv.take(0) =~= Seq::<(Seq<char>, Seq<char>)>::empty());
    while i < ps.len()
        invariant
            i <= ps@.len(),
            pv == pair_views(ps@),
            pv == flat_pairs(prefix@, *val),
            pair_views(map@) == upsert_all(start, pv.take(i as int)),
        decreases ps@.len() - i,
    {
        upsert_pair(map, ps[i].0.clone(), ps[i].1.clone());
        assert(pv.take(i + 1).drop_last() =~= pv.take(i as int));
        assert(pv.take(i + 1).last() == (ps@[i as int].0@, ps@[i as int].1@));
        i = i + 1;
    }
    assert(pv.take(i as int) =~= pv);
}

proof fn lemma_upsert_all_append(
    m: Seq<(Seq<char>, Seq<char>)>,
    a: Seq<(Seq<char>, Seq<char>)>,
    b: Seq<(Seq<char>, Seq<char>)>,
)
    ensures
        upsert_all(m, a + b) == upsert_all(upsert_all(m, a), b),
    decreases b.len(),
{
    if b.len() == 0 {
        assert(a + b =~= a);
    } else {
        assert((a + b).drop_last() =~= a + b.drop_last());
        assert((a + b).last() == b.last());
        lemma_upsert_all_append(m, a, b.drop_last());
    }
}

// ---------------------------------------------------------------------------
// Resolving placeholders
// ---------------------------------------------------------------------------

/// The API responses by name, each value as it was recorded.
pub open spec fn api_view(m: Seq<(String, FixtureValue)>) -> Seq<(Seq<char>, FixtureValue)> {
    m.map_values(|p: (String, FixtureValue)| (p.0@, p.1))
}

/// The placeholders of one API response value applied to `r`: each string
/// or number leaf replaces `{{prefix.path}}`; booleans and other values
/// replace nothing.
pub open spec fn apply_value(r: Seq<char>, prefix: Seq<char>, v: FixtureValue) -> Seq<char>
    decreases v, 0nat,
{
    match v {
        FixtureValue::Object(es) => {
            proof {
                assert(decreases_to!(v => es));
                assert(decreases_to!(es => es@));
            }
            apply_entries(r, prefix, es@, es@.len())
        },
        FixtureValue::Str(s) => replace(r, placeholder(prefix), s@),
        FixtureValue::Number(n) => replace(r, placeholder(prefix), n@),
        _ => r,
    }
}

pub open spec fn apply_entries(
    r: Seq<char>,
    prefix: Seq<char>,
    es: Seq<(String, FixtureValue)>,
    n: nat,
) -> Seq<char>
    decreases es, n,
{
    if n == 0 || n > es.len() {
        r
    } else {
        proof {
            assert(decreases_to!(es => es[n - 1]));
        }
        apply_value(
            apply_entries(r, prefix, es, (n - 1) as nat),
            prefix + "."@ + es[n - 1].0@,
            es[n - 1].1,
        )
    }
}

/// Every API response applied in turn, in the order recorded.
pub open spec fn apply_api(r: Seq<char>, api: Seq<(Seq<char>, FixtureValue)>) -> Seq<char>
    decreases api.len(),
{
    if api.len() == 0 {
        r
    } else {
        let a = api.last();
        apply_value(apply_api(r, api.drop_last()), a.0, a.1)
    }
}

/// A template resolved at the time `ts` (milliseconds): `{{timestamp}}`
/// first, then the API responses, then the file fixtures, so that a
/// placeholder an API response fills is not taken from the file.
pub open spec fn resolve_spec(
    t: Seq<char>,
    file: Seq<(Seq<char>, Seq<char>)>,
    api: Seq<(Seq<char>, FixtureValue)>,
    ts: u64,
) -> Seq<char> {
    let r0 = if contains(t, "{{timestamp}}"@) {
        replace(t, "{{timestamp}}"@, decimal_nat(ts as nat))
    } else {
        t
    };
    interpolate_all(apply_api(r0, api), file)
}

fn apply_value_exec(r: &Vec<char>, prefix: &str, v: &FixtureValue) -> (out: Vec<char>)
    ensures
        out@ == apply_value(r@, prefix@, *v),
    decreases v, 1nat,
{
    match v {
        FixtureValue::Object(es) => {
            proof {
                assert(decreases_to!(*v => (*v)->Object_0));
            }
            let out = apply_entries_exec(r, prefix, es, es.len());
            assert(apply_value(r@, prefix@, *v) == apply_entries(r@, prefix@, es@, es@.len()));
            out
        },
        FixtureValue::Str(s) => {
            let p = chars_of(placeholder_of(prefix).as_str());
            replace_exec(r, &p, &chars_of(s.as_str()))
        },
        FixtureValue::Number(n) => {
            let p = chars_of(placeholder_of(prefix).as_str());
            replace_exec(r, &p, &chars_of(n.as_str()))
        },
        _ => r.clone(),
    }
}

fn apply_entries_exec(r: &Vec<char>, prefix: &str, es: &Vec<(String, FixtureValue)>, n: usize) -> (out:
    Vec<char>)
    requires
        n <= es@.len(),
    ensures
        out@ == apply_entries(r@, prefix@, es@, n as nat),
    decreases es, n,
{
    if n == 0 {
        return r.clone();
    }
    let before = apply_entries_exec(r, prefix, es, n - 1);
    let p = dotted(prefix, es[n - 1].0.as_str());
    proof {
        assert(decreases_to!(*es => es@));
        assert(decreases_to!(es@ => es@[n - 1]));
        assert(decreases_to!(es@[n - 1] => es@[n - 1].1));
    }
    apply_value_exec(&before, p.as_str(), &es[n - 1].1)
}

/// Placeholder values for templates: fixtures read from a file, and the
/// API responses recorded during a run, which take precedence.
pub struct FixtureResolver {
    file_fixtures: Vec<(String, String)>,
    api_responses: Vec<(String, FixtureValue)>,
}

impl FixtureResolver {
    pub closed spec fn file_view(&self) -> Seq<(Seq<char>, Seq<char>)> {
        pair_views(self.file_fixtures@)
    }

    pub closed spec fn api(&self) -> Seq<(Seq<char>, FixtureValue)> {
        api_view(self.api_responses@)
    }

    pub fn new(file_fixtures: Vec<(String, String)>) -> (r: Self)
        ensures
            r.file_view() == pair_views(file_fixtures@),
            r.api() == Seq::<(Seq<char>, FixtureValue)>::empty(),
    {
        let r = FixtureResolver { file_fixtures, api_responses: Vec::new() };
        assert(r.api() =~= Seq::<(Seq<char>, FixtureValue)>::empty());
        r
    }

    fn api_pos(&self, key: &str) -> (r: Option<usize>)
        ensures
            match key_pos(self.api(), key@) {
                Some(i) => r matches Some(j) && j == i,
                None => r is None,
            },
    {
        let ghost av = self.api();
        let mut j = self.api_responses.len();
        assert(av.take(j as int) =~= av);
        while j > 0
            invariant
                j <= self.api_responses@.len(),
                av == api_view(self.api_responses@),
                key_pos(av, key@) == key_pos(av.take(j as int), key@),
            decreases j,
        {
            let ghost t = av.take(j as int);
            assert(t.drop_last() =~= av.take(j - 1));
            assert(t.last() == (self.api_responses@[j - 1].0@, self.api_responses@[j - 1].1));
            if str_eq(self.api_responses[j - 1].0.as_str(), key) {
                return Some(j - 1);
            }
            j = j - 1;
        }
        None
    }

    /// Record the response of the API call named `key`, replacing an
    /// earlier one of that name.
    pub fn add_api_response(&mut self, key: &str, val: FixtureValue)
        ensures
            final(self).file_view() == old(self).file_view(),
            final(self).api() == upsert(old(self).api(), key@, val),
    {
        let ghost av = self.api();
        let ghost kv = key@;
        match self.api_pos(key) {
            Some(i) => {
                proof {
                    lemma_key_pos(av, key@);
                }
                let k = String::from_str(key);
                self.api_responses.set(i, (k, val));
                assert(self.api() =~= av.update(i as int, (kv, val)));
                assert(upsert(av, kv, val) == av.update(i as int, (kv, val)));
            },
            None => {
                let k = String::from_str(key);
                self.api_responses.push((k, val));
                assert(self.api() =~= av.push((kv, val)));
                assert(upsert(av, kv, val) == av.push((kv, val)));
            },
        }
    }

    /// The recorded response of the API call named `key`.
    pub fn get_var(&self, key: &str) -> (r: Option<&FixtureValue>)
        ensures
            match key_pos(self.api(), key@) {
                Some(i) => r matches Some(v) && *v == self.api()[i as int].1,
                None => r is None,
            },
    {
        match self.api_pos(key) {
            Some(i) => {
                proof {
                    lemma_key_pos(self.api(), key@);
                }
                let e = &self.api_responses[i];
                assert(self.api()[i as int] == (e.0@, e.1));
                assert(key_pos(self.api(), key@) == Some(i as nat));
                Some(&e.1)
            },
            None => None,
        }
    }

    pub fn file_fixtures(&self) -> (r: &Vec<(String, String)>)
        ensures
            pair_views(r@) == self.file_view(),
    {
        &self.file_fixtures
    }

    /// `template` with its placeholders filled, `{{timestamp}}` given as
    /// `ts` milliseconds.
    pub fn resolve_at(&self, template: &str, ts: u64) -> (r: String)
        ensures
            r@ == resolve_spec(template@, self.file_view(), self.api(), ts),
    {
        let t = chars_of(template);
        let tp = chars_of("{{timestamp}}");
        let mut result = if crate::text::contains_exec(&t, &tp) {
            let mut d: Vec<char> = Vec::new();
            push_u64(&mut d, ts);
            replace_exec(&t, &tp, &d)
        } else {
            t
        };
        let ghost r0 = result@;
        let ghost av = self.api();
        let mut i: usize = 0;
        assert(av.take(0) =~= Seq::<(Seq<char>, FixtureValue)>::empty());
        while i < self.api_responses.len()
            invariant
                i <= self.api_responses@.len(),
                av == api_view(self.api_responses@),
                result@ == apply_api(r0, av.take(i as int)),
            decreases self.api_responses@.len() - i,
        {
            result = apply_value_exec(&result, self.api_responses[i].0.as_str(), &self.api_responses[i].1);
            assert(av.take(i + 1).drop_last() =~= av.take(i as int));
            assert(av.take(i + 1).last() == (self.api_responses@[i as int].0@, self.api_responses@[i as int].1));
            i = i + 1;
        }
        assert(av.take(i as int) =~= av);
        let s = string_of(&result);
        interpolate_raw(s.as_str(), &self.file_fixtures)
    }

    /// `template` with its placeholders filled, `{{timestamp}}` by the
    /// clock's milliseconds since the Unix epoch.
    pub fn resolve(&self, template: &str) -> (r: String)
        ensures
            !contains(template@, "{{timestamp}}"@) ==> r@ == resolve_spec(
                template@,
                self.file_view(),
                self.api(),
                0,
            ),
            contains(template@, "{{timestamp}}"@) ==> exists|ts: u64|
                r@ == resolve_spec(template@, self.file_view(), self.api(), ts),
    {
        let t = chars_of(template);
        let ts = if crate::text::contains_exec(&t, &chars_of("{{timestamp}}")) {
            crate::test_timeout::clock_ms()
        } else {
            0
        };
        self.resolve_at(template, ts)
    }
}

} // verus!
