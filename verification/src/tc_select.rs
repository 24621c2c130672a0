//! Choosing test cases to run: those that failed before, those a change
//! affects, and the regressions of a run.
use vstd::prelude::*;
use crate::crawl::{law_sort_sorted_permutation, sort_strings, sort_strs, sorted_le};
use crate::registry::{lemma_str_lt_irrefl, lemma_str_lt_total, sorted_keys, str_lt};
use crate::test_spec::TestResult;
use crate::text::{
    chars_of, contains, contains_exec, ends_with, lines, lines_vec, lowercase, push_chars, push_str,
    replace, replace_exec, starts_with, starts_with_exec, str_eq, string_of, strings_view,
    to_lowercase, lemma_deep_view_chars,
};

verus! {

// ---------------------------------------------------------------------------
// Rerunning failed cases
// ---------------------------------------------------------------------------

/// A results-matrix entry calls for a rerun: an Android result other than
/// a pass, for a named test case.
pub fn rerun_wanted(platform: &str, result: &str, tc_id: &str) -> (r: bool)
    ensures
        r == (platform@ == "android"@ && result@ != "PASS"@ && tc_id@.len() > 0),
{
    str_eq(platform, "android") && !str_eq(result, "PASS") && tc_id.unicode_len() > 0
}

pub open spec fn spec_file_names_spec(tc_id: Seq<char>) -> (Seq<char>, Seq<char>) {
    let l = lowercase(tc_id);
    ("qa-"@ + replace(l, "tc-"@, seq![]) + ".yaml"@, l + ".yaml"@)
}

/// The two names the file of a test case is looked up by, in order:
/// `qa-<number>.yaml` and `<id>.yaml`, from the lower-cased id.
pub fn spec_file_names(tc_id: &str) -> (r: (String, String))
    ensures
        (r.0@, r.1@) == spec_file_names_spec(tc_id@),
{
    let lower = to_lowercase(tc_id);
    let l = chars_of(lower.as_str());
    let stripped = replace_exec(&l, &chars_of("tc-"), &Vec::new());
    let mut a: Vec<char> = Vec::new();
    push_str(&mut a, "qa-");
    push_chars(&mut a, &stripped);
    push_str(&mut a, ".yaml");
    let mut b: Vec<char> = Vec::new();
    push_chars(&mut b, &l);
    push_str(&mut b, ".yaml");
    (string_of(&a), string_of(&b))
}

pub open spec fn candidate_file_spec(fname: Seq<char>) -> bool {
    ends_with(fname, ".yaml"@) && !contains(fname, "suite"@) && !contains(fname, "results"@)
}

fn ends_with_str(s: &[char], p: &str) -> (r: bool)
    ensures
        r == ends_with(s@, p@),
{
    let pc = chars_of(p);
    if pc.len() > s.len() {
        return false;
    }
    let start = s.len() - pc.len();
    let tail = crate::text::copy_range(s, start, s.len());
    let ok = crate::text::chars_eq(&tail, &pc);
    assert(ok == (s@.subrange(start as int, s@.len() as int) == p@));
    ok
}

/// A file of the tests directory that may hold a test case: a YAML file
/// that is neither a suite nor a result.
pub fn candidate_spec_file(fname: &str) -> (r: bool)
    ensures
        r == candidate_file_spec(fname@),
{
    let f = chars_of(fname);
    ends_with_str(&f, ".yaml") && !contains_exec(&f, &chars_of("suite")) && !contains_exec(
        &f,
        &chars_of("results"),
    )
}

/// The file declares the test case `tc_id` (holds `id: <tc_id>`).
pub fn declares_tc(content: &str, tc_id: &str) -> (r: bool)
    ensures
        r == contains(content@, "id: "@ + tc_id@),
{
    let mut p: Vec<char> = Vec::new();
    push_str(&mut p, "id: ");
    push_str(&mut p, tc_id);
    contains_exec(&chars_of(content), &p)
}

/// `s` without the repeats of a string that follows an equal one
/// (`Vec::dedup`).
pub open spec fn dedup_spec(s: Seq<Seq<char>>) -> Seq<Seq<char>>
    decreases s.len(),
{
    if s.len() <= 1 {
        s
    } else if s.last() == s[s.len() - 2] {
        dedup_spec(s.drop_last())
    } else {
        dedup_spec(s.drop_last()).push(s.last())
    }
}

proof fn lemma_dedup_last(s: Seq<Seq<char>>)
    requires
        s.len() > 0,
    ensures
        dedup_spec(s).len() > 0,
        dedup_spec(s).last() == s.last(),
    decreases s.len(),
{
    if s.len() > 1 && s.last() == s[s.len() - 2] {
        lemma_dedup_last(s.drop_last());
    }
}

/// The paths in order, each once.
pub fn sorted_unique(specs: &Vec<String>) -> (r: Vec<String>)
    ensures
        strings_view(r@) == dedup_spec(sort_strs(strings_view(specs@))),
{
    let sorted = sort_strings(specs);
    let ghost sv = strings_view(sorted@);
    let mut r: Vec<String> = Vec::new();
    let mut i: usize = 0;
    while i < sorted.len()
        invariant
            i <= sorted@.len(),
            sv == strings_view(sorted@),
            strings_view(r@) == dedup_spec(sv.take(i as int)),
        decreases sorted@.len() - i,
    {
        let ghost t = sv.take(i + 1);
        assert(t.drop_last() =~= sv.take(i as int));
        assert(t.last() == sorted@[i as int]@);
        if i > 0 {
            assert(t[t.len() - 2] == sorted@[i - 1]@);
        }
        if i > 0 && str_eq(sorted[i].as_str(), sorted[i - 1].as_str()) {
        } else {
            let ghost before = r@;
            r.push(sorted[i].clone());
            assert(strings_view(r@) =~= strings_view(before).push(sorted@[i as int]@));
        }
        i = i + 1;
    }
    assert(sv.take(i as int) =~= sv);
    r
}

proof fn lemma_dedup_sorted_strict(s: Seq<Seq<char>>)
    requires
        sorted_le(s),
    ensures
        sorted_keys(dedup_spec(s)),
        forall|x: Seq<char>| s.contains(x) <==> #[trigger] dedup_spec(s).contains(x),
    decreases s.len(),
{
    if s.len() <= 1 {
        return;
    }
    let d = s.drop_last();
    assert(sorted_le(d)) by {
        assert forall|i: int, j: int| 0 <= i < j < d.len() implies !str_lt(#[trigger] d[j], #[trigger] d[i]) by {
            assert(d[i] == s[i] && d[j] == s[j]);
        }
    }
    lemma_dedup_sorted_strict(d);
    lemma_dedup_last(d);
    let dd = dedup_spec(d);
    if s.last() == s[s.len() - 2] {
        assert forall|x: Seq<char>| s.contains(x) <==> #[trigger] dedup_spec(s).contains(x) by {
            if s.contains(x) {
                let k = choose|k: int| 0 <= k < s.len() && s[k] == x;
                if k == s.len() - 1 {
                    assert(d[d.len() - 1] == x);
                    assert(d.contains(x));
                } else {
                    assert(d[k] == x);
                    assert(d.contains(x));
                }
            }
            if d.contains(x) {
                let k = choose|k: int| 0 <= k < d.len() && d[k] == x;
                assert(s[k] == x);
            }
        }
    } else {
        let last = s.last();
        let prev = s[s.len() - 2];
        assert(!str_lt(last, prev));
        lemma_str_lt_total(prev, last);
        assert(str_lt(prev, last));
        let r = dd.push(last);
        assert forall|i: int, j: int| 0 <= i < j < r.len() implies str_lt(#[trigger] r[i], #[trigger] r[j]) by {
            if j == r.len() - 1 {
                if i == dd.len() - 1 {
                    assert(r[i] == prev);
                } else {
                    assert(r[i] == dd[i]);
                    assert(str_lt(dd[i], dd[dd.len() - 1]));
                    crate::registry::lemma_str_lt_trans(dd[i], prev, last);
                }
            } else {
                assert(r[i] == dd[i] && r[j] == dd[j]);
            }
        }
        assert forall|x: Seq<char>| s.contains(x) <==> #[trigger] r.contains(x) by {
            if s.contains(x) {
                let k = choose|k: int| 0 <= k < s.len() && s[k] == x;
                if k == s.len() - 1 {
                    assert(r[r.len() - 1] == x);
                } else {
                    assert(d[k] == x);
                    assert(d.contains(x));
                    assert(dd.contains(x));
                    let m = choose|m: int| 0 <= m < dd.len() && dd[m] == x;
                    assert(r[m] == x);
                }
            }
            if r.contains(x) {
                let k = choose|k: int| 0 <= k < r.len() && r[k] == x;
                if k == r.len() - 1 {
                    assert(s[s.len() - 1] == x);
                } else {
                    assert(dd[k] == x);
                    assert(dd.contains(x));
                    assert(d.contains(x));
                    let m = choose|m: int| 0 <= m < d.len() && d[m] == x;
                    assert(s[m] == x);
                }
            }
        }
    }
}

/// The paths chosen for a rerun come out in order, each once, and none
/// is lost.
pub proof fn law_sorted_unique(specs: Seq<Seq<char>>)
    ensures
        sorted_keys(dedup_spec(sort_strs(specs))),
        forall|x: Seq<char>| specs.contains(x) <==> #[trigger] dedup_spec(sort_strs(specs)).contains(x),
{
    law_sort_sorted_permutation(specs);
    let s = sort_strs(specs);
    lemma_dedup_sorted_strict(s);
    assert forall|x: Seq<char>| specs.contains(x) <==> #[trigger] s.contains(x) by {
        assert(specs.to_multiset().count(x) == s.to_multiset().count(x));
        vstd::seq_lib::to_multiset_contains(specs, x);
        vstd::seq_lib::to_multiset_contains(s, x);
    }
}

// ---------------------------------------------------------------------------
// Regressions
// ---------------------------------------------------------------------------

/// A file of the results directory that records a run of `id`.
pub open spec fn result_file_spec(name: Seq<char>, id: Seq<char>) -> bool {
    starts_with(name, id + "-"@) && ends_with(name, ".yaml"@)
}

/// A recorded result says the case passed.
pub open spec fn recorded_pass_spec(content: Seq<char>) -> bool {
    contains(content, "status: PASS"@) || contains(content, "\"status\":\"PASS\""@)
}

/// The first matching file, in listing order, that could be read and
/// records a pass.
pub open spec fn passed_before(entries: Seq<(Seq<char>, Option<Seq<char>>)>, id: Seq<char>) -> bool {
    exists|k: int|
        #![trigger entries[k]]
        0 <= k < entries.len() && result_file_spec(entries[k].0, id) && (entries[k].1 matches Some(
            c,
        ) && recorded_pass_spec(c))
}

pub open spec fn entries_view(e: Seq<(String, Option<String>)>) -> Seq<
    (Seq<char>, Option<Seq<char>>),
> {
    e.map_values(|p: (String, Option<String>)| (p.0@, crate::text::opt_view(p.1)))
}

/// The regression lines of a run: one per failed case, in order, whose
/// results directory (`entries`: file names and, where readable, their
/// contents) holds an earlier passing result.
pub open spec fn regressions_spec(
    results: Seq<(Seq<char>, Seq<char>)>,
    entries: Seq<(Seq<char>, Option<Seq<char>>)>,
) -> Seq<Seq<char>>
    decreases results.len(),
{
    if results.len() == 0 {
        seq![]
    } else {
        let r = results.last();
        let prev = regressions_spec(results.drop_last(), entries);
        if r.1 == "FAIL"@ && passed_before(entries, r.0) {
            prev.push(r.0 + ": was PASS, now FAIL"@)
        } else {
            prev
        }
    }
}

pub open spec fn results_view(r: Seq<TestResult>) -> Seq<(Seq<char>, Seq<char>)> {
    r.map_values(|t: TestResult| (t.id@, t.status@))
}

fn result_file_exec(name: &str, id: &str) -> (r: bool)
    ensures
        r == result_file_spec(name@, id@),
{
    let n = chars_of(name);
    let mut p: Vec<char> = Vec::new();
    push_str(&mut p, id);
    push_str(&mut p, "-");
    starts_with_exec(&n, &p) && ends_with_str(&n, ".yaml")
}

/// A recorded result says the case passed.
pub fn recorded_pass(content: &str) -> (r: bool)
    ensures
        r == recorded_pass_spec(content@),
{
    let c = chars_of(content);
    contains_exec(&c, &chars_of("status: PASS")) || contains_exec(&c, &chars_of("\"status\":\"PASS\""))
}

fn passed_before_exec(entries: &[(String, Option<String>)], id: &str) -> (r: bool)
    ensures
        r == passed_before(entries_view(entries@), id@),
{
    let ghost ev = entries_view(entries@);
    let mut k: usize = 0;
    while k < entries.len()
        invariant
            k <= entries@.len(),
            ev == entries_view(entries@),
            forall|j: int|
                0 <= j < k ==> !(result_file_spec(#[trigger] ev[j].0, id@) && (ev[j].1 matches Some(c)
                    && recorded_pass_spec(c))),
        decreases entries@.len() - k,
    {
        let (name, content) = &entries[k];
        if result_file_exec(name.as_str(), id) {
            match content {
                Some(c) => {
                    if recorded_pass(c.as_str()) {
                        assert(ev[k as int] == (name@, Some(c@)));
                        return true;
                    }
                },
                None => {},
            }
        }
        assert(ev[k as int] == (name@, crate::text::opt_view(*content)));
        k = k + 1;
    }
    proof {
        if passed_before(ev, id@) {
            let j = choose|j: int|
                #![trigger ev[j]]
                0 <= j < ev.len() && result_file_spec(ev[j].0, id@) && (ev[j].1 matches Some(c)
                    && recorded_pass_spec(c));
            assert(!(result_file_spec(ev[j].0, id@) && (ev[j].1 matches Some(c)
                && recorded_pass_spec(c))));
        }
    }
    false
}

/// The failed cases of a run that passed in a recorded earlier run.
pub fn check_regressions(results: &[TestResult], entries: &[(String, Option<String>)]) -> (r: Vec<
    String,
>)
    ensures
        strings_view(r@) == regressions_spec(results_view(results@), entries_view(entries@)),
{
    let ghost rv = results_view(results@);
    let mut out: Vec<String> = Vec::new();
    let mut i: usize = 0;
    while i < results.len()
        invariant
            i <= results@.len(),
            rv == results_view(results@),
            strings_view(out@) == regressions_spec(rv.take(i as int), entries_view(entries@)),
        decreases results@.len() - i,
    {
        let res = &results[i];
        let ghost t = rv.take(i + 1);
        assert(t.drop_last() =~= rv.take(i as int));
        assert(t.last() == (res.id@, res.status@));
        if str_eq(res.status.as_str(), "FAIL") && passed_before_exec(entries, res.id.as_str()) {
            let mut v: Vec<char> = Vec::new();
            push_str(&mut v, res.id.as_str());
            push_str(&mut v, ": was PASS, now FAIL");
            let ghost before = out@;
            out.push(string_of(&v));
            assert(strings_view(out@) =~= strings_view(before).push(v@));
        }
        i = i + 1;
    }
    assert(rv.take(i as int) =~= rv);
    out
}

// ---------------------------------------------------------------------------
// Cases a change affects
// ---------------------------------------------------------------------------

/// The changed files `git diff --name-only` lists, one per line.
pub fn changed_files(diff_out: &str) -> (r: Vec<String>)
    ensures
        strings_view(r@) == lines(diff_out@),
{
    let ls = lines_vec(&chars_of(diff_out));
    let ghost lv = ls.deep_view();
    let mut r: Vec<String> = Vec::new();
    let mut i: usize = 0;
    while i < ls.len()
        invariant
            i <= ls@.len(),
            lv == ls.deep_view(),
            lv == lines(diff_out@),
            lv.len() == ls@.len(),
            strings_view(r@) == lv.take(i as int),
        decreases ls@.len() - i,
    {
        proof {
            lemma_deep_view_chars(ls[i as int]);
        }
        let ghost before = r@;
        r.push(string_of(&ls[i]));
        assert(strings_view(r@) =~= strings_view(before).push(lv[i as int]));
        assert(lv.take(i + 1) =~= lv.take(i as int).push(lv[i as int]));
        i = i + 1;
    }
    assert(lv.take(i as int) =~= lv);
    r
}

pub open spec fn app_source(f: Seq<char>) -> bool {
    ends_with(f, ".kt"@) || ends_with(f, ".java"@) || ends_with(f, ".xml"@) || ends_with(f, ".swift"@)
}

/// Some changed file is app source (Kotlin, Java, XML or Swift).
pub fn app_source_changed(files: &[String]) -> (r: bool)
    ensures
        r == exists|i: int| 0 <= i < files@.len() && app_source(#[trigger] files@[i]@),
{
    let mut i: usize = 0;
    while i < files.len()
        invariant
            i <= files@.len(),
            forall|j: int| 0 <= j < i ==> !app_source(#[trigger] files@[j]@),
        decreases files@.len() - i,
    {
        let f = chars_of(files[i].as_str());
        if ends_with_str(&f, ".kt") || ends_with_str(&f, ".java") || ends_with_str(&f, ".xml")
            || ends_with_str(&f, ".swift") {
            return true;
        }
        i = i + 1;
    }
    false
}

/// `acc` with `p` added at the end unless it is there.
pub open spec fn add_unique(acc: Seq<Seq<char>>, p: Seq<char>) -> Seq<Seq<char>> {
    if acc.contains(p) {
        acc
    } else {
        acc.push(p)
    }
}

/// The paths `dir/tc` of the first `n` cases added in turn.
pub open spec fn add_cases(acc: Seq<Seq<char>>, dir: Seq<char>, tcs: Seq<Seq<char>>, n: nat) -> Seq<
    Seq<char>,
>
    decreases n,
{
    if n == 0 || n > tcs.len() {
        acc
    } else {
        add_unique(add_cases(acc, dir, tcs, (n - 1) as nat), dir + "/"@ + tcs[n - 1])
    }
}

/// The cases of the first `n` map entries whose pattern occurs in `f`.
pub open spec fn add_for_file(
    acc: Seq<Seq<char>>,
    f: Seq<char>,
    dir: Seq<char>,
    map: Seq<(Seq<char>, Seq<Seq<char>>)>,
    n: nat,
) -> Seq<Seq<char>>
    decreases n,
{
    if n == 0 || n > map.len() {
        acc
    } else {
        let prev = add_for_file(acc, f, dir, map, (n - 1) as nat);
        let e = map[n - 1];
        if contains(f, e.0) {
            add_cases(prev, dir, e.1, e.1.len())
        } else {
            prev
        }
    }
}

/// `dir/tc` for each case that the map gives for a pattern found in a
/// changed file: each path once, in the order first reached (files in
/// order, then map entries in order, then cases in order).
pub open spec fn mapped_spec(
    files: Seq<Seq<char>>,
    dir: Seq<char>,
    map: Seq<(Seq<char>, Seq<Seq<char>>)>,
    n: nat,
) -> Seq<Seq<char>>
    decreases n,
{
    if n == 0 || n > files.len() {
        seq![]
    } else {
        add_for_file(mapped_spec(files, dir, map, (n - 1) as nat), files[n - 1], dir, map, map.len())
    }
}

pub open spec fn map_view(m: Seq<(String, Vec<String>)>) -> Seq<(Seq<char>, Seq<Seq<char>>)> {
    m.map_values(|e: (String, Vec<String>)| (e.0@, strings_view(e.1@)))
}

fn contains_string(acc: &Vec<String>, p: &str) -> (r: bool)
    ensures
        r == strings_view(acc@).contains(p@),
{
    let ghost av = strings_view(acc@);
    let mut i: usize = 0;
    while i < acc.len()
        invariant
            i <= acc@.len(),
            av == strings_view(acc@),
            forall|j: int| 0 <= j < i ==> av[j] != p@,
        decreases acc@.len() - i,
    {
        if str_eq(acc[i].as_str(), p) {
            assert(av[i as int] == p@);
            return true;
        }
        i = i + 1;
    }
    false
}

fn add_cases_exec(acc: &mut Vec<String>, dir: &str, tcs: &Vec<String>)
    ensures
        strings_view(final(acc)@) == add_cases(strings_view(old(acc)@), dir@, strings_view(tcs@), tcs@.len()),
{
    let ghost start = strings_view(acc@);
    let ghost tv = strings_view(tcs@);
    let mut i: usize = 0;
    while i < tcs.len()
        invariant
            i <= tcs@.len(),
            tv == strings_view(tcs@),
            strings_view(acc@) == add_cases(start, dir@, tv, i as nat),
        decreases tcs@.len() - i,
    {
        let mut v: Vec<char> = Vec::new();
        push_str(&mut v, dir);
        push_str(&mut v, "/");
        push_str(&mut v, tcs[i].as_str());
        let p = string_of(&v);
        if !contains_string(acc, p.as_str()) {
            let ghost before = strings_view(acc@);
            acc.push(p);
            assert(strings_view(acc@) =~= before.push(v@));
        }
        i = i + 1;
    }
}

/// The test-case paths the map assigns to the changed files (see
/// `mapped_spec`). Whether each path exists is for the caller to check.
pub fn mapped_tcs(files: &[String], map: &[(String, Vec<String>)], tests_dir: &str) -> (r: Vec<String>)
    ensures
        strings_view(r@) == mapped_spec(strings_view(files@), tests_dir@, map_view(map@), files@.len()),
{
    let ghost fv = strings_view(files@);
    let ghost mv = map_view(map@);
    let mut acc: Vec<String> = Vec::new();
    let mut i: usize = 0;
    assert(strings_view(acc@) =~= mapped_spec(fv, tests_dir@, mv, 0));
    while i < files.len()
        invariant
            i <= files@.len(),
            fv == strings_view(files@),
            mv == map_view(map@),
            strings_view(acc@) == mapped_spec(fv, tests_dir@, mv, i as nat),
        decreases files@.len() - i,
    {
        let f = chars_of(files[i].as_str());
        let ghost start = strings_view(acc@);
        let mut j: usize = 0;
        while j < map.len()
            invariant
                j <= map@.len(),
                i < files@.len(),
                f@ == files@[i as int]@,
                fv == strings_view(files@),
                mv == map_view(map@),
                strings_view(acc@) == add_for_file(start, f@, tests_dir@, mv, j as nat),
            decreases map@.len() - j,
        {
            let e = &map[j];
            assert(mv[j as int] == (e.0@, strings_view(e.1@)));
            if contains_exec(&f, &chars_of(e.0.as_str())) {
                add_cases_exec(&mut acc, tests_dir, &e.1);
            }
            j = j + 1;
        }
        i = i + 1;
    }
    acc
}

} // verus!
