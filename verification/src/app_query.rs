//! What the `app` command reads from `dumpsys window`, `pm list packages`
//! and `aapt2 dump badging`.
use vstd::prelude::*;
use crate::text::{
    chars_of, contains, contains_exec, copy_range, is_ws, lemma_deep_view_chars, lines, lines_vec,
    matches_at, matches_at_exec, starts_with, starts_with_exec, string_of, strings_view, trim,
    trim_end_char, trim_end_char_vec, trim_vec,
};

verus! {

/// The trimmed lines that name the focused window or app.
pub open spec fn focus_lines_of(ls: Seq<Seq<char>>) -> Seq<Seq<char>>
    decreases ls.len(),
{
    if ls.len() == 0 {
        seq![]
    } else {
        let rest = focus_lines_of(ls.drop_last());
        let t = trim(ls.last());
        if contains(t, "mCurrentFocus"@) || contains(t, "mFocusedApp"@) {
            rest.push(t)
        } else {
            rest
        }
    }
}

/// The lines `app active` prints from `dumpsys window`.
pub fn focus_lines(out: &str) -> (r: Vec<String>)
    ensures
        strings_view(r@) == focus_lines_of(lines(out@)),
{
    let c = chars_of(out);
    let ls = lines_vec(&c);
    let ghost lv = ls.deep_view();
    let a = chars_of("mCurrentFocus");
    let b = chars_of("mFocusedApp");
    let mut r: Vec<String> = Vec::new();
    let mut i: usize = 0;
    assert(lv.take(0) =~= Seq::<Seq<char>>::empty());
    while i < ls.len()
        invariant
            i <= ls@.len(),
            lv == ls.deep_view(),
            lv.len() == ls@.len(),
            a@ == "mCurrentFocus"@,
            b@ == "mFocusedApp"@,
            strings_view(r@) == focus_lines_of(lv.take(i as int)),
        decreases ls@.len() - i,
    {
        proof {
            lemma_deep_view_chars(ls@[i as int]);
        }
        let t = trim_vec(&ls[i]);
        assert(lv.take(i + 1).drop_last() =~= lv.take(i as int));
        if contains_exec(&t, &a) || contains_exec(&t, &b) {
            let ghost before = r@;
            r.push(string_of(&t));
            assert(strings_view(r@) =~= strings_view(before).push(t@));
        }
        i = i + 1;
    }
    assert(lv.take(lv.len() as int) =~= lv);
    r
}

/// A package line of `pm list packages` without its `package:` prefix.
pub open spec fn package_name(line: Seq<char>) -> Seq<char> {
    let t = trim(line);
    if starts_with(t, "package:"@) {
        t.skip(8)
    } else {
        t
    }
}

/// The packages `app list` prints: every listed package, or those whose
/// name contains the filter.
pub open spec fn packages_of(ls: Seq<Seq<char>>, filter: Option<Seq<char>>) -> Seq<Seq<char>>
    decreases ls.len(),
{
    if ls.len() == 0 {
        seq![]
    } else {
        let rest = packages_of(ls.drop_last(), filter);
        let p = package_name(ls.last());
        match filter {
            Some(f) => if contains(p, f) {
                rest.push(p)
            } else {
                rest
            },
            None => rest.push(p),
        }
    }
}

pub fn package_lines(out: &str, filter: Option<&str>) -> (r: Vec<String>)
    ensures
        strings_view(r@) == packages_of(
            lines(out@),
            match filter {
                Some(f) => Some(f@),
                None => None,
            },
        ),
{
    let ghost fv = match filter {
        Some(f) => Some(f@),
        None => None::<Seq<char>>,
    };
    let c = chars_of(out);
    let ls = lines_vec(&c);
    let ghost lv = ls.deep_view();
    let pre = chars_of("package:");
    proof {
        reveal_strlit("package:");
    }
    let mut r: Vec<String> = Vec::new();
    let mut i: usize = 0;
    assert(lv.take(0) =~= Seq::<Seq<char>>::empty());
    while i < ls.len()
        invariant
            i <= ls@.len(),
            lv == ls.deep_view(),
            lv.len() == ls@.len(),
            pre@ == "package:"@,
            pre@.len() == 8,
            fv == match filter {
                Some(f) => Some(f@),
                None => None::<Seq<char>>,
            },
            strings_view(r@) == packages_of(lv.take(i as int), fv),
        decreases ls@.len() - i,
    {
        proof {
            lemma_deep_view_chars(ls@[i as int]);
        }
        let t = trim_vec(&ls[i]);
        let p = if starts_with_exec(&t, &pre) {
            let v = copy_range(&t, 8, t.len());
            assert(v@ =~= t@.skip(8));
            v
        } else {
            t
        };
        assert(p@ == package_name(lv[i as int]));
        assert(lv.take(i + 1).drop_last() =~= lv.take(i as int));
        assert(lv.take(i + 1).last() == lv[i as int]);
        let keep = match filter {
            Some(f) => contains_exec(&p, &chars_of(f)),
            None => true,
        };
        if keep {
            let ghost before = r@;
            r.push(string_of(&p));
            assert(strings_view(r@) =~= strings_view(before).push(p@));
        }
        i = i + 1;
    }
    assert(lv.take(lv.len() as int) =~= lv);
    r
}

/// Index of the first line at or after `i` that starts with `package:`.
pub open spec fn badging_line_from(ls: Seq<Seq<char>>, i: nat) -> Option<int>
    decreases ls.len() - i,
{
    if i >= ls.len() {
        None
    } else if starts_with(ls[i as int], "package:"@) {
        Some(i as int)
    } else {
        badging_line_from(ls, i + 1)
    }
}

/// Whitespace-separated tokens start at `i`.
pub open spec fn token_starts(s: Seq<char>, i: int) -> bool {
    0 <= i < s.len() && !is_ws(s[i]) && (i == 0 || is_ws(s[i - 1]))
}

/// Start of the first token at or after `i` that begins with `name='`.
pub open spec fn name_token_from(s: Seq<char>, i: nat) -> Option<nat>
    decreases s.len() - i,
{
    if i >= s.len() {
        None
    } else if token_starts(s, i as int) && matches_at(s, "name='"@, i as int) {
        Some(i)
    } else {
        name_token_from(s, i + 1)
    }
}

/// End of the token that starts at `i`: the first whitespace after it.
pub open spec fn token_end(s: Seq<char>, i: nat) -> nat
    decreases s.len() - i,
{
    if i >= s.len() || is_ws(s[i as int]) {
        i
    } else {
        token_end(s, i + 1)
    }
}

/// `str::trim_start_matches(p)` for a non-empty text pattern.
pub open spec fn strip_all_prefix(t: Seq<char>, p: Seq<char>) -> Seq<char>
    decreases t.len(),
{
    if p.len() > 0 && starts_with(t, p) {
        strip_all_prefix(t.skip(p.len() as int), p)
    } else {
        t
    }
}

/// The package name `aapt2 dump badging` reports: from the first line
/// starting with `package:`, its first token starting with `name='`,
/// without that prefix and the closing quote.
pub open spec fn badging_package_spec(out: Seq<char>) -> Option<Seq<char>> {
    let ls = lines(out);
    match badging_line_from(ls, 0) {
        None => None,
        Some(k) => {
            let l = ls[k];
            match name_token_from(l, 0) {
                None => None,
                Some(i) => Some(trim_end_char(strip_all_prefix(l.subrange(i as int, token_end(l, i) as int), "name='"@), '\'')),
            }
        },
    }
}

fn token_end_exec(s: &[char], i: usize) -> (r: usize)
    requires
        i <= s@.len(),
    ensures
        r == token_end(s@, i as nat),
        i <= r <= s@.len(),
{
    let mut j = i;
    while j < s.len() && !crate::text::char_is_ws(s[j])
        invariant
            i <= j <= s@.len(),
            token_end(s@, i as nat) == token_end(s@, j as nat),
        decreases s@.len() - j,
    {
        j = j + 1;
    }
    j
}

fn strip_all_prefix_exec(t: &[char], p: &[char]) -> (r: Vec<char>)
    requires
        p@.len() > 0,
    ensures
        r@ == strip_all_prefix(t@, p@),
{
    let mut k: usize = 0;
    assert(t@.skip(0) =~= t@);
    while k <= t.len() && t.len() - k >= p.len() && matches_at_exec(t, p, k)
        invariant
            k <= t@.len(),
            p@.len() > 0,
            strip_all_prefix(t@, p@) == strip_all_prefix(t@.skip(k as int), p@),
        decreases t@.len() - k,
    {
        proof {
            let u = t@.skip(k as int);
            assert(starts_with(u, p@)) by {
                assert(u.take(p@.len() as int) =~= t@.subrange(k as int, k + p@.len()));
            }
            assert(u.skip(p@.len() as int) =~= t@.skip(k + p@.len()));
        }
        k = k + p.len();
    }
    proof {
        let u = t@.skip(k as int);
        if starts_with(u, p@) {
            assert(u.take(p@.len() as int) =~= t@.subrange(k as int, k + p@.len()));
        }
    }
    let r = copy_range(t, k, t.len());
    assert(r@ =~= t@.skip(k as int));
    r
}

/// The package name in `aapt2 dump badging` output, if it has one.
pub fn badging_package(out: &str) -> (r: Option<String>)
    ensures
        match r {
            Some(p) => badging_package_spec(out@) == Some(p@),
            None => badging_package_spec(out@) is None,
        },
{
    let c = chars_of(out);
    let ls = lines_vec(&c);
    let ghost lv = ls.deep_view();
    let pre = chars_of("package:");
    let name = chars_of("name='");
    proof {
        reveal_strlit("name='");
    }
    let mut k: usize = 0;
    while k < ls.len() && !starts_with_exec(&ls[k], &pre)
        invariant
            k <= ls@.len(),
            lv == ls.deep_view(),
            lv.len() == ls@.len(),
            pre@ == "package:"@,
            badging_line_from(lv, 0) == badging_line_from(lv, k as nat),
        decreases ls@.len() - k,
    {
        proof {
            lemma_deep_view_chars(ls@[k as int]);
        }
        k = k + 1;
    }
    if k >= ls.len() {
        return None;
    }
    proof {
        lemma_deep_view_chars(ls@[k as int]);
    }
    assert(badging_line_from(lv, 0) == Some(k as int));
    let l = &ls[k];
    let mut i: usize = 0;
    while i < l.len() && !((i == 0 || crate::text::char_is_ws(l[i - 1])) && !crate::text::char_is_ws(l[i])
        && matches_at_exec(l, &name, i))
        invariant
            i <= l@.len(),
            name@ == "name='"@,
            name_token_from(l@, 0) == name_token_from(l@, i as nat),
        decreases l@.len() - i,
    {
        i = i + 1;
    }
    if i >= l.len() {
        return None;
    }
    assert(name_token_from(l@, i as nat) == Some(i as nat));
    let e = token_end_exec(l, i);
    let tok = copy_range(l, i, e);
    assert(name@.len() == 6);
    let stripped = strip_all_prefix_exec(&tok, &name);
    let v = trim_end_char_vec(&stripped, '\'');
    Some(string_of(&v))
}

/// `dumpsys window` shows the package in focus.
pub fn focused_on(out: &str, pkg: &str) -> (r: bool)
    ensures
        r == exists|i: int| 0 <= i < lines(out@).len() && contains(#[trigger] lines(out@)[i], "mCurrentFocus"@)
            && contains(lines(out@)[i], pkg@),
{
    let c = chars_of(out);
    let ls = lines_vec(&c);
    let ghost lv = ls.deep_view();
    let a = chars_of("mCurrentFocus");
    let p = chars_of(pkg);
    let mut i: usize = 0;
    while i < ls.len()
        invariant
            i <= ls@.len(),
            lv == ls.deep_view(),
            lv == lines(out@),
            lv.len() == ls@.len(),
            a@ == "mCurrentFocus"@,
            p@ == pkg@,
            forall|j: int| 0 <= j < i ==> !(contains(#[trigger] lv[j], "mCurrentFocus"@) && contains(lv[j], pkg@)),
        decreases ls@.len() - i,
    {
        proof {
            lemma_deep_view_chars(ls@[i as int]);
        }
        if contains_exec(&ls[i], &a) && contains_exec(&ls[i], &p) {
            assert(contains(lv[i as int], "mCurrentFocus"@) && contains(lv[i as int], pkg@));
            return true;
        }
        i = i + 1;
    }
    false
}

} // verus!
