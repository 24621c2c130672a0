//! The small judgements the test runner makes around the device: when to
//! look at adb again, what counts as idle, what a failed step needs before
//! its retry, and what a reset of the app left behind.
use vstd::prelude::*;
use crate::text::{
    chars_of, contains, contains_exec, lemma_deep_view_chars, lines, lines_vec, lowercase, split,
    split_vec, string_of, strings_view, to_lowercase, trim, trim_vec,
};

verus! {

/// Every fifth round, not counting the first.
pub open spec fn every_fifth(n: int) -> bool {
    n > 0 && n % 5 == 0
}

/// While waiting for idle, adb's state is checked on every fifth poll.
pub fn idle_probe_due(iter: u32) -> (r: bool)
    ensures
        r == every_fifth(iter as int),
{
    iter > 0 && iter % 5 == 0
}

/// On a clean-state run adb is swept before every fifth case.
pub fn sweep_due(clean_state: bool, tc_index: usize) -> (r: bool)
    ensures
        r == (clean_state && every_fifth(tc_index as int)),
{
    clean_state && tc_index > 0 && tc_index % 5 == 0
}

/// The agent's `/idle` answer reports the app idle.
pub fn idle_reported(body: &str) -> (r: bool)
    ensures
        r == (contains(body@, "true"@) || contains(body@, "idle"@)),
{
    let b = chars_of(body);
    contains_exec(&b, &chars_of("true")) || contains_exec(&b, &chars_of("idle"))
}

/// `dumpsys input_method` shows the soft keyboard up.
pub fn keyboard_shown(out: &str) -> (r: bool)
    ensures
        r == contains(out@, "mInputShown=true"@),
{
    contains_exec(&chars_of(out), &chars_of("mInputShown=true"))
}

/// After a failed step: the UI dump shows a permission prompt, to be
/// answered by granting the permissions before the retry.
pub fn permission_prompt_shown(ui: &str) -> (r: bool)
    ensures
        r == (contains(lowercase(ui@), "permission_allow"@) || contains(
            lowercase(ui@),
            "while using"@,
        )),
{
    let lower = chars_of(to_lowercase(ui).as_str());
    contains_exec(&lower, &chars_of("permission_allow")) || contains_exec(
        &lower,
        &chars_of("while using"),
    )
}

/// The UI dump may hold a permission dialog worth dismissing.
pub fn permission_dialog_possible(ui: &str) -> (r: bool)
    ensures
        r == (contains(lowercase(ui@), "permission"@) || contains(lowercase(ui@), "allow"@)
            || contains(lowercase(ui@), "while using"@)),
{
    let lower = chars_of(to_lowercase(ui).as_str());
    contains_exec(&lower, &chars_of("permission")) || contains_exec(&lower, &chars_of("allow"))
        || contains_exec(&lower, &chars_of("while using"))
}

/// The app left the foreground: the resumed activity does not name its
/// package, so it is launched again before the retry.
pub fn needs_relaunch(current: &str, pkg: &str) -> (r: bool)
    ensures
        r == !contains(current@, pkg@),
{
    !contains_exec(&chars_of(current), &chars_of(pkg))
}

/// The button ids tried on a permission dialog when none are configured.
pub open spec fn default_permission_buttons() -> Seq<char> {
    "permission_allow_foreground_only_button,permission_allow_button"@
}

pub open spec fn trimmed_all(ps: Seq<Seq<char>>) -> Seq<Seq<char>> {
    ps.map_values(|p: Seq<char>| trim(p))
}

/// The permission button ids: the configured list, or the default one,
/// split at commas, each trimmed.
pub fn permission_buttons(configured: Option<&str>) -> (r: Vec<String>)
    ensures
        strings_view(r@) == trimmed_all(
            split(
                match configured {
                    Some(c) => c@,
                    None => default_permission_buttons(),
                },
                ","@,
            ),
        ),
{
    let src = match configured {
        Some(c) => chars_of(c),
        None => chars_of("permission_allow_foreground_only_button,permission_allow_button"),
    };
    let comma = chars_of(",");
    proof {
        reveal_strlit(",");
    }
    assert(comma@.len() == 1);
    let parts = split_vec(&src, &comma);
    let ghost pv = parts.deep_view();
    let mut r: Vec<String> = Vec::new();
    let mut i: usize = 0;
    while i < parts.len()
        invariant
            i <= parts@.len(),
            pv == parts.deep_view(),
            pv.len() == parts@.len(),
            strings_view(r@) == trimmed_all(pv.take(i as int)),
        decreases parts@.len() - i,
    {
        proof {
            lemma_deep_view_chars(parts@[i as int]);
        }
        let t = trim_vec(&parts[i]);
        let ghost before = r@;
        r.push(string_of(&t));
        assert(strings_view(r@) =~= strings_view(before).push(t@));
        assert(trimmed_all(pv.take(i + 1)) =~= trimmed_all(pv.take(i as int)).push(trim(pv[i as int])));
        i = i + 1;
    }
    assert(pv.take(pv.len() as int) =~= pv);
    r
}

/// The non-empty lines, in order.
pub open spec fn non_empty_lines(ls: Seq<Seq<char>>) -> Seq<Seq<char>>
    decreases ls.len(),
{
    if ls.len() == 0 {
        seq![]
    } else {
        let rest = non_empty_lines(ls.drop_last());
        if ls.last().len() > 0 {
            rest.push(ls.last())
        } else {
            rest
        }
    }
}

/// What `run-as <pkg> ls .` shows left in the app's data after `pm clear`:
/// none when `run-as` was refused, else the non-empty lines of the trimmed
/// listing.
pub open spec fn leftovers_of(out: Seq<char>) -> Option<Seq<Seq<char>>> {
    let t = trim(out);
    if contains(t, "Permission denied"@) || contains(t, "is not debuggable"@) {
        None
    } else {
        Some(non_empty_lines(lines(t)))
    }
}

pub fn leftover_entries(out: &str) -> (r: Option<Vec<String>>)
    ensures
        match r {
            Some(v) => leftovers_of(out@) == Some(strings_view(v@)),
            None => leftovers_of(out@) is None,
        },
{
    let t = trim_vec(&chars_of(out));
    if contains_exec(&t, &chars_of("Permission denied")) || contains_exec(
        &t,
        &chars_of("is not debuggable"),
    ) {
        return None;
    }
    let ls = lines_vec(&t);
    let ghost lv = ls.deep_view();
    let mut r: Vec<String> = Vec::new();
    let mut i: usize = 0;
    assert(lv.take(0) =~= Seq::<Seq<char>>::empty());
    while i < ls.len()
        invariant
            i <= ls@.len(),
            lv == ls.deep_view(),
            lv.len() == ls@.len(),
            strings_view(r@) == non_empty_lines(lv.take(i as int)),
        decreases ls@.len() - i,
    {
        proof {
            lemma_deep_view_chars(ls@[i as int]);
        }
        assert(lv.take(i + 1).drop_last() =~= lv.take(i as int));
        if ls[i].len() > 0 {
            let ghost before = r@;
            r.push(string_of(&ls[i]));
            assert(strings_view(r@) =~= strings_view(before).push(lv[i as int]));
        }
        i = i + 1;
    }
    assert(lv.take(lv.len() as int) =~= lv);
    Some(r)
}

/// The pid `pidof <pkg>` printed after `am force-stop`, when the app is
/// still running.
pub fn surviving_pid(out: &str) -> (r: Option<String>)
    ensures
        match r {
            Some(p) => trim(out@).len() > 0 && p@ == trim(out@),
            None => trim(out@).len() == 0,
        },
{
    let t = trim_vec(&chars_of(out));
    if t.len() == 0 {
        None
    } else {
        Some(string_of(&t))
    }
}

} // verus!
