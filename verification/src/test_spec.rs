//! Test cases: their steps as written and as run, the checks made before a
//! case runs, its time budgets, and how its outcome is recorded.
use vstd::prelude::*;
use crate::test_element::{Target, opt_or_empty};
use crate::text::{
    chars_of, copy_opt_string, copy_string, decimal_nat, ends_with, lines, lines_vec, opt_view,
    parse_u64, parse_u64_exec, push_chars, push_str, push_u64, starts_with, str_eq, string_of,
    trim, trim_vec, lemma_deep_view_chars,
};

verus! {

// ---------------------------------------------------------------------------
// Steps
// ---------------------------------------------------------------------------

/// One step as written in a test case file. `body` is the JSON text of an
/// API request body.
pub struct StepRaw {
    pub action: Option<String>,
    pub assert: Option<String>,
    pub target: Option<Target>,
    pub text: Option<String>,
    pub direction: Option<String>,
    pub output: Option<String>,
    pub catalogue: Option<String>,
    pub seconds: Option<u64>,
    pub expected: Option<String>,
    pub hint: Option<String>,
    pub enabled: Option<bool>,
    pub times: Option<u64>,
    pub url: Option<String>,
    pub site_id: Option<i64>,
    pub user_id: Option<i64>,
    pub platform: Option<PlatformSteps>,
    pub method: Option<String>,
    pub body: Option<String>,
    pub headers: Option<Vec<(String, String)>>,
    pub save_as: Option<String>,
    pub wait_for: Option<Vec<String>>,
    pub wait_timeout: Option<u64>,
    pub click_after: Option<String>,
    pub source: Option<String>,
    pub max_attempts: Option<u32>,
}

/// Per-platform replacements of a step.
pub struct PlatformSteps {
    pub android: Option<Vec<StepRaw>>,
    pub ios: Option<Vec<StepRaw>>,
}

pub struct ActionStep {
    pub action: String,
    pub target: Option<Target>,
    pub text: Option<String>,
    pub direction: Option<String>,
    pub output: Option<String>,
    pub catalogue: Option<String>,
    pub seconds: Option<u64>,
    pub times: Option<u64>,
    pub url: Option<String>,
    pub site_id: Option<i64>,
    pub user_id: Option<i64>,
    pub method: Option<String>,
    pub body: Option<String>,
    pub headers: Option<Vec<(String, String)>>,
    pub save_as: Option<String>,
    pub wait_for: Option<Vec<String>>,
    pub wait_timeout: Option<u64>,
    pub click_after: Option<String>,
    pub source: Option<String>,
    pub max_attempts: Option<u32>,
}

pub struct AssertStep {
    pub assert: String,
    pub expected: Option<String>,
    pub target: Option<Target>,
    pub text: Option<String>,
    pub hint: Option<String>,
    pub enabled: Option<bool>,
}

pub enum Step {
    Action(ActionStep),
    Assert(AssertStep),
}

/// The message of a step that is neither an action nor an assertion.
pub open spec fn step_kind_error() -> Seq<char> {
    "step must have either 'action' or 'assert' field"@
}

/// A written step as run: an action if it names one, else an assertion if
/// it names one, with the fields each kind reads.
pub open spec fn into_step_spec(s: StepRaw) -> Option<Step> {
    match s.action {
        Some(action) => Some(
            Step::Action(
                ActionStep {
                    action,
                    target: s.target,
                    text: s.text,
                    direction: s.direction,
                    output: s.output,
                    catalogue: s.catalogue,
                    seconds: s.seconds,
                    times: s.times,
                    url: s.url,
                    site_id: s.site_id,
                    user_id: s.user_id,
                    method: s.method,
                    body: s.body,
                    headers: s.headers,
                    save_as: s.save_as,
                    wait_for: s.wait_for,
                    wait_timeout: s.wait_timeout,
                    click_after: s.click_after,
                    source: s.source,
                    max_attempts: s.max_attempts,
                },
            ),
        ),
        None => match s.assert {
            Some(assert) => Some(
                Step::Assert(
                    AssertStep {
                        assert,
                        expected: s.expected,
                        target: s.target,
                        text: s.text,
                        hint: s.hint,
                        enabled: s.enabled,
                    },
                ),
            ),
            None => None,
        },
    }
}

impl StepRaw {
    pub fn into_step(self) -> (r: Result<Step, String>)
        ensures
            match into_step_spec(self) {
                Some(st) => r == Ok::<Step, String>(st),
                None => r matches Err(e) && e@ == step_kind_error(),
            },
    {
        if let Some(action) = self.action {
            Ok(
                Step::Action(
                    ActionStep {
                        action,
                        target: self.target,
                        text: self.text,
                        direction: self.direction,
                        output: self.output,
                        catalogue: self.catalogue,
                        seconds: self.seconds,
                        times: self.times,
                        url: self.url,
                        site_id: self.site_id,
                        user_id: self.user_id,
                        method: self.method,
                        body: self.body,
                        headers: self.headers,
                        save_as: self.save_as,
                        wait_for: self.wait_for,
                        wait_timeout: self.wait_timeout,
                        click_after: self.click_after,
                        source: self.source,
                        max_attempts: self.max_attempts,
                    },
                ),
            )
        } else if let Some(assert) = self.assert {
            Ok(
                Step::Assert(
                    AssertStep {
                        assert,
                        expected: self.expected,
                        target: self.target,
                        text: self.text,
                        hint: self.hint,
                        enabled: self.enabled,
                    },
                ),
            )
        } else {
            Err(String::from_str("step must have either 'action' or 'assert' field"))
        }
    }
}

/// The Android steps a written step stands for: its `platform.android`
/// list when it has one, else itself.
pub open spec fn android_steps(s: StepRaw) -> Seq<StepRaw> {
    match s.platform {
        Some(p) => match p.android {
            Some(a) => a@,
            None => seq![s],
        },
        None => seq![s],
    }
}

/// The written steps with platform forks replaced by their Android steps.
pub open spec fn expand_spec(steps: Seq<StepRaw>) -> Seq<StepRaw>
    decreases steps.len(),
{
    if steps.len() == 0 {
        seq![]
    } else {
        expand_spec(steps.drop_last()) + android_steps(steps.last())
    }
}

/// Replace each platform fork by its Android steps.
pub fn expand_platform_steps(steps: Vec<StepRaw>) -> (r: Vec<StepRaw>)
    ensures
        r@ == expand_spec(steps@),
{
    let ghost all = steps@;
    let mut out: Vec<StepRaw> = Vec::new();
    let mut rest = steps;
    let mut taken: usize = 0;
    let ghost n = all.len();
    let len0 = rest.len();
    assert(n == len0);
    assert(rest@ =~= all.subrange(0, n as int));
    while rest.len() > 0
        invariant
            taken + rest@.len() == n,
            n == all.len(),
            n <= usize::MAX,
            rest@ =~= all.subrange(taken as int, n as int),
            out@ == expand_spec(all.take(taken as int)),
        decreases rest@.len(),
    {
        let s = rest.remove(0);
        assert(s == all[taken as int]);
        let ghost want = android_steps(s);
        let ghost before = out@;
        match s.platform {
            Some(p) => match p.android {
                Some(mut a) => {
                    out.append(&mut a);
                },
                None => {
                    out.push(
                        StepRaw { platform: Some(PlatformSteps { android: None, ios: p.ios }), ..s },
                    );
                },
            },
            None => {
                out.push(StepRaw { platform: None, ..s });
            },
        }
        assert(out@ =~= before + want);
        assert(all.take(taken + 1).drop_last() =~= all.take(taken as int));
        taken = taken + 1;
        assert(rest@ =~= all.subrange(taken as int, n as int));
    }
    assert(all.take(taken as int) =~= all);
    out
}

/// The steps as run, or the error of the first step that is neither kind.
pub open spec fn parse_steps_spec(steps: Seq<StepRaw>) -> Option<Seq<Step>>
    decreases steps.len(),
{
    if steps.len() == 0 {
        Some(seq![])
    } else {
        match parse_steps_spec(steps.drop_last()) {
            Some(done) => match into_step_spec(steps.last()) {
                Some(st) => Some(done.push(st)),
                None => None,
            },
            None => None,
        }
    }
}

proof fn lemma_parse_prefix_fails(steps: Seq<StepRaw>, k: int)
    requires
        0 <= k <= steps.len(),
        parse_steps_spec(steps.take(k)) is None,
    ensures
        parse_steps_spec(steps) is None,
    decreases steps.len() - k,
{
    if k < steps.len() {
        assert(steps.take(k + 1).drop_last() =~= steps.take(k));
        lemma_parse_prefix_fails(steps, k + 1);
    } else {
        assert(steps.take(k) =~= steps);
    }
}

/// Expand the platform forks, then turn every written step into a step to
/// run; the first step that is neither an action nor an assertion fails.
pub fn parse_steps(steps: Vec<StepRaw>) -> (r: Result<Vec<Step>, String>)
    ensures
        match parse_steps_spec(expand_spec(steps@)) {
            Some(v) => r matches Ok(out) && out@ == v,
            None => r matches Err(e) && e@ == step_kind_error(),
        },
{
    let expanded = expand_platform_steps(steps);
    let ghost all = expanded@;
    let mut rest = expanded;
    let ghost n = all.len();
    let mut out: Vec<Step> = Vec::new();
    let mut taken: usize = 0;
    let len0 = rest.len();
    assert(n == len0);
    assert(rest@ =~= all.subrange(0, n as int));
    assert(all.take(0) =~= Seq::<StepRaw>::empty());
    while rest.len() > 0
        invariant
            taken + rest@.len() == n,
            n == all.len(),
            n <= usize::MAX,
            all == expand_spec(steps@),
            rest@ =~= all.subrange(taken as int, n as int),
            parse_steps_spec(all.take(taken as int)) == Some(out@),
        decreases rest@.len(),
    {
        let s = rest.remove(0);
        assert(s == all[taken as int]);
        assert(all.take(taken + 1).drop_last() =~= all.take(taken as int));
        assert(all.take(taken + 1).last() == s);
        match s.into_step() {
            Ok(st) => {
                out.push(st);
            },
            Err(e) => {
                proof {
                    assert(parse_steps_spec(all.take(taken + 1)) is None);
                    lemma_parse_prefix_fails(all, taken + 1);
                }
                return Err(e);
            },
        }
        taken = taken + 1;
        assert(rest@ =~= all.subrange(taken as int, n as int));
    }
    assert(all.take(taken as int) =~= all);
    Ok(out)
}

// ---------------------------------------------------------------------------
// Descriptions
// ---------------------------------------------------------------------------

pub open spec fn step_target(s: Step) -> Option<Target> {
    match s {
        Step::Action(a) => a.target,
        Step::Assert(a) => a.target,
    }
}

/// How a step log names a target: `{id: "…"}`, `{text: "…"}`,
/// `{content_fuzzy: "…"}` or `{}`.
pub open spec fn target_desc(t: Target) -> Seq<char> {
    match t.id {
        Some(id) => "{id: \""@ + id@ + "\"}"@,
        None => match t.text {
            Some(text) => "{text: \""@ + text@ + "\"}"@,
            None => match t.content_fuzzy {
                Some(f) => "{content_fuzzy: \""@ + f@ + "\"}"@,
                None => "{}"@,
            },
        },
    }
}

fn wrap(a: &str, b: &str, c: &str) -> (r: String)
    ensures
        r@ == a@ + b@ + c@,
{
    let mut v: Vec<char> = Vec::new();
    push_str(&mut v, a);
    push_str(&mut v, b);
    push_str(&mut v, c);
    assert(v@ =~= a@ + b@ + c@);
    string_of(&v)
}

pub fn step_target_desc(step: &Step) -> (r: Option<String>)
    ensures
        match step_target(*step) {
            Some(t) => r matches Some(d) && d@ == target_desc(t),
            None => r is None,
        },
{
    let t = match step {
        Step::Action(a) => &a.target,
        Step::Assert(a) => &a.target,
    };
    match t {
        None => None,
        Some(t) => Some(
            match &t.id {
                Some(id) => wrap("{id: \"", id.as_str(), "\"}"),
                None => match &t.text {
                    Some(text) => wrap("{text: \"", text.as_str(), "\"}"),
                    None => match &t.content_fuzzy {
                        Some(f) => wrap("{content_fuzzy: \"", f.as_str(), "\"}"),
                        None => String::from_str("{}"),
                    },
                },
            },
        ),
    }
}

/// `action:{name}` or `assert:{name}`, as the run log names a step.
pub open spec fn step_label_spec(s: Step) -> Seq<char> {
    match s {
        Step::Action(a) => "action:"@ + a.action@,
        Step::Assert(a) => "assert:"@ + a.assert@,
    }
}

pub fn step_label(step: &Step) -> (r: String)
    ensures
        r@ == step_label_spec(*step),
{
    proof {
        reveal_strlit("");
    }
    match step {
        Step::Action(a) => {
            let r = wrap("action:", a.action.as_str(), "");
            assert(("action:"@ + a.action@ + ""@) =~= ("action:"@ + a.action@));
            r
        },
        Step::Assert(a) => {
            let r = wrap("assert:", a.assert.as_str(), "");
            assert(("assert:"@ + a.assert@ + ""@) =~= ("assert:"@ + a.assert@));
            r
        },
    }
}

// ---------------------------------------------------------------------------
// Checks before a case runs
// ---------------------------------------------------------------------------

/// Actions that cannot run without a target.
pub open spec fn needs_target(action: Seq<char>) -> bool {
    action == "tap"@ || action == "long_press"@ || action == "scroll_to"@
}

/// The first step (numbered from 1) whose action needs a target and has
/// none, with the lint message, searching from index `i`.
pub open spec fn lint_from(steps: Seq<Step>, i: nat) -> Option<(nat, Seq<char>)>
    decreases steps.len() - i,
{
    if i >= steps.len() {
        None
    } else {
        match steps[i as int] {
            Step::Action(a) => if needs_target(a.action@) && a.target is None {
                Some((i + 1, "YAML lint: "@ + a.action@ + " action has no target"@))
            } else {
                lint_from(steps, i + 1)
            },
            Step::Assert(_) => lint_from(steps, i + 1),
        }
    }
}

pub fn lint_steps(steps: &Vec<Step>) -> (r: Option<(usize, String)>)
    ensures
        match lint_from(steps@, 0) {
            Some((k, m)) => r matches Some((k2, m2)) && k2 == k && m2@ == m,
            None => r is None,
        },
{
    let mut i: usize = 0;
    while i < steps.len()
        invariant
            i <= steps@.len(),
            lint_from(steps@, 0) == lint_from(steps@, i as nat),
        decreases steps@.len() - i,
    {
        match &steps[i] {
            Step::Action(a) => {
                let n = a.action.as_str();
                if (str_eq(n, "tap") || str_eq(n, "long_press") || str_eq(n, "scroll_to"))
                    && a.target.is_none() {
                    return Some((i + 1, wrap("YAML lint: ", n, " action has no target")));
                }
            },
            Step::Assert(_) => {},
        }
        i = i + 1;
    }
    None
}

/// The test case files a suite lists: each line, trimmed and stripped of
/// list dashes, that ends in `.yaml` and is no comment.
pub open spec fn suite_entry(line: Seq<char>) -> Option<Seq<char>> {
    let t = trim(crate::text::trim_start_char(trim(line), '-'));
    if ends_with(t, ".yaml"@) && !starts_with(t, "#"@) {
        Some(t)
    } else {
        None
    }
}

pub open spec fn suite_from(ls: Seq<Seq<char>>) -> Seq<Seq<char>>
    decreases ls.len(),
{
    if ls.len() == 0 {
        seq![]
    } else {
        match suite_entry(ls.last()) {
            Some(t) => suite_from(ls.drop_last()).push(t),
            None => suite_from(ls.drop_last()),
        }
    }
}

pub fn suite_entries(content: &str) -> (r: Vec<String>)
    ensures
        crate::text::strings_view(r@) == suite_from(lines(content@)),
{
    let c = chars_of(content);
    let ls = lines_vec(&c);
    let ghost lv = ls.deep_view();
    let yaml = chars_of(".yaml");
    let hash = chars_of("#");
    let mut out: Vec<String> = Vec::new();
    let mut i: usize = 0;
    assert(lv.len() == ls@.len());
    while i < ls.len()
        invariant
            i <= ls@.len(),
            lv == ls.deep_view(),
            lv == lines(content@),
            lv.len() == ls@.len(),
            yaml@ == ".yaml"@,
            hash@ == "#"@,
            crate::text::strings_view(out@) == suite_from(lv.take(i as int)),
        decreases ls@.len() - i,
    {
        proof {
            lemma_deep_view_chars(ls[i as int]);
        }
        assert(lv.take(i + 1).drop_last() =~= lv.take(i as int));
        let t1 = trim_vec(&ls[i]);
        let t2 = crate::text::trim_start_char_vec(&t1, '-');
        let t = trim_vec(&t2);
        let ends = t.len() >= yaml.len() && crate::text::matches_at_exec(&t, &yaml, t.len() - yaml.len());
        let ghost before = crate::text::strings_view(out@);
        if ends && !crate::text::starts_with_exec(&t, &hash) {
            out.push(string_of(&t));
            assert(crate::text::strings_view(out@) =~= before.push(t@));
        }
        i = i + 1;
    }
    assert(lv.take(i as int) =~= lv);
    out
}

/// The value a navigation file line gives `key`: what follows the key on
/// the trimmed line, trimmed.
pub open spec fn hint_value(line: Seq<char>, key: Seq<char>) -> Option<Seq<char>> {
    let t = trim(line);
    if starts_with(t, key) {
        Some(trim(t.skip(key.len() as int)))
    } else {
        None
    }
}

/// The value of the last line that sets `key`.
pub open spec fn last_hint(ls: Seq<Seq<char>>, key: Seq<char>) -> Option<Seq<char>>
    decreases ls.len(),
{
    if ls.len() == 0 {
        None
    } else {
        match hint_value(ls.last(), key) {
            Some(v) => Some(v),
            None => last_hint(ls.drop_last(), key),
        }
    }
}

fn hint_value_exec(line: &[char], key: &[char]) -> (r: Option<Vec<char>>)
    ensures
        match r {
            Some(v) => hint_value(line@, key@) == Some(v@),
            None => hint_value(line@, key@) is None,
        },
{
    let t = trim_vec(line);
    if crate::text::starts_with_exec(&t, key) {
        let rest = crate::text::copy_range(&t, key.len(), t.len());
        assert(rest@ =~= t@.skip(key@.len() as int));
        Some(trim_vec(&rest))
    } else {
        None
    }
}

fn last_hint_exec(lines: &Vec<Vec<char>>, key: &[char]) -> (r: Option<Vec<char>>)
    ensures
        match r {
            Some(v) => last_hint(lines.deep_view(), key@) == Some(v@),
            None => last_hint(lines.deep_view(), key@) is None,
        },
{
    let ghost lv = lines.deep_view();
    let mut cur: Option<Vec<char>> = None;
    let mut i: usize = 0;
    assert(lv.take(0) =~= Seq::<Seq<char>>::empty());
    while i < lines.len()
        invariant
            i <= lines@.len(),
            lv == lines.deep_view(),
            lv.len() == lines@.len(),
            match cur {
                Some(v) => last_hint(lv.take(i as int), key@) == Some(v@),
                None => last_hint(lv.take(i as int), key@) is None,
            },
        decreases lines@.len() - i,
    {
        proof {
            lemma_deep_view_chars(lines@[i as int]);
        }
        assert(lv.take(i + 1).drop_last() =~= lv.take(i as int));
        assert(lv.take(i + 1).last() == lv[i as int]);
        match hint_value_exec(&lines[i], key) {
            Some(v) => {
                cur = Some(v);
            },
            None => {},
        }
        i = i + 1;
    }
    assert(lv.take(lv.len() as int) =~= lv);
    cur
}

/// What a navigation file sets for the fuzzy search: the patterns to rank
/// last (quotes around them dropped) and the similarity threshold, each
/// from the last line that gives it.
pub fn navigation_hints(content: &str) -> (r: (Option<String>, Option<String>))
    ensures
        opt_view(r.0) == match last_hint(lines(content@), "deprioritize_patterns:"@) {
            Some(v) => Some(crate::text::trim_char(v, '"')),
            None => None::<Seq<char>>,
        },
        opt_view(r.1) == last_hint(lines(content@), "jaccard_threshold:"@),
{
    let c = chars_of(content);
    let ls = lines_vec(&c);
    let dep = match last_hint_exec(&ls, &chars_of("deprioritize_patterns:")) {
        Some(v) => Some(string_of(&crate::text::trim_char_vec(&v, '"'))),
        None => None,
    };
    let thr = match last_hint_exec(&ls, &chars_of("jaccard_threshold:")) {
        Some(v) => Some(string_of(&v)),
        None => None,
    };
    (dep, thr)
}

// ---------------------------------------------------------------------------
// Running one step
// ---------------------------------------------------------------------------

/// Where a step stands in its run.
#[derive(PartialEq, Eq, Structural, Clone, Copy, Debug)]
pub enum StepStage {
    /// Not run yet.
    Begin,
    /// Run once.
    Ran,
    /// Failed once; the permission prompt and the keyboard are seen to.
    Recovered,
    /// The app is known to be in front (or there was no time to look).
    Foreground,
    /// Run a second time.
    Retried,
}

/// What the runner does next for a step.
#[derive(PartialEq, Eq, Structural, Clone, Copy, Debug)]
pub enum StepMove {
    /// The test case ran out of time before the step: it fails.
    FailTimeout,
    /// Run the step.
    Run,
    /// Grant a prompted permission and hide the keyboard.
    Recover,
    /// Relaunch the app if it left the foreground.
    CheckForeground,
    /// Look at the time again before a retry.
    RetryGate,
    /// Run the step once more.
    Retry,
    /// The step passed.
    Pass,
    /// The step failed; the test case stops here.
    Fail,
}

/// The next move for a step at `stage`, given whether its last run
/// succeeded (`ok`) and whether time is left (`time_ok`: at `Begin`, the
/// test case's deadline has not passed; later, neither the case's nor the
/// step's has). A failed step gets one recovery and one retry, each only
/// while time is left.
pub open spec fn step_move_spec(stage: StepStage, ok: bool, time_ok: bool) -> StepMove {
    match stage {
        StepStage::Begin => if time_ok {
            StepMove::Run
        } else {
            StepMove::FailTimeout
        },
        StepStage::Ran => if ok {
            StepMove::Pass
        } else if time_ok {
            StepMove::Recover
        } else {
            StepMove::Fail
        },
        StepStage::Recovered => if time_ok {
            StepMove::CheckForeground
        } else {
            StepMove::RetryGate
        },
        StepStage::Foreground => if time_ok {
            StepMove::Retry
        } else {
            StepMove::Fail
        },
        StepStage::Retried => if ok {
            StepMove::Pass
        } else {
            StepMove::Fail
        },
    }
}

pub fn step_move(stage: StepStage, ok: bool, time_ok: bool) -> (r: StepMove)
    ensures
        r == step_move_spec(stage, ok, time_ok),
{
    match stage {
        StepStage::Begin => if time_ok {
            StepMove::Run
        } else {
            StepMove::FailTimeout
        },
        StepStage::Ran => if ok {
            StepMove::Pass
        } else if time_ok {
            StepMove::Recover
        } else {
            StepMove::Fail
        },
        StepStage::Recovered => if time_ok {
            StepMove::CheckForeground
        } else {
            StepMove::RetryGate
        },
        StepStage::Foreground => if time_ok {
            StepMove::Retry
        } else {
            StepMove::Fail
        },
        StepStage::Retried => if ok {
            StepMove::Pass
        } else {
            StepMove::Fail
        },
    }
}

/// A step runs at most twice: after its second run it only passes or
/// fails, and a passed first run is never run again.
pub proof fn law_step_retried_at_most_once(ok: bool, time_ok: bool)
    ensures
        step_move_spec(StepStage::Retried, ok, time_ok) == StepMove::Pass || step_move_spec(
            StepStage::Retried,
            ok,
            time_ok,
        ) == StepMove::Fail,
        step_move_spec(StepStage::Ran, true, time_ok) == StepMove::Pass,
        step_move_spec(StepStage::Retried, true, time_ok) == StepMove::Pass,
{
}

/// While time is left, a failed first run is recovered from and retried;
/// with no time left, it fails at once.
pub proof fn law_failed_step_retried_while_time_left(ok: bool)
    ensures
        step_move_spec(StepStage::Ran, false, true) == StepMove::Recover,
        step_move_spec(StepStage::Recovered, ok, true) == StepMove::CheckForeground,
        step_move_spec(StepStage::Foreground, ok, true) == StepMove::Retry,
        step_move_spec(StepStage::Ran, false, false) == StepMove::Fail,
        step_move_spec(StepStage::Foreground, ok, false) == StepMove::Fail,
{
}

/// What the agent's `/version` answer says of the installed build.
pub enum VersionCheck {
    /// The installed build is the expected one.
    Matches(String),
    /// The agent reported an empty hash.
    EmptyHash,
    /// The answer carries no hash.
    Unreadable,
}

/// The hash in a `/version` body: what follows `"git_hash":"` up to the
/// next quote, if both are there.
pub open spec fn version_hash(body: Seq<char>) -> Option<Option<Seq<char>>> {
    match crate::text::find(body, "\"git_hash\":\""@) {
        Some(p) => {
            let rest = body.skip(p as int + 12);
            match crate::text::find(rest, "\""@) {
                Some(e) => Some(Some(rest.take(e as int))),
                None => Some(None),
            }
        },
        None => None,
    }
}

/// Compare the installed build with the expected hash: a different one is
/// a stale binary and stops the run.
pub fn check_version(body: &str, expected: &str) -> (r: Result<Option<VersionCheck>, String>)
    ensures
        match version_hash(body@) {
            None => r matches Ok(Some(VersionCheck::Unreadable)),
            Some(None) => r matches Ok(None),
            Some(Some(h)) => if h.len() == 0 {
                r matches Ok(Some(VersionCheck::EmptyHash))
            } else if h == expected@ {
                r matches Ok(Some(VersionCheck::Matches(m))) && m@ == h
            } else {
                r matches Err(e) && e@ == "STALE BINARY: installed="@ + h + " expected="@ + expected@
                    + ". Rebuild APK."@
            },
        },
{
    let b = chars_of(body);
    let key = chars_of("\"git_hash\":\"");
    proof {
        reveal_strlit("\"git_hash\":\"");
    }
    match crate::text::find_exec(&b, &key) {
        None => Ok(Some(VersionCheck::Unreadable)),
        Some(p) => {
            proof {
                crate::text::lemma_find_from_props(b@, key@, 0);
            }
            assert(key@.len() == 12);
            assert(p + 12 <= b.len());
            let rest = crate::text::copy_range(&b, p + 12, b.len());
            assert(rest@ =~= body@.skip(p as int + 12));
            let q = chars_of("\"");
            match crate::text::find_exec(&rest, &q) {
                None => Ok(None),
                Some(e) => {
                    proof {
                        crate::text::lemma_find_from_props(rest@, q@, 0);
                    }
                    let h = crate::text::copy_range(&rest, 0, e);
                    assert(h@ =~= rest@.take(e as int));
                    if h.len() == 0 {
                        Ok(Some(VersionCheck::EmptyHash))
                    } else if crate::text::chars_eq(&h, &chars_of(expected)) {
                        Ok(Some(VersionCheck::Matches(string_of(&h))))
                    } else {
                        let mut v: Vec<char> = Vec::new();
                        push_str(&mut v, "STALE BINARY: installed=");
                        push_chars(&mut v, &h);
                        push_str(&mut v, " expected=");
                        push_str(&mut v, expected);
                        push_str(&mut v, ". Rebuild APK.");
                        assert(v@ =~= "STALE BINARY: installed="@ + h@ + " expected="@ + expected@
                            + ". Rebuild APK."@);
                        Err(string_of(&v))
                    }
                },
            }
        },
    }
}

// ---------------------------------------------------------------------------
// Time budgets
// ---------------------------------------------------------------------------

/// The seconds a case's steps may take in all: the step timeout per step,
/// at least 120 and at most 300; setup gets 120 more.
pub open spec fn case_budget_spec(step_timeout: u64, steps: nat) -> int {
    let b = step_timeout * steps;
    (if b < 120 {
        120
    } else if b > 300 {
        300
    } else {
        b
    }) + 120
}

pub fn case_budget(step_timeout: u64, steps: usize) -> (r: u64)
    requires
        step_timeout * steps <= u64::MAX,
    ensures
        r == case_budget_spec(step_timeout, steps as nat),
{
    let b = step_timeout * (steps as u64);
    let c: u64 = if b < 120 {
        120
    } else if b > 300 {
        300
    } else {
        b
    };
    c + 120
}

/// The hard limit of one case in seconds: `DDB_TC_TIMEOUT` when it reads
/// as a number, else 30 s or the step timeout (the larger) per step, at
/// least 300 and at most 900, plus 120 for setup.
pub open spec fn hard_timeout_spec(env: Option<Seq<char>>, steps: nat, step_timeout: u64) -> int {
    match env {
        Some(v) if parse_u64(v) is Some => parse_u64(v).unwrap() as int,
        _ => {
            let per = if step_timeout < 30 {
                30
            } else {
                step_timeout as int
            };
            let b = per * steps;
            (if b < 300 {
                300
            } else if b > 900 {
                900
            } else {
                b
            }) + 120
        },
    }
}

pub fn hard_timeout(env: Option<&str>, steps: usize, step_timeout: u64) -> (r: u64)
    requires
        (if step_timeout < 30 {
            30
        } else {
            step_timeout as int
        }) * steps <= u64::MAX,
    ensures
        r == hard_timeout_spec(crate::text::opt_str_view(env), steps as nat, step_timeout),
{
    match env {
        Some(v) => {
            let c = chars_of(v);
            match parse_u64_exec(&c) {
                Some(t) => {
                    return t;
                },
                None => {},
            }
        },
        None => {},
    }
    let per: u64 = if step_timeout < 30 {
        30
    } else {
        step_timeout
    };
    let b = per * (steps as u64);
    let c: u64 = if b < 300 {
        300
    } else if b > 900 {
        900
    } else {
        b
    };
    c + 120
}

/// How long the agent gets to come up: `DDB_AGENT_READY_TIMEOUT` when it
/// reads as a number, else 120 s after clearing the app's data and 5 s
/// otherwise.
pub fn agent_ready_timeout(env: Option<&str>, clean_state: bool) -> (r: u64)
    ensures
        r == match crate::text::opt_str_view(env) {
            Some(v) if parse_u64(v) is Some => parse_u64(v).unwrap(),
            _ => if clean_state {
                120u64
            } else {
                5u64
            },
        },
{
    match env {
        Some(v) => {
            let c = chars_of(v);
            match parse_u64_exec(&c) {
                Some(t) => {
                    return t;
                },
                None => {},
            }
        },
        None => {},
    }
    if clean_state {
        120
    } else {
        5
    }
}

// ---------------------------------------------------------------------------
// Outcomes
// ---------------------------------------------------------------------------

pub struct FailureDetail {
    pub step: usize,
    pub description: String,
    pub screenshot: Option<String>,
}

pub struct TestResult {
    pub id: String,
    pub name: String,
    pub status: String,
    pub steps_run: usize,
    pub steps_total: usize,
    pub failure: Option<FailureDetail>,
    pub log: Vec<crate::test_log::LogEntry>,
}

/// A case that failed before its first step: step 0, no screenshot.
pub fn setup_failure(id: &str, name: &str, steps_total: usize, description: String, log: Vec<
    crate::test_log::LogEntry,
>) -> (r: TestResult)
    ensures
        r.id@ == id@,
        r.name@ == name@,
        r.status@ == "FAIL"@,
        r.steps_run == 0,
        r.steps_total == steps_total,
        r.failure matches Some(f) && f.step == 0 && f.description@ == description@
            && f.screenshot is None,
        r.log@ == log@,
{
    TestResult {
        id: String::from_str(id),
        name: String::from_str(name),
        status: String::from_str("FAIL"),
        steps_run: 0,
        steps_total,
        failure: Some(FailureDetail { step: 0, description, screenshot: None }),
        log,
    }
}

/// A case that failed at step `i` (0-based): `i` steps ran; an adb server
/// found wedged during the step is named in the description.
pub fn step_failure(
    id: &str,
    name: &str,
    i: usize,
    steps_total: usize,
    err: &str,
    adb_zombie: bool,
    screenshot: Option<String>,
    log: Vec<crate::test_log::LogEntry>,
) -> (r: TestResult)
    requires
        i < usize::MAX,
    ensures
        r.id@ == id@,
        r.name@ == name@,
        r.status@ == "FAIL"@,
        r.steps_run == i,
        r.steps_total == steps_total,
        r.failure matches Some(f) && f.step == i + 1 && f.description@ == (if adb_zombie {
            "[ADB_ZOMBIE_DETECTED] "@ + err@
        } else {
            err@
        }) && opt_view(f.screenshot) == opt_view(screenshot),
        r.log@ == log@,
{
    let description = if adb_zombie {
        wrap("[ADB_ZOMBIE_DETECTED] ", err, "")
    } else {
        String::from_str(err)
    };
    proof {
        reveal_strlit("");
        assert(("[ADB_ZOMBIE_DETECTED] "@ + err@ + ""@) =~= ("[ADB_ZOMBIE_DETECTED] "@ + err@));
    }
    TestResult {
        id: String::from_str(id),
        name: String::from_str(name),
        status: String::from_str("FAIL"),
        steps_run: i,
        steps_total,
        failure: Some(FailureDetail { step: i + 1, description, screenshot }),
        log,
    }
}

/// A case whose steps all passed.
pub fn case_passed(id: &str, name: &str, steps_total: usize, log: Vec<crate::test_log::LogEntry>) -> (r:
    TestResult)
    ensures
        r.id@ == id@,
        r.name@ == name@,
        r.status@ == "PASS"@,
        r.steps_run == steps_total,
        r.steps_total == steps_total,
        r.failure is None,
        r.log@ == log@,
{
    TestResult {
        id: String::from_str(id),
        name: String::from_str(name),
        status: String::from_str("PASS"),
        steps_run: steps_total,
        steps_total,
        failure: None,
        log,
    }
}

/// The process exit code after a run: when regressions are checked, 2 if
/// there are any, else 0; otherwise 1 when a case failed, else 0.
pub fn run_exit_code(regression_gate: bool, regressions: usize, failed: usize) -> (r: i32)
    ensures
        regression_gate && regressions > 0 ==> r == 2,
        regression_gate && regressions == 0 ==> r == 0,
        !regression_gate && failed > 0 ==> r == 1,
        !regression_gate && failed == 0 ==> r == 0,
{
    if regression_gate {
        if regressions > 0 {
            2
        } else {
            0
        }
    } else if failed > 0 {
        1
    } else {
        0
    }
}

// ---------------------------------------------------------------------------
// The wedged-adb flag
// ---------------------------------------------------------------------------

/// Whether an idle wait saw adb in a bad state since the last step
/// failure was classified.
pub struct ZombieFlag {
    set: bool,
}

impl ZombieFlag {
    pub closed spec fn is_set(&self) -> bool {
        self.set
    }

    pub fn new() -> (r: Self)
        ensures
            !r.is_set(),
    {
        ZombieFlag { set: false }
    }

    /// Record that adb looked wedged.
    pub fn set_adb_zombie_flag(&mut self)
        ensures
            final(self).is_set(),
    {
        self.set = true;
    }

    /// Read and clear: true at most once per episode.
    pub fn take_adb_zombie_flag(&mut self) -> (r: bool)
        ensures
            r == old(self).is_set(),
            !final(self).is_set(),
    {
        let v = self.set;
        self.set = false;
        v
    }
}

// ---------------------------------------------------------------------------
// Agent requests
// ---------------------------------------------------------------------------

pub open spec fn grant_command_spec(pkg: Seq<char>) -> Seq<char> {
    crate::text::replace(
        "pm grant PKG android.permission.ACCESS_FINE_LOCATION; pm grant PKG android.permission.ACCESS_COARSE_LOCATION; pm grant PKG android.permission.POST_NOTIFICATIONS"@,
        "PKG"@,
        pkg,
    )
}

/// The shell command that grants the app the location and notification
/// permissions its test cases need.
pub fn grant_permissions_command(pkg: &str) -> (r: String)
    ensures
        r@ == grant_command_spec(pkg@),
{
    let perms = chars_of(
        "pm grant PKG android.permission.ACCESS_FINE_LOCATION; pm grant PKG android.permission.ACCESS_COARSE_LOCATION; pm grant PKG android.permission.POST_NOTIFICATIONS",
    );
    let out = crate::text::replace_exec(&perms, &chars_of("PKG"), &chars_of(pkg));
    string_of(&out)
}

/// The agent URL that turns the device's animations on or off.
pub fn animations_url(base: &str, enabled: bool) -> (r: String)
    ensures
        r@ == base@ + "/animations?enabled="@ + (if enabled {
            "true"@
        } else {
            "false"@
        }),
{
    let mut v: Vec<char> = Vec::new();
    push_str(&mut v, base);
    push_str(&mut v, "/animations?enabled=");
    if enabled {
        push_str(&mut v, "true");
    } else {
        push_str(&mut v, "false");
    }
    string_of(&v)
}

// ---------------------------------------------------------------------------
// Time stamps
// ---------------------------------------------------------------------------

/// Two decimal digits, zero-padded (`{:02}`), for a value below 100.
pub open spec fn two_digits(n: nat) -> Seq<char> {
    if n < 10 {
        seq!['0'] + crate::text::decimal_nat(n)
    } else {
        crate::text::decimal_nat(n)
    }
}

/// The run's time stamp at `secs` seconds after the epoch: the year
/// counted in 365-day years, always January 1st, and the time of day.
pub open spec fn iso_spec(secs: u64) -> Seq<char> {
    let days = secs / 86400;
    crate::text::decimal_nat((1970 + days / 365) as nat) + "-01-01T"@ + two_digits(
        ((secs / 3600) % 24) as nat,
    ) + ":"@ + two_digits(((secs / 60) % 60) as nat) + ":"@ + two_digits((secs % 60) as nat) + "Z"@
}

fn push_two(v: &mut Vec<char>, n: u64)
    requires
        n < 100,
    ensures
        final(v)@ == old(v)@ + two_digits(n as nat),
{
    if n < 10 {
        v.push('0');
    }
    push_u64(v, n);
}

/// The time stamp of `secs` seconds after the epoch (see `iso_spec`).
pub fn iso_at(secs: u64) -> (r: String)
    ensures
        r@ == iso_spec(secs),
{
    let h = (secs / 3600) % 24;
    let m = (secs / 60) % 60;
    let s = secs % 60;
    let days = secs / 86400;
    let y = 1970 + days / 365;
    let mut v: Vec<char> = Vec::new();
    push_u64(&mut v, y);
    push_str(&mut v, "-01-01T");
    push_two(&mut v, h);
    push_str(&mut v, ":");
    push_two(&mut v, m);
    push_str(&mut v, ":");
    push_two(&mut v, s);
    push_str(&mut v, "Z");
    string_of(&v)
}

/// The time stamp of now, by the clock.
pub fn now_iso() -> (r: String)
    ensures
        exists|secs: u64| r@ == iso_spec(secs),
{
    iso_at(crate::test_timeout::clock_ms() / 1000)
}

/// The seconds since the epoch, by the clock, in decimal.
pub fn now_timestamp_slug() -> (r: String)
    ensures
        exists|secs: u64| r@ == crate::text::decimal_nat(secs as nat),
{
    crate::text::u64_to_string(crate::test_timeout::clock_ms() / 1000)
}

} // verus!
