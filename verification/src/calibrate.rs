//! Calibration reports: a test run's per-step log recast as a report of
//! which steps of a test case pass.
use vstd::prelude::*;
use crate::text::{
    copy_opt_string, copy_string, decimal_nat, lowercase, opt_view, push_str, string_of, to_lowercase,
};
use crate::json::{
    array_len_at, array_len_at_exec, child, index_child, json_at, json_check, json_ok, str_at,
    str_at_exec, u64_at, u64_at_exec, JsonLeafView,
};

verus! {

/// One entry of a test run's step log, as far as a report reads it.
pub struct LogRecord {
    pub step: Option<u64>,
    pub result: Option<String>,
    pub action: Option<String>,
    pub assert: Option<String>,
    pub target: Option<String>,
    pub element_found: Option<String>,
    pub error: Option<String>,
}

/// The first test case of a run report, as far as a report reads it.
pub struct TcRecord {
    pub id: Option<String>,
    pub name: Option<String>,
    pub log: Vec<LogRecord>,
}

/// The pointer to entry `i` of the first case's step log.
pub open spec fn log_entry_ptr(i: nat) -> Seq<char> {
    "/0/log"@ + "/"@ + decimal_nat(i)
}

/// `rec` holds what entry `i` of the first case's log says.
pub open spec fn log_record_is(rec: LogRecord, body: Seq<char>, i: nat) -> bool {
    let p = log_entry_ptr(i);
    &&& rec.step == u64_at(body, p + "/"@ + "step"@)
    &&& opt_view(rec.result) == str_at(body, p + "/"@ + "result"@)
    &&& opt_view(rec.action) == str_at(body, p + "/"@ + "action"@)
    &&& opt_view(rec.assert) == str_at(body, p + "/"@ + "assert"@)
    &&& opt_view(rec.target) == str_at(body, p + "/"@ + "target"@)
    &&& opt_view(rec.element_found) == str_at(body, p + "/"@ + "element_found"@)
    &&& opt_view(rec.error) == str_at(body, p + "/"@ + "error"@)
}

/// The report holds a case: it is a non-empty JSON array.
pub open spec fn has_first_case(body: Seq<char>) -> bool {
    array_len_at(body, ""@) matches Some(n) && n > 0
}

/// The number of entries of the first case's log (none when it has no
/// `log` array).
pub open spec fn first_log_len(body: Seq<char>) -> nat {
    match array_len_at(body, "/0/log"@) {
        Some(n) => n,
        None => 0,
    }
}

fn log_record(body: &str, i: u64) -> (r: LogRecord)
    ensures
        log_record_is(r, body@, i as nat),
{
    let p = index_child("/0/log", i);
    LogRecord {
        step: u64_at_exec(body, child(p.as_str(), "step").as_str()),
        result: str_at_exec(body, child(p.as_str(), "result").as_str()),
        action: str_at_exec(body, child(p.as_str(), "action").as_str()),
        assert: str_at_exec(body, child(p.as_str(), "assert").as_str()),
        target: str_at_exec(body, child(p.as_str(), "target").as_str()),
        element_found: str_at_exec(body, child(p.as_str(), "element_found").as_str()),
        error: str_at_exec(body, child(p.as_str(), "error").as_str()),
    }
}

/// The first case of a test report (a JSON array of cases), as the
/// calibration reads it: its `id`, `name` and step log; none for a report
/// that holds no case; an error for a report that is not JSON.
pub fn first_case(report_json: &str) -> (r: Result<Option<TcRecord>, String>)
    ensures
        match r {
            Err(e) => exists|m: Seq<char>|
                json_at(report_json@, ""@) == Err::<Option<JsonLeafView>, Seq<char>>(m) && e@
                    == "parse test report: "@ + m,
            Ok(None) => json_ok(report_json@) && !has_first_case(report_json@),
            Ok(Some(tc)) => {
                &&& json_ok(report_json@)
                &&& has_first_case(report_json@)
                &&& opt_view(tc.id) == str_at(report_json@, "/0/id"@)
                &&& opt_view(tc.name) == str_at(report_json@, "/0/name"@)
                &&& tc.log@.len() == first_log_len(report_json@)
                &&& forall|i: int|
                    0 <= i < tc.log@.len() ==> log_record_is(
                        #[trigger] tc.log@[i],
                        report_json@,
                        i as nat,
                    )
            },
        },
{
    match json_check(report_json) {
        Err(m) => {
            let mut v: Vec<char> = Vec::new();
            push_str(&mut v, "parse test report: ");
            push_str(&mut v, m.as_str());
            return Err(string_of(&v));
        },
        Ok(_) => {},
    }
    match array_len_at_exec(report_json, "") {
        Some(n) => {
            if n == 0 {
                return Ok(None);
            }
        },
        None => return Ok(None),
    }
    let n = match array_len_at_exec(report_json, "/0/log") {
        Some(n) => n,
        None => 0,
    };
    let mut log: Vec<LogRecord> = Vec::new();
    let mut i: usize = 0;
    while i < n
        invariant
            i <= n,
            n == first_log_len(report_json@),
            log@.len() == i,
            forall|k: int| 0 <= k < i ==> log_record_is(#[trigger] log@[k], report_json@, k as nat),
        decreases n - i,
    {
        log.push(log_record(report_json, i as u64));
        i = i + 1;
    }
    Ok(
        Some(
            TcRecord {
                id: str_at_exec(report_json, "/0/id"),
                name: str_at_exec(report_json, "/0/name"),
                log,
            },
        ),
    )
}

pub struct StepReport {
    pub step: usize,
    pub action: Option<String>,
    pub assert: Option<String>,
    pub target: Option<String>,
    pub status: String,
    pub element_found: Option<String>,
    pub error: Option<String>,
}

pub struct CalibrationReport {
    pub tc_id: String,
    pub tc_name: String,
    pub status: String,
    pub steps: Vec<StepReport>,
    pub total: usize,
    pub passed: usize,
    pub failed: usize,
    pub skipped: usize,
}

/// The report status of a step result: `pass`, `fail` and `skip` in any
/// letter case, anything else unknown.
pub open spec fn step_status_spec(result: Seq<char>) -> Seq<char> {
    let l = lowercase(result);
    if l == "pass"@ {
        "PASS"@
    } else if l == "fail"@ {
        "FAIL"@
    } else if l == "skip"@ {
        "SKIP"@
    } else {
        "UNKNOWN"@
    }
}

fn eq_chars(a: &str, b: &str) -> (r: bool)
    ensures
        r == (a@ == b@),
{
    crate::text::str_eq(a, b)
}

/// `PASS`, `FAIL`, `SKIP` or `UNKNOWN` for a step's result.
pub fn map_step_status(result: &str) -> (r: String)
    ensures
        r@ == step_status_spec(result@),
{
    let l = to_lowercase(result);
    if eq_chars(l.as_str(), "pass") {
        String::from_str("PASS")
    } else if eq_chars(l.as_str(), "fail") {
        String::from_str("FAIL")
    } else if eq_chars(l.as_str(), "skip") {
        String::from_str("SKIP")
    } else {
        String::from_str("UNKNOWN")
    }
}

/// The status of a log entry: its result, `unknown` where it has none.
pub open spec fn entry_status(e: LogRecord) -> Seq<char> {
    step_status_spec(
        match e.result {
            Some(r) => r@,
            None => "unknown"@,
        },
    )
}

/// How many of the entries have the status `st`.
pub open spec fn count_status(log: Seq<LogRecord>, st: Seq<char>) -> nat
    decreases log.len(),
{
    if log.len() == 0 {
        0
    } else {
        count_status(log.drop_last(), st) + if entry_status(log.last()) == st {
            1nat
        } else {
            0nat
        }
    }
}

pub proof fn lemma_count_bound(log: Seq<LogRecord>, st: Seq<char>)
    ensures
        count_status(log, st) <= log.len(),
    decreases log.len(),
{
    if log.len() > 0 {
        lemma_count_bound(log.drop_last(), st);
    }
}

proof fn lemma_statuses_differ()
    ensures
        "PASS"@ != "FAIL"@,
        "PASS"@ != "SKIP"@,
        "FAIL"@ != "SKIP"@,
{
    reveal_strlit("PASS");
    reveal_strlit("FAIL");
    reveal_strlit("SKIP");
    assert("PASS"@[0] != "FAIL"@[0]);
    assert("PASS"@[0] != "SKIP"@[0]);
    assert("FAIL"@[0] != "SKIP"@[0]);
}

/// The report line of one log entry.
pub open spec fn step_matches(s: StepReport, e: LogRecord) -> bool {
    &&& s.step as int == match e.step {
        Some(n) => n as int,
        None => 0int,
    }
    &&& opt_view(s.action) == opt_view(e.action)
    &&& opt_view(s.assert) == opt_view(e.assert)
    &&& opt_view(s.target) == opt_view(e.target)
    &&& s.status@ == entry_status(e)
    &&& opt_view(s.element_found) == opt_view(e.element_found)
    &&& opt_view(s.error) == opt_view(e.error)
}

/// The calibration report of the first test case of a run report named
/// `tc_name`, or an error when the run report holds no test case.
pub fn build_calibration_report(tc_name: &str, tc: Option<&TcRecord>) -> (r: Result<
    CalibrationReport,
    String,
>)
    requires
        tc matches Some(t) ==> forall|i: int|
            0 <= i < t.log@.len() ==> ((#[trigger] t.log@[i]).step matches Some(n) ==> n
                <= usize::MAX),
    ensures
        tc is None ==> (r matches Err(e) && e@ == "test report empty"@),
        tc matches Some(t) ==> (r matches Ok(rep) && {
            &&& rep.tc_id@ == match t.id {
                Some(i) => i@,
                None => tc_name@,
            }
            &&& rep.tc_name@ == match t.name {
                Some(n) => n@,
                None => tc_name@,
            }
            &&& rep.steps@.len() == t.log@.len()
            &&& forall|i: int|
                0 <= i < t.log@.len() ==> step_matches(#[trigger] rep.steps@[i], t.log@[i])
            &&& rep.total == t.log@.len()
            &&& rep.passed == count_status(t.log@, "PASS"@)
            &&& rep.failed == count_status(t.log@, "FAIL"@)
            &&& rep.skipped == count_status(t.log@, "SKIP"@)
            &&& rep.status@ == if rep.failed > 0 {
                "HAS_FAILURES"@
            } else {
                "CALIBRATED"@
            }
        }),
{
    let t = match tc {
        Some(t) => t,
        None => {
            return Err(String::from_str("test report empty"));
        },
    };
    let id = match &t.id {
        Some(i) => copy_string(i),
        None => String::from_str(tc_name),
    };
    let name = match &t.name {
        Some(n) => copy_string(n),
        None => String::from_str(tc_name),
    };
    let mut steps: Vec<StepReport> = Vec::new();
    let mut passed: usize = 0;
    let mut failed: usize = 0;
    let mut skipped: usize = 0;
    let mut i: usize = 0;
    while i < t.log.len()
        invariant
            i <= t.log@.len(),
            steps@.len() == i,
            forall|j: int| 0 <= j < i ==> step_matches(#[trigger] steps@[j], t.log@[j]),
            forall|j: int|
                0 <= j < t.log@.len() ==> ((#[trigger] t.log@[j]).step matches Some(n) ==> n
                    <= usize::MAX),
            passed == count_status(t.log@.take(i as int), "PASS"@),
            failed == count_status(t.log@.take(i as int), "FAIL"@),
            skipped == count_status(t.log@.take(i as int), "SKIP"@),
        decreases t.log@.len() - i,
    {
        let e = &t.log[i];
        proof {
            assert(t.log@.take(i + 1).drop_last() =~= t.log@.take(i as int));
            lemma_count_bound(t.log@.take(i as int), "PASS"@);
            lemma_count_bound(t.log@.take(i as int), "FAIL"@);
            lemma_count_bound(t.log@.take(i as int), "SKIP"@);
            assert(t.log@.take(i + 1).last() == *e);
            lemma_statuses_differ();
        }
        let status = match &e.result {
            Some(r) => map_step_status(r.as_str()),
            None => map_step_status("unknown"),
        };
        if eq_chars(status.as_str(), "PASS") {
            passed = passed + 1;
        } else if eq_chars(status.as_str(), "FAIL") {
            failed = failed + 1;
        } else if eq_chars(status.as_str(), "SKIP") {
            skipped = skipped + 1;
        }
        let step: usize = match e.step {
            Some(n) => n as usize,
            None => 0,
        };
        steps.push(
            StepReport {
                step,
                action: copy_opt_string(&e.action),
                assert: copy_opt_string(&e.assert),
                target: copy_opt_string(&e.target),
                status,
                element_found: copy_opt_string(&e.element_found),
                error: copy_opt_string(&e.error),
            },
        );
        i = i + 1;
    }
    assert(t.log@.take(i as int) =~= t.log@);
    let total = steps.len();
    let status = if failed > 0 {
        String::from_str("HAS_FAILURES")
    } else {
        String::from_str("CALIBRATED")
    };
    Ok(CalibrationReport { tc_id: id, tc_name: name, status, steps, total, passed, failed, skipped })
}

} // verus!
