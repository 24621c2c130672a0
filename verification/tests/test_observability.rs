use ddb::test_observability::fetch_debug_log;
use ddb::test_observability::{lsof_fd_count, Emission, LogFormat, Observer};

fn line(e: Option<Emission>) -> String {
    match e {
        Some(Emission::Line(s)) => s,
        _ => panic!("expected a text line"),
    }
}

#[test]
fn log_format_parse() {
    assert_eq!(LogFormat::parse("text").unwrap(), LogFormat::Text);
    assert_eq!(LogFormat::parse("json").unwrap(), LogFormat::Json);
    assert!(LogFormat::parse("yaml").is_err());
}

#[test]
fn silent_observer_does_not_abort() {
    let mut obs = Observer::silent(None);
    obs.error("test", None, None, "should be silent", true);
    assert!(!obs.is_aborted());
}

#[test]
fn enabled_observer_aborts_on_infra_error() {
    let mut obs = Observer::new(true, LogFormat::Text, String::new(), None);
    assert!(!obs.is_aborted());
    obs.error("fd_leak", None, None, "test", true);
    assert!(obs.is_aborted());
}

#[test]
fn enabled_observer_does_not_abort_on_non_infra() {
    let mut obs = Observer::new(true, LogFormat::Text, String::new(), None);
    obs.error("tc_assertion_fail", Some("TC-1"), Some(3), "expected X got Y", false);
    assert!(!obs.is_aborted());
}

#[test]
fn parse_error_names_the_value() {
    assert_eq!(
        LogFormat::parse("yaml").unwrap_err(),
        "invalid --log-format: yaml (expected text|json)"
    );
}

#[test]
fn banner_and_warning_lines() {
    let mut obs = Observer::new(true, LogFormat::Text, String::new(), Some(1024));
    assert_eq!(obs.fd_soft_limit, 1024);
    assert_eq!(
        line(obs.error("tc_assertion_fail", Some("TC-1"), Some(3), "expected X got Y", false)),
        "\x1b[31mERROR [tc_assertion_fail] tc=TC-1 step=3: expected X got Y\x1b[0m\x07"
    );
    assert_eq!(line(obs.error("k", None, None, "m", false)), "\x1b[31mERROR [k] : m\x1b[0m\x07");
    assert_eq!(line(obs.warn("slow", Some("TC-2"), "late")), "\x1b[33mWARN [slow] tc=TC-2 late\x1b[0m");
    assert!(Observer::silent(None).warn("x", None, "y").is_none());
}

#[test]
fn json_records_carry_their_fields() {
    let mut obs = Observer::new(true, LogFormat::Json, String::new(), None);
    match obs.error("agent", Some("TC-9"), None, "down", true) {
        Some(Emission::Json(j)) => {
            assert_eq!(j.level, "error");
            assert_eq!(j.kind, "agent");
            assert_eq!(j.tc.as_deref(), Some("TC-9"));
            assert_eq!(j.step, None);
            assert_eq!(j.msg, "down");
            assert!(j.extras.is_empty());
        }
        _ => panic!("expected json"),
    }
    match obs.step("TC-22", 5, "tap", Some("login_button"), "PASS", "found at (100,200)") {
        Some(Emission::Json(j)) => {
            assert_eq!(j.level, "info");
            assert_eq!(j.msg, "tap -> PASS");
            assert_eq!(j.extras[1], ("target".to_string(), "login_button".to_string()));
        }
        _ => panic!("expected json"),
    }
}

#[test]
fn step_lines() {
    let obs = Observer::new(true, LogFormat::Text, String::new(), None);
    assert_eq!(
        line(obs.step("TC-22", 5, "tap", None, "FAIL", "element not found")),
        "[STEP TC-22 step-5] action=tap outcome=FAIL details=element not found"
    );
    assert_eq!(
        line(obs.step("T", 1, "tap", Some("b"), "PASS", "ok")),
        "[STEP T step-1] action=tap target=b outcome=PASS details=ok"
    );
}

#[test]
fn heartbeat_every_fifth_case_and_the_last() {
    let mut obs = Observer::new_at(0, true, LogFormat::Text, String::new(), None);
    let mut emitted = Vec::new();
    for i in 0..12usize {
        if obs.maybe_heartbeat_at(65_000, i + 1, 12, 2).is_some() {
            emitted.push(i + 1);
        }
    }
    assert_eq!(emitted, vec![5, 10, 12]);
    assert_eq!(obs.tcs_since_heartbeat, 12);
    let mut one = Observer::new_at(0, true, LogFormat::Text, String::new(), None);
    assert_eq!(
        line(one.maybe_heartbeat_at(65_000, 1, 1, 0)),
        "[PROGRESS 1/1 fails=0 FD=0 agent_uptime=65s]"
    );
}

#[test]
fn fd_thresholds() {
    let mut obs = Observer::new(true, LogFormat::Text, String::new(), Some(100));
    let (n, e) = obs.check_fd_once(50);
    assert_eq!(n, 50);
    assert!(e.is_none());
    assert!(!obs.is_aborted());
    let (_, w) = obs.check_fd_once(70);
    assert_eq!(line(w), "\x1b[33mWARN [fd_pressure] FD usage 70/100 (70%)\x1b[0m");
    assert!(!obs.is_aborted());
    let (_, x) = obs.check_fd_once(95);
    assert_eq!(line(x), "\x1b[31mERROR [fd_leak] : FD usage 95/100 (95%) >= 90%\x1b[0m\x07");
    assert!(obs.is_aborted());
    assert_eq!(obs.last_fd_count, 95);
    let mut off = Observer::silent(Some(100));
    assert_eq!(off.check_fd_once(99).0, 0);
}

#[test]
fn agent_health_verdicts() {
    let mut obs = Observer::new(true, LogFormat::Text, "http://h:1".to_string(), None);
    let (ok, e) = obs.agent_health_verdict(Ok(("200".to_string(), 1_000_000)));
    assert!(ok.is_ok() && e.is_none());
    let (ok2, slow) = obs.agent_health_verdict(Ok(("204".to_string(), 3_500_000_000)));
    assert!(ok2.is_ok());
    assert_eq!(line(slow), "\x1b[33mWARN [agent_slow] /health took 3500ms\x1b[0m");
    assert!(!obs.is_aborted());
    let (bad, _) = obs.agent_health_verdict(Ok(("503".to_string(), 1)));
    assert_eq!(bad.unwrap_err(), "agent unhealthy: HTTP 503");
    assert!(obs.is_aborted());
    let mut obs2 = Observer::new(true, LogFormat::Text, "http://h:1".to_string(), None);
    let (down, _) = obs2.agent_health_verdict(Err("connection refused".to_string()));
    assert_eq!(down.unwrap_err(), "agent unreachable: connection refused");
    let mut no_agent = Observer::new(true, LogFormat::Text, String::new(), None);
    assert!(no_agent.agent_health_verdict(Err("x".to_string())).0.is_ok());
}

#[test]
fn lsof_output_counts_lines_after_the_header() {
    assert_eq!(lsof_fd_count(""), None);
    assert_eq!(lsof_fd_count("COMMAND PID\n"), Some(0));
    assert_eq!(lsof_fd_count("H\na\nb\nc"), Some(3));
}

#[test]
fn heartbeat_throttling() {
    let mut obs = Observer::new(true, LogFormat::Text, String::new(), None);
    // The heartbeat counter increments each call; it does not panic and
    // the counter advances.
    for i in 0..12 {
        obs.maybe_heartbeat(i + 1, 100, 0);
    }
    assert!(obs.tcs_since_heartbeat >= 12);
}

#[test]
fn check_fd_once_updates_last_count() {
    let mut obs = Observer::new(true, LogFormat::Text, String::new(), None);
    let (n, _) = obs.check_fd_once(12);
    assert!(n >= 3);
    assert_eq!(obs.last_fd_count, n);
}

#[test]
fn step_emit_does_not_panic() {
    let obs = Observer::new(true, LogFormat::Json, String::new(), None);
    obs.step("TC-22", 5, "tap", Some("login_button"), "PASS", "found at (100,200)");
    let obs2 = Observer::new(true, LogFormat::Text, String::new(), None);
    obs2.step("TC-22", 5, "tap", None, "FAIL", "element not found");
}

#[test]
fn json_emit_does_not_panic() {
    match ddb::test_observability::emit_json("info", "test", Some("TC-1"), Some(2), "hello", &[("k", "v")]) {
        Emission::Json(j) => {
            assert_eq!(j.level, "info");
            assert_eq!(j.kind, "test");
            assert_eq!(j.tc.as_deref(), Some("TC-1"));
            assert_eq!(j.step, Some(2));
            assert_eq!(j.msg, "hello");
            assert_eq!(j.extras, vec![("k".to_string(), "v".to_string())]);
        }
        _ => panic!("expected json"),
    }
}

#[test]
fn debug_log_body() {
    assert_eq!(fetch_debug_log(Ok("line".to_string())), Some("line".to_string()));
    assert_eq!(fetch_debug_log(Ok(String::new())), None);
    assert_eq!(fetch_debug_log(Err("timeout".to_string())), None);
}
