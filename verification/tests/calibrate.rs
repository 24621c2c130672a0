use ddb::calibrate::{build_calibration_report, map_step_status, LogRecord, TcRecord};

fn rec(step: Option<u64>, result: Option<&str>, action: Option<&str>) -> LogRecord {
    LogRecord {
        step,
        result: result.map(String::from),
        action: action.map(String::from),
        assert: None,
        target: Some("login".to_string()),
        element_found: None,
        error: None,
    }
}

#[test]
fn step_statuses() {
    assert_eq!(map_step_status("pass"), "PASS");
    assert_eq!(map_step_status("Fail"), "FAIL");
    assert_eq!(map_step_status("SKIP"), "SKIP");
    assert_eq!(map_step_status("flaky"), "UNKNOWN");
}

#[test]
fn empty_report() {
    assert_eq!(build_calibration_report("TC-1", None).err(), Some("test report empty".to_string()));
}

#[test]
fn report_counts_steps() {
    let tc = TcRecord {
        id: Some("TC-7".to_string()),
        name: None,
        log: vec![
            rec(Some(1), Some("pass"), Some("tap")),
            rec(Some(2), Some("fail"), Some("type")),
            rec(None, None, None),
            rec(Some(4), Some("skip"), None),
        ],
    };
    let r = build_calibration_report("login", Some(&tc)).unwrap();
    assert_eq!(r.tc_id, "TC-7");
    assert_eq!(r.tc_name, "login");
    assert_eq!(r.status, "HAS_FAILURES");
    assert_eq!((r.total, r.passed, r.failed, r.skipped), (4, 1, 1, 1));
    assert_eq!(r.steps[1].step, 2);
    assert_eq!(r.steps[1].status, "FAIL");
    assert_eq!(r.steps[2].step, 0);
    assert_eq!(r.steps[2].status, "UNKNOWN");
    assert_eq!(r.steps[0].action.as_deref(), Some("tap"));
    assert_eq!(r.steps[0].target.as_deref(), Some("login"));
    let ok = TcRecord { id: None, name: None, log: vec![rec(Some(1), Some("PASS"), None)] };
    let r = build_calibration_report("x", Some(&ok)).unwrap();
    assert_eq!(r.status, "CALIBRATED");
    assert_eq!(r.tc_id, "x");
}

#[test]
fn first_case_of_a_report() {
    let report = r#"[{"id":"TC-1","name":"Login","log":[{"step":1,"result":"PASS","action":"tap"},{"step":2,"error":"missing","assert":"element_exists"}]},{"id":"TC-2"}]"#;
    let tc = ddb::calibrate::first_case(report).unwrap().unwrap();
    assert_eq!(tc.id.as_deref(), Some("TC-1"));
    assert_eq!(tc.name.as_deref(), Some("Login"));
    assert_eq!(tc.log.len(), 2);
    assert_eq!(tc.log[0].step, Some(1));
    assert_eq!(tc.log[0].result.as_deref(), Some("PASS"));
    assert_eq!(tc.log[1].error.as_deref(), Some("missing"));
    assert_eq!(tc.log[1].result, None);
    assert!(ddb::calibrate::first_case("[]").unwrap().is_none());
    assert!(ddb::calibrate::first_case("{\"id\":1}").unwrap().is_none());
    let e = ddb::calibrate::first_case("not json").err().unwrap();
    assert!(e.starts_with("parse test report: "));
}
