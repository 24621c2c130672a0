use ddb::tc_select::{
    app_source_changed, candidate_spec_file, changed_files, check_regressions, declares_tc,
    mapped_tcs, recorded_pass, rerun_wanted, sorted_unique, spec_file_names,
};
use ddb::test_spec::{setup_failure, TestResult};

fn strings(v: &[&str]) -> Vec<String> {
    v.iter().map(|s| s.to_string()).collect()
}

#[test]
fn rerun_selection() {
    assert!(rerun_wanted("android", "FAIL", "TC-3"));
    assert!(!rerun_wanted("ios", "FAIL", "TC-3"));
    assert!(!rerun_wanted("android", "PASS", "TC-3"));
    assert!(!rerun_wanted("android", "FAIL", ""));
    assert_eq!(spec_file_names("TC-12"), ("qa-12.yaml".to_string(), "tc-12.yaml".to_string()));
    assert!(candidate_spec_file("login.yaml"));
    assert!(!candidate_spec_file("smoke-suite.yaml"));
    assert!(!candidate_spec_file("results.yaml"));
    assert!(!candidate_spec_file("login.yml"));
    assert!(declares_tc("id: TC-12\nname: x", "TC-12"));
    assert!(!declares_tc("id: TC-13", "TC-12"));
}

#[test]
fn rerun_paths_sorted_once() {
    let v = strings(&["t/b.yaml", "t/a.yaml", "t/b.yaml"]);
    assert_eq!(sorted_unique(&v), vec!["t/a.yaml", "t/b.yaml"]);
    assert!(sorted_unique(&Vec::new()).is_empty());
}

fn result(id: &str, status: &str) -> TestResult {
    let mut r = setup_failure(id, "n", 1, String::new(), Vec::new());
    r.status = status.to_string();
    r
}

#[test]
fn regressions_need_an_earlier_pass() {
    let entries = vec![
        ("TC-1-old.yaml".to_string(), Some("status: PASS".to_string())),
        ("TC-2-old.yaml".to_string(), Some("status: FAIL".to_string())),
        ("TC-3-old.json".to_string(), Some("status: PASS".to_string())),
        ("TC-4-old.yaml".to_string(), None),
        ("TC-5-x.yaml".to_string(), Some("{\"status\":\"PASS\"}".to_string())),
    ];
    let results = vec![
        result("TC-1", "FAIL"),
        result("TC-2", "FAIL"),
        result("TC-3", "FAIL"),
        result("TC-4", "FAIL"),
        result("TC-5", "FAIL"),
        result("TC-1", "PASS"),
    ];
    assert_eq!(
        check_regressions(&results, &entries),
        vec!["TC-1: was PASS, now FAIL", "TC-5: was PASS, now FAIL"]
    );
    assert!(recorded_pass("x\nstatus: PASS\n"));
    assert!(!recorded_pass("status: pass"));
}

#[test]
fn affected_cases() {
    let files = changed_files("app/src/Login.kt\nREADME.md\n");
    assert_eq!(files, vec!["app/src/Login.kt", "README.md"]);
    assert!(app_source_changed(&files));
    assert!(!app_source_changed(&strings(&["README.md", "docs/x.txt"])));
    let map = vec![
        ("Login".to_string(), strings(&["login.yaml", "auth.yaml"])),
        ("src/".to_string(), strings(&["auth.yaml", "smoke.yaml"])),
        ("Profile".to_string(), strings(&["profile.yaml"])),
    ];
    assert_eq!(
        mapped_tcs(&files, &map, "tests"),
        vec!["tests/login.yaml", "tests/auth.yaml", "tests/smoke.yaml"]
    );
}
