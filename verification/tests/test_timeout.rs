use ddb::test_timeout::{deadline_after, PhaseBudgets, StepPhase, StepRunner, TimeoutLevel, TimeoutManager};

#[test]
fn test_timeout_manager_not_expired_initially() {
    let tm = TimeoutManager::new(120, 30);
    assert!(tm.check().is_ok());
    assert!(!tm.is_expired());
    assert!(tm.remaining() / 1000 >= 119);
}

#[test]
fn test_timeout_manager_step_capped_by_tc() {
    let tm = TimeoutManager::new(5, 30);
    assert!(tm.step_remaining() / 1000 <= 5);
}

#[test]
fn test_step_runner_phases() {
    let deadline = deadline_after(60);
    let mut runner = StepRunner::new(deadline, PhaseBudgets::default());
    assert_eq!(runner.phase(), StepPhase::PreIdle);
    assert!(!runner.expired());
    assert!(runner.time_remaining_secs() <= 3);

    runner.advance(StepPhase::Execute);
    assert_eq!(runner.phase(), StepPhase::Execute);
    assert!(runner.time_remaining_secs() <= 30);

    runner.advance(StepPhase::PostIdle);
    assert_eq!(runner.phase(), StepPhase::PostIdle);
    assert!(runner.time_remaining_secs() <= 3);
}

#[test]
fn test_step_runner_deadline_caps_phase() {
    let deadline = deadline_after(2);
    let mut runner = StepRunner::new(
        deadline,
        PhaseBudgets { pre_idle_s: 3, execute_s: 30, post_idle_s: 3 },
    );
    assert!(runner.time_remaining_secs() <= 2);
    runner.advance(StepPhase::Execute);
    assert!(runner.time_remaining_secs() <= 2);
}

#[test]
fn check_reports_case_before_step() {
    let tm = TimeoutManager::new_at(1_000, 10, 5);
    assert_eq!(tm.tc_deadline, 11_000);
    assert_eq!(tm.step_deadline, 6_000);
    assert!(tm.check_at(6_000).is_ok());
    assert!(matches!(tm.check_at(6_001), Err(TimeoutLevel::Step)));
    assert!(matches!(tm.check_at(11_001), Err(TimeoutLevel::Tc)));
    assert!(!tm.is_expired_at(11_000));
    assert!(tm.is_expired_at(11_001));
}

#[test]
fn reset_step_is_capped_by_what_the_case_has_left() {
    let mut tm = TimeoutManager::new_at(0, 10, 30);
    assert_eq!(tm.step_remaining_at(0), 10_000);
    tm.reset_step_at(8_000);
    assert_eq!(tm.step_deadline, 10_000);
    tm.reset_step_with_at(9_000, 0);
    assert_eq!(tm.step_deadline, 9_000);
    assert_eq!(tm.remaining_at(4_000), 6_000);
    assert_eq!(tm.tc_elapsed_at(4_000), 4_000);
    assert_eq!(tm.step_remaining_secs_at(0), 9);
}

#[test]
fn phase_deadline_never_passes_the_step() {
    let mut r = StepRunner::new_at(0, 5_000, PhaseBudgets::default());
    assert_eq!(r.phase_deadline, 3_000);
    r.advance_at(1_000, StepPhase::Execute);
    assert_eq!(r.phase_deadline, 5_000);
    assert_eq!(r.time_remaining_at(2_000), 3_000);
    assert_eq!(r.time_remaining_secs_at(2_500), 2);
    assert!(!r.expired_at(5_000));
    assert!(r.expired_at(5_001));
    let d = r.derived_with_deadline_at(1_000, 60);
    assert_eq!(d.deadline, 5_000);
    let f = StepRunner::fresh_with_budget_at(100, 7);
    assert_eq!(f.deadline, 7_100);
    assert_eq!(f.budgets.post_idle_s, 3);
}
