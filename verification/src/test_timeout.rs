//! Test-case and step deadlines.
//!
//! Times are milliseconds on the system clock (`clock_ms`). Every method
//! that reads the clock delegates to an `_at` variant that takes the
//! current time and carries the exact contract.
use vstd::prelude::*;

verus! {

/// The current time in milliseconds since the Unix epoch
/// (`SystemTime::now()`; 0 for a clock set before the epoch). Nothing is
/// promised of its value.
#[verifier::external_body]
pub(crate) fn clock_ms() -> (r: u64) {
    std::time::SystemTime::now().duration_since(std::time::UNIX_EPOCH).map(
        |d| d.as_millis() as u64,
    ).unwrap_or(0)
}

/// A deadline has passed at the time `now`.
pub open spec fn now_past(now: u64, deadline: u64) -> bool {
    now > deadline
}

pub open spec fn min_u(a: int, b: int) -> int {
    if a <= b {
        a
    } else {
        b
    }
}

/// `a - b`, or 0 when `b` is later.
pub open spec fn sat_sub(a: int, b: int) -> int {
    if a >= b {
        a - b
    } else {
        0
    }
}

/// `a + b`, capped at `u64::MAX`.
pub open spec fn sat_add(a: int, b: int) -> int {
    if a + b > u64::MAX {
        u64::MAX as int
    } else {
        a + b
    }
}

/// Seconds as milliseconds, capped at `u64::MAX`.
pub open spec fn secs_ms(s: int) -> int {
    if s * 1000 > u64::MAX {
        u64::MAX as int
    } else {
        s * 1000
    }
}

fn secs_to_ms(s: u64) -> (r: u64)
    ensures
        r == secs_ms(s as int),
{
    if s > u64::MAX / 1000 {
        u64::MAX
    } else {
        s * 1000
    }
}

/// The time `secs` seconds from now, on the clock of `clock_ms`
/// (`Instant::now() + Duration::from_secs(secs)`).
pub fn deadline_after(secs: u64) -> (r: u64)
    ensures
        exists|now: u64| r == #[trigger] sat_add(now as int, secs_ms(secs as int)),
        r >= secs_ms(secs as int),
{
    let now = clock_ms();
    let r = now.saturating_add(secs_to_ms(secs));
    assert(r == sat_add(now as int, secs_ms(secs as int)));
    r
}

/// Which deadline ran out.
#[derive(PartialEq, Eq, Structural, Clone, Copy, Debug)]
pub enum TimeoutLevel {
    Step,
    Tc,
}

/// The deadlines of one test case and of its current step.
pub struct TimeoutManager {
    pub tc_start: u64,
    pub tc_deadline: u64,
    pub step_deadline: u64,
    pub step_default: u64,
}

impl TimeoutManager {
    /// A test case started at `now` with `tc_timeout_secs` for the whole
    /// case and `step_timeout_secs` for its first step.
    pub fn new_at(now: u64, tc_timeout_secs: u64, step_timeout_secs: u64) -> (r: Self)
        ensures
            r.tc_start == now,
            r.tc_deadline == sat_add(now as int, secs_ms(tc_timeout_secs as int)),
            r.step_deadline == sat_add(now as int, secs_ms(step_timeout_secs as int)),
            r.step_default == secs_ms(step_timeout_secs as int),
    {
        let tc = secs_to_ms(tc_timeout_secs);
        let st = secs_to_ms(step_timeout_secs);
        TimeoutManager {
            tc_start: now,
            tc_deadline: now.saturating_add(tc),
            step_deadline: now.saturating_add(st),
            step_default: st,
        }
    }

    pub fn new(tc_timeout_secs: u64, step_timeout_secs: u64) -> (r: Self)
        ensures
            r.tc_deadline == sat_add(r.tc_start as int, secs_ms(tc_timeout_secs as int)),
            r.step_deadline == sat_add(r.tc_start as int, secs_ms(step_timeout_secs as int)),
            r.step_default == secs_ms(step_timeout_secs as int),
    {
        Self::new_at(clock_ms(), tc_timeout_secs, step_timeout_secs)
    }

    /// The case deadline is checked first, then the step deadline.
    pub fn check_at(&self, now: u64) -> (r: Result<(), TimeoutLevel>)
        ensures
            now > self.tc_deadline ==> r == Err::<(), TimeoutLevel>(TimeoutLevel::Tc),
            now <= self.tc_deadline && now > self.step_deadline ==> r == Err::<(), TimeoutLevel>(
                TimeoutLevel::Step,
            ),
            now <= self.tc_deadline && now <= self.step_deadline ==> r is Ok,
            r == self.check_spec(now as int),
    {
        if now > self.tc_deadline {
            return Err(TimeoutLevel::Tc);
        }
        if now > self.step_deadline {
            return Err(TimeoutLevel::Step);
        }
        Ok(())
    }

    /// The outcome of a check at `now`: the case deadline first, then the
    /// step deadline.
    pub open spec fn check_spec(&self, now: int) -> Result<(), TimeoutLevel> {
        if now > self.tc_deadline {
            Err(TimeoutLevel::Tc)
        } else if now > self.step_deadline {
            Err(TimeoutLevel::Step)
        } else {
            Ok(())
        }
    }

    pub fn check(&self) -> (r: Result<(), TimeoutLevel>)
        ensures
            exists|now: u64| r == #[trigger] self.check_spec(now as int),
    {
        let now = clock_ms();
        let r = self.check_at(now);
        assert(r == self.check_spec(now as int));
        r
    }

    /// Milliseconds left in the test case at `now`.
    pub open spec fn remaining_spec(&self, now: int) -> int {
        sat_sub(self.tc_deadline as int, now)
    }

    /// Milliseconds left in the step at `now`, capped by the test case.
    pub open spec fn step_remaining_spec(&self, now: int) -> int {
        min_u(sat_sub(self.tc_deadline as int, now), sat_sub(self.step_deadline as int, now))
    }

    /// Restart the step at `now` with the default step budget, capped by
    /// what is left of the test case.
    pub fn reset_step_at(&mut self, now: u64)
        ensures
            final(self).step_deadline == sat_add(
                now as int,
                min_u(old(self).step_default as int, old(self).remaining_spec(now as int)),
            ),
            final(self).tc_start == old(self).tc_start,
            final(self).tc_deadline == old(self).tc_deadline,
            final(self).step_default == old(self).step_default,
    {
        let rem = self.remaining_at(now);
        let d = if self.step_default <= rem {
            self.step_default
        } else {
            rem
        };
        self.step_deadline = now.saturating_add(d);
    }

    pub fn reset_step(&mut self)
        ensures
            exists|now: u64|
                final(self).step_deadline == sat_add(
                    now as int,
                    min_u(old(self).step_default as int, #[trigger] old(self).remaining_spec(now as int)),
                ),
            final(self).tc_start == old(self).tc_start,
            final(self).tc_deadline == old(self).tc_deadline,
            final(self).step_default == old(self).step_default,
    {
        let now = clock_ms();
        let ghost before = *self;
        self.reset_step_at(now);
        assert(self.step_deadline == sat_add(
            now as int,
            min_u(before.step_default as int, before.remaining_spec(now as int)),
        ));
    }

    /// Restart the step at `now` with `secs`, capped by what is left of the
    /// test case.
    pub fn reset_step_with_at(&mut self, now: u64, secs: u64)
        ensures
            final(self).step_deadline == sat_add(
                now as int,
                min_u(secs_ms(secs as int), old(self).remaining_spec(now as int)),
            ),
            final(self).tc_start == old(self).tc_start,
            final(self).tc_deadline == old(self).tc_deadline,
            final(self).step_default == old(self).step_default,
    {
        let rem = self.remaining_at(now);
        let want = secs_to_ms(secs);
        let d = if want <= rem {
            want
        } else {
            rem
        };
        self.step_deadline = now.saturating_add(d);
    }

    pub fn reset_step_with(&mut self, secs: u64)
        ensures
            exists|now: u64|
                final(self).step_deadline == sat_add(
                    now as int,
                    min_u(secs_ms(secs as int), #[trigger] old(self).remaining_spec(now as int)),
                ),
            final(self).tc_start == old(self).tc_start,
            final(self).tc_deadline == old(self).tc_deadline,
            final(self).step_default == old(self).step_default,
    {
        let now = clock_ms();
        let ghost before = *self;
        self.reset_step_with_at(now, secs);
        assert(self.step_deadline == sat_add(
            now as int,
            min_u(secs_ms(secs as int), before.remaining_spec(now as int)),
        ));
    }

    pub fn remaining_at(&self, now: u64) -> (r: u64)
        ensures
            r == self.remaining_spec(now as int),
    {
        self.tc_deadline.saturating_sub(now)
    }

    /// Milliseconds left in the test case.
    pub fn remaining(&self) -> (r: u64)
        ensures
            exists|now: u64| r == #[trigger] self.remaining_spec(now as int),
            r <= self.tc_deadline,
    {
        let now = clock_ms();
        let r = self.remaining_at(now);
        assert(r == self.remaining_spec(now as int));
        r
    }

    pub fn step_remaining_at(&self, now: u64) -> (r: u64)
        ensures
            r == self.step_remaining_spec(now as int),
    {
        let tc_rem = self.tc_deadline.saturating_sub(now);
        let step_rem = self.step_deadline.saturating_sub(now);
        if tc_rem <= step_rem {
            tc_rem
        } else {
            step_rem
        }
    }

    /// Milliseconds left in the step, capped by the test case.
    pub fn step_remaining(&self) -> (r: u64)
        ensures
            exists|now: u64| r == #[trigger] self.step_remaining_spec(now as int),
            r <= self.tc_deadline,
            r <= self.step_deadline,
    {
        let now = clock_ms();
        let r = self.step_remaining_at(now);
        assert(r == self.step_remaining_spec(now as int));
        r
    }

    pub fn step_remaining_secs_at(&self, now: u64) -> (r: u64)
        ensures
            r == self.step_remaining_spec(now as int) / 1000,
    {
        self.step_remaining_at(now) / 1000
    }

    /// Whole seconds left in the step.
    pub fn step_remaining_secs(&self) -> (r: u64)
        ensures
            r <= self.tc_deadline / 1000,
    {
        self.step_remaining_secs_at(clock_ms())
    }

    pub fn tc_elapsed_at(&self, now: u64) -> (r: u64)
        ensures
            r == sat_sub(now as int, self.tc_start as int),
    {
        now.saturating_sub(self.tc_start)
    }

    /// Milliseconds since the test case started.
    pub fn tc_elapsed(&self) -> (r: u64)
        ensures
            exists|now: u64| r == #[trigger] sat_sub(now as int, self.tc_start as int),
    {
        let now = clock_ms();
        let r = self.tc_elapsed_at(now);
        assert(r == sat_sub(now as int, self.tc_start as int));
        r
    }

    pub fn is_expired_at(&self, now: u64) -> (r: bool)
        ensures
            r == (now > self.tc_deadline),
    {
        now > self.tc_deadline
    }

    /// Whether the test case deadline has passed.
    pub fn is_expired(&self) -> (r: bool)
        ensures
            exists|now: u64| r == (#[trigger] now_past(now, self.tc_deadline)),
    {
        let now = clock_ms();
        let r = self.is_expired_at(now);
        assert(r == now_past(now, self.tc_deadline));
        r
    }
}

/// The step never outlasts its test case: at every instant the time left in
/// the step is at most the time left in the test case.
pub proof fn law_step_capped_by_case(tm: TimeoutManager, now: int)
    ensures
        tm.step_remaining_spec(now) <= tm.remaining_spec(now),
{
}

/// Time left only shrinks: for a later instant, no more time is left.
pub proof fn law_remaining_shrinks(tm: TimeoutManager, t1: int, t2: int)
    requires
        t1 <= t2,
    ensures
        tm.remaining_spec(t2) <= tm.remaining_spec(t1),
        tm.step_remaining_spec(t2) <= tm.step_remaining_spec(t1),
{
}

/// The phases of one step.
#[derive(PartialEq, Eq, Structural, Clone, Copy, Debug)]
pub enum StepPhase {
    PreIdle,
    Execute,
    PostIdle,
}

/// Per-phase budgets in seconds.
pub struct PhaseBudgets {
    pub pre_idle_s: u64,
    pub execute_s: u64,
    pub post_idle_s: u64,
}

impl PhaseBudgets {
    pub open spec fn budget(&self, p: StepPhase) -> u64 {
        match p {
            StepPhase::PreIdle => self.pre_idle_s,
            StepPhase::Execute => self.execute_s,
            StepPhase::PostIdle => self.post_idle_s,
        }
    }
}

impl Default for PhaseBudgets {
    /// 3 s before, 30 s to act, 3 s after.
    fn default() -> (r: Self)
        ensures
            r.pre_idle_s == 3,
            r.execute_s == 30,
            r.post_idle_s == 3,
    {
        PhaseBudgets { pre_idle_s: 3, execute_s: 30, post_idle_s: 3 }
    }
}

/// A step's deadline, its current phase and the phase's own deadline, which
/// never lies past the step's.
pub struct StepRunner {
    pub deadline: u64,
    pub phase: StepPhase,
    pub budgets: PhaseBudgets,
    pub phase_deadline: u64,
}

impl StepRunner {
    /// The phase deadline lies no later than the step deadline.
    pub open spec fn wf(&self) -> bool {
        self.phase_deadline <= self.deadline
    }

    /// A runner entering the pre-idle phase at `now`.
    pub fn new_at(now: u64, step_deadline: u64, budgets: PhaseBudgets) -> (r: Self)
        ensures
            r.wf(),
            r.deadline == step_deadline,
            r.phase == StepPhase::PreIdle,
            r.budgets == budgets,
            r.phase_deadline == min_u(
                sat_add(now as int, secs_ms(budgets.pre_idle_s as int)),
                step_deadline as int,
            ),
    {
        let phase_end = now.saturating_add(secs_to_ms(budgets.pre_idle_s));
        let pd = if phase_end <= step_deadline {
            phase_end
        } else {
            step_deadline
        };
        StepRunner { deadline: step_deadline, phase: StepPhase::PreIdle, budgets, phase_deadline: pd }
    }

    pub fn new(step_deadline: u64, budgets: PhaseBudgets) -> (r: Self)
        ensures
            r.wf(),
            r.deadline == step_deadline,
            r.phase == StepPhase::PreIdle,
            r.budgets == budgets,
            exists|now: u64|
                r.phase_deadline == min_u(
                    #[trigger] sat_add(now as int, secs_ms(budgets.pre_idle_s as int)),
                    step_deadline as int,
                ),
    {
        let now = clock_ms();
        let r = Self::new_at(now, step_deadline, budgets);
        assert(r.phase_deadline == min_u(
            sat_add(now as int, secs_ms(r.budgets.pre_idle_s as int)),
            step_deadline as int,
        ));
        r
    }

    /// A runner that ignores any outer budget: `secs` from `now` for the
    /// step, `secs` for the pre-idle and execute phases, 3 s to settle.
    pub fn fresh_with_budget_at(now: u64, secs: u64) -> (r: Self)
        ensures
            r.wf(),
            r.deadline == sat_add(now as int, secs_ms(secs as int)),
            r.phase == StepPhase::PreIdle,
            r.budgets == (PhaseBudgets { pre_idle_s: secs, execute_s: secs, post_idle_s: 3 }),
    {
        let deadline = now.saturating_add(secs_to_ms(secs));
        Self::new_at(now, deadline, PhaseBudgets { pre_idle_s: secs, execute_s: secs, post_idle_s: 3 })
    }

    pub fn fresh_with_budget(secs: u64) -> (r: Self)
        ensures
            r.wf(),
            r.phase == StepPhase::PreIdle,
            r.budgets == (PhaseBudgets { pre_idle_s: secs, execute_s: secs, post_idle_s: 3 }),
            exists|now: u64| r.deadline == #[trigger] sat_add(now as int, secs_ms(secs as int)),
    {
        let now = clock_ms();
        let r = Self::fresh_with_budget_at(now, secs);
        assert(r.deadline == sat_add(now as int, secs_ms(secs as int)));
        r
    }

    /// Enter `phase` at `now`: its deadline is its budget from now, capped
    /// by the step deadline.
    pub fn advance_at(&mut self, now: u64, phase: StepPhase)
        requires
            old(self).wf(),
        ensures
            final(self).wf(),
            final(self).phase == phase,
            final(self).deadline == old(self).deadline,
            final(self).budgets == old(self).budgets,
            final(self).phase_deadline == min_u(
                sat_add(now as int, secs_ms(old(self).budgets.budget(phase) as int)),
                old(self).deadline as int,
            ),
    {
        self.phase = phase;
        let budget = match phase {
            StepPhase::PreIdle => self.budgets.pre_idle_s,
            StepPhase::Execute => self.budgets.execute_s,
            StepPhase::PostIdle => self.budgets.post_idle_s,
        };
        let phase_end = now.saturating_add(secs_to_ms(budget));
        self.phase_deadline = if phase_end <= self.deadline {
            phase_end
        } else {
            self.deadline
        };
    }

    pub fn advance(&mut self, phase: StepPhase)
        requires
            old(self).wf(),
        ensures
            final(self).wf(),
            final(self).phase == phase,
            final(self).deadline == old(self).deadline,
            final(self).budgets == old(self).budgets,
            exists|now: u64|
                final(self).phase_deadline == min_u(
                    #[trigger] sat_add(now as int, secs_ms(old(self).budgets.budget(phase) as int)),
                    old(self).deadline as int,
                ),
    {
        let now = clock_ms();
        let ghost before = *self;
        self.advance_at(now, phase);
        assert(self.phase_deadline == min_u(
            sat_add(now as int, secs_ms(before.budgets.budget(phase) as int)),
            before.deadline as int,
        ));
    }

    pub fn expired_at(&self, now: u64) -> (r: bool)
        ensures
            r == (now > self.deadline),
    {
        now > self.deadline
    }

    /// Whether the step deadline has passed.
    pub fn expired(&self) -> (r: bool)
        ensures
            exists|now: u64| r == (#[trigger] now_past(now, self.deadline)),
    {
        let now = clock_ms();
        let r = self.expired_at(now);
        assert(r == now_past(now, self.deadline));
        r
    }

    /// A runner in the execute phase bounded by `secs` from `now` and by
    /// this runner's deadline.
    pub fn derived_with_deadline_at(&self, now: u64, secs: u64) -> (r: StepRunner)
        ensures
            r.wf(),
            r.deadline == sat_add(
                now as int,
                min_u(secs_ms(secs as int), sat_sub(self.deadline as int, now as int)),
            ),
            r.phase_deadline == r.deadline,
            r.phase == StepPhase::Execute,
            r.budgets == (PhaseBudgets { pre_idle_s: 0, execute_s: secs, post_idle_s: 0 }),
    {
        let cap = secs_to_ms(secs);
        let outer = self.deadline.saturating_sub(now);
        let bound = if cap <= outer {
            cap
        } else {
            outer
        };
        let new_deadline = now.saturating_add(bound);
        StepRunner {
            deadline: new_deadline,
            phase: StepPhase::Execute,
            budgets: PhaseBudgets { pre_idle_s: 0, execute_s: secs, post_idle_s: 0 },
            phase_deadline: new_deadline,
        }
    }

    pub fn derived_with_deadline(&self, secs: u64) -> (r: StepRunner)
        ensures
            r.wf(),
            r.phase == StepPhase::Execute,
            r.budgets == (PhaseBudgets { pre_idle_s: 0, execute_s: secs, post_idle_s: 0 }),
            r.phase_deadline == r.deadline,
            exists|now: u64|
                r.deadline == sat_add(
                    now as int,
                    min_u(secs_ms(secs as int), #[trigger] sat_sub(self.deadline as int, now as int)),
                ),
    {
        let now = clock_ms();
        let r = self.derived_with_deadline_at(now, secs);
        assert(r.deadline == sat_add(
            now as int,
            min_u(secs_ms(secs as int), sat_sub(self.deadline as int, now as int)),
        ));
        r
    }

    /// Milliseconds left at `now`: to the phase deadline, capped by the step.
    pub open spec fn time_remaining_spec(&self, now: int) -> int {
        min_u(sat_sub(self.deadline as int, now), sat_sub(self.phase_deadline as int, now))
    }

    pub fn time_remaining_at(&self, now: u64) -> (r: u64)
        ensures
            r == self.time_remaining_spec(now as int),
    {
        let step_rem = self.deadline.saturating_sub(now);
        let phase_rem = self.phase_deadline.saturating_sub(now);
        if step_rem <= phase_rem {
            step_rem
        } else {
            phase_rem
        }
    }

    pub fn time_remaining(&self) -> (r: u64)
        ensures
            exists|now: u64| r == #[trigger] self.time_remaining_spec(now as int),
            r <= self.deadline,
            r <= self.phase_deadline,
    {
        let now = clock_ms();
        let r = self.time_remaining_at(now);
        assert(r == self.time_remaining_spec(now as int));
        r
    }

    /// Whole seconds left, at least 1.
    pub fn time_remaining_secs_at(&self, now: u64) -> (r: u64)
        ensures
            r == (if self.time_remaining_spec(now as int) / 1000 >= 1 {
                self.time_remaining_spec(now as int) / 1000
            } else {
                1
            }),
    {
        let s = self.time_remaining_at(now) / 1000;
        if s >= 1 {
            s
        } else {
            1
        }
    }

    pub fn time_remaining_secs(&self) -> (r: u64)
        ensures
            exists|now: u64|
                r == (if #[trigger] self.time_remaining_spec(now as int) / 1000 >= 1 {
                    self.time_remaining_spec(now as int) / 1000
                } else {
                    1
                }),
            r >= 1,
            r <= 1 || r <= self.phase_deadline / 1000,
    {
        let now = clock_ms();
        let r = self.time_remaining_secs_at(now);
        assert(r == (if self.time_remaining_spec(now as int) / 1000 >= 1 {
            self.time_remaining_spec(now as int) / 1000
        } else {
            1
        }));
        r
    }

    pub fn phase(&self) -> (r: StepPhase)
        ensures
            r == self.phase,
    {
        self.phase
    }
}

/// Whatever phase a runner enters, and whenever, the phase never outlasts
/// the step, and the time left is bounded by the phase's budget.
pub proof fn law_phase_within_step(r: StepRunner, now: int, p: StepPhase)
    requires
        r.wf(),
    ensures
        r.time_remaining_spec(now) <= sat_sub(r.deadline as int, now),
        min_u(sat_add(now, secs_ms(r.budgets.budget(p) as int)), r.deadline as int) <= r.deadline,
        0 <= now ==> sat_sub(
            min_u(sat_add(now, secs_ms(r.budgets.budget(p) as int)), r.deadline as int),
            now,
        ) <= secs_ms(r.budgets.budget(p) as int),
{
}

} // verus!
