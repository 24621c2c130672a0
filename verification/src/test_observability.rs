//! Run observability: error and warning banners, progress heartbeats,
//! per-step records and the file-descriptor thresholds.
//!
//! A disabled observer says nothing and never aborts the run, so its stderr
//! stays byte-identical to a run without observability. What an enabled
//! observer emits is returned as an `Emission`: a finished text line, or the
//! fields of a one-line JSON object that the caller serialises with a
//! timestamp.
use vstd::prelude::*;
use crate::text::{
    chars_of, copy_opt, decimal_nat, lines, lines_vec, opt_str_view, opt_view, push_str, push_u64, str_eq,
    string_of,
};
use crate::test_timeout::{clock_ms, sat_sub};

verus! {

/// How emissions are rendered.
#[derive(PartialEq, Eq, Structural, Clone, Copy, Debug)]
pub enum LogFormat {
    Text,
    Json,
}

/// The refusal of an unknown `--log-format` value.
pub open spec fn format_error(s: Seq<char>) -> Seq<char> {
    "invalid --log-format: "@ + s + " (expected text|json)"@
}

impl LogFormat {
    /// `text` or `json`; anything else is refused.
    pub fn parse(s: &str) -> (r: Result<LogFormat, String>)
        ensures
            s@ == "text"@ ==> r == Ok::<LogFormat, String>(LogFormat::Text),
            s@ == "json"@ ==> r == Ok::<LogFormat, String>(LogFormat::Json),
            s@ != "text"@ && s@ != "json"@ ==> (r matches Err(e) && e@ == format_error(s@)),
    {
        proof {
            reveal_strlit("text");
            reveal_strlit("json");
            assert("text"@[0] != "json"@[0]);
        }
        if str_eq(s, "text") {
            Ok(LogFormat::Text)
        } else if str_eq(s, "json") {
            Ok(LogFormat::Json)
        } else {
            let mut v: Vec<char> = Vec::new();
            push_str(&mut v, "invalid --log-format: ");
            push_str(&mut v, s);
            push_str(&mut v, " (expected text|json)");
            assert(v@ =~= format_error(s@));
            Err(string_of(&v))
        }
    }
}

/// The fields of one JSON record (its timestamp is added when it is written).
pub struct JsonEvent {
    pub level: String,
    pub kind: String,
    pub tc: Option<String>,
    pub step: Option<usize>,
    pub msg: String,
    pub extras: Vec<(String, String)>,
}

/// What an enabled observer writes to stderr.
pub enum Emission {
    Line(String),
    Json(JsonEvent),
}

pub enum EmissionView {
    Line(Seq<char>),
    Json {
        level: Seq<char>,
        kind: Seq<char>,
        tc: Option<Seq<char>>,
        step: Option<usize>,
        msg: Seq<char>,
        extras: Seq<(Seq<char>, Seq<char>)>,
    },
}

pub open spec fn pair_view(p: (String, String)) -> (Seq<char>, Seq<char>) {
    (p.0@, p.1@)
}

pub open spec fn extras_view(v: Seq<(String, String)>) -> Seq<(Seq<char>, Seq<char>)> {
    v.map_values(|p: (String, String)| pair_view(p))
}

impl View for Emission {
    type V = EmissionView;

    open spec fn view(&self) -> EmissionView {
        match self {
            Emission::Line(s) => EmissionView::Line(s@),
            Emission::Json(j) => EmissionView::Json {
                level: j.level@,
                kind: j.kind@,
                tc: opt_view(j.tc),
                step: j.step,
                msg: j.msg@,
                extras: extras_view(j.extras@),
            },
        }
    }
}

pub open spec fn json_event(
    level: Seq<char>,
    kind: Seq<char>,
    tc: Option<Seq<char>>,
    step: Option<usize>,
    msg: Seq<char>,
    extras: Seq<(Seq<char>, Seq<char>)>,
) -> EmissionView {
    EmissionView::Json { level, kind, tc, step, msg, extras }
}

/// `tc={t} ` when a test case is named.
pub open spec fn tc_part(tc: Option<Seq<char>>) -> Seq<char> {
    match tc {
        Some(t) => "tc="@ + t + " "@,
        None => seq![],
    }
}

/// `step={s}` when a step is named.
pub open spec fn step_part(step: Option<usize>) -> Seq<char> {
    match step {
        Some(s) => "step="@ + decimal_nat(s as nat),
        None => seq![],
    }
}

/// Red `ERROR [kind] ...: msg`, reset, then the terminal bell.
pub open spec fn error_line(
    kind: Seq<char>,
    tc: Option<Seq<char>>,
    step: Option<usize>,
    msg: Seq<char>,
) -> Seq<char> {
    "\x1b[31mERROR ["@ + kind + "] "@ + tc_part(tc) + step_part(step) + ": "@ + msg
        + "\x1b[0m\x07"@
}

/// Yellow `WARN [kind] ...msg`, then reset.
pub open spec fn warn_line(kind: Seq<char>, tc: Option<Seq<char>>, msg: Seq<char>) -> Seq<char> {
    "\x1b[33mWARN ["@ + kind + "] "@ + tc_part(tc) + msg + "\x1b[0m"@
}

pub open spec fn error_emission(
    f: LogFormat,
    kind: Seq<char>,
    tc: Option<Seq<char>>,
    step: Option<usize>,
    msg: Seq<char>,
) -> EmissionView {
    match f {
        LogFormat::Json => json_event("error"@, kind, tc, step, msg, seq![]),
        LogFormat::Text => EmissionView::Line(error_line(kind, tc, step, msg)),
    }
}

pub open spec fn warn_emission(
    f: LogFormat,
    kind: Seq<char>,
    tc: Option<Seq<char>>,
    msg: Seq<char>,
) -> EmissionView {
    match f {
        LogFormat::Json => json_event("warn"@, kind, tc, None, msg, seq![]),
        LogFormat::Text => EmissionView::Line(warn_line(kind, tc, msg)),
    }
}

pub struct Observer {
    pub enabled: bool,
    pub format: LogFormat,
    pub fd_soft_limit: u64,
    pub fd_warn_pct: u8,
    pub fd_error_pct: u8,
    pub agent_base: String,
    pub started_at_ms: u64,
    pub aborted: bool,
    pub last_fd_count: u64,
    pub tcs_since_heartbeat: usize,
    pub heartbeat_every: usize,
}

/// The settings fixed at construction are the same in `a` and `b`.
pub open spec fn same_settings(a: Observer, b: Observer) -> bool {
    &&& a.enabled == b.enabled
    &&& a.format == b.format
    &&& a.fd_soft_limit == b.fd_soft_limit
    &&& a.fd_warn_pct == b.fd_warn_pct
    &&& a.fd_error_pct == b.fd_error_pct
    &&& a.agent_base@ == b.agent_base@
    &&& a.started_at_ms == b.started_at_ms
    &&& a.heartbeat_every == b.heartbeat_every
}

/// The soft limit used when the probe of `RLIMIT_NOFILE` failed.
pub open spec fn fd_limit_or_default(probed: Option<u64>) -> u64 {
    match probed {
        Some(l) => l,
        None => 256,
    }
}

fn push_tc_part(v: &mut Vec<char>, tc: Option<&str>)
    ensures
        final(v)@ == old(v)@ + tc_part(opt_str_view(tc)),
{
    match tc {
        Some(t) => {
            push_str(v, "tc=");
            push_str(v, t);
            push_str(v, " ");
        },
        None => {
            assert(old(v)@ + tc_part(opt_str_view(tc)) =~= old(v)@);
        },
    }
}

fn push_step_part(v: &mut Vec<char>, step: Option<usize>)
    ensures
        final(v)@ == old(v)@ + step_part(step),
{
    match step {
        Some(s) => {
            push_str(v, "step=");
            push_u64(v, s as u64);
        },
        None => {
            assert(old(v)@ + step_part(step) =~= old(v)@);
        },
    }
}

fn json_emission(
    level: &str,
    kind: &str,
    tc: Option<&str>,
    step: Option<usize>,
    msg: String,
    extras: Vec<(String, String)>,
) -> (r: Emission)
    ensures
        r@ == json_event(level@, kind@, opt_str_view(tc), step, msg@, extras_view(extras@)),
{
    Emission::Json(
        JsonEvent {
            level: String::from_str(level),
            kind: String::from_str(kind),
            tc: copy_opt(tc),
            step,
            msg,
            extras,
        },
    )
}

pub open spec fn str_pairs_view(v: Seq<(&str, &str)>) -> Seq<(Seq<char>, Seq<char>)> {
    v.map_values(|p: (&str, &str)| (p.0@, p.1@))
}

/// The JSON record of an event, its extra fields in the order given.
pub fn emit_json(
    level: &str,
    kind: &str,
    tc: Option<&str>,
    step: Option<usize>,
    msg: &str,
    extras: &[(&str, &str)],
) -> (r: Emission)
    ensures
        r@ == json_event(level@, kind@, opt_str_view(tc), step, msg@, str_pairs_view(extras@)),
{
    let ghost ev = str_pairs_view(extras@);
    let mut ex: Vec<(String, String)> = Vec::new();
    let mut i: usize = 0;
    while i < extras.len()
        invariant
            i <= extras@.len(),
            ev == str_pairs_view(extras@),
            extras_view(ex@) == ev.take(i as int),
        decreases extras@.len() - i,
    {
        let (k, v) = extras[i];
        let ghost before = ex@;
        ex.push((String::from_str(k), String::from_str(v)));
        assert(extras_view(ex@) =~= extras_view(before).push((k@, v@)));
        assert(ev.take(i + 1) =~= ev.take(i as int).push(ev[i as int]));
        i = i + 1;
    }
    assert(ev.take(i as int) =~= ev);
    json_emission(level, kind, tc, step, String::from_str(msg), ex)
}

fn no_extras() -> (r: Vec<(String, String)>)
    ensures
        extras_view(r@) == Seq::<(Seq<char>, Seq<char>)>::empty(),
{
    let r: Vec<(String, String)> = Vec::new();
    assert(extras_view(r@) =~= Seq::<(Seq<char>, Seq<char>)>::empty());
    r
}

fn extra(k: &str, v: String) -> (r: (String, String))
    ensures
        pair_view(r) == (k@, v@),
{
    (String::from_str(k), v)
}

impl Observer {
    /// An observer created at `now`. `probed_fd_limit` is the process's
    /// `RLIMIT_NOFILE` soft limit, `None` when it could not be read.
    pub fn new_at(
        now: u64,
        enabled: bool,
        format: LogFormat,
        agent_base: String,
        probed_fd_limit: Option<u64>,
    ) -> (r: Self)
        ensures
            r.enabled == enabled,
            r.format == format,
            r.fd_soft_limit == fd_limit_or_default(probed_fd_limit),
            r.fd_warn_pct == 70,
            r.fd_error_pct == 90,
            r.agent_base@ == agent_base@,
            r.started_at_ms == now,
            !r.aborted,
            r.last_fd_count == 0,
            r.tcs_since_heartbeat == 0,
            r.heartbeat_every == 5,
    {
        let fd_soft_limit = match probed_fd_limit {
            Some(l) => l,
            None => 256,
        };
        Observer {
            enabled,
            format,
            fd_soft_limit,
            fd_warn_pct: 70,
            fd_error_pct: 90,
            agent_base,
            started_at_ms: now,
            aborted: false,
            last_fd_count: 0,
            tcs_since_heartbeat: 0,
            heartbeat_every: 5,
        }
    }

    /// An observer created now (see `new_at`).
    pub fn new(enabled: bool, format: LogFormat, agent_base: String, probed_fd_limit: Option<u64>) -> (r: Self)
        ensures
            r.enabled == enabled,
            r.format == format,
            r.fd_soft_limit == fd_limit_or_default(probed_fd_limit),
            r.fd_warn_pct == 70,
            r.fd_error_pct == 90,
            r.agent_base@ == agent_base@,
            !r.aborted,
            r.last_fd_count == 0,
            r.tcs_since_heartbeat == 0,
            r.heartbeat_every == 5,
    {
        Self::new_at(clock_ms(), enabled, format, agent_base, probed_fd_limit)
    }

    /// A disabled observer in text format with no agent.
    pub fn silent(probed_fd_limit: Option<u64>) -> (r: Self)
        ensures
            !r.enabled,
            r.format == LogFormat::Text,
            r.fd_soft_limit == fd_limit_or_default(probed_fd_limit),
            r.agent_base@ == Seq::<char>::empty(),
            !r.aborted,
            r.last_fd_count == 0,
            r.tcs_since_heartbeat == 0,
            r.heartbeat_every == 5,
    {
        Self::new(false, LogFormat::Text, String::new(), probed_fd_limit)
    }

    pub fn is_aborted(&self) -> (r: bool)
        ensures
            r == self.aborted,
    {
        self.aborted
    }

    pub fn mark_aborted(&mut self)
        ensures
            final(self).aborted,
            same_settings(*final(self), *old(self)),
            final(self).last_fd_count == old(self).last_fd_count,
            final(self).tcs_since_heartbeat == old(self).tcs_since_heartbeat,
    {
        self.aborted = true;
    }

    /// An ERROR banner. An infrastructure error (`infra`) also aborts the
    /// run. A disabled observer neither writes nor aborts.
    pub fn error(
        &mut self,
        kind: &str,
        tc: Option<&str>,
        step: Option<usize>,
        msg: &str,
        infra: bool,
    ) -> (r: Option<Emission>)
        ensures
            same_settings(*final(self), *old(self)),
            final(self).last_fd_count == old(self).last_fd_count,
            final(self).tcs_since_heartbeat == old(self).tcs_since_heartbeat,
            !old(self).enabled ==> r is None && final(self).aborted == old(self).aborted,
            old(self).enabled ==> final(self).aborted == (old(self).aborted || infra),
            old(self).enabled ==> (r matches Some(e) && e@ == error_emission(
                old(self).format,
                kind@,
                opt_str_view(tc),
                step,
                msg@,
            )),
    {
        if !self.enabled {
            return None;
        }
        if infra {
            self.mark_aborted();
        }
        match self.format {
            LogFormat::Json => Some(
                json_emission("error", kind, tc, step, String::from_str(msg), no_extras()),
            ),
            LogFormat::Text => {
                let mut v: Vec<char> = Vec::new();
                push_str(&mut v, "\x1b[31mERROR [");
                push_str(&mut v, kind);
                push_str(&mut v, "] ");
                push_tc_part(&mut v, tc);
                push_step_part(&mut v, step);
                push_str(&mut v, ": ");
                push_str(&mut v, msg);
                push_str(&mut v, "\x1b[0m\x07");
                assert(v@ =~= error_line(kind@, opt_str_view(tc), step, msg@));
                Some(Emission::Line(string_of(&v)))
            },
        }
    }

    /// A WARN line; nothing from a disabled observer.
    pub fn warn(&self, kind: &str, tc: Option<&str>, msg: &str) -> (r: Option<Emission>)
        ensures
            !self.enabled ==> r is None,
            self.enabled ==> (r matches Some(e) && e@ == warn_emission(
                self.format,
                kind@,
                opt_str_view(tc),
                msg@,
            )),
    {
        if !self.enabled {
            return None;
        }
        match self.format {
            LogFormat::Json => Some(
                json_emission("warn", kind, tc, None, String::from_str(msg), no_extras()),
            ),
            LogFormat::Text => {
                let mut v: Vec<char> = Vec::new();
                push_str(&mut v, "\x1b[33mWARN [");
                push_str(&mut v, kind);
                push_str(&mut v, "] ");
                push_tc_part(&mut v, tc);
                push_str(&mut v, msg);
                push_str(&mut v, "\x1b[0m");
                assert(v@ =~= warn_line(kind@, opt_str_view(tc), msg@));
                Some(Emission::Line(string_of(&v)))
            },
        }
    }
}


/// Whole seconds between `started` and `now` (0 when the clock went back).
pub open spec fn uptime_secs(now: u64, started: u64) -> int {
    sat_sub(now as int, started as int) / 1000
}

pub open spec fn dec(n: int) -> Seq<char> {
    decimal_nat(n as nat)
}

/// `[PROGRESS n/total fails=.. FD=.. agent_uptime=..s]`
pub open spec fn heartbeat_line(n: int, total: int, fails: int, fd: int, up: int) -> Seq<char> {
    "[PROGRESS "@ + dec(n) + "/"@ + dec(total) + " fails="@ + dec(fails) + " FD="@ + dec(fd)
        + " agent_uptime="@ + dec(up) + "s]"@
}

pub open spec fn heartbeat_emission(
    f: LogFormat,
    n: int,
    total: int,
    fails: int,
    fd: int,
    up: int,
) -> EmissionView {
    match f {
        LogFormat::Json => json_event(
            "info"@,
            "heartbeat"@,
            None,
            None,
            "progress "@ + dec(n) + "/"@ + dec(total),
            seq![
                ("n"@, dec(n)),
                ("total"@, dec(total)),
                ("fails"@, dec(fails)),
                ("fd"@, dec(fd)),
                ("agent_uptime"@, dec(up)),
            ],
        ),
        LogFormat::Text => EmissionView::Line(heartbeat_line(n, total, fails, fd, up)),
    }
}

/// ` target={t}` when a target is named.
pub open spec fn target_part(target: Option<Seq<char>>) -> Seq<char> {
    match target {
        Some(t) => " target="@ + t,
        None => seq![],
    }
}

pub open spec fn target_or_empty(target: Option<Seq<char>>) -> Seq<char> {
    match target {
        Some(t) => t,
        None => seq![],
    }
}

/// `[STEP tc step-i] action=..[ target=..] outcome=.. details=..`
pub open spec fn step_line(
    tc: Seq<char>,
    step: usize,
    action: Seq<char>,
    target: Option<Seq<char>>,
    outcome: Seq<char>,
    details: Seq<char>,
) -> Seq<char> {
    "[STEP "@ + tc + " step-"@ + dec(step as int) + "] action="@ + action + target_part(target)
        + " outcome="@ + outcome + " details="@ + details
}

pub open spec fn step_emission(
    f: LogFormat,
    tc: Seq<char>,
    step: usize,
    action: Seq<char>,
    target: Option<Seq<char>>,
    outcome: Seq<char>,
    details: Seq<char>,
) -> EmissionView {
    match f {
        LogFormat::Json => json_event(
            if outcome == "PASS"@ {
                "info"@
            } else {
                "warn"@
            },
            "step"@,
            Some(tc),
            Some(step),
            action + " -> "@ + outcome,
            seq![
                ("action"@, action),
                ("target"@, target_or_empty(target)),
                ("outcome"@, outcome),
                ("details"@, details),
            ],
        ),
        LogFormat::Text => EmissionView::Line(step_line(tc, step, action, target, outcome, details)),
    }
}

/// Descriptor usage in percent of the soft limit (a limit of 0 counts as 1).
pub open spec fn fd_pct(count: u64, limit: u64) -> int {
    (count * 100) / (if limit == 0 {
        1int
    } else {
        limit as int
    })
}

pub open spec fn fd_warn_msg(count: u64, limit: u64, pct: int) -> Seq<char> {
    "FD usage "@ + dec(count as int) + "/"@ + dec(limit as int) + " ("@ + dec(pct) + "%)"@
}

pub open spec fn fd_error_msg(count: u64, limit: u64, pct: int, error_pct: u8) -> Seq<char> {
    fd_warn_msg(count, limit, pct) + " >= "@ + dec(error_pct as int) + "%"@
}

fn dec_string(n: u64) -> (r: String)
    ensures
        r@ == dec(n as int),
{
    crate::text::u64_to_string(n)
}

impl Observer {
    /// Called between test cases at time `now`: counts the case and, every
    /// `heartbeat_every` cases and after the last one, reports progress.
    pub fn maybe_heartbeat_at(&mut self, now: u64, n: usize, total: usize, fails: usize) -> (r:
        Option<Emission>)
        requires
            old(self).enabled ==> old(self).heartbeat_every > 0,
            old(self).enabled ==> old(self).tcs_since_heartbeat < usize::MAX,
        ensures
            same_settings(*final(self), *old(self)),
            final(self).aborted == old(self).aborted,
            final(self).last_fd_count == old(self).last_fd_count,
            !old(self).enabled ==> r is None && final(self).tcs_since_heartbeat
                == old(self).tcs_since_heartbeat,
            old(self).enabled ==> final(self).tcs_since_heartbeat == old(self).tcs_since_heartbeat
                + 1,
            old(self).enabled && (old(self).tcs_since_heartbeat + 1) % (old(self).heartbeat_every as int) != 0 && n != total ==> r is None,
            old(self).enabled && ((old(self).tcs_since_heartbeat + 1) % (old(self).heartbeat_every as int) == 0 || n == total) ==> (r matches Some(e) && e@
                == heartbeat_emission(
                old(self).format,
                n as int,
                total as int,
                fails as int,
                old(self).last_fd_count as int,
                uptime_secs(now, old(self).started_at_ms),
            )),
    {
        if !self.enabled {
            return None;
        }
        let prev = self.tcs_since_heartbeat;
        self.tcs_since_heartbeat = prev + 1;
        if (prev + 1) % self.heartbeat_every != 0 && n != total {
            return None;
        }
        let fd = self.last_fd_count;
        let uptime = now.saturating_sub(self.started_at_ms) / 1000;
        match self.format {
            LogFormat::Json => {
                let mut m: Vec<char> = Vec::new();
                push_str(&mut m, "progress ");
                push_u64(&mut m, n as u64);
                push_str(&mut m, "/");
                push_u64(&mut m, total as u64);
                let mut extras: Vec<(String, String)> = Vec::new();
                extras.push(extra("n", dec_string(n as u64)));
                extras.push(extra("total", dec_string(total as u64)));
                extras.push(extra("fails", dec_string(fails as u64)));
                extras.push(extra("fd", dec_string(fd)));
                extras.push(extra("agent_uptime", dec_string(uptime)));
                assert(m@ =~= "progress "@ + dec(n as int) + "/"@ + dec(total as int));
                assert(extras_view(extras@) =~= seq![
                    ("n"@, dec(n as int)),
                    ("total"@, dec(total as int)),
                    ("fails"@, dec(fails as int)),
                    ("fd"@, dec(fd as int)),
                    ("agent_uptime"@, dec(uptime as int)),
                ]);
                Some(json_emission("info", "heartbeat", None, None, string_of(&m), extras))
            },
            LogFormat::Text => {
                let mut v: Vec<char> = Vec::new();
                push_str(&mut v, "[PROGRESS ");
                push_u64(&mut v, n as u64);
                push_str(&mut v, "/");
                push_u64(&mut v, total as u64);
                push_str(&mut v, " fails=");
                push_u64(&mut v, fails as u64);
                push_str(&mut v, " FD=");
                push_u64(&mut v, fd);
                push_str(&mut v, " agent_uptime=");
                push_u64(&mut v, uptime);
                push_str(&mut v, "s]");
                assert(v@ =~= heartbeat_line(
                    n as int,
                    total as int,
                    fails as int,
                    fd as int,
                    uptime as int,
                ));
                Some(Emission::Line(string_of(&v)))
            },
        }
    }

    /// `maybe_heartbeat_at` at the present time.
    pub fn maybe_heartbeat(&mut self, n: usize, total: usize, fails: usize) -> (r: Option<Emission>)
        requires
            old(self).enabled ==> old(self).heartbeat_every > 0,
            old(self).enabled ==> old(self).tcs_since_heartbeat < usize::MAX,
        ensures
            same_settings(*final(self), *old(self)),
            final(self).aborted == old(self).aborted,
            final(self).last_fd_count == old(self).last_fd_count,
            !old(self).enabled ==> r is None,
            old(self).enabled ==> final(self).tcs_since_heartbeat == old(self).tcs_since_heartbeat
                + 1,
            old(self).enabled && (old(self).tcs_since_heartbeat + 1) % (old(self).heartbeat_every as int) != 0 && n != total ==> r is None,
    {
        self.maybe_heartbeat_at(clock_ms(), n, total, fails)
    }

    /// The structured record of one step; nothing from a disabled observer.
    pub fn step(
        &self,
        tc: &str,
        step: usize,
        action: &str,
        target: Option<&str>,
        outcome: &str,
        details: &str,
    ) -> (r: Option<Emission>)
        ensures
            !self.enabled ==> r is None,
            self.enabled ==> (r matches Some(e) && e@ == step_emission(
                self.format,
                tc@,
                step,
                action@,
                opt_str_view(target),
                outcome@,
                details@,
            )),
    {
        if !self.enabled {
            return None;
        }
        match self.format {
            LogFormat::Json => {
                let target_s: &str = match target {
                    Some(t) => t,
                    None => "",
                };
                proof {
                    reveal_strlit("");
                }
                assert(target_s@ == target_or_empty(opt_str_view(target)));
                let mut extras: Vec<(String, String)> = Vec::new();
                extras.push(extra("action", String::from_str(action)));
                extras.push(extra("target", String::from_str(target_s)));
                extras.push(extra("outcome", String::from_str(outcome)));
                extras.push(extra("details", String::from_str(details)));
                assert(extras_view(extras@) =~= seq![
                    ("action"@, action@),
                    ("target"@, target_or_empty(opt_str_view(target))),
                    ("outcome"@, outcome@),
                    ("details"@, details@),
                ]);
                let mut m: Vec<char> = Vec::new();
                push_str(&mut m, action);
                push_str(&mut m, " -> ");
                push_str(&mut m, outcome);
                assert(m@ =~= action@ + " -> "@ + outcome@);
                let level = if str_eq(outcome, "PASS") {
                    "info"
                } else {
                    "warn"
                };
                Some(json_emission(level, "step", Some(tc), Some(step), string_of(&m), extras))
            },
            LogFormat::Text => {
                let mut v: Vec<char> = Vec::new();
                push_str(&mut v, "[STEP ");
                push_str(&mut v, tc);
                push_str(&mut v, " step-");
                push_u64(&mut v, step as u64);
                push_str(&mut v, "] action=");
                push_str(&mut v, action);
                match target {
                    Some(t) => {
                        push_str(&mut v, " target=");
                        push_str(&mut v, t);
                    },
                    None => {},
                }
                push_str(&mut v, " outcome=");
                push_str(&mut v, outcome);
                push_str(&mut v, " details=");
                push_str(&mut v, details);
                assert(v@ =~= step_line(
                    tc@,
                    step,
                    action@,
                    opt_str_view(target),
                    outcome@,
                    details@,
                ));
                Some(Emission::Line(string_of(&v)))
            },
        }
    }

    /// One probe of the descriptor watchdog with the process's current
    /// descriptor `count`: records it and reports usage at or over the
    /// warning threshold (a WARN) or the error threshold (an infrastructure
    /// ERROR, which aborts). A disabled observer records nothing and returns 0.
    pub fn check_fd_once(&mut self, count: u64) -> (r: (u64, Option<Emission>))
        requires
            old(self).enabled ==> count * 100 <= u64::MAX,
        ensures
            same_settings(*final(self), *old(self)),
            final(self).tcs_since_heartbeat == old(self).tcs_since_heartbeat,
            !old(self).enabled ==> r.0 == 0 && r.1 is None && final(self).aborted == old(self).aborted && final(self).last_fd_count == old(self).last_fd_count,
            old(self).enabled ==> r.0 == count && final(self).last_fd_count == count,
            old(self).enabled && fd_pct(count, old(self).fd_soft_limit) >= old(self).fd_error_pct
                ==> final(self).aborted && (r.1 matches Some(e) && e@ == error_emission(
                old(self).format,
                "fd_leak"@,
                None,
                None,
                fd_error_msg(
                    count,
                    old(self).fd_soft_limit,
                    fd_pct(count, old(self).fd_soft_limit),
                    old(self).fd_error_pct,
                ),
            )),
            old(self).enabled && fd_pct(count, old(self).fd_soft_limit) < old(self).fd_error_pct
                && fd_pct(count, old(self).fd_soft_limit) >= old(self).fd_warn_pct ==> final(self).aborted == old(self).aborted && (r.1 matches Some(e) && e@ == warn_emission(
                old(self).format,
                "fd_pressure"@,
                None,
                fd_warn_msg(count, old(self).fd_soft_limit, fd_pct(count, old(self).fd_soft_limit)),
            )),
            old(self).enabled && fd_pct(count, old(self).fd_soft_limit) < old(self).fd_error_pct
                && fd_pct(count, old(self).fd_soft_limit) < old(self).fd_warn_pct ==> final(self).aborted == old(self).aborted && r.1 is None,
    {
        if !self.enabled {
            return (0, None);
        }
        self.last_fd_count = count;
        let limit = self.fd_soft_limit;
        let divisor: u64 = if limit == 0 {
            1
        } else {
            limit
        };
        let pct = (count * 100) / divisor;
        assert(pct as int == fd_pct(count, limit));
        let mut m: Vec<char> = Vec::new();
        push_str(&mut m, "FD usage ");
        push_u64(&mut m, count);
        push_str(&mut m, "/");
        push_u64(&mut m, limit);
        push_str(&mut m, " (");
        push_u64(&mut m, pct);
        push_str(&mut m, "%)");
        assert(m@ =~= fd_warn_msg(count, limit, pct as int));
        if pct >= self.fd_error_pct as u64 {
            let ep = self.fd_error_pct;
            push_str(&mut m, " >= ");
            push_u64(&mut m, ep as u64);
            push_str(&mut m, "%");
            assert(m@ =~= fd_error_msg(count, limit, pct as int, ep));
            let msg = string_of(&m);
            let e = self.error("fd_leak", None, None, msg.as_str(), true);
            (count, e)
        } else if pct >= self.fd_warn_pct as u64 {
            let msg = string_of(&m);
            let e = self.warn("fd_pressure", None, msg.as_str());
            (count, e)
        } else {
            (count, None)
        }
    }

    /// What follows one agent health probe. `probe` is the trimmed HTTP
    /// status text and the probe's duration in nanoseconds, or why the
    /// request could not be made. A 2xx answer is healthy (slower than 3 s
    /// also warns); anything else is an infrastructure error that aborts.
    /// A disabled observer, or one with no agent, reports healthy and says
    /// nothing.
    pub fn agent_health_verdict(&mut self, probe: Result<(String, u64), String>) -> (r: (
        Result<(), String>,
        Option<Emission>,
    ))
        ensures
            same_settings(*final(self), *old(self)),
            final(self).tcs_since_heartbeat == old(self).tcs_since_heartbeat,
            final(self).last_fd_count == old(self).last_fd_count,
            !old(self).enabled || old(self).agent_base@.len() == 0 ==> r.0 is Ok && r.1 is None
                && final(self).aborted == old(self).aborted,
            old(self).enabled && old(self).agent_base@.len() > 0 ==> match probe {
                Ok((code, ns)) => if code@.len() > 0 && code@[0] == '2' {
                    &&& r.0 is Ok
                    &&& final(self).aborted == old(self).aborted
                    &&& ns > 3_000_000_000 ==> (r.1 matches Some(e) && e@ == warn_emission(
                        old(self).format,
                        "agent_slow"@,
                        None,
                        "/health took "@ + dec(ns as int / 1_000_000) + "ms"@,
                    ))
                    &&& ns <= 3_000_000_000 ==> r.1 is None
                } else {
                    &&& final(self).aborted
                    &&& r.0 matches Err(m) && m@ == "agent unhealthy: HTTP "@ + code@
                    &&& r.1 matches Some(e) && e@ == error_emission(
                        old(self).format,
                        "agent_unhealthy"@,
                        None,
                        None,
                        "/health returned "@ + code@,
                    )
                },
                Err(why) => {
                    &&& final(self).aborted
                    &&& r.0 matches Err(m) && m@ == "agent unreachable: "@ + why@
                    &&& r.1 matches Some(e) && e@ == error_emission(
                        old(self).format,
                        "agent_unreachable"@,
                        None,
                        None,
                        "/health failed: "@ + why@,
                    )
                },
            },
    {
        if !self.enabled || self.agent_base.as_str().is_empty() {
            return (Ok(()), None);
        }
        match probe {
            Ok((code, ns)) => {
                let cc = chars_of(code.as_str());
                if cc.len() > 0 && cc[0] == '2' {
                    if ns > 3_000_000_000 {
                        let mut m: Vec<char> = Vec::new();
                        push_str(&mut m, "/health took ");
                        push_u64(&mut m, ns / 1_000_000);
                        push_str(&mut m, "ms");
                        assert(m@ =~= "/health took "@ + dec(ns as int / 1_000_000) + "ms"@);
                        let msg = string_of(&m);
                        let e = self.warn("agent_slow", None, msg.as_str());
                        (Ok(()), e)
                    } else {
                        (Ok(()), None)
                    }
                } else {
                    let mut m: Vec<char> = Vec::new();
                    push_str(&mut m, "/health returned ");
                    push_str(&mut m, code.as_str());
                    assert(m@ =~= "/health returned "@ + code@);
                    let msg = string_of(&m);
                    let e = self.error("agent_unhealthy", None, None, msg.as_str(), true);
                    let mut w: Vec<char> = Vec::new();
                    push_str(&mut w, "agent unhealthy: HTTP ");
                    push_str(&mut w, code.as_str());
                    assert(w@ =~= "agent unhealthy: HTTP "@ + code@);
                    (Err(string_of(&w)), e)
                }
            },
            Err(why) => {
                let mut m: Vec<char> = Vec::new();
                push_str(&mut m, "/health failed: ");
                push_str(&mut m, why.as_str());
                assert(m@ =~= "/health failed: "@ + why@);
                let msg = string_of(&m);
                let e = self.error("agent_unreachable", None, None, msg.as_str(), true);
                let mut w: Vec<char> = Vec::new();
                push_str(&mut w, "agent unreachable: ");
                push_str(&mut w, why.as_str());
                assert(w@ =~= "agent unreachable: "@ + why@);
                (Err(string_of(&w)), e)
            },
        }
    }
}

/// Open descriptors from `lsof -p` output: one per line after the header;
/// `None` for empty output.
pub fn lsof_fd_count(stdout: &str) -> (r: Option<u64>)
    ensures
        lines(stdout@).len() == 0 ==> r is None,
        lines(stdout@).len() > 0 ==> r == Some((lines(stdout@).len() - 1) as u64),
{
    let cs = chars_of(stdout);
    let ls = lines_vec(&cs);
    let n = ls.len();
    assert(ls.deep_view().len() == ls@.len());
    if n == 0 {
        None
    } else {
        Some((n - 1) as u64)
    }
}

/// The agent's debug log from the answer to `GET /debug-log`: the body
/// when it is not empty.
pub fn fetch_debug_log(reply: Result<String, String>) -> (r: Option<String>)
    ensures
        match reply {
            Ok(b) => if b@.len() > 0 {
                r matches Some(s) && s@ == b@
            } else {
                r is None
            },
            Err(_) => r is None,
        },
{
    match reply {
        Ok(b) => {
            if b.as_str().unicode_len() > 0 {
                Some(b)
            } else {
                None
            }
        },
        Err(_) => None,
    }
}

} // verus!
