//! Leveled, timestamped run log of a test case.
//!
//! Each accepted record is kept in memory and rendered as the line that
//! goes to stderr; the caller prints the returned line.
use vstd::prelude::*;
use crate::text::{
    chars_of, concat_chars, decimal_nat, decimal_int, pad_left, pad_left_vec, push_chars, push_i64,
    push_str, push_u64, string_of, copy_string, join,
};
use crate::test_timeout::{clock_ms, sat_sub};
use vstd::string::StringSliceAdditionalSpecFns;
use vstd::utf8::{encode_utf8, is_char_boundary};

verus! {

/// Verbosity, from least to most verbose.
#[derive(PartialEq, Eq, Structural, Clone, Copy, Debug)]
pub enum LogLevel {
    Error,
    Info,
    Debug,
}

pub open spec fn rank(l: LogLevel) -> int {
    match l {
        LogLevel::Error => 0,
        LogLevel::Info => 1,
        LogLevel::Debug => 2,
    }
}

pub open spec fn level_name(l: LogLevel) -> Seq<char> {
    match l {
        LogLevel::Error => "error"@,
        LogLevel::Info => "info"@,
        LogLevel::Debug => "debug"@,
    }
}

pub open spec fn level_tag(l: LogLevel) -> Seq<char> {
    match l {
        LogLevel::Error => "ERR"@,
        LogLevel::Info => "   "@,
        LogLevel::Debug => "DBG"@,
    }
}

impl LogLevel {
    /// The level `DDB_LOG_LEVEL` asks for, given its value: `debug`, `info`,
    /// and errors only otherwise (also when it is unset).
    pub fn from_env(value: Option<&str>) -> (r: LogLevel)
        ensures
            r == (match value {
                Some(v) => if v@ == "debug"@ {
                    LogLevel::Debug
                } else if v@ == "info"@ {
                    LogLevel::Info
                } else {
                    LogLevel::Error
                },
                None => LogLevel::Error,
            }),
    {
        match value {
            Some(v) => if crate::text::str_eq(v, "debug") {
                LogLevel::Debug
            } else if crate::text::str_eq(v, "info") {
                LogLevel::Info
            } else {
                LogLevel::Error
            },
            None => LogLevel::Error,
        }
    }
}

fn rank_of(l: LogLevel) -> (r: u8)
    ensures
        r as int == rank(l),
{
    match l {
        LogLevel::Error => 0,
        LogLevel::Info => 1,
        LogLevel::Debug => 2,
    }
}

/// One kept record.
pub struct LogEntry {
    pub elapsed_ms: u64,
    pub level: String,
    pub category: String,
    pub message: String,
}

pub type EntryView = (u64, Seq<char>, Seq<char>, Seq<char>);

pub open spec fn entry_view(e: LogEntry) -> EntryView {
    (e.elapsed_ms, e.level@, e.category@, e.message@)
}

impl LogEntry {
    pub fn copy_entry(&self) -> (r: LogEntry)
        ensures
            entry_view(r) == entry_view(*self),
    {
        LogEntry {
            elapsed_ms: self.elapsed_ms,
            level: copy_string(&self.level),
            category: copy_string(&self.category),
            message: copy_string(&self.message),
        }
    }
}

/// The stderr line of a record: `[{elapsed:>6}ms] {tag} [{category}] {message}`.
pub open spec fn log_line(elapsed: u64, l: LogLevel, category: Seq<char>, message: Seq<char>) -> Seq<
    char,
> {
    "["@ + pad_left(decimal_nat(elapsed as nat), 6) + "ms] "@ + level_tag(l) + " ["@ + category
        + "] "@ + message
}

pub struct Logger {
    pub level: LogLevel,
    pub start_ms: u64,
    pub entries: Vec<LogEntry>,
}

/// What a logging call does to the kept records: a record that passes the
/// level is appended with these fields; any other leaves the log as it was.
pub open spec fn appended(old: Logger, new: Logger, l: LogLevel, category: Seq<char>, message: Seq<
    char,
>) -> bool {
    &&& new.level == old.level
    &&& new.start_ms == old.start_ms
    &&& if rank(l) > rank(old.level) {
        new.entries_view() == old.entries_view()
    } else {
        &&& new.entries_view().len() == old.entries_view().len() + 1
        &&& new.entries_view().drop_last() == old.entries_view()
        &&& new.entries_view().last().1 == level_name(l)
        &&& new.entries_view().last().2 == category
        &&& new.entries_view().last().3 == message
    }
}

fn level_name_string(l: LogLevel) -> (r: String)
    ensures
        r@ == level_name(l),
{
    match l {
        LogLevel::Error => String::from_str("error"),
        LogLevel::Info => String::from_str("info"),
        LogLevel::Debug => String::from_str("debug"),
    }
}

fn level_tag_str(l: LogLevel) -> (r: &'static str)
    ensures
        r@ == level_tag(l),
{
    match l {
        LogLevel::Error => "ERR",
        LogLevel::Info => "   ",
        LogLevel::Debug => "DBG",
    }
}

impl Logger {
    pub open spec fn entries_view(&self) -> Seq<EntryView> {
        self.entries@.map_values(|e: LogEntry| entry_view(e))
    }

    /// An empty log keeping records up to `level`, started at `now`.
    pub fn new_at(level: LogLevel, now: u64) -> (r: Self)
        ensures
            r.level == level,
            r.start_ms == now,
            r.entries_view() == Seq::<EntryView>::empty(),
    {
        let r = Logger { level, start_ms: now, entries: Vec::new() };
        assert(r.entries_view() =~= Seq::<EntryView>::empty());
        r
    }

    /// An empty log keeping records up to `level`, started now.
    pub fn new(level: LogLevel) -> (r: Self)
        ensures
            r.level == level,
            r.entries_view() == Seq::<EntryView>::empty(),
    {
        Self::new_at(level, clock_ms())
    }

    /// Record at time `now`: a record more verbose than the log's level is
    /// dropped (`None`); otherwise it is kept with its elapsed time and its
    /// stderr line is returned.
    pub fn log_at(&mut self, now: u64, level: LogLevel, category: &str, message: String) -> (r:
        Option<String>)
        ensures
            rank(level) > rank(old(self).level) ==> r is None && final(self).entries_view() == old(
                self,
            ).entries_view(),
            rank(level) <= rank(old(self).level) ==> {
                let el = sat_sub(now as int, old(self).start_ms as int) as u64;
                &&& final(self).entries_view() == old(self).entries_view().push(
                    (el, level_name(level), category@, message@),
                )
                &&& r matches Some(line) && line@ == log_line(el, level, category@, message@)
            },
            final(self).level == old(self).level,
            final(self).start_ms == old(self).start_ms,
    {
        if rank_of(level) > rank_of(self.level) {
            return None;
        }
        let elapsed = now.saturating_sub(self.start_ms);
        let mut line: Vec<char> = Vec::new();
        push_str(&mut line, "[");
        let d = crate::text::u64_to_string(elapsed);
        let dc = chars_of(d.as_str());
        let padded = pad_left_vec(&dc, 6);
        push_chars(&mut line, &padded);
        push_str(&mut line, "ms] ");
        push_str(&mut line, level_tag_str(level));
        push_str(&mut line, " [");
        push_str(&mut line, category);
        push_str(&mut line, "] ");
        push_str(&mut line, message.as_str());
        assert(line@ =~= log_line(elapsed, level, category@, message@));
        let entry = LogEntry {
            elapsed_ms: elapsed,
            level: level_name_string(level),
            category: String::from_str(category),
            message,
        };
        let ghost old_entries = self.entries@;
        self.entries.push(entry);
        assert(self.entries_view() =~= old_entries.map_values(|e: LogEntry| entry_view(e)).push(
            (elapsed, level_name(level), category@, message@),
        ));
        Some(string_of(&line))
    }

    /// Record now (see `log_at`).
    pub fn log(&mut self, level: LogLevel, category: &str, message: String) -> (r: Option<String>)
        ensures
            appended(*old(self), *final(self), level, category@, message@),
            r is Some <==> rank(level) <= rank(old(self).level),
    {
        let now = clock_ms();
        let r = self.log_at(now, level, category, message);
        proof {
            if rank(level) <= rank(old(self).level) {
                assert(self.entries_view().drop_last() =~= old(self).entries_view());
            }
        }
        r
    }

    pub fn error(&mut self, category: &str, message: String) -> (r: Option<String>)
        ensures
            appended(*old(self), *final(self), LogLevel::Error, category@, message@),
            r is Some,
    {
        self.log(LogLevel::Error, category, message)
    }

    pub fn info(&mut self, category: &str, message: String) -> (r: Option<String>)
        ensures
            appended(*old(self), *final(self), LogLevel::Info, category@, message@),
            r is Some <==> rank(LogLevel::Info) <= rank(old(self).level),
    {
        self.log(LogLevel::Info, category, message)
    }

    pub fn debug(&mut self, category: &str, message: String) -> (r: Option<String>)
        ensures
            appended(*old(self), *final(self), LogLevel::Debug, category@, message@),
            r is Some <==> rank(LogLevel::Debug) <= rank(old(self).level),
    {
        self.log(LogLevel::Debug, category, message)
    }

    /// An HTTP exchange: `{url} → {status} ({duration_ms}ms)` at info level.
    pub fn http(&mut self, url: &str, status: u16, duration_ms: u64) -> (r: Option<String>)
        ensures
            appended(
                *old(self),
                *final(self),
                LogLevel::Info,
                "http"@,
                http_message(url@, status, duration_ms),
            ),
    {
        let m = http_message_exec(url, status, duration_ms);
        self.info("http", m)
    }

    /// An HTTP exchange and, at debug level, the response body's first 500
    /// bytes. The cut must fall on a character boundary.
    pub fn http_detail(&mut self, url: &str, status: u16, duration_ms: u64, body: &str) -> (r: Vec<
        String,
    >)
        requires
            is_char_boundary(
                body.spec_bytes(),
                if body.len() < 500 {
                    body.len() as int
                } else {
                    500
                },
            ),
        ensures
            final(self).level == old(self).level,
            final(self).start_ms == old(self).start_ms,
            rank(LogLevel::Info) > rank(old(self).level) ==> final(self).entries_view() == old(
                self,
            ).entries_view(),
            rank(LogLevel::Info) <= rank(old(self).level) ==> {
                let n = old(self).entries_view().len();
                &&& final(self).entries_view()[n as int].1 == "info"@
                &&& final(self).entries_view()[n as int].2 == "http"@
                &&& final(self).entries_view()[n as int].3 == http_message(
                    url@,
                    status,
                    duration_ms,
                )
            },
            rank(LogLevel::Debug) <= rank(old(self).level) ==> {
                let n = old(self).entries_view().len() as int;
                let k = if body.len() < 500 {
                    body.len() as int
                } else {
                    500
                };
                &&& final(self).entries_view().len() == n + 2
                &&& final(self).entries_view()[n + 1].1 == "debug"@
                &&& final(self).entries_view()[n + 1].2 == "http"@
                &&& exists|head: Seq<char>|
                    encode_utf8(head) == body.spec_bytes().take(k)
                        && final(self).entries_view()[n + 1].3 == "response: "@ + head
            },
    {
        let mut lines: Vec<String> = Vec::new();
        let m = http_message_exec(url, status, duration_ms);
        match self.info("http", m) {
            Some(l) => lines.push(l),
            None => {},
        }
        let k = if body.len() < 500 {
            body.len()
        } else {
            500
        };
        let (head, _) = body.split_at(k);
        let ghost hv = head@;
        let pre = chars_of("response: ");
        let msg = concat_chars(&pre, head);
        let ghost mid = self.entries_view();
        let dl = self.debug("http", msg);
        match dl {
            Some(l) => lines.push(l),
            None => {},
        }
        proof {
            if rank(LogLevel::Debug) <= rank(old(self).level) {
                assert(self.entries_view().last() == self.entries_view()[old(
                    self,
                ).entries_view().len() as int + 1]);
                assert(encode_utf8(hv) == head.spec_bytes());
            }
        }
        lines
    }

    /// An adb invocation: `adb {args} → ok ({d}ms)` at info level when it
    /// exited 0, else `adb {args} → exit {code} ({d}ms)` as an error.
    pub fn adb(&mut self, args: &[&str], exit_code: i32, duration_ms: u64) -> (r: Option<String>)
        ensures
            exit_code == 0 ==> appended(
                *old(self),
                *final(self),
                LogLevel::Info,
                "adb"@,
                adb_message(args@.map_values(|a: &str| a@), exit_code, duration_ms),
            ),
            exit_code != 0 ==> appended(
                *old(self),
                *final(self),
                LogLevel::Error,
                "adb"@,
                adb_message(args@.map_values(|a: &str| a@), exit_code, duration_ms),
            ),
    {
        let m = adb_message_exec(args, exit_code, duration_ms);
        if exit_code == 0 {
            self.info("adb", m)
        } else {
            self.error("adb", m)
        }
    }

    /// `[{idx}] START {description}` at info level.
    pub fn step_start(&mut self, step_idx: usize, description: &str) -> (r: Option<String>)
        ensures
            appended(
                *old(self),
                *final(self),
                LogLevel::Info,
                "step"@,
                "["@ + decimal_nat(step_idx as nat) + "] START "@ + description@,
            ),
    {
        let mut v: Vec<char> = Vec::new();
        push_str(&mut v, "[");
        push_u64(&mut v, step_idx as u64);
        push_str(&mut v, "] START ");
        push_str(&mut v, description);
        assert(v@ =~= "["@ + decimal_nat(step_idx as nat) + "] START "@ + description@);
        self.info("step", string_of(&v))
    }

    /// `[{idx}] PASS|FAIL {description} ({d}ms)` at info level.
    pub fn step_end(&mut self, step_idx: usize, description: &str, duration_ms: u64, ok: bool) -> (r:
        Option<String>)
        ensures
            appended(
                *old(self),
                *final(self),
                LogLevel::Info,
                "step"@,
                "["@ + decimal_nat(step_idx as nat) + "] "@ + (if ok {
                    "PASS"@
                } else {
                    "FAIL"@
                }) + " "@ + description@ + " ("@ + decimal_nat(duration_ms as nat) + "ms)"@,
            ),
    {
        let mut v: Vec<char> = Vec::new();
        push_str(&mut v, "[");
        push_u64(&mut v, step_idx as u64);
        push_str(&mut v, "] ");
        push_str(
            &mut v,
            if ok {
                "PASS"
            } else {
                "FAIL"
            },
        );
        push_str(&mut v, " ");
        push_str(&mut v, description);
        push_str(&mut v, " (");
        push_u64(&mut v, duration_ms);
        push_str(&mut v, "ms)");
        assert(v@ =~= "["@ + decimal_nat(step_idx as nat) + "] "@ + (if ok {
            "PASS"@
        } else {
            "FAIL"@
        }) + " "@ + description@ + " ("@ + decimal_nat(duration_ms as nat) + "ms)"@);
        self.info("step", string_of(&v))
    }

    /// `{phase} ({d}ms)` at info level.
    pub fn setup(&mut self, phase: &str, duration_ms: u64) -> (r: Option<String>)
        ensures
            appended(
                *old(self),
                *final(self),
                LogLevel::Info,
                "setup"@,
                phase@ + " ("@ + decimal_nat(duration_ms as nat) + "ms)"@,
            ),
    {
        let mut v: Vec<char> = Vec::new();
        push_str(&mut v, phase);
        push_str(&mut v, " (");
        push_u64(&mut v, duration_ms);
        push_str(&mut v, "ms)");
        assert(v@ =~= phase@ + " ("@ + decimal_nat(duration_ms as nat) + "ms)"@);
        self.info("setup", string_of(&v))
    }

    /// A copy of the kept records, oldest first.
    pub fn entries(&self) -> (r: Vec<LogEntry>)
        ensures
            r@.map_values(|e: LogEntry| entry_view(e)) == self.entries_view(),
    {
        let mut r: Vec<LogEntry> = Vec::new();
        let mut i: usize = 0;
        while i < self.entries.len()
            invariant
                i <= self.entries@.len(),
                r@.map_values(|e: LogEntry| entry_view(e)) == self.entries_view().take(i as int),
            decreases self.entries@.len() - i,
        {
            let e = self.entries[i].copy_entry();
            let ghost before = r@;
            r.push(e);
            proof {
                let f = |e: LogEntry| entry_view(e);
                assert(r@ =~= before.push(e));
                assert(r@.map_values(f) =~= before.map_values(f).push(entry_view(e)));
                assert(entry_view(e) == self.entries_view()[i as int]);
                assert(self.entries_view().take(i + 1) =~= self.entries_view().take(
                    i as int,
                ).push(self.entries_view()[i as int]));
            }
            i = i + 1;
        }
        assert(self.entries_view().take(i as int) =~= self.entries_view());
        r
    }
}

/// `{url} → {status} ({duration_ms}ms)`
pub open spec fn http_message(url: Seq<char>, status: u16, duration_ms: u64) -> Seq<char> {
    url + " → "@ + decimal_nat(status as nat) + " ("@ + decimal_nat(duration_ms as nat) + "ms)"@
}

fn http_message_exec(url: &str, status: u16, duration_ms: u64) -> (r: String)
    ensures
        r@ == http_message(url@, status, duration_ms),
{
    let mut v: Vec<char> = Vec::new();
    push_str(&mut v, url);
    push_str(&mut v, " → ");
    push_u64(&mut v, status as u64);
    push_str(&mut v, " (");
    push_u64(&mut v, duration_ms);
    push_str(&mut v, "ms)");
    assert(v@ =~= http_message(url@, status, duration_ms));
    string_of(&v)
}

/// `adb {args joined by spaces} → ok ({d}ms)`, or `→ exit {code}` when the
/// exit code is not 0.
pub open spec fn adb_message(args: Seq<Seq<char>>, exit_code: i32, duration_ms: u64) -> Seq<char> {
    "adb "@ + join(args, " "@) + (if exit_code == 0 {
        " → ok ("@
    } else {
        " → exit "@ + decimal_int(exit_code as int) + " ("@
    }) + decimal_nat(duration_ms as nat) + "ms)"@
}

fn join_exec(args: &[&str]) -> (r: Vec<char>)
    ensures
        r@ == join(args@.map_values(|a: &str| a@), " "@),
{
    let ghost views = args@.map_values(|a: &str| a@);
    let mut v: Vec<char> = Vec::new();
    let mut i: usize = 0;
    while i < args.len()
        invariant
            i <= args@.len(),
            views == args@.map_values(|a: &str| a@),
            v@ == join(views.take(i as int), " "@),
        decreases args@.len() - i,
    {
        let ghost before = v@;
        if i > 0 {
            push_str(&mut v, " ");
        }
        push_str(&mut v, args[i]);
        proof {
            let t = views.take(i + 1);
            assert(t.drop_last() =~= views.take(i as int));
            assert(t.last() == args@[i as int]@);
            if i == 0 {
                assert(t.len() == 1);
                assert(v@ =~= t[0]);
            } else {
                assert(v@ =~= join(t.drop_last(), " "@) + " "@ + t.last());
            }
        }
        i = i + 1;
    }
    assert(views.take(i as int) =~= views);
    v
}

fn adb_message_exec(args: &[&str], exit_code: i32, duration_ms: u64) -> (r: String)
    ensures
        r@ == adb_message(args@.map_values(|a: &str| a@), exit_code, duration_ms),
{
    let mut v: Vec<char> = Vec::new();
    push_str(&mut v, "adb ");
    let j = join_exec(args);
    push_chars(&mut v, &j);
    if exit_code == 0 {
        push_str(&mut v, " → ok (");
    } else {
        push_str(&mut v, " → exit ");
        push_i64(&mut v, exit_code as i64);
        push_str(&mut v, " (");
    }
    push_u64(&mut v, duration_ms);
    push_str(&mut v, "ms)");
    assert(v@ =~= adb_message(args@.map_values(|a: &str| a@), exit_code, duration_ms));
    string_of(&v)
}

/// Filtering is by level alone: a record is kept exactly when it is no more
/// verbose than the log's level, whatever its category or message.
pub proof fn law_level_filter(old: Logger, new: Logger, l: LogLevel, c: Seq<char>, m: Seq<char>)
    requires
        appended(old, new, l, c, m),
    ensures
        new.entries_view().len() == old.entries_view().len() + (if rank(l) <= rank(old.level) {
            1int
        } else {
            0int
        }),
        new.level == old.level,
{
}

} // verus!
