//! The heartbeat daemon: its launchd label and files, and the decisions
//! of the loop that keeps a wireless adb connection alive.
use vstd::prelude::*;
use crate::config::{join_path, path_join};
use crate::text::{chars_of, contains, contains_exec, decimal_nat, push_str, push_u64, string_of};

verus! {

/// Consecutive missed checks after which the daemon reconnects.
pub const MISS_THRESHOLD: u32 = 3;

pub open spec fn label_spec(name: Seq<char>) -> Seq<char> {
    "com.user.ddb-heartbeat-"@ + name
}

/// The launchd label of the daemon for `name`.
pub fn label(name: &str) -> (r: String)
    ensures
        r@ == label_spec(name@),
{
    let mut v: Vec<char> = Vec::new();
    push_str(&mut v, "com.user.ddb-heartbeat-");
    push_str(&mut v, name);
    string_of(&v)
}

pub open spec fn home_or_tilde(home: Option<Seq<char>>) -> Seq<char> {
    match home {
        Some(h) => h,
        None => "~"@,
    }
}

pub open spec fn plist_path_spec(home: Option<Seq<char>>, name: Seq<char>) -> Seq<char> {
    path_join(
        path_join(home_or_tilde(home), "Library/LaunchAgents"@),
        label_spec(name) + ".plist"@,
    )
}

/// `~/Library/LaunchAgents/<label>.plist`, under the home directory `home`
/// (`~` where there is none).
pub fn plist_path(home: Option<&str>, name: &str) -> (r: String)
    ensures
        r@ == plist_path_spec(crate::text::opt_str_view(home), name@),
{
    let base = match home {
        Some(h) => h,
        None => "~",
    };
    let agents = join_path(base, "Library/LaunchAgents");
    let mut file: Vec<char> = Vec::new();
    let l = label(name);
    push_str(&mut file, l.as_str());
    push_str(&mut file, ".plist");
    let f = string_of(&file);
    join_path(agents.as_str(), f.as_str())
}

pub open spec fn log_path_spec(name: Seq<char>) -> Seq<char> {
    "/tmp/ddb-"@ + name + "-heartbeat.log"@
}

/// Where the daemon for `name` writes its output.
pub fn log_path(name: &str) -> (r: String)
    ensures
        r@ == log_path_spec(name@),
{
    let mut v: Vec<char> = Vec::new();
    push_str(&mut v, "/tmp/ddb-");
    push_str(&mut v, name);
    push_str(&mut v, "-heartbeat.log");
    string_of(&v)
}

/// The launchd property list that runs `bin daemon heartbeat name` at
/// load, keeps it alive, and sends its output to `log`.
pub open spec fn plist_spec(
    label: Seq<char>,
    bin: Seq<char>,
    name: Seq<char>,
    log: Seq<char>,
) -> Seq<char> {
    "<?xml version=\"1.0\" encoding=\"UTF-8\"?>\n<!DOCTYPE plist PUBLIC \"-//Apple//DTD PLIST 1.0//EN\" \"http://www.apple.com/DTDs/PropertyList-1.0.dtd\">\n<plist version=\"1.0\">\n<dict>\n    <key>Label</key>\n    <string>"@
        + label
        + "</string>\n    <key>ProgramArguments</key>\n    <array>\n        <string>"@ + bin
        + "</string>\n        <string>daemon</string>\n        <string>heartbeat</string>\n        <string>"@
        + name
        + "</string>\n    </array>\n    <key>RunAtLoad</key>\n    <true/>\n    <key>KeepAlive</key>\n    <true/>\n    <key>StandardOutPath</key>\n    <string>"@
        + log + "</string>\n    <key>StandardErrorPath</key>\n    <string>"@ + log
        + "</string>\n</dict>\n</plist>"@
}

/// The property list of the daemon for `name`.
pub fn plist_content(label: &str, bin: &str, name: &str, log: &str) -> (r: String)
    ensures
        r@ == plist_spec(label@, bin@, name@, log@),
{
    let mut v: Vec<char> = Vec::new();
    push_str(
        &mut v,
        "<?xml version=\"1.0\" encoding=\"UTF-8\"?>\n<!DOCTYPE plist PUBLIC \"-//Apple//DTD PLIST 1.0//EN\" \"http://www.apple.com/DTDs/PropertyList-1.0.dtd\">\n<plist version=\"1.0\">\n<dict>\n    <key>Label</key>\n    <string>",
    );
    push_str(&mut v, label);
    push_str(
        &mut v,
        "</string>\n    <key>ProgramArguments</key>\n    <array>\n        <string>",
    );
    push_str(&mut v, bin);
    push_str(
        &mut v,
        "</string>\n        <string>daemon</string>\n        <string>heartbeat</string>\n        <string>",
    );
    push_str(&mut v, name);
    push_str(
        &mut v,
        "</string>\n    </array>\n    <key>RunAtLoad</key>\n    <true/>\n    <key>KeepAlive</key>\n    <true/>\n    <key>StandardOutPath</key>\n    <string>",
    );
    push_str(&mut v, log);
    push_str(&mut v, "</string>\n    <key>StandardErrorPath</key>\n    <string>");
    push_str(&mut v, log);
    push_str(&mut v, "</string>\n</dict>\n</plist>");
    string_of(&v)
}

/// The daemon of `name` appears in the `launchctl list` output.
pub fn daemon_loaded(launchctl_out: &str, name: &str) -> (r: bool)
    ensures
        r == contains(launchctl_out@, label_spec(name@)),
{
    let out = chars_of(launchctl_out);
    let l = label(name);
    let lc = chars_of(l.as_str());
    contains_exec(&out, &lc)
}

pub open spec fn state_spec(loaded: bool, plist_exists: bool) -> Seq<char> {
    if loaded {
        "RUNNING"@
    } else if plist_exists {
        "STOPPED (plist exists)"@
    } else {
        "not installed"@
    }
}

/// The state `daemon status` reports.
pub fn daemon_state(loaded: bool, plist_exists: bool) -> (r: String)
    ensures
        r@ == state_spec(loaded, plist_exists),
{
    if loaded {
        String::from_str("RUNNING")
    } else if plist_exists {
        String::from_str("STOPPED (plist exists)")
    } else {
        String::from_str("not installed")
    }
}

// ---------------------------------------------------------------------------
// The heartbeat loop
// ---------------------------------------------------------------------------

/// What one check of the heartbeat loop leads to.
#[derive(PartialEq, Eq, Structural)]
pub enum Beat {
    /// The wireless address is listed as a device.
    Healthy,
    /// It is missing; this is the `count`th miss in a row.
    Missed { count: u32 },
    /// The `count`th miss in a row reached the threshold: reconnect.
    Reconnect { count: u32 },
}

/// The misses counted after a check, and what the check leads to.
pub open spec fn beat_spec(misses: nat, live: bool) -> (nat, Beat) {
    if live {
        (0, Beat::Healthy)
    } else if misses + 1 >= MISS_THRESHOLD {
        (0, Beat::Reconnect { count: (misses + 1) as u32 })
    } else {
        ((misses + 1) as nat, Beat::Missed { count: (misses + 1) as u32 })
    }
}

/// The count of consecutive checks that found the connection missing.
pub struct Heartbeat {
    miss_count: u32,
}

impl Heartbeat {
    pub closed spec fn misses(&self) -> nat {
        self.miss_count as nat
    }

    /// The count never reaches the threshold: reaching it reconnects.
    pub closed spec fn inv(&self) -> bool {
        self.miss_count < MISS_THRESHOLD
    }

    pub fn new() -> (r: Self)
        ensures
            r.inv(),
            r.misses() == 0,
    {
        Heartbeat { miss_count: 0 }
    }

    pub fn misses_now(&self) -> (r: u32)
        ensures
            r == self.misses(),
    {
        self.miss_count
    }

    /// The device answered a ping again after being unreachable: counting
    /// starts over.
    pub fn back_on_network(&mut self)
        ensures
            final(self).inv(),
            final(self).misses() == 0,
    {
        self.miss_count = 0;
    }

    /// One check of adb's list: `live` when the wireless address is there.
    pub fn observe(&mut self, live: bool) -> (r: Beat)
        requires
            old(self).inv(),
        ensures
            final(self).inv(),
            (final(self).misses(), r) == beat_spec(old(self).misses(), live),
    {
        if live {
            self.miss_count = 0;
            return Beat::Healthy;
        }
        let count = self.miss_count + 1;
        if count >= MISS_THRESHOLD {
            self.miss_count = 0;
            Beat::Reconnect { count }
        } else {
            self.miss_count = count;
            Beat::Missed { count }
        }
    }
}

/// From no misses, the third check in a row that finds the connection
/// missing reconnects, and the two before it only count.
pub proof fn law_third_miss_reconnects()
    ensures
        beat_spec(0, false) == (1nat, Beat::Missed { count: 1 }),
        beat_spec(1, false) == (2nat, Beat::Missed { count: 2 }),
        beat_spec(2, false) == (0nat, Beat::Reconnect { count: 3 }),
{
}

/// A check that finds the connection present always clears the count.
pub proof fn law_healthy_resets(misses: nat)
    ensures
        beat_spec(misses, true) == (0nat, Beat::Healthy),
{
}

pub open spec fn missed_line_spec(name: Seq<char>, count: nat) -> Seq<char> {
    "["@ + name + "] ADB disconnected ("@ + decimal_nat(count) + "/"@ + decimal_nat(
        MISS_THRESHOLD as nat,
    ) + ")"@
}

/// The log line of a missed check.
pub fn missed_line(name: &str, count: u32) -> (r: String)
    ensures
        r@ == missed_line_spec(name@, count as nat),
{
    let mut v: Vec<char> = Vec::new();
    push_str(&mut v, "[");
    push_str(&mut v, name);
    push_str(&mut v, "] ADB disconnected (");
    push_u64(&mut v, count as u64);
    push_str(&mut v, "/");
    push_u64(&mut v, MISS_THRESHOLD as u64);
    push_str(&mut v, ")");
    string_of(&v)
}

/// A reconnect worked when adb answered and said `connected`.
pub fn reconnected(reply: &Result<String, String>) -> (r: bool)
    ensures
        r == (reply matches Ok(out) && contains(out@, "connected"@)),
{
    match reply {
        Ok(out) => {
            let o = chars_of(out.as_str());
            let p = chars_of("connected");
            contains_exec(&o, &p)
        },
        Err(_) => false,
    }
}

} // verus!
