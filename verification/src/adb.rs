//! The adb command line: the arguments of an invocation, how its outcome
//! is read, and the device list it reports.
use vstd::prelude::*;
use crate::registry::{Device, device_view, transport_of};
use crate::text::{
    chars_of, copy_range, decimal_nat, find_exec, lines, lines_vec, opt_str_view, parse_u64,
    parse_u64_exec, push_str, push_u64, string_of, strings_view, strs_view, to_strings, trim,
    trim_vec, find, starts_with, lemma_deep_view_chars,
};

verus! {

/// `adb` arguments: `-s <transport>` when a device is targeted, then `args`.
pub open spec fn adb_argv(device: Option<Device>, args: Seq<Seq<char>>) -> Seq<Seq<char>> {
    match device {
        Some(d) => seq!["-s"@, transport_of(device_view(d))] + args,
        None => args,
    }
}

/// The arguments of `adb [-s <transport>] <args>`.
pub fn adb_args(device: Option<&Device>, args: &[&str]) -> (r: Vec<String>)
    ensures
        strings_view(r@) == adb_argv(
            match device {
                Some(d) => Some(*d),
                None => None,
            },
            strs_view(args@),
        ),
{
    let rest = to_strings(args);
    match device {
        Some(d) => {
            let mut r: Vec<String> = Vec::new();
            r.push(String::from_str("-s"));
            r.push(d.transport_id());
            let mut i: usize = 0;
            while i < rest.len()
                invariant
                    i <= rest@.len(),
                    strings_view(rest@) == strs_view(args@),
                    strings_view(r@) == seq!["-s"@, transport_of(device_view(*d))] + strings_view(
                        rest@,
                    ).take(i as int),
                decreases rest@.len() - i,
            {
                let ghost before = r@;
                r.push(crate::text::copy_string(&rest[i]));
                assert(r@ =~= before.push(r@.last()));
                assert(strings_view(r@) =~= strings_view(before).push(rest@[i as int]@));
                assert(strings_view(rest@).take(i + 1) =~= strings_view(rest@).take(i as int).push(
                    rest@[i as int]@,
                ));
                i = i + 1;
            }
            assert(strings_view(rest@).take(i as int) =~= strings_view(rest@));
            r
        },
        None => rest,
    }
}

/// The arguments of `adb [-s <transport>] shell <args>`.
pub fn shell(device: Option<&Device>, args: &[&str]) -> (r: Vec<String>)
    ensures
        strings_view(r@) == adb_argv(
            match device {
                Some(d) => Some(*d),
                None => None,
            },
            seq!["shell"@] + strs_view(args@),
        ),
{
    let mut full: Vec<&str> = Vec::new();
    full.push("shell");
    let mut i: usize = 0;
    while i < args.len()
        invariant
            i <= args@.len(),
            strs_view(full@) == seq!["shell"@] + strs_view(args@).take(i as int),
        decreases args@.len() - i,
    {
        let ghost before = full@;
        full.push(args[i]);
        assert(strs_view(full@) =~= strs_view(before).push(args@[i as int]@));
        assert(strs_view(args@).take(i + 1) =~= strs_view(args@).take(i as int).push(
            args@[i as int]@,
        ));
        i = i + 1;
    }
    assert(strs_view(args@).take(i as int) =~= strs_view(args@));
    adb_args(device, full.as_slice())
}

/// The name an invocation is reported under: its first argument.
pub open spec fn label_of(args: Seq<Seq<char>>) -> Seq<char> {
    if args.len() > 0 {
        args[0]
    } else {
        seq![]
    }
}

pub fn label<'a>(args: &[&'a str]) -> (r: &'a str)
    ensures
        r@ == label_of(strs_view(args@)),
{
    if args.len() > 0 {
        args[0]
    } else {
        proof {
            reveal_strlit("");
        }
        ""
    }
}

/// The seconds adb may run: `DDB_ADB_TIMEOUT` when it reads as a `u64`,
/// else 30.
pub open spec fn timeout_secs_spec(env: Option<Seq<char>>) -> u64 {
    match env {
        Some(v) => match parse_u64(v) {
            Some(t) => t,
            None => 30,
        },
        None => 30,
    }
}

pub fn timeout_secs(env: Option<&str>) -> (r: u64)
    ensures
        r == timeout_secs_spec(opt_str_view(env)),
{
    match env {
        Some(v) => {
            let c = chars_of(v);
            match parse_u64_exec(&c) {
                Some(t) => t,
                None => 30,
            }
        },
        None => 30,
    }
}

/// What an adb run gave: killed by the watchdog, failed, or its output.
pub open spec fn outcome_spec(
    killed: bool,
    success: bool,
    stdout: Seq<char>,
    stderr: Seq<char>,
    label: Seq<char>,
    timeout_secs: u64,
) -> Result<Seq<char>, Seq<char>> {
    if killed {
        Err("adb "@ + label + " timed out ("@ + decimal_nat(timeout_secs as nat) + "s)"@)
    } else if !success {
        Err("adb "@ + label + " failed: "@ + stderr)
    } else {
        Ok(stdout)
    }
}

/// Read the outcome of an adb run: `killed` when the watchdog's SIGKILL
/// ended it, `success` for exit status 0; `stdout` and `stderr` as text.
pub fn outcome(
    killed: bool,
    success: bool,
    stdout: String,
    stderr: &str,
    label: &str,
    timeout_secs: u64,
) -> (r: Result<String, String>)
    ensures
        match r {
            Ok(s) => outcome_spec(killed, success, stdout@, stderr@, label@, timeout_secs) == Ok::<
                Seq<char>,
                Seq<char>,
            >(s@),
            Err(e) => outcome_spec(killed, success, stdout@, stderr@, label@, timeout_secs) == Err::<
                Seq<char>,
                Seq<char>,
            >(e@),
        },
{
    if killed {
        let mut v: Vec<char> = Vec::new();
        push_str(&mut v, "adb ");
        push_str(&mut v, label);
        push_str(&mut v, " timed out (");
        push_u64(&mut v, timeout_secs);
        push_str(&mut v, "s)");
        assert(v@ =~= "adb "@ + label@ + " timed out ("@ + decimal_nat(timeout_secs as nat)
            + "s)"@);
        Err(string_of(&v))
    } else if !success {
        let mut v: Vec<char> = Vec::new();
        push_str(&mut v, "adb ");
        push_str(&mut v, label);
        push_str(&mut v, " failed: ");
        push_str(&mut v, stderr);
        assert(v@ =~= "adb "@ + label@ + " failed: "@ + stderr@);
        Err(string_of(&v))
    } else {
        Ok(stdout)
    }
}

/// The device of one line of `adb devices`: the line, trimmed, is kept
/// unless empty or a `*` daemon notice, and splits at its first tab into
/// serial and state; a line with no tab names no device.
pub open spec fn device_line(line: Seq<char>) -> Option<(Seq<char>, Seq<char>)> {
    let t = trim(line);
    if t.len() == 0 || t[0] == '*' {
        None
    } else {
        match find(t, seq!['\t']) {
            Some(k) => Some((t.take(k as int), t.skip(k as int + 1))),
            None => None,
        }
    }
}

/// The devices of `adb devices` output, after its header line.
pub open spec fn serials_from(ls: Seq<Seq<char>>, i: nat) -> Seq<(Seq<char>, Seq<char>)>
    decreases ls.len() - i,
{
    if i >= ls.len() {
        seq![]
    } else {
        match device_line(ls[i as int]) {
            Some(p) => seq![p] + serials_from(ls, i + 1),
            None => serials_from(ls, i + 1),
        }
    }
}

pub open spec fn pairs_view(v: Seq<(String, String)>) -> Seq<(Seq<char>, Seq<char>)> {
    v.map_values(|p: (String, String)| (p.0@, p.1@))
}

fn device_line_exec(line: &[char]) -> (r: Option<(String, String)>)
    ensures
        match r {
            Some(p) => device_line(line@) == Some((p.0@, p.1@)),
            None => device_line(line@) is None,
        },
{
    let t = trim_vec(line);
    if t.len() == 0 || t[0] == '*' {
        return None;
    }
    let tab: Vec<char> = vec!['\t'];
    assert(tab@ =~= seq!['\t']);
    match find_exec(&t, &tab) {
        Some(k) => {
            proof {
                crate::text::lemma_find_from_props(t@, seq!['\t'], 0);
            }
            let a = copy_range(&t, 0, k);
            let b = copy_range(&t, k + 1, t.len());
            assert(a@ =~= t@.take(k as int));
            assert(b@ =~= t@.skip(k + 1));
            Some((string_of(&a), string_of(&b)))
        },
        None => None,
    }
}

/// Serial and state of each device that `adb devices` printed in `out`.
pub fn connected_serials(out: &str) -> (r: Vec<(String, String)>)
    ensures
        pairs_view(r@) == serials_from(lines(out@), 1),
{
    let cs = chars_of(out);
    let ls = lines_vec(&cs);
    let ghost lv = lines(out@);
    let mut r: Vec<(String, String)> = Vec::new();
    let mut i: usize = ls.len();
    assert(ls.deep_view().len() == ls@.len());
    while i > 1
        invariant
            ls.deep_view() == lv,
            ls.deep_view().len() == ls@.len(),
            1 <= i <= ls@.len() || (i == ls@.len() && i <= 1),
            pairs_view(r@) == serials_from(lv, i as nat),
        decreases i,
    {
        i = i - 1;
        let ghost before = r@;
        assert(ls[i as int]@ == lv[i as int]) by {
            lemma_deep_view_chars(ls[i as int]);
        }
        match device_line_exec(ls[i].as_slice()) {
            Some(p) => {
                r.insert(0, p);
                assert(pairs_view(r@) =~= seq![(r@[0].0@, r@[0].1@)] + pairs_view(before));
            },
            None => {},
        }
    }
    proof {
        if ls@.len() <= 1 {
            assert(serials_from(lv, i as nat) == Seq::<(Seq<char>, Seq<char>)>::empty());
            assert(serials_from(lv, 1) == Seq::<(Seq<char>, Seq<char>)>::empty());
        }
    }
    r
}

} // verus!
