//! Choosing the device a screen-mirroring session shows.
use vstd::prelude::*;
use crate::adb::pairs_view;
use crate::registry::{device_view, transport_of, Device, DeviceMap, DeviceView};
use crate::text::{
    chars_of, chars_views, copy_string, join, join_chars, opt_str_view, opt_view, push_chars, push_str, str_eq,
    string_of,
};

verus! {

/// Arguments handed through to the mirroring tool.
pub struct MirrorArgs {
    pub extra: Vec<String>,
}

/// `s` is listed by adb in the `device` state.
pub open spec fn live(conn: Seq<(Seq<char>, Seq<char>)>, s: Seq<char>) -> bool {
    exists|i: int| #![trigger conn[i]] 0 <= i < conn.len() && conn[i].0 == s && conn[i].1 == "device"@
}

/// Some serial is listed in the `device` state.
pub open spec fn any_live(conn: Seq<(Seq<char>, Seq<char>)>) -> bool {
    exists|i: int| #![trigger conn[i]] 0 <= i < conn.len() && conn[i].1 == "device"@
}

/// An enrolled device is up when adb lists its transport or its serial.
pub open spec fn dev_up(conn: Seq<(Seq<char>, Seq<char>)>, d: DeviceView) -> bool {
    live(conn, transport_of(d)) || live(conn, d.0)
}

/// The enrolled devices among the first `n` that are up, by name.
pub open spec fn enrolled_targets(
    keys: Seq<Seq<char>>,
    devs: Seq<DeviceView>,
    conn: Seq<(Seq<char>, Seq<char>)>,
    n: nat,
) -> Seq<(Option<Seq<char>>, Seq<char>)>
    decreases n,
{
    if n == 0 {
        seq![]
    } else {
        let prev = enrolled_targets(keys, devs, conn, (n - 1) as nat);
        let d = devs[n - 1];
        if dev_up(conn, d) {
            prev.push((Some(keys[n - 1]), transport_of(d)))
        } else {
            prev
        }
    }
}

/// `s` is the transport or the serial of an enrolled device that is up.
pub open spec fn covered(
    devs: Seq<DeviceView>,
    conn: Seq<(Seq<char>, Seq<char>)>,
    s: Seq<char>,
) -> bool {
    exists|j: int|
        #![trigger devs[j]]
        0 <= j < devs.len() && dev_up(conn, devs[j]) && (s == transport_of(devs[j]) || s
            == devs[j].0)
}

/// Serials among the first `n` listed that are up and belong to no enrolled device.
pub open spec fn loose_targets(
    devs: Seq<DeviceView>,
    conn: Seq<(Seq<char>, Seq<char>)>,
    n: nat,
) -> Seq<(Option<Seq<char>>, Seq<char>)>
    decreases n,
{
    if n == 0 {
        seq![]
    } else {
        let prev = loose_targets(devs, conn, (n - 1) as nat);
        let c = conn[n - 1];
        if c.1 == "device"@ && !covered(devs, conn, c.0) {
            prev.push((None, c.0))
        } else {
            prev
        }
    }
}

/// Every device that can be mirrored now: enrolled ones that are up, by
/// name, then the other serials adb lists as `device`, in adb's order.
pub open spec fn targets(
    keys: Seq<Seq<char>>,
    devs: Seq<DeviceView>,
    conn: Seq<(Seq<char>, Seq<char>)>,
) -> Seq<(Option<Seq<char>>, Seq<char>)> {
    enrolled_targets(keys, devs, conn, keys.len()) + loose_targets(devs, conn, conn.len())
}

pub open spec fn targets_view(v: Seq<(Option<String>, String)>) -> Seq<
    (Option<Seq<char>>, Seq<char>),
> {
    v.map_values(|p: (Option<String>, String)| (opt_view(p.0), p.1@))
}

/// `name (transport)`, or the bare transport of a device that is not enrolled.
pub open spec fn candidate_text(p: (Option<Seq<char>>, Seq<char>)) -> Seq<char> {
    match p.0 {
        Some(n) => n + " ("@ + p.1 + ")"@,
        None => p.1,
    }
}

pub open spec fn candidate_texts(c: Seq<(Option<Seq<char>>, Seq<char>)>) -> Seq<Seq<char>> {
    c.map_values(|p: (Option<Seq<char>>, Seq<char>)| candidate_text(p))
}

/// The candidates as one line for a message.
pub open spec fn format_spec(c: Seq<(Option<Seq<char>>, Seq<char>)>) -> Seq<char> {
    join(candidate_texts(c), ", "@)
}

/// What `-s` is given to the mirroring tool: `Ok(None)` lets adb choose.
pub open spec fn pick_spec(
    name: Option<Seq<char>>,
    m: DeviceMap,
    conn: Seq<(Seq<char>, Seq<char>)>,
) -> Result<Option<Seq<char>>, Seq<char>> {
    let cands = targets(m.keys(), m.devs(), conn);
    match name {
        Some(n) => match m.lookup(n) {
            Some(d) => Ok(Some(transport_of(d))),
            None => if live(conn, n) {
                Ok(Some(n))
            } else {
                let avail = format_spec(cands);
                Err(
                    "unknown device '"@ + n + "'. available: "@ + (if avail.len() == 0 {
                        "(none)"@
                    } else {
                        avail
                    }),
                )
            },
        },
        None => if cands.len() == 0 {
            if m.keys().len() == 0 && !any_live(conn) {
                Ok(None)
            } else {
                Err("no connected devices. attach via USB or run `ddb devices connect <name>`"@)
            }
        } else if cands.len() == 1 {
            Ok(Some(cands[0].1))
        } else {
            Err("multiple devices available, specify one with -d: "@ + format_spec(cands))
        },
    }
}

pub open spec fn pick_view(r: Result<Option<String>, String>) -> Result<
    Option<Seq<char>>,
    Seq<char>,
> {
    match r {
        Ok(o) => Ok(opt_view(o)),
        Err(e) => Err(e@),
    }
}

/// `s` is listed by adb in the `device` state.
pub fn is_live(connected: &[(String, String)], s: &str) -> (r: bool)
    ensures
        r == live(pairs_view(connected@), s@),
{
    let ghost conn = pairs_view(connected@);
    let mut i: usize = 0;
    while i < connected.len()
        invariant
            i <= connected@.len(),
            conn == pairs_view(connected@),
            forall|j: int| 0 <= j < i ==> !(conn[j].0 == s@ && conn[j].1 == "device"@),
        decreases connected@.len() - i,
    {
        if str_eq(connected[i].0.as_str(), s) && str_eq(connected[i].1.as_str(), "device") {
            assert(conn[i as int].0 == s@);
            return true;
        }
        i = i + 1;
    }
    proof {
        if live(conn, s@) {
            let j = choose|j: int| #![trigger conn[j]] 0 <= j < conn.len() && conn[j].0 == s@
                && conn[j].1 == "device"@;
            assert(!(conn[j].0 == s@ && conn[j].1 == "device"@));
        }
    }
    false
}

fn has_live(connected: &[(String, String)]) -> (r: bool)
    ensures
        r == any_live(pairs_view(connected@)),
{
    let ghost conn = pairs_view(connected@);
    let mut i: usize = 0;
    while i < connected.len()
        invariant
            i <= connected@.len(),
            conn == pairs_view(connected@),
            forall|j: int| 0 <= j < i ==> conn[j].1 != "device"@,
        decreases connected@.len() - i,
    {
        if str_eq(connected[i].1.as_str(), "device") {
            assert(conn[i as int].1 == "device"@);
            return true;
        }
        i = i + 1;
    }
    proof {
        if any_live(conn) {
            let j = choose|j: int| #![trigger conn[j]] 0 <= j < conn.len() && conn[j].1
                == "device"@;
            assert(conn[j].1 != "device"@);
        }
    }
    false
}

fn is_dev_up(connected: &[(String, String)], dev: &Device) -> (r: bool)
    ensures
        r == dev_up(pairs_view(connected@), device_view(*dev)),
{
    let t = dev.transport_id();
    is_live(connected, t.as_str()) || is_live(connected, dev.serial.as_str())
}

fn is_covered(devices: &DeviceMap, connected: &[(String, String)], s: &str) -> (r: bool)
    ensures
        r == covered(devices.devs(), pairs_view(connected@), s@),
{
    proof {
        devices.lemma_lens();
    }
    let ghost devs = devices.devs();
    let ghost conn = pairs_view(connected@);
    let mut i: usize = 0;
    while i < devices.len()
        invariant
            i <= devs.len(),
            devs == devices.devs(),
            devices.keys().len() == devs.len(),
            conn == pairs_view(connected@),
            forall|j: int|
                0 <= j < i ==> !(dev_up(conn, #[trigger] devs[j]) && (s@ == transport_of(devs[j])
                    || s@ == devs[j].0)),
        decreases devs.len() - i,
    {
        let (_, d) = devices.entry_at(i);
        if is_dev_up(connected, d) {
            let t = d.transport_id();
            if str_eq(t.as_str(), s) || str_eq(d.serial.as_str(), s) {
                assert(devs[i as int] == device_view(*d));
                return true;
            }
        }
        i = i + 1;
    }
    proof {
        if covered(devs, conn, s@) {
            let j = choose|j: int|
                #![trigger devs[j]]
                0 <= j < devs.len() && dev_up(conn, devs[j]) && (s@ == transport_of(devs[j]) || s@
                    == devs[j].0);
            assert(!(dev_up(conn, devs[j]) && (s@ == transport_of(devs[j]) || s@ == devs[j].0)));
        }
    }
    false
}

/// Every device that can be mirrored now, as (enrolled name, transport):
/// enrolled devices that adb lists, then the other serials adb lists.
pub fn available_targets(devices: &DeviceMap, connected: &[(String, String)]) -> (r: Vec<
    (Option<String>, String),
>)
    ensures
        targets_view(r@) == targets(devices.keys(), devices.devs(), pairs_view(connected@)),
{
    proof {
        devices.lemma_lens();
    }
    let ghost keys = devices.keys();
    let ghost devs = devices.devs();
    let ghost conn = pairs_view(connected@);
    let mut result: Vec<(Option<String>, String)> = Vec::new();
    let mut i: usize = 0;
    while i < devices.len()
        invariant
            i <= keys.len(),
            keys == devices.keys(),
            devs == devices.devs(),
            keys.len() == devs.len(),
            conn == pairs_view(connected@),
            targets_view(result@) == enrolled_targets(keys, devs, conn, i as nat),
        decreases keys.len() - i,
    {
        let (k, d) = devices.entry_at(i);
        if is_dev_up(connected, d) {
            let t = d.transport_id();
            let ghost before = result@;
            result.push((Some(copy_string(k)), t));
            assert(targets_view(result@) =~= targets_view(before).push(
                (Some(keys[i as int]), transport_of(devs[i as int])),
            ));
        }
        i = i + 1;
    }
    let mut j: usize = 0;
    while j < connected.len()
        invariant
            j <= conn.len(),
            keys == devices.keys(),
            devs == devices.devs(),
            keys.len() == devs.len(),
            conn == pairs_view(connected@),
            targets_view(result@) == enrolled_targets(keys, devs, conn, keys.len())
                + loose_targets(devs, conn, j as nat),
        decreases conn.len() - j,
    {
        let s = &connected[j].0;
        if str_eq(connected[j].1.as_str(), "device") && !is_covered(devices, connected, s.as_str()) {
            let ghost before = result@;
            result.push((None, copy_string(s)));
            assert(targets_view(result@) =~= targets_view(before).push((None, conn[j as int].0)));
            assert(enrolled_targets(keys, devs, conn, keys.len()) + loose_targets(
                devs,
                conn,
                (j + 1) as nat,
            ) =~= (enrolled_targets(keys, devs, conn, keys.len()) + loose_targets(
                devs,
                conn,
                j as nat,
            )).push((None, conn[j as int].0)));
        }
        j = j + 1;
    }
    result
}

fn candidate_chars(c: &(Option<String>, String)) -> (r: Vec<char>)
    ensures
        r@ == candidate_text((opt_view(c.0), c.1@)),
{
    match &c.0 {
        Some(n) => {
            let mut v: Vec<char> = Vec::new();
            push_str(&mut v, n.as_str());
            push_str(&mut v, " (");
            push_str(&mut v, c.1.as_str());
            push_str(&mut v, ")");
            v
        },
        None => chars_of(c.1.as_str()),
    }
}

fn format_chars(candidates: &[(Option<String>, String)]) -> (r: Vec<char>)
    ensures
        r@ == format_spec(targets_view(candidates@)),
{
    let ghost texts = candidate_texts(targets_view(candidates@));
    let mut items: Vec<Vec<char>> = Vec::new();
    let mut i: usize = 0;
    while i < candidates.len()
        invariant
            i <= candidates@.len(),
            texts == candidate_texts(targets_view(candidates@)),
            chars_views(items@) == texts.take(i as int),
        decreases candidates@.len() - i,
    {
        let t = candidate_chars(&candidates[i]);
        let ghost before = items@;
        items.push(t);
        assert(chars_views(items@) =~= chars_views(before).push(texts[i as int]));
        assert(texts.take(i + 1) =~= texts.take(i as int).push(texts[i as int]));
        i = i + 1;
    }
    assert(texts.take(i as int) =~= texts);
    join_chars(&items, ", ")
}

/// The candidates for a message: `name (transport)` or the bare serial,
/// joined with `, `.
pub fn format_candidates(candidates: &[(Option<String>, String)]) -> (r: String)
    ensures
        r@ == format_spec(targets_view(candidates@)),
{
    string_of(&format_chars(candidates))
}

/// The value for the mirroring tool's `-s`. `Ok(None)` when nothing is
/// enrolled or attached, so that the tool gives its own message.
pub fn pick_target(
    dev_name: Option<&str>,
    devices: &DeviceMap,
    connected: &[(String, String)],
) -> (r: Result<Option<String>, String>)
    requires
        devices.wf(),
    ensures
        pick_view(r) == pick_spec(opt_str_view(dev_name), *devices, pairs_view(connected@)),
{
    let cands = available_targets(devices, connected);
    match dev_name {
        Some(name) => {
            match devices.get(name) {
                Some(dev) => {
                    return Ok(Some(dev.transport_id()));
                },
                None => {},
            }
            if is_live(connected, name) {
                return Ok(Some(String::from_str(name)));
            }
            let avail = format_chars(&cands);
            let mut v: Vec<char> = Vec::new();
            push_str(&mut v, "unknown device '");
            push_str(&mut v, name);
            push_str(&mut v, "'. available: ");
            if avail.len() == 0 {
                push_str(&mut v, "(none)");
            } else {
                push_chars(&mut v, &avail);
            }
            Err(string_of(&v))
        },
        None => {
            if cands.len() == 0 {
                if devices.is_empty() && !has_live(connected) {
                    Ok(None)
                } else {
                    Err(
                        String::from_str(
                            "no connected devices. attach via USB or run `ddb devices connect <name>`",
                        ),
                    )
                }
            } else if cands.len() == 1 {
                Ok(Some(copy_string(&cands[0].1)))
            } else {
                let f = format_chars(&cands);
                let mut v: Vec<char> = Vec::new();
                push_str(&mut v, "multiple devices available, specify one with -d: ");
                push_chars(&mut v, &f);
                Err(string_of(&v))
            }
        },
    }
}

} // verus!
