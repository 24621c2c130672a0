//! What the device commands decide: the listing, the status report,
//! enrolling and withdrawing devices, and wireless connection.
use vstd::prelude::*;
use crate::adb::pairs_view;
use crate::mirror::{is_live, live};
use crate::registry::{device_view, transport_of, wifi_addr_of, Device, DeviceMap, DeviceView};
use crate::text::{
    chars_of, contains, contains_exec, copy_string, decimal_nat, opt_view, pad_right, push_padded,
    push_str, push_u64, string_of, strings_view,
};

verus! {

/// The port `adb tcpip` is given when a device has none configured.
pub const DEFAULT_ADB_PORT: u16 = 5555;

// ---------------------------------------------------------------------------
// Listing
// ---------------------------------------------------------------------------

pub open spec fn list_header() -> Seq<char> {
    pad_right("Name"@, 12) + " "@ + pad_right("Model"@, 35) + " "@ + pad_right("IP"@, 18) + " "@
        + "Serial"@
}

pub open spec fn dashes(n: nat) -> Seq<char> {
    Seq::new(n, |i: int| '-')
}

/// One row: name, model, wireless address (or `-`) and serial in columns.
pub open spec fn list_row(name: Seq<char>, d: DeviceView) -> Seq<char> {
    let addr = match wifi_addr_of(d) {
        Some(a) => a,
        None => "-"@,
    };
    pad_right(name, 12) + " "@ + pad_right(d.1, 35) + " "@ + pad_right(addr, 18) + " "@ + d.0
}

/// The lines `devices list` prints.
pub open spec fn list_spec(keys: Seq<Seq<char>>, devs: Seq<DeviceView>) -> Seq<Seq<char>> {
    if keys.len() == 0 {
        seq!["No devices enrolled."@]
    } else {
        seq![list_header(), dashes(85)] + Seq::new(keys.len(), |i: int| list_row(keys[i], devs[i]))
    }
}

fn list_row_exec(name: &str, d: &Device) -> (r: String)
    ensures
        r@ == list_row(name@, device_view(*d)),
{
    let mut v: Vec<char> = Vec::new();
    push_padded(&mut v, name, 12);
    push_str(&mut v, " ");
    push_padded(&mut v, d.model.as_str(), 35);
    push_str(&mut v, " ");
    match d.wifi_addr() {
        Some(a) => push_padded(&mut v, a.as_str(), 18),
        None => push_padded(&mut v, "-", 18),
    }
    push_str(&mut v, " ");
    push_str(&mut v, d.serial.as_str());
    string_of(&v)
}

/// The lines of the enrolled-device table.
pub fn list(devices: &DeviceMap) -> (r: Vec<String>)
    ensures
        strings_view(r@) == list_spec(devices.keys(), devices.devs()),
{
    proof {
        devices.lemma_lens();
    }
    let mut r: Vec<String> = Vec::new();
    if devices.is_empty() {
        r.push(String::from_str("No devices enrolled."));
        assert(strings_view(r@) =~= list_spec(devices.keys(), devices.devs()));
        return r;
    }
    let mut h: Vec<char> = Vec::new();
    push_padded(&mut h, "Name", 12);
    push_str(&mut h, " ");
    push_padded(&mut h, "Model", 35);
    push_str(&mut h, " ");
    push_padded(&mut h, "IP", 18);
    push_str(&mut h, " ");
    push_str(&mut h, "Serial");
    r.push(string_of(&h));
    let mut d: Vec<char> = Vec::new();
    let mut k: usize = 0;
    while k < 85
        invariant
            k <= 85,
            d@ == dashes(k as nat),
        decreases 85 - k,
    {
        d.push('-');
        k = k + 1;
        assert(d@ =~= dashes(k as nat));
    }
    r.push(string_of(&d));
    let ghost keys = devices.keys();
    let ghost devs = devices.devs();
    let ghost rows = Seq::new(keys.len(), |i: int| list_row(keys[i], devs[i]));
    let mut i: usize = 0;
    while i < devices.len()
        invariant
            i <= keys.len(),
            keys == devices.keys(),
            devs == devices.devs(),
            keys.len() == devs.len(),
            rows == Seq::new(keys.len(), |i: int| list_row(keys[i], devs[i])),
            strings_view(r@) == seq![list_header(), dashes(85)] + rows.take(i as int),
        decreases keys.len() - i,
    {
        let (name, dev) = devices.entry_at(i);
        let row = list_row_exec(name.as_str(), dev);
        let ghost before = r@;
        r.push(row);
        assert(strings_view(r@) =~= strings_view(before).push(rows[i as int]));
        assert(rows.take(i + 1) =~= rows.take(i as int).push(rows[i as int]));
        i = i + 1;
    }
    assert(rows.take(i as int) =~= rows);
    r
}

// ---------------------------------------------------------------------------
// Status
// ---------------------------------------------------------------------------

pub open spec fn up_word(b: bool) -> Seq<char> {
    if b {
        "CONNECTED"@
    } else {
        "not connected"@
    }
}

/// The report `devices status` prints for one device, given what adb
/// lists, whether its wireless address answered a ping, and whether its
/// heartbeat daemon is loaded.
pub open spec fn status_spec(
    n: Seq<char>,
    d: DeviceView,
    conn: Seq<(Seq<char>, Seq<char>)>,
    ping_ok: bool,
    daemon_loaded: bool,
) -> Seq<Seq<char>> {
    let head = seq!["== "@ + n + " ("@ + transport_of(d) + ") =="@];
    let wifi = match wifi_addr_of(d) {
        Some(a) => seq!["  WiFi:  "@ + up_word(live(conn, a))],
        None => seq![],
    };
    let usb = seq!["  USB:   "@ + up_word(live(conn, d.0))];
    let ping = match d.4 {
        Some(_) => seq![
            "  Ping:  "@ + (if ping_ok {
                "reachable"@
            } else {
                "unreachable"@
            }),
        ],
        None => seq![],
    };
    let daemon = seq![
        "  Daemon: "@ + (if daemon_loaded {
            "LOADED"@
        } else {
            "not loaded"@
        }),
    ];
    head + wifi + usb + ping + daemon + seq![""@]
}

fn up_line(prefix: &str, b: bool) -> (r: String)
    ensures
        r@ == prefix@ + up_word(b),
{
    let mut v: Vec<char> = Vec::new();
    push_str(&mut v, prefix);
    if b {
        push_str(&mut v, "CONNECTED");
    } else {
        push_str(&mut v, "not connected");
    }
    string_of(&v)
}

fn cat2(a: &str, b: &str) -> (r: String)
    ensures
        r@ == a@ + b@,
{
    let mut v: Vec<char> = Vec::new();
    push_str(&mut v, a);
    push_str(&mut v, b);
    string_of(&v)
}

/// The status report of one enrolled device.
pub fn status(
    n: &str,
    dev: &Device,
    connected: &[(String, String)],
    ping_ok: bool,
    daemon_loaded: bool,
) -> (r: Vec<String>)
    ensures
        strings_view(r@) == status_spec(
            n@,
            device_view(*dev),
            pairs_view(connected@),
            ping_ok,
            daemon_loaded,
        ),
{
    let ghost d = device_view(*dev);
    let ghost conn = pairs_view(connected@);
    let mut r: Vec<String> = Vec::new();
    let mut h: Vec<char> = Vec::new();
    push_str(&mut h, "== ");
    push_str(&mut h, n);
    push_str(&mut h, " (");
    let t = dev.transport_id();
    push_str(&mut h, t.as_str());
    push_str(&mut h, ") ==");
    r.push(string_of(&h));
    let ghost head = seq!["== "@ + n@ + " ("@ + transport_of(d) + ") =="@];
    assert(strings_view(r@) =~= head);
    let ghost wifi = match wifi_addr_of(d) {
        Some(a) => seq!["  WiFi:  "@ + up_word(live(conn, a))],
        None => Seq::<Seq<char>>::empty(),
    };
    match dev.wifi_addr() {
        Some(addr) => {
            let ok = is_live(connected, addr.as_str());
            r.push(up_line("  WiFi:  ", ok));
        },
        None => {},
    }
    assert(strings_view(r@) =~= head + wifi);
    let usb_ok = is_live(connected, dev.serial.as_str());
    r.push(up_line("  USB:   ", usb_ok));
    let ghost usb = seq!["  USB:   "@ + up_word(live(conn, d.0))];
    assert(strings_view(r@) =~= head + wifi + usb);
    let ghost ping = match d.4 {
        Some(_) => seq![
            "  Ping:  "@ + (if ping_ok {
                "reachable"@
            } else {
                "unreachable"@
            }),
        ],
        None => Seq::<Seq<char>>::empty(),
    };
    if dev.wifi_ip.is_some() {
        if ping_ok {
            r.push(cat2("  Ping:  ", "reachable"));
        } else {
            r.push(cat2("  Ping:  ", "unreachable"));
        }
    }
    assert(strings_view(r@) =~= head + wifi + usb + ping);
    if daemon_loaded {
        r.push(cat2("  Daemon: ", "LOADED"));
    } else {
        r.push(cat2("  Daemon: ", "not loaded"));
    }
    let ghost daemon = seq![
        "  Daemon: "@ + (if daemon_loaded {
            "LOADED"@
        } else {
            "not loaded"@
        }),
    ];
    assert(strings_view(r@) =~= head + wifi + usb + ping + daemon);
    r.push(String::from_str(""));
    proof {
        reveal_strlit("");
    }
    assert(strings_view(r@) =~= head + wifi + usb + ping + daemon + seq![""@]);
    r
}

/// The heartbeat daemon of `name` appears in the `launchctl list` output.
pub fn daemon_listed(launchctl_out: &str, name: &str) -> (r: bool)
    ensures
        r == contains(launchctl_out@, "ddb-heartbeat-"@ + name@),
{
    let out = chars_of(launchctl_out);
    let mut p: Vec<char> = Vec::new();
    push_str(&mut p, "ddb-heartbeat-");
    push_str(&mut p, name);
    contains_exec(&out, &p)
}

// ---------------------------------------------------------------------------
// Enrolling and withdrawing
// ---------------------------------------------------------------------------

pub open spec fn already_enrolled(name: Seq<char>) -> Seq<char> {
    "device '"@ + name + "' already enrolled (use --force to re-enroll)"@
}

pub open spec fn enrolled_message(name: Seq<char>, existed: bool) -> Seq<char> {
    (if existed {
        "re-enrolled"@
    } else {
        "enrolled"@
    }) + " '"@ + name + "'."@
}

/// The record a device is enrolled with: the fields given and the date.
pub open spec fn enrolled_view(
    serial: Seq<char>,
    model: Seq<char>,
    android: Seq<char>,
    sdk: u32,
    wifi_ip: Option<Seq<char>>,
    adb_port: Option<u16>,
    date: Seq<char>,
) -> DeviceView {
    (serial, model, android, sdk, wifi_ip, adb_port, date)
}

/// Enroll a device under `name`, dated `today` unless it replaces an
/// enrollment, whose date it keeps. A device already enrolled under
/// `name` is replaced only with `force`.
pub fn enroll_on(
    devices: &mut DeviceMap,
    name: &str,
    serial: String,
    model: String,
    android: String,
    sdk: u32,
    wifi_ip: Option<String>,
    adb_port: Option<u16>,
    force: bool,
    today: &str,
) -> (r: Result<String, String>)
    requires
        old(devices).wf(),
    ensures
        final(devices).wf(),
        old(devices).lookup(name@) is Some && !force ==> (r matches Err(e) && e@
            == already_enrolled(name@) && *final(devices) == *old(devices)),
        !(old(devices).lookup(name@) is Some && !force) ==> (r matches Ok(m) && m@
            == enrolled_message(name@, old(devices).lookup(name@) is Some)),
        !(old(devices).lookup(name@) is Some && !force) ==> final(devices).lookup(name@) == Some(
            enrolled_view(
                serial@,
                model@,
                android@,
                sdk,
                opt_view(wifi_ip),
                adb_port,
                match old(devices).lookup(name@) {
                    Some(d) => d.6,
                    None => today@,
                },
            ),
        ),
        !(old(devices).lookup(name@) is Some && !force) ==> forall|k: Seq<char>|
            k != name@ ==> #[trigger] final(devices).lookup(k) == old(devices).lookup(k),
{
    let existing = match devices.get(name) {
        Some(d) => Some(copy_string(&d.enrolled)),
        None => None,
    };
    let existed = existing.is_some();
    if existed && !force {
        let mut v: Vec<char> = Vec::new();
        push_str(&mut v, "device '");
        push_str(&mut v, name);
        push_str(&mut v, "' already enrolled (use --force to re-enroll)");
        return Err(string_of(&v));
    }
    let enrolled = match existing {
        Some(e) => e,
        None => String::from_str(today),
    };
    let dev = Device { serial, model, android, sdk, wifi_ip, adb_port, enrolled };
    devices.insert(String::from_str(name), dev);
    let mut v: Vec<char> = Vec::new();
    if existed {
        push_str(&mut v, "re-enrolled");
    } else {
        push_str(&mut v, "enrolled");
    }
    push_str(&mut v, " '");
    push_str(&mut v, name);
    push_str(&mut v, "'.");
    Ok(string_of(&v))
}

/// Today's date in the local time zone, `YYYY-MM-DD`, from chrono's
/// `Local::now()` formatted with `%Y-%m-%d`. It depends on the clock and
/// the time zone of the machine, so nothing is stated of it.
#[verifier::external_body]
fn local_date() -> (r: String) {
    chrono::Local::now().format("%Y-%m-%d").to_string()
}

/// Enroll a device under `name`, dated today unless it replaces an
/// enrollment, whose date it keeps. A device already enrolled under
/// `name` is replaced only with `force`.
pub fn add(
    devices: &mut DeviceMap,
    name: &str,
    serial: String,
    model: String,
    android: String,
    sdk: u32,
    wifi_ip: Option<String>,
    adb_port: Option<u16>,
    force: bool,
) -> (r: Result<String, String>)
    requires
        old(devices).wf(),
    ensures
        final(devices).wf(),
        old(devices).lookup(name@) is Some && !force ==> (r matches Err(e) && e@
            == already_enrolled(name@) && *final(devices) == *old(devices)),
        !(old(devices).lookup(name@) is Some && !force) ==> (r matches Ok(m) && m@
            == enrolled_message(name@, old(devices).lookup(name@) is Some)),
        !(old(devices).lookup(name@) is Some && !force) ==> (final(devices).lookup(name@) matches Some(d)
            && d.0 == serial@ && d.1 == model@ && d.2 == android@ && d.3 == sdk && d.4 == opt_view(
            wifi_ip) && d.5 == adb_port),
        force ==> (old(devices).lookup(name@) matches Some(o) ==> (final(devices).lookup(name@) matches Some(d)
            && d.6 == o.6)),
        !(old(devices).lookup(name@) is Some && !force) ==> forall|k: Seq<char>|
            k != name@ ==> #[trigger] final(devices).lookup(k) == old(devices).lookup(k),
{
    let today = if devices.get(name).is_some() {
        String::new()
    } else {
        local_date()
    };
    enroll_on(devices, name, serial, model, android, sdk, wifi_ip, adb_port, force, today.as_str())
}

/// Withdraw the device enrolled under `name`.
pub fn remove(devices: &mut DeviceMap, name: &str) -> (r: Result<String, String>)
    requires
        old(devices).wf(),
    ensures
        final(devices).wf(),
        old(devices).lookup(name@) is None ==> (r matches Err(e) && e@ == "device '"@ + name@
            + "' not found"@),
        old(devices).lookup(name@) is Some ==> (r matches Ok(m) && m@ == "removed '"@ + name@ + "'."@),
        final(devices).lookup(name@) is None,
        forall|k: Seq<char>| k != name@ ==> #[trigger] final(devices).lookup(k) == old(devices).lookup(k),
{
    match devices.remove(name) {
        None => {
            let mut v: Vec<char> = Vec::new();
            push_str(&mut v, "device '");
            push_str(&mut v, name);
            push_str(&mut v, "' not found");
            Err(string_of(&v))
        },
        Some(_) => {
            let mut v: Vec<char> = Vec::new();
            push_str(&mut v, "removed '");
            push_str(&mut v, name);
            push_str(&mut v, "'.");
            Ok(string_of(&v))
        },
    }
}

// ---------------------------------------------------------------------------
// Wireless connection
// ---------------------------------------------------------------------------

pub open spec fn no_wifi(name: Seq<char>) -> Seq<char> {
    name + ": no wifi_ip configured"@
}

/// The wireless address of a device, or the error a wireless command
/// gives for a device without one.
pub fn wireless_addr(name: &str, dev: &Device) -> (r: Result<String, String>)
    ensures
        match wifi_addr_of(device_view(*dev)) {
            Some(a) => r matches Ok(s) && s@ == a,
            None => r matches Err(e) && e@ == no_wifi(name@),
        },
{
    match dev.wifi_addr() {
        Some(a) => Ok(a),
        None => Err(cat2(name, ": no wifi_ip configured")),
    }
}

/// What `devices connect` does after its first look at adb's list.
pub enum ConnectPlan {
    /// The wireless address is already listed as a device: say so.
    Already { message: String },
    /// Switch a USB device to TCP on `switch_port` first, if given, then
    /// connect to `addr`.
    Connect { switch_port: Option<u16>, addr: String },
}

pub open spec fn already_message(name: Seq<char>, addr: Seq<char>) -> Seq<char> {
    name + ": already connected wirelessly at "@ + addr
}

/// The first decision of `devices connect`, given what adb lists.
pub fn connect_plan(name: &str, dev: &Device, connected: &[(String, String)]) -> (r: Result<
    ConnectPlan,
    String,
>)
    ensures
        match wifi_addr_of(device_view(*dev)) {
            None => r matches Err(e) && e@ == no_wifi(name@),
            Some(a) => if live(pairs_view(connected@), a) {
                r matches Ok(ConnectPlan::Already { message }) && message@ == already_message(
                    name@,
                    a,
                )
            } else {
                r matches Ok(ConnectPlan::Connect { switch_port, addr }) && addr@ == a && switch_port
                    == (if live(pairs_view(connected@), dev.serial@) {
                    Some(
                        match dev.adb_port {
                            Some(p) => p,
                            None => DEFAULT_ADB_PORT,
                        },
                    )
                } else {
                    None
                })
            },
        },
{
    let addr = match wireless_addr(name, dev) {
        Ok(a) => a,
        Err(e) => {
            return Err(e);
        },
    };
    if is_live(connected, addr.as_str()) {
        let mut v: Vec<char> = Vec::new();
        push_str(&mut v, name);
        push_str(&mut v, ": already connected wirelessly at ");
        push_str(&mut v, addr.as_str());
        return Ok(ConnectPlan::Already { message: string_of(&v) });
    }
    let switch_port = if is_live(connected, dev.serial.as_str()) {
        Some(
            match dev.adb_port {
                Some(p) => p,
                None => DEFAULT_ADB_PORT,
            },
        )
    } else {
        None
    };
    Ok(ConnectPlan::Connect { switch_port, addr })
}

pub open spec fn connect_failed(name: Seq<char>, ip: Option<Seq<char>>) -> Seq<char> {
    name + ": connection failed. Is the device on WiFi at "@ + (match ip {
        Some(i) => i,
        None => "?"@,
    }) + "?"@
}

/// The verdict of `devices connect`, given what adb lists after connecting.
pub fn connect_outcome(name: &str, dev: &Device, addr: &str, connected: &[(String, String)]) -> (r:
    Result<String, String>)
    ensures
        live(pairs_view(connected@), addr@) ==> (r matches Ok(m) && m@ == name@
            + ": wireless ADB connected."@),
        !live(pairs_view(connected@), addr@) ==> (r matches Err(e) && e@ == connect_failed(
            name@,
            opt_view(dev.wifi_ip),
        )),
{
    if is_live(connected, addr) {
        Ok(cat2(name, ": wireless ADB connected."))
    } else {
        let mut v: Vec<char> = Vec::new();
        push_str(&mut v, name);
        push_str(&mut v, ": connection failed. Is the device on WiFi at ");
        match &dev.wifi_ip {
            Some(ip) => push_str(&mut v, ip.as_str()),
            None => push_str(&mut v, "?"),
        }
        push_str(&mut v, "?");
        Err(string_of(&v))
    }
}

/// The adb arguments of `devices disconnect` and the line it prints after.
pub fn disconnect(name: &str, dev: &Device) -> (r: Result<(Vec<String>, String), String>)
    ensures
        match wifi_addr_of(device_view(*dev)) {
            None => r matches Err(e) && e@ == no_wifi(name@),
            Some(a) => r matches Ok((args, m)) && strings_view(args@) == seq!["disconnect"@, a]
                && m@ == name@ + ": disconnected."@,
        },
{
    let addr = match wireless_addr(name, dev) {
        Ok(a) => a,
        Err(e) => {
            return Err(e);
        },
    };
    let mut args: Vec<String> = Vec::new();
    args.push(String::from_str("disconnect"));
    args.push(addr);
    assert(strings_view(args@) =~= seq!["disconnect"@, args@[1]@]);
    Ok((args, cat2(name, ": disconnected.")))
}

} // verus!
