//! Enrolled devices: the record of one device, the name-ordered set of
//! them, and how a command picks its target.
use vstd::prelude::*;
use crate::config::{config_dir, join_path, path_join};
use crate::text::{
    chars_of, copy_opt_string, copy_string, decimal_nat, join, join_strings, opt_str_view, opt_view,
    push_chars, push_str, push_u64, str_eq, string_of, strings_view,
};

verus! {

#[derive(Debug)]
pub struct Device {
    pub serial: String,
    pub model: String,
    pub android: String,
    pub sdk: u32,
    pub wifi_ip: Option<String>,
    pub adb_port: Option<u16>,
    pub enrolled: String,
}

pub type DeviceView = (Seq<char>, Seq<char>, Seq<char>, u32, Option<Seq<char>>, Option<u16>, Seq<
    char,
>);

pub open spec fn device_view(d: Device) -> DeviceView {
    (d.serial@, d.model@, d.android@, d.sdk, opt_view(d.wifi_ip), d.adb_port, d.enrolled@)
}

/// `ip:port` when both the wireless address and the port are known.
pub open spec fn wifi_addr_of(d: DeviceView) -> Option<Seq<char>> {
    match (d.4, d.5) {
        (Some(ip), Some(port)) => Some(ip + ":"@ + decimal_nat(port as nat)),
        _ => None,
    }
}

/// What `adb -s` is given: the wireless address if there is one, else the serial.
pub open spec fn transport_of(d: DeviceView) -> Seq<char> {
    match wifi_addr_of(d) {
        Some(a) => a,
        None => d.0,
    }
}

impl Device {
    pub fn copy(&self) -> (r: Device)
        ensures
            device_view(r) == device_view(*self),
    {
        Device {
            serial: copy_string(&self.serial),
            model: copy_string(&self.model),
            android: copy_string(&self.android),
            sdk: self.sdk,
            wifi_ip: copy_opt_string(&self.wifi_ip),
            adb_port: self.adb_port,
            enrolled: copy_string(&self.enrolled),
        }
    }

    /// The identifier to pass to `adb -s`. Prefers the wireless address.
    pub fn transport_id(&self) -> (r: String)
        ensures
            r@ == transport_of(device_view(*self)),
    {
        match self.wifi_addr() {
            Some(a) => a,
            None => copy_string(&self.serial),
        }
    }

    /// `ip:port` when both are configured.
    pub fn wifi_addr(&self) -> (r: Option<String>)
        ensures
            opt_view(r) == wifi_addr_of(device_view(*self)),
    {
        match (&self.wifi_ip, self.adb_port) {
            (Some(ip), Some(port)) => {
                let mut v: Vec<char> = Vec::new();
                push_str(&mut v, ip.as_str());
                push_str(&mut v, ":");
                push_u64(&mut v, port as u64);
                assert(v@ =~= ip@ + ":"@ + decimal_nat(port as nat));
                Some(string_of(&v))
            },
            _ => None,
        }
    }
}

// ---------------------------------------------------------------------------
// Name order
// ---------------------------------------------------------------------------

/// The order of `String`: lexicographic by character (which is the byte
/// order of their UTF-8 encodings).
pub open spec fn str_lt(a: Seq<char>, b: Seq<char>) -> bool
    decreases a.len(),
{
    if a.len() == 0 {
        b.len() > 0
    } else if b.len() == 0 {
        false
    } else if a[0] != b[0] {
        a[0] < b[0]
    } else {
        str_lt(a.drop_first(), b.drop_first())
    }
}

pub proof fn lemma_str_lt_irrefl(a: Seq<char>)
    ensures
        !str_lt(a, a),
    decreases a.len(),
{
    if a.len() > 0 {
        lemma_str_lt_irrefl(a.drop_first());
    }
}

pub proof fn lemma_str_lt_trans(a: Seq<char>, b: Seq<char>, c: Seq<char>)
    requires
        str_lt(a, b),
        str_lt(b, c),
    ensures
        str_lt(a, c),
    decreases a.len(),
{
    if a.len() > 0 && b.len() > 0 && c.len() > 0 {
        if a[0] == b[0] && b[0] == c[0] {
            lemma_str_lt_trans(a.drop_first(), b.drop_first(), c.drop_first());
        }
    }
}

pub proof fn lemma_str_lt_total(a: Seq<char>, b: Seq<char>)
    requires
        a != b,
    ensures
        str_lt(a, b) || str_lt(b, a),
    decreases a.len(),
{
    if a.len() > 0 && b.len() > 0 && a[0] == b[0] {
        if a.drop_first() == b.drop_first() {
            assert(a =~= seq![a[0]] + a.drop_first());
            assert(b =~= seq![b[0]] + b.drop_first());
        }
        lemma_str_lt_total(a.drop_first(), b.drop_first());
    } else if a.len() == 0 && b.len() == 0 {
        assert(a =~= b);
    }
}

pub proof fn lemma_str_lt_asym(a: Seq<char>, b: Seq<char>)
    requires
        str_lt(a, b),
    ensures
        !str_lt(b, a),
    decreases a.len(),
{
    if a.len() > 0 && b.len() > 0 && a[0] == b[0] {
        lemma_str_lt_asym(a.drop_first(), b.drop_first());
    }
}

/// `a < b` as strings.
pub fn str_less(a: &str, b: &str) -> (r: bool)
    ensures
        r == str_lt(a@, b@),
{
    let ac = chars_of(a);
    let bc = chars_of(b);
    let mut i: usize = 0;
    assert(a@.skip(0) =~= a@);
    assert(b@.skip(0) =~= b@);
    while i < ac.len() && i < bc.len() && ac[i] == bc[i]
        invariant
            ac@ == a@,
            bc@ == b@,
            i <= ac@.len(),
            i <= bc@.len(),
            str_lt(a@, b@) == str_lt(a@.skip(i as int), b@.skip(i as int)),
        decreases ac@.len() - i,
    {
        proof {
            let x = a@.skip(i as int);
            let y = b@.skip(i as int);
            assert(x.drop_first() =~= a@.skip(i + 1));
            assert(y.drop_first() =~= b@.skip(i + 1));
        }
        i = i + 1;
    }
    proof {
        assert(a@.skip(i as int).len() == a@.len() - i);
        if i < ac@.len() && i < bc@.len() {
            assert(a@.skip(i as int)[0] == a@[i as int]);
            assert(b@.skip(i as int)[0] == b@[i as int]);
        }
    }
    if i == ac.len() {
        i < bc.len()
    } else if i == bc.len() {
        false
    } else {
        ac[i] < bc[i]
    }
}

/// Strictly increasing names: every name occurs once, in order.
pub open spec fn sorted_keys(keys: Seq<Seq<char>>) -> bool {
    forall|i: int, j: int| 0 <= i < j < keys.len() ==> str_lt(#[trigger] keys[i], #[trigger] keys[j])
}

/// In a strictly increasing sequence a name occurs at one index only.
pub proof fn lemma_sorted_unique(keys: Seq<Seq<char>>, i: int, j: int)
    requires
        sorted_keys(keys),
        0 <= i < keys.len(),
        0 <= j < keys.len(),
        keys[i] == keys[j],
    ensures
        i == j,
{
    if i < j {
        lemma_str_lt_irrefl(keys[i]);
    } else if j < i {
        lemma_str_lt_irrefl(keys[i]);
    }
}

// ---------------------------------------------------------------------------
// The enrolled devices
// ---------------------------------------------------------------------------

/// Devices by name, kept in name order (the order of a `BTreeMap<String, _>`).
pub struct DeviceMap {
    entries: Vec<(String, Device)>,
}

impl DeviceMap {
    /// The names, in order.
    pub closed spec fn keys(&self) -> Seq<Seq<char>> {
        self.entries@.map_values(|e: (String, Device)| e.0@)
    }

    /// The devices, in the order of their names.
    pub closed spec fn devs(&self) -> Seq<DeviceView> {
        self.entries@.map_values(|e: (String, Device)| device_view(e.1))
    }

    pub closed spec fn wf(&self) -> bool {
        sorted_keys(self.keys())
    }

    pub proof fn lemma_lens(&self)
        ensures
            self.keys().len() == self.devs().len(),
    {
    }

    /// The device enrolled under `k`.
    pub open spec fn lookup(&self, k: Seq<char>) -> Option<DeviceView> {
        if self.keys().contains(k) {
            Some(self.devs()[self.keys().index_of(k)])
        } else {
            None
        }
    }

    pub fn new() -> (r: Self)
        ensures
            r.wf(),
            r.keys() == Seq::<Seq<char>>::empty(),
    {
        let r = DeviceMap { entries: Vec::new() };
        assert(r.keys() =~= Seq::<Seq<char>>::empty());
        r
    }

    pub fn len(&self) -> (r: usize)
        ensures
            r == self.keys().len(),
    {
        self.entries.len()
    }

    pub fn is_empty(&self) -> (r: bool)
        ensures
            r == (self.keys().len() == 0),
    {
        self.entries.len() == 0
    }

    /// The name and device at position `i` in name order.
    pub fn entry_at(&self, i: usize) -> (r: (&String, &Device))
        requires
            i < self.keys().len(),
        ensures
            r.0@ == self.keys()[i as int],
            device_view(*r.1) == self.devs()[i as int],
    {
        let e = &self.entries[i];
        (&e.0, &e.1)
    }

    /// Position of `name`, if enrolled.
    fn position(&self, name: &str) -> (r: Option<usize>)
        requires
            self.wf(),
        ensures
            r matches Some(i) ==> i < self.keys().len() && self.keys()[i as int] == name@,
            r is None ==> !self.keys().contains(name@),
    {
        let mut i: usize = 0;
        while i < self.entries.len()
            invariant
                i <= self.entries@.len(),
                forall|j: int| 0 <= j < i ==> self.keys()[j] != name@,
            decreases self.entries@.len() - i,
        {
            if str_eq(self.entries[i].0.as_str(), name) {
                return Some(i);
            }
            i = i + 1;
        }
        proof {
            if self.keys().contains(name@) {
                let j = choose|j: int| 0 <= j < self.keys().len() && self.keys()[j] == name@;
                assert(self.keys()[j] != name@);
            }
        }
        None
    }

    /// The device enrolled under `name`.
    pub fn get(&self, name: &str) -> (r: Option<&Device>)
        requires
            self.wf(),
        ensures
            r is None <==> self.lookup(name@) is None,
            r matches Some(d) ==> self.lookup(name@) == Some(device_view(*d)),
    {
        match self.position(name) {
            Some(i) => {
                proof {
                    let k = self.keys().index_of(name@);
                    assert(self.keys().contains(name@));
                    lemma_sorted_unique(self.keys(), i as int, k);
                }
                Some(&self.entries[i].1)
            },
            None => None,
        }
    }

    /// The names, in order.
    pub fn key_list(&self) -> (r: Vec<String>)
        ensures
            strings_view(r@) == self.keys(),
    {
        let mut r: Vec<String> = Vec::new();
        let mut i: usize = 0;
        while i < self.entries.len()
            invariant
                i <= self.entries@.len(),
                strings_view(r@) == self.keys().take(i as int),
            decreases self.entries@.len() - i,
        {
            let ghost before = r@;
            r.push(copy_string(&self.entries[i].0));
            assert(r@ =~= before.push(r@.last()));
            assert(strings_view(r@) =~= strings_view(before).push(self.keys()[i as int]));
            assert(self.keys().take(i + 1) =~= self.keys().take(i as int).push(
                self.keys()[i as int],
            ));
            i = i + 1;
        }
        assert(self.keys().take(i as int) =~= self.keys());
        r
    }

    /// Enroll `dev` under `name`, replacing any device of that name.
    pub fn insert(&mut self, name: String, dev: Device)
        requires
            old(self).wf(),
        ensures
            final(self).wf(),
            final(self).lookup(name@) == Some(device_view(dev)),
            forall|k: Seq<char>| k != name@ ==> #[trigger] final(self).lookup(k) == old(self).lookup(k),
            final(self).keys().contains(name@),
            forall|k: Seq<char>|
                k != name@ ==> (#[trigger] final(self).keys().contains(k) <==> old(
                    self,
                ).keys().contains(k)),
            final(self).keys().len() == old(self).keys().len() + (if old(self).keys().contains(
                name@,
            ) {
                0int
            } else {
                1int
            }),
    {
        let ghost ok = old(self).keys();
        let ghost od = old(self).devs();
        let ghost dv = device_view(dev);
        let n = self.entries.len();
        let mut i: usize = 0;
        while i < n && str_less(self.entries[i].0.as_str(), name.as_str())
            invariant
                n == self.entries@.len(),
                i <= n,
                ok == self.keys(),
                sorted_keys(ok),
                forall|j: int| 0 <= j < i ==> str_lt(#[trigger] ok[j], name@),
            decreases n - i,
        {
            i = i + 1;
        }
        let replace = i < n && str_eq(self.entries[i].0.as_str(), name.as_str());
        if replace {
            self.entries.set(i, (name, dev));
            proof {
                assert(self.keys() =~= ok.update(i as int, name@));
                assert(self.devs() =~= od.update(i as int, dv));
                assert(self.keys() =~= ok);
            }
        } else {
            self.entries.insert(i, (name, dev));
            proof {
                let nk = self.keys();
                assert(nk =~= ok.insert(i as int, name@));
                assert(self.devs() =~= od.insert(i as int, dv));
                if i < n {
                    assert(ok[i as int] != name@);
                    lemma_str_lt_total(ok[i as int], name@);
                }
                assert forall|p: int, q: int| 0 <= p < q < nk.len() implies str_lt(
                    #[trigger] nk[p],
                    #[trigger] nk[q],
                ) by {
                    if q < i {
                    } else if q == i {
                    } else if p > i {
                        assert(nk[p] == ok[p - 1]);
                        assert(nk[q] == ok[q - 1]);
                    } else if p == i {
                        assert(nk[q] == ok[q - 1]);
                        if q - 1 > i {
                            lemma_str_lt_trans(name@, ok[i as int], ok[q - 1]);
                        }
                    } else {
                        assert(nk[q] == ok[q - 1]);
                        if q - 1 == i as int {
                            lemma_str_lt_trans(ok[p], name@, ok[i as int]);
                        } else {
                            assert(str_lt(ok[p], ok[q - 1]));
                        }
                    }
                }
                assert(!ok.contains(name@)) by {
                    if ok.contains(name@) {
                        let j = choose|j: int| 0 <= j < ok.len() && ok[j] == name@;
                        if j < i {
                            lemma_str_lt_irrefl(name@);
                        } else if j == i {
                        } else {
                            lemma_str_lt_trans(name@, ok[i as int], ok[j]);
                            lemma_str_lt_irrefl(name@);
                        }
                    }
                }
            }
        }
        proof {
            let nk = self.keys();
            let nd = self.devs();
            let ghost_i = i as int;
            assert(nk[ghost_i] == name@);
            assert(nd[ghost_i] == dv);
            assert(nk.contains(name@));
            let k0 = nk.index_of(name@);
            lemma_sorted_unique(nk, ghost_i, k0);
            assert forall|k: Seq<char>| k != name@ implies (#[trigger] nk.contains(k) <==> ok.contains(
                k,
            )) && self.lookup(k) == old(self).lookup(k) by {
                if ok.contains(k) {
                    let j = ok.index_of(k);
                    let j2 = if replace || j < ghost_i {
                        j
                    } else {
                        j + 1
                    };
                    assert(nk[j2] == k);
                    assert(nd[j2] == od[j]);
                    assert(nk.contains(k));
                    lemma_sorted_unique(nk, j2, nk.index_of(k));
                }
                if nk.contains(k) {
                    let j = nk.index_of(k);
                    let j2 = if replace || j < ghost_i {
                        j
                    } else {
                        j - 1
                    };
                    assert(ok[j2] == k);
                    assert(ok.contains(k));
                }
            }
        }
    }
}

impl DeviceMap {
    /// Withdraw the device enrolled under `name`, handing it back.
    pub fn remove(&mut self, name: &str) -> (r: Option<Device>)
        requires
            old(self).wf(),
        ensures
            final(self).wf(),
            r is None <==> old(self).lookup(name@) is None,
            r matches Some(d) ==> old(self).lookup(name@) == Some(device_view(d)),
            final(self).lookup(name@) is None,
            forall|k: Seq<char>| k != name@ ==> #[trigger] final(self).lookup(k) == old(self).lookup(k),
            forall|k: Seq<char>|
                k != name@ ==> (#[trigger] final(self).keys().contains(k) <==> old(
                    self,
                ).keys().contains(k)),
    {
        let ghost ok = old(self).keys();
        let ghost od = old(self).devs();
        match self.position(name) {
            None => None,
            Some(i) => {
                let (_, d) = self.entries.remove(i);
                proof {
                    let nk = self.keys();
                    let nd = self.devs();
                    let gi = i as int;
                    assert(nk =~= ok.remove(gi));
                    assert(nd =~= od.remove(gi));
                    assert(ok.contains(name@));
                    lemma_sorted_unique(ok, gi, ok.index_of(name@));
                    assert(od[gi] == device_view(d));
                    assert forall|p: int, q: int| 0 <= p < q < nk.len() implies str_lt(
                        #[trigger] nk[p],
                        #[trigger] nk[q],
                    ) by {
                        let p2 = if p < gi { p } else { p + 1 };
                        let q2 = if q < gi { q } else { q + 1 };
                        assert(nk[p] == ok[p2]);
                        assert(nk[q] == ok[q2]);
                    }
                    assert(!nk.contains(name@)) by {
                        if nk.contains(name@) {
                            let j = choose|j: int| 0 <= j < nk.len() && nk[j] == name@;
                            let j2 = if j < gi { j } else { j + 1 };
                            assert(ok[j2] == name@);
                            lemma_sorted_unique(ok, gi, j2);
                        }
                    }
                    assert forall|k: Seq<char>| k != name@ implies (#[trigger] nk.contains(k)
                        <==> ok.contains(k)) && self.lookup(k) == old(self).lookup(k) by {
                        if ok.contains(k) {
                            let j = ok.index_of(k);
                            assert(j != gi);
                            let j2 = if j < gi { j } else { j - 1 };
                            assert(nk[j2] == k);
                            assert(nd[j2] == od[j]);
                            assert(nk.contains(k));
                            lemma_sorted_unique(nk, j2, nk.index_of(k));
                        }
                        if nk.contains(k) {
                            let j = nk.index_of(k);
                            let j2 = if j < gi { j } else { j + 1 };
                            assert(ok[j2] == k);
                            assert(ok.contains(k));
                        }
                    }
                }
                Some(d)
            },
        }
    }
}

// ---------------------------------------------------------------------------
// Picking a device
// ---------------------------------------------------------------------------

/// The names for an error message: joined with `, `, or `(none)`.
pub open spec fn available(keys: Seq<Seq<char>>) -> Seq<char> {
    if keys.len() == 0 {
        "(none)"@
    } else {
        join(keys, ", "@)
    }
}

/// The device a command targets: the one named, or the only one enrolled.
pub open spec fn resolve_spec(name: Option<Seq<char>>, m: DeviceMap) -> Result<
    (Seq<char>, DeviceView),
    Seq<char>,
> {
    match name {
        Some(n) => match m.lookup(n) {
            Some(d) => Ok((n, d)),
            None => Err("unknown device '"@ + n + "'. available: "@ + available(m.keys())),
        },
        None => if m.keys().len() == 1 {
            Ok((m.keys()[0], m.devs()[0]))
        } else if m.keys().len() == 0 {
            Err("no devices enrolled. run: ddb devices add"@)
        } else {
            Err("multiple devices enrolled, specify one with -d: "@ + join(m.keys(), ", "@))
        },
    }
}

/// Resolving a name gives back the device enrolled under it, under that
/// name.
pub proof fn law_resolve_enrolled(m: DeviceMap, k: Seq<char>, d: DeviceView)
    requires
        m.wf(),
        m.lookup(k) == Some(d),
    ensures
        resolve_spec(Some(k), m) == Ok::<(Seq<char>, DeviceView), Seq<char>>((k, d)),
{
}

/// With exactly one device enrolled and none named, that device is chosen.
pub proof fn law_single_device_selected(m: DeviceMap)
    requires
        m.wf(),
        m.keys().len() == 1,
    ensures
        resolve_spec(None, m) == Ok::<(Seq<char>, DeviceView), Seq<char>>((
            m.keys()[0],
            m.lookup(m.keys()[0])->0,
        )),
{
    m.lemma_lens();
    assert(m.keys().contains(m.keys()[0]));
    let j = m.keys().index_of(m.keys()[0]);
    assert(0 <= j < 1);
}

pub open spec fn resolved_view(r: Result<(String, Device), String>) -> Result<
    (Seq<char>, DeviceView),
    Seq<char>,
> {
    match r {
        Ok((k, d)) => Ok((k@, device_view(d))),
        Err(e) => Err(e@),
    }
}

pub struct Registry;

impl Registry {
    /// `devices.toml` in the configuration directory under `home`.
    pub fn path(home: Option<&str>) -> (r: String)
        ensures
            r@ == path_join(config_dir(opt_str_view(home)), "devices.toml"@),
    {
        let d = crate::config::Config::dir(home);
        join_path(d.as_str(), "devices.toml")
    }

    /// Resolve a device by name; with no name, the only enrolled device.
    pub fn resolve(name: Option<&str>, devices: &DeviceMap) -> (r: Result<(String, Device), String>)
        requires
            devices.wf(),
        ensures
            resolved_view(r) == resolve_spec(opt_str_view(name), *devices),
    {
        proof {
            devices.lemma_lens();
        }
        match name {
            Some(n) => match devices.get(n) {
                Some(dev) => Ok((String::from_str(n), dev.copy())),
                None => {
                    let keys = devices.key_list();
                    let mut v: Vec<char> = Vec::new();
                    push_str(&mut v, "unknown device '");
                    push_str(&mut v, n);
                    push_str(&mut v, "'. available: ");
                    if keys.len() == 0 {
                        push_str(&mut v, "(none)");
                    } else {
                        let j = join_strings(&keys, ", ");
                        push_chars(&mut v, &j);
                    }
                    assert(v@ =~= "unknown device '"@ + n@ + "'. available: "@ + available(
                        devices.keys(),
                    ));
                    Err(string_of(&v))
                },
            },
            None => {
                if devices.len() == 1 {
                    let (k, d) = devices.entry_at(0);
                    Ok((copy_string(k), d.copy()))
                } else if devices.is_empty() {
                    Err(String::from_str("no devices enrolled. run: ddb devices add"))
                } else {
                    let keys = devices.key_list();
                    let mut v: Vec<char> = Vec::new();
                    push_str(&mut v, "multiple devices enrolled, specify one with -d: ");
                    let j = join_strings(&keys, ", ");
                    push_chars(&mut v, &j);
                    assert(v@ =~= "multiple devices enrolled, specify one with -d: "@ + join(
                        devices.keys(),
                        ", "@,
                    ));
                    Err(string_of(&v))
                }
            },
        }
    }

    /// The device for a command when the registry may be empty: no device
    /// when none is enrolled and none was named, else `resolve`'s choice.
    pub fn resolve_device(name: Option<&str>, devices: &DeviceMap) -> (r: Result<
        Option<Device>,
        String,
    >)
        requires
            devices.wf(),
        ensures
            devices.keys().len() == 0 && name is None ==> (r matches Ok(d) && d is None),
            !(devices.keys().len() == 0 && name is None) ==> match r {
                Ok(Some(d)) => (resolve_spec(opt_str_view(name), *devices) matches Ok((_, dv))
                    && dv == device_view(d)),
                Ok(None) => false,
                Err(e) => resolve_spec(opt_str_view(name), *devices) == Err::<
                    (Seq<char>, DeviceView),
                    Seq<char>,
                >(e@),
            },
    {
        if devices.is_empty() && name.is_none() {
            return Ok(None);
        }
        match Self::resolve(name, devices) {
            Ok((_, d)) => Ok(Some(d)),
            Err(e) => Err(e),
        }
    }
}

} // verus!
