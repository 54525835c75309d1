//! Network services found by multicast discovery. Each response to a
//! browse request may show a device; the devices seen so far are kept, each
//! once.

use vstd::prelude::*;
use vstd::string::StringExecFns;
use crate::text::{chars_of, ends_with, ends_with_chars, lemma_precedes_irreflexive,
    lemma_precedes_total, lemma_precedes_transitive, name_precedes, precedes, same_name};

verus! {

/// A device, with its name and address as sequences of characters.
pub struct DeviceView {
    pub name: Seq<char>,
    pub ip: Seq<char>,
    pub port: Option<u16>,
}

/// A device that answered: its host name, its address as text, and the port
/// of the service where the answer gave one.
#[derive(Debug)]
pub struct MdnsDevice {
    pub name: String,
    pub ip: String,
    pub port: Option<u16>,
}

impl View for MdnsDevice {
    type V = DeviceView;

    open spec fn view(&self) -> DeviceView {
        DeviceView { name: self.name@, ip: self.ip@, port: self.port }
    }
}

impl Clone for MdnsDevice {
    fn clone(&self) -> (r: MdnsDevice)
        ensures
            r@ == self@,
    {
        MdnsDevice { name: self.name.clone(), ip: self.ip.clone(), port: self.port }
    }
}

/// One record of a response, as far as discovery reads it: an address
/// record with the address as text, or any other record.
#[derive(Debug)]
pub enum RecordKind {
    /// An IPv4 address.
    A(String),
    /// An IPv6 address.
    AAAA(String),
    /// A record that holds no address.
    Other,
}

/// One response to a browse request.
#[derive(Debug)]
pub struct Response {
    pub hostname: Option<String>,
    pub port: Option<u16>,
    pub records: Vec<RecordKind>,
}

/// The address of the first address record of `records` from position `i`
/// on, if there is one.
pub open spec fn first_address_from(records: Seq<RecordKind>, i: int) -> Option<Seq<char>>
    decreases records.len() - i,
{
    if i < 0 || i >= records.len() {
        None
    } else {
        match records[i] {
            RecordKind::A(addr) => Some(addr@),
            RecordKind::AAAA(addr) => Some(addr@),
            RecordKind::Other => first_address_from(records, i + 1),
        }
    }
}

/// The address of the first address record of `records`, if there is one.
pub open spec fn first_address(records: Seq<RecordKind>) -> Option<Seq<char>> {
    first_address_from(records, 0)
}

/// The name under which a response's device is kept: its host name, or
/// `<unknown>` where the response names none.
pub open spec fn shown_name(hostname: Option<String>) -> Seq<char> {
    match hostname {
        Some(name) => name@,
        None => "<unknown>"@,
    }
}

/// The device that `response` shows: none where it holds no address.
pub open spec fn shown(response: Response) -> Option<DeviceView> {
    match first_address(response.records@) {
        Some(ip) => Some(
            DeviceView { name: shown_name(response.hostname), ip, port: response.port },
        ),
        None => None,
    }
}

/// `devices` holds a device with this name at this address.
pub open spec fn holds(devices: Seq<DeviceView>, name: Seq<char>, ip: Seq<char>) -> bool {
    exists|i: int| 0 <= i < devices.len() && #[trigger] devices[i].name == name && devices[i].ip == ip
}

/// The devices kept after `response`: a device with a new pair of name and
/// address goes to the end; any other response changes nothing.
pub open spec fn after_response(devices: Seq<DeviceView>, response: Response) -> Seq<DeviceView> {
    match shown(response) {
        Some(device) => if holds(devices, device.name, device.ip) {
            devices
        } else {
            devices.push(device)
        },
        None => devices,
    }
}

/// No two of `devices` have both the same name and the same address.
pub open spec fn distinct(devices: Seq<DeviceView>) -> bool {
    forall|i: int, j: int|
        0 <= i < j < devices.len() ==> !((#[trigger] devices[i]).name == (#[trigger] devices[j]).name
            && devices[i].ip == devices[j].ip)
}

/// `a` is listed before `b`: by name, and under one name by address.
pub open spec fn listed_before(a: DeviceView, b: DeviceView) -> bool {
    precedes(a.name, b.name) || (a.name == b.name && precedes(a.ip, b.ip))
}

/// Each device is listed before all that follow it.
pub open spec fn in_order(devices: Seq<DeviceView>) -> bool {
    forall|i: int, j: int|
        0 <= i < j < devices.len() ==> listed_before(#[trigger] devices[i], #[trigger] devices[j])
}

/// The order of the listing is transitive.
pub proof fn lemma_listed_before_transitive(a: DeviceView, b: DeviceView, c: DeviceView)
    requires
        listed_before(a, b),
        listed_before(b, c),
    ensures
        listed_before(a, c),
{
    if precedes(a.name, b.name) && precedes(b.name, c.name) {
        lemma_precedes_transitive(a.name, b.name, c.name, 0);
    } else if a.name == b.name && b.name == c.name {
        lemma_precedes_transitive(a.ip, b.ip, c.ip, 0);
    }
}

/// Of two devices that differ in name or in address one is listed before
/// the other.
pub proof fn lemma_listed_before_total(a: DeviceView, b: DeviceView)
    requires
        !(a.name == b.name && a.ip == b.ip),
        !listed_before(a, b),
    ensures
        listed_before(b, a),
{
    assert(a.name.take(0) =~= b.name.take(0));
    assert(a.ip.take(0) =~= b.ip.take(0));
    if !precedes(b.name, a.name) {
        lemma_precedes_total(a.name, b.name, 0);
        if !precedes(b.ip, a.ip) {
            lemma_precedes_total(a.ip, b.ip, 0);
        }
    }
}

/// Devices in the order of the listing differ each from each in name or in
/// address.
pub proof fn lemma_in_order_distinct(devices: Seq<DeviceView>)
    requires
        in_order(devices),
    ensures
        distinct(devices),
{
    assert forall|i: int, j: int| 0 <= i < j < devices.len() implies !((#[trigger] devices[i]).name
        == (#[trigger] devices[j]).name && devices[i].ip == devices[j].ip) by {
        assert(listed_before(devices[i], devices[j]));
        lemma_precedes_irreflexive(devices[i].name, 0);
        lemma_precedes_irreflexive(devices[i].ip, 0);
    }
}

/// A device that is listed after all before its place and before the one at
/// its place keeps the order of the listing.
proof fn lemma_insert_in_order(devices: Seq<DeviceView>, at: int, x: DeviceView)
    requires
        in_order(devices),
        0 <= at <= devices.len(),
        forall|k: int| 0 <= k < at ==> listed_before(#[trigger] devices[k], x),
        at < devices.len() ==> listed_before(x, devices[at]),
    ensures
        in_order(devices.insert(at, x)),
{
    assert forall|k: int| at <= k < devices.len() implies listed_before(x, #[trigger] devices[k]) by {
        if k > at {
            assert(listed_before(devices[at], devices[k]));
            lemma_listed_before_transitive(x, devices[at], devices[k]);
        }
    }
    let m = devices.insert(at, x);
    assert forall|i: int, j: int| 0 <= i < j < m.len() implies listed_before(
        #[trigger] m[i],
        #[trigger] m[j],
    ) by {
        if j < at {
            assert(listed_before(devices[i], devices[j]));
        } else if j == at {
            assert(listed_before(devices[i], x));
        } else if i < at {
            assert(listed_before(devices[i], devices[j - 1]));
        } else if i == at {
            assert(listed_before(x, devices[j - 1]));
        } else {
            assert(listed_before(devices[i - 1], devices[j - 1]));
        }
    }
}

/// The time between two browse requests, in seconds.
pub fn browse_interval_secs() -> (r: u64)
    ensures
        r == 5,
{
    5
}

/// Whether `a` is listed before `b`.
pub fn comes_before(a: &MdnsDevice, b: &MdnsDevice) -> (r: bool)
    ensures
        r == listed_before(a@, b@),
{
    if name_precedes(a.name.as_str(), b.name.as_str()) {
        true
    } else {
        same_name(a.name.as_str(), b.name.as_str()) && name_precedes(
            a.ip.as_str(),
            b.ip.as_str(),
        )
    }
}

/// The devices that a sequence holds, one for one.
pub open spec fn devices_of(v: Seq<MdnsDevice>) -> Seq<DeviceView> {
    Seq::new(v.len(), |i: int| v[i]@)
}

/// The name of the service to browse for `service_type`: the type itself
/// where it ends with `.local`, else the type with `.local` after it.
pub open spec fn service_of(service_type: Seq<char>) -> Seq<char> {
    if ends_with(service_type, ".local"@) {
        service_type
    } else {
        service_type + ".local"@
    }
}

/// The name of the service to browse for `service_type`.
pub fn service_name(service_type: String) -> (service: String)
    ensures
        service@ == service_of(service_type@),
{
    let letters = chars_of(service_type.as_str());
    let suffix = chars_of(".local");
    if ends_with_chars(&letters, &suffix) {
        service_type
    } else {
        service_type.concat(".local")
    }
}

/// The address of the first address record of `records`, if there is one.
pub fn first_address_of(records: &Vec<RecordKind>) -> (r: Option<String>)
    ensures
        match r {
            Some(ip) => first_address(records@) == Some(ip@),
            None => first_address(records@) is None,
        },
{
    let mut i: usize = 0;
    while i < records.len()
        invariant
            i <= records.len(),
            first_address(records@) == first_address_from(records@, i as int),
        decreases records.len() - i,
    {
        match &records[i] {
            RecordKind::A(addr) => {
                return Some(addr.clone());
            },
            RecordKind::AAAA(addr) => {
                return Some(addr.clone());
            },
            RecordKind::Other => {},
        }
        i += 1;
    }
    None
}

/// The devices seen so far, in the order in which they were first seen.
pub struct MdnsDiscovery {
    devices: Vec<MdnsDevice>,
}

impl View for MdnsDiscovery {
    type V = Seq<DeviceView>;

    closed spec fn view(&self) -> Seq<DeviceView> {
        devices_of(self.devices@)
    }
}

impl MdnsDiscovery {
    #[verifier::type_invariant]
    spec fn each_once(&self) -> bool {
        distinct(devices_of(self.devices@))
    }

    /// A discovery that has seen no device yet.
    pub fn new() -> (r: MdnsDiscovery)
        ensures
            r@ == Seq::<DeviceView>::empty(),
    {
        MdnsDiscovery { devices: Vec::new() }
    }

    /// Begins a discovery: says which service to browse for `service_type`.
    /// What that browse request brings is then handed to `take`, item by
    /// item, for as long as `take` says to go on.
    pub fn launch(&mut self, service_type: String) -> (service: String)
        ensures
            service@ == service_of(service_type@),
            final(self)@ == old(self)@,
    {
        service_name(service_type)
    }

    /// The devices seen so far, listed by name, and under one name by
    /// address. The listing is a copy: it holds each device that was seen,
    /// once.
    pub fn get_devices(&self) -> (r: Vec<MdnsDevice>)
        ensures
            devices_of(r@).to_multiset() == self@.to_multiset(),
            r@.len() == self@.len(),
            in_order(devices_of(r@)),
            distinct(devices_of(r@)),
            forall|i: int, j: int|
                0 <= i < j < r@.len() ==> precedes(r@[i].name@, r@[j].name@) || (r@[i].name@
                    == r@[j].name@ && precedes(r@[i].ip@, r@[j].ip@)),
    {
        proof {
            use_type_invariant(self);
        }
        let ghost seen = devices_of(self.devices@);
        let mut out: Vec<MdnsDevice> = Vec::new();
        let mut i: usize = 0;
        proof {
            assert(devices_of(out@) =~= seen.take(0));
        }
        while i < self.devices.len()
            invariant
                i <= self.devices.len(),
                seen == devices_of(self.devices@),
                distinct(seen),
                out@.len() == i,
                in_order(devices_of(out@)),
                devices_of(out@).to_multiset() == seen.take(i as int).to_multiset(),
            decreases self.devices.len() - i,
        {
            let device = self.devices[i].clone();
            let ghost listed = devices_of(out@);
            let ghost x = device@;
            assert(x == seen[i as int]);
            let mut at: usize = 0;
            while at < out.len()
                invariant
                    at <= out.len(),
                    listed == devices_of(out@),
                    x == device@,
                    forall|k: int| 0 <= k < at ==> listed_before(#[trigger] listed[k], x),
                ensures
                    at <= out.len(),
                    forall|k: int| 0 <= k < at ==> listed_before(#[trigger] listed[k], x),
                    at < out.len() ==> !listed_before(listed[at as int], x),
                decreases out.len() - at,
            {
                if !comes_before(&out[at], &device) {
                    break;
                }
                at += 1;
            }
            proof {
                if at < out.len() {
                    // The device at the place was seen before this one, so
                    // it differs from it in name or in address.
                    let y = listed[at as int];
                    assert(listed.contains(y));
                    vstd::seq_lib::to_multiset_contains(listed, y);
                    vstd::seq_lib::to_multiset_contains(seen.take(i as int), y);
                    let k = choose|k: int| 0 <= k < i && seen.take(i as int)[k] == y;
                    assert(seen[k] == y);
                    lemma_listed_before_total(y, x);
                }
                lemma_insert_in_order(listed, at as int, x);
                vstd::seq_lib::to_multiset_insert(listed, at as int, x);
                vstd::seq_lib::to_multiset_build(seen.take(i as int), x);
                assert(seen.take(i + 1) =~= seen.take(i as int).push(x));
            }
            out.insert(at, device);
            proof {
                assert(devices_of(out@) =~= listed.insert(at as int, x));
            }
            i += 1;
        }
        proof {
            assert(seen.take(self.devices@.len() as int) =~= seen);
            lemma_in_order_distinct(devices_of(out@));
            assert forall|i: int, j: int| 0 <= i < j < out@.len() implies precedes(
                out@[i].name@,
                out@[j].name@,
            ) || (out@[i].name@ == out@[j].name@ && precedes(out@[i].ip@, out@[j].ip@)) by {
                assert(listed_before(devices_of(out@)[i], devices_of(out@)[j]));
            }
        }
        out
    }

    /// Whether a device with this name at this address was seen.
    pub fn knows(&self, name: &str, ip: &str) -> (r: bool)
        ensures
            r == holds(self@, name@, ip@),
    {
        let mut i: usize = 0;
        while i < self.devices.len()
            invariant
                i <= self.devices.len(),
                forall|k: int|
                    0 <= k < i ==> !((#[trigger] devices_of(self.devices@)[k]).name == name@
                        && devices_of(self.devices@)[k].ip == ip@),
            decreases self.devices.len() - i,
        {
            if same_name(self.devices[i].name.as_str(), name) && same_name(
                self.devices[i].ip.as_str(),
                ip,
            ) {
                proof {
                    let d = devices_of(self.devices@);
                    assert(d[i as int].name == name@ && d[i as int].ip == ip@);
                }
                return true;
            }
            i += 1;
        }
        false
    }

    /// Takes one response in. Says whether it showed a device that was not
    /// seen before.
    pub fn observe(&mut self, response: Response) -> (fresh: bool)
        ensures
            final(self)@ == after_response(old(self)@, response),
            fresh == (final(self)@.len() == old(self)@.len() + 1),
            fresh == (shown(response) matches Some(device) && !holds(
                old(self)@,
                device.name,
                device.ip,
            )),
    {
        proof {
            use_type_invariant(&*self);
        }
        let Response { hostname, port, records } = response;
        let name = match hostname {
            Some(name) => name,
            None => String::from_str("<unknown>"),
        };
        match first_address_of(&records) {
            Some(ip) => {
                if self.knows(name.as_str(), ip.as_str()) {
                    false
                } else {
                    let ghost before = devices_of(self.devices@);
                    let device = MdnsDevice { name, ip, port };
                    let mut devices: Vec<MdnsDevice> = Vec::new();
                    std::mem::swap(&mut self.devices, &mut devices);
                    devices.push(device);
                    proof {
                        assert(devices_of(devices@) =~= before.push(device@));
                    }
                    self.devices = devices;
                    true
                }
            },
            None => false,
        }
    }

    /// Takes in one item of what a browse request brings: a response, or the
    /// reason why one could not be read. Says whether the discovery goes on:
    /// it always does, for a response that cannot be read is passed over and
    /// the next is waited for.
    pub fn take(&mut self, item: Result<Response, String>) -> (go_on: bool)
        ensures
            final(self)@ == (match item {
                Ok(response) => after_response(old(self)@, response),
                Err(_) => old(self)@,
            }),
            go_on,
    {
        match item {
            Ok(response) => {
                self.observe(response);
            },
            Err(_) => {},
        }
        true
    }
}

} // verus!
