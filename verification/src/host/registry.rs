//! The devices of the host, and the ports on which they are offered.
use vstd::prelude::*;
use std::collections::HashMap;

verus! {

broadcast use vstd::std_specs::hash::group_hash_axioms;

/// What a device is.
#[derive(Debug, Clone, Copy, PartialEq, Eq, Structural)]
pub enum DeviceKind {
    Camera,
    Keyboard,
    Serial,
    Ssh,
    Unknown,
}

/// A device of the host.
#[derive(Debug, Clone)]
pub struct DeviceInfo {
    pub kind: DeviceKind,
    pub path: String,
}

/// The mathematical content of a [`DeviceInfo`].
#[verifier::ext_equal]
pub struct DeviceView {
    pub kind: DeviceKind,
    pub path: Seq<char>,
}

impl View for DeviceInfo {
    type V = DeviceView;

    open spec fn view(&self) -> DeviceView {
        DeviceView { kind: self.kind, path: self.path@ }
    }
}

/// The contents of a list of devices.
pub open spec fn device_views(devices: Seq<DeviceInfo>) -> Seq<DeviceView> {
    Seq::new(devices.len(), |i: int| devices[i]@)
}

/// The name of a kind.
pub open spec fn kind_name(kind: DeviceKind) -> Seq<char> {
    match kind {
        DeviceKind::Camera => "Camera"@,
        DeviceKind::Keyboard => "Keyboard"@,
        DeviceKind::Serial => "Serial"@,
        DeviceKind::Ssh => "Ssh"@,
        DeviceKind::Unknown => "Unknown"@,
    }
}

impl DeviceKind {
    /// The name of the kind.
    pub fn name(self) -> (r: &'static str)
        ensures
            r@ == kind_name(self),
    {
        match self {
            DeviceKind::Camera => "Camera",
            DeviceKind::Keyboard => "Keyboard",
            DeviceKind::Serial => "Serial",
            DeviceKind::Ssh => "Ssh",
            DeviceKind::Unknown => "Unknown",
        }
    }
}

impl DeviceInfo {
    /// The same device once more.
    pub fn duplicate(&self) -> (r: DeviceInfo)
        ensures
            r@ == self@,
    {
        DeviceInfo { kind: self.kind, path: self.path.clone() }
    }
}

/// The ports on which devices are offered.
#[derive(Debug)]
pub struct DevicesRegistry {
    pub port_to_device: HashMap<u16, DeviceInfo>,
}

impl View for DevicesRegistry {
    type V = Map<u16, DeviceView>;

    open spec fn view(&self) -> Map<u16, DeviceView> {
        Map::new(
            |port: u16| self.port_to_device@.contains_key(port),
            |port: u16| self.port_to_device@[port]@,
        )
    }
}

/// The devices of the first `n` pairs, each on its port; a later pair replaces
/// an earlier one.
pub open spec fn mapped(mapping: Seq<(u16, DeviceView)>, n: int) -> Map<u16, DeviceView>
    decreases n,
{
    if n <= 0 {
        Map::empty()
    } else {
        mapped(mapping, n - 1).insert(mapping[n - 1].0, mapping[n - 1].1)
    }
}

/// The contents of pairs of port and device.
pub open spec fn mapping_views(mapping: Seq<(u16, DeviceInfo)>) -> Seq<(u16, DeviceView)> {
    Seq::new(mapping.len(), |i: int| (mapping[i].0, mapping[i].1@))
}

/// Devices on ports that count up.
pub open spec fn numbered(devices: Seq<DeviceView>, start_port: u16) -> Seq<(u16, DeviceView)> {
    Seq::new(devices.len(), |i: int| ((start_port + i) as u16, devices[i]))
}

/// The ports of a registry in some order, each once.
pub open spec fn is_walk(ports: Seq<u16>, registry: Map<u16, DeviceView>) -> bool {
    ports.no_duplicates() && ports.to_set() == registry.dom()
}

/// The devices on the first `n` ports that pass a test.
pub open spec fn picked(
    ports: Seq<u16>,
    registry: Map<u16, DeviceView>,
    test: spec_fn(DeviceView) -> bool,
    n: int,
) -> Seq<DeviceView>
    decreases n,
{
    if n <= 0 {
        Seq::empty()
    } else if registry.contains_key(ports[n - 1]) && test(registry[ports[n - 1]]) {
        picked(ports, registry, test, n - 1).push(registry[ports[n - 1]])
    } else {
        picked(ports, registry, test, n - 1)
    }
}

/// Whether a path is one of these.
pub open spec fn among(paths: Seq<String>, path: Seq<char>) -> bool {
    exists|i: int| 0 <= i < paths.len() && (#[trigger] paths[i])@ == path
}

/// The test for a kind.
pub open spec fn of_kind(kind: DeviceKind) -> spec_fn(DeviceView) -> bool {
    |d: DeviceView| d.kind == kind
}

/// The test for one of these paths.
pub open spec fn at_path(paths: Seq<String>) -> spec_fn(DeviceView) -> bool {
    |d: DeviceView| among(paths, d.path)
}

/// The test that every device passes.
pub open spec fn any_device() -> spec_fn(DeviceView) -> bool {
    |d: DeviceView| true
}

fn is_among(paths: &[String], path: &str) -> (r: bool)
    ensures
        r == among(paths@, path@),
{
    let mut i: usize = 0;
    while i < paths.len()
        invariant
            i <= paths.len(),
            forall|k: int| 0 <= k < i ==> (#[trigger] paths@[k])@ != path@,
        decreases paths.len() - i,
    {
        if crate::text::same_text(paths[i].as_str(), path) {
            assert(paths@[i as int]@ == path@);
            return true;
        }
        i = i + 1;
    }
    false
}

impl DevicesRegistry {
    /// A registry without devices.
    pub fn new() -> (r: DevicesRegistry)
        ensures
            r@ == Map::<u16, DeviceView>::empty(),
    {
        let r = DevicesRegistry { port_to_device: HashMap::new() };
        assert(r@ =~= Map::<u16, DeviceView>::empty());
        r
    }

    /// Registers devices on given ports, in place of what was registered.
    pub fn register_with_ports(&mut self, mapping: &[(u16, DeviceInfo)])
        ensures
            final(self)@ == mapped(mapping_views(mapping@), mapping@.len() as int),
    {
        self.port_to_device.clear();
        let ghost views = mapping_views(mapping@);
        let mut i: usize = 0;
        assert(self@ =~= mapped(views, 0));
        while i < mapping.len()
            invariant
                i <= mapping.len(),
                views == mapping_views(mapping@),
                self@ == mapped(views, i as int),
            decreases mapping.len() - i,
        {
            let ghost before = self@;
            let port: u16 = mapping[i].0;
            let device = mapping[i].1.duplicate();
            let ghost d = device@;
            self.port_to_device.insert(port, device);
            assert(self@ =~= before.insert(port, d));
            i = i + 1;
        }
    }

    /// Registers devices on ports that count up from `start_port`, in place of
    /// what was registered.
    pub fn register(&mut self, devices: &[DeviceInfo], start_port: u16)
        requires
            start_port + devices@.len() <= 0x1_0000,
        ensures
            final(self)@ == mapped(
                numbered(device_views(devices@), start_port),
                devices@.len() as int,
            ),
    {
        self.port_to_device.clear();
        let ghost views = numbered(device_views(devices@), start_port);
        let mut i: usize = 0;
        assert(self@ =~= mapped(views, 0));
        while i < devices.len()
            invariant
                i <= devices.len(),
                start_port + devices@.len() <= 0x1_0000,
                views == numbered(device_views(devices@), start_port),
                self@ == mapped(views, i as int),
            decreases devices.len() - i,
        {
            let ghost before = self@;
            let port: u16 = start_port + i as u16;
            let device = devices[i].duplicate();
            let ghost d = device@;
            self.port_to_device.insert(port, device);
            assert(self@ =~= before.insert(port, d));
            i = i + 1;
        }
    }

    /// The ports with a device, each once, in no particular order.
    pub fn ports(&self) -> (r: Vec<u16>)
        ensures
            is_walk(r@, self@),
    {
        let mut out: Vec<u16> = Vec::new();
        for port in it: self.port_to_device.keys()
            invariant
                out@.len() == it.index(),
                forall|k: int| 0 <= k < out@.len() ==> #[trigger] out@[k] == *it.seq()[k],
                it.index() == it.seq().len() ==> out@ =~= it.seq().unref(),
                it.seq().no_duplicates(),
                it.seq().unref().to_set() == self.port_to_device@.dom(),
        {
            out.push(*port);
        }
        proof {
            assert(self@.dom() =~= self.port_to_device@.dom());
            assert(out@.to_set() =~= self@.dom());
        }
        out
    }

    /// The devices of a kind.
    pub fn get_devices_by_kind(&self, kind: DeviceKind) -> (r: Vec<DeviceInfo>)
        ensures
            exists|ports: Seq<u16>| #[trigger]
                is_walk(ports, self@) && device_views(r@) == picked(
                    ports,
                    self@,
                    of_kind(kind),
                    ports.len() as int,
                ),
    {
        let ports = self.ports();
        let ghost test = of_kind(kind);
        let mut out: Vec<DeviceInfo> = Vec::new();
        let mut i: usize = 0;
        assert(device_views(out@) =~= picked(ports@, self@, test, 0));
        while i < ports.len()
            invariant
                i <= ports.len(),
                test == of_kind(kind),
                device_views(out@) == picked(ports@, self@, test, i as int),
            decreases ports.len() - i,
        {
            let ghost before = device_views(out@);
            if let Some(device) = self.port_to_device.get(&ports[i]) {
                if device.kind == kind {
                    let copy = device.duplicate();
                    let ghost d = copy@;
                    out.push(copy);
                    assert(device_views(out@) =~= before.push(d));
                }
            }
            i = i + 1;
        }
        out
    }

    /// The devices whose path is one of these.
    pub fn get_devices_by_path(&self, paths: Vec<String>) -> (r: Vec<DeviceInfo>)
        ensures
            exists|ports: Seq<u16>| #[trigger]
                is_walk(ports, self@) && device_views(r@) == picked(
                    ports,
                    self@,
                    at_path(paths@),
                    ports.len() as int,
                ),
    {
        let ports = self.ports();
        let ghost test = at_path(paths@);
        let mut out: Vec<DeviceInfo> = Vec::new();
        let mut i: usize = 0;
        assert(device_views(out@) =~= picked(ports@, self@, test, 0));
        while i < ports.len()
            invariant
                i <= ports.len(),
                test == at_path(paths@),
                device_views(out@) == picked(ports@, self@, test, i as int),
            decreases ports.len() - i,
        {
            let ghost before = device_views(out@);
            if let Some(device) = self.port_to_device.get(&ports[i]) {
                if is_among(paths.as_slice(), device.path.as_str()) {
                    let copy = device.duplicate();
                    let ghost d = copy@;
                    out.push(copy);
                    assert(device_views(out@) =~= before.push(d));
                }
            }
            i = i + 1;
        }
        out
    }

    /// The devices on these ports, in the order of the ports.
    pub fn get_devices_by_port(&self, ports: Vec<u16>) -> (r: Vec<DeviceInfo>)
        ensures
            device_views(r@) == picked(
                ports@,
                self@,
                any_device(),
                ports@.len() as int,
            ),
    {
        let ghost test = any_device();
        let mut out: Vec<DeviceInfo> = Vec::new();
        let mut i: usize = 0;
        assert(device_views(out@) =~= picked(ports@, self@, test, 0));
        while i < ports.len()
            invariant
                i <= ports.len(),
                test == any_device(),
                device_views(out@) == picked(ports@, self@, test, i as int),
            decreases ports.len() - i,
        {
            let ghost before = device_views(out@);
            if let Some(device) = self.port_to_device.get(&ports[i]) {
                let copy = device.duplicate();
                let ghost d = copy@;
                out.push(copy);
                assert(device_views(out@) =~= before.push(d));
            }
            i = i + 1;
        }
        out
    }

    /// Every device with its port, in no particular order.
    pub fn get_all_devices(&self) -> (r: Vec<(u16, DeviceInfo)>)
        ensures
            exists|ports: Seq<u16>| #[trigger]
                is_walk(ports, self@) && mapping_views(r@) == Seq::new(
                    ports.len(),
                    |i: int| (ports[i], self@[ports[i]]),
                ),
    {
        let ports = self.ports();
        let mut out: Vec<(u16, DeviceInfo)> = Vec::new();
        let mut i: usize = 0;
        while i < ports.len()
            invariant
                i <= ports.len(),
                is_walk(ports@, self@),
                mapping_views(out@) == Seq::new(
                    i as nat,
                    |k: int| (ports@[k], self@[ports@[k]]),
                ),
            decreases ports.len() - i,
        {
            let ghost before = mapping_views(out@);
            assert(ports@.to_set().contains(ports@[i as int]));
            if let Some(device) = self.port_to_device.get(&ports[i]) {
                let copy = device.duplicate();
                let ghost pair = (ports@[i as int], copy@);
                out.push((ports[i], copy));
                assert(mapping_views(out@) =~= before.push(pair));
            }
            i = i + 1;
            assert(mapping_views(out@) =~= Seq::new(
                i as nat,
                |k: int| (ports@[k], self@[ports@[k]]),
            ));
        }
        out
    }

    /// The device on a port.
    pub fn get_single_device_by_port(&self, port: u16) -> (r: Option<DeviceInfo>)
        ensures
            match r {
                Some(device) => self@.contains_key(port) && device@ == self@[port],
                None => !self@.contains_key(port),
            },
    {
        match self.port_to_device.get(&port) {
            Some(device) => Some(device.duplicate()),
            None => None,
        }
    }
}

/// Registered devices are found on the ports they were given, and on no other
/// ports.
pub proof fn law_registered_ports(devices: Seq<DeviceView>, start_port: u16, port: u16)
    requires
        start_port + devices.len() <= 0x1_0000,
    ensures
        ({
            let registry = mapped(numbered(devices, start_port), devices.len() as int);
            &&& registry.contains_key(port) <==> start_port <= port < start_port + devices.len()
            &&& registry.contains_key(port) ==> registry[port] == devices[port - start_port]
        }),
{
    lemma_registered(devices, start_port, port, devices.len() as int);
}

proof fn lemma_registered(devices: Seq<DeviceView>, start_port: u16, port: u16, n: int)
    requires
        start_port + devices.len() <= 0x1_0000,
        0 <= n <= devices.len(),
    ensures
        ({
            let registry = mapped(numbered(devices, start_port), n);
            &&& registry.contains_key(port) <==> start_port <= port < start_port + n
            &&& registry.contains_key(port) ==> registry[port] == devices[port - start_port]
        }),
    decreases n,
{
    if n > 0 {
        lemma_registered(devices, start_port, port, n - 1);
    }
}

/// With ports given one by one, the last device given a port is on it.
pub proof fn law_last_pair_wins(mapping: Seq<(u16, DeviceView)>, i: int)
    requires
        0 <= i < mapping.len(),
        forall|j: int| i < j < mapping.len() ==> (#[trigger] mapping[j]).0 != mapping[i].0,
    ensures
        mapped(mapping, mapping.len() as int).contains_key(mapping[i].0),
        mapped(mapping, mapping.len() as int)[mapping[i].0] == mapping[i].1,
{
    lemma_last_pair(mapping, i, mapping.len() as int);
}

proof fn lemma_last_pair(mapping: Seq<(u16, DeviceView)>, i: int, n: int)
    requires
        0 <= i < n <= mapping.len(),
        forall|j: int| i < j < mapping.len() ==> (#[trigger] mapping[j]).0 != mapping[i].0,
    ensures
        mapped(mapping, n).contains_key(mapping[i].0),
        mapped(mapping, n)[mapping[i].0] == mapping[i].1,
    decreases n,
{
    if n - 1 > i {
        lemma_last_pair(mapping, i, n - 1);
        assert(mapping[n - 1].0 != mapping[i].0);
    }
}

/// A device that is registered is found by its kind and by its path, in
/// whatever order the ports are walked.
pub proof fn law_registered_is_found(
    ports: Seq<u16>,
    registry: Map<u16, DeviceView>,
    test: spec_fn(DeviceView) -> bool,
    port: u16,
)
    requires
        is_walk(ports, registry),
        registry.contains_key(port),
        test(registry[port]),
    ensures
        picked(ports, registry, test, ports.len() as int).contains(registry[port]),
{
    assert(ports.to_set().contains(port));
    let at = choose|i: int| 0 <= i < ports.len() && ports[i] == port;
    lemma_picked_contains(ports, registry, test, at, ports.len() as int);
}

proof fn lemma_picked_contains(
    ports: Seq<u16>,
    registry: Map<u16, DeviceView>,
    test: spec_fn(DeviceView) -> bool,
    at: int,
    n: int,
)
    requires
        0 <= at < n <= ports.len(),
        registry.contains_key(ports[at]),
        test(registry[ports[at]]),
    ensures
        picked(ports, registry, test, n).contains(registry[ports[at]]),
    decreases n,
{
    let shorter = picked(ports, registry, test, n - 1);
    let all = picked(ports, registry, test, n);
    if at < n - 1 {
        lemma_picked_contains(ports, registry, test, at, n - 1);
        let k = choose|k: int| 0 <= k < shorter.len() && shorter[k] == registry[ports[at]];
        assert(all[k] == registry[ports[at]]);
    } else {
        assert(all.last() == registry[ports[at]]);
    }
}

/// Only devices that pass the test are picked.
pub proof fn law_picked_pass(
    ports: Seq<u16>,
    registry: Map<u16, DeviceView>,
    test: spec_fn(DeviceView) -> bool,
    n: int,
    k: int,
)
    requires
        n <= ports.len(),
        0 <= k < picked(ports, registry, test, n).len(),
    ensures
        test(picked(ports, registry, test, n)[k]),
    decreases n,
{
    if n > 0 && k < picked(ports, registry, test, n - 1).len() {
        law_picked_pass(ports, registry, test, n - 1, k);
    }
}

/// Walking the ports of a registry comes by every port with a device exactly
/// once, and by no other.
pub proof fn law_walks_see_every_port(ports: Seq<u16>, registry: Map<u16, DeviceView>, port: u16)
    requires
        is_walk(ports, registry),
    ensures
        registry.contains_key(port) <==> exists|i: int|
            0 <= i < ports.len() && #[trigger] ports[i] == port,
        forall|i: int, j: int|
            0 <= i < j < ports.len() ==> #[trigger] ports[i] != #[trigger] ports[j],
{
    if registry.contains_key(port) {
        assert(ports.to_set().contains(port));
    }
    if exists|i: int| 0 <= i < ports.len() && #[trigger] ports[i] == port {
        assert(ports.to_set().contains(port));
        assert(registry.dom().contains(port));
    }
}

/// The devices on ports come in the order of the ports: the device on one more
/// port joins at the end, if there is one and it passes the test.
pub proof fn law_picked_in_order(
    ports: Seq<u16>,
    registry: Map<u16, DeviceView>,
    test: spec_fn(DeviceView) -> bool,
    port: u16,
)
    ensures
        ({
            let before = picked(ports, registry, test, ports.len() as int);
            let after = picked(ports.push(port), registry, test, (ports.len() + 1) as int);
            if registry.contains_key(port) && test(registry[port]) {
                after == before.push(registry[port])
            } else {
                after == before
            }
        }),
        picked(Seq::empty(), registry, test, 0).len() == 0,
{
    lemma_picked_front(ports, registry, test, port, ports.len() as int);
}

proof fn lemma_picked_front(
    ports: Seq<u16>,
    registry: Map<u16, DeviceView>,
    test: spec_fn(DeviceView) -> bool,
    port: u16,
    n: int,
)
    requires
        0 <= n <= ports.len(),
    ensures
        picked(ports.push(port), registry, test, n) == picked(ports, registry, test, n),
    decreases n,
{
    if n > 0 {
        lemma_picked_front(ports, registry, test, port, n - 1);
        assert(ports.push(port)[n - 1] == ports[n - 1]);
    }
}

/// Where every port has a device that passes the test, the devices come out
/// one for one, each in the place of its port.
pub proof fn law_picked_one_for_one(
    ports: Seq<u16>,
    registry: Map<u16, DeviceView>,
    test: spec_fn(DeviceView) -> bool,
    n: int,
    i: int,
)
    requires
        0 <= i < n <= ports.len(),
        forall|k: int|
            0 <= k < n ==> registry.contains_key(#[trigger] ports[k]) && test(registry[ports[k]]),
    ensures
        picked(ports, registry, test, n).len() == n,
        picked(ports, registry, test, n)[i] == registry[ports[i]],
    decreases n,
{
    if n > 1 {
        law_picked_one_for_one(
            ports,
            registry,
            test,
            n - 1,
            if i < n - 1 {
                i
            } else {
                0
            },
        );
    } else {
        assert(picked(ports, registry, test, 0).len() == 0);
    }
    assert(registry.contains_key(ports[n - 1]));
}

/// A device is found by its kind, by one of the paths, or in any case.
pub proof fn law_tests(d: DeviceView, kind: DeviceKind, paths: Seq<String>)
    ensures
        of_kind(kind)(d) <==> d.kind == kind,
        at_path(paths)(d) <==> exists|i: int| 0 <= i < paths.len() && (#[trigger] paths[i])@
            == d.path,
        any_device()(d),
{
}

/// No port has a device but those that were given one.
pub proof fn law_only_given_ports(mapping: Seq<(u16, DeviceView)>, n: int, port: u16)
    requires
        0 <= n <= mapping.len(),
    ensures
        mapped(mapping, n).contains_key(port) <==> exists|i: int|
            0 <= i < n && (#[trigger] mapping[i]).0 == port,
    decreases n,
{
    if n > 0 {
        law_only_given_ports(mapping, n - 1, port);
        if mapped(mapping, n).contains_key(port) {
            if mapping[n - 1].0 == port {
                assert(mapping[n - 1].0 == port);
            } else {
                let i = choose|i: int| 0 <= i < n - 1 && (#[trigger] mapping[i]).0 == port;
                assert(mapping[i].0 == port);
            }
        }
    }
}

} // verus!
