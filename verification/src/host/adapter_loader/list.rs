//! The adapters there are, and the devices they find.
use crate::host::adapter_loader::adapter::RawDevice;
use crate::host::config::{copy_options, option_views};
use vstd::prelude::*;

verus! {

/// The adapters there are.
#[derive(Debug, Clone)]
pub struct AdapterList {
    pub adapters: Vec<AdapterItem>,
}

/// One adapter.
#[derive(Debug, Clone)]
pub struct AdapterItem {
    pub name: String,
    pub description: String,
    pub default_port: u16,
    /// Relative to the directory of the adapters.
    pub path: String,
    /// Options that all devices of the adapter start with.
    pub options: Vec<(String, String)>,
}

/// A device that an adapter found, with what it has from the adapter.
#[derive(Debug, Clone)]
pub struct DeviceInfo {
    pub identifier: String,
    pub name: String,
    pub description: String,
    /// Options with the values they have from the adapter.
    pub options: Vec<(String, String)>,
    /// The adapter that the device belongs to.
    pub adapter_name: String,
    pub default_port: u16,
}

/// The mathematical content of an [`AdapterItem`].
#[verifier::ext_equal]
pub struct AdapterView {
    pub name: Seq<char>,
    pub description: Seq<char>,
    pub default_port: u16,
    pub path: Seq<char>,
    pub options: Seq<(Seq<char>, Seq<char>)>,
}

/// The mathematical content of a [`DeviceInfo`].
#[verifier::ext_equal]
pub struct InfoView {
    pub identifier: Seq<char>,
    pub name: Seq<char>,
    pub description: Seq<char>,
    pub options: Seq<(Seq<char>, Seq<char>)>,
    pub adapter_name: Seq<char>,
    pub default_port: u16,
}

impl View for AdapterItem {
    type V = AdapterView;

    open spec fn view(&self) -> AdapterView {
        AdapterView {
            name: self.name@,
            description: self.description@,
            default_port: self.default_port,
            path: self.path@,
            options: option_views(self.options@),
        }
    }
}

impl View for DeviceInfo {
    type V = InfoView;

    open spec fn view(&self) -> InfoView {
        InfoView {
            identifier: self.identifier@,
            name: self.name@,
            description: self.description@,
            options: option_views(self.options@),
            adapter_name: self.adapter_name@,
            default_port: self.default_port,
        }
    }
}

impl View for AdapterList {
    type V = Seq<AdapterView>;

    open spec fn view(&self) -> Seq<AdapterView> {
        Seq::new(self.adapters@.len(), |i: int| self.adapters@[i]@)
    }
}

/// The contents of a list of devices.
pub open spec fn info_views(devices: Seq<DeviceInfo>) -> Seq<InfoView> {
    Seq::new(devices.len(), |i: int| devices[i]@)
}

/// The device that an adapter found at position `i`: it inherits the options,
/// and its port counts up from that of the adapter.
pub open spec fn enriched(adapter: AdapterView, raw: RawDevice, i: int) -> InfoView {
    InfoView {
        identifier: raw.identifier@,
        name: raw.name@,
        description: raw.description@,
        options: adapter.options,
        adapter_name: adapter.name,
        default_port: (adapter.default_port + i) as u16,
    }
}

/// The devices of an adapter.
pub open spec fn adapter_devices(adapter: AdapterView, raw: Seq<RawDevice>) -> Seq<InfoView> {
    Seq::new(raw.len(), |i: int| enriched(adapter, raw[i], i))
}

/// The devices of the first `n` adapters. An adapter that could not list its
/// devices has none.
pub open spec fn all_devices(
    adapters: Seq<AdapterView>,
    listings: Seq<Option<Vec<RawDevice>>>,
    n: int,
) -> Seq<InfoView>
    decreases n,
{
    if n <= 0 {
        Seq::empty()
    } else {
        let earlier = all_devices(adapters, listings, n - 1);
        match listings[n - 1] {
            Some(raw) => earlier + adapter_devices(adapters[n - 1], raw@),
            None => earlier,
        }
    }
}

/// The ports of an adapter's devices are ports.
pub open spec fn ports_fit(adapter: AdapterView, listing: Option<Vec<RawDevice>>) -> bool {
    listing matches Some(raw) ==> adapter.default_port + raw@.len() <= 0x1_0000
}

/// Appends the devices of one adapter.
fn push_devices(devices: &mut Vec<DeviceInfo>, adapter: &AdapterItem, raw: &[RawDevice])
    requires
        adapter.default_port + raw@.len() <= 0x1_0000,
    ensures
        info_views(final(devices)@) == info_views(old(devices)@) + adapter_devices(
            adapter@,
            raw@,
        ),
{
    let ghost before = info_views(devices@);
    let mut i: usize = 0;
    assert(info_views(devices@) =~= before + adapter_devices(adapter@, raw@).take(0));
    while i < raw.len()
        invariant
            i <= raw.len(),
            adapter.default_port + raw@.len() <= 0x1_0000,
            info_views(devices@) == before + adapter_devices(adapter@, raw@).take(i as int),
        decreases raw.len() - i,
    {
        let ghost so_far = info_views(devices@);
        let info = DeviceInfo {
            identifier: raw[i].identifier.clone(),
            name: raw[i].name.clone(),
            description: raw[i].description.clone(),
            options: copy_options(adapter.options.as_slice()),
            adapter_name: adapter.name.clone(),
            default_port: adapter.default_port + i as u16,
        };
        let ghost v = info@;
        devices.push(info);
        assert(v == enriched(adapter@, raw@[i as int], i as int));
        i = i + 1;
        assert(info_views(devices@) =~= so_far.push(v));
        assert(info_views(devices@) =~= before + adapter_devices(adapter@, raw@).take(i as int));
    }
    assert(adapter_devices(adapter@, raw@).take(i as int) =~= adapter_devices(adapter@, raw@));
}

/// The devices of all adapters, in order. `listings` holds what each adapter
/// listed, `None` for one that could not.
pub fn get_all_devices(adapters: &AdapterList, listings: &[Option<Vec<RawDevice>>]) -> (r: Vec<
    DeviceInfo,
>)
    requires
        listings@.len() == adapters@.len(),
        forall|i: int|
            0 <= i < adapters@.len() ==> ports_fit(#[trigger] adapters@[i], listings@[i]),
    ensures
        info_views(r@) == all_devices(adapters@, listings@, adapters@.len() as int),
{
    let mut devices: Vec<DeviceInfo> = Vec::new();
    let mut i: usize = 0;
    assert(info_views(devices@) =~= Seq::<InfoView>::empty());
    while i < adapters.adapters.len()
        invariant
            i <= adapters@.len(),
            adapters@.len() == adapters.adapters@.len(),
            listings@.len() == adapters@.len(),
            forall|k: int|
                0 <= k < adapters@.len() ==> ports_fit(#[trigger] adapters@[k], listings@[k]),
            info_views(devices@) == all_devices(adapters@, listings@, i as int),
        decreases adapters.adapters.len() - i,
    {
        assert(ports_fit(adapters@[i as int], listings@[i as int]));
        if let Some(raw) = &listings[i] {
            push_devices(&mut devices, &adapters.adapters[i], raw.as_slice());
        }
        i = i + 1;
    }
    devices
}

/// The position of the first adapter of this name from `i` on, or the end.
pub open spec fn adapter_position(adapters: Seq<AdapterView>, name: Seq<char>, i: int) -> int
    decreases adapters.len() - i,
{
    if 0 <= i < adapters.len() && adapters[i].name != name {
        adapter_position(adapters, name, i + 1)
    } else {
        i
    }
}

impl AdapterList {
    /// The first adapter of this name.
    pub fn find(&self, name: &str) -> (r: Option<&AdapterItem>)
        ensures
            match r {
                Some(item) => adapter_position(self@, name@, 0) < self@.len() && item@
                    == self@[adapter_position(self@, name@, 0)],
                None => adapter_position(self@, name@, 0) == self@.len(),
            },
    {
        let mut i: usize = 0;
        while i < self.adapters.len()
            invariant
                i <= self.adapters@.len(),
                self@.len() == self.adapters@.len(),
                adapter_position(self@, name@, i as int) == adapter_position(self@, name@, 0),
            decreases self.adapters.len() - i,
        {
            if crate::text::same_text(self.adapters[i].name.as_str(), name) {
                return Some(&self.adapters[i]);
            }
            i = i + 1;
        }
        None
    }
}

/// Every device names its adapter, has the options of that adapter, and has
/// the port that its position gives it.
pub proof fn law_devices_inherit(adapter: AdapterView, raw: Seq<RawDevice>, i: int)
    requires
        0 <= i < raw.len(),
        adapter.default_port + raw.len() <= 0x1_0000,
    ensures
        adapter_devices(adapter, raw)[i].adapter_name == adapter.name,
        adapter_devices(adapter, raw)[i].options == adapter.options,
        adapter_devices(adapter, raw)[i].default_port == adapter.default_port + i,
        adapter_devices(adapter, raw)[i].identifier == raw[i].identifier@,
{
}

/// Devices of one adapter never share a port.
pub proof fn law_ports_differ(adapter: AdapterView, raw: Seq<RawDevice>, i: int, j: int)
    requires
        0 <= i < j < raw.len(),
        adapter.default_port + raw.len() <= 0x1_0000,
    ensures
        adapter_devices(adapter, raw)[i].default_port != adapter_devices(adapter, raw)[j].default_port,
{
}

/// The devices of one more adapter join behind those of the others; an adapter
/// that could not list its devices adds none.
pub proof fn law_adapters_in_order(
    adapters: Seq<AdapterView>,
    listings: Seq<Option<Vec<RawDevice>>>,
    n: int,
    i: int,
)
    requires
        0 < n <= adapters.len(),
        listings.len() == adapters.len(),
        0 <= i,
    ensures
        ({
            let before = all_devices(adapters, listings, n - 1);
            let after = all_devices(adapters, listings, n);
            &&& all_devices(adapters, listings, 0).len() == 0
            &&& listings[n - 1] is None ==> after == before
            &&& listings[n - 1] matches Some(raw) ==> after.len() == before.len() + raw@.len()
            &&& i < before.len() ==> after[i] == before[i]
            &&& listings[n - 1] is Some && i < listings[n - 1]->0@.len() && ports_fit(
                adapters[n - 1],
                listings[n - 1],
            ) ==> {
                let d = after[before.len() + i];
                let raw = listings[n - 1]->0@[i];
                &&& d.identifier == raw.identifier@ && d.name == raw.name@ && d.description
                    == raw.description@
                &&& d.adapter_name == adapters[n - 1].name && d.options == adapters[n - 1].options
                &&& d.default_port == adapters[n - 1].default_port + i
            }
        }),
{
}

/// An adapter is found by its name: the first one that has it.
pub proof fn law_adapters_by_name(adapters: Seq<AdapterView>, name: Seq<char>, i: int)
    requires
        0 <= i <= adapters.len(),
    ensures
        i <= adapter_position(adapters, name, i) <= adapters.len(),
        adapter_position(adapters, name, i) < adapters.len() ==> adapters[adapter_position(
            adapters,
            name,
            i,
        )].name == name,
        forall|k: int|
            i <= k < adapter_position(adapters, name, i) ==> (#[trigger] adapters[k]).name != name,
    decreases adapters.len() - i,
{
    if i < adapters.len() && adapters[i].name != name {
        law_adapters_by_name(adapters, name, i + 1);
    }
}

} // verus!
