//! Finding the devices of the host in what the operating system tells.
use crate::host::registry::{
    device_views, DeviceInfo, DeviceKind, DeviceView, DevicesRegistry,
};
use crate::scan::{
    lines, lines_of, text_views, trim, trim_start, trimmed, trimmed_start,
};
use crate::text::{
    chars_of, contains_text, decimal, law_occurrences, occurs_in, push_decimal, same_text,
    string_of,
};
use crate::wire::copy_range;
use vstd::prelude::*;
use vstd::utf8::{decode_utf8, valid_utf8};

verus! {

/// Cameras that are tried one by one.
pub const MAX_PROBED_CAMERAS: usize = 8;

/// What the system tells about cameras.
#[derive(Debug)]
pub enum CameraScan {
    /// A list of entries, with whether each is there.
    Listed(Vec<bool>),
    /// Cameras tried one by one, with whether each could be opened.
    Probed(Vec<bool>),
}

/// What an input device tells about itself.
#[derive(Debug)]
pub struct EvdevProbe {
    /// Which types of events it has, one bit each.
    pub ev_bits: Option<Vec<u8>>,
    /// Which keys it has, one bit each.
    pub key_bits: Option<Vec<u8>>,
    /// Its name, up to the first zero byte.
    pub name: Option<Vec<u8>>,
}

/// What the system tells about keyboards.
#[derive(Debug)]
pub enum KeyboardScan {
    /// Input devices with what they tell about themselves.
    Evdev(Vec<EvdevProbe>),
    /// Keyboards, with their names as far as they have one.
    Named(Vec<Option<String>>),
    /// A report in words, as it came.
    Report(Vec<u8>),
}

/// What the system tells about all devices.
#[derive(Debug)]
pub struct HostScan {
    pub cameras: CameraScan,
    pub keyboards: KeyboardScan,
    pub serial_ports: Vec<String>,
    /// The configuration of the SSH client.
    pub ssh_config: Option<String>,
}

/// The camera with this number.
pub open spec fn camera(idx: int) -> DeviceView {
    DeviceView { kind: DeviceKind::Camera, path: "camera://"@ + decimal(idx as nat) }
}

/// The cameras among the first `n` entries.
pub open spec fn listed_cameras(found: Seq<bool>, n: int) -> Seq<DeviceView>
    decreases n,
{
    if n <= 0 {
        Seq::empty()
    } else if found[n - 1] {
        listed_cameras(found, n - 1).push(camera(n - 1))
    } else {
        listed_cameras(found, n - 1)
    }
}

/// The number of cameras before the first one that could not be opened.
pub open spec fn opened_run(opened: Seq<bool>, i: int) -> int
    decreases opened.len() - i,
{
    if 0 <= i < opened.len() && i < MAX_PROBED_CAMERAS && opened[i] {
        opened_run(opened, i + 1)
    } else {
        i
    }
}

/// The cameras that the system tells of.
pub open spec fn cameras_in(scan: CameraScan) -> Seq<DeviceView> {
    match scan {
        CameraScan::Listed(found) => listed_cameras(found@, found@.len() as int),
        CameraScan::Probed(opened) => Seq::new(
            opened_run(opened@, 0) as nat,
            |i: int| camera(i),
        ),
    }
}

/// Whether the bit with this weight is set.
pub open spec fn has_bit(byte: u8, weight: u8) -> bool {
    (byte / weight) % 2 == 1
}

/// A keyboard has key events, and among its keys are A (number 30) and enter
/// (number 28).
pub open spec fn is_keyboard(probe: EvdevProbe) -> bool {
    &&& probe.ev_bits matches Some(ev) && ev@.len() > 0 && has_bit(ev@[0], 2)
    &&& probe.key_bits matches Some(keys) && keys@.len() > 3 && has_bit(keys@[3], 64) && has_bit(
        keys@[3],
        16,
    )
}

/// Bytes read as text; what is no text is replaced.
pub uninterp spec fn lossy_text(bytes: Seq<u8>) -> Seq<char>;

/// `String::from_utf8_lossy` reads UTF-8 as text. Bytes that are no UTF-8 are
/// replaced, in a way that depends on the bytes alone.
#[verifier::external_body]
fn text_from_bytes(bytes: &[u8]) -> (r: String)
    ensures
        r@ == lossy_text(bytes@),
        valid_utf8(bytes@) ==> r@ == decode_utf8(bytes@),
{
    String::from_utf8_lossy(bytes).into_owned()
}

/// The position of the first zero byte from `i` on, or the end.
pub open spec fn zero_position(bytes: Seq<u8>, i: int) -> int
    decreases bytes.len() - i,
{
    if 0 <= i < bytes.len() && bytes[i] != 0 {
        zero_position(bytes, i + 1)
    } else {
        i
    }
}

/// The name of an input device, or `keyboard` if it has none.
pub open spec fn shown_name(name: Option<Vec<u8>>) -> Seq<char> {
    match name {
        Some(bytes) => {
            let end = zero_position(bytes@, 0);
            if end < bytes@.len() {
                lossy_text(bytes@.take(end))
            } else {
                "keyboard"@
            }
        },
        None => "keyboard"@,
    }
}

/// The keyboards among the first `n` input devices.
pub open spec fn evdev_keyboards(probes: Seq<EvdevProbe>, n: int) -> Seq<DeviceView>
    decreases n,
{
    if n <= 0 {
        Seq::empty()
    } else if is_keyboard(probes[n - 1]) {
        evdev_keyboards(probes, n - 1).push(
            DeviceView {
                kind: DeviceKind::Keyboard,
                path: "input://"@ + shown_name(probes[n - 1].name),
            },
        )
    } else {
        evdev_keyboards(probes, n - 1)
    }
}

/// A keyboard with its name, or its number if it has none.
pub open spec fn named_keyboard(name: Option<String>, index: int) -> DeviceView {
    DeviceView {
        kind: DeviceKind::Keyboard,
        path: match name {
            Some(n) => "keyboard://"@ + n@,
            None => "keyboard://"@ + decimal(index as nat),
        },
    }
}

/// A text in small letters.
pub uninterp spec fn lowercased(s: Seq<char>) -> Seq<char>;

/// `str::to_lowercase` gives the text in small letters, by the rules of
/// Unicode.
#[verifier::external_body]
pub(crate) fn to_lowercase(s: &str) -> (r: String)
    ensures
        r@ == lowercased(s@),
{
    s.to_lowercase()
}

/// Whether a line of a report, in small letters, names a keyboard. Headings do
/// not.
pub open spec fn names_keyboard(lower: Seq<char>) -> bool {
    lower != "keyboards:"@ && lower != "keyboard:"@ && lower != "keyboards"@ && occurs_in(
        "keyboard"@,
        lower,
    )
}

/// The keyboards in the first `n` lines of a report.
pub open spec fn reported_keyboards(all: Seq<Seq<char>>, n: int) -> Seq<DeviceView>
    decreases n,
{
    if n <= 0 {
        Seq::empty()
    } else if names_keyboard(lowercased(trimmed(all[n - 1]))) {
        reported_keyboards(all, n - 1).push(
            DeviceView {
                kind: DeviceKind::Keyboard,
                path: "macos-keyboard://"@ + trimmed(all[n - 1]),
            },
        )
    } else {
        reported_keyboards(all, n - 1)
    }
}

/// The keyboards in a report.
pub open spec fn keyboards_in_report(text: Seq<char>) -> Seq<DeviceView> {
    reported_keyboards(lines_of(text), lines_of(text).len() as int)
}

/// The keyboards that the system tells of.
pub open spec fn keyboards_in(scan: KeyboardScan) -> Seq<DeviceView> {
    match scan {
        KeyboardScan::Evdev(probes) => evdev_keyboards(probes@, probes@.len() as int),
        KeyboardScan::Named(names) => Seq::new(
            names@.len(),
            |i: int| named_keyboard(names@[i], i),
        ),
        KeyboardScan::Report(bytes) => keyboards_in_report(lossy_text(bytes@)),
    }
}

/// The serial ports that the system tells of.
pub open spec fn serials_in(ports: Seq<String>) -> Seq<DeviceView> {
    Seq::new(
        ports.len(),
        |i: int| DeviceView { kind: DeviceKind::Serial, path: ports[i]@ },
    )
}

/// What the first group of a regular expression matches in a text.
pub uninterp spec fn first_group(pattern: Seq<char>, text: Seq<char>) -> Option<Seq<char>>;

/// `regex::Regex` matches a pattern against a text; what its first group
/// matches depends on the two alone. A pattern that is none matches nothing.
#[verifier::external_body]
fn match_first_group(pattern: &str, text: &str) -> (r: Option<String>)
    ensures
        match r {
            Some(s) => first_group(pattern@, text@) == Some(s@),
            None => first_group(pattern@, text@) is None,
        },
{
    let re = regex::Regex::new(pattern).ok()?;
    let found = re.captures(text)?.get(1)?;
    Some(found.as_str().to_string())
}

/// The host that an SSH `Host` line is about, given what stands behind `Host`.
/// The pattern for all hosts is none.
pub open spec fn ssh_host(group: Option<Seq<char>>) -> Option<DeviceView> {
    match group {
        Some(text) => if trimmed(text) != "*"@ && trimmed(text).len() > 0 {
            Some(DeviceView { kind: DeviceKind::Ssh, path: "ssh://"@ + trimmed(text) })
        } else {
            None
        },
        None => None,
    }
}

/// The pattern of an SSH `Host` line.
pub open spec fn host_pattern() -> Seq<char> {
    r"(?i)^host\s+(.+)"@
}

/// The hosts in the first `n` lines of an SSH configuration.
pub open spec fn ssh_hosts(all: Seq<Seq<char>>, n: int) -> Seq<DeviceView>
    decreases n,
{
    if n <= 0 {
        Seq::empty()
    } else {
        match ssh_host(first_group(host_pattern(), trimmed_start(all[n - 1]))) {
            Some(d) => ssh_hosts(all, n - 1).push(d),
            None => ssh_hosts(all, n - 1),
        }
    }
}

/// The SSH hosts that a configuration tells of.
pub open spec fn ssh_in(config: Option<String>) -> Seq<DeviceView> {
    match config {
        Some(text) => ssh_hosts(lines_of(text@), lines_of(text@).len() as int),
        None => Seq::empty(),
    }
}

/// The code that asks an input device for its name, into so many bytes.
pub fn eviocgname(len: u16) -> (r: u64)
    requires
        len < 0x4000,
    ensures
        r == 0x8000_0000 + len * 0x1_0000 + 0x45 * 0x100 + 0x06,
{
    0x8000_0000 + len as u64 * 0x1_0000 + 0x45 * 0x100 + 0x06
}

/// The code that asks an input device for its events of a type, into so many
/// bytes.
pub fn eviocgbit(ev: u8, len: u16) -> (r: u64)
    requires
        len < 0x4000,
        ev <= 0x1f,
    ensures
        r == 0x8000_0000 + len * 0x1_0000 + 0x45 * 0x100 + 0x20 + ev,
{
    0x8000_0000 + len as u64 * 0x1_0000 + 0x45 * 0x100 + 0x20 + ev as u64
}

/// Whether an input device is a keyboard.
pub fn looks_like_keyboard(probe: &EvdevProbe) -> (r: bool)
    ensures
        r == is_keyboard(*probe),
{
    let has_keys = match &probe.ev_bits {
        Some(ev) => ev.len() > 0 && (ev[0] / 2) % 2 == 1,
        None => false,
    };
    if !has_keys {
        return false;
    }
    match &probe.key_bits {
        Some(keys) => keys.len() > 3 && (keys[3] / 64) % 2 == 1 && (keys[3] / 16) % 2 == 1,
        None => false,
    }
}

/// The name of an input device, or `keyboard`.
fn display_name(name: &Option<Vec<u8>>) -> (r: String)
    ensures
        r@ == shown_name(*name),
{
    if let Some(bytes) = name {
        let mut end: usize = 0;
        while end < bytes.len() && bytes[end] != 0
            invariant
                end <= bytes.len(),
                zero_position(bytes@, end as int) == zero_position(bytes@, 0),
            decreases bytes.len() - end,
        {
            end = end + 1;
        }
        if end < bytes.len() {
            let text = copy_range(bytes.as_slice(), 0, end);
            assert(text@ =~= bytes@.take(end as int));
            return text_from_bytes(text.as_slice());
        }
    }
    "keyboard".to_owned()
}

/// A device at a path that starts with a scheme.
fn device_at(kind: DeviceKind, scheme: &str, rest: &str) -> (r: DeviceInfo)
    ensures
        r@ == (DeviceView { kind, path: scheme@ + rest@ }),
{
    let mut path = scheme.to_owned();
    path.push_str(rest);
    DeviceInfo { kind, path }
}

/// A device at a path that ends with a number.
fn numbered_device(kind: DeviceKind, scheme: &str, n: usize) -> (r: DeviceInfo)
    ensures
        r@ == (DeviceView { kind, path: scheme@ + decimal(n as nat) }),
{
    let mut path = scheme.to_owned();
    push_decimal(&mut path, n as u64);
    DeviceInfo { kind, path }
}

/// Appends a device.
fn push_device(devices: &mut Vec<DeviceInfo>, device: DeviceInfo)
    ensures
        device_views(final(devices)@) == device_views(old(devices)@).push(device@),
{
    let ghost before = device_views(devices@);
    let ghost d = device@;
    devices.push(device);
    assert(device_views(devices@) =~= before.push(d));
}

/// The host that an SSH `Host` line is about, given what stands behind `Host`.
pub fn host_device(group: Option<&str>) -> (r: Option<DeviceInfo>)
    ensures
        ({
            let view = match group {
                Some(text) => Some(text@),
                None => None,
            };
            match r {
                Some(d) => ssh_host(view) == Some(d@),
                None => ssh_host(view) is None,
            }
        }),
{
    match group {
        Some(text) => {
            let chars = chars_of(text);
            let host = string_of(trim(chars.as_slice()));
            if !same_text(host.as_str(), "*") && !host.as_str().is_empty() {
                Some(device_at(DeviceKind::Ssh, "ssh://", host.as_str()))
            } else {
                None
            }
        },
        None => None,
    }
}

/// Whether a line of a report, in small letters, names a keyboard.
pub fn line_names_keyboard(lower: &str) -> (r: bool)
    ensures
        r == names_keyboard(lower@),
{
    !same_text(lower, "keyboards:") && !same_text(lower, "keyboard:") && !same_text(
        lower,
        "keyboards",
    ) && contains_text(lower, "keyboard")
}

/// Appends the devices of another list.
fn append_devices(devices: &mut Vec<DeviceInfo>, more: Vec<DeviceInfo>)
    ensures
        device_views(final(devices)@) == device_views(old(devices)@) + device_views(more@),
{
    let ghost before = device_views(devices@);
    let ghost added = device_views(more@);
    let mut more = more;
    devices.append(&mut more);
    assert(device_views(devices@) =~= before + added);
}

impl DevicesRegistry {
    /// Every device that the system tells of: cameras, keyboards, serial
    /// ports, SSH hosts. No ports are assigned.
    pub fn detect_all(&self, scan: &HostScan) -> (r: Vec<DeviceInfo>)
        ensures
            device_views(r@) == cameras_in(scan.cameras) + keyboards_in(scan.keyboards)
                + serials_in(scan.serial_ports@) + ssh_in(scan.ssh_config),
    {
        let mut devices = self.detect_cameras(&scan.cameras);
        append_devices(&mut devices, self.detect_keyboards(&scan.keyboards));
        append_devices(&mut devices, self.detect_serials(&scan.serial_ports));
        append_devices(&mut devices, self.detect_ssh(&scan.ssh_config));
        devices
    }

    /// The cameras that the system tells of.
    pub fn detect_cameras(&self, scan: &CameraScan) -> (r: Vec<DeviceInfo>)
        ensures
            device_views(r@) == cameras_in(*scan),
    {
        let mut cameras: Vec<DeviceInfo> = Vec::new();
        assert(device_views(cameras@) =~= Seq::<DeviceView>::empty());
        match scan {
            CameraScan::Listed(found) => {
                let mut i: usize = 0;
                while i < found.len()
                    invariant
                        i <= found.len(),
                        device_views(cameras@) == listed_cameras(found@, i as int),
                    decreases found.len() - i,
                {
                    if found[i] {
                        push_device(
                            &mut cameras,
                            numbered_device(DeviceKind::Camera, "camera://", i),
                        );
                    }
                    i = i + 1;
                }
            },
            CameraScan::Probed(opened) => {
                let mut i: usize = 0;
                while i < opened.len() && i < MAX_PROBED_CAMERAS && opened[i]
                    invariant
                        i <= opened.len(),
                        opened_run(opened@, i as int) == opened_run(opened@, 0),
                        device_views(cameras@) == Seq::new(i as nat, |k: int| camera(k)),
                    decreases opened.len() - i,
                {
                    push_device(
                        &mut cameras,
                        numbered_device(DeviceKind::Camera, "camera://", i),
                    );
                    i = i + 1;
                    assert(device_views(cameras@) =~= Seq::new(i as nat, |k: int| camera(k)));
                }
            },
        }
        cameras
    }

    /// The serial ports that the system tells of.
    pub fn detect_serials(&self, ports: &Vec<String>) -> (r: Vec<DeviceInfo>)
        ensures
            device_views(r@) == serials_in(ports@),
    {
        let mut serials: Vec<DeviceInfo> = Vec::new();
        let mut i: usize = 0;
        assert(device_views(serials@) =~= serials_in(ports@).take(0));
        while i < ports.len()
            invariant
                i <= ports.len(),
                device_views(serials@) == serials_in(ports@).take(i as int),
            decreases ports.len() - i,
        {
            push_device(
                &mut serials,
                DeviceInfo { kind: DeviceKind::Serial, path: ports[i].clone() },
            );
            i = i + 1;
            assert(device_views(serials@) =~= serials_in(ports@).take(i as int));
        }
        assert(serials_in(ports@).take(i as int) =~= serials_in(ports@));
        serials
    }

    /// The keyboards that the system tells of.
    pub fn detect_keyboards(&self, scan: &KeyboardScan) -> (r: Vec<DeviceInfo>)
        ensures
            device_views(r@) == keyboards_in(*scan),
    {
        match scan {
            KeyboardScan::Evdev(probes) => self.keyboards_by_capability(probes.as_slice()),
            KeyboardScan::Named(names) => self.keyboards_by_name(names.as_slice()),
            KeyboardScan::Report(bytes) => {
                let text = text_from_bytes(bytes.as_slice());
                self.keyboards_by_report(text.as_str())
            },
        }
    }

    fn keyboards_by_capability(&self, probes: &[EvdevProbe]) -> (r: Vec<DeviceInfo>)
        ensures
            device_views(r@) == evdev_keyboards(probes@, probes@.len() as int),
    {
        let mut keyboards: Vec<DeviceInfo> = Vec::new();
        assert(device_views(keyboards@) =~= Seq::<DeviceView>::empty());
        let mut i: usize = 0;
        while i < probes.len()
            invariant
                i <= probes.len(),
                device_views(keyboards@) == evdev_keyboards(probes@, i as int),
            decreases probes.len() - i,
        {
            if looks_like_keyboard(&probes[i]) {
                let name = display_name(&probes[i].name);
                push_device(
                    &mut keyboards,
                    device_at(DeviceKind::Keyboard, "input://", name.as_str()),
                );
            }
            i = i + 1;
        }
        keyboards
    }

    fn keyboards_by_name(&self, names: &[Option<String>]) -> (r: Vec<DeviceInfo>)
        ensures
            device_views(r@) == Seq::new(names@.len(), |i: int| named_keyboard(names@[i], i)),
    {
        let mut keyboards: Vec<DeviceInfo> = Vec::new();
        let mut i: usize = 0;
        while i < names.len()
            invariant
                i <= names.len(),
                device_views(keyboards@) == Seq::new(
                    i as nat,
                    |k: int| named_keyboard(names@[k], k),
                ),
            decreases names.len() - i,
        {
            let keyboard = match &names[i] {
                Some(name) => device_at(DeviceKind::Keyboard, "keyboard://", name.as_str()),
                None => numbered_device(DeviceKind::Keyboard, "keyboard://", i),
            };
            push_device(&mut keyboards, keyboard);
            i = i + 1;
            assert(device_views(keyboards@) =~= Seq::new(
                i as nat,
                |k: int| named_keyboard(names@[k], k),
            ));
        }
        keyboards
    }

    /// The keyboards in a report.
    pub fn keyboards_by_report(&self, text: &str) -> (r: Vec<DeviceInfo>)
        ensures
            device_views(r@) == keyboards_in_report(text@),
    {
        let chars = chars_of(text);
        let all = lines(chars.as_slice());
        let ghost views = lines_of(text@);
        let mut keyboards: Vec<DeviceInfo> = Vec::new();
        assert(device_views(keyboards@) =~= Seq::<DeviceView>::empty());
        let mut i: usize = 0;
        while i < all.len()
            invariant
                i <= all.len(),
                text_views(all@) == views,
                device_views(keyboards@) == reported_keyboards(views, i as int),
            decreases all.len() - i,
        {
            assert(views[i as int] == all@[i as int]@);
            let line = string_of(trim(all[i].as_slice()));
            let lower = to_lowercase(line.as_str());
            if line_names_keyboard(lower.as_str()) {
                push_device(
                    &mut keyboards,
                    device_at(DeviceKind::Keyboard, "macos-keyboard://", line.as_str()),
                );
            }
            i = i + 1;
        }
        keyboards
    }

    /// The SSH hosts that a configuration tells of.
    pub fn detect_ssh(&self, config: &Option<String>) -> (r: Vec<DeviceInfo>)
        ensures
            device_views(r@) == ssh_in(*config),
    {
        let mut hosts: Vec<DeviceInfo> = Vec::new();
        assert(device_views(hosts@) =~= Seq::<DeviceView>::empty());
        if let Some(text) = config {
            let chars = chars_of(text.as_str());
            let all = lines(chars.as_slice());
            let ghost views = lines_of(text@);
            let mut i: usize = 0;
            while i < all.len()
                invariant
                    i <= all.len(),
                    text_views(all@) == views,
                    device_views(hosts@) == ssh_hosts(views, i as int),
                decreases all.len() - i,
            {
                assert(views[i as int] == all@[i as int]@);
                let line = string_of(trim_start(all[i].as_slice()));
                let group = match_first_group(r"(?i)^host\s+(.+)", line.as_str());
                let host = match &group {
                    Some(s) => host_device(Some(s.as_str())),
                    None => host_device(None),
                };
                if let Some(device) = host {
                    push_device(&mut hosts, device);
                }
                i = i + 1;
            }
        }
        hosts
    }
}

/// The first unit of a pair in UTF-16.
pub open spec fn leads_pair(unit: u16) -> bool {
    0xD800 <= unit <= 0xDBFF
}

/// The second unit of a pair in UTF-16.
pub open spec fn ends_pair(unit: u16) -> bool {
    0xDC00 <= unit <= 0xDFFF
}

/// Units of UTF-16 read as text. A pair is one character, and so is a unit
/// that cannot be of a pair. Half a pair is replaced.
pub open spec fn utf16_text(units: Seq<u16>) -> Seq<char>
    decreases units.len(),
{
    if units.len() == 0 {
        Seq::empty()
    } else if !leads_pair(units[0]) && !ends_pair(units[0]) {
        seq![(units[0] as u32) as char] + utf16_text(units.skip(1))
    } else if leads_pair(units[0]) && units.len() > 1 && ends_pair(units[1]) {
        let code = 0x1_0000 + (units[0] - 0xD800) * 0x400 + (units[1] - 0xDC00);
        seq![(code as u32) as char] + utf16_text(units.skip(2))
    } else {
        seq!['\u{FFFD}'] + utf16_text(units.skip(1))
    }
}

/// `String::from_utf16_lossy` reads UTF-16 as text. Each unit that is half a
/// pair without the other half is replaced by the replacement character.
#[verifier::external_body]
pub(crate) fn text_from_utf16(units: &[u16]) -> (r: String)
    ensures
        r@ == utf16_text(units@),
{
    String::from_utf16_lossy(units)
}

/// Pairs of bytes as numbers, less significant byte first. A last single byte
/// is left out.
pub open spec fn utf16_units(bytes: Seq<u8>) -> Seq<u16> {
    Seq::new(
        bytes.len() / 2,
        |i: int| (bytes[2 * i] as nat + 256 * (bytes[2 * i + 1] as nat)) as u16,
    )
}

/// A text without the zero characters at its end.
pub open spec fn without_zeros(s: Seq<char>) -> Seq<char>
    decreases s.len(),
{
    if s.len() > 0 && s.last() == '\0' {
        without_zeros(s.drop_last())
    } else {
        s
    }
}

/// The name in a property of a device, if the property is there and not empty.
pub open spec fn property_name(property: Option<Vec<u8>>) -> Option<Seq<char>> {
    match property {
        Some(bytes) => {
            let name = without_zeros(utf16_text(utf16_units(bytes@)));
            if bytes@.len() >= 2 && name.len() > 0 {
                Some(name)
            } else {
                None
            }
        },
        None => None,
    }
}

/// The first name in the properties from `i` on.
pub open spec fn first_name(properties: Seq<Option<Vec<u8>>>, i: int) -> Option<Seq<char>>
    decreases properties.len() - i,
{
    if 0 <= i < properties.len() {
        match property_name(properties[i]) {
            Some(name) => Some(name),
            None => first_name(properties, i + 1),
        }
    } else {
        None
    }
}

/// The characters without the zero characters at their end.
pub fn trim_zeros(s: &[char]) -> (r: Vec<char>)
    ensures
        r@ == without_zeros(s@),
{
    let mut end: usize = s.len();
    assert(s@.take(s@.len() as int) =~= s@);
    while end > 0 && s[end - 1] == '\0'
        invariant
            end <= s.len(),
            without_zeros(s@.take(end as int)) == without_zeros(s@),
        decreases end,
    {
        assert(s@.take(end as int).drop_last() =~= s@.take(end as int - 1));
        end = end - 1;
    }
    assert(s@.subrange(0, end as int) =~= s@.take(end as int));
    crate::scan::copy_chars(s, 0, end)
}

/// Pairs of bytes as numbers, less significant byte first.
pub fn bytes_to_units(bytes: &[u8]) -> (r: Vec<u16>)
    ensures
        r@ == utf16_units(bytes@),
{
    let mut units: Vec<u16> = Vec::new();
    let mut i: usize = 0;
    while i < bytes.len() / 2
        invariant
            i <= bytes@.len() / 2,
            units@ == utf16_units(bytes@).take(i as int),
        decreases bytes.len() / 2 - i,
    {
        let unit: u16 = bytes[2 * i] as u16 + 256 * (bytes[2 * i + 1] as u16);
        units.push(unit);
        i = i + 1;
        assert(units@ =~= utf16_units(bytes@).take(i as int));
    }
    assert(units@ =~= utf16_units(bytes@));
    units
}

/// The name of a device: that in the first of its properties that has one.
/// `None` stands for a property that could not be read.
pub fn read_setupdi_name(properties: &[Option<Vec<u8>>]) -> (r: Option<String>)
    ensures
        match r {
            Some(name) => first_name(properties@, 0) == Some(name@),
            None => first_name(properties@, 0) is None,
        },
{
    let mut i: usize = 0;
    while i < properties.len()
        invariant
            i <= properties.len(),
            first_name(properties@, i as int) == first_name(properties@, 0),
        decreases properties.len() - i,
    {
        if let Some(bytes) = &properties[i] {
            if bytes.len() >= 2 {
                let units = bytes_to_units(bytes.as_slice());
                let text = text_from_utf16(units.as_slice());
                let chars = chars_of(text.as_str());
                let name = trim_zeros(chars.as_slice());
                if name.len() > 0 {
                    return Some(string_of(name.as_slice()));
                }
            }
        }
        i = i + 1;
    }
    None
}

/// All these devices are of a kind and have a path.
pub open spec fn have_paths(devices: Seq<DeviceView>, kind: DeviceKind) -> bool {
    forall|i: int|
        0 <= i < devices.len() ==> (#[trigger] devices[i]).path.len() > 0 && devices[i].kind == kind
}

/// Whatever the system tells, the cameras, keyboards and SSH hosts that are
/// found have a path and are of their kind. A serial port has the name that
/// the system gave it.
pub proof fn law_found_devices_have_paths(scan: HostScan)
    ensures
        have_paths(cameras_in(scan.cameras), DeviceKind::Camera),
        have_paths(keyboards_in(scan.keyboards), DeviceKind::Keyboard),
        have_paths(ssh_in(scan.ssh_config), DeviceKind::Ssh),
        forall|i: int|
            0 <= i < scan.serial_ports@.len() ==> (#[trigger] serials_in(
                scan.serial_ports@,
            )[i]).path == scan.serial_ports@[i]@,
{
    reveal_strlit("camera://");
    reveal_strlit("input://");
    reveal_strlit("keyboard://");
    reveal_strlit("macos-keyboard://");
    reveal_strlit("ssh://");
    match scan.cameras {
        CameraScan::Listed(found) => {
            lemma_listed_have_paths(found@, found@.len() as int);
        },
        CameraScan::Probed(_) => {},
    }
    match scan.keyboards {
        KeyboardScan::Evdev(probes) => {
            lemma_evdev_have_paths(probes@, probes@.len() as int);
        },
        KeyboardScan::Named(_) => {},
        KeyboardScan::Report(bytes) => {
            let all = lines_of(lossy_text(bytes@));
            lemma_reported_have_paths(all, all.len() as int);
        },
    }
    if let Some(text) = scan.ssh_config {
        lemma_ssh_have_paths(lines_of(text@), lines_of(text@).len() as int);
    }
}

proof fn lemma_listed_have_paths(found: Seq<bool>, n: int)
    ensures
        have_paths(listed_cameras(found, n), DeviceKind::Camera),
    decreases n,
{
    reveal_strlit("camera://");
    if n > 0 {
        lemma_listed_have_paths(found, n - 1);
    }
}

proof fn lemma_evdev_have_paths(probes: Seq<EvdevProbe>, n: int)
    ensures
        have_paths(evdev_keyboards(probes, n), DeviceKind::Keyboard),
    decreases n,
{
    reveal_strlit("input://");
    if n > 0 {
        lemma_evdev_have_paths(probes, n - 1);
    }
}

proof fn lemma_reported_have_paths(all: Seq<Seq<char>>, n: int)
    ensures
        have_paths(reported_keyboards(all, n), DeviceKind::Keyboard),
    decreases n,
{
    reveal_strlit("macos-keyboard://");
    if n > 0 {
        lemma_reported_have_paths(all, n - 1);
    }
}

proof fn lemma_ssh_have_paths(all: Seq<Seq<char>>, n: int)
    ensures
        have_paths(ssh_hosts(all, n), DeviceKind::Ssh),
    decreases n,
{
    reveal_strlit("ssh://");
    if n > 0 {
        lemma_ssh_have_paths(all, n - 1);
    }
}

/// Entries in a list are numbered as they come; those that are there are
/// cameras, named by their number.
pub proof fn law_listed_cameras(found: Seq<bool>, there: bool)
    ensures
        ({
            let before = listed_cameras(found, found.len() as int);
            let after = listed_cameras(found.push(there), (found.len() + 1) as int);
            if there {
                after == before.push(
                    DeviceView {
                        kind: DeviceKind::Camera,
                        path: "camera://"@ + decimal(found.len()),
                    },
                )
            } else {
                after == before
            }
        }),
        listed_cameras(Seq::empty(), 0).len() == 0,
        forall|list: Vec<bool>| #[trigger]
            cameras_in(CameraScan::Listed(list)) == listed_cameras(list@, list@.len() as int),
{
    lemma_listed_front(found, there, found.len() as int);
}

proof fn lemma_listed_front(found: Seq<bool>, there: bool, n: int)
    requires
        0 <= n <= found.len(),
    ensures
        listed_cameras(found.push(there), n) == listed_cameras(found, n),
    decreases n,
{
    if n > 0 {
        lemma_listed_front(found, there, n - 1);
        assert(found.push(there)[n - 1] == found[n - 1]);
    }
}

/// Cameras that are tried one by one count up to the first that cannot be
/// opened, and there are eight at most.
pub proof fn law_probed_cameras(opened: Vec<bool>, i: int)
    ensures
        ({
            let cameras = cameras_in(CameraScan::Probed(opened));
            &&& cameras.len() <= 8 && cameras.len() <= opened@.len()
            &&& 0 <= i < cameras.len() ==> opened@[i] && cameras[i] == (DeviceView {
                kind: DeviceKind::Camera,
                path: "camera://"@ + decimal(i as nat),
            })
            &&& cameras.len() < 8 && cameras.len() < opened@.len()
                ==> !opened@[cameras.len() as int]
        }),
{
    lemma_opened_run(opened@, 0);
}

proof fn lemma_opened_run(opened: Seq<bool>, i: int)
    requires
        0 <= i <= opened.len(),
        i <= 8,
    ensures
        i <= opened_run(opened, i) <= opened.len(),
        opened_run(opened, i) <= 8,
        forall|k: int| i <= k < opened_run(opened, i) ==> #[trigger] opened[k],
        opened_run(opened, i) < 8 && opened_run(opened, i) < opened.len()
            ==> !opened[opened_run(opened, i)],
    decreases opened.len() - i,
{
    if i < opened.len() && i < 8 && opened[i] {
        lemma_opened_run(opened, i + 1);
    }
}

/// An input device is a keyboard exactly if it tells that it has keys, and the
/// keys with the numbers 30 and 28 are among them. The number of a key is that
/// of its bit.
pub proof fn law_what_is_a_keyboard(probe: EvdevProbe)
    ensures
        is_keyboard(probe) <==> {
            &&& probe.ev_bits is Some && probe.key_bits is Some
            &&& key_is_set(probe.ev_bits->0@, 1)
            &&& key_is_set(probe.key_bits->0@, 30)
            &&& key_is_set(probe.key_bits->0@, 28)
        },
{
    if let Some(ev) = probe.ev_bits {
        let b = ev@[0];
        assert((b / 2) % 2 == 1 <==> (b >> 1u8) & 1 == 1) by (bit_vector);
    }
    if let Some(keys) = probe.key_bits {
        let b = keys@[3];
        assert((b / 64) % 2 == 1 <==> (b >> 6u8) & 1 == 1) by (bit_vector);
        assert((b / 16) % 2 == 1 <==> (b >> 4u8) & 1 == 1) by (bit_vector);
    }
}

/// Whether the bit with this number is there and set; eight are in a byte, the
/// least significant first.
pub open spec fn key_is_set(bytes: Seq<u8>, number: int) -> bool {
    number / 8 < bytes.len() && (bytes[number / 8] >> ((number % 8) as u8)) & 1 == 1
}

/// Every input device that is a keyboard is found, in the order of the
/// devices, and no other is.
pub proof fn law_input_keyboards(probes: Seq<EvdevProbe>, probe: EvdevProbe)
    ensures
        ({
            let before = evdev_keyboards(probes, probes.len() as int);
            let after = evdev_keyboards(probes.push(probe), (probes.len() + 1) as int);
            if is_keyboard(probe) {
                after == before.push(
                    DeviceView {
                        kind: DeviceKind::Keyboard,
                        path: "input://"@ + shown_name(probe.name),
                    },
                )
            } else {
                after == before
            }
        }),
        evdev_keyboards(Seq::empty(), 0).len() == 0,
{
    lemma_evdev_front(probes, probe, probes.len() as int);
}

proof fn lemma_evdev_front(probes: Seq<EvdevProbe>, probe: EvdevProbe, n: int)
    requires
        0 <= n <= probes.len(),
    ensures
        evdev_keyboards(probes.push(probe), n) == evdev_keyboards(probes, n),
    decreases n,
{
    if n > 0 {
        lemma_evdev_front(probes, probe, n - 1);
        assert(probes.push(probe)[n - 1] == probes[n - 1]);
    }
}

/// The name of an input device is the text before the first zero byte; without
/// a name or a zero byte it is `keyboard`.
pub proof fn law_device_names(name: Vec<u8>, text: Seq<u8>, rest: Seq<u8>)
    requires
        forall|i: int| 0 <= i < text.len() ==> text[i] != 0,
    ensures
        name@ == text + seq![0u8] + rest ==> shown_name(Some(name)) == lossy_text(text),
        name@ == text ==> shown_name(Some(name)) == "keyboard"@,
        shown_name(None) == "keyboard"@,
{
    lemma_zero_position(name@, 0);
    let at = zero_position(name@, 0);
    if name@ == text + seq![0u8] + rest {
        assert(name@[text.len() as int] == 0);
        if at < text.len() {
            assert(name@[at] == text[at]);
        }
        if at > text.len() {
            assert(name@[text.len() as int] != 0);
        }
        assert(name@.take(at) =~= text);
    }
}

proof fn lemma_zero_position(bytes: Seq<u8>, i: int)
    requires
        0 <= i <= bytes.len(),
    ensures
        i <= zero_position(bytes, i) <= bytes.len(),
        zero_position(bytes, i) < bytes.len() ==> bytes[zero_position(bytes, i)] == 0,
        forall|k: int| i <= k < zero_position(bytes, i) ==> bytes[k] != 0,
    decreases bytes.len() - i,
{
    if i < bytes.len() && bytes[i] != 0 {
        lemma_zero_position(bytes, i + 1);
    }
}

/// Keyboards of a list are found one for one, by their name or, without one, by
/// their number. Serial ports are found one for one, by their path.
pub proof fn law_lists_one_for_one(names: Vec<Option<String>>, ports: Seq<String>, i: int)
    ensures
        ({
            let keyboards = keyboards_in(KeyboardScan::Named(names));
            let serials = serials_in(ports);
            &&& keyboards.len() == names@.len() && serials.len() == ports.len()
            &&& 0 <= i < names@.len() ==> keyboards[i].kind == DeviceKind::Keyboard
                && keyboards[i].path == "keyboard://"@ + (match names@[i] {
                Some(name) => name@,
                None => decimal(i as nat),
            })
            &&& 0 <= i < ports.len() ==> serials[i].kind == DeviceKind::Serial && serials[i].path
                == ports[i]@
        }),
{
}

/// A line of a report names a keyboard if the word occurs in it, whatever
/// stands around it, unless the line is a heading.
pub proof fn law_keyboard_lines(before: Seq<char>, after: Seq<char>, lower: Seq<char>)
    ensures
        ({
            let line = before + "keyboard"@ + after;
            names_keyboard(line) <==> line != "keyboard:"@ && line != "keyboards:"@ && line
                != "keyboards"@
        }),
        names_keyboard(lower) ==> occurs_in("keyboard"@, lower),
{
    law_occurrences(before, "keyboard"@, after, lower);
}

/// Every line of a report that names a keyboard is one, without the white space
/// around it, in the order of the lines.
pub proof fn law_reported_keyboards(all: Seq<Seq<char>>, line: Seq<char>)
    ensures
        ({
            let before = reported_keyboards(all, all.len() as int);
            let after = reported_keyboards(all.push(line), (all.len() + 1) as int);
            if names_keyboard(lowercased(trimmed(line))) {
                after == before.push(
                    DeviceView {
                        kind: DeviceKind::Keyboard,
                        path: "macos-keyboard://"@ + trimmed(line),
                    },
                )
            } else {
                after == before
            }
        }),
        reported_keyboards(Seq::empty(), 0).len() == 0,
{
    lemma_reported_front(all, line, all.len() as int);
}

proof fn lemma_reported_front(all: Seq<Seq<char>>, line: Seq<char>, n: int)
    requires
        0 <= n <= all.len(),
    ensures
        reported_keyboards(all.push(line), n) == reported_keyboards(all, n),
    decreases n,
{
    if n > 0 {
        lemma_reported_front(all, line, n - 1);
        assert(all.push(line)[n - 1] == all[n - 1]);
    }
}

/// What stands behind `Host` is a host, without the white space around it. The
/// star that stands for all hosts is none, and nothing is none.
pub proof fn law_ssh_hosts(text: Seq<char>, all: Seq<Seq<char>>, line: Seq<char>)
    ensures
        ssh_host(None) is None,
        ssh_host(Some(text)) is None <==> trimmed(text).len() == 0 || trimmed(text) == seq!['*'],
        ssh_host(Some(text)) matches Some(d) ==> d.kind == DeviceKind::Ssh && d.path == "ssh://"@
            + trimmed(text),
        ({
            let before = ssh_hosts(all, all.len() as int);
            let after = ssh_hosts(all.push(line), (all.len() + 1) as int);
            match ssh_host(first_group(r"(?i)^host\s+(.+)"@, trimmed_start(line))) {
                Some(d) => after == before.push(d),
                None => after == before,
            }
        }),
        ssh_hosts(Seq::empty(), 0).len() == 0,
        ssh_in(None).len() == 0,
{
    reveal_strlit("*");
    assert("*"@ =~= seq!['*']);
    lemma_ssh_front(all, line, all.len() as int);
}

proof fn lemma_ssh_front(all: Seq<Seq<char>>, line: Seq<char>, n: int)
    requires
        0 <= n <= all.len(),
    ensures
        ssh_hosts(all.push(line), n) == ssh_hosts(all, n),
    decreases n,
{
    if n > 0 {
        lemma_ssh_front(all, line, n - 1);
        assert(all.push(line)[n - 1] == all[n - 1]);
    }
}

/// The devices of a report and of a configuration are those of all its lines.
pub proof fn law_whole_texts(bytes: Vec<u8>, config: String)
    ensures
        keyboards_in(KeyboardScan::Report(bytes)) == reported_keyboards(
            lines_of(lossy_text(bytes@)),
            lines_of(lossy_text(bytes@)).len() as int,
        ),
        ssh_in(Some(config)) == ssh_hosts(
            lines_of(config@),
            lines_of(config@).len() as int,
        ),
{
}

/// Pairs of bytes are units, the less significant byte first.
pub proof fn law_units(bytes: Seq<u8>, i: int)
    requires
        0 <= i < bytes.len() / 2,
    ensures
        utf16_units(bytes).len() == bytes.len() / 2,
        utf16_units(bytes)[i] == bytes[2 * i] + 256 * bytes[2 * i + 1],
{
}

/// Zero characters at the end of a name do not matter, and others stay.
pub proof fn law_zeros_at_the_end(s: Seq<char>)
    ensures
        without_zeros(s.push('\0')) == without_zeros(s),
        s.len() == 0 || s.last() != '\0' ==> without_zeros(s) == s,
{
    assert(s.push('\0').drop_last() =~= s);
}

/// The first property that is there and holds a name gives the name.
pub proof fn law_first_property(properties: Seq<Option<Vec<u8>>>, i: int)
    requires
        0 <= i < properties.len(),
    ensures
        first_name(properties, properties.len() as int) is None,
        ({
            let here = match properties[i] {
                Some(bytes) => if bytes@.len() < 2 || without_zeros(
                    utf16_text(utf16_units(bytes@)),
                ).len() == 0 {
                    None
                } else {
                    Some(without_zeros(utf16_text(utf16_units(bytes@))))
                },
                None => None,
            };
            first_name(properties, i) == if here is Some {
                here
            } else {
                first_name(properties, i + 1)
            }
        }),
{
}

/// Text in UTF-16 is read unit by unit: one that is no half of a pair is its
/// own character, two halves in their order are one character beyond those,
/// and a half alone is replaced.
pub proof fn law_utf16(unit: u16, next: u16, rest: Seq<u16>)
    ensures
        utf16_text(Seq::empty()).len() == 0,
        unit < 0xD800 || unit > 0xDFFF ==> utf16_text(seq![unit] + rest) == seq![
            (unit as u32) as char,
        ] + utf16_text(rest),
        0xD800 <= unit < 0xDC00 && 0xDC00 <= next <= 0xDFFF ==> utf16_text(
            seq![unit, next] + rest,
        ) == seq![(0x1_0000 + (unit - 0xD800) * 1024 + (next - 0xDC00)) as u32 as char]
            + utf16_text(rest),
        0xDC00 <= unit <= 0xDFFF ==> utf16_text(seq![unit] + rest) == seq!['\u{FFFD}']
            + utf16_text(rest),
        0xD800 <= unit < 0xDC00 && (rest.len() == 0 || rest[0] < 0xDC00 || rest[0] > 0xDFFF)
            ==> utf16_text(seq![unit] + rest) == seq!['\u{FFFD}'] + utf16_text(rest),
{
    let one = seq![unit] + rest;
    let two = seq![unit, next] + rest;
    assert(one.skip(1) =~= rest);
    assert(two.skip(2) =~= rest);
    if rest.len() > 0 {
        assert(one[1] == rest[0]);
    }
}

} // verus!
