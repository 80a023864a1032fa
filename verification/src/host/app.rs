//! The command line of the host: its commands, the choice of devices, and
//! what it tells the user.
use crate::host::detect::{lowercased, to_lowercase};
use crate::host::key::KeyCode;
use crate::host::registry::{device_views, mapping_views, DeviceInfo, DeviceKind, DeviceView};
use crate::host::ui::render::{pad, padded};
use crate::scan::{
    fields, fields_of, number_of, parse_number, text_views, trim, trimmed,
};
use crate::text::{chars_of, decimal, decimal_string, push_decimal, same_text, string_of};
use vstd::prelude::*;

verus! {

/// The port of the first device.
pub const BASE_PORT: u16 = 10000;

/// What the command line asks for.
#[derive(Debug, Clone, Copy, PartialEq, Eq, Structural)]
pub struct Args {
    pub command: Command,
    pub verbose: bool,
}

/// A command.
#[derive(Debug, Clone, Copy, PartialEq, Eq, Structural)]
pub enum Command {
    Run,
    List,
}

/// How reading the command line went.
#[derive(Debug)]
pub enum Parsed {
    /// A command.
    Args(Args),
    /// The user wants to read how the program is used.
    Help,
    /// The program knows no such option.
    UnknownOption(String),
    /// There is no command.
    NoCommand,
}

/// The mathematical content of a [`Parsed`].
pub enum ParsedView {
    Args(Args),
    Help,
    UnknownOption(Seq<char>),
    NoCommand,
}

impl View for Parsed {
    type V = ParsedView;

    open spec fn view(&self) -> ParsedView {
        match self {
            Parsed::Args(a) => ParsedView::Args(*a),
            Parsed::Help => ParsedView::Help,
            Parsed::UnknownOption(text) => ParsedView::UnknownOption(text@),
            Parsed::NoCommand => ParsedView::NoCommand,
        }
    }
}

/// What the arguments from `i` on ask for, given what those before did. The
/// first request for help and the first unknown option end the reading; the
/// last command counts.
pub open spec fn parsed_from(
    args: Seq<String>,
    i: int,
    command: Option<Command>,
    verbose: bool,
) -> ParsedView
    decreases args.len() - i,
{
    if 0 <= i < args.len() {
        let arg = args[i]@;
        if arg == "help"@ || arg == "--help"@ || arg == "-h"@ {
            ParsedView::Help
        } else if arg == "--verbose"@ || arg == "-v"@ {
            parsed_from(args, i + 1, command, true)
        } else if arg == "run"@ {
            parsed_from(args, i + 1, Some(Command::Run), verbose)
        } else if arg == "list"@ {
            parsed_from(args, i + 1, Some(Command::List), verbose)
        } else {
            ParsedView::UnknownOption(arg)
        }
    } else {
        match command {
            Some(command) => ParsedView::Args(Args { command, verbose }),
            None => ParsedView::NoCommand,
        }
    }
}

/// Reads the arguments of the program, without its name.
pub fn parse(args: &[String]) -> (r: Parsed)
    ensures
        r@ == parsed_from(args@, 0, None, false),
{
    let mut verbose = false;
    let mut command: Option<Command> = None;
    let mut i: usize = 0;
    while i < args.len()
        invariant
            i <= args.len(),
            parsed_from(args@, i as int, command, verbose) == parsed_from(args@, 0, None, false),
        decreases args.len() - i,
    {
        let arg = args[i].as_str();
        if same_text(arg, "help") || same_text(arg, "--help") || same_text(arg, "-h") {
            return Parsed::Help;
        } else if same_text(arg, "--verbose") || same_text(arg, "-v") {
            verbose = true;
        } else if same_text(arg, "run") {
            command = Some(Command::Run);
        } else if same_text(arg, "list") {
            command = Some(Command::List);
        } else {
            return Parsed::UnknownOption(args[i].clone());
        }
        i = i + 1;
    }
    match command {
        Some(command) => Parsed::Args(Args { command, verbose }),
        None => Parsed::NoCommand,
    }
}

/// The search for free ports: those found, and the next one to try.
#[derive(Debug)]
pub struct PortSearch {
    pub found: Vec<u16>,
    pub next: u16,
    pub wanted: usize,
}

/// The port that is tried after `port`.
pub open spec fn port_after(port: u16) -> u16 {
    if port == u16::MAX {
        0
    } else {
        (port + 1) as u16
    }
}

impl PortSearch {
    /// A search for so many ports, from `start` on.
    pub fn new(start: u16, wanted: usize) -> (r: PortSearch)
        ensures
            r.found@ == Seq::<u16>::empty(),
            r.next == start,
            r.wanted == wanted,
    {
        PortSearch { found: Vec::new(), next: start, wanted }
    }

    /// The port to try, until enough were found.
    pub fn candidate(&self) -> (r: Option<u16>)
        ensures
            r == if self.found@.len() < self.wanted {
                Some(self.next)
            } else {
                None
            },
    {
        if self.found.len() < self.wanted {
            Some(self.next)
        } else {
            None
        }
    }

    /// The port was tried: a free one is found, one that is in use is skipped.
    pub fn tried(&mut self, free: bool)
        ensures
            final(self).found@ == if free {
                old(self).found@.push(old(self).next)
            } else {
                old(self).found@
            },
            final(self).next == port_after(old(self).next),
            final(self).wanted == old(self).wanted,
    {
        if free {
            self.found.push(self.next);
        }
        self.next = self.next.wrapping_add(1);
    }
}

/// What a search from `start` on has found after some tries, and the port it
/// tries next.
pub open spec fn search_after(start: u16, tries: Seq<bool>) -> (Seq<u16>, u16)
    decreases tries.len(),
{
    if tries.len() == 0 {
        (Seq::empty(), start)
    } else {
        let (found, next) = search_after(start, tries.drop_last());
        (
            if tries.last() {
                found.push(next)
            } else {
                found
            },
            port_after(next),
        )
    }
}

/// As long as no port is tried twice, the ports that a search finds differ,
/// count up from the start, and are those that were free.
pub proof fn law_found_ports(start: u16, tries: Seq<bool>)
    requires
        start + tries.len() <= 0x1_0000,
    ensures
        ({
            let found = search_after(start, tries).0;
            &&& search_after(start, tries).1 == (start + tries.len()) % 0x1_0000
            &&& forall|i: int, j: int|
                0 <= i < j < found.len() ==> (#[trigger] found[i]) < (#[trigger] found[j])
            &&& forall|k: int|
                0 <= k < tries.len() ==> (#[trigger] tries[k] <==> found.contains(
                    (start + k) as u16,
                ))
            &&& forall|i: int|
                0 <= i < found.len() ==> start <= #[trigger] found[i] < start + tries.len()
        }),
    decreases tries.len(),
{
    if tries.len() > 0 {
        let n = tries.len() - 1;
        let earlier = search_after(start, tries.drop_last()).0;
        let found = search_after(start, tries).0;
        law_found_ports(start, tries.drop_last());
        assert forall|k: int| 0 <= k < tries.len() implies (#[trigger] tries[k] <==> found.contains(
            (start + k) as u16,
        )) by {
            let port = (start + k) as u16;
            if k < n {
                assert(tries.drop_last()[k] == tries[k]);
                if earlier.contains(port) {
                    let at = choose|at: int| 0 <= at < earlier.len() && earlier[at] == port;
                    assert(found[at] == port);
                }
                if found.contains(port) {
                    let at = choose|at: int| 0 <= at < found.len() && found[at] == port;
                    if at < earlier.len() {
                        assert(earlier[at] == port);
                    }
                }
            } else {
                if tries[k] {
                    assert(found.last() == port);
                } else if found.contains(port) {
                    let at = choose|at: int| 0 <= at < found.len() && found[at] == port;
                    assert(earlier[at] < start + n);
                }
            }
        }
    }
}

/// The choice of devices on the terminal.
#[derive(Debug)]
pub struct Selection {
    pub selected: Vec<bool>,
    pub cursor: usize,
    pub done: bool,
}

/// The mathematical content of a [`Selection`].
#[verifier::ext_equal]
pub struct SelectionView {
    pub selected: Seq<bool>,
    pub cursor: int,
    pub done: bool,
}

impl View for Selection {
    type V = SelectionView;

    open spec fn view(&self) -> SelectionView {
        SelectionView {
            selected: self.selected@,
            cursor: self.cursor as int,
            done: self.done,
        }
    }
}

/// The cursor is on one of the devices.
pub open spec fn selection_ok(v: SelectionView) -> bool {
    0 <= v.cursor < v.selected.len()
}

/// Whether any device is chosen.
pub open spec fn any_chosen(selected: Seq<bool>) -> bool {
    exists|i: int| 0 <= i < selected.len() && #[trigger] selected[i]
}

/// What a key does. With enter and nothing chosen, the device under the cursor
/// is chosen; escape chooses nothing.
pub open spec fn after_choice_key(v: SelectionView, key: KeyCode) -> SelectionView {
    match key {
        KeyCode::Up => if v.cursor > 0 {
            SelectionView { cursor: v.cursor - 1, ..v }
        } else {
            v
        },
        KeyCode::Down => if v.cursor + 1 < v.selected.len() {
            SelectionView { cursor: v.cursor + 1, ..v }
        } else {
            v
        },
        KeyCode::Char(' ') => SelectionView {
            selected: v.selected.update(v.cursor, !v.selected[v.cursor]),
            ..v
        },
        KeyCode::Enter | KeyCode::Char('\r') | KeyCode::Char('\n') => SelectionView {
            selected: if any_chosen(v.selected) {
                v.selected
            } else {
                v.selected.update(v.cursor, true)
            },
            done: true,
            ..v
        },
        KeyCode::Esc => SelectionView {
            selected: Seq::new(v.selected.len(), |i: int| false),
            done: true,
            ..v
        },
        _ => v,
    }
}

/// The number of devices chosen among the first `n`.
pub open spec fn chosen_count(selected: Seq<bool>, n: int) -> int
    decreases n,
{
    if n <= 0 {
        0
    } else {
        chosen_count(selected, n - 1) + (if selected[n - 1] {
            1int
        } else {
            0int
        })
    }
}

/// The devices chosen among the first `n`.
pub open spec fn chosen(devices: Seq<DeviceView>, selected: Seq<bool>, n: int) -> Seq<DeviceView>
    decreases n,
{
    if n <= 0 {
        Seq::empty()
    } else if selected[n - 1] {
        chosen(devices, selected, n - 1).push(devices[n - 1])
    } else {
        chosen(devices, selected, n - 1)
    }
}

/// Appends a copy of a device.
fn push_copy(out: &mut Vec<DeviceInfo>, device: &DeviceInfo)
    ensures
        device_views(final(out)@) == device_views(old(out)@).push(device@),
{
    let ghost before = device_views(out@);
    let copy = device.duplicate();
    let ghost d = copy@;
    out.push(copy);
    assert(device_views(out@) =~= before.push(d));
}

impl Selection {
    /// The invariant of a choice.
    pub open spec fn wf(&self) -> bool {
        selection_ok(self@)
    }

    /// A choice among so many devices, none of which is chosen yet.
    pub fn new(devices: usize) -> (r: Selection)
        requires
            devices > 0,
        ensures
            r@ == (SelectionView {
                selected: Seq::new(devices as nat, |i: int| false),
                cursor: 0,
                done: false,
            }),
            r.wf(),
    {
        let selected: Vec<bool> = vec![false; devices];
        assert(selected@ =~= Seq::new(devices as nat, |i: int| false));
        Selection { selected, cursor: 0, done: false }
    }

    /// Whether any device is chosen.
    pub fn any(&self) -> (r: bool)
        ensures
            r == any_chosen(self@.selected),
    {
        let mut i: usize = 0;
        while i < self.selected.len()
            invariant
                i <= self.selected.len(),
                forall|k: int| 0 <= k < i ==> !(#[trigger] self.selected@[k]),
            decreases self.selected.len() - i,
        {
            if self.selected[i] {
                return true;
            }
            i = i + 1;
        }
        false
    }

    /// How many devices are chosen.
    pub fn count(&self) -> (r: usize)
        ensures
            r == chosen_count(self@.selected, self@.selected.len() as int),
            r <= self@.selected.len(),
    {
        let mut n: usize = 0;
        let mut i: usize = 0;
        while i < self.selected.len()
            invariant
                i <= self.selected.len(),
                n <= i,
                n == chosen_count(self.selected@, i as int),
            decreases self.selected.len() - i,
        {
            if self.selected[i] {
                n = n + 1;
            }
            i = i + 1;
        }
        n
    }

    /// Serves a key.
    pub fn handle_key(&mut self, key: KeyCode)
        requires
            old(self).wf(),
        ensures
            final(self)@ == after_choice_key(old(self)@, key),
            final(self).wf(),
    {
        match key {
            KeyCode::Up => {
                if self.cursor > 0 {
                    self.cursor = self.cursor - 1;
                }
            },
            KeyCode::Down => {
                if self.cursor < self.selected.len() - 1 {
                    self.cursor = self.cursor + 1;
                }
            },
            KeyCode::Char(' ') => {
                let flipped = !self.selected[self.cursor];
                self.selected.set(self.cursor, flipped);
            },
            KeyCode::Enter | KeyCode::Char('\r') | KeyCode::Char('\n') => {
                if !self.any() {
                    self.selected.set(self.cursor, true);
                }
                self.done = true;
            },
            KeyCode::Esc => {
                let none: Vec<bool> = vec![false; self.selected.len()];
                assert(none@ =~= Seq::new(self.selected@.len(), |i: int| false));
                self.selected = none;
                self.done = true;
            },
            _ => {},
        }
    }

    /// The chosen devices.
    pub fn devices(&self, all: &[DeviceInfo]) -> (r: Vec<DeviceInfo>)
        requires
            all@.len() == self@.selected.len(),
        ensures
            device_views(r@) == chosen(
                device_views(all@),
                self@.selected,
                all@.len() as int,
            ),
    {
        let mut out: Vec<DeviceInfo> = Vec::new();
        let mut i: usize = 0;
        assert(device_views(out@) =~= Seq::<DeviceView>::empty());
        while i < all.len()
            invariant
                i <= all.len(),
                all@.len() == self.selected@.len(),
                device_views(out@) == chosen(
                    device_views(all@),
                    self.selected@,
                    i as int,
                ),
            decreases all.len() - i,
        {
            if self.selected[i] {
                push_copy(&mut out, &all[i]);
            }
            i = i + 1;
        }
        out
    }
}

/// Enter always leads to a choice of at least one device, escape to none.
pub proof fn law_enter_chooses(v: SelectionView)
    requires
        selection_ok(v),
    ensures
        any_chosen(after_choice_key(v, KeyCode::Enter).selected),
        after_choice_key(v, KeyCode::Enter).done,
        !any_chosen(after_choice_key(v, KeyCode::Esc).selected),
        after_choice_key(v, KeyCode::Esc).done,
{
    let after = after_choice_key(v, KeyCode::Enter);
    if !any_chosen(v.selected) {
        assert(after.selected[v.cursor]);
    }
}

/// As many devices come out as were chosen.
pub proof fn law_chosen_count(devices: Seq<DeviceView>, selected: Seq<bool>, n: int)
    requires
        0 <= n <= devices.len(),
        devices.len() == selected.len(),
    ensures
        chosen(devices, selected, n).len() == chosen_count(selected, n),
    decreases n,
{
    if n > 0 {
        law_chosen_count(devices, selected, n - 1);
    }
}

/// The name of a kind in small letters, as lists show it.
pub open spec fn kind_label(kind: DeviceKind) -> Seq<char> {
    match kind {
        DeviceKind::Camera => "camera"@,
        DeviceKind::Keyboard => "keyboard"@,
        DeviceKind::Serial => "serial"@,
        DeviceKind::Ssh => "ssh"@,
        DeviceKind::Unknown => "unknown"@,
    }
}

/// The name of a kind in small letters.
pub fn small_kind(kind: DeviceKind) -> (r: &'static str)
    ensures
        r@ == kind_label(kind),
{
    match kind {
        DeviceKind::Camera => "camera",
        DeviceKind::Keyboard => "keyboard",
        DeviceKind::Serial => "serial",
        DeviceKind::Ssh => "ssh",
        DeviceKind::Unknown => "unknown",
    }
}

/// The line of a device in a list.
pub fn list_line(device: &DeviceInfo) -> (r: String)
    ensures
        r@ == "  "@ + padded(kind_label(device@.kind), 8) + "  ←  "@ + device@.path,
{
    let mut out = "  ".to_owned();
    let kind = pad(small_kind(device.kind), 8);
    out.push_str(kind.as_str());
    out.push_str("  ←  ");
    out.push_str(device.path.as_str());
    out
}

/// The line of a device in the choice on the terminal.
pub fn choice_line(device: &DeviceInfo, selected: bool) -> (r: String)
    ensures
        r@ == "  "@ + (if selected {
            "◼"@
        } else {
            "◻"@
        }) + "  "@ + padded(kind_label(device@.kind), 8) + "  ←  "@ + device@.path,
{
    let mut out = "  ".to_owned();
    if selected {
        out.push_str("◼");
    } else {
        out.push_str("◻");
    }
    out.push_str("  ");
    let kind = pad(small_kind(device.kind), 8);
    out.push_str(kind.as_str());
    out.push_str("  ←  ");
    out.push_str(device.path.as_str());
    out
}

/// The line of a device in the choice by number.
pub fn numbered_line(device: &DeviceInfo, i: usize) -> (r: String)
    ensures
        r@ == "  ["@ + decimal(i as nat) + "] "@ + kind_label(device@.kind) + "  ←  "@
            + device@.path,
{
    let mut out = "  [".to_owned();
    push_decimal(&mut out, i as u64);
    out.push_str("] ");
    out.push_str(small_kind(device.kind));
    out.push_str("  ←  ");
    out.push_str(device.path.as_str());
    out
}

/// The line under the choice on the terminal.
pub fn choice_footer(count: usize) -> (r: String)
    requires
        BASE_PORT + count <= 0x1_0000,
    ensures
        r@ == if count > 0 {
            "\n  "@ + decimal(count as nat) + " device(s) selected  →  ports "@ + decimal(
                BASE_PORT as nat,
            ) + "-"@ + decimal((BASE_PORT + count - 1) as nat) + "\n"@
        } else {
            "\n  0 devices selected\n"@
        },
{
    if count > 0 {
        let mut out = "\n  ".to_owned();
        push_decimal(&mut out, count as u64);
        out.push_str(" device(s) selected  →  ports ");
        push_decimal(&mut out, BASE_PORT as u64);
        out.push_str("-");
        push_decimal(&mut out, BASE_PORT as u64 + count as u64 - 1);
        out.push_str("\n");
        out
    } else {
        "\n  0 devices selected\n".to_owned()
    }
}

/// The devices that the first `n` fields name by their numbers. Fields that
/// name no device are passed over.
pub open spec fn named_devices(
    devices: Seq<DeviceView>,
    parts: Seq<Seq<char>>,
    n: int,
) -> Seq<DeviceView>
    decreases n,
{
    if n <= 0 {
        Seq::empty()
    } else {
        let earlier = named_devices(devices, parts, n - 1);
        match number_of(trimmed(parts[n - 1]), usize::MAX as nat) {
            Some(idx) => if idx < devices.len() {
                earlier.push(devices[idx as int])
            } else {
                earlier
            },
            None => earlier,
        }
    }
}

/// The devices that an answer in small letters chooses: all of them, or those
/// with these numbers.
pub open spec fn answered(devices: Seq<DeviceView>, answer: Seq<char>) -> Seq<DeviceView> {
    if answer.len() == 0 {
        Seq::empty()
    } else if answer == "all"@ {
        devices
    } else {
        named_devices(devices, fields_of(answer, ','), fields_of(answer, ',').len() as int)
    }
}

/// The devices that an answer in small letters chooses.
pub fn pick_devices(answer: &str, all: &[DeviceInfo]) -> (r: Vec<DeviceInfo>)
    ensures
        device_views(r@) == answered(device_views(all@), answer@),
{
    let mut out: Vec<DeviceInfo> = Vec::new();
    let ghost devices = device_views(all@);
    assert(device_views(out@) =~= Seq::<DeviceView>::empty());
    if answer.is_empty() {
        return out;
    }
    if same_text(answer, "all") {
        let mut i: usize = 0;
        assert(devices.take(0) =~= Seq::<DeviceView>::empty());
        while i < all.len()
            invariant
                i <= all.len(),
                devices == device_views(all@),
                device_views(out@) == devices.take(i as int),
            decreases all.len() - i,
        {
            push_copy(&mut out, &all[i]);
            i = i + 1;
            assert(device_views(out@) =~= devices.take(i as int));
        }
        assert(devices.take(i as int) =~= devices);
        return out;
    }
    let chars = chars_of(answer);
    let parts = fields(chars.as_slice(), ',');
    let ghost views = fields_of(answer@, ',');
    let mut i: usize = 0;
    while i < parts.len()
        invariant
            i <= parts.len(),
            text_views(parts@) == views,
            devices == device_views(all@),
            device_views(out@) == named_devices(devices, views, i as int),
        decreases parts.len() - i,
    {
        assert(views[i as int] == parts@[i as int]@);
        if let Some(idx) = parse_number(trim(parts[i].as_slice()), usize::MAX as u64) {
            if idx < all.len() as u64 {
                push_copy(&mut out, &all[idx as usize]);
            }
        }
        i = i + 1;
    }
    out
}

/// The devices that a line of input chooses: white space around it and the
/// size of letters do not matter.
pub fn select_by_line(line: &str, all: &[DeviceInfo]) -> (r: Vec<DeviceInfo>)
    ensures
        device_views(r@) == answered(device_views(all@), lowercased(trimmed(line@))),
{
    let chars = chars_of(line);
    let text = string_of(trim(chars.as_slice()));
    let lower = to_lowercase(text.as_str());
    pick_devices(lower.as_str(), all)
}

/// Ports and devices side by side, as far as both go.
pub fn port_mapping(ports: &[u16], devices: &[DeviceInfo]) -> (r: Vec<(u16, DeviceInfo)>)
    ensures
        mapping_views(r@) == Seq::new(
            if ports@.len() <= devices@.len() {
                ports@.len()
            } else {
                devices@.len()
            },
            |i: int| (ports@[i], devices@[i]@),
        ),
{
    let mut out: Vec<(u16, DeviceInfo)> = Vec::new();
    let mut i: usize = 0;
    while i < ports.len() && i < devices.len()
        invariant
            i <= ports.len(),
            i <= devices.len(),
            mapping_views(out@) == Seq::new(i as nat, |k: int| (ports@[k], devices@[k]@)),
        decreases ports.len() - i,
    {
        let ghost before = mapping_views(out@);
        let copy = devices[i].duplicate();
        let ghost pair = (ports@[i as int], copy@);
        out.push((ports[i], copy));
        assert(mapping_views(out@) =~= before.push(pair));
        i = i + 1;
        assert(mapping_views(out@) =~= Seq::new(i as nat, |k: int| (ports@[k], devices@[k]@)));
    }
    out
}

/// The line of an offered device.
pub fn offer_line(port: u16, device: &DeviceInfo) -> (r: String)
    ensures
        r@ == "  port "@ + decimal(port as nat) + "   "@ + padded(kind_label(device@.kind), 8)
            + "  ←  "@ + device@.path,
{
    let mut out = "  port ".to_owned();
    push_decimal(&mut out, port as u64);
    out.push_str("   ");
    out.push_str(pad(small_kind(device.kind), 8).as_str());
    out.push_str("  ←  ");
    out.push_str(device.path.as_str());
    out
}

/// The line that says how to reach an offered device.
pub fn tip_line(port: u16, device: &DeviceInfo) -> (r: String)
    ensures
        r@ == "  →  <windows-ip>:"@ + decimal(port as nat) + "   ("@ + device@.path + ")"@,
{
    let mut out = "  →  <windows-ip>:".to_owned();
    push_decimal(&mut out, port as u64);
    out.push_str("   (");
    out.push_str(device.path.as_str());
    out.push_str(")");
    out
}

/// What a user is told when a peer connects to a device.
pub open spec fn hint_text(kind: DeviceKind) -> Seq<char> {
    match kind {
        DeviceKind::Camera => "  ┌─ Camera (read-only) ─────────────────────────────────┐\n  │  Linux will receive raw image frames via read().      │\n  │  Write is not supported — cameras don't accept data.  │\n  └───────────────────────────────────────────────────────┘"@,
        DeviceKind::Serial => "  ┌─ Serial (read + write) ──────────────────────────────┐\n  │  Linux read()  ←  serial port RX data                │\n  │  Linux write() →  serial port TX data                │\n  │  Baud rate: 115200                                   │\n  └──────────────────────────────────────────────────────┘"@,
        DeviceKind::Keyboard => "  ┌─ Keyboard (read + write) ────────────────────────────┐\n  │  Linux read()  ←  captured keystrokes on this host   │\n  │  Linux write() →  inject keystrokes on this host     │\n  │  Try: echo 'notepad' | ncdd --write <port>           │\n  └──────────────────────────────────────────────────────┘"@,
        DeviceKind::Ssh => "  ┌─ SSH (read + write) ─────────────────────────────────┐\n  │  Linux read()  ←  remote command output              │\n  │  Linux write() →  send commands to remote shell      │\n  │  (not yet implemented — file-backed test only)       │\n  └──────────────────────────────────────────────────────┘"@,
        DeviceKind::Unknown => ""@,
    }
}

/// What a user is told when a peer connects to a device.
pub fn device_hint(kind: DeviceKind) -> (r: &'static str)
    ensures
        r@ == hint_text(kind),
{
    match kind {
        DeviceKind::Camera => "  ┌─ Camera (read-only) ─────────────────────────────────┐\n  │  Linux will receive raw image frames via read().      │\n  │  Write is not supported — cameras don't accept data.  │\n  └───────────────────────────────────────────────────────┘",
        DeviceKind::Serial => "  ┌─ Serial (read + write) ──────────────────────────────┐\n  │  Linux read()  ←  serial port RX data                │\n  │  Linux write() →  serial port TX data                │\n  │  Baud rate: 115200                                   │\n  └──────────────────────────────────────────────────────┘",
        DeviceKind::Keyboard => "  ┌─ Keyboard (read + write) ────────────────────────────┐\n  │  Linux read()  ←  captured keystrokes on this host   │\n  │  Linux write() →  inject keystrokes on this host     │\n  │  Try: echo 'notepad' | ncdd --write <port>           │\n  └──────────────────────────────────────────────────────┘",
        DeviceKind::Ssh => "  ┌─ SSH (read + write) ─────────────────────────────────┐\n  │  Linux read()  ←  remote command output              │\n  │  Linux write() →  send commands to remote shell      │\n  │  (not yet implemented — file-backed test only)       │\n  └──────────────────────────────────────────────────────┘",
        DeviceKind::Unknown => "",
    }
}

/// What a user is told about seeing the data.
pub open spec fn verbose_text(verbose: bool) -> Seq<char> {
    if verbose {
        "  [verbose on — data flow will be shown below]\n  → host = data received from Linux\n  host → = data sent to Linux\n"@
    } else {
        "  [add --verbose to see data flow in real time]"@
    }
}

/// What a user is told about seeing the data.
pub fn verbose_hint(verbose: bool) -> (r: &'static str)
    ensures
        r@ == verbose_text(verbose),
{
    if verbose {
        "  [verbose on — data flow will be shown below]\n  → host = data received from Linux\n  host → = data sent to Linux\n"
    } else {
        "  [add --verbose to see data flow in real time]"
    }
}

/// Exactly the checked devices come out, in the order of the list: each stands
/// behind as many others as are checked before it.
pub proof fn law_chosen_are_the_checked(
    devices: Seq<DeviceView>,
    selected: Seq<bool>,
    n: int,
    i: int,
)
    requires
        0 <= i < n <= devices.len(),
        devices.len() == selected.len(),
    ensures
        0 <= chosen_count(selected, i) <= i,
        chosen_count(selected, i + 1) == chosen_count(selected, i) + (if selected[i] {
            1int
        } else {
            0int
        }),
        selected[i] ==> chosen_count(selected, i) < chosen(devices, selected, n).len() && chosen(
            devices,
            selected,
            n,
        )[chosen_count(selected, i)] == devices[i],
    decreases n,
{
    lemma_count_bounds(selected, i);
    law_chosen_count(devices, selected, n - 1);
    law_chosen_count(devices, selected, n);
    if i < n - 1 {
        law_chosen_are_the_checked(devices, selected, n - 1, i);
    }
}

proof fn lemma_count_bounds(selected: Seq<bool>, n: int)
    requires
        0 <= n <= selected.len(),
    ensures
        0 <= chosen_count(selected, n) <= n,
    decreases n,
{
    if n > 0 {
        lemma_count_bounds(selected, n - 1);
    }
}

/// Every device that comes out was checked.
pub proof fn law_only_checked_are_chosen(
    devices: Seq<DeviceView>,
    selected: Seq<bool>,
    n: int,
    k: int,
)
    requires
        0 <= n <= devices.len(),
        devices.len() == selected.len(),
        0 <= k < chosen(devices, selected, n).len(),
    ensures
        exists|i: int|
            0 <= i < n && #[trigger] selected[i] && devices[i] == chosen(devices, selected, n)[k]
                && chosen_count(selected, i) == k,
    decreases n,
{
    law_chosen_count(devices, selected, n - 1);
    if selected[n - 1] && k == chosen(devices, selected, n).len() - 1 {
        assert(selected[n - 1]);
    } else {
        law_only_checked_are_chosen(devices, selected, n - 1, k);
    }
}

/// None is counted where none is checked, and all where all are.
pub proof fn law_count_of_all(selected: Seq<bool>, n: int, all: bool)
    requires
        0 <= n <= selected.len(),
        forall|i: int| 0 <= i < n ==> selected[i] == all,
    ensures
        chosen_count(selected, n) == if all {
            n
        } else {
            0
        },
    decreases n,
{
    if n > 0 {
        law_count_of_all(selected, n - 1, all);
    }
}

/// What a key changes in the choice. The cursor stays on a device and moves by
/// one at most, up and down only with the arrows. Space turns over the device
/// under the cursor and no other. Enter keeps what is checked, and checks the
/// device under the cursor where nothing is; escape checks nothing. Only these
/// two end the choice.
pub proof fn law_what_choice_keys_change(v: SelectionView, key: KeyCode, i: int)
    requires
        0 <= v.cursor < v.selected.len(),
        0 <= i < v.selected.len(),
    ensures
        ({
            let w = after_choice_key(v, key);
            let enters = key == KeyCode::Enter || key == KeyCode::Char('\r') || key
                == KeyCode::Char('\n');
            &&& w.selected.len() == v.selected.len() && 0 <= w.cursor < w.selected.len()
            &&& key == KeyCode::Up ==> w.cursor == if v.cursor == 0 {
                0
            } else {
                v.cursor - 1
            }
            &&& key == KeyCode::Down ==> w.cursor == if v.cursor == v.selected.len() - 1 {
                v.cursor
            } else {
                v.cursor + 1
            }
            &&& key != KeyCode::Up && key != KeyCode::Down ==> w.cursor == v.cursor
            &&& key == KeyCode::Char(' ') ==> w.selected[i] == if i == v.cursor {
                !v.selected[i]
            } else {
                v.selected[i]
            }
            &&& enters && v.selected[i] ==> w.selected == v.selected
            &&& enters && w.selected[i] ==> v.selected[i] || i == v.cursor
            &&& enters && (forall|j: int| 0 <= j < v.selected.len() ==> !#[trigger] v.selected[j])
                ==> w.selected[v.cursor]
            &&& key == KeyCode::Esc ==> !w.selected[i]
            &&& !enters && key != KeyCode::Esc && key != KeyCode::Char(' ') ==> w.selected
                == v.selected
            &&& w.done == (v.done || enters || key == KeyCode::Esc)
        }),
{
}

/// Each try looks at the next port: a free one is found, one in use is skipped,
/// and after the last port comes the first.
pub proof fn law_each_free_port_is_found(start: u16, tries: Seq<bool>, free: bool)
    ensures
        search_after(start, tries.push(free)).0 == if free {
            search_after(start, tries).0.push(search_after(start, tries).1)
        } else {
            search_after(start, tries).0
        },
        search_after(start, tries).1 < 65535 ==> search_after(start, tries.push(free)).1
            == search_after(start, tries).1 + 1,
        search_after(start, tries).1 == 65535 ==> search_after(start, tries.push(free)).1 == 0,
        search_after(start, Seq::<bool>::empty()) == (Seq::<u16>::empty(), start),
{
    assert(tries.push(free).drop_last() =~= tries);
}

/// An answer of numbers chooses the devices with these numbers, in the order
/// of the answer; a number that no device has, and what is no number, chooses
/// nothing.
pub proof fn law_answers_by_number(devices: Seq<DeviceView>, parts: Seq<Seq<char>>, part: Seq<char>)
    ensures
        ({
            let before = named_devices(devices, parts, parts.len() as int);
            let after = named_devices(devices, parts.push(part), (parts.len() + 1) as int);
            match number_of(trimmed(part), usize::MAX as nat) {
                Some(k) => if k < devices.len() {
                    after == before.push(devices[k as int])
                } else {
                    after == before
                },
                None => after == before,
            }
        }),
        named_devices(devices, Seq::empty(), 0).len() == 0,
{
    lemma_named_front(devices, parts, part, parts.len() as int);
}

proof fn lemma_named_front(
    devices: Seq<DeviceView>,
    parts: Seq<Seq<char>>,
    part: Seq<char>,
    n: int,
)
    requires
        0 <= n <= parts.len(),
    ensures
        named_devices(devices, parts.push(part), n) == named_devices(devices, parts, n),
    decreases n,
{
    if n > 0 {
        lemma_named_front(devices, parts, part, n - 1);
        assert(parts.push(part)[n - 1] == parts[n - 1]);
    }
}

/// An empty answer chooses nothing, and `all` every device.
pub proof fn law_answers_in_words(devices: Seq<DeviceView>)
    ensures
        answered(devices, Seq::empty()).len() == 0,
        answered(devices, seq!['a', 'l', 'l']) == devices,
{
    reveal_strlit("all");
    assert("all"@ =~= seq!['a', 'l', 'l']);
}

/// Arguments are read one after another. A command replaces the one before, an
/// option for the log stays, a request for help or an unknown option ends the
/// reading, and at the end there has to be a command.
pub proof fn law_arguments(args: Seq<String>, i: int, command: Option<Command>, verbose: bool)
    requires
        0 <= i <= args.len(),
    ensures
        i == args.len() ==> parsed_from(args, i, command, verbose) == match command {
            Some(command) => ParsedView::Args(Args { command, verbose }),
            None => ParsedView::NoCommand,
        },
        i < args.len() ==> {
            let arg = args[i]@;
            let r = parsed_from(args, i, command, verbose);
            let help = arg == "help"@ || arg == "--help"@ || arg == "-h"@;
            let more = arg == "--verbose"@ || arg == "-v"@;
            &&& help ==> r == ParsedView::Help
            &&& !help && more ==> r == parsed_from(args, i + 1, command, true)
            &&& !help && !more && arg == "run"@ ==> r == parsed_from(
                args,
                i + 1,
                Some(Command::Run),
                verbose,
            )
            &&& !help && !more && arg != "run"@ && arg == "list"@ ==> r == parsed_from(
                args,
                i + 1,
                Some(Command::List),
                verbose,
            )
            &&& !help && !more && arg != "run"@ && arg != "list"@ ==> r
                == ParsedView::UnknownOption(arg)
        },
{
}

} // verus!
