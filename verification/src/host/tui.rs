//! The configuration screen for the built-in drivers.
use crate::host::config::{
    key_position, lemma_key_position, option_set, option_views, set_option, string_views,
    DeviceEntry, EntryView, HostConfig,
};
use crate::host::key::KeyCode;
use crate::host::ui::state::{law_decimal_reads_back, parse_port, port_or};
use crate::scan::number_of;
use crate::text::{contains_text, decimal, decimal_string, occurs_at, occurs_in};
use vstd::prelude::*;

verus! {

/// A driver as the screen shows it.
#[derive(Debug)]
pub struct DriverInfo {
    pub name: &'static str,
    pub description: &'static str,
    pub default_port: u16,
    pub fields: Vec<DriverField>,
}

/// A setting of a driver.
#[derive(Debug)]
pub struct DriverField {
    pub key: &'static str,
    pub label: &'static str,
    pub default_value: &'static str,
}

/// The mathematical content of a [`DriverField`].
pub struct FieldView {
    pub key: Seq<char>,
    pub label: Seq<char>,
    pub default_value: Seq<char>,
}

/// The mathematical content of a [`DriverInfo`].
#[verifier::ext_equal]
pub struct DriverView {
    pub name: Seq<char>,
    pub description: Seq<char>,
    pub default_port: u16,
    pub fields: Seq<FieldView>,
}

impl View for DriverField {
    type V = FieldView;

    open spec fn view(&self) -> FieldView {
        FieldView { key: self.key@, label: self.label@, default_value: self.default_value@ }
    }
}

impl View for DriverInfo {
    type V = DriverView;

    open spec fn view(&self) -> DriverView {
        DriverView {
            name: self.name@,
            description: self.description@,
            default_port: self.default_port,
            fields: Seq::new(self.fields@.len(), |i: int| self.fields@[i]@),
        }
    }
}

/// The driver for serial ports.
pub open spec fn serial_info() -> DriverView {
    DriverView {
        name: "serial"@,
        description: "Serial port (RS-232/USB via pyserial)"@,
        default_port: 8080,
        fields: seq![
            FieldView {
                key: "device"@,
                label: "Device Path"@,
                default_value: "/dev/ttyUSB0"@,
            },
            FieldView { key: "baud"@, label: "Baud Rate"@, default_value: "115200"@ },
        ],
    }
}

/// The driver for keyboards.
pub open spec fn keyboard_info() -> DriverView {
    DriverView {
        name: "keyboard"@,
        description: "Keyboard input capture (via pynput)"@,
        default_port: 8081,
        fields: seq![
            FieldView { key: "capture"@, label: "Capture Mode"@, default_value: "all"@ },
        ],
    }
}

/// The drivers that can be configured: serial ports and keyboards.
pub fn builtin_drivers() -> (r: Vec<DriverInfo>)
    ensures
        r@.len() == 2,
        r@[0]@ == serial_info(),
        r@[1]@ == keyboard_info(),
{
    let mut serial_fields: Vec<DriverField> = Vec::new();
    serial_fields.push(
        DriverField { key: "device", label: "Device Path", default_value: "/dev/ttyUSB0" },
    );
    serial_fields.push(DriverField { key: "baud", label: "Baud Rate", default_value: "115200" });
    let serial = DriverInfo {
        name: "serial",
        description: "Serial port (RS-232/USB via pyserial)",
        default_port: 8080,
        fields: serial_fields,
    };
    assert(serial@ =~= serial_info());
    let mut keyboard_fields: Vec<DriverField> = Vec::new();
    keyboard_fields.push(
        DriverField { key: "capture", label: "Capture Mode", default_value: "all" },
    );
    let keyboard = DriverInfo {
        name: "keyboard",
        description: "Keyboard input capture (via pynput)",
        default_port: 8081,
        fields: keyboard_fields,
    };
    assert(keyboard@ =~= keyboard_info());
    let mut drivers: Vec<DriverInfo> = Vec::new();
    drivers.push(serial);
    drivers.push(keyboard);
    drivers
}

/// What the keys go to.
#[derive(Debug, Clone, Copy, PartialEq, Eq, Structural)]
pub enum Mode {
    /// The list of drivers.
    Normal,
    /// A field of the selected driver: 0 is the port, the others are settings.
    Editing(usize),
}

/// A driver in the list.
#[derive(Debug)]
pub struct DriverRow {
    pub info: DriverInfo,
    pub enabled: bool,
    pub port_str: String,
    pub field_values: Vec<String>,
}

/// The screen.
#[derive(Debug)]
pub struct TuiState {
    pub rows: Vec<DriverRow>,
    pub selected: usize,
    pub mode: Mode,
    pub status: String,
    pub should_quit: bool,
}

/// The mathematical content of a [`DriverRow`].
#[verifier::ext_equal]
pub struct DriverRowView {
    pub info: DriverView,
    pub enabled: bool,
    pub port_str: Seq<char>,
    pub field_values: Seq<Seq<char>>,
}

/// The mathematical content of a [`TuiState`].
#[verifier::ext_equal]
pub struct ScreenView {
    pub rows: Seq<DriverRowView>,
    pub selected: int,
    pub mode: Mode,
    pub status: Seq<char>,
    pub should_quit: bool,
}

impl View for DriverRow {
    type V = DriverRowView;

    open spec fn view(&self) -> DriverRowView {
        DriverRowView {
            info: self.info@,
            enabled: self.enabled,
            port_str: self.port_str@,
            field_values: string_views(self.field_values@),
        }
    }
}

impl View for TuiState {
    type V = ScreenView;

    open spec fn view(&self) -> ScreenView {
        ScreenView {
            rows: Seq::new(self.rows@.len(), |i: int| self.rows@[i]@),
            selected: self.selected as int,
            mode: self.mode,
            status: self.status@,
            should_quit: self.should_quit,
        }
    }
}

/// The number of fields of a row: the port and the settings.
pub open spec fn field_count(row: DriverRowView) -> int {
    1 + row.info.fields.len() as int
}

/// Every setting has a value.
pub open spec fn driver_row_ok(row: DriverRowView) -> bool {
    row.field_values.len() == row.info.fields.len() && field_count(row) <= usize::MAX
}

/// Every row is complete, one of them is selected, and a field that is edited
/// is one of the selected row.
pub open spec fn screen_ok(v: ScreenView) -> bool {
    &&& forall|i: int| 0 <= i < v.rows.len() ==> driver_row_ok(#[trigger] v.rows[i])
    &&& 0 <= v.selected < v.rows.len()
    &&& v.mode matches Mode::Editing(idx) ==> idx < field_count(v.rows[v.selected])
}

/// The line that explains the keys in the list.
pub open spec fn list_help() -> Seq<char> {
    "↑↓ navigate  Enter toggle/edit  Tab edit  F1 save  Esc quit"@
}

/// The line that explains the keys in a field.
pub open spec fn field_help() -> Seq<char> {
    "Editing port. Tab/↑↓ to switch field. Esc to finish."@
}

/// The row of the driver at position `i`: ports count up.
pub open spec fn new_row(info: DriverView, i: int) -> DriverRowView {
    DriverRowView {
        info,
        enabled: false,
        port_str: decimal((info.default_port + i) as nat),
        field_values: Seq::new(info.fields.len(), |k: int| info.fields[k].default_value),
    }
}

/// The screen at the start.
pub open spec fn new_screen() -> ScreenView {
    ScreenView {
        rows: seq![new_row(serial_info(), 0), new_row(keyboard_info(), 1)],
        selected: 0,
        mode: Mode::Normal,
        status: list_help(),
        should_quit: false,
    }
}

/// The label of a field of the selected row.
pub open spec fn screen_label(v: ScreenView, idx: int) -> Seq<char> {
    if idx == 0 {
        "Port"@
    } else {
        v.rows[v.selected].info.fields[idx - 1].label
    }
}

/// The value of a field of a row.
pub open spec fn driver_field(row: DriverRowView, idx: int) -> Seq<char> {
    if idx == 0 {
        row.port_str
    } else {
        row.field_values[idx - 1]
    }
}

/// A row with another value in a field.
pub open spec fn with_driver_field(row: DriverRowView, idx: int, value: Seq<char>) -> DriverRowView {
    if idx == 0 {
        DriverRowView { port_str: value, ..row }
    } else {
        DriverRowView { field_values: row.field_values.update(idx - 1, value), ..row }
    }
}

/// A screen with another row in the selected place.
pub open spec fn with_selected_row(v: ScreenView, row: DriverRowView) -> ScreenView {
    ScreenView { rows: v.rows.update(v.selected, row), ..v }
}

/// A screen on which the port of the selected driver is edited.
pub open spec fn editing_port(v: ScreenView) -> ScreenView {
    ScreenView { mode: Mode::Editing(0), status: field_help(), ..v }
}

/// A screen on which a field is edited, with the field named.
pub open spec fn editing(v: ScreenView, idx: int) -> ScreenView {
    ScreenView {
        mode: Mode::Editing(idx as usize),
        status: "Editing: "@ + screen_label(v, idx),
        ..v
    }
}

/// What a key does in the list of drivers.
pub open spec fn after_list_key(v: ScreenView, key: KeyCode) -> ScreenView {
    let row = v.rows[v.selected];
    match key {
        KeyCode::Up | KeyCode::Char('k') => if v.selected > 0 {
            ScreenView { selected: v.selected - 1, ..v }
        } else {
            v
        },
        KeyCode::Down | KeyCode::Char('j') => if v.selected + 1 < v.rows.len() {
            ScreenView { selected: v.selected + 1, ..v }
        } else {
            v
        },
        KeyCode::Enter => if !row.enabled {
            ScreenView {
                status: "Enabled '"@ + row.info.name + "'. Press Enter to edit fields."@,
                ..with_selected_row(v, DriverRowView { enabled: true, ..row })
            }
        } else {
            editing_port(v)
        },
        KeyCode::Tab => if row.enabled {
            editing_port(v)
        } else {
            v
        },
        KeyCode::Char(' ') => ScreenView {
            status: (if row.enabled {
                "Disabled"@
            } else {
                "Enabled"@
            }) + " '"@ + row.info.name + "'"@,
            ..with_selected_row(v, DriverRowView { enabled: !row.enabled, ..row })
        },
        KeyCode::F(1) | KeyCode::Char('s') => ScreenView {
            should_quit: true,
            status: "Saving configuration..."@,
            ..v
        },
        KeyCode::Esc | KeyCode::Char('q') => ScreenView {
            should_quit: true,
            status: "Quit without saving."@,
            ..v
        },
        _ => v,
    }
}

/// What a key does in a field.
pub open spec fn after_field_key(v: ScreenView, idx: usize, key: KeyCode) -> ScreenView {
    let row = v.rows[v.selected];
    let count = field_count(row);
    match key {
        KeyCode::Esc | KeyCode::Enter => ScreenView {
            mode: Mode::Normal,
            status: list_help(),
            ..v
        },
        KeyCode::Tab | KeyCode::Down => editing(v, (idx + 1) % count),
        KeyCode::Up => editing(
            v,
            if idx > 0 {
                idx - 1
            } else {
                count - 1
            },
        ),
        KeyCode::Backspace => {
            let text = driver_field(row, idx as int);
            with_selected_row(
                v,
                with_driver_field(
                    row,
                    idx as int,
                    if text.len() > 0 {
                        text.drop_last()
                    } else {
                        text
                    },
                ),
            )
        },
        KeyCode::Char(c) => with_selected_row(
            v,
            with_driver_field(row, idx as int, driver_field(row, idx as int).push(c)),
        ),
        _ => v,
    }
}

/// What a key does.
pub open spec fn after_screen_key(v: ScreenView, key: KeyCode) -> ScreenView {
    match v.mode {
        Mode::Normal => after_list_key(v, key),
        Mode::Editing(idx) => after_field_key(v, idx, key),
    }
}

/// The settings of the first `n` fields of a row.
pub open spec fn row_options(row: DriverRowView, n: int) -> Seq<(Seq<char>, Seq<char>)>
    decreases n,
{
    if n <= 0 {
        Seq::empty()
    } else {
        option_set(row_options(row, n - 1), row.info.fields[n - 1].key, row.field_values[n - 1])
    }
}

/// What is saved of a row. A device of a built-in driver is identified by the
/// driver alone.
pub open spec fn row_entry(row: DriverRowView) -> EntryView {
    EntryView {
        driver: row.info.name,
        device_identifier: Seq::empty(),
        device_name: Seq::empty(),
        port: port_or(row.port_str, row.info.default_port),
        options: row_options(row, row.info.fields.len() as int),
    }
}

/// What is saved of the first `n` rows: those that are enabled.
pub open spec fn screen_entries(rows: Seq<DriverRowView>, n: int) -> Seq<EntryView>
    decreases n,
{
    if n <= 0 {
        Seq::empty()
    } else if rows[n - 1].enabled {
        screen_entries(rows, n - 1).push(row_entry(rows[n - 1]))
    } else {
        screen_entries(rows, n - 1)
    }
}

impl DriverRow {
    /// The row of the driver at position `i`.
    pub fn new(info: DriverInfo, i: u16) -> (r: DriverRow)
        requires
            info.default_port + i <= u16::MAX,
            info.fields@.len() < usize::MAX,
        ensures
            r@ == new_row(info@, i as int),
            driver_row_ok(r@),
    {
        let mut values: Vec<String> = Vec::new();
        let mut k: usize = 0;
        while k < info.fields.len()
            invariant
                k <= info.fields@.len(),
                string_views(values@) == Seq::new(
                    k as nat,
                    |j: int| info@.fields[j].default_value,
                ),
            decreases info.fields.len() - k,
        {
            let ghost before = string_views(values@);
            let value = info.fields[k].default_value.to_owned();
            let ghost v = value@;
            values.push(value);
            k = k + 1;
            assert(string_views(values@) =~= before.push(v));
            assert(string_views(values@) =~= Seq::new(
                k as nat,
                |j: int| info@.fields[j].default_value,
            ));
        }
        let port: u16 = info.default_port + i;
        let r = DriverRow {
            info,
            enabled: false,
            port_str: decimal_string(port as u64),
            field_values: values,
        };
        assert(r@ =~= new_row(info@, i as int));
        r
    }

    /// A field, to be changed.
    fn field_mut(&mut self, idx: usize) -> (r: &mut String)
        requires
            driver_row_ok(old(self)@),
            idx < field_count(old(self)@),
        ensures
            r@ == driver_field(old(self)@, idx as int),
            final(self)@ == with_driver_field(old(self)@, idx as int, final(r)@),
    {
        if idx == 0 {
            &mut self.port_str
        } else {
            assert(self@.field_values.len() == self.field_values@.len());
            let r = &mut self.field_values[idx - 1];
            r
        }
    }

    /// What is saved of this row.
    pub fn entry(&self) -> (r: DeviceEntry)
        requires
            driver_row_ok(self@),
        ensures
            r@ == row_entry(self@),
    {
        let mut options: Vec<(String, String)> = Vec::new();
        let mut i: usize = 0;
        assert(option_views(options@) =~= Seq::<(Seq<char>, Seq<char>)>::empty());
        assert(self@.field_values.len() == self@.info.fields.len());
        while i < self.info.fields.len()
            invariant
                i <= self.info.fields@.len(),
                self.field_values@.len() == self.info.fields@.len(),
                option_views(options@) == row_options(self@, i as int),
            decreases self.info.fields.len() - i,
        {
            set_option(&mut options, self.info.fields[i].key, self.field_values[i].as_str());
            i = i + 1;
        }
        DeviceEntry {
            driver: self.info.name.to_owned(),
            device_identifier: String::new(),
            device_name: String::new(),
            port: parse_port(self.port_str.as_str(), self.info.default_port),
            options,
        }
    }
}

impl TuiState {
    /// The invariant of the screen.
    pub open spec fn wf(&self) -> bool {
        screen_ok(self@)
    }

    /// The screen at the start.
    pub fn new() -> (r: TuiState)
        ensures
            r@ == new_screen(),
            r.wf(),
    {
        let mut drivers = builtin_drivers();
        assert(serial_info().fields.len() == 2);
        assert(keyboard_info().fields.len() == 1);
        let keyboard = drivers.remove(1);
        let serial = drivers.remove(0);
        assert(serial@ == serial_info() && keyboard@ == keyboard_info());
        let mut rows: Vec<DriverRow> = Vec::new();
        assert(serial.fields@.len() == 2) by {
            assert(serial@.fields.len() == 2);
        }
        assert(keyboard.fields@.len() == 1) by {
            assert(keyboard@.fields.len() == 1);
        }
        rows.push(DriverRow::new(serial, 0));
        rows.push(DriverRow::new(keyboard, 1));
        let r = TuiState {
            rows,
            selected: 0,
            mode: Mode::Normal,
            status: "↑↓ navigate  Enter toggle/edit  Tab edit  F1 save  Esc quit".to_owned(),
            should_quit: false,
        };
        assert(r@.rows =~= new_screen().rows);
        r
    }

    /// The selected row.
    pub fn selected_row(&self) -> (r: &DriverRow)
        requires
            self.wf(),
        ensures
            r@ == self@.rows[self@.selected],
            driver_row_ok(r@),
    {
        &self.rows[self.selected]
    }

    /// The number of fields of the selected row.
    pub fn field_count(&self) -> (r: usize)
        requires
            self.wf(),
        ensures
            r == field_count(self@.rows[self@.selected]),
    {
        1 + self.selected_row().info.fields.len()
    }

    /// A field of the selected row, to be changed.
    fn get_field_value_mut(&mut self, idx: usize) -> (r: &mut String)
        requires
            old(self).wf(),
            idx < field_count(old(self)@.rows[old(self)@.selected]),
        ensures
            r@ == driver_field(old(self)@.rows[old(self)@.selected], idx as int),
            final(self)@ == with_selected_row(
                old(self)@,
                with_driver_field(old(self)@.rows[old(self)@.selected], idx as int, final(r)@),
            ),
    {
        let ghost before = self@;
        assert(driver_row_ok(before.rows[before.selected]));
        let row = &mut self.rows[self.selected];
        row.field_mut(idx)
    }

    /// The label of a field of the selected row.
    pub fn field_label(&self, idx: usize) -> (r: String)
        requires
            self.wf(),
            idx < field_count(self@.rows[self@.selected]),
        ensures
            r@ == screen_label(self@, idx as int),
    {
        let row = self.selected_row();
        if idx == 0 {
            "Port".to_owned()
        } else {
            row.info.fields[idx - 1].label.to_owned()
        }
    }

    /// The configuration that the screen shows: the enabled drivers.
    pub fn build_config(&self) -> (r: HostConfig)
        requires
            self.wf(),
        ensures
            r@ == screen_entries(self@.rows, self@.rows.len() as int),
    {
        let mut device: Vec<DeviceEntry> = Vec::new();
        let ghost mut views: Seq<EntryView> = Seq::empty();
        let mut i: usize = 0;
        while i < self.rows.len()
            invariant
                i <= self.rows@.len(),
                self.wf(),
                views == screen_entries(self@.rows, i as int),
                views.len() == device@.len(),
                forall|k: int| 0 <= k < views.len() ==> (#[trigger] device@[k])@ == views[k],
            decreases self.rows.len() - i,
        {
            assert(driver_row_ok(self@.rows[i as int]));
            if self.rows[i].enabled {
                let entry = self.rows[i].entry();
                proof {
                    views = views.push(entry@);
                }
                device.push(entry);
            }
            i = i + 1;
        }
        let r = HostConfig { device };
        assert(r@ =~= views);
        r
    }

    /// What the screen comes to once it was left: the configuration, if it was
    /// left for saving.
    pub fn outcome(&self) -> (r: Option<HostConfig>)
        requires
            self.wf(),
        ensures
            match r {
                Some(config) => occurs_in("Saving"@, self@.status) && config@ == screen_entries(
                    self@.rows,
                    self@.rows.len() as int,
                ),
                None => !occurs_in("Saving"@, self@.status),
            },
    {
        if contains_text(self.status.as_str(), "Saving") {
            Some(self.build_config())
        } else {
            None
        }
    }

    /// Serves a key.
    pub fn handle_key(&mut self, key: KeyCode)
        requires
            old(self).wf(),
        ensures
            final(self)@ == after_screen_key(old(self)@, key),
            final(self).wf(),
    {
        match self.mode {
            Mode::Normal => self.handle_normal_key(key),
            Mode::Editing(idx) => self.handle_editing_key(idx, key),
        }
    }

    /// Starts editing the port of the selected driver.
    fn edit_port(&mut self)
        requires
            old(self).wf(),
        ensures
            final(self)@ == editing_port(old(self)@),
            final(self).wf(),
    {
        self.mode = Mode::Editing(0);
        self.status = "Editing port. Tab/↑↓ to switch field. Esc to finish.".to_owned();
    }

    /// Starts editing a field of the selected driver.
    fn edit_field(&mut self, idx: usize)
        requires
            old(self).wf(),
            idx < field_count(old(self)@.rows[old(self)@.selected]),
        ensures
            final(self)@ == editing(old(self)@, idx as int),
            final(self).wf(),
    {
        let mut status = "Editing: ".to_owned();
        let label = self.field_label(idx);
        status.push_str(label.as_str());
        self.mode = Mode::Editing(idx);
        self.status = status;
    }

    /// Turns the selected driver on or off.
    fn set_enabled(&mut self, enabled: bool)
        requires
            old(self).wf(),
        ensures
            final(self)@ == with_selected_row(
                old(self)@,
                DriverRowView { enabled, ..old(self)@.rows[old(self)@.selected] },
            ),
            final(self).wf(),
    {
        let ghost before = self@;
        let at: usize = self.selected;
        let row = &mut self.rows[at];
        row.enabled = enabled;
        proof {
            let after = with_selected_row(
                before,
                DriverRowView { enabled, ..before.rows[before.selected] },
            );
            assert(self@.rows =~= after.rows);
            lemma_screen_ok(before, self@);
        }
    }

    fn handle_normal_key(&mut self, key: KeyCode)
        requires
            old(self).wf(),
            old(self)@.mode == Mode::Normal,
        ensures
            final(self)@ == after_list_key(old(self)@, key),
            final(self).wf(),
    {
        match key {
            KeyCode::Up | KeyCode::Char('k') => {
                if self.selected > 0 {
                    self.selected = self.selected - 1;
                }
            },
            KeyCode::Down | KeyCode::Char('j') => {
                if self.selected < self.rows.len() - 1 {
                    self.selected = self.selected + 1;
                }
            },
            KeyCode::Enter => {
                if !self.selected_row().enabled {
                    let mut status = "Enabled '".to_owned();
                    status.push_str(self.selected_row().info.name);
                    status.push_str("'. Press Enter to edit fields.");
                    self.set_enabled(true);
                    self.status = status;
                } else {
                    self.edit_port();
                }
            },
            KeyCode::Tab => {
                if self.selected_row().enabled {
                    self.edit_port();
                }
            },
            KeyCode::Char(' ') => {
                let enabled = !self.selected_row().enabled;
                let mut status = if enabled {
                    "Enabled".to_owned()
                } else {
                    "Disabled".to_owned()
                };
                status.push_str(" '");
                status.push_str(self.selected_row().info.name);
                status.push_str("'");
                self.set_enabled(enabled);
                self.status = status;
            },
            KeyCode::F(1) | KeyCode::Char('s') => {
                self.should_quit = true;
                self.status = "Saving configuration...".to_owned();
            },
            KeyCode::Esc | KeyCode::Char('q') => {
                self.should_quit = true;
                self.status = "Quit without saving.".to_owned();
            },
            _ => {},
        }
    }

    fn handle_editing_key(&mut self, idx: usize, key: KeyCode)
        requires
            old(self).wf(),
            old(self)@.mode == Mode::Editing(idx),
        ensures
            final(self)@ == after_field_key(old(self)@, idx, key),
            final(self).wf(),
    {
        let ghost before = self@;
        let count: usize = self.field_count();
        match key {
            KeyCode::Esc | KeyCode::Enter => {
                self.mode = Mode::Normal;
                self.status =
                "↑↓ navigate  Enter toggle/edit  Tab edit  F1 save  Esc quit".to_owned();
            },
            KeyCode::Tab | KeyCode::Down => {
                let next: usize = if idx + 1 == count {
                    0
                } else {
                    idx + 1
                };
                proof {
                    lemma_next_field(idx as int, count as int);
                }
                self.edit_field(next);
            },
            KeyCode::Up => {
                let next: usize = if idx > 0 {
                    idx - 1
                } else {
                    count - 1
                };
                self.edit_field(next);
            },
            KeyCode::Backspace => {
                let _ = self.get_field_value_mut(idx).pop();
                proof {
                    lemma_screen_ok(before, self@);
                }
            },
            KeyCode::Char(c) => {
                self.get_field_value_mut(idx).push(c);
                proof {
                    lemma_screen_ok(before, self@);
                }
            },
            _ => {},
        }
    }
}

/// The field after the last one is the first one.
proof fn lemma_next_field(idx: int, count: int)
    requires
        0 <= idx < count,
    ensures
        (idx + 1) % count == if idx + 1 == count {
            0
        } else {
            idx + 1
        },
{
    if idx + 1 < count {
        vstd::arithmetic::div_mod::lemma_small_mod((idx + 1) as nat, count as nat);
    } else {
        vstd::arithmetic::div_mod::lemma_mod_self_0(count);
    }
}

/// A change of the values in the selected row keeps the invariant.
proof fn lemma_screen_ok(before: ScreenView, after: ScreenView)
    requires
        screen_ok(before),
        after == with_selected_row(before, after.rows[before.selected]),
        after.rows[before.selected].info == before.rows[before.selected].info,
        after.rows[before.selected].field_values.len() == before.rows[before.selected].field_values.len(),
    ensures
        screen_ok(after),
{
    assert forall|i: int| 0 <= i < after.rows.len() implies driver_row_ok(
        #[trigger] after.rows[i],
    ) by {
        assert(driver_row_ok(before.rows[i]));
    }
}

/// A character that was typed into a field is gone after a backspace, and
/// everything else is as before.
pub proof fn law_screen_backspace(v: ScreenView, c: char)
    requires
        screen_ok(v),
        v.mode is Editing,
    ensures
        after_screen_key(after_screen_key(v, KeyCode::Char(c)), KeyCode::Backspace) == v,
{
    let idx = v.mode->0 as int;
    let row = v.rows[v.selected];
    assert(driver_row_ok(row));
    let text = driver_field(row, idx);
    assert(text.push(c).drop_last() =~= text);
    let again = after_screen_key(after_screen_key(v, KeyCode::Char(c)), KeyCode::Backspace);
    assert(again.rows[v.selected] =~= row);
    assert(again.rows =~= v.rows);
}

/// Going one field down and one up again leads back to the same field, also
/// around the end.
pub proof fn law_down_then_up(v: ScreenView)
    requires
        screen_ok(v),
        v.mode is Editing,
    ensures
        after_screen_key(after_screen_key(v, KeyCode::Down), KeyCode::Up).mode == v.mode,
{
    let idx = v.mode->0 as int;
    assert(driver_row_ok(v.rows[v.selected]));
    lemma_next_field(idx, field_count(v.rows[v.selected]));
}

/// Every key keeps the invariant.
pub proof fn law_screen_keys_keep_invariant(v: ScreenView, key: KeyCode)
    requires
        screen_ok(v),
    ensures
        screen_ok(after_screen_key(v, key)),
{
    let after = after_screen_key(v, key);
    assert(driver_row_ok(v.rows[v.selected]));
    if let Mode::Editing(idx) = v.mode {
        lemma_next_field(idx as int, field_count(v.rows[v.selected]));
    }
    assert forall|i: int| 0 <= i < after.rows.len() implies driver_row_ok(
        #[trigger] after.rows[i],
    ) by {
        assert(driver_row_ok(v.rows[i]));
    }
}

/// The number of enabled drivers among the first `n`.
pub open spec fn enabled_drivers(rows: Seq<DriverRowView>, n: int) -> int
    decreases n,
{
    if n <= 0 {
        0
    } else {
        enabled_drivers(rows, n - 1) + (if rows[n - 1].enabled {
            1int
        } else {
            0int
        })
    }
}

/// Exactly the enabled drivers are saved, in their order: each stands behind as
/// many others as are enabled before it, and there are no others.
pub proof fn law_enabled_drivers_are_saved(rows: Seq<DriverRowView>, n: int, i: int)
    requires
        0 <= i < n <= rows.len(),
    ensures
        enabled_drivers(rows, 0) == 0,
        enabled_drivers(rows, i + 1) == enabled_drivers(rows, i) + (if rows[i].enabled {
            1int
        } else {
            0int
        }),
        screen_entries(rows, n).len() == enabled_drivers(rows, n),
        rows[i].enabled ==> 0 <= enabled_drivers(rows, i) < screen_entries(rows, n).len()
            && screen_entries(rows, n)[enabled_drivers(rows, i)] == row_entry(rows[i]),
    decreases n,
{
    lemma_enabled_count(rows, i);
    lemma_enabled_count(rows, n - 1);
    if i < n - 1 {
        law_enabled_drivers_are_saved(rows, n - 1, i);
    }
}

proof fn lemma_enabled_count(rows: Seq<DriverRowView>, n: int)
    ensures
        enabled_drivers(rows, n) >= 0,
        screen_entries(rows, n).len() == enabled_drivers(rows, n),
    decreases n,
{
    if n > 0 {
        lemma_enabled_count(rows, n - 1);
    }
}

/// What is saved of a driver: its name, the port in the field or else its usual
/// one, and every setting with what its field holds.
pub proof fn law_saved_driver(row: DriverRowView, port: u16, i: int)
    requires
        driver_row_ok(row),
        0 <= i < row.info.fields.len(),
        forall|a: int, b: int|
            0 <= a < b < row.info.fields.len() ==> (#[trigger] row.info.fields[a]).key != (
            #[trigger] row.info.fields[b]).key,
    ensures
        ({
            let e = row_entry(row);
            &&& e.driver == row.info.name
            &&& e.device_identifier.len() == 0 && e.device_name.len() == 0
            &&& row.port_str == decimal(port as nat) ==> e.port == port
            &&& number_of(row.port_str, 65535) is None ==> e.port == row.info.default_port
            &&& e.options.len() == row.info.fields.len()
            &&& e.options[i].0 == row.info.fields[i].key
            &&& e.options[i].1 == row.field_values[i]
        }),
{
    lemma_row_pairs(row, row.info.fields.len() as int);
    law_decimal_reads_back(port as nat, 65535);
}

proof fn lemma_row_pairs(row: DriverRowView, n: int)
    requires
        0 <= n <= row.info.fields.len(),
        driver_row_ok(row),
        forall|a: int, b: int|
            0 <= a < b < row.info.fields.len() ==> (#[trigger] row.info.fields[a]).key != (
            #[trigger] row.info.fields[b]).key,
    ensures
        row_options(row, n) == Seq::new(
            n as nat,
            |i: int| (row.info.fields[i].key, row.field_values[i]),
        ),
    decreases n,
{
    let pairs = Seq::new(n as nat, |i: int| (row.info.fields[i].key, row.field_values[i]));
    if n > 0 {
        let front = row_options(row, n - 1);
        lemma_row_pairs(row, n - 1);
        let key = row.info.fields[n - 1].key;
        lemma_key_position(front, key, 0);
        let at = key_position(front, key, 0);
        if at < front.len() {
            assert(row.info.fields[at].key != row.info.fields[n - 1].key);
        }
        assert(front.push((key, row.field_values[n - 1])) =~= pairs);
    } else {
        assert(pairs =~= Seq::<(Seq<char>, Seq<char>)>::empty());
    }
}

/// What a key changes in the list of drivers. The selection stays in the list
/// and moves by one row at most. Space turns the selected driver on or off,
/// and enter turns it on where it is off; no other row and nothing else of the
/// row changes. Editing starts with enter or tab on an enabled driver, and
/// only so. Only saving and quitting end the screen.
pub proof fn law_what_list_keys_change(v: ScreenView, key: KeyCode, i: int)
    requires
        v.mode == Mode::Normal,
        0 <= v.selected < v.rows.len(),
        0 <= i < v.rows.len(),
    ensures
        ({
            let w = after_screen_key(v, key);
            let on = v.rows[v.selected].enabled;
            let up = key == KeyCode::Up || key == KeyCode::Char('k');
            let down = key == KeyCode::Down || key == KeyCode::Char('j');
            let turns = key == KeyCode::Char(' ') || key == KeyCode::Enter && !on;
            &&& w.rows.len() == v.rows.len()
            &&& w.selected == if up && v.selected > 0 {
                v.selected - 1
            } else if down && v.selected + 1 < v.rows.len() {
                v.selected + 1
            } else {
                v.selected
            }
            &&& w.rows[i].enabled == if turns && i == v.selected {
                !v.rows[i].enabled
            } else {
                v.rows[i].enabled
            }
            &&& w.rows[i].info == v.rows[i].info && w.rows[i].port_str == v.rows[i].port_str
                && w.rows[i].field_values == v.rows[i].field_values
            &&& w.mode == if on && (key == KeyCode::Enter || key == KeyCode::Tab) {
                Mode::Editing(0)
            } else {
                Mode::Normal
            }
            &&& w.should_quit == (v.should_quit || key == KeyCode::F(1) || key == KeyCode::Char('s')
                || key == KeyCode::Char('q') || key == KeyCode::Esc)
        }),
{
}

/// What a key changes in a field of a driver. Characters and backspace change
/// the end of the field that is edited and no other field of any row; the
/// other keys move around the fields, or back to the list.
pub proof fn law_what_field_keys_change(v: ScreenView, idx: usize, key: KeyCode, i: int, f: int)
    requires
        screen_ok(v),
        v.mode == Mode::Editing(idx),
        0 <= i < v.rows.len(),
        0 <= f <= v.rows[i].info.fields.len(),
    ensures
        ({
            let w = after_screen_key(v, key);
            let last = v.rows[v.selected].info.fields.len();
            let here = i == v.selected && f == idx;
            let old_text = if f == 0 {
                v.rows[i].port_str
            } else {
                v.rows[i].field_values[f - 1]
            };
            let new_text = if f == 0 {
                w.rows[i].port_str
            } else {
                w.rows[i].field_values[f - 1]
            };
            &&& w.rows.len() == v.rows.len() && w.selected == v.selected && w.should_quit
                == v.should_quit
            &&& w.rows[i].info == v.rows[i].info && w.rows[i].enabled == v.rows[i].enabled
            &&& !here ==> new_text == old_text
            &&& here ==> match key {
                KeyCode::Char(c) => new_text.len() == old_text.len() + 1 && new_text.last() == c
                    && new_text.drop_last() == old_text,
                KeyCode::Backspace => if old_text.len() == 0 {
                    new_text == old_text
                } else {
                    new_text == old_text.take(old_text.len() - 1)
                },
                _ => new_text == old_text,
            }
            &&& w.mode == match key {
                KeyCode::Esc | KeyCode::Enter => Mode::Normal,
                KeyCode::Tab | KeyCode::Down => if idx < last {
                    Mode::Editing((idx + 1) as usize)
                } else {
                    Mode::Editing(0)
                },
                KeyCode::Up => if idx > 0 {
                    Mode::Editing((idx - 1) as usize)
                } else {
                    Mode::Editing(last as usize)
                },
                _ => v.mode,
            }
        }),
{
    let row = v.rows[v.selected];
    assert(driver_row_ok(row));
    assert(driver_row_ok(v.rows[i]));
    lemma_next_field(idx as int, field_count(row));
    let text = driver_field(row, idx as int);
    if let KeyCode::Char(c) = key {
        assert(text.push(c).drop_last() =~= text);
    }
    if text.len() > 0 {
        assert(text.drop_last() =~= text.take(text.len() - 1));
    }
}

/// At the start both drivers are off, each with its usual port, the second one
/// higher by one, and the usual values in its fields.
pub proof fn law_screen_at_the_start(k: int)
    requires
        0 <= k < 2,
    ensures
        ({
            let v = new_screen();
            &&& v.rows.len() == 2 && v.selected == 0 && v.mode == Mode::Normal && !v.should_quit
            &&& !v.rows[k].enabled
            &&& v.rows[0].info == serial_info() && v.rows[1].info == keyboard_info()
            &&& number_of(v.rows[0].port_str, 65535) == Some(8080nat)
            &&& number_of(v.rows[1].port_str, 65535) == Some(8082nat)
            &&& v.rows[k].field_values.len() == v.rows[k].info.fields.len()
            &&& forall|f: int|
                0 <= f < v.rows[k].info.fields.len() ==> #[trigger] v.rows[k].field_values[f]
                    == v.rows[k].info.fields[f].default_value
        }),
{
    law_decimal_reads_back(8080, 65535);
    law_decimal_reads_back(8082, 65535);
}

/// The first field of a driver is its port, and the others are its settings,
/// each with its label.
pub proof fn law_labels_of_fields(v: ScreenView, k: int)
    requires
        screen_ok(v),
        0 <= k < v.rows[v.selected].info.fields.len(),
    ensures
        screen_label(v, 0) == "Port"@,
        screen_label(v, k + 1) == v.rows[v.selected].info.fields[k].label,
{
}

/// A configuration is saved exactly if the screen was left by saving: the
/// status says so then, and not when the user quits.
pub proof fn law_saving_is_told(v: ScreenView)
    requires
        v.mode == Mode::Normal,
    ensures
        occurs_in("Saving"@, after_screen_key(v, KeyCode::Char('s')).status),
        occurs_in("Saving"@, after_screen_key(v, KeyCode::F(1)).status),
        !occurs_in("Saving"@, after_screen_key(v, KeyCode::Char('q')).status),
        !occurs_in("Saving"@, after_screen_key(v, KeyCode::Esc).status),
        !occurs_in("Saving"@, new_screen().status),
{
    reveal_strlit("Saving");
    reveal_strlit("Saving configuration...");
    reveal_strlit("Quit without saving.");
    reveal_strlit("↑↓ navigate  Enter toggle/edit  Tab edit  F1 save  Esc quit");
    let word = "Saving"@;
    let saving = "Saving configuration..."@;
    assert(saving.subrange(0, 6) =~= word);
    assert(occurs_at(word, saving, 0));
    let quit = "Quit without saving."@;
    let help = list_help();
    if occurs_in(word, quit) {
        let i = choose|i: int| occurs_at(word, quit, i);
        assert(quit.subrange(i, i + 6)[0] == quit[i]);
        assert(quit[i] == 'S');
        assert(forall|k: int| 0 <= k < quit.len() ==> quit[k] != 'S');
    }
    if occurs_in(word, help) {
        let i = choose|i: int| occurs_at(word, help, i);
        assert(help.subrange(i, i + 6)[0] == help[i]);
        assert(help[i] == 'S');
        assert(forall|k: int| 0 <= k < help.len() ==> help[k] != 'S');
    }
}

} // verus!
