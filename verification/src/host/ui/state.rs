//! The state of the configuration screen.
use crate::host::adapter_loader::list::{info_views, DeviceInfo, InfoView};
use crate::host::config::{
    key_position, lemma_key_position, option_set, option_views, set_option, string_views,
    DeviceEntry, EntryView, HostConfig,
};
use crate::host::key::KeyCode;
use crate::scan::{
    copy_chars, digits_value, is_digit, is_space, law_trimming, lemma_nothing_to_trim, number_of,
    parse_number, trim, trimmed, unsigned_digits,
};
use crate::text::{chars_of, decimal, decimal_string, same_text, string_of};
use vstd::prelude::*;

verus! {

/// `String::pop` removes the last character.
pub assume_specification[ String::pop ](s: &mut String) -> (r: Option<char>)
    ensures
        old(s)@.len() == 0 ==> r is None && final(s)@ == old(s)@,
        old(s)@.len() > 0 ==> r == Some(old(s)@.last()) && final(s)@ == old(s)@.drop_last(),
;

/// What the keys go to.
#[derive(Debug, Clone, Copy, PartialEq, Eq, Structural)]
pub enum Mode {
    /// The list of devices.
    Normal,
    /// A field of the selected device: 0 is the port, the others are options.
    Editing(usize),
}

/// A device in the list.
#[derive(Debug)]
pub struct DeviceRow {
    pub info: DeviceInfo,
    pub enabled: bool,
    pub port_str: String,
    /// The values of the options, in the order of the keys.
    pub field_values: Vec<String>,
    pub option_keys: Vec<String>,
}

/// The configuration screen.
#[derive(Debug)]
pub struct TuiState {
    pub rows: Vec<DeviceRow>,
    pub selected: usize,
    pub mode: Mode,
    pub should_quit: bool,
    pub wants_save: bool,
}

/// The mathematical content of a [`DeviceRow`].
#[verifier::ext_equal]
pub struct RowView {
    pub info: InfoView,
    pub enabled: bool,
    pub port_str: Seq<char>,
    pub field_values: Seq<Seq<char>>,
    pub option_keys: Seq<Seq<char>>,
}

/// The mathematical content of a [`TuiState`].
#[verifier::ext_equal]
pub struct TuiView {
    pub rows: Seq<RowView>,
    pub selected: int,
    pub mode: Mode,
    pub should_quit: bool,
    pub wants_save: bool,
}

impl View for DeviceRow {
    type V = RowView;

    open spec fn view(&self) -> RowView {
        RowView {
            info: self.info@,
            enabled: self.enabled,
            port_str: self.port_str@,
            field_values: string_views(self.field_values@),
            option_keys: string_views(self.option_keys@),
        }
    }
}

/// The contents of a list of rows.
pub open spec fn row_views(rows: Seq<DeviceRow>) -> Seq<RowView> {
    Seq::new(rows.len(), |i: int| rows[i]@)
}

impl View for TuiState {
    type V = TuiView;

    open spec fn view(&self) -> TuiView {
        TuiView {
            rows: row_views(self.rows@),
            selected: self.selected as int,
            mode: self.mode,
            should_quit: self.should_quit,
            wants_save: self.wants_save,
        }
    }
}

/// Every option has a value.
pub open spec fn row_ok(row: RowView) -> bool {
    row.field_values.len() == row.option_keys.len()
}

/// Every row is complete, a row is selected if there is one, and a field that
/// is edited is one of the selected row.
pub open spec fn tui_ok(v: TuiView) -> bool {
    &&& forall|i: int| 0 <= i < v.rows.len() ==> row_ok(#[trigger] v.rows[i])
    &&& 0 <= v.selected
    &&& v.rows.len() > 0 ==> v.selected < v.rows.len()
    &&& v.mode matches Mode::Editing(idx) ==> v.rows.len() > 0 && idx
        <= v.rows[v.selected].option_keys.len()
}

/// The row of a device that was just found.
pub open spec fn fresh_row(info: InfoView) -> RowView {
    RowView {
        info,
        enabled: false,
        port_str: decimal(info.default_port as nat),
        field_values: Seq::new(info.options.len(), |i: int| info.options[i].1),
        option_keys: Seq::new(info.options.len(), |i: int| info.options[i].0),
    }
}

/// The position of a text from `i` on, or the end.
pub open spec fn text_position(texts: Seq<Seq<char>>, text: Seq<char>, i: int) -> int
    decreases texts.len() - i,
{
    if 0 <= i < texts.len() && texts[i] != text {
        text_position(texts, text, i + 1)
    } else {
        i
    }
}

/// A row with a saved value for an option. An option that the row lacks joins
/// at the end.
pub open spec fn with_option(row: RowView, key: Seq<char>, value: Seq<char>) -> RowView {
    let at = text_position(row.option_keys, key, 0);
    if at < row.option_keys.len() {
        RowView { field_values: row.field_values.update(at, value), ..row }
    } else {
        RowView {
            option_keys: row.option_keys.push(key),
            field_values: row.field_values.push(value),
            ..row
        }
    }
}

/// A row with the first `n` of the saved options.
pub open spec fn with_options(row: RowView, options: Seq<(Seq<char>, Seq<char>)>, n: int) -> RowView
    decreases n,
{
    if n <= 0 {
        row
    } else {
        with_option(with_options(row, options, n - 1), options[n - 1].0, options[n - 1].1)
    }
}

/// A row of a device that was configured before.
pub open spec fn with_entry(row: RowView, entry: EntryView) -> RowView {
    with_options(
        RowView { enabled: true, port_str: decimal(entry.port as nat), ..row },
        entry.options,
        entry.options.len() as int,
    )
}

/// The position of the row of a configured device from `i` on, or the end.
pub open spec fn row_position(rows: Seq<RowView>, entry: EntryView, i: int) -> int
    decreases rows.len() - i,
{
    if 0 <= i < rows.len() && !(rows[i].info.adapter_name == entry.driver && rows[i].info.identifier
        == entry.device_identifier) {
        row_position(rows, entry, i + 1)
    } else {
        i
    }
}

/// Rows with the first `n` of the saved devices.
pub open spec fn with_entries(rows: Seq<RowView>, entries: Seq<EntryView>, n: int) -> Seq<RowView>
    decreases n,
{
    if n <= 0 {
        rows
    } else {
        let earlier = with_entries(rows, entries, n - 1);
        let at = row_position(earlier, entries[n - 1], 0);
        if at < earlier.len() {
            earlier.update(at, with_entry(earlier[at], entries[n - 1]))
        } else {
            earlier
        }
    }
}

/// The rows of devices that were just found.
pub open spec fn fresh_rows(devices: Seq<InfoView>) -> Seq<RowView> {
    Seq::new(devices.len(), |i: int| fresh_row(devices[i]))
}

/// The screen at the start.
pub open spec fn fresh_tui(devices: Seq<InfoView>, saved: Option<Seq<EntryView>>) -> TuiView {
    TuiView {
        rows: match saved {
            Some(entries) => with_entries(fresh_rows(devices), entries, entries.len() as int),
            None => fresh_rows(devices),
        },
        selected: 0,
        mode: Mode::Normal,
        should_quit: false,
        wants_save: false,
    }
}

/// The position of `text` among `texts`, or their number.
fn find_text(texts: &[String], text: &str) -> (r: usize)
    ensures
        r == text_position(string_views(texts@), text@, 0),
        r <= texts@.len(),
{
    let mut i: usize = 0;
    while i < texts.len() && !same_text(texts[i].as_str(), text)
        invariant
            i <= texts.len(),
            text_position(string_views(texts@), text@, i as int) == text_position(
                string_views(texts@),
                text@,
                0,
            ),
        decreases texts.len() - i,
    {
        i = i + 1;
    }
    i
}

impl DeviceRow {
    /// The row of a device that was just found.
    pub fn new(info: DeviceInfo) -> (r: DeviceRow)
        ensures
            r@ == fresh_row(info@),
            row_ok(r@),
    {
        let mut keys: Vec<String> = Vec::new();
        let mut values: Vec<String> = Vec::new();
        let ghost options = option_views(info.options@);
        let mut i: usize = 0;
        while i < info.options.len()
            invariant
                i <= info.options@.len(),
                options == option_views(info.options@),
                string_views(keys@) == Seq::new(i as nat, |k: int| options[k].0),
                string_views(values@) == Seq::new(i as nat, |k: int| options[k].1),
            decreases info.options.len() - i,
        {
            let ghost old_keys = string_views(keys@);
            let ghost old_values = string_views(values@);
            let key = info.options[i].0.clone();
            let value = info.options[i].1.clone();
            let ghost k = key@;
            let ghost v = value@;
            keys.push(key);
            values.push(value);
            i = i + 1;
            assert(string_views(keys@) =~= old_keys.push(k));
            assert(string_views(values@) =~= old_values.push(v));
            assert(string_views(keys@) =~= Seq::new(i as nat, |k: int| options[k].0));
            assert(string_views(values@) =~= Seq::new(i as nat, |k: int| options[k].1));
        }
        let port_str = decimal_string(info.default_port as u64);
        let r = DeviceRow {
            info,
            enabled: false,
            port_str,
            field_values: values,
            option_keys: keys,
        };
        assert(r@ =~= fresh_row(info@));
        r
    }

    /// Takes over a saved value of an option.
    fn merge_option(&mut self, key: &str, value: &str)
        requires
            row_ok(old(self)@),
        ensures
            final(self)@ == with_option(old(self)@, key@, value@),
            row_ok(final(self)@),
    {
        let ghost before = self@;
        let at: usize = find_text(self.option_keys.as_slice(), key);
        assert(self@.field_values.len() == self@.option_keys.len());
        if at < self.option_keys.len() {
            self.field_values.set(at, value.to_owned());
        } else {
            self.option_keys.push(key.to_owned());
            self.field_values.push(value.to_owned());
        }
        assert(self@ =~= with_option(before, key@, value@));
    }

    /// Takes over what was saved of the device.
    pub fn merge_entry(&mut self, entry: &DeviceEntry)
        requires
            row_ok(old(self)@),
        ensures
            final(self)@ == with_entry(old(self)@, entry@),
            row_ok(final(self)@),
    {
        let ghost start = RowView {
            enabled: true,
            port_str: decimal(entry.port as nat),
            ..self@
        };
        self.enabled = true;
        self.port_str = decimal_string(entry.port as u64);
        let mut i: usize = 0;
        while i < entry.options.len()
            invariant
                i <= entry.options@.len(),
                row_ok(self@),
                self@ == with_options(start, option_views(entry.options@), i as int),
            decreases entry.options.len() - i,
        {
            self.merge_option(entry.options[i].0.as_str(), entry.options[i].1.as_str());
            i = i + 1;
        }
    }

    /// The value of a field: 0 is the port, the others are options.
    pub fn field_mut(&mut self, idx: usize) -> (r: &mut String)
        requires
            row_ok(old(self)@),
            idx <= old(self)@.option_keys.len(),
        ensures
            r@ == row_field(old(self)@, idx as int),
            final(self)@ == with_field(old(self)@, idx as int, final(r)@),
    {
        if idx == 0 {
            &mut self.port_str
        } else {
            assert(self@.field_values.len() == self.field_values@.len());
            let r = &mut self.field_values[idx - 1];
            r
        }
    }
}

/// The value of a field of a row.
pub open spec fn row_field(row: RowView, idx: int) -> Seq<char> {
    if idx == 0 {
        row.port_str
    } else {
        row.field_values[idx - 1]
    }
}

/// A row with another value in a field.
pub open spec fn with_field(row: RowView, idx: int, value: Seq<char>) -> RowView {
    if idx == 0 {
        RowView { port_str: value, ..row }
    } else {
        RowView { field_values: row.field_values.update(idx - 1, value), ..row }
    }
}

/// The text of a field value as it is saved. The value of `file_path` is
/// saved without the white space and the pair of quotes around it.
pub open spec fn sanitized(key: Seq<char>, value: Seq<char>) -> Seq<char> {
    if key != "file_path"@ {
        value
    } else {
        let t = trimmed(value);
        if t.len() >= 2 && t[0] == t.last() && (t[0] == '"' || t[0] == '\'') {
            t.subrange(1, t.len() - 1)
        } else {
            t
        }
    }
}

/// The text of a field value as it is saved.
pub fn sanitize_option_value(key: &str, value: &str) -> (r: String)
    ensures
        r@ == sanitized(key@, value@),
{
    if !same_text(key, "file_path") {
        return value.to_owned();
    }
    let chars = chars_of(value);
    let t = trim(chars.as_slice());
    let quoted = t.len() >= 2 && ((t[0] == '"' && t[t.len() - 1] == '"') || (t[0] == '\'' && t[t.len()
        - 1] == '\''));
    if quoted {
        let inner = copy_chars(t, 1, t.len() - 1);
        string_of(inner.as_slice())
    } else {
        string_of(t)
    }
}

/// The options of the first `n` fields of a row, as they are saved.
pub open spec fn saved_options(row: RowView, n: int) -> Seq<(Seq<char>, Seq<char>)>
    decreases n,
{
    if n <= 0 {
        Seq::empty()
    } else {
        option_set(
            saved_options(row, n - 1),
            row.option_keys[n - 1],
            sanitized(row.option_keys[n - 1], row.field_values[n - 1]),
        )
    }
}

/// The port that a text stands for, or the default one.
pub open spec fn port_or(text: Seq<char>, default_port: u16) -> u16 {
    match number_of(text, 65535) {
        Some(n) => n as u16,
        None => default_port,
    }
}

/// What is saved of a row.
pub open spec fn saved_entry(row: RowView) -> EntryView {
    EntryView {
        driver: row.info.adapter_name,
        device_identifier: row.info.identifier,
        device_name: row.info.name,
        port: port_or(row.port_str, row.info.default_port),
        options: saved_options(row, row.option_keys.len() as int),
    }
}

/// What is saved of the first `n` rows: those that are enabled.
pub open spec fn saved_entries(rows: Seq<RowView>, n: int) -> Seq<EntryView>
    decreases n,
{
    if n <= 0 {
        Seq::empty()
    } else if rows[n - 1].enabled {
        saved_entries(rows, n - 1).push(saved_entry(rows[n - 1]))
    } else {
        saved_entries(rows, n - 1)
    }
}

/// Reads a port, or gives the default one.
pub fn parse_port(text: &str, default_port: u16) -> (r: u16)
    ensures
        r == port_or(text@, default_port),
{
    let chars = chars_of(text);
    match parse_number(chars.as_slice(), 65535) {
        Some(n) => n as u16,
        None => default_port,
    }
}

impl DeviceRow {
    /// What is saved of this row.
    pub fn entry(&self) -> (r: DeviceEntry)
        requires
            row_ok(self@),
        ensures
            r@ == saved_entry(self@),
    {
        let mut options: Vec<(String, String)> = Vec::new();
        let mut i: usize = 0;
        assert(option_views(options@) =~= Seq::<(Seq<char>, Seq<char>)>::empty());
        assert(self@.field_values.len() == self@.option_keys.len());
        while i < self.option_keys.len()
            invariant
                i <= self.option_keys@.len(),
                self.field_values@.len() == self.option_keys@.len(),
                option_views(options@) == saved_options(self@, i as int),
            decreases self.option_keys.len() - i,
        {
            let value = sanitize_option_value(
                self.option_keys[i].as_str(),
                self.field_values[i].as_str(),
            );
            set_option(&mut options, self.option_keys[i].as_str(), value.as_str());
            i = i + 1;
        }
        DeviceEntry {
            driver: self.info.adapter_name.clone(),
            device_identifier: self.info.identifier.clone(),
            device_name: self.info.name.clone(),
            port: parse_port(self.port_str.as_str(), self.info.default_port),
            options,
        }
    }
}

/// A screen with another row in the selected place.
pub open spec fn with_selected(v: TuiView, row: RowView) -> TuiView {
    TuiView { rows: v.rows.update(v.selected, row), ..v }
}

/// The selected row can be edited.
pub open spec fn can_edit(v: TuiView) -> bool {
    v.rows.len() > 0 && v.rows[v.selected].enabled
}

/// What a key does in the list of devices.
pub open spec fn after_normal_key(v: TuiView, key: KeyCode) -> TuiView {
    match key {
        KeyCode::Up | KeyCode::Char('k') => if v.selected > 0 {
            TuiView { selected: v.selected - 1, ..v }
        } else {
            v
        },
        KeyCode::Down | KeyCode::Char('j') => if v.selected + 1 < v.rows.len() {
            TuiView { selected: v.selected + 1, ..v }
        } else {
            v
        },
        KeyCode::Char(' ') => if v.rows.len() > 0 {
            let row = v.rows[v.selected];
            with_selected(v, RowView { enabled: !row.enabled, ..row })
        } else {
            v
        },
        KeyCode::Enter | KeyCode::Tab => if can_edit(v) {
            TuiView { mode: Mode::Editing(0), ..v }
        } else {
            v
        },
        KeyCode::Char('s') => TuiView { wants_save: true, should_quit: true, ..v },
        KeyCode::Char('q') | KeyCode::Esc => TuiView { wants_save: false, should_quit: true, ..v },
        _ => v,
    }
}

/// What a key does in a field.
pub open spec fn after_editing_key(v: TuiView, idx: usize, key: KeyCode) -> TuiView {
    let row = v.rows[v.selected];
    let fields = 1 + row.option_keys.len();
    match key {
        KeyCode::Esc => TuiView { mode: Mode::Normal, ..v },
        KeyCode::Enter | KeyCode::Tab => if idx + 1 >= fields {
            TuiView { mode: Mode::Normal, ..v }
        } else {
            TuiView { mode: Mode::Editing((idx + 1) as usize), ..v }
        },
        KeyCode::Up => if idx > 0 {
            TuiView { mode: Mode::Editing((idx - 1) as usize), ..v }
        } else {
            v
        },
        KeyCode::Down => if idx + 1 < fields {
            TuiView { mode: Mode::Editing((idx + 1) as usize), ..v }
        } else {
            v
        },
        KeyCode::Backspace => {
            let text = row_field(row, idx as int);
            with_selected(
                v,
                with_field(
                    row,
                    idx as int,
                    if text.len() > 0 {
                        text.drop_last()
                    } else {
                        text
                    },
                ),
            )
        },
        KeyCode::Char(c) => with_selected(
            v,
            with_field(row, idx as int, row_field(row, idx as int).push(c)),
        ),
        _ => v,
    }
}

/// What a key does.
pub open spec fn after_key(v: TuiView, key: KeyCode) -> TuiView {
    match v.mode {
        Mode::Normal => after_normal_key(v, key),
        Mode::Editing(idx) => after_editing_key(v, idx, key),
    }
}

/// What pasted text does: it goes to the end of the field that is edited.
pub open spec fn after_paste(v: TuiView, text: Seq<char>) -> TuiView {
    match v.mode {
        Mode::Normal => v,
        Mode::Editing(idx) => {
            let row = v.rows[v.selected];
            with_selected(v, with_field(row, idx as int, row_field(row, idx as int) + text))
        },
    }
}

/// The label of a field of the selected row.
pub open spec fn label_of(v: TuiView, idx: int) -> Seq<char> {
    let row = v.rows[v.selected];
    if idx == 0 {
        "Port"@
    } else if idx - 1 < row.option_keys.len() {
        row.option_keys[idx - 1]
    } else {
        "Unknown"@
    }
}

/// The value of a field of the selected row.
pub open spec fn value_of(v: TuiView, idx: int) -> Seq<char> {
    let row = v.rows[v.selected];
    if idx == 0 {
        row.port_str
    } else if idx - 1 < row.field_values.len() {
        row.field_values[idx - 1]
    } else {
        ""@
    }
}

impl TuiState {
    /// The invariant of the screen.
    pub open spec fn wf(&self) -> bool {
        tui_ok(self@)
    }

    /// The screen for the devices that were found. Those that were configured
    /// before are enabled, with what was saved of them.
    pub fn new(devices: Vec<DeviceInfo>, saved: Option<&HostConfig>) -> (r: TuiState)
        ensures
            r@ == fresh_tui(
                info_views(devices@),
                match saved {
                    Some(config) => Some(config@),
                    None => None,
                },
            ),
            r.wf(),
    {
        let ghost infos = info_views(devices@);
        let mut rows: Vec<DeviceRow> = Vec::new();
        let mut devices = devices;
        let ghost all = devices@;
        while devices.len() > 0
            invariant
                all.len() == rows@.len() + devices@.len(),
                infos == info_views(all),
                forall|k: int| 0 <= k < rows@.len() ==> (#[trigger] rows@[k])@ == fresh_row(infos[k]),
                forall|k: int| 0 <= k < rows@.len() ==> row_ok((#[trigger] rows@[k])@),
                forall|k: int|
                    0 <= k < devices@.len() ==> #[trigger] devices@[k] == all[k + rows@.len()],
            decreases devices.len(),
        {
            let info = devices.remove(0);
            let row = DeviceRow::new(info);
            rows.push(row);
        }
        proof {
            assert(row_views(rows@) =~= fresh_rows(infos));
        }
        if let Some(config) = saved {
            let mut i: usize = 0;
            let ghost entries = config@;
            while i < config.device.len()
                invariant
                    i <= config.device@.len(),
                    entries == config@,
                    entries.len() == config.device@.len(),
                    row_views(rows@) == with_entries(fresh_rows(infos), entries, i as int),
                    forall|k: int| 0 <= k < rows@.len() ==> row_ok((#[trigger] rows@[k])@),
                decreases config.device.len() - i,
            {
                let entry = &config.device[i];
                let ghost before = row_views(rows@);
                let at: usize = find_row(rows.as_slice(), entry);
                if at < rows.len() {
                    assert(row_ok(rows@[at as int]@));
                    rows[at].merge_entry(entry);
                    assert(row_views(rows@) =~= before.update(
                        at as int,
                        with_entry(before[at as int], entry@),
                    ));
                }
                i = i + 1;
            }
        }
        let r = TuiState {
            rows,
            selected: 0,
            mode: Mode::Normal,
            should_quit: false,
            wants_save: false,
        };
        assert forall|i: int| 0 <= i < r@.rows.len() implies row_ok(#[trigger] r@.rows[i]) by {
            assert(row_ok(r.rows@[i]@));
        }
        r
    }

    /// The selected row.
    pub fn selected_row(&self) -> (r: &DeviceRow)
        requires
            self.wf(),
            self@.rows.len() > 0,
        ensures
            r@ == self@.rows[self@.selected],
    {
        &self.rows[self.selected]
    }

    /// A field of the selected row, to be changed.
    fn get_field_value_mut(&mut self, idx: usize) -> (r: &mut String)
        requires
            old(self).wf(),
            old(self)@.rows.len() > 0,
            idx <= old(self)@.rows[old(self)@.selected].option_keys.len(),
        ensures
            r@ == row_field(old(self)@.rows[old(self)@.selected], idx as int),
            final(self)@ == with_selected(
                old(self)@,
                with_field(old(self)@.rows[old(self)@.selected], idx as int, final(r)@),
            ),
    {
        let ghost before = self@;
        assert(row_ok(before.rows[before.selected]));
        let row = &mut self.rows[self.selected];
        row.field_mut(idx)
    }

    /// The label of a field of the selected row.
    pub fn field_label(&self, idx: usize) -> (r: &str)
        requires
            self.wf(),
            self@.rows.len() > 0,
        ensures
            r@ == label_of(self@, idx as int),
    {
        if idx == 0 {
            "Port"
        } else {
            let row = self.selected_row();
            if idx - 1 < row.option_keys.len() {
                row.option_keys[idx - 1].as_str()
            } else {
                "Unknown"
            }
        }
    }

    /// The value of a field of the selected row.
    pub fn field_value(&self, idx: usize) -> (r: &str)
        requires
            self.wf(),
            self@.rows.len() > 0,
        ensures
            r@ == value_of(self@, idx as int),
    {
        let row = self.selected_row();
        if idx == 0 {
            row.port_str.as_str()
        } else if idx - 1 < row.field_values.len() {
            row.field_values[idx - 1].as_str()
        } else {
            ""
        }
    }

    /// The configuration that the screen shows: the enabled devices.
    pub fn build_config(&self) -> (r: HostConfig)
        requires
            self.wf(),
        ensures
            r@ == saved_entries(self@.rows, self@.rows.len() as int),
    {
        let mut device: Vec<DeviceEntry> = Vec::new();
        let ghost mut views: Seq<EntryView> = Seq::empty();
        let mut i: usize = 0;
        while i < self.rows.len()
            invariant
                i <= self.rows@.len(),
                self.wf(),
                views == saved_entries(self@.rows, i as int),
                views.len() == device@.len(),
                forall|k: int| 0 <= k < views.len() ==> (#[trigger] device@[k])@ == views[k],
            decreases self.rows.len() - i,
        {
            assert(row_ok(self@.rows[i as int]));
            if self.rows[i].enabled {
                let entry = self.rows[i].entry();
                proof {
                    views = views.push(entry@);
                }
                device.push(entry);
            }
            i = i + 1;
        }
        let r = HostConfig { device };
        assert(r@ =~= views);
        r
    }

    /// Serves a key.
    pub fn handle_key(&mut self, key: KeyCode)
        requires
            old(self).wf(),
        ensures
            final(self)@ == after_key(old(self)@, key),
            final(self).wf(),
    {
        match self.mode {
            Mode::Normal => self.handle_normal_key(key),
            Mode::Editing(idx) => self.handle_editing_key(idx, key),
        }
    }

    /// Takes in pasted text.
    pub fn handle_paste(&mut self, text: &str)
        requires
            old(self).wf(),
        ensures
            final(self)@ == after_paste(old(self)@, text@),
            final(self).wf(),
    {
        let ghost before = self@;
        if let Mode::Editing(idx) = self.mode {
            self.get_field_value_mut(idx).push_str(text);
            proof {
                lemma_selected_ok(before, self@);
            }
        }
    }

    fn handle_normal_key(&mut self, key: KeyCode)
        requires
            old(self).wf(),
            old(self)@.mode == Mode::Normal,
        ensures
            final(self)@ == after_normal_key(old(self)@, key),
            final(self).wf(),
    {
        let ghost before = self@;
        match key {
            KeyCode::Up | KeyCode::Char('k') => {
                if self.selected > 0 {
                    self.selected = self.selected - 1;
                }
            },
            KeyCode::Down | KeyCode::Char('j') => {
                if self.rows.len() > 0 && self.selected < self.rows.len() - 1 {
                    self.selected = self.selected + 1;
                }
            },
            KeyCode::Char(' ') => {
                if self.rows.len() > 0 {
                    let at: usize = self.selected;
                    let row = &mut self.rows[at];
                    row.enabled = !row.enabled;
                    proof {
                        assert(self@.rows =~= with_selected(
                            before,
                            RowView {
                                enabled: !before.rows[before.selected].enabled,
                                ..before.rows[before.selected]
                            },
                        ).rows);
                        lemma_selected_ok(before, self@);
                    }
                }
            },
            KeyCode::Enter | KeyCode::Tab => {
                if self.rows.len() > 0 && self.rows[self.selected].enabled {
                    self.mode = Mode::Editing(0);
                }
            },
            KeyCode::Char('s') => {
                self.wants_save = true;
                self.should_quit = true;
            },
            KeyCode::Char('q') | KeyCode::Esc => {
                self.wants_save = false;
                self.should_quit = true;
            },
            _ => {},
        }
    }

    fn handle_editing_key(&mut self, idx: usize, key: KeyCode)
        requires
            old(self).wf(),
            old(self)@.mode == Mode::Editing(idx),
        ensures
            final(self)@ == after_editing_key(old(self)@, idx, key),
            final(self).wf(),
    {
        let ghost before = self@;
        let options: usize = self.selected_row().option_keys.len();
        match key {
            KeyCode::Esc => {
                self.mode = Mode::Normal;
            },
            KeyCode::Enter | KeyCode::Tab => {
                if idx >= options {
                    self.mode = Mode::Normal;
                } else {
                    self.mode = Mode::Editing(idx + 1);
                }
            },
            KeyCode::Up => {
                if idx > 0 {
                    self.mode = Mode::Editing(idx - 1);
                }
            },
            KeyCode::Down => {
                if idx < options {
                    self.mode = Mode::Editing(idx + 1);
                }
            },
            KeyCode::Backspace => {
                let _ = self.get_field_value_mut(idx).pop();
                proof {
                    lemma_selected_ok(before, self@);
                }
            },
            KeyCode::Char(c) => {
                self.get_field_value_mut(idx).push(c);
                proof {
                    lemma_selected_ok(before, self@);
                }
            },
            _ => {},
        }
    }

    /// The field that is edited.
    pub fn editing_field(&self) -> (r: Option<usize>)
        ensures
            r == match self@.mode {
                Mode::Editing(i) => Some(i),
                Mode::Normal => None,
            },
    {
        match self.mode {
            Mode::Editing(i) => Some(i),
            Mode::Normal => None,
        }
    }
}

/// A change of the values in the selected row keeps the invariant.
proof fn lemma_selected_ok(before: TuiView, after: TuiView)
    requires
        tui_ok(before),
        before.rows.len() > 0,
        after == with_selected(before, after.rows[before.selected]),
        after.rows[before.selected].option_keys == before.rows[before.selected].option_keys,
        after.rows[before.selected].field_values.len() == before.rows[before.selected].field_values.len(),
    ensures
        tui_ok(after),
{
    assert forall|i: int| 0 <= i < after.rows.len() implies row_ok(#[trigger] after.rows[i]) by {
        assert(row_ok(before.rows[i]));
    }
}

/// The position of the row of a configured device, or the number of rows.
fn find_row(rows: &[DeviceRow], entry: &DeviceEntry) -> (r: usize)
    ensures
        r == row_position(row_views(rows@), entry@, 0),
        r <= rows@.len(),
{
    let mut i: usize = 0;
    while i < rows.len()
        invariant
            i <= rows.len(),
            row_position(row_views(rows@), entry@, i as int) == row_position(
                row_views(rows@),
                entry@,
                0,
            ),
        decreases rows.len() - i,
    {
        if same_text(rows[i].info.adapter_name.as_str(), entry.driver.as_str()) && same_text(
            rows[i].info.identifier.as_str(),
            entry.device_identifier.as_str(),
        ) {
            return i;
        }
        i = i + 1;
    }
    i
}

/// A character that was typed into a field is gone after a backspace, and
/// everything else is as before.
pub proof fn law_backspace_undoes_typing(v: TuiView, c: char)
    requires
        tui_ok(v),
        v.mode is Editing,
    ensures
        after_key(after_key(v, KeyCode::Char(c)), KeyCode::Backspace) == v,
{
    let idx = v.mode->0 as int;
    let row = v.rows[v.selected];
    assert(row_ok(row));
    let typed = after_key(v, KeyCode::Char(c));
    let text = row_field(row, idx);
    assert(text.push(c).drop_last() =~= text);
    let again = after_key(typed, KeyCode::Backspace);
    assert(again.rows[v.selected] =~= row);
    assert(again.rows =~= v.rows);
}

/// Pasting is typing the characters one after another.
pub proof fn law_paste_is_typing(v: TuiView, text: Seq<char>, c: char)
    requires
        tui_ok(v),
        v.mode is Editing,
    ensures
        after_paste(v, text.push(c)) == after_key(after_paste(v, text), KeyCode::Char(c)),
{
    let idx = v.mode->0 as int;
    let row = v.rows[v.selected];
    assert(row_ok(row));
    let field = row_field(row, idx);
    assert(field + text.push(c) =~= (field + text).push(c));
    let a = after_paste(v, text.push(c));
    let b = after_key(after_paste(v, text), KeyCode::Char(c));
    assert(a.rows[v.selected] =~= b.rows[v.selected]);
    assert(a.rows =~= b.rows);
}

/// Turning a device on and off again, or off and on, changes nothing.
pub proof fn law_toggle_twice(v: TuiView)
    requires
        tui_ok(v),
        v.mode == Mode::Normal,
    ensures
        after_key(after_key(v, KeyCode::Char(' ')), KeyCode::Char(' ')) == v,
{
    let twice = after_key(after_key(v, KeyCode::Char(' ')), KeyCode::Char(' '));
    assert(twice.rows =~= v.rows);
}

/// Every key keeps the invariant.
pub proof fn law_keys_keep_invariant(v: TuiView, key: KeyCode)
    requires
        tui_ok(v),
    ensures
        tui_ok(after_key(v, key)),
{
    let after = after_key(v, key);
    if v.rows.len() > 0 {
        assert(row_ok(v.rows[v.selected]));
    }
    assert forall|i: int| 0 <= i < after.rows.len() implies row_ok(#[trigger] after.rows[i]) by {
        assert(row_ok(v.rows[i]));
    }
}

/// Only `s` in the list of devices asks for saving; leaving with `q` or escape
/// does not.
pub proof fn law_only_s_saves(v: TuiView, key: KeyCode)
    requires
        !v.wants_save,
    ensures
        after_key(v, key).wants_save <==> v.mode == Mode::Normal && key == KeyCode::Char('s'),
        after_key(v, key).wants_save ==> after_key(v, key).should_quit,
{
}

/// What a key changes in the list of devices. The selection stays in the list
/// and moves by one row at most. Only space changes a row, and of that only
/// whether it is enabled. Editing starts with enter or tab on an enabled row,
/// and only so. Only `s`, `q` and escape end the screen.
pub proof fn law_what_keys_change(v: TuiView, key: KeyCode)
    requires
        v.mode == Mode::Normal,
        0 <= v.selected < v.rows.len() || v.rows.len() == 0 && v.selected == 0,
    ensures
        ({
            let w = after_key(v, key);
            &&& 0 <= w.selected < w.rows.len() || w.rows.len() == 0 && w.selected == 0
            &&& v.selected - 1 <= w.selected <= v.selected + 1
            &&& w.selected < v.selected ==> key == KeyCode::Up || key == KeyCode::Char('k')
            &&& w.selected > v.selected ==> key == KeyCode::Down || key == KeyCode::Char('j')
            &&& key != KeyCode::Char(' ') || v.rows.len() == 0 ==> w.rows == v.rows
            &&& key == KeyCode::Char(' ') && v.rows.len() > 0 ==> w.rows == v.rows.update(
                v.selected,
                RowView { enabled: !v.rows[v.selected].enabled, ..v.rows[v.selected] },
            )
            &&& w.mode == if (key == KeyCode::Enter || key == KeyCode::Tab) && v.rows.len() > 0
                && v.rows[v.selected].enabled {
                Mode::Editing(0)
            } else {
                Mode::Normal
            }
            &&& (w.should_quit, w.wants_save) == if key == KeyCode::Char('s') {
                (true, true)
            } else if key == KeyCode::Char('q') || key == KeyCode::Esc {
                (true, false)
            } else {
                (v.should_quit, v.wants_save)
            }
        }),
{
}

/// The digits of a number read back as that number.
pub proof fn law_decimal_reads_back(n: nat, max: nat)
    requires
        n <= max,
    ensures
        number_of(decimal(n), max) == Some(n),
{
    lemma_decimal_digits(n);
}

proof fn lemma_decimal_digits(n: nat)
    ensures
        decimal(n).len() > 0,
        forall|i: int| 0 <= i < decimal(n).len() ==> is_digit(#[trigger] decimal(n)[i]),
        digits_value(decimal(n)) == n,
    decreases n,
{
    if n < 10 {
        let d = decimal(n);
        assert(d.drop_last() =~= Seq::<char>::empty());
        assert(digits_value(d.drop_last()) == 0);
    } else {
        lemma_decimal_digits(n / 10);
        let front = decimal(n / 10);
        let d = decimal(n);
        assert(d.drop_last() =~= front);
        assert forall|i: int| 0 <= i < d.len() implies is_digit(#[trigger] d[i]) by {
            if i < front.len() {
                assert(d[i] == front[i]);
            }
        }
    }
}

/// A device that was saved is shown enabled and with its port, and saving it
/// again saves that port.
pub proof fn law_saved_port_is_kept(row: RowView, entry: EntryView)
    ensures
        with_entry(row, entry).enabled,
        saved_entry(with_entry(row, entry)).port == entry.port,
        with_entry(row, entry).info == row.info,
{
    let start = RowView { enabled: true, port_str: decimal(entry.port as nat), ..row };
    lemma_options_leave_rest(start, entry.options, entry.options.len() as int);
    law_decimal_reads_back(entry.port as nat, 65535);
}

proof fn lemma_options_leave_rest(row: RowView, options: Seq<(Seq<char>, Seq<char>)>, n: int)
    ensures
        with_options(row, options, n).enabled == row.enabled,
        with_options(row, options, n).port_str == row.port_str,
        with_options(row, options, n).info == row.info,
    decreases n,
{
    if n > 0 {
        lemma_options_leave_rest(row, options, n - 1);
    }
}

/// The keys of a row: those of its device first, none of them twice, and every
/// value in the form in which it is saved.
pub open spec fn row_settled(row: RowView) -> bool {
    &&& row_ok(row)
    &&& row.info.options.len() <= row.option_keys.len()
    &&& forall|i: int|
        0 <= i < row.info.options.len() ==> #[trigger] row.option_keys[i] == row.info.options[i].0
    &&& forall|i: int, j: int|
        0 <= i < j < row.option_keys.len() ==> (#[trigger] row.option_keys[i]) != (
        #[trigger] row.option_keys[j])
    &&& forall|i: int|
        0 <= i < row.option_keys.len() ==> sanitized(
            row.option_keys[i],
            #[trigger] row.field_values[i],
        ) == row.field_values[i]
}

/// What the screen saves of a device it shows again: the device is enabled,
/// and its options have the saved values, in the same order.
pub proof fn law_saved_options_are_shown(row: RowView)
    requires
        row_settled(row),
    ensures
        with_entry(fresh_row(row.info), saved_entry(row)).enabled,
        with_entry(fresh_row(row.info), saved_entry(row)).option_keys == row.option_keys,
        with_entry(fresh_row(row.info), saved_entry(row)).field_values == row.field_values,
{
    let total = row.option_keys.len() as int;
    let entry = saved_entry(row);
    let start = RowView {
        enabled: true,
        port_str: decimal(entry.port as nat),
        ..fresh_row(row.info)
    };
    lemma_saved_options(row, total);
    lemma_options_leave_rest(start, entry.options, total);
    lemma_merged_options(row, start, entry.options, total);
    let shown = with_options(start, entry.options, total);
    assert(shown.option_keys =~= row.option_keys);
    assert(shown.field_values =~= row.field_values);
}

/// Options with different keys are saved in their order.
proof fn lemma_saved_options(row: RowView, n: int)
    requires
        row_settled(row),
        0 <= n <= row.option_keys.len(),
    ensures
        saved_options(row, n) == Seq::new(
            n as nat,
            |i: int| (row.option_keys[i], row.field_values[i]),
        ),
    decreases n,
{
    let pairs = Seq::new(n as nat, |i: int| (row.option_keys[i], row.field_values[i]));
    if n > 0 {
        let front = saved_options(row, n - 1);
        lemma_saved_options(row, n - 1);
        let key = row.option_keys[n - 1];
        lemma_key_position(front, key, 0);
        let at = key_position(front, key, 0);
        if at < front.len() {
            assert(row.option_keys[at] != row.option_keys[n - 1]);
        }
        assert(row.field_values[n - 1] == sanitized(key, row.field_values[n - 1]));
        assert(front.push((key, row.field_values[n - 1])) =~= pairs);
    } else {
        assert(pairs =~= Seq::<(Seq<char>, Seq<char>)>::empty());
    }
}

proof fn lemma_text_position(texts: Seq<Seq<char>>, text: Seq<char>, i: int)
    requires
        0 <= i <= texts.len(),
    ensures
        i <= text_position(texts, text, i) <= texts.len(),
        text_position(texts, text, i) < texts.len() ==> texts[text_position(texts, text, i)]
            == text,
        forall|k: int| i <= k < text_position(texts, text, i) ==> (#[trigger] texts[k]) != text,
    decreases texts.len() - i,
{
    if i < texts.len() && texts[i] != text {
        lemma_text_position(texts, text, i + 1);
    }
}

/// Saved options fall on the options of the device in their places, and the
/// others join in their order.
proof fn lemma_merged_options(
    row: RowView,
    start: RowView,
    options: Seq<(Seq<char>, Seq<char>)>,
    n: int,
)
    requires
        row_settled(row),
        0 <= n <= row.option_keys.len(),
        options == Seq::new(
            row.option_keys.len(),
            |i: int| (row.option_keys[i], row.field_values[i]),
        ),
        start.option_keys == fresh_row(row.info).option_keys,
        start.field_values == fresh_row(row.info).field_values,
    ensures
        ({
            let shown = with_options(start, options, n);
            let m = row.info.options.len() as int;
            &&& shown.option_keys == row.option_keys.take(
                if n <= m {
                    m
                } else {
                    n
                },
            )
            &&& shown.field_values.len() == shown.option_keys.len()
            &&& forall|i: int|
                0 <= i < n ==> #[trigger] shown.field_values[i] == row.field_values[i]
        }),
    decreases n,
{
    let m = row.info.options.len() as int;
    if n == 0 {
        assert(start.option_keys =~= row.option_keys.take(m));
    } else {
        lemma_merged_options(row, start, options, n - 1);
        let before = with_options(start, options, n - 1);
        let key = row.option_keys[n - 1];
        lemma_text_position(before.option_keys, key, 0);
        let at = text_position(before.option_keys, key, 0);
        if at < before.option_keys.len() {
            assert(row.option_keys[at] == key);
            if at < n - 1 {
                assert(row.option_keys[at] != row.option_keys[n - 1]);
            }
            if at > n - 1 {
                assert(row.option_keys[n - 1] != row.option_keys[at]);
            }
        } else if n <= m {
            assert(before.option_keys[n - 1] == key);
        } else {
            assert(before.option_keys.push(key) =~= row.option_keys.take(n));
        }
    }
}

/// The number of enabled rows among the first `n`.
pub open spec fn enabled_count(rows: Seq<RowView>, n: int) -> int
    decreases n,
{
    if n <= 0 {
        0
    } else {
        enabled_count(rows, n - 1) + (if rows[n - 1].enabled {
            1int
        } else {
            0int
        })
    }
}

/// Exactly the enabled rows are saved, in their order: each stands behind as
/// many others as are enabled before it, and there are no others.
pub proof fn law_enabled_rows_are_saved(rows: Seq<RowView>, n: int, i: int)
    requires
        0 <= i < n <= rows.len(),
    ensures
        enabled_count(rows, 0) == 0,
        enabled_count(rows, i + 1) == enabled_count(rows, i) + (if rows[i].enabled {
            1int
        } else {
            0int
        }),
        saved_entries(rows, n).len() == enabled_count(rows, n),
        rows[i].enabled ==> 0 <= enabled_count(rows, i) < saved_entries(rows, n).len()
            && saved_entries(rows, n)[enabled_count(rows, i)] == saved_entry(rows[i]),
    decreases n,
{
    lemma_saved_count(rows, i);
    lemma_saved_count(rows, n - 1);
    if i < n - 1 {
        law_enabled_rows_are_saved(rows, n - 1, i);
    }
}

proof fn lemma_saved_count(rows: Seq<RowView>, n: int)
    ensures
        enabled_count(rows, n) >= 0,
        saved_entries(rows, n).len() == enabled_count(rows, n),
    decreases n,
{
    if n > 0 {
        lemma_saved_count(rows, n - 1);
    }
}

/// Turning a device on adds it to what is saved, and turning it off takes it
/// out; the other devices are saved as before.
pub proof fn law_switching_saves_one_more(rows: Seq<RowView>, n: int, i: int)
    requires
        0 <= i < n <= rows.len(),
        !rows[i].enabled,
    ensures
        ({
            let on = rows.update(i, RowView { enabled: true, ..rows[i] });
            saved_entries(on, n) == saved_entries(rows, n).insert(
                enabled_count(rows, i),
                saved_entry(rows[i]),
            )
        }),
    decreases n,
{
    let on = rows.update(i, RowView { enabled: true, ..rows[i] });
    lemma_saved_count(rows, n - 1);
    lemma_saved_count(rows, i);
    lemma_entry_ignores_enabled(rows[i]);
    if i == n - 1 {
        lemma_saved_front(rows, on, n - 1);
        assert(saved_entries(on, n) =~= saved_entries(rows, n).insert(
            enabled_count(rows, i),
            saved_entry(rows[i]),
        ));
    } else {
        law_switching_saves_one_more(rows, n - 1, i);
        law_enabled_rows_are_saved(rows, n, i);
        lemma_count_grows(rows, i, n - 1);
        assert(saved_entries(on, n) =~= saved_entries(rows, n).insert(
            enabled_count(rows, i),
            saved_entry(rows[i]),
        ));
    }
}

proof fn lemma_entry_ignores_enabled(row: RowView)
    ensures
        saved_entry(RowView { enabled: true, ..row }) == saved_entry(row),
{
    lemma_options_ignore_enabled(row, row.option_keys.len() as int);
}

proof fn lemma_options_ignore_enabled(row: RowView, n: int)
    ensures
        saved_options(RowView { enabled: true, ..row }, n) == saved_options(row, n),
    decreases n,
{
    if n > 0 {
        lemma_options_ignore_enabled(row, n - 1);
    }
}

proof fn lemma_count_grows(rows: Seq<RowView>, i: int, n: int)
    requires
        0 <= i <= n,
    ensures
        enabled_count(rows, i) <= enabled_count(rows, n),
    decreases n - i,
{
    if i < n {
        lemma_count_grows(rows, i, n - 1);
    }
}

proof fn lemma_saved_front(a: Seq<RowView>, b: Seq<RowView>, n: int)
    requires
        n <= a.len(),
        n <= b.len(),
        forall|k: int| 0 <= k < n ==> a[k] == b[k],
    ensures
        saved_entries(a, n) == saved_entries(b, n),
    decreases n,
{
    if n > 0 {
        lemma_saved_front(a, b, n - 1);
    }
}

/// What is saved of a device: its adapter, its identifier and its name as they
/// were found; the port in the field, or that of the device where the field
/// holds none; and each option with what its field holds.
pub proof fn law_saved_entry(row: RowView, port: u16, i: int)
    requires
        row_ok(row),
        0 <= i < row.option_keys.len(),
        forall|a: int, b: int|
            0 <= a < b < row.option_keys.len() ==> (#[trigger] row.option_keys[a]) != (
            #[trigger] row.option_keys[b]),
    ensures
        ({
            let e = saved_entry(row);
            &&& e.driver == row.info.adapter_name
            &&& e.device_identifier == row.info.identifier
            &&& e.device_name == row.info.name
            &&& row.port_str == decimal(port as nat) ==> e.port == port
            &&& (row.port_str.len() == 0 || exists|k: int|
                1 <= k < row.port_str.len() && !('0' <= #[trigger] row.port_str[k] <= '9'))
                ==> e.port == row.info.default_port
            &&& e.options.len() == row.option_keys.len()
            &&& e.options[i].0 == row.option_keys[i]
            &&& row.option_keys[i] != "file_path"@ ==> e.options[i].1 == row.field_values[i]
            &&& e.options[i].1 == sanitized(row.option_keys[i], row.field_values[i])
        }),
{
    lemma_saved_pairs(row, row.option_keys.len() as int);
    if row.port_str == decimal(port as nat) {
        law_decimal_reads_back(port as nat, 65535);
        lemma_decimal_digits(port as nat);
    }
    let text = row.port_str;
    if exists|k: int| 1 <= k < text.len() && !('0' <= #[trigger] text[k] <= '9') {
        let k = choose|k: int| 1 <= k < text.len() && !('0' <= #[trigger] text[k] <= '9');
        let d = unsigned_digits(text);
        if text[0] == '+' {
            assert(d[k - 1] == text[k]);
        }
        assert(exists|j: int| 0 <= j < d.len() && !is_digit(#[trigger] d[j]));
    }
}

proof fn lemma_saved_pairs(row: RowView, n: int)
    requires
        0 <= n <= row.option_keys.len(),
        row_ok(row),
        forall|a: int, b: int|
            0 <= a < b < row.option_keys.len() ==> (#[trigger] row.option_keys[a]) != (
            #[trigger] row.option_keys[b]),
    ensures
        saved_options(row, n) == Seq::new(
            n as nat,
            |i: int| (row.option_keys[i], sanitized(row.option_keys[i], row.field_values[i])),
        ),
    decreases n,
{
    let pairs = Seq::new(
        n as nat,
        |i: int| (row.option_keys[i], sanitized(row.option_keys[i], row.field_values[i])),
    );
    if n > 0 {
        let front = saved_options(row, n - 1);
        lemma_saved_pairs(row, n - 1);
        let key = row.option_keys[n - 1];
        lemma_key_position(front, key, 0);
        let at = key_position(front, key, 0);
        if at < front.len() {
            assert(row.option_keys[at] != row.option_keys[n - 1]);
        }
        assert(front.push((key, sanitized(key, row.field_values[n - 1]))) =~= pairs);
    } else {
        assert(pairs =~= Seq::<(Seq<char>, Seq<char>)>::empty());
    }
}

/// A path in a pair of quotes is saved without them, and spaces around it do
/// not matter; a path without either is saved as it is, and so is the value of
/// any other option.
pub proof fn law_paths_are_cleaned(key: Seq<char>, value: Seq<char>, quote: char)
    requires
        quote == '"' || quote == '\'',
    ensures
        key != "file_path"@ ==> sanitized(key, value) == value,
        sanitized("file_path"@, seq![quote] + value + seq![quote]) == value,
        sanitized("file_path"@, seq![' '] + value) == sanitized("file_path"@, value),
        sanitized("file_path"@, value.push(' ')) == sanitized("file_path"@, value),
        value.len() > 0 && !is_space(value[0]) && !is_space(value.last()) && value[0] != '"'
            && value[0] != '\'' ==> sanitized("file_path"@, value) == value,
        sanitized("file_path"@, seq![quote]) == seq![quote],
        value.len() > 0 && !is_space(value.last()) && value.last() != quote ==> sanitized(
            "file_path"@,
            seq![quote] + value,
        ) == seq![quote] + value,
{
    let q = seq![quote] + value + seq![quote];
    law_trimming(value, ' ');
    lemma_nothing_to_trim(q);
    assert(q.subrange(1, q.len() - 1) =~= value);
    lemma_nothing_to_trim(seq![quote]);
    if value.len() > 0 && !is_space(value.last()) {
        assert((seq![quote] + value).last() == value.last());
        lemma_nothing_to_trim(seq![quote] + value);
    }
    if value.len() > 0 && !is_space(value[0]) && !is_space(value.last()) {
        lemma_nothing_to_trim(value);
    }
}

/// A device that was just found is off, with the port and the options that it
/// was found with.
pub proof fn law_fresh_rows(devices: Seq<InfoView>, i: int, k: int)
    requires
        0 <= i < devices.len(),
        0 <= k < devices[i].options.len(),
    ensures
        ({
            let v = fresh_tui(devices, None);
            &&& v.rows.len() == devices.len()
            &&& v.selected == 0 && v.mode == Mode::Normal && !v.should_quit && !v.wants_save
            &&& v.rows[i].info == devices[i] && !v.rows[i].enabled
            &&& number_of(v.rows[i].port_str, 65535) == Some(devices[i].default_port as nat)
            &&& v.rows[i].option_keys.len() == devices[i].options.len()
            &&& v.rows[i].field_values.len() == devices[i].options.len()
            &&& v.rows[i].option_keys[k] == devices[i].options[k].0
            &&& v.rows[i].field_values[k] == devices[i].options[k].1
        }),
{
    law_decimal_reads_back(devices[i].default_port as nat, 65535);
}

/// The row and the saved device are the same device.
pub open spec fn is_row_of(row: RowView, entry: EntryView) -> bool {
    row.info.adapter_name == entry.driver && row.info.identifier == entry.device_identifier
}

/// Exactly the devices that were saved before are on when the screen starts.
/// A device that was not saved is shown as it was found.
pub proof fn law_saved_devices_are_on(devices: Seq<InfoView>, entries: Seq<EntryView>, i: int)
    requires
        0 <= i < devices.len(),
        forall|a: int, b: int|
            0 <= a < b < devices.len() ==> (#[trigger] devices[a]).adapter_name != (
            #[trigger] devices[b]).adapter_name || devices[a].identifier != devices[b].identifier,
    ensures
        ({
            let v = fresh_tui(devices, Some(entries));
            let saved = exists|k: int|
                0 <= k < entries.len() && (#[trigger] entries[k]).driver
                    == devices[i].adapter_name && entries[k].device_identifier
                    == devices[i].identifier;
            &&& v.rows.len() == devices.len()
            &&& v.selected == 0 && v.mode == Mode::Normal && !v.should_quit && !v.wants_save
            &&& v.rows[i].info == devices[i]
            &&& v.rows[i].enabled == saved
            &&& !saved ==> v.rows[i] == fresh_tui(devices, None).rows[i]
        }),
{
    lemma_entries_by_row(fresh_rows(devices), entries, entries.len() as int, i);
    let saved = exists|k: int|
        0 <= k < entries.len() && (#[trigger] entries[k]).driver == devices[i].adapter_name
            && entries[k].device_identifier == devices[i].identifier;
    if saved {
        let k = choose|k: int|
            0 <= k < entries.len() && (#[trigger] entries[k]).driver == devices[i].adapter_name
                && entries[k].device_identifier == devices[i].identifier;
        assert(is_row_of(fresh_rows(devices)[i], entries[k]));
    }
}

/// Where a device was saved once, its row shows the port and every option that
/// was saved.
pub proof fn law_saved_values_are_shown(
    devices: Seq<InfoView>,
    entry: EntryView,
    i: int,
    k: int,
)
    requires
        0 <= i < devices.len(),
        entry.driver == devices[i].adapter_name,
        entry.device_identifier == devices[i].identifier,
        forall|a: int|
            0 <= a < i ==> (#[trigger] devices[a]).adapter_name != entry.driver
                || devices[a].identifier != entry.device_identifier,
        0 <= k < entry.options.len(),
        forall|a: int, b: int|
            0 <= a < b < entry.options.len() ==> (#[trigger] entry.options[a]).0 != (
            #[trigger] entry.options[b]).0,
    ensures
        ({
            let row = fresh_tui(devices, Some(seq![entry])).rows[i];
            &&& number_of(row.port_str, 65535) == Some(entry.port as nat)
            &&& exists|at: int|
                0 <= at < row.option_keys.len() && #[trigger] row.option_keys[at]
                    == entry.options[k].0 && row.field_values[at] == entry.options[k].1
        }),
{
    let rows = fresh_rows(devices);
    let entries = seq![entry];
    assert(with_entries(rows, entries, 0) == rows);
    lemma_row_position(rows, entry, 0);
    let at = row_position(rows, entry, 0);
    assert(at == i) by {
        if at < i {
            assert(devices[at].adapter_name != entry.driver || devices[at].identifier
                != entry.device_identifier);
        }
        if at > i {
            assert(!is_row_of(rows[i], entry));
        }
    }
    assert(with_entries(rows, entries, 1) == rows.update(at, with_entry(rows[at], entry)));
    law_decimal_reads_back(entry.port as nat, 65535);
    let start = RowView { enabled: true, port_str: decimal(entry.port as nat), ..rows[i] };
    lemma_options_leave_rest(start, entry.options, entry.options.len() as int);
    lemma_option_arrives(start, entry.options, entry.options.len() as int, k);
}

/// What an option is in the row.
pub open spec fn holds_option(row: RowView, key: Seq<char>, value: Seq<char>) -> bool {
    exists|at: int|
        0 <= at < row.option_keys.len() && #[trigger] row.option_keys[at] == key
            && row.field_values[at] == value
}

proof fn lemma_option_arrives(
    row: RowView,
    options: Seq<(Seq<char>, Seq<char>)>,
    n: int,
    k: int,
)
    requires
        row_ok(row),
        0 <= k < n <= options.len(),
        forall|a: int, b: int|
            0 <= a < b < options.len() ==> (#[trigger] options[a]).0 != (#[trigger] options[b]).0,
    ensures
        holds_option(with_options(row, options, n), options[k].0, options[k].1),
        row_ok(with_options(row, options, n)),
    decreases n,
{
    let before = with_options(row, options, n - 1);
    lemma_options_keep_row_ok(row, options, n - 1);
    let (key, value) = options[n - 1];
    lemma_text_position(before.option_keys, key, 0);
    let at = text_position(before.option_keys, key, 0);
    let after = with_options(row, options, n);
    if k == n - 1 {
        assert(after.option_keys[at] == key && after.field_values[at] == value);
    } else {
        lemma_option_arrives(row, options, n - 1, k);
        let p = choose|p: int|
            0 <= p < before.option_keys.len() && #[trigger] before.option_keys[p] == options[k].0
                && before.field_values[p] == options[k].1;
        assert(options[k].0 != options[n - 1].0);
        assert(after.option_keys[p] == options[k].0 && after.field_values[p] == options[k].1);
    }
}

proof fn lemma_options_keep_row_ok(row: RowView, options: Seq<(Seq<char>, Seq<char>)>, n: int)
    requires
        row_ok(row),
    ensures
        row_ok(with_options(row, options, n)),
    decreases n,
{
    if n > 0 {
        lemma_options_keep_row_ok(row, options, n - 1);
        let before = with_options(row, options, n - 1);
        lemma_text_position(before.option_keys, options[n - 1].0, 0);
    }
}

proof fn lemma_row_position(rows: Seq<RowView>, entry: EntryView, i: int)
    requires
        0 <= i <= rows.len(),
    ensures
        i <= row_position(rows, entry, i) <= rows.len(),
        row_position(rows, entry, i) < rows.len() ==> is_row_of(
            rows[row_position(rows, entry, i)],
            entry,
        ),
        forall|k: int|
            i <= k < row_position(rows, entry, i) ==> !is_row_of(#[trigger] rows[k], entry),
    decreases rows.len() - i,
{
    if i < rows.len() && !is_row_of(rows[i], entry) {
        lemma_row_position(rows, entry, i + 1);
    }
}

proof fn lemma_entries_by_row(rows: Seq<RowView>, entries: Seq<EntryView>, n: int, i: int)
    requires
        0 <= i < rows.len(),
        0 <= n <= entries.len(),
        forall|a: int, b: int|
            0 <= a < b < rows.len() ==> (#[trigger] rows[a]).info.adapter_name != (
            #[trigger] rows[b]).info.adapter_name || rows[a].info.identifier
                != rows[b].info.identifier,
    ensures
        with_entries(rows, entries, n).len() == rows.len(),
        forall|j: int|
            0 <= j < rows.len() ==> (#[trigger] with_entries(rows, entries, n)[j]).info
                == rows[j].info,
        (exists|k: int| 0 <= k < n && is_row_of(rows[i], #[trigger] entries[k])) ==> with_entries(
            rows,
            entries,
            n,
        )[i].enabled,
        !(exists|k: int| 0 <= k < n && is_row_of(rows[i], #[trigger] entries[k]))
            ==> with_entries(rows, entries, n)[i] == rows[i],
    decreases n,
{
    if n > 0 {
        lemma_entries_by_row(rows, entries, n - 1, i);
        let before = with_entries(rows, entries, n - 1);
        let entry = entries[n - 1];
        lemma_row_position(before, entry, 0);
        let at = row_position(before, entry, 0);
        if at < before.len() {
            let start = RowView {
                enabled: true,
                port_str: decimal(entry.port as nat),
                ..before[at]
            };
            lemma_options_leave_rest(start, entry.options, entry.options.len() as int);
            assert(is_row_of(before[at], entry));
            if at != i && is_row_of(rows[i], entry) {
                assert(before[i].info == rows[i].info);
                assert(before[at].info == rows[at].info);
                if at < i {
                    assert(rows[at].info.adapter_name != rows[i].info.adapter_name
                        || rows[at].info.identifier != rows[i].info.identifier);
                } else {
                    assert(rows[i].info.adapter_name != rows[at].info.adapter_name
                        || rows[i].info.identifier != rows[at].info.identifier);
                }
            }
        } else {
            assert(before[i].info == rows[i].info);
            assert(!is_row_of(before[i], entry));
        }
        let after = with_entries(rows, entries, n);
        if is_row_of(rows[i], entry) {
            assert(after[i].enabled);
        }
    }
}

/// What a key changes in a field. Characters and backspace change the end of
/// the field that is edited and no other field of any row; the other keys move
/// between the fields, and past the last one or with escape back to the list.
pub proof fn law_what_keys_change_in_a_field(v: TuiView, idx: usize, key: KeyCode, i: int, f: int)
    requires
        tui_ok(v),
        v.mode == Mode::Editing(idx),
        0 <= i < v.rows.len(),
        0 <= f <= v.rows[i].option_keys.len(),
    ensures
        ({
            let w = after_key(v, key);
            let last = v.rows[v.selected].option_keys.len();
            let here = i == v.selected && f == idx;
            let old_text = if f == 0 {
                v.rows[i].port_str
            } else {
                v.rows[i].field_values[f - 1]
            };
            let new_text = if f == 0 {
                w.rows[i].port_str
            } else {
                w.rows[i].field_values[f - 1]
            };
            &&& w.rows.len() == v.rows.len() && w.selected == v.selected
            &&& w.should_quit == v.should_quit && w.wants_save == v.wants_save
            &&& w.rows[i].info == v.rows[i].info && w.rows[i].enabled == v.rows[i].enabled
                && w.rows[i].option_keys == v.rows[i].option_keys
            &&& !here ==> new_text == old_text
            &&& here ==> match key {
                KeyCode::Char(c) => new_text.len() == old_text.len() + 1 && new_text.last() == c
                    && new_text.drop_last() == old_text,
                KeyCode::Backspace => if old_text.len() == 0 {
                    new_text == old_text
                } else {
                    new_text == old_text.take(old_text.len() - 1)
                },
                _ => new_text == old_text,
            }
            &&& w.mode == match key {
                KeyCode::Esc => Mode::Normal,
                KeyCode::Enter | KeyCode::Tab => if idx < last {
                    Mode::Editing((idx + 1) as usize)
                } else {
                    Mode::Normal
                },
                KeyCode::Down => if idx < last {
                    Mode::Editing((idx + 1) as usize)
                } else {
                    v.mode
                },
                KeyCode::Up => if idx > 0 {
                    Mode::Editing((idx - 1) as usize)
                } else {
                    v.mode
                },
                _ => v.mode,
            }
        }),
{
    let row = v.rows[v.selected];
    assert(row_ok(row));
    assert(row_ok(v.rows[i]));
    let text = row_field(row, idx as int);
    if let KeyCode::Char(c) = key {
        assert(text.push(c).drop_last() =~= text);
    }
    if text.len() > 0 {
        assert(text.drop_last() =~= text.take(text.len() - 1));
    }
}

/// Pasted text joins the end of the field that is edited; in the list of
/// devices it does nothing.
pub proof fn law_pasting(v: TuiView, text: Seq<char>)
    requires
        tui_ok(v),
    ensures
        v.mode == Mode::Normal ==> after_paste(v, text) == v,
        v.mode matches Mode::Editing(idx) ==> {
            let w = after_paste(v, text);
            let old_row = v.rows[v.selected];
            let new_row = w.rows[v.selected];
            &&& w.mode == v.mode && w.selected == v.selected
            &&& idx == 0 ==> new_row.port_str == old_row.port_str + text && new_row.field_values
                == old_row.field_values
            &&& idx > 0 ==> new_row.port_str == old_row.port_str && new_row.field_values[idx - 1]
                == old_row.field_values[idx - 1] + text
        },
{
    if let Mode::Editing(idx) = v.mode {
        assert(row_ok(v.rows[v.selected]));
    }
}

/// The first field is the port, and the others are the options, each with its
/// key and its value.
pub proof fn law_fields_are_shown(v: TuiView, k: int)
    requires
        tui_ok(v),
        v.rows.len() > 0,
        0 <= k < v.rows[v.selected].option_keys.len(),
    ensures
        label_of(v, 0) == "Port"@,
        value_of(v, 0) == v.rows[v.selected].port_str,
        label_of(v, k + 1) == v.rows[v.selected].option_keys[k],
        value_of(v, k + 1) == v.rows[v.selected].field_values[k],
{
    assert(row_ok(v.rows[v.selected]));
}

} // verus!
