//! The lines that the configuration screen for the built-in drivers shows.
use crate::host::tui::{driver_row_ok, DriverRow, DriverRowView, Mode, ScreenView, TuiState};
use crate::host::ui::render::{repeat_char, repeated};
use crate::text::{contains_text, occurs_in};
use vstd::prelude::*;

verus! {

/// Lines on the screen that one driver takes up.
pub const ROW_HEIGHT: usize = 4;

/// Colours of text.
#[derive(Debug, Clone, Copy, PartialEq, Eq, Structural)]
pub enum TextColor {
    Yellow,
    Green,
    White,
    DarkGray,
    Red,
}

/// How text is shown.
#[derive(Debug, Clone, Copy, PartialEq, Eq, Structural)]
pub struct TextStyle {
    pub foreground: Option<TextColor>,
    pub background: Option<TextColor>,
    pub bold: bool,
}

/// A piece of a line.
#[derive(Debug)]
pub struct Span {
    pub text: String,
    pub style: TextStyle,
}

/// The mathematical content of a [`Span`].
#[verifier::ext_equal]
pub struct SpanView {
    pub text: Seq<char>,
    pub style: TextStyle,
}

impl View for Span {
    type V = SpanView;

    open spec fn view(&self) -> SpanView {
        SpanView { text: self.text@, style: self.style }
    }
}

/// The content of a line.
pub open spec fn line_view(line: Seq<Span>) -> Seq<SpanView> {
    Seq::new(line.len(), |i: int| line[i]@)
}

/// The content of several lines.
pub open spec fn line_views(lines: Seq<Vec<Span>>) -> Seq<Seq<SpanView>> {
    Seq::new(lines.len(), |i: int| line_view(lines[i]@))
}

/// Text without a style.
pub open spec fn plain() -> TextStyle {
    TextStyle { foreground: None, background: None, bold: false }
}

/// Text in a colour.
pub open spec fn colored(c: TextColor) -> TextStyle {
    TextStyle { foreground: Some(c), background: None, bold: false }
}

/// The style of a field that is edited.
pub open spec fn highlighted() -> TextStyle {
    TextStyle {
        foreground: Some(TextColor::White),
        background: Some(TextColor::DarkGray),
        bold: false,
    }
}

/// The style of the name of a driver.
pub open spec fn name_style(is_selected: bool, enabled: bool) -> TextStyle {
    if is_selected {
        TextStyle { foreground: Some(TextColor::Yellow), background: None, bold: true }
    } else if enabled {
        colored(TextColor::Green)
    } else {
        colored(TextColor::DarkGray)
    }
}

/// The line with the name of a driver.
pub open spec fn name_line(row: DriverRowView, is_selected: bool) -> Seq<SpanView> {
    seq![
        SpanView {
            text: if row.enabled {
                "[x]"@
            } else {
                "[ ]"@
            },
            style: if is_selected {
                colored(TextColor::Yellow)
            } else {
                plain()
            },
        },
        SpanView { text: " "@, style: plain() },
        SpanView { text: row.info.name, style: name_style(is_selected, row.enabled) },
        SpanView { text: "  "@, style: plain() },
        SpanView { text: row.info.description, style: colored(TextColor::DarkGray) },
    ]
}

/// A line with a field: its label, and its value in brackets.
pub open spec fn field_line(label: Seq<char>, value: Seq<char>, style: TextStyle) -> Seq<SpanView> {
    seq![
        SpanView { text: "    "@, style: plain() },
        SpanView { text: label + ": ["@ + value + "]"@, style },
    ]
}

/// The line with the port of a driver.
pub open spec fn port_line(v: ScreenView, i: int) -> Seq<SpanView> {
    field_line(
        "Port"@,
        v.rows[i].port_str,
        if i == v.selected && v.mode == Mode::Editing(0) {
            highlighted()
        } else {
            colored(TextColor::White)
        },
    )
}

/// The line with a setting of a driver.
pub open spec fn setting_line(v: ScreenView, i: int, k: int) -> Seq<SpanView> {
    field_line(
        v.rows[i].info.fields[k].label,
        v.rows[i].field_values[k],
        if i == v.selected && v.mode == Mode::Editing((k + 1) as usize) {
            highlighted()
        } else {
            plain()
        },
    )
}

/// The line between two drivers.
pub open spec fn separator(width: u16) -> Seq<SpanView> {
    seq![
        SpanView { text: repeated('─', width as int), style: colored(TextColor::DarkGray) },
    ]
}

/// The lines of the first `n` settings of a driver.
pub open spec fn setting_lines(v: ScreenView, i: int, n: int) -> Seq<Seq<SpanView>>
    decreases n,
{
    if n <= 0 {
        Seq::empty()
    } else {
        setting_lines(v, i, n - 1).push(setting_line(v, i, n - 1))
    }
}

/// The lines of a driver: its name, its fields if it is enabled, and a line
/// under it if it is not the last one.
pub open spec fn row_lines(v: ScreenView, i: int, width: u16) -> Seq<Seq<SpanView>> {
    seq![name_line(v.rows[i], i == v.selected)] + (if v.rows[i].enabled {
        seq![port_line(v, i)] + setting_lines(v, i, v.rows[i].info.fields.len() as int)
    } else {
        Seq::empty()
    }) + (if i + 1 < v.rows.len() {
        seq![separator(width)]
    } else {
        Seq::empty()
    })
}

/// The lines of the first `n` drivers.
pub open spec fn screen_lines(v: ScreenView, n: int, width: u16) -> Seq<Seq<SpanView>>
    decreases n,
{
    if n <= 0 {
        Seq::empty()
    } else {
        screen_lines(v, n - 1, width) + row_lines(v, n - 1, width)
    }
}

/// By how many lines the list is scrolled in an area of this height.
pub open spec fn scrolled(v: ScreenView, height: u16) -> int {
    let visible = (if height >= 2 {
        height - 2
    } else {
        0
    }) / ROW_HEIGHT as int;
    if v.selected >= visible / 2 {
        v.selected - visible / 2
    } else {
        0
    }
}

fn span(text: &str, style: TextStyle) -> (r: Span)
    ensures
        r@ == (SpanView { text: text@, style }),
{
    Span { text: text.to_owned(), style }
}

fn plain_style() -> (r: TextStyle)
    ensures
        r == plain(),
{
    TextStyle { foreground: None, background: None, bold: false }
}

fn color_style(c: TextColor) -> (r: TextStyle)
    ensures
        r == colored(c),
{
    TextStyle { foreground: Some(c), background: None, bold: false }
}

fn highlight_style() -> (r: TextStyle)
    ensures
        r == highlighted(),
{
    TextStyle {
        foreground: Some(TextColor::White),
        background: Some(TextColor::DarkGray),
        bold: false,
    }
}

fn make_field_line(label: &str, value: &str, style: TextStyle) -> (r: Vec<Span>)
    ensures
        line_view(r@) == field_line(label@, value@, style),
{
    let mut text = label.to_owned();
    text.push_str(": [");
    text.push_str(value);
    text.push_str("]");
    let mut line: Vec<Span> = Vec::new();
    line.push(span("    ", plain_style()));
    line.push(span(text.as_str(), style));
    assert(line_view(line@) =~= field_line(label@, value@, style));
    line
}

fn make_name_line(row: &DriverRow, is_selected: bool) -> (r: Vec<Span>)
    ensures
        line_view(r@) == name_line(row@, is_selected),
{
    let checkbox = if row.enabled {
        "[x]"
    } else {
        "[ ]"
    };
    let box_style = if is_selected {
        color_style(TextColor::Yellow)
    } else {
        plain_style()
    };
    let style = if is_selected {
        TextStyle { foreground: Some(TextColor::Yellow), background: None, bold: true }
    } else if row.enabled {
        color_style(TextColor::Green)
    } else {
        color_style(TextColor::DarkGray)
    };
    let mut line: Vec<Span> = Vec::new();
    line.push(span(checkbox, box_style));
    line.push(span(" ", plain_style()));
    line.push(span(row.info.name, style));
    line.push(span("  ", plain_style()));
    line.push(span(row.info.description, color_style(TextColor::DarkGray)));
    assert(line_view(line@) =~= name_line(row@, is_selected));
    line
}

/// Appends a line.
fn push_line(lines: &mut Vec<Vec<Span>>, line: Vec<Span>)
    ensures
        line_views(final(lines)@) == line_views(old(lines)@).push(line_view(line@)),
{
    let ghost before = line_views(lines@);
    let ghost l = line_view(line@);
    lines.push(line);
    assert(line_views(lines@) =~= before.push(l));
}

/// Appends the lines of the fields of an enabled driver.
fn push_fields(lines: &mut Vec<Vec<Span>>, state: &TuiState, i: usize)
    requires
        state.wf(),
        i < state@.rows.len(),
    ensures
        line_views(final(lines)@) == line_views(old(lines)@) + (seq![port_line(state@, i as int)]
            + setting_lines(
            state@,
            i as int,
            state@.rows[i as int].info.fields.len() as int,
        )),
{
    let ghost v = state@;
    let ghost before = line_views(lines@);
    let row = &state.rows[i];
    assert(driver_row_ok(v.rows[i as int]));
    assert(row@ == v.rows[i as int]);
    let port_style = if i == state.selected && state.mode == Mode::Editing(0) {
        highlight_style()
    } else {
        color_style(TextColor::White)
    };
    push_line(lines, make_field_line("Port", row.port_str.as_str(), port_style));
    let mut k: usize = 0;
    assert(row@.field_values.len() == row@.info.fields.len());
    proof {
        assert(line_views(lines@) =~= before + (seq![port_line(v, i as int)] + setting_lines(
            v,
            i as int,
            0,
        )));
    }
    while k < row.info.fields.len()
        invariant
            k <= row.info.fields@.len(),
            row.field_values@.len() == row.info.fields@.len(),
            row@.info.fields.len() < usize::MAX,
            v == state@,
            row@ == v.rows[i as int],
            line_views(lines@) == before + (seq![port_line(v, i as int)] + setting_lines(
                v,
                i as int,
                k as int,
            )),
        decreases row.info.fields.len() - k,
    {
        let style = if i == state.selected && state.mode == Mode::Editing(k + 1) {
            highlight_style()
        } else {
            plain_style()
        };
        push_line(
            lines,
            make_field_line(row.info.fields[k].label, row.field_values[k].as_str(), style),
        );
        proof {
            let front = seq![port_line(v, i as int)];
            let settings = setting_lines(v, i as int, k as int);
            let own = setting_line(v, i as int, k as int);
            assert((before + (front + settings)).push(own) =~= before + (front + settings.push(
                own,
            )));
        }
        k = k + 1;
    }
}

/// The lines of the list of drivers in an area of this width.
pub fn list_lines(state: &TuiState, width: u16) -> (r: Vec<Vec<Span>>)
    requires
        state.wf(),
    ensures
        line_views(r@) == screen_lines(state@, state@.rows.len() as int, width),
{
    let ghost v = state@;
    let mut lines: Vec<Vec<Span>> = Vec::new();
    let mut i: usize = 0;
    assert(line_views(lines@) =~= screen_lines(v, 0, width));
    while i < state.rows.len()
        invariant
            i <= state.rows@.len(),
            state.wf(),
            v == state@,
            line_views(lines@) == screen_lines(v, i as int, width),
        decreases state.rows.len() - i,
    {
        let ghost so_far = line_views(lines@);
        let row = &state.rows[i];
        push_line(&mut lines, make_name_line(row, i == state.selected));
        if row.enabled {
            push_fields(&mut lines, state, i);
        }
        if i < state.rows.len() - 1 {
            let text = repeat_char('─', width as usize);
            let mut line: Vec<Span> = Vec::new();
            line.push(span(text.as_str(), color_style(TextColor::DarkGray)));
            assert(line_view(line@) =~= separator(width));
            push_line(&mut lines, line);
        }
        assert(line_views(lines@) =~= so_far + row_lines(v, i as int, width));
        i = i + 1;
    }
    lines
}

/// By how many lines the list is scrolled in an area of this height.
pub fn list_scroll(state: &TuiState, height: u16) -> (r: usize)
    ensures
        r == scrolled(state@, height),
{
    let visible: usize = (height as usize).saturating_sub(2) / ROW_HEIGHT;
    state.selected.saturating_sub(visible / 2)
}

/// The colour of the status line: red for a failure.
pub fn status_color(state: &TuiState) -> (r: TextColor)
    ensures
        r == if occurs_in("error"@, state@.status) || occurs_in("Error"@, state@.status) {
            TextColor::Red
        } else {
            TextColor::DarkGray
        },
{
    if contains_text(state.status.as_str(), "error") || contains_text(
        state.status.as_str(),
        "Error",
    ) {
        TextColor::Red
    } else {
        TextColor::DarkGray
    }
}

/// Every driver has a line with its name, and a cross exactly if it is enabled.
/// The fields of an enabled driver follow: its port, and each setting with its
/// label and its value. A driver that is off shows no fields.
pub proof fn law_lines_of_a_driver(v: ScreenView, i: int, width: u16, k: int)
    requires
        0 <= i < v.rows.len(),
        0 <= k < v.rows[i].info.fields.len(),
    ensures
        ({
            let row = v.rows[i];
            let lines = row_lines(v, i, width);
            let fields = if row.enabled {
                1 + row.info.fields.len()
            } else {
                0
            };
            &&& lines.len() == 1 + fields + (if i + 1 < v.rows.len() {
                1int
            } else {
                0int
            })
            &&& lines[0][0].text == if row.enabled {
                "[x]"@
            } else {
                "[ ]"@
            }
            &&& lines[0][2].text == row.info.name
            &&& lines[0][4].text == row.info.description
            &&& row.enabled ==> lines[1][1].text == "Port"@ + ": ["@ + row.port_str + "]"@
            &&& row.enabled ==> lines[2 + k][1].text == row.info.fields[k].label + ": ["@
                + row.field_values[k] + "]"@
        }),
{
    lemma_setting_lines(v, i, v.rows[i].info.fields.len() as int, k);
}

proof fn lemma_setting_lines(v: ScreenView, i: int, n: int, k: int)
    requires
        0 <= k < n,
    ensures
        setting_lines(v, i, n).len() == n,
        setting_lines(v, i, n)[k] == setting_line(v, i, k),
    decreases n,
{
    if n > 1 {
        lemma_setting_lines(
            v,
            i,
            n - 1,
            if k < n - 1 {
                k
            } else {
                0
            },
        );
    } else {
        assert(setting_lines(v, i, 0).len() == 0);
    }
}

/// The lines of the drivers follow one another in the order of the drivers.
pub proof fn law_lines_in_order(v: ScreenView, n: int, width: u16)
    requires
        0 <= n < v.rows.len(),
    ensures
        screen_lines(v, 0, width).len() == 0,
        screen_lines(v, n + 1, width) == screen_lines(v, n, width) + row_lines(v, n, width),
{
}

/// Only the field that is edited is highlighted, and the name of the selected
/// driver stands out from the others.
pub proof fn law_what_stands_out(v: ScreenView, i: int, k: int)
    requires
        0 <= k < usize::MAX,
    ensures
        port_line(v, i)[1].style.background is Some <==> i == v.selected && v.mode
            == Mode::Editing(0),
        setting_line(v, i, k)[1].style.background is Some <==> i == v.selected && v.mode
            == Mode::Editing((k + 1) as usize),
        name_line(v.rows[i], true)[2].style.bold,
        !name_line(v.rows[i], false)[2].style.bold,
        v.rows[i].enabled <==> name_line(v.rows[i], false)[2].style.foreground == Some(
            TextColor::Green,
        ),
{
}

/// The list is scrolled so that the selected driver is in the middle of those
/// that are visible, four lines each, and not before the start.
pub proof fn law_scrolling(v: ScreenView, height: u16)
    requires
        0 <= v.selected,
        height >= 2,
    ensures
        ({
            let half = (height - 2) / 4 / 2;
            &&& v.selected <= half ==> scrolled(v, height) == 0
            &&& v.selected >= half ==> scrolled(v, height) + half == v.selected
        }),
{
}

} // verus!
