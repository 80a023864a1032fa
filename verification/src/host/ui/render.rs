//! What the configuration screen looks like.
//!
//! ```text
//! y=0: title
//! y=1: line
//! y=2: first device
//! ```
//!
//! The fields of the selected device follow its line while it is enabled. The
//! last line of the terminal explains the keys.
use crate::host::ui::state::{label_of, value_of, DeviceRow, Mode, RowView, TuiState, TuiView};
use crate::text::{chars_of, string_of};
use vstd::prelude::*;
use vstd::utf8::encode_utf8;

verus! {

/// Left margin of content.
pub const MARGIN: u16 = 4;

/// Indentation of fields under a device.
pub const FIELD_INDENT: u16 = 4;

/// Colours of the screen.
#[derive(Debug, Clone, Copy, PartialEq, Eq, Structural)]
pub enum Color {
    White,
    Black,
    Grey,
    DarkGrey,
    /// The colour that the terminal starts with.
    Reset,
}

/// Something to draw.
#[derive(Debug)]
pub enum DrawOp {
    ClearAll,
    MoveTo(u16, u16),
    Foreground(Color),
    Background(Color),
    Bold,
    ResetAttributes,
    Print(String),
    ShowCursor,
    HideCursor,
}

/// The mathematical content of a [`DrawOp`].
#[verifier::ext_equal]
pub enum DrawView {
    ClearAll,
    MoveTo(u16, u16),
    Foreground(Color),
    Background(Color),
    Bold,
    ResetAttributes,
    Print(Seq<char>),
    ShowCursor,
    HideCursor,
}

impl View for DrawOp {
    type V = DrawView;

    open spec fn view(&self) -> DrawView {
        match self {
            DrawOp::ClearAll => DrawView::ClearAll,
            DrawOp::MoveTo(x, y) => DrawView::MoveTo(*x, *y),
            DrawOp::Foreground(c) => DrawView::Foreground(*c),
            DrawOp::Background(c) => DrawView::Background(*c),
            DrawOp::Bold => DrawView::Bold,
            DrawOp::ResetAttributes => DrawView::ResetAttributes,
            DrawOp::Print(s) => DrawView::Print(s@),
            DrawOp::ShowCursor => DrawView::ShowCursor,
            DrawOp::HideCursor => DrawView::HideCursor,
        }
    }
}

/// The contents of a list of things to draw.
pub open spec fn draw_views(ops: Seq<DrawOp>) -> Seq<DrawView> {
    Seq::new(ops.len(), |i: int| ops[i]@)
}

/// So many times the same character.
pub open spec fn repeated(c: char, n: int) -> Seq<char> {
    if n <= 0 {
        Seq::empty()
    } else {
        Seq::new(n as nat, |i: int| c)
    }
}

/// A text with spaces behind it, so that it is at least so many characters
/// long.
pub open spec fn padded(s: Seq<char>, n: int) -> Seq<char> {
    s + repeated(' ', n - s.len())
}

/// The number of bytes of a character in a text.
pub open spec fn char_width(c: char) -> int {
    if (c as u32) < 0x80 {
        1
    } else if (c as u32) < 0x800 {
        2
    } else if (c as u32) < 0x10000 {
        3
    } else {
        4
    }
}

/// The number of bytes of the first `k` characters of a text.
pub open spec fn bytes_before(s: Seq<char>, k: int) -> int
    decreases k,
{
    if k <= 0 {
        0
    } else {
        bytes_before(s, k - 1) + char_width(s[k - 1])
    }
}

/// How many characters of a text lie in its first `n` bytes, when `k` already
/// do.
pub open spec fn chars_within(s: Seq<char>, n: int, k: int) -> int
    decreases s.len() - k,
{
    if 0 <= k < s.len() && bytes_before(s, k) < n {
        chars_within(s, n, k + 1)
    } else {
        k
    }
}

/// No character of a text stands across the end of its first `n` bytes.
pub open spec fn cuts_cleanly(s: Seq<char>, n: int) -> bool {
    bytes_before(s, s.len() as int) <= n || bytes_before(s, chars_within(s, n, 0)) == n
}

/// The explanation of the keys.
pub open spec fn help_text(v: TuiView) -> Seq<char> {
    match v.mode {
        Mode::Normal => if v.rows.len() == 0 {
            " q/ESC:quit"@
        } else {
            " s:save  q/ESC:quit  Space:toggle  Enter/Tab:edit  ↑↓/jk:navigate"@
        },
        Mode::Editing(_) => " Esc:cancel  Enter/Tab:next  ↑↓:switch field  Backspace/type:edit"@,
    }
}

/// The explanation of the keys as far as it fits.
pub open spec fn help_shown(v: TuiView, cols: u16) -> Seq<char> {
    let help = help_text(v);
    help.take(chars_within(help, cols as int, 0))
}

/// The line of a device.
pub open spec fn row_line(row: RowView) -> Seq<char> {
    "  "@ + (if row.enabled {
        "[x]"@
    } else {
        "[ ]"@
    }) + " "@ + row.info.name + (if row.info.description.len() == 0 {
        ""@
    } else {
        "  — "@ + row.info.description
    })
}

/// Drawing the line of a device: the selected one in reverse.
pub open spec fn drawn_header(row: RowView, is_selected: bool, y: int, cols: u16) -> Seq<DrawView> {
    seq![DrawView::MoveTo(0, y as u16)] + (if is_selected {
        seq![DrawView::Background(Color::White), DrawView::Foreground(Color::Black)]
    } else {
        Seq::empty()
    }) + seq![
        DrawView::Print(padded(row_line(row), cols as int)),
        DrawView::Background(Color::Reset),
        DrawView::Foreground(Color::White),
    ]
}

/// The text of a field; the one that is edited ends with a bar.
pub open spec fn field_text(v: TuiView, idx: int) -> Seq<char> {
    if v.mode == Mode::Editing(idx as usize) {
        label_of(v, idx) + ": "@ + value_of(v, idx) + "▌"@
    } else {
        label_of(v, idx) + ": "@ + value_of(v, idx)
    }
}

/// Drawing a field of the selected device.
pub open spec fn drawn_field(v: TuiView, idx: int, y: int) -> Seq<DrawView> {
    seq![DrawView::MoveTo(FIELD_INDENT, y as u16)] + (if v.mode == Mode::Editing(idx as usize) {
        seq![DrawView::Bold, DrawView::Foreground(Color::White)]
    } else {
        seq![DrawView::Foreground(Color::Grey)]
    }) + seq![
        DrawView::Print(field_text(v, idx)),
        DrawView::ResetAttributes,
        DrawView::Foreground(Color::White),
    ]
}

/// Drawing the first `n` fields of the selected device, from line `y` on.
pub open spec fn drawn_fields(v: TuiView, n: int, y: int) -> Seq<DrawView>
    decreases n,
{
    if n <= 0 {
        Seq::empty()
    } else {
        drawn_fields(v, n - 1, y) + drawn_field(v, n - 1, y + n - 1)
    }
}

/// The number of fields that are shown.
pub open spec fn shown_fields(v: TuiView) -> int {
    if v.rows.len() > 0 && v.rows[v.selected].enabled {
        1 + v.rows[v.selected].option_keys.len() as int
    } else {
        0
    }
}

/// The line on the screen of the device at position `i`.
pub open spec fn row_y(v: TuiView, i: int) -> int {
    2 + i + (if i > v.selected {
        shown_fields(v)
    } else {
        0
    })
}

/// Drawing the first `n` devices.
pub open spec fn drawn_rows(v: TuiView, n: int, cols: u16) -> Seq<DrawView>
    decreases n,
{
    if n <= 0 {
        Seq::empty()
    } else {
        let i = n - 1;
        let header = drawn_header(v.rows[i], i == v.selected, row_y(v, i), cols);
        drawn_rows(v, n - 1, cols) + header + (if i == v.selected {
            drawn_fields(v, shown_fields(v), row_y(v, i) + 1)
        } else {
            Seq::empty()
        })
    }
}

/// Drawing the title and the line under it.
pub open spec fn drawn_title(cols: u16) -> Seq<DrawView> {
    seq![
        DrawView::ClearAll,
        DrawView::Foreground(Color::White),
        DrawView::MoveTo(0, 0),
        DrawView::MoveTo(
            if cols > 17 {
                ((cols - 17) / 2) as u16
            } else {
                0
            },
            0,
        ),
        DrawView::Bold,
        DrawView::Print("NCD Configuration"@),
        DrawView::ResetAttributes,
        DrawView::MoveTo(0, 1),
        DrawView::Foreground(Color::DarkGrey),
        DrawView::Print(repeated('─', cols as int)),
        DrawView::Foreground(Color::White),
    ]
}

/// Drawing the devices, or that there are none.
pub open spec fn drawn_list(v: TuiView, cols: u16) -> Seq<DrawView> {
    if v.rows.len() == 0 {
        seq![
            DrawView::MoveTo(MARGIN, 2),
            DrawView::Foreground(Color::DarkGrey),
            DrawView::Print("No devices found."@),
            DrawView::Foreground(Color::White),
        ]
    } else {
        drawn_rows(v, v.rows.len() as int, cols)
    }
}

/// Where the cursor stands while a field is edited: behind its value.
pub open spec fn cursor_at(v: TuiView, idx: int) -> (int, int) {
    (
        FIELD_INDENT + encode_utf8(label_of(v, idx)).len() + 2 + encode_utf8(
            value_of(v, idx),
        ).len() as int,
        3 + v.selected + idx,
    )
}

/// Drawing the explanation of the keys, and the cursor.
pub open spec fn drawn_footer(v: TuiView, cols: u16, lines: u16) -> Seq<DrawView> {
    seq![
        DrawView::MoveTo(
            0,
            if lines > 0 {
                (lines - 1) as u16
            } else {
                0
            },
        ),
        DrawView::Foreground(Color::DarkGrey),
        DrawView::Print(padded(help_shown(v, cols), cols as int)),
        DrawView::Foreground(Color::White),
    ] + (match v.mode {
        Mode::Editing(idx) => seq![
            DrawView::MoveTo(
                cursor_at(v, idx as int).0 as u16,
                cursor_at(v, idx as int).1 as u16,
            ),
            DrawView::ShowCursor,
        ],
        Mode::Normal => seq![DrawView::HideCursor],
    })
}

/// Drawing the whole screen.
pub open spec fn drawn(v: TuiView, cols: u16, lines: u16) -> Seq<DrawView> {
    drawn_title(cols) + drawn_list(v, cols) + drawn_footer(v, cols, lines)
}

/// Everything on the screen has a line and a column, and the explanation of
/// the keys can be cut where the screen ends.
pub open spec fn drawable(v: TuiView, cols: u16) -> bool {
    &&& 2 + v.rows.len() + shown_fields(v) <= u16::MAX
    &&& v.mode matches Mode::Editing(idx) ==> cursor_at(v, idx as int).0 <= u16::MAX && cursor_at(
        v,
        idx as int,
    ).1 <= u16::MAX
    &&& cuts_cleanly(help_text(v), cols as int)
}

/// So many times the same character.
pub fn repeat_char(c: char, n: usize) -> (r: String)
    ensures
        r@ == repeated(c, n as int),
{
    let mut out = String::new();
    let mut i: usize = 0;
    assert(out@ =~= repeated(c, 0));
    while i < n
        invariant
            i <= n,
            out@ == repeated(c, i as int),
        decreases n - i,
    {
        out.push(c);
        i = i + 1;
        assert(out@ =~= repeated(c, i as int));
    }
    out
}

/// A text with spaces behind it, at least so many characters long.
pub fn pad(s: &str, n: usize) -> (r: String)
    ensures
        r@ == padded(s@, n as int),
{
    let mut out = s.to_owned();
    let length: usize = s.unicode_len();
    if length < n {
        let spaces = repeat_char(' ', n - length);
        out.push_str(spaces.as_str());
    }
    assert(out@ =~= padded(s@, n as int));
    out
}

fn width_of(c: char) -> (r: u64)
    ensures
        r == char_width(c),
{
    if (c as u32) < 0x80 {
        1
    } else if (c as u32) < 0x800 {
        2
    } else if (c as u32) < 0x10000 {
        3
    } else {
        4
    }
}

/// The characters in the first `n` bytes of a text.
pub fn cut_text(s: &str, n: u16) -> (r: String)
    requires
        cuts_cleanly(s@, n as int),
    ensures
        r@ == s@.take(chars_within(s@, n as int, 0)),
{
    let chars = chars_of(s);
    let mut k: usize = 0;
    let mut bytes: u64 = 0;
    while k < chars.len() && bytes < n as u64
        invariant
            k <= chars@.len(),
            chars@ == s@,
            bytes == bytes_before(s@, k as int),
            bytes <= n + 4,
            chars_within(s@, n as int, k as int) == chars_within(s@, n as int, 0),
        decreases chars.len() - k,
    {
        bytes = bytes + width_of(chars[k]);
        k = k + 1;
    }
    let part = crate::scan::copy_chars(chars.as_slice(), 0, k);
    assert(part@ =~= s@.take(k as int));
    string_of(part.as_slice())
}

/// Appends the drawing of the line of a device.
pub fn draw_row_header(ops: &mut Vec<DrawOp>, row: &DeviceRow, is_selected: bool, y: u16, cols: u16)
    ensures
        draw_views(final(ops)@) == draw_views(old(ops)@) + drawn_header(
            row@,
            is_selected,
            y as int,
            cols,
        ),
{
    let ghost before = draw_views(ops@);
    ops.push(DrawOp::MoveTo(0, y));
    if is_selected {
        ops.push(DrawOp::Background(Color::White));
        ops.push(DrawOp::Foreground(Color::Black));
    }
    let mut line = "  ".to_owned();
    if row.enabled {
        line.push_str("[x]");
    } else {
        line.push_str("[ ]");
    }
    line.push_str(" ");
    line.push_str(row.info.name.as_str());
    let mut description = String::new();
    if !row.info.description.as_str().is_empty() {
        description = "  — ".to_owned();
        description.push_str(row.info.description.as_str());
    } else {
        proof {
            reveal_strlit("");
        }
        assert(description@ =~= ""@);
    }
    line.push_str(description.as_str());
    assert(line@ =~= row_line(row@));
    let shown = pad(line.as_str(), cols as usize);
    ops.push(DrawOp::Print(shown));
    ops.push(DrawOp::Background(Color::Reset));
    ops.push(DrawOp::Foreground(Color::White));
    assert(draw_views(ops@) =~= before + drawn_header(row@, is_selected, y as int, cols));
}

/// Appends the drawing of the fields of the selected device, from line `y` on.
/// Gives the line behind them.
pub fn draw_fields(ops: &mut Vec<DrawOp>, state: &TuiState, y: u16) -> (r: u16)
    requires
        state.wf(),
        state@.rows.len() > 0,
        y + 1 + state@.rows[state@.selected].option_keys.len() <= u16::MAX,
    ensures
        draw_views(final(ops)@) == draw_views(old(ops)@) + drawn_fields(
            state@,
            1 + state@.rows[state@.selected].option_keys.len() as int,
            y as int,
        ),
        r == y + 1 + state@.rows[state@.selected].option_keys.len(),
{
    let ghost before = draw_views(ops@);
    let ghost v = state@;
    let field_count: usize = 1 + state.selected_row().option_keys.len();
    let editing = state.editing_field();
    let mut idx: usize = 0;
    assert(before + drawn_fields(v, 0, y as int) =~= before);
    while idx < field_count
        invariant
            idx <= field_count,
            y + field_count <= u16::MAX,
            state.wf(),
            v == state@,
            v.rows.len() > 0,
            field_count == 1 + v.rows[v.selected].option_keys.len(),
            editing == (match v.mode {
                Mode::Editing(i) => Some(i),
                Mode::Normal => None,
            }),
            draw_views(ops@) == before + drawn_fields(v, idx as int, y as int),
        decreases field_count - idx,
    {
        let ghost so_far = draw_views(ops@);
        let is_editing_this = match editing {
            Some(i) => i == idx,
            None => false,
        };
        ops.push(DrawOp::MoveTo(FIELD_INDENT, y + idx as u16));
        if is_editing_this {
            ops.push(DrawOp::Bold);
            ops.push(DrawOp::Foreground(Color::White));
        } else {
            ops.push(DrawOp::Foreground(Color::Grey));
        }
        let mut display = state.field_label(idx).to_owned();
        display.push_str(": ");
        display.push_str(state.field_value(idx));
        if is_editing_this {
            display.push_str("▌");
        }
        ops.push(DrawOp::Print(display));
        ops.push(DrawOp::ResetAttributes);
        ops.push(DrawOp::Foreground(Color::White));
        proof {
            let own = drawn_field(v, idx as int, y + idx);
            assert(draw_views(ops@) =~= so_far + own);
            assert((before + drawn_fields(v, idx as int, y as int)) + own =~= before + (
            drawn_fields(v, idx as int, y as int) + own));
        }
        idx = idx + 1;
    }
    y + field_count as u16
}

/// Where the cursor stands while a field is edited: column and line.
pub fn field_cursor_position(state: &TuiState, idx: usize) -> (r: (u16, u16))
    requires
        state.wf(),
        state@.rows.len() > 0,
        cursor_at(state@, idx as int).0 <= u16::MAX,
        cursor_at(state@, idx as int).1 <= u16::MAX,
    ensures
        r.0 == cursor_at(state@, idx as int).0,
        r.1 == cursor_at(state@, idx as int).1,
{
    let y: u16 = 3 + state.selected as u16 + idx as u16;
    let label = state.field_label(idx);
    let value = state.field_value(idx);
    let x: u16 = FIELD_INDENT + label.len() as u16 + 2 + value.len() as u16;
    (x, y)
}

/// What to draw on a terminal of this size.
pub fn render(state: &TuiState, cols: u16, lines: u16) -> (r: Vec<DrawOp>)
    requires
        state.wf(),
        drawable(state@, cols),
    ensures
        draw_views(r@) == drawn(state@, cols, lines),
{
    let ghost v = state@;
    let mut ops: Vec<DrawOp> = Vec::new();
    ops.push(DrawOp::ClearAll);
    ops.push(DrawOp::Foreground(Color::White));
    ops.push(DrawOp::MoveTo(0, 0));
    ops.push(DrawOp::MoveTo(cols.saturating_sub(17) / 2, 0));
    ops.push(DrawOp::Bold);
    ops.push(DrawOp::Print("NCD Configuration".to_owned()));
    ops.push(DrawOp::ResetAttributes);
    ops.push(DrawOp::MoveTo(0, 1));
    ops.push(DrawOp::Foreground(Color::DarkGrey));
    ops.push(DrawOp::Print(repeat_char('─', cols as usize)));
    ops.push(DrawOp::Foreground(Color::White));
    assert(draw_views(ops@) =~= drawn_title(cols));

    if state.rows.len() == 0 {
        ops.push(DrawOp::MoveTo(MARGIN, 2));
        ops.push(DrawOp::Foreground(Color::DarkGrey));
        ops.push(DrawOp::Print("No devices found.".to_owned()));
        ops.push(DrawOp::Foreground(Color::White));
    } else {
        let ghost title = draw_views(ops@);
        let mut y: u16 = 2;
        let mut i: usize = 0;
        assert(title + drawn_rows(v, 0, cols) =~= title);
        while i < state.rows.len()
            invariant
                i <= state.rows@.len(),
                state.wf(),
                v == state@,
                drawable(v, cols),
                v.rows.len() > 0,
                y == row_y(v, i as int),
                draw_views(ops@) == title + drawn_rows(v, i as int, cols),
            decreases state.rows.len() - i,
        {
            let ghost so_far = drawn_rows(v, i as int, cols);
            let is_selected = i == state.selected;
            let row = &state.rows[i];
            let ghost header = drawn_header(row@, is_selected, y as int, cols);
            draw_row_header(&mut ops, row, is_selected, y, cols);
            y = y + 1;
            if is_selected && row.enabled {
                let ghost fields = drawn_fields(v, shown_fields(v), y as int);
                y = draw_fields(&mut ops, state, y);
                assert(((title + so_far) + header) + fields =~= title + (so_far + header
                    + fields));
            } else {
                assert((title + so_far) + header =~= title + (so_far + header + Seq::<
                    DrawView,
                >::empty()));
                assert(drawn_fields(v, 0, y as int) =~= Seq::<DrawView>::empty());
            }
            i = i + 1;
        }
    }
    assert(draw_views(ops@) =~= drawn_title(cols) + drawn_list(v, cols));

    let ghost above = draw_views(ops@);
    let help = match state.mode {
        Mode::Normal => if state.rows.len() == 0 {
            " q/ESC:quit"
        } else {
            " s:save  q/ESC:quit  Space:toggle  Enter/Tab:edit  ↑↓/jk:navigate"
        },
        Mode::Editing(_) => " Esc:cancel  Enter/Tab:next  ↑↓:switch field  Backspace/type:edit",
    };
    let shown = cut_text(help, cols);
    ops.push(DrawOp::MoveTo(0, lines.saturating_sub(1)));
    ops.push(DrawOp::Foreground(Color::DarkGrey));
    ops.push(DrawOp::Print(pad(shown.as_str(), cols as usize)));
    ops.push(DrawOp::Foreground(Color::White));
    if let Some(idx) = state.editing_field() {
        let (x, y) = field_cursor_position(state, idx);
        ops.push(DrawOp::MoveTo(x, y));
        ops.push(DrawOp::ShowCursor);
    } else {
        ops.push(DrawOp::HideCursor);
    }
    assert(draw_views(ops@) =~= above + drawn_footer(v, cols, lines));
    ops
}

/// Whether no character of a text stands across the end of its first `n`
/// bytes.
pub fn is_clean_cut(s: &str, n: u16) -> (r: bool)
    ensures
        r == cuts_cleanly(s@, n as int),
{
    let chars = chars_of(s);
    let mut k: usize = 0;
    let mut bytes: u64 = 0;
    while k < chars.len() && bytes < n as u64
        invariant
            k <= chars@.len(),
            chars@ == s@,
            bytes == bytes_before(s@, k as int),
            bytes <= n + 4,
            chars_within(s@, n as int, k as int) == chars_within(s@, n as int, 0),
        decreases chars.len() - k,
    {
        bytes = bytes + width_of(chars[k]);
        k = k + 1;
    }
    if bytes == n as u64 {
        true
    } else if bytes < n as u64 {
        true
    } else {
        proof {
            lemma_bytes_grow(s@, k as int, s@.len() as int);
        }
        false
    }
}

proof fn lemma_bytes_grow(s: Seq<char>, a: int, b: int)
    requires
        0 <= a <= b,
    ensures
        bytes_before(s, a) <= bytes_before(s, b),
    decreases b,
{
    if a < b {
        lemma_bytes_grow(s, a, b - 1);
    }
}

/// Whether everything on the screen has a line and a column, and the
/// explanation of the keys can be cut where the screen ends.
pub fn is_drawable(state: &TuiState, cols: u16) -> (r: bool)
    requires
        state.wf(),
    ensures
        r == drawable(state@, cols),
{
    let mut lines: u128 = 2 + state.rows.len() as u128;
    if state.rows.len() > 0 {
        let row = state.selected_row();
        if row.enabled {
            lines = lines + 1 + row.option_keys.len() as u128;
        }
    }
    if lines > u16::MAX as u128 {
        return false;
    }
    if let Some(idx) = state.editing_field() {
        let label = state.field_label(idx);
        let value = state.field_value(idx);
        let x: u128 = FIELD_INDENT as u128 + label.as_bytes().len() as u128 + 2
            + value.as_bytes().len() as u128;
        let y: u128 = 3 + state.selected as u128 + idx as u128;
        if x > u16::MAX as u128 || y > u16::MAX as u128 {
            return false;
        }
    }
    let help = match state.mode {
        Mode::Normal => if state.rows.len() == 0 {
            " q/ESC:quit"
        } else {
            " s:save  q/ESC:quit  Space:toggle  Enter/Tab:edit  ↑↓/jk:navigate"
        },
        Mode::Editing(_) => " Esc:cancel  Enter/Tab:next  ↑↓:switch field  Backspace/type:edit",
    };
    is_clean_cut(help, cols)
}

/// The cursor stands on the line on which the field that is edited is drawn.
pub proof fn law_cursor_is_on_its_field(v: TuiView, idx: int)
    requires
        v.rows.len() > 0,
    ensures
        cursor_at(v, idx).1 == row_y(v, v.selected) + 1 + idx,
{
}

/// Padding puts blanks behind a text, up to the width and no further; a text
/// that is as wide already stays as it is.
pub proof fn law_padding(s: Seq<char>, n: int, i: int)
    requires
        0 <= i < padded(s, n).len(),
    ensures
        n <= s.len() ==> padded(s, n) == s,
        n > s.len() ==> padded(s, n).len() == n,
        padded(s, n)[i] == if i < s.len() {
            s[i]
        } else {
            ' '
        },
{
    if n <= s.len() {
        assert(padded(s, n) =~= s);
    }
}

/// The lines of the devices follow one another from the third line on; between
/// the selected one and the next there is a line for each of its fields, and
/// it has fields to show only while it is enabled.
pub proof fn law_lines_of_devices(v: TuiView, i: int)
    requires
        0 <= v.selected < v.rows.len(),
        0 <= i < v.rows.len(),
    ensures
        row_y(v, 0) == 2,
        row_y(v, i + 1) == row_y(v, i) + 1 + (if i == v.selected {
            shown_fields(v)
        } else {
            0
        }),
        shown_fields(v) == if v.rows[v.selected].enabled {
            1 + v.rows[v.selected].option_keys.len()
        } else {
            0
        },
{
}

/// The line of a device shows by a cross whether it is enabled, and then its
/// name and, behind a dash, its description if it has one.
pub proof fn law_line_of_a_device(row: RowView)
    ensures
        row.info.description.len() == 0 ==> row_line(row) == (if row.enabled {
            "  [x] "@
        } else {
            "  [ ] "@
        }) + row.info.name,
        row.info.description.len() > 0 ==> row_line(row) == (if row.enabled {
            "  [x] "@
        } else {
            "  [ ] "@
        }) + row.info.name + "  — "@ + row.info.description,
{
    reveal_strlit("  ");
    reveal_strlit("[x]");
    reveal_strlit("[ ]");
    reveal_strlit(" ");
    reveal_strlit("");
    reveal_strlit("  [x] ");
    reveal_strlit("  [ ] ");
    let start = if row.enabled {
        "  [x] "@
    } else {
        "  [ ] "@
    };
    if row.info.description.len() == 0 {
        assert(row_line(row) =~= start + row.info.name);
    } else {
        assert(row_line(row) =~= start + row.info.name + "  — "@ + row.info.description);
    }
}

/// The line of every device is drawn, where it belongs and over the whole
/// width.
pub proof fn law_every_device_is_drawn(v: TuiView, n: int, i: int, cols: u16)
    requires
        0 <= i < n <= v.rows.len(),
    ensures
        drawn_rows(v, n, cols).contains(DrawView::MoveTo(0, row_y(v, i) as u16)),
        drawn_rows(v, n, cols).contains(DrawView::Print(padded(row_line(v.rows[i]), cols as int))),
    decreases n,
{
    let k = n - 1;
    let before = drawn_rows(v, n - 1, cols);
    let header = drawn_header(v.rows[k], k == v.selected, row_y(v, k), cols);
    let fields = if k == v.selected {
        drawn_fields(v, shown_fields(v), row_y(v, k) + 1)
    } else {
        Seq::empty()
    };
    let all = before + header + fields;
    let place = DrawView::MoveTo(0, row_y(v, i) as u16);
    let text = DrawView::Print(padded(row_line(v.rows[i]), cols as int));
    if i < k {
        law_every_device_is_drawn(v, n - 1, i, cols);
        lemma_contained_in_front(before, header + fields, place);
        lemma_contained_in_front(before, header + fields, text);
        assert(all =~= before + (header + fields));
    } else {
        let at = before.len() as int;
        assert(header[0] == place);
        assert(all[at] == place);
        let shift = if k == v.selected {
            3int
        } else {
            1int
        };
        assert(header[shift] == text);
        assert(all[at + shift] == text);
    }
}

proof fn lemma_contained_in_front(a: Seq<DrawView>, b: Seq<DrawView>, x: DrawView)
    requires
        a.contains(x),
    ensures
        (a + b).contains(x),
{
    let i = choose|i: int| 0 <= i < a.len() && a[i] == x;
    assert((a + b)[i] == x);
}

/// Every field of the selected device is drawn while the device is enabled: its
/// label and its value, on a line of its own.
pub proof fn law_every_field_is_drawn(v: TuiView, n: int, idx: int, y: int)
    requires
        0 <= idx < n <= usize::MAX,
    ensures
        drawn_fields(v, n, y).contains(DrawView::MoveTo(4, (y + idx) as u16)),
        drawn_fields(v, n, y).contains(
            DrawView::Print(
                label_of(v, idx) + ": "@ + value_of(v, idx) + (if v.mode == Mode::Editing(
                    idx as usize,
                ) {
                    "▌"@
                } else {
                    Seq::empty()
                }),
            ),
        ),
    decreases n,
{
    let before = drawn_fields(v, n - 1, y);
    let own = drawn_field(v, n - 1, y + n - 1);
    let place = DrawView::MoveTo(4, (y + idx) as u16);
    let plain = label_of(v, idx) + ": "@ + value_of(v, idx);
    assert(plain + Seq::<char>::empty() =~= plain);
    let text = DrawView::Print(
        plain + (if v.mode == Mode::Editing(idx as usize) {
            "▌"@
        } else {
            Seq::empty()
        }),
    );
    if idx < n - 1 {
        law_every_field_is_drawn(v, n - 1, idx, y);
        lemma_contained_in_front(before, own, place);
        lemma_contained_in_front(before, own, text);
    } else {
        let at = before.len() as int;
        assert(own[0] == place);
        assert((before + own)[at] == place);
        let shift = if v.mode == Mode::Editing(idx as usize) {
            3int
        } else {
            2int
        };
        assert(own[shift] == text);
        assert((before + own)[at + shift] == text);
    }
}

/// The screen is drawn from the top: it is cleared, the devices are drawn with
/// the fields of the selected one, or that there are none, and the cursor is
/// shown exactly while a field is edited.
pub proof fn law_what_is_on_the_screen(v: TuiView, cols: u16, lines: u16)
    requires
        0 <= v.selected < v.rows.len() || v.rows.len() == 0,
    ensures
        drawn(v, cols, lines)[0] == DrawView::ClearAll,
        v.rows.len() == 0 ==> drawn_list(v, cols).contains(DrawView::Print("No devices found."@)),
        v.rows.len() > 0 ==> drawn_list(v, cols) == drawn_rows(v, v.rows.len() as int, cols),
        drawn(v, cols, lines).last() == if v.mode is Editing {
            DrawView::ShowCursor
        } else {
            DrawView::HideCursor
        },
        v.mode matches Mode::Editing(idx) ==> {
            let whole = drawn(v, cols, lines);
            whole[whole.len() - 2] == DrawView::MoveTo(
                (4 + encode_utf8(label_of(v, idx as int)).len() + 2 + encode_utf8(
                    value_of(v, idx as int),
                ).len()) as u16,
                (3 + v.selected + idx) as u16,
            )
        },
{
    if v.rows.len() == 0 {
        assert(drawn_list(v, cols)[2] == DrawView::Print("No devices found."@));
    }
}

/// The explanation of the keys is cut at the width of the screen: what is shown
/// is its start, whole where it fits, and else up to the first character that
/// ends at the width or beyond.
pub proof fn law_explanation_fits(v: TuiView, cols: u16)
    ensures
        ({
            let help = help_text(v);
            let shown = help_shown(v, cols);
            &&& shown == help.take(shown.len() as int)
            &&& shown.len() == help.len() || bytes_before(help, shown.len() as int) >= cols
            &&& shown.len() > 0 ==> bytes_before(help, shown.len() - 1) < cols
        }),
{
    lemma_chars_within(help_text(v), cols as int, 0);
}

proof fn lemma_chars_within(s: Seq<char>, n: int, k: int)
    requires
        0 <= k <= s.len(),
    ensures
        k <= chars_within(s, n, k) <= s.len(),
        chars_within(s, n, k) < s.len() ==> bytes_before(s, chars_within(s, n, k)) >= n,
        chars_within(s, n, k) > k ==> bytes_before(s, chars_within(s, n, k) - 1) < n,
    decreases s.len() - k,
{
    if k < s.len() && bytes_before(s, k) < n {
        lemma_chars_within(s, n, k + 1);
    }
}

/// A character takes up as many bytes as its place in Unicode asks for.
pub proof fn law_widths(s: Seq<char>, k: int)
    requires
        0 <= k < s.len(),
    ensures
        bytes_before(s, 0) == 0,
        bytes_before(s, k + 1) - bytes_before(s, k) == if s[k] as u32 <= 0x7F {
            1int
        } else if s[k] as u32 <= 0x7FF {
            2
        } else if s[k] as u32 <= 0xFFFF {
            3
        } else {
            4
        },
{
}

/// The keys that are explained are those that do something: in the list with
/// devices, in an empty list, and in a field.
pub proof fn law_explanations(v: TuiView)
    ensures
        v.mode is Editing ==> help_text(v)
            == " Esc:cancel  Enter/Tab:next  ↑↓:switch field  Backspace/type:edit"@,
        v.mode == Mode::Normal && v.rows.len() == 0 ==> help_text(v) == " q/ESC:quit"@,
        v.mode == Mode::Normal && v.rows.len() > 0 ==> help_text(v)
            == " s:save  q/ESC:quit  Space:toggle  Enter/Tab:edit  ↑↓/jk:navigate"@,
{
}

/// Only the selected device is drawn in reverse, and the title is centred.
pub proof fn law_selected_in_reverse(row: RowView, y: int, cols: u16)
    ensures
        drawn_header(row, true, y, cols).contains(DrawView::Background(Color::White)),
        !drawn_header(row, false, y, cols).contains(DrawView::Background(Color::White)),
        cols > 17 ==> drawn_title(cols).contains(DrawView::MoveTo(((cols - 17) / 2) as u16, 0)),
        drawn_title(cols).contains(DrawView::Print("NCD Configuration"@)),
{
    assert(drawn_header(row, true, y, cols)[1] == DrawView::Background(Color::White));
    if cols > 17 {
        assert(drawn_title(cols)[3] == DrawView::MoveTo(((cols - 17) / 2) as u16, 0));
    }
    assert(drawn_title(cols)[5] == DrawView::Print("NCD Configuration"@));
}

} // verus!
