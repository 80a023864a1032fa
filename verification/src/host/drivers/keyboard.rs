//! The keyboard driver.
//!
//! A keyboard at a path of the form `file://...` is a text file that is read
//! line by line. At any other path the keys of this machine are captured, and
//! what is written is typed on this machine.
use crate::host::detect::{text_from_utf16, utf16_text};
use crate::host::device::{DeviceState, NcdDevice};
use crate::host::drivers::buffer::{backing_file, drain_into, file_of, filled, lesser};
use crate::host::error::{DeviceError, DeviceErrorView};
use crate::text::{decimal, push_decimal};
use crate::wire::push_bytes;
use vstd::prelude::*;

verus! {

/// The mathematical content of a [`KeyboardDriver`].
#[verifier::ext_equal]
pub struct KeyboardView {
    pub state: DeviceState,
    pub path: Seq<char>,
    /// Lines are read from a file.
    pub has_reader: bool,
    /// Captured keys, not read yet.
    pub captured: Seq<u8>,
}

/// A keyboard.
#[derive(Debug)]
pub struct KeyboardDriver {
    device: NcdDevice,
    has_reader: bool,
    read_buffer: Vec<u8>,
}

impl View for KeyboardDriver {
    type V = KeyboardView;

    closed spec fn view(&self) -> KeyboardView {
        KeyboardView {
            state: self.device.device_state,
            path: self.device.device_path@,
            has_reader: self.has_reader,
            captured: self.read_buffer@,
        }
    }
}

/// Where the bytes of a read come from.
#[derive(Debug, Clone, Copy, PartialEq, Eq, Structural)]
pub enum ReadSource {
    /// The next line of the file.
    Line,
    /// The bytes that wait.
    Waiting,
}

impl KeyboardDriver {
    /// An open keyboard without captured keys.
    pub fn new(device_path: &str) -> (r: KeyboardDriver)
        ensures
            r@ == (KeyboardView {
                state: DeviceState::Open,
                path: device_path@,
                has_reader: false,
                captured: Seq::empty(),
            }),
    {
        let r = KeyboardDriver {
            device: NcdDevice::new(device_path.to_owned()),
            has_reader: false,
            read_buffer: Vec::new(),
        };
        assert(r@.captured =~= Seq::empty());
        r
    }

    /// The file that lines are read from, if the keyboard is one.
    pub fn file(&self) -> (r: Option<String>)
        ensures
            match r {
                Some(file) => file_of(self@.path) == Some(file@),
                None => file_of(self@.path) is None,
            },
    {
        backing_file(self.device.device_path.as_str())
    }

    pub fn device_path(&self) -> (r: &str)
        ensures
            r@ == self@.path,
    {
        self.device.device_path.as_str()
    }

    pub fn state(&self) -> (r: DeviceState)
        ensures
            r == self@.state,
    {
        self.device.device_state
    }

    pub fn read_buffer_size(&self) -> (r: usize)
        ensures
            r == 4 * 1024,
    {
        4 * 1024
    }

    /// How a person names the driver.
    pub fn display(&self) -> (r: String)
        ensures
            r@ == "KeyboardDriver("@ + self@.path + ")"@,
    {
        let mut out = "KeyboardDriver(".to_owned();
        out.push_str(self.device.device_path.as_str());
        out.push_str(")");
        out
    }

    /// The file was opened.
    pub fn reader_opened(&mut self)
        ensures
            final(self)@ == (KeyboardView { has_reader: true, ..old(self)@ }),
    {
        self.has_reader = true;
    }

    /// A key was captured, with the text it stands for.
    pub fn key_captured(&mut self, text: &[u8])
        ensures
            final(self)@ == (KeyboardView { captured: old(self)@.captured + text@, ..old(self)@ }),
    {
        push_bytes(&mut self.read_buffer, text);
    }

    /// The file to open to open the keyboard again. Nothing has to be done for
    /// one that is open; one that is no file cannot be opened again.
    pub fn open_plan(&self) -> (r: Result<Option<String>, DeviceError>)
        ensures
            match r {
                Ok(None) => self@.state == DeviceState::Open,
                Ok(Some(file)) => self@.state == DeviceState::Closed && file_of(self@.path) == Some(
                    file@,
                ),
                Err(e) => self@.state == DeviceState::Closed && file_of(self@.path) is None && e@
                    == (DeviceErrorView::UnsupportedOperation {
                    device: self@.path,
                    operation: "open"@,
                }),
            },
    {
        if self.device.device_state == DeviceState::Open {
            return Ok(None);
        }
        match self.file() {
            Some(file) => Ok(Some(file)),
            None => Err(
                DeviceError::UnsupportedOperation {
                    device: self.device.device_path.clone(),
                    operation: "open",
                },
            ),
        }
    }

    /// The file was opened and with it the keyboard.
    pub fn opened(&mut self)
        ensures
            final(self)@ == (KeyboardView {
                state: DeviceState::Open,
                has_reader: true,
                ..old(self)@
            }),
    {
        self.has_reader = true;
        self.device.device_state = DeviceState::Open;
    }

    /// Closes the keyboard. Keys that were captured are forgotten.
    pub fn close(&mut self)
        ensures
            old(self)@.state == DeviceState::Closed ==> final(self)@ == old(self)@,
            old(self)@.state == DeviceState::Open ==> final(self)@ == (KeyboardView {
                state: DeviceState::Closed,
                has_reader: false,
                captured: Seq::empty(),
                ..old(self)@
            }),
    {
        if self.device.device_state == DeviceState::Closed {
            return;
        }
        self.has_reader = false;
        self.read_buffer.clear();
        self.device.device_state = DeviceState::Closed;
    }

    /// Where the bytes of a read come from.
    pub fn read_plan(&self) -> (r: Result<ReadSource, DeviceError>)
        ensures
            match r {
                Ok(source) => self@.state == DeviceState::Open && (source == ReadSource::Line
                    <==> self@.has_reader),
                Err(e) => self@.state == DeviceState::Closed && e@ == DeviceErrorView::NotOpen(
                    self@.path,
                ),
            },
    {
        if self.device.device_state == DeviceState::Closed {
            return Err(DeviceError::NotOpen(self.device.device_path.clone()));
        }
        if self.has_reader {
            Ok(ReadSource::Line)
        } else {
            Ok(ReadSource::Waiting)
        }
    }

    /// Reads captured keys.
    pub fn read_waiting(&mut self, buf: &mut [u8]) -> (r: usize)
        ensures
            final(buf)@ == filled(old(buf)@, old(self)@.captured),
            r == lesser(old(self)@.captured.len(), old(buf)@.len()),
            final(self)@ == (KeyboardView {
                captured: old(self)@.captured.skip(r as int),
                ..old(self)@
            }),
    {
        drain_into(&mut self.read_buffer, buf)
    }

    /// Whether data can be typed on this machine: the keyboard is open and no
    /// file.
    pub fn write_plan(&self) -> (r: Result<(), DeviceError>)
        ensures
            match r {
                Ok(()) => self@.state == DeviceState::Open && !self@.has_reader,
                Err(e) => if self@.state == DeviceState::Closed {
                    e@ == DeviceErrorView::NotOpen(self@.path)
                } else {
                    self@.has_reader && e@ == (DeviceErrorView::UnsupportedOperation {
                        device: self@.path,
                        operation: "write"@,
                    })
                },
            },
    {
        if self.device.device_state == DeviceState::Closed {
            return Err(DeviceError::NotOpen(self.device.device_path.clone()));
        }
        if self.has_reader {
            return Err(
                DeviceError::UnsupportedOperation {
                    device: self.device.device_path.clone(),
                    operation: "write",
                },
            );
        }
        Ok(())
    }
}

/// The text of a key that stands for no character of the layout, by its
/// number.
pub open spec fn named_key(code: u16) -> Option<Seq<char>> {
    if code == 0x08 {
        Some("[Backspace]"@)
    } else if code == 0x09 {
        Some("[Tab]"@)
    } else if code == 0x0D {
        Some("\n"@)
    } else if code == 0x1B {
        Some("[Esc]"@)
    } else if code == 0x20 {
        Some(" "@)
    } else if code == 0x21 {
        Some("[PgUp]"@)
    } else if code == 0x22 {
        Some("[PgDn]"@)
    } else if code == 0x23 {
        Some("[End]"@)
    } else if code == 0x24 {
        Some("[Home]"@)
    } else if code == 0x25 {
        Some("[Left]"@)
    } else if code == 0x26 {
        Some("[Up]"@)
    } else if code == 0x27 {
        Some("[Right]"@)
    } else if code == 0x28 {
        Some("[Down]"@)
    } else if code == 0x2D {
        Some("[Ins]"@)
    } else if code == 0x2E {
        Some("[Del]"@)
    } else if 0x70 <= code <= 0x87 {
        Some("[F"@ + decimal((code - 0x6F) as nat) + "]"@)
    } else {
        None
    }
}

/// The text of a key with a name of its own. Only the lower half of the number
/// counts.
pub fn vk_name(vk_code: u32) -> (r: Option<String>)
    ensures
        match r {
            Some(text) => named_key((vk_code % 0x1_0000) as u16) == Some(text@),
            None => named_key((vk_code % 0x1_0000) as u16) is None,
        },
{
    let code: u16 = (vk_code % 0x1_0000) as u16;
    let text = match code {
        0x08 => "[Backspace]",
        0x09 => "[Tab]",
        0x0D => "\n",
        0x1B => "[Esc]",
        0x20 => " ",
        0x21 => "[PgUp]",
        0x22 => "[PgDn]",
        0x23 => "[End]",
        0x24 => "[Home]",
        0x25 => "[Left]",
        0x26 => "[Up]",
        0x27 => "[Right]",
        0x28 => "[Down]",
        0x2D => "[Ins]",
        0x2E => "[Del]",
        _ => {
            if code >= 0x70 && code <= 0x87 {
                let mut out = "[F".to_owned();
                push_decimal(&mut out, (code - 0x6F) as u64);
                out.push_str("]");
                return Some(out);
            }
            return None;
        },
    };
    Some(text.to_owned())
}

/// The text of a key: its own name, or else what the layout makes of it.
pub open spec fn key_text_of(vk_code: u32, layout_text: Seq<char>) -> Seq<char> {
    match named_key((vk_code % 0x1_0000) as u16) {
        Some(text) => text,
        None => layout_text,
    }
}

/// The text of a key: its own name, or else what the layout makes of it.
pub fn key_text(vk_code: u32, layout_text: &str) -> (r: String)
    ensures
        r@ == key_text_of(vk_code, layout_text@),
{
    match vk_name(vk_code) {
        Some(text) => text,
        None => layout_text.to_owned(),
    }
}

/// The text of a key: its own name, or else what the layout makes of it.
/// `units` is that in UTF-16, empty if the layout makes nothing of the key.
pub fn vk_to_text(vk_code: u32, units: &[u16]) -> (r: String)
    ensures
        r@ == key_text_of(vk_code, utf16_text(units@)),
{
    let layout_text = text_from_utf16(units);
    key_text(vk_code, layout_text.as_str())
}

/// A key that goes down or comes up.
#[derive(Debug, Clone, Copy, PartialEq, Eq, Structural)]
pub struct KeyStroke {
    pub vk: u16,
    pub up: bool,
}

/// The key that types a byte; `scan` is what the layout says of the byte, -1
/// if it has no key for it.
pub open spec fn key_of(byte: u8, scan: i16) -> Option<u16> {
    if byte == 0x0D || byte == 0x0A {
        Some(0x0D)
    } else if byte == 0x08 {
        Some(0x08)
    } else if byte == 0x09 {
        Some(0x09)
    } else if byte == 0x1B {
        Some(0x1B)
    } else if 0x20 <= byte <= 0x7E {
        if scan == -1 {
            None
        } else {
            Some((scan as int % 256) as u16)
        }
    } else {
        None
    }
}

/// The strokes that type the first `n` bytes: each key goes down and comes up
/// again. Bytes without a key are passed over.
pub open spec fn strokes_for(data: Seq<u8>, scans: Seq<i16>, n: int) -> Seq<KeyStroke>
    decreases n,
{
    if n <= 0 {
        Seq::empty()
    } else {
        let earlier = strokes_for(data, scans, n - 1);
        match key_of(data[n - 1], scans[data[n - 1] as int]) {
            Some(vk) => earlier + seq![
                KeyStroke { vk, up: false },
                KeyStroke { vk, up: true },
            ],
            None => earlier,
        }
    }
}

fn find_vk(byte: u8, scan: i16) -> (r: Option<u16>)
    ensures
        r == key_of(byte, scan),
{
    match byte {
        0x0D | 0x0A => Some(0x0D),
        0x08 => Some(0x08),
        0x09 => Some(0x09),
        0x1B => Some(0x1B),
        _ => if byte >= 0x20 && byte <= 0x7E {
            if scan == -1 {
                None
            } else {
                let wide: i32 = scan as i32 + 0x1_0000;
                Some((wide % 256) as u16)
            }
        } else {
            None
        },
    }
}

/// The strokes that type data; `scans` is what the layout says of each byte.
pub fn plan_strokes(data: &[u8], scans: &[i16]) -> (r: Vec<KeyStroke>)
    requires
        scans@.len() == 256,
    ensures
        r@ == strokes_for(data@, scans@, data@.len() as int),
        r@.len() % 2 == 0,
{
    let mut strokes: Vec<KeyStroke> = Vec::new();
    let mut i: usize = 0;
    while i < data.len()
        invariant
            i <= data.len(),
            scans@.len() == 256,
            strokes@ == strokes_for(data@, scans@, i as int),
            strokes@.len() % 2 == 0,
        decreases data.len() - i,
    {
        let ghost before = strokes@;
        let byte: u8 = data[i];
        if let Some(vk) = find_vk(byte, scans[byte as usize]) {
            strokes.push(KeyStroke { vk, up: false });
            strokes.push(KeyStroke { vk, up: true });
            assert(strokes@ =~= before + seq![
                KeyStroke { vk, up: false },
                KeyStroke { vk, up: true },
            ]);
        }
        i = i + 1;
    }
    strokes
}

/// What typing comes to: the number of keys typed. Typing fails if there were
/// strokes and the system took none.
pub fn inject_outcome(strokes: usize, sent: u32) -> (r: Result<usize, DeviceError>)
    ensures
        match r {
            Ok(n) => n == strokes / 2 && (strokes == 0 || sent > 0),
            Err(e) => strokes > 0 && sent == 0 && e@ == DeviceErrorView::Io(
                "SendInput failed — no window has keyboard focus?"@,
            ),
        },
{
    if strokes == 0 {
        return Ok(0);
    }
    if sent == 0 {
        return Err(
            DeviceError::Io("SendInput failed — no window has keyboard focus?".to_owned()),
        );
    }
    Ok(strokes / 2)
}

/// Typing on a system on which it is not supported.
pub fn inject_keys(_data: &[u8]) -> (r: Result<usize, DeviceError>)
    ensures
        r matches Err(e) && e@ == (DeviceErrorView::UnsupportedOperation {
            device: "keyboard"@,
            operation: "inject"@,
        }),
{
    Err(DeviceError::UnsupportedOperation { device: "keyboard".to_owned(), operation: "inject" })
}

/// Every printable character that the layout has a key for is typed by that
/// key, which goes down and comes up again; one without a key is passed over.
/// Line ends, backspace, tabulator and escape have keys of their own. No other
/// byte types anything.
pub proof fn law_one_byte_is_one_key(byte: u8, scans: Seq<i16>)
    requires
        scans.len() == 256,
    ensures
        ({
            let typed = strokes_for(seq![byte], scans, 1);
            let scan = scans[byte as int];
            let own = byte == 0x08 || byte == 0x09 || byte == 0x0A || byte == 0x0D || byte == 0x1B;
            let printable = 0x20 <= byte && byte <= 0x7E;
            &&& printable && scan != -1 ==> typed.len() == 2 && typed[0].vk == typed[1].vk
                && typed[0].vk < 256 && (scan - typed[0].vk) % 256 == 0 && !typed[0].up
                && typed[1].up
            &&& printable && scan == -1 ==> typed.len() == 0
            &&& own ==> typed.len() == 2 && typed[0].vk == typed[1].vk && !typed[0].up
                && typed[1].up
            &&& own && byte != 0x0A ==> typed[0].vk == byte
            &&& byte == 0x0A ==> typed[0].vk == 0x0D
            &&& !own && !printable ==> typed.len() == 0
        }),
{
    reveal_with_fuel(strokes_for, 2);
}

/// Data is typed byte after byte: the strokes of two runs of bytes are those of
/// the first and then those of the second.
pub proof fn law_typing_joins(a: Seq<u8>, b: Seq<u8>, scans: Seq<i16>)
    ensures
        strokes_for(a + b, scans, (a + b).len() as int) == strokes_for(a, scans, a.len() as int)
            + strokes_for(b, scans, b.len() as int),
{
    lemma_strokes_of_front(a + b, a, scans, a.len() as int);
    lemma_strokes_of_rest(a, b, scans, b.len() as int);
}

proof fn lemma_strokes_of_front(data: Seq<u8>, front: Seq<u8>, scans: Seq<i16>, n: int)
    requires
        0 <= n <= front.len() <= data.len(),
        forall|i: int| 0 <= i < front.len() ==> data[i] == front[i],
    ensures
        strokes_for(data, scans, n) == strokes_for(front, scans, n),
    decreases n,
{
    if n > 0 {
        lemma_strokes_of_front(data, front, scans, n - 1);
    }
}

proof fn lemma_strokes_of_rest(a: Seq<u8>, b: Seq<u8>, scans: Seq<i16>, n: int)
    requires
        0 <= n <= b.len(),
    ensures
        strokes_for(a + b, scans, a.len() + n) == strokes_for(a, scans, a.len() as int)
            + strokes_for(b, scans, n),
    decreases n,
{
    let first = strokes_for(a, scans, a.len() as int);
    if n == 0 {
        lemma_strokes_of_front(a + b, a, scans, a.len() as int);
        assert(first + Seq::<KeyStroke>::empty() =~= first);
    } else {
        lemma_strokes_of_rest(a, b, scans, n - 1);
        assert((a + b)[a.len() + n - 1] == b[n - 1]);
        let earlier = strokes_for(b, scans, n - 1);
        if let Some(vk) = key_of(b[n - 1], scans[b[n - 1] as int]) {
            let pair = seq![KeyStroke { vk, up: false }, KeyStroke { vk, up: true }];
            assert((first + earlier) + pair =~= first + (earlier + pair));
        }
    }
}

/// Every key that goes down comes up again before another one goes down.
pub proof fn law_keys_come_up_again(data: Seq<u8>, scans: Seq<i16>, n: int, i: int)
    requires
        0 <= n <= data.len(),
        0 <= i < strokes_for(data, scans, n).len(),
    ensures
        strokes_for(data, scans, n).len() % 2 == 0,
        strokes_for(data, scans, n)[i].up <==> i % 2 == 1,
        i % 2 == 1 ==> strokes_for(data, scans, n)[i].vk == strokes_for(data, scans, n)[i - 1].vk,
    decreases n,
{
    lemma_strokes_are_even(data, scans, n);
    if n > 0 {
        lemma_strokes_are_even(data, scans, n - 1);
        if i < strokes_for(data, scans, n - 1).len() {
            law_keys_come_up_again(data, scans, n - 1, i);
        }
    }
}

proof fn lemma_strokes_are_even(data: Seq<u8>, scans: Seq<i16>, n: int)
    ensures
        strokes_for(data, scans, n).len() % 2 == 0,
    decreases n,
{
    if n > 0 {
        lemma_strokes_are_even(data, scans, n - 1);
    }
}

/// A key with a name of its own is told by that name, whatever the layout
/// makes of it: function keys by their number, space and the line end as
/// themselves. Every other key is told by what the layout makes of it. Only
/// the lower half of the number of the key counts.
pub proof fn law_key_texts(vk_code: u32, layout_text: Seq<char>, n: nat)
    ensures
        ({
            let code = vk_code % 0x1_0000;
            let text = key_text_of(vk_code, layout_text);
            let moves = 0x21 <= code <= 0x28 || code == 0x2D || code == 0x2E;
            let edits = code == 0x08 || code == 0x09 || code == 0x1B;
            &&& code == 0x0D ==> text == "\n"@
            &&& code == 0x20 ==> text == " "@
            &&& 1 <= n <= 24 && code == 0x6F + n ==> text == "[F"@ + decimal(n) + "]"@
            &&& code == 0x21 ==> text == "[PgUp]"@
            &&& code == 0x22 ==> text == "[PgDn]"@
            &&& code == 0x23 ==> text == "[End]"@
            &&& code == 0x24 ==> text == "[Home]"@
            &&& code == 0x25 ==> text == "[Left]"@
            &&& code == 0x26 ==> text == "[Up]"@
            &&& code == 0x27 ==> text == "[Right]"@
            &&& code == 0x28 ==> text == "[Down]"@
            &&& code == 0x2D ==> text == "[Ins]"@
            &&& code == 0x2E ==> text == "[Del]"@
            &&& code == 0x08 ==> text == "[Backspace]"@
            &&& code == 0x09 ==> text == "[Tab]"@
            &&& code == 0x1B ==> text == "[Esc]"@
            &&& code != 0x0D && code != 0x20 && !moves && !edits && !(0x70 <= code <= 0x87)
                ==> text == layout_text
        }),
{
}

} // verus!
