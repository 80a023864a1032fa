//! A look at the traffic of known kinds of devices, for the log.
//!
//! An adapter sends its messages as frames of its own: four bytes of length,
//! most significant first, and then the payload.
use crate::ncdd::json::{
    as_flag, as_integer, as_list_len, as_text, json_document, json_member, json_members, member,
    parse_json, text_view, JsonField, JsonFieldView,
};
use crate::text::{
    chars_of, contains_chars, decimal, law_occurrences, lower, lower_chars, occurs_in,
    push_decimal, push_signed_decimal, quote, quoted, signed_decimal,
};
use crate::wire::{
    be16_at, be32, be32_at, copy_range, law_big_endian, push_bytes, read_be16, read_be32,
};
use vstd::prelude::*;
use vstd::utf8::encode_utf8;

verus! {

/// The longest payload of an adapter frame, in bytes.
pub const MAX_ADAPTER_FRAME_SIZE: usize = 16 * 1024 * 1024;

/// What a remote device is.
#[derive(Debug, Clone, Copy, PartialEq, Eq, Structural)]
pub enum DeviceKind {
    Camera,
    Keyboard,
    Instruction,
    File,
    Unknown,
}

/// Which way data flows.
#[derive(Debug, Clone, Copy, PartialEq, Eq, Structural)]
pub enum Direction {
    RemoteToLinux,
    LinuxToRemote,
}

pub open spec fn direction_label(d: Direction) -> Seq<char> {
    match d {
        Direction::RemoteToLinux => "remote->linux"@,
        Direction::LinuxToRemote => "linux->remote"@,
    }
}

pub open spec fn kind_label(k: DeviceKind) -> Seq<char> {
    match k {
        DeviceKind::Camera => "camera"@,
        DeviceKind::Keyboard => "keyboard"@,
        DeviceKind::Instruction => "instruction"@,
        DeviceKind::File => "file"@,
        DeviceKind::Unknown => "unknown"@,
    }
}

impl Direction {
    pub fn label(self) -> (r: &'static str)
        ensures
            r@ == direction_label(self),
    {
        match self {
            Direction::RemoteToLinux => "remote->linux",
            Direction::LinuxToRemote => "linux->remote",
        }
    }
}

impl DeviceKind {
    pub fn label(self) -> (r: &'static str)
        ensures
            r@ == kind_label(self),
    {
        match self {
            DeviceKind::Camera => "camera",
            DeviceKind::Keyboard => "keyboard",
            DeviceKind::Instruction => "instruction",
            DeviceKind::File => "file",
            DeviceKind::Unknown => "unknown",
        }
    }
}

/// The kind that a name suggests, or else the usual port of a kind.
pub open spec fn inferred_kind(name: Seq<char>, port: u16) -> DeviceKind {
    if occurs_in("camera"@, lower(name)) || port == 9000 {
        DeviceKind::Camera
    } else if occurs_in("keyboard"@, lower(name)) || port == 10000 {
        DeviceKind::Keyboard
    } else if occurs_in("instruction"@, lower(name)) || port == 11000 {
        DeviceKind::Instruction
    } else if occurs_in("file"@, lower(name)) || port == 8000 {
        DeviceKind::File
    } else {
        DeviceKind::Unknown
    }
}

/// The kind of a device, from its name and its port.
pub fn infer_device_kind(name: &str, remote_port: u16) -> (r: DeviceKind)
    ensures
        r == inferred_kind(name@, remote_port),
{
    let lowered = lower_chars(name);
    if contains_chars(lowered.as_slice(), chars_of("camera").as_slice()) || remote_port == 9000 {
        DeviceKind::Camera
    } else if contains_chars(lowered.as_slice(), chars_of("keyboard").as_slice()) || remote_port
        == 10000 {
        DeviceKind::Keyboard
    } else if contains_chars(lowered.as_slice(), chars_of("instruction").as_slice()) || remote_port
        == 11000 {
        DeviceKind::Instruction
    } else if contains_chars(lowered.as_slice(), chars_of("file").as_slice()) || remote_port
        == 8000 {
        DeviceKind::File
    } else {
        DeviceKind::Unknown
    }
}

/// Whether a JPEG marker starts a frame header.
pub open spec fn starts_frame(marker: u8) -> bool {
    0xC0 <= marker <= 0xCF && marker != 0xC4 && marker != 0xC8 && marker != 0xCC
}

/// Whether a JPEG marker starts a frame header.
pub fn is_sof_marker(marker: u8) -> (r: bool)
    ensures
        r == starts_frame(marker),
{
    marker >= 0xC0 && marker <= 0xCF && marker != 0xC4 && marker != 0xC8 && marker != 0xCC
}

/// The end of the run of fill bytes at `i`.
pub open spec fn fill_end(data: Seq<u8>, i: int) -> int
    decreases data.len() - i,
{
    if 0 <= i < data.len() && data[i] == 0xFF {
        fill_end(data, i + 1)
    } else {
        i
    }
}

proof fn lemma_fill_end(data: Seq<u8>, i: int)
    requires
        0 <= i <= data.len(),
    ensures
        i <= fill_end(data, i) <= data.len(),
    decreases data.len() - i,
{
    if i < data.len() && data[i] == 0xFF {
        lemma_fill_end(data, i + 1);
    }
}

/// Width and height in the first frame header among the segments from `i` on.
pub open spec fn scanned(data: Seq<u8>, i: int) -> Option<(nat, nat)>
    decreases data.len() - i,
    via scanned_shrinks
{
    if i < 0 || i + 3 >= data.len() {
        None
    } else if data[i] != 0xFF {
        scanned(data, i + 1)
    } else {
        let at = fill_end(data, i);
        if at >= data.len() {
            None
        } else {
            let marker = data[at];
            let body = at + 1;
            if marker == 0xD9 || marker == 0xDA {
                // End of image, or start of the scan: no header comes any more.
                None
            } else if marker == 0x01 || 0xD0 <= marker <= 0xD7 {
                // A marker without a segment.
                scanned(data, body)
            } else if body + 2 > data.len() {
                None
            } else {
                let length = be16_at(data, body) as int;
                if length < 2 || body + length > data.len() {
                    None
                } else if starts_frame(marker) {
                    if length < 7 {
                        None
                    } else {
                        Some((be16_at(data, body + 5), be16_at(data, body + 3)))
                    }
                } else {
                    scanned(data, body + length)
                }
            }
        }
    }
}

#[via_fn]
proof fn scanned_shrinks(data: Seq<u8>, i: int) {
    if 0 <= i <= data.len() {
        lemma_fill_end(data, i);
    }
}

/// Width and height of a JPEG picture.
pub open spec fn picture_size(data: Seq<u8>) -> Option<(nat, nat)> {
    if data.len() < 4 || data[0] != 0xFF || data[1] != 0xD8 {
        None
    } else {
        scanned(data, 2)
    }
}

/// Width and height of a JPEG picture, if its header is complete.
pub fn jpeg_dimensions(data: &[u8]) -> (r: Option<(u16, u16)>)
    ensures
        match r {
            Some((width, height)) => picture_size(data@) == Some((width as nat, height as nat)),
            None => picture_size(data@) is None,
        },
{
    if data.len() < 4 || data[0] != 0xFF || data[1] != 0xD8 {
        return None;
    }
    let mut i: usize = 2;
    while data.len() - i > 3
        invariant
            2 <= i <= data.len(),
            picture_size(data@) == scanned(data@, i as int),
        decreases data.len() - i,
    {
        if data[i] != 0xFF {
            i = i + 1;
            continue;
        }
        let ghost start = i as int;
        while i < data.len() && data[i] == 0xFF
            invariant
                start <= i <= data.len(),
                fill_end(data@, i as int) == fill_end(data@, start),
                i == start ==> i < data.len() && data@[i as int] == 0xFF,
            decreases data.len() - i,
        {
            i = i + 1;
        }
        if i >= data.len() {
            return None;
        }
        let marker: u8 = data[i];
        i = i + 1;
        if marker == 0xD9 || marker == 0xDA {
            return None;
        }
        if marker == 0x01 || (marker >= 0xD0 && marker <= 0xD7) {
            continue;
        }
        if data.len() - i < 2 {
            return None;
        }
        let segment_len: usize = read_be16(data, i) as usize;
        if segment_len < 2 || segment_len > data.len() - i {
            return None;
        }
        if is_sof_marker(marker) {
            if segment_len < 7 {
                return None;
            }
            let height: u16 = read_be16(data, i + 3);
            let width: u16 = read_be16(data, i + 5);
            return Some((width, height));
        }
        i = i + segment_len;
    }
    None
}

/// What the log says of a keyboard message.
#[derive(Debug)]
pub struct KeyboardFields {
    pub event: Option<String>,
    pub action: Option<String>,
    pub key_type: Option<String>,
    pub key: Option<String>,
    /// The number of characters typed.
    pub text_len: Option<usize>,
}

/// What the log says of an instruction or of its answer.
#[derive(Debug)]
pub struct InstructionFields {
    pub id: Option<String>,
    pub shell: Option<bool>,
    pub command: Option<String>,
    pub argv_len: Option<usize>,
    pub ok: Option<bool>,
    pub returncode: Option<i64>,
    /// Bytes of standard output.
    pub stdout_len: Option<usize>,
    /// Bytes of standard error.
    pub stderr_len: Option<usize>,
}

/// The mathematical content of [`KeyboardFields`].
pub struct KeyboardView {
    pub event: Option<Seq<char>>,
    pub action: Option<Seq<char>>,
    pub key_type: Option<Seq<char>>,
    pub key: Option<Seq<char>>,
    pub text_len: Option<usize>,
}

/// The mathematical content of [`InstructionFields`].
pub struct InstructionView {
    pub id: Option<Seq<char>>,
    pub shell: Option<bool>,
    pub command: Option<Seq<char>>,
    pub argv_len: Option<usize>,
    pub ok: Option<bool>,
    pub returncode: Option<i64>,
    pub stdout_len: Option<usize>,
    pub stderr_len: Option<usize>,
}

impl View for KeyboardFields {
    type V = KeyboardView;

    open spec fn view(&self) -> KeyboardView {
        KeyboardView {
            event: text_view(self.event),
            action: text_view(self.action),
            key_type: text_view(self.key_type),
            key: text_view(self.key),
            text_len: self.text_len,
        }
    }
}

impl View for InstructionFields {
    type V = InstructionView;

    open spec fn view(&self) -> InstructionView {
        InstructionView {
            id: text_view(self.id),
            shell: self.shell,
            command: text_view(self.command),
            argv_len: self.argv_len,
            ok: self.ok,
            returncode: self.returncode,
            stdout_len: self.stdout_len,
            stderr_len: self.stderr_len,
        }
    }
}

/// The number of characters of a text.
pub open spec fn char_len(s: Option<Seq<char>>) -> Option<usize> {
    match s {
        Some(s) => Some(s.len() as usize),
        None => None,
    }
}

/// The number of bytes of a text.
pub open spec fn byte_len(s: Option<Seq<char>>) -> Option<usize> {
    match s {
        Some(s) => Some(encode_utf8(s).len() as usize),
        None => None,
    }
}

/// What the log says of these members of a keyboard message.
pub open spec fn keyboard_of(
    event: JsonFieldView,
    action: JsonFieldView,
    key_type: JsonFieldView,
    key: JsonFieldView,
    text: JsonFieldView,
) -> KeyboardView {
    KeyboardView {
        event: as_text(event),
        action: as_text(action),
        key_type: as_text(key_type),
        key: as_text(key),
        text_len: char_len(as_text(text)),
    }
}

/// What the log says of a keyboard message.
pub open spec fn keyboard_view(m: Map<Seq<char>, JsonFieldView>) -> KeyboardView {
    keyboard_of(
        member(m, "event"@),
        member(m, "action"@),
        member(m, "key_type"@),
        member(m, "key"@),
        member(m, "text"@),
    )
}

/// Members of an instruction or of its answer.
#[derive(Debug)]
pub struct InstructionMembers {
    pub id: JsonField,
    pub shell: JsonField,
    pub command: JsonField,
    pub argv: JsonField,
    pub ok: JsonField,
    pub returncode: JsonField,
    pub stdout: JsonField,
    pub stderr: JsonField,
}

/// What the log says of these members of an instruction.
pub open spec fn instruction_of(
    id: JsonFieldView,
    shell: JsonFieldView,
    command: JsonFieldView,
    argv: JsonFieldView,
    ok: JsonFieldView,
    returncode: JsonFieldView,
    stdout: JsonFieldView,
    stderr: JsonFieldView,
) -> InstructionView {
    InstructionView {
        id: as_text(id),
        shell: as_flag(shell),
        command: as_text(command),
        argv_len: as_list_len(argv),
        ok: as_flag(ok),
        returncode: as_integer(returncode),
        stdout_len: byte_len(as_text(stdout)),
        stderr_len: byte_len(as_text(stderr)),
    }
}

/// What the log says of an instruction.
pub open spec fn instruction_view(m: Map<Seq<char>, JsonFieldView>) -> InstructionView {
    instruction_of(
        member(m, "id"@),
        member(m, "shell"@),
        member(m, "command"@),
        member(m, "argv"@),
        member(m, "ok"@),
        member(m, "returncode"@),
        member(m, "stdout"@),
        member(m, "stderr"@),
    )
}

/// What the log says of these members of a keyboard message.
pub fn keyboard_fields(
    event: JsonField,
    action: JsonField,
    key_type: JsonField,
    key: JsonField,
    text: JsonField,
) -> (r: KeyboardFields)
    ensures
        r@ == keyboard_of(event@, action@, key_type@, key@, text@),
{
    KeyboardFields {
        event: event.into_text(),
        action: action.into_text(),
        key_type: key_type.into_text(),
        key: key.into_text(),
        text_len: count_chars(text.into_text()),
    }
}

/// What the log says of these members of an instruction.
pub fn instruction_fields(m: InstructionMembers) -> (r: InstructionFields)
    ensures
        r@ == instruction_of(
            m.id@,
            m.shell@,
            m.command@,
            m.argv@,
            m.ok@,
            m.returncode@,
            m.stdout@,
            m.stderr@,
        ),
{
    InstructionFields {
        id: m.id.into_text(),
        shell: m.shell.flag(),
        command: m.command.into_text(),
        argv_len: m.argv.list_len(),
        ok: m.ok.flag(),
        returncode: m.returncode.integer(),
        stdout_len: count_bytes(m.stdout.into_text()),
        stderr_len: count_bytes(m.stderr.into_text()),
    }
}

fn count_chars(s: Option<String>) -> (r: Option<usize>)
    ensures
        r == char_len(text_view(s)),
{
    match s {
        Some(s) => Some(s.as_str().unicode_len()),
        None => None,
    }
}

fn count_bytes(s: Option<String>) -> (r: Option<usize>)
    ensures
        r == byte_len(text_view(s)),
{
    match s {
        Some(s) => Some(s.as_str().len()),
        None => None,
    }
}

/// Something worth a line in the log.
#[derive(Debug)]
pub enum Finding {
    /// A length no adapter frame can have; what was buffered is dropped.
    InvalidLength { length: usize },
    Camera { count: u64, bytes: usize, dimensions: Option<(u16, u16)> },
    Keyboard { count: u64, bytes: usize, fields: KeyboardFields },
    Instruction { count: u64, bytes: usize, fields: InstructionFields },
    /// A payload that should be JSON and is not.
    NotJson { kind: DeviceKind, count: u64, bytes: usize, error: String },
    File { count: u64, bytes: usize },
}

/// The mathematical content of a [`Finding`].
pub enum FindingView {
    InvalidLength { length: nat },
    Camera { count: u64, bytes: nat, dimensions: Option<(nat, nat)> },
    Keyboard { count: u64, bytes: nat, fields: KeyboardView },
    Instruction { count: u64, bytes: nat, fields: InstructionView },
    NotJson { kind: DeviceKind, count: u64, bytes: nat, error: Seq<char> },
    File { count: u64, bytes: nat },
}

/// Width and height as numbers.
pub open spec fn size_view(d: Option<(u16, u16)>) -> Option<(nat, nat)> {
    match d {
        Some((w, h)) => Some((w as nat, h as nat)),
        None => None,
    }
}

impl View for Finding {
    type V = FindingView;

    open spec fn view(&self) -> FindingView {
        match self {
            Finding::InvalidLength { length } => FindingView::InvalidLength {
                length: *length as nat,
            },
            Finding::Camera { count, bytes, dimensions } => FindingView::Camera {
                count: *count,
                bytes: *bytes as nat,
                dimensions: size_view(*dimensions),
            },
            Finding::Keyboard { count, bytes, fields } => FindingView::Keyboard {
                count: *count,
                bytes: *bytes as nat,
                fields: fields@,
            },
            Finding::Instruction { count, bytes, fields } => FindingView::Instruction {
                count: *count,
                bytes: *bytes as nat,
                fields: fields@,
            },
            Finding::NotJson { kind, count, bytes, error } => FindingView::NotJson {
                kind: *kind,
                count: *count,
                bytes: *bytes as nat,
                error: error@,
            },
            Finding::File { count, bytes } => FindingView::File {
                count: *count,
                bytes: *bytes as nat,
            },
        }
    }
}

/// The contents of a list of findings.
pub open spec fn finding_views(f: Seq<Finding>) -> Seq<FindingView> {
    Seq::new(f.len(), |i: int| f[i]@)
}

/// What the log says of a keyboard or instruction payload, given what it reads
/// as.
pub open spec fn json_finding(
    kind: DeviceKind,
    count: u64,
    bytes: nat,
    document: Result<Map<Seq<char>, JsonFieldView>, Seq<char>>,
) -> FindingView {
    match document {
        Ok(m) => if kind == DeviceKind::Keyboard {
            FindingView::Keyboard { count, bytes, fields: keyboard_view(m) }
        } else {
            FindingView::Instruction { count, bytes, fields: instruction_view(m) }
        },
        Err(error) => FindingView::NotJson { kind, count, bytes, error },
    }
}

/// What the log says of the payload of an adapter frame.
pub open spec fn payload_finding(kind: DeviceKind, count: u64, payload: Seq<u8>) -> Option<
    FindingView,
> {
    match kind {
        DeviceKind::Camera => Some(
            FindingView::Camera {
                count,
                bytes: payload.len(),
                dimensions: picture_size(payload),
            },
        ),
        DeviceKind::Keyboard | DeviceKind::Instruction => Some(
            json_finding(kind, count, payload.len(), json_document(payload)),
        ),
        DeviceKind::File => Some(FindingView::File { count, bytes: payload.len() }),
        DeviceKind::Unknown => None,
    }
}

/// Looks at a payload that should be JSON.
pub fn log_json_device(kind: DeviceKind, count: u64, payload: &[u8]) -> (r: Finding)
    ensures
        r@ == json_finding(kind, count, payload@.len(), json_document(payload@)),
{
    match parse_json(payload) {
        Ok(value) => {
            if kind == DeviceKind::Keyboard {
                Finding::Keyboard {
                    count,
                    bytes: payload.len(),
                    fields: log_keyboard_json(&value),
                }
            } else {
                Finding::Instruction {
                    count,
                    bytes: payload.len(),
                    fields: log_instruction_json(&value),
                }
            }
        },
        Err(error) => Finding::NotJson { kind, count, bytes: payload.len(), error },
    }
}

/// Picks out of a keyboard message what the log says of it.
fn log_keyboard_json(value: &serde_json::Value) -> (r: KeyboardFields)
    ensures
        r@ == keyboard_view(json_members(*value)),
{
    keyboard_fields(
        json_member(value, "event"),
        json_member(value, "action"),
        json_member(value, "key_type"),
        json_member(value, "key"),
        json_member(value, "text"),
    )
}

/// Picks out of an instruction or its answer what the log says of it.
fn log_instruction_json(value: &serde_json::Value) -> (r: InstructionFields)
    ensures
        r@ == instruction_view(json_members(*value)),
{
    instruction_fields(
        InstructionMembers {
            id: json_member(value, "id"),
            shell: json_member(value, "shell"),
            command: json_member(value, "command"),
            argv: json_member(value, "argv"),
            ok: json_member(value, "ok"),
            returncode: json_member(value, "returncode"),
            stdout: json_member(value, "stdout"),
            stderr: json_member(value, "stderr"),
        },
    )
}

/// Looks at the payload of an adapter frame.
pub fn log_frame(kind: DeviceKind, count: u64, payload: &[u8]) -> (r: Option<Finding>)
    ensures
        match r {
            Some(f) => payload_finding(kind, count, payload@) == Some(f@),
            None => payload_finding(kind, count, payload@) is None,
        },
{
    match kind {
        DeviceKind::Camera => Some(
            Finding::Camera { count, bytes: payload.len(), dimensions: jpeg_dimensions(payload) },
        ),
        DeviceKind::Keyboard | DeviceKind::Instruction => Some(
            log_json_device(kind, count, payload),
        ),
        DeviceKind::File => Some(Finding::File { count, bytes: payload.len() }),
        DeviceKind::Unknown => None,
    }
}

/// Complete adapter frames at the start of some bytes, the bytes behind them,
/// and a length that no adapter frame can have.
#[verifier::ext_equal]
pub struct AdapterSplit {
    pub payloads: Seq<Seq<u8>>,
    pub rest: Seq<u8>,
    pub bad_length: Option<nat>,
}

/// Splits bytes into the payloads of the complete adapter frames at their
/// start and the rest. An impossible length takes the rest with it.
pub open spec fn adapter_split(bytes: Seq<u8>) -> AdapterSplit
    decreases bytes.len(),
{
    if bytes.len() < 4 {
        AdapterSplit { payloads: Seq::empty(), rest: bytes, bad_length: None }
    } else if be32_at(bytes, 0) > MAX_ADAPTER_FRAME_SIZE {
        AdapterSplit {
            payloads: Seq::empty(),
            rest: Seq::empty(),
            bad_length: Some(be32_at(bytes, 0)),
        }
    } else if bytes.len() < 4 + be32_at(bytes, 0) {
        AdapterSplit { payloads: Seq::empty(), rest: bytes, bad_length: None }
    } else {
        let end = 4 + be32_at(bytes, 0) as int;
        let tail = adapter_split(bytes.skip(end));
        AdapterSplit {
            payloads: seq![bytes.subrange(4, end)] + tail.payloads,
            rest: tail.rest,
            bad_length: tail.bad_length,
        }
    }
}

/// What the log says of a run of payloads, the first of which is number
/// `count + 1`.
pub open spec fn payload_findings(
    kind: DeviceKind,
    count: u64,
    payloads: Seq<Seq<u8>>,
) -> Seq<FindingView>
    decreases payloads.len(),
{
    if payloads.len() == 0 {
        Seq::empty()
    } else {
        let earlier = payload_findings(kind, count, payloads.drop_last());
        match payload_finding(kind, (count + payloads.len()) as u64, payloads.last()) {
            Some(f) => earlier.push(f),
            None => earlier,
        }
    }
}

/// What the log says of bytes that were split.
pub open spec fn split_findings(kind: DeviceKind, count: u64, s: AdapterSplit) -> Seq<FindingView> {
    let found = payload_findings(kind, count, s.payloads);
    match s.bad_length {
        Some(length) => found.push(FindingView::InvalidLength { length }),
        None => found,
    }
}

/// Takes in the bytes of one direction: complete adapter frames are counted
/// and looked at, the rest waits.
pub fn inspect_stream(
    kind: DeviceKind,
    buffer: &mut Vec<u8>,
    frame_count: &mut u64,
    data: &[u8],
) -> (r: Vec<Finding>)
    requires
        *old(frame_count) + old(buffer)@.len() + data@.len() <= u64::MAX,
    ensures
        data@.len() == 0 ==> final(buffer)@ == old(buffer)@ && *final(frame_count) == *old(
            frame_count,
        ) && r@.len() == 0,
        data@.len() > 0 ==> ({
            let s = adapter_split(old(buffer)@ + data@);
            &&& final(buffer)@ == s.rest
            &&& *final(frame_count) == *old(frame_count) + s.payloads.len()
            &&& finding_views(r@) == split_findings(kind, *old(frame_count), s)
        }),
{
    let mut found: Vec<Finding> = Vec::new();
    if data.len() == 0 {
        return found;
    }
    let ghost count0 = *frame_count;
    push_bytes(buffer, data);
    let ghost whole = buffer@;
    let ghost mut done: Seq<Seq<u8>> = Seq::empty();
    proof {
        assert(done + adapter_split(whole).payloads =~= adapter_split(whole).payloads);
        assert(finding_views(found@) =~= payload_findings(kind, count0, done));
    }
    loop
        invariant
            count0 + whole.len() <= u64::MAX,
            done.len() + buffer@.len() <= whole.len(),
            *frame_count == count0 + done.len(),
            done + adapter_split(buffer@).payloads == adapter_split(whole).payloads,
            adapter_split(buffer@).rest == adapter_split(whole).rest,
            adapter_split(buffer@).bad_length == adapter_split(whole).bad_length,
            finding_views(found@) == payload_findings(kind, count0, done),
            whole == old(buffer)@ + data@,
            count0 == *old(frame_count),
            data@.len() > 0,
        decreases buffer@.len(),
    {
        let ghost bytes = buffer@;
        let ghost views = finding_views(found@);
        if buffer.len() < 4 {
            assert(done + Seq::<Seq<u8>>::empty() =~= done);
            return found;
        }
        let payload_len: usize = read_be32(buffer.as_slice(), 0) as usize;
        if payload_len > MAX_ADAPTER_FRAME_SIZE {
            buffer.clear();
            let finding = Finding::InvalidLength { length: payload_len };
            let ghost f = finding@;
            found.push(finding);
            assert(finding_views(found@) =~= views.push(f));
            assert(done + Seq::<Seq<u8>>::empty() =~= done);
            return found;
        }
        let frame_len: usize = 4 + payload_len;
        if buffer.len() < frame_len {
            assert(done + Seq::<Seq<u8>>::empty() =~= done);
            return found;
        }
        let payload = copy_range(buffer.as_slice(), 4, frame_len);
        let rest = buffer.split_off(frame_len);
        *buffer = rest;
        *frame_count = *frame_count + 1;
        let finding = log_frame(kind, *frame_count, payload.as_slice());
        proof {
            let tail = adapter_split(bytes.skip(frame_len as int)).payloads;
            assert(buffer@ =~= bytes.skip(frame_len as int));
            assert(done + (seq![payload@] + tail) =~= done.push(payload@) + tail);
            let before = done;
            done = done.push(payload@);
            assert(done.drop_last() =~= before);
        }
        match finding {
            Some(finding) => {
                let ghost f = finding@;
                found.push(finding);
                assert(finding_views(found@) =~= views.push(f));
            },
            None => {},
        }
    }
}

/// `None`, or `Some` of a shown value.
pub open spec fn shown(value: Option<Seq<char>>) -> Seq<char> {
    match value {
        None => "None"@,
        Some(text) => "Some("@ + text + ")"@,
    }
}

/// A text that may be missing, as the log shows it.
pub open spec fn shown_text(value: Option<Seq<char>>) -> Seq<char> {
    shown(
        match value {
            Some(s) => Some(quoted(s)),
            None => None,
        },
    )
}

/// A count that may be missing, as the log shows it.
pub open spec fn shown_count(value: Option<usize>) -> Seq<char> {
    shown(
        match value {
            Some(n) => Some(decimal(n as nat)),
            None => None,
        },
    )
}

/// A truth value that may be missing, as the log shows it.
pub open spec fn shown_flag(value: Option<bool>) -> Seq<char> {
    shown(
        match value {
            Some(true) => Some("true"@),
            Some(false) => Some("false"@),
            None => None,
        },
    )
}

/// A number that may be missing, as the log shows it.
pub open spec fn shown_integer(value: Option<i64>) -> Seq<char> {
    shown(
        match value {
            Some(n) => Some(signed_decimal(n as int)),
            None => None,
        },
    )
}

/// The start of a line about a frame.
pub open spec fn line_start(
    kind: Seq<char>,
    direction: Direction,
    label: Seq<char>,
    count: u64,
) -> Seq<char> {
    "[ncdd parse]["@ + kind + "]["@ + direction_label(direction) + "]["@ + label + "] frame="@
        + decimal(count as nat)
}

/// Width and height, as the log shows them.
pub open spec fn shown_size(d: Option<(nat, nat)>) -> Seq<char> {
    match d {
        Some((w, h)) => decimal(w) + "x"@ + decimal(h),
        None => "unknown-size"@,
    }
}

/// The number, or zero where it is missing.
pub open spec fn or_zero(n: Option<usize>) -> nat {
    match n {
        Some(n) => n as nat,
        None => 0,
    }
}

/// The line in the log for a finding.
pub open spec fn finding_line(f: FindingView, direction: Direction, label: Seq<char>) -> Seq<char> {
    match f {
        FindingView::InvalidLength { length } => "[ncdd parse]["@ + direction_label(direction)
            + "]["@ + label + "] invalid adapter frame length "@ + decimal(length)
            + "; parser buffer cleared"@,
        FindingView::Camera { count, bytes, dimensions } => line_start(
            "camera"@,
            direction,
            label,
            count,
        ) + " jpeg="@ + decimal(bytes) + " bytes size="@ + shown_size(dimensions),
        FindingView::Keyboard { count, bytes, fields } => line_start(
            "keyboard"@,
            direction,
            label,
            count,
        ) + " payload="@ + decimal(bytes) + " bytes event="@ + shown_text(fields.event)
            + " action="@ + shown_text(fields.action) + " key_type="@ + shown_text(fields.key_type)
            + " key="@ + shown_text(fields.key) + " text_len="@ + shown_count(fields.text_len),
        FindingView::Instruction { count, bytes, fields } => line_start(
            "instruction"@,
            direction,
            label,
            count,
        ) + " payload="@ + decimal(bytes) + " bytes id="@ + shown_text(fields.id) + " shell="@
            + shown_flag(fields.shell) + " command="@ + shown_text(fields.command) + " argv_len="@
            + shown_count(fields.argv_len) + " ok="@ + shown_flag(fields.ok) + " returncode="@
            + shown_integer(fields.returncode) + " stdout="@ + decimal(or_zero(fields.stdout_len))
            + " stderr="@ + decimal(or_zero(fields.stderr_len)),
        FindingView::NotJson { kind, count, bytes, error } => line_start(
            kind_label(kind),
            direction,
            label,
            count,
        ) + " payload="@ + decimal(bytes) + " bytes json-error="@ + error,
        FindingView::File { count, bytes } => line_start("file"@, direction, label, count)
            + " payload="@ + decimal(bytes) + " bytes"@,
    }
}

fn push_shown(out: &mut String, value: Option<String>)
    ensures
        final(out)@ == old(out)@ + shown(text_view(value)),
{
    let ghost before = out@;
    match value {
        None => {
            out.push_str("None");
        },
        Some(text) => {
            out.push_str("Some(");
            out.push_str(text.as_str());
            out.push_str(")");
            assert(out@ =~= before + ("Some("@ + text@ + ")"@));
        },
    }
}

fn push_shown_text(out: &mut String, value: &Option<String>)
    ensures
        final(out)@ == old(out)@ + shown_text(text_view(*value)),
{
    match value {
        Some(s) => push_shown(out, Some(quote(s.as_str()))),
        None => push_shown(out, None),
    }
}

fn push_shown_count(out: &mut String, value: Option<usize>)
    ensures
        final(out)@ == old(out)@ + shown_count(value),
{
    match value {
        Some(n) => push_shown(out, Some(crate::text::decimal_string(n as u64))),
        None => push_shown(out, None),
    }
}

fn push_shown_flag(out: &mut String, value: Option<bool>)
    ensures
        final(out)@ == old(out)@ + shown_flag(value),
{
    match value {
        Some(true) => push_shown(out, Some("true".to_owned())),
        Some(false) => push_shown(out, Some("false".to_owned())),
        None => push_shown(out, None),
    }
}

fn push_shown_integer(out: &mut String, value: Option<i64>)
    ensures
        final(out)@ == old(out)@ + shown_integer(value),
{
    match value {
        Some(n) => {
            let mut text = String::new();
            push_signed_decimal(&mut text, n);
            assert(text@ =~= signed_decimal(n as int));
            push_shown(out, Some(text))
        },
        None => push_shown(out, None),
    }
}

fn start_line(kind: &str, direction: Direction, label: &str, count: u64) -> (r: String)
    ensures
        r@ == line_start(kind@, direction, label@, count),
{
    let mut out = "[ncdd parse][".to_owned();
    out.push_str(kind);
    out.push_str("][");
    out.push_str(direction.label());
    out.push_str("][");
    out.push_str(label);
    out.push_str("] frame=");
    push_decimal(&mut out, count);
    out
}

impl Finding {
    /// The line in the log for this finding.
    pub fn line(&self, direction: Direction, label: &str) -> (r: String)
        ensures
            r@ == finding_line(self@, direction, label@),
    {
        match self {
            Finding::InvalidLength { length } => {
                let mut out = "[ncdd parse][".to_owned();
                out.push_str(direction.label());
                out.push_str("][");
                out.push_str(label);
                out.push_str("] invalid adapter frame length ");
                push_decimal(&mut out, *length as u64);
                out.push_str("; parser buffer cleared");
                out
            },
            Finding::Camera { count, bytes, dimensions } => {
                let mut out = start_line("camera", direction, label, *count);
                out.push_str(" jpeg=");
                push_decimal(&mut out, *bytes as u64);
                out.push_str(" bytes size=");
                let ghost before = out@;
                match dimensions {
                    Some((width, height)) => {
                        push_decimal(&mut out, *width as u64);
                        out.push_str("x");
                        push_decimal(&mut out, *height as u64);
                        assert(out@ =~= before + shown_size(size_view(*dimensions)));
                    },
                    None => {
                        out.push_str("unknown-size");
                    },
                }
                out
            },
            Finding::Keyboard { count, bytes, fields } => {
                let mut out = start_line("keyboard", direction, label, *count);
                out.push_str(" payload=");
                push_decimal(&mut out, *bytes as u64);
                out.push_str(" bytes event=");
                push_shown_text(&mut out, &fields.event);
                out.push_str(" action=");
                push_shown_text(&mut out, &fields.action);
                out.push_str(" key_type=");
                push_shown_text(&mut out, &fields.key_type);
                out.push_str(" key=");
                push_shown_text(&mut out, &fields.key);
                out.push_str(" text_len=");
                push_shown_count(&mut out, fields.text_len);
                out
            },
            Finding::Instruction { count, bytes, fields } => {
                let mut out = start_line("instruction", direction, label, *count);
                out.push_str(" payload=");
                push_decimal(&mut out, *bytes as u64);
                out.push_str(" bytes id=");
                push_shown_text(&mut out, &fields.id);
                out.push_str(" shell=");
                push_shown_flag(&mut out, fields.shell);
                out.push_str(" command=");
                push_shown_text(&mut out, &fields.command);
                out.push_str(" argv_len=");
                push_shown_count(&mut out, fields.argv_len);
                out.push_str(" ok=");
                push_shown_flag(&mut out, fields.ok);
                out.push_str(" returncode=");
                push_shown_integer(&mut out, fields.returncode);
                out.push_str(" stdout=");
                push_decimal(&mut out, fields.stdout_len.unwrap_or(0) as u64);
                out.push_str(" stderr=");
                push_decimal(&mut out, fields.stderr_len.unwrap_or(0) as u64);
                out
            },
            Finding::NotJson { kind, count, bytes, error } => {
                let mut out = start_line(kind.label(), direction, label, *count);
                out.push_str(" payload=");
                push_decimal(&mut out, *bytes as u64);
                out.push_str(" bytes json-error=");
                out.push_str(error.as_str());
                out
            },
            Finding::File { count, bytes } => {
                let mut out = start_line("file", direction, label, *count);
                out.push_str(" payload=");
                push_decimal(&mut out, *bytes as u64);
                out.push_str(" bytes");
                out
            },
        }
    }
}

/// Watches the traffic of one device in both directions.
pub struct DeviceParser {
    label: String,
    kind: DeviceKind,
    remote_to_linux: Vec<u8>,
    linux_to_remote: Vec<u8>,
    remote_frame_count: u64,
    local_frame_count: u64,
}

/// The mathematical content of a [`DeviceParser`].
#[verifier::ext_equal]
pub struct ParserView {
    pub label: Seq<char>,
    pub kind: DeviceKind,
    /// Bytes of an incomplete adapter frame, and frames seen so far.
    pub remote_to_linux: (Seq<u8>, u64),
    pub linux_to_remote: (Seq<u8>, u64),
}

impl View for DeviceParser {
    type V = ParserView;

    closed spec fn view(&self) -> ParserView {
        ParserView {
            label: self.label@,
            kind: self.kind,
            remote_to_linux: (self.remote_to_linux@, self.remote_frame_count),
            linux_to_remote: (self.linux_to_remote@, self.local_frame_count),
        }
    }
}

/// How the log names a device.
pub open spec fn device_label(kind: DeviceKind, name: Seq<char>, minor: u8, port: u16) -> Seq<
    char,
> {
    "kind="@ + kind_label(kind) + " device="@ + name + " minor="@ + decimal(minor as nat)
        + " port="@ + decimal(port as nat)
}

/// A direction after more bytes, and what the log says of them.
pub open spec fn inspected(kind: DeviceKind, side: (Seq<u8>, u64), data: Seq<u8>) -> (
    (Seq<u8>, u64),
    Seq<FindingView>,
) {
    if kind == DeviceKind::Unknown || data.len() == 0 {
        (side, Seq::empty())
    } else {
        let s = adapter_split(side.0 + data);
        ((s.rest, (side.1 + s.payloads.len()) as u64), split_findings(kind, side.1, s))
    }
}

/// The frame counter of a direction can take in the frames in so many bytes.
pub open spec fn countable(side: (Seq<u8>, u64), data: Seq<u8>) -> bool {
    side.1 + side.0.len() + data.len() <= u64::MAX
}

impl DeviceParser {
    pub fn new(minor: u8, name: &str, remote_port: u16) -> (r: DeviceParser)
        ensures
            r@ == (ParserView {
                label: device_label(inferred_kind(name@, remote_port), name@, minor, remote_port),
                kind: inferred_kind(name@, remote_port),
                remote_to_linux: (Seq::empty(), 0),
                linux_to_remote: (Seq::empty(), 0),
            }),
    {
        let kind = infer_device_kind(name, remote_port);
        let mut label = "kind=".to_owned();
        label.push_str(kind.label());
        label.push_str(" device=");
        label.push_str(name);
        label.push_str(" minor=");
        push_decimal(&mut label, minor as u64);
        label.push_str(" port=");
        push_decimal(&mut label, remote_port as u64);
        DeviceParser {
            label,
            kind,
            remote_to_linux: Vec::new(),
            linux_to_remote: Vec::new(),
            remote_frame_count: 0,
            local_frame_count: 0,
        }
    }

    /// How the log names the device.
    pub fn label(&self) -> (r: &str)
        ensures
            r@ == self@.label,
    {
        self.label.as_str()
    }

    /// Whether the frame counters can take in the frames in `n` more bytes.
    pub fn can_count(&self, n: usize) -> (r: bool)
        ensures
            r ==> forall|data: Seq<u8>|
                data.len() == n ==> #[trigger] countable(self@.remote_to_linux, data) && countable(
                    self@.linux_to_remote,
                    data,
                ),
            self@.remote_to_linux.1 + self@.remote_to_linux.0.len() + n <= u64::MAX
                && self@.linux_to_remote.1 + self@.linux_to_remote.0.len() + n <= u64::MAX ==> r,
    {
        let remote: u128 = self.remote_frame_count as u128 + self.remote_to_linux.len() as u128
            + n as u128;
        let local: u128 = self.local_frame_count as u128 + self.linux_to_remote.len() as u128
            + n as u128;
        remote <= u64::MAX as u128 && local <= u64::MAX as u128
    }

    /// Looks at bytes on their way from the remote device.
    pub fn inspect_remote_to_linux(&mut self, data: &[u8]) -> (r: Vec<Finding>)
        requires
            countable(old(self)@.remote_to_linux, data@),
        ensures
            final(self)@ == (ParserView {
                remote_to_linux: inspected(
                    old(self)@.kind,
                    old(self)@.remote_to_linux,
                    data@,
                ).0,
                ..old(self)@
            }),
            finding_views(r@) == inspected(old(self)@.kind, old(self)@.remote_to_linux, data@).1,
    {
        if self.kind == DeviceKind::Unknown {
            let none: Vec<Finding> = Vec::new();
            assert(finding_views(none@) =~= Seq::<FindingView>::empty());
            return none;
        }
        let r = inspect_stream(
            self.kind,
            &mut self.remote_to_linux,
            &mut self.remote_frame_count,
            data,
        );
        assert(data@.len() == 0 ==> finding_views(r@) =~= Seq::<FindingView>::empty());
        r
    }

    /// Looks at bytes on their way to the remote device.
    pub fn inspect_linux_to_remote(&mut self, data: &[u8]) -> (r: Vec<Finding>)
        requires
            countable(old(self)@.linux_to_remote, data@),
        ensures
            final(self)@ == (ParserView {
                linux_to_remote: inspected(
                    old(self)@.kind,
                    old(self)@.linux_to_remote,
                    data@,
                ).0,
                ..old(self)@
            }),
            finding_views(r@) == inspected(old(self)@.kind, old(self)@.linux_to_remote, data@).1,
    {
        if self.kind == DeviceKind::Unknown {
            let none: Vec<Finding> = Vec::new();
            assert(finding_views(none@) =~= Seq::<FindingView>::empty());
            return none;
        }
        let r = inspect_stream(
            self.kind,
            &mut self.linux_to_remote,
            &mut self.local_frame_count,
            data,
        );
        assert(data@.len() == 0 ==> finding_views(r@) =~= Seq::<FindingView>::empty());
        r
    }
}

/// Splitting into adapter frames can stop after `a` and go on with what was
/// left over, as long as no impossible length shows up in `a`.
pub proof fn law_adapter_pieces_join(a: Seq<u8>, b: Seq<u8>)
    requires
        adapter_split(a).bad_length is None,
    ensures
        adapter_split(a + b) == (AdapterSplit {
            payloads: adapter_split(a).payloads + adapter_split(adapter_split(a).rest + b).payloads,
            rest: adapter_split(adapter_split(a).rest + b).rest,
            bad_length: adapter_split(adapter_split(a).rest + b).bad_length,
        }),
    decreases a.len(),
{
    let whole = a + b;
    if a.len() >= 4 && a.len() >= 4 + be32_at(a, 0) {
        let end = 4 + be32_at(a, 0) as int;
        assert(be32_at(whole, 0) == be32_at(a, 0));
        law_adapter_pieces_join(a.skip(end), b);
        assert(whole.skip(end) =~= a.skip(end) + b);
        assert(whole.subrange(4, end) =~= a.subrange(4, end));
        let mid = adapter_split(a.skip(end));
        let last = adapter_split(mid.rest + b);
        let first = seq![a.subrange(4, end)];
        assert(first + (mid.payloads + last.payloads) =~= (first + mid.payloads) + last.payloads);
    } else {
        assert(Seq::<Seq<u8>>::empty() + adapter_split(whole).payloads =~= adapter_split(
            whole,
        ).payloads);
    }
}

/// The log says the same of a stream however it is cut into two pieces: the
/// second piece goes on with the counter and the bytes that the first one left.
pub proof fn law_inspection_ignores_cutting(
    kind: DeviceKind,
    side: (Seq<u8>, u64),
    a: Seq<u8>,
    b: Seq<u8>,
)
    requires
        a.len() > 0,
        b.len() > 0,
        countable(side, a + b),
        adapter_split(side.0 + a).bad_length is None,
    ensures
        ({
            let first = inspected(kind, side, a);
            let second = inspected(kind, first.0, b);
            let both = inspected(kind, side, a + b);
            both.0 == second.0 && both.1 == first.1 + second.1
        }),
{
    if kind == DeviceKind::Unknown {
        assert(Seq::<FindingView>::empty() + Seq::<FindingView>::empty() =~= Seq::<
            FindingView,
        >::empty());
    } else {
        let s = adapter_split(side.0 + a);
        let t = adapter_split(s.rest + b);
        law_adapter_pieces_join(side.0 + a, b);
        assert((side.0 + a) + b =~= side.0 + (a + b));
        lemma_payloads_bounded(side.0 + a);
        lemma_payloads_bounded((side.0 + a) + b);
        lemma_findings_join(kind, side.1, s.payloads, t.payloads);
        let count = (side.1 + s.payloads.len()) as u64;
        let found = payload_findings(kind, side.1, s.payloads);
        let more = payload_findings(kind, count, t.payloads);
        if let Some(length) = t.bad_length {
            let bad = FindingView::InvalidLength { length };
            assert(found + more.push(bad) =~= (found + more).push(bad));
        }
    }
}

/// There are no more adapter frames in some bytes than bytes.
proof fn lemma_payloads_bounded(bytes: Seq<u8>)
    ensures
        adapter_split(bytes).payloads.len() <= bytes.len(),
    decreases bytes.len(),
{
    if bytes.len() >= 4 && be32_at(bytes, 0) <= MAX_ADAPTER_FRAME_SIZE && bytes.len() >= 4
        + be32_at(bytes, 0) {
        lemma_payloads_bounded(bytes.skip(4 + be32_at(bytes, 0) as int));
    }
}

proof fn lemma_findings_join(kind: DeviceKind, count: u64, a: Seq<Seq<u8>>, b: Seq<Seq<u8>>)
    requires
        count + a.len() + b.len() <= u64::MAX,
    ensures
        payload_findings(kind, count, a + b) == payload_findings(kind, count, a)
            + payload_findings(kind, (count + a.len()) as u64, b),
    decreases b.len(),
{
    if b.len() == 0 {
        assert(a + b =~= a);
        assert(payload_findings(kind, count, a) + Seq::<FindingView>::empty()
            =~= payload_findings(kind, count, a));
    } else {
        lemma_findings_join(kind, count, a, b.drop_last());
        assert((a + b).drop_last() =~= a + b.drop_last());
        assert((a + b).last() == b.last());
        let left = payload_findings(kind, count, a);
        let right = payload_findings(kind, (count + a.len()) as u64, b.drop_last());
        match payload_finding(kind, (count + a.len() + b.len()) as u64, b.last()) {
            Some(f) => {
                assert((left + right).push(f) =~= left + right.push(f));
            },
            None => {},
        }
    }
}

/// An adapter frame is found behind its length: its payload is the first one,
/// and what follows is split on its own.
pub proof fn law_adapter_frames(payload: Seq<u8>, rest: Seq<u8>)
    requires
        payload.len() <= 16777216,
    ensures
        adapter_split(be32(payload.len() as u32) + payload + rest) == (AdapterSplit {
            payloads: seq![payload] + adapter_split(rest).payloads,
            rest: adapter_split(rest).rest,
            bad_length: adapter_split(rest).bad_length,
        }),
{
    let head = be32(payload.len() as u32);
    let whole = head + payload + rest;
    law_big_endian(0, payload.len() as u32, whole, 0);
    assert(whole[0] == head[0] && whole[1] == head[1] && whole[2] == head[2] && whole[3]
        == head[3]);
    let end = 4 + payload.len() as int;
    assert(be32_at(whole, 0) == payload.len());
    assert(whole.subrange(4, end) =~= payload);
    assert(whole.skip(end) =~= rest);
}

/// A frame that is not complete waits, and a length beyond 16 MiB takes all the
/// bytes with it and is told.
pub proof fn law_incomplete_and_impossible(bytes: Seq<u8>)
    ensures
        ({
            let length = bytes[0] * 16777216 + bytes[1] * 65536 + bytes[2] * 256 + bytes[3];
            let s = adapter_split(bytes);
            &&& bytes.len() < 4 || length <= 16777216 && bytes.len() < 4 + length
                ==> s.payloads.len() == 0 && s.rest == bytes && s.bad_length is None
            &&& bytes.len() >= 4 && length > 16777216 ==> s.payloads.len() == 0 && s.rest.len() == 0
                && s.bad_length == Some(length as nat)
        }),
{
    law_big_endian(0, 0, bytes, 0);
}

/// Frames are counted one after another, and each is looked at with its own
/// number. An impossible length is told last.
pub proof fn law_frames_are_counted(
    kind: DeviceKind,
    side: (Seq<u8>, u64),
    data: Seq<u8>,
    payloads: Seq<Seq<u8>>,
    payload: Seq<u8>,
)
    requires
        data.len() > 0,
        countable(side, data),
        side.1 + payloads.len() + 1 <= u64::MAX,
    ensures
        payload_findings(kind, side.1, Seq::empty()).len() == 0,
        ({
            let before = payload_findings(kind, side.1, payloads);
            let after = payload_findings(kind, side.1, payloads.push(payload));
            match payload_finding(kind, (side.1 + payloads.len() + 1) as u64, payload) {
                Some(f) => after == before.push(f),
                None => after == before,
            }
        }),
        kind == DeviceKind::Unknown ==> inspected(kind, side, data) == (
            side,
            Seq::<FindingView>::empty(),
        ),
        inspected(kind, side, Seq::empty()) == (side, Seq::<FindingView>::empty()),
        kind != DeviceKind::Unknown ==> {
            let s = adapter_split(side.0 + data);
            let (after, found) = inspected(kind, side, data);
            let whole = payload_findings(kind, side.1, s.payloads);
            &&& after.0 == s.rest && after.1 == side.1 + s.payloads.len()
            &&& s.bad_length is None ==> found == whole
            &&& s.bad_length matches Some(length) ==> found == whole.push(
                FindingView::InvalidLength { length },
            )
        },
{
    assert(payloads.push(payload).drop_last() =~= payloads);
    lemma_payloads_bounded(side.0 + data);
}

/// What is told of a payload, by the kind of the device: of a picture its size,
/// of a message its members, or why it is none, and of a file its length. Of
/// an unknown device nothing is told.
pub proof fn law_what_is_told(kind: DeviceKind, count: u64, payload: Seq<u8>)
    ensures
        payload_finding(DeviceKind::Unknown, count, payload) is None,
        payload_finding(DeviceKind::Camera, count, payload) == Some(
            FindingView::Camera {
                count,
                bytes: payload.len(),
                dimensions: picture_size(payload),
            },
        ),
        payload_finding(DeviceKind::File, count, payload) == Some(
            FindingView::File { count, bytes: payload.len() },
        ),
        kind == DeviceKind::Keyboard || kind == DeviceKind::Instruction ==> match json_document(
            payload,
        ) {
            Err(error) => payload_finding(kind, count, payload) == Some(
                FindingView::NotJson { kind, count, bytes: payload.len(), error },
            ),
            Ok(m) => match payload_finding(kind, count, payload) {
                Some(FindingView::Keyboard { count: c, bytes, fields }) => kind
                    == DeviceKind::Keyboard && c == count && bytes == payload.len() && fields
                    == keyboard_view(m),
                Some(FindingView::Instruction { count: c, bytes, fields }) => kind
                    == DeviceKind::Instruction && c == count && bytes == payload.len() && fields
                    == instruction_view(m),
                _ => false,
            },
        },
{
}

/// What is told of a message is what its members of these names hold: texts,
/// truth values and numbers as they are, the lengths of typed text in
/// characters, of output in bytes, and of lists in items. A member that is
/// missing or holds something else is told as missing.
pub proof fn law_members_are_told(m: Map<Seq<char>, JsonFieldView>)
    ensures
        ({
            let k = keyboard_view(m);
            let i = instruction_view(m);
            let text = |key: Seq<char>|
                if m.contains_key(key) {
                    as_text(m[key])
                } else {
                    None
                };
            &&& k.event == text("event"@) && k.action == text("action"@)
            &&& k.key_type == text("key_type"@) && k.key == text("key"@)
            &&& i.id == text("id"@) && i.command == text("command"@)
            &&& k.text_len == match text("text"@) {
                Some(t) => Some(t.len() as usize),
                None => None,
            }
            &&& i.stdout_len == match text("stdout"@) {
                Some(t) => Some(encode_utf8(t).len() as usize),
                None => None,
            }
            &&& i.stderr_len == match text("stderr"@) {
                Some(t) => Some(encode_utf8(t).len() as usize),
                None => None,
            }
            &&& i.shell == if m.contains_key("shell"@) {
                as_flag(m["shell"@])
            } else {
                None
            }
            &&& i.ok == if m.contains_key("ok"@) {
                as_flag(m["ok"@])
            } else {
                None
            }
            &&& i.returncode == if m.contains_key("returncode"@) {
                as_integer(m["returncode"@])
            } else {
                None
            }
            &&& i.argv_len == if m.contains_key("argv"@) {
                as_list_len(m["argv"@])
            } else {
                None
            }
        }),
{
}

/// The kind of a device is the first whose word is in its name, in letters of
/// any size, or whose usual port it has.
pub proof fn law_kinds(before: Seq<char>, after: Seq<char>, name: Seq<char>, port: u16)
    ensures
        ({
            let has = |word: Seq<char>| occurs_in(word, lower(name));
            let kind = inferred_kind(name, port);
            &&& kind == DeviceKind::Camera <==> has("camera"@) || port == 9000
            &&& kind == DeviceKind::Keyboard <==> !(has("camera"@) || port == 9000) && (has(
                "keyboard"@,
            ) || port == 10000)
            &&& kind == DeviceKind::Instruction <==> !(has("camera"@) || port == 9000) && !(has(
                "keyboard"@,
            ) || port == 10000) && (has("instruction"@) || port == 11000)
            &&& kind == DeviceKind::File <==> !(has("camera"@) || port == 9000) && !(has(
                "keyboard"@,
            ) || port == 10000) && !(has("instruction"@) || port == 11000) && (has("file"@) || port
                == 8000)
        }),
        lower(name) == before + "camera"@ + after ==> inferred_kind(name, port)
            == DeviceKind::Camera,
{
    law_occurrences(before, "camera"@, after, Seq::empty());
}

/// Which markers start a frame header: those from C0 to CF without the three
/// for tables and extensions.
pub proof fn law_frame_markers(marker: u8)
    ensures
        starts_frame(marker) <==> marker / 16 == 12 && marker != 196 && marker != 200 && marker
            != 204,
{
}

/// A picture starts with its mark, and its size is in the first frame header:
/// the height in the fourth and fifth byte of the segment, the width in the two
/// behind. Segments before it are passed over by their length, and a header
/// that is too short or not complete gives no size.
pub proof fn law_picture_sizes(data: Seq<u8>, i: int)
    requires
        0 <= i,
        i + 3 < data.len(),
        data[i] == 0xFF,
        data[i + 1] != 0xFF,
    ensures
        picture_size(data) is Some ==> data[0] == 0xFF && data[1] == 0xD8,
        data[0] == 0xFF && data[1] == 0xD8 ==> picture_size(data) == scanned(data, 2),
        ({
            let marker = data[i + 1];
            let length = data[i + 2] * 256 + data[i + 3];
            let bare = marker == 1 || 0xD0 <= marker <= 0xD7;
            let stop = marker == 0xD9 || marker == 0xDA;
            let fits = 2 <= length && i + 2 + length <= data.len();
            &&& stop ==> scanned(data, i) is None
            &&& bare ==> scanned(data, i) == scanned(data, i + 2)
            &&& !stop && !bare && !fits ==> scanned(data, i) is None
            &&& !stop && !bare && fits && !starts_frame(marker) ==> scanned(data, i) == scanned(
                data,
                i + 2 + length,
            )
            &&& fits && starts_frame(marker) && length < 7 ==> scanned(data, i) is None
            &&& fits && starts_frame(marker) && length >= 7 ==> scanned(data, i) == Some(
                (
                    (data[i + 7] * 256 + data[i + 8]) as nat,
                    (data[i + 5] * 256 + data[i + 6]) as nat,
                ),
            )
        }),
{
    assert(fill_end(data, i + 1) == i + 1);
    assert(fill_end(data, i) == i + 1);
    law_big_endian(0, 0, data, i + 2);
    law_big_endian(0, 0, data, i + 5);
    law_big_endian(0, 0, data, i + 7);
}

/// Bytes between segments are passed over, and so are fill bytes; the end of
/// the data ends the search.
pub proof fn law_search_goes_on(data: Seq<u8>, i: int)
    requires
        0 <= i,
    ensures
        i + 3 >= data.len() ==> scanned(data, i) is None,
        i + 3 < data.len() && data[i] != 0xFF ==> scanned(data, i) == scanned(data, i + 1),
        i + 4 < data.len() && data[i] == 0xFF && data[i + 1] == 0xFF ==> scanned(data, i)
            == scanned(data, i + 1),
{
    if i + 4 < data.len() && data[i] == 0xFF && data[i + 1] == 0xFF {
        assert(fill_end(data, i) == fill_end(data, i + 1));
    }
}

/// A line in the log starts with the kind, the direction, the device and the
/// number of the frame, and then says how long the payload was. The size of a
/// picture is its width and its height.
pub proof fn law_lines_in_the_log(
    direction: Direction,
    label: Seq<char>,
    count: u64,
    bytes: nat,
    w: nat,
    h: nat,
    error: Seq<char>,
    kind: DeviceKind,
)
    ensures
        ({
            let start = |kind: Seq<char>|
                "[ncdd parse]["@ + kind + "]["@ + (if direction == Direction::RemoteToLinux {
                    "remote->linux"@
                } else {
                    "linux->remote"@
                }) + "]["@ + label + "] frame="@ + decimal(count as nat);
            &&& finding_line(
                FindingView::Camera { count, bytes, dimensions: Some((w, h)) },
                direction,
                label,
            ) == start("camera"@) + " jpeg="@ + decimal(bytes) + " bytes size="@ + (decimal(w)
                + "x"@ + decimal(h))
            &&& finding_line(
                FindingView::Camera { count, bytes, dimensions: None },
                direction,
                label,
            ) == start("camera"@) + " jpeg="@ + decimal(bytes) + " bytes size="@ + "unknown-size"@
            &&& finding_line(FindingView::File { count, bytes }, direction, label) == start(
                "file"@,
            ) + " payload="@ + decimal(bytes) + " bytes"@
            &&& finding_line(
                FindingView::NotJson { kind: DeviceKind::Keyboard, count, bytes, error },
                direction,
                label,
            ) == start("keyboard"@) + " payload="@ + decimal(bytes) + " bytes json-error="@ + error
            &&& finding_line(
                FindingView::NotJson { kind: DeviceKind::Instruction, count, bytes, error },
                direction,
                label,
            ) == start("instruction"@) + " payload="@ + decimal(bytes) + " bytes json-error="@
                + error
        }),
{
}

/// What may be missing is told as `None`, and else in brackets behind `Some`.
pub proof fn law_missing_values(s: Seq<char>, n: usize, i: i64)
    ensures
        shown_text(None) == "None"@,
        shown_count(None) == "None"@,
        shown_flag(None) == "None"@,
        shown_integer(None) == "None"@,
        shown_text(Some(s)) == "Some("@ + quoted(s) + ")"@,
        shown_count(Some(n)) == "Some("@ + decimal(n as nat) + ")"@,
        shown_flag(Some(true)) == "Some("@ + "true"@ + ")"@,
        shown_flag(Some(false)) == "Some("@ + "false"@ + ")"@,
        shown_integer(Some(i)) == "Some("@ + signed_decimal(i as int) + ")"@,
        or_zero(None) == 0,
        or_zero(Some(n)) == n,
{
}

/// A device is named in the log by its kind, its name, its number and its
/// port.
pub proof fn law_labels(kind: DeviceKind, name: Seq<char>, minor: u8, port: u16)
    ensures
        device_label(kind, name, minor, port) == "kind="@ + kind_label(kind) + " device="@ + name
            + " minor="@ + decimal(minor as nat) + " port="@ + decimal(port as nat),
        kind_label(DeviceKind::Camera) == "camera"@,
        kind_label(DeviceKind::Keyboard) == "keyboard"@,
        kind_label(DeviceKind::Instruction) == "instruction"@,
        kind_label(DeviceKind::File) == "file"@,
        kind_label(DeviceKind::Unknown) == "unknown"@,
{
}

} // verus!
