//! A session: data between a peer and a device, both ways.
use crate::host::error::{device_error_message, DeviceError, DeviceErrorView};
use crate::text::{decimal, hex_byte, push_decimal, push_hex_byte};
use crate::wire::copy_range;
use vstd::prelude::*;
use vstd::utf8::{
    decode_utf8, encode_utf8, encode_utf8_decode_utf8, encode_utf8_valid_utf8, valid_utf8,
};

verus! {

/// The longest data that the log shows as text, in bytes.
pub const LOG_TEXT_LIMIT: usize = 200;

/// Bytes that the log shows of other data.
pub const LOG_PREVIEW: usize = 32;

/// Whether a byte is a visible ASCII character or plain white space.
pub open spec fn is_plain(b: u8) -> bool {
    0x21 <= b <= 0x7E || b == 0x0A || b == 0x0D || b == 0x09 || b == 0x20
}

/// What the log shows of a byte of text.
pub open spec fn shown_char(b: u8) -> Seq<char> {
    if b == 0x0A {
        "\\n"@
    } else if b == 0x0D {
        "\\r"@
    } else if b == 0x09 {
        "\\t"@
    } else {
        seq![b as char]
    }
}

/// What the log shows of text.
pub open spec fn shown_text(data: Seq<u8>) -> Seq<char>
    decreases data.len(),
{
    if data.len() == 0 {
        Seq::empty()
    } else {
        shown_text(data.drop_last()) + shown_char(data.last())
    }
}

/// Bytes in hexadecimal, with spaces between them.
pub open spec fn spaced_hex(data: Seq<u8>) -> Seq<char>
    decreases data.len(),
{
    if data.len() == 0 {
        Seq::empty()
    } else if data.len() == 1 {
        hex_byte(data[0])
    } else {
        spaced_hex(data.drop_last()) + " "@ + hex_byte(data.last())
    }
}

/// Whether the log shows data as text.
pub open spec fn shows_as_text(data: Seq<u8>) -> bool {
    data.len() <= LOG_TEXT_LIMIT && forall|i: int|
        0 <= i < data.len() ==> is_plain(#[trigger] data[i])
}

/// The line in the log for data in a direction. There is none for no data.
pub open spec fn log_line(dir: Seq<char>, data: Seq<u8>) -> Option<Seq<char>> {
    if data.len() == 0 {
        None
    } else if shows_as_text(data) {
        Some("  "@ + dir + "  "@ + shown_text(data))
    } else if data.len() > LOG_PREVIEW {
        Some(
            "  "@ + dir + "  "@ + decimal(data.len()) + " B  "@ + spaced_hex(
                data.take(LOG_PREVIEW as int),
            ) + " …"@,
        )
    } else {
        Some("  "@ + dir + "  "@ + decimal(data.len()) + " B  "@ + spaced_hex(data))
    }
}

fn all_plain(data: &[u8]) -> (r: bool)
    ensures
        r == (forall|i: int| 0 <= i < data@.len() ==> is_plain(#[trigger] data@[i])),
{
    let mut i: usize = 0;
    while i < data.len()
        invariant
            i <= data.len(),
            forall|k: int| 0 <= k < i ==> is_plain(#[trigger] data@[k]),
        decreases data.len() - i,
    {
        let b: u8 = data[i];
        if !((b >= 0x21 && b <= 0x7E) || b == 0x0A || b == 0x0D || b == 0x09 || b == 0x20) {
            assert(!is_plain(data@[i as int]));
            return false;
        }
        i = i + 1;
    }
    true
}

fn push_shown_text(out: &mut String, data: &[u8])
    requires
        forall|i: int| 0 <= i < data@.len() ==> is_plain(#[trigger] data@[i]),
    ensures
        final(out)@ == old(out)@ + shown_text(data@),
{
    let ghost before = out@;
    let mut i: usize = 0;
    assert(before + shown_text(data@.take(0)) =~= before);
    while i < data.len()
        invariant
            i <= data.len(),
            forall|k: int| 0 <= k < data@.len() ==> is_plain(#[trigger] data@[k]),
            out@ == before + shown_text(data@.take(i as int)),
        decreases data.len() - i,
    {
        let ghost so_far = out@;
        let b: u8 = data[i];
        if b == 0x0A {
            out.push_str("\\n");
        } else if b == 0x0D {
            out.push_str("\\r");
        } else if b == 0x09 {
            out.push_str("\\t");
        } else {
            out.push(b as char);
        }
        proof {
            assert(out@ =~= so_far + shown_char(b));
            assert(data@.take(i as int + 1).drop_last() =~= data@.take(i as int));
            let front = shown_text(data@.take(i as int));
            assert((before + front) + shown_char(b) =~= before + (front + shown_char(b)));
        }
        i = i + 1;
    }
    assert(data@.take(i as int) =~= data@);
}

fn push_spaced_hex(out: &mut String, data: &[u8])
    ensures
        final(out)@ == old(out)@ + spaced_hex(data@),
{
    let ghost before = out@;
    let mut i: usize = 0;
    assert(before + spaced_hex(data@.take(0)) =~= before);
    while i < data.len()
        invariant
            i <= data.len(),
            out@ == before + spaced_hex(data@.take(i as int)),
        decreases data.len() - i,
    {
        let ghost front = spaced_hex(data@.take(i as int));
        let b: u8 = data[i];
        if i > 0 {
            out.push_str(" ");
        }
        push_hex_byte(out, b);
        proof {
            assert(data@.take(i as int + 1).drop_last() =~= data@.take(i as int));
            if i > 0 {
                assert(out@ =~= before + (front + " "@ + hex_byte(b)));
            } else {
                assert(out@ =~= before + hex_byte(b));
            }
        }
        i = i + 1;
    }
    assert(data@.take(i as int) =~= data@);
}

/// The line in the log for data in a direction.
pub fn log_data(dir: &str, data: &[u8]) -> (r: Option<String>)
    ensures
        match r {
            Some(line) => log_line(dir@, data@) == Some(line@),
            None => log_line(dir@, data@) is None,
        },
{
    if data.len() == 0 {
        return None;
    }
    let mut out = "  ".to_owned();
    out.push_str(dir);
    out.push_str("  ");
    if data.len() <= LOG_TEXT_LIMIT && all_plain(data) {
        push_shown_text(&mut out, data);
    } else {
        push_decimal(&mut out, data.len() as u64);
        out.push_str(" B  ");
        if data.len() > LOG_PREVIEW {
            let preview = copy_range(data, 0, LOG_PREVIEW);
            assert(preview@ =~= data@.take(LOG_PREVIEW as int));
            push_spaced_hex(&mut out, preview.as_slice());
            out.push_str(" …");
        } else {
            push_spaced_hex(&mut out, data);
        }
    }
    Some(out)
}

/// What the peer is told of a failure of the device.
pub open spec fn error_reply(e: DeviceErrorView) -> Seq<u8> {
    encode_utf8("Error: "@ + device_error_message(e) + "\n"@)
}

/// What the peer is told of a failure of the device.
pub fn error_message(e: &DeviceError) -> (r: Vec<u8>)
    ensures
        r@ == error_reply(e@),
{
    let mut out = "Error: ".to_owned();
    let text = e.message();
    out.push_str(text.as_str());
    out.push_str("\n");
    out.as_str().as_bytes_vec()
}

/// What a session does next.
#[derive(Debug)]
pub enum SessionStep {
    /// Nothing.
    Nothing,
    /// Write the data of the peer to the device.
    WriteDevice,
    /// Send bytes to the peer, and then look for more. The session ends if they
    /// cannot be sent.
    SendAndReadOn(Vec<u8>),
    /// Tell the peer of a failure, if it still listens.
    Tell(Vec<u8>),
}

/// The mathematical content of a [`SessionStep`].
pub enum SessionStepView {
    Nothing,
    WriteDevice,
    SendAndReadOn(Seq<u8>),
    Tell(Seq<u8>),
}

impl View for SessionStep {
    type V = SessionStepView;

    open spec fn view(&self) -> SessionStepView {
        match self {
            SessionStep::Nothing => SessionStepView::Nothing,
            SessionStep::WriteDevice => SessionStepView::WriteDevice,
            SessionStep::SendAndReadOn(b) => SessionStepView::SendAndReadOn(b@),
            SessionStep::Tell(b) => SessionStepView::Tell(b@),
        }
    }
}

/// Data came from the peer.
pub fn on_peer_data(data: &[u8]) -> (r: SessionStep)
    ensures
        r@ == if data@.len() > 0 {
            SessionStepView::WriteDevice
        } else {
            SessionStepView::Nothing
        },
{
    if data.len() > 0 {
        SessionStep::WriteDevice
    } else {
        SessionStep::Nothing
    }
}

/// The device took the data, or failed to.
pub fn on_device_written(written: &Result<usize, DeviceError>) -> (r: SessionStep)
    ensures
        r@ == match written {
            Ok(_) => SessionStepView::Nothing,
            Err(e) => SessionStepView::Tell(error_reply(e@)),
        },
{
    match written {
        Ok(_) => SessionStep::Nothing,
        Err(e) => SessionStep::Tell(error_message(e)),
    }
}

/// The device was read into a buffer, or failed to be.
pub fn on_device_read(buf: &[u8], read: &Result<usize, DeviceError>) -> (r: SessionStep)
    requires
        read matches Ok(n) ==> n <= buf@.len(),
    ensures
        r@ == match read {
            Ok(n) => if *n > 0 {
                SessionStepView::SendAndReadOn(buf@.take(*n as int))
            } else {
                SessionStepView::Nothing
            },
            Err(e) => SessionStepView::Tell(error_reply(e@)),
        },
{
    match read {
        Ok(n) => {
            if *n > 0 {
                let chunk = copy_range(buf, 0, *n);
                assert(chunk@ =~= buf@.take(*n as int));
                SessionStep::SendAndReadOn(chunk)
            } else {
                SessionStep::Nothing
            }
        },
        Err(e) => SessionStep::Tell(error_message(e)),
    }
}

/// Which data the log shows as text: at most 200 bytes, all of them visible
/// characters of ASCII, blanks, tabulators or line ends.
pub proof fn law_what_is_text(data: Seq<u8>)
    ensures
        shows_as_text(data) <==> data.len() <= 200 && forall|i: int|
            0 <= i < data.len() ==> 0x20 <= #[trigger] data[i] <= 0x7E || data[i] == 9 || data[i]
                == 10 || data[i] == 13,
{
    if forall|i: int|
        0 <= i < data.len() ==> 0x20 <= #[trigger] data[i] <= 0x7E || data[i] == 9 || data[i] == 10
            || data[i] == 13 {
        assert(forall|i: int| 0 <= i < data.len() ==> is_plain(#[trigger] data[i]));
    }
    if forall|i: int| 0 <= i < data.len() ==> is_plain(#[trigger] data[i]) {
        assert forall|i: int| 0 <= i < data.len() implies 0x20 <= #[trigger] data[i] <= 0x7E
            || data[i] == 9 || data[i] == 10 || data[i] == 13 by {
            assert(is_plain(data[i]));
        }
    }
}

/// Text is shown byte by byte: line ends and tabulators as they are written in
/// programs, every other byte as its character.
pub proof fn law_text_is_shown(data: Seq<u8>, b: u8)
    ensures
        shown_text(Seq::empty()).len() == 0,
        shown_text(data.push(b)) == shown_text(data) + (if b == 10 {
            seq!['\\', 'n']
        } else if b == 13 {
            seq!['\\', 'r']
        } else if b == 9 {
            seq!['\\', 't']
        } else {
            seq![b as char]
        }),
{
    reveal_strlit("\\n");
    reveal_strlit("\\r");
    reveal_strlit("\\t");
    assert("\\n"@ =~= seq!['\\', 'n']);
    assert("\\r"@ =~= seq!['\\', 'r']);
    assert("\\t"@ =~= seq!['\\', 't']);
    assert(data.push(b).drop_last() =~= data);
}

/// Other bytes are shown by their two digits, with one blank between two of
/// them.
pub proof fn law_bytes_are_shown(data: Seq<u8>, b: u8)
    ensures
        spaced_hex(Seq::empty()).len() == 0,
        spaced_hex(seq![b]) == hex_byte(b),
        data.len() > 0 ==> spaced_hex(data.push(b)) == spaced_hex(data) + seq![' '] + hex_byte(b),
{
    reveal_strlit(" ");
    assert(" "@ =~= seq![' ']);
    assert(data.push(b).drop_last() =~= data);
}

/// What the log shows of data: nothing of no data, text as text, and of other
/// data its length and the first 32 bytes.
pub proof fn law_log_lines(dir: Seq<char>, data: Seq<u8>)
    ensures
        data.len() == 0 <==> log_line(dir, data) is None,
        data.len() > 0 && shows_as_text(data) ==> log_line(dir, data) == Some(
            "  "@ + dir + "  "@ + shown_text(data),
        ),
        0 < data.len() <= 32 && !shows_as_text(data) ==> log_line(dir, data) == Some(
            "  "@ + dir + "  "@ + decimal(data.len()) + " B  "@ + spaced_hex(data),
        ),
        data.len() > 32 && !shows_as_text(data) ==> log_line(dir, data) == Some(
            "  "@ + dir + "  "@ + decimal(data.len()) + " B  "@ + spaced_hex(data.take(32))
                + " …"@,
        ),
{
}

/// A peer is told of a failure in one line of text that it can read: `Error: `
/// and what failed.
pub proof fn law_peers_are_told(e: DeviceErrorView)
    ensures
        valid_utf8(error_reply(e)),
        decode_utf8(error_reply(e)) == seq!['E', 'r', 'r', 'o', 'r', ':', ' ']
            + device_error_message(e) + seq!['\n'],
{
    reveal_strlit("Error: ");
    reveal_strlit("\n");
    let text = "Error: "@ + device_error_message(e) + "\n"@;
    encode_utf8_valid_utf8(text);
    encode_utf8_decode_utf8(text);
    assert(text =~= seq!['E', 'r', 'r', 'o', 'r', ':', ' '] + device_error_message(e) + seq!['\n']);
}

} // verus!
