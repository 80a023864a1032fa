//! The camera driver.
//!
//! A camera at a path of the form `file://...` is a file with one frame: the
//! first read gives that frame, later ones give nothing. At any other path a
//! real camera is captured, and every read gives bytes of the latest frame.
use crate::host::device::{DeviceState, NcdDevice};
use crate::host::drivers::buffer::{
    backing_file, drain_into, file_of, fill, filled, lesser,
};
use crate::host::error::{DeviceError, DeviceErrorView};
use crate::host::ui::state::law_decimal_reads_back;
use crate::scan::{
    after_prefix, has_prefix, law_numbers, law_prefixes, number_of, parse_number, strip_prefix,
};
use crate::text::{chars_of, decimal};
use vstd::prelude::*;

verus! {

/// Where frames come from.
#[derive(Debug)]
pub enum CameraSource {
    /// One frame from this file.
    File(String),
    /// The camera with this number.
    Camera(u32),
}

/// The number that a text stands for, or zero.
pub open spec fn index_or_zero(text: Seq<char>) -> u32 {
    match number_of(text, u32::MAX as nat) {
        Some(n) => n as u32,
        None => 0,
    }
}

/// The number of the camera at a path: `camera://N` and `/dev/videoN` are
/// camera N, any other path is the first camera.
pub open spec fn camera_index(path: Seq<char>) -> u32 {
    match after_prefix(path, "camera://"@) {
        Some(rest) => index_or_zero(rest),
        None => match after_prefix(path, "/dev/video"@) {
            Some(rest) => index_or_zero(rest),
            None => 0,
        },
    }
}

fn parse_index(text: &[char]) -> (r: u32)
    ensures
        r == index_or_zero(text@),
{
    match parse_number(text, u32::MAX as u64) {
        Some(n) => n as u32,
        None => 0,
    }
}

/// The number of the camera at a path.
pub fn parse_camera_index(path: &str) -> (r: u32)
    ensures
        r == camera_index(path@),
{
    let chars = chars_of(path);
    let scheme = chars_of("camera://");
    if let Some(rest) = strip_prefix(chars.as_slice(), scheme.as_slice()) {
        return parse_index(rest);
    }
    let node = chars_of("/dev/video");
    if let Some(rest) = strip_prefix(chars.as_slice(), node.as_slice()) {
        return parse_index(rest);
    }
    0
}

/// The mathematical content of a [`CameraDriver`].
#[verifier::ext_equal]
pub struct CameraView {
    pub state: DeviceState,
    pub path: Seq<char>,
    /// The frame from a file, not read yet.
    pub frame: Option<Seq<u8>>,
    /// What is left of the latest captured frame.
    pub live: Option<Seq<u8>>,
}

/// A camera.
#[derive(Debug)]
pub struct CameraDriver {
    device: NcdDevice,
    frame_buf: Option<Vec<u8>>,
    shared_frame: Option<Vec<u8>>,
}

/// The content of bytes that may be missing.
pub open spec fn bytes_view(b: Option<Vec<u8>>) -> Option<Seq<u8>> {
    match b {
        Some(b) => Some(b@),
        None => None,
    }
}

impl View for CameraDriver {
    type V = CameraView;

    closed spec fn view(&self) -> CameraView {
        CameraView {
            state: self.device.device_state,
            path: self.device.device_path@,
            frame: bytes_view(self.frame_buf),
            live: bytes_view(self.shared_frame),
        }
    }
}

/// Whether a source is the one of a path.
pub open spec fn is_source(source: CameraSource, path: Seq<char>) -> bool {
    match file_of(path) {
        Some(file) => source matches CameraSource::File(f) && f@ == file,
        None => source == CameraSource::Camera(camera_index(path)),
    }
}

/// What a read does to a camera and to the reader's buffer, and the number of
/// bytes it gives. A captured frame is handed out piece by piece, one from a
/// file only once.
pub open spec fn camera_read(v: CameraView, buf: Seq<u8>) -> (CameraView, Seq<u8>, nat) {
    match v.live {
        Some(live) => {
            let n = lesser(live.len(), buf.len());
            (
                CameraView {
                    live: if n == live.len() {
                        None
                    } else {
                        Some(live.skip(n as int))
                    },
                    ..v
                },
                filled(buf, live),
                n,
            )
        },
        None => match v.frame {
            Some(frame) => (
                CameraView { frame: None, ..v },
                filled(buf, frame),
                lesser(frame.len(), buf.len()),
            ),
            None => (v, buf, 0),
        },
    }
}

impl CameraDriver {
    /// An open camera without a frame.
    pub fn new(device_path: &str) -> (r: CameraDriver)
        ensures
            r@ == (CameraView {
                state: DeviceState::Open,
                path: device_path@,
                frame: None,
                live: None,
            }),
    {
        CameraDriver {
            device: NcdDevice::new(device_path.to_owned()),
            frame_buf: None,
            shared_frame: None,
        }
    }

    /// Where the frames come from.
    pub fn source(&self) -> (r: CameraSource)
        ensures
            is_source(r, self@.path),
    {
        match backing_file(self.device.device_path.as_str()) {
            Some(file) => CameraSource::File(file),
            None => CameraSource::Camera(parse_camera_index(self.device.device_path.as_str())),
        }
    }

    pub fn device_path(&self) -> (r: &str)
        ensures
            r@ == self@.path,
    {
        self.device.device_path.as_str()
    }

    pub fn state(&self) -> (r: DeviceState)
        ensures
            r == self@.state,
    {
        self.device.device_state
    }

    /// Frames are large.
    pub fn read_buffer_size(&self) -> (r: usize)
        ensures
            r == 4 * 1024 * 1024,
    {
        4 * 1024 * 1024
    }

    /// How a person names the driver.
    pub fn display(&self) -> (r: String)
        ensures
            r@ == "CameraDriver("@ + self@.path + ")"@,
    {
        let mut out = "CameraDriver(".to_owned();
        out.push_str(self.device.device_path.as_str());
        out.push_str(")");
        out
    }

    /// The frame of the file was loaded.
    pub fn frame_loaded(&mut self, frame: Vec<u8>)
        ensures
            final(self)@ == (CameraView { frame: Some(frame@), ..old(self)@ }),
    {
        self.frame_buf = Some(frame);
    }

    /// A frame was captured; it takes the place of what is left of the one
    /// before.
    pub fn frame_captured(&mut self, frame: Vec<u8>)
        ensures
            final(self)@ == (CameraView { live: Some(frame@), ..old(self)@ }),
    {
        self.shared_frame = Some(frame);
    }

    /// What has to be started to open the camera. Nothing has to be for one
    /// that is open.
    pub fn open_plan(&self) -> (r: Option<CameraSource>)
        ensures
            match r {
                None => self@.state == DeviceState::Open,
                Some(source) => self@.state == DeviceState::Closed && is_source(
                    source,
                    self@.path,
                ),
            },
    {
        match self.device.device_state {
            DeviceState::Open => None,
            DeviceState::Closed => Some(self.source()),
        }
    }

    /// The camera was opened, with the frame of its file if it has one.
    pub fn opened(&mut self, frame: Option<Vec<u8>>)
        ensures
            final(self)@ == (CameraView {
                state: DeviceState::Open,
                frame: if frame is Some {
                    bytes_view(frame)
                } else {
                    old(self)@.frame
                },
                ..old(self)@
            }),
    {
        if let Some(frame) = frame {
            self.frame_buf = Some(frame);
        }
        self.device.device_state = DeviceState::Open;
    }

    /// Closes the camera. A closed camera has no frames.
    pub fn close(&mut self)
        ensures
            old(self)@.state == DeviceState::Closed ==> final(self)@ == old(self)@,
            old(self)@.state == DeviceState::Open ==> final(self)@ == (CameraView {
                state: DeviceState::Closed,
                frame: None,
                live: None,
                ..old(self)@
            }),
    {
        if self.device.device_state == DeviceState::Closed {
            return;
        }
        self.frame_buf = None;
        self.shared_frame = None;
        self.device.device_state = DeviceState::Closed;
    }

    /// Reads a frame, or as much of it as fits.
    pub fn read(&mut self, buf: &mut [u8]) -> (r: Result<usize, DeviceError>)
        ensures
            match r {
                Ok(n) => old(self)@.state == DeviceState::Open && (
                    final(self)@,
                    final(buf)@,
                    n as nat,
                ) == camera_read(old(self)@, old(buf)@),
                Err(e) => old(self)@.state == DeviceState::Closed && e@ == DeviceErrorView::NotOpen(
                    old(self)@.path,
                ) && final(self)@ == old(self)@ && final(buf)@ == old(buf)@,
            },
    {
        if self.device.device_state == DeviceState::Closed {
            return Err(DeviceError::NotOpen(self.device.device_path.clone()));
        }
        if let Some(live) = self.shared_frame.take() {
            let mut live = live;
            let n: usize = drain_into(&mut live, buf);
            if live.len() > 0 {
                self.shared_frame = Some(live);
            }
            return Ok(n);
        }
        if let Some(frame) = self.frame_buf.take() {
            let n: usize = fill(buf, frame.as_slice());
            return Ok(n);
        }
        Ok(0)
    }

    /// A camera takes no data.
    pub fn write(&self, _data: &[u8]) -> (r: Result<usize, DeviceError>)
        ensures
            r matches Err(e) && e@ == (DeviceErrorView::UnsupportedOperation {
                device: self@.path,
                operation: "write"@,
            }),
    {
        Err(
            DeviceError::UnsupportedOperation {
                device: self.device.device_path.clone(),
                operation: "write",
            },
        )
    }
}

/// The frame of a file is read once; the next read gives nothing.
pub proof fn law_file_frame_is_read_once(v: CameraView, first: Seq<u8>, second: Seq<u8>)
    requires
        v.live is None,
    ensures
        camera_read(camera_read(v, first).0, second).2 == 0,
        camera_read(camera_read(v, first).0, second).1 == second,
{
}

/// A captured frame that was read to its end is gone; until another one is
/// captured nothing is read of it.
pub proof fn law_live_frame_runs_out(v: CameraView, buf: Seq<u8>)
    requires
        v.live matches Some(live) && live.len() <= buf.len(),
    ensures
        camera_read(v, buf).0.live is None,
{
}

/// A read gives the start of the frame that was captured last, as much as
/// fits, and leaves the rest of it for the next read. Only where none is left,
/// the frame of a file is given, and what does not fit of it is dropped.
/// Without either nothing is read.
pub proof fn law_what_a_read_gives(v: CameraView, buf: Seq<u8>, i: int)
    requires
        0 <= i < buf.len(),
    ensures
        ({
            let (w, out, n) = camera_read(v, buf);
            &&& w.state == v.state && w.path == v.path
            &&& out.len() == buf.len() && n <= buf.len()
            &&& i >= n ==> out[i] == buf[i]
            &&& v.live matches Some(live) ==> {
                &&& n == live.len() || n == buf.len()
                &&& n <= live.len()
                &&& i < n ==> out[i] == live[i]
                &&& w.frame == v.frame
                &&& live.len() <= buf.len() ==> w.live is None
                &&& live.len() > buf.len() ==> w.live == Some(live.skip(buf.len() as int))
            }
            &&& v.live is None ==> w.live is None && w.frame is None
            &&& v.live is None && v.frame is None ==> n == 0 && out == buf
            &&& v.live is None && v.frame is Some ==> {
                &&& n == v.frame->0.len() || n == buf.len()
                &&& n <= v.frame->0.len()
                &&& i < n ==> out[i] == v.frame->0[i]
            }
        }),
{
}

/// Cameras are named by their number, after `camera://` and after
/// `/dev/video`. Any other path, and one without a number, is the first.
pub proof fn law_camera_numbers(n: u32, path: Seq<char>)
    ensures
        camera_index("camera://"@ + decimal(n as nat)) == n,
        camera_index("/dev/video"@ + decimal(n as nat)) == n,
        camera_index("camera://"@) == 0,
        number_of(path, u32::MAX as nat) is None ==> camera_index("camera://"@ + path) == 0,
        !has_prefix(path, "camera://"@) && !has_prefix(path, "/dev/video"@) ==> camera_index(path)
            == 0,
{
    let digits = decimal(n as nat);
    law_prefixes(digits, "camera://"@);
    law_prefixes(digits, "/dev/video"@);
    law_prefixes(path, "camera://"@);
    law_prefixes(Seq::empty(), "camera://"@);
    assert("camera://"@ + Seq::<char>::empty() =~= "camera://"@);
    law_decimal_reads_back(n as nat, u32::MAX as nat);
    law_numbers(Seq::empty(), '0', u32::MAX as nat);
    reveal_strlit("camera://");
    reveal_strlit("/dev/video");
    let node = "/dev/video"@ + digits;
    if has_prefix(node, "camera://"@) {
        assert(node.take("camera://"@.len() as int)[0] == node[0]);
    }
}

/// A camera is a file where its path names one, and else the camera with the
/// number in the path.
pub proof fn law_camera_sources(path: Seq<char>, source: CameraSource)
    requires
        is_source(source, path),
    ensures
        source is File <==> file_of(path) is Some,
        source matches CameraSource::File(f) ==> file_of(path) == Some(f@),
        source matches CameraSource::Camera(k) ==> k == camera_index(path),
{
}

} // verus!
