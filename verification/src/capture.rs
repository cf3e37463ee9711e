//! Desktop capture: which frames a duplication session delivers.

use vstd::prelude::*;
use vstd::string::StringExecFns;

use crate::caps::Platform;

verus! {

#[derive(Debug)]
pub enum CaptureError {
    Message(String),
    Timeout,
}

impl CaptureError {
    pub open spec fn text(self) -> Seq<char> {
        match self {
            CaptureError::Message(m) => m@,
            CaptureError::Timeout => "timeout"@,
        }
    }

    pub fn message(&self) -> (r: String)
        ensures
            r@ == self.text(),
    {
        match self {
            CaptureError::Message(m) => m.clone(),
            CaptureError::Timeout => "timeout".to_owned(),
        }
    }
}

/// A captured frame. `fresh` says whether the desktop changed since the last one.
#[derive(Debug, Clone, Copy, PartialEq, Eq, Structural)]
pub struct FrameInfo {
    pub width: u32,
    pub height: u32,
    pub capture_us: u64,
    pub fresh: bool,
    pub content_gen: u64,
}

pub const NVIDIA: u32 = 0x10DE;

pub const INTEL: u32 = 0x8086;

pub const AMD: u32 = 0x1002;

#[derive(Debug, Clone, Copy, PartialEq, Eq, Structural)]
pub enum GpuVendor {
    Nvidia,
    Intel,
    Amd,
    Other(u32),
}

impl GpuVendor {
    /// The PCI number of the vendor.
    pub open spec fn id(self) -> u32 {
        match self {
            GpuVendor::Nvidia => NVIDIA,
            GpuVendor::Intel => INTEL,
            GpuVendor::Amd => AMD,
            GpuVendor::Other(id) => id,
        }
    }

    pub fn from_id(id: u32) -> (r: GpuVendor)
        ensures
            r.id() == id,
            r is Other <==> id != NVIDIA && id != INTEL && id != AMD,
    {
        if id == NVIDIA {
            GpuVendor::Nvidia
        } else if id == INTEL {
            GpuVendor::Intel
        } else if id == AMD {
            GpuVendor::Amd
        } else {
            GpuVendor::Other(id)
        }
    }
}

/// How asking the system for the next frame went.
#[derive(Debug, Clone, Copy, PartialEq, Eq, Structural)]
pub enum Acquired {
    /// There is one.
    Frame,
    /// There is none yet.
    Timeout,
    /// The session is gone.
    AccessLost,
    /// A frame without a surface.
    NoSurface,
    /// Anything else.
    Failed,
}

/// What to do about it.
#[derive(Debug, Clone, Copy, PartialEq, Eq, Structural)]
pub enum CaptureStep {
    /// Hand over the frame, copied before if it is fresh.
    Deliver(FrameInfo),
    /// No frame this time.
    Nothing,
    /// Start the duplication anew; no frame this time.
    Recreate,
    /// Report the error.
    Fail,
}

/// A capture session of a screen of fixed size.
#[derive(Debug, Clone, Copy, PartialEq, Eq, Structural)]
pub struct CaptureSession {
    pub width: u32,
    pub height: u32,
    pub have_frame: bool,
}

impl CaptureSession {
    /// The session that a platform opens on a screen, if it can.
    pub open spec fn opened(platform: Platform, width: u32, height: u32) -> Option<
        CaptureSession,
    > {
        if platform == Platform::Unknown {
            None
        } else {
            Some(CaptureSession { width, height, have_frame: false })
        }
    }

    /// The text of the error on a platform without capture.
    pub open spec fn unsupported() -> Seq<char> {
        "capture not implemented on "@ + "Unknown"@
    }

    /// What the outcome of asking for a frame at `capture_us` does. While the desktop does
    /// not change, the last frame is handed over again.
    pub open spec fn acquired(self, a: Acquired, capture_us: u64) -> (CaptureSession, CaptureStep) {
        let info = FrameInfo {
            width: self.width,
            height: self.height,
            capture_us,
            fresh: a is Frame,
            content_gen: 0,
        };
        match a {
            Acquired::Frame => (
                CaptureSession { have_frame: true, ..self },
                CaptureStep::Deliver(info),
            ),
            Acquired::Timeout => (
                self,
                if self.have_frame {
                    CaptureStep::Deliver(info)
                } else {
                    CaptureStep::Nothing
                },
            ),
            Acquired::AccessLost => (
                CaptureSession { have_frame: false, ..self },
                CaptureStep::Recreate,
            ),
            Acquired::NoSurface => (self, CaptureStep::Nothing),
            Acquired::Failed => (self, CaptureStep::Fail),
        }
    }

    /// A session on `platform`, which must be one with a capture interface.
    pub fn open(platform: Platform, width: u32, height: u32) -> (r: Result<
        CaptureSession,
        CaptureError,
    >)
        ensures
            match r {
                Ok(s) => platform != Platform::Unknown && s == (CaptureSession {
                    width,
                    height,
                    have_frame: false,
                }),
                Err(e) => platform == Platform::Unknown && e.text()
                    == CaptureSession::unsupported(),
            },
            r matches Ok(s) ==> CaptureSession::opened(platform, width, height) == Some(s),
            r is Err ==> CaptureSession::opened(platform, width, height) is None,
    {
        match platform {
            Platform::Unknown => Err(
                CaptureError::Message(
                    "capture not implemented on ".to_owned().concat("Unknown"),
                ),
            ),
            _ => Ok(CaptureSession { width, height, have_frame: false }),
        }
    }

    /// What to do once the system was asked for a frame.
    pub fn next_frame(&mut self, a: Acquired, capture_us: u64) -> (r: CaptureStep)
        ensures
            (*final(self), r) == old(self).acquired(a, capture_us),
    {
        match a {
            Acquired::Frame => {
                self.have_frame = true;
                CaptureStep::Deliver(self.info(capture_us, true))
            },
            Acquired::Timeout => if self.have_frame {
                CaptureStep::Deliver(self.info(capture_us, false))
            } else {
                CaptureStep::Nothing
            },
            Acquired::AccessLost => {
                self.have_frame = false;
                CaptureStep::Recreate
            },
            Acquired::NoSurface => CaptureStep::Nothing,
            Acquired::Failed => CaptureStep::Fail,
        }
    }

    fn info(&self, capture_us: u64, fresh: bool) -> (r: FrameInfo)
        ensures
            r == (FrameInfo {
                width: self.width,
                height: self.height,
                capture_us,
                fresh,
                content_gen: 0,
            }),
    {
        FrameInfo { width: self.width, height: self.height, capture_us, fresh, content_gen: 0 }
    }

    pub fn size(&self) -> (r: (u32, u32))
        ensures
            r == (self.width, self.height),
    {
        (self.width, self.height)
    }
}

/// A repeated frame is handed over only if a fresh one was before it in the same session.
pub proof fn repeats_follow_a_frame(s: CaptureSession, a: Acquired, capture_us: u64)
    ensures
        s.acquired(a, capture_us).1 matches CaptureStep::Deliver(info) ==> info.fresh
            || s.have_frame,
        s.acquired(Acquired::AccessLost, capture_us).0.acquired(Acquired::Timeout, capture_us).1
            == CaptureStep::Nothing,
{
}

/// A frame that was acquired is delivered as new, with the session's size and its time; while
/// nothing new comes, the last one is delivered again, marked as such.
pub proof fn acquired_frames_are_delivered(s: CaptureSession, capture_us: u64, later: u64)
    ensures
        ({
            let (n, step) = s.acquired(Acquired::Frame, capture_us);
            let (again, repeat) = n.acquired(Acquired::Timeout, later);
            &&& step matches CaptureStep::Deliver(i) && i.width == s.width && i.height == s.height
                && i.capture_us == capture_us && i.fresh
            &&& repeat matches CaptureStep::Deliver(i) && i.width == s.width && i.height
                == s.height && i.capture_us == later && !i.fresh
            &&& again == n
        }),
{
}

/// What goes wrong delivers nothing. A missing surface or a failure leaves the session as it
/// is; lost access asks for a new duplication, and forgets the frame. The size stays.
pub proof fn trouble_delivers_nothing(s: CaptureSession, a: Acquired, capture_us: u64)
    ensures
        ({
            let (n, step) = s.acquired(a, capture_us);
            &&& n.width == s.width && n.height == s.height
            &&& step is Fail <==> a is Failed
            &&& step is Recreate <==> a is AccessLost
            &&& a is AccessLost ==> !n.have_frame
            &&& a is NoSurface || a is Failed ==> n == s
            &&& step is Deliver <==> a is Frame || (a is Timeout && s.have_frame)
            &&& n.have_frame <==> a is Frame || (s.have_frame && !(a is AccessLost))
        }),
{
}

/// The vendors' numbers.
pub proof fn vendors_have_numbers()
    ensures
        GpuVendor::Nvidia.id() == 0x10DE,
        GpuVendor::Intel.id() == 0x8086,
        GpuVendor::Amd.id() == 0x1002,
        forall|id: u32| #[trigger] GpuVendor::Other(id).id() == id,
{
}

/// A session is opened on every platform that is known, at the size of the screen. Until a
/// frame is acquired nothing is delivered.
pub proof fn sessions_open_without_a_frame(
    platform: Platform,
    width: u32,
    height: u32,
    capture_us: u64,
)
    ensures
        CaptureSession::opened(platform, width, height) is Some <==> platform == Platform::Windows
            || platform == Platform::Macos,
        CaptureSession::opened(platform, width, height) matches Some(s) ==> {
            &&& s.width == width && s.height == height
            &&& s.acquired(Acquired::Timeout, capture_us) == (s, CaptureStep::Nothing)
        },
{
}

} // verus!
