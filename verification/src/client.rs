//! The decisions of a client session: which frames to decode, when to ask for a keyframe,
//! and what to tell the host.

use std::collections::VecDeque;

use vstd::prelude::*;

use crate::caps::{Chroma, NegotiatedFormat};
use crate::codec::{control_fault, control_of, decode_control};
use crate::endpoint::{Incoming, IncomingModel, PeerAddr};
use crate::host::{longer, max_u64, STATS_INTERVAL_NS};
use crate::messages::{
    AudioModel, AudioPacket, Channel, ControlModel, ControlMsg, InputEvent, VideoAccessUnit,
    VideoModel,
};
use crate::timing::{elapsed, elapsed_since, FrameTimes};
use crate::wire::{alone_reads_back, decode, ProtocolError, Wire};

verus! {

/// Keyframe requests to the host are at least this far apart.
pub const REQUEST_IDR_NS: u64 = 250_000_000;

/// Congestion reports to the host are at least this far apart.
pub const REPORT_INTERVAL_NS: u64 = 100_000_000;

/// More waiting frames than this are a backlog.
pub const VIDEO_Q_MAX: usize = 3;

/// Whether an event must arrive: everything but moves. Absolute mouse must not use the
/// reliable window. A single lost move would hold every later click until retransmission —
/// that is the main reason LAN input feels slower than Parsec.
pub fn input_is_reliable(ev: &InputEvent) -> (r: bool)
    ensures
        r == !ev.moves(),
        r == must_arrive(*ev),
{
    !ev.is_move()
}

/// A sixty-four-bit pattern read as a signed number.
pub open spec fn signed(v: u64) -> int {
    if v < 0x8000_0000_0000_0000 {
        v as int
    } else {
        v - 0x1_0000_0000_0000_0000
    }
}

/// A host timestamp moved by as much as `from` is moved to `to`; before the origin there
/// is only the origin.
pub open spec fn moved_time(v: u64, from: u64, to: u64) -> u64 {
    let t = signed(v) + (signed(to) - signed(from));
    if t < 0 {
        0
    } else if t > u64::MAX {
        u64::MAX
    } else {
        t as u64
    }
}

fn to_signed(v: u64) -> (r: i128)
    ensures
        r == signed(v),
{
    if v < 0x8000_0000_0000_0000 {
        v as i128
    } else {
        v as i128 - 0x1_0000_0000_0000_0000
    }
}

fn move_time(v: u64, from: u64, to: u64) -> (r: u64)
    ensures
        r == moved_time(v, from, to),
{
    let t: i128 = to_signed(v) + (to_signed(to) - to_signed(from));
    if t < 0 {
        0
    } else if t > u64::MAX as i128 {
        u64::MAX
    } else {
        t as u64
    }
}

/// Timestamps of a frame received at `recv_us` on the client's clock. Host times are moved
/// to that clock on the assumption that sending took half a round trip; a frame without a
/// send time keeps its times.
pub open spec fn mapped_times(t: FrameTimes, recv_us: u64, rtt_us: u32) -> FrameTimes {
    let sent = elapsed((rtt_us / 2) as u64, recv_us);
    let m = if t.send_us > 0 {
        FrameTimes {
            capture_us: moved_time(t.capture_us, t.send_us, sent),
            encode_done_us: moved_time(t.encode_done_us, t.send_us, sent),
            send_us: sent,
            ..t
        }
    } else {
        t
    };
    FrameTimes { recv_us, ..m }
}

/// One way of opening a decoder.
#[derive(Debug, Clone, Copy, PartialEq, Eq, Structural)]
pub struct DecoderAttempt {
    /// On the presenter's GPU, or on one of the decoder's own.
    pub on_gpu: bool,
    pub chroma: Chroma,
}

/// The ways of opening a decoder for `chroma`, best first. On Windows the presenter's GPU
/// comes before a separate one, and 4:2:0 is always kept as a way out.
pub open spec fn attempts(windows: bool, has_gpu: bool, chroma: Chroma) -> Seq<DecoderAttempt> {
    let plain = DecoderAttempt { on_gpu: false, chroma };
    let gpu = DecoderAttempt { on_gpu: true, chroma };
    let plain_420 = DecoderAttempt { on_gpu: false, chroma: Chroma::Yuv420 };
    let gpu_420 = DecoderAttempt { on_gpu: true, chroma: Chroma::Yuv420 };
    if !windows {
        seq![plain]
    } else if chroma == Chroma::Yuv420 {
        if has_gpu {
            seq![gpu, plain]
        } else {
            seq![plain]
        }
    } else if has_gpu {
        seq![gpu, plain, gpu_420, plain_420]
    } else {
        seq![plain, plain_420]
    }
}

/// The ways of opening a decoder for `chroma`, best first.
pub fn decoder_attempts(windows: bool, has_gpu: bool, chroma: Chroma) -> (r: Vec<DecoderAttempt>)
    ensures
        r@ == attempts(windows, has_gpu, chroma),
{
    let mut out: Vec<DecoderAttempt> = Vec::new();
    if windows && has_gpu {
        out.push(DecoderAttempt { on_gpu: true, chroma });
    }
    out.push(DecoderAttempt { on_gpu: false, chroma });
    // CapsAccept may ask for 444 that Intel cannot present; always keep a 420 path.
    if windows && chroma != Chroma::Yuv420 {
        if has_gpu {
            out.push(DecoderAttempt { on_gpu: true, chroma: Chroma::Yuv420 });
        }
        out.push(DecoderAttempt { on_gpu: false, chroma: Chroma::Yuv420 });
    }
    assert(out@ =~= attempts(windows, has_gpu, chroma));
    out
}

/// What a message from the host calls for.
pub enum ClientAction {
    Nothing,
    /// Send our capabilities.
    Greet,
    /// Ask the host for a keyframe.
    SendIdr,
    /// Open a decoder, report it to `decoder_opened`, and ask the host for a keyframe.
    OpenDecoder { format: NegotiatedFormat, width: u32, height: u32 },
    /// A control message that does not decode.
    BadControl(ProtocolError),
    Play(AudioPacket),
}

#[verifier::ext_equal]
pub enum ClientActionModel {
    Nothing,
    Greet,
    SendIdr,
    OpenDecoder { format: NegotiatedFormat, width: u32, height: u32 },
    BadControl(ProtocolError),
    Play(AudioModel),
}

impl View for ClientAction {
    type V = ClientActionModel;

    open spec fn view(&self) -> ClientActionModel {
        match self {
            ClientAction::Nothing => ClientActionModel::Nothing,
            ClientAction::Greet => ClientActionModel::Greet,
            ClientAction::SendIdr => ClientActionModel::SendIdr,
            ClientAction::OpenDecoder { format, width, height } => {
                ClientActionModel::OpenDecoder {
                    format: *format,
                    width: *width,
                    height: *height,
                }
            },
            ClientAction::BadControl(e) => ClientActionModel::BadControl(*e),
            ClientAction::Play(p) => ClientActionModel::Play(p@),
        }
    }
}

/// What a frame calls for when there is no decoder.
#[derive(Debug, Clone, Copy, PartialEq, Eq, Structural)]
pub enum MissingDecoder {
    /// Nothing can be done with it.
    Wait,
    /// Ask for a keyframe.
    AskIdr,
    /// Open a 4:2:0 decoder of this size and ask for a keyframe.
    Open { width: u32, height: u32 },
}

/// Whether a frame may be decoded.
#[derive(Debug, Clone, Copy, PartialEq, Eq, Structural)]
pub enum Intake {
    Decode,
    /// Wait for a keyframe, and ask for one if `send_idr`.
    Drop { send_idr: bool },
}

/// How decoding a frame went.
#[derive(Debug, Clone, Copy, PartialEq, Eq, Structural)]
pub enum DecodeOutcome {
    Frame,
    Nothing,
    Failed,
}

/// A number of at least one.
pub open spec fn at_least_one(v: u16) -> u16 {
    if v == 0 {
        1
    } else {
        v
    }
}

/// The state of a client session.
#[verifier::ext_equal]
pub struct ClientModel {
    pub host_w: u16,
    pub host_h: u16,
    pub last_cong: u64,
    pub video_frames: u64,
    pub video_without_decoder: u64,
    pub decode_idle: u64,
    pub await_keyframe: bool,
    pub decode_errors: u64,
    pub last_video_at: Option<u64>,
    pub last_idr_req: Option<u64>,
    pub queue: Seq<VideoModel>,
    pub last_represent: u64,
    pub represent_interval: u64,
}

/// Whether any of these frames is a keyframe.
pub open spec fn has_keyframe(q: Seq<VideoModel>) -> bool {
    exists|i: int| 0 <= i < q.len() && (#[trigger] q[i]).is_keyframe
}

impl ClientModel {
    pub open spec fn start(target_fps: u32, now: u64) -> ClientModel {
        ClientModel {
            host_w: 1920,
            host_h: 1080,
            last_cong: now,
            video_frames: 0,
            video_without_decoder: 0,
            decode_idle: 0,
            await_keyframe: false,
            decode_errors: 0,
            last_video_at: None,
            last_idr_req: None,
            queue: Seq::empty(),
            last_represent: now,
            represent_interval: (1_000_000_000int / (if target_fps >= 1 {
                target_fps as int
            } else {
                1
            })) as u64,
        }
    }

    /// What is reported of frames without a decoder, of frames that the decoder gives nothing
    /// for, and of those that it fails on.
    pub open spec fn report_of_missing(self) -> Option<u64> {
        reported(self.video_without_decoder, 120)
    }

    pub open spec fn report_of_idle(self) -> Option<u64> {
        reported(self.decode_idle, 120)
    }

    pub open spec fn report_of_failing(self) -> Option<u64> {
        reported(self.decode_errors, 60)
    }

    /// The size of the host's screen, as far as it is known.
    pub open spec fn known_size(self) -> (u16, u16) {
        (self.host_w, self.host_h)
    }

    /// The size to present at.
    pub open spec fn shown_size(self) -> (u32, u32) {
        (at_least_one(self.host_w) as u32, at_least_one(self.host_h) as u32)
    }

    /// The gap to print.
    pub open spec fn shown_gap(self, stats: ClientStats, now: u64) -> u64 {
        if stats.frames > 0 {
            stats.gap_max_us
        } else {
            match self.last_video_at {
                Some(t) => (elapsed(t, now) / 1000) as u64,
                None => 0,
            }
        }
    }

    /// Whether a keyframe request at `now` goes out.
    pub open spec fn idr_allowed(self, now: u64) -> bool {
        self.last_idr_req matches Some(t) ==> elapsed(t, now) >= REQUEST_IDR_NS
    }

    /// The state after a keyframe request at `now`.
    pub open spec fn idr_asked(self, now: u64) -> ClientModel {
        if self.idr_allowed(now) {
            ClientModel { last_idr_req: Some(now), ..self }
        } else {
            self
        }
    }

    /// What a message does at `now`.
    pub open spec fn received(self, msg: IncomingModel, now: u64) -> (ClientModel, ClientActionModel) {
        match msg {
            IncomingModel::Established { peer } => (self, ClientActionModel::Greet),
            IncomingModel::NeedIdr => (
                self.idr_asked(now),
                if self.idr_allowed(now) {
                    ClientActionModel::SendIdr
                } else {
                    ClientActionModel::Nothing
                },
            ),
            IncomingModel::Datagram { channel, payload, frame_id, keyframe } => match channel {
                Channel::Control => match control_of(payload) {
                    None => (
                        self,
                        ClientActionModel::BadControl(
                            ProtocolError::Decode(control_fault(payload)),
                        ),
                    ),
                    Some(ControlModel::CapsAccept { format }) => (
                        ClientModel {
                            host_w: at_least_one(format.width),
                            host_h: at_least_one(format.height),
                            ..self
                        },
                        ClientActionModel::OpenDecoder {
                            format,
                            width: at_least_one(format.width) as u32,
                            height: at_least_one(format.height) as u32,
                        },
                    ),
                    Some(_) => (self, ClientActionModel::Nothing),
                },
                Channel::Video => match VideoAccessUnit::parse(payload) {
                    Some((au, _)) => (
                        ClientModel { queue: self.queue.push(au), ..self },
                        ClientActionModel::Nothing,
                    ),
                    None => (self, ClientActionModel::Nothing),
                },
                Channel::Audio => match AudioPacket::parse(payload) {
                    Some((pkt, _)) => (self, ClientActionModel::Play(pkt)),
                    None => (self, ClientActionModel::Nothing),
                },
                Channel::Input => (self, ClientActionModel::Nothing),
            },
        }
    }

    /// Whether the waiting frames are a backlog with nothing in it to start from.
    pub open spec fn hopeless(self) -> bool {
        self.queue.len() > VIDEO_Q_MAX && !has_keyframe(self.queue)
    }

    /// What taking the next frame does: only the newest one counts, and a hopeless backlog
    /// is thrown away and a keyframe asked for.
    pub open spec fn taken(self, now: u64) -> (ClientModel, Option<VideoModel>, bool) {
        let empty = ClientModel { queue: Seq::empty(), ..self };
        if self.hopeless() {
            (empty.idr_asked(now), None, self.idr_allowed(now))
        } else if self.queue.len() > 0 {
            (empty, Some(self.queue.last()), false)
        } else {
            (self, None, false)
        }
    }

    /// The state after a frame of this size arrived at `now`.
    pub open spec fn arrived(self, width: u16, height: u16, now: u64) -> ClientModel {
        ClientModel {
            host_w: if width > 0 {
                width
            } else {
                self.host_w
            },
            host_h: if width > 0 {
                height
            } else {
                self.host_h
            },
            last_video_at: Some(now),
            ..self
        }
    }

    /// A frame that arrives at `now`: the state then, the frame with its times on this clock, and
    /// the microseconds since the frame before.
    pub open spec fn taken_in(self, au: VideoModel, recv_us: u64, rtt_us: u32, now: u64) -> (
        ClientModel,
        VideoModel,
        Option<u64>,
    ) {
        (
            self.arrived(au.width, au.height, now),
            VideoModel { times: mapped_times(au.times, recv_us, rtt_us), ..au },
            match self.last_video_at {
                Some(t) => Some((elapsed(t, now) / 1000) as u64),
                None => None,
            },
        )
    }

    /// Whether a frame may be decoded at `now`: after a decoder was opened or failed, only
    /// from a keyframe on.
    pub open spec fn filtered(self, is_keyframe: bool, now: u64) -> (ClientModel, Intake) {
        if self.await_keyframe && !is_keyframe {
            (self.idr_asked(now), Intake::Drop { send_idr: self.idr_allowed(now) })
        } else {
            (ClientModel { await_keyframe: false, ..self }, Intake::Decode)
        }
    }

    /// What opening a decoder does at `now`, and whether to ask for a keyframe.
    pub open spec fn with_decoder(self, opened: bool, now: u64) -> (ClientModel, bool) {
        if opened {
            let m = ClientModel { await_keyframe: true, ..self };
            (m.idr_asked(now), m.idr_allowed(now))
        } else {
            (self, false)
        }
    }

    /// What a frame without a decoder does, and what it calls for.
    pub open spec fn without_decoder(self, is_keyframe: bool, width: u16, height: u16) -> (
        ClientModel,
        MissingDecoder,
    ) {
        (
            ClientModel {
                video_without_decoder: (self.video_without_decoder + 1) as u64,
                ..self
            },
            if !is_keyframe {
                MissingDecoder::Wait
            } else if width == 0 {
                MissingDecoder::AskIdr
            } else {
                MissingDecoder::Open {
                    width: width as u32,
                    height: at_least_one(height) as u32,
                }
            },
        )
    }

    /// What a frame that went to the decoder does at `now`, and whether to report.
    pub open spec fn counted(self, now: u64) -> (ClientModel, bool) {
        let m = ClientModel { video_frames: (self.video_frames + 1) as u64, ..self };
        if elapsed(self.last_cong, now) >= REPORT_INTERVAL_NS {
            (ClientModel { last_cong: now, ..m }, true)
        } else {
            (m, false)
        }
    }

    /// Whether the last frame is presented once more at `now`, and what that does.
    pub open spec fn shown_again(self, has_frame: bool, now: u64) -> (ClientModel, bool) {
        if has_frame && elapsed(self.last_represent, now) >= self.represent_interval {
            (ClientModel { last_represent: now, ..self }, true)
        } else {
            (self, false)
        }
    }

    /// What the outcome of decoding does at `now`, and whether to ask for a keyframe: from
    /// the second frame in a row that gives nothing on, at the first failure and at every
    /// thirtieth. Such a failure also makes frames wait for a keyframe again.
    pub open spec fn decoded(self, outcome: DecodeOutcome, now: u64) -> (ClientModel, bool) {
        match outcome {
            DecodeOutcome::Frame => (
                ClientModel { decode_idle: 0, decode_errors: 0, ..self },
                false,
            ),
            DecodeOutcome::Nothing => {
                let m = ClientModel { decode_idle: (self.decode_idle + 1) as u64, ..self };
                if m.decode_idle >= 2 {
                    (m.idr_asked(now), m.idr_allowed(now))
                } else {
                    (m, false)
                }
            },
            DecodeOutcome::Failed => {
                let m = ClientModel { decode_errors: (self.decode_errors + 1) as u64, ..self };
                if m.decode_errors == 1 || m.decode_errors % 30 == 0 {
                    (
                        ClientModel { await_keyframe: true, ..m }.idr_asked(now),
                        m.idr_allowed(now),
                    )
                } else {
                    (m, false)
                }
            },
        }
    }
}

/// Which of many like events are reported: the first, and one in `every`.
pub open spec fn reported(n: u64, every: u64) -> Option<u64> {
    if n == 1 || n % every == 0 {
        Some(n)
    } else {
        None
    }
}

fn report(n: u64, every: u64) -> (r: Option<u64>)
    requires
        every > 0,
    ensures
        r == reported(n, every),
{
    if n == 1 || n % every == 0 {
        Some(n)
    } else {
        None
    }
}

/// The client side of a session.
pub struct ClientSession {
    host_w: u16,
    host_h: u16,
    last_cong: u64,
    video_frames: u64,
    video_without_decoder: u64,
    decode_idle: u64,
    /// After opening a decoder, ignore P-frames until the first IDR arrives.
    await_keyframe: bool,
    decode_errors: u64,
    last_video_at: Option<u64>,
    last_idr_req: Option<u64>,
    queue: VecDeque<VideoAccessUnit>,
    last_represent: u64,
    represent_interval: u64,
}

/// The views of a list of access units.
pub open spec fn video_views(v: Seq<VideoAccessUnit>) -> Seq<VideoModel> {
    v.map_values(|a: VideoAccessUnit| a@)
}

impl View for ClientSession {
    type V = ClientModel;

    closed spec fn view(&self) -> ClientModel {
        ClientModel {
            host_w: self.host_w,
            host_h: self.host_h,
            last_cong: self.last_cong,
            video_frames: self.video_frames,
            video_without_decoder: self.video_without_decoder,
            decode_idle: self.decode_idle,
            await_keyframe: self.await_keyframe,
            decode_errors: self.decode_errors,
            last_video_at: self.last_video_at,
            last_idr_req: self.last_idr_req,
            queue: video_views(self.queue@),
            last_represent: self.last_represent,
            represent_interval: self.represent_interval,
        }
    }
}

fn max_one(v: u16) -> (r: u16)
    ensures
        r == at_least_one(v),
{
    if v == 0 {
        1
    } else {
        v
    }
}

impl ClientSession {
    /// A session at `now` that presents at `target_fps`.
    pub fn new(target_fps: u32, now: u64) -> (r: ClientSession)
        ensures
            r@ == (ClientModel {
                host_w: 1920,
                host_h: 1080,
                last_cong: now,
                video_frames: 0,
                video_without_decoder: 0,
                decode_idle: 0,
                await_keyframe: false,
                decode_errors: 0,
                last_video_at: None,
                last_idr_req: None,
                queue: Seq::empty(),
                last_represent: now,
                represent_interval: (1_000_000_000int / (if target_fps >= 1 {
                    target_fps as int
                } else {
                    1
                })) as u64,
            }),
            r@ == ClientModel::start(target_fps, now),
    {
        let fps: u64 = if target_fps >= 1 {
            target_fps as u64
        } else {
            1
        };
        let r = ClientSession {
            host_w: 1920,
            host_h: 1080,
            last_cong: now,
            video_frames: 0,
            video_without_decoder: 0,
            decode_idle: 0,
            await_keyframe: false,
            decode_errors: 0,
            last_video_at: None,
            last_idr_req: None,
            queue: VecDeque::new(),
            last_represent: now,
            represent_interval: 1_000_000_000 / fps,
        };
        assert(r@.queue =~= Seq::empty());
        r
    }

    pub fn host_size(&self) -> (r: (u16, u16))
        ensures
            r == (self@.host_w, self@.host_h),
            r == self@.known_size(),
    {
        (self.host_w, self.host_h)
    }

    /// Whether no counter is about to run over.
    pub fn has_room(&self) -> (r: bool)
        ensures
            r == (self@.video_frames < u64::MAX && self@.video_without_decoder < u64::MAX
                && self@.decode_idle < u64::MAX && self@.decode_errors < u64::MAX),
    {
        self.video_frames < u64::MAX && self.video_without_decoder < u64::MAX && self.decode_idle
            < u64::MAX && self.decode_errors < u64::MAX
    }

    /// Whether to ask the host for a keyframe at `now`. One request holds others back for
    /// a while.
    pub fn request_idr(&mut self, now: u64) -> (r: bool)
        ensures
            r == old(self)@.idr_allowed(now),
            final(self)@ == old(self)@.idr_asked(now),
    {
        if let Some(t) = self.last_idr_req {
            if elapsed_since(t, now) < REQUEST_IDR_NS {
                return false;
            }
        }
        self.last_idr_req = Some(now);
        true
    }

    /// What a message from the host calls for. Video is put in the queue.
    pub fn on_incoming(&mut self, msg: Incoming, now: u64) -> (r: ClientAction)
        ensures
            (final(self)@, r@) == old(self)@.received(msg@, now),
    {
        match msg {
            Incoming::Established { .. } => ClientAction::Greet,
            Incoming::NeedIdr => if self.request_idr(now) {
                ClientAction::SendIdr
            } else {
                ClientAction::Nothing
            },
            Incoming::Datagram { channel, payload, .. } => match channel {
                Channel::Control => match decode_control(payload.as_slice()) {
                    Ok(ControlMsg::CapsAccept { format }) => {
                        self.host_w = max_one(format.width);
                        self.host_h = max_one(format.height);
                        ClientAction::OpenDecoder {
                            format,
                            width: self.host_w as u32,
                            height: self.host_h as u32,
                        }
                    },
                    Ok(_) => ClientAction::Nothing,
                    Err(e) => ClientAction::BadControl(e),
                },
                Channel::Video => {
                    if let Ok(au) = decode::<VideoAccessUnit>(payload.as_slice()) {
                        let ghost before = self@.queue;
                        let ghost m = au@;
                        self.queue.push_back(au);
                        assert(self@.queue =~= before.push(m));
                    }
                    ClientAction::Nothing
                },
                Channel::Audio => match decode::<AudioPacket>(payload.as_slice()) {
                    Ok(pkt) => ClientAction::Play(pkt),
                    Err(_) => ClientAction::Nothing,
                },
                Channel::Input => ClientAction::Nothing,
            },
        }
    }

    /// Whether a decoder could be opened. One that could waits for a keyframe. Says
    /// whether to ask the host for one.
    pub fn decoder_opened(&mut self, opened: bool, now: u64) -> (r: bool)
        ensures
            (final(self)@, r) == old(self)@.with_decoder(opened, now),
            r == (opened && old(self)@.idr_allowed(now)),
            final(self)@ == if opened {
                (ClientModel { await_keyframe: true, ..old(self)@ }).idr_asked(now)
            } else {
                old(self)@
            },
    {
        if opened {
            self.await_keyframe = true;
            self.request_idr(now)
        } else {
            false
        }
    }

    fn queue_has_keyframe(&self) -> (r: bool)
        ensures
            r == has_keyframe(self@.queue),
    {
        let mut i: usize = 0;
        while i < self.queue.len()
            invariant
                i <= self.queue@.len(),
                forall|j: int| 0 <= j < i ==> !(#[trigger] self@.queue[j]).is_keyframe,
            decreases self.queue@.len() - i,
        {
            let k = self.queue[i].is_keyframe;
            assert(self@.queue[i as int] == self.queue@[i as int]@);
            if k {
                return true;
            }
            i = i + 1;
        }
        false
    }

    /// Takes the newest waiting frame and forgets the rest. A backlog without a keyframe is
    /// thrown away; the second result says whether to ask the host for one then.
    pub fn next_video(&mut self, now: u64) -> (r: (Option<VideoAccessUnit>, bool))
        ensures
            ({
                let t = old(self)@.taken(now);
                &&& final(self)@ == t.0
                &&& match r.0 {
                    Some(au) => t.1 == Some(au@),
                    None => t.1 is None,
                }
                &&& r.1 == t.2
            }),
    {
        let ghost m = self@;
        assert(m.queue.len() == self.queue@.len());
        if self.queue.len() > VIDEO_Q_MAX {
            if !self.queue_has_keyframe() {
                self.queue.clear();
                assert(self@.queue =~= Seq::empty());
                assert(self@ =~= (ClientModel { queue: Seq::empty(), ..m }));
                let ask = self.request_idr(now);
                return (None, ask);
            }
        }
        let newest = self.queue.pop_back();
        self.queue.clear();
        assert(self@.queue =~= Seq::empty());
        assert(newest is None ==> m.queue =~= Seq::empty());
        assert(newest matches Some(au) ==> m.queue.last() == au@);
        (newest, false)
    }

    /// Takes note of a frame received at `recv_us` on the session clock. Gives it back with
    /// its times on that clock, and the microseconds since the last one.
    pub fn video_arrived(&mut self, au: VideoAccessUnit, recv_us: u64, rtt_us: u32, now: u64) -> (r: (
        VideoAccessUnit,
        Option<u64>,
    ))
        ensures
            final(self)@ == old(self)@.arrived(au.width, au.height, now),
            r.0@ == (VideoModel { times: mapped_times(au.times, recv_us, rtt_us), ..au@ }),
            r.1 == match old(self)@.last_video_at {
                Some(t) => Some((elapsed(t, now) / 1000) as u64),
                None => None::<u64>,
            },
            (final(self)@, r.0@, r.1) == old(self)@.taken_in(au@, recv_us, rtt_us, now),
    {
        let mut au = au;
        if au.width > 0 {
            self.host_w = au.width;
            self.host_h = au.height;
        }
        if au.times.send_us > 0 {
            let sent: u64 = elapsed_since((rtt_us / 2) as u64, recv_us);
            let from: u64 = au.times.send_us;
            let mut times = au.times;
            times.capture_us = move_time(times.capture_us, from, sent);
            times.encode_done_us = move_time(times.encode_done_us, from, sent);
            times.send_us = sent;
            au.times = times;
        }
        au.times.recv_us = recv_us;
        let gap = match self.last_video_at {
            Some(t) => Some(elapsed_since(t, now) / 1000),
            None => None,
        };
        self.last_video_at = Some(now);
        (au, gap)
    }

    /// What to do with a frame when there is no decoder. Last resort for Mac→Win white
    /// screen: CapsAccept missing/failed open. Prefer 420 only — blind 444 was the
    /// green/white path on Intel.
    pub fn decoder_missing(&mut self, is_keyframe: bool, width: u16, height: u16) -> (r: MissingDecoder)
        requires
            old(self)@.video_without_decoder < u64::MAX,
        ensures
            (final(self)@, r) == old(self)@.without_decoder(is_keyframe, width, height),
            final(self)@ == (ClientModel {
                video_without_decoder: (old(self)@.video_without_decoder + 1) as u64,
                ..old(self)@
            }),
            r == if !is_keyframe {
                MissingDecoder::Wait
            } else if width > 0 {
                MissingDecoder::Open {
                    width: width as u32,
                    height: at_least_one(height) as u32,
                }
            } else {
                MissingDecoder::AskIdr
            },
    {
        self.video_without_decoder = self.video_without_decoder + 1;
        if is_keyframe && width > 0 {
            MissingDecoder::Open { width: width as u32, height: max_one(height) as u32 }
        } else if is_keyframe {
            MissingDecoder::AskIdr
        } else {
            MissingDecoder::Wait
        }
    }

    /// How many frames have come without a decoder, if it is time to report it.
    pub fn missing_report(&self) -> (r: Option<u64>)
        ensures
            r == reported(self@.video_without_decoder, 120),
            r == self@.report_of_missing(),
    {
        report(self.video_without_decoder, 120)
    }

    /// How many frames in a row the decoder gave nothing for, if it is time to report it.
    pub fn idle_report(&self) -> (r: Option<u64>)
        ensures
            r == reported(self@.decode_idle, 120),
            r == self@.report_of_idle(),
    {
        report(self.decode_idle, 120)
    }

    /// How many frames in a row the decoder failed on, if it is time to report it.
    pub fn error_report(&self) -> (r: Option<u64>)
        ensures
            r == reported(self@.decode_errors, 60),
            r == self@.report_of_failing(),
    {
        report(self.decode_errors, 60)
    }

    /// The gap to print at `now`, in microseconds: the longest between frames, or the time
    /// since the last frame where none came.
    pub fn gap_us(&self, stats: &ClientStats, now: u64) -> (r: u64)
        ensures
            r == if stats.frames > 0 {
                stats.gap_max_us
            } else {
                match self@.last_video_at {
                    Some(t) => (elapsed(t, now) / 1000) as u64,
                    None => 0u64,
                }
            },
            r == self@.shown_gap(*stats, now),
    {
        if stats.frames > 0 {
            return stats.gap_max_us;
        }
        match self.last_video_at {
            Some(t) => elapsed_since(t, now) / 1000,
            None => 0,
        }
    }

    /// Whether a frame may be decoded.
    pub fn may_decode(&mut self, is_keyframe: bool, now: u64) -> (r: Intake)
        ensures
            (final(self)@, r) == old(self)@.filtered(is_keyframe, now),
    {
        if self.await_keyframe {
            if !is_keyframe {
                let send_idr = self.request_idr(now);
                return Intake::Drop { send_idr };
            }
            self.await_keyframe = false;
        }
        Intake::Decode
    }

    /// Takes note of how decoding went. Says whether to ask the host for a keyframe.
    pub fn decoded(&mut self, outcome: DecodeOutcome, now: u64) -> (r: bool)
        requires
            old(self)@.decode_idle < u64::MAX,
            old(self)@.decode_errors < u64::MAX,
        ensures
            (final(self)@, r) == old(self)@.decoded(outcome, now),
    {
        match outcome {
            DecodeOutcome::Frame => {
                self.decode_idle = 0;
                self.decode_errors = 0;
                false
            },
            DecodeOutcome::Nothing => {
                self.decode_idle = self.decode_idle + 1;
                if self.decode_idle >= 2 {
                    self.request_idr(now)
                } else {
                    false
                }
            },
            DecodeOutcome::Failed => {
                self.decode_errors = self.decode_errors + 1;
                if self.decode_errors == 1 || self.decode_errors % 30 == 0 {
                    self.await_keyframe = true;
                    self.request_idr(now)
                } else {
                    false
                }
            },
        }
    }

    /// Counts a frame that reached the decoder. Says whether to send a congestion report.
    pub fn video_done(&mut self, now: u64) -> (r: bool)
        requires
            old(self)@.video_frames < u64::MAX,
        ensures
            (final(self)@, r) == old(self)@.counted(now),
            r == (elapsed(old(self)@.last_cong, now) >= REPORT_INTERVAL_NS),
            final(self)@ == (ClientModel {
                video_frames: (old(self)@.video_frames + 1) as u64,
                last_cong: if r {
                    now
                } else {
                    old(self)@.last_cong
                },
                ..old(self)@
            }),
    {
        self.video_frames = self.video_frames + 1;
        if elapsed_since(self.last_cong, now) >= REPORT_INTERVAL_NS {
            self.last_cong = now;
            true
        } else {
            false
        }
    }

    /// Whether to present the last frame once more at `now`.
    pub fn represent_due(&mut self, has_frame: bool, now: u64) -> (r: bool)
        ensures
            (final(self)@, r) == old(self)@.shown_again(has_frame, now),
            r == (has_frame && elapsed(old(self)@.last_represent, now)
                >= old(self)@.represent_interval),
            final(self)@ == (ClientModel {
                last_represent: if r {
                    now
                } else {
                    old(self)@.last_represent
                },
                ..old(self)@
            }),
    {
        if !has_frame || elapsed_since(self.last_represent, now) < self.represent_interval {
            return false;
        }
        self.last_represent = now;
        true
    }

    /// The size to present at.
    pub fn present_size(&self) -> (r: (u32, u32))
        ensures
            r == (at_least_one(self@.host_w) as u32, at_least_one(self@.host_h) as u32),
            r == self@.shown_size(),
    {
        (max_one(self.host_w) as u32, max_one(self.host_h) as u32)
    }
}

/// Once a decoder is open, nothing reaches it before a keyframe does.
pub proof fn decoding_starts_at_a_keyframe(m: ClientModel, is_keyframe: bool, t: u64, now: u64)
    ensures
        ({
            let open = (ClientModel { await_keyframe: true, ..m }).idr_asked(t);
            open.filtered(is_keyframe, now).1 == Intake::Decode <==> is_keyframe
        }),
{
}

/// Keyframe requests are spaced out: after one goes out, none does until the interval is
/// over, and then one does.
pub proof fn idr_requests_are_spaced(m: ClientModel, t: u64, later: u64)
    requires
        m.idr_allowed(t),
    ensures
        m.idr_asked(t).idr_allowed(later) <==> elapsed(t, later) >= REQUEST_IDR_NS,
{
}

/// Frames never pile up: taking one leaves none waiting, and what is taken is the newest.
pub proof fn the_queue_is_emptied(m: ClientModel, now: u64)
    ensures
        m.taken(now).0.queue.len() == 0,
        m.taken(now).1 matches Some(au) ==> au == m.queue.last(),
        m.taken(now).1 is None <==> m.queue.len() == 0 || m.hopeless(),
{
}

/// On one clock, mapping leaves the distances between capture, encoding and sending alone.
pub proof fn mapping_keeps_distances(t: FrameTimes, recv_us: u64, rtt_us: u32)
    requires
        0 < t.capture_us <= t.encode_done_us <= t.send_us < 0x8000_0000_0000_0000,
        recv_us < 0x8000_0000_0000_0000,
        t.send_us - t.capture_us <= elapsed((rtt_us / 2) as u64, recv_us),
    ensures
        ({
            let m = mapped_times(t, recv_us, rtt_us);
            &&& m.encode_done_us - m.capture_us == t.encode_done_us - t.capture_us
            &&& m.send_us - m.encode_done_us == t.send_us - t.encode_done_us
            &&& m.send_us <= m.recv_us
        }),
{
}

/// Figures of the client since they were last printed.
#[derive(Debug, Clone, Copy, PartialEq, Eq, Structural)]
pub struct ClientStats {
    pub last: u64,
    pub frames: u32,
    pub video_bytes: u64,
    pub decode_us: u64,
    pub decode_max_us: u64,
    pub present_us: u64,
    pub present_max_us: u64,
    pub pump_max_us: u64,
    pub gap_max_us: u64,
}

impl ClientStats {
    pub open spec fn zero(now: u64) -> ClientStats {
        ClientStats {
            last: now,
            frames: 0,
            video_bytes: 0,
            decode_us: 0,
            decode_max_us: 0,
            present_us: 0,
            present_max_us: 0,
            pump_max_us: 0,
            gap_max_us: 0,
        }
    }

    pub open spec fn with_video(self, bytes: u64, gap: Option<u64>) -> ClientStats {
        ClientStats {
            frames: (self.frames + 1) as u32,
            video_bytes: (self.video_bytes + bytes) as u64,
            gap_max_us: match gap {
                Some(g) => longer(self.gap_max_us, g),
                None => self.gap_max_us,
            },
            ..self
        }
    }

    pub open spec fn with_decode(self, us: u64) -> ClientStats {
        ClientStats {
            decode_us: (self.decode_us + us) as u64,
            decode_max_us: longer(self.decode_max_us, us),
            ..self
        }
    }

    pub open spec fn with_present(self, us: u64) -> ClientStats {
        ClientStats {
            present_us: (self.present_us + us) as u64,
            present_max_us: longer(self.present_max_us, us),
            ..self
        }
    }

    pub open spec fn with_pump(self, us: u64) -> ClientStats {
        ClientStats { pump_max_us: longer(self.pump_max_us, us), ..self }
    }

    pub open spec fn is_due(self, now: u64) -> bool {
        elapsed(self.last, now) >= STATS_INTERVAL_NS
    }

    pub fn new(now: u64) -> (r: ClientStats)
        ensures
            r == (ClientStats {
                last: now,
                frames: 0,
                video_bytes: 0,
                decode_us: 0,
                decode_max_us: 0,
                present_us: 0,
                present_max_us: 0,
                pump_max_us: 0,
                gap_max_us: 0,
            }),
            r == ClientStats::zero(now),
    {
        ClientStats {
            last: now,
            frames: 0,
            video_bytes: 0,
            decode_us: 0,
            decode_max_us: 0,
            present_us: 0,
            present_max_us: 0,
            pump_max_us: 0,
            gap_max_us: 0,
        }
    }

    /// Counts a frame of `bytes` encoded bytes that came `gap` microseconds after the last.
    pub fn note_video(&mut self, bytes: u64, gap: Option<u64>)
        requires
            old(self).frames < u32::MAX,
            old(self).video_bytes + bytes <= u64::MAX,
        ensures
            *final(self) == (ClientStats {
                frames: (old(self).frames + 1) as u32,
                video_bytes: (old(self).video_bytes + bytes) as u64,
                gap_max_us: match gap {
                    Some(g) => longer(old(self).gap_max_us, g),
                    None => old(self).gap_max_us,
                },
                ..*old(self)
            }),
            *final(self) == old(self).with_video(bytes, gap),
    {
        self.frames = self.frames + 1;
        self.video_bytes = self.video_bytes + bytes;
        if let Some(g) = gap {
            self.gap_max_us = max_u64(self.gap_max_us, g);
        }
    }

    pub fn note_decode(&mut self, us: u64)
        requires
            old(self).decode_us + us <= u64::MAX,
        ensures
            *final(self) == (ClientStats {
                decode_us: (old(self).decode_us + us) as u64,
                decode_max_us: longer(old(self).decode_max_us, us),
                ..*old(self)
            }),
            *final(self) == old(self).with_decode(us),
    {
        self.decode_us = self.decode_us + us;
        self.decode_max_us = max_u64(self.decode_max_us, us);
    }

    pub fn note_present(&mut self, us: u64)
        requires
            old(self).present_us + us <= u64::MAX,
        ensures
            *final(self) == (ClientStats {
                present_us: (old(self).present_us + us) as u64,
                present_max_us: longer(old(self).present_max_us, us),
                ..*old(self)
            }),
            *final(self) == old(self).with_present(us),
    {
        self.present_us = self.present_us + us;
        self.present_max_us = max_u64(self.present_max_us, us);
    }

    pub fn note_pump(&mut self, us: u64)
        ensures
            *final(self) == (ClientStats {
                pump_max_us: longer(old(self).pump_max_us, us),
                ..*old(self)
            }),
            *final(self) == old(self).with_pump(us),
    {
        self.pump_max_us = max_u64(self.pump_max_us, us);
    }

    /// Whether it is time to print the figures and start over.
    pub fn due(&self, now: u64) -> (r: bool)
        ensures
            r == (elapsed(self.last, now) >= STATS_INTERVAL_NS),
            r == self.is_due(now),
    {
        elapsed_since(self.last, now) >= STATS_INTERVAL_NS
    }
}

/// What a client goes through.
pub enum ClientStep {
    Message { msg: IncomingModel, now: u64 },
    Take { now: u64 },
    Arrive { width: u16, height: u16, now: u64 },
    Opened { opened: bool, now: u64 },
    Missing { is_keyframe: bool, width: u16, height: u16 },
    Intake { is_keyframe: bool, now: u64 },
    Outcome { outcome: DecodeOutcome, now: u64 },
    Counted { now: u64 },
    Again { has_frame: bool, now: u64 },
}

impl ClientModel {
    /// The state after a step.
    pub open spec fn stepped(self, step: ClientStep) -> ClientModel {
        match step {
            ClientStep::Message { msg, now } => self.received(msg, now).0,
            ClientStep::Take { now } => self.taken(now).0,
            ClientStep::Arrive { width, height, now } => self.arrived(width, height, now),
            ClientStep::Opened { opened, now } => self.with_decoder(opened, now).0,
            ClientStep::Missing { is_keyframe, width, height } => self.without_decoder(
                is_keyframe,
                width,
                height,
            ).0,
            ClientStep::Intake { is_keyframe, now } => self.filtered(is_keyframe, now).0,
            ClientStep::Outcome { outcome, now } => self.decoded(outcome, now).0,
            ClientStep::Counted { now } => self.counted(now).0,
            ClientStep::Again { has_frame, now } => self.shown_again(has_frame, now).0,
        }
    }

    /// The state after a run of steps.
    pub open spec fn ran(self, steps: Seq<ClientStep>) -> ClientModel
        decreases steps.len(),
    {
        if steps.len() == 0 {
            self
        } else {
            self.ran(steps.drop_last()).stepped(steps.last())
        }
    }
}

/// Whether decoding fails in a run of steps.
pub open spec fn any_failure(steps: Seq<ClientStep>) -> bool {
    exists|i: int|
        0 <= i < steps.len() && ((#[trigger] steps[i]) matches ClientStep::Outcome {
            outcome: DecodeOutcome::Failed,
            ..
        })
}

proof fn lemma_errors_stand(m: ClientModel, steps: Seq<ClientStep>)
    requires
        !any_failure(steps),
        m.decode_errors == 0,
    ensures
        m.ran(steps).decode_errors == 0,
    decreases steps.len(),
{
    if steps.len() > 0 {
        let head = steps.drop_last();
        assert(!any_failure(head)) by {
            if any_failure(head) {
                let i = choose|i: int|
                    0 <= i < head.len() && ((#[trigger] head[i]) matches ClientStep::Outcome {
                        outcome: DecodeOutcome::Failed,
                        ..
                    });
                assert(steps[i] == head[i]);
            }
        }
        lemma_errors_stand(m, head);
        assert(steps[steps.len() - 1] == steps.last());
    }
}

/// Whatever came before a frame that decoded, and whatever but a failure came after it, the
/// next failure makes frames wait for a keyframe: none but a keyframe reaches the decoder until
/// one does. A keyframe is asked for unless one was less than a quarter of a second ago.
pub proof fn first_failure_waits_for_a_keyframe(
    m: ClientModel,
    t: u64,
    steps: Seq<ClientStep>,
    now: u64,
    later: u64,
)
    requires
        !any_failure(steps),
    ensures
        ({
            let before = m.decoded(DecodeOutcome::Frame, t).0.ran(steps);
            let (failed, ask) = before.decoded(DecodeOutcome::Failed, now);
            &&& failed.await_keyframe
            &&& ask <==> (before.last_idr_req matches Some(p) ==> now >= p + 250_000_000)
            &&& ask ==> failed.last_idr_req == Some(now)
            &&& failed.filtered(false, later).1 is Drop
            &&& failed.filtered(false, later).0.await_keyframe
            &&& failed.filtered(true, later).1 is Decode
            &&& !failed.filtered(true, later).0.await_keyframe
        }),
{
    lemma_errors_stand(m.decoded(DecodeOutcome::Frame, t).0, steps);
}

/// A frame that decodes asks for nothing, and neither it nor one that gives nothing makes
/// frames wait; a failure never ends a wait.
pub proof fn only_failures_make_frames_wait(m: ClientModel, now: u64)
    ensures
        !m.decoded(DecodeOutcome::Frame, now).1,
        m.decoded(DecodeOutcome::Frame, now).0.await_keyframe == m.await_keyframe,
        m.decoded(DecodeOutcome::Frame, now).0.last_idr_req == m.last_idr_req,
        m.decoded(DecodeOutcome::Nothing, now).0.await_keyframe == m.await_keyframe,
        m.await_keyframe ==> m.decoded(DecodeOutcome::Failed, now).0.await_keyframe,
{
}

/// The first frame in a row that gives nothing is let pass; from the second on a keyframe is
/// asked for, unless one was less than a quarter of a second ago.
pub proof fn silence_asks_for_a_keyframe(m: ClientModel, t: u64, u: u64, now: u64)
    ensures
        ({
            let one = m.decoded(DecodeOutcome::Frame, t).0.decoded(DecodeOutcome::Nothing, u);
            let two = one.0.decoded(DecodeOutcome::Nothing, now);
            &&& !one.1
            &&& two.1 <==> (m.last_idr_req matches Some(p) ==> now >= p + 250_000_000)
            &&& two.1 ==> two.0.last_idr_req == Some(now)
        }),
        m.decode_idle >= 1 && m.decode_idle < u64::MAX ==> (m.decoded(
            DecodeOutcome::Nothing,
            now,
        ).1 <==> (m.last_idr_req matches Some(p) ==> now >= p + 250_000_000)),
{
}

/// Of failures in a row, the first and every thirtieth start the wait anew; those between
/// change nothing but the count.
pub proof fn repeated_failures_are_tolerated(m: ClientModel, now: u64)
    requires
        m.decode_errors < u64::MAX,
    ensures
        ({
            let (n, ask) = m.decoded(DecodeOutcome::Failed, now);
            let count = m.decode_errors + 1;
            &&& n.decode_errors == count
            &&& count == 1 || count % 30 == 0 ==> n.await_keyframe && (ask <==> (
            m.last_idr_req matches Some(p) ==> now >= p + 250_000_000))
            &&& !(count == 1 || count % 30 == 0) ==> !ask && n == (ClientModel {
                decode_errors: count as u64,
                ..m
            })
        }),
{
}

/// What waits passes nothing but a keyframe, and asks for one; what does not wait passes
/// everything and changes nothing.
pub proof fn waiting_ends_with_a_keyframe(m: ClientModel, is_keyframe: bool, now: u64)
    ensures
        m.await_keyframe && !is_keyframe ==> m.filtered(is_keyframe, now).0.await_keyframe
            && m.filtered(is_keyframe, now).1 == (Intake::Drop {
            send_idr: m.last_idr_req matches Some(p) ==> now >= p + 250_000_000,
        }),
        m.await_keyframe && is_keyframe ==> m.filtered(is_keyframe, now) == (
            ClientModel { await_keyframe: false, ..m },
            Intake::Decode,
        ),
        !m.await_keyframe ==> m.filtered(is_keyframe, now) == (m, Intake::Decode),
{
}

/// A keyframe request goes out unless one did less than a quarter of a second ago, and only
/// what goes out is remembered.
pub proof fn keyframe_requests_are_rationed(m: ClientModel, now: u64)
    ensures
        ({
            let free = m.last_idr_req matches Some(p) ==> now >= p + 250_000_000;
            let (n, action) = m.received(IncomingModel::NeedIdr, now);
            &&& m.idr_allowed(now) == free
            &&& free ==> action == ClientActionModel::SendIdr && n == (ClientModel {
                last_idr_req: Some(now),
                ..m
            })
            &&& !free ==> action == ClientActionModel::Nothing && n == m
        }),
{
}

/// A decoder that opens waits for a keyframe and asks for one as far as that is allowed; one
/// that does not changes nothing.
pub proof fn opened_decoders_wait(m: ClientModel, now: u64)
    ensures
        m.with_decoder(true, now).0.await_keyframe,
        m.with_decoder(true, now).1 <==> (m.last_idr_req matches Some(p) ==> now >= p
            + 250_000_000),
        m.with_decoder(true, now).1 ==> m.with_decoder(true, now).0.last_idr_req == Some(now),
        !m.with_decoder(true, now).1 ==> m.with_decoder(true, now).0.last_idr_req
            == m.last_idr_req,
        m.with_decoder(false, now) == (m, false),
{
}

/// What the host sends is what the client gets: a video message joins the queue behind the
/// others, an audio message is played, and an accepted format opens a decoder of its chroma and
/// at its size, which is at least one by one.
#[verifier::spinoff_prover]
#[verifier::rlimit(40)]
pub proof fn messages_are_understood(
    m: ClientModel,
    au: VideoModel,
    pkt: AudioModel,
    format: NegotiatedFormat,
    peer: PeerAddr,
    frame_id: u32,
    keyframe: bool,
    now: u64,
)
    requires
        VideoAccessUnit::valid(au),
        AudioPacket::valid(pkt),
    ensures
        ({
            let payload = VideoAccessUnit::wire(au);
            let channel = Channel::Video;
            m.received(IncomingModel::Datagram { channel, payload, frame_id, keyframe }, now) == (
                ClientModel { queue: m.queue.push(au), ..m },
                ClientActionModel::Nothing,
            )
        }),
        ({
            let payload = AudioPacket::wire(pkt);
            let channel = Channel::Audio;
            m.received(IncomingModel::Datagram { channel, payload, frame_id, keyframe }, now) == (
                m,
                ClientActionModel::Play(pkt),
            )
        }),
        ({
            let payload = ControlMsg::wire(ControlModel::CapsAccept { format });
            let channel = Channel::Control;
            let (n, action) = m.received(
                IncomingModel::Datagram { channel, payload, frame_id, keyframe },
                now,
            );
            &&& action matches ClientActionModel::OpenDecoder { format: f, width, height } && {
                &&& f == format
                &&& width >= 1 && height >= 1
                &&& format.width >= 1 ==> width == format.width
                &&& format.height >= 1 ==> height == format.height
                &&& n.host_w == width && n.host_h == height
            }
            &&& n.queue == m.queue
        }),
        m.received(IncomingModel::Established { peer }, now) == (m, ClientActionModel::Greet),
{
    alone_reads_back::<VideoAccessUnit>(au);
    alone_reads_back::<AudioPacket>(pkt);
    alone_reads_back::<ControlMsg>(ControlModel::CapsAccept { format });
}

/// Of the frames that wait, the newest is decoded and no other. Only where more than three wait
/// and none is a keyframe are they all given up, and a keyframe asked for.
pub proof fn the_newest_frame_is_taken(m: ClientModel, now: u64)
    ensures
        ({
            let (n, au, ask) = m.taken(now);
            let stuck = m.queue.len() > 3 && forall|i: int|
                0 <= i < m.queue.len() ==> !(#[trigger] m.queue[i]).is_keyframe;
            &&& n.queue.len() == 0
            &&& m.queue.len() > 0 && !stuck ==> au == Some(m.queue[m.queue.len() - 1]) && !ask
            &&& m.queue.len() == 0 ==> au is None && !ask
            &&& stuck ==> au is None && (ask <==> (m.last_idr_req matches Some(p) ==> now >= p
                + 250_000_000))
            &&& ask ==> n.last_idr_req == Some(now)
            &&& !ask ==> n.last_idr_req == m.last_idr_req
        }),
{
    if m.queue.len() > 3 {
        if forall|i: int| 0 <= i < m.queue.len() ==> !(#[trigger] m.queue[i]).is_keyframe {
            assert(!has_keyframe(m.queue));
        } else {
            let i = choose|i: int|
                0 <= i < m.queue.len() && (#[trigger] m.queue[i]).is_keyframe;
            assert(m.queue[i].is_keyframe);
            assert(has_keyframe(m.queue));
        }
    }
}

/// The host's size follows the frames that name one.
pub proof fn frames_set_the_size(m: ClientModel, width: u16, height: u16, now: u64)
    ensures
        ({
            let n = m.arrived(width, height, now);
            &&& width > 0 ==> n.host_w == width && n.host_h == height
            &&& width == 0 ==> n.host_w == m.host_w && n.host_h == m.host_h
            &&& n.last_video_at == Some(now)
            &&& n.queue == m.queue && n.await_keyframe == m.await_keyframe
        }),
{
}

/// Times come out on the client's clock: arrival as it was, sending half a round trip before
/// it, and the rest as far from sending as before, down to the origin. A frame that was never
/// stamped as sent keeps its other times.
pub proof fn times_are_on_one_clock(t: FrameTimes, recv_us: u64, rtt_us: u32)
    requires
        t.capture_us <= i64::MAX && t.encode_done_us <= i64::MAX && t.send_us <= i64::MAX,
        recv_us <= i64::MAX,
    ensures
        ({
            let n = mapped_times(t, recv_us, rtt_us);
            let half = (rtt_us / 2) as int;
            &&& n.recv_us == recv_us
            &&& n.decode_done_us == t.decode_done_us && n.present_us == t.present_us
            &&& t.send_us == 0 ==> n.capture_us == t.capture_us && n.encode_done_us
                == t.encode_done_us && n.send_us == 0
            &&& t.send_us > 0 ==> {
                &&& n.send_us == (if recv_us >= half {
                    recv_us - half
                } else {
                    0
                })
                &&& n.capture_us == (if n.send_us + t.capture_us >= t.send_us {
                    n.send_us + t.capture_us - t.send_us
                } else {
                    0
                })
                &&& n.encode_done_us == (if n.send_us + t.encode_done_us >= t.send_us {
                    n.send_us + t.encode_done_us - t.send_us
                } else {
                    0
                })
            }
        }),
{
}

/// A decoder is tried for the chroma that was agreed on first, on the presenter's GPU first
/// where there is one. Only on Windows, and only behind all of those, is 4:2:0 tried instead;
/// nothing else ever is.
pub proof fn decoders_are_tried_in_order(windows: bool, has_gpu: bool, chroma: Chroma)
    ensures
        ({
            let list = attempts(windows, has_gpu, chroma);
            &&& list.len() > 0
            &&& list[0].chroma == chroma
            &&& list[0].on_gpu == (windows && has_gpu)
            &&& forall|i: int|
                0 <= i < list.len() ==> (#[trigger] list[i]).chroma == chroma || (windows
                    && list[i].chroma == Chroma::Yuv420)
            &&& forall|i: int| 0 <= i < list.len() && (#[trigger] list[i]).on_gpu ==> windows && has_gpu
            &&& forall|i: int, j: int|
                0 <= i < j < list.len() ==> (#[trigger] list[i]) != (#[trigger] list[j])
            &&& forall|i: int, j: int|
                0 <= i < j < list.len() && (#[trigger] list[j]).chroma == chroma ==> (
                #[trigger] list[i]).chroma == chroma
            &&& !list[list.len() - 1].on_gpu
            &&& windows ==> list[list.len() - 1].chroma == Chroma::Yuv420
            &&& list.len() == (if windows && has_gpu {
                2int
            } else {
                1
            }) * (if windows && chroma == Chroma::Yuv444 {
                2int
            } else {
                1
            })
        }),
{
}

/// Without a decoder only a keyframe that names a size opens one, of that size; a keyframe
/// without one asks for another. Every such frame is counted.
pub proof fn keyframes_open_decoders(m: ClientModel, is_keyframe: bool, width: u16, height: u16)
    requires
        m.video_without_decoder < u64::MAX,
    ensures
        ({
            let (n, r) = m.without_decoder(is_keyframe, width, height);
            &&& n.video_without_decoder == m.video_without_decoder + 1
            &&& n == (ClientModel { video_without_decoder: n.video_without_decoder, ..m })
            &&& r is Open <==> is_keyframe && width > 0
            &&& r is AskIdr <==> is_keyframe && width == 0
            &&& r matches MissingDecoder::Open { width: w, height: h } ==> w == width && h >= 1 && (
            height >= 1 ==> h == height)
        }),
{
}

/// Congestion is reported every tenth of a second at most, and then at once; each frame
/// counts.
pub proof fn reports_are_paced(m: ClientModel, now: u64, later: u64)
    requires
        m.video_frames < u64::MAX - 1,
        m.last_cong <= now <= later,
    ensures
        ({
            let (n, due) = m.counted(now);
            &&& due <==> now - m.last_cong >= 100_000_000
            &&& n.video_frames == m.video_frames + 1
            &&& due ==> (n.counted(later).1 <==> later - now >= 100_000_000)
            &&& !due ==> (n.counted(later).1 <==> later - m.last_cong >= 100_000_000)
        }),
{
}

/// A frame is shown again once a period since the last time is over, and only where there is
/// one.
pub proof fn repeats_are_paced(m: ClientModel, now: u64, later: u64)
    requires
        m.last_represent <= now <= later,
    ensures
        ({
            let (n, due) = m.shown_again(true, now);
            &&& due <==> now - m.last_represent >= m.represent_interval
            &&& due ==> (n.shown_again(true, later).1 <==> later - now >= m.represent_interval)
            &&& !due ==> n == m
            &&& m.shown_again(false, now) == (m, false)
        }),
{
}

/// Trouble is reported the first time, and then no oftener than every so many times.
pub proof fn reports_are_rare(n: u64, every: u64)
    requires
        every > 1,
    ensures
        reported(1, every) == Some(1u64),
        reported(n, every) matches Some(k) ==> k == n && (n == 1 || n % every == 0),
        n > 0 && n % every == 0 ==> reported(n, every) == Some(n),
{
}

/// Whether an event must arrive.
pub open spec fn must_arrive(ev: InputEvent) -> bool {
    !ev.moves()
}

/// Clicks, wheel turns and keys must arrive; moves need not.
pub proof fn only_moves_may_be_lost(ev: InputEvent)
    ensures
        must_arrive(ev) <==> ev is MouseButton || ev is MouseWheel || ev is Key,
        ev.moves() <==> ev is MouseMoveAbs || ev is MouseMoveRel,
{
}

/// A session starts with the size of a common screen, waiting for nothing, with nothing counted
/// and nothing in its queue, and presents as many frames a second as it is told to.
pub proof fn clients_start_afresh(target_fps: u32, now: u64)
    ensures
        ({
            let m = ClientModel::start(target_fps, now);
            &&& m.host_w == 1920 && m.host_h == 1080
            &&& !m.await_keyframe && m.queue.len() == 0
            &&& m.video_frames == 0 && m.video_without_decoder == 0
            &&& m.decode_idle == 0 && m.decode_errors == 0
            &&& m.last_video_at is None && m.last_idr_req is None
            &&& m.last_cong == now && m.last_represent == now
            &&& target_fps > 0 ==> m.represent_interval * target_fps <= 1_000_000_000 < (
            m.represent_interval + 1) * target_fps
            &&& target_fps == 0 ==> m.represent_interval == 1_000_000_000
        }),
{
    if target_fps > 0 {
        let (n, s) = (1_000_000_000int, target_fps as int);
        vstd::arithmetic::div_mod::lemma_fundamental_div_mod(n, s);
        vstd::arithmetic::div_mod::lemma_mod_bound(n, s);
        let q = n / s;
        assert(q * s <= n < (q + 1) * s && 0 <= q <= n) by (nonlinear_arith)
            requires
                n == s * q + n % s,
                0 <= n % s < s,
                n >= 0,
        ;
    }
}

/// What is presented has the host's size, and is never without width or height.
pub proof fn presentation_has_the_hosts_size(m: ClientModel)
    ensures
        m.shown_size().0 >= 1 && m.shown_size().1 >= 1,
        m.host_w > 0 ==> m.shown_size().0 == m.host_w,
        m.host_h > 0 ==> m.shown_size().1 == m.host_h,
        m.host_w == 0 ==> m.shown_size().0 == 1,
        m.host_h == 0 ==> m.shown_size().1 == 1,
{
}

/// Figures add up and keep the largest of each kind, each apart from the others; the gap shown
/// is the longest between frames, or the microseconds since the last one where none came. They
/// are printed twice a second.
pub proof fn client_figures_add_up(
    m: ClientModel,
    s: ClientStats,
    a: u64,
    b: u64,
    gap: u64,
    now: u64,
)
    requires
        s.decode_us + a + b <= u64::MAX,
        s.present_us + a + b <= u64::MAX,
        s.video_bytes + a + b <= u64::MAX,
        s.frames < u32::MAX - 1,
    ensures
        ({
            let n = s.with_decode(a).with_decode(b);
            &&& n.decode_us == s.decode_us + a + b
            &&& n.decode_max_us >= a && n.decode_max_us >= b && n.decode_max_us >= s.decode_max_us
            &&& n.decode_max_us == a || n.decode_max_us == b || n.decode_max_us == s.decode_max_us
            &&& n == (ClientStats {
                decode_us: n.decode_us,
                decode_max_us: n.decode_max_us,
                ..s
            })
        }),
        ({
            let n = s.with_present(a).with_present(b);
            &&& n.present_us == s.present_us + a + b
            &&& n.present_max_us >= a && n.present_max_us >= b && n.present_max_us
                >= s.present_max_us
            &&& n.present_max_us == a || n.present_max_us == b || n.present_max_us
                == s.present_max_us
            &&& n == (ClientStats {
                present_us: n.present_us,
                present_max_us: n.present_max_us,
                ..s
            })
        }),
        ({
            let n = s.with_video(a, Some(gap)).with_video(b, None);
            &&& n.video_bytes == s.video_bytes + a + b && n.frames == s.frames + 2
            &&& n.gap_max_us >= gap && n.gap_max_us >= s.gap_max_us && (n.gap_max_us == gap
                || n.gap_max_us == s.gap_max_us)
            &&& n == (ClientStats {
                frames: n.frames,
                video_bytes: n.video_bytes,
                gap_max_us: n.gap_max_us,
                ..s
            })
            &&& m.shown_gap(n, now) == n.gap_max_us
        }),
        ({
            let n = s.with_pump(a);
            &&& n.pump_max_us >= a && n.pump_max_us >= s.pump_max_us && (n.pump_max_us == a
                || n.pump_max_us == s.pump_max_us)
            &&& n == (ClientStats { pump_max_us: n.pump_max_us, ..s })
        }),
        s.is_due(now) <==> now >= s.last + 500_000_000,
        s.frames == 0 && m.last_video_at is None ==> m.shown_gap(s, now) == 0,
        m.last_video_at matches Some(t) ==> (s.frames == 0 && t <= now ==> {
            let shown = m.shown_gap(s, now);
            1000 * shown <= now - t < 1000 * shown + 1000
        }),
        ({
            let z = ClientStats::zero(now);
            &&& z.last == now && z.frames == 0 && z.video_bytes == 0 && z.decode_us == 0
            &&& z.decode_max_us == 0 && z.present_us == 0 && z.present_max_us == 0
            &&& z.pump_max_us == 0 && z.gap_max_us == 0
        }),
{
}

/// A frame that is taken in keeps all but its times; the gap to the frame before is whole
/// microseconds, and there is none for the first.
pub proof fn frames_are_taken_in_whole(
    m: ClientModel,
    a: VideoModel,
    b: VideoModel,
    recv_us: u64,
    rtt_us: u32,
    t: u64,
    now: u64,
)
    requires
        t <= now,
    ensures
        ({
            let (n, au, gap) = m.taken_in(a, recv_us, rtt_us, t);
            let (_, next, next_gap) = n.taken_in(b, recv_us, rtt_us, now);
            &&& au == (VideoModel { times: au.times, ..a })
            &&& au.times.recv_us == recv_us
            &&& next == (VideoModel { times: next.times, ..b })
            &&& gap is None <==> m.last_video_at is None
            &&& next_gap matches Some(g) && 1000 * g <= now - t < 1000 * g + 1000
            &&& a.width > 0 ==> n.host_w == a.width && n.host_h == a.height
            &&& a.width == 0 ==> n.host_w == m.host_w && n.host_h == m.host_h
        }),
{
}

/// Of frames in a row that find no decoder, or that the decoder gives nothing for, the first is
/// reported and every hundred and twentieth, of those that it fails on the first and every
/// sixtieth; what is reported is their number.
pub proof fn troubles_are_reported_now_and_then(m: ClientModel)
    ensures
        m.report_of_missing() is Some <==> m.video_without_decoder == 1 || m.video_without_decoder
            % 120 == 0,
        m.report_of_missing() matches Some(n) ==> n == m.video_without_decoder,
        m.report_of_idle() is Some <==> m.decode_idle == 1 || m.decode_idle % 120 == 0,
        m.report_of_idle() matches Some(n) ==> n == m.decode_idle,
        m.report_of_failing() is Some <==> m.decode_errors == 1 || m.decode_errors % 60 == 0,
        m.report_of_failing() matches Some(n) ==> n == m.decode_errors,
{
}

/// The size known of the host's screen is that of the last frame that had one.
pub proof fn the_last_frame_gives_the_size(m: ClientModel, w: u16, h: u16, t: u64, now: u64)
    requires
        w > 0,
    ensures
        m.arrived(w, h, t).known_size() == (w, h),
        m.arrived(w, h, t).arrived(0, 0, now).known_size() == (w, h),
        h > 0 ==> m.arrived(w, h, t).shown_size() == (w as u32, h as u32),
{
}

} // verus!
