//! The decisions of a host session: what to do with commands from the network side,
//! when to encode, and which input to inject.

use vstd::prelude::*;

use crate::caps::{
    common, negotiate_with_pref, negotiated, Caps, CapsModel, Chroma, ChromaPref, Codec, CodecCap,
    DecodeBackend, EncodeBackend, NegotiatedFormat, Platform,
};
use crate::codec::{control_fault, control_of, decode_control};
use crate::config::{ConfigModel, SessionConfig};
use crate::congestion::mbps_to_bps;
use crate::encode::EncoderConfig;
use crate::endpoint::{Incoming, IncomingModel};
use crate::messages::{Channel, ControlModel, ControlMsg, InputEvent, VideoAccessUnit, VideoModel};
use crate::timing::{elapsed, elapsed_since, FrameTimes};
use crate::wire::{alone_reads_back, decode, ProtocolError, Wire};

verus! {

/// Content counts as moving this long after it changed, for the bitrate.
pub const MOTION_IDLE_NS: u64 = 300_000_000;

/// Keep encoding briefly after last content change so CBR/ABR averages do not collapse.
pub const MOTION_HOLD_NS: u64 = 200_000_000;

/// Figures are printed this often.
pub const STATS_INTERVAL_NS: u64 = 500_000_000;

/// What the network side hands to the encoding side.
pub enum HostCmd {
    Established,
    CapsOffer(Caps),
    CapsAccept(NegotiatedFormat),
    Bye,
}

#[verifier::ext_equal]
pub enum HostCmdModel {
    Established,
    CapsOffer(CapsModel),
    CapsAccept(NegotiatedFormat),
    Bye,
}

impl View for HostCmd {
    type V = HostCmdModel;

    open spec fn view(&self) -> HostCmdModel {
        match self {
            HostCmd::Established => HostCmdModel::Established,
            HostCmd::CapsOffer(c) => HostCmdModel::CapsOffer(c@),
            HostCmd::CapsAccept(f) => HostCmdModel::CapsAccept(*f),
            HostCmd::Bye => HostCmdModel::Bye,
        }
    }
}

/// Track pressed buttons so we never coalesce moves during a drag (Mac or Windows host).
#[derive(Debug, Clone, Copy, PartialEq, Eq, Structural)]
pub struct HeldMouse {
    pub left: bool,
    pub right: bool,
    pub middle: bool,
}

impl Default for HeldMouse {
    fn default() -> (r: HeldMouse)
        ensures
            r == (HeldMouse { left: false, right: false, middle: false }),
    {
        HeldMouse { left: false, right: false, middle: false }
    }
}

impl HeldMouse {
    pub open spec fn down(self) -> bool {
        self.left || self.right || self.middle
    }

    /// The buttons after an event. Every button past the second counts as the middle one.
    pub open spec fn after(self, ev: InputEvent) -> HeldMouse {
        match ev {
            InputEvent::MouseButton { button, down } => if button == 0 {
                HeldMouse { left: down, ..self }
            } else if button == 1 {
                HeldMouse { right: down, ..self }
            } else {
                HeldMouse { middle: down, ..self }
            },
            _ => self,
        }
    }

    pub fn any_down(&self) -> (r: bool)
        ensures
            r == self.down(),
    {
        self.left || self.right || self.middle
    }

    pub fn note(&mut self, ev: &InputEvent)
        ensures
            *final(self) == old(self).after(*ev),
    {
        if let InputEvent::MouseButton { button, down } = *ev {
            match button {
                0 => {
                    self.left = down;
                },
                1 => {
                    self.right = down;
                },
                _ => {
                    self.middle = down;
                },
            }
        }
    }
}

/// Figures since the last time they were printed.
#[derive(Debug, Clone, Copy, PartialEq, Eq, Structural)]
pub struct HostStats {
    pub last: u64,
    pub frames: u32,
    pub skip: u32,
    pub fresh: u32,
    pub repeat: u32,
    pub encode_us: u64,
    pub encode_max_us: u64,
    pub send_us: u64,
    pub send_max_us: u64,
    pub video_bytes: u64,
}

/// The larger of two durations.
pub open spec fn longer(a: u64, b: u64) -> u64 {
    if a >= b {
        a
    } else {
        b
    }
}

/// The larger of two durations.
pub fn max_u64(a: u64, b: u64) -> (r: u64)
    ensures
        r == longer(a, b),
{
    if a >= b {
        a
    } else {
        b
    }
}

impl HostStats {
    pub open spec fn with_encode(self, us: u64) -> HostStats {
        HostStats {
            encode_us: (self.encode_us + us) as u64,
            encode_max_us: longer(self.encode_max_us, us),
            ..self
        }
    }

    pub open spec fn with_send(self, us: u64) -> HostStats {
        HostStats {
            send_us: (self.send_us + us) as u64,
            send_max_us: longer(self.send_max_us, us),
            ..self
        }
    }

    pub open spec fn with_frame(self, bytes: u64) -> HostStats {
        HostStats {
            frames: (self.frames + 1) as u32,
            video_bytes: (self.video_bytes + bytes) as u64,
            ..self
        }
    }

    pub open spec fn with_step(self, step: FrameStep) -> HostStats {
        match step {
            FrameStep::Idle => self,
            FrameStep::Encode { fresh: true, .. } => HostStats {
                fresh: (self.fresh + 1) as u32,
                ..self
            },
            _ => HostStats { repeat: (self.repeat + 1) as u32, ..self },
        }
    }

    pub open spec fn with_skip(self) -> HostStats {
        HostStats { skip: (self.skip + 1) as u32, ..self }
    }

    pub open spec fn is_due(self, now: u64) -> bool {
        elapsed(self.last, now) >= STATS_INTERVAL_NS
    }

    pub open spec fn zero(now: u64) -> HostStats {
        HostStats {
            last: now,
            frames: 0,
            skip: 0,
            fresh: 0,
            repeat: 0,
            encode_us: 0,
            encode_max_us: 0,
            send_us: 0,
            send_max_us: 0,
            video_bytes: 0,
        }
    }

    pub fn new(now: u64) -> (r: HostStats)
        ensures
            r == HostStats::zero(now),
    {
        HostStats {
            last: now,
            frames: 0,
            skip: 0,
            fresh: 0,
            repeat: 0,
            encode_us: 0,
            encode_max_us: 0,
            send_us: 0,
            send_max_us: 0,
            video_bytes: 0,
        }
    }

    pub fn note_encode(&mut self, us: u64)
        requires
            old(self).encode_us + us <= u64::MAX,
        ensures
            *final(self) == (HostStats {
                encode_us: (old(self).encode_us + us) as u64,
                encode_max_us: longer(old(self).encode_max_us, us),
                ..*old(self)
            }),
            *final(self) == old(self).with_encode(us),
    {
        self.encode_us = self.encode_us + us;
        self.encode_max_us = max_u64(self.encode_max_us, us);
    }

    pub fn note_send(&mut self, us: u64)
        requires
            old(self).send_us + us <= u64::MAX,
        ensures
            *final(self) == (HostStats {
                send_us: (old(self).send_us + us) as u64,
                send_max_us: longer(old(self).send_max_us, us),
                ..*old(self)
            }),
            *final(self) == old(self).with_send(us),
    {
        self.send_us = self.send_us + us;
        self.send_max_us = max_u64(self.send_max_us, us);
    }

    /// Counts a frame of `bytes` encoded bytes.
    pub fn note_frame(&mut self, bytes: u64)
        requires
            old(self).frames < u32::MAX,
            old(self).video_bytes + bytes <= u64::MAX,
        ensures
            *final(self) == (HostStats {
                frames: (old(self).frames + 1) as u32,
                video_bytes: (old(self).video_bytes + bytes) as u64,
                ..*old(self)
            }),
            *final(self) == old(self).with_frame(bytes),
    {
        self.frames = self.frames + 1;
        self.video_bytes = self.video_bytes + bytes;
    }

    /// Counts a captured frame the way `step` says.
    pub fn note_step(&mut self, step: FrameStep)
        requires
            old(self).fresh < u32::MAX,
            old(self).repeat < u32::MAX,
        ensures
            *final(self) == match step {
                FrameStep::Idle => *old(self),
                FrameStep::Encode { fresh: true, .. } => HostStats {
                    fresh: (old(self).fresh + 1) as u32,
                    ..*old(self)
                },
                _ => HostStats { repeat: (old(self).repeat + 1) as u32, ..*old(self) },
            },
            *final(self) == old(self).with_step(step),
    {
        match step {
            FrameStep::Idle => {},
            FrameStep::Encode { fresh, .. } => if fresh {
                self.fresh = self.fresh + 1;
            } else {
                self.repeat = self.repeat + 1;
            },
            FrameStep::Repeat => {
                self.repeat = self.repeat + 1;
            },
        }
    }

    /// Counts a frame the encoder gave nothing for.
    pub fn note_skip(&mut self)
        requires
            old(self).skip < u32::MAX,
        ensures
            *final(self) == (HostStats { skip: (old(self).skip + 1) as u32, ..*old(self) }),
            *final(self) == old(self).with_skip(),
    {
        self.skip = self.skip + 1;
    }

    /// Whether it is time to print the figures and start over.
    pub fn due(&self, now: u64) -> (r: bool)
        ensures
            r == (elapsed(self.last, now) >= STATS_INTERVAL_NS),
            r == self.is_due(now),
    {
        elapsed_since(self.last, now) >= STATS_INTERVAL_NS
    }
}

/// What a command calls for.
#[derive(Debug, Clone, Copy, PartialEq, Eq, Structural)]
pub struct HostStep {
    /// End the session.
    pub quit: bool,
    /// Tell the client this format.
    pub accept: Option<NegotiatedFormat>,
    /// Close the encoder; the next one is opened for the format then in force.
    pub drop_encoder: bool,
    /// An offer has no format in common with ours. One that is accepted all the same is the
    /// fallback.
    pub no_common: bool,
}

/// What a captured frame calls for.
#[derive(Debug, Clone, Copy, PartialEq, Eq, Structural)]
pub enum FrameStep {
    /// Nothing.
    Idle,
    /// Nothing but to count the frame as repeated.
    Repeat,
    /// Encode it.
    Encode { force_idr: bool, fresh: bool },
}

/// The state of the encoding side.
#[verifier::ext_equal]
pub struct HostModel {
    pub local: CapsModel,
    pub chroma_pref: ChromaPref,
    pub established: bool,
    pub format: Option<NegotiatedFormat>,
    pub force_idr: bool,
    pub frame_id: u32,
    pub last_bps: u32,
    pub last_encode: u64,
    pub last_content: Option<u64>,
    pub frame_interval: u64,
    pub motion_boost_bps: u32,
}

/// Whether a peer may be a Windows machine.
pub open spec fn maybe_windows(p: Platform) -> bool {
    p == Platform::Windows || p == Platform::Unknown
}

/// What is assumed of a Windows client that advertises no decoder: D3D11VA for both
/// chroma formats.
pub open spec fn assumed_decoders() -> Seq<CodecCap> {
    let cap = CodecCap {
        codec: Codec::Hevc,
        chroma: Chroma::Yuv420,
        bit_depth: 8,
        max_width: 3840,
        max_height: 2160,
        encode: None,
        decode: Some(DecodeBackend::D3d11va),
    };
    seq![cap, CodecCap { chroma: Chroma::Yuv444, ..cap }]
}

/// A client's offer, with decoders filled in where it may be a Windows client that lists
/// none.
pub open spec fn completed_offer(remote: CapsModel) -> CapsModel {
    if remote.decode.len() == 0 && maybe_windows(remote.platform) {
        CapsModel { decode: assumed_decoders(), ..remote }
    } else {
        remote
    }
}

/// The low sixteen bits of a size.
pub open spec fn low16(v: u32) -> u16 {
    (v % 0x1_0000) as u16
}

/// A format at the size of the captured screen, where that is known.
pub open spec fn at_size(f: NegotiatedFormat, size: Option<(u32, u32)>) -> NegotiatedFormat {
    match size {
        Some((w, h)) => NegotiatedFormat { width: low16(w), height: low16(h), ..f },
        None => f,
    }
}

/// The format a Mac host falls back on for a Windows client.
pub open spec fn fallback_format(size: Option<(u32, u32)>) -> NegotiatedFormat {
    at_size(
        NegotiatedFormat {
            codec: Codec::Hevc,
            chroma: Chroma::Yuv420,
            bit_depth: 8,
            encode: EncodeBackend::VideoToolbox,
            decode: DecodeBackend::D3d11va,
            width: 1920,
            height: 1080,
        },
        size,
    )
}

/// Whether VideoToolbox can encode 4:2:0 here.
pub open spec fn has_vt_420(encode: Seq<CodecCap>) -> bool {
    exists|i: int|
        0 <= i < encode.len() && (#[trigger] encode[i]).chroma == Chroma::Yuv420
            && encode[i].encode == Some(EncodeBackend::VideoToolbox)
}

impl HostModel {
    pub open spec fn start(local: CapsModel, cfg: ConfigModel, now: u64) -> HostModel {
        HostModel {
            local,
            chroma_pref: cfg.chroma,
            established: false,
            format: None,
            force_idr: true,
            frame_id: 0,
            last_bps: 0,
            last_encode: now,
            last_content: None,
            frame_interval: (1_000_000_000int / (if cfg.target_fps >= 1 {
                cfg.target_fps as int
            } else {
                1
            })) as u64,
            motion_boost_bps: mbps_to_bps(cfg.max_mbps),
        }
    }

    pub open spec fn with_keyframe_due(self) -> HostModel {
        HostModel { force_idr: true, ..self }
    }

    /// The chroma preference for a client: 4:2:0 from a Mac to a Windows machine, the
    /// configured one otherwise.
    pub open spec fn pref_for(self, remote: Platform) -> ChromaPref {
        if self.local.platform == Platform::Macos && maybe_windows(remote) {
            ChromaPref::Yuv420
        } else {
            self.chroma_pref
        }
    }

    /// The format that host and client have in common, if there is any.
    pub open spec fn agreed(self, remote: CapsModel) -> Option<NegotiatedFormat> {
        negotiated(self.local, completed_offer(remote), self.pref_for(remote.platform))
    }

    /// The format offered to a client, if there is any.
    pub open spec fn answer(self, remote: CapsModel, size: Option<(u32, u32)>) -> Option<
        NegotiatedFormat,
    > {
        match self.agreed(remote) {
            Some(f) => Some(at_size(f, size)),
            None => if self.local.platform == Platform::Macos && maybe_windows(remote.platform)
                && has_vt_420(self.local.encode) {
                Some(fallback_format(size))
            } else {
                None
            },
        }
    }

    /// The state with a format in force.
    pub open spec fn with_format(self, f: NegotiatedFormat) -> HostModel {
        HostModel { format: Some(f), last_bps: 0, ..self }
    }

    /// What a command does.
    pub open spec fn commanded(self, cmd: HostCmdModel, size: Option<(u32, u32)>) -> (
        HostModel,
        HostStep,
    ) {
        match cmd {
            HostCmdModel::Established => (
                HostModel {
                    established: true,
                    format: None,
                    force_idr: true,
                    last_bps: 0,
                    ..self
                },
                HostStep { quit: false, accept: None, drop_encoder: true, no_common: false },
            ),
            HostCmdModel::CapsOffer(remote) => match self.answer(remote, size) {
                Some(f) => (
                    self.with_format(f),
                    HostStep {
                        quit: false,
                        accept: Some(f),
                        drop_encoder: true,
                        no_common: self.agreed(remote) is None,
                    },
                ),
                None => (
                    self,
                    HostStep { quit: false, accept: None, drop_encoder: false, no_common: true },
                ),
            },
            HostCmdModel::CapsAccept(f) => (
                self.with_format(f),
                HostStep { quit: false, accept: None, drop_encoder: true, no_common: false },
            ),
            HostCmdModel::Bye => (
                self,
                HostStep { quit: true, accept: None, drop_encoder: false, no_common: false },
            ),
        }
    }

    /// Whether the content changed less than `window` ago.
    pub open spec fn moved_within(self, window: u64, now: u64) -> bool {
        self.last_content matches Some(t) && elapsed(t, now) < window
    }

    /// What a captured frame does. Encode on content change, on request of a keyframe, or
    /// briefly after motion; otherwise pace the repeated frames.
    pub open spec fn framed(self, fresh: bool, now: u64) -> (HostModel, FrameStep) {
        let m = if fresh {
            HostModel { last_content: Some(now), ..self }
        } else {
            self
        };
        if fresh || m.force_idr || m.moved_within(MOTION_HOLD_NS, now) {
            (m, FrameStep::Encode { force_idr: m.force_idr, fresh })
        } else if elapsed(m.last_encode, now) >= m.frame_interval {
            let next = m.last_encode + m.frame_interval;
            (
                HostModel {
                    last_encode: if elapsed(next as u64, now) > m.frame_interval {
                        now
                    } else {
                        next as u64
                    },
                    ..m
                },
                FrameStep::Repeat,
            )
        } else {
            (m, FrameStep::Idle)
        }
    }

    /// The encoder that is called for, if any is.
    pub open spec fn wanted_encoder(
        self,
        has_encoder: bool,
        size: Option<(u32, u32)>,
        bitrate_bps: u32,
    ) -> Option<EncoderConfig> {
        match (self.format, size) {
            (Some(f), Some((width, height))) => if self.established && !has_encoder {
                Some(
                    EncoderConfig {
                        width,
                        height,
                        bitrate_bps,
                        prefer_444: f.chroma == Chroma::Yuv444,
                    },
                )
            } else {
                None
            },
            _ => None,
        }
    }

    /// The state once a frame was encoded at `now`, and the access unit that goes out.
    pub open spec fn encoded(
        self,
        capture_us: u64,
        width: u32,
        height: u32,
        is_keyframe: bool,
        annexb: Seq<u8>,
        encode_us: u64,
        now: u64,
    ) -> (HostModel, VideoModel) {
        let done = (capture_us + encode_us) as u64;
        (
            HostModel {
                force_idr: false,
                last_encode: now,
                frame_id: crate::reliable::after(self.frame_id),
                ..self
            },
            VideoModel {
                frame_id: self.frame_id,
                is_keyframe,
                width: low16(width),
                height: low16(height),
                times: FrameTimes {
                    capture_us,
                    encode_done_us: done,
                    send_us: done,
                    recv_us: 0,
                    decode_done_us: 0,
                    present_us: 0,
                },
                annexb,
            },
        )
    }

    /// The bitrate to set at `now`, if it changes, and the state then.
    pub open spec fn rated(self, cong_bps: u32, now: u64) -> (HostModel, Option<u32>) {
        let bps = self.bitrate(cong_bps, now);
        (
            HostModel { last_bps: bps, ..self },
            if bps == self.last_bps {
                None
            } else {
                Some(bps)
            },
        )
    }

    /// The bitrate to encode at when the link bears `cong_bps`.
    pub open spec fn bitrate(self, cong_bps: u32, now: u64) -> u32 {
        if self.moved_within(MOTION_IDLE_NS, now) && self.motion_boost_bps > cong_bps {
            self.motion_boost_bps
        } else {
            cong_bps
        }
    }
}

/// The encoding side of a host session.
pub struct HostSession {
    local: Caps,
    chroma_pref: ChromaPref,
    established: bool,
    format: Option<NegotiatedFormat>,
    force_idr: bool,
    frame_id: u32,
    last_bps: u32,
    last_encode: u64,
    last_content: Option<u64>,
    frame_interval: u64,
    motion_boost_bps: u32,
}

impl View for HostSession {
    type V = HostModel;

    closed spec fn view(&self) -> HostModel {
        HostModel {
            local: self.local@,
            chroma_pref: self.chroma_pref,
            established: self.established,
            format: self.format,
            force_idr: self.force_idr,
            frame_id: self.frame_id,
            last_bps: self.last_bps,
            last_encode: self.last_encode,
            last_content: self.last_content,
            frame_interval: self.frame_interval,
            motion_boost_bps: self.motion_boost_bps,
        }
    }
}

fn to_low16(v: u32) -> (r: u16)
    ensures
        r == low16(v),
{
    (v % 0x1_0000) as u16
}

fn sized(f: NegotiatedFormat, size: Option<(u32, u32)>) -> (r: NegotiatedFormat)
    ensures
        r == at_size(f, size),
{
    match size {
        Some((w, h)) => {
            let mut g = f;
            g.width = to_low16(w);
            g.height = to_low16(h);
            g
        },
        None => f,
    }
}

/// Host and client have no format in common.
#[derive(Debug, Clone, Copy, PartialEq, Eq, Structural)]
pub struct NoCommonCodec;

/// The negotiated format at the size of the captured screen, where that is known.
pub fn negotiate_with_size(
    local: &Caps,
    remote: &Caps,
    size: Option<(u32, u32)>,
    host_pref: ChromaPref,
) -> (r: Result<NegotiatedFormat, NoCommonCodec>)
    ensures
        match r {
            Ok(f) => negotiated(local@, remote@, host_pref) matches Some(n) && f == at_size(
                n,
                size,
            ),
            Err(_) => negotiated(local@, remote@, host_pref) is None,
        },
        r.is_ok() == sized_agreement(local@, remote@, size, host_pref) is Some,
        r matches Ok(f) ==> sized_agreement(local@, remote@, size, host_pref) == Some(f),
{
    match negotiate_with_pref(local, remote, host_pref) {
        Some(f) => Ok(sized(f, size)),
        None => Err(NoCommonCodec),
    }
}

fn vt_420_listed(encode: &Vec<CodecCap>) -> (r: bool)
    ensures
        r == has_vt_420(encode@),
{
    let mut i: usize = 0;
    while i < encode.len()
        invariant
            i <= encode@.len(),
            forall|j: int|
                0 <= j < i ==> !((#[trigger] encode@[j]).chroma == Chroma::Yuv420
                    && encode@[j].encode == Some(EncodeBackend::VideoToolbox)),
        decreases encode@.len() - i,
    {
        let c = encode[i];
        if c.chroma == Chroma::Yuv420 {
            if let Some(EncodeBackend::VideoToolbox) = c.encode {
                assert(encode@[i as int].encode == Some(EncodeBackend::VideoToolbox));
                return true;
            }
        }
        i = i + 1;
    }
    false
}

impl HostSession {
    /// A session that encodes with `local` capabilities as `cfg` says.
    pub fn new(local: Caps, cfg: &SessionConfig, now: u64) -> (r: HostSession)
        ensures
            r@ == (HostModel {
                local: local@,
                chroma_pref: cfg@.chroma,
                established: false,
                format: None,
                force_idr: true,
                frame_id: 0,
                last_bps: 0,
                last_encode: now,
                last_content: None,
                frame_interval: (1_000_000_000int / (if cfg@.target_fps >= 1 {
                    cfg@.target_fps as int
                } else {
                    1
                })) as u64,
                motion_boost_bps: mbps_to_bps(cfg@.max_mbps),
            }),
            r@ == HostModel::start(local@, cfg@, now),
    {
        let fps: u64 = if cfg.target_fps >= 1 {
            cfg.target_fps as u64
        } else {
            1
        };
        HostSession {
            local,
            chroma_pref: cfg.chroma,
            established: false,
            format: None,
            force_idr: true,
            frame_id: 0,
            last_bps: 0,
            last_encode: now,
            last_content: None,
            frame_interval: 1_000_000_000 / fps,
            motion_boost_bps: cfg.max_bps(),
        }
    }

    pub fn is_established(&self) -> (r: bool)
        ensures
            r == self@.established,
    {
        self.established
    }

    /// A client's offer, with decoders filled in where it lists none.
    pub fn complete_offer(remote: Caps) -> (r: Caps)
        ensures
            r@ == completed_offer(remote@),
    {
        // Older / probe-failed Windows clients sometimes advertise encode only (empty
        // decode). Assume D3D11VA HEVC so Mac→Win can still negotiate.
        if remote.decode.len() == 0 && (remote.platform == Platform::Windows || remote.platform
            == Platform::Unknown) {
            let mut decode: Vec<CodecCap> = Vec::new();
            decode.push(CodecCap::decode(DecodeBackend::D3d11va, Chroma::Yuv420, 3840, 2160));
            decode.push(CodecCap::decode(DecodeBackend::D3d11va, Chroma::Yuv444, 3840, 2160));
            let r = Caps {
                encode: remote.encode,
                decode,
                audio: remote.audio,
                input: remote.input,
                platform: remote.platform,
            };
            assert(r.decode@ =~= assumed_decoders());
            r
        } else {
            remote
        }
    }

    /// Carries out a command. `size` is that of the captured screen, if there is one.
    pub fn on_cmd(&mut self, cmd: HostCmd, size: Option<(u32, u32)>) -> (r: HostStep)
        ensures
            (final(self)@, r) == old(self)@.commanded(cmd@, size),
    {
        match cmd {
            HostCmd::Established => {
                self.established = true;
                self.format = None;
                self.force_idr = true;
                self.last_bps = 0;
                HostStep { quit: false, accept: None, drop_encoder: true, no_common: false }
            },
            HostCmd::CapsOffer(offer) => {
                let remote = HostSession::complete_offer(offer);
                let to_windows = self.local.platform == Platform::Macos && (remote.platform
                    == Platform::Windows || remote.platform == Platform::Unknown);
                // Prefer host SessionConfig chroma; Mac→Win always force 420 (Win 444
                // present is unsafe).
                let pref = if to_windows {
                    ChromaPref::Yuv420
                } else {
                    self.chroma_pref
                };
                let mut no_common = false;
                let fmt = match negotiate_with_size(&self.local, &remote, size, pref) {
                    Ok(f) => f,
                    Err(_) => {
                        // Mac host → Windows client: force HEVC 4:2:0 so a white screen
                        // from empty/corrupt peer decode ads still gets a stream (client
                        // opens from CapsAccept).
                        no_common = true;
                        if !to_windows || !vt_420_listed(&self.local.encode) {
                            return HostStep {
                                quit: false,
                                accept: None,
                                drop_encoder: false,
                                no_common,
                            };
                        }
                        sized(
                            NegotiatedFormat {
                                codec: Codec::Hevc,
                                chroma: Chroma::Yuv420,
                                bit_depth: 8,
                                encode: EncodeBackend::VideoToolbox,
                                decode: DecodeBackend::D3d11va,
                                width: 1920,
                                height: 1080,
                            },
                            size,
                        )
                    },
                };
                self.format = Some(fmt);
                self.last_bps = 0;
                HostStep { quit: false, accept: Some(fmt), drop_encoder: true, no_common }
            },
            HostCmd::CapsAccept(fmt) => {
                self.format = Some(fmt);
                self.last_bps = 0;
                HostStep { quit: false, accept: None, drop_encoder: true, no_common: false }
            },
            HostCmd::Bye => HostStep { quit: true, accept: None, drop_encoder: false, no_common: false },
        }
    }

    /// Makes the next encoded frame a keyframe.
    pub fn request_idr(&mut self)
        ensures
            final(self)@ == (HostModel { force_idr: true, ..old(self)@ }),
            final(self)@ == old(self)@.with_keyframe_due(),
    {
        self.force_idr = true;
    }

    /// How to open an encoder, when one is called for: in an established session with a
    /// format in force and a screen to capture.
    pub fn encoder_wanted(&self, has_encoder: bool, size: Option<(u32, u32)>, bitrate_bps: u32) -> (r:
        Option<EncoderConfig>)
        ensures
            r == self@.wanted_encoder(has_encoder, size, bitrate_bps),
            r == (if self@.established && !has_encoder && size is Some && self@.format is Some {
                Some(
                    EncoderConfig {
                        width: (size->0).0,
                        height: (size->0).1,
                        bitrate_bps,
                        prefer_444: (self@.format->0).chroma == Chroma::Yuv444,
                    },
                )
            } else {
                None::<EncoderConfig>
            }),
    {
        if !self.established || has_encoder {
            return None;
        }
        match (size, self.format) {
            (Some((width, height)), Some(fmt)) => Some(
                EncoderConfig {
                    width,
                    height,
                    bitrate_bps,
                    prefer_444: fmt.chroma == Chroma::Yuv444,
                },
            ),
            _ => None,
        }
    }

    fn moved(&self, window: u64, now: u64) -> (r: bool)
        ensures
            r == self@.moved_within(window, now),
    {
        match self.last_content {
            Some(t) => elapsed_since(t, now) < window,
            None => false,
        }
    }

    /// What to do with a frame captured at `now`; `fresh` says whether its content
    /// changed.
    pub fn on_frame(&mut self, fresh: bool, now: u64) -> (r: FrameStep)
        ensures
            (final(self)@, r) == old(self)@.framed(fresh, now),
    {
        if fresh {
            self.last_content = Some(now);
        }
        let in_motion = self.moved(MOTION_HOLD_NS, now);
        if fresh || self.force_idr || in_motion {
            return FrameStep::Encode { force_idr: self.force_idr, fresh };
        }
        if elapsed_since(self.last_encode, now) >= self.frame_interval {
            self.last_encode = self.last_encode + self.frame_interval;
            if elapsed_since(self.last_encode, now) > self.frame_interval {
                self.last_encode = now;
            }
            return FrameStep::Repeat;
        }
        FrameStep::Idle
    }

    /// Packs an access unit that was encoded at `now` in `encode_us` microseconds.
    pub fn on_encoded(
        &mut self,
        capture_us: u64,
        width: u32,
        height: u32,
        is_keyframe: bool,
        annexb: Vec<u8>,
        encode_us: u64,
        now: u64,
    ) -> (r: VideoAccessUnit)
        requires
            capture_us + encode_us <= u64::MAX,
        ensures
            (final(self)@, r@) == old(self)@.encoded(
                capture_us,
                width,
                height,
                is_keyframe,
                annexb@,
                encode_us,
                now,
            ),
            r@ == (VideoModel {
                frame_id: old(self)@.frame_id,
                is_keyframe,
                width: low16(width),
                height: low16(height),
                times: FrameTimes {
                    capture_us,
                    encode_done_us: (capture_us + encode_us) as u64,
                    send_us: (capture_us + encode_us) as u64,
                    recv_us: 0,
                    decode_done_us: 0,
                    present_us: 0,
                },
                annexb: annexb@,
            }),
            final(self)@ == (HostModel {
                force_idr: false,
                last_encode: now,
                frame_id: crate::reliable::after(old(self)@.frame_id),
                ..old(self)@
            }),
    {
        self.force_idr = false;
        self.last_encode = now;
        let frame_id: u32 = self.frame_id;
        self.frame_id = if frame_id == u32::MAX {
            0
        } else {
            frame_id + 1
        };
        let mut times = FrameTimes::default();
        times.capture_us = capture_us;
        times.encode_done_us = capture_us + encode_us;
        times.send_us = times.encode_done_us;
        VideoAccessUnit {
            frame_id,
            is_keyframe,
            width: to_low16(width),
            height: to_low16(height),
            times,
            annexb,
        }
    }

    /// The bitrate to set on the encoder, if it changes. While the content moves, the
    /// configured maximum is used even if the link asks for less.
    pub fn next_bitrate(&mut self, cong_bps: u32, now: u64) -> (r: Option<u32>)
        ensures
            (final(self)@, r) == old(self)@.rated(cong_bps, now),
            ({
                let bps = old(self)@.bitrate(cong_bps, now);
                &&& r == if bps == old(self)@.last_bps {
                    None::<u32>
                } else {
                    Some(bps)
                }
                &&& final(self)@ == HostModel { last_bps: bps, ..old(self)@ }
            }),
    {
        let mut bps: u32 = cong_bps;
        if self.moved(MOTION_IDLE_NS, now) && self.motion_boost_bps > cong_bps {
            bps = self.motion_boost_bps;
        }
        if bps != self.last_bps {
            self.last_bps = bps;
            Some(bps)
        } else {
            None
        }
    }
}

/// A fresh frame is always encoded, and so is the first one after a keyframe was asked
/// for.
pub proof fn fresh_frames_are_encoded(m: HostModel, fresh: bool, now: u64)
    requires
        fresh || m.force_idr,
    ensures
        m.framed(fresh, now).1 == (FrameStep::Encode { force_idr: m.force_idr, fresh }),
{
}

/// A Mac never offers a Windows client more than 4:2:0 while it can encode and the client
/// can decode that.
pub proof fn mac_to_windows_stays_on_420(m: HostModel, remote: CapsModel, size: Option<(u32, u32)>)
    requires
        m.local.platform == Platform::Macos,
        maybe_windows(remote.platform),
        crate::caps::shares(m.local.encode, completed_offer(remote).decode, Chroma::Yuv420),
    ensures
        m.answer(remote, size) matches Some(f) && f.chroma == Chroma::Yuv420,
{
    crate::caps::negotiation_succeeds(m.local, completed_offer(remote), ChromaPref::Yuv420);
}

/// What a message from the network calls for on the host.
pub enum NetAction {
    Nothing,
    /// Send our capabilities, ask for a keyframe, and report the session.
    Greet,
    NeedIdr,
    Forward(HostCmd),
    Bitrate(u32),
    /// End the session.
    Quit,
    /// A control message that does not decode.
    BadControl(ProtocolError),
    /// Inject these events, in order.
    Inject(Vec<InputEvent>),
}

#[verifier::ext_equal]
pub enum NetActionModel {
    Nothing,
    Greet,
    NeedIdr,
    Forward(HostCmdModel),
    Bitrate(u32),
    Quit,
    BadControl(ProtocolError),
    Inject(Seq<InputEvent>),
}

impl View for NetAction {
    type V = NetActionModel;

    open spec fn view(&self) -> NetActionModel {
        match self {
            NetAction::Nothing => NetActionModel::Nothing,
            NetAction::Greet => NetActionModel::Greet,
            NetAction::NeedIdr => NetActionModel::NeedIdr,
            NetAction::Forward(c) => NetActionModel::Forward(c@),
            NetAction::Bitrate(b) => NetActionModel::Bitrate(*b),
            NetAction::Quit => NetActionModel::Quit,
            NetAction::BadControl(e) => NetActionModel::BadControl(*e),
            NetAction::Inject(v) => NetActionModel::Inject(v@),
        }
    }
}

/// The input side of a host session. While a button is held, every move must be injected
/// (Mac LeftMouseDragged / Win continuous moves); otherwise only the last move of a batch
/// is, and it waits in `pending` meanwhile.
#[derive(Debug, Clone, Copy, PartialEq, Eq, Structural)]
pub struct HostInput {
    pub held: HeldMouse,
    pub pending: Option<InputEvent>,
}

/// What is injected for a pending move.
pub open spec fn pending_seq(p: Option<InputEvent>) -> Seq<InputEvent> {
    match p {
        Some(e) => seq![e],
        None => Seq::empty(),
    }
}

impl HostInput {
    pub open spec fn start() -> HostInput {
        HostInput {
            held: HeldMouse { left: false, right: false, middle: false },
            pending: None,
        }
    }

    /// What is left at the end of a batch, and the state then.
    pub open spec fn flushed(self) -> (HostInput, Option<InputEvent>) {
        (HostInput { pending: None, ..self }, self.pending)
    }

    /// What an input event does, and what is injected at once.
    pub open spec fn step(self, ev: InputEvent) -> (HostInput, Seq<InputEvent>) {
        if ev.moves() {
            if self.held.down() {
                (self, seq![ev])
            } else {
                (HostInput { pending: Some(ev), ..self }, Seq::empty())
            }
        } else {
            (
                HostInput { held: self.held.after(ev), pending: None },
                pending_seq(self.pending) + seq![ev],
            )
        }
    }

    /// Everything injected for a batch of events, the move left over at its end counted.
    pub open spec fn batch(self, events: Seq<InputEvent>) -> Seq<InputEvent>
        decreases events.len(),
    {
        if events.len() == 0 {
            pending_seq(self.pending)
        } else {
            let s = self.step(events[0]);
            s.1 + s.0.batch(events.skip(1))
        }
    }

    /// What a message does.
    pub open spec fn received(self, msg: IncomingModel) -> (HostInput, NetActionModel) {
        match msg {
            IncomingModel::Established { peer } => (self, NetActionModel::Greet),
            IncomingModel::NeedIdr => (self, NetActionModel::NeedIdr),
            IncomingModel::Datagram { channel, payload, frame_id, keyframe } => match channel {
                Channel::Control => (
                    self,
                    match control_of(payload) {
                        None => NetActionModel::BadControl(
                            ProtocolError::Decode(control_fault(payload)),
                        ),
                        Some(ControlModel::CapsOffer(c)) => NetActionModel::Forward(
                            HostCmdModel::CapsOffer(c),
                        ),
                        Some(ControlModel::CapsAccept { format }) => NetActionModel::Forward(
                            HostCmdModel::CapsAccept(format),
                        ),
                        Some(ControlModel::RequestIdr) => NetActionModel::NeedIdr,
                        Some(ControlModel::Congestion(r)) => NetActionModel::Bitrate(
                            r.suggested_bitrate_bps,
                        ),
                        Some(ControlModel::Bye) => NetActionModel::Quit,
                    },
                ),
                Channel::Input => match InputEvent::parse(payload) {
                    Some((ev, _)) => (
                        self.step(ev).0,
                        NetActionModel::Inject(self.step(ev).1),
                    ),
                    None => (self, NetActionModel::Nothing),
                },
                _ => (self, NetActionModel::Nothing),
            },
        }
    }

    pub fn new() -> (r: HostInput)
        ensures
            r == (HostInput {
                held: HeldMouse { left: false, right: false, middle: false },
                pending: None,
            }),
            r == HostInput::start(),
    {
        HostInput { held: HeldMouse::default(), pending: None }
    }

    /// Takes in an input event. Gives the events to inject at once.
    pub fn on_input(&mut self, ev: InputEvent) -> (r: Vec<InputEvent>)
        ensures
            (*final(self), r@) == old(self).step(ev),
    {
        let mut out: Vec<InputEvent> = Vec::new();
        if ev.is_move() {
            if self.held.any_down() {
                out.push(ev);
                assert(out@ =~= seq![ev]);
            } else {
                self.pending = Some(ev);
                assert(out@ =~= Seq::empty());
            }
        } else {
            if let Some(mv) = self.pending {
                out.push(mv);
            }
            assert(out@ =~= pending_seq(self.pending));
            self.pending = None;
            self.held.note(&ev);
            out.push(ev);
            assert(out@ =~= pending_seq(old(self).pending) + seq![ev]);
        }
        out
    }

    /// Ends a batch of messages. Gives the move that is still to be injected.
    pub fn flush(&mut self) -> (r: Option<InputEvent>)
        ensures
            r == old(self).pending,
            *final(self) == (HostInput { pending: None, ..*old(self) }),
            (*final(self), r) == old(self).flushed(),
    {
        let r = self.pending;
        self.pending = None;
        r
    }

    /// What a message from the network calls for.
    pub fn on_incoming(&mut self, msg: Incoming) -> (r: NetAction)
        ensures
            (*final(self), r@) == old(self).received(msg@),
    {
        match msg {
            Incoming::Established { .. } => NetAction::Greet,
            Incoming::NeedIdr => NetAction::NeedIdr,
            Incoming::Datagram { channel, payload, .. } => match channel {
                Channel::Control => match decode_control(payload.as_slice()) {
                    Ok(ControlMsg::CapsOffer(remote)) => NetAction::Forward(
                        HostCmd::CapsOffer(remote),
                    ),
                    Ok(ControlMsg::CapsAccept { format }) => NetAction::Forward(
                        HostCmd::CapsAccept(format),
                    ),
                    Ok(ControlMsg::RequestIdr) => NetAction::NeedIdr,
                    Ok(ControlMsg::Congestion(r)) => NetAction::Bitrate(r.suggested_bitrate_bps),
                    Ok(ControlMsg::Bye) => NetAction::Quit,
                    Err(e) => NetAction::BadControl(e),
                },
                Channel::Input => match decode::<InputEvent>(payload.as_slice()) {
                    Ok(ev) => NetAction::Inject(self.on_input(ev)),
                    Err(_) => NetAction::Nothing,
                },
                _ => NetAction::Nothing,
            },
        }
    }
}

/// The events of a list that are more than moves.
pub open spec fn beyond_moves(events: Seq<InputEvent>) -> Seq<InputEvent>
    decreases events.len(),
{
    if events.len() == 0 {
        Seq::empty()
    } else if events[0].moves() {
        beyond_moves(events.skip(1))
    } else {
        seq![events[0]] + beyond_moves(events.skip(1))
    }
}

proof fn lemma_beyond_append(a: Seq<InputEvent>, b: Seq<InputEvent>)
    ensures
        beyond_moves(a + b) == beyond_moves(a) + beyond_moves(b),
    decreases a.len(),
{
    if a.len() == 0 {
        assert(a + b =~= b);
        assert(beyond_moves(a) + beyond_moves(b) =~= beyond_moves(b));
    } else {
        lemma_beyond_append(a.skip(1), b);
        assert((a + b).skip(1) =~= a.skip(1) + b);
        assert(beyond_moves(a + b) =~= beyond_moves(a) + beyond_moves(b));
    }
}

/// Whether only a move can be pending.
pub open spec fn pending_moves(h: HostInput) -> bool {
    h.pending matches Some(e) ==> e.moves()
}

/// Clicks, wheel turns and keys all get through, once each and in order, however many
/// moves are dropped between them.
pub proof fn clicks_and_keys_get_through(h: HostInput, events: Seq<InputEvent>)
    requires
        pending_moves(h),
    ensures
        beyond_moves(h.batch(events)) == beyond_moves(events),
    decreases events.len(),
{
    reveal_with_fuel(beyond_moves, 3);
    lemma_pending_beyond(h.pending);
    if events.len() > 0 {
        let ev = events[0];
        let s = h.step(ev);
        clicks_and_keys_get_through(s.0, events.skip(1));
        lemma_beyond_append(s.1, s.0.batch(events.skip(1)));
        assert(seq![ev].skip(1) =~= Seq::empty());
        if !ev.moves() {
            lemma_beyond_append(pending_seq(h.pending), seq![ev]);
            assert(beyond_moves(seq![ev]) =~= seq![ev]);
            assert(beyond_moves(s.1) =~= seq![ev]);
        } else {
            assert(beyond_moves(s.1) =~= Seq::empty());
            assert(beyond_moves(s.1) + beyond_moves(events.skip(1)) =~= beyond_moves(
                events.skip(1),
            ));
        }
    }
}

proof fn lemma_pending_beyond(p: Option<InputEvent>)
    requires
        p matches Some(e) ==> e.moves(),
    ensures
        beyond_moves(pending_seq(p)) == Seq::<InputEvent>::empty(),
{
    reveal_with_fuel(beyond_moves, 2);
    if let Some(e) = p {
        assert(seq![e].skip(1) =~= Seq::empty());
    }
}

/// While a button is held, every move gets through: a batch of moves is injected as it
/// came.
pub proof fn drags_keep_every_move(h: HostInput, events: Seq<InputEvent>)
    requires
        h.held.down(),
        h.pending is None,
        forall|i: int| 0 <= i < events.len() ==> (#[trigger] events[i]).moves(),
    ensures
        h.batch(events) == events,
    decreases events.len(),
{
    if events.len() > 0 {
        assert(events[0].moves());
        assert forall|i: int| 0 <= i < events.skip(1).len() implies (#[trigger] events.skip(
            1,
        )[i]).moves() by {
            assert(events.skip(1)[i] == events[i + 1]);
        }
        drags_keep_every_move(h, events.skip(1));
        assert(seq![events[0]] + events.skip(1) =~= events);
    } else {
        assert(h.batch(events) =~= events);
    }
}

/// With no button held, a batch of moves comes down to the last of them.
pub proof fn moves_come_down_to_the_last(h: HostInput, events: Seq<InputEvent>)
    requires
        !h.held.down(),
        events.len() > 0,
        forall|i: int| 0 <= i < events.len() ==> (#[trigger] events[i]).moves(),
    ensures
        h.batch(events) == seq![events.last()],
    decreases events.len(),
{
    assert(events[0].moves());
    let s = h.step(events[0]);
    if events.len() == 1 {
        assert(events.skip(1) =~= Seq::empty());
        assert(h.batch(events) =~= seq![events[0]]) by {
            reveal_with_fuel(HostInput::batch, 2);
        }
    } else {
        assert forall|i: int| 0 <= i < events.skip(1).len() implies (#[trigger] events.skip(
            1,
        )[i]).moves() by {
            assert(events.skip(1)[i] == events[i + 1]);
        }
        moves_come_down_to_the_last(s.0, events.skip(1));
        assert(h.batch(events) =~= seq![events.last()]);
    }
}

/// An offer is taken as it is, unless it comes from a machine that may run Windows and lists no
/// decoder: then Direct3D decoders for both chroma formats are taken for granted, and nothing
/// else of it changes.
pub proof fn offers_are_completed(remote: CapsModel)
    ensures
        ({
            let c = completed_offer(remote);
            let silent = remote.decode.len() == 0 && remote.platform != Platform::Macos;
            &&& c.encode == remote.encode && c.platform == remote.platform
            &&& c.audio == remote.audio && c.input == remote.input
            &&& !silent ==> c == remote
            &&& silent ==> c.decode.len() == 2 && c.decode[0].chroma == Chroma::Yuv420
                && c.decode[1].chroma == Chroma::Yuv444
            &&& silent ==> forall|i: int|
                0 <= i < 2 ==> (#[trigger] c.decode[i]).decode == Some(DecodeBackend::D3d11va)
                    && c.decode[i].encode is None && c.decode[i].bit_depth == 8
                    && c.decode[i].max_width == 3840 && c.decode[i].max_height == 2160
        }),
{
}

/// An offer is accepted with exactly the configured chroma wherever host and client have it in
/// common; left to itself the host takes 4:4:4, but never from a Mac to a machine that may run
/// Windows, which gets 4:2:0 whatever is configured. The other chroma is accepted only where
/// the first is not in common.
pub proof fn accepted_chroma_is_the_configured_one(
    m: HostModel,
    remote: CapsModel,
    size: Option<(u32, u32)>,
)
    ensures
        ({
            let offer = completed_offer(remote);
            let step = m.commanded(HostCmdModel::CapsOffer(remote), size).1;
            let has_420 = common(m.local.encode, offer.decode, Chroma::Yuv420);
            let has_444 = common(m.local.encode, offer.decode, Chroma::Yuv444);
            let to_windows = m.local.platform == Platform::Macos && remote.platform
                != Platform::Macos;
            let wants_420 = to_windows || m.chroma_pref == ChromaPref::Yuv420;
            &&& wants_420 && has_420 ==> (step.accept matches Some(f) && f.chroma
                == Chroma::Yuv420)
            &&& !wants_420 && has_444 ==> (step.accept matches Some(f) && f.chroma
                == Chroma::Yuv444)
            &&& wants_420 && !has_420 && has_444 ==> (step.accept matches Some(f) && f.chroma
                == Chroma::Yuv444)
            &&& !wants_420 && !has_444 && has_420 ==> (step.accept matches Some(f) && f.chroma
                == Chroma::Yuv420)
            &&& step.no_common <==> !has_420 && !has_444
        }),
{
    let offer = completed_offer(remote);
    let pref = m.pref_for(remote.platform);
    crate::caps::negotiation_succeeds(m.local, offer, pref);
    let r = negotiated(m.local, offer, pref);
    crate::caps::preferences_are_honoured(m.local, offer, pref, r);
    crate::caps::negotiation_pairs_the_first(m.local, offer, pref, r);
    if let Some(f) = r {
        let (i, j) = choose|i: int, j: int|
            {
                &&& 0 <= i < m.local.encode.len() && 0 <= j < offer.decode.len()
                &&& #[trigger] crate::caps::managed_by(m.local.encode[i], offer.decode[j], f)
                &&& forall|k: int, l: int|
                    0 <= k < m.local.encode.len() && 0 <= l < offer.decode.len()
                        && #[trigger] crate::caps::partners(
                        m.local.encode[k],
                        offer.decode[l],
                        f.chroma,
                    ) ==> i < k || (i == k && j <= l)
            };
        assert(crate::caps::partners(m.local.encode[i], offer.decode[j], f.chroma));
        assert(common(m.local.encode, offer.decode, f.chroma));
    }
}

/// What is accepted can be encoded by the host and decoded by the client, and is of the captured
/// screen's size where that is known. With nothing in common nothing is accepted, but that a
/// Mac with a 4:2:0 encoder of its own offers that to a machine that may run Windows, at full
/// HD where the size is not known.
pub proof fn accepted_formats_can_be_used(
    m: HostModel,
    remote: CapsModel,
    size: Option<(u32, u32)>,
)
    ensures
        ({
            let offer = completed_offer(remote);
            let (n, step) = m.commanded(HostCmdModel::CapsOffer(remote), size);
            &&& !step.quit
            &&& step.accept matches Some(f) ==> {
                &&& n.format == Some(f) && step.drop_encoder && n.last_bps == 0
                &&& size matches Some((w, h)) ==> f.width == w % 65536 && f.height == h % 65536
                &&& !step.no_common ==> exists|i: int, j: int|
                    {
                        &&& 0 <= i < m.local.encode.len() && 0 <= j < offer.decode.len()
                        &&& #[trigger] crate::caps::partners(
                            m.local.encode[i],
                            offer.decode[j],
                            f.chroma,
                        )
                        &&& m.local.encode[i].encode == Some(f.encode)
                        &&& offer.decode[j].decode == Some(f.decode)
                        &&& m.local.encode[i].bit_depth == f.bit_depth
                    }
                &&& step.no_common ==> f.chroma == Chroma::Yuv420 && f.bit_depth == 8 && f.encode
                    == EncodeBackend::VideoToolbox && f.decode == DecodeBackend::D3d11va
                &&& step.no_common && size is None ==> f.width == 1920 && f.height == 1080
            }
            &&& step.accept is None ==> n == m && !step.drop_encoder && step.no_common
            &&& step.no_common ==> (step.accept is Some <==> m.local.platform == Platform::Macos
                && remote.platform != Platform::Macos && exists|i: int|
                0 <= i < m.local.encode.len() && (#[trigger] m.local.encode[i]).chroma
                    == Chroma::Yuv420 && m.local.encode[i].encode == Some(
                    EncodeBackend::VideoToolbox,
                ))
        }),
{
    let offer = completed_offer(remote);
    let pref = m.pref_for(remote.platform);
    crate::caps::negotiation_succeeds(m.local, offer, pref);
    let r = negotiated(m.local, offer, pref);
    crate::caps::negotiation_pairs_the_first(m.local, offer, pref, r);
    if let Some(f) = r {
        let (i, j) = choose|i: int, j: int|
            {
                &&& 0 <= i < m.local.encode.len() && 0 <= j < offer.decode.len()
                &&& #[trigger] crate::caps::managed_by(m.local.encode[i], offer.decode[j], f)
                &&& forall|k: int, l: int|
                    0 <= k < m.local.encode.len() && 0 <= l < offer.decode.len()
                        && #[trigger] crate::caps::partners(
                        m.local.encode[k],
                        offer.decode[l],
                        f.chroma,
                    ) ==> i < k || (i == k && j <= l)
            };
        assert(crate::caps::partners(m.local.encode[i], offer.decode[j], f.chroma));
    }
}

/// A new client starts over: no format is in force and no encoder is kept or called for, and
/// the next frame is encoded as a keyframe. A client that names a format gets that one, with a
/// new encoder. Leaving ends the session.
pub proof fn sessions_start_over(
    m: HostModel,
    fmt: NegotiatedFormat,
    size: Option<(u32, u32)>,
    screen: (u32, u32),
    bps: u32,
    fresh: bool,
    now: u64,
)
    ensures
        ({
            let (n, step) = m.commanded(HostCmdModel::Established, size);
            &&& !step.quit && step.accept is None && step.drop_encoder
            &&& n.established && n.format is None
            &&& n.wanted_encoder(false, Some(screen), bps) is None
            &&& n.framed(fresh, now).1 == (FrameStep::Encode { force_idr: true, fresh })
            &&& n.local == m.local && n.chroma_pref == m.chroma_pref
        }),
        ({
            let (n, step) = m.commanded(HostCmdModel::CapsAccept(fmt), size);
            &&& !step.quit && step.accept is None && step.drop_encoder
            &&& n.format == Some(fmt)
            &&& n.established == m.established && n.force_idr == m.force_idr
        }),
        m.commanded(HostCmdModel::Bye, size).1.quit,
        m.commanded(HostCmdModel::Bye, size).0 == m,
{
}

/// An encoder is called for once a session stands and a format is in force, at the screen's
/// size and the link's bitrate, for 4:4:4 exactly if the format is.
pub proof fn encoders_follow_the_format(
    m: HostModel,
    f: NegotiatedFormat,
    screen: (u32, u32),
    bps: u32,
)
    requires
        m.format == Some(f),
        m.established,
    ensures
        m.wanted_encoder(false, Some(screen), bps) matches Some(c) && c.width == screen.0
            && c.height == screen.1 && c.bitrate_bps == bps && (c.prefer_444 <==> f.chroma
            == Chroma::Yuv444),
        m.wanted_encoder(true, Some(screen), bps) is None,
        m.wanted_encoder(false, None, bps) is None,
        (HostModel { established: false, ..m }).wanted_encoder(false, Some(screen), bps) is None,
        (HostModel { format: None, ..m }).wanted_encoder(false, Some(screen), bps) is None,
{
}

/// A keyframe that was asked for is asked of the encoder until a frame is encoded, and not
/// again after that.
pub proof fn keyframes_are_forced_once(
    m: HostModel,
    a: u64,
    w: u32,
    h: u32,
    key: bool,
    annexb: Seq<u8>,
    us: u64,
    t: u64,
    now: u64,
)
    requires
        a + us <= u64::MAX,
    ensures
        ({
            let asked = HostModel { force_idr: true, ..m };
            let waited = asked.framed(false, t).0;
            &&& asked.framed(false, t).1 == (FrameStep::Encode { force_idr: true, fresh: false })
            &&& waited.framed(true, now).1 == (FrameStep::Encode { force_idr: true, fresh: true })
            &&& waited.encoded(a, w, h, key, annexb, us, t).0.framed(true, now).1 == (
                FrameStep::Encode { force_idr: false, fresh: true }
            )
        }),
{
}

/// Frames that go out are numbered one after the other, wrapping at the end, and carry what was
/// captured and encoded: its size, its bytes, whether it is a keyframe, when it was captured,
/// and when it was done.
pub proof fn access_units_carry_the_frame(
    m: HostModel,
    capture_us: u64,
    width: u32,
    height: u32,
    is_keyframe: bool,
    annexb: Seq<u8>,
    encode_us: u64,
    now: u64,
    again: Seq<u8>,
)
    requires
        capture_us + encode_us <= u64::MAX,
        width <= 65535,
        height <= 65535,
    ensures
        ({
            let (n, au) = m.encoded(
                capture_us,
                width,
                height,
                is_keyframe,
                annexb,
                encode_us,
                now,
            );
            let next = n.encoded(
                capture_us,
                width,
                height,
                is_keyframe,
                again,
                encode_us,
                now,
            ).1;
            &&& au.frame_id == m.frame_id
            &&& m.frame_id < u32::MAX ==> next.frame_id == au.frame_id + 1
            &&& m.frame_id == u32::MAX ==> next.frame_id == 0
            &&& au.width == width && au.height == height
            &&& au.is_keyframe == is_keyframe && au.annexb == annexb
            &&& au.times.capture_us == capture_us
            &&& au.times.encode_done_us - au.times.capture_us == encode_us
            &&& au.times.send_us == au.times.encode_done_us
            &&& n.last_encode == now
        }),
{
}

/// For two tenths of a second after the content changed every frame is encoded, changed or not;
/// after that an unchanged one is not, unless a keyframe is asked for.
pub proof fn motion_is_held(m: HostModel, t: u64, now: u64)
    requires
        t <= now,
    ensures
        ({
            let moved = m.framed(true, t).0;
            let (n, step) = moved.framed(false, now);
            &&& moved.last_content == Some(t)
            &&& step is Encode <==> m.force_idr || now - t < 200_000_000
            &&& step matches FrameStep::Encode { force_idr, fresh } ==> force_idr == m.force_idr
                && !fresh
            &&& n.last_content == Some(t) && n.force_idr == m.force_idr
        }),
{
}

/// Unchanged frames that are not encoded count as repeated once a frame period, and never
/// catch up on more than one missed period.
pub proof fn repeats_are_counted_once_a_period(m: HostModel, now: u64, later: u64)
    requires
        m.last_encode <= now <= later,
        !m.force_idr,
        m.last_content is None,
        m.frame_interval > 0,
    ensures
        ({
            let (n, step) = m.framed(false, now);
            let gap = now - m.last_encode;
            &&& step is Repeat <==> gap >= m.frame_interval
            &&& step is Idle <==> gap < m.frame_interval
            &&& step is Idle ==> n == m
            &&& step is Repeat ==> n.last_encode <= now && now - n.last_encode
                <= m.frame_interval
            &&& step is Repeat && gap < 2 * m.frame_interval ==> n.last_encode == m.last_encode
                + m.frame_interval
            &&& step is Repeat && gap > 2 * m.frame_interval ==> n.last_encode == now
        }),
{
}

/// The encoder runs at what the link bears; for three tenths of a second after the content
/// changed at no less than the configured maximum. It is told only when that changes.
pub proof fn bitrate_follows_the_link(m: HostModel, cong_bps: u32, t: u64, now: u64)
    requires
        t <= now,
    ensures
        ({
            let moved = m.framed(true, t).0;
            let bps = moved.bitrate(cong_bps, now);
            let (n, tell) = moved.rated(cong_bps, now);
            &&& now - t >= 300_000_000 ==> bps == cong_bps
            &&& now - t < 300_000_000 && cong_bps >= m.motion_boost_bps ==> bps == cong_bps
            &&& now - t < 300_000_000 && cong_bps < m.motion_boost_bps ==> bps
                == m.motion_boost_bps
            &&& tell is None <==> bps == moved.last_bps
            &&& tell matches Some(b) ==> b == bps
            &&& n.rated(cong_bps, now).1 is None
        }),
        m.last_content is None ==> m.bitrate(cong_bps, now) == cong_bps,
{
}

/// A format is put at the size of the screen, as sixteen bits hold it, and is left alone where
/// that is not known; nothing but the size changes.
pub proof fn formats_take_the_screen_size(f: NegotiatedFormat, w: u32, h: u32)
    ensures
        at_size(f, None) == f,
        ({
            let g = at_size(f, Some((w, h)));
            &&& w <= 65535 ==> g.width == w
            &&& h <= 65535 ==> g.height == h
            &&& g == (NegotiatedFormat { width: g.width, height: g.height, ..f })
        }),
{
}

/// A button counts as held from its press to its release, whatever the others do.
pub proof fn buttons_are_held_until_released(
    h: HeldMouse,
    press: u8,
    other: u8,
    down: bool,
    ev: InputEvent,
)
    requires
        !(ev is MouseButton),
        (if other >= 2 {
            2u8
        } else {
            other
        }) != (if press >= 2 {
            2u8
        } else {
            press
        }),
    ensures
        ({
            let held = h.after(InputEvent::MouseButton { button: press, down: true });
            let let_go = h.after(InputEvent::MouseButton { button: press, down: false });
            &&& held.down()
            &&& held.after(ev) == held
            &&& held.after(InputEvent::MouseButton { button: other, down }).down()
            &&& (HeldMouse { left: false, right: false, middle: false }).after(
                InputEvent::MouseButton { button: press, down: true },
            ).after(InputEvent::MouseButton { button: press, down: false }) == (HeldMouse {
                left: false,
                right: false,
                middle: false,
            })
            &&& let_go.after(InputEvent::MouseButton { button: press, down: true }) == held
        }),
{
}

proof fn lemma_control_heard(
    h: HostInput,
    m: ControlModel,
    caps: CapsModel,
    frame_id: u32,
    keyframe: bool,
)
    requires
        ControlMsg::valid(m),
        Caps::valid(caps),
    ensures
        h.received(
            IncomingModel::Datagram {
                channel: Channel::Control,
                payload: ControlMsg::wire(m),
                frame_id,
                keyframe,
            },
        ) == (
            h,
            match m {
                ControlModel::CapsOffer(c) => NetActionModel::Forward(HostCmdModel::CapsOffer(c)),
                ControlModel::CapsAccept { format } => NetActionModel::Forward(
                    HostCmdModel::CapsAccept(format),
                ),
                ControlModel::RequestIdr => NetActionModel::NeedIdr,
                ControlModel::Congestion(r) => NetActionModel::Bitrate(r.suggested_bitrate_bps),
                ControlModel::Bye => NetActionModel::Quit,
            },
        ),
{
    crate::codec::control_reads_back(m, caps, ChromaPref::Auto);
}

/// What a client sends is what the host acts on: an offer and an accepted format reach the
/// encoding side, a request asks for a keyframe, a report sets the bitrate, leaving ends the
/// session, and an input event is taken in as such.
#[verifier::spinoff_prover]
#[verifier::rlimit(40)]
pub proof fn client_messages_are_understood(
    h: HostInput,
    caps: CapsModel,
    format: NegotiatedFormat,
    report: crate::messages::CongestionReport,
    ev: InputEvent,
    peer: crate::endpoint::PeerAddr,
    frame_id: u32,
    keyframe: bool,
)
    requires
        Caps::valid(caps),
    ensures
        h.received(IncomingModel::Established { peer }) == (h, NetActionModel::Greet),
        h.received(IncomingModel::NeedIdr) == (h, NetActionModel::NeedIdr),
        ({
            let said = |m: ControlModel| h.received(
                IncomingModel::Datagram {
                    channel: Channel::Control,
                    payload: ControlMsg::wire(m),
                    frame_id,
                    keyframe,
                },
            );
            &&& said(ControlModel::CapsOffer(caps)) == (
                h,
                NetActionModel::Forward(HostCmdModel::CapsOffer(caps)),
            )
            &&& said(ControlModel::CapsAccept { format }) == (
                h,
                NetActionModel::Forward(HostCmdModel::CapsAccept(format)),
            )
            &&& said(ControlModel::RequestIdr) == (h, NetActionModel::NeedIdr)
            &&& said(ControlModel::Congestion(report)) == (
                h,
                NetActionModel::Bitrate(report.suggested_bitrate_bps),
            )
            &&& said(ControlModel::Bye) == (h, NetActionModel::Quit)
        }),
        h.received(
            IncomingModel::Datagram {
                channel: Channel::Input,
                payload: InputEvent::wire(ev),
                frame_id,
                keyframe,
            },
        ) == (h.step(ev).0, NetActionModel::Inject(h.step(ev).1)),
{
    lemma_control_heard(h, ControlModel::CapsOffer(caps), caps, frame_id, keyframe);
    lemma_control_heard(h, ControlModel::CapsAccept { format }, caps, frame_id, keyframe);
    lemma_control_heard(h, ControlModel::RequestIdr, caps, frame_id, keyframe);
    lemma_control_heard(h, ControlModel::Congestion(report), caps, frame_id, keyframe);
    lemma_control_heard(h, ControlModel::Bye, caps, frame_id, keyframe);
    alone_reads_back::<InputEvent>(ev);
}

/// A host starts as it is configured: with its capabilities and the chroma that it is set to,
/// as many frames a second, and the upper limit of the bitrate for motion. No client is there,
/// no format is agreed on, and the first frame will be a keyframe.
pub proof fn hosts_start_as_configured(local: CapsModel, cfg: ConfigModel, now: u64)
    ensures
        ({
            let m = HostModel::start(local, cfg, now);
            &&& m.local == local && m.chroma_pref == cfg.chroma
            &&& !m.established && m.format is None && m.force_idr
            &&& m.frame_id == 0 && m.last_bps == 0 && m.last_encode == now && m.last_content is None
            &&& cfg.target_fps > 0 ==> m.frame_interval * cfg.target_fps <= 1_000_000_000 < (
            m.frame_interval + 1) * cfg.target_fps
            &&& cfg.target_fps == 0 ==> m.frame_interval == 1_000_000_000
            &&& cfg.max_mbps <= 4294 ==> m.motion_boost_bps == cfg.max_mbps * 1_000_000
        }),
{
    if cfg.target_fps > 0 {
        let (n, s) = (1_000_000_000int, cfg.target_fps as int);
        vstd::arithmetic::div_mod::lemma_fundamental_div_mod(n, s);
        vstd::arithmetic::div_mod::lemma_mod_bound(n, s);
        let q = n / s;
        assert(q * s <= n < (q + 1) * s && 0 <= q <= n) by (nonlinear_arith)
            requires
                n == s * q + n % s,
                0 <= n % s < s,
                n >= 0,
        ;
    }
}

/// A keyframe that is asked for is the next frame, and nothing else changes.
pub proof fn requested_keyframes_come_next(m: HostModel)
    ensures
        m.with_keyframe_due().force_idr,
        m.force_idr ==> m.with_keyframe_due() == m,
        m.with_keyframe_due().format == m.format,
        m.with_keyframe_due().frame_id == m.frame_id,
        m.with_keyframe_due().established == m.established,
        m.with_keyframe_due().last_encode == m.last_encode,
        m.with_keyframe_due().last_content == m.last_content,
        m.with_keyframe_due().local == m.local,
        m.with_keyframe_due().chroma_pref == m.chroma_pref,
{
}

/// Figures add up and keep the largest of each kind; each frame that is captured counts once,
/// as fresh or as a repeat, unless nothing is done with it. They are printed twice a second.
pub proof fn host_figures_add_up(
    s: HostStats,
    a: u64,
    b: u64,
    fresh: bool,
    force_idr: bool,
    now: u64,
)
    requires
        s.encode_us + a + b <= u64::MAX,
        s.send_us + a + b <= u64::MAX,
        s.video_bytes + a + b <= u64::MAX,
        s.frames < u32::MAX - 1,
        s.fresh < u32::MAX,
        s.repeat < u32::MAX,
        s.skip < u32::MAX,
    ensures
        ({
            let n = s.with_encode(a).with_encode(b);
            &&& n.encode_us == s.encode_us + a + b
            &&& n.encode_max_us >= a && n.encode_max_us >= b && n.encode_max_us >= s.encode_max_us
            &&& n.encode_max_us == a || n.encode_max_us == b || n.encode_max_us == s.encode_max_us
            &&& n == (HostStats {
                encode_us: n.encode_us,
                encode_max_us: n.encode_max_us,
                ..s
            })
        }),
        ({
            let n = s.with_send(a).with_send(b);
            &&& n.send_us == s.send_us + a + b
            &&& n.send_max_us >= a && n.send_max_us >= b && n.send_max_us >= s.send_max_us
            &&& n.send_max_us == a || n.send_max_us == b || n.send_max_us == s.send_max_us
            &&& n == (HostStats { send_us: n.send_us, send_max_us: n.send_max_us, ..s })
        }),
        ({
            let n = s.with_frame(a).with_frame(b);
            &&& n.video_bytes == s.video_bytes + a + b && n.frames == s.frames + 2
            &&& n == (HostStats { frames: n.frames, video_bytes: n.video_bytes, ..s })
        }),
        s.with_step(FrameStep::Idle) == s,
        ({
            let n = s.with_step(FrameStep::Encode { fresh, force_idr });
            &&& n.fresh + n.repeat == s.fresh + s.repeat + 1
            &&& n.fresh == s.fresh + 1 <==> fresh
            &&& n == (HostStats { fresh: n.fresh, repeat: n.repeat, ..s })
        }),
        s.with_step(FrameStep::Repeat).repeat == s.repeat + 1,
        s.with_step(FrameStep::Repeat).fresh == s.fresh,
        s.with_skip() == (HostStats { skip: (s.skip + 1) as u32, ..s }),
        s.is_due(now) <==> now >= s.last + 500_000_000,
        forall|t: u64|
            {
                let z = #[trigger] HostStats::zero(t);
                &&& z.last == t && z.frames == 0 && z.skip == 0 && z.fresh == 0 && z.repeat == 0
                &&& z.encode_us == 0 && z.encode_max_us == 0 && z.send_us == 0 && z.send_max_us == 0
                &&& z.video_bytes == 0
            },
{
}

/// A click, a turn or a key comes right behind the move that precedes it, in whatever state the
/// mouse is: a move that waited is injected first, so that the click lands where it was made.
/// After it no move waits.
pub proof fn clicks_follow_the_last_move(h: HostInput, to: InputEvent, ev: InputEvent)
    requires
        to.moves(),
        !ev.moves(),
        h.held.down() ==> h.pending is None,
    ensures
        ({
            let (a, first) = h.step(to);
            let (b, second) = a.step(ev);
            &&& first + second == seq![to, ev]
            &&& b.pending is None
            &&& b.held == h.held.after(ev)
        }),
        h.step(ev).1.len() > 0 && h.step(ev).1.last() == ev,
        h.pending matches Some(p) ==> h.step(ev).1 == seq![p, ev],
        h.pending is None ==> h.step(ev).1 == seq![ev],
{
    let (a, first) = h.step(to);
    let (b, second) = a.step(ev);
    assert(first + second =~= seq![to, ev]);
    if let Some(p) = h.pending {
        assert(h.step(ev).1 =~= seq![p, ev]);
    } else {
        assert(h.step(ev).1 =~= seq![ev]);
    }
}

/// At the end of a batch the move that waits is handed over, once; the buttons stay as they
/// are. At the start none is held and nothing waits.
pub proof fn waiting_moves_are_handed_over_once(h: HostInput, to: InputEvent)
    requires
        to.moves(),
    ensures
        ({
            let (n, out) = h.flushed();
            &&& out == h.pending && n.pending is None && n.held == h.held
            &&& n.flushed().1 is None
        }),
        !h.held.down() ==> h.step(to).0.flushed().1 == Some(to),
        HostInput::start().flushed().1 is None,
        !HostInput::start().held.down(),
{
}

/// What host and client agree on, at the size of the captured screen.
pub open spec fn sized_agreement(
    local: CapsModel,
    remote: CapsModel,
    size: Option<(u32, u32)>,
    pref: ChromaPref,
) -> Option<NegotiatedFormat> {
    match negotiated(local, remote, pref) {
        Some(f) => Some(at_size(f, size)),
        None => None,
    }
}

/// The size of the screen changes the size of what is agreed on and nothing else of it; without
/// one the agreement stands as it is.
pub proof fn agreements_take_the_screen_size(
    local: CapsModel,
    remote: CapsModel,
    w: u32,
    h: u32,
    pref: ChromaPref,
)
    ensures
        sized_agreement(local, remote, None, pref) == negotiated(local, remote, pref),
        sized_agreement(local, remote, Some((w, h)), pref) is Some <==> negotiated(
            local,
            remote,
            pref,
        ) is Some,
        sized_agreement(local, remote, Some((w, h)), pref) matches Some(f) ==> {
            let n = negotiated(local, remote, pref)->0;
            &&& w < 0x1_0000 ==> f.width == w
            &&& h < 0x1_0000 ==> f.height == h
            &&& f == (NegotiatedFormat { width: f.width, height: f.height, ..n })
        },
{
}

} // verus!
