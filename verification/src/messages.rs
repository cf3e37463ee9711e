//! Logical channels and the messages that travel over them.

use vstd::prelude::*;

use crate::bytes::copy_range;
use crate::caps::{Caps, CapsModel, NegotiatedFormat};
use crate::timing::FrameTimes;

verus! {

/// Logical BUD channels. Video/audio are unreliable. Control is reliable.
/// Input clicks/keys are reliable; mouse moves are sent unreliable (latest-wins).
#[derive(Debug, Clone, Copy, PartialEq, Eq, Hash, Structural)]
pub enum Channel {
    Control,
    Video,
    Audio,
    Input,
}

impl Channel {
    /// The number that stands for the channel on the wire.
    pub open spec fn code(self) -> u8 {
        match self {
            Channel::Control => 0,
            Channel::Video => 1,
            Channel::Audio => 2,
            Channel::Input => 3,
        }
    }

    /// The channel that a wire number stands for.
    pub open spec fn of_code(v: u8) -> Option<Channel> {
        if v == 0 {
            Some(Channel::Control)
        } else if v == 1 {
            Some(Channel::Video)
        } else if v == 2 {
            Some(Channel::Audio)
        } else if v == 3 {
            Some(Channel::Input)
        } else {
            None
        }
    }

    pub fn from_u8(v: u8) -> (r: Option<Channel>)
        ensures
            r == Channel::of_code(v),
    {
        match v {
            0 => Some(Channel::Control),
            1 => Some(Channel::Video),
            2 => Some(Channel::Audio),
            3 => Some(Channel::Input),
            _ => None,
        }
    }

    pub fn to_u8(self) -> (r: u8)
        ensures
            r == self.code(),
    {
        match self {
            Channel::Control => 0,
            Channel::Video => 1,
            Channel::Audio => 2,
            Channel::Input => 3,
        }
    }

    /// Whether all that goes over the channel arrives.
    pub open spec fn assured(self) -> bool {
        self is Control || self is Input
    }

    pub fn is_reliable(self) -> (r: bool)
        ensures
            r == (self is Control || self is Input),
            r == self.assured(),
    {
        match self {
            Channel::Control => true,
            Channel::Input => true,
            _ => false,
        }
    }

    pub fn idx(self) -> (r: usize)
        ensures
            r == self.code(),
            r < 4,
    {
        self.to_u8() as usize
    }
}

/// The wire number and the channel determine each other.
pub proof fn channel_codes_roundtrip(c: Channel, v: u8)
    ensures
        Channel::of_code(c.code()) == Some(c),
        Channel::of_code(v) matches Some(d) ==> d.code() == v,
        Channel::of_code(v) is Some <==> v < 4,
{
}

#[derive(Debug)]
pub enum ControlMsg {
    CapsOffer(Caps),
    CapsAccept { format: NegotiatedFormat },
    RequestIdr,
    Congestion(CongestionReport),
    Bye,
}

/// What a `ControlMsg` says.
#[verifier::ext_equal]
pub enum ControlModel {
    CapsOffer(CapsModel),
    CapsAccept { format: NegotiatedFormat },
    RequestIdr,
    Congestion(CongestionReport),
    Bye,
}

impl View for ControlMsg {
    type V = ControlModel;

    open spec fn view(&self) -> ControlModel {
        match self {
            ControlMsg::CapsOffer(c) => ControlModel::CapsOffer(c@),
            ControlMsg::CapsAccept { format } => ControlModel::CapsAccept { format: *format },
            ControlMsg::RequestIdr => ControlModel::RequestIdr,
            ControlMsg::Congestion(r) => ControlModel::Congestion(*r),
            ControlMsg::Bye => ControlModel::Bye,
        }
    }
}

impl Clone for ControlMsg {
    fn clone(&self) -> (r: ControlMsg)
        ensures
            r@ == self@,
    {
        match self {
            ControlMsg::CapsOffer(c) => ControlMsg::CapsOffer(c.clone()),
            ControlMsg::CapsAccept { format } => ControlMsg::CapsAccept { format: *format },
            ControlMsg::RequestIdr => ControlMsg::RequestIdr,
            ControlMsg::Congestion(r) => ControlMsg::Congestion(*r),
            ControlMsg::Bye => ControlMsg::Bye,
        }
    }
}

#[derive(Debug, Clone, Copy, PartialEq, Eq, Structural)]
pub struct CongestionReport {
    pub rtt_us: u32,
    pub loss_ppm: u32,
    pub suggested_bitrate_bps: u32,
}

/// Encoded access unit. Annex-B HEVC NALUs concatenated.
#[derive(Debug)]
pub struct VideoAccessUnit {
    pub frame_id: u32,
    pub is_keyframe: bool,
    pub width: u16,
    pub height: u16,
    pub times: FrameTimes,
    pub annexb: Vec<u8>,
}

/// What a `VideoAccessUnit` holds.
#[verifier::ext_equal]
pub struct VideoModel {
    pub frame_id: u32,
    pub is_keyframe: bool,
    pub width: u16,
    pub height: u16,
    pub times: FrameTimes,
    pub annexb: Seq<u8>,
}

impl View for VideoAccessUnit {
    type V = VideoModel;

    open spec fn view(&self) -> VideoModel {
        VideoModel {
            frame_id: self.frame_id,
            is_keyframe: self.is_keyframe,
            width: self.width,
            height: self.height,
            times: self.times,
            annexb: self.annexb@,
        }
    }
}

impl Clone for VideoAccessUnit {
    fn clone(&self) -> (r: VideoAccessUnit)
        ensures
            r@ == self@,
    {
        let annexb = copy_range(self.annexb.as_slice(), 0, self.annexb.len());
        assert(annexb@ =~= self.annexb@);
        VideoAccessUnit {
            frame_id: self.frame_id,
            is_keyframe: self.is_keyframe,
            width: self.width,
            height: self.height,
            times: self.times,
            annexb,
        }
    }
}

#[derive(Debug)]
pub struct AudioPacket {
    pub seq: u32,
    pub samples: u16,
    pub opus: Vec<u8>,
}

/// What an `AudioPacket` holds.
#[verifier::ext_equal]
pub struct AudioModel {
    pub seq: u32,
    pub samples: u16,
    pub opus: Seq<u8>,
}

impl View for AudioPacket {
    type V = AudioModel;

    open spec fn view(&self) -> AudioModel {
        AudioModel { seq: self.seq, samples: self.samples, opus: self.opus@ }
    }
}

impl Clone for AudioPacket {
    fn clone(&self) -> (r: AudioPacket)
        ensures
            r@ == self@,
    {
        let opus = copy_range(self.opus.as_slice(), 0, self.opus.len());
        assert(opus@ =~= self.opus@);
        AudioPacket { seq: self.seq, samples: self.samples, opus }
    }
}

#[derive(Debug, Clone, Copy, PartialEq, Eq, Structural)]
pub enum InputEvent {
    MouseMoveAbs { x: u16, y: u16, host_w: u16, host_h: u16 },
    MouseMoveRel { dx: i16, dy: i16 },
    MouseButton { button: u8, down: bool },
    MouseWheel { dx: i16, dy: i16 },
    Key { vk: u16, down: bool, scancode: u16 },
}

impl InputEvent {
    /// Whether the event only moves the pointer.
    pub open spec fn moves(self) -> bool {
        self is MouseMoveAbs || self is MouseMoveRel
    }

    /// Whether the event only moves the pointer.
    pub fn is_move(&self) -> (r: bool)
        ensures
            r == self.moves(),
    {
        match self {
            InputEvent::MouseMoveAbs { .. } => true,
            InputEvent::MouseMoveRel { .. } => true,
            _ => false,
        }
    }
}

/// The channels' numbers.
pub proof fn channels_have_numbers()
    ensures
        Channel::Control.code() == 0,
        Channel::Video.code() == 1,
        Channel::Audio.code() == 2,
        Channel::Input.code() == 3,
{
}

/// Control and input arrive; sound and picture may be lost.
pub proof fn control_and_input_are_assured()
    ensures
        Channel::Control.assured() && Channel::Input.assured(),
        !Channel::Video.assured() && !Channel::Audio.assured(),
{
}

} // verus!
