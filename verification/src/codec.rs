//! The wire format of each message.

use vstd::prelude::*;
use vstd::slice::slice_subrange;

use crate::caps::{
    Caps, CapsModel, Chroma, ChromaPref, Codec, CodecCap, DecodeBackend, EncodeBackend,
    NegotiatedFormat, Platform,
};
use crate::messages::{
    AudioModel, AudioPacket, CongestionReport, ControlModel, ControlMsg, InputEvent, VideoAccessUnit,
    VideoModel,
};
use crate::timing::FrameTimes;
use crate::wire::{
    list_fault, list_reads_back, list_valid, list_wire, models, parse_list, parse_list_bounded, put_list,
    take_list, unvarint, varint, ProtocolError, Wire, WireFault,
};

verus! {

broadcast use vstd::slice::group_slice_axioms;

impl Codec {
    /// The variant's place in the declaration, which stands for it on the wire.
    pub open spec fn index(self) -> u32 {
        match self {
            Codec::Hevc => 0,
        }
    }

    /// The variant at place `i`.
    pub open spec fn of_index(i: u32) -> Option<Codec> {
        if i == 0 {
            Some(Codec::Hevc)
        } else {
            None
        }
    }
}

impl Wire for Codec {
    type M = Codec;

    open spec fn model(&self) -> Codec {
        *self
    }

    open spec fn valid(m: Codec) -> bool {
        true
    }

    open spec fn wire(m: Codec) -> Seq<u8> {
        varint(m.index() as nat)
    }

    open spec fn parse(s: Seq<u8>) -> Option<(Codec, nat)> {
        match u32::parse(s) {
            None => None,
            Some((i, n)) => match Codec::of_index(i) {
                None => None,
                Some(v) => Some((v, n)),
            },
        }
    }

    open spec fn fault(s: Seq<u8>) -> WireFault {
        match u32::parse(s) {
            None => u32::fault(s),
            Some(_) => WireFault::BadVariant,
        }
    }

    proof fn reads_back(m: Codec, rest: Seq<u8>) {
        u32::reads_back(m.index(), rest);
    }

    proof fn parse_bounded(s: Seq<u8>) {
        u32::parse_bounded(s);
    }

    fn put(&self, out: &mut Vec<u8>) {
        let i: u32 = match self {
            Codec::Hevc => 0,
        };
        i.put(out);
    }

    fn take(s: &[u8]) -> (r: Result<(Codec, usize), WireFault>) {
        match u32::take(s) {
            Err(f) => Err(f),
            Ok((i, n)) => if i == 0 {
                Ok((Codec::Hevc, n))
            } else {
                Err(WireFault::BadVariant)
            },
        }
    }
}

impl Chroma {
    /// The variant's place in the declaration, which stands for it on the wire.
    pub open spec fn index(self) -> u32 {
        match self {
            Chroma::Yuv444 => 0,
            Chroma::Yuv420 => 1,
        }
    }

    /// The variant at place `i`.
    pub open spec fn of_index(i: u32) -> Option<Chroma> {
        if i == 0 {
            Some(Chroma::Yuv444)
        } else if i == 1 {
            Some(Chroma::Yuv420)
        } else {
            None
        }
    }
}

impl Wire for Chroma {
    type M = Chroma;

    open spec fn model(&self) -> Chroma {
        *self
    }

    open spec fn valid(m: Chroma) -> bool {
        true
    }

    open spec fn wire(m: Chroma) -> Seq<u8> {
        varint(m.index() as nat)
    }

    open spec fn parse(s: Seq<u8>) -> Option<(Chroma, nat)> {
        match u32::parse(s) {
            None => None,
            Some((i, n)) => match Chroma::of_index(i) {
                None => None,
                Some(v) => Some((v, n)),
            },
        }
    }

    open spec fn fault(s: Seq<u8>) -> WireFault {
        match u32::parse(s) {
            None => u32::fault(s),
            Some(_) => WireFault::BadVariant,
        }
    }

    proof fn reads_back(m: Chroma, rest: Seq<u8>) {
        u32::reads_back(m.index(), rest);
    }

    proof fn parse_bounded(s: Seq<u8>) {
        u32::parse_bounded(s);
    }

    fn put(&self, out: &mut Vec<u8>) {
        let i: u32 = match self {
            Chroma::Yuv444 => 0,
            Chroma::Yuv420 => 1,
        };
        i.put(out);
    }

    fn take(s: &[u8]) -> (r: Result<(Chroma, usize), WireFault>) {
        match u32::take(s) {
            Err(f) => Err(f),
            Ok((i, n)) => if i == 0 {
                Ok((Chroma::Yuv444, n))
            } else if i == 1 {
                Ok((Chroma::Yuv420, n))
            } else {
                Err(WireFault::BadVariant)
            },
        }
    }
}

impl EncodeBackend {
    /// The variant's place in the declaration, which stands for it on the wire.
    pub open spec fn index(self) -> u32 {
        match self {
            EncodeBackend::Nvenc => 0,
            EncodeBackend::Qsv => 1,
            EncodeBackend::VideoToolbox => 2,
        }
    }

    /// The variant at place `i`.
    pub open spec fn of_index(i: u32) -> Option<EncodeBackend> {
        if i == 0 {
            Some(EncodeBackend::Nvenc)
        } else if i == 1 {
            Some(EncodeBackend::Qsv)
        } else if i == 2 {
            Some(EncodeBackend::VideoToolbox)
        } else {
            None
        }
    }
}

impl Wire for EncodeBackend {
    type M = EncodeBackend;

    open spec fn model(&self) -> EncodeBackend {
        *self
    }

    open spec fn valid(m: EncodeBackend) -> bool {
        true
    }

    open spec fn wire(m: EncodeBackend) -> Seq<u8> {
        varint(m.index() as nat)
    }

    open spec fn parse(s: Seq<u8>) -> Option<(EncodeBackend, nat)> {
        match u32::parse(s) {
            None => None,
            Some((i, n)) => match EncodeBackend::of_index(i) {
                None => None,
                Some(v) => Some((v, n)),
            },
        }
    }

    open spec fn fault(s: Seq<u8>) -> WireFault {
        match u32::parse(s) {
            None => u32::fault(s),
            Some(_) => WireFault::BadVariant,
        }
    }

    proof fn reads_back(m: EncodeBackend, rest: Seq<u8>) {
        u32::reads_back(m.index(), rest);
    }

    proof fn parse_bounded(s: Seq<u8>) {
        u32::parse_bounded(s);
    }

    fn put(&self, out: &mut Vec<u8>) {
        let i: u32 = match self {
            EncodeBackend::Nvenc => 0,
            EncodeBackend::Qsv => 1,
            EncodeBackend::VideoToolbox => 2,
        };
        i.put(out);
    }

    fn take(s: &[u8]) -> (r: Result<(EncodeBackend, usize), WireFault>) {
        match u32::take(s) {
            Err(f) => Err(f),
            Ok((i, n)) => if i == 0 {
                Ok((EncodeBackend::Nvenc, n))
            } else if i == 1 {
                Ok((EncodeBackend::Qsv, n))
            } else if i == 2 {
                Ok((EncodeBackend::VideoToolbox, n))
            } else {
                Err(WireFault::BadVariant)
            },
        }
    }
}

impl DecodeBackend {
    /// The variant's place in the declaration, which stands for it on the wire.
    pub open spec fn index(self) -> u32 {
        match self {
            DecodeBackend::Nvdec => 0,
            DecodeBackend::D3d11va => 1,
            DecodeBackend::Qsv => 2,
            DecodeBackend::VideoToolbox => 3,
        }
    }

    /// The variant at place `i`.
    pub open spec fn of_index(i: u32) -> Option<DecodeBackend> {
        if i == 0 {
            Some(DecodeBackend::Nvdec)
        } else if i == 1 {
            Some(DecodeBackend::D3d11va)
        } else if i == 2 {
            Some(DecodeBackend::Qsv)
        } else if i == 3 {
            Some(DecodeBackend::VideoToolbox)
        } else {
            None
        }
    }
}

impl Wire for DecodeBackend {
    type M = DecodeBackend;

    open spec fn model(&self) -> DecodeBackend {
        *self
    }

    open spec fn valid(m: DecodeBackend) -> bool {
        true
    }

    open spec fn wire(m: DecodeBackend) -> Seq<u8> {
        varint(m.index() as nat)
    }

    open spec fn parse(s: Seq<u8>) -> Option<(DecodeBackend, nat)> {
        match u32::parse(s) {
            None => None,
            Some((i, n)) => match DecodeBackend::of_index(i) {
                None => None,
                Some(v) => Some((v, n)),
            },
        }
    }

    open spec fn fault(s: Seq<u8>) -> WireFault {
        match u32::parse(s) {
            None => u32::fault(s),
            Some(_) => WireFault::BadVariant,
        }
    }

    proof fn reads_back(m: DecodeBackend, rest: Seq<u8>) {
        u32::reads_back(m.index(), rest);
    }

    proof fn parse_bounded(s: Seq<u8>) {
        u32::parse_bounded(s);
    }

    fn put(&self, out: &mut Vec<u8>) {
        let i: u32 = match self {
            DecodeBackend::Nvdec => 0,
            DecodeBackend::D3d11va => 1,
            DecodeBackend::Qsv => 2,
            DecodeBackend::VideoToolbox => 3,
        };
        i.put(out);
    }

    fn take(s: &[u8]) -> (r: Result<(DecodeBackend, usize), WireFault>) {
        match u32::take(s) {
            Err(f) => Err(f),
            Ok((i, n)) => if i == 0 {
                Ok((DecodeBackend::Nvdec, n))
            } else if i == 1 {
                Ok((DecodeBackend::D3d11va, n))
            } else if i == 2 {
                Ok((DecodeBackend::Qsv, n))
            } else if i == 3 {
                Ok((DecodeBackend::VideoToolbox, n))
            } else {
                Err(WireFault::BadVariant)
            },
        }
    }
}

impl Platform {
    /// The variant's place in the declaration, which stands for it on the wire.
    pub open spec fn index(self) -> u32 {
        match self {
            Platform::Unknown => 0,
            Platform::Windows => 1,
            Platform::Macos => 2,
        }
    }

    /// The variant at place `i`.
    pub open spec fn of_index(i: u32) -> Option<Platform> {
        if i == 0 {
            Some(Platform::Unknown)
        } else if i == 1 {
            Some(Platform::Windows)
        } else if i == 2 {
            Some(Platform::Macos)
        } else {
            None
        }
    }
}

impl Wire for Platform {
    type M = Platform;

    open spec fn model(&self) -> Platform {
        *self
    }

    open spec fn valid(m: Platform) -> bool {
        true
    }

    open spec fn wire(m: Platform) -> Seq<u8> {
        varint(m.index() as nat)
    }

    open spec fn parse(s: Seq<u8>) -> Option<(Platform, nat)> {
        match u32::parse(s) {
            None => None,
            Some((i, n)) => match Platform::of_index(i) {
                None => None,
                Some(v) => Some((v, n)),
            },
        }
    }

    open spec fn fault(s: Seq<u8>) -> WireFault {
        match u32::parse(s) {
            None => u32::fault(s),
            Some(_) => WireFault::BadVariant,
        }
    }

    proof fn reads_back(m: Platform, rest: Seq<u8>) {
        u32::reads_back(m.index(), rest);
    }

    proof fn parse_bounded(s: Seq<u8>) {
        u32::parse_bounded(s);
    }

    fn put(&self, out: &mut Vec<u8>) {
        let i: u32 = match self {
            Platform::Unknown => 0,
            Platform::Windows => 1,
            Platform::Macos => 2,
        };
        i.put(out);
    }

    fn take(s: &[u8]) -> (r: Result<(Platform, usize), WireFault>) {
        match u32::take(s) {
            Err(f) => Err(f),
            Ok((i, n)) => if i == 0 {
                Ok((Platform::Unknown, n))
            } else if i == 1 {
                Ok((Platform::Windows, n))
            } else if i == 2 {
                Ok((Platform::Macos, n))
            } else {
                Err(WireFault::BadVariant)
            },
        }
    }
}

impl ChromaPref {
    /// The variant's place in the declaration, which stands for it on the wire.
    pub open spec fn index(self) -> u32 {
        match self {
            ChromaPref::Auto => 0,
            ChromaPref::Yuv420 => 1,
            ChromaPref::Yuv444 => 2,
        }
    }

    /// The variant at place `i`.
    pub open spec fn of_index(i: u32) -> Option<ChromaPref> {
        if i == 0 {
            Some(ChromaPref::Auto)
        } else if i == 1 {
            Some(ChromaPref::Yuv420)
        } else if i == 2 {
            Some(ChromaPref::Yuv444)
        } else {
            None
        }
    }
}

impl Wire for ChromaPref {
    type M = ChromaPref;

    open spec fn model(&self) -> ChromaPref {
        *self
    }

    open spec fn valid(m: ChromaPref) -> bool {
        true
    }

    open spec fn wire(m: ChromaPref) -> Seq<u8> {
        varint(m.index() as nat)
    }

    open spec fn parse(s: Seq<u8>) -> Option<(ChromaPref, nat)> {
        match u32::parse(s) {
            None => None,
            Some((i, n)) => match ChromaPref::of_index(i) {
                None => None,
                Some(v) => Some((v, n)),
            },
        }
    }

    open spec fn fault(s: Seq<u8>) -> WireFault {
        match u32::parse(s) {
            None => u32::fault(s),
            Some(_) => WireFault::BadVariant,
        }
    }

    proof fn reads_back(m: ChromaPref, rest: Seq<u8>) {
        u32::reads_back(m.index(), rest);
    }

    proof fn parse_bounded(s: Seq<u8>) {
        u32::parse_bounded(s);
    }

    fn put(&self, out: &mut Vec<u8>) {
        let i: u32 = match self {
            ChromaPref::Auto => 0,
            ChromaPref::Yuv420 => 1,
            ChromaPref::Yuv444 => 2,
        };
        i.put(out);
    }

    fn take(s: &[u8]) -> (r: Result<(ChromaPref, usize), WireFault>) {
        match u32::take(s) {
            Err(f) => Err(f),
            Ok((i, n)) => if i == 0 {
                Ok((ChromaPref::Auto, n))
            } else if i == 1 {
                Ok((ChromaPref::Yuv420, n))
            } else if i == 2 {
                Ok((ChromaPref::Yuv444, n))
            } else {
                Err(WireFault::BadVariant)
            },
        }
    }
}

/// The fields of a capability, in wire order.
pub type CodecCapParts = (Codec, (Chroma, (u8, (u16, (u16, (Option<EncodeBackend>, Option<DecodeBackend>))))));

impl CodecCap {
    /// The fields in the order they are written.
    pub open spec fn parts(m: CodecCap) -> CodecCapParts {
        (m.codec, (m.chroma, (m.bit_depth, (m.max_width, (m.max_height, (m.encode, m.decode))))))
    }

    /// The value with these fields.
    pub open spec fn of_parts(p: CodecCapParts) -> CodecCap {
        let (codec, (chroma, (bit_depth, (max_width, (max_height, (encode, decode)))))) = p;
        CodecCap { codec, chroma, bit_depth, max_width, max_height, encode, decode }
    }
}

impl Wire for CodecCap {
    type M = CodecCap;

    open spec fn model(&self) -> CodecCap {
        *self
    }

    open spec fn valid(m: CodecCap) -> bool {
        true
    }

    open spec fn wire(m: CodecCap) -> Seq<u8> {
        CodecCapParts::wire(CodecCap::parts(m))
    }

    open spec fn parse(s: Seq<u8>) -> Option<(CodecCap, nat)> {
        match CodecCapParts::parse(s) {
            None => None,
            Some((p, n)) => Some((CodecCap::of_parts(p), n)),
        }
    }

    open spec fn fault(s: Seq<u8>) -> WireFault {
        CodecCapParts::fault(s)
    }

    proof fn reads_back(m: CodecCap, rest: Seq<u8>) {
        CodecCapParts::reads_back(CodecCap::parts(m), rest);
    }

    proof fn parse_bounded(s: Seq<u8>) {
        CodecCapParts::parse_bounded(s);
    }

    fn put(&self, out: &mut Vec<u8>) {
        let p: CodecCapParts = (self.codec, (self.chroma, (self.bit_depth, (self.max_width, (self.max_height, (self.encode, self.decode))))));
        p.put(out);
    }

    fn take(s: &[u8]) -> (r: Result<(CodecCap, usize), WireFault>) {
        match CodecCapParts::take(s) {
            Err(f) => Err(f),
            Ok(((codec, (chroma, (bit_depth, (max_width, (max_height, (encode, decode)))))), n)) => Ok((CodecCap { codec, chroma, bit_depth, max_width, max_height, encode, decode }, n)),
        }
    }
}

/// The fields of a format, in wire order.
pub type FormatParts = (Codec, (Chroma, (u8, (EncodeBackend, (DecodeBackend, (u16, u16))))));

impl NegotiatedFormat {
    /// The fields in the order they are written.
    pub open spec fn parts(m: NegotiatedFormat) -> FormatParts {
        (m.codec, (m.chroma, (m.bit_depth, (m.encode, (m.decode, (m.width, m.height))))))
    }

    /// The value with these fields.
    pub open spec fn of_parts(p: FormatParts) -> NegotiatedFormat {
        let (codec, (chroma, (bit_depth, (encode, (decode, (width, height)))))) = p;
        NegotiatedFormat { codec, chroma, bit_depth, encode, decode, width, height }
    }
}

impl Wire for NegotiatedFormat {
    type M = NegotiatedFormat;

    open spec fn model(&self) -> NegotiatedFormat {
        *self
    }

    open spec fn valid(m: NegotiatedFormat) -> bool {
        true
    }

    open spec fn wire(m: NegotiatedFormat) -> Seq<u8> {
        FormatParts::wire(NegotiatedFormat::parts(m))
    }

    open spec fn parse(s: Seq<u8>) -> Option<(NegotiatedFormat, nat)> {
        match FormatParts::parse(s) {
            None => None,
            Some((p, n)) => Some((NegotiatedFormat::of_parts(p), n)),
        }
    }

    open spec fn fault(s: Seq<u8>) -> WireFault {
        FormatParts::fault(s)
    }

    proof fn reads_back(m: NegotiatedFormat, rest: Seq<u8>) {
        FormatParts::reads_back(NegotiatedFormat::parts(m), rest);
    }

    proof fn parse_bounded(s: Seq<u8>) {
        FormatParts::parse_bounded(s);
    }

    fn put(&self, out: &mut Vec<u8>) {
        let p: FormatParts = (self.codec, (self.chroma, (self.bit_depth, (self.encode, (self.decode, (self.width, self.height))))));
        p.put(out);
    }

    fn take(s: &[u8]) -> (r: Result<(NegotiatedFormat, usize), WireFault>) {
        match FormatParts::take(s) {
            Err(f) => Err(f),
            Ok(((codec, (chroma, (bit_depth, (encode, (decode, (width, height)))))), n)) => Ok((NegotiatedFormat { codec, chroma, bit_depth, encode, decode, width, height }, n)),
        }
    }
}

/// The fields of a congestion report, in wire order.
pub type ReportParts = (u32, (u32, u32));

impl CongestionReport {
    /// The fields in the order they are written.
    pub open spec fn parts(m: CongestionReport) -> ReportParts {
        (m.rtt_us, (m.loss_ppm, m.suggested_bitrate_bps))
    }

    /// The value with these fields.
    pub open spec fn of_parts(p: ReportParts) -> CongestionReport {
        let (rtt_us, (loss_ppm, suggested_bitrate_bps)) = p;
        CongestionReport { rtt_us, loss_ppm, suggested_bitrate_bps }
    }
}

impl Wire for CongestionReport {
    type M = CongestionReport;

    open spec fn model(&self) -> CongestionReport {
        *self
    }

    open spec fn valid(m: CongestionReport) -> bool {
        true
    }

    open spec fn wire(m: CongestionReport) -> Seq<u8> {
        ReportParts::wire(CongestionReport::parts(m))
    }

    open spec fn parse(s: Seq<u8>) -> Option<(CongestionReport, nat)> {
        match ReportParts::parse(s) {
            None => None,
            Some((p, n)) => Some((CongestionReport::of_parts(p), n)),
        }
    }

    open spec fn fault(s: Seq<u8>) -> WireFault {
        ReportParts::fault(s)
    }

    proof fn reads_back(m: CongestionReport, rest: Seq<u8>) {
        ReportParts::reads_back(CongestionReport::parts(m), rest);
    }

    proof fn parse_bounded(s: Seq<u8>) {
        ReportParts::parse_bounded(s);
    }

    fn put(&self, out: &mut Vec<u8>) {
        let p: ReportParts = (self.rtt_us, (self.loss_ppm, self.suggested_bitrate_bps));
        p.put(out);
    }

    fn take(s: &[u8]) -> (r: Result<(CongestionReport, usize), WireFault>) {
        match ReportParts::take(s) {
            Err(f) => Err(f),
            Ok(((rtt_us, (loss_ppm, suggested_bitrate_bps)), n)) => Ok((CongestionReport { rtt_us, loss_ppm, suggested_bitrate_bps }, n)),
        }
    }
}

/// The fields of frame timestamps, in wire order.
pub type TimesParts = (u64, (u64, (u64, (u64, (u64, u64)))));

impl FrameTimes {
    /// The fields in the order they are written.
    pub open spec fn parts(m: FrameTimes) -> TimesParts {
        (m.capture_us, (m.encode_done_us, (m.send_us, (m.recv_us, (m.decode_done_us, m.present_us)))))
    }

    /// The value with these fields.
    pub open spec fn of_parts(p: TimesParts) -> FrameTimes {
        let (capture_us, (encode_done_us, (send_us, (recv_us, (decode_done_us, present_us))))) = p;
        FrameTimes { capture_us, encode_done_us, send_us, recv_us, decode_done_us, present_us }
    }
}

impl Wire for FrameTimes {
    type M = FrameTimes;

    open spec fn model(&self) -> FrameTimes {
        *self
    }

    open spec fn valid(m: FrameTimes) -> bool {
        true
    }

    open spec fn wire(m: FrameTimes) -> Seq<u8> {
        TimesParts::wire(FrameTimes::parts(m))
    }

    open spec fn parse(s: Seq<u8>) -> Option<(FrameTimes, nat)> {
        match TimesParts::parse(s) {
            None => None,
            Some((p, n)) => Some((FrameTimes::of_parts(p), n)),
        }
    }

    open spec fn fault(s: Seq<u8>) -> WireFault {
        TimesParts::fault(s)
    }

    proof fn reads_back(m: FrameTimes, rest: Seq<u8>) {
        TimesParts::reads_back(FrameTimes::parts(m), rest);
    }

    proof fn parse_bounded(s: Seq<u8>) {
        TimesParts::parse_bounded(s);
    }

    fn put(&self, out: &mut Vec<u8>) {
        let p: TimesParts = (self.capture_us, (self.encode_done_us, (self.send_us, (self.recv_us, (self.decode_done_us, self.present_us)))));
        p.put(out);
    }

    fn take(s: &[u8]) -> (r: Result<(FrameTimes, usize), WireFault>) {
        match TimesParts::take(s) {
            Err(f) => Err(f),
            Ok(((capture_us, (encode_done_us, (send_us, (recv_us, (decode_done_us, present_us))))), n)) => Ok((FrameTimes { capture_us, encode_done_us, send_us, recv_us, decode_done_us, present_us }, n)),
        }
    }
}

/// A list of capabilities: its length, and the capabilities.
impl Wire for Vec<CodecCap> {
    type M = Seq<CodecCap>;

    open spec fn model(&self) -> Seq<CodecCap> {
        self@
    }

    open spec fn valid(m: Seq<CodecCap>) -> bool {
        list_valid::<CodecCap>(m)
    }

    open spec fn wire(m: Seq<CodecCap>) -> Seq<u8> {
        list_wire::<CodecCap>(m)
    }

    open spec fn parse(s: Seq<u8>) -> Option<(Seq<CodecCap>, nat)> {
        parse_list::<CodecCap>(s)
    }

    open spec fn fault(s: Seq<u8>) -> WireFault {
        list_fault::<CodecCap>(s)
    }

    proof fn reads_back(m: Seq<CodecCap>, rest: Seq<u8>) {
        list_reads_back::<CodecCap>(m, rest);
    }

    proof fn parse_bounded(s: Seq<u8>) {
        parse_list_bounded::<CodecCap>(s);
    }

    fn put(&self, out: &mut Vec<u8>) {
        put_list(self, out);
        assert(models::<CodecCap>(self@) =~= self@);
    }

    fn take(s: &[u8]) -> (r: Result<(Self, usize), WireFault>) {
        let r = take_list::<CodecCap>(s);
        assert(r matches Ok((v, n)) ==> models::<CodecCap>(v@) =~= v@);
        r
    }
}

/// The fields of a capability set, in wire order.
pub type CapsParts = (Vec<CodecCap>, (Vec<CodecCap>, (bool, (bool, Platform))));

impl Wire for Caps {
    type M = CapsModel;

    open spec fn model(&self) -> CapsModel {
        self@
    }

    open spec fn valid(m: CapsModel) -> bool {
        m.encode.len() <= u64::MAX && m.decode.len() <= u64::MAX
    }

    open spec fn wire(m: CapsModel) -> Seq<u8> {
        CapsParts::wire((m.encode, (m.decode, (m.audio, (m.input, m.platform)))))
    }

    open spec fn parse(s: Seq<u8>) -> Option<(CapsModel, nat)> {
        match CapsParts::parse(s) {
            None => None,
            Some(((encode, (decode, (audio, (input, platform)))), n)) => Some(
                (CapsModel { encode, decode, audio, input, platform }, n),
            ),
        }
    }

    open spec fn fault(s: Seq<u8>) -> WireFault {
        CapsParts::fault(s)
    }

    proof fn reads_back(m: CapsModel, rest: Seq<u8>) {
        CapsParts::reads_back((m.encode, (m.decode, (m.audio, (m.input, m.platform)))), rest);
    }

    proof fn parse_bounded(s: Seq<u8>) {
        CapsParts::parse_bounded(s);
    }

    fn put(&self, out: &mut Vec<u8>) {
        let ghost start = out@;
        self.encode.put(out);
        self.decode.put(out);
        let flags: (bool, (bool, Platform)) = (self.audio, (self.input, self.platform));
        flags.put(out);
        assert(out@ =~= start + Self::wire(self.model()));
    }

    fn take(s: &[u8]) -> (r: Result<(Self, usize), WireFault>) {
        match CapsParts::take(s) {
            Err(f) => Err(f),
            Ok(((encode, (decode, (audio, (input, platform)))), n)) => {
                let caps = Caps { encode, decode, audio, input, platform };
                Ok((caps, n))
            },
        }
    }
}

impl Wire for ControlMsg {
    type M = ControlModel;

    open spec fn model(&self) -> ControlModel {
        self@
    }

    open spec fn valid(m: ControlModel) -> bool {
        m matches ControlModel::CapsOffer(c) ==> Caps::valid(c)
    }

    open spec fn wire(m: ControlModel) -> Seq<u8> {
        match m {
            ControlModel::CapsOffer(c) => varint(0) + Caps::wire(c),
            ControlModel::CapsAccept { format } => varint(1) + NegotiatedFormat::wire(format),
            ControlModel::RequestIdr => varint(2),
            ControlModel::Congestion(r) => varint(3) + CongestionReport::wire(r),
            ControlModel::Bye => varint(4),
        }
    }

    open spec fn parse(s: Seq<u8>) -> Option<(ControlModel, nat)> {
        match u32::parse(s) {
            None => None,
            Some((i, n)) => {
                let rest = s.skip(n as int);
                if i == 0 {
                    match Caps::parse(rest) {
                        None => None,
                        Some((c, k)) => Some((ControlModel::CapsOffer(c), n + k)),
                    }
                } else if i == 1 {
                    match NegotiatedFormat::parse(rest) {
                        None => None,
                        Some((format, k)) => Some((ControlModel::CapsAccept { format }, n + k)),
                    }
                } else if i == 2 {
                    Some((ControlModel::RequestIdr, n))
                } else if i == 3 {
                    match CongestionReport::parse(rest) {
                        None => None,
                        Some((r, k)) => Some((ControlModel::Congestion(r), n + k)),
                    }
                } else if i == 4 {
                    Some((ControlModel::Bye, n))
                } else {
                    None
                }
            },
        }
    }

    open spec fn fault(s: Seq<u8>) -> WireFault {
        match u32::parse(s) {
            None => u32::fault(s),
            Some((i, n)) => if i == 0 {
                Caps::fault(s.skip(n as int))
            } else if i == 1 {
                NegotiatedFormat::fault(s.skip(n as int))
            } else if i == 3 {
                CongestionReport::fault(s.skip(n as int))
            } else {
                WireFault::BadVariant
            },
        }
    }

    proof fn reads_back(m: ControlModel, rest: Seq<u8>) {
        let s = Self::wire(m) + rest;
        match m {
            ControlModel::CapsOffer(c) => {
                let tail = Caps::wire(c) + rest;
                u32::reads_back(0, tail);
                assert(s =~= varint(0) + tail);
                assert(s.skip(varint(0).len() as int) =~= tail);
                Caps::reads_back(c, rest);
            },
            ControlModel::CapsAccept { format } => {
                let tail = NegotiatedFormat::wire(format) + rest;
                u32::reads_back(1, tail);
                assert(s =~= varint(1) + tail);
                assert(s.skip(varint(1).len() as int) =~= tail);
                NegotiatedFormat::reads_back(format, rest);
            },
            ControlModel::RequestIdr => {
                u32::reads_back(2, rest);
            },
            ControlModel::Congestion(r) => {
                let tail = CongestionReport::wire(r) + rest;
                u32::reads_back(3, tail);
                assert(s =~= varint(3) + tail);
                assert(s.skip(varint(3).len() as int) =~= tail);
                CongestionReport::reads_back(r, rest);
            },
            ControlModel::Bye => {
                u32::reads_back(4, rest);
            },
        }
    }

    proof fn parse_bounded(s: Seq<u8>) {
        u32::parse_bounded(s);
        if let Some((i, n)) = u32::parse(s) {
            Caps::parse_bounded(s.skip(n as int));
            NegotiatedFormat::parse_bounded(s.skip(n as int));
            CongestionReport::parse_bounded(s.skip(n as int));
        }
    }

    fn put(&self, out: &mut Vec<u8>) {
        let ghost start = out@;
        match self {
            ControlMsg::CapsOffer(c) => {
                0u32.put(out);
                c.put(out);
            },
            ControlMsg::CapsAccept { format } => {
                1u32.put(out);
                format.put(out);
            },
            ControlMsg::RequestIdr => {
                2u32.put(out);
            },
            ControlMsg::Congestion(r) => {
                3u32.put(out);
                r.put(out);
            },
            ControlMsg::Bye => {
                4u32.put(out);
            },
        }
        assert(out@ =~= start + Self::wire(self.model()));
    }

    fn take(s: &[u8]) -> (r: Result<(Self, usize), WireFault>) {
        proof {
            u32::parse_bounded(s@);
        }
        let (i, n) = match u32::take(s) {
            Ok(x) => x,
            Err(f) => {
                return Err(f);
            },
        };
        let rest = slice_subrange(s, n, s.len());
        assert(rest@ =~= s@.skip(n as int));
        proof {
            Caps::parse_bounded(rest@);
            NegotiatedFormat::parse_bounded(rest@);
            CongestionReport::parse_bounded(rest@);
        }
        if i == 0 {
            match Caps::take(rest) {
                Err(f) => Err(f),
                Ok((c, k)) => Ok((ControlMsg::CapsOffer(c), n + k)),
            }
        } else if i == 1 {
            match NegotiatedFormat::take(rest) {
                Err(f) => Err(f),
                Ok((format, k)) => Ok((ControlMsg::CapsAccept { format }, n + k)),
            }
        } else if i == 2 {
            Ok((ControlMsg::RequestIdr, n))
        } else if i == 3 {
            match CongestionReport::take(rest) {
                Err(f) => Err(f),
                Ok((r, k)) => Ok((ControlMsg::Congestion(r), n + k)),
            }
        } else if i == 4 {
            Ok((ControlMsg::Bye, n))
        } else {
            Err(WireFault::BadVariant)
        }
    }
}

/// The fields of an access unit, in wire order.
pub type VideoParts = (u32, (bool, (u16, (u16, (FrameTimes, Vec<u8>)))));

impl Wire for VideoAccessUnit {
    type M = VideoModel;

    open spec fn model(&self) -> VideoModel {
        self@
    }

    open spec fn valid(m: VideoModel) -> bool {
        m.annexb.len() <= u64::MAX
    }

    open spec fn wire(m: VideoModel) -> Seq<u8> {
        VideoParts::wire(
            (m.frame_id, (m.is_keyframe, (m.width, (m.height, (m.times, m.annexb))))),
        )
    }

    open spec fn parse(s: Seq<u8>) -> Option<(VideoModel, nat)> {
        match VideoParts::parse(s) {
            None => None,
            Some(((frame_id, (is_keyframe, (width, (height, (times, annexb))))), n)) => Some(
                (VideoModel { frame_id, is_keyframe, width, height, times, annexb }, n),
            ),
        }
    }

    open spec fn fault(s: Seq<u8>) -> WireFault {
        VideoParts::fault(s)
    }

    proof fn reads_back(m: VideoModel, rest: Seq<u8>) {
        VideoParts::reads_back(
            (m.frame_id, (m.is_keyframe, (m.width, (m.height, (m.times, m.annexb))))),
            rest,
        );
    }

    proof fn parse_bounded(s: Seq<u8>) {
        VideoParts::parse_bounded(s);
    }

    fn put(&self, out: &mut Vec<u8>) {
        let ghost start = out@;
        let head: (u32, (bool, (u16, (u16, FrameTimes)))) = (
            self.frame_id,
            (self.is_keyframe, (self.width, (self.height, self.times))),
        );
        head.put(out);
        self.annexb.put(out);
        assert(out@ =~= start + Self::wire(self.model()));
    }

    fn take(s: &[u8]) -> (r: Result<(Self, usize), WireFault>) {
        match VideoParts::take(s) {
            Err(f) => Err(f),
            Ok(((frame_id, (is_keyframe, (width, (height, (times, annexb))))), n)) => Ok(
                (VideoAccessUnit { frame_id, is_keyframe, width, height, times, annexb }, n),
            ),
        }
    }
}

/// The fields of an audio packet, in wire order.
pub type AudioParts = (u32, (u16, Vec<u8>));

impl Wire for AudioPacket {
    type M = AudioModel;

    open spec fn model(&self) -> AudioModel {
        self@
    }

    open spec fn valid(m: AudioModel) -> bool {
        m.opus.len() <= u64::MAX
    }

    open spec fn wire(m: AudioModel) -> Seq<u8> {
        AudioParts::wire((m.seq, (m.samples, m.opus)))
    }

    open spec fn parse(s: Seq<u8>) -> Option<(AudioModel, nat)> {
        match AudioParts::parse(s) {
            None => None,
            Some(((seq, (samples, opus)), n)) => Some((AudioModel { seq, samples, opus }, n)),
        }
    }

    open spec fn fault(s: Seq<u8>) -> WireFault {
        AudioParts::fault(s)
    }

    proof fn reads_back(m: AudioModel, rest: Seq<u8>) {
        AudioParts::reads_back((m.seq, (m.samples, m.opus)), rest);
    }

    proof fn parse_bounded(s: Seq<u8>) {
        AudioParts::parse_bounded(s);
    }

    fn put(&self, out: &mut Vec<u8>) {
        let ghost start = out@;
        let head: (u32, u16) = (self.seq, self.samples);
        head.put(out);
        self.opus.put(out);
        assert(out@ =~= start + Self::wire(self.model()));
    }

    fn take(s: &[u8]) -> (r: Result<(Self, usize), WireFault>) {
        match AudioParts::take(s) {
            Err(f) => Err(f),
            Ok(((seq, (samples, opus)), n)) => Ok((AudioPacket { seq, samples, opus }, n)),
        }
    }
}

impl Wire for InputEvent {
    type M = InputEvent;

    open spec fn model(&self) -> InputEvent {
        *self
    }

    open spec fn valid(m: InputEvent) -> bool {
        true
    }

    open spec fn wire(m: InputEvent) -> Seq<u8> {
        match m {
            InputEvent::MouseMoveAbs { x, y, host_w, host_h } => varint(0) + <(
                u16,
                (u16, (u16, u16)),
            )>::wire((x, (y, (host_w, host_h)))),
            InputEvent::MouseMoveRel { dx, dy } => varint(1) + <(i16, i16)>::wire((dx, dy)),
            InputEvent::MouseButton { button, down } => varint(2) + <(u8, bool)>::wire(
                (button, down),
            ),
            InputEvent::MouseWheel { dx, dy } => varint(3) + <(i16, i16)>::wire((dx, dy)),
            InputEvent::Key { vk, down, scancode } => varint(4) + <(u16, (bool, u16))>::wire(
                (vk, (down, scancode)),
            ),
        }
    }

    open spec fn parse(s: Seq<u8>) -> Option<(InputEvent, nat)> {
        match u32::parse(s) {
            None => None,
            Some((i, n)) => {
                let rest = s.skip(n as int);
                if i == 0 {
                    match <(u16, (u16, (u16, u16)))>::parse(rest) {
                        None => None,
                        Some(((x, (y, (host_w, host_h))), k)) => Some(
                            (InputEvent::MouseMoveAbs { x, y, host_w, host_h }, n + k),
                        ),
                    }
                } else if i == 1 {
                    match <(i16, i16)>::parse(rest) {
                        None => None,
                        Some(((dx, dy), k)) => Some((InputEvent::MouseMoveRel { dx, dy }, n + k)),
                    }
                } else if i == 2 {
                    match <(u8, bool)>::parse(rest) {
                        None => None,
                        Some(((button, down), k)) => Some(
                            (InputEvent::MouseButton { button, down }, n + k),
                        ),
                    }
                } else if i == 3 {
                    match <(i16, i16)>::parse(rest) {
                        None => None,
                        Some(((dx, dy), k)) => Some((InputEvent::MouseWheel { dx, dy }, n + k)),
                    }
                } else if i == 4 {
                    match <(u16, (bool, u16))>::parse(rest) {
                        None => None,
                        Some(((vk, (down, scancode)), k)) => Some(
                            (InputEvent::Key { vk, down, scancode }, n + k),
                        ),
                    }
                } else {
                    None
                }
            },
        }
    }

    open spec fn fault(s: Seq<u8>) -> WireFault {
        match u32::parse(s) {
            None => u32::fault(s),
            Some((i, n)) => if i == 0 {
                <(u16, (u16, (u16, u16)))>::fault(s.skip(n as int))
            } else if i == 1 || i == 3 {
                <(i16, i16)>::fault(s.skip(n as int))
            } else if i == 2 {
                <(u8, bool)>::fault(s.skip(n as int))
            } else if i == 4 {
                <(u16, (bool, u16))>::fault(s.skip(n as int))
            } else {
                WireFault::BadVariant
            },
        }
    }

    proof fn reads_back(m: InputEvent, rest: Seq<u8>) {
        let s = Self::wire(m) + rest;
        match m {
            InputEvent::MouseMoveAbs { x, y, host_w, host_h } => {
                let v = (x, (y, (host_w, host_h)));
                let tail = <(u16, (u16, (u16, u16)))>::wire(v) + rest;
                u32::reads_back(0, tail);
                assert(s =~= varint(0) + tail);
                assert(s.skip(varint(0).len() as int) =~= tail);
                <(u16, (u16, (u16, u16)))>::reads_back(v, rest);
            },
            InputEvent::MouseMoveRel { dx, dy } => {
                let tail = <(i16, i16)>::wire((dx, dy)) + rest;
                u32::reads_back(1, tail);
                assert(s =~= varint(1) + tail);
                assert(s.skip(varint(1).len() as int) =~= tail);
                <(i16, i16)>::reads_back((dx, dy), rest);
            },
            InputEvent::MouseButton { button, down } => {
                let tail = <(u8, bool)>::wire((button, down)) + rest;
                u32::reads_back(2, tail);
                assert(s =~= varint(2) + tail);
                assert(s.skip(varint(2).len() as int) =~= tail);
                <(u8, bool)>::reads_back((button, down), rest);
            },
            InputEvent::MouseWheel { dx, dy } => {
                let tail = <(i16, i16)>::wire((dx, dy)) + rest;
                u32::reads_back(3, tail);
                assert(s =~= varint(3) + tail);
                assert(s.skip(varint(3).len() as int) =~= tail);
                <(i16, i16)>::reads_back((dx, dy), rest);
            },
            InputEvent::Key { vk, down, scancode } => {
                let tail = <(u16, (bool, u16))>::wire((vk, (down, scancode))) + rest;
                u32::reads_back(4, tail);
                assert(s =~= varint(4) + tail);
                assert(s.skip(varint(4).len() as int) =~= tail);
                <(u16, (bool, u16))>::reads_back((vk, (down, scancode)), rest);
            },
        }
    }

    proof fn parse_bounded(s: Seq<u8>) {
        u32::parse_bounded(s);
        if let Some((i, n)) = u32::parse(s) {
            let rest = s.skip(n as int);
            <(u16, (u16, (u16, u16)))>::parse_bounded(rest);
            <(i16, i16)>::parse_bounded(rest);
            <(u8, bool)>::parse_bounded(rest);
            <(u16, (bool, u16))>::parse_bounded(rest);
        }
    }

    fn put(&self, out: &mut Vec<u8>) {
        let ghost start = out@;
        match self {
            InputEvent::MouseMoveAbs { x, y, host_w, host_h } => {
                0u32.put(out);
                (*x, (*y, (*host_w, *host_h))).put(out);
            },
            InputEvent::MouseMoveRel { dx, dy } => {
                1u32.put(out);
                (*dx, *dy).put(out);
            },
            InputEvent::MouseButton { button, down } => {
                2u32.put(out);
                (*button, *down).put(out);
            },
            InputEvent::MouseWheel { dx, dy } => {
                3u32.put(out);
                (*dx, *dy).put(out);
            },
            InputEvent::Key { vk, down, scancode } => {
                4u32.put(out);
                (*vk, (*down, *scancode)).put(out);
            },
        }
        assert(out@ =~= start + Self::wire(self.model()));
    }

    fn take(s: &[u8]) -> (r: Result<(Self, usize), WireFault>) {
        proof {
            u32::parse_bounded(s@);
        }
        let (i, n) = match u32::take(s) {
            Ok(x) => x,
            Err(f) => {
                return Err(f);
            },
        };
        let rest = slice_subrange(s, n, s.len());
        assert(rest@ =~= s@.skip(n as int));
        proof {
            <(u16, (u16, (u16, u16)))>::parse_bounded(rest@);
            <(i16, i16)>::parse_bounded(rest@);
            <(u8, bool)>::parse_bounded(rest@);
            <(u16, (bool, u16))>::parse_bounded(rest@);
        }
        if i == 0 {
            match <(u16, (u16, (u16, u16)))>::take(rest) {
                Err(f) => Err(f),
                Ok(((x, (y, (host_w, host_h))), k)) => Ok(
                    (InputEvent::MouseMoveAbs { x, y, host_w, host_h }, n + k),
                ),
            }
        } else if i == 1 {
            match <(i16, i16)>::take(rest) {
                Err(f) => Err(f),
                Ok(((dx, dy), k)) => Ok((InputEvent::MouseMoveRel { dx, dy }, n + k)),
            }
        } else if i == 2 {
            match <(u8, bool)>::take(rest) {
                Err(f) => Err(f),
                Ok(((button, down), k)) => Ok((InputEvent::MouseButton { button, down }, n + k)),
            }
        } else if i == 3 {
            match <(i16, i16)>::take(rest) {
                Err(f) => Err(f),
                Ok(((dx, dy), k)) => Ok((InputEvent::MouseWheel { dx, dy }, n + k)),
            }
        } else if i == 4 {
            match <(u16, (bool, u16))>::take(rest) {
                Err(f) => Err(f),
                Ok(((vk, (down, scancode)), k)) => Ok(
                    (InputEvent::Key { vk, down, scancode }, n + k),
                ),
            }
        } else {
            Err(WireFault::BadVariant)
        }
    }
}

/// What a control datagram says. A capability offer takes up all of it, or is followed
/// by a chroma preference, which is passed over; behind any other message, anything may
/// follow.
pub open spec fn control_of(s: Seq<u8>) -> Option<ControlModel> {
    match ControlMsg::parse(s) {
        None => None,
        Some((ControlModel::CapsOffer(c), n)) => if n == s.len() || ChromaPref::parse(
            s.skip(n as int),
        ) is Some {
            Some(ControlModel::CapsOffer(c))
        } else {
            None
        },
        Some((m, _)) => Some(m),
    }
}

/// Why a control datagram says nothing, where that is so.
pub open spec fn control_fault(s: Seq<u8>) -> WireFault {
    match ControlMsg::parse(s) {
        None => ControlMsg::fault(s),
        Some((_, n)) => ChromaPref::fault(s.skip(n as int)),
    }
}

/// Decode a control datagram.
///
/// Accepts Caps with an optional trailing `chroma_pref` byte from briefly-shipped
/// V2 peers. Caps itself no longer carries that field on the wire.
pub fn decode_control(bytes: &[u8]) -> (r: Result<ControlMsg, ProtocolError>)
    ensures
        match r {
            Ok(m) => control_of(bytes@) == Some(m@),
            Err(e) => control_of(bytes@) is None && e == ProtocolError::Decode(
                control_fault(bytes@),
            ),
        },
{
    proof {
        ControlMsg::parse_bounded(bytes@);
    }
    match ControlMsg::take(bytes) {
        Err(f) => Err(ProtocolError::Decode(f)),
        Ok((ControlMsg::CapsOffer(c), n)) => if n == bytes.len() {
            Ok(ControlMsg::CapsOffer(c))
        } else {
            // Trailing bytes must be a chroma preference, not just anything.
            let rest = slice_subrange(bytes, n, bytes.len());
            assert(rest@ =~= bytes@.skip(n as int));
            match ChromaPref::take(rest) {
                Ok(_) => Ok(ControlMsg::CapsOffer(c)),
                Err(f) => Err(ProtocolError::Decode(f)),
            }
        },
        Ok((m, _)) => Ok(m),
    }
}

/// Every control message decodes to itself, and a capability offer does so with a
/// chroma preference behind it too.
pub proof fn control_reads_back(m: ControlModel, caps: CapsModel, pref: ChromaPref)
    requires
        ControlMsg::valid(m),
        Caps::valid(caps),
    ensures
        control_of(ControlMsg::wire(m)) == Some(m),
        control_of(ControlMsg::wire(ControlModel::CapsOffer(caps)) + ChromaPref::wire(pref))
            == Some(ControlModel::CapsOffer(caps)),
{
    ControlMsg::reads_back(m, Seq::empty());
    assert(ControlMsg::wire(m) + Seq::<u8>::empty() =~= ControlMsg::wire(m));
    let offer = ControlModel::CapsOffer(caps);
    let w = ControlMsg::wire(offer);
    ControlMsg::reads_back(offer, ChromaPref::wire(pref));
    ChromaPref::reads_back(pref, Seq::empty());
    assert((w + ChromaPref::wire(pref)).skip(w.len() as int) =~= ChromaPref::wire(pref)
        + Seq::<u8>::empty());
}

/// A choice is a byte: its place among the choices.
pub proof fn choices_have_places()
    ensures
        Codec::wire(Codec::Hevc) == seq![0u8],
        Chroma::wire(Chroma::Yuv444) == seq![0u8],
        Chroma::wire(Chroma::Yuv420) == seq![1u8],
        EncodeBackend::wire(EncodeBackend::Nvenc) == seq![0u8],
        EncodeBackend::wire(EncodeBackend::Qsv) == seq![1u8],
        EncodeBackend::wire(EncodeBackend::VideoToolbox) == seq![2u8],
        DecodeBackend::wire(DecodeBackend::Nvdec) == seq![0u8],
        DecodeBackend::wire(DecodeBackend::D3d11va) == seq![1u8],
        DecodeBackend::wire(DecodeBackend::Qsv) == seq![2u8],
        DecodeBackend::wire(DecodeBackend::VideoToolbox) == seq![3u8],
        Platform::wire(Platform::Unknown) == seq![0u8],
        Platform::wire(Platform::Windows) == seq![1u8],
        Platform::wire(Platform::Macos) == seq![2u8],
        ChromaPref::wire(ChromaPref::Auto) == seq![0u8],
        ChromaPref::wire(ChromaPref::Yuv420) == seq![1u8],
        ChromaPref::wire(ChromaPref::Yuv444) == seq![2u8],
{
}

/// A byte that stands for no choice is refused as such.
pub proof fn unknown_choices_are_refused(s: Seq<u8>)
    requires
        s.len() > 0,
        s[0] < 128,
    ensures
        s[0] > 0 ==> Codec::parse(s) is None && Codec::fault(s) is BadVariant,
        s[0] > 1 ==> Chroma::parse(s) is None && Chroma::fault(s) is BadVariant,
        s[0] > 2 ==> EncodeBackend::parse(s) is None && EncodeBackend::fault(s) is BadVariant,
        s[0] > 3 ==> DecodeBackend::parse(s) is None && DecodeBackend::fault(s) is BadVariant,
        s[0] > 2 ==> Platform::parse(s) is None && Platform::fault(s) is BadVariant,
        s[0] > 2 ==> ChromaPref::parse(s) is None && ChromaPref::fault(s) is BadVariant,
        s[0] > 4 ==> ControlMsg::parse(s) is None && ControlMsg::fault(s) is BadVariant,
        s[0] > 4 ==> InputEvent::parse(s) is None && InputEvent::fault(s) is BadVariant,
        s[0] <= 2 ==> ChromaPref::parse(s) is Some,
{
    reveal_with_fuel(unvarint, 2);
    crate::wire::varint_ranges();
}

/// A message begins with a byte for its kind, and its fields follow in order.
pub proof fn messages_are_laid_out(m: ControlModel, e: InputEvent)
    ensures
        match m {
            ControlModel::CapsOffer(c) => ControlMsg::wire(m) == seq![0u8] + Caps::wire(c),
            ControlModel::CapsAccept { format } => ControlMsg::wire(m) == seq![1u8]
                + NegotiatedFormat::wire(format),
            ControlModel::RequestIdr => ControlMsg::wire(m) == seq![2u8],
            ControlModel::Congestion(r) => ControlMsg::wire(m) == seq![3u8]
                + CongestionReport::wire(r),
            ControlModel::Bye => ControlMsg::wire(m) == seq![4u8],
        },
        match e {
            InputEvent::MouseMoveAbs { x, y, host_w, host_h } => InputEvent::wire(e) == seq![0u8]
                + (u16::wire(x) + (u16::wire(y) + (u16::wire(host_w) + u16::wire(host_h)))),
            InputEvent::MouseMoveRel { dx, dy } => InputEvent::wire(e) == seq![1u8] + (i16::wire(
                dx,
            ) + i16::wire(dy)),
            InputEvent::MouseButton { button, down } => InputEvent::wire(e) == seq![2u8] + (
            u8::wire(button) + bool::wire(down)),
            InputEvent::MouseWheel { dx, dy } => InputEvent::wire(e) == seq![3u8] + (i16::wire(
                dx,
            ) + i16::wire(dy)),
            InputEvent::Key { vk, down, scancode } => InputEvent::wire(e) == seq![4u8] + (
            u16::wire(vk) + (bool::wire(down) + u16::wire(scancode))),
        },
{
}

/// The fields of what messages hold follow each other in order, with nothing between them.
pub proof fn fields_follow_in_order(
    c: CodecCap,
    f: NegotiatedFormat,
    r: CongestionReport,
    t: FrameTimes,
    v: VideoModel,
    a: AudioModel,
    k: CapsModel,
)
    ensures
        CodecCap::wire(c) == Codec::wire(c.codec) + (Chroma::wire(c.chroma) + (u8::wire(c.bit_depth)
            + (u16::wire(c.max_width) + (u16::wire(c.max_height) + (
        Option::<EncodeBackend>::wire(c.encode) + Option::<DecodeBackend>::wire(c.decode)))))),
        NegotiatedFormat::wire(f) == Codec::wire(f.codec) + (Chroma::wire(f.chroma) + (u8::wire(
            f.bit_depth,
        ) + (EncodeBackend::wire(f.encode) + (DecodeBackend::wire(f.decode) + (u16::wire(f.width)
            + u16::wire(f.height)))))),
        CongestionReport::wire(r) == u32::wire(r.rtt_us) + (u32::wire(r.loss_ppm) + u32::wire(
            r.suggested_bitrate_bps,
        )),
        FrameTimes::wire(t) == u64::wire(t.capture_us) + (u64::wire(t.encode_done_us) + (u64::wire(
            t.send_us,
        ) + (u64::wire(t.recv_us) + (u64::wire(t.decode_done_us) + u64::wire(t.present_us))))),
        VideoAccessUnit::wire(v) == u32::wire(v.frame_id) + (bool::wire(v.is_keyframe) + (u16::wire(
            v.width,
        ) + (u16::wire(v.height) + (FrameTimes::wire(v.times) + Vec::<u8>::wire(v.annexb))))),
        AudioPacket::wire(a) == u32::wire(a.seq) + (u16::wire(a.samples) + Vec::<u8>::wire(a.opus)),
        Caps::wire(k) == Vec::<CodecCap>::wire(k.encode) + (Vec::<CodecCap>::wire(k.decode) + (
        bool::wire(k.audio) + (bool::wire(k.input) + Platform::wire(k.platform)))),
{
}

/// Behind an offer only a chroma preference may follow; behind any other message anything may,
/// and it is passed over.
pub proof fn only_preferences_follow_an_offer(m: ControlModel, rest: Seq<u8>)
    requires
        ControlMsg::valid(m),
        rest.len() > 0,
        rest[0] < 128,
    ensures
        !(m is CapsOffer) ==> control_of(ControlMsg::wire(m) + rest) == Some(m),
        m is CapsOffer && rest[0] <= 2 ==> control_of(ControlMsg::wire(m) + rest) == Some(m),
        m is CapsOffer && rest[0] > 2 ==> control_of(ControlMsg::wire(m) + rest) is None
            && control_fault(ControlMsg::wire(m) + rest) is BadVariant,
{
    ControlMsg::reads_back(m, rest);
    let w = ControlMsg::wire(m);
    assert((w + rest).skip(w.len() as int) =~= rest);
    unknown_choices_are_refused(rest);
}

} // verus!
