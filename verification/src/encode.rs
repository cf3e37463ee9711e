//! Choosing and driving a hardware encoder. Never a software one.

use vstd::prelude::*;

use crate::bytes::copy_range;
use crate::caps::{Chroma, CodecCap, EncodeBackend, Platform};
use crate::capture::GpuVendor;

verus! {

#[derive(Debug)]
pub enum EncodeError {
    Message(String),
    Unavailable,
}

impl EncodeError {
    pub open spec fn text(self) -> Seq<char> {
        match self {
            EncodeError::Message(m) => m@,
            EncodeError::Unavailable => "no hardware encoder"@,
        }
    }

    pub fn message(&self) -> (r: String)
        ensures
            r@ == self.text(),
    {
        match self {
            EncodeError::Message(m) => m.clone(),
            EncodeError::Unavailable => "no hardware encoder".to_owned(),
        }
    }
}

#[derive(Debug)]
pub struct EncodedAu {
    pub annexb: Vec<u8>,
    pub is_keyframe: bool,
    pub chroma: Chroma,
    pub backend: EncodeBackend,
}

impl Clone for EncodedAu {
    fn clone(&self) -> (r: EncodedAu)
        ensures
            r.annexb@ == self.annexb@,
            r.is_keyframe == self.is_keyframe,
            r.chroma == self.chroma,
            r.backend == self.backend,
    {
        let annexb = copy_range(self.annexb.as_slice(), 0, self.annexb.len());
        assert(annexb@ =~= self.annexb@);
        EncodedAu {
            annexb,
            is_keyframe: self.is_keyframe,
            chroma: self.chroma,
            backend: self.backend,
        }
    }
}

#[derive(Debug, Clone, Copy, PartialEq, Eq, Structural)]
pub struct EncoderConfig {
    pub width: u32,
    pub height: u32,
    pub bitrate_bps: u32,
    pub prefer_444: bool,
}

/// What the Intel encoder can do.
#[derive(Debug, Clone, Copy, PartialEq, Eq, Structural)]
pub struct IntelHevcCaps {
    pub hevc: bool,
    pub yuv444: bool,
}

impl IntelHevcCaps {
    /// What an Intel encoder can do that takes the named outputs and, for each, the named
    /// inputs.
    pub open spec fn probed(
        main_420: bool,
        nv12: bool,
        argb: bool,
        ayuv: bool,
        main_444: bool,
        ayuv_444: bool,
    ) -> IntelHevcCaps {
        IntelHevcCaps {
            hevc: main_420 && (nv12 || argb || ayuv),
            yuv444: main_420 && main_444 && (ayuv_444 || ayuv),
        }
    }

    /// What follows from a look at the encoder: whether it takes Main 4:2:0 output; which
    /// inputs it takes then; whether it takes Main 4:4:4 output, and AYUV input with that.
    pub fn from_probe(
        main_420: bool,
        nv12: bool,
        argb: bool,
        ayuv: bool,
        main_444: bool,
        ayuv_444: bool,
    ) -> (r: IntelHevcCaps)
        ensures
            r == (IntelHevcCaps {
                hevc: main_420 && (nv12 || argb || ayuv),
                yuv444: main_420 && main_444 && (ayuv_444 || ayuv),
            }),
            r == IntelHevcCaps::probed(main_420, nv12, argb, ayuv, main_444, ayuv_444),
    {
        if !main_420 {
            return IntelHevcCaps { hevc: false, yuv444: false };
        }
        IntelHevcCaps { hevc: nv12 || argb || ayuv, yuv444: main_444 && (ayuv_444 || ayuv) }
    }
}

/// The encoding hardware of a machine.
#[derive(Debug, Clone, Copy, PartialEq, Eq, Structural)]
pub enum EncodeHardware {
    /// Whether NVENC is there and does 4:4:4, and what an Intel GPU can do, if there is one.
    Windows { nvenc: bool, nvenc_444: bool, intel: Option<IntelHevcCaps> },
    /// Whether VideoToolbox does 4:4:4.
    Macos { yuv444: bool },
    Unknown,
}

/// What a backend that does 4:2:0, and 4:4:4 if `yuv444`, adds to a list.
pub open spec fn encoder_caps(backend: EncodeBackend, yuv444: bool) -> Seq<CodecCap> {
    let base = CodecCap {
        codec: crate::caps::Codec::Hevc,
        chroma: Chroma::Yuv420,
        bit_depth: 8,
        max_width: 3840,
        max_height: 2160,
        encode: Some(backend),
        decode: None,
    };
    if yuv444 {
        seq![CodecCap { chroma: Chroma::Yuv444, ..base }, base]
    } else {
        seq![base]
    }
}

/// What a machine's hardware can encode, best first.
pub open spec fn encode_caps(hw: EncodeHardware) -> Seq<CodecCap> {
    match hw {
        EncodeHardware::Windows { nvenc, nvenc_444, intel } => (if nvenc {
            encoder_caps(EncodeBackend::Nvenc, nvenc_444)
        } else {
            Seq::empty()
        }) + (match intel {
            Some(caps) => if caps.hevc {
                encoder_caps(EncodeBackend::Qsv, caps.yuv444)
            } else {
                Seq::empty()
            },
            None => Seq::empty(),
        }),
        EncodeHardware::Macos { yuv444 } => encoder_caps(EncodeBackend::VideoToolbox, yuv444),
        EncodeHardware::Unknown => Seq::empty(),
    }
}

fn push_caps(out: &mut Vec<CodecCap>, backend: EncodeBackend, yuv444: bool)
    ensures
        final(out)@ == old(out)@ + encoder_caps(backend, yuv444),
{
    if yuv444 {
        out.push(CodecCap::encode(backend, Chroma::Yuv444, 3840, 2160));
    }
    out.push(CodecCap::encode(backend, Chroma::Yuv420, 3840, 2160));
    assert(out@ =~= old(out)@ + encoder_caps(backend, yuv444));
}

/// What a machine's hardware can encode, best first.
pub fn probe_encode(hw: EncodeHardware) -> (r: Vec<CodecCap>)
    ensures
        r@ == encode_caps(hw),
{
    let mut out: Vec<CodecCap> = Vec::new();
    match hw {
        EncodeHardware::Windows { nvenc, nvenc_444, intel } => {
            if nvenc {
                push_caps(&mut out, EncodeBackend::Nvenc, nvenc_444);
            }
            if let Some(caps) = intel {
                if caps.hevc {
                    push_caps(&mut out, EncodeBackend::Qsv, caps.yuv444);
                }
            }
        },
        EncodeHardware::Macos { yuv444 } => {
            push_caps(&mut out, EncodeBackend::VideoToolbox, yuv444);
        },
        EncodeHardware::Unknown => {},
    }
    assert(out@ =~= encode_caps(hw));
    out
}

/// An encoder to open.
#[derive(Debug, Clone, Copy, PartialEq, Eq, Structural)]
pub enum EncoderChoice {
    Nvenc { chroma: Chroma },
    Qsv,
    VideoToolbox { chroma: Chroma },
    Unavailable,
}

/// 4:4:4 where it is wanted and can be had.
pub open spec fn chroma_for(wanted: bool, available: bool) -> Chroma {
    if wanted && available {
        Chroma::Yuv444
    } else {
        Chroma::Yuv420
    }
}

fn pick_chroma(wanted: bool, available: bool) -> (r: Chroma)
    ensures
        r == chroma_for(wanted, available),
{
    if wanted && available {
        Chroma::Yuv444
    } else {
        Chroma::Yuv420
    }
}

/// The encoder to open on a Windows GPU: NVENC where there is one that has not failed to
/// open, else Quick Sync on an Intel GPU.
pub fn open_encoder_with_gpu(
    cfg: EncoderConfig,
    nvenc: bool,
    nvenc_444: bool,
    nvenc_failed: bool,
    vendor: GpuVendor,
) -> (r: EncoderChoice)
    ensures
        r == if nvenc && !nvenc_failed {
            EncoderChoice::Nvenc { chroma: chroma_for(cfg.prefer_444, nvenc_444) }
        } else if vendor == GpuVendor::Intel {
            EncoderChoice::Qsv
        } else {
            EncoderChoice::Unavailable
        },
        r == windows_choice(cfg.prefer_444, nvenc && !nvenc_failed, nvenc_444, vendor),
{
    if nvenc && !nvenc_failed {
        return EncoderChoice::Nvenc { chroma: pick_chroma(cfg.prefer_444, nvenc_444) };
    }
    if vendor == GpuVendor::Intel {
        return EncoderChoice::Qsv;
    }
    EncoderChoice::Unavailable
}

/// The encoder to open first on a machine with this hardware.
pub fn open_encoder(cfg: EncoderConfig, hw: EncodeHardware, vendor: GpuVendor) -> (r: EncoderChoice)
    ensures
        r == match hw {
            EncodeHardware::Windows { nvenc, nvenc_444, intel } => if nvenc {
                EncoderChoice::Nvenc { chroma: chroma_for(cfg.prefer_444, nvenc_444) }
            } else if vendor == GpuVendor::Intel {
                EncoderChoice::Qsv
            } else {
                EncoderChoice::Unavailable
            },
            EncodeHardware::Macos { yuv444 } => EncoderChoice::VideoToolbox {
                chroma: chroma_for(cfg.prefer_444, yuv444),
            },
            EncodeHardware::Unknown => EncoderChoice::Unavailable,
        },
        r == encoder_choice(cfg.prefer_444, hw, vendor),
{
    match hw {
        EncodeHardware::Windows { nvenc, nvenc_444, .. } => open_encoder_with_gpu(
            cfg,
            nvenc,
            nvenc_444,
            false,
            vendor,
        ),
        EncodeHardware::Macos { yuv444 } => EncoderChoice::VideoToolbox {
            chroma: pick_chroma(cfg.prefer_444, yuv444),
        },
        EncodeHardware::Unknown => EncoderChoice::Unavailable,
    }
}

/// The result of an encoder call that fills a buffer: nothing where it failed or wrote
/// nothing, else the bytes it wrote. A frame forced to be a keyframe counts as one.
pub fn buffer_to_au(
    ok: i32,
    len: i32,
    key: i32,
    force_idr: bool,
    buf: &[u8],
    chroma: Chroma,
    backend: EncodeBackend,
) -> (r: Option<EncodedAu>)
    requires
        len <= buf@.len(),
    ensures
        match r {
            Some(au) => {
                &&& ok != 0 && len > 0
                &&& au.annexb@ == buf@.take(len as int)
                &&& au.is_keyframe == (key != 0 || force_idr)
                &&& au.chroma == chroma && au.backend == backend
            },
            None => ok == 0 || len <= 0,
        },
        au_view(r) == filled(ok, len, key, force_idr, buf@, chroma, backend),
{
    if ok == 0 || len <= 0 {
        return None;
    }
    let annexb = copy_range(buf, 0, len as usize);
    assert(annexb@ =~= buf@.take(len as int));
    Some(EncodedAu { annexb, is_keyframe: key != 0 || force_idr, chroma, backend })
}

/// The access unit of a sample the encoder gave out: nothing where it is empty. A frame
/// forced to be a keyframe counts as one.
pub fn sample_to_au(annexb: Vec<u8>, clean_point: bool, force_idr: bool, chroma: Chroma) -> (r: Option<
    EncodedAu,
>)
    ensures
        match r {
            Some(au) => {
                &&& annexb@.len() > 0
                &&& au.annexb@ == annexb@
                &&& au.is_keyframe == (clean_point || force_idr)
                &&& au.chroma == chroma && au.backend == EncodeBackend::Qsv
            },
            None => annexb@.len() == 0,
        },
        au_view(r) == sampled(annexb@, clean_point, force_idr, chroma),
{
    if annexb.len() == 0 {
        return None;
    }
    Some(
        EncodedAu {
            annexb,
            is_keyframe: clean_point || force_idr,
            chroma,
            backend: EncodeBackend::Qsv,
        },
    )
}

/// The lowest bitrate a Media Foundation encoder is set to.
pub const MIN_MF_BITRATE: u32 = 1_000_000;

/// The bitrate a Media Foundation encoder is set to.
pub fn mf_bitrate(bps: u32) -> (r: u32)
    ensures
        r == if bps >= MIN_MF_BITRATE {
            bps
        } else {
            MIN_MF_BITRATE
        },
        r == floored(bps),
{
    if bps >= MIN_MF_BITRATE {
        bps
    } else {
        MIN_MF_BITRATE
    }
}

/// Two numbers in one, the first in the high half.
pub fn pack_wh(w: u32, h: u32) -> (r: u64)
    ensures
        r == w * 0x1_0000_0000 + h,
        r == side_by_side(w, h),
{
    w as u64 * 0x1_0000_0000 + h as u64
}

/// A byte in lower case, as ASCII has it.
pub open spec fn lower(b: u8) -> u8 {
    if 65 <= b <= 90 {
        (b + 32) as u8
    } else {
        b
    }
}

fn to_lower(b: u8) -> (r: u8)
    ensures
        r == lower(b),
{
    if 65 <= b && b <= 90 {
        b + 32
    } else {
        b
    }
}

/// Whether `text` holds `word` at `at`, upper and lower case alike. `word` is in lower
/// case.
pub open spec fn word_at(text: Seq<u8>, word: Seq<u8>, at: int) -> bool {
    &&& 0 <= at
    &&& at + word.len() <= text.len()
    &&& forall|k: int| 0 <= k < word.len() ==> lower(#[trigger] text[at + k]) == word[k]
}

/// Whether `text` holds `word` anywhere, upper and lower case alike.
pub open spec fn mentions(text: Seq<u8>, word: Seq<u8>) -> bool {
    exists|at: int| #[trigger] word_at(text, word, at)
}

/// Whether `text` holds `word` anywhere, upper and lower case alike.
pub fn mentions_word(text: &[u8], word: &[u8]) -> (r: bool)
    ensures
        r == mentions(text@, word@),
{
    let n: usize = text.len();
    let m: usize = word.len();
    if m > n {
        return false;
    }
    let mut at: usize = 0;
    while at <= n - m
        invariant
            n == text@.len(),
            m == word@.len(),
            m <= n,
            at <= n - m + 1,
            forall|a: int| 0 <= a < at ==> !#[trigger] word_at(text@, word@, a),
        decreases n - m + 1 - at,
    {
        let mut k: usize = 0;
        let mut same: bool = true;
        while k < m && same
            invariant
                n == text@.len(),
                m == word@.len(),
                at + m <= n,
                k <= m,
                same ==> forall|i: int| 0 <= i < k ==> lower(#[trigger] text@[at + i]) == word@[i],
                !same ==> exists|i: int|
                    0 <= i < m && lower(#[trigger] text@[at + i]) != word@[i],
            decreases m - k, same as int,
        {
            if to_lower(text[at + k]) != word[k] {
                assert(lower(text@[at + k]) != word@[k as int]);
                same = false;
            } else {
                k = k + 1;
            }
        }
        if same {
            assert(word_at(text@, word@, at as int));
            return true;
        }
        at = at + 1;
    }
    false
}

/// A hardware transform the system lists: its name and vendor, and whether it could be
/// activated.
pub struct TransformCandidate {
    pub name: Vec<u8>,
    pub vendor: Vec<u8>,
    pub activates: bool,
}

/// What a candidate is like.
#[verifier::ext_equal]
pub struct CandidateModel {
    pub name: Seq<u8>,
    pub vendor: Seq<u8>,
    pub activates: bool,
}

impl View for TransformCandidate {
    type V = CandidateModel;

    open spec fn view(&self) -> CandidateModel {
        CandidateModel { name: self.name@, vendor: self.vendor@, activates: self.activates }
    }
}

/// The word `microsoft` in bytes.
pub open spec fn microsoft_word() -> Seq<u8> {
    seq![109u8, 105u8, 99u8, 114u8, 111u8, 115u8, 111u8, 102u8, 116u8]
}

/// The word `intel` in bytes.
pub open spec fn intel_word() -> Seq<u8> {
    seq![105u8, 110u8, 116u8, 101u8, 108u8]
}

/// Intel's vendor number in bytes.
pub open spec fn intel_id() -> Seq<u8> {
    seq![56u8, 48u8, 56u8, 54u8]
}

impl CandidateModel {
    /// Whether the candidate can be used: it is activated and not one of Microsoft's own,
    /// which are software.
    pub open spec fn usable(self) -> bool {
        self.activates && !mentions(self.name, microsoft_word())
    }

    /// Whether the candidate is Intel's, by vendor or by name.
    pub open spec fn is_intel(self) -> bool {
        mentions(self.vendor, intel_id()) || mentions(self.name, intel_word())
    }
}

/// Whether `r` is the transform to use: the first usable one of Intel's, else the first
/// usable one at all.
pub open spec fn is_selected(list: Seq<CandidateModel>, r: Option<int>) -> bool {
    match r {
        Some(i) => {
            &&& 0 <= i < list.len()
            &&& list[i].usable()
            &&& list[i].is_intel() ==> forall|k: int|
                0 <= k < i ==> !((#[trigger] list[k]).usable() && list[k].is_intel())
            &&& !list[i].is_intel() ==> (forall|k: int|
                0 <= k < i ==> !(#[trigger] list[k]).usable()) && (forall|k: int|
                0 <= k < list.len() ==> !((#[trigger] list[k]).usable() && list[k].is_intel()))
        },
        None => forall|k: int| 0 <= k < list.len() ==> !(#[trigger] list[k]).usable(),
    }
}

/// The views of a list of candidates.
pub open spec fn candidate_views(v: Seq<TransformCandidate>) -> Seq<CandidateModel> {
    v.map_values(|c: TransformCandidate| c@)
}

/// The transform to use: the first usable one of Intel's, else the first usable one at all.
pub fn select_transform(list: &Vec<TransformCandidate>) -> (r: Option<usize>)
    ensures
        is_selected(
            candidate_views(list@),
            match r {
                Some(i) => Some(i as int),
                None => None,
            },
        ),
{
    let microsoft: [u8; 9] = [109, 105, 99, 114, 111, 115, 111, 102, 116];
    let intel: [u8; 5] = [105, 110, 116, 101, 108];
    let id: [u8; 4] = [56, 48, 56, 54];
    assert(microsoft@ =~= microsoft_word());
    assert(intel@ =~= intel_word());
    assert(id@ =~= intel_id());
    let ghost views = candidate_views(list@);
    let mut any: Option<usize> = None;
    let mut i: usize = 0;
    while i < list.len()
        invariant
            i <= list@.len(),
            views == candidate_views(list@),
            microsoft@ == microsoft_word(),
            intel@ == intel_word(),
            id@ == intel_id(),
            forall|k: int|
                0 <= k < i ==> !((#[trigger] views[k]).usable() && views[k].is_intel()),
            match any {
                Some(a) => a < i && views[a as int].usable() && forall|k: int|
                    0 <= k < a ==> !(#[trigger] views[k]).usable(),
                None => forall|k: int| 0 <= k < i ==> !(#[trigger] views[k]).usable(),
            },
        decreases list@.len() - i,
    {
        let c = &list[i];
        assert(views[i as int] == c@);
        if !mentions_word(c.name.as_slice(), microsoft.as_slice()) && c.activates {
            if mentions_word(c.vendor.as_slice(), id.as_slice()) || mentions_word(
                c.name.as_slice(),
                intel.as_slice(),
            ) {
                return Some(i);
            }
            if any.is_none() {
                any = Some(i);
            }
        }
        i = i + 1;
    }
    any
}

/// Credits of an asynchronous transform: inputs it asked for and outputs it announced.
#[derive(Debug, Clone, Copy, PartialEq, Eq, Structural)]
pub struct Credits {
    pub input: u32,
    pub output: u32,
}

/// What a transform announces.
#[derive(Debug, Clone, Copy, PartialEq, Eq, Structural)]
pub enum TransformEvent {
    NeedInput,
    HaveOutput,
    Error,
    Other,
}

/// One more, up to the limit.
pub open spec fn credit_up(n: u32) -> u32 {
    if n == u32::MAX {
        n
    } else {
        (n + 1) as u32
    }
}

/// One less, down to zero.
pub open spec fn credit_down(n: u32) -> u32 {
    if n == 0 {
        n
    } else {
        (n - 1) as u32
    }
}

impl Credits {
    pub open spec fn none() -> Credits {
        Credits { input: 0, output: 0 }
    }

    /// The credits after an event.
    pub open spec fn with_event(self, ev: TransformEvent) -> Credits {
        match ev {
            TransformEvent::NeedInput => Credits { input: credit_up(self.input), ..self },
            TransformEvent::HaveOutput => Credits { output: credit_up(self.output), ..self },
            _ => self,
        }
    }

    /// Whether there is a credit to spend.
    pub open spec fn has(self, output: bool) -> bool {
        if output {
            self.output > 0
        } else {
            self.input > 0
        }
    }

    /// The credits after one was spent.
    pub open spec fn without(self, output: bool) -> Credits {
        if output {
            Credits { output: credit_down(self.output), ..self }
        } else {
            Credits { input: credit_down(self.input), ..self }
        }
    }

    pub fn new() -> (r: Credits)
        ensures
            r == (Credits { input: 0, output: 0 }),
            r == Credits::none(),
    {
        Credits { input: 0, output: 0 }
    }

    /// Takes note of an event. Says whether it is an error.
    pub fn handle_event(&mut self, ev: TransformEvent) -> (r: bool)
        ensures
            r == (ev == TransformEvent::Error),
            *final(self) == match ev {
                TransformEvent::NeedInput => Credits {
                    input: credit_up(old(self).input),
                    ..*old(self)
                },
                TransformEvent::HaveOutput => Credits {
                    output: credit_up(old(self).output),
                    ..*old(self)
                },
                _ => *old(self),
            },
            *final(self) == old(self).with_event(ev),
    {
        match ev {
            TransformEvent::NeedInput => {
                if self.input < u32::MAX {
                    self.input = self.input + 1;
                }
                false
            },
            TransformEvent::HaveOutput => {
                if self.output < u32::MAX {
                    self.output = self.output + 1;
                }
                false
            },
            TransformEvent::Error => true,
            TransformEvent::Other => false,
        }
    }

    /// Whether waiting for an output, or for leave to give an input, is over.
    pub fn ready(&self, want_output: bool) -> (r: bool)
        ensures
            r == (if want_output {
                self.output > 0
            } else {
                self.input > 0
            }),
            r == self.has(want_output),
    {
        if want_output {
            self.output > 0
        } else {
            self.input > 0
        }
    }

    /// Uses up leave to give an input.
    pub fn spend_input(&mut self)
        ensures
            *final(self) == (Credits { input: credit_down(old(self).input), ..*old(self) }),
            *final(self) == old(self).without(false),
    {
        if self.input > 0 {
            self.input = self.input - 1;
        }
    }

    /// Uses up an announced output.
    pub fn spend_output(&mut self)
        ensures
            *final(self) == (Credits { output: credit_down(old(self).output), ..*old(self) }),
            *final(self) == old(self).without(true),
    {
        if self.output > 0 {
            self.output = self.output - 1;
        }
    }
}

/// The surface format an encoder is fed.
#[derive(Debug, Clone, Copy, PartialEq, Eq, Structural)]
pub enum InputFmt {
    Nv12,
    Argb32,
    Ayuv,
}

/// Opening the Intel encoder: what to try next, and how it ends.
#[derive(Debug, Clone, Copy, PartialEq, Eq, Structural)]
pub enum QsvOpen {
    /// Set HEVC Main output of this chroma.
    SetOutput(Chroma),
    /// See whether AYUV input is listed for 4:4:4.
    CheckAyuv,
    /// Set this input format.
    SetInput(InputFmt),
    /// Make the video processor that converts to this format.
    MakeConverter(InputFmt),
    /// The encoder is configured; a converter was made unless the input is ARGB.
    Ready { chroma: Chroma, input: InputFmt },
    Failed,
}

impl QsvOpen {
    /// What is tried first.
    pub open spec fn first(prefer_444: bool) -> QsvOpen {
        QsvOpen::SetOutput(
            if prefer_444 {
                Chroma::Yuv444
            } else {
                Chroma::Yuv420
            },
        )
    }

    /// What follows when trying it worked, or did not. 4:4:4 needs its output and AYUV
    /// input; 4:2:0 takes NV12 from a converter, or ARGB without one.
    pub open spec fn next(self, ok: bool) -> QsvOpen {
        match self {
            QsvOpen::SetOutput(Chroma::Yuv444) => if ok {
                QsvOpen::CheckAyuv
            } else {
                QsvOpen::SetOutput(Chroma::Yuv420)
            },
            QsvOpen::CheckAyuv => if ok {
                QsvOpen::SetInput(InputFmt::Ayuv)
            } else {
                QsvOpen::SetOutput(Chroma::Yuv420)
            },
            QsvOpen::SetOutput(Chroma::Yuv420) => if ok {
                QsvOpen::SetInput(InputFmt::Nv12)
            } else {
                QsvOpen::Failed
            },
            QsvOpen::SetInput(InputFmt::Ayuv) => if ok {
                QsvOpen::MakeConverter(InputFmt::Ayuv)
            } else {
                QsvOpen::Failed
            },
            QsvOpen::SetInput(InputFmt::Nv12) => if ok {
                QsvOpen::MakeConverter(InputFmt::Nv12)
            } else {
                QsvOpen::SetInput(InputFmt::Argb32)
            },
            QsvOpen::SetInput(InputFmt::Argb32) => if ok {
                QsvOpen::Ready { chroma: Chroma::Yuv420, input: InputFmt::Argb32 }
            } else {
                QsvOpen::Failed
            },
            QsvOpen::MakeConverter(InputFmt::Ayuv) => if ok {
                QsvOpen::Ready { chroma: Chroma::Yuv444, input: InputFmt::Ayuv }
            } else {
                QsvOpen::Failed
            },
            QsvOpen::MakeConverter(InputFmt::Nv12) => if ok {
                QsvOpen::Ready { chroma: Chroma::Yuv420, input: InputFmt::Nv12 }
            } else {
                QsvOpen::SetInput(InputFmt::Argb32)
            },
            QsvOpen::MakeConverter(InputFmt::Argb32) => QsvOpen::Failed,
            QsvOpen::Ready { chroma, input } => self,
            QsvOpen::Failed => self,
        }
    }

    /// Whether nothing is left to try.
    pub open spec fn done(self) -> bool {
        self is Ready || self is Failed
    }

    /// How many tries are left at most.
    pub open spec fn tries_left(self) -> nat {
        match self {
            QsvOpen::SetOutput(Chroma::Yuv444) => 6,
            QsvOpen::CheckAyuv => 5,
            QsvOpen::SetOutput(Chroma::Yuv420) => 4,
            QsvOpen::SetInput(InputFmt::Ayuv) => 2,
            QsvOpen::SetInput(InputFmt::Nv12) => 3,
            QsvOpen::SetInput(InputFmt::Argb32) => 1,
            QsvOpen::MakeConverter(InputFmt::Ayuv) => 1,
            QsvOpen::MakeConverter(InputFmt::Nv12) => 2,
            QsvOpen::MakeConverter(InputFmt::Argb32) => 1,
            QsvOpen::Ready { chroma, input } => 0,
            QsvOpen::Failed => 0,
        }
    }

    pub fn start(prefer_444: bool) -> (r: QsvOpen)
        ensures
            r == QsvOpen::first(prefer_444),
    {
        if prefer_444 {
            QsvOpen::SetOutput(Chroma::Yuv444)
        } else {
            QsvOpen::SetOutput(Chroma::Yuv420)
        }
    }

    /// What to try next, once this was tried.
    pub fn step(self, ok: bool) -> (r: QsvOpen)
        ensures
            r == self.next(ok),
    {
        match self {
            QsvOpen::SetOutput(chroma) => match (chroma, ok) {
                (Chroma::Yuv444, true) => QsvOpen::CheckAyuv,
                (Chroma::Yuv444, false) => QsvOpen::SetOutput(Chroma::Yuv420),
                (Chroma::Yuv420, true) => QsvOpen::SetInput(InputFmt::Nv12),
                (Chroma::Yuv420, false) => QsvOpen::Failed,
            },
            QsvOpen::CheckAyuv => if ok {
                QsvOpen::SetInput(InputFmt::Ayuv)
            } else {
                QsvOpen::SetOutput(Chroma::Yuv420)
            },
            QsvOpen::SetInput(input) => match (input, ok) {
                (InputFmt::Ayuv, true) => QsvOpen::MakeConverter(InputFmt::Ayuv),
                (InputFmt::Nv12, true) => QsvOpen::MakeConverter(InputFmt::Nv12),
                (InputFmt::Nv12, false) => QsvOpen::SetInput(InputFmt::Argb32),
                (InputFmt::Argb32, true) => QsvOpen::Ready {
                    chroma: Chroma::Yuv420,
                    input: InputFmt::Argb32,
                },
                _ => QsvOpen::Failed,
            },
            QsvOpen::MakeConverter(input) => match (input, ok) {
                (InputFmt::Ayuv, true) => QsvOpen::Ready {
                    chroma: Chroma::Yuv444,
                    input: InputFmt::Ayuv,
                },
                (InputFmt::Nv12, true) => QsvOpen::Ready {
                    chroma: Chroma::Yuv420,
                    input: InputFmt::Nv12,
                },
                (InputFmt::Nv12, false) => QsvOpen::SetInput(InputFmt::Argb32),
                _ => QsvOpen::Failed,
            },
            QsvOpen::Ready { .. } => self,
            QsvOpen::Failed => self,
        }
    }
}

/// Opening comes to an end whatever fails.
pub proof fn opening_ends(s: QsvOpen, ok: bool)
    ensures
        s.done() <==> s.tries_left() == 0,
        !s.done() ==> s.next(ok).tries_left() < s.tries_left(),
        s.done() ==> s.next(ok) == s,
{
}

/// Where the tries of an opening went, given how each of them went.
pub open spec fn opened(s: QsvOpen, outcomes: Seq<bool>) -> QsvOpen
    decreases outcomes.len(),
{
    if outcomes.len() == 0 {
        s
    } else {
        opened(s.next(outcomes[0]), outcomes.skip(1))
    }
}

/// Whether a state can occur when 4:4:4 was not asked for.
pub open spec fn within_420(s: QsvOpen) -> bool {
    match s {
        QsvOpen::SetOutput(c) => c == Chroma::Yuv420,
        QsvOpen::CheckAyuv => false,
        QsvOpen::SetInput(i) => i != InputFmt::Ayuv,
        QsvOpen::MakeConverter(i) => i == InputFmt::Nv12,
        QsvOpen::Ready { chroma, input } => chroma == Chroma::Yuv420 && input != InputFmt::Ayuv,
        QsvOpen::Failed => true,
    }
}

/// Whether a finished opening is consistent: 4:4:4 exactly with AYUV input.
pub open spec fn consistent(s: QsvOpen) -> bool {
    s matches QsvOpen::Ready { chroma, input } ==> (chroma == Chroma::Yuv444 <==> input
        == InputFmt::Ayuv)
}

/// An encoder that was not asked for 4:4:4 never gives it.
pub proof fn plain_request_stays_420(s: QsvOpen, outcomes: Seq<bool>)
    requires
        within_420(s),
    ensures
        within_420(opened(s, outcomes)),
    decreases outcomes.len(),
{
    if outcomes.len() > 0 {
        plain_request_stays_420(s.next(outcomes[0]), outcomes.skip(1));
    }
}

/// Whatever fails on the way, an encoder that opens has matching chroma and input.
pub proof fn opening_is_consistent(s: QsvOpen, outcomes: Seq<bool>)
    requires
        consistent(s),
    ensures
        consistent(opened(s, outcomes)),
    decreases outcomes.len(),
{
    if outcomes.len() > 0 {
        opening_is_consistent(s.next(outcomes[0]), outcomes.skip(1));
    }
}

/// The encoder that Windows opens.
pub open spec fn windows_choice(
    prefer_444: bool,
    nvenc: bool,
    nvenc_444: bool,
    vendor: GpuVendor,
) -> EncoderChoice {
    if nvenc {
        EncoderChoice::Nvenc { chroma: chroma_for(prefer_444, nvenc_444) }
    } else if vendor == GpuVendor::Intel {
        EncoderChoice::Qsv
    } else {
        EncoderChoice::Unavailable
    }
}

/// The encoder that is opened on given hardware.
pub open spec fn encoder_choice(
    prefer_444: bool,
    hw: EncodeHardware,
    vendor: GpuVendor,
) -> EncoderChoice {
    match hw {
        EncodeHardware::Windows { nvenc, nvenc_444, intel } => windows_choice(
            prefer_444,
            nvenc,
            nvenc_444,
            vendor,
        ),
        EncodeHardware::Macos { yuv444 } => EncoderChoice::VideoToolbox {
            chroma: chroma_for(prefer_444, yuv444),
        },
        EncodeHardware::Unknown => EncoderChoice::Unavailable,
    }
}

/// What an `EncodedAu` holds.
#[verifier::ext_equal]
pub struct AuModel {
    pub annexb: Seq<u8>,
    pub is_keyframe: bool,
    pub chroma: Chroma,
    pub backend: EncodeBackend,
}

pub open spec fn au_view(au: Option<EncodedAu>) -> Option<AuModel> {
    match au {
        Some(a) => Some(
            AuModel {
                annexb: a.annexb@,
                is_keyframe: a.is_keyframe,
                chroma: a.chroma,
                backend: a.backend,
            },
        ),
        None => None,
    }
}

/// The access unit that an encoder left in a buffer.
pub open spec fn filled(
    ok: i32,
    len: i32,
    key: i32,
    force_idr: bool,
    buf: Seq<u8>,
    chroma: Chroma,
    backend: EncodeBackend,
) -> Option<AuModel> {
    if ok == 0 || len <= 0 {
        None
    } else {
        Some(
            AuModel {
                annexb: buf.take(len as int),
                is_keyframe: key != 0 || force_idr,
                chroma,
                backend,
            },
        )
    }
}

/// The access unit of a sample.
pub open spec fn sampled(annexb: Seq<u8>, clean_point: bool, force_idr: bool, chroma: Chroma) -> Option<
    AuModel,
> {
    if annexb.len() == 0 {
        None
    } else {
        Some(
            AuModel {
                annexb,
                is_keyframe: clean_point || force_idr,
                chroma,
                backend: EncodeBackend::Qsv,
            },
        )
    }
}

/// The bitrate to ask of a transform.
pub open spec fn floored(bps: u32) -> u32 {
    if bps >= MIN_MF_BITRATE {
        bps
    } else {
        MIN_MF_BITRATE
    }
}

/// Two halves of a word.
pub open spec fn side_by_side(w: u32, h: u32) -> u64 {
    (w * 0x1_0000_0000 + h) as u64
}

/// An Intel encoder works where it takes the plain output with some input, and full chroma
/// needs both outputs and an input that carries it.
pub proof fn intel_needs_output_and_input(
    main_420: bool,
    nv12: bool,
    argb: bool,
    ayuv: bool,
    main_444: bool,
    ayuv_444: bool,
)
    ensures
        ({
            let c = IntelHevcCaps::probed(main_420, nv12, argb, ayuv, main_444, ayuv_444);
            &&& c.hevc ==> main_420
            &&& c.yuv444 ==> main_420 && main_444
            &&& !nv12 && !argb && !ayuv ==> !c.hevc
            &&& !ayuv && !ayuv_444 ==> !c.yuv444
            &&& main_420 && (nv12 || argb || ayuv) ==> c.hevc
            &&& main_420 && main_444 && (ayuv || ayuv_444) ==> c.yuv444
        }),
{
}

/// Whether hardware has an encoder of a kind for a chroma.
pub open spec fn encodes(hw: EncodeHardware, backend: EncodeBackend, chroma: Chroma) -> bool {
    match backend {
        EncodeBackend::Nvenc => hw matches EncodeHardware::Windows { nvenc, nvenc_444, .. } && nvenc
            && (chroma is Yuv444 ==> nvenc_444),
        EncodeBackend::Qsv => hw matches EncodeHardware::Windows { intel: Some(caps), .. }
            && caps.hevc && (chroma is Yuv444 ==> caps.yuv444),
        EncodeBackend::VideoToolbox => hw matches EncodeHardware::Macos { yuv444 } && (
        chroma is Yuv444 ==> yuv444),
    }
}

/// A machine lists an encoder for a chroma just where its hardware has one, each once, all of
/// them for eight-bit HEVC up to the same size; of one encoder the full chroma comes first, and
/// of two the Nvidia one.
pub proof fn encoders_are_listed_once(hw: EncodeHardware, i: int, j: int)
    requires
        0 <= i < encode_caps(hw).len(),
    ensures
        ({
            let (a, b) = (encode_caps(hw)[i], encode_caps(hw)[j]);
            &&& a.codec is Hevc && a.bit_depth == 8 && a.max_width == 3840 && a.max_height == 2160
            &&& a.decode is None
            &&& a.encode matches Some(k) && encodes(hw, k, a.chroma)
            &&& i < j < encode_caps(hw).len() ==> (a.encode == b.encode && a.chroma is Yuv444
                && b.chroma is Yuv420) || (a.encode == Some(EncodeBackend::Nvenc) && b.encode
                == Some(EncodeBackend::Qsv))
        }),
{
}

/// What the hardware has is listed.
pub proof fn encoders_are_all_listed(hw: EncodeHardware, backend: EncodeBackend, chroma: Chroma)
    requires
        encodes(hw, backend, chroma),
    ensures
        exists|i: int|
            0 <= i < encode_caps(hw).len() && (#[trigger] encode_caps(hw)[i]).encode == Some(
                backend,
            ) && encode_caps(hw)[i].chroma == chroma,
{
    let c = encode_caps(hw);
    let n = match hw {
        EncodeHardware::Windows { nvenc, nvenc_444, .. } => if nvenc && backend is Qsv {
            encoder_caps(EncodeBackend::Nvenc, nvenc_444).len() as int
        } else {
            0
        },
        _ => 0,
    };
    if c[n].chroma == chroma {
        assert(c[n].encode == Some(backend));
    } else {
        assert(c[n + 1].encode == Some(backend) && c[n + 1].chroma == chroma);
    }
}

/// The encoder that is opened is one of those listed, with full chroma just where that is
/// wanted and it has it. On Windows the Nvidia one comes before all others; without it an
/// adapter of Intel's gets its own, and any other none.
pub proof fn opened_encoders_are_listed(prefer_444: bool, hw: EncodeHardware, vendor: GpuVendor)
    ensures
        ({
            let choice = encoder_choice(prefer_444, hw, vendor);
            &&& choice matches EncoderChoice::Nvenc { chroma } ==> encodes(
                hw,
                EncodeBackend::Nvenc,
                chroma,
            ) && (chroma is Yuv444 <==> prefer_444 && encodes(
                hw,
                EncodeBackend::Nvenc,
                Chroma::Yuv444,
            ))
            &&& choice matches EncoderChoice::VideoToolbox { chroma } ==> encodes(
                hw,
                EncodeBackend::VideoToolbox,
                chroma,
            ) && (chroma is Yuv444 <==> prefer_444 && encodes(
                hw,
                EncodeBackend::VideoToolbox,
                Chroma::Yuv444,
            ))
            &&& choice is Nvenc <==> encodes(hw, EncodeBackend::Nvenc, Chroma::Yuv420)
            &&& choice is VideoToolbox <==> hw is Macos
            &&& choice is Qsv <==> hw is Windows && vendor is Intel && !encodes(
                hw,
                EncodeBackend::Nvenc,
                Chroma::Yuv420,
            )
        }),
{
}

/// An encoder that failed to open is passed over: what is then chosen is what would be chosen
/// without it.
pub proof fn failed_encoders_are_passed_over(
    prefer_444: bool,
    nvenc: bool,
    nvenc_444: bool,
    vendor: GpuVendor,
)
    ensures
        windows_choice(prefer_444, false, nvenc_444, vendor) is Qsv <==> vendor is Intel,
        windows_choice(prefer_444, false, nvenc_444, vendor) is Unavailable <==> !(
        vendor is Intel),
        nvenc ==> (windows_choice(prefer_444, nvenc, nvenc_444, vendor) matches
            EncoderChoice::Nvenc { chroma } && (chroma is Yuv444 <==> prefer_444 && nvenc_444)),
{
}

/// An access unit is what the encoder wrote and no more. It is a keyframe where the encoder
/// says so or was made to; a call that failed or wrote nothing gives none.
pub proof fn access_units_are_what_was_written(
    ok: i32,
    len: i32,
    key: i32,
    force_idr: bool,
    buf: Seq<u8>,
    chroma: Chroma,
    backend: EncodeBackend,
    clean_point: bool,
)
    requires
        len <= buf.len(),
    ensures
        ({
            let au = filled(ok, len, key, force_idr, buf, chroma, backend);
            &&& au is Some <==> ok != 0 && len > 0
            &&& au matches Some(a) ==> {
                &&& a.annexb.len() == len && forall|i: int|
                    0 <= i < len ==> a.annexb[i] == buf[i]
                &&& force_idr ==> a.is_keyframe
                &&& key != 0 ==> a.is_keyframe
                &&& a.is_keyframe ==> force_idr || key != 0
                &&& a.chroma == chroma && a.backend == backend
            }
        }),
        ({
            let au = sampled(buf, clean_point, force_idr, chroma);
            &&& au is Some <==> buf.len() > 0
            &&& au matches Some(a) ==> {
                &&& a.annexb == buf
                &&& force_idr ==> a.is_keyframe
                &&& clean_point ==> a.is_keyframe
                &&& a.is_keyframe ==> force_idr || clean_point
                &&& a.chroma == chroma && a.backend is Qsv
            }
        }),
{
}

/// A transform is asked for a million bits a second or more, and for no more than was wanted
/// where that is as much.
pub proof fn transforms_get_a_million(bps: u32)
    ensures
        floored(bps) >= 1_000_000,
        floored(bps) >= bps,
        floored(bps) == bps || floored(bps) == 1_000_000,
{
}

/// A width and a height can be read back from the word that holds both.
pub proof fn sizes_read_back(w: u32, h: u32)
    ensures
        side_by_side(w, h) as int / 0x1_0000_0000 == w,
        side_by_side(w, h) as int % 0x1_0000_0000 == h,
{
}

/// The words that candidates are told by.
pub proof fn words_are_spelled()
    ensures
        microsoft_word() == "microsoft"@.map_values(|c: char| c as u8),
        intel_word() == "intel"@.map_values(|c: char| c as u8),
        intel_id() == "8086"@.map_values(|c: char| c as u8),
{
    reveal_strlit("microsoft");
    reveal_strlit("intel");
    reveal_strlit("8086");
    assert(microsoft_word() =~= "microsoft"@.map_values(|c: char| c as u8));
    assert(intel_word() =~= "intel"@.map_values(|c: char| c as u8));
    assert(intel_id() =~= "8086"@.map_values(|c: char| c as u8));
}

/// A word is found in whatever letter case and wherever it stands.
pub proof fn words_are_found_in_any_case(before: Seq<u8>, text: Seq<u8>, word: Seq<u8>, after: Seq<u8>)
    requires
        text.len() == word.len(),
        forall|k: int|
            0 <= k < word.len() ==> text[k] == #[trigger] word[k] || (97 <= word[k] <= 122
                && text[k] == word[k] - 32),
        forall|k: int| 0 <= k < word.len() ==> !(65 <= #[trigger] word[k] <= 90),
    ensures
        mentions(before + text + after, word),
{
    let all = before + text + after;
    let at = before.len() as int;
    assert forall|k: int| 0 <= k < word.len() implies lower(#[trigger] all[at + k]) == word[k] by {
        assert(all[at + k] == text[k]);
        assert(!(65 <= word[k] <= 90));
    }
    assert(word_at(all, word, at));
}

/// Of the candidates one of Intel's is taken where there is one that can be used, else the
/// first that can; a software one never, nor one that does not activate. The choice is unique.
pub proof fn selection_prefers_intel(
    list: Seq<CandidateModel>,
    a: Option<int>,
    b: Option<int>,
    k: int,
)
    requires
        is_selected(list, a),
        is_selected(list, b),
    ensures
        a == b,
        a matches Some(i) ==> 0 <= i < list.len() && list[i].activates && !mentions(
            list[i].name,
            microsoft_word(),
        ),
        0 <= k < list.len() && list[k].activates && !mentions(list[k].name, microsoft_word())
            ==> a is Some,
        0 <= k < list.len() && list[k].activates && !mentions(list[k].name, microsoft_word()) && (
        mentions(list[k].vendor, intel_id()) || mentions(list[k].name, intel_word())) ==> (
        a matches Some(i) && i <= k && (mentions(list[i].vendor, intel_id()) || mentions(
            list[i].name,
            intel_word(),
        ))),
{
}

/// An event gives a credit, of its own kind, and spending takes one; a transform is ready while
/// more were given than spent. Other events give none.
pub proof fn credits_balance(c: Credits, n: u32, output: bool)
    requires
        c.input < u32::MAX,
        c.output < u32::MAX,
    ensures
        c.with_event(TransformEvent::NeedInput).without(false) == c,
        c.with_event(TransformEvent::HaveOutput).without(true) == c,
        c.with_event(TransformEvent::NeedInput).has(false),
        c.with_event(TransformEvent::HaveOutput).has(true),
        c.with_event(TransformEvent::NeedInput).input == c.input + 1,
        c.with_event(TransformEvent::HaveOutput).output == c.output + 1,
        c.with_event(TransformEvent::Error) == c,
        c.with_event(TransformEvent::Other) == c,
        !Credits::none().has(output),
        !c.has(output) ==> c.without(output) == c,
        c.without(true).input == c.input && c.without(false).output == c.output,
        c.has(true) <==> c.output > 0,
        c.has(false) <==> c.input > 0,
{
}

/// What an encoder takes, of all that opening it asks.
pub struct QsvTaste {
    pub out_444: bool,
    pub out_420: bool,
    pub ayuv_offered: bool,
    pub in_ayuv: bool,
    pub in_nv12: bool,
    pub in_argb: bool,
    pub conv_ayuv: bool,
    pub conv_nv12: bool,
}

impl QsvTaste {
    /// How a step ends.
    pub open spec fn takes(self, s: QsvOpen) -> bool {
        match s {
            QsvOpen::SetOutput(Chroma::Yuv444) => self.out_444,
            QsvOpen::SetOutput(Chroma::Yuv420) => self.out_420,
            QsvOpen::CheckAyuv => self.ayuv_offered,
            QsvOpen::SetInput(InputFmt::Ayuv) => self.in_ayuv,
            QsvOpen::SetInput(InputFmt::Nv12) => self.in_nv12,
            QsvOpen::SetInput(InputFmt::Argb32) => self.in_argb,
            QsvOpen::MakeConverter(InputFmt::Ayuv) => self.conv_ayuv,
            QsvOpen::MakeConverter(InputFmt::Nv12) => self.conv_nv12,
            _ => false,
        }
    }

    /// The state after `n` steps.
    pub open spec fn opened(self, s: QsvOpen, n: nat) -> QsvOpen
        decreases n,
    {
        if n == 0 {
            s
        } else {
            let before = self.opened(s, (n - 1) as nat);
            before.next(self.takes(before))
        }
    }
}

/// How opening ends: with full chroma where that is wanted, and the encoder takes the output
/// and offers the input for it; otherwise with the plain output and the first input that works.
/// Once full chroma is settled on, what then fails is not tried over with less.
pub proof fn opening_takes_the_best_that_works(t: QsvTaste, prefer_444: bool)
    ensures
        ({
            let end = t.opened(QsvOpen::first(prefer_444), 6);
            let full = prefer_444 && t.out_444 && t.ayuv_offered;
            &&& end.done()
            &&& full && t.in_ayuv && t.conv_ayuv ==> end == (QsvOpen::Ready {
                chroma: Chroma::Yuv444,
                input: InputFmt::Ayuv,
            })
            &&& full && !(t.in_ayuv && t.conv_ayuv) ==> end is Failed
            &&& !full && !t.out_420 ==> end is Failed
            &&& !full && t.out_420 && t.in_nv12 && t.conv_nv12 ==> end == (QsvOpen::Ready {
                chroma: Chroma::Yuv420,
                input: InputFmt::Nv12,
            })
            &&& !full && t.out_420 && !(t.in_nv12 && t.conv_nv12) && t.in_argb ==> end == (
            QsvOpen::Ready { chroma: Chroma::Yuv420, input: InputFmt::Argb32 })
            &&& !full && t.out_420 && !(t.in_nv12 && t.conv_nv12) && !t.in_argb ==> end is Failed
        }),
{
    reveal_with_fuel(QsvTaste::opened, 7);
}

} // verus!
