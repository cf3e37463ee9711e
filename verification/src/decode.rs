//! Choosing and driving a hardware decoder.

use vstd::prelude::*;

use crate::caps::{Chroma, Codec, CodecCap, DecodeBackend};

verus! {

#[derive(Debug)]
pub enum DecodeError {
    Message(String),
    Unavailable,
}

impl DecodeError {
    pub open spec fn text(self) -> Seq<char> {
        match self {
            DecodeError::Message(m) => m@,
            DecodeError::Unavailable => "no hardware decoder"@,
        }
    }

    pub fn message(&self) -> (r: String)
        ensures
            r@ == self.text(),
    {
        match self {
            DecodeError::Message(m) => m.clone(),
            DecodeError::Unavailable => "no hardware decoder".to_owned(),
        }
    }
}

/// What was found out about 4:4:4 decoding on Windows.
#[derive(Debug, Clone, Copy, PartialEq, Eq, Structural)]
pub struct Hevc444Probe {
    pub d3d11: bool,
    pub mft_444: bool,
    pub mfx: bool,
    pub dxva: bool,
    pub vp_ayuv: bool,
}

impl Hevc444Probe {
    /// Whether 4:4:4 can be decoded and shown: the GPU decodes it, the video processor
    /// converts it, and there is a way to drive the decoder.
    pub open spec fn works(self) -> bool {
        self.d3d11 && self.vp_ayuv && (self.mft_444 || self.mfx || self.dxva)
    }

    pub fn ok(&self) -> (r: bool)
        ensures
            r == self.works(),
    {
        self.d3d11 && self.vp_ayuv && (self.mft_444 || self.mfx || self.dxva)
    }
}

/// The decoding hardware of a machine.
#[derive(Debug, Clone, Copy, PartialEq, Eq, Structural)]
pub enum DecodeHardware {
    /// Whether an HEVC decoder is registered, and what is known of 4:4:4.
    Windows { hevc_mft: bool, probe_444: Option<Hevc444Probe> },
    /// Whether VideoToolbox does 4:4:4.
    Macos { yuv444: bool },
    Unknown,
}

/// A decoder capability up to 4K.
pub open spec fn decoder_cap(backend: DecodeBackend, chroma: Chroma) -> CodecCap {
    CodecCap {
        codec: Codec::Hevc,
        chroma,
        bit_depth: 8,
        max_width: 3840,
        max_height: 2160,
        encode: None,
        decode: Some(backend),
    }
}

/// What a machine's hardware can decode. Windows lists 4:2:0 first, a Mac 4:4:4.
pub open spec fn decode_caps(hw: DecodeHardware) -> Seq<CodecCap> {
    match hw {
        DecodeHardware::Windows { hevc_mft, probe_444 } => {
            let caps_420 = decoder_cap(DecodeBackend::D3d11va, Chroma::Yuv420);
            let caps_444 = decoder_cap(DecodeBackend::D3d11va, Chroma::Yuv444);
            if !hevc_mft {
                Seq::empty()
            } else if probe_444 matches Some(p) && p.works() {
                seq![caps_420, caps_444]
            } else {
                seq![caps_420]
            }
        },
        DecodeHardware::Macos { yuv444 } => {
            let caps_420 = decoder_cap(DecodeBackend::VideoToolbox, Chroma::Yuv420);
            let caps_444 = decoder_cap(DecodeBackend::VideoToolbox, Chroma::Yuv444);
            if yuv444 {
                seq![caps_444, caps_420]
            } else {
                seq![caps_420]
            }
        },
        DecodeHardware::Unknown => Seq::empty(),
    }
}

/// What a machine's hardware can decode.
pub fn probe_decode(hw: DecodeHardware) -> (r: Vec<CodecCap>)
    ensures
        r@ == decode_caps(hw),
{
    let mut out: Vec<CodecCap> = Vec::new();
    match hw {
        DecodeHardware::Windows { hevc_mft, probe_444 } => if hevc_mft {
            out.push(CodecCap::decode(DecodeBackend::D3d11va, Chroma::Yuv420, 3840, 2160));
            if let Some(p) = probe_444 {
                if p.ok() {
                    out.push(CodecCap::decode(DecodeBackend::D3d11va, Chroma::Yuv444, 3840, 2160));
                }
            }
        },
        DecodeHardware::Macos { yuv444 } => {
            if yuv444 {
                out.push(CodecCap::decode(DecodeBackend::VideoToolbox, Chroma::Yuv444, 3840, 2160));
            }
            out.push(CodecCap::decode(DecodeBackend::VideoToolbox, Chroma::Yuv420, 3840, 2160));
        },
        DecodeHardware::Unknown => {},
    }
    assert(out@ =~= decode_caps(hw));
    out
}

/// A D3D11 decoder profile, as far as 4:4:4 is concerned.
#[derive(Debug, Clone, Copy, PartialEq, Eq, Structural)]
pub enum DecoderProfile {
    Main444,
    Main444Intel,
    Other,
}

/// A profile the GPU lists, and whether it decodes to AYUV.
#[derive(Debug, Clone, Copy, PartialEq, Eq, Structural)]
pub struct ListedProfile {
    pub profile: DecoderProfile,
    pub ayuv: bool,
}

/// Whether a listed profile decodes 4:4:4.
pub open spec fn decodes_444(p: ListedProfile) -> bool {
    p.ayuv && p.profile != DecoderProfile::Other
}

/// Whether `r` is the profile to decode 4:4:4 with: the first listed one that does, else
/// the standard or Intel's own where the GPU takes it unlisted.
pub open spec fn is_444_profile(
    listed: Seq<ListedProfile>,
    main_ok: bool,
    intel_ok: bool,
    r: Option<DecoderProfile>,
) -> bool {
    if exists|i: int| 0 <= i < listed.len() && decodes_444(#[trigger] listed[i]) {
        exists|i: int|
            {
                &&& 0 <= i < listed.len()
                &&& decodes_444(#[trigger] listed[i])
                &&& r == Some(listed[i].profile)
                &&& forall|k: int| 0 <= k < i ==> !decodes_444(#[trigger] listed[k])
            }
    } else if main_ok {
        r == Some(DecoderProfile::Main444)
    } else if intel_ok {
        r == Some(DecoderProfile::Main444Intel)
    } else {
        r is None
    }
}

/// The profile to decode 4:4:4 with.
pub fn check_d3d11_hevc444(listed: &Vec<ListedProfile>, main_ok: bool, intel_ok: bool) -> (r: Option<
    DecoderProfile,
>)
    ensures
        is_444_profile(listed@, main_ok, intel_ok, r),
{
    let mut i: usize = 0;
    while i < listed.len()
        invariant
            i <= listed@.len(),
            forall|k: int| 0 <= k < i ==> !decodes_444(#[trigger] listed@[k]),
        decreases listed@.len() - i,
    {
        let p = listed[i];
        if p.ayuv && p.profile != DecoderProfile::Other {
            assert(decodes_444(listed@[i as int]));
            return Some(p.profile);
        }
        i = i + 1;
    }
    if main_ok {
        Some(DecoderProfile::Main444)
    } else if intel_ok {
        Some(DecoderProfile::Main444Intel)
    } else {
        None
    }
}

/// A way of decoding on Windows.
#[derive(Debug, Clone, Copy, PartialEq, Eq, Structural)]
pub enum DecoderPath {
    /// A Media Foundation transform.
    MediaFoundation,
    /// D3D11VA driven directly.
    Dxva,
    /// Intel Media SDK.
    Mfx,
}

impl DecoderPath {
    /// The path that is tried after `n` others failed.
    pub open spec fn tried(n: nat) -> Option<DecoderPath>
        decreases n,
    {
        if n == 0 {
            Some(DecoderPath::MediaFoundation)
        } else {
            match DecoderPath::tried((n - 1) as nat) {
                Some(p) => p.after_failure(),
                None => None,
            }
        }
    }

    /// The way to try when this one does not open.
    pub open spec fn after_failure(self) -> Option<DecoderPath> {
        match self {
            DecoderPath::MediaFoundation => Some(DecoderPath::Dxva),
            DecoderPath::Dxva => Some(DecoderPath::Mfx),
            DecoderPath::Mfx => None,
        }
    }

    /// The way to try first.
    pub fn first() -> (r: DecoderPath)
        ensures
            r == DecoderPath::MediaFoundation,
            Some(r) == DecoderPath::tried(0),
    {
        DecoderPath::MediaFoundation
    }

    /// The way to try when this one does not open; none where nothing is left.
    pub fn next(self) -> (r: Option<DecoderPath>)
        ensures
            r == self.after_failure(),
    {
        match self {
            DecoderPath::MediaFoundation => Some(DecoderPath::Dxva),
            DecoderPath::Dxva => Some(DecoderPath::Mfx),
            DecoderPath::Mfx => None,
        }
    }
}

/// The transform behind a Media Foundation decoder.
#[derive(Debug, Clone, Copy, PartialEq, Eq, Structural)]
pub enum MfTransform {
    /// The synchronous one.
    Sync,
    /// A vendor's asynchronous hardware one.
    Hardware,
}

/// The transform to decode with: hardware for 4:4:4, which the synchronous one cannot do;
/// for 4:2:0 the synchronous one where there is one.
pub fn choose_transform(chroma: Chroma, has_sync: bool, has_hardware: bool) -> (r: Option<MfTransform>)
    ensures
        r == if chroma == Chroma::Yuv420 && has_sync {
            Some(MfTransform::Sync)
        } else if has_hardware {
            Some(MfTransform::Hardware)
        } else {
            None::<MfTransform>
        },
        r == transform_for(chroma, has_sync, has_hardware),
{
    if chroma == Chroma::Yuv420 && has_sync {
        Some(MfTransform::Sync)
    } else if has_hardware {
        // Windows 11 + Intel UHD often ships only an async hardware HEVC MFT.
        Some(MfTransform::Hardware)
    } else {
        None
    }
}

/// An output format of a decoder.
#[derive(Debug, Clone, Copy, PartialEq, Eq, Structural)]
pub enum Subtype {
    Argb32,
    Ayuv,
    Nv12,
    Other,
}

impl Subtype {
    pub fn label(self) -> (r: &'static str)
        ensures
            r@ == match self {
                Subtype::Argb32 => "ARGB32"@,
                Subtype::Ayuv => "AYUV"@,
                Subtype::Nv12 => "NV12"@,
                Subtype::Other => "other"@,
            },
    {
        match self {
            Subtype::Argb32 => "ARGB32",
            Subtype::Ayuv => "AYUV",
            Subtype::Nv12 => "NV12",
            Subtype::Other => "other",
        }
    }
}

/// At most this many output types are looked at.
pub const MAX_TYPES: usize = 32;

/// The output formats to prefer. 444: prefer AYUV + Video Processor CSC. Intel HW-MFT
/// "ARGB32" for Main444 often still carries YUV-ordered bytes in a BGRA-typed surface →
/// solid green on present.
pub open spec fn preferred(chroma: Chroma) -> (Subtype, Subtype) {
    match chroma {
        Chroma::Yuv444 => (Subtype::Ayuv, Subtype::Argb32),
        Chroma::Yuv420 => (Subtype::Nv12, Subtype::Ayuv),
    }
}

/// The places of `want` among the first `n` of `available`, in order.
pub open spec fn places(available: Seq<Subtype>, want: Subtype, n: int) -> Seq<usize>
    decreases n,
{
    if n <= 0 {
        Seq::empty()
    } else if available[n - 1] == want {
        places(available, want, n - 1).push((n - 1) as usize)
    } else {
        places(available, want, n - 1)
    }
}

/// How many of the listed types are looked at.
pub open spec fn looked_at(available: Seq<Subtype>) -> int {
    if available.len() <= MAX_TYPES {
        available.len() as int
    } else {
        MAX_TYPES as int
    }
}

/// The output types to try setting, in order: all of the preferred format, all of the other
/// one, and for 4:2:0 whatever comes first.
pub open spec fn output_order(available: Seq<Subtype>, chroma: Chroma) -> Seq<usize> {
    let n = looked_at(available);
    let (a, b) = preferred(chroma);
    places(available, a, n) + places(available, b, n) + (if chroma == Chroma::Yuv420 && n > 0 {
        seq![0usize]
    } else {
        Seq::empty()
    })
}

fn push_places(available: &Vec<Subtype>, want: Subtype, n: usize, out: &mut Vec<usize>)
    requires
        n <= available@.len(),
    ensures
        final(out)@ == old(out)@ + places(available@, want, n as int),
{
    let mut i: usize = 0;
    let ghost start = out@;
    assert(out@ =~= start + places(available@, want, 0));
    while i < n
        invariant
            i <= n <= available@.len(),
            out@ == start + places(available@, want, i as int),
        decreases n - i,
    {
        let ghost before = out@;
        if available[i] == want {
            out.push(i);
        }
        i = i + 1;
        proof {
            if available@[i - 1] == want {
                assert(out@ =~= start + places(available@, want, i as int));
            }
        }
    }
}

/// The output types to try setting, in order.
pub fn output_candidates(available: &Vec<Subtype>, chroma: Chroma) -> (r: Vec<usize>)
    ensures
        r@ == output_order(available@, chroma),
{
    let mut n: usize = available.len();
    if n > MAX_TYPES {
        n = MAX_TYPES;
    }
    let mut out: Vec<usize> = Vec::new();
    match chroma {
        Chroma::Yuv444 => {
            push_places(available, Subtype::Ayuv, n, &mut out);
            push_places(available, Subtype::Argb32, n, &mut out);
        },
        Chroma::Yuv420 => {
            push_places(available, Subtype::Nv12, n, &mut out);
            push_places(available, Subtype::Ayuv, n, &mut out);
            if n > 0 {
                out.push(0);
            }
        },
    }
    assert(out@ =~= output_order(available@, chroma));
    out
}

/// Every place that is tried is one that is listed.
pub proof fn output_order_in_range(available: Seq<Subtype>, chroma: Chroma, k: int)
    requires
        0 <= k < output_order(available, chroma).len(),
    ensures
        output_order(available, chroma)[k] < available.len(),
{
    let n = looked_at(available);
    let (a, b) = preferred(chroma);
    lemma_places_range(available, a, n);
    lemma_places_range(available, b, n);
}

proof fn lemma_places_range(available: Seq<Subtype>, want: Subtype, n: int)
    requires
        n <= looked_at(available),
    ensures
        forall|k: int|
            0 <= k < places(available, want, n).len() ==> (#[trigger] places(
                available,
                want,
                n,
            )[k]) < n,
    decreases n,
{
    if n > 0 {
        lemma_places_range(available, want, n - 1);
        let before = places(available, want, n - 1);
        assert forall|k: int| 0 <= k < places(available, want, n).len() implies (#[trigger] places(
            available,
            want,
            n,
        )[k]) < n by {
            if k < before.len() {
                assert(places(available, want, n)[k] == before[k]);
            }
        }
    }
}

/// A number of at least one.
pub open spec fn one_up(v: u32) -> u32 {
    if v == 0 {
        1
    } else {
        v
    }
}

/// As much of `v` as thirty-two bits hold.
pub open spec fn saturated(v: int) -> u32 {
    if v > u32::MAX {
        u32::MAX
    } else {
        v as u32
    }
}

/// The size of the input buffer for an access unit of `len` bytes: at least what the
/// decoder asks for, with room behind it, on the decoder's alignment. MFT HEVC decoders
/// rewrite Annex B in place and require GetInputStreamInfo.cbSize (and spare tail bytes). A
/// buffer sized exactly to the AU returns MF_E_BUFFERTOOSMALL.
pub fn input_buffer_size(len: usize, min_input: u32, input_align: u32) -> (r: u32)
    ensures
        ({
            let align = one_up(input_align);
            let low = (len as int % 0x1_0000_0000) as u32;
            let larger = if low >= min_input {
                low
            } else {
                min_input
            };
            let padded = saturated(larger + 1024);
            r == saturated(padded + align - 1) as int / align as int * align
        }),
        r == input_size(len as nat, min_input, input_align),
{
    let align: u32 = if input_align == 0 {
        1
    } else {
        input_align
    };
    let low: u32 = (len as u64 % 0x1_0000_0000) as u32;
    let larger: u32 = if low >= min_input {
        low
    } else {
        min_input
    };
    let padded: u32 = if larger > u32::MAX - 1024 {
        u32::MAX
    } else {
        larger + 1024
    };
    let rounded: u32 = if padded > u32::MAX - (align - 1) {
        u32::MAX
    } else {
        padded + (align - 1)
    };
    let q: u32 = rounded / align;
    assert(q * align <= rounded) by (nonlinear_arith)
        requires
            align > 0,
            q == rounded / align,
    ;
    q * align
}

/// The size of the output buffer: what the decoder asks for, at least a frame of four bytes
/// per pixel.
pub fn output_buffer_size(wanted: u32, width: u32, height: u32) -> (r: u32)
    ensures
        ({
            let pixels = saturated(width * height);
            let frame = saturated(pixels * 4);
            r == one_up(
                if wanted >= frame {
                    wanted
                } else {
                    frame
                },
            )
        }),
        r == output_size(wanted, width, height),
{
    assert(width * height <= u32::MAX * u32::MAX) by (nonlinear_arith)
        requires
            width <= u32::MAX,
            height <= u32::MAX,
    ;
    let wide: u64 = width as u64 * height as u64;
    let pixels: u32 = if wide > u32::MAX as u64 {
        u32::MAX
    } else {
        wide as u32
    };
    let bytes: u64 = pixels as u64 * 4;
    let frame: u32 = if bytes > u32::MAX as u64 {
        u32::MAX
    } else {
        bytes as u32
    };
    let size: u32 = if wanted >= frame {
        wanted
    } else {
        frame
    };
    if size == 0 {
        1
    } else {
        size
    }
}

/// How asking a decoder for output went.
#[derive(Debug, Clone, Copy, PartialEq, Eq, Structural)]
pub enum OutputOutcome {
    /// It gave a sample, or none.
    Done { sample: bool },
    /// It needs more input first.
    NeedMoreInput,
    /// Its output format changed; renegotiated, it brings its own samples or not.
    StreamChange { provides: bool },
    /// The sample it was given is too small.
    TooSmall,
    Failed,
}

/// What to do about it.
#[derive(Debug, Clone, Copy, PartialEq, Eq, Structural)]
pub enum DrainStep {
    /// Make a frame of the sample.
    Frame,
    /// No frame this time.
    Nothing,
    /// Ask again.
    Retry,
    /// Report the error.
    Fail,
}

/// Taking output from a decoder.
#[derive(Debug, Clone, Copy, PartialEq, Eq, Structural)]
pub struct Drain {
    pub too_small: u8,
    pub provides_samples: bool,
}

/// A sample may be found too small this often.
pub const MAX_TOO_SMALL: u8 = 4;

impl Drain {
    pub open spec fn start(provides_samples: bool) -> Drain {
        Drain { too_small: 0, provides_samples }
    }

    /// What an outcome does.
    pub open spec fn next(self, outcome: OutputOutcome) -> (Drain, DrainStep) {
        match outcome {
            OutputOutcome::Done { sample } => (
                self,
                if sample {
                    DrainStep::Frame
                } else {
                    DrainStep::Nothing
                },
            ),
            OutputOutcome::NeedMoreInput => (self, DrainStep::Nothing),
            OutputOutcome::StreamChange { provides } => (
                Drain { provides_samples: provides, ..self },
                DrainStep::Retry,
            ),
            OutputOutcome::TooSmall => if self.too_small >= MAX_TOO_SMALL {
                (Drain { too_small: (self.too_small + 1) as u8, ..self }, DrainStep::Fail)
            } else {
                (
                    Drain {
                        too_small: (self.too_small + 1) as u8,
                        provides_samples: false,
                    },
                    DrainStep::Retry,
                )
            },
            OutputOutcome::Failed => (self, DrainStep::Fail),
        }
    }

    pub fn new(provides_samples: bool) -> (r: Drain)
        ensures
            r == (Drain { too_small: 0, provides_samples }),
            r == Drain::start(provides_samples),
    {
        Drain { too_small: 0, provides_samples }
    }

    /// What to do once the decoder was asked for output.
    pub fn on_outcome(&mut self, outcome: OutputOutcome) -> (r: DrainStep)
        requires
            old(self).too_small <= MAX_TOO_SMALL,
        ensures
            (*final(self), r) == old(self).next(outcome),
            r != DrainStep::Fail ==> final(self).too_small <= MAX_TOO_SMALL,
    {
        match outcome {
            OutputOutcome::Done { sample } => if sample {
                DrainStep::Frame
            } else {
                DrainStep::Nothing
            },
            OutputOutcome::NeedMoreInput => DrainStep::Nothing,
            OutputOutcome::StreamChange { provides } => {
                self.provides_samples = provides;
                DrainStep::Retry
            },
            OutputOutcome::TooSmall => {
                self.too_small = self.too_small + 1;
                if self.too_small > MAX_TOO_SMALL {
                    return DrainStep::Fail;
                }
                self.provides_samples = false;
                DrainStep::Retry
            },
            OutputOutcome::Failed => DrainStep::Fail,
        }
    }
}

/// Where taking output stands after a run of outcomes that are all too small.
pub open spec fn after_too_small(d: Drain, n: nat) -> (Drain, DrainStep)
    decreases n,
{
    if n <= 1 {
        d.next(OutputOutcome::TooSmall)
    } else {
        after_too_small(d, (n - 1) as nat).0.next(OutputOutcome::TooSmall)
    }
}

/// A decoder that finds every sample too small is given up on at the fifth.
pub proof fn too_small_gives_up(provides: bool)
    ensures
        forall|n: nat|
            1 <= n <= 4 ==> (#[trigger] after_too_small(
                Drain { too_small: 0, provides_samples: provides },
                n,
            )).1 == DrainStep::Retry,
        after_too_small(Drain { too_small: 0, provides_samples: provides }, 5).1
            == DrainStep::Fail,
{
    let d = Drain { too_small: 0, provides_samples: provides };
    reveal_with_fuel(after_too_small, 6);
    assert(after_too_small(d, 1).1 == DrainStep::Retry);
    assert(after_too_small(d, 2).1 == DrainStep::Retry);
    assert(after_too_small(d, 3).1 == DrainStep::Retry);
    assert(after_too_small(d, 4).1 == DrainStep::Retry);
    assert forall|n: nat| 1 <= n <= 4 implies (#[trigger] after_too_small(d, n)).1
        == DrainStep::Retry by {
        assert(n == 1 || n == 2 || n == 3 || n == 4);
    }
}

/// The color of a pixel.
#[derive(Debug, Clone, Copy, PartialEq, Eq, Structural)]
pub struct Pixel {
    pub b: u8,
    pub g: u8,
    pub r: u8,
}

impl Pixel {
    /// Whether it is plain black or plain white.
    pub open spec fn blank(self) -> bool {
        (self.b == 0 && self.g == 0 && self.r == 0) || (self.b == 255 && self.g == 255 && self.r
            == 255)
    }

    /// Whether it looks like luma in the green channel, the rest near zero.
    pub open spec fn yuv_as_rgb(self) -> bool {
        !self.blank() && self.g > 40 && self.r < 20 && self.b < 20
    }

    pub fn is_blank(&self) -> (r: bool)
        ensures
            r == self.blank(),
    {
        (self.b == 0 && self.g == 0 && self.r == 0) || (self.b == 255 && self.g == 255 && self.r
            == 255)
    }
}

/// The format of a decoded surface.
#[derive(Debug, Clone, Copy, PartialEq, Eq, Structural)]
pub enum SurfaceFormat {
    Bgra8,
    Ayuv,
    Other,
}

impl SurfaceFormat {
    pub fn label(self) -> (r: &'static str)
        ensures
            r@ == match self {
                SurfaceFormat::Bgra8 => "BGRA8"@,
                SurfaceFormat::Ayuv => "AYUV"@,
                SurfaceFormat::Other => "other"@,
            },
    {
        match self {
            SurfaceFormat::Bgra8 => "BGRA8",
            SurfaceFormat::Ayuv => "AYUV",
            SurfaceFormat::Other => "other",
        }
    }
}

/// What to do with a decoded surface.
#[derive(Debug, Clone, Copy, PartialEq, Eq, Structural)]
pub enum SurfaceStep {
    /// Present it.
    Present,
    /// Convert it to BGRA first; drop it if that fails.
    Convert,
    /// Drop it.
    Drop,
}

/// What to do with a decoded surface. BGRA is presented, unless it is 4:4:4 and its middle
/// pixel, where that could be read, looks like mislabelled YUV. Anything else is converted;
/// without a converter it is dropped — never present AYUV/NV12 as BGRA, that shows solid
/// green.
pub fn sample_to_frame(chroma: Chroma, format: SurfaceFormat, pixel: Option<Pixel>, has_csc: bool) -> (r:
    SurfaceStep)
    ensures
        r == if format == SurfaceFormat::Bgra8 {
            if chroma == Chroma::Yuv444 && pixel is Some && (pixel->0).yuv_as_rgb() {
                SurfaceStep::Drop
            } else {
                SurfaceStep::Present
            }
        } else if has_csc {
            SurfaceStep::Convert
        } else {
            SurfaceStep::Drop
        },
        r == surface_step(chroma, format, pixel, has_csc),
{
    if format == SurfaceFormat::Bgra8 {
        if chroma == Chroma::Yuv444 {
            if let Some(p) = pixel {
                if !p.is_blank() && p.g > 40 && p.r < 20 && p.b < 20 {
                    return SurfaceStep::Drop;
                }
            }
        }
        return SurfaceStep::Present;
    }
    if has_csc {
        SurfaceStep::Convert
    } else {
        SurfaceStep::Drop
    }
}

/// How a decoder call that hands out a surface went.
#[derive(Debug, Clone, Copy, PartialEq, Eq, Structural)]
pub enum SurfaceCall {
    /// It failed.
    Failed,
    /// It has nothing yet.
    Nothing,
    /// It handed one out.
    Surface,
}

/// How a call that returned `rc`, and a surface if `has_surface`, went.
pub fn surface_call(rc: i32, has_surface: bool) -> (r: SurfaceCall)
    ensures
        r == if rc < 0 {
            SurfaceCall::Failed
        } else if rc == 0 || !has_surface {
            SurfaceCall::Nothing
        } else {
            SurfaceCall::Surface
        },
        r == surface_outcome(rc, has_surface),
{
    if rc < 0 {
        SurfaceCall::Failed
    } else if rc == 0 || !has_surface {
        SurfaceCall::Nothing
    } else {
        SurfaceCall::Surface
    }
}

/// The transform to decode with.
pub open spec fn transform_for(chroma: Chroma, has_sync: bool, has_hardware: bool) -> Option<
    MfTransform,
> {
    if chroma == Chroma::Yuv420 && has_sync {
        Some(MfTransform::Sync)
    } else if has_hardware {
        Some(MfTransform::Hardware)
    } else {
        None
    }
}

/// The size of the buffer that `len` bytes go in.
pub open spec fn input_size(len: nat, min_input: u32, input_align: u32) -> u32 {
    let align = one_up(input_align);
    let low = (len % 0x1_0000_0000) as u32;
    let larger = if low >= min_input {
        low
    } else {
        min_input
    };
    let padded = saturated(larger + 1024);
    (saturated(padded + align - 1) as int / align as int * align) as u32
}

/// The size of the buffer that a frame comes out in.
pub open spec fn output_size(wanted: u32, width: u32, height: u32) -> u32 {
    let frame = saturated(saturated(width * height) * 4);
    one_up(
        if wanted >= frame {
            wanted
        } else {
            frame
        },
    )
}

/// What is done with a decoded surface.
pub open spec fn surface_step(
    chroma: Chroma,
    format: SurfaceFormat,
    pixel: Option<Pixel>,
    has_csc: bool,
) -> SurfaceStep {
    if format == SurfaceFormat::Bgra8 {
        if chroma == Chroma::Yuv444 && pixel is Some && (pixel->0).yuv_as_rgb() {
            SurfaceStep::Drop
        } else {
            SurfaceStep::Present
        }
    } else if has_csc {
        SurfaceStep::Convert
    } else {
        SurfaceStep::Drop
    }
}

/// What a return code and a surface stand for.
pub open spec fn surface_outcome(rc: i32, has_surface: bool) -> SurfaceCall {
    if rc < 0 {
        SurfaceCall::Failed
    } else if rc == 0 || !has_surface {
        SurfaceCall::Nothing
    } else {
        SurfaceCall::Surface
    }
}

/// Full chroma needs the device, the video processor and one of the three decoders, and no
/// more than that.
pub proof fn full_chroma_needs_a_decoder(p: Hevc444Probe)
    ensures
        !p.d3d11 || !p.vp_ayuv ==> !p.works(),
        !p.mft_444 && !p.mfx && !p.dxva ==> !p.works(),
        p.d3d11 && p.vp_ayuv && p.mft_444 ==> p.works(),
        p.d3d11 && p.vp_ayuv && p.mfx ==> p.works(),
        p.d3d11 && p.vp_ayuv && p.dxva ==> p.works(),
{
}

/// Decoders are listed for eight-bit HEVC up to one size, under the platform's own backend, and
/// nothing is listed twice. A Mac always decodes, and offers full chroma first; Windows needs a
/// transform, and offers full chroma last, where its probe says that it works.
pub proof fn decoders_are_listed(hw: DecodeHardware, i: int, j: int)
    ensures
        0 <= i < decode_caps(hw).len() ==> {
            let a = decode_caps(hw)[i];
            &&& a.codec is Hevc && a.bit_depth == 8 && a.max_width == 3840 && a.max_height == 2160
            &&& a.encode is None
            &&& a.decode == Some(
                if hw is Macos {
                    DecodeBackend::VideoToolbox
                } else {
                    DecodeBackend::D3d11va
                },
            )
        },
        0 <= i < j < decode_caps(hw).len() ==> decode_caps(hw)[i].chroma
            != decode_caps(hw)[j].chroma && (decode_caps(hw)[i].chroma is Yuv444 <==> hw is Macos),
        hw is Unknown ==> decode_caps(hw).len() == 0,
        hw matches DecodeHardware::Macos { yuv444 } ==> decode_caps(hw).len() == (if yuv444 {
            2int
        } else {
            1
        }),
        hw matches DecodeHardware::Windows { hevc_mft, probe_444 } ==> decode_caps(hw).len() == (
        if !hevc_mft {
            0int
        } else if probe_444 matches Some(p) && p.works() {
            2
        } else {
            1
        }),
        decode_caps(hw).len() == 1 ==> decode_caps(hw)[0].chroma is Yuv420,
{
}

/// A profile that is listed with its surface format is taken before one that only opened, and
/// the general one before Intel's; none only where there is neither. The choice is unique.
pub proof fn listed_profiles_come_first(
    listed: Seq<ListedProfile>,
    main_ok: bool,
    intel_ok: bool,
    a: Option<DecoderProfile>,
    b: Option<DecoderProfile>,
    i: int,
)
    requires
        is_444_profile(listed, main_ok, intel_ok, a),
        is_444_profile(listed, main_ok, intel_ok, b),
    ensures
        a == b,
        a != Some(DecoderProfile::Other),
        0 <= i < listed.len() && listed[i].ayuv && !(listed[i].profile is Other) && (forall|k: int|
            0 <= k < i ==> !((#[trigger] listed[k]).ayuv && !(listed[k].profile is Other))) ==> a
            == Some(listed[i].profile),
        (forall|k: int|
            0 <= k < listed.len() ==> !((#[trigger] listed[k]).ayuv && !(
            listed[k].profile is Other))) ==> a == (if main_ok {
            Some(DecoderProfile::Main444)
        } else if intel_ok {
            Some(DecoderProfile::Main444Intel)
        } else {
            None
        }),
{
    if exists|k: int| 0 <= k < listed.len() && decodes_444(#[trigger] listed[k]) {
        let x = choose|x: int|
            {
                &&& 0 <= x < listed.len()
                &&& decodes_444(#[trigger] listed[x])
                &&& a == Some(listed[x].profile)
                &&& forall|k: int| 0 <= k < x ==> !decodes_444(#[trigger] listed[k])
            };
        let y = choose|y: int|
            {
                &&& 0 <= y < listed.len()
                &&& decodes_444(#[trigger] listed[y])
                &&& b == Some(listed[y].profile)
                &&& forall|k: int| 0 <= k < y ==> !decodes_444(#[trigger] listed[k])
            };
        assert(x == y);
        if 0 <= i < listed.len() && listed[i].ayuv && !(listed[i].profile is Other) && (forall|
            k: int,
        |
            0 <= k < i ==> !((#[trigger] listed[k]).ayuv && !(listed[k].profile is Other))) {
            assert(decodes_444(listed[i]));
            assert(i == x);
        }
    } else {
        assert(forall|k: int| 0 <= k < listed.len() ==> !decodes_444(#[trigger] listed[k]));
        if 0 <= i < listed.len() {
            assert(!decodes_444(listed[i]));
        }
    }
}

/// Every path is tried once, Media Foundation first, the Intel runtime last.
pub proof fn every_path_is_tried_once(n: nat, m: nat)
    ensures
        DecoderPath::tried(0) == Some(DecoderPath::MediaFoundation),
        DecoderPath::tried(1) == Some(DecoderPath::Dxva),
        DecoderPath::tried(2) == Some(DecoderPath::Mfx),
        n >= 3 ==> DecoderPath::tried(n) is None,
        n < m && DecoderPath::tried(n) is Some ==> DecoderPath::tried(n) != DecoderPath::tried(m),
    decreases n + m,
{
    reveal_with_fuel(DecoderPath::tried, 4);
    if n > 3 {
        every_path_is_tried_once((n - 1) as nat, 0);
    }
    if n < m && m > 3 {
        every_path_is_tried_once((m - 1) as nat, 0);
    }
}

/// The synchronous transform serves the plain chroma alone, and there before the hardware's;
/// one that can be used is always used.
pub proof fn transforms_fit_the_chroma(chroma: Chroma, has_sync: bool, has_hardware: bool)
    ensures
        ({
            let t = transform_for(chroma, has_sync, has_hardware);
            &&& t == Some(MfTransform::Sync) ==> has_sync && chroma is Yuv420
            &&& t == Some(MfTransform::Hardware) ==> has_hardware
            &&& has_sync && chroma is Yuv420 ==> t == Some(MfTransform::Sync)
            &&& has_hardware ==> t is Some
            &&& chroma is Yuv444 ==> (t is Some <==> has_hardware)
            &&& t is None ==> !has_hardware && (!has_sync || chroma is Yuv444)
        }),
{
}

proof fn lemma_places(available: Seq<Subtype>, want: Subtype, n: int, i: usize)
    requires
        0 <= n <= available.len(),
        n <= usize::MAX,
    ensures
        places(available, want, n).contains(i) <==> (i < n && available[i as int] == want),
        forall|a: int, b: int|
            0 <= a < b < places(available, want, n).len() ==> places(available, want, n)[a]
                < places(available, want, n)[b],
        forall|a: int|
            0 <= a < places(available, want, n).len() ==> (#[trigger] places(
                available,
                want,
                n,
            )[a]) < n && available[places(available, want, n)[a] as int] == want,
    decreases n,
{
    if n > 0 {
        lemma_places(available, want, n - 1, i);
        let before = places(available, want, n - 1);
        let all = places(available, want, n);
        if available[n - 1] == want {
            assert(all =~= before.push((n - 1) as usize));
            if before.contains(i) {
                let p = choose|p: int| 0 <= p < before.len() && before[p] == i;
                assert(all[p] == i);
            }
            if i == n - 1 {
                assert(all[before.len() as int] == i);
            }
            if all.contains(i) {
                let p = choose|p: int| 0 <= p < all.len() && all[p] == i;
                if p < before.len() {
                    assert(before[p] == i);
                    assert(before.contains(i));
                }
            }
        }
    }
}

/// Of the first thirty-two output types all with the best subtype for the chroma are tried,
/// then all with the second best, each group in the order in which they are offered. For the
/// plain chroma the very first type is the last resort; for full chroma there is none.
pub proof fn outputs_are_tried_by_preference(
    available: Seq<Subtype>,
    chroma: Chroma,
    k: usize,
    a: int,
    b: int,
)
    ensures
        ({
            let order = output_order(available, chroma);
            let best = if chroma is Yuv444 {
                Subtype::Ayuv
            } else {
                Subtype::Nv12
            };
            let second = if chroma is Yuv444 {
                Subtype::Argb32
            } else {
                Subtype::Ayuv
            };
            let tried = if chroma is Yuv420 && available.len() > 0 {
                order.drop_last()
            } else {
                order
            };
            &&& tried.contains(k) <==> k < 32 && k < available.len() && (available[k as int] == best
                || available[k as int] == second)
            &&& 0 <= a < b < tried.len() ==> {
                let (x, y) = (tried[a] as int, tried[b] as int);
                (available[x] == available[y] && x < y) || (available[x] == best && available[y]
                    == second)
            }
            &&& chroma is Yuv420 && available.len() > 0 ==> order.len() > 0 && order.last() == 0
        }),
{
    let order = output_order(available, chroma);
    let n = looked_at(available);
    let (best, second) = preferred(chroma);
    let (p, q) = (places(available, best, n), places(available, second, n));
    lemma_places(available, best, n, k);
    lemma_places(available, second, n, k);
    let tried = if chroma is Yuv420 && available.len() > 0 {
        order.drop_last()
    } else {
        order
    };
    assert(tried =~= p + q);
    if p.contains(k) {
        let x = choose|x: int| 0 <= x < p.len() && p[x] == k;
        assert(tried[x] == k);
    }
    if q.contains(k) {
        let x = choose|x: int| 0 <= x < q.len() && q[x] == k;
        assert(tried[x + p.len()] == k);
    }
    if tried.contains(k) {
        let x = choose|x: int| 0 <= x < tried.len() && tried[x] == k;
        if x < p.len() {
            assert(p[x] == k);
        } else {
            assert(q[x - p.len()] == k);
        }
    }
}

/// An input buffer holds what goes in with a kilobyte to spare, and what the decoder asks for
/// likewise; it is a multiple of the alignment and wastes less than one.
pub proof fn input_buffers_fit(len: nat, min_input: u32, input_align: u32)
    requires
        len + 1024 + input_align <= u32::MAX,
        min_input + 1024 + input_align <= u32::MAX,
    ensures
        ({
            let r = input_size(len, min_input, input_align);
            let larger = if len >= min_input {
                len as int
            } else {
                min_input as int
            };
            &&& r >= larger + 1024
            &&& input_align > 0 ==> r < larger + 1024 + input_align && r as int % input_align as int
                == 0
            &&& input_align == 0 ==> r == larger + 1024
        }),
{
    let align = one_up(input_align) as int;
    let larger = if len >= min_input {
        len as int
    } else {
        min_input as int
    };
    let top = larger + 1024 + align - 1;
    assert(len % 0x1_0000_0000 == len);
    vstd::arithmetic::div_mod::lemma_fundamental_div_mod(top, align);
    vstd::arithmetic::div_mod::lemma_mod_bound(top, align);
    let q = top / align;
    assert(q * align == align * q) by (nonlinear_arith);
    vstd::arithmetic::div_mod::lemma_mod_multiples_basic(q, align);
    if align == 1 {
        assert(q * align == q) by (nonlinear_arith)
            requires
                align == 1,
        ;
    }
}

/// An output buffer holds a frame of four bytes a pixel where that can be counted, what is
/// asked for, and never nothing; it is no larger than one of these.
pub proof fn output_buffers_fit(wanted: u32, width: u32, height: u32)
    ensures
        ({
            let r = output_size(wanted, width, height);
            let frame = 4 * (width * height);
            &&& r >= 1 && r >= wanted
            &&& frame <= u32::MAX ==> r >= frame
            &&& frame > u32::MAX ==> r == u32::MAX
            &&& r == wanted || r == frame || r == 1 || r == u32::MAX
            &&& wanted == 0 && 0 < frame <= u32::MAX ==> r == frame
            &&& frame <= wanted && 0 < wanted ==> r == wanted
        }),
{
    assert(width * height >= 0) by (nonlinear_arith)
        requires
            width >= 0,
            height >= 0,
    ;
}

/// Draining goes on after a change of the stream, which says who provides the samples, and
/// after a buffer that was too small, up to four times, with samples of its own; a frame comes
/// out of a call that has one, and nothing else ends it but the need for more input and
/// failure.
pub proof fn draining_goes_on(d: Drain, provides: bool)
    requires
        d.too_small < 250,
    ensures
        d.next(OutputOutcome::Done { sample: true }) == (d, DrainStep::Frame),
        d.next(OutputOutcome::Done { sample: false }) == (d, DrainStep::Nothing),
        d.next(OutputOutcome::NeedMoreInput) == (d, DrainStep::Nothing),
        d.next(OutputOutcome::Failed).1 is Fail,
        ({
            let (n, step) = d.next(OutputOutcome::StreamChange { provides });
            step is Retry && n.provides_samples == provides && n.too_small == d.too_small
        }),
        ({
            let (n, step) = d.next(OutputOutcome::TooSmall);
            &&& step is Retry || step is Fail
            &&& step is Retry <==> d.too_small < 4
            &&& step is Retry ==> !n.provides_samples
            &&& n.too_small == d.too_small + 1
        }),
{
}

/// Black and white say nothing of how a picture is stored. A pixel that is green and hardly
/// anything else gives away a picture that was not converted.
pub proof fn green_gives_away_raw_pictures(p: Pixel)
    ensures
        p.blank() <==> p.b == p.g && p.g == p.r && (p.g == 0 || p.g == 255),
        p.yuv_as_rgb() <==> p.g >= 41 && p.r <= 19 && p.b <= 19,
{
}

/// A surface that can be shown as it is, is shown; only for full chroma is one dropped that
/// was not converted. Any other is converted where that can be done, and dropped where not.
pub proof fn surfaces_are_shown_or_converted(
    chroma: Chroma,
    format: SurfaceFormat,
    pixel: Option<Pixel>,
    has_csc: bool,
)
    ensures
        ({
            let step = surface_step(chroma, format, pixel, has_csc);
            let raw = pixel matches Some(p) && p.g >= 41 && p.r <= 19 && p.b <= 19;
            &&& step is Present ==> format is Bgra8
            &&& step is Convert <==> has_csc && !(format is Bgra8)
            &&& chroma is Yuv420 && format is Bgra8 ==> step is Present
            &&& chroma is Yuv444 && format is Bgra8 ==> (step is Drop <==> raw)
            &&& !(format is Bgra8) && !has_csc ==> step is Drop
        }),
{
}

/// A negative code is a failure, whatever comes with it; a surface is there only where both the
/// code and the pointer say so.
pub proof fn codes_tell_surfaces(rc: i32, has_surface: bool)
    ensures
        surface_outcome(rc, has_surface) is Failed <==> rc < 0,
        surface_outcome(rc, has_surface) is Surface <==> rc > 0 && has_surface,
{
}

/// A drain starts with its four tries before it, and with the samples as the decoder has them.
pub proof fn drains_start_with_all_tries(provides: bool, n: nat)
    requires
        1 <= n <= 5,
    ensures
        Drain::start(provides).provides_samples == provides,
        after_too_small(Drain::start(provides), n).1 is Fail <==> n == 5,
{
    too_small_gives_up(provides);
    let d = Drain { too_small: 0, provides_samples: provides };
    assert(n <= 4 ==> after_too_small(d, n).1 == DrainStep::Retry);
}

} // verus!
