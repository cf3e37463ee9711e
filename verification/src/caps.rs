//! Codec capabilities and format negotiation.

use vstd::prelude::*;

use crate::bytes::same_str;

verus! {

/// HEVC is the only codec in v1. Hardware 4:4:4 is HEVC RExt / Main 4:4:4.
#[derive(Debug, Clone, Copy, PartialEq, Eq, Hash, Structural)]
pub enum Codec {
    Hevc,
}

#[derive(Debug, Clone, Copy, PartialEq, Eq, Hash, Structural)]
pub enum Chroma {
    /// True-color path. Prefer this when both peers advertise it.
    Yuv444,
    /// Hardware-universal fallback on Apple Media Engine and older GPUs.
    Yuv420,
}

#[derive(Debug, Clone, Copy, PartialEq, Eq, Hash, Structural)]
pub enum EncodeBackend {
    Nvenc,
    Qsv,
    VideoToolbox,
}

#[derive(Debug, Clone, Copy, PartialEq, Eq, Hash, Structural)]
pub enum DecodeBackend {
    Nvdec,
    D3d11va,
    Qsv,
    VideoToolbox,
}

#[derive(Debug, Clone, Copy, PartialEq, Eq, Structural)]
pub struct CodecCap {
    pub codec: Codec,
    pub chroma: Chroma,
    pub bit_depth: u8,
    pub max_width: u16,
    pub max_height: u16,
    pub encode: Option<EncodeBackend>,
    pub decode: Option<DecodeBackend>,
}

impl CodecCap {
    /// What an encoder offers.
    pub open spec fn encoder(
        backend: EncodeBackend,
        chroma: Chroma,
        max_width: u16,
        max_height: u16,
    ) -> CodecCap {
        CodecCap {
            codec: Codec::Hevc,
            chroma,
            bit_depth: 8,
            max_width,
            max_height,
            encode: Some(backend),
            decode: None,
        }
    }

    /// What a decoder offers.
    pub open spec fn decoder(
        backend: DecodeBackend,
        chroma: Chroma,
        max_width: u16,
        max_height: u16,
    ) -> CodecCap {
        CodecCap {
            codec: Codec::Hevc,
            chroma,
            bit_depth: 8,
            max_width,
            max_height,
            encode: None,
            decode: Some(backend),
        }
    }

    pub fn encode(
        backend: EncodeBackend,
        chroma: Chroma,
        max_width: u16,
        max_height: u16,
    ) -> (r: CodecCap)
        ensures
            r == (CodecCap {
                codec: Codec::Hevc,
                chroma,
                bit_depth: 8,
                max_width,
                max_height,
                encode: Some(backend),
                decode: None,
            }),
            r == CodecCap::encoder(backend, chroma, max_width, max_height),
    {
        CodecCap {
            codec: Codec::Hevc,
            chroma,
            bit_depth: 8,
            max_width,
            max_height,
            encode: Some(backend),
            decode: None,
        }
    }

    pub fn decode(
        backend: DecodeBackend,
        chroma: Chroma,
        max_width: u16,
        max_height: u16,
    ) -> (r: CodecCap)
        ensures
            r == (CodecCap {
                codec: Codec::Hevc,
                chroma,
                bit_depth: 8,
                max_width,
                max_height,
                encode: None,
                decode: Some(backend),
            }),
            r == CodecCap::decoder(backend, chroma, max_width, max_height),
    {
        CodecCap {
            codec: Codec::Hevc,
            chroma,
            bit_depth: 8,
            max_width,
            max_height,
            encode: None,
            decode: Some(backend),
        }
    }
}

#[derive(Debug, PartialEq, Eq)]
pub struct Caps {
    pub encode: Vec<CodecCap>,
    pub decode: Vec<CodecCap>,
    pub audio: bool,
    pub input: bool,
    pub platform: Platform,
}

/// What a `Caps` says.
#[verifier::ext_equal]
pub struct CapsModel {
    pub encode: Seq<CodecCap>,
    pub decode: Seq<CodecCap>,
    pub audio: bool,
    pub input: bool,
    pub platform: Platform,
}

impl View for Caps {
    type V = CapsModel;

    open spec fn view(&self) -> CapsModel {
        CapsModel {
            encode: self.encode@,
            decode: self.decode@,
            audio: self.audio,
            input: self.input,
            platform: self.platform,
        }
    }
}

impl Clone for Caps {
    fn clone(&self) -> (r: Caps)
        ensures
            r@ == self@,
    {
        Caps {
            encode: copy_caps(&self.encode),
            decode: copy_caps(&self.decode),
            audio: self.audio,
            input: self.input,
            platform: self.platform,
        }
    }
}

/// The same capabilities in a vector of their own.
pub fn copy_caps(v: &Vec<CodecCap>) -> (r: Vec<CodecCap>)
    ensures
        r@ == v@,
{
    let mut r: Vec<CodecCap> = Vec::new();
    let mut i: usize = 0;
    while i < v.len()
        invariant
            i <= v@.len(),
            r@ == v@.take(i as int),
        decreases v@.len() - i,
    {
        r.push(v[i]);
        i = i + 1;
        assert(r@ =~= v@.take(i as int));
    }
    assert(r@ =~= v@);
    r
}

/// Whether a list offers a chroma format.
pub fn offers_chroma(caps: &Vec<CodecCap>, chroma: Chroma) -> (r: bool)
    ensures
        r == exists|i: int| 0 <= i < caps@.len() && (#[trigger] caps@[i]).chroma == chroma,
        r == has_chroma(caps@, chroma),
{
    let mut i: usize = 0;
    while i < caps.len()
        invariant
            i <= caps@.len(),
            forall|j: int| 0 <= j < i ==> (#[trigger] caps@[j]).chroma != chroma,
        decreases caps@.len() - i,
    {
        let c = caps[i];
        if c.chroma == chroma {
            assert(caps@[i as int].chroma == chroma);
            return true;
        }
        i = i + 1;
    }
    false
}

impl Default for Caps {
    fn default() -> (r: Caps)
        ensures
            r@ == (CapsModel {
                encode: Seq::empty(),
                decode: Seq::empty(),
                audio: false,
                input: false,
                platform: Platform::Unknown,
            }),
    {
        Caps {
            encode: Vec::new(),
            decode: Vec::new(),
            audio: false,
            input: false,
            platform: Platform::Unknown,
        }
    }
}

#[derive(Debug, Clone, Copy, PartialEq, Eq, Structural)]
pub enum Platform {
    Unknown,
    Windows,
    Macos,
}

impl Default for Platform {
    fn default() -> (r: Platform)
        ensures
            r == Platform::Unknown,
    {
        Platform::Unknown
    }
}

impl Platform {
    /// The platform that a target operating system name stands for.
    pub open spec fn of_os(target_os: Seq<char>) -> Platform {
        if target_os == "windows"@ {
            Platform::Windows
        } else if target_os == "macos"@ {
            Platform::Macos
        } else {
            Platform::Unknown
        }
    }

    /// The platform a build for `target_os` runs on.
    pub fn current(target_os: &str) -> (r: Platform)
        ensures
            r == Platform::of_os(target_os@),
    {
        if same_str(target_os, "windows") {
            Platform::Windows
        } else if same_str(target_os, "macos") {
            Platform::Macos
        } else {
            Platform::Unknown
        }
    }
}

/// The chroma format a user asks for. `Auto` leaves the choice to negotiation.
#[derive(Debug, Clone, Copy, PartialEq, Eq, Structural)]
pub enum ChromaPref {
    Auto,
    Yuv420,
    Yuv444,
}

impl Default for ChromaPref {
    fn default() -> (r: ChromaPref)
        ensures
            r == ChromaPref::Auto,
    {
        ChromaPref::Auto
    }
}

impl ChromaPref {
    /// The name shown for the preference.
    pub open spec fn name(self) -> Seq<char> {
        match self {
            ChromaPref::Auto => "Auto"@,
            ChromaPref::Yuv420 => "4:2:0"@,
            ChromaPref::Yuv444 => "4:4:4"@,
        }
    }

    pub fn label(self) -> (r: &'static str)
        ensures
            r@ == self.name(),
    {
        match self {
            ChromaPref::Auto => "Auto",
            ChromaPref::Yuv420 => "4:2:0",
            ChromaPref::Yuv444 => "4:4:4",
        }
    }
}

#[derive(Debug, Clone, Copy, PartialEq, Eq, Structural)]
pub struct NegotiatedFormat {
    pub codec: Codec,
    pub chroma: Chroma,
    pub bit_depth: u8,
    pub encode: EncodeBackend,
    pub decode: DecodeBackend,
    pub width: u16,
    pub height: u16,
}

impl NegotiatedFormat {
    pub fn chroma_label(&self) -> (r: &'static str)
        ensures
            r@ == match self.chroma {
                Chroma::Yuv444 => "4:4:4 true color"@,
                Chroma::Yuv420 => "4:2:0 (chroma subsampled fallback)"@,
            },
    {
        match self.chroma {
            Chroma::Yuv444 => "4:4:4 true color",
            Chroma::Yuv420 => "4:2:0 (chroma subsampled fallback)",
        }
    }
}

/// Whether `c` offers to encode `chroma`.
pub open spec fn encodes(c: CodecCap, chroma: Chroma) -> bool {
    c.chroma == chroma && c.codec == Codec::Hevc && c.encode is Some
}

/// Whether `d` offers to decode `chroma` at `bit_depth`.
pub open spec fn decodes(d: CodecCap, chroma: Chroma, bit_depth: u8) -> bool {
    d.chroma == chroma && d.codec == Codec::Hevc && d.decode is Some && d.bit_depth == bit_depth
}

/// The smaller of two sizes.
pub open spec fn smaller(a: u16, b: u16) -> u16 {
    if a <= b {
        a
    } else {
        b
    }
}

/// The format that an encoder and a decoder agree on.
pub open spec fn agreed(enc: CodecCap, dec: CodecCap, chroma: Chroma) -> NegotiatedFormat {
    NegotiatedFormat {
        codec: Codec::Hevc,
        chroma,
        bit_depth: enc.bit_depth,
        encode: enc.encode->0,
        decode: dec.decode->0,
        width: smaller(enc.max_width, dec.max_width),
        height: smaller(enc.max_height, dec.max_height),
    }
}

/// Whether some decoder in `decode` handles `chroma` at `bit_depth`.
pub open spec fn decodable(decode: Seq<CodecCap>, chroma: Chroma, bit_depth: u8) -> bool {
    exists|j: int| 0 <= j < decode.len() && decodes(#[trigger] decode[j], chroma, bit_depth)
}

/// Whether encoder `i` and decoder `j` are the first pair that shares `chroma`: the
/// first encoder that any decoder can follow, with the first such decoder.
pub open spec fn first_pair(
    encode: Seq<CodecCap>,
    decode: Seq<CodecCap>,
    chroma: Chroma,
    i: int,
    j: int,
) -> bool {
    &&& 0 <= i < encode.len()
    &&& 0 <= j < decode.len()
    &&& encodes(encode[i], chroma)
    &&& decodes(decode[j], chroma, encode[i].bit_depth)
    &&& forall|k: int|
        0 <= k < i && encodes(#[trigger] encode[k], chroma) ==> !decodable(
            decode,
            chroma,
            encode[k].bit_depth,
        )
    &&& forall|k: int|
        0 <= k < j ==> !decodes(#[trigger] decode[k], chroma, encode[i].bit_depth)
}

/// Whether host and client share `chroma` at all.
pub open spec fn shares(encode: Seq<CodecCap>, decode: Seq<CodecCap>, chroma: Chroma) -> bool {
    exists|i: int|
        0 <= i < encode.len() && encodes(#[trigger] encode[i], chroma) && decodable(
            decode,
            chroma,
            encode[i].bit_depth,
        )
}

/// Whether `r` is the outcome of looking for `chroma` on both sides.
pub open spec fn is_match(
    encode: Seq<CodecCap>,
    decode: Seq<CodecCap>,
    chroma: Chroma,
    r: Option<NegotiatedFormat>,
) -> bool {
    match r {
        Some(f) => exists|i: int, j: int|
            #[trigger] first_pair(encode, decode, chroma, i, j) && f == agreed(
                encode[i],
                decode[j],
                chroma,
            ),
        None => !shares(encode, decode, chroma),
    }
}

/// The chroma tried first under a preference.
pub open spec fn first_choice(host: Platform, client: Platform, pref: ChromaPref) -> Chroma {
    match pref {
        ChromaPref::Yuv420 => Chroma::Yuv420,
        ChromaPref::Yuv444 => Chroma::Yuv444,
        ChromaPref::Auto => if host == Platform::Macos && client == Platform::Windows {
            Chroma::Yuv420
        } else {
            Chroma::Yuv444
        },
    }
}

/// The chroma tried when `c` is not shared.
pub open spec fn other_chroma(c: Chroma) -> Chroma {
    match c {
        Chroma::Yuv444 => Chroma::Yuv420,
        Chroma::Yuv420 => Chroma::Yuv444,
    }
}

/// Whether `r` is what host and client settle on: the first choice where both sides
/// share it, the other chroma where they share only that, and nothing otherwise.
pub open spec fn is_negotiated(
    host: CapsModel,
    client: CapsModel,
    pref: ChromaPref,
    r: Option<NegotiatedFormat>,
) -> bool {
    let c = first_choice(host.platform, client.platform, pref);
    if shares(host.encode, client.decode, c) {
        r is Some && is_match(host.encode, client.decode, c, r)
    } else {
        is_match(host.encode, client.decode, other_chroma(c), r)
    }
}

/// What host and client settle on.
pub open spec fn negotiated(
    host: CapsModel,
    client: CapsModel,
    pref: ChromaPref,
) -> Option<NegotiatedFormat> {
    choose|r: Option<NegotiatedFormat>| is_negotiated(host, client, pref, r)
}

/// The first decoder that handles `chroma` at `bit_depth`.
fn find_decoder(decode: &Vec<CodecCap>, chroma: Chroma, bit_depth: u8) -> (r: Option<usize>)
    ensures
        match r {
            Some(j) => j < decode@.len() && decodes(decode@[j as int], chroma, bit_depth)
                && forall|k: int|
                0 <= k < j ==> !decodes(#[trigger] decode@[k], chroma, bit_depth),
            None => !decodable(decode@, chroma, bit_depth),
        },
{
    let mut j: usize = 0;
    while j < decode.len()
        invariant
            j <= decode@.len(),
            forall|k: int| 0 <= k < j ==> !decodes(#[trigger] decode@[k], chroma, bit_depth),
        decreases decode@.len() - j,
    {
        let d = decode[j];
        if d.chroma == chroma && d.codec == Codec::Hevc && d.decode.is_some() && d.bit_depth
            == bit_depth {
            return Some(j);
        }
        j = j + 1;
    }
    None
}

fn min_u16(a: u16, b: u16) -> (r: u16)
    ensures
        r == smaller(a, b),
{
    if a <= b {
        a
    } else {
        b
    }
}

/// The first encoder with a decoder to match, for one chroma.
fn negotiate_chroma(
    encode: &Vec<CodecCap>,
    decode: &Vec<CodecCap>,
    chroma: Chroma,
) -> (r: Option<NegotiatedFormat>)
    ensures
        is_match(encode@, decode@, chroma, r),
        r is Some <==> shares(encode@, decode@, chroma),
{
    let mut i: usize = 0;
    while i < encode.len()
        invariant
            i <= encode@.len(),
            forall|k: int|
                0 <= k < i && encodes(#[trigger] encode@[k], chroma) ==> !decodable(
                    decode@,
                    chroma,
                    encode@[k].bit_depth,
                ),
        decreases encode@.len() - i,
    {
        let enc = encode[i];
        if enc.chroma == chroma && enc.codec == Codec::Hevc {
            if let Some(e) = enc.encode {
                if let Some(j) = find_decoder(decode, chroma, enc.bit_depth) {
                    let dec = decode[j];
                    if let Some(d) = dec.decode {
                        let f = NegotiatedFormat {
                            codec: Codec::Hevc,
                            chroma,
                            bit_depth: enc.bit_depth,
                            encode: e,
                            decode: d,
                            width: min_u16(enc.max_width, dec.max_width),
                            height: min_u16(enc.max_height, dec.max_height),
                        };
                        assert(first_pair(encode@, decode@, chroma, i as int, j as int));
                        assert(decodable(decode@, chroma, enc.bit_depth));
                        return Some(f);
                    }
                }
            }
        }
        i = i + 1;
    }
    None
}

/// Prefer HEVC 4:4:4 8-bit, then HEVC 4:2:0. Intersection of host encode and client decode.
///
/// Mac host → Windows client stays on 4:2:0 for now. Intel D3D11VA advertises HEVC
/// Main 4:4:4, but VideoToolbox Main 4:4:4 bitstreams present as a white frame
/// (mouse/keyboard still work). Windows host → Mac client remains the 4:4:4 path.
pub fn negotiate(host: &Caps, client: &Caps) -> (r: Option<NegotiatedFormat>)
    ensures
        is_negotiated(host@, client@, ChromaPref::Auto, r),
        r == negotiated(host@, client@, ChromaPref::Auto),
        r == settled(host@, client@),
{
    negotiate_with_pref(host, client, ChromaPref::Auto)
}

/// Negotiation with the chroma of `pref` tried first.
pub fn negotiate_with_pref(
    host: &Caps,
    client: &Caps,
    pref: ChromaPref,
) -> (r: Option<NegotiatedFormat>)
    ensures
        is_negotiated(host@, client@, pref, r),
        r == negotiated(host@, client@, pref),
{
    let first = match pref {
        ChromaPref::Yuv420 => Chroma::Yuv420,
        ChromaPref::Yuv444 => Chroma::Yuv444,
        ChromaPref::Auto => if host.platform == Platform::Macos && client.platform
            == Platform::Windows {
            Chroma::Yuv420
        } else {
            Chroma::Yuv444
        },
    };
    let second = match first {
        Chroma::Yuv444 => Chroma::Yuv420,
        Chroma::Yuv420 => Chroma::Yuv444,
    };
    let mut r = negotiate_chroma(&host.encode, &client.decode, first);
    if r.is_none() {
        r = negotiate_chroma(&host.encode, &client.decode, second);
    }
    proof {
        negotiation_succeeds(host@, client@, pref);
        negotiation_is_determined(host@, client@, pref, r, negotiated(host@, client@, pref));
    }
    r
}

/// Negotiation is a function of the two sides: whatever both allow is one format.
pub proof fn negotiation_is_determined(
    host: CapsModel,
    client: CapsModel,
    pref: ChromaPref,
    a: Option<NegotiatedFormat>,
    b: Option<NegotiatedFormat>,
)
    requires
        is_negotiated(host, client, pref, a),
        is_negotiated(host, client, pref, b),
    ensures
        a == b,
{
    let c = first_choice(host.platform, client.platform, pref);
    lemma_match_unique(host.encode, client.decode, c, a, b);
    lemma_match_unique(host.encode, client.decode, other_chroma(c), a, b);
}

proof fn lemma_match_unique(
    encode: Seq<CodecCap>,
    decode: Seq<CodecCap>,
    chroma: Chroma,
    a: Option<NegotiatedFormat>,
    b: Option<NegotiatedFormat>,
)
    ensures
        is_match(encode, decode, chroma, a) && is_match(encode, decode, chroma, b) ==> a == b,
{
    if is_match(encode, decode, chroma, a) && is_match(encode, decode, chroma, b) {
        if a is Some {
            let (i, j) = choose|i: int, j: int| #[trigger]
                first_pair(encode, decode, chroma, i, j) && a->0 == agreed(
                    encode[i],
                    decode[j],
                    chroma,
                );
            assert(decodable(decode, chroma, encode[i].bit_depth));
            if b is Some {
                let (m, n) = choose|i: int, j: int| #[trigger]
                    first_pair(encode, decode, chroma, i, j) && b->0 == agreed(
                        encode[i],
                        decode[j],
                        chroma,
                    );
                assert(decodable(decode, chroma, encode[m].bit_depth));
                assert(i == m);
                assert(j == n);
            }
        } else if b is Some {
            let (m, n) = choose|i: int, j: int| #[trigger]
                first_pair(encode, decode, chroma, i, j) && b->0 == agreed(
                    encode[i],
                    decode[j],
                    chroma,
                );
            assert(decodable(decode, chroma, encode[m].bit_depth));
        }
    }
}

/// Two sides always settle on something, if only on nothing: `negotiated` is what they
/// settle on.
pub proof fn negotiation_succeeds(host: CapsModel, client: CapsModel, pref: ChromaPref)
    ensures
        is_negotiated(host, client, pref, negotiated(host, client, pref)),
{
    let first = first_choice(host.platform, client.platform, pref);
    let c = if shares(host.encode, client.decode, first) {
        first
    } else {
        other_chroma(first)
    };
    if shares(host.encode, client.decode, c) {
        let (i, j) = lemma_first_pair(host.encode, client.decode, c);
        let f = agreed(host.encode[i], client.decode[j], c);
        assert(first_pair(host.encode, client.decode, c, i, j));
        assert(is_negotiated(host, client, pref, Some(f)));
    } else {
        assert(is_negotiated(host, client, pref, None));
    }
}

/// Where a chroma is shared there is a first pair for it.
proof fn lemma_first_pair(encode: Seq<CodecCap>, decode: Seq<CodecCap>, chroma: Chroma) -> (r: (
    int,
    int,
))
    requires
        shares(encode, decode, chroma),
    ensures
        first_pair(encode, decode, chroma, r.0, r.1),
{
    let works = |i: int|
        0 <= i < encode.len() && encodes(encode[i], chroma) && decodable(
            decode,
            chroma,
            encode[i].bit_depth,
        );
    let some = choose|i: int|
        0 <= i < encode.len() && encodes(#[trigger] encode[i], chroma) && decodable(
            decode,
            chroma,
            encode[i].bit_depth,
        );
    assert(works(some));
    let i = lemma_least(works, some);
    let depth = encode[i].bit_depth;
    let follows = |j: int| 0 <= j < decode.len() && decodes(decode[j], chroma, depth);
    let other = choose|j: int|
        0 <= j < decode.len() && decodes(#[trigger] decode[j], chroma, depth);
    assert(follows(other));
    let j = lemma_least(follows, other);
    assert forall|k: int| 0 <= k < i && encodes(#[trigger] encode[k], chroma) implies !decodable(
        decode,
        chroma,
        encode[k].bit_depth,
    ) by {
        assert(!works(k));
    }
    assert forall|k: int| 0 <= k < j implies !decodes(#[trigger] decode[k], chroma, depth) by {
        assert(!follows(k));
    }
    (i, j)
}

/// The least number with a property that some number from zero up to `n` has.
proof fn lemma_least(p: spec_fn(int) -> bool, n: int) -> (r: int)
    requires
        p(n),
        n >= 0,
    ensures
        p(r),
        0 <= r <= n,
        forall|k: int| 0 <= k < r ==> !#[trigger] p(k),
    decreases n,
{
    if exists|k: int| 0 <= k < n && #[trigger] p(k) {
        let k = choose|k: int| 0 <= k < n && #[trigger] p(k);
        lemma_least(p, k)
    } else {
        n
    }
}

/// A negotiated format lies in the intersection of what the host encodes and what the
/// client decodes, and its size exceeds neither side's limit.
pub proof fn negotiated_is_shared(
    host: CapsModel,
    client: CapsModel,
    pref: ChromaPref,
    f: NegotiatedFormat,
)
    requires
        is_negotiated(host, client, pref, Some(f)),
    ensures
        exists|i: int, j: int|
            {
                &&& 0 <= i < host.encode.len()
                &&& 0 <= j < client.decode.len()
                &&& encodes(#[trigger] host.encode[i], f.chroma)
                &&& decodes(#[trigger] client.decode[j], f.chroma, f.bit_depth)
                &&& host.encode[i].encode == Some(f.encode)
                &&& client.decode[j].decode == Some(f.decode)
                &&& host.encode[i].bit_depth == f.bit_depth
                &&& f.width <= host.encode[i].max_width && f.width <= client.decode[j].max_width
                &&& f.height <= host.encode[i].max_height && f.height
                    <= client.decode[j].max_height
            },
{
    let first = first_choice(host.platform, client.platform, pref);
    let c = if shares(host.encode, client.decode, first) {
        first
    } else {
        other_chroma(first)
    };
    let (i, j) = choose|i: int, j: int| #[trigger]
        first_pair(host.encode, client.decode, c, i, j) && f == agreed(
            host.encode[i],
            client.decode[j],
            c,
        );
    assert(encodes(host.encode[i], f.chroma));
    assert(decodes(client.decode[j], f.chroma, f.bit_depth));
}

/// Negotiation fails only when host and client share neither chroma, and settles on
/// 4:4:4 whenever both sides have it, unless a Mac hosts a Windows client.
pub proof fn negotiation_prefers_true_color(
    host: CapsModel,
    client: CapsModel,
    r: Option<NegotiatedFormat>,
)
    requires
        is_negotiated(host, client, ChromaPref::Auto, r),
    ensures
        r is None <==> !shares(host.encode, client.decode, Chroma::Yuv444) && !shares(
            host.encode,
            client.decode,
            Chroma::Yuv420,
        ),
        !(host.platform == Platform::Macos && client.platform == Platform::Windows) ==> (
        r matches Some(f) ==> (f.chroma == Chroma::Yuv444 <==> shares(
            host.encode,
            client.decode,
            Chroma::Yuv444,
        ))),
        host.platform == Platform::Macos && client.platform == Platform::Windows ==> (
        r matches Some(f) ==> (f.chroma == Chroma::Yuv420 <==> shares(
            host.encode,
            client.decode,
            Chroma::Yuv420,
        ))),
{
    let first = first_choice(host.platform, client.platform, ChromaPref::Auto);
    if r is Some {
        let c = if shares(host.encode, client.decode, first) {
            first
        } else {
            other_chroma(first)
        };
        let (i, j) = choose|i: int, j: int| #[trigger]
            first_pair(host.encode, client.decode, c, i, j) && r->0 == agreed(
                host.encode[i],
                client.decode[j],
                c,
            );
        assert(decodable(client.decode, c, host.encode[i].bit_depth));
        assert(shares(host.encode, client.decode, c));
    }
}

/// Whether an encoder and a decoder name one chroma at one bit depth.
pub open spec fn partners(e: CodecCap, d: CodecCap, chroma: Chroma) -> bool {
    &&& e.chroma == chroma && d.chroma == chroma
    &&& e.encode is Some && d.decode is Some
    &&& e.bit_depth == d.bit_depth
}

/// Whether there are such an encoder and decoder.
pub open spec fn common(encode: Seq<CodecCap>, decode: Seq<CodecCap>, chroma: Chroma) -> bool {
    exists|i: int, j: int|
        0 <= i < encode.len() && 0 <= j < decode.len() && #[trigger] partners(
            encode[i],
            decode[j],
            chroma,
        )
}

/// Sharing a chroma is no more than that.
pub proof fn sharing_is_having_in_common(encode: Seq<CodecCap>, decode: Seq<CodecCap>, chroma: Chroma)
    ensures
        shares(encode, decode, chroma) <==> common(encode, decode, chroma),
{
    if shares(encode, decode, chroma) {
        let i = choose|i: int|
            0 <= i < encode.len() && encodes(#[trigger] encode[i], chroma) && decodable(
                decode,
                chroma,
                encode[i].bit_depth,
            );
        let j = choose|j: int|
            0 <= j < decode.len() && decodes(#[trigger] decode[j], chroma, encode[i].bit_depth);
        assert(partners(encode[i], decode[j], chroma));
    }
    if common(encode, decode, chroma) {
        let (i, j) = choose|i: int, j: int|
            0 <= i < encode.len() && 0 <= j < decode.len() && #[trigger] partners(
                encode[i],
                decode[j],
                chroma,
            );
        assert(decodes(decode[j], chroma, encode[i].bit_depth));
        assert(encodes(encode[i], chroma));
    }
}

/// Whether `f` is what encoder `i` and decoder `j` manage together: their chroma, bit depth and
/// backends, at the largest size that neither exceeds.
pub open spec fn managed_by(e: CodecCap, d: CodecCap, f: NegotiatedFormat) -> bool {
    &&& partners(e, d, f.chroma)
    &&& e.encode == Some(f.encode) && d.decode == Some(f.decode)
    &&& e.bit_depth == f.bit_depth
    &&& f.width <= e.max_width && f.width <= d.max_width
    &&& f.width == e.max_width || f.width == d.max_width
    &&& f.height <= e.max_height && f.height <= d.max_height
    &&& f.height == e.max_height || f.height == d.max_height
}

proof fn lemma_first_of_all(
    encode: Seq<CodecCap>,
    decode: Seq<CodecCap>,
    chroma: Chroma,
    i: int,
    j: int,
    k: int,
    l: int,
)
    requires
        first_pair(encode, decode, chroma, i, j),
        0 <= k < encode.len(),
        0 <= l < decode.len(),
        partners(encode[k], decode[l], chroma),
    ensures
        i < k || (i == k && j <= l),
{
    assert(encodes(encode[k], chroma));
    assert(decodes(decode[l], chroma, encode[k].bit_depth));
    assert(decodable(decode, chroma, encode[k].bit_depth));
}

/// What negotiation gives, whatever it is, is one encoder of the host's and one decoder of the
/// client's that name one chroma and bit depth, at the largest size that both manage. Of these
/// the first encoder that has a partner is taken, and its first partner. Nothing comes out only
/// where there is nothing in common.
pub proof fn negotiation_pairs_the_first(
    host: CapsModel,
    client: CapsModel,
    pref: ChromaPref,
    r: Option<NegotiatedFormat>,
)
    requires
        is_negotiated(host, client, pref, r),
    ensures
        match r {
            Some(f) => exists|i: int, j: int|
                {
                    &&& 0 <= i < host.encode.len() && 0 <= j < client.decode.len()
                    &&& #[trigger] managed_by(host.encode[i], client.decode[j], f)
                    &&& forall|k: int, l: int|
                        0 <= k < host.encode.len() && 0 <= l < client.decode.len()
                            && #[trigger] partners(host.encode[k], client.decode[l], f.chroma)
                            ==> i < k || (i == k && j <= l)
                },
            None => !common(host.encode, client.decode, Chroma::Yuv444) && !common(
                host.encode,
                client.decode,
                Chroma::Yuv420,
            ),
        },
{
    sharing_is_having_in_common(host.encode, client.decode, Chroma::Yuv444);
    sharing_is_having_in_common(host.encode, client.decode, Chroma::Yuv420);
    let first = first_choice(host.platform, client.platform, pref);
    if let Some(f) = r {
        let c = if shares(host.encode, client.decode, first) {
            first
        } else {
            other_chroma(first)
        };
        let (i, j) = choose|i: int, j: int| #[trigger]
            first_pair(host.encode, client.decode, c, i, j) && f == agreed(
                host.encode[i],
                client.decode[j],
                c,
            );
        assert forall|k: int, l: int|
            0 <= k < host.encode.len() && 0 <= l < client.decode.len() && #[trigger] partners(
                host.encode[k],
                client.decode[l],
                f.chroma,
            ) implies i < k || (i == k && j <= l) by {
            lemma_first_of_all(host.encode, client.decode, c, i, j, k, l);
        }
        assert(managed_by(host.encode[i], client.decode[j], f));
    }
}

/// A chroma that is asked for is what comes out wherever both sides have it, and the other one
/// only where they have not. Left to itself, negotiation asks for 4:4:4, but from a Mac to
/// Windows for 4:2:0.
pub proof fn preferences_are_honoured(
    host: CapsModel,
    client: CapsModel,
    pref: ChromaPref,
    r: Option<NegotiatedFormat>,
)
    requires
        is_negotiated(host, client, pref, r),
    ensures
        ({
            let to_windows = host.platform == Platform::Macos && client.platform
                == Platform::Windows;
            let wants_420 = pref == ChromaPref::Yuv420 || (pref == ChromaPref::Auto && to_windows);
            &&& wants_420 && common(host.encode, client.decode, Chroma::Yuv420) ==> (r matches Some(
                f,
            ) && f.chroma == Chroma::Yuv420)
            &&& !wants_420 && common(host.encode, client.decode, Chroma::Yuv444) ==> (
            r matches Some(f) && f.chroma == Chroma::Yuv444)
            &&& wants_420 && !common(host.encode, client.decode, Chroma::Yuv420) && common(
                host.encode,
                client.decode,
                Chroma::Yuv444,
            ) ==> (r matches Some(f) && f.chroma == Chroma::Yuv444)
            &&& !wants_420 && !common(host.encode, client.decode, Chroma::Yuv444) && common(
                host.encode,
                client.decode,
                Chroma::Yuv420,
            ) ==> (r matches Some(f) && f.chroma == Chroma::Yuv420)
        }),
{
    sharing_is_having_in_common(host.encode, client.decode, Chroma::Yuv444);
    sharing_is_having_in_common(host.encode, client.decode, Chroma::Yuv420);
}

/// Whether a list offers a chroma format.
pub open spec fn has_chroma(caps: Seq<CodecCap>, chroma: Chroma) -> bool {
    exists|i: int| 0 <= i < caps.len() && (#[trigger] caps[i]).chroma == chroma
}

/// A list offers the chroma of each of its entries, whatever else they say, and no other.
pub proof fn lists_offer_what_is_in_them(caps: Seq<CodecCap>, c: CodecCap, chroma: Chroma)
    ensures
        !has_chroma(Seq::empty(), chroma),
        has_chroma(caps.push(c), chroma) <==> c.chroma == chroma || has_chroma(caps, chroma),
{
    let all = caps.push(c);
    if has_chroma(caps, chroma) {
        let i = choose|i: int| 0 <= i < caps.len() && (#[trigger] caps[i]).chroma == chroma;
        assert(all[i].chroma == chroma);
    }
    if c.chroma == chroma {
        assert(all[caps.len() as int].chroma == chroma);
    }
    if has_chroma(all, chroma) {
        let i = choose|i: int| 0 <= i < all.len() && (#[trigger] all[i]).chroma == chroma;
        if i < caps.len() {
            assert(caps[i].chroma == chroma);
        }
    }
}

/// An encoder and a decoder for one chroma agree on it, at the size that both manage, whatever
/// their kind; for two they do not.
pub proof fn capabilities_pair_by_chroma(
    e: EncodeBackend,
    d: DecodeBackend,
    c: Chroma,
    k: Chroma,
    ew: u16,
    eh: u16,
    dw: u16,
    dh: u16,
)
    ensures
        ({
            let enc = CodecCap::encoder(e, c, ew, eh);
            let dec = CodecCap::decoder(d, k, dw, dh);
            &&& enc.encode == Some(e) && enc.decode is None && enc.max_width == ew
                && enc.max_height == eh && enc.bit_depth == 8 && enc.codec is Hevc
            &&& dec.decode == Some(d) && dec.encode is None && dec.max_width == dw
                && dec.max_height == dh && dec.bit_depth == 8 && dec.codec is Hevc
            &&& partners(enc, dec, c) <==> c == k
            &&& !partners(dec, enc, c) && !partners(enc, enc, c) && !partners(dec, dec, c)
        }),
{
}

/// Only the two systems that have drivers of their own are told apart.
pub proof fn systems_are_known_by_name(name: Seq<char>)
    ensures
        Platform::of_os(name) == Platform::Windows <==> name == "windows"@,
        Platform::of_os(name) == Platform::Macos <==> name == "macos"@,
        Platform::of_os(name) == Platform::Unknown <==> name != "windows"@ && name != "macos"@,
{
    reveal_strlit("windows");
    reveal_strlit("macos");
    assert("windows"@.len() != "macos"@.len());
}

/// What host and client settle on where neither asks for a chroma.
pub open spec fn settled(host: CapsModel, client: CapsModel) -> Option<NegotiatedFormat> {
    negotiated(host, client, ChromaPref::Auto)
}

/// Left to themselves, host and client settle on full chroma whenever they have it in common,
/// but for a Mac that hosts a Windows client, where the plain one comes first; on the other one
/// where they have only that in common, and on nothing just where they have neither.
pub proof fn negotiation_left_alone_takes_full_chroma(host: CapsModel, client: CapsModel)
    ensures
        ({
            let r = settled(host, client);
            let full = common(host.encode, client.decode, Chroma::Yuv444);
            let plain = common(host.encode, client.decode, Chroma::Yuv420);
            let to_windows = host.platform == Platform::Macos && client.platform
                == Platform::Windows;
            &&& r is Some <==> full || plain
            &&& full && !to_windows ==> (r matches Some(f) && f.chroma == Chroma::Yuv444)
            &&& plain && to_windows ==> (r matches Some(f) && f.chroma == Chroma::Yuv420)
            &&& full && !plain ==> (r matches Some(f) && f.chroma == Chroma::Yuv444)
            &&& plain && !full ==> (r matches Some(f) && f.chroma == Chroma::Yuv420)
        }),
{
    let r = settled(host, client);
    negotiation_succeeds(host, client, ChromaPref::Auto);
    preferences_are_honoured(host, client, ChromaPref::Auto, r);
    negotiation_prefers_true_color(host, client, r);
    sharing_is_having_in_common(host.encode, client.decode, Chroma::Yuv444);
    sharing_is_having_in_common(host.encode, client.decode, Chroma::Yuv420);
}

} // verus!
