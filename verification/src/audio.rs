//! Audio framing. Samples are of any type here; what they sound like is the codec's
//! business.

use vstd::prelude::*;

use crate::messages::{AudioModel, AudioPacket};

verus! {

pub const CHANNELS: usize = 2;

/// 10 ms at 48 kHz.
pub const FRAME_SAMPLES: usize = 480;

/// Samples of both channels in one frame.
pub const FRAME_LEN: usize = 960;

/// More samples than this waiting for playback are thrown away.
pub const PLAY_BACKLOG: usize = 192_000;

/// Gathers samples into frames.
pub struct PcmGather<T> {
    buf: Vec<T>,
}

/// The frames that can be cut off `s`.
pub open spec fn whole_frames<T>(s: Seq<T>) -> Seq<Seq<T>>
    decreases s.len(),
{
    if s.len() < FRAME_LEN {
        Seq::empty()
    } else {
        seq![s.take(FRAME_LEN as int)] + whole_frames(s.skip(FRAME_LEN as int))
    }
}

/// What is left of `s` once all frames are cut off.
pub open spec fn remainder<T>(s: Seq<T>) -> Seq<T>
    decreases s.len(),
{
    if s.len() < FRAME_LEN {
        s
    } else {
        remainder(s.skip(FRAME_LEN as int))
    }
}

/// Sequences laid end to end.
pub open spec fn concatenated<T>(parts: Seq<Seq<T>>) -> Seq<T>
    decreases parts.len(),
{
    if parts.len() == 0 {
        Seq::empty()
    } else {
        parts[0] + concatenated(parts.skip(1))
    }
}

/// The views of a list of vectors.
pub open spec fn vec_views<T>(v: Seq<Vec<T>>) -> Seq<Seq<T>> {
    v.map_values(|x: Vec<T>| x@)
}

impl<T> View for PcmGather<T> {
    type V = Seq<T>;

    closed spec fn view(&self) -> Seq<T> {
        self.buf@
    }
}

impl<T: Copy> Default for PcmGather<T> {
    fn default() -> (r: PcmGather<T>)
        ensures
            r@ == Seq::<T>::empty(),
    {
        PcmGather::new()
    }
}

impl<T: Copy> PcmGather<T> {
    pub fn new() -> (r: PcmGather<T>)
        ensures
            r@ == Seq::<T>::empty(),
    {
        PcmGather { buf: Vec::new() }
    }

    /// Adds samples and gives the frames that are then whole.
    pub fn push(&mut self, samples: &[T]) -> (r: Vec<Vec<T>>)
        ensures
            vec_views(r@) == whole_frames(old(self)@ + samples@),
            final(self)@ == remainder(old(self)@ + samples@),
    {
        let mut i: usize = 0;
        let ghost start = self@;
        assert(self@ =~= start + samples@.take(0));
        while i < samples.len()
            invariant
                i <= samples@.len(),
                self@ == start + samples@.take(i as int),
            decreases samples@.len() - i,
        {
            self.buf.push(samples[i]);
            i = i + 1;
            assert(self@ =~= start + samples@.take(i as int));
        }
        let ghost all = self@;
        assert(all =~= old(self)@ + samples@);
        let mut out: Vec<Vec<T>> = Vec::new();
        assert(vec_views(out@) + whole_frames(self@) =~= whole_frames(all));
        while self.buf.len() >= FRAME_LEN
            invariant
                vec_views(out@) + whole_frames(self@) == whole_frames(all),
                remainder(self@) == remainder(all),
            decreases self@.len(),
        {
            let ghost before = self@;
            let ghost had = vec_views(out@);
            let rest = self.buf.split_off(FRAME_LEN);
            let mut frame: Vec<T> = rest;
            std::mem::swap(&mut self.buf, &mut frame);
            assert(frame@ =~= before.take(FRAME_LEN as int));
            assert(self@ =~= before.skip(FRAME_LEN as int));
            let ghost f = frame@;
            out.push(frame);
            proof {
                assert(vec_views(out@) =~= had.push(f));
                assert(vec_views(out@) + whole_frames(self@) =~= had + (seq![f] + whole_frames(
                    self@,
                )));
            }
        }
        assert(vec_views(out@) + whole_frames(self@) =~= vec_views(out@));
        out
    }
}

/// No sample is lost or moved: the frames and what is kept back are the samples that came
/// in. Every frame has the full length, and less than a frame is kept back.
pub proof fn gathering_keeps_samples<T>(s: Seq<T>)
    ensures
        concatenated(whole_frames(s)) + remainder(s) == s,
        remainder(s).len() < FRAME_LEN,
        forall|i: int|
            0 <= i < whole_frames(s).len() ==> (#[trigger] whole_frames(s)[i]).len() == FRAME_LEN,
    decreases s.len(),
{
    if s.len() < FRAME_LEN {
        assert(concatenated(whole_frames(s)) + remainder(s) =~= s);
    } else {
        let rest = s.skip(FRAME_LEN as int);
        gathering_keeps_samples(rest);
        assert(whole_frames(s).skip(1) =~= whole_frames(rest));
        assert(concatenated(whole_frames(s)) + remainder(s) =~= s.take(FRAME_LEN as int) + (
        concatenated(whole_frames(rest)) + remainder(rest)));
        assert(s.take(FRAME_LEN as int) + rest =~= s);
        assert forall|i: int| 0 <= i < whole_frames(s).len() implies (#[trigger] whole_frames(
            s,
        )[i]).len() == FRAME_LEN by {
            if i > 0 {
                assert(whole_frames(s)[i] == whole_frames(rest)[i - 1]);
            }
        }
    }
}

/// Numbers encoded frames.
#[derive(Debug, Clone, Copy, PartialEq, Eq, Structural)]
pub struct AudioSequencer {
    pub seq: u32,
}

impl AudioSequencer {
    /// The sequencer after a packet, and the packet: the first `len` bytes of `opus`.
    pub open spec fn packed(self, opus: Seq<u8>, len: nat) -> (AudioSequencer, AudioModel) {
        let seq = crate::reliable::after(self.seq);
        (
            AudioSequencer { seq },
            AudioModel {
                seq,
                samples: FRAME_SAMPLES as u16,
                opus: if len <= opus.len() {
                    opus.take(len as int)
                } else {
                    opus
                },
            },
        )
    }

    pub fn new() -> (r: AudioSequencer)
        ensures
            r.seq == 0,
    {
        AudioSequencer { seq: 0 }
    }

    /// The packet for a frame of which the first `len` bytes of `opus` are used. Numbers
    /// start at one and wrap.
    pub fn packet(&mut self, opus: Vec<u8>, len: usize) -> (r: AudioPacket)
        ensures
            final(self).seq == crate::reliable::after(old(self).seq),
            r@ == (AudioModel {
                seq: final(self).seq,
                samples: FRAME_SAMPLES as u16,
                opus: if len <= opus@.len() {
                    opus@.take(len as int)
                } else {
                    opus@
                },
            }),
            (*final(self), r@) == old(self).packed(opus@, len as nat),
    {
        let mut opus = opus;
        let ghost whole = opus@;
        if len <= opus.len() {
            opus.truncate(len);
            assert(opus@ =~= whole.take(len as int));
        }
        self.seq = if self.seq == u32::MAX {
            0
        } else {
            self.seq + 1
        };
        AudioPacket { seq: self.seq, samples: 480, opus }
    }
}

/// Whether the samples waiting for playback are thrown away before more are added.
pub fn play_overflows(waiting: usize) -> (r: bool)
    ensures
        r == (waiting > PLAY_BACKLOG),
        r == overflowing(waiting as nat),
{
    waiting > PLAY_BACKLOG
}

/// Sample `i` of the stereo signal of a recording with `channels` interleaved channels: the
/// first two channels, or the only one twice.
pub open spec fn stereo_sample<T>(samples: Seq<T>, channels: int, i: int) -> T {
    let frame = i / 2;
    if i % 2 == 0 || channels == 1 {
        samples[frame * channels]
    } else {
        samples[frame * channels + 1]
    }
}

/// The stereo signal of a recording with `channels` interleaved channels.
pub fn to_stereo<T: Copy>(samples: &[T], channels: usize) -> (r: Vec<T>)
    requires
        channels > 0,
        samples@.len() % channels as nat == 0,
        2 * (samples@.len() / channels as nat) <= usize::MAX,
    ensures
        r@ == Seq::new(
            2 * (samples@.len() / channels as nat),
            |i: int| stereo_sample(samples@, channels as int, i),
        ),
{
    let frames: usize = samples.len() / channels;
    let ghost all = Seq::new(
        2 * (samples@.len() / channels as nat),
        |i: int| stereo_sample(samples@, channels as int, i),
    );
    let mut out: Vec<T> = Vec::new();
    let mut f: usize = 0;
    let mut at: usize = 0;
    proof {
        vstd::arithmetic::div_mod::lemma_fundamental_div_mod(
            samples@.len() as int,
            channels as int,
        );
        assert(frames * channels == samples@.len()) by (nonlinear_arith)
            requires
                samples@.len() == channels * (samples@.len() as int / channels as int)
                    + samples@.len() as int % channels as int,
                samples@.len() as int % channels as int == 0,
                frames == samples@.len() as int / channels as int,
        ;
        assert(out@ =~= all.take(0));
    }
    while f < frames
        invariant
            channels > 0,
            f <= frames,
            frames * channels == samples@.len(),
            at == f * channels,
            2 * frames <= usize::MAX,
            all == Seq::new(
                (2 * frames) as nat,
                |i: int| stereo_sample(samples@, channels as int, i),
            ),
            out@ == all.take(2 * f as int),
        decreases frames - f,
    {
        assert(at + channels <= samples@.len()) by (nonlinear_arith)
            requires
                at == f * channels,
                f < frames,
                frames * channels == samples@.len(),
        ;
        out.push(samples[at]);
        out.push(
            if channels > 1 {
                samples[at + 1]
            } else {
                samples[at]
            },
        );
        proof {
            let i = 2 * f as int;
            assert(i / 2 == f && i % 2 == 0 && (i + 1) / 2 == f && (i + 1) % 2 == 1);
            assert(all[i] == samples@[at as int]);
            assert(out@ =~= all.take(i + 2));
            assert((f + 1) * channels == at + channels) by (nonlinear_arith)
                requires
                    at == f * channels,
            ;
        }
        f = f + 1;
        at = at + channels;
    }
    assert(out@ =~= all);
    out
}

/// Whether a mix format holds floating-point samples: by its tag, its width, or because it
/// is not plain PCM.
pub fn mix_is_float(format_tag: u16, bits: u16) -> (r: bool)
    ensures
        r == (bits == 32 || format_tag != 1),
        r == float_mix(format_tag, bits),
{
    // 3 is IEEE float, 0xFFFE extensible, 1 plain PCM.
    let is_float = format_tag == 3 || format_tag == 0xFFFE || bits == 32;
    is_float || format_tag != 1
}

/// Whether so many samples are too many to wait for playing.
pub open spec fn overflowing(waiting: nat) -> bool {
    waiting > PLAY_BACKLOG
}

/// Whether samples of a format are floats.
pub open spec fn float_mix(format_tag: u16, bits: u16) -> bool {
    bits == 32 || format_tag != 1
}

/// What is to play may pile up to two seconds: two channels of forty-eight thousand samples a
/// second.
pub proof fn backlog_is_two_seconds(waiting: nat)
    ensures
        overflowing(waiting) <==> waiting > 2 * 2 * 48_000,
{
}

/// Only plain PCM of another width than thirty-two bits is taken as integers.
pub proof fn plain_pcm_is_integers(bits: u16, tag: u16)
    ensures
        bits != 32 ==> !float_mix(1, bits),
        float_mix(tag, 32),
        tag == 3 || tag == 0xFFFE ==> float_mix(tag, bits),
        !float_mix(tag, bits) ==> tag == 1,
{
}

/// It makes no difference how the samples are cut up on their way in: the frames that come out
/// and what is left are the same.
pub proof fn gathering_is_independent_of_cuts<T>(s: Seq<T>, t: Seq<T>)
    ensures
        whole_frames(s + t) == whole_frames(s) + whole_frames(remainder(s) + t),
        remainder(s + t) == remainder(remainder(s) + t),
    decreases s.len(),
{
    if s.len() < FRAME_LEN {
        assert(whole_frames(s) + whole_frames(s + t) =~= whole_frames(s + t));
    } else {
        let rest = s.skip(FRAME_LEN as int);
        gathering_is_independent_of_cuts(rest, t);
        assert((s + t).skip(FRAME_LEN as int) =~= rest + t);
        assert((s + t).take(FRAME_LEN as int) =~= s.take(FRAME_LEN as int));
        assert(whole_frames(s + t) =~= whole_frames(s) + whole_frames(remainder(s) + t));
    }
}

/// A frame comes out for every four hundred and eighty samples of two channels, and holds them
/// in order.
pub proof fn frames_hold_ten_milliseconds<T>(s: Seq<T>, i: int, k: int)
    ensures
        whole_frames(s).len() == s.len() / 960,
        remainder(s).len() == s.len() % 960,
        0 <= i < whole_frames(s).len() ==> whole_frames(s)[i].len() == 2 * 480,
        0 <= i < whole_frames(s).len() && 0 <= k < 960 ==> whole_frames(s)[i][k] == s[960 * i + k],
    decreases s.len(),
{
    gathering_keeps_samples(s);
    if s.len() >= FRAME_LEN {
        let rest = s.skip(FRAME_LEN as int);
        frames_hold_ten_milliseconds(rest, i - 1, k);
        if 0 < i < whole_frames(s).len() && 0 <= k < 960 {
            assert(whole_frames(s)[i] == whole_frames(rest)[i - 1]);
            assert(rest[960 * (i - 1) + k] == s[960 * i + k]);
        }
    }
}

/// Packets are numbered one after the other, from one on; each says how many samples it stands
/// for and holds what was encoded and nothing after it.
pub proof fn audio_packets_are_numbered(s: AudioSequencer, opus: Seq<u8>, len: nat)
    requires
        len <= opus.len(),
        s.seq < u32::MAX,
    ensures
        ({
            let (n, p) = s.packed(opus, len);
            &&& p.seq == s.seq + 1 && n.seq == p.seq
            &&& p.samples == 480
            &&& p.opus.len() == len
            &&& forall|i: int| 0 <= i < len ==> p.opus[i] == opus[i]
        }),
{
}

/// Two channels stay as they are, one is doubled, and of more the first two are kept.
pub proof fn stereo_keeps_the_first_two<T>(samples: Seq<T>, channels: int, f: int)
    requires
        channels > 0,
        f >= 0,
    ensures
        stereo_sample(samples, channels, 2 * f) == samples[f * channels],
        channels >= 2 ==> stereo_sample(samples, channels, 2 * f + 1) == samples[f * channels + 1],
        channels == 1 ==> stereo_sample(samples, channels, 2 * f + 1) == samples[f],
        channels == 2 ==> stereo_sample(samples, channels, f) == samples[f],
{
    assert((2 * f) / 2 == f && (2 * f + 1) / 2 == f);
}

} // verus!
