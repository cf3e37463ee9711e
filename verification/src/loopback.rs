//! The local smoke test: capture, encode, decode and present without a network.

use vstd::prelude::*;

use crate::encode::EncoderConfig;
use crate::timing::{elapsed, elapsed_since};

verus! {

/// The smoke test runs this long.
pub const LOOPBACK_NS: u64 = 3_000_000_000;

/// The state of a smoke test.
#[derive(Debug, Clone, Copy, PartialEq, Eq, Structural)]
pub struct LoopbackRun {
    pub start: u64,
    pub encoded: u32,
    pub decoded: u32,
}

impl LoopbackRun {
    pub open spec fn goes_on(self, now: u64) -> bool {
        elapsed(self.start, now) < LOOPBACK_NS
    }

    /// Whether the next frame is to be a keyframe.
    pub open spec fn wants_keyframe(self) -> bool {
        self.encoded == 0
    }

    /// The run with one more frame encoded, and whether that one is reported.
    pub open spec fn with_encoded(self) -> (LoopbackRun, bool) {
        (
            LoopbackRun { encoded: (self.encoded + 1) as u32, ..self },
            (self.encoded + 1) % 30 == 1,
        )
    }

    /// The run with one more frame decoded.
    pub open spec fn with_decoded(self) -> LoopbackRun {
        LoopbackRun { decoded: (self.decoded + 1) as u32, ..self }
    }

    pub fn new(now: u64) -> (r: LoopbackRun)
        ensures
            r == (LoopbackRun { start: now, encoded: 0, decoded: 0 }),
    {
        LoopbackRun { start: now, encoded: 0, decoded: 0 }
    }

    /// How the encoder is opened for a screen of this size.
    pub fn encoder_config(width: u32, height: u32) -> (r: EncoderConfig)
        ensures
            r == (EncoderConfig { width, height, bitrate_bps: 40_000_000, prefer_444: true }),
    {
        EncoderConfig { width, height, bitrate_bps: 40_000_000, prefer_444: true }
    }

    /// Whether the test goes on.
    pub fn running(&self, now: u64) -> (r: bool)
        ensures
            r == (elapsed(self.start, now) < LOOPBACK_NS),
            r == self.goes_on(now),
    {
        elapsed_since(self.start, now) < LOOPBACK_NS
    }

    /// Whether the next frame must be a keyframe: the first one must.
    pub fn force_idr(&self) -> (r: bool)
        ensures
            r == (self.encoded == 0),
            r == self.wants_keyframe(),
    {
        self.encoded == 0
    }

    /// Counts an encoded frame. Says whether to report on it: on one in thirty.
    pub fn note_encoded(&mut self) -> (r: bool)
        requires
            old(self).encoded < u32::MAX,
        ensures
            *final(self) == (LoopbackRun {
                encoded: (old(self).encoded + 1) as u32,
                ..*old(self)
            }),
            r == (final(self).encoded % 30 == 1),
            (*final(self), r) == old(self).with_encoded(),
    {
        self.encoded = self.encoded + 1;
        self.encoded % 30 == 1
    }

    /// Counts a decoded frame.
    pub fn note_decoded(&mut self)
        requires
            old(self).decoded < u32::MAX,
        ensures
            *final(self) == (LoopbackRun {
                decoded: (old(self).decoded + 1) as u32,
                ..*old(self)
            }),
            *final(self) == old(self).with_decoded(),
    {
        self.decoded = self.decoded + 1;
    }
}

/// The run after `n` frames were encoded.
pub open spec fn after_frames(run: LoopbackRun, n: nat) -> LoopbackRun
    decreases n,
{
    if n == 0 {
        run
    } else {
        after_frames(run, (n - 1) as nat).with_encoded().0
    }
}

/// Of a run from its start, the first frame is a keyframe and no other, and the first and
/// every thirtieth after it are reported. Encoding and decoding are counted apart.
pub proof fn first_frame_is_a_keyframe(now: u64, n: nat)
    requires
        n < u32::MAX,
    ensures
        ({
            let run = after_frames(LoopbackRun { start: now, encoded: 0, decoded: 0 }, n);
            &&& run == (LoopbackRun { start: now, encoded: n as u32, decoded: 0 })
            &&& run.wants_keyframe() <==> n == 0
            &&& run.with_encoded().1 <==> n % 30 == 0
            &&& run.with_decoded() == (LoopbackRun { decoded: 1, ..run })
        }),
    decreases n,
{
    if n > 0 {
        first_frame_is_a_keyframe(now, (n - 1) as nat);
    }
}

/// A run lasts three seconds.
pub proof fn runs_last_three_seconds(run: LoopbackRun, now: u64)
    ensures
        run.goes_on(now) <==> now < run.start + 3_000_000_000,
{
}

} // verus!
