//! Presentation: at most one decoded frame waits, and late ones are dropped.

use vstd::prelude::*;

use crate::timing::{FrameTimes, FrameTimingPolicy};

verus! {

/// A decoded frame on a surface of type `S`.
pub struct DecodedFrame<S> {
    pub width: u32,
    pub height: u32,
    pub decode_done_us: u64,
    pub surface: S,
}

#[derive(Debug, Clone, Copy, PartialEq, Eq, Structural)]
pub struct PresentStats {
    pub presented: u64,
    pub dropped: u64,
    pub last: FrameTimes,
}

/// Holds the frame to be presented next.
pub struct Presenter<S> {
    policy: FrameTimingPolicy,
    pending: Option<DecodedFrame<S>>,
    stats: PresentStats,
}

#[verifier::ext_equal]
#[verifier::reject_recursive_types(S)]
pub struct PresenterModel<S> {
    pub policy: FrameTimingPolicy,
    pub pending: Option<DecodedFrame<S>>,
    pub stats: PresentStats,
}

impl<S> View for Presenter<S> {
    type V = PresenterModel<S>;

    closed spec fn view(&self) -> PresenterModel<S> {
        PresenterModel { policy: self.policy, pending: self.pending, stats: self.stats }
    }
}

impl<S> PresenterModel<S> {
    pub open spec fn start(policy: FrameTimingPolicy) -> PresenterModel<S> {
        PresenterModel {
            policy,
            pending: None,
            stats: PresentStats {
                presented: 0,
                dropped: 0,
                last: FrameTimes {
                    capture_us: 0,
                    encode_done_us: 0,
                    send_us: 0,
                    recv_us: 0,
                    decode_done_us: 0,
                    present_us: 0,
                },
            },
        }
    }

    /// What submitting a frame at `now_us` does: a late one is dropped, any other takes the
    /// place of the one that waits.
    pub open spec fn submitted(
        self,
        frame: DecodedFrame<S>,
        times: FrameTimes,
        now_us: u64,
    ) -> PresenterModel<S> {
        if self.policy.late(frame.decode_done_us, now_us) {
            PresenterModel {
                stats: PresentStats { dropped: (self.stats.dropped + 1) as u64, ..self.stats },
                ..self
            }
        } else {
            PresenterModel {
                pending: Some(frame),
                stats: PresentStats {
                    dropped: if self.pending is Some {
                        (self.stats.dropped + 1) as u64
                    } else {
                        self.stats.dropped
                    },
                    last: FrameTimes { decode_done_us: frame.decode_done_us, ..times },
                    ..self.stats
                },
                ..self
            }
        }
    }

    /// The frame that is handed over to be presented.
    pub open spec fn handed_over(self) -> Option<DecodedFrame<S>> {
        self.pending
    }

    /// What taking the waiting frame at `now_us` does.
    pub open spec fn taken(self, now_us: u64) -> PresenterModel<S> {
        if self.pending is Some {
            PresenterModel {
                pending: None,
                stats: PresentStats {
                    presented: (self.stats.presented + 1) as u64,
                    last: FrameTimes { present_us: now_us, ..self.stats.last },
                    ..self.stats
                },
                ..self
            }
        } else {
            self
        }
    }
}

impl<S> Presenter<S> {
    /// A presenter for a display with the given policy.
    pub fn new(policy: FrameTimingPolicy) -> (r: Presenter<S>)
        ensures
            r@ == (PresenterModel {
                policy,
                pending: None::<DecodedFrame<S>>,
                stats: PresentStats {
                    presented: 0,
                    dropped: 0,
                    last: FrameTimes {
                        capture_us: 0,
                        encode_done_us: 0,
                        send_us: 0,
                        recv_us: 0,
                        decode_done_us: 0,
                        present_us: 0,
                    },
                },
            }),
            r@ == PresenterModel::<S>::start(policy),
    {
        Presenter {
            policy,
            pending: None,
            stats: PresentStats { presented: 0, dropped: 0, last: FrameTimes::default() },
        }
    }

    /// Queue at most one decoded frame. Late frames are dropped.
    pub fn submit(&mut self, frame: DecodedFrame<S>, times: FrameTimes, now_us: u64)
        requires
            old(self)@.stats.dropped < u64::MAX,
        ensures
            final(self)@ == old(self)@.submitted(frame, times, now_us),
    {
        if self.policy.should_drop(frame.decode_done_us, now_us) {
            self.stats.dropped = self.stats.dropped + 1;
            return;
        }
        if self.pending.is_some() {
            self.stats.dropped = self.stats.dropped + 1;
        }
        let mut times = times;
        times.decode_done_us = frame.decode_done_us;
        self.pending = Some(frame);
        self.stats.last = times;
    }

    /// Takes the waiting frame for presentation at `now_us`.
    pub fn take(&mut self, now_us: u64) -> (r: Option<DecodedFrame<S>>)
        requires
            old(self)@.stats.presented < u64::MAX,
        ensures
            r == old(self)@.pending,
            r == old(self)@.handed_over(),
            final(self)@ == old(self)@.taken(now_us),
    {
        let mut none: Option<DecodedFrame<S>> = None;
        std::mem::swap(&mut self.pending, &mut none);
        if none.is_some() {
            self.stats.presented = self.stats.presented + 1;
            self.stats.last.present_us = now_us;
        }
        none
    }

    pub fn stats(&self) -> (r: &PresentStats)
        ensures
            *r == self@.stats,
    {
        &self.stats
    }

    pub fn last_times(&self) -> (r: FrameTimes)
        ensures
            r == self@.stats.last,
    {
        self.stats.last
    }
}

/// A late frame is never presented, and of the frames that wait only the newest is; each
/// frame that is not presented counts as dropped.
pub proof fn newest_frame_in_time_is_presented<S>(
    p: PresenterModel<S>,
    a: DecodedFrame<S>,
    b: DecodedFrame<S>,
    times: FrameTimes,
    now_us: u64,
)
    requires
        p.pending is None,
        p.stats.dropped + 2 <= u64::MAX,
    ensures
        ({
            let q = p.submitted(a, times, now_us).submitted(b, times, now_us);
            let late_a = p.policy.late(a.decode_done_us, now_us);
            let late_b = p.policy.late(b.decode_done_us, now_us);
            &&& q.pending == if !late_b {
                Some(b)
            } else if !late_a {
                Some(a)
            } else {
                None::<DecodedFrame<S>>
            }
            &&& q.stats.dropped - p.stats.dropped == (if late_a && late_b {
                2int
            } else {
                1int
            })
        }),
{
}

/// No frame is lost sight of: each one handed in is counted as dropped, or waits, or takes the
/// place of one that waited and is counted; each one that waits is presented at most once.
pub proof fn frames_are_accounted_for<S>(
    p: PresenterModel<S>,
    frame: DecodedFrame<S>,
    times: FrameTimes,
    now_us: u64,
)
    requires
        p.stats.dropped < u64::MAX,
        p.stats.presented < u64::MAX,
    ensures
        ({
            let q = p.submitted(frame, times, now_us);
            let waits = |m: PresenterModel<S>|
                if m.pending is Some {
                    1int
                } else {
                    0int
                };
            &&& q.stats.dropped + waits(q) == p.stats.dropped + waits(p) + 1
            &&& q.stats.presented == p.stats.presented
            &&& q.policy == p.policy
        }),
        ({
            let q = p.taken(now_us);
            &&& q.pending is None
            &&& p.pending is Some ==> q.stats.presented == p.stats.presented + 1
            &&& p.pending is None ==> q == p
            &&& q.stats.dropped == p.stats.dropped
            &&& q.taken(now_us) == q
            &&& q.policy == p.policy
        }),
{
    assert(p.taken(now_us).taken(now_us) =~= p.taken(now_us));
}

/// A frame in time waits in place of any other, with its times; a late one changes nothing but
/// the count, and does not push out a frame that is in time.
pub proof fn frames_in_time_replace_others<S>(
    p: PresenterModel<S>,
    frame: DecodedFrame<S>,
    times: FrameTimes,
    now_us: u64,
    taken_us: u64,
)
    ensures
        now_us <= frame.decode_done_us + p.policy.budget_us ==> {
            let q = p.submitted(frame, times, now_us);
            let r = q.taken(taken_us);
            &&& q.pending == Some(frame)
            &&& r.stats.last == (FrameTimes {
                decode_done_us: frame.decode_done_us,
                present_us: taken_us,
                ..times
            })
        },
        now_us > frame.decode_done_us + p.policy.budget_us ==> {
            let q = p.submitted(frame, times, now_us);
            q.pending == p.pending && q.stats.last == p.stats.last
        },
{
}

/// A frame handed in in time is handed over as it is, and once; with nothing handed in since,
/// there is nothing to hand over.
pub proof fn frames_are_handed_over_once<S>(
    p: PresenterModel<S>,
    frame: DecodedFrame<S>,
    times: FrameTimes,
    now_us: u64,
    taken_us: u64,
)
    ensures
        now_us <= frame.decode_done_us + p.policy.budget_us ==> p.submitted(
            frame,
            times,
            now_us,
        ).handed_over() == Some(frame),
        now_us > frame.decode_done_us + p.policy.budget_us ==> p.submitted(
            frame,
            times,
            now_us,
        ).handed_over() == p.handed_over(),
        p.taken(taken_us).handed_over() is None,
{
}

/// The state after frames were handed in, each with its times, at the time given with it.
pub open spec fn after_frames<S>(
    p: PresenterModel<S>,
    frames: Seq<(DecodedFrame<S>, FrameTimes, u64)>,
) -> PresenterModel<S>
    decreases frames.len(),
{
    if frames.len() == 0 {
        p
    } else {
        let (frame, times, now_us) = frames.last();
        after_frames(p, frames.drop_last()).submitted(frame, times, now_us)
    }
}

/// From the start on, of all frames handed in before one is taken, all but one are dropped, or
/// all where every one was late; the one that waits was in time.
pub proof fn all_but_one_are_dropped<S>(
    policy: FrameTimingPolicy,
    frames: Seq<(DecodedFrame<S>, FrameTimes, u64)>,
)
    requires
        frames.len() < u64::MAX,
    ensures
        ({
            let q = after_frames(PresenterModel::<S>::start(policy), frames);
            &&& q.policy == policy && q.stats.presented == 0
            &&& q.pending is Some ==> q.stats.dropped == frames.len() - 1
            &&& q.pending is None ==> q.stats.dropped == frames.len()
            &&& q.pending is None <==> forall|i: int|
                0 <= i < frames.len() ==> (#[trigger] frames[i]).2 > frames[i].0.decode_done_us
                    + policy.budget_us
        }),
    decreases frames.len(),
{
    if frames.len() > 0 {
        let before = frames.drop_last();
        all_but_one_are_dropped(policy, before);
        let last = frames.last();
        let q = after_frames(PresenterModel::<S>::start(policy), before);
        assert(frames[frames.len() - 1] == last);
        if q.pending is Some {
            let i = choose|i: int|
                0 <= i < before.len() && !((#[trigger] before[i]).2 > before[i].0.decode_done_us
                    + policy.budget_us);
            assert(frames[i] == before[i]);
        } else {
            assert forall|i: int| 0 <= i < before.len() implies (#[trigger] frames[i]).2
                > frames[i].0.decode_done_us + policy.budget_us by {
                assert(frames[i] == before[i]);
            }
        }
    }
}

} // verus!
