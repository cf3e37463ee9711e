//! Frame timestamps, the session clock and the presentation policy.

use vstd::prelude::*;

verus! {

/// Monotonic timestamps in microseconds, origin = host capture time mapped to `u64`.
#[derive(Debug, Clone, Copy, PartialEq, Eq, Structural)]
pub struct FrameTimes {
    pub capture_us: u64,
    pub encode_done_us: u64,
    pub send_us: u64,
    pub recv_us: u64,
    pub decode_done_us: u64,
    pub present_us: u64,
}

impl Default for FrameTimes {
    fn default() -> (r: FrameTimes)
        ensures
            r == (FrameTimes {
                capture_us: 0,
                encode_done_us: 0,
                send_us: 0,
                recv_us: 0,
                decode_done_us: 0,
                present_us: 0,
            }),
    {
        FrameTimes {
            capture_us: 0,
            encode_done_us: 0,
            send_us: 0,
            recv_us: 0,
            decode_done_us: 0,
            present_us: 0,
        }
    }
}

/// How long ago `earlier` was at `now`; zero when it lies ahead.
pub open spec fn elapsed(earlier: u64, now: u64) -> u64 {
    if now >= earlier {
        (now - earlier) as u64
    } else {
        0
    }
}

/// How long ago `earlier` was at `now`; zero when it lies ahead.
pub fn elapsed_since(earlier: u64, now: u64) -> (r: u64)
    ensures
        r == elapsed(earlier, now),
{
    if now >= earlier {
        now - earlier
    } else {
        0
    }
}

/// The time between two stages of a frame, in microseconds; zero when they are out of order.
impl FrameTimes {
    /// The times in the order in which a frame goes through its stages.
    pub open spec fn points(self) -> Seq<u64> {
        seq![
            self.capture_us,
            self.encode_done_us,
            self.send_us,
            self.recv_us,
            self.decode_done_us,
            self.present_us,
        ]
    }

    /// The time from point `i` to point `j`.
    pub open spec fn span(self, i: int, j: int) -> u64 {
        elapsed(self.points()[i], self.points()[j])
    }

    /// From capture to the end of encoding.
    pub fn capture_to_encode_us(&self) -> (r: u64)
        ensures
            r == elapsed(self.capture_us, self.encode_done_us),
            r == self.span(0, 1),
    {
        elapsed_since(self.capture_us, self.encode_done_us)
    }

    /// From the end of encoding to sending.
    pub fn encode_to_send_us(&self) -> (r: u64)
        ensures
            r == elapsed(self.encode_done_us, self.send_us),
            r == self.span(1, 2),
    {
        elapsed_since(self.encode_done_us, self.send_us)
    }

    /// From sending to arrival.
    pub fn net_us(&self) -> (r: u64)
        ensures
            r == elapsed(self.send_us, self.recv_us),
            r == self.span(2, 3),
    {
        elapsed_since(self.send_us, self.recv_us)
    }

    /// From arrival to the end of decoding.
    pub fn decode_us(&self) -> (r: u64)
        ensures
            r == elapsed(self.recv_us, self.decode_done_us),
            r == self.span(3, 4),
    {
        elapsed_since(self.recv_us, self.decode_done_us)
    }

    /// From the end of decoding to presentation.
    pub fn present_queue_us(&self) -> (r: u64)
        ensures
            r == elapsed(self.decode_done_us, self.present_us),
            r == self.span(4, 5),
    {
        elapsed_since(self.decode_done_us, self.present_us)
    }

    /// From capture to presentation.
    pub fn glass_us(&self) -> (r: u64)
        ensures
            r == elapsed(self.capture_us, self.present_us),
            r == self.span(0, 5),
    {
        elapsed_since(self.capture_us, self.present_us)
    }
}

/// Maps the monotonic nanosecond clock to a session-relative microsecond clock.
#[derive(Debug, Clone, Copy, PartialEq, Eq, Structural)]
pub struct SessionClock {
    pub origin_ns: u64,
}

impl SessionClock {
    /// What the clock shows at `now_ns`.
    pub open spec fn shows(self, now_ns: u64) -> u64 {
        (elapsed(self.origin_ns, now_ns) / 1000) as u64
    }

    /// A clock that starts at `now_ns`.
    pub fn new(now_ns: u64) -> (r: SessionClock)
        ensures
            r.origin_ns == now_ns,
    {
        SessionClock { origin_ns: now_ns }
    }

    /// Whole microseconds from the origin to `now_ns`.
    pub fn now_us(&self, now_ns: u64) -> (r: u64)
        ensures
            r == elapsed(self.origin_ns, now_ns) / 1000,
            r == self.shows(now_ns),
    {
        elapsed_since(self.origin_ns, now_ns) / 1000
    }
}

/// Client presentation policy: never hold more than one decoded frame, drop if late.
#[derive(Debug, Clone, Copy, PartialEq, Eq, Structural)]
pub struct FrameTimingPolicy {
    /// One display period in microseconds.
    pub budget_us: u64,
}

impl Default for FrameTimingPolicy {
    /// A 60 Hz display.
    fn default() -> (r: FrameTimingPolicy)
        ensures
            r.budget_us == 16_666,
            r == FrameTimingPolicy::for_rate(60),
    {
        FrameTimingPolicy { budget_us: 16_666 }
    }
}

impl FrameTimingPolicy {
    /// The policy of a display with `hz` periods a second.
    pub open spec fn for_rate(hz: nat) -> FrameTimingPolicy {
        FrameTimingPolicy { budget_us: (1_000_000nat / hz) as u64 }
    }

    pub fn frame_budget_us(&self) -> (r: u64)
        ensures
            r == self.budget_us,
    {
        self.budget_us
    }

    /// Whether a frame decoded at `decode_done_us` is late at `now_us`.
    pub open spec fn late(self, decode_done_us: u64, now_us: u64) -> bool {
        now_us - decode_done_us > self.budget_us
    }

    /// Drop if the frame would miss the next vsync by more than one full period.
    pub fn should_drop(&self, decode_done_us: u64, now_us: u64) -> (r: bool)
        ensures
            r == self.late(decode_done_us, now_us),
    {
        elapsed_since(decode_done_us, now_us) > self.frame_budget_us()
    }
}

/// Once a frame is late it stays late.
pub proof fn lateness_is_monotone(policy: FrameTimingPolicy, decode_done_us: u64, t: u64, later: u64)
    requires
        t <= later,
        policy.late(decode_done_us, t),
    ensures
        policy.late(decode_done_us, later),
{
}

/// Of a frame that went through its stages in order the spans add up: all five to the time
/// from capture to presentation.
pub proof fn spans_add_up(t: FrameTimes)
    requires
        t.capture_us <= t.encode_done_us <= t.send_us <= t.recv_us <= t.decode_done_us
            <= t.present_us,
    ensures
        t.span(0, 1) + t.span(1, 2) + t.span(2, 3) + t.span(3, 4) + t.span(4, 5) == t.span(0, 5),
        t.span(0, 5) == t.present_us - t.capture_us,
        t.capture_us + t.span(0, 1) == t.encode_done_us,
        t.encode_done_us + t.span(1, 2) == t.send_us,
        t.send_us + t.span(2, 3) == t.recv_us,
        t.recv_us + t.span(3, 4) == t.decode_done_us,
        t.decode_done_us + t.span(4, 5) == t.present_us,
{
}

/// A span between points out of order is zero, never a number that wrapped.
pub proof fn spans_do_not_wrap(earlier: u64, now: u64)
    ensures
        now <= earlier ==> elapsed(earlier, now) == 0,
        now >= earlier ==> earlier + elapsed(earlier, now) == now,
{
}

/// A session clock shows whole microseconds: a thousand nanoseconds later it shows one more,
/// and it shows zero at its origin and before.
pub proof fn clocks_count_microseconds(clock: SessionClock, now_ns: u64)
    ensures
        now_ns >= clock.origin_ns ==> 1000 * clock.shows(now_ns) <= now_ns - clock.origin_ns < 1000
            * clock.shows(now_ns) + 1000,
        now_ns <= clock.origin_ns ==> clock.shows(now_ns) == 0,
        clock.origin_ns <= now_ns <= u64::MAX - 1000 ==> clock.shows((now_ns + 1000) as u64)
            == clock.shows(now_ns) + 1,
{
}

/// A frame is late once more than one display period has passed since it was decoded; at
/// sixty periods a second that is the whole microseconds of one.
pub proof fn frames_have_one_period(policy: FrameTimingPolicy, decode_done_us: u64, now_us: u64)
    ensures
        policy.late(decode_done_us, now_us) <==> now_us > decode_done_us + policy.budget_us,
        60 * FrameTimingPolicy::for_rate(60).budget_us <= 1_000_000 < 60 * (
        FrameTimingPolicy::for_rate(60).budget_us + 1),
{
}

} // verus!
