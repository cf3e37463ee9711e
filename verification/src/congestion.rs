//! Bitrate control: the encoder's bitrate is the congestion lever.
//!
//! The smoothed round-trip time and loss rate are real numbers and belong to the
//! caller, who says what they call for and hands in the scaled bitrate. The bounds, the
//! pacing and the reports are kept here.

use vstd::prelude::*;

use crate::messages::CongestionReport;
use crate::timing::{elapsed, elapsed_since};

verus! {

/// Bitrate changes are at least this far apart.
pub const ADJUST_INTERVAL_NS: u64 = 400_000_000;

/// The lowest bitrate a controller can be limited to.
pub const FLOOR_BPS: u32 = 1_000_000;

/// `v`, moved into the range from `lo` to `hi`.
pub open spec fn clamped(v: u32, lo: u32, hi: u32) -> u32 {
    if v < lo {
        lo
    } else if v > hi {
        hi
    } else {
        v
    }
}

/// `v`, moved into the range from `lo` to `hi`.
pub fn clamp_u32(v: u32, lo: u32, hi: u32) -> (r: u32)
    requires
        lo <= hi,
    ensures
        r == clamped(v, lo, hi),
        lo <= r <= hi,
{
    if v < lo {
        lo
    } else if v > hi {
        hi
    } else {
        v
    }
}

/// Megabits as bits, as far as thirty-two bits go.
pub open spec fn mbps_to_bps(mbps: u32) -> u32 {
    if mbps * 1_000_000 > u32::MAX {
        u32::MAX
    } else {
        (mbps * 1_000_000) as u32
    }
}

/// Megabits as bits, as far as thirty-two bits go.
pub fn to_bps(mbps: u32) -> (r: u32)
    ensures
        r == mbps_to_bps(mbps),
{
    let bps: u64 = mbps as u64 * 1_000_000;
    if bps > u32::MAX as u64 {
        u32::MAX
    } else {
        bps as u32
    }
}

/// What the link calls for.
#[derive(Debug, Clone, Copy, PartialEq, Eq, Structural)]
pub enum Pressure {
    /// Sustained loss: go down to `to`.
    Cut { to: u32 },
    /// Room to spare: go up to `to`.
    Raise { to: u32 },
    /// Neither.
    Hold,
}

/// Delay/loss based controller. Encoder bitrate is the congestion lever.
#[derive(Debug, Clone, Copy, PartialEq, Eq, Structural)]
pub struct CongestionController {
    pub target_bps: u32,
    pub min_bps: u32,
    pub max_bps: u32,
    pub in_flight_bytes: u32,
    pub last_adjust: Option<u64>,
}

#[derive(Debug, Clone, Copy, PartialEq, Eq, Structural)]
pub struct CongestionStats {
    pub rtt_us: u32,
    pub loss_ppm: u32,
    pub target_bps: u32,
    pub in_flight_bytes: u32,
}

impl Default for CongestionStats {
    fn default() -> (r: CongestionStats)
        ensures
            r == (CongestionStats { rtt_us: 0, loss_ppm: 0, target_bps: 0, in_flight_bytes: 0 }),
    {
        CongestionStats { rtt_us: 0, loss_ppm: 0, target_bps: 0, in_flight_bytes: 0 }
    }
}

impl CongestionController {
    /// The limits are in order and the target lies between them.
    pub open spec fn wf(self) -> bool {
        FLOOR_BPS <= self.min_bps <= self.target_bps <= self.max_bps
    }

    /// A controller with limits `lo` and `hi`: the lower one is raised to the floor, the
    /// upper one to the lower, and the target is moved in between.
    pub open spec fn limited(target: u32, lo: u32, hi: u32) -> CongestionController {
        let min = if lo >= FLOOR_BPS {
            lo
        } else {
            FLOOR_BPS
        };
        let max = if hi >= min {
            hi
        } else {
            min
        };
        CongestionController {
            target_bps: clamped(target, min, max),
            min_bps: min,
            max_bps: max,
            in_flight_bytes: 0,
            last_adjust: None,
        }
    }

    pub open spec fn of_a_lan() -> CongestionController {
        CongestionController::limited(50_000_000, 40_000_000, 100_000_000)
    }

    pub open spec fn limited_mbps(target: u32, lo: u32, hi: u32) -> CongestionController {
        CongestionController::limited(mbps_to_bps(target), mbps_to_bps(lo), mbps_to_bps(hi))
    }

    pub open spec fn with_in_flight(self, bytes: u32) -> CongestionController {
        CongestionController { in_flight_bytes: bytes, ..self }
    }

    pub open spec fn figures(self, rtt_us: u32, loss_ppm: u32) -> CongestionStats {
        CongestionStats {
            rtt_us,
            loss_ppm,
            target_bps: self.target_bps,
            in_flight_bytes: self.in_flight_bytes,
        }
    }

    pub open spec fn reporting(self, rtt_us: u32, loss_ppm: u32) -> CongestionReport {
        CongestionReport { rtt_us, loss_ppm, suggested_bitrate_bps: self.target_bps }
    }

    pub fn lan_default() -> (r: CongestionController)
        ensures
            r == CongestionController::limited(50_000_000, 40_000_000, 100_000_000),
            r == CongestionController::of_a_lan(),
            r.wf(),
    {
        CongestionController::from_bps(50_000_000, 40_000_000, 100_000_000)
    }

    /// Build controller from absolute bitrates (bits/sec). Clamps target into [min, max].
    pub fn from_bps(target_bps: u32, min_bps: u32, max_bps: u32) -> (r: CongestionController)
        ensures
            r == CongestionController::limited(target_bps, min_bps, max_bps),
            r.wf(),
    {
        let lo: u32 = if min_bps >= FLOOR_BPS {
            min_bps
        } else {
            FLOOR_BPS
        };
        let hi: u32 = if max_bps >= lo {
            max_bps
        } else {
            lo
        };
        CongestionController {
            target_bps: clamp_u32(target_bps, lo, hi),
            min_bps: lo,
            max_bps: hi,
            in_flight_bytes: 0,
            last_adjust: None,
        }
    }

    /// Convenience: Mbps values from the GUI / SessionConfig.
    pub fn from_mbps(target_mbps: u32, min_mbps: u32, max_mbps: u32) -> (r: CongestionController)
        ensures
            r == CongestionController::limited(
                mbps_to_bps(target_mbps),
                mbps_to_bps(min_mbps),
                mbps_to_bps(max_mbps),
            ),
            r.wf(),
            r == CongestionController::limited_mbps(target_mbps, min_mbps, max_mbps),
    {
        CongestionController::from_bps(to_bps(target_mbps), to_bps(min_mbps), to_bps(max_mbps))
    }

    /// Whether the bitrate may change at `now`.
    pub open spec fn may_adjust(self, now: u64) -> bool {
        self.last_adjust matches Some(prev) ==> elapsed(prev, now) >= ADJUST_INTERVAL_NS
    }

    /// The controller after `pressure` at `now`.
    pub open spec fn adjusted(self, pressure: Pressure, now: u64) -> CongestionController {
        if !self.may_adjust(now) {
            self
        } else {
            match pressure {
                Pressure::Cut { to } => CongestionController {
                    target_bps: clamped(to, self.min_bps, self.max_bps),
                    last_adjust: Some(now),
                    ..self
                },
                Pressure::Raise { to } => CongestionController {
                    target_bps: clamped(to, self.min_bps, self.max_bps),
                    last_adjust: Some(now),
                    ..self
                },
                Pressure::Hold => CongestionController {
                    target_bps: clamped(self.target_bps, self.min_bps, self.max_bps),
                    ..self
                },
            }
        }
    }

    /// Follows `pressure`, within the limits and not too often.
    pub fn adjust(&mut self, pressure: Pressure, now: u64)
        requires
            old(self).wf(),
        ensures
            *final(self) == old(self).adjusted(pressure, now),
            final(self).wf(),
            final(self).min_bps == old(self).min_bps,
            final(self).max_bps == old(self).max_bps,
    {
        if let Some(prev) = self.last_adjust {
            if elapsed_since(prev, now) < ADJUST_INTERVAL_NS {
                return;
            }
        }
        match pressure {
            Pressure::Cut { to } => {
                self.target_bps = to;
                self.last_adjust = Some(now);
            },
            Pressure::Raise { to } => {
                self.target_bps = to;
                self.last_adjust = Some(now);
            },
            Pressure::Hold => {},
        }
        self.target_bps = clamp_u32(self.target_bps, self.min_bps, self.max_bps);
    }

    pub fn set_in_flight(&mut self, bytes: u32)
        ensures
            *final(self) == (CongestionController { in_flight_bytes: bytes, ..*old(self) }),
            *final(self) == old(self).with_in_flight(bytes),
    {
        self.in_flight_bytes = bytes;
    }

    /// The figures, with the smoothed round-trip time and loss rate as the caller has them.
    pub fn stats(&self, rtt_us: u32, loss_ppm: u32) -> (r: CongestionStats)
        ensures
            r == (CongestionStats {
                rtt_us,
                loss_ppm,
                target_bps: self.target_bps,
                in_flight_bytes: self.in_flight_bytes,
            }),
            r == self.figures(rtt_us, loss_ppm),
    {
        CongestionStats {
            rtt_us,
            loss_ppm,
            target_bps: self.target_bps,
            in_flight_bytes: self.in_flight_bytes,
        }
    }

    /// The report for the peer.
    pub fn report(&self, rtt_us: u32, loss_ppm: u32) -> (r: CongestionReport)
        ensures
            r == (CongestionReport {
                rtt_us,
                loss_ppm,
                suggested_bitrate_bps: self.target_bps,
            }),
            r == self.reporting(rtt_us, loss_ppm),
    {
        CongestionReport { rtt_us, loss_ppm, suggested_bitrate_bps: self.target_bps }
    }
}

/// Lost packets per million sent. There is no rate before anything is sent.
pub fn loss_ppm(lost: u32, sent: u32) -> (r: Option<u64>)
    ensures
        r == if sent == 0 {
            None::<u64>
        } else {
            Some((lost as int * 1_000_000 / sent as int) as u64)
        },
        r == loss_rate(lost, sent),
{
    if sent == 0 {
        None
    } else {
        Some(lost as u64 * 1_000_000 / sent as u64)
    }
}

/// A cut lowers the bitrate unless it is at its lower limit already.
pub proof fn cut_lowers_bitrate(c: CongestionController, to: u32, now: u64)
    requires
        c.wf(),
        c.may_adjust(now),
        to < c.target_bps,
        c.min_bps < c.target_bps,
    ensures
        c.adjusted(Pressure::Cut { to }, now).target_bps < c.target_bps,
{
}

/// After a change the bitrate stands until the interval is over.
pub proof fn changes_are_paced(
    c: CongestionController,
    first: Pressure,
    second: Pressure,
    t: u64,
    later: u64,
)
    requires
        c.may_adjust(t),
        first !is Hold,
        elapsed(t, later) < ADJUST_INTERVAL_NS,
    ensures
        c.adjusted(first, t).adjusted(second, later) == c.adjusted(first, t),
{
}

/// When a change is allowed, whether up or down, a bitrate within the limits is reached
/// exactly; one beyond a limit ends at that limit. A change is allowed at first, and again
/// four tenths of a second after the last one.
pub proof fn changes_reach_what_is_asked(c: CongestionController, to: u32, now: u64)
    requires
        c.min_bps <= c.max_bps,
        c.last_adjust matches Some(prev) ==> now >= prev + 400_000_000,
    ensures
        forall|p: Pressure|
            p == (Pressure::Raise { to }) || p == (Pressure::Cut { to }) ==> {
                let n = #[trigger] c.adjusted(p, now);
                &&& c.min_bps <= to <= c.max_bps ==> n.target_bps == to
                &&& to < c.min_bps ==> n.target_bps == c.min_bps
                &&& to > c.max_bps ==> n.target_bps == c.max_bps
                &&& n.last_adjust == Some(now)
                &&& n.min_bps == c.min_bps && n.max_bps == c.max_bps
                &&& n.in_flight_bytes == c.in_flight_bytes
            },
{
}

/// Nothing changes sooner than four tenths of a second after the last change, nor where the
/// link calls for nothing.
pub proof fn bitrate_stands_otherwise(c: CongestionController, p: Pressure, now: u64)
    requires
        c.min_bps <= c.target_bps <= c.max_bps,
        p is Hold || (c.last_adjust matches Some(prev) && now < prev + 400_000_000),
    ensures
        c.adjusted(p, now) == c,
{
}

/// The higher the bitrate asked for, the higher the one that comes out, on either way.
pub proof fn adjusting_is_monotone(c: CongestionController, a: u32, b: u32, now: u64)
    requires
        c.min_bps <= c.max_bps,
        a <= b,
    ensures
        c.adjusted(Pressure::Raise { to: a }, now).target_bps <= c.adjusted(
            Pressure::Raise { to: b },
            now,
        ).target_bps,
        c.adjusted(Pressure::Cut { to: a }, now).target_bps <= c.adjusted(
            Pressure::Cut { to: b },
            now,
        ).target_bps,
{
}

/// Limits in order, from a megabit up, are kept as they are, and so is a target between them;
/// a target outside comes to the nearer limit. A lower limit under a megabit is a megabit, and
/// an upper limit under the lower one is the lower one.
pub proof fn limits_are_kept(target: u32, lo: u32, hi: u32)
    ensures
        ({
            let c = CongestionController::limited(target, lo, hi);
            &&& lo >= 1_000_000 ==> c.min_bps == lo
            &&& lo < 1_000_000 ==> c.min_bps == 1_000_000
            &&& hi >= c.min_bps ==> c.max_bps == hi
            &&& hi < c.min_bps ==> c.max_bps == c.min_bps
            &&& c.min_bps <= target <= c.max_bps ==> c.target_bps == target
            &&& target < c.min_bps ==> c.target_bps == c.min_bps
            &&& target > c.max_bps ==> c.target_bps == c.max_bps
            &&& c.in_flight_bytes == 0
            &&& c.last_adjust is None
        }),
{
}

/// A megabit is a million bits, up to what thirty-two bits hold; more megabits are never fewer
/// bits.
pub proof fn megabits_are_millions(mbps: u32)
    ensures
        mbps <= 4294 ==> mbps_to_bps(mbps) == mbps * 1_000_000,
        mbps > 4294 ==> mbps_to_bps(mbps) == u32::MAX,
{
}

/// Lost packets per million sent.
pub open spec fn loss_rate(lost: u32, sent: u32) -> Option<u64> {
    if sent == 0 {
        None
    } else {
        Some((lost as int * 1_000_000 / sent as int) as u64)
    }
}

/// A loss rate is a share of a million, rounded down: none lost is zero, all lost a million. It
/// is known once anything was sent, and grows with what is lost.
pub proof fn loss_is_a_share_of_a_million(lost: u32, more: u32, sent: u32)
    ensures
        loss_rate(lost, sent) is None <==> sent == 0,
        loss_rate(lost, sent) matches Some(p) ==> p * sent <= lost * 1_000_000 < (p + 1) * sent,
        sent > 0 ==> loss_rate(0, sent) == Some(0u64) && loss_rate(sent, sent) == Some(
            1_000_000u64,
        ),
        lost <= more && sent > 0 ==> loss_rate(lost, sent)->0 <= loss_rate(more, sent)->0,
{
    if sent > 0 {
        let (a, b, s) = (lost * 1_000_000int, more * 1_000_000int, sent as int);
        vstd::arithmetic::div_mod::lemma_fundamental_div_mod(a, s);
        vstd::arithmetic::div_mod::lemma_mod_bound(a, s);
        let p = a / s;
        assert(p * s <= a < (p + 1) * s) by (nonlinear_arith)
            requires
                a == s * p + a % s,
                0 <= a % s < s,
        ;
        assert(0 <= p <= a) by (nonlinear_arith)
            requires
                p * s <= a < (p + 1) * s,
                a >= 0,
                s >= 1,
        ;
        if lost <= more {
            vstd::arithmetic::div_mod::lemma_div_is_ordered(a, b, s);
            assert(b / s <= b) by (nonlinear_arith)
                requires
                    b >= 0,
                    s >= 1,
            ;
        }
        vstd::arithmetic::div_mod::lemma_div_multiples_vanish(1_000_000, s);
        assert(s * 1_000_000 == 1_000_000 * s) by (nonlinear_arith);
        assert(0int / s == 0) by (nonlinear_arith)
            requires
                s >= 1,
        ;
    }
}

/// What is shown and what is reported is the bitrate in force, and what is in flight as it was
/// set last; the rest is the caller's. Setting it leaves the bitrate alone.
pub proof fn figures_show_the_bitrate(
    c: CongestionController,
    bytes: u32,
    rtt_us: u32,
    loss_ppm: u32,
)
    ensures
        c.reporting(rtt_us, loss_ppm).suggested_bitrate_bps == c.target_bps,
        c.reporting(rtt_us, loss_ppm).rtt_us == rtt_us,
        c.reporting(rtt_us, loss_ppm).loss_ppm == loss_ppm,
        ({
            let s = c.with_in_flight(bytes).figures(rtt_us, loss_ppm);
            &&& s.in_flight_bytes == bytes && s.target_bps == c.target_bps
            &&& s.rtt_us == rtt_us && s.loss_ppm == loss_ppm
        }),
        c.with_in_flight(bytes).min_bps == c.min_bps,
        c.with_in_flight(bytes).max_bps == c.max_bps,
        c.with_in_flight(bytes).last_adjust == c.last_adjust,
{
}

/// On a local network a session starts at fifty million bits a second, between forty and a
/// hundred. Limits in megabits that do not contradict each other stand as they are, and so does
/// a bitrate between them.
pub proof fn controllers_start_within_limits(target: u32, lo: u32, hi: u32)
    ensures
        ({
            let c = CongestionController::of_a_lan();
            &&& c.target_bps == 50_000_000 && c.min_bps == 40_000_000 && c.max_bps == 100_000_000
            &&& c.last_adjust is None && c.in_flight_bytes == 0
        }),
        1 <= lo <= target <= hi <= 4294 ==> {
            let c = CongestionController::limited_mbps(target, lo, hi);
            &&& c.target_bps == target * 1_000_000
            &&& c.min_bps == lo * 1_000_000 && c.max_bps == hi * 1_000_000
            &&& c.last_adjust is None && c.in_flight_bytes == 0
        },
{
}

} // verus!
