//! Traffic figures of a link.

use vstd::prelude::*;

use crate::timing::{elapsed, elapsed_since};

verus! {

/// Traffic since an endpoint was opened.
#[derive(Debug, Clone, Copy, PartialEq, Eq, Structural)]
pub struct LinkCounters {
    pub sent: u64,
    pub recv: u64,
    pub pkts_sent: u64,
    pub pkts_recv: u64,
    pub would_block: u64,
}

/// UDP traffic since the previous look, and over how long.
#[derive(Debug, Clone, Copy, PartialEq, Eq, Structural)]
pub struct LinkDelta {
    pub dt_ns: u64,
    pub traffic: LinkCounters,
}

/// Remembers the traffic at the last look.
#[derive(Debug, Clone, Copy, PartialEq, Eq, Structural)]
pub struct LinkMeter {
    pub t0: u64,
    pub seen: LinkCounters,
}

impl LinkCounters {
    pub open spec fn zero() -> LinkCounters {
        LinkCounters { sent: 0, recv: 0, pkts_sent: 0, pkts_recv: 0, would_block: 0 }
    }

    /// How far each figure is past that of `before`.
    pub open spec fn beyond(self, before: LinkCounters) -> LinkCounters {
        LinkCounters {
            sent: elapsed(before.sent, self.sent),
            recv: elapsed(before.recv, self.recv),
            pkts_sent: elapsed(before.pkts_sent, self.pkts_sent),
            pkts_recv: elapsed(before.pkts_recv, self.pkts_recv),
            would_block: elapsed(before.would_block, self.would_block),
        }
    }
}

impl LinkMeter {
    pub open spec fn start(now: u64) -> LinkMeter {
        LinkMeter { t0: now, seen: LinkCounters::zero() }
    }

    /// A look at the counters: the meter after it, and what it gives.
    pub open spec fn looked(self, counters: LinkCounters, now: u64) -> (LinkMeter, LinkDelta) {
        (
            LinkMeter { t0: now, seen: counters },
            LinkDelta { dt_ns: elapsed(self.t0, now), traffic: counters.beyond(self.seen) },
        )
    }

    pub fn new(now: u64) -> (r: LinkMeter)
        ensures
            r == (LinkMeter { t0: now, seen: LinkCounters::zero() }),
            r == LinkMeter::start(now),
    {
        LinkMeter {
            t0: now,
            seen: LinkCounters { sent: 0, recv: 0, pkts_sent: 0, pkts_recv: 0, would_block: 0 },
        }
    }

    /// The traffic since the last look.
    pub fn snapshot(&mut self, counters: LinkCounters, now: u64) -> (r: LinkDelta)
        ensures
            r == (LinkDelta {
                dt_ns: elapsed(old(self).t0, now),
                traffic: counters.beyond(old(self).seen),
            }),
            *final(self) == (LinkMeter { t0: now, seen: counters }),
            (*final(self), r) == old(self).looked(counters, now),
    {
        let traffic = LinkCounters {
            sent: elapsed_since(self.seen.sent, counters.sent),
            recv: elapsed_since(self.seen.recv, counters.recv),
            pkts_sent: elapsed_since(self.seen.pkts_sent, counters.pkts_sent),
            pkts_recv: elapsed_since(self.seen.pkts_recv, counters.pkts_recv),
            would_block: elapsed_since(self.seen.would_block, counters.would_block),
        };
        let dt_ns: u64 = elapsed_since(self.t0, now);
        self.t0 = now;
        self.seen = counters;
        LinkDelta { dt_ns, traffic }
    }
}

/// Looks add up: what two of them show is what one would have shown.
pub proof fn looks_add_up(a: LinkCounters, b: LinkCounters, c: LinkCounters)
    requires
        a.sent <= b.sent <= c.sent,
        a.recv <= b.recv <= c.recv,
    ensures
        b.beyond(a).sent + c.beyond(b).sent == c.beyond(a).sent,
        b.beyond(a).recv + c.beyond(b).recv == c.beyond(a).recv,
{
}

/// Two looks in a row count what a single one would have, in every figure and in time; none
/// is counted twice. The first look counts from zero.
pub proof fn looks_in_a_row_count_once(
    m: LinkMeter,
    b: LinkCounters,
    c: LinkCounters,
    t: u64,
    u: u64,
    start: u64,
)
    requires
        m.seen.sent <= b.sent <= c.sent,
        m.seen.recv <= b.recv <= c.recv,
        m.seen.pkts_sent <= b.pkts_sent <= c.pkts_sent,
        m.seen.pkts_recv <= b.pkts_recv <= c.pkts_recv,
        m.seen.would_block <= b.would_block <= c.would_block,
        m.t0 <= t <= u,
    ensures
        ({
            let (n, first) = m.looked(b, t);
            let (_, second) = n.looked(c, u);
            &&& first.dt_ns + second.dt_ns == u - m.t0
            &&& first.traffic.sent + second.traffic.sent == c.sent - m.seen.sent
            &&& first.traffic.recv + second.traffic.recv == c.recv - m.seen.recv
            &&& first.traffic.pkts_sent + second.traffic.pkts_sent == c.pkts_sent
                - m.seen.pkts_sent
            &&& first.traffic.pkts_recv + second.traffic.pkts_recv == c.pkts_recv
                - m.seen.pkts_recv
            &&& first.traffic.would_block + second.traffic.would_block == c.would_block
                - m.seen.would_block
        }),
        LinkMeter::start(start).looked(b, u).1.traffic == b,
        start <= u ==> LinkMeter::start(start).looked(b, u).1.dt_ns == u - start,
{
}

} // verus!
