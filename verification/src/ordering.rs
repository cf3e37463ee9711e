//! What the reliable channels promise: everything once, in order, each channel for
//! itself.

use vstd::prelude::*;

use crate::messages::Channel;
use crate::reliable::{after, drain, slot, slots_are_distinct, InboxModel};

verus! {

/// A reliable payload as it comes off the network.
pub struct Arrival {
    pub channel: Channel,
    pub seq: u32,
    pub payload: Seq<u8>,
}

/// The receiving side after a history of arrivals.
pub open spec fn after_arrivals(a: Seq<Arrival>) -> InboxModel
    decreases a.len(),
{
    if a.len() == 0 {
        InboxModel::start()
    } else {
        let x = a.last();
        after_arrivals(a.drop_last()).accept(x.channel, x.seq, x.payload).0
    }
}

/// Everything handed over on channel `c` during a history of arrivals, in order.
pub open spec fn handed_over(a: Seq<Arrival>, c: Channel) -> Seq<Seq<u8>>
    decreases a.len(),
{
    if a.len() == 0 {
        Seq::empty()
    } else {
        let x = a.last();
        let before = handed_over(a.drop_last(), c);
        if x.channel == c {
            before + after_arrivals(a.drop_last()).accept(x.channel, x.seq, x.payload).1
        } else {
            before
        }
    }
}

/// Whether number `s` of channel `c` has arrived.
pub open spec fn arrived(a: Seq<Arrival>, c: Channel, s: u32) -> bool {
    exists|i: int| 0 <= i < a.len() && (#[trigger] a[i]).channel == c && a[i].seq == s
}

/// Whether every arrival on channel `c` carries what the sender sent under its number.
/// Senders number from one; the last number of all is left out, since numbers wrap
/// behind it.
pub open spec fn follows_log(a: Seq<Arrival>, c: Channel, log: spec_fn(u32) -> Seq<u8>) -> bool {
    forall|i: int|
        0 <= i < a.len() && (#[trigger] a[i]).channel == c ==> 1 <= a[i].seq < u32::MAX
            && a[i].payload == log(a[i].seq)
}

proof fn lemma_drain(hold: Map<u64, Seq<u8>>, c: u8, next: u32, log: spec_fn(u32) -> Seq<u8>)
    requires
        hold.dom().finite(),
        forall|s: u32| #[trigger]
            hold.contains_key(slot(c, s)) ==> next <= s < u32::MAX && hold[slot(c, s)] == log(s),
    ensures
        ({
            let d = drain(hold, c, next);
            &&& d.1 >= next
            &&& d.0 == Seq::new((d.1 - next) as nat, |i: int| log((next + i) as u32))
            &&& d.2.dom().finite()
            &&& !d.2.contains_key(slot(c, d.1))
            &&& forall|s: u32| #[trigger]
                d.2.contains_key(slot(c, s)) <==> hold.contains_key(slot(c, s)) && s >= d.1
            &&& forall|s: u32| next <= s < d.1 ==> #[trigger] hold.contains_key(slot(c, s))
            &&& forall|k: u64| #[trigger]
                d.2.contains_key(k) ==> hold.contains_key(k) && d.2[k] == hold[k]
            &&& forall|e: u8, s: u32|
                e != c ==> (#[trigger] d.2.contains_key(slot(e, s)) <==> hold.contains_key(
                    slot(e, s),
                ))
        }),
    decreases hold.dom().len(),
{
    let k = slot(c, next);
    let d = drain(hold, c, next);
    if hold.contains_key(k) {
        let rest = hold.remove(k);
        assert forall|s: u32| #[trigger] rest.contains_key(slot(c, s)) implies after(next) <= s
            < u32::MAX && rest[slot(c, s)] == log(s) by {
            slots_are_distinct(c, s, c, next);
            assert(hold.contains_key(slot(c, s)));
        }
        lemma_drain(rest, c, after(next), log);
        let e = drain(rest, c, after(next));
        assert(after(next) == next + 1);
        assert(d.0 =~= Seq::new((d.1 - next) as nat, |i: int| log((next + i) as u32))) by {
            assert(d.0 == seq![hold[k]] + e.0);
            assert(hold[k] == log(next));
        }
        assert forall|s: u32| #[trigger] d.2.contains_key(slot(c, s)) <==> hold.contains_key(
            slot(c, s),
        ) && s >= d.1 by {
            slots_are_distinct(c, s, c, next);
            assert(rest.contains_key(slot(c, s)) <==> hold.contains_key(slot(c, s)) && s != next);
        }
        assert forall|s: u32| next <= s < d.1 implies #[trigger] hold.contains_key(
            slot(c, s),
        ) by {
            if s != next {
                assert(rest.contains_key(slot(c, s)));
            }
        }
        assert forall|x: u8, s: u32| x != c implies (#[trigger] d.2.contains_key(slot(x, s))
            <==> hold.contains_key(slot(x, s))) by {
            slots_are_distinct(x, s, c, next);
            assert(rest.contains_key(slot(x, s)) <==> hold.contains_key(slot(x, s)));
        }
    } else {
        assert(d.0 =~= Seq::new(0, |i: int| log((next + i) as u32)));
    }
}

/// What holds of the receiving side for one channel after any history.
pub open spec fn in_order(a: Seq<Arrival>, c: Channel, log: spec_fn(u32) -> Seq<u8>) -> bool {
    let m = after_arrivals(a);
    let next = m.next[c.code() as int];
    &&& m.next.len() == 4
    &&& m.hold.dom().finite()
    &&& next >= 1
    &&& handed_over(a, c) == Seq::new((next - 1) as nat, |i: int| log((i + 1) as u32))
    &&& forall|s: u32| #[trigger]
        m.hold.contains_key(slot(c.code(), s)) ==> next < s < u32::MAX && m.hold[slot(
            c.code(),
            s,
        )] == log(s)
    &&& forall|s: u32| 1 <= s < next ==> #[trigger] arrived(a, c, s)
    &&& forall|s: u32| #[trigger]
        arrived(a, c, s) ==> s < next || m.hold.contains_key(slot(c.code(), s))
}

proof fn lemma_in_order(a: Seq<Arrival>, c: Channel, log: spec_fn(u32) -> Seq<u8>)
    requires
        follows_log(a, c, log),
    ensures
        in_order(a, c, log),
    decreases a.len(),
{
    let code = c.code();
    if a.len() == 0 {
        assert(handed_over(a, c) =~= Seq::new(0, |i: int| log((i + 1) as u32)));
    } else {
        let b = a.drop_last();
        let x = a.last();
        assert forall|i: int| 0 <= i < b.len() && (#[trigger] b[i]).channel == c implies 1
            <= b[i].seq < u32::MAX && b[i].payload == log(b[i].seq) by {
            assert(a[i] == b[i]);
        }
        lemma_in_order(b, c, log);
        assert forall|s: u32| #[trigger] arrived(a, c, s) <==> arrived(b, c, s) || (x.channel == c
            && x.seq == s) by {
            if arrived(a, c, s) {
                let i = choose|i: int|
                    0 <= i < a.len() && (#[trigger] a[i]).channel == c && a[i].seq == s;
                if i < b.len() {
                    assert(b[i] == a[i]);
                }
            }
            if arrived(b, c, s) {
                let i = choose|i: int|
                    0 <= i < b.len() && (#[trigger] b[i]).channel == c && b[i].seq == s;
                assert(a[i] == b[i]);
            }
            if x.channel == c && x.seq == s {
                assert(a[a.len() - 1] == x);
            }
        }
        let m = after_arrivals(b);
        let n = after_arrivals(a);
        let e = x.channel.code();
        let next = m.next[code as int];
        if x.seq >= m.next[e as int] {
            let hold = m.hold.insert(slot(e, x.seq), x.payload);
            if x.channel == c {
                assert(a[a.len() - 1] == x);
                assert forall|s: u32| #[trigger] hold.contains_key(slot(code, s)) implies next <= s
                    < u32::MAX && hold[slot(code, s)] == log(s) by {
                    slots_are_distinct(code, s, code, x.seq);
                    assert(s != x.seq ==> m.hold.contains_key(slot(code, s)));
                }
                lemma_drain(hold, code, next, log);
                let d = drain(hold, code, next);
                assert(handed_over(a, c) =~= Seq::new(
                    (d.1 - 1) as nat,
                    |i: int| log((i + 1) as u32),
                ));
                assert forall|s: u32| #[trigger] n.hold.contains_key(slot(code, s)) implies d.1 < s
                    < u32::MAX && n.hold[slot(code, s)] == log(s) by {
                    assert(d.2.contains_key(slot(code, s)));
                    assert(hold.contains_key(slot(code, s)));
                }
                assert forall|s: u32| 1 <= s < d.1 implies #[trigger] arrived(a, c, s) by {
                    if s < next {
                        assert(arrived(b, c, s));
                    } else {
                        assert(hold.contains_key(slot(code, s)));
                        slots_are_distinct(code, s, code, x.seq);
                        if s != x.seq {
                            assert(m.hold.contains_key(slot(code, s)));
                            lemma_held_arrived(b, c, s);
                        }
                    }
                }
                assert forall|s: u32| #[trigger] arrived(a, c, s) implies s < d.1
                    || n.hold.contains_key(slot(code, s)) by {
                    slots_are_distinct(code, s, code, x.seq);
                    if s >= d.1 {
                        assert(hold.contains_key(slot(code, s)));
                        assert(d.2.contains_key(slot(code, s)));
                    }
                }
            } else {
                crate::messages::channel_codes_roundtrip(c, 0);
                crate::messages::channel_codes_roundtrip(x.channel, 0);
                assert(e != code);
                lemma_drain_others(hold, e, m.next[e as int], code);
                assert forall|s: u32| #[trigger] n.hold.contains_key(slot(code, s))
                    <==> m.hold.contains_key(slot(code, s)) by {
                    slots_are_distinct(code, s, e, x.seq);
                    assert(hold.contains_key(slot(code, s)) <==> m.hold.contains_key(
                        slot(code, s),
                    ));
                }
                assert forall|s: u32| #[trigger]
                    n.hold.contains_key(slot(code, s)) implies n.hold[slot(code, s)] == m.hold[slot(
                    code,
                    s,
                )] by {
                    slots_are_distinct(code, s, e, x.seq);
                }
            }
        }
    }
}

/// Draining one channel keeps what is held for another.
proof fn lemma_drain_others(hold: Map<u64, Seq<u8>>, e: u8, next: u32, code: u8)
    requires
        hold.dom().finite(),
        e != code,
    ensures
        ({
            let d = drain(hold, e, next);
            &&& d.2.dom().finite()
            &&& forall|s: u32| #[trigger]
                d.2.contains_key(slot(code, s)) <==> hold.contains_key(slot(code, s))
            &&& forall|k: u64| #[trigger]
                d.2.contains_key(k) ==> hold.contains_key(k) && d.2[k] == hold[k]
        }),
    decreases hold.dom().len(),
{
    let k = slot(e, next);
    if hold.contains_key(k) {
        let rest = hold.remove(k);
        lemma_drain_others(rest, e, after(next), code);
        assert forall|s: u32| #[trigger] rest.contains_key(slot(code, s)) <==> hold.contains_key(
            slot(code, s),
        ) by {
            slots_are_distinct(code, s, e, next);
        }
        let d = drain(hold, e, next);
        assert forall|s: u32| #[trigger] d.2.contains_key(slot(code, s)) <==> hold.contains_key(
            slot(code, s),
        ) by {
            assert(rest.contains_key(slot(code, s)) <==> hold.contains_key(slot(code, s)));
        }
    }
}

/// What is held has arrived.
proof fn lemma_held_arrived(a: Seq<Arrival>, c: Channel, s: u32)
    requires
        after_arrivals(a).hold.contains_key(slot(c.code(), s)),
    ensures
        arrived(a, c, s),
        after_arrivals(a).hold.dom().finite(),
    decreases a.len(),
{
    if a.len() > 0 {
        let b = a.drop_last();
        let x = a.last();
        let m = after_arrivals(b);
        let e = x.channel.code();
        lemma_hold_finite(b);
        crate::messages::channel_codes_roundtrip(c, 0);
        crate::messages::channel_codes_roundtrip(x.channel, 0);
        lemma_hold_finite(a);
        if x.seq >= m.next[e as int] {
            let hold = m.hold.insert(slot(e, x.seq), x.payload);
            lemma_drain_keeps(hold, e, m.next[e as int]);
            slots_are_distinct(c.code(), s, e, x.seq);
            if c.code() == e && s == x.seq {
                assert(a[a.len() - 1] == x);
            } else {
                assert(m.hold.contains_key(slot(c.code(), s)));
            }
        }
        if m.hold.contains_key(slot(c.code(), s)) {
            lemma_held_arrived(b, c, s);
            let i = choose|i: int|
                0 <= i < b.len() && (#[trigger] b[i]).channel == c && b[i].seq == s;
            assert(a[i] == b[i]);
        }
    }
}

proof fn lemma_drain_keeps(hold: Map<u64, Seq<u8>>, e: u8, next: u32)
    requires
        hold.dom().finite(),
    ensures
        drain(hold, e, next).2.dom().finite(),
        forall|k: u64| #[trigger]
            drain(hold, e, next).2.contains_key(k) ==> hold.contains_key(k),
    decreases hold.dom().len(),
{
    let k = slot(e, next);
    if hold.contains_key(k) {
        lemma_drain_keeps(hold.remove(k), e, after(next));
    }
}

proof fn lemma_hold_finite(a: Seq<Arrival>)
    ensures
        after_arrivals(a).hold.dom().finite(),
    decreases a.len(),
{
    if a.len() > 0 {
        let b = a.drop_last();
        lemma_hold_finite(b);
        let x = a.last();
        let m = after_arrivals(b);
        let e = x.channel.code();
        lemma_drain_keeps(m.hold.insert(slot(e, x.seq), x.payload), e, m.next[e as int]);
    }
}

/// Reliable delivery is in order and exactly once. However packets are reordered,
/// repeated or mixed with other channels, what has been handed over on a channel is
/// what the sender sent under the numbers 1 up to some `n`: everything up to the first
/// number that has not arrived.
pub proof fn delivery_in_order_exactly_once(
    a: Seq<Arrival>,
    c: Channel,
    log: spec_fn(u32) -> Seq<u8>,
)
    requires
        follows_log(a, c, log),
    ensures
        ({
            let n = handed_over(a, c).len();
            &&& n < u32::MAX
            &&& handed_over(a, c) == Seq::new(n, |i: int| log((i + 1) as u32))
            &&& forall|s: u32| 1 <= s <= n ==> #[trigger] arrived(a, c, s)
            &&& !arrived(a, c, (n + 1) as u32)
        }),
{
    lemma_in_order(a, c, log);
    let m = after_arrivals(a);
    let next = m.next[c.code() as int];
    assert(handed_over(a, c).len() == next - 1);
    assert(!m.hold.contains_key(slot(c.code(), next)));
    assert(!arrived(a, c, next));
}

/// Repeating a packet that was handed over already changes nothing.
pub proof fn duplicates_are_ignored(m: InboxModel, c: Channel, s: u32, payload: Seq<u8>)
    requires
        s < m.next[c.code() as int],
    ensures
        m.accept(c, s, payload) == (m, Seq::<Seq<u8>>::empty()),
{
}

/// Channels do not wait for each other: a packet on one channel neither moves the next
/// number owed on another nor touches what is held for it.
pub proof fn channels_are_independent(
    m: InboxModel,
    c: Channel,
    s: u32,
    payload: Seq<u8>,
    other: Channel,
    t: u32,
)
    requires
        m.next.len() == 4,
        m.hold.dom().finite(),
        other != c,
    ensures
        ({
            let n = m.accept(c, s, payload).0;
            let k = slot(other.code(), t);
            &&& n.next[other.code() as int] == m.next[other.code() as int]
            &&& n.hold.contains_key(k) <==> m.hold.contains_key(k)
            &&& n.hold.contains_key(k) ==> n.hold[k] == m.hold[k]
        }),
{
    crate::messages::channel_codes_roundtrip(c, 0);
    crate::messages::channel_codes_roundtrip(other, 0);
    let hold = m.hold.insert(slot(c.code(), s), payload);
    slots_are_distinct(c.code(), s, other.code(), t);
    lemma_drain_others(hold, c.code(), m.next[c.code() as int], other.code());
    let k = slot(other.code(), t);
    assert(hold.contains_key(k) <==> m.hold.contains_key(k));
}

} // verus!
