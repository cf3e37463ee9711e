//! Reliable delivery: packets kept until acknowledged, and in-order hand-over.

use std::collections::BTreeMap;

use vstd::prelude::*;
use vstd::std_specs::cmp::OrdSpec;
use vstd::std_specs::iter::IteratorSpec;

use crate::bytes::copy_range;
use crate::messages::Channel;
use crate::timing::{elapsed, elapsed_since};

verus! {

broadcast use {vstd::std_specs::btree::group_btree_axioms, vstd::laws_cmp::group_laws_cmp};

/// A reliable packet that goes unacknowledged this long is sent again.
pub const RETRANSMIT_NS: u64 = 8_000_000;

/// The key of a channel's sequence number. Keys sort by channel, then by number.
pub open spec fn slot(channel: u8, seq: u32) -> u64 {
    (channel * 0x1_0000_0000 + seq) as u64
}

/// Each channel has its own slots.
pub proof fn slots_are_distinct(c: u8, s: u32, d: u8, t: u32)
    ensures
        slot(c, s) == slot(d, t) <==> c == d && s == t,
        slot(c, s) < slot(d, t) <==> c < d || (c == d && s < t),
{
}

fn slot_of(channel: u8, seq: u32) -> (r: u64)
    ensures
        r == slot(channel, seq),
{
    channel as u64 * 0x1_0000_0000 + seq as u64
}

/// A packet waiting for its acknowledgement.
pub struct Outgoing {
    packet: Vec<u8>,
    last_send: u64,
    first_send: u64,
}

#[verifier::ext_equal]
pub struct OutgoingModel {
    pub packet: Seq<u8>,
    pub last_send: u64,
    pub first_send: u64,
}

impl View for Outgoing {
    type V = OutgoingModel;

    closed spec fn view(&self) -> OutgoingModel {
        OutgoingModel {
            packet: self.packet@,
            last_send: self.last_send,
            first_send: self.first_send,
        }
    }
}

impl OutgoingModel {
    /// Whether the packet is to be sent again at `now`.
    pub open spec fn due(self, now: u64) -> bool {
        elapsed(self.last_send, now) >= RETRANSMIT_NS
    }

    /// The packet after the retransmission pass at `now`.
    pub open spec fn passed(self, now: u64) -> OutgoingModel {
        if self.due(now) {
            OutgoingModel { last_send: now, ..self }
        } else {
            self
        }
    }
}

/// Whether `ks` runs strictly upward.
pub open spec fn increasing(ks: Seq<u64>) -> bool {
    forall|i: int, j: int| 0 <= i < j < ks.len() ==> ks[i] < ks[j]
}

/// Whether `out` lists the packets due at `now`, in slot order.
pub open spec fn lists_due(m: Map<u64, OutgoingModel>, now: u64, out: Seq<Seq<u8>>) -> bool {
    exists|ks: Seq<u64>|
        {
            &&& #[trigger] increasing(ks)
            &&& forall|k: u64|
                #[trigger] ks.contains(k) <==> m.contains_key(k) && m[k].due(now)
            &&& out == ks.map_values(|k: u64| m[k].packet)
        }
}

/// All packets after the retransmission pass at `now`.
pub open spec fn all_passed(m: Map<u64, OutgoingModel>, now: u64) -> Map<u64, OutgoingModel> {
    m.map_values(|o: OutgoingModel| o.passed(now))
}

proof fn lemma_in_order<K: Ord>(s: Seq<K>, i: int, j: int)
    requires
        vstd::laws_cmp::obeys_cmp::<K>(),
        vstd::std_specs::btree::increasing_seq(s),
        0 <= i < j < s.len(),
    ensures
        s[i].cmp_spec(&s[j]) is Less,
{
}

/// What a sorted map calls increasing is increasing.
proof fn lemma_increasing(s: Seq<&u64>)
    requires
        vstd::std_specs::btree::increasing_seq(s),
    ensures
        increasing(s.unref()),
{
    assert(vstd::laws_cmp::obeys_cmp::<u64>());
    assert(vstd::laws_cmp::obeys_cmp::<&u64>());
    assert forall|i: int, j: int| 0 <= i < j < s.len() implies s.unref()[i] < s.unref()[j] by {
        lemma_in_order(s, i, j);
    }
}

proof fn lemma_push_contains(s: Seq<u64>, k: u64, x: u64)
    ensures
        s.push(k).contains(x) <==> s.contains(x) || x == k,
{
    if s.contains(x) {
        let p = choose|p: int| 0 <= p < s.len() && s[p] == x;
        assert(s.push(k)[p] == x);
    }
    if x == k {
        assert(s.push(k)[s.len() as int] == x);
    }
}

/// The reliable packets in flight.
pub struct Outbox {
    map: BTreeMap<u64, Outgoing>,
}

impl View for Outbox {
    type V = Map<u64, OutgoingModel>;

    closed spec fn view(&self) -> Map<u64, OutgoingModel> {
        self.map@.map_values(|o: Outgoing| o@)
    }
}

impl Outbox {
    pub fn new() -> (r: Outbox)
        ensures
            r@ == Map::<u64, OutgoingModel>::empty(),
    {
        let r = Outbox { map: BTreeMap::new() };
        assert(r@ =~= Map::<u64, OutgoingModel>::empty());
        r
    }

    pub fn len(&self) -> (r: usize)
        ensures
            r == self@.dom().len(),
            self@.dom().finite(),
    {
        assert(self@.dom() =~= self.map@.dom());
        self.map.len()
    }

    /// Keeps `packet`, sent at `now`, until it is acknowledged.
    pub fn keep(&mut self, channel: u8, seq: u32, packet: Vec<u8>, now: u64)
        ensures
            final(self)@ == old(self)@.insert(
                slot(channel, seq),
                OutgoingModel { packet: packet@, last_send: now, first_send: now },
            ),
    {
        let o = Outgoing { packet, last_send: now, first_send: now };
        self.map.insert(slot_of(channel, seq), o);
        assert(self@ =~= old(self)@.insert(slot(channel, seq), o@));
    }

    /// Drops an acknowledged packet. Gives the microseconds since it was first sent, as
    /// thirty-two bits hold them.
    pub fn acknowledge(&mut self, channel: u8, seq: u32, now: u64) -> (r: Option<u32>)
        ensures
            final(self)@ == old(self)@.remove(slot(channel, seq)),
            r == if old(self)@.contains_key(slot(channel, seq)) {
                Some(
                    (elapsed(old(self)@[slot(channel, seq)].first_send, now) / 1000
                        % 0x1_0000_0000) as u32,
                )
            } else {
                None::<u32>
            },
    {
        let gone = self.map.remove(&slot_of(channel, seq));
        assert(self@ =~= old(self)@.remove(slot(channel, seq)));
        match gone {
            Some(o) => Some((elapsed_since(o.first_send, now) / 1000 % 0x1_0000_0000) as u32),
            None => None,
        }
    }

    /// The keys in use, in order.
    fn keys_in_order(&self) -> (r: Vec<u64>)
        ensures
            increasing(r@),
            forall|k: u64| #[trigger] r@.contains(k) <==> self@.contains_key(k),
    {
        let mut r: Vec<u64> = Vec::new();
        for k in it: self.map.keys()
            invariant
                r@ == it.seq().unref().take(it.index()),
        {
            r.push(*k);
            assert(r@ =~= it.seq().unref().take(it.index() + 1));
        }
        proof {
            let s = vstd::std_specs::btree::spec_keys_iter(&self.map).remaining();
            assert(r@ =~= s.unref());
            lemma_increasing(s);
            assert(self@.dom() =~= self.map@.dom());
            assert forall|k: u64| #[trigger] r@.contains(k) <==> self@.contains_key(k) by {
                assert(s.unref().to_set().contains(k) <==> s.unref().contains(k));
            }
        }
        r
    }

    /// Collects the packets due at `now` and marks them sent.
    pub fn take_due(&mut self, now: u64) -> (r: Vec<Vec<u8>>)
        ensures
            final(self)@ == all_passed(old(self)@, now),
            lists_due(old(self)@, now, r@.map_values(|p: Vec<u8>| p@)),
    {
        let keys = self.keys_in_order();
        let mut out: Vec<Vec<u8>> = Vec::new();
        let ghost mut sent: Seq<u64> = Seq::empty();
        let ghost m = self@;
        let mut i: usize = 0;
        assert(out@.map_values(|p: Vec<u8>| p@) =~= sent.map_values(|k: u64| m[k].packet));
        while i < keys.len()
            invariant
                i <= keys@.len(),
                increasing(keys@),
                m == old(self)@,
                forall|k: u64| #[trigger] keys@.contains(k) <==> m.contains_key(k),
                self@.dom() == m.dom(),
                forall|j: int|
                    0 <= j < i ==> self@[#[trigger] keys@[j]] == m[keys@[j]].passed(now),
                forall|j: int| i <= j < keys@.len() ==> self@[#[trigger] keys@[j]] == m[keys@[j]],
                increasing(sent),
                forall|k: u64|
                    #[trigger] sent.contains(k) <==> keys@.take(i as int).contains(k) && m[k].due(
                        now,
                    ),
                out@.map_values(|p: Vec<u8>| p@) == sent.map_values(|k: u64| m[k].packet),
            decreases keys@.len() - i,
        {
            let k: u64 = keys[i];
            let ghost before = self@;
            let ghost prev = sent;
            let ghost prev_out = out@;
            assert(keys@.contains(k));
            assert(before[keys@[i as int]] == m[k]);
            match self.map.remove(&k) {
                Some(mut o) => {
                    assert(o@ == before[k]);
                    if elapsed_since(o.last_send, now) >= RETRANSMIT_NS {
                        let copy = copy_range(o.packet.as_slice(), 0, o.packet.len());
                        proof {
                            assert(copy@ =~= o.packet@);
                            sent = sent.push(k);
                            assert forall|a: int, b: int| 0 <= a < b < sent.len() implies sent[a]
                                < sent[b] by {
                                if b == prev.len() {
                                    assert(prev.contains(prev[a]));
                                    let p = choose|p: int|
                                        0 <= p < i && keys@.take(i as int)[p] == prev[a];
                                    assert(keys@[p] < keys@[i as int]);
                                }
                            }
                        }
                        out.push(copy);
                        o.last_send = now;
                    }
                    self.map.insert(k, o);
                    assert(self@ =~= before.insert(k, m[k].passed(now)));
                },
                None => {
                    assert(before.contains_key(k));
                },
            }
            proof {
                assert(self@.dom() =~= m.dom());
                let was = keys@.take(i as int);
                let next = keys@.take(i + 1);
                assert(next =~= was.push(k));
                assert(next[i as int] == k);
                assert(sent == if m[k].due(now) {
                    prev.push(k)
                } else {
                    prev
                });
                assert forall|x: u64| #[trigger]
                    sent.contains(x) <==> next.contains(x) && m[x].due(now) by {
                    lemma_push_contains(was, k, x);
                    lemma_push_contains(prev, k, x);
                    assert(prev.contains(x) <==> was.contains(x) && m[x].due(now));
                }
                assert(prev_out.len() == prev_out.map_values(|p: Vec<u8>| p@).len());
                assert(prev.map_values(|k: u64| m[k].packet).len() == prev.len());
                assert forall|a: int| 0 <= a < sent.len() implies out@[a]@ == m[sent[a]].packet by {
                    if a < prev.len() {
                        assert(prev_out.map_values(|p: Vec<u8>| p@)[a] == prev.map_values(
                            |k: u64| m[k].packet,
                        )[a]);
                    }
                }
                assert(out@.map_values(|p: Vec<u8>| p@) =~= sent.map_values(
                    |k: u64| m[k].packet,
                ));
            }
            i = i + 1;
        }
        proof {
            assert(keys@.take(i as int) =~= keys@);
            assert forall|k: u64| m.contains_key(k) implies self@[k] == m[k].passed(now) by {
                assert(keys@.contains(k));
            }
            assert(self@ =~= all_passed(m, now));
            assert(increasing(sent));
        }
        out
    }

    pub fn clear(&mut self)
        ensures
            final(self)@ == Map::<u64, OutgoingModel>::empty(),
    {
        self.map.clear();
        assert(self@ =~= Map::<u64, OutgoingModel>::empty());
    }
}

/// Once the pass at `now` is done, nothing is due until more time goes by.
pub proof fn nothing_due_after_pass(m: Map<u64, OutgoingModel>, now: u64, k: u64)
    requires
        m.contains_key(k),
    ensures
        !all_passed(m, now)[k].due(now),
        all_passed(m, now)[k].packet == m[k].packet,
        all_passed(m, now)[k].first_send == m[k].first_send,
{
}

/// The list of due packets is determined by what is in flight.
pub proof fn due_list_is_determined(
    m: Map<u64, OutgoingModel>,
    now: u64,
    a: Seq<Seq<u8>>,
    b: Seq<Seq<u8>>,
)
    requires
        lists_due(m, now, a),
        lists_due(m, now, b),
    ensures
        a == b,
{
    let f = |k: u64| m[k].packet;
    let ka = choose|ks: Seq<u64>|
        {
            &&& #[trigger] increasing(ks)
            &&& forall|k: u64|
                #[trigger] ks.contains(k) <==> m.contains_key(k) && m[k].due(now)
            &&& a == ks.map_values(|k: u64| m[k].packet)
        };
    let kb = choose|ks: Seq<u64>|
        {
            &&& #[trigger] increasing(ks)
            &&& forall|k: u64|
                #[trigger] ks.contains(k) <==> m.contains_key(k) && m[k].due(now)
            &&& b == ks.map_values(|k: u64| m[k].packet)
        };
    assert forall|k: u64| #[trigger] ka.contains(k) <==> kb.contains(k) by {}
    lemma_same_increasing(ka, kb);
}

/// Two increasing lists of the same numbers are one list.
proof fn lemma_same_increasing(a: Seq<u64>, b: Seq<u64>)
    requires
        increasing(a),
        increasing(b),
        forall|k: u64| #[trigger] a.contains(k) <==> b.contains(k),
    ensures
        a == b,
    decreases a.len(),
{
    if a.len() == 0 {
        if b.len() > 0 {
            assert(b.contains(b[0]));
            assert(a.contains(b[0]));
        }
        assert(a =~= b);
    } else {
        assert(a.contains(a.last()));
        assert(b.contains(a.last()));
        assert(b.contains(b.last()));
        assert(a.contains(b.last()));
        let p = choose|p: int| 0 <= p < b.len() && b[p] == a.last();
        let q = choose|q: int| 0 <= q < a.len() && a[q] == b.last();
        assert(a.last() == b.last());
        let (c, d) = (a.drop_last(), b.drop_last());
        assert forall|k: u64| #[trigger] c.contains(k) <==> d.contains(k) by {
            assert(a.contains(k) <==> b.contains(k));
            if c.contains(k) {
                let i = choose|i: int| 0 <= i < c.len() && c[i] == k;
                assert(a[i] == k);
                assert(a.contains(k));
                let j = choose|j: int| 0 <= j < b.len() && b[j] == k;
                assert(d[j] == k);
            }
            if d.contains(k) {
                let i = choose|i: int| 0 <= i < d.len() && d[i] == k;
                assert(b[i] == k);
                assert(b.contains(k));
                let j = choose|j: int| 0 <= j < a.len() && a[j] == k;
                assert(c[j] == k);
            }
        }
        lemma_same_increasing(c, d);
        assert(a =~= c.push(a.last()));
        assert(b =~= d.push(b.last()));
    }
}

/// The payloads held from `next` on without a gap, the number after them, and what is
/// still held.
pub open spec fn drain(hold: Map<u64, Seq<u8>>, channel: u8, next: u32) -> (
    Seq<Seq<u8>>,
    u32,
    Map<u64, Seq<u8>>,
)
    decreases hold.dom().len(),
{
    let k = slot(channel, next);
    if hold.dom().finite() && hold.contains_key(k) {
        let rest = drain(hold.remove(k), channel, after(next));
        (seq![hold[k]] + rest.0, rest.1, rest.2)
    } else {
        (Seq::empty(), next, hold)
    }
}

/// The sequence number after `n`; numbers wrap.
pub open spec fn after(n: u32) -> u32 {
    if n == u32::MAX {
        0
    } else {
        (n + 1) as u32
    }
}

/// The receiving side of the reliable channels: the next number owed on each channel,
/// and the payloads that came early.
#[verifier::ext_equal]
pub struct InboxModel {
    pub next: Seq<u32>,
    pub hold: Map<u64, Seq<u8>>,
}

impl InboxModel {
    pub open spec fn start() -> InboxModel {
        InboxModel { next: seq![1u32, 1u32, 1u32, 1u32], hold: Map::empty() }
    }

    /// What a payload with number `seq` does on a channel: numbers already handed over
    /// are ignored, others are held, and all that is then in order is handed over.
    pub open spec fn accept(self, channel: Channel, seq: u32, payload: Seq<u8>) -> (
        InboxModel,
        Seq<Seq<u8>>,
    ) {
        let c = channel.code();
        if seq < self.next[c as int] {
            (self, Seq::empty())
        } else {
            let d = drain(self.hold.insert(slot(c, seq), payload), c, self.next[c as int]);
            (InboxModel { next: self.next.update(c as int, d.1), hold: d.2 }, d.0)
        }
    }
}

pub struct Inbox {
    next: [u32; 4],
    hold: BTreeMap<u64, Vec<u8>>,
}

impl View for Inbox {
    type V = InboxModel;

    closed spec fn view(&self) -> InboxModel {
        InboxModel { next: self.next@, hold: self.hold@.map_values(|v: Vec<u8>| v@) }
    }
}

/// The views of a list of byte vectors.
pub open spec fn byte_views(v: Seq<Vec<u8>>) -> Seq<Seq<u8>> {
    v.map_values(|p: Vec<u8>| p@)
}

impl Inbox {
    pub fn new() -> (r: Inbox)
        ensures
            r@ == InboxModel::start(),
    {
        let r = Inbox { next: [1, 1, 1, 1], hold: BTreeMap::new() };
        assert(r@ =~= InboxModel::start());
        r
    }

    pub fn held(&self) -> (r: usize)
        ensures
            r == self@.hold.dom().len(),
            self@.hold.dom().finite(),
    {
        assert(self@.hold.dom() =~= self.hold@.dom());
        self.hold.len()
    }

    /// Takes in a payload and hands over what is in order.
    pub fn accept(&mut self, channel: Channel, seq: u32, payload: Vec<u8>) -> (r: Vec<Vec<u8>>)
        ensures
            final(self)@ == old(self)@.accept(channel, seq, payload@).0,
            byte_views(r@) == old(self)@.accept(channel, seq, payload@).1,
    {
        let mut ready: Vec<Vec<u8>> = Vec::new();
        let c: u8 = channel.to_u8();
        let i: usize = channel.idx();
        assert(byte_views(ready@) =~= Seq::empty());
        if seq < self.next[i] {
            return ready;
        }
        self.hold.insert(slot_of(c, seq), payload);
        let ghost start = self@.hold;
        assert(start =~= old(self)@.hold.insert(slot(c, seq), payload@));
        let ghost all = drain(start, c, self.next[i as int]);
        let mut next: u32 = self.next[i];
        assert(byte_views(ready@) + all.0 =~= all.0);
        let mut more: bool = true;
        while more
            invariant
                c == channel.code(),
                self@.next == old(self)@.next,
                ({
                    let left = drain(self@.hold, c, next);
                    &&& byte_views(ready@) + left.0 == all.0
                    &&& left.1 == all.1
                    &&& left.2 == all.2
                }),
                !more ==> !self@.hold.contains_key(slot(c, next)),
            decreases
                    self@.hold.dom().len(),
                    if more {
                        1int
                    } else {
                        0int
                    },
        {
            let k: u64 = slot_of(c, next);
            let ghost before = self@.hold;
            let ghost had = ready@;
            assert(before.dom() =~= self.hold@.dom());
            match self.hold.remove(&k) {
                Some(p) => {
                    assert(self@.hold =~= before.remove(k));
                    proof {
                        assert(before.contains_key(k));
                        assert(p@ == before[k]);
                    }
                    ready.push(p);
                    next = if next == u32::MAX {
                        0
                    } else {
                        next + 1
                    };
                    proof {
                        let left = drain(self@.hold, c, next);
                        assert(byte_views(ready@) =~= byte_views(had).push(p@));
                        assert(byte_views(ready@) + left.0 =~= byte_views(had) + (seq![p@]
                            + left.0));
                    }
                },
                None => {
                    assert(self@.hold =~= before);
                    more = false;
                },
            }
        }
        self.next[i] = next;
        assert(self@ =~= old(self)@.accept(channel, seq, payload@).0);
        assert(byte_views(ready@) + Seq::<Seq<u8>>::empty() =~= byte_views(ready@));
        ready
    }

    pub fn clear(&mut self)
        ensures
            final(self)@ == InboxModel::start(),
    {
        self.next = [1, 1, 1, 1];
        self.hold.clear();
        assert(self@ =~= InboxModel::start());
    }
}

/// A reliable packet that comes again, after its turn, changes nothing and hands nothing over;
/// one before its turn waits, and nothing is handed over either.
pub proof fn turns_are_kept(m: InboxModel, channel: Channel, seq: u32, payload: Seq<u8>)
    requires
        m.next.len() == 4,
        m.hold.dom().finite(),
        !m.hold.contains_key(slot(channel.code(), m.next[channel.code() as int])),
    ensures
        ({
            let (n, out) = m.accept(channel, seq, payload);
            let next = m.next[channel.code() as int];
            &&& seq < next ==> n == m && out.len() == 0
            &&& seq > next ==> out.len() == 0 && n.next == m.next && n.hold == m.hold.insert(
                slot(channel.code(), seq),
                payload,
            )
            &&& seq == next ==> out.len() >= 1 && out[0] == payload
        }),
{
    slots_are_distinct(channel.code(), seq, channel.code(), m.next[channel.code() as int]);
    assert(m.next.update(channel.code() as int, m.next[channel.code() as int]) =~= m.next);
}

/// What is handed over is numbered without a gap: with the turn of one that waits comes the
/// turn of all that follow it, and the first number that is missing is the one waited for.
pub proof fn waiting_packets_follow(hold: Map<u64, Seq<u8>>, channel: u8, next: u32, i: int)
    requires
        hold.dom().finite(),
        next + hold.dom().len() <= u32::MAX,
    ensures
        ({
            let (out, n, left) = drain(hold, channel, next);
            &&& n == next + out.len()
            &&& out.len() <= hold.dom().len()
            &&& !hold.contains_key(slot(channel, n))
            &&& 0 <= i < out.len() ==> hold.contains_key(slot(channel, (next + i) as u32))
                && out[i] == hold[slot(channel, (next + i) as u32)] && !left.contains_key(
                slot(channel, (next + i) as u32),
            )
        }),
        forall|k: u64|
            (forall|j: int|
                next <= j < drain(hold, channel, next).1 ==> k != #[trigger] slot(
                    channel,
                    j as u32,
                )) ==> (hold.contains_key(k) <==> #[trigger] drain(
                hold,
                channel,
                next,
            ).2.contains_key(k)) && hold[k] == drain(hold, channel, next).2[k],
    decreases hold.dom().len(),
{
    let k0 = slot(channel, next);
    if hold.contains_key(k0) {
        let rest = hold.remove(k0);
        assert(rest.dom() =~= hold.dom().remove(k0));
        waiting_packets_follow(rest, channel, after(next), i - 1);
        let (out, n, left) = drain(hold, channel, next);
        let d = drain(rest, channel, after(next));
        slots_are_distinct(channel, next, channel, n);
        if 0 < i < out.len() {
            assert(out[i] == d.0[i - 1]);
            slots_are_distinct(channel, next, channel, (next + i) as u32);
        }
        if i == 0 {
            assert(forall|j: int|
                after(next) <= j < d.1 ==> k0 != #[trigger] slot(channel, j as u32));
            assert(rest.contains_key(k0) <==> d.2.contains_key(k0));
        }
        assert forall|k: u64|
            (forall|j: int| next <= j < n ==> k != #[trigger] slot(channel, j as u32)) implies (
        hold.contains_key(k) <==> #[trigger] left.contains_key(k)) && hold[k] == left[k] by {
            assert(k != slot(channel, next as int as u32));
            assert(rest.contains_key(k) <==> d.2.contains_key(k));
        }
    }
}

/// The packets due go out by channel and, within one, by number, those that were sent eight
/// thousandths of a second ago or earlier.
pub proof fn packets_are_due_after_a_while(m: OutgoingModel, now: u64)
    ensures
        m.due(now) <==> now - m.last_send >= 8_000_000,
        m.passed(now).packet == m.packet,
        m.passed(now).first_send == m.first_send,
        m.passed(now).last_send == if now - m.last_send >= 8_000_000 {
            now
        } else {
            m.last_send
        },
{
}

/// Numbers go up by one and, past the largest, on from zero; no two have the same one after
/// them.
pub proof fn numbers_go_round(m: u32, n: u32)
    ensures
        n < u32::MAX ==> after(n) == n + 1,
        after(u32::MAX) == 0,
        after(m) == after(n) ==> m == n,
{
}

} // verus!
