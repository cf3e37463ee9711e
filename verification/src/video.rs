//! Reassembly of fragmented video frames.

use std::collections::HashMap;

use vstd::prelude::*;
use vstd::std_specs::iter::IteratorSpec;

use crate::bytes::push_all;
use crate::packet::{fragment_of, fragment_total, fragments, joined};
use crate::timing::{elapsed, elapsed_since};

verus! {

broadcast use vstd::std_specs::hash::group_hash_axioms;

/// A frame that is not complete this long after its first fragment is given up.
pub const VIDEO_ASSEMBLE_TTL_NS: u64 = 80_000_000;

/// Frames this far behind the newest complete one are still taken.
pub const REORDER_WINDOW: u64 = 8;

/// A frame in the making.
pub struct VideoFrameBuf {
    parts: HashMap<u16, Vec<u8>>,
    count: u16,
    keyframe: bool,
    first_seen: u64,
}

#[verifier::ext_equal]
pub struct FrameModel {
    pub parts: Map<u16, Seq<u8>>,
    pub count: u16,
    pub keyframe: bool,
    pub first_seen: u64,
}

impl View for VideoFrameBuf {
    type V = FrameModel;

    closed spec fn view(&self) -> FrameModel {
        FrameModel {
            parts: self.parts@.map_values(|v: Vec<u8>| v@),
            count: self.count,
            keyframe: self.keyframe,
            first_seen: self.first_seen,
        }
    }
}

impl FrameModel {
    /// Whether as many fragments are there as the frame has. Fragment counts are
    /// sixteen bits wide.
    pub open spec fn complete(self) -> bool {
        self.parts.dom().len() % 0x1_0000 == self.count
    }

    /// Fragment `i`, or nothing where it is missing.
    pub open spec fn part(self, i: int) -> Seq<u8> {
        if self.parts.contains_key(i as u16) {
            self.parts[i as u16]
        } else {
            Seq::empty()
        }
    }

    /// The fragments in order of their index, laid end to end.
    pub open spec fn assembled(self) -> Seq<u8> {
        joined(Seq::new(self.count as nat, |i: int| self.part(i)))
    }

    /// Whether the frame is given up at `now`.
    pub open spec fn expired(self, now: u64) -> bool {
        elapsed(self.first_seen, now) > VIDEO_ASSEMBLE_TTL_NS
    }
}

/// The frames in the making, and the number of the newest one handed over.
#[verifier::ext_equal]
pub struct AssemblerModel {
    pub frames: Map<u32, FrameModel>,
    pub last: u32,
}

impl AssemblerModel {
    pub open spec fn start() -> AssemblerModel {
        AssemblerModel { frames: Map::empty(), last: 0 }
    }

    /// The frame under `id` with one more fragment. The first fragment seen decides
    /// whether it is a keyframe, the latest one how many fragments there are.
    pub open spec fn with_part(
        self,
        id: u32,
        idx: u16,
        count: u16,
        keyframe: bool,
        part: Seq<u8>,
        now: u64,
    ) -> FrameModel {
        let f = if self.frames.contains_key(id) {
            self.frames[id]
        } else {
            FrameModel { parts: Map::empty(), count, keyframe, first_seen: now }
        };
        FrameModel { parts: f.parts.insert(idx, part), count, ..f }
    }

    /// What a fragment does: nothing when its frame is too old; otherwise it joins its
    /// frame, which is handed over and forgotten once it is complete.
    pub open spec fn accept(
        self,
        id: u32,
        idx: u16,
        count: u16,
        keyframe: bool,
        part: Seq<u8>,
        now: u64,
    ) -> (AssemblerModel, Option<(Seq<u8>, bool)>) {
        let f = self.with_part(id, idx, count, keyframe, part, now);
        if id + REORDER_WINDOW < self.last {
            (self, None)
        } else if f.complete() {
            (
                AssemblerModel {
                    frames: self.frames.remove(id),
                    last: if self.last >= id {
                        self.last
                    } else {
                        id
                    },
                },
                Some((f.assembled(), f.keyframe)),
            )
        } else {
            (AssemblerModel { frames: self.frames.insert(id, f), ..self }, None)
        }
    }

    /// The frames given up at `now`.
    pub open spec fn given_up(self, now: u64) -> Set<u32> {
        Set::new(|id: u32| self.frames.contains_key(id) && self.frames[id].expired(now))
    }

    /// What is left once those are dropped.
    pub open spec fn pruned(self, now: u64) -> AssemblerModel {
        AssemblerModel { frames: self.frames.remove_keys(self.given_up(now)), ..self }
    }
}

pub struct VideoAssembler {
    frames: HashMap<u32, VideoFrameBuf>,
    last: u32,
}

impl View for VideoAssembler {
    type V = AssemblerModel;

    closed spec fn view(&self) -> AssemblerModel {
        AssemblerModel {
            frames: self.frames@.map_values(|f: VideoFrameBuf| f@),
            last: self.last,
        }
    }
}

impl VideoFrameBuf {
    fn assemble(&self) -> (r: Vec<u8>)
        ensures
            r@ == self@.assembled(),
    {
        let mut full: Vec<u8> = Vec::new();
        let mut i: u16 = 0;
        let ghost all = Seq::new(self.count as nat, |i: int| self@.part(i));
        assert(all.take(0) =~= Seq::empty());
        while i < self.count
            invariant
                i <= self.count,
                all == Seq::new(self.count as nat, |i: int| self@.part(i)),
                full@ == joined(all.take(i as int)),
            decreases self.count - i,
        {
            assert(all.take(i + 1).drop_last() =~= all.take(i as int));
            assert(all.take(i + 1).last() == self@.part(i as int));
            match self.parts.get(&i) {
                Some(p) => {
                    push_all(&mut full, p.as_slice());
                },
                None => {
                    assert(full@ + self@.part(i as int) =~= full@);
                },
            }
            i = i + 1;
        }
        assert(all.take(i as int) =~= all);
        full
    }
}

impl VideoAssembler {
    pub fn new() -> (r: VideoAssembler)
        ensures
            r@ == AssemblerModel::start(),
    {
        let r = VideoAssembler { frames: HashMap::new(), last: 0 };
        assert(r@ =~= AssemblerModel::start());
        r
    }

    pub fn partial(&self) -> (r: usize)
        ensures
            r == self@.frames.dom().len(),
            self@.frames.dom().finite(),
    {
        assert(self@.frames.dom() =~= self.frames@.dom());
        self.frames.len()
    }

    /// Takes in a fragment. Gives the frame's payload and whether it is a keyframe when
    /// this fragment completes it.
    pub fn accept(
        &mut self,
        id: u32,
        idx: u16,
        count: u16,
        keyframe: bool,
        part: Vec<u8>,
        now: u64,
    ) -> (r: Option<(Vec<u8>, bool)>)
        ensures
            final(self)@ == old(self)@.accept(id, idx, count, keyframe, part@, now).0,
            match r {
                Some((p, k)) => old(self)@.accept(id, idx, count, keyframe, part@, now).1 == Some(
                    (p@, k),
                ),
                None => old(self)@.accept(id, idx, count, keyframe, part@, now).1 is None,
            },
    {
        if id as u64 + REORDER_WINDOW < self.last as u64 {
            return None;
        }
        let ghost m = self@;
        let ghost grown = m.with_part(id, idx, count, keyframe, part@, now);
        let mut f = match self.frames.remove(&id) {
            Some(f) => f,
            None => VideoFrameBuf { parts: HashMap::new(), count, keyframe, first_seen: now },
        };
        assert(self@.frames =~= m.frames.remove(id));
        let ghost had = f@;
        assert(!m.frames.contains_key(id) ==> had.parts =~= Map::empty());
        f.parts.insert(idx, part);
        f.count = count;
        assert(f@.parts =~= had.parts.insert(idx, part@));
        assert(f@ == grown);
        assert(f@.parts.dom() =~= f.parts@.dom());
        if (f.parts.len() % 0x1_0000) as u16 == count {
            let full = f.assemble();
            if self.last < id {
                self.last = id;
            }
            assert(self@ =~= m.accept(id, idx, count, keyframe, part@, now).0);
            Some((full, f.keyframe))
        } else {
            self.frames.insert(id, f);
            assert(self@ =~= m.accept(id, idx, count, keyframe, part@, now).0);
            None
        }
    }

    /// The numbers of the frames in the making, in no particular order.
    fn ids(&self) -> (r: Vec<u32>)
        ensures
            forall|k: u32| #[trigger] r@.contains(k) <==> self@.frames.contains_key(k),
    {
        let mut r: Vec<u32> = Vec::new();
        for k in it: self.frames.keys()
            invariant
                r@ == it.seq().unref().take(it.index()),
        {
            r.push(*k);
            assert(r@ =~= it.seq().unref().take(it.index() + 1));
        }
        proof {
            let s = vstd::std_specs::hash::spec_keys_iter(&self.frames).remaining();
            assert(r@ =~= s.unref());
            assert(self@.frames.dom() =~= self.frames@.dom());
            assert forall|k: u32| #[trigger] r@.contains(k) <==> self@.frames.contains_key(k) by {
                assert(s.unref().to_set().contains(k) <==> s.unref().contains(k));
            }
        }
        r
    }

    /// Drops the frames given up at `now` and says how many there were.
    pub fn expire(&mut self, now: u64) -> (r: usize)
        ensures
            final(self)@ == old(self)@.pruned(now),
            old(self)@.given_up(now).finite(),
            r == old(self)@.given_up(now).len(),
            r <= old(self)@.frames.dom().len(),
    {
        proof {
            assert(self@.frames.dom() =~= self.frames@.dom());
            assert(self@.given_up(now).subset_of(self@.frames.dom()));
            vstd::set_lib::lemma_len_subset(self@.given_up(now), self@.frames.dom());
        }
        let ids = self.ids();
        let ghost m = self@;
        let ghost mut gone: Set<u32> = Set::empty();
        let mut lost: usize = 0;
        let mut i: usize = 0;
        assert(m.frames.remove_keys(gone) =~= m.frames);
        while i < ids.len()
            invariant
                i <= ids@.len(),
                lost <= i,
                m == old(self)@,
                forall|k: u32| #[trigger] ids@.contains(k) <==> m.frames.contains_key(k),
                gone.finite(),
                gone.len() == lost,
                gone.subset_of(m.given_up(now)),
                forall|j: int|
                    0 <= j < i && m.frames[#[trigger] ids@[j]].expired(now) ==> gone.contains(
                        ids@[j],
                    ),
                self@ == (AssemblerModel { frames: m.frames.remove_keys(gone), ..m }),
            decreases ids@.len() - i,
        {
            let id: u32 = ids[i];
            assert(ids@.contains(id));
            let ghost before = self@;
            let late = match self.frames.get(&id) {
                Some(f) => {
                    assert(f@ == before.frames[id]);
                    elapsed_since(f.first_seen, now) > VIDEO_ASSEMBLE_TTL_NS
                },
                None => false,
            };
            assert(late == (before.frames.contains_key(id) && m.frames[id].expired(now)));
            if late {
                assert(before.frames.contains_key(id));
                self.frames.remove(&id);
                proof {
                    assert(self@.frames =~= before.frames.remove(id));
                    gone = gone.insert(id);
                    assert(self@.frames =~= m.frames.remove_keys(gone));
                }
                lost = lost + 1;
            }
            i = i + 1;
        }
        proof {
            assert forall|k: u32| m.given_up(now).contains(k) implies gone.contains(k) by {
                assert(ids@.contains(k));
                let j = choose|j: int| 0 <= j < ids@.len() && ids@[j] == k;
                assert(m.frames[ids@[j]].expired(now));
            }
            assert(gone =~= m.given_up(now));
        }
        lost
    }

    pub fn clear(&mut self)
        ensures
            final(self)@ == AssemblerModel::start(),
    {
        self.frames.clear();
        self.last = 0;
        assert(self@ =~= AssemblerModel::start());
    }
}

/// The assembler after fragments of one payload came in, in the order given, each at
/// its own time, and what the last of them handed over.
pub open spec fn fed(
    m: AssemblerModel,
    id: u32,
    keyframe: bool,
    payload: Seq<u8>,
    order: Seq<u16>,
    times: spec_fn(int) -> u64,
) -> (AssemblerModel, Option<(Seq<u8>, bool)>)
    decreases order.len(),
{
    if order.len() == 0 {
        (m, None)
    } else {
        let n = order.len() - 1;
        fed(m, id, keyframe, payload, order.drop_last(), times).0.accept(
            id,
            order[n],
            fragment_total(payload.len()) as u16,
            keyframe,
            fragment_of(payload, order[n] as int),
            times(n),
        )
    }
}

/// Whether `order` names each fragment of a payload of `len` bytes once.
pub open spec fn each_once(order: Seq<u16>, len: nat) -> bool {
    &&& order.len() == fragment_total(len)
    &&& order.no_duplicates()
    &&& forall|i: int| 0 <= i < order.len() ==> (#[trigger] order[i]) < fragment_total(len)
}

proof fn lemma_fed_partial(
    m: AssemblerModel,
    id: u32,
    keyframe: bool,
    payload: Seq<u8>,
    order: Seq<u16>,
    times: spec_fn(int) -> u64,
)
    requires
        0 < order.len() < fragment_total(payload.len()) <= u16::MAX,
        order.no_duplicates(),
        forall|i: int|
            0 <= i < order.len() ==> (#[trigger] order[i]) < fragment_total(payload.len()),
        !m.frames.contains_key(id),
        id + REORDER_WINDOW >= m.last,
    ensures
        ({
            let (n, out) = fed(m, id, keyframe, payload, order, times);
            let f = n.frames[id];
            &&& out is None
            &&& n.last == m.last
            &&& n.frames.contains_key(id)
            &&& n.frames.remove(id) == m.frames
            &&& f.keyframe == keyframe
            &&& f.count == fragment_total(payload.len())
            &&& f.parts.dom() == order.to_set()
            &&& forall|i: u16| #[trigger]
                f.parts.contains_key(i) ==> f.parts[i] == fragment_of(payload, i as int)
        }),
    decreases order.len(),
{
    let shorter = order.drop_last();
    let x = order.last();
    let n = order.len() - 1;
    if shorter.len() > 0 {
        lemma_fed_partial(m, id, keyframe, payload, shorter, times);
    }
    let before = fed(m, id, keyframe, payload, shorter, times).0;
    let total = fragment_total(payload.len());
    let f = before.with_part(
        id,
        x,
        total as u16,
        keyframe,
        fragment_of(payload, x as int),
        times(n),
    );
    assert(order =~= shorter.push(x));
    assert(f.parts.dom() =~= order.to_set()) by {
        assert forall|k: u16| f.parts.dom().contains(k) <==> order.to_set().contains(k) by {
            if shorter.contains(k) {
                let i = choose|i: int| 0 <= i < shorter.len() && shorter[i] == k;
                assert(order[i] == k);
            }
            if order.contains(k) {
                let i = choose|i: int| 0 <= i < order.len() && order[i] == k;
                if i < shorter.len() {
                    assert(shorter[i] == k);
                }
            }
            assert(order[n] == x);
            assert(shorter.len() == 0 ==> !shorter.contains(k));
        }
    }
    order.unique_seq_to_set();
    assert(!f.complete());
    let after = fed(m, id, keyframe, payload, order, times).0;
    assert(after.frames == before.frames.insert(id, f));
    assert(after.frames.remove(id) =~= m.frames);
}

/// A finite set of numbers below `n` has at most `n` members, and all of them once it
/// has `n`.
proof fn lemma_below(s: Set<u16>, n: nat)
    requires
        s.finite(),
        n <= u16::MAX + 1,
        forall|k: u16| #[trigger] s.contains(k) ==> k < n,
    ensures
        s.len() <= n,
        s.len() == n ==> forall|k: u16| k < n ==> #[trigger] s.contains(k),
    decreases n,
{
    if n == 0 {
        assert(s =~= Set::empty());
    } else {
        let x = (n - 1) as u16;
        let t = s.remove(x);
        lemma_below(t, (n - 1) as nat);
        if s.len() == n {
            assert forall|k: u16| k < n implies #[trigger] s.contains(k) by {
                if k != x {
                    assert(t.contains(k));
                }
            }
        }
    }
}

/// A frame comes out whole, whatever order its fragments arrive in: nothing is handed
/// over before the last of them, and the last one hands over the payload that was cut
/// up. Other frames in the making are left alone.
pub proof fn frame_reassembles_in_any_order(
    m: AssemblerModel,
    id: u32,
    keyframe: bool,
    payload: Seq<u8>,
    order: Seq<u16>,
    times: spec_fn(int) -> u64,
)
    requires
        fragment_total(payload.len()) <= u16::MAX,
        each_once(order, payload.len()),
        !m.frames.contains_key(id),
        id + REORDER_WINDOW >= m.last,
    ensures
        fed(m, id, keyframe, payload, order, times).1 == Some((payload, keyframe)),
        fed(m, id, keyframe, payload, order, times).0.frames == m.frames,
        forall|k: int|
            0 <= k < order.len() ==> (#[trigger] fed(
                m,
                id,
                keyframe,
                payload,
                order.take(k),
                times,
            )).1 is None,
{
    let total = fragment_total(payload.len());
    let shorter = order.drop_last();
    let x = order.last();
    let n = order.len() - 1;
    assert(order.len() >= 1);
    assert forall|k: int| 0 <= k < order.len() implies (#[trigger] fed(
        m,
        id,
        keyframe,
        payload,
        order.take(k),
        times,
    )).1 is None by {
        let t = order.take(k);
        if k > 0 {
            assert forall|i: int| 0 <= i < t.len() implies (#[trigger] t[i]) < total by {
                assert(t[i] == order[i]);
            }
            lemma_fed_partial(m, id, keyframe, payload, t, times);
        }
    }
    if shorter.len() > 0 {
        assert forall|i: int| 0 <= i < shorter.len() implies (#[trigger] shorter[i]) < total by {
            assert(shorter[i] == order[i]);
        }
        lemma_fed_partial(m, id, keyframe, payload, shorter, times);
    }
    let before = fed(m, id, keyframe, payload, shorter, times).0;
    let f = before.with_part(
        id,
        x,
        total as u16,
        keyframe,
        fragment_of(payload, x as int),
        times(n),
    );
    assert(f.parts.dom() =~= order.to_set()) by {
        assert forall|k: u16| f.parts.dom().contains(k) <==> order.to_set().contains(k) by {
            if shorter.contains(k) {
                let i = choose|i: int| 0 <= i < shorter.len() && shorter[i] == k;
                assert(order[i] == k);
            }
            if order.contains(k) {
                let i = choose|i: int| 0 <= i < order.len() && order[i] == k;
                if i < shorter.len() {
                    assert(shorter[i] == k);
                }
            }
            assert(order[n] == x);
            assert(shorter.len() == 0 ==> !shorter.contains(k));
        }
    }
    order.unique_seq_to_set();
    assert(f.complete());
    assert forall|k: u16| #[trigger] f.parts.dom().contains(k) implies k < total by {
        let i = choose|i: int| 0 <= i < order.len() && order[i] == k;
        assert(order[i] == k);
    }
    lemma_below(f.parts.dom(), total);
    let parts = Seq::new(total, |i: int| f.part(i));
    assert forall|i: int| 0 <= i < total implies parts[i] == fragment_of(payload, i) by {
        assert(f.parts.dom().contains(i as u16));
    }
    assert(parts =~= fragments(payload));
    crate::packet::fragments_rejoin(payload);
    let out = fed(m, id, keyframe, payload, order, times);
    assert(before.frames.remove(id) =~= m.frames);
}

/// Nothing that is kept when frames are given up at `now` is overdue at `now`.
pub proof fn pruning_keeps_the_fresh(m: AssemblerModel, now: u64, id: u32)
    ensures
        m.pruned(now).frames.contains_key(id) <==> m.frames.contains_key(id)
            && !m.frames[id].expired(now),
        m.pruned(now).frames.contains_key(id) ==> m.pruned(now).frames[id] == m.frames[id],
{
}

/// A fragment is taken in unless its frame is more than eight behind the newest one handed
/// over; one that is too late changes nothing and hands nothing over.
pub proof fn late_frames_are_dropped(
    m: AssemblerModel,
    id: u32,
    idx: u16,
    count: u16,
    keyframe: bool,
    part: Seq<u8>,
    now: u64,
)
    ensures
        ({
            let (n, out) = m.accept(id, idx, count, keyframe, part, now);
            &&& m.last - id > 8 ==> n == m && out is None
            &&& m.last - id <= 8 ==> (out is Some || (n.frames.contains_key(id)
                && n.frames[id].parts.contains_key(idx) && n.frames[id].parts[idx] == part))
        }),
{
}

/// A fragment touches its own frame only. A frame that is handed over is forgotten, and the
/// newest number is then the larger of its own and the one before; a frame that is not handed
/// over leaves that number as it was.
pub proof fn frames_do_not_mix(
    m: AssemblerModel,
    id: u32,
    idx: u16,
    count: u16,
    keyframe: bool,
    part: Seq<u8>,
    now: u64,
    other: u32,
)
    ensures
        ({
            let (n, out) = m.accept(id, idx, count, keyframe, part, now);
            &&& other != id ==> (n.frames.contains_key(other) <==> m.frames.contains_key(other))
                && n.frames[other] == m.frames[other]
            &&& out is Some ==> !n.frames.contains_key(id) && n.last >= id && n.last >= m.last
                && (n.last == id || n.last == m.last)
            &&& out is None ==> n.last == m.last
        }),
{
}

/// A frame in the making keeps the fragments it has and the time and the keyframe mark of the
/// first one; a fragment that comes again takes the place of the one before.
pub proof fn fragments_are_kept(
    m: AssemblerModel,
    id: u32,
    idx: u16,
    count: u16,
    keyframe: bool,
    part: Seq<u8>,
    now: u64,
    other: u16,
)
    ensures
        ({
            let (n, out) = m.accept(id, idx, count, keyframe, part, now);
            &&& m.last - id <= 8 && out is None && m.frames.contains_key(id) ==> {
                &&& n.frames[id].keyframe == m.frames[id].keyframe
                &&& n.frames[id].first_seen == m.frames[id].first_seen
                &&& n.frames[id].count == count
                &&& other != idx ==> (n.frames[id].parts.contains_key(other)
                    <==> m.frames[id].parts.contains_key(other)) && n.frames[id].parts[other]
                    == m.frames[id].parts[other]
            }
            &&& m.last - id <= 8 && out is None && !m.frames.contains_key(id) ==> {
                &&& n.frames[id].keyframe == keyframe
                &&& n.frames[id].first_seen == now
                &&& n.frames[id].count == count
                &&& other != idx ==> !n.frames[id].parts.contains_key(other)
            }
            &&& out matches Some((_, k)) ==> k == (if m.frames.contains_key(id) {
                m.frames[id].keyframe
            } else {
                keyframe
            })
        }),
{
}

/// A frame of one fragment is handed over at once, as that fragment.
pub proof fn single_fragments_are_whole(
    m: AssemblerModel,
    id: u32,
    keyframe: bool,
    part: Seq<u8>,
    now: u64,
)
    requires
        m.last <= id + 8,
        !m.frames.contains_key(id),
    ensures
        m.accept(id, 0, 1, keyframe, part, now) == (
            AssemblerModel {
                frames: m.frames,
                last: if id > m.last {
                    id
                } else {
                    m.last
                },
            },
            Some((part, keyframe)),
        ),
{
    let f = m.with_part(id, 0, 1, keyframe, part, now);
    assert(f.parts.dom() =~= Set::<u16>::empty().insert(0));
    assert(f.parts.dom().len() == 1);
    let all = Seq::new(f.count as nat, |i: int| f.part(i));
    assert(all =~= seq![part]);
    reveal_with_fuel(joined, 2);
    assert(all.drop_last() =~= Seq::<Seq<u8>>::empty());
    assert(joined(all) =~= part);
    assert(m.frames.remove(id) =~= m.frames);
}

/// A frame is handed over exactly when, with this fragment, as many are there as it has.
pub proof fn frames_wait_for_all_fragments(
    m: AssemblerModel,
    id: u32,
    idx: u16,
    count: u16,
    keyframe: bool,
    part: Seq<u8>,
    now: u64,
)
    requires
        m.last <= id + 8,
        m.frames.contains_key(id),
        m.frames[id].parts.dom().finite(),
        m.frames[id].parts.dom().len() < u16::MAX,
    ensures
        m.accept(id, idx, count, keyframe, part, now).1 is Some <==> count
            == m.frames[id].parts.dom().len() + (if m.frames[id].parts.contains_key(idx) {
            0int
        } else {
            1int
        }),
{
    let f = m.with_part(id, idx, count, keyframe, part, now);
    assert(f.parts.dom() =~= m.frames[id].parts.dom().insert(idx));
    if m.frames[id].parts.contains_key(idx) {
        assert(f.parts.dom() =~= m.frames[id].parts.dom());
    }
}

/// The assembler gives up what is older than eighty thousandths of a second, keeps the rest as
/// it is, and what it gave up can start over.
pub proof fn only_old_frames_are_given_up(m: AssemblerModel, now: u64, id: u32)
    ensures
        m.pruned(now).last == m.last,
        m.pruned(now).frames.contains_key(id) <==> m.frames.contains_key(id) && now
            - m.frames[id].first_seen <= 80_000_000,
        m.pruned(now).frames.contains_key(id) ==> m.pruned(now).frames[id] == m.frames[id],
        m.given_up(now).contains(id) <==> m.frames.contains_key(id) && now
            - m.frames[id].first_seen > 80_000_000,
{
}

} // verus!
