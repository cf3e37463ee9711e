//! The BUD datagram header and payload fragmentation.

use vstd::prelude::*;
use vstd::slice::slice_subrange;

use crate::bytes::{le_bytes, le_value, read_le};
use crate::messages::Channel;

verus! {

broadcast use vstd::slice::group_slice_axioms;

/// Conservative LAN UDP payload. Ethernet MTU 1500 minus IP/UDP/BUD overhead.
pub const MTU: usize = 1400;

pub const MAX_PAYLOAD: usize = 1200;

/// The port a host listens on unless told otherwise.
pub const DEFAULT_PORT: u16 = 44700;

/// The four bytes every BUD datagram starts with: `BUD1`.
pub const MAGIC: [u8; 4] = [0x42, 0x55, 0x44, 0x31];

pub const FLAG_KEYFRAME: u8 = 1;

pub const FLAG_RELIABLE: u8 = 2;

pub const FLAG_FIN: u8 = 4;

pub const HEADER_LEN: usize = 20;

/// Where the session epoch stands in a header. Acknowledgements leave it zero.
pub const EPOCH_AT: usize = 7;

#[derive(Debug, Clone, Copy, PartialEq, Eq, Structural)]
pub enum PacketType {
    Hello,
    HelloAck,
    Data,
    Ack,
    Nack,
}

impl PacketType {
    /// The number that stands for the type on the wire.
    pub open spec fn code(self) -> u8 {
        match self {
            PacketType::Hello => 1,
            PacketType::HelloAck => 2,
            PacketType::Data => 10,
            PacketType::Ack => 11,
            PacketType::Nack => 12,
        }
    }

    /// The type that a wire number stands for.
    pub open spec fn of_code(v: u8) -> Option<PacketType> {
        if v == 1 {
            Some(PacketType::Hello)
        } else if v == 2 {
            Some(PacketType::HelloAck)
        } else if v == 10 {
            Some(PacketType::Data)
        } else if v == 11 {
            Some(PacketType::Ack)
        } else if v == 12 {
            Some(PacketType::Nack)
        } else {
            None
        }
    }

    pub fn from_u8(v: u8) -> (r: Option<PacketType>)
        ensures
            r == PacketType::of_code(v),
    {
        match v {
            1 => Some(PacketType::Hello),
            2 => Some(PacketType::HelloAck),
            10 => Some(PacketType::Data),
            11 => Some(PacketType::Ack),
            12 => Some(PacketType::Nack),
            _ => None,
        }
    }

    pub fn to_u8(self) -> (r: u8)
        ensures
            r == self.code(),
    {
        match self {
            PacketType::Hello => 1,
            PacketType::HelloAck => 2,
            PacketType::Data => 10,
            PacketType::Ack => 11,
            PacketType::Nack => 12,
        }
    }
}

/// Cleartext BUD header. Encrypted payload follows for Data/Ack/Nack after handshake.
#[derive(Debug, Clone, Copy, PartialEq, Eq, Structural)]
pub struct PacketHeader {
    pub ty: PacketType,
    pub channel: Channel,
    pub flags: u8,
    pub seq: u32,
    pub frame_id: u32,
    pub frag_idx: u16,
    pub frag_count: u16,
}

/// Byte `i` of `v`, counted from the least significant.
fn byte_of(v: u32, i: u8) -> (r: u8)
    requires
        i < 4,
    ensures
        i == 0 ==> r == (v as nat % 256) as u8,
        i == 1 ==> r == (v as nat / 256 % 256) as u8,
        i == 2 ==> r == (v as nat / 256 / 256 % 256) as u8,
        i == 3 ==> r == (v as nat / 256 / 256 / 256 % 256) as u8,
{
    if i == 0 {
        (v % 256) as u8
    } else if i == 1 {
        (v / 256 % 256) as u8
    } else if i == 2 {
        (v / 256 / 256 % 256) as u8
    } else {
        (v / 256 / 256 / 256 % 256) as u8
    }
}

impl PacketHeader {
    /// The header as it stands on the wire, stamped with a session epoch.
    pub open spec fn wire(self, epoch: u8) -> Seq<u8> {
        MAGIC@ + seq![self.ty.code(), self.channel.code(), self.flags, epoch]
            + le_bytes(self.seq as nat, 4) + le_bytes(self.frame_id as nat, 4) + le_bytes(
            self.frag_idx as nat,
            2,
        ) + le_bytes(self.frag_count as nat, 2)
    }

    /// The header that `s` starts with, if it starts with one.
    pub open spec fn parse(s: Seq<u8>) -> Option<PacketHeader> {
        if s.len() < HEADER_LEN || s.subrange(0, 4) != MAGIC@ || PacketType::of_code(
            s[4],
        ) is None || Channel::of_code(s[5]) is None {
            None
        } else {
            Some(
                PacketHeader {
                    ty: PacketType::of_code(s[4])->0,
                    channel: Channel::of_code(s[5])->0,
                    flags: s[6],
                    seq: le_value(s.subrange(8, 12)) as u32,
                    frame_id: le_value(s.subrange(12, 16)) as u32,
                    frag_idx: le_value(s.subrange(16, 18)) as u16,
                    frag_count: le_value(s.subrange(18, 20)) as u16,
                },
            )
        }
    }

    /// The header with the epoch byte zero.
    pub fn encode(&self) -> (r: [u8; HEADER_LEN])
        ensures
            r@ == self.wire(0),
    {
        self.encode_epoch(0)
    }

    /// The header stamped with `epoch`.
    pub fn encode_epoch(&self, epoch: u8) -> (r: [u8; HEADER_LEN])
        ensures
            r@ == self.wire(epoch),
    {
        let r: [u8; HEADER_LEN] = [
            MAGIC[0],
            MAGIC[1],
            MAGIC[2],
            MAGIC[3],
            self.ty.to_u8(),
            self.channel.to_u8(),
            self.flags,
            epoch,
            byte_of(self.seq, 0),
            byte_of(self.seq, 1),
            byte_of(self.seq, 2),
            byte_of(self.seq, 3),
            byte_of(self.frame_id, 0),
            byte_of(self.frame_id, 1),
            byte_of(self.frame_id, 2),
            byte_of(self.frame_id, 3),
            byte_of(self.frag_idx as u32, 0),
            byte_of(self.frag_idx as u32, 1),
            byte_of(self.frag_count as u32, 0),
            byte_of(self.frag_count as u32, 1),
        ];
        proof {
            reveal_with_fuel(le_bytes, 5);
            assert(r@ =~= self.wire(epoch));
        }
        r
    }

    pub fn decode(buf: &[u8]) -> (r: Option<PacketHeader>)
        ensures
            r == PacketHeader::parse(buf@),
    {
        if buf.len() < HEADER_LEN {
            return None;
        }
        proof {
            crate::bytes::lemma_le_range_values();
        }
        if buf[0] != MAGIC[0] || buf[1] != MAGIC[1] || buf[2] != MAGIC[2] || buf[3] != MAGIC[3] {
            assert(buf@.subrange(0, 4)[0] == buf@[0] && buf@.subrange(0, 4)[1] == buf@[1]);
            assert(buf@.subrange(0, 4)[2] == buf@[2] && buf@.subrange(0, 4)[3] == buf@[3]);
            return None;
        }
        assert(buf@.subrange(0, 4) =~= MAGIC@);
        let ty = match PacketType::from_u8(buf[4]) {
            Some(t) => t,
            None => {
                return None;
            },
        };
        let channel = match Channel::from_u8(buf[5]) {
            Some(c) => c,
            None => {
                return None;
            },
        };
        Some(
            PacketHeader {
                ty,
                channel,
                flags: buf[6],
                seq: read_le(buf, 8, 4) as u32,
                frame_id: read_le(buf, 12, 4) as u32,
                frag_idx: read_le(buf, 16, 2) as u16,
                frag_count: read_le(buf, 18, 2) as u16,
            },
        )
    }
}

/// Every header reads back as it was written, whatever epoch it is stamped with and
/// whatever payload follows; the epoch byte stands where `EPOCH_AT` says.
pub proof fn header_reads_back(h: PacketHeader, epoch: u8, payload: Seq<u8>)
    ensures
        h.wire(epoch).len() == HEADER_LEN,
        PacketHeader::parse(h.wire(epoch) + payload) == Some(h),
        (h.wire(epoch) + payload)[EPOCH_AT as int] == epoch,
{
    let s = h.wire(epoch) + payload;
    crate::bytes::lemma_le_bytes_len(h.seq as nat, 4);
    crate::bytes::lemma_le_bytes_len(h.frame_id as nat, 4);
    crate::bytes::lemma_le_bytes_len(h.frag_idx as nat, 2);
    crate::bytes::lemma_le_bytes_len(h.frag_count as nat, 2);
    crate::bytes::lemma_le_range_values();
    crate::bytes::lemma_le_roundtrip(h.seq as nat, 4);
    crate::bytes::lemma_le_roundtrip(h.frame_id as nat, 4);
    crate::bytes::lemma_le_roundtrip(h.frag_idx as nat, 2);
    crate::bytes::lemma_le_roundtrip(h.frag_count as nat, 2);
    assert(s.subrange(0, 4) =~= MAGIC@);
    assert(s.subrange(8, 12) =~= le_bytes(h.seq as nat, 4));
    assert(s.subrange(12, 16) =~= le_bytes(h.frame_id as nat, 4));
    assert(s.subrange(16, 18) =~= le_bytes(h.frag_idx as nat, 2));
    assert(s.subrange(18, 20) =~= le_bytes(h.frag_count as nat, 2));
}

/// What decodes to a header is that header's encoding, up to the epoch byte, which
/// decoding passes over, and the bytes behind it.
pub proof fn header_parse_is_strict(s: Seq<u8>)
    requires
        PacketHeader::parse(s) is Some,
    ensures
        s.take(HEADER_LEN as int) == (PacketHeader::parse(s)->0).wire(s[EPOCH_AT as int]),
{
    let h = PacketHeader::parse(s)->0;
    crate::bytes::lemma_le_range_values();
    crate::bytes::lemma_le_value_roundtrip(s.subrange(0, 4));
    crate::bytes::lemma_le_value_roundtrip(s.subrange(8, 12));
    crate::bytes::lemma_le_value_roundtrip(s.subrange(12, 16));
    crate::bytes::lemma_le_value_roundtrip(s.subrange(16, 18));
    crate::bytes::lemma_le_value_roundtrip(s.subrange(18, 20));
    crate::messages::channel_codes_roundtrip(h.channel, s[5]);
    assert(s.take(20) =~= s.subrange(0, 4) + seq![s[4], s[5], s[6], s[7]] + s.subrange(8, 12)
        + s.subrange(12, 16) + s.subrange(16, 18) + s.subrange(18, 20));
}

/// How many fragments carry a payload of `len` bytes. An empty payload takes one.
pub open spec fn fragment_total(len: nat) -> nat {
    if len == 0 {
        1
    } else {
        ((len + MAX_PAYLOAD - 1) / MAX_PAYLOAD as int) as nat
    }
}

/// Fragment `i` of a payload: `MAX_PAYLOAD` bytes, or what is left.
pub open spec fn fragment_of(payload: Seq<u8>, i: int) -> Seq<u8> {
    let from = i * MAX_PAYLOAD;
    let to = if from + MAX_PAYLOAD <= payload.len() {
        from + MAX_PAYLOAD
    } else {
        payload.len() as int
    };
    payload.subrange(from, to)
}

/// All fragments of a payload, in order.
pub open spec fn fragments(payload: Seq<u8>) -> Seq<Seq<u8>> {
    Seq::new(fragment_total(payload.len()), |i: int| fragment_of(payload, i))
}

/// Byte strings laid end to end.
pub open spec fn joined(parts: Seq<Seq<u8>>) -> Seq<u8>
    decreases parts.len(),
{
    if parts.len() == 0 {
        Seq::empty()
    } else {
        joined(parts.drop_last()) + parts.last()
    }
}

/// How many fragments a payload of `len` bytes is split into.
pub fn fragment_count(len: usize) -> (r: usize)
    ensures
        r == fragment_total(len as nat),
{
    if len == 0 {
        return 1;
    }
    let total: usize = (len - 1) / MAX_PAYLOAD + 1;
    assert(total == fragment_total(len as nat)) by (nonlinear_arith)
        requires
            len > 0,
            total == (len - 1) / 1200 + 1,
            fragment_total(len as nat) == ((len + 1200 - 1) / 1200) as nat,
    ;
    total
}

/// Splits a payload into numbered fragments: index, count and bytes. Index and count
/// are sixteen bits wide and wrap beyond that.
pub fn fragment(payload: &[u8]) -> (r: Vec<(u16, u16, &[u8])>)
    ensures
        r@.len() == fragment_total(payload@.len()),
        forall|i: int|
            #![trigger r@[i]]
            0 <= i < r@.len() ==> r@[i].0 == i as u16 && r@[i].1 == fragment_total(
                payload@.len(),
            ) as u16 && r@[i].2@ == fragment_of(payload@, i),
{
    let mut out: Vec<(u16, u16, &[u8])> = Vec::new();
    if payload.len() == 0 {
        out.push((0, 1, payload));
        assert(fragment_of(payload@, 0) =~= payload@);
        return out;
    }
    let len: usize = payload.len();
    let total: usize = fragment_count(len);
    let mut i: usize = 0;
    let mut from: usize = 0;
    while i < total
        invariant
            payload@.len() == len,
            len > 0,
            total == fragment_total(len as nat),
            i <= total,
            i < total ==> from == i * MAX_PAYLOAD && from < len,
            out@.len() == i,
            forall|j: int|
                #![trigger out@[j]]
                0 <= j < i ==> out@[j].0 == j as u16 && out@[j].1 == total as u16 && out@[j].2@
                    == fragment_of(payload@, j),
        decreases total - i,
    {
        let to: usize = if len - from > MAX_PAYLOAD {
            from + MAX_PAYLOAD
        } else {
            len
        };
        out.push((i as u16, total as u16, slice_subrange(payload, from, to)));
        i = i + 1;
        from = to;
    }
    out
}

/// A payload's fragments, laid end to end, give the payload back. None is longer than
/// `MAX_PAYLOAD`.
pub proof fn fragments_rejoin(payload: Seq<u8>)
    ensures
        joined(fragments(payload)) == payload,
        forall|i: int|
            0 <= i < fragments(payload).len() ==> (#[trigger] fragments(payload)[i]).len()
                <= MAX_PAYLOAD,
{
    let total = fragment_total(payload.len());
    if payload.len() == 0 {
        assert(fragments(payload).drop_last() =~= Seq::empty());
        assert(fragment_of(payload, 0) =~= payload);
        reveal_with_fuel(joined, 2);
        assert(joined(fragments(payload)) =~= payload);
    } else {
        lemma_join_prefix(payload, total);
        assert(fragments(payload).take(total as int) =~= fragments(payload));
        assert(payload.take(payload.len() as int) =~= payload);
    }
}

proof fn lemma_join_prefix(payload: Seq<u8>, n: nat)
    requires
        payload.len() > 0,
        n <= fragment_total(payload.len()),
    ensures
        joined(fragments(payload).take(n as int)) == payload.take(
            if n * MAX_PAYLOAD <= payload.len() {
                (n * MAX_PAYLOAD) as int
            } else {
                payload.len() as int
            },
        ),
    decreases n,
{
    let parts = fragments(payload).take(n as int);
    if n > 0 {
        lemma_join_prefix(payload, (n - 1) as nat);
        assert(parts.drop_last() =~= fragments(payload).take(n - 1));
        assert(parts.last() == fragment_of(payload, n - 1));
        assert(joined(parts) =~= payload.take(
            if n * MAX_PAYLOAD <= payload.len() {
                (n * MAX_PAYLOAD) as int
            } else {
                payload.len() as int
            },
        ));
    } else {
        assert(joined(parts) =~= payload.take(0));
    }
}

/// Where the fields of a header stand, and what its first bytes are.
pub proof fn headers_are_laid_out(h: PacketHeader, epoch: u8)
    ensures
        ({
            let w = h.wire(epoch);
            &&& w.len() == 20
            &&& w[0] == 0x42 && w[1] == 0x55 && w[2] == 0x44 && w[3] == 0x31
            &&& w[4] == h.ty.code() && w[5] == h.channel.code() && w[6] == h.flags && w[7] == epoch
            &&& h.seq == w[8] + 0x100 * w[9] + 0x1_0000 * w[10] + 0x100_0000 * w[11]
            &&& h.frame_id == w[12] + 0x100 * w[13] + 0x1_0000 * w[14] + 0x100_0000 * w[15]
            &&& h.frag_idx == w[16] + 0x100 * w[17]
            &&& h.frag_count == w[18] + 0x100 * w[19]
        }),
{
    reveal_with_fuel(le_bytes, 5);
    let (a, b) = (h.seq as nat, h.frame_id as nat);
    assert(a == a % 256 + 256 * (a / 256 % 256) + 0x1_0000 * (a / 256 / 256 % 256) + 0x100_0000 * (
    a / 256 / 256 / 256 % 256));
    assert(b == b % 256 + 256 * (b / 256 % 256) + 0x1_0000 * (b / 256 / 256 % 256) + 0x100_0000 * (
    b / 256 / 256 / 256 % 256));
}

/// The kinds of packets have numbers of their own: hellos below ten, the rest from ten on.
pub proof fn packet_types_have_codes(t: PacketType, v: u8)
    ensures
        PacketType::Hello.code() == 1,
        PacketType::HelloAck.code() == 2,
        PacketType::Data.code() == 10,
        PacketType::Ack.code() == 11,
        PacketType::Nack.code() == 12,
        PacketType::of_code(v) == Some(t) <==> v == t.code(),
        PacketType::of_code(v) is None <==> (v == 0 || 2 < v < 10 || v > 12),
{
}

/// Every fragment but the last holds twelve hundred bytes, the last one what is left, which is
/// nothing only for an empty payload. A fragment with its header and its seal stays within a
/// datagram of fourteen hundred.
pub proof fn fragments_are_even(payload: Seq<u8>, i: int)
    requires
        0 <= i < fragment_total(payload.len()),
    ensures
        i < fragment_total(payload.len()) - 1 ==> fragment_of(payload, i).len() == 1200,
        i == fragment_total(payload.len()) - 1 ==> fragment_of(payload, i).len() == payload.len()
            - 1200 * i,
        fragment_of(payload, i).len() <= 1200,
        payload.len() > 0 ==> fragment_of(payload, i).len() > 0,
        forall|k: int|
            0 <= k < fragment_of(payload, i).len() ==> fragment_of(payload, i)[k] == payload[1200
                * i + k],
        1200 + HEADER_LEN + 8 + 16 <= MTU,
{
}

} // verus!
