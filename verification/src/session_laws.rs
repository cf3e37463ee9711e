//! What two endpoints can rely on: the handshake ends in one key, packets of a session
//! open at the other end and nowhere else in time, acknowledgements settle what they
//! answer, and packet numbers move on.

use vstd::prelude::*;

use crate::bytes::le_bytes;
use crate::crypto::{aes_seal, packet_nonce, packet_nonces_differ, HandshakeModel};
use crate::endpoint::{
    ack_header, data_flags_read_back, datagram_of, has_flag, packet_number, sealed_packet,
    sent_reliably, EndpointModel, IncomingModel, MessageModel, PeerAddr, ReactionModel, CLIENT_FIRST_NONCE, HOST_FIRST_NONCE,
    IDR_DEBOUNCE_NS,
};
use crate::messages::Channel;
use crate::packet::{
    fragment_of, fragment_total, header_reads_back, PacketHeader, PacketType, EPOCH_AT,
    FLAG_KEYFRAME, FLAG_RELIABLE, HEADER_LEN, MTU,
};
use crate::reliable::{
    after, all_passed, increasing, lists_due, slot, slots_are_distinct, InboxModel,
};
use crate::timing::elapsed;
use crate::video::{each_once, fed, AssemblerModel, REORDER_WINDOW};

verus! {

/// Two sides agree on a key under `pin` when each derives from the other's offer what
/// the other derives from its own. `Handshake::derive` promises it of any two, and
/// `BudEndpoint::handle_datagram` of a host and the client that greets it.
pub open spec fn agree(a: HandshakeModel, b: HandshakeModel, pin: Seq<char>) -> bool {
    a.derived(b.public, b.nonce, pin) == b.derived(a.public, a.nonce, pin)
}

/// One round trip establishes a session. The client's hello makes the host answer; the
/// answer leaves both sides with the same keys and the same epoch, talking to each
/// other, and numbering their packets in separate halves of the range.
pub proof fn handshake_completes(
    client: EndpointModel,
    host: EndpointModel,
    client_addr: PeerAddr,
    host_addr: PeerAddr,
    t: u64,
    u: u64,
    fresh: HandshakeModel,
    unused: HandshakeModel,
)
    requires
        !client.is_host,
        host.is_host,
        client.pin == host.pin,
        client.handshake.wf(),
        fresh.wf(),
        agree(client.handshake, fresh, client.pin),
    ensures
        ({
            let (h, answer) = host.handled(client.hello(), client_addr, t, fresh);
            let reply = h.hello();
            let (c, heard) = client.handled(reply, host_addr, u, unused);
            &&& answer == (ReactionModel::Hello { reply: Some(reply), established: true })
            &&& heard == (ReactionModel::Hello { reply: None, established: !client.established })
            &&& h.keys is Some
            &&& c.keys == h.keys
            &&& c.epoch == h.epoch
            &&& c.epoch != 0
            &&& h.established && c.established
            &&& h.peer == Some(client_addr) && c.peer == Some(host_addr)
            &&& h.crypto_nonce == HOST_FIRST_NONCE && c.crypto_nonce == CLIENT_FIRST_NONCE
        }),
{
    let (h, answer) = host.handled(client.hello(), client_addr, t, fresh);
    lemma_hello_parses(client);
    let reply = h.hello();
    lemma_hello_parses(h);
}

proof fn lemma_hello_parses(m: EndpointModel)
    requires
        m.handshake.wf(),
    ensures
        ({
            let p = m.hello();
            &&& p.len() == 68
            &&& PacketHeader::parse(p) matches Some(h) && h.ty == (if m.is_host {
                PacketType::HelloAck
            } else {
                PacketType::Hello
            })
            &&& p[EPOCH_AT as int] == m.epoch
            &&& p.subrange(20, 52) == m.handshake.public
            &&& p.subrange(52, 68) == m.handshake.nonce
        }),
{
    let header = PacketHeader {
        ty: if m.is_host {
            PacketType::HelloAck
        } else {
            PacketType::Hello
        },
        channel: Channel::Control,
        flags: 0,
        seq: 0,
        frame_id: 0,
        frag_idx: 0,
        frag_count: 1,
    };
    let rest = m.handshake.public + m.handshake.nonce;
    header_reads_back(header, m.epoch, rest);
    let p = m.hello();
    assert(p =~= header.wire(m.epoch) + rest);
    assert(p.subrange(20, 52) =~= m.handshake.public);
    assert(p.subrange(52, 68) =~= m.handshake.nonce);
}

/// A host that is greeted again forgets the session it had: nothing of it is sent
/// again, held back, or half assembled, and its epoch is another one.
pub proof fn reconnect_starts_over(
    host: EndpointModel,
    packet: Seq<u8>,
    from: PeerAddr,
    fresh: HandshakeModel,
)
    requires
        host.is_host,
        packet.len() >= 68,
    ensures
        ({
            let h = host.on_hello(packet, PacketType::Hello, from, fresh).0;
            &&& h.handshake == fresh
            &&& h.reliable_out.dom().is_empty()
            &&& h.inbox == InboxModel::start()
            &&& h.video == AssemblerModel::start()
            &&& h.epoch != host.epoch && h.epoch != 0
            &&& h.peer == Some(from)
        }),
{
    let h = host.on_hello(packet, PacketType::Hello, from, fresh).0;
    assert(h.reliable_out.dom() =~= Set::empty());
}

/// Data of another session is not even looked at: it changes nothing.
pub proof fn stale_data_is_ignored(
    m: EndpointModel,
    packet: Seq<u8>,
    from: PeerAddr,
    now: u64,
    fresh: HandshakeModel,
)
    requires
        PacketHeader::parse(packet) matches Some(h) && h.ty == PacketType::Data,
        m.stale(packet[EPOCH_AT as int]),
    ensures
        m.handled(packet, from, now, fresh) == (m, ReactionModel::Ignored),
{
}

/// Forged data delivers nothing and leaves the session as it is but for the count of
/// failures.
pub proof fn forged_data_is_ignored(
    m: EndpointModel,
    packet: Seq<u8>,
    from: PeerAddr,
    now: u64,
    fresh: HandshakeModel,
)
    requires
        PacketHeader::parse(packet) matches Some(h) && h.ty == PacketType::Data,
        m.opened(packet) is None,
    ensures
        m.handled(packet, from, now, fresh).1 == ReactionModel::Ignored,
        ({
            let n = m.handled(packet, from, now, fresh).0;
            n == EndpointModel { decrypt_fails: n.decrypt_fails, ..m }
        }),
{
    let n = m.handled(packet, from, now, fresh).0;
    assert(n =~= EndpointModel { decrypt_fails: n.decrypt_fails, ..m });
}

/// What comes off a packet that starts with `header`, whatever is sealed behind it.
proof fn lemma_sealed_parses(
    key: Seq<u8>,
    header: PacketHeader,
    epoch: u8,
    number: u64,
    plain: Seq<u8>,
)
    ensures
        ({
            let p = sealed_packet(key, header.wire(epoch), number, plain);
            &&& PacketHeader::parse(p) == Some(header)
            &&& p[EPOCH_AT as int] == epoch
            &&& p.len() >= 28
        }),
{
    let h = header.wire(epoch);
    let rest = le_bytes(number as nat, 8) + aes_seal(key, packet_nonce(number), h, plain);
    crate::bytes::lemma_le_bytes_len(number as nat, 8);
    header_reads_back(header, epoch, rest);
    assert(sealed_packet(key, h, number, plain) =~= h + rest);
}

/// A data packet comes out at the peer as it went in: header and contents, with an
/// acknowledgement exactly if it is reliable.
pub proof fn data_reaches_peer(
    sender: EndpointModel,
    receiver: EndpointModel,
    channel: Channel,
    chunk: Seq<u8>,
    frame_id: u32,
    frag_idx: u16,
    frag_count: u16,
    reliable: bool,
    keyframe: bool,
    from: PeerAddr,
    now: u64,
    fresh: HandshakeModel,
)
    requires
        receiver.opened(
            sender.data_packet(
                sender.keys->0,
                channel,
                chunk,
                frame_id,
                frag_idx,
                frag_count,
                reliable,
                keyframe,
            ),
        ) == Some(chunk),
    ensures
        ({
            let packet = sender.data_packet(
                sender.keys->0,
                channel,
                chunk,
                frame_id,
                frag_idx,
                frag_count,
                reliable,
                keyframe,
            );
            let (n, reaction) = receiver.handled(packet, from, now, fresh);
            &&& reaction matches ReactionModel::Opened { ack, header, plain } && plain == chunk
                && header == sender.data_header(
                channel,
                frame_id,
                frag_idx,
                frag_count,
                reliable,
                keyframe,
            ) && (ack is Some <==> reliable)
            &&& n == EndpointModel { crypto_nonce: n.crypto_nonce, ..receiver }
        }),
{
    let header = sender.data_header(channel, frame_id, frag_idx, frag_count, reliable, keyframe);
    data_flags_read_back(reliable, keyframe, frag_idx + 1 == frag_count);
    lemma_sealed_parses(sender.keys->0, header, sender.epoch, sender.crypto_nonce, chunk);
    let packet = sender.data_packet(
        sender.keys->0,
        channel,
        chunk,
        frame_id,
        frag_idx,
        frag_count,
        reliable,
        keyframe,
    );
    let n = receiver.handled(packet, from, now, fresh).0;
    assert(n =~= EndpointModel { crypto_nonce: n.crypto_nonce, ..receiver });
}

/// An unreliable packet outside the video channel is delivered at once and waits for
/// nothing: mouse moves come through without acknowledgements.
pub proof fn unreliable_data_is_delivered_at_once(
    receiver: EndpointModel,
    header: PacketHeader,
    plain: Seq<u8>,
    now: u64,
)
    requires
        header.channel != Channel::Video,
        !has_flag(header.flags, FLAG_RELIABLE),
    ensures
        receiver.delivered(header, plain, now) == (
            receiver,
            seq![datagram_of(header, plain, false)],
        ),
{
    assert(receiver.delivered(header, plain, now).1 =~= seq![datagram_of(header, plain, false)]);
}

/// Reliable packets of one channel carry consecutive numbers, and sending on one
/// channel leaves the numbers of the others alone.
pub proof fn reliable_numbers_are_consecutive(
    m: EndpointModel,
    channel: Channel,
    packet: Seq<u8>,
    now: u64,
    other: Channel,
)
    requires
        m.reliable_next.len() == 4,
    ensures
        ({
            let n = m.sent(channel, true, packet, now);
            let c = channel.code() as int;
            &&& n.reliable_next[c] == after(m.reliable_next[c])
            &&& other != channel ==> n.reliable_next[other.code() as int]
                == m.reliable_next[other.code() as int]
            &&& n.send_seq == m.send_seq
        }),
{
    crate::messages::channel_codes_roundtrip(channel, 0);
    crate::messages::channel_codes_roundtrip(other, 0);
}

/// A reliable packet is kept for retransmission until its acknowledgement comes back.
/// The acknowledgement the receiver makes for it removes it, and no other packet, from
/// what the sender keeps.
pub proof fn acknowledgement_settles_packet(
    sender: EndpointModel,
    receiver: EndpointModel,
    channel: Channel,
    packet: Seq<u8>,
    header: PacketHeader,
    sent_at: u64,
    from: PeerAddr,
    now: u64,
    fresh: HandshakeModel,
)
    requires
        header.channel == channel,
        header.seq == sender.reliable_next[channel.code() as int],
        has_flag(header.flags, FLAG_RELIABLE),
        PacketHeader::parse(packet) == Some(header),
        header.ty == PacketType::Data,
        receiver.opened(packet) is Some,
    ensures
        ({
            let s = sender.sent(channel, true, packet, sent_at);
            let k = slot(channel.code(), header.seq);
            let reaction = receiver.handled(packet, from, now, fresh).1;
            &&& s.reliable_out.contains_key(k)
            &&& s.reliable_out[k].packet == packet
            &&& reaction matches ReactionModel::Opened { ack, .. } && ack matches Some(a) && {
                let settled = s.handled(a, from, now, fresh);
                &&& settled.0.reliable_out == s.reliable_out.remove(k)
                &&& settled.1 == (ReactionModel::Acked {
                    rtt_us: Some((elapsed(sent_at, now) / 1000 % 0x1_0000_0000) as u32),
                })
            }
        }),
{
    lemma_sealed_parses(
        receiver.keys->0,
        ack_header(channel, header.seq),
        0,
        receiver.crypto_nonce,
        Seq::empty(),
    );
}

/// Packet numbers only move on: whatever is sent or received but for hellos, a number that
/// was used is not used again.
pub proof fn packet_numbers_move_on(
    m: EndpointModel,
    channel: Channel,
    reliable: bool,
    packet: Seq<u8>,
    header: PacketHeader,
    plain: Seq<u8>,
    now: u64,
)
    requires
        m.crypto_nonce < u64::MAX,
    ensures
        m.sent(channel, reliable, packet, now).crypto_nonce == m.crypto_nonce + 1,
        m.sent(channel, reliable, packet, now).keys == m.keys,
        m.on_data(packet, header).0.keys == m.keys,
        m.on_data(packet, header).0.crypto_nonce == m.crypto_nonce + (
        match m.on_data(packet, header).1 {
            ReactionModel::Opened { ack: Some(_), .. } => 1int,
            _ => 0int,
        }),
        m.delivered(header, plain, now).0.crypto_nonce == m.crypto_nonce,
        m.on_ack(header, now).0.crypto_nonce == m.crypto_nonce,
        m.on_nack(now).0.crypto_nonce == m.crypto_nonce,
        m.video_expired(now).0.crypto_nonce == m.crypto_nonce,
{
}

/// Keyframe requests are spaced out: after one goes through, none does until the
/// debounce time has passed, and then one does.
pub proof fn idr_requests_are_spaced(m: EndpointModel, t: u64, later: u64)
    requires
        m.idr_allowed(t),
    ensures
        m.idr_requested(t).idr_allowed(later) <==> elapsed(t, later) >= IDR_DEBOUNCE_NS,
{
}

/// The delivery of a reliable packet is a step of its channel's in-order hand-over.
pub proof fn reliable_delivery_steps(
    m: EndpointModel,
    header: PacketHeader,
    plain: Seq<u8>,
    now: u64,
)
    requires
        header.channel != Channel::Video,
        has_flag(header.flags, FLAG_RELIABLE),
    ensures
        m.delivered(header, plain, now).0.inbox == m.inbox.accept(
            header.channel,
            header.seq,
            plain,
        ).0,
        m.delivered(header, plain, now).1 == m.inbox.accept(
            header.channel,
            header.seq,
            plain,
        ).1.map_values(
            |p: Seq<u8>| datagram_of(header, p, has_flag(header.flags, FLAG_KEYFRAME)),
        ),
{
}

/// The delivery of a video packet is a step of its frame's reassembly.
pub proof fn video_delivery_steps(
    m: EndpointModel,
    header: PacketHeader,
    plain: Seq<u8>,
    now: u64,
)
    requires
        header.channel == Channel::Video,
    ensures
        ({
            let v = m.video.accept(
                header.frame_id,
                header.frag_idx,
                header.frag_count,
                has_flag(header.flags, FLAG_KEYFRAME),
                plain,
                now,
            );
            let (n, out) = m.delivered(header, plain, now);
            &&& n.video == v.0
            &&& n.inbox == m.inbox
            &&& out.len() == (if v.1 is Some {
                1nat
            } else {
                0
            })
            &&& v.1 matches Some((payload, keyframe)) ==> out[0] == datagram_of(
                header,
                payload,
                keyframe,
            )
        }),
{
}

/// A receiver after packets of a message came in, in the order given, each at its own
/// time, and everything it handed over meanwhile.
pub open spec fn received(
    r: EndpointModel,
    packets: Seq<Seq<u8>>,
    order: Seq<u16>,
    from: PeerAddr,
    times: spec_fn(int) -> u64,
    fresh: HandshakeModel,
) -> (EndpointModel, Seq<IncomingModel>)
    decreases order.len(),
{
    if order.len() == 0 {
        (r, Seq::empty())
    } else {
        let k = order.len() - 1;
        let before = received(r, packets, order.drop_last(), from, times, fresh);
        let (n, reaction) = before.0.handled(packets[order[k] as int], from, times(k), fresh);
        match reaction {
            ReactionModel::Opened { ack, header, plain } => {
                let d = n.delivered(header, plain, times(k));
                (d.0, before.1 + d.1)
            },
            _ => (n, before.1),
        }
    }
}

/// Whether everyone in the sender's session opens packet `i` of `packets` to fragment
/// `i` of a message.
pub open spec fn opens_in_session(
    sender: EndpointModel,
    packets: Seq<Seq<u8>>,
    message: MessageModel,
) -> bool {
    forall|i: int, peer: EndpointModel|
        0 <= i < packets.len() && peer.keys == sender.keys && !peer.stale(sender.epoch)
            ==> #[trigger] peer.opened(packets[i]) == Some(fragment_of(message.payload, i))
}

proof fn lemma_sent_fragments_keep(m: EndpointModel, msg: MessageModel, now: u64, n: nat)
    ensures
        m.sent_fragments(msg, now, n).keys == m.keys,
        m.sent_fragments(msg, now, n).epoch == m.epoch,
    decreases n,
{
    if n > 0 {
        lemma_sent_fragments_keep(m, msg, now, (n - 1) as nat);
    }
}

proof fn lemma_video_steps(
    sender: EndpointModel,
    r: EndpointModel,
    message: MessageModel,
    sent_at: u64,
    order: Seq<u16>,
    from: PeerAddr,
    times: spec_fn(int) -> u64,
    fresh: HandshakeModel,
)
    requires
        sender.keys is Some,
        r.keys == sender.keys,
        !r.stale(sender.epoch),
        message.channel == Channel::Video,
        message.total() <= u16::MAX,
        opens_in_session(sender, sender.message_packets(message, sent_at), message),
        forall|i: int| 0 <= i < order.len() ==> (#[trigger] order[i]) < message.total(),
        forall|k: int|
            0 <= k < order.len() ==> (#[trigger] fed(
                r.video,
                message.frame_id,
                message.keyframe,
                message.payload,
                order.take(k),
                times,
            )).1 is None,
    ensures
        ({
            let packets = sender.message_packets(message, sent_at);
            let (n, out) = received(r, packets, order, from, times, fresh);
            let (v, whole) = fed(
                r.video,
                message.frame_id,
                message.keyframe,
                message.payload,
                order,
                times,
            );
            &&& n.keys == r.keys && n.epoch == r.epoch
            &&& n.video == v
            &&& out == (match whole {
                Some((payload, keyframe)) => seq![
                    IncomingModel::Datagram {
                        channel: Channel::Video,
                        payload,
                        frame_id: message.frame_id,
                        keyframe,
                    },
                ],
                None => Seq::empty(),
            })
        }),
    decreases order.len(),
{
    let packets = sender.message_packets(message, sent_at);
    if order.len() > 0 {
        let k = order.len() - 1;
        let shorter = order.drop_last();
        let i = order[k] as int;
        assert forall|j: int| 0 <= j < shorter.len() implies (#[trigger] shorter[j])
            < message.total() by {
            assert(shorter[j] == order[j]);
        }
        assert forall|j: int| 0 <= j < shorter.len() implies (#[trigger] fed(
            r.video,
            message.frame_id,
            message.keyframe,
            message.payload,
            shorter.take(j),
            times,
        )).1 is None by {
            assert(shorter.take(j) =~= order.take(j));
        }
        lemma_video_steps(sender, r, message, sent_at, shorter, from, times, fresh);
        let before = received(r, packets, shorter, from, times, fresh);
        assert(shorter =~= order.take(k));
        assert(fed(
            r.video,
            message.frame_id,
            message.keyframe,
            message.payload,
            order.take(k),
            times,
        ).1 is None);
        let s = sender.sent_fragments(message, sent_at, i as nat);
        lemma_sent_fragments_keep(sender, message, sent_at, i as nat);
        assert(packets[i] == s.fragment_packet(message, i));
        assert(before.0.opened(packets[i]) == Some(fragment_of(message.payload, i)));
        data_reaches_peer(
            s,
            before.0,
            message.channel,
            fragment_of(message.payload, i),
            message.frame_id,
            i as u16,
            message.total() as u16,
            message.reliable,
            message.keyframe,
            from,
            times(k),
            fresh,
        );
        data_flags_read_back(
            message.reliable,
            message.keyframe,
            i as u16 + 1 == message.total() as u16,
        );
        let n = before.0.handled(packets[i], from, times(k), fresh).0;
        let header = s.data_header(
            message.channel,
            message.frame_id,
            i as u16,
            message.total() as u16,
            message.reliable,
            message.keyframe,
        );
        let d = n.delivered(header, fragment_of(message.payload, i), times(k));
        assert(before.1 + d.1 =~= d.1);
    }
}

/// A video message comes through whole. Its packets may reach a receiver in the same
/// session in any order; exactly one datagram comes out, after the last of them, and it
/// carries the payload that was sent.
pub proof fn video_message_arrives(
    sender: EndpointModel,
    r: EndpointModel,
    message: MessageModel,
    sent_at: u64,
    order: Seq<u16>,
    from: PeerAddr,
    times: spec_fn(int) -> u64,
    fresh: HandshakeModel,
)
    requires
        sender.keys is Some,
        r.keys == sender.keys,
        !r.stale(sender.epoch),
        message.channel == Channel::Video,
        message.total() <= u16::MAX,
        opens_in_session(sender, sender.message_packets(message, sent_at), message),
        each_once(order, message.payload.len()),
        !r.video.frames.contains_key(message.frame_id),
        message.frame_id + REORDER_WINDOW >= r.video.last,
    ensures
        received(
            r,
            sender.message_packets(message, sent_at),
            order,
            from,
            times,
            fresh,
        ).1 == seq![
            IncomingModel::Datagram {
                channel: Channel::Video,
                payload: message.payload,
                frame_id: message.frame_id,
                keyframe: message.keyframe,
            },
        ],
{
    crate::video::frame_reassembles_in_any_order(
        r.video,
        message.frame_id,
        message.keyframe,
        message.payload,
        order,
        times,
    );
    lemma_video_steps(sender, r, message, sent_at, order, from, times, fresh);
}

/// Whether a message can be numbered without the sequence numbers of its channel wrapping.
pub open spec fn numbers_fit(m: EndpointModel, msg: MessageModel) -> bool {
    m.reliable_next.len() == 4 && m.reliable_next[msg.channel.code() as int] + msg.total()
        <= u32::MAX
}

/// The sequence number of packet `i` of a reliable message.
pub open spec fn number_of(m: EndpointModel, msg: MessageModel, i: int) -> u32 {
    (m.reliable_next[msg.channel.code() as int] + i) as u32
}

proof fn lemma_reliable_numbers(m: EndpointModel, msg: MessageModel, now: u64, n: nat)
    requires
        msg.reliable,
        numbers_fit(m, msg),
        n <= msg.total(),
    ensures
        ({
            let s = m.sent_fragments(msg, now, n);
            let c = msg.channel.code() as int;
            &&& s.reliable_next.len() == 4
            &&& s.reliable_next[c] == m.reliable_next[c] + n
            &&& forall|i: int|
                0 <= i < n ==> s.reliable_out.contains_key(
                    slot(msg.channel.code(), #[trigger] number_of(m, msg, i)),
                ) && s.reliable_out[slot(msg.channel.code(), number_of(m, msg, i))].packet
                    == m.message_packet(msg, now, i)
        }),
    decreases n,
{
    if n > 0 {
        lemma_reliable_numbers(m, msg, now, (n - 1) as nat);
        let before = m.sent_fragments(msg, now, (n - 1) as nat);
        let s = m.sent_fragments(msg, now, n);
        let code = msg.channel.code();
        assert forall|i: int| 0 <= i < n implies s.reliable_out.contains_key(
            slot(code, #[trigger] number_of(m, msg, i)),
        ) && s.reliable_out[slot(code, number_of(m, msg, i))].packet == m.message_packet(
            msg,
            now,
            i,
        ) by {
            slots_are_distinct(code, number_of(m, msg, i), code, number_of(m, msg, n - 1));
        }
    }
}

/// A reliable message, a keyframe among them, is kept packet by packet until it is
/// acknowledged: each packet under its own consecutive number.
pub proof fn reliable_messages_are_kept(m: EndpointModel, msg: MessageModel, now: u64, i: int)
    requires
        msg.reliable,
        numbers_fit(m, msg),
        0 <= i < msg.total(),
    ensures
        ({
            let s = m.sent_fragments(msg, now, msg.total());
            let k = slot(msg.channel.code(), number_of(m, msg, i));
            s.reliable_out.contains_key(k) && s.reliable_out[k].packet == m.message_packets(
                msg,
                now,
            )[i]
        }),
{
    lemma_reliable_numbers(m, msg, now, msg.total());
}

/// A packet of a reliable message outside the video channel arrives as a step of the
/// in-order hand-over: under its number, with its fragment of the message.
pub proof fn reliable_packets_step_in_order(
    sender: EndpointModel,
    r: EndpointModel,
    msg: MessageModel,
    sent_at: u64,
    i: int,
    from: PeerAddr,
    now: u64,
    fresh: HandshakeModel,
)
    requires
        sender.keys is Some,
        r.keys == sender.keys,
        !r.stale(sender.epoch),
        msg.reliable,
        msg.channel != Channel::Video,
        msg.total() <= u16::MAX,
        numbers_fit(sender, msg),
        0 <= i < msg.total(),
        opens_in_session(sender, sender.message_packets(msg, sent_at), msg),
    ensures
        ({
            let (n, reaction) = r.handled(
                sender.message_packets(msg, sent_at)[i],
                from,
                now,
                fresh,
            );
            &&& reaction matches ReactionModel::Opened { ack, header, plain } && ack is Some && {
                let step = r.inbox.accept(
                    msg.channel,
                    number_of(sender, msg, i),
                    fragment_of(msg.payload, i),
                );
                let (d, out) = n.delivered(header, plain, now);
                &&& d.inbox == step.0
                &&& out == step.1.map_values(|p: Seq<u8>| datagram_of(header, p, msg.keyframe))
            }
        }),
{
    let packets = sender.message_packets(msg, sent_at);
    let s = sender.sent_fragments(msg, sent_at, i as nat);
    lemma_sent_fragments_keep(sender, msg, sent_at, i as nat);
    lemma_reliable_numbers(sender, msg, sent_at, i as nat);
    assert(packets[i] == s.fragment_packet(msg, i));
    assert(r.opened(packets[i]) == Some(fragment_of(msg.payload, i)));
    data_reaches_peer(
        s,
        r,
        msg.channel,
        fragment_of(msg.payload, i),
        msg.frame_id,
        i as u16,
        msg.total() as u16,
        msg.reliable,
        msg.keyframe,
        from,
        now,
        fresh,
    );
    data_flags_read_back(msg.reliable, msg.keyframe, i as u16 + 1 == msg.total() as u16);
}

/// What an endpoint goes through between hellos.
pub enum SessionStep {
    /// A data packet is made.
    Send {
        channel: Channel,
        chunk: Seq<u8>,
        frame_id: u32,
        frag_idx: u16,
        frag_count: u16,
        reliable: bool,
        keyframe: bool,
        now: u64,
    },
    /// A data packet is not made because the cipher turns its contents down.
    Refuse { channel: Channel, reliable: bool },
    /// A datagram is handled.
    Receive { packet: Seq<u8>, from: PeerAddr, now: u64 },
    /// An opened packet is delivered.
    Deliver { header: PacketHeader, plain: Seq<u8>, now: u64 },
    /// What is due is sent again.
    Retransmit { now: u64 },
    /// Overdue frames are given up.
    Expire { now: u64 },
}

impl SessionStep {
    /// Whether the step is no hello.
    pub open spec fn in_session(self) -> bool {
        self matches SessionStep::Receive { packet, .. } ==> (PacketHeader::parse(packet) matches Some(
            h,
        ) ==> h.ty != PacketType::Hello && h.ty != PacketType::HelloAck)
    }
}

impl EndpointModel {
    /// The state after a step.
    pub open spec fn stepped(self, step: SessionStep) -> EndpointModel {
        match step {
            SessionStep::Send { channel, reliable, now, .. } => self.sent(
                channel,
                reliable,
                self.sealed_by(step)[0],
                now,
            ),
            SessionStep::Refuse { channel, reliable } => self.numbered(channel, reliable),
            SessionStep::Receive { packet, from, now } => self.handled(
                packet,
                from,
                now,
                self.handshake,
            ).0,
            SessionStep::Deliver { header, plain, now } => self.delivered(header, plain, now).0,
            SessionStep::Retransmit { now } => EndpointModel {
                reliable_out: all_passed(self.reliable_out, now),
                ..self
            },
            SessionStep::Expire { now } => self.video_expired(now).0,
        }
    }

    /// The packets that a step seals: the one it makes, or the acknowledgement it calls for.
    pub open spec fn sealed_by(self, step: SessionStep) -> Seq<Seq<u8>> {
        match step {
            SessionStep::Send {
                channel,
                chunk,
                frame_id,
                frag_idx,
                frag_count,
                reliable,
                keyframe,
                now,
            } => seq![
                self.data_packet(
                    self.keys->0,
                    channel,
                    chunk,
                    frame_id,
                    frag_idx,
                    frag_count,
                    reliable,
                    keyframe,
                ),
            ],
            SessionStep::Receive { packet, from, now } => match self.handled(
                packet,
                from,
                now,
                self.handshake,
            ).1 {
                ReactionModel::Opened { ack: Some(a), .. } => seq![a],
                _ => Seq::empty(),
            },
            _ => Seq::empty(),
        }
    }

    /// The state after a run of steps.
    pub open spec fn ran(self, steps: Seq<SessionStep>) -> EndpointModel
        decreases steps.len(),
    {
        if steps.len() == 0 {
            self
        } else {
            self.ran(steps.drop_last()).stepped(steps.last())
        }
    }

    /// All packets that a run of steps seals, in order.
    pub open spec fn sealed_in(self, steps: Seq<SessionStep>) -> Seq<Seq<u8>>
        decreases steps.len(),
    {
        if steps.len() == 0 {
            Seq::empty()
        } else {
            self.sealed_in(steps.drop_last()) + self.ran(steps.drop_last()).sealed_by(steps.last())
        }
    }
}

/// Whether a run of steps holds no hello.
pub open spec fn all_in_session(steps: Seq<SessionStep>) -> bool {
    forall|i: int| 0 <= i < steps.len() ==> (#[trigger] steps[i]).in_session()
}

proof fn lemma_sealed_number(key: Seq<u8>, header: PacketHeader, epoch: u8, number: u64, plain: Seq<u8>)
    ensures
        packet_number(sealed_packet(key, header.wire(epoch), number, plain)) == number,
{
    let h = header.wire(epoch);
    let p = sealed_packet(key, h, number, plain);
    crate::bytes::lemma_le_bytes_len(number as nat, 8);
    crate::bytes::lemma_le_range_values();
    crate::bytes::lemma_le_roundtrip(number as nat, 8);
    header_reads_back(header, epoch, Seq::empty());
    assert(h + Seq::<u8>::empty() =~= h);
    assert(h.len() == HEADER_LEN) by {
        crate::bytes::lemma_le_bytes_len(header.seq as nat, 4);
        crate::bytes::lemma_le_bytes_len(header.frame_id as nat, 4);
        crate::bytes::lemma_le_bytes_len(header.frag_idx as nat, 2);
        crate::bytes::lemma_le_bytes_len(header.frag_count as nat, 2);
    }
    assert(p.subrange(20, 28) =~= le_bytes(number as nat, 8));
}

proof fn lemma_step_numbers(m: EndpointModel, step: SessionStep)
    requires
        step.in_session(),
        m.crypto_nonce < u64::MAX,
    ensures
        ({
            let n = m.stepped(step);
            let made = m.sealed_by(step);
            &&& n.keys == m.keys
            &&& made.len() <= 1
            &&& m.crypto_nonce + made.len() <= n.crypto_nonce <= m.crypto_nonce + 1
            &&& made.len() == 1 ==> packet_number(made[0]) == m.crypto_nonce
        }),
{
    match step {
        SessionStep::Send {
            channel,
            chunk,
            frame_id,
            frag_idx,
            frag_count,
            reliable,
            keyframe,
            now,
        } => {
            lemma_sealed_number(
                m.keys->0,
                m.data_header(channel, frame_id, frag_idx, frag_count, reliable, keyframe),
                m.epoch,
                m.crypto_nonce,
                chunk,
            );
        },
        SessionStep::Receive { packet, .. } => {
            if let Some(h) = PacketHeader::parse(packet) {
                lemma_sealed_number(
                    m.keys->0,
                    ack_header(h.channel, h.seq),
                    0,
                    m.crypto_nonce,
                    Seq::empty(),
                );
            }
        },
        _ => {},
    }
}

/// The packets of a run are numbered upward, from where the endpoint stands on.
proof fn lemma_run_numbers(m: EndpointModel, steps: Seq<SessionStep>)
    requires
        all_in_session(steps),
        m.crypto_nonce + steps.len() <= u64::MAX,
    ensures
        ({
            let n = m.ran(steps);
            let made = m.sealed_in(steps);
            &&& n.keys == m.keys
            &&& m.crypto_nonce <= n.crypto_nonce <= m.crypto_nonce + steps.len()
            &&& forall|i: int|
                0 <= i < made.len() ==> m.crypto_nonce <= packet_number(#[trigger] made[i])
                    < n.crypto_nonce
            &&& forall|i: int, j: int|
                0 <= i < j < made.len() ==> packet_number(#[trigger] made[i]) < packet_number(
                    #[trigger] made[j],
                )
        }),
    decreases steps.len(),
{
    if steps.len() > 0 {
        let head = steps.drop_last();
        assert forall|i: int| 0 <= i < head.len() implies (#[trigger] head[i]).in_session() by {
            assert(head[i] == steps[i]);
        }
        lemma_run_numbers(m, head);
        assert(steps.last().in_session());
        lemma_step_numbers(m.ran(head), steps.last());
        let had = m.sealed_in(head);
        let new = m.ran(head).sealed_by(steps.last());
        let made = m.sealed_in(steps);
        assert(made == had + new);
        assert forall|i: int| 0 <= i < made.len() implies m.crypto_nonce <= packet_number(
            #[trigger] made[i],
        ) < m.ran(steps).crypto_nonce by {
            if i < had.len() {
                assert(made[i] == had[i]);
            } else {
                assert(made[i] == new[0]);
            }
        }
        assert forall|i: int, j: int| 0 <= i < j < made.len() implies packet_number(
            #[trigger] made[i],
        ) < packet_number(#[trigger] made[j]) by {
            assert(made[i] == had[i]);
            if j < had.len() {
                assert(made[j] == had[j]);
            } else {
                assert(made[j] == new[0]);
            }
        }
    }
}

/// No two packets of a session are sealed under one nonce, whichever side seals them and
/// whatever both go through after the hellos that established it. The keys stay the same
/// all along. The host's numbers must not run into the client's half, nor the client's out of
/// range.
pub proof fn nonces_never_repeat(
    host: EndpointModel,
    client: EndpointModel,
    host_steps: Seq<SessionStep>,
    client_steps: Seq<SessionStep>,
)
    requires
        host.crypto_nonce == HOST_FIRST_NONCE,
        client.crypto_nonce == CLIENT_FIRST_NONCE,
        all_in_session(host_steps),
        all_in_session(client_steps),
        host_steps.len() < 0x8000_0000_0000_0000,
        client_steps.len() < 0x8000_0000_0000_0000,
    ensures
        host.ran(host_steps).keys == host.keys,
        client.ran(client_steps).keys == client.keys,
        ({
            let all = host.sealed_in(host_steps) + client.sealed_in(client_steps);
            forall|i: int, j: int|
                0 <= i < j < all.len() ==> packet_nonce(packet_number(#[trigger] all[i]))
                    != packet_nonce(packet_number(#[trigger] all[j]))
        }),
{
    lemma_run_numbers(host, host_steps);
    lemma_run_numbers(client, client_steps);
    let a = host.sealed_in(host_steps);
    let b = client.sealed_in(client_steps);
    let all = a + b;
    assert forall|i: int, j: int| 0 <= i < j < all.len() implies packet_nonce(
        packet_number(#[trigger] all[i]),
    ) != packet_nonce(packet_number(#[trigger] all[j])) by {
        if i < a.len() {
            assert(all[i] == a[i]);
        } else {
            assert(all[i] == b[i - a.len()]);
        }
        if j < a.len() {
            assert(all[j] == a[j]);
        } else {
            assert(all[j] == b[j - a.len()]);
        }
        packet_nonces_differ(packet_number(all[i]), packet_number(all[j]));
    }
}

/// The step that makes fragment `i` of a message.
pub open spec fn fragment_step(msg: MessageModel, now: u64, i: int) -> SessionStep {
    SessionStep::Send {
        channel: msg.channel,
        chunk: fragment_of(msg.payload, i),
        frame_id: msg.frame_id,
        frag_idx: i as u16,
        frag_count: msg.total() as u16,
        reliable: msg.reliable,
        keyframe: msg.keyframe,
        now,
    }
}

/// The steps that make the first `n` fragments of a message.
pub open spec fn fragment_steps(msg: MessageModel, now: u64, n: nat) -> Seq<SessionStep> {
    Seq::new(n, |i: int| fragment_step(msg, now, i))
}

/// Sending a message is a run of steps, one for each fragment, and seals the message's
/// packets.
pub proof fn messages_are_runs(m: EndpointModel, msg: MessageModel, now: u64, n: nat)
    requires
        n <= msg.total(),
    ensures
        all_in_session(fragment_steps(msg, now, n)),
        m.ran(fragment_steps(msg, now, n)) == m.sent_fragments(msg, now, n),
        m.sealed_in(fragment_steps(msg, now, n)) == m.message_packets(msg, now).take(n as int),
    decreases n,
{
    let steps = fragment_steps(msg, now, n);
    let packets = m.message_packets(msg, now);
    if n == 0 {
        assert(m.sealed_in(steps) =~= packets.take(0));
    } else {
        let k = (n - 1) as nat;
        messages_are_runs(m, msg, now, k);
        assert(steps.drop_last() =~= fragment_steps(msg, now, k));
        assert(steps.last() == fragment_step(msg, now, n - 1));
        assert(m.sealed_in(steps) =~= packets.take(n as int));
    }
}

/// What is kept goes on fitting a datagram, whatever the endpoint goes through, as long as
/// what it seals fits one.
pub proof fn kept_packets_go_on_fitting(m: EndpointModel, step: SessionStep)
    requires
        m.kept_fit(),
        forall|i: int|
            0 <= i < m.sealed_by(step).len() ==> (#[trigger] m.sealed_by(step)[i]).len() <= MTU,
    ensures
        m.stepped(step).kept_fit(),
{
    let n = m.stepped(step);
    if step is Send {
        assert(m.sealed_by(step)[0].len() <= MTU);
    }
    assert forall|k: u64| n.reliable_out.contains_key(k) implies (#[trigger] n.reliable_out[k]).packet.len()
        <= MTU by {
        if m.reliable_out.contains_key(k) {
            assert(m.reliable_out[k].packet.len() <= MTU);
        }
    }
}

/// Where what is kept fits a datagram, so does all that is sent again.
pub proof fn retransmissions_fit(m: EndpointModel, now: u64, packets: Seq<Seq<u8>>)
    requires
        m.kept_fit(),
        lists_due(m.reliable_out, now, packets),
    ensures
        forall|i: int| 0 <= i < packets.len() ==> (#[trigger] packets[i]).len() <= MTU,
{
    let ks = choose|ks: Seq<u64>|
        {
            &&& #[trigger] increasing(ks)
            &&& forall|k: u64|
                #[trigger] ks.contains(k) <==> m.reliable_out.contains_key(k)
                    && m.reliable_out[k].due(now)
            &&& packets == ks.map_values(|k: u64| m.reliable_out[k].packet)
        };
    assert forall|i: int| 0 <= i < packets.len() implies (#[trigger] packets[i]).len() <= MTU by {
        assert(ks.contains(ks[i]));
        assert(m.reliable_out[ks[i]].packet.len() <= MTU);
    }
}

/// Whether the next reliable packet of `s` on channel `c` is the one that `r` waits for, with
/// nothing held back.
pub open spec fn in_step(s: EndpointModel, r: EndpointModel, c: Channel) -> bool {
    &&& s.reliable_next.len() == 4 && r.inbox.next.len() == 4
    &&& s.reliable_next[c.code() as int] == r.inbox.next[c.code() as int]
    &&& r.inbox.hold == Map::<u64, Seq<u8>>::empty()
}

/// Once a hello is answered and the answer heard, both sides are in step on every channel, in
/// both directions, from number one on, whatever session either had before. Nothing of such a
/// session is left: nothing to be sent again, nothing half assembled, no count.
pub proof fn sessions_start_in_step(
    client: EndpointModel,
    host: EndpointModel,
    client_addr: PeerAddr,
    host_addr: PeerAddr,
    t: u64,
    u: u64,
    fresh: HandshakeModel,
    unused: HandshakeModel,
    c: Channel,
)
    requires
        !client.is_host,
        host.is_host,
        client.handshake.wf(),
        fresh.wf(),
    ensures
        ({
            let h = host.handled(client.hello(), client_addr, t, fresh).0;
            let n = client.handled(h.hello(), host_addr, u, unused).0;
            &&& in_step(h, n, c) && in_step(n, h, c)
            &&& h.reliable_next[c.code() as int] == 1 && n.reliable_next[c.code() as int] == 1
            &&& h.send_seq == 1 && n.send_seq == 1
            &&& h.crypto_nonce == 1 && n.crypto_nonce == 0x8000_0000_0000_0000
            &&& forall|k: u64| !h.reliable_out.contains_key(k) && !n.reliable_out.contains_key(k)
            &&& forall|id: u32|
                !h.video.frames.contains_key(id) && !n.video.frames.contains_key(id)
            &&& h.video.last == 0 && n.video.last == 0
            &&& h.acked == 0 && n.acked == 0
            &&& h.sent_packets == 0 && n.sent_packets == 0
            &&& h.lost_packets == 0 && n.lost_packets == 0
            &&& h.decrypt_fails == 0 && n.decrypt_fails == 0
            &&& h.last_idr_req is None && n.last_idr_req is None
            &&& h.pin == host.pin && n.pin == client.pin
            &&& h.is_host && !n.is_host
            &&& h.handshake == fresh && n.handshake == client.handshake
        }),
{
    let h = host.handled(client.hello(), client_addr, t, fresh).0;
    lemma_hello_parses(client);
    lemma_hello_parses(h);
}

/// In step, a reliable message is handed over as soon as it arrives, once and as it was sent,
/// and both sides stay in step. So the first message of a new session is, and every one after
/// it that is not lost.
pub proof fn in_step_messages_are_handed_over(
    s: EndpointModel,
    r: EndpointModel,
    channel: Channel,
    chunk: Seq<u8>,
    frame_id: u32,
    frag_idx: u16,
    frag_count: u16,
    keyframe: bool,
    sent_at: u64,
    now: u64,
)
    requires
        in_step(s, r, channel),
        channel != Channel::Video,
    ensures
        ({
            let header = s.data_header(channel, frame_id, frag_idx, frag_count, true, keyframe);
            let packet = s.data_packet(
                s.keys->0,
                channel,
                chunk,
                frame_id,
                frag_idx,
                frag_count,
                true,
                keyframe,
            );
            let (n, out) = r.delivered(header, chunk, now);
            &&& out == seq![
                IncomingModel::Datagram { channel, payload: chunk, frame_id, keyframe },
            ]
            &&& in_step(s.sent(channel, true, packet, sent_at), n, channel)
            &&& forall|other: Channel|
                in_step(s, r, other) ==> #[trigger] in_step(
                    s.sent(channel, true, packet, sent_at),
                    n,
                    other,
                )
        }),
{
    let header = s.data_header(channel, frame_id, frag_idx, frag_count, true, keyframe);
    data_flags_read_back(true, keyframe, frag_idx + 1 == frag_count);
    let c = channel.code();
    let next = r.inbox.next[c as int];
    let hold = r.inbox.hold.insert(slot(c, next), chunk);
    crate::messages::channel_codes_roundtrip(channel, c);
    assert(hold.remove(slot(c, next)) =~= Map::<u64, Seq<u8>>::empty());
    reveal_with_fuel(crate::reliable::drain, 2);
    let d = crate::reliable::drain(hold, c, next);
    assert(d.0 =~= seq![chunk]);
    let (n, out) = r.delivered(header, chunk, now);
    assert(out =~= seq![
        IncomingModel::Datagram { channel, payload: chunk, frame_id, keyframe },
    ]);
    assert forall|other: Channel| in_step(s, r, other) implies #[trigger] in_step(
        s.sent(
            channel,
            true,
            s.data_packet(
                s.keys->0,
                channel,
                chunk,
                frame_id,
                frag_idx,
                frag_count,
                true,
                keyframe,
            ),
            sent_at,
        ),
        n,
        other,
    ) by {
        crate::messages::channel_codes_roundtrip(other, other.code());
    }
}

/// A hello says who it is from: a client's asks, a host's answers, each with the key and the
/// nonce to derive the session's keys from, and the host's with its epoch.
pub proof fn hellos_introduce(m: EndpointModel)
    requires
        m.handshake.wf(),
    ensures
        ({
            let p = m.hello();
            &&& p.len() == 68
            &&& PacketHeader::parse(p) matches Some(h) && (h.ty == PacketType::HelloAck
                <==> m.is_host) && (h.ty == PacketType::Hello <==> !m.is_host)
            &&& p[7] == m.epoch
            &&& p.subrange(20, 52) == m.handshake.public
            &&& p.subrange(52, 68) == m.handshake.nonce
        }),
{
    lemma_hello_parses(m);
}

/// A host counts its sessions from one to two hundred and fifty-five and round again; a client
/// takes the host's number over, or one where the host names none.
pub proof fn epochs_count_sessions(
    m: EndpointModel,
    packet: Seq<u8>,
    from: PeerAddr,
    fresh: HandshakeModel,
)
    requires
        packet.len() >= 68,
    ensures
        m.is_host ==> {
            let n = m.on_hello(packet, PacketType::Hello, from, fresh).0;
            &&& n.epoch >= 1
            &&& m.epoch < 255 ==> n.epoch == m.epoch + 1
            &&& m.epoch == 255 ==> n.epoch == 1
        },
        ({
            let n = m.on_hello(packet, PacketType::HelloAck, from, fresh).0;
            &&& packet[7] != 0 ==> n.epoch == packet[7]
            &&& packet[7] == 0 ==> n.epoch == 1
        }),
        ({
            let n = m.on_hello(packet, PacketType::HelloAck, from, fresh).0;
            n.peer == Some(from) && n.established && n.keys == Some(
                m.handshake.derived(packet.subrange(20, 52), packet.subrange(52, 68), m.pin),
            )
        }),
        !m.is_host ==> m.on_hello(packet, PacketType::Hello, from, fresh).0 == (EndpointModel {
            peer: Some(from),
            established: true,
            keys: Some(
                m.handshake.derived(packet.subrange(20, 52), packet.subrange(52, 68), m.pin),
            ),
            ..m
        }),
{
}

/// Data belongs to a session by its epoch: with two epochs that differ it does nothing at all;
/// with equal ones, or where one side has none yet, it is opened with the session's key, and
/// only then.
pub proof fn epochs_tell_sessions_apart(
    m: EndpointModel,
    packet: Seq<u8>,
    from: PeerAddr,
    now: u64,
    fresh: HandshakeModel,
)
    requires
        PacketHeader::parse(packet) matches Some(h) && h.ty == PacketType::Data,
        packet.len() >= 28,
    ensures
        ({
            let foreign = m.epoch != 0 && packet[7] != 0 && packet[7] != m.epoch;
            &&& foreign ==> m.handled(packet, from, now, fresh) == (m, ReactionModel::Ignored)
            &&& !foreign && m.keys is Some ==> (m.handled(packet, from, now, fresh).1 is Opened
                <==> crate::endpoint::packet_opens(m.keys->0, packet) is Some)
            &&& !foreign && m.keys is None ==> m.handled(packet, from, now, fresh) == (
                m,
                ReactionModel::Ignored,
            )
            &&& m.handled(packet, from, now, fresh).1 matches ReactionModel::Opened {
                plain,
                ..
            } ==> crate::endpoint::packet_opens(m.keys->0, packet) == Some(plain)
        }),
{
}

/// A packet that is kept is due again eight thousandths of a second after it was last sent,
/// unchanged, and then not before as long has passed again. The round trip is counted from its
/// first sending.
pub proof fn unacknowledged_packets_are_sent_again(
    m: EndpointModel,
    channel: Channel,
    packet: Seq<u8>,
    sent_at: u64,
    now: u64,
    later: u64,
)
    requires
        m.reliable_next.len() == 4,
        sent_at <= now <= later,
    ensures
        ({
            let s = m.sent(channel, true, packet, sent_at);
            let k = slot(channel.code(), m.reliable_next[channel.code() as int]);
            let kept = s.reliable_out[k];
            let again = all_passed(s.reliable_out, now);
            &&& s.reliable_out.contains_key(k) && kept.packet == packet
            &&& kept.first_send == sent_at && kept.last_send == sent_at
            &&& kept.due(now) <==> now - sent_at >= 8_000_000
            &&& again.dom() == s.reliable_out.dom()
            &&& again[k].packet == packet && again[k].first_send == sent_at
            &&& kept.due(now) ==> again[k].last_send == now && (again[k].due(later) <==> later
                - now >= 8_000_000)
            &&& !kept.due(now) ==> again[k] == kept
        }),
        ({
            let s = m.sent(channel, false, packet, sent_at);
            s.reliable_out == m.reliable_out
        }),
{
    let s = m.sent(channel, true, packet, sent_at);
    assert(all_passed(s.reliable_out, now).dom() =~= s.reliable_out.dom());
}

/// All that is due is sent again, each packet once, and nothing else.
pub proof fn all_that_is_due_is_sent(m: EndpointModel, now: u64, packets: Seq<Seq<u8>>, k: u64, i: int)
    requires
        lists_due(m.reliable_out, now, packets),
    ensures
        m.reliable_out.contains_key(k) && m.reliable_out[k].last_send + 8_000_000 <= now
            ==> packets.contains(m.reliable_out[k].packet),
        0 <= i < packets.len() ==> exists|j: u64| #[trigger]
            m.reliable_out.contains_key(j) && m.reliable_out[j].packet == packets[i]
                && m.reliable_out[j].last_send + 8_000_000 <= now,
{
    let ks = choose|ks: Seq<u64>|
        {
            &&& #[trigger] increasing(ks)
            &&& forall|k: u64|
                #[trigger] ks.contains(k) <==> m.reliable_out.contains_key(k)
                    && m.reliable_out[k].due(now)
            &&& packets == ks.map_values(|k: u64| m.reliable_out[k].packet)
        };
    if m.reliable_out.contains_key(k) && m.reliable_out[k].last_send + 8_000_000 <= now {
        assert(m.reliable_out[k].due(now));
        assert(ks.contains(k));
        let i = choose|i: int| 0 <= i < ks.len() && ks[i] == k;
        assert(packets[i] == m.reliable_out[k].packet);
    }
    if 0 <= i < packets.len() {
        let j = ks[i];
        assert(ks.contains(j));
        assert(m.reliable_out.contains_key(j));
        assert(m.reliable_out[j].packet == packets[i]);
    }
}

/// A loss report counts one packet as lost, against at least one sent, and asks for a keyframe
/// unless that was asked for less than a quarter of a second ago.
pub proof fn loss_reports_count(m: EndpointModel, now: u64)
    requires
        m.lost_packets < u32::MAX,
    ensures
        ({
            let (n, r) = m.on_nack(now);
            let free = m.last_idr_req matches Some(p) ==> now >= p + 250_000_000;
            &&& n.lost_packets == m.lost_packets + 1
            &&& r matches ReactionModel::Lost { lost, sent, need_idr } && lost == m.lost_packets
                + 1 && sent == (if m.sent_packets == 0 {
                1
            } else {
                m.sent_packets
            }) && need_idr == free
            &&& free ==> n.last_idr_req == Some(now)
            &&& !free ==> n.last_idr_req == m.last_idr_req
            &&& n == (EndpointModel {
                lost_packets: n.lost_packets,
                last_idr_req: n.last_idr_req,
                ..m
            })
        }),
{
}

/// Frames that are not whole eighty thousandths of a second after their first fragment are
/// given up, and no others; each counts as a loss, and one keyframe is asked for, unless that
/// was less than a quarter of a second ago. Where there is none nothing happens.
pub proof fn overdue_frames_count_as_lost(m: EndpointModel, now: u64, id: u32)
    requires
        m.lost_packets + m.video.frames.dom().len() <= u32::MAX,
        m.video.frames.dom().finite(),
    ensures
        ({
            let (n, r) = m.video_expired(now);
            let free = m.last_idr_req matches Some(p) ==> now >= p + 250_000_000;
            let overdue = Set::new(
                |i: u32|
                    m.video.frames.contains_key(i) && m.video.frames[i].first_seen + 80_000_000
                        < now,
            );
            &&& n.video.frames.contains_key(id) <==> m.video.frames.contains_key(id)
                && !overdue.contains(id)
            &&& n.video.frames.contains_key(id) ==> n.video.frames[id] == m.video.frames[id]
            &&& n.video.last == m.video.last
            &&& n.lost_packets == m.lost_packets + overdue.len()
            &&& r is None <==> overdue.len() == 0
            &&& r is None ==> n.last_idr_req == m.last_idr_req
            &&& r matches Some((lost, sent, need_idr)) ==> lost == n.lost_packets && sent == (
            if m.sent_packets == 0 {
                1
            } else {
                m.sent_packets
            }) && need_idr == free && n.last_idr_req == (if free {
                Some(now)
            } else {
                m.last_idr_req
            })
            &&& n.reliable_out == m.reliable_out && n.inbox == m.inbox && n.keys == m.keys
        }),
{
    let overdue = Set::new(
        |i: u32|
            m.video.frames.contains_key(i) && m.video.frames[i].first_seen + 80_000_000 < now,
    );
    assert(overdue =~= m.video.given_up(now));
    assert(overdue.subset_of(m.video.frames.dom()));
    vstd::set_lib::lemma_len_subset(overdue, m.video.frames.dom());
}

/// Packet `i` of a message says so: whose message it is, which of how many fragments it is, on
/// which channel, whether it belongs to a keyframe and is to be acknowledged, and which one is
/// the last; under the sender's epoch.
pub proof fn packets_name_their_fragment(
    m: EndpointModel,
    msg: MessageModel,
    now: u64,
    i: int,
)
    requires
        0 <= i < msg.total() <= u16::MAX,
    ensures
        ({
            let p = m.message_packets(msg, now)[i];
            &&& p[7] == m.epoch
            &&& PacketHeader::parse(p) matches Some(h) && {
                &&& h.ty == PacketType::Data && h.channel == msg.channel
                &&& h.frame_id == msg.frame_id
                &&& h.frag_idx == i && h.frag_count == msg.total()
                &&& has_flag(h.flags, 1) == msg.keyframe
                &&& has_flag(h.flags, 2) == msg.reliable
                &&& has_flag(h.flags, 4) == (i == msg.total() - 1)
            }
        }),
{
    let s = m.sent_fragments(msg, now, i as nat);
    lemma_sent_fragments_keep(m, msg, now, i as nat);
    let header = s.data_header(
        msg.channel,
        msg.frame_id,
        i as u16,
        msg.total() as u16,
        msg.reliable,
        msg.keyframe,
    );
    lemma_sealed_parses(
        s.keys->0,
        header,
        s.epoch,
        s.crypto_nonce,
        fragment_of(msg.payload, i),
    );
    data_flags_read_back(msg.reliable, msg.keyframe, i as u16 + 1 == msg.total() as u16);
    assert(m.message_packets(msg, now)[i] == s.fragment_packet(msg, i));
}

/// Control, input and keyframes go reliably; audio and other video do not.
pub proof fn what_must_arrive_goes_reliably(keyframe: bool)
    ensures
        sent_reliably(Channel::Control, keyframe),
        sent_reliably(Channel::Input, keyframe),
        !sent_reliably(Channel::Audio, keyframe),
        sent_reliably(Channel::Video, keyframe) == keyframe,
{
}

/// Sending uses up one packet number and one sequence number: the channel's own where it is
/// reliable, the common one where it is not. It counts as one packet, and leaves what was
/// received alone.
pub proof fn sending_uses_up_numbers(
    m: EndpointModel,
    channel: Channel,
    other: Channel,
    packet: Seq<u8>,
    now: u64,
)
    requires
        m.reliable_next.len() == 4,
        m.crypto_nonce < u64::MAX,
        m.sent_packets < u32::MAX,
        m.send_seq < u32::MAX,
        m.reliable_next[channel.code() as int] < u32::MAX,
    ensures
        ({
            let r = m.sent(channel, true, packet, now);
            let u = m.sent(channel, false, packet, now);
            &&& r.crypto_nonce == m.crypto_nonce + 1 && u.crypto_nonce == m.crypto_nonce + 1
            &&& r.sent_packets == m.sent_packets + 1 && u.sent_packets == m.sent_packets + 1
            &&& r.send_seq == m.send_seq && u.send_seq == m.send_seq + 1
            &&& r.reliable_next[channel.code() as int] == m.reliable_next[channel.code() as int] + 1
            &&& other != channel ==> r.reliable_next[other.code() as int]
                == m.reliable_next[other.code() as int]
            &&& u.reliable_next == m.reliable_next
            &&& r.inbox == m.inbox && u.inbox == m.inbox && r.video == m.video && u.video
                == m.video
            &&& r.keys == m.keys && u.keys == m.keys && r.epoch == m.epoch && u.epoch == m.epoch
        }),
{
    crate::messages::channel_codes_roundtrip(channel, 0);
    crate::messages::channel_codes_roundtrip(other, 0);
}

/// An acknowledgement takes out its packet and nothing else, gives the microseconds since the
/// packet was first sent, and remembers the highest number acknowledged.
pub proof fn acknowledgements_take_out_their_packet(
    m: EndpointModel,
    header: PacketHeader,
    now: u64,
    k: u64,
)
    ensures
        ({
            let (n, r) = m.on_ack(header, now);
            let own = slot(header.channel.code(), header.seq);
            &&& !n.reliable_out.contains_key(own)
            &&& k != own ==> (n.reliable_out.contains_key(k) <==> m.reliable_out.contains_key(k))
            &&& n.reliable_out.contains_key(k) ==> n.reliable_out[k] == m.reliable_out[k]
            &&& n.acked >= header.seq && n.acked >= m.acked && (n.acked == header.seq || n.acked
                == m.acked)
            &&& r matches ReactionModel::Acked { rtt_us } && (rtt_us is Some
                <==> m.reliable_out.contains_key(own)) && (rtt_us matches Some(us) ==> {
                let since = now - m.reliable_out[own].first_send;
                &&& 0 <= since < 4_000_000_000_000 ==> us == since / 1000
                &&& since < 0 ==> us == 0
            })
        }),
{
}

/// Connecting names the peer, and leaves the session as it is: the hello goes out under it.
/// Sending again changes only when packets were last sent.
pub proof fn connecting_names_the_peer(m: EndpointModel, peer: PeerAddr, now: u64)
    ensures
        m.facing(peer).peer == Some(peer),
        m.facing(peer).hello() == m.hello(),
        m.facing(peer) == (EndpointModel { peer: Some(peer), ..m }),
        m.resent(now) == (EndpointModel { reliable_out: m.resent(now).reliable_out, ..m }),
        m.resent(now).reliable_out.dom() == m.reliable_out.dom(),
        m.resent(now).resent(now) == m.resent(now),
        forall|k: u64| #[trigger]
            m.reliable_out.contains_key(k) ==> {
                let n = m.resent(now).reliable_out[k];
                &&& n.packet == m.reliable_out[k].packet
                &&& n.first_send == m.reliable_out[k].first_send
                &&& n.last_send == (if now >= m.reliable_out[k].last_send + 8_000_000 {
                    now
                } else {
                    m.reliable_out[k].last_send
                })
            },
{
    assert(m.resent(now).reliable_out.dom() =~= m.reliable_out.dom());
    assert(m.resent(now).resent(now).reliable_out =~= m.resent(now).reliable_out);
}

/// What is no packet, a hello that is cut short and data that is does nothing.
pub proof fn cut_packets_do_nothing(
    m: EndpointModel,
    packet: Seq<u8>,
    from: PeerAddr,
    now: u64,
    fresh: HandshakeModel,
)
    ensures
        PacketHeader::parse(packet) is None ==> m.handled(packet, from, now, fresh) == (
            m,
            ReactionModel::Ignored,
        ),
        PacketHeader::parse(packet) matches Some(h) && (h.ty is Hello || h.ty is HelloAck)
            && packet.len() < 68 ==> m.handled(packet, from, now, fresh) == (
            m,
            ReactionModel::Ignored,
        ),
        PacketHeader::parse(packet) matches Some(h) && h.ty is Data && packet.len() < 28
            ==> m.handled(packet, from, now, fresh) == (m, ReactionModel::Ignored),
{
}

/// Data that opens is passed on with its header and leaves the session as it is, but that
/// acknowledging a reliable packet uses up a number: the acknowledgement names the packet's
/// channel and its sequence number. Data that does not open is counted and has no other effect.
pub proof fn data_is_acknowledged_where_it_asks(
    m: EndpointModel,
    packet: Seq<u8>,
    from: PeerAddr,
    now: u64,
    fresh: HandshakeModel,
)
    requires
        PacketHeader::parse(packet) matches Some(h) && h.ty is Data,
        packet.len() >= 28,
        m.keys is Some,
        m.epoch == packet[7],
        m.crypto_nonce < u64::MAX,
        m.decrypt_fails < u32::MAX,
    ensures
        ({
            let h = PacketHeader::parse(packet)->0;
            let (n, r) = m.handled(packet, from, now, fresh);
            let plain = crate::endpoint::packet_opens(m.keys->0, packet);
            &&& plain is None ==> r is Ignored && n == (EndpointModel {
                decrypt_fails: (m.decrypt_fails + 1) as u32,
                ..m
            })
            &&& plain is Some ==> (r matches ReactionModel::Opened { ack, header, plain: p } && {
                &&& header == h && plain == Some(p)
                &&& ack is Some <==> has_flag(h.flags, 2)
                &&& ack is None ==> n == m
                &&& ack matches Some(a) ==> {
                    &&& n == (EndpointModel { crypto_nonce: (m.crypto_nonce + 1) as u64, ..m })
                    &&& PacketHeader::parse(a) matches Some(ah) && ah.ty is Ack && ah.channel
                        == h.channel && ah.seq == h.seq
                }
            })
        }),
{
    let h = PacketHeader::parse(packet)->0;
    lemma_sealed_parses(
        m.keys->0,
        crate::endpoint::ack_header(h.channel, h.seq),
        0,
        m.crypto_nonce,
        Seq::empty(),
    );
}

/// A host answers every hello and takes it as a new session; a client does not answer. The
/// answer opens the client's session, and says so once.
pub proof fn hellos_are_answered(
    m: EndpointModel,
    packet: Seq<u8>,
    from: PeerAddr,
    fresh: HandshakeModel,
)
    requires
        packet.len() >= 68,
    ensures
        ({
            let (n, r) = m.on_hello(packet, PacketType::Hello, from, fresh);
            &&& n.established && n.peer == Some(from)
            &&& r matches ReactionModel::Hello { reply, established } && established && (
            reply is Some <==> m.is_host) && (reply matches Some(p) ==> p == n.hello())
            &&& m.is_host ==> n.handshake == fresh
            &&& !m.is_host ==> n.handshake == m.handshake
        }),
        ({
            let (n, r) = m.on_hello(packet, PacketType::HelloAck, from, fresh);
            &&& n.established && n.peer == Some(from) && n.handshake == m.handshake
            &&& r matches ReactionModel::Hello { reply, established } && reply is None && (
            established <==> !m.established)
        }),
{
}

/// Until a peer and a key are there a message of any length may be tried; from then on it must
/// fit the numbers that are left: at most as many fragments as sixteen bits count.
pub proof fn messages_must_fit(m: EndpointModel, len: nat)
    ensures
        m.peer is None || m.keys is None ==> m.can_send(len),
        m.peer is Some && m.keys is Some && len > 1200 * 65535 ==> !m.can_send(len),
        len <= 1200 * 65535 && m.crypto_nonce <= u64::MAX - 65535 && m.sent_packets <= u32::MAX
            - 65535 ==> m.can_send(len),
{
}

/// The first reliable message after a hello is answered and the answer heard is handed over as
/// soon as it arrives, in either direction and on any channel but the video's, whatever session
/// either side had before.
pub proof fn first_message_is_handed_over(
    client: EndpointModel,
    host: EndpointModel,
    client_addr: PeerAddr,
    host_addr: PeerAddr,
    t: u64,
    u: u64,
    fresh: HandshakeModel,
    unused: HandshakeModel,
    channel: Channel,
    chunk: Seq<u8>,
    frame_id: u32,
    keyframe: bool,
    now: u64,
)
    requires
        !client.is_host,
        host.is_host,
        client.handshake.wf(),
        fresh.wf(),
        channel != Channel::Video,
    ensures
        ({
            let h = host.handled(client.hello(), client_addr, t, fresh).0;
            let n = client.handled(h.hello(), host_addr, u, unused).0;
            let message = seq![
                IncomingModel::Datagram { channel, payload: chunk, frame_id, keyframe },
            ];
            &&& n.delivered(
                h.data_header(channel, frame_id, 0, 1, true, keyframe),
                chunk,
                now,
            ).1 == message
            &&& h.delivered(
                n.data_header(channel, frame_id, 0, 1, true, keyframe),
                chunk,
                now,
            ).1 == message
        }),
{
    let h = host.handled(client.hello(), client_addr, t, fresh).0;
    let n = client.handled(h.hello(), host_addr, u, unused).0;
    sessions_start_in_step(
        client,
        host,
        client_addr,
        host_addr,
        t,
        u,
        fresh,
        unused,
        channel,
    );
    in_step_messages_are_handed_over(h, n, channel, chunk, frame_id, 0, 1, keyframe, now, now);
    in_step_messages_are_handed_over(n, h, channel, chunk, frame_id, 0, 1, keyframe, now, now);
}

/// A reliable packet that goes out is one more in flight, its acknowledgement one less; with a
/// new session nothing is in flight, held back or in the making.
pub proof fn what_waits_is_counted(
    m: EndpointModel,
    channel: Channel,
    packet: Seq<u8>,
    header: PacketHeader,
    sent_at: u64,
    now: u64,
    as_host: bool,
)
    requires
        m.reliable_next.len() == 4,
        m.reliable_out.dom().finite(),
        header.channel == channel,
        header.seq == m.reliable_next[channel.code() as int],
        !m.reliable_out.contains_key(slot(channel.code(), header.seq)),
    ensures
        ({
            let s = m.sent(channel, true, packet, sent_at);
            &&& s.waiting() == (m.waiting().0 + 1, m.waiting().1, m.waiting().2)
            &&& s.on_ack(header, now).0.waiting() == m.waiting()
            &&& m.sent(channel, false, packet, sent_at).waiting() == m.waiting()
            &&& m.reset(as_host).waiting() == (0nat, 0nat, 0nat)
        }),
{
    let k = slot(channel.code(), header.seq);
    let s = m.sent(channel, true, packet, sent_at);
    assert(s.reliable_out.dom() =~= m.reliable_out.dom().insert(k));
    assert(s.on_ack(header, now).0.reliable_out.dom() =~= m.reliable_out.dom());
}

} // verus!
