//! A BUD endpoint without its socket: the session state, what each datagram does to
//! it, and the datagrams it wants sent.
//!
//! The caller owns the socket and the clock. It hands every received datagram to
//! `handle_datagram`, sends the replies, passes opened data on to `deliver`, and polls
//! `retransmit` and `expire_video`. Times are nanoseconds on one monotonic clock.

use vstd::prelude::*;
use vstd::slice::slice_subrange;

use crate::bytes::{array_16, array_32, copy_range, le_bytes, le_value, push_all, push_le, read_le};
use crate::crypto::{
    aes_open, aes_seal, packet_nonce, sealable, Handshake, HandshakeModel, SessionKeys, CIPHER_LIMIT,
    MAX_SEALED, TAG_LEN,
};
use crate::messages::Channel;
use crate::packet::{
    fragment, fragment_count, fragment_of, fragment_total, PacketHeader, PacketType, EPOCH_AT,
    FLAG_FIN, FLAG_KEYFRAME, FLAG_RELIABLE, HEADER_LEN, MTU,
};
use crate::reliable::{
    after, all_passed, byte_views, lists_due, slot, Inbox, InboxModel, Outbox, OutgoingModel,
};
use crate::timing::{elapsed, elapsed_since};
use crate::video::{AssemblerModel, VideoAssembler};

verus! {

broadcast use vstd::slice::group_slice_axioms;

/// Keyframe requests closer together than this are dropped.
pub const IDR_DEBOUNCE_NS: u64 = 250_000_000;

/// Packet number the host starts a session with.
pub const HOST_FIRST_NONCE: u64 = 1;

/// Packet number the client starts a session with: the other half of the range.
pub const CLIENT_FIRST_NONCE: u64 = 0x8000_0000_0000_0000;

/// Where the sealed bytes of a packet start: behind the header and the packet number.
pub const SEALED_AT: usize = 28;

/// The length of a hello: header, public key, nonce.
pub const HELLO_LEN: usize = 68;

/// A peer's network address.
#[derive(Debug, Clone, Copy, PartialEq, Eq, Structural)]
pub enum PeerAddr {
    V4 { ip: u32, port: u16 },
    V6 { ip: u128, port: u16, flowinfo: u32, scope_id: u32 },
}

#[derive(Debug)]
pub struct BudConfig {
    pub bind: PeerAddr,
    pub pin: String,
    pub is_host: bool,
}

impl Clone for BudConfig {
    fn clone(&self) -> (r: BudConfig)
        ensures
            r.bind == self.bind,
            r.pin@ == self.pin@,
            r.is_host == self.is_host,
    {
        BudConfig { bind: self.bind, pin: self.pin.clone(), is_host: self.is_host }
    }
}

/// What an endpoint has for its user.
#[derive(Debug)]
pub enum Incoming {
    Established { peer: PeerAddr },
    Datagram { channel: Channel, payload: Vec<u8>, frame_id: u32, keyframe: bool },
    NeedIdr,
}

#[verifier::ext_equal]
pub enum IncomingModel {
    Established { peer: PeerAddr },
    Datagram { channel: Channel, payload: Seq<u8>, frame_id: u32, keyframe: bool },
    NeedIdr,
}

impl View for Incoming {
    type V = IncomingModel;

    open spec fn view(&self) -> IncomingModel {
        match self {
            Incoming::Established { peer } => IncomingModel::Established { peer: *peer },
            Incoming::Datagram { channel, payload, frame_id, keyframe } => {
                IncomingModel::Datagram {
                    channel: *channel,
                    payload: payload@,
                    frame_id: *frame_id,
                    keyframe: *keyframe,
                }
            },
            Incoming::NeedIdr => IncomingModel::NeedIdr,
        }
    }
}

/// A payload as it is handed to the user, with the particulars of the packet that
/// brought it.
pub open spec fn datagram_of(header: PacketHeader, payload: Seq<u8>, keyframe: bool) -> IncomingModel {
    IncomingModel::Datagram { channel: header.channel, payload, frame_id: header.frame_id, keyframe }
}

/// The views of a list of incoming items.
pub open spec fn incoming_views(v: Seq<Incoming>) -> Seq<IncomingModel> {
    v.map_values(|x: Incoming| x@)
}

#[derive(Debug, Clone, Copy, PartialEq, Eq, Structural)]
pub enum SendError {
    NoPeer,
    NotEstablished,
    Encrypt,
}

impl SendError {
    pub fn message(&self) -> (r: &'static str)
        ensures
            r@ == match self {
                SendError::NoPeer => "no peer"@,
                SendError::NotEstablished => "not established"@,
                SendError::Encrypt => "aes-gcm encrypt failed"@,
            },
    {
        match self {
            SendError::NoPeer => "no peer",
            SendError::NotEstablished => "not established",
            SendError::Encrypt => "aes-gcm encrypt failed",
        }
    }
}

/// A data packet that decrypted.
pub struct OpenedData {
    pub header: PacketHeader,
    pub plain: Vec<u8>,
}

/// What a datagram calls for.
pub enum Reaction {
    /// Nothing.
    Ignored,
    /// A peer introduced itself: send `reply` to it, if there is one, and start the
    /// congestion controller over; then report an established session if `established`.
    Hello { reply: Option<Vec<u8>>, established: bool },
    /// A packet was acknowledged; `rtt_us` is its round trip, if it was in flight.
    Acked { rtt_us: Option<u32> },
    /// The peer lost something: `lost` of `sent` packets so far.
    Lost { lost: u32, sent: u32, need_idr: bool },
    /// Data: send `ack` to where it came from, if there is one, and then deliver `data`.
    Opened { ack: Option<Vec<u8>>, data: OpenedData },
}

#[verifier::ext_equal]
pub enum ReactionModel {
    Ignored,
    Hello { reply: Option<Seq<u8>>, established: bool },
    Acked { rtt_us: Option<u32> },
    Lost { lost: u32, sent: u32, need_idr: bool },
    Opened { ack: Option<Seq<u8>>, header: PacketHeader, plain: Seq<u8> },
}

/// The view of an optional byte vector.
pub open spec fn bytes_view(v: Option<Vec<u8>>) -> Option<Seq<u8>> {
    match v {
        Some(b) => Some(b@),
        None => None,
    }
}

impl View for Reaction {
    type V = ReactionModel;

    open spec fn view(&self) -> ReactionModel {
        match self {
            Reaction::Ignored => ReactionModel::Ignored,
            Reaction::Hello { reply, established } => ReactionModel::Hello {
                reply: bytes_view(*reply),
                established: *established,
            },
            Reaction::Acked { rtt_us } => ReactionModel::Acked { rtt_us: *rtt_us },
            Reaction::Lost { lost, sent, need_idr } => ReactionModel::Lost {
                lost: *lost,
                sent: *sent,
                need_idr: *need_idr,
            },
            Reaction::Opened { ack, data } => ReactionModel::Opened {
                ack: bytes_view(*ack),
                header: data.header,
                plain: data.plain@,
            },
        }
    }
}

/// Whether flag `bit`, a power of two, is set.
pub open spec fn has_flag(flags: u8, bit: u8) -> bool {
    flags / bit % 2 == 1
}

fn flag_set(flags: u8, bit: u8) -> (r: bool)
    requires
        bit > 0,
    ensures
        r == has_flag(flags, bit),
{
    flags / bit % 2 == 1
}

/// The flags of a data packet.
pub open spec fn data_flags(reliable: bool, keyframe: bool, fin: bool) -> u8 {
    ((if reliable {
        FLAG_RELIABLE as int
    } else {
        0
    }) + (if keyframe {
        FLAG_KEYFRAME as int
    } else {
        0
    }) + (if fin {
        FLAG_FIN as int
    } else {
        0
    })) as u8
}

/// The flags read back as they were set.
pub proof fn data_flags_read_back(reliable: bool, keyframe: bool, fin: bool)
    ensures
        has_flag(data_flags(reliable, keyframe, fin), FLAG_RELIABLE) == reliable,
        has_flag(data_flags(reliable, keyframe, fin), FLAG_KEYFRAME) == keyframe,
        has_flag(data_flags(reliable, keyframe, fin), FLAG_FIN) == fin,
{
}

/// A packet on the wire: header, packet number, sealed bytes. The header is
/// authenticated along with the contents.
pub open spec fn sealed_packet(
    key: Seq<u8>,
    header: Seq<u8>,
    number: u64,
    plain: Seq<u8>,
) -> Seq<u8> {
    header + le_bytes(number as nat, 8) + aes_seal(key, packet_nonce(number), header, plain)
}

/// The packet number of a packet.
pub open spec fn packet_number(packet: Seq<u8>) -> u64 {
    le_value(packet.subrange(HEADER_LEN as int, SEALED_AT as int)) as u64
}

/// What a packet decrypts to under `key`.
pub open spec fn packet_opens(key: Seq<u8>, packet: Seq<u8>) -> Option<Seq<u8>> {
    aes_open(
        key,
        packet_nonce(packet_number(packet)),
        packet.take(HEADER_LEN as int),
        packet.skip(SEALED_AT as int),
    )
}

/// Whether a datagram is a client's hello.
pub open spec fn is_hello(packet: Seq<u8>) -> bool {
    packet.len() >= HELLO_LEN && (PacketHeader::parse(packet) matches Some(h) && h.ty
        == PacketType::Hello)
}

/// The header of an acknowledgement.
pub open spec fn ack_header(channel: Channel, seq: u32) -> PacketHeader {
    PacketHeader {
        ty: PacketType::Ack,
        channel,
        flags: 0,
        seq,
        frame_id: 0,
        frag_idx: 0,
        frag_count: 1,
    }
}

/// The session state of an endpoint.
#[verifier::ext_equal]
pub struct EndpointModel {
    pub is_host: bool,
    pub pin: Seq<char>,
    pub keys: Option<Seq<u8>>,
    pub handshake: HandshakeModel,
    pub peer: Option<PeerAddr>,
    pub established: bool,
    pub send_seq: u32,
    pub crypto_nonce: u64,
    pub reliable_next: Seq<u32>,
    pub reliable_out: Map<u64, OutgoingModel>,
    pub inbox: InboxModel,
    pub acked: u32,
    pub video: AssemblerModel,
    pub sent_packets: u32,
    pub lost_packets: u32,
    pub epoch: u8,
    pub decrypt_fails: u32,
    pub last_idr_req: Option<u64>,
}

/// The larger of two numbers.
pub open spec fn larger(a: u32, b: u32) -> u32 {
    if a >= b {
        a
    } else {
        b
    }
}

/// One more, up to the limit.
pub open spec fn one_more(n: u32) -> u32 {
    if n == u32::MAX {
        n
    } else {
        (n + 1) as u32
    }
}

impl EndpointModel {
    /// An endpoint before its first handshake.
    pub open spec fn start(is_host: bool, pin: Seq<char>, handshake: HandshakeModel) -> EndpointModel {
        EndpointModel {
            is_host,
            pin,
            keys: None,
            handshake,
            peer: None,
            established: false,
            send_seq: 1,
            crypto_nonce: if is_host {
                HOST_FIRST_NONCE
            } else {
                CLIENT_FIRST_NONCE
            },
            reliable_next: seq![1u32, 1u32, 1u32, 1u32],
            reliable_out: Map::empty(),
            inbox: InboxModel::start(),
            acked: 0,
            video: AssemblerModel::start(),
            sent_packets: 0,
            lost_packets: 0,
            epoch: 0,
            decrypt_fails: 0,
            last_idr_req: None,
        }
    }

    /// The state with everything that belongs to the last session gone. Packet numbers
    /// start over in the host's or the client's half.
    pub open spec fn reset(self, as_host: bool) -> EndpointModel {
        EndpointModel {
            peer: self.peer,
            established: self.established,
            epoch: self.epoch,
            is_host: self.is_host,
            ..EndpointModel::start(as_host, self.pin, self.handshake)
        }
    }

    /// The hello this endpoint sends.
    pub open spec fn hello(self) -> Seq<u8> {
        PacketHeader {
            ty: if self.is_host {
                PacketType::HelloAck
            } else {
                PacketType::Hello
            },
            channel: Channel::Control,
            flags: 0,
            seq: 0,
            frame_id: 0,
            frag_idx: 0,
            frag_count: 1,
        }.wire(self.epoch) + self.handshake.public + self.handshake.nonce
    }

    /// The header of the next data packet.
    pub open spec fn data_header(
        self,
        channel: Channel,
        frame_id: u32,
        frag_idx: u16,
        frag_count: u16,
        reliable: bool,
        keyframe: bool,
    ) -> PacketHeader {
        PacketHeader {
            ty: PacketType::Data,
            channel,
            flags: data_flags(reliable, keyframe, frag_idx + 1 == frag_count),
            seq: if reliable {
                self.reliable_next[channel.code() as int]
            } else {
                self.send_seq
            },
            frame_id,
            frag_idx,
            frag_count,
        }
    }

    /// The state once a sequence number and a packet number have been used up.
    pub open spec fn numbered(self, channel: Channel, reliable: bool) -> EndpointModel {
        let c = channel.code() as int;
        EndpointModel {
            reliable_next: if reliable {
                self.reliable_next.update(c, after(self.reliable_next[c]))
            } else {
                self.reliable_next
            },
            send_seq: if reliable {
                self.send_seq
            } else {
                after(self.send_seq)
            },
            crypto_nonce: (self.crypto_nonce + 1) as u64,
            ..self
        }
    }

    /// The state once a data packet has been made at `now`. Reliable packets are kept.
    pub open spec fn sent(
        self,
        channel: Channel,
        reliable: bool,
        packet: Seq<u8>,
        now: u64,
    ) -> EndpointModel {
        let n = self.numbered(channel, reliable);
        EndpointModel {
            reliable_out: if reliable {
                n.reliable_out.insert(
                    slot(channel.code(), self.reliable_next[channel.code() as int]),
                    OutgoingModel { packet, last_send: now, first_send: now },
                )
            } else {
                n.reliable_out
            },
            sent_packets: (n.sent_packets + 1) as u32,
            ..n
        }
    }

    /// The next data packet under `key`.
    pub open spec fn data_packet(
        self,
        key: Seq<u8>,
        channel: Channel,
        chunk: Seq<u8>,
        frame_id: u32,
        frag_idx: u16,
        frag_count: u16,
        reliable: bool,
        keyframe: bool,
    ) -> Seq<u8> {
        sealed_packet(
            key,
            self.data_header(channel, frame_id, frag_idx, frag_count, reliable, keyframe).wire(
                self.epoch,
            ),
            self.crypto_nonce,
            chunk,
        )
    }

    /// Whether a header epoch belongs to another session. Zero belongs to any.
    pub open spec fn stale(self, epoch: u8) -> bool {
        self.epoch != 0 && epoch != 0 && epoch != self.epoch
    }

    /// What a data packet decrypts to here. Nothing where it is too short, stale,
    /// without a session, or forged.
    pub open spec fn opened(self, packet: Seq<u8>) -> Option<Seq<u8>> {
        if packet.len() < SEALED_AT || self.stale(packet[EPOCH_AT as int]) {
            None
        } else {
            match self.keys {
                Some(key) => packet_opens(key, packet),
                None => None,
            }
        }
    }

    /// Whether a data packet counts as a failed decryption here.
    pub open spec fn rejects(self, packet: Seq<u8>) -> bool {
        packet.len() >= SEALED_AT && !self.stale(packet[EPOCH_AT as int]) && self.keys is Some
            && self.opened(packet) is None
    }

    /// What a data packet does before it is delivered: it is decrypted, and
    /// acknowledged if it is reliable.
    pub open spec fn on_data(self, packet: Seq<u8>, header: PacketHeader) -> (
        EndpointModel,
        ReactionModel,
    ) {
        match self.opened(packet) {
            Some(plain) => if has_flag(header.flags, FLAG_RELIABLE) {
                (
                    EndpointModel { crypto_nonce: (self.crypto_nonce + 1) as u64, ..self },
                    ReactionModel::Opened {
                        ack: Some(
                            sealed_packet(
                                self.keys->0,
                                ack_header(header.channel, header.seq).wire(0),
                                self.crypto_nonce,
                                Seq::empty(),
                            ),
                        ),
                        header,
                        plain,
                    },
                )
            } else {
                (self, ReactionModel::Opened { ack: None, header, plain })
            },
            None => if self.rejects(packet) {
                (
                    EndpointModel { decrypt_fails: one_more(self.decrypt_fails), ..self },
                    ReactionModel::Ignored,
                )
            } else {
                (self, ReactionModel::Ignored)
            },
        }
    }

    /// What delivering an opened packet at `now` does and brings. Video fragments are
    /// reassembled; reliable packets of the other channels come out in order; the rest
    /// comes out as it is.
    pub open spec fn delivered(self, header: PacketHeader, plain: Seq<u8>, now: u64) -> (
        EndpointModel,
        Seq<IncomingModel>,
    ) {
        let kf = has_flag(header.flags, FLAG_KEYFRAME);
        if header.channel == Channel::Video {
            let v = self.video.accept(
                header.frame_id,
                header.frag_idx,
                header.frag_count,
                kf,
                plain,
                now,
            );
            (
                EndpointModel { video: v.0, ..self },
                match v.1 {
                    Some((payload, keyframe)) => seq![
                        IncomingModel::Datagram {
                            channel: Channel::Video,
                            payload,
                            frame_id: header.frame_id,
                            keyframe,
                        },
                    ],
                    None => Seq::empty(),
                },
            )
        } else if has_flag(header.flags, FLAG_RELIABLE) {
            let i = self.inbox.accept(header.channel, header.seq, plain);
            (
                EndpointModel { inbox: i.0, ..self },
                i.1.map_values(|payload: Seq<u8>| datagram_of(header, payload, kf)),
            )
        } else {
            (
                self,
                seq![
                    IncomingModel::Datagram {
                        channel: header.channel,
                        payload: plain,
                        frame_id: header.frame_id,
                        keyframe: false,
                    },
                ],
            )
        }
    }

    /// Whether every packet that is kept for retransmission fits a datagram.
    pub open spec fn kept_fit(self) -> bool {
        forall|k: u64|
            self.reliable_out.contains_key(k) ==> (#[trigger] self.reliable_out[k]).packet.len()
                <= MTU
    }

    /// The epoch after this one. Zero is left out.
    pub open spec fn next_epoch(self) -> u8 {
        if self.epoch == 255 {
            1
        } else {
            (self.epoch + 1) as u8
        }
    }

    /// The state just before keys are derived: a host that is greeted starts over with
    /// a fresh handshake and the next epoch; an acknowledged greeting starts over under
    /// the epoch it names.
    pub open spec fn greeted(self, ty: PacketType, epoch: u8, fresh: HandshakeModel) -> EndpointModel {
        if ty == PacketType::Hello && self.is_host {
            EndpointModel { handshake: fresh, epoch: self.next_epoch(), ..self }.reset(true)
        } else if ty == PacketType::HelloAck {
            EndpointModel {
                epoch: if epoch == 0 {
                    1
                } else {
                    epoch
                },
                ..self
            }.reset(false)
        } else {
            self
        }
    }

    /// What a hello from `from` does.
    pub open spec fn on_hello(
        self,
        packet: Seq<u8>,
        ty: PacketType,
        from: PeerAddr,
        fresh: HandshakeModel,
    ) -> (EndpointModel, ReactionModel) {
        if packet.len() < HELLO_LEN {
            (self, ReactionModel::Ignored)
        } else {
            let g = self.greeted(ty, packet[EPOCH_AT as int], fresh);
            let n = EndpointModel {
                peer: Some(from),
                keys: Some(
                    g.handshake.derived(
                        packet.subrange(20, 52),
                        packet.subrange(52, 68),
                        self.pin,
                    ),
                ),
                established: true,
                ..g
            };
            (
                n,
                ReactionModel::Hello {
                    reply: if ty == PacketType::Hello && self.is_host {
                        Some(n.hello())
                    } else {
                        None
                    },
                    established: ty == PacketType::Hello || !self.established,
                },
            )
        }
    }

    /// What an acknowledgement does at `now`.
    pub open spec fn on_ack(self, header: PacketHeader, now: u64) -> (EndpointModel, ReactionModel) {
        let k = slot(header.channel.code(), header.seq);
        (
            EndpointModel {
                acked: larger(self.acked, header.seq),
                reliable_out: self.reliable_out.remove(k),
                ..self
            },
            ReactionModel::Acked {
                rtt_us: if self.reliable_out.contains_key(k) {
                    Some(
                        (elapsed(self.reliable_out[k].first_send, now) / 1000
                            % 0x1_0000_0000) as u32,
                    )
                } else {
                    None
                },
            },
        )
    }

    /// Whether a keyframe request at `now` goes through.
    pub open spec fn idr_allowed(self, now: u64) -> bool {
        self.last_idr_req matches Some(prev) ==> elapsed(prev, now) >= IDR_DEBOUNCE_NS
    }

    /// The state after a keyframe request at `now`.
    pub open spec fn idr_requested(self, now: u64) -> EndpointModel {
        if self.idr_allowed(now) {
            EndpointModel { last_idr_req: Some(now), ..self }
        } else {
            self
        }
    }

    /// What a loss report does at `now`.
    pub open spec fn on_nack(self, now: u64) -> (EndpointModel, ReactionModel) {
        let n = EndpointModel { lost_packets: (self.lost_packets + 1) as u32, ..self };
        (
            n.idr_requested(now),
            ReactionModel::Lost {
                lost: n.lost_packets,
                sent: larger(n.sent_packets, 1),
                need_idr: n.idr_allowed(now),
            },
        )
    }

    /// What a datagram from `from` does at `now`. `fresh` is the handshake a greeted
    /// host goes on with.
    pub open spec fn handled(
        self,
        packet: Seq<u8>,
        from: PeerAddr,
        now: u64,
        fresh: HandshakeModel,
    ) -> (EndpointModel, ReactionModel) {
        match PacketHeader::parse(packet) {
            None => (self, ReactionModel::Ignored),
            Some(header) => match header.ty {
                PacketType::Hello => self.on_hello(packet, header.ty, from, fresh),
                PacketType::HelloAck => self.on_hello(packet, header.ty, from, fresh),
                PacketType::Ack => self.on_ack(header, now),
                PacketType::Nack => self.on_nack(now),
                PacketType::Data => self.on_data(packet, header),
            },
        }
    }

    /// What giving up overdue frames at `now` does: each counts as a loss, and a
    /// keyframe is asked for if there was any.
    pub open spec fn video_expired(self, now: u64) -> (EndpointModel, Option<(u32, u32, bool)>) {
        let gone = self.video.given_up(now);
        let n = EndpointModel {
            video: self.video.pruned(now),
            lost_packets: (self.lost_packets + gone.len()) as u32,
            ..self
        };
        if gone.len() == 0 {
            (n, None)
        } else {
            (
                n.idr_requested(now),
                Some((n.lost_packets, larger(n.sent_packets, 1), n.idr_allowed(now))),
            )
        }
    }
}

/// Whether a message goes reliably: control, input, and keyframes of the video.
pub open spec fn sent_reliably(channel: Channel, keyframe: bool) -> bool {
    channel is Control || channel is Input || (channel is Video && keyframe)
}

/// Whether a message goes reliably: control, input, and keyframes of the video.
fn is_reliable(channel: Channel, keyframe: bool) -> (r: bool)
    ensures
        r == sent_reliably(channel, keyframe),
{
    channel.is_reliable() || (channel == Channel::Video && keyframe)
}

/// A message to be sent in fragments.
#[verifier::ext_equal]
pub struct MessageModel {
    pub channel: Channel,
    pub payload: Seq<u8>,
    pub frame_id: u32,
    pub keyframe: bool,
    pub reliable: bool,
}

impl MessageModel {
    pub open spec fn total(self) -> nat {
        fragment_total(self.payload.len())
    }
}

impl EndpointModel {
    /// The state once the first `n` fragments of a message have been made into packets.
    pub open spec fn sent_fragments(self, msg: MessageModel, now: u64, n: nat) -> EndpointModel
        decreases n,
    {
        if n == 0 {
            self
        } else {
            let m = self.sent_fragments(msg, now, (n - 1) as nat);
            m.sent(msg.channel, msg.reliable, m.fragment_packet(msg, n - 1), now)
        }
    }

    /// The packet for fragment `i` of a message, made in this state.
    pub open spec fn fragment_packet(self, msg: MessageModel, i: int) -> Seq<u8> {
        self.data_packet(
            self.keys->0,
            msg.channel,
            fragment_of(msg.payload, i),
            msg.frame_id,
            i as u16,
            msg.total() as u16,
            msg.reliable,
            msg.keyframe,
        )
    }

    /// How many packets are in flight, payloads held back, and frames in the making.
    pub open spec fn waiting(self) -> (nat, nat, nat) {
        (
            self.reliable_out.dom().len(),
            self.inbox.hold.dom().len(),
            self.video.frames.dom().len(),
        )
    }

    /// The endpoint with `peer` as the one to talk to.
    pub open spec fn facing(self, peer: PeerAddr) -> EndpointModel {
        EndpointModel { peer: Some(peer), ..self }
    }

    /// The endpoint once all that is due at `now` was sent again.
    pub open spec fn resent(self, now: u64) -> EndpointModel {
        EndpointModel { reliable_out: all_passed(self.reliable_out, now), ..self }
    }

    /// Whether a message of `len` bytes can be sent: its fragments can be numbered and no
    /// counter runs over. Without a session there is nothing to number.
    pub open spec fn can_send(self, len: nat) -> bool {
        self.peer is Some && self.keys is Some ==> {
            &&& fragment_total(len) <= u16::MAX
            &&& self.crypto_nonce + fragment_total(len) <= u64::MAX
            &&& self.sent_packets + fragment_total(len) <= u32::MAX
        }
    }

    /// Packet `i` of a message that is sent from this state on.
    pub open spec fn message_packet(self, msg: MessageModel, now: u64, i: int) -> Seq<u8> {
        self.sent_fragments(msg, now, i as nat).fragment_packet(msg, i)
    }

    /// All packets of a message that is sent from this state on.
    pub open spec fn message_packets(self, msg: MessageModel, now: u64) -> Seq<Seq<u8>> {
        Seq::new(msg.total(), |i: int| self.message_packet(msg, now, i))
    }
}

pub struct BudEndpoint {
    is_host: bool,
    pin: String,
    keys: Option<SessionKeys>,
    handshake: Handshake,
    peer: Option<PeerAddr>,
    established: bool,
    send_seq: u32,
    crypto_nonce: u64,
    reliable_next: [u32; 4],
    reliable_out: Outbox,
    inbox: Inbox,
    acked: u32,
    video: VideoAssembler,
    sent_packets: u32,
    lost_packets: u32,
    epoch: u8,
    decrypt_fails: u32,
    last_idr_req: Option<u64>,
}

/// The view of optional keys.
pub open spec fn keys_view(k: Option<SessionKeys>) -> Option<Seq<u8>> {
    match k {
        Some(k) => Some(k@),
        None => None,
    }
}

impl View for BudEndpoint {
    type V = EndpointModel;

    closed spec fn view(&self) -> EndpointModel {
        EndpointModel {
            is_host: self.is_host,
            pin: self.pin@,
            keys: keys_view(self.keys),
            handshake: self.handshake@,
            peer: self.peer,
            established: self.established,
            send_seq: self.send_seq,
            crypto_nonce: self.crypto_nonce,
            reliable_next: self.reliable_next@,
            reliable_out: self.reliable_out@,
            inbox: self.inbox@,
            acked: self.acked,
            video: self.video@,
            sent_packets: self.sent_packets,
            lost_packets: self.lost_packets,
            epoch: self.epoch,
            decrypt_fails: self.decrypt_fails,
            last_idr_req: self.last_idr_req,
        }
    }
}

fn wrap_next(n: u32) -> (r: u32)
    ensures
        r == after(n),
{
    if n == u32::MAX {
        0
    } else {
        n + 1
    }
}

fn max_u32(a: u32, b: u32) -> (r: u32)
    ensures
        r == larger(a, b),
{
    if a >= b {
        a
    } else {
        b
    }
}

/// Lays out a packet: header, packet number, sealed bytes.
pub fn frame_packet(header: &[u8], number: u64, sealed: &[u8]) -> (r: Vec<u8>)
    requires
        header@.len() == HEADER_LEN,
    ensures
        r@ == header@ + le_bytes(number as nat, 8) + sealed@,
        r@.len() == SEALED_AT + sealed@.len(),
        r@.take(HEADER_LEN as int) == header@,
        packet_number(r@) == number,
        r@.skip(SEALED_AT as int) == sealed@,
{
    let mut packet: Vec<u8> = Vec::new();
    push_all(&mut packet, header);
    push_le(&mut packet, number, 8);
    push_all(&mut packet, sealed);
    proof {
        crate::bytes::lemma_le_bytes_len(number as nat, 8);
        crate::bytes::lemma_le_range_values();
        crate::bytes::lemma_le_roundtrip(number as nat, 8);
        assert(packet@ =~= header@ + le_bytes(number as nat, 8) + sealed@);
        assert(packet@.take(HEADER_LEN as int) =~= header@);
        assert(packet@.subrange(20, 28) =~= le_bytes(number as nat, 8));
        assert(packet@.skip(28) =~= sealed@);
    }
    packet
}

/// A packet of header, number and sealed contents. Whoever holds the key can open it.
fn seal_packet(keys: &SessionKeys, header: &[u8], number: u64, plain: &[u8]) -> (r: Option<Vec<u8>>)
    requires
        header@.len() == HEADER_LEN,
        sealable(plain@.len()),
    ensures
        match r {
            Some(p) => {
                &&& plain@.len() <= CIPHER_LIMIT
                &&& p@ == sealed_packet(keys@, header@, number, plain@)
                &&& p@.len() == SEALED_AT + plain@.len() + TAG_LEN
                &&& p@.take(HEADER_LEN as int) == header@
                &&& packet_number(p@) == number
                &&& packet_opens(keys@, p@) == Some(plain@)
            },
            None => plain@.len() > CIPHER_LIMIT,
        },
{
    match keys.seal(number, header, plain) {
        Ok(ct) => Some(frame_packet(header, number, ct.as_slice())),
        Err(_) => None,
    }
}

impl BudEndpoint {
    /// An endpoint with a fresh handshake.
    pub fn new(cfg: BudConfig) -> (r: BudEndpoint)
        ensures
            exists|h: HandshakeModel|
                #[trigger] h.wf() && r@ == EndpointModel::start(cfg.is_host, cfg.pin@, h),
    {
        let handshake = Handshake::new();
        assert(handshake@.wf());
        BudEndpoint::with_handshake(cfg, handshake)
    }

    /// An endpoint with a given handshake.
    pub fn with_handshake(cfg: BudConfig, handshake: Handshake) -> (r: BudEndpoint)
        ensures
            r@ == EndpointModel::start(cfg.is_host, cfg.pin@, handshake@),
    {
        let r = BudEndpoint {
            is_host: cfg.is_host,
            pin: cfg.pin,
            keys: None,
            handshake,
            peer: None,
            established: false,
            send_seq: 1,
            crypto_nonce: if cfg.is_host {
                HOST_FIRST_NONCE
            } else {
                CLIENT_FIRST_NONCE
            },
            reliable_next: [1, 1, 1, 1],
            reliable_out: Outbox::new(),
            inbox: Inbox::new(),
            acked: 0,
            video: VideoAssembler::new(),
            sent_packets: 0,
            lost_packets: 0,
            epoch: 0,
            decrypt_fails: 0,
            last_idr_req: None,
        };
        assert(r@ =~= EndpointModel::start(cfg.is_host, cfg.pin@, handshake@));
        r
    }

    pub fn is_established(&self) -> (r: bool)
        ensures
            r == self@.established,
    {
        self.established
    }

    pub fn is_host(&self) -> (r: bool)
        ensures
            r == self@.is_host,
    {
        self.is_host
    }

    /// Whether a datagram may be handled or sent: no counter is about to run over.
    pub fn has_room(&self) -> (r: bool)
        ensures
            r == (self@.crypto_nonce < u64::MAX && self@.sent_packets < u32::MAX
                && self@.lost_packets < u32::MAX),
    {
        self.crypto_nonce < u64::MAX && self.sent_packets < u32::MAX && self.lost_packets
            < u32::MAX
    }

    /// Whether a message of `len` bytes can be sent.
    pub fn can_send(&self, len: usize) -> (r: bool)
        ensures
            r == self@.can_send(len as nat),
    {
        if self.peer.is_none() || self.keys.is_none() {
            return true;
        }
        let count: usize = fragment_count(len);
        count <= u16::MAX as usize && self.crypto_nonce <= u64::MAX - count as u64
            && self.sent_packets <= u32::MAX - count as u32
    }

    /// Whether overdue frames may be given up without the loss counter running over.
    pub fn has_loss_room(&self) -> (r: bool)
        ensures
            r == (self@.lost_packets + self@.video.frames.dom().len() <= u32::MAX),
    {
        let partial: usize = self.video.partial();
        partial <= u32::MAX as usize && self.lost_packets as u64 + partial as u64
            <= u32::MAX as u64
    }

    /// Packets in flight, payloads held back, and frames in the making.
    pub fn queue_lengths(&self) -> (r: (usize, usize, usize))
        ensures
            r.0 == self@.reliable_out.dom().len(),
            r.1 == self@.inbox.hold.dom().len(),
            r.2 == self@.video.frames.dom().len(),
            (r.0 as nat, r.1 as nat, r.2 as nat) == self@.waiting(),
    {
        (self.reliable_out.len(), self.inbox.held(), self.video.partial())
    }

    /// Takes `peer` as the one to talk to. Gives the hello to send it.
    pub fn connect(&mut self, peer: PeerAddr) -> (r: Vec<u8>)
        ensures
            final(self)@ == (EndpointModel { peer: Some(peer), ..old(self)@ }),
            final(self)@ == old(self)@.facing(peer),
            r@ == old(self)@.hello(),
            r@.len() == HELLO_LEN,
            old(self)@.handshake.wf(),
    {
        self.peer = Some(peer);
        assert(self@ =~= (EndpointModel { peer: Some(peer), ..old(self)@ }));
        self.hello_packet()
    }

    fn hello_packet(&self) -> (r: Vec<u8>)
        ensures
            r@ == self@.hello(),
            r@.len() == HELLO_LEN,
            self@.handshake.wf(),
    {
        let header = PacketHeader {
            ty: if self.is_host {
                PacketType::HelloAck
            } else {
                PacketType::Hello
            },
            channel: Channel::Control,
            flags: 0,
            seq: 0,
            frame_id: 0,
            frag_idx: 0,
            frag_count: 1,
        };
        let mut buf: Vec<u8> = Vec::new();
        push_all(&mut buf, header.encode_epoch(self.epoch).as_slice());
        push_all(&mut buf, self.handshake.offer().as_slice());
        assert(buf@ =~= self@.hello());
        buf
    }

    /// Makes one data packet and says where to send it. Fails without a peer or a
    /// session, and where the cipher turns the chunk down; the numbers it took are used
    /// up all the same then. A peer in the same session opens the packet to what went
    /// in.
    pub fn send_one(
        &mut self,
        channel: Channel,
        chunk: &[u8],
        frame_id: u32,
        frag_idx: u16,
        frag_count: u16,
        reliable: bool,
        keyframe: bool,
        now: u64,
    ) -> (r: Result<(PeerAddr, Vec<u8>), SendError>)
        requires
            frag_idx < u16::MAX,
            sealable(chunk@.len()),
            old(self)@.crypto_nonce < u64::MAX,
            old(self)@.sent_packets < u32::MAX,
        ensures
            match r {
                Err(SendError::NoPeer) => old(self)@.peer is None && final(self)@ == old(self)@,
                Err(SendError::NotEstablished) => old(self)@.peer is Some && old(self)@.keys is None
                    && final(self)@ == old(self)@,
                Err(SendError::Encrypt) => {
                    &&& old(self)@.peer is Some && old(self)@.keys is Some
                    &&& chunk@.len() > CIPHER_LIMIT
                    &&& final(self)@ == old(self)@.numbered(channel, reliable)
                },
                Ok((peer, packet)) => {
                    let m = old(self)@;
                    let header = m.data_header(
                        channel,
                        frame_id,
                        frag_idx,
                        frag_count,
                        reliable,
                        keyframe,
                    );
                    &&& m.peer == Some(peer) && m.keys is Some
                    &&& chunk@.len() <= CIPHER_LIMIT
                    &&& packet@ == m.data_packet(
                        m.keys->0,
                        channel,
                        chunk@,
                        frame_id,
                        frag_idx,
                        frag_count,
                        reliable,
                        keyframe,
                    )
                    &&& packet@.len() == SEALED_AT + chunk@.len() + TAG_LEN
                    &&& final(self)@ == m.sent(channel, reliable, packet@, now)
                    &&& PacketHeader::parse(packet@) == Some(header)
                    &&& forall|peer: EndpointModel|
                        peer.keys == m.keys && !peer.stale(m.epoch) ==> #[trigger] peer.opened(
                            packet@,
                        ) == Some(chunk@)
                },
            },
    {
        let peer = match self.peer {
            Some(p) => p,
            None => {
                return Err(SendError::NoPeer);
            },
        };
        let keys = match self.keys {
            Some(k) => k,
            None => {
                return Err(SendError::NotEstablished);
            },
        };
        let mut flags: u8 = 0;
        if reliable {
            flags = flags + FLAG_RELIABLE;
        }
        if keyframe {
            flags = flags + FLAG_KEYFRAME;
        }
        if frag_idx + 1 == frag_count {
            flags = flags + FLAG_FIN;
        }
        let seq: u32 = if reliable {
            let i: usize = channel.idx();
            let s: u32 = self.reliable_next[i];
            self.reliable_next[i] = wrap_next(s);
            s
        } else {
            let s: u32 = self.send_seq;
            self.send_seq = wrap_next(s);
            s
        };
        let header = PacketHeader {
            ty: PacketType::Data,
            channel,
            flags,
            seq,
            frame_id,
            frag_idx,
            frag_count,
        };
        assert(header == old(self)@.data_header(
            channel,
            frame_id,
            frag_idx,
            frag_count,
            reliable,
            keyframe,
        ));
        let number: u64 = self.crypto_nonce;
        self.crypto_nonce = number + 1;
        assert(self@ =~= old(self)@.numbered(channel, reliable));
        let header_bytes = header.encode_epoch(self.epoch);
        let packet = match seal_packet(&keys, header_bytes.as_slice(), number, chunk) {
            Some(p) => p,
            None => {
                return Err(SendError::Encrypt);
            },
        };
        if reliable {
            let copy = copy_range(packet.as_slice(), 0, packet.len());
            assert(copy@ =~= packet@);
            self.reliable_out.keep(channel.to_u8(), seq, copy, now);
        }
        self.sent_packets = self.sent_packets + 1;
        proof {
            assert(self@ =~= old(self)@.sent(channel, reliable, packet@, now));
            let rest = packet@.skip(HEADER_LEN as int);
            crate::packet::header_reads_back(header, self.epoch, rest);
            assert(packet@ =~= header.wire(self.epoch) + rest);
        }
        Ok((peer, packet))
    }

    /// Decrypts a data packet and acknowledges it if it is reliable.
    fn on_data(&mut self, buf: &[u8], header: PacketHeader) -> (r: Reaction)
        requires
            PacketHeader::parse(buf@) == Some(header),
            buf@.len() <= SEALED_AT + MAX_SEALED + TAG_LEN,
            old(self)@.crypto_nonce < u64::MAX,
        ensures
            (final(self)@, r@) == old(self)@.on_data(buf@, header),
            r matches Reaction::Opened { ack: Some(a), .. } ==> a@.len() == SEALED_AT + TAG_LEN,
    {
        let ghost m = self@;
        if buf.len() < SEALED_AT {
            return Reaction::Ignored;
        }
        let epoch: u8 = buf[EPOCH_AT];
        if self.epoch != 0 && epoch != 0 && epoch != self.epoch {
            // Previous session still in the network / retransmit queue.
            return Reaction::Ignored;
        }
        let keys = match self.keys {
            Some(k) => k,
            None => {
                return Reaction::Ignored;
            },
        };
        proof {
            crate::bytes::lemma_le_range_values();
        }
        let number: u64 = read_le(buf, HEADER_LEN, 8);
        let aad = slice_subrange(buf, 0, HEADER_LEN);
        let sealed = slice_subrange(buf, SEALED_AT, buf.len());
        assert(aad@ =~= buf@.take(20));
        assert(sealed@ =~= buf@.skip(28));
        match keys.open(number, aad, sealed) {
            Ok(plain) => {
                let mut ack: Option<Vec<u8>> = None;
                if flag_set(header.flags, FLAG_RELIABLE) {
                    let ack_bytes = PacketHeader {
                        ty: PacketType::Ack,
                        channel: header.channel,
                        flags: 0,
                        seq: header.seq,
                        frame_id: 0,
                        frag_idx: 0,
                        frag_count: 1,
                    }.encode();
                    let nothing: Vec<u8> = Vec::new();
                    let used: u64 = self.crypto_nonce;
                    self.crypto_nonce = used + 1;
                    ack = seal_packet(&keys, ack_bytes.as_slice(), used, nothing.as_slice());
                    assert(nothing@ =~= Seq::<u8>::empty());
                    assert(self@ =~= m.on_data(buf@, header).0);
                }
                Reaction::Opened { ack, data: OpenedData { header, plain } }
            },
            Err(_) => {
                if self.decrypt_fails < u32::MAX {
                    self.decrypt_fails = self.decrypt_fails + 1;
                }
                assert(self@ =~= m.on_data(buf@, header).0);
                Reaction::Ignored
            },
        }
    }

    /// Hands an opened packet on. Gives what comes out of it, in order.
    pub fn deliver(&mut self, data: OpenedData, now: u64) -> (r: Vec<Incoming>)
        ensures
            (final(self)@, incoming_views(r@)) == old(self)@.delivered(
                data.header,
                data.plain@,
                now,
            ),
    {
        let ghost m = self@;
        let header = data.header;
        let plain = data.plain;
        let ghost expected = m.delivered(header, plain@, now);
        let kf = flag_set(header.flags, FLAG_KEYFRAME);
        let mut out: Vec<Incoming> = Vec::new();
        if header.channel == Channel::Video {
            let done = self.video.accept(
                header.frame_id,
                header.frag_idx,
                header.frag_count,
                kf,
                plain,
                now,
            );
            if let Some((payload, keyframe)) = done {
                out.push(
                    Incoming::Datagram {
                        channel: Channel::Video,
                        payload,
                        frame_id: header.frame_id,
                        keyframe,
                    },
                );
            }
            assert(self@ =~= expected.0);
            assert(incoming_views(out@) =~= expected.1);
            return out;
        }
        if flag_set(header.flags, FLAG_RELIABLE) {
            let mut ready = self.inbox.accept(header.channel, header.seq, plain);
            assert(self@ =~= expected.0);
            let ghost all = byte_views(ready@);
            let ghost wrap = |payload: Seq<u8>| datagram_of(header, payload, kf);
            assert(expected.1 =~= all.map_values(wrap));
            assert(incoming_views(out@) =~= all.map_values(wrap).take(0));
            while ready.len() > 0
                invariant
                    out@.len() + ready@.len() == all.len(),
                    byte_views(ready@) == all.skip(out@.len() as int),
                    incoming_views(out@) == all.map_values(wrap).take(out@.len() as int),
                    wrap == |payload: Seq<u8>| datagram_of(header, payload, kf),
                decreases ready@.len(),
            {
                let ghost rest = ready@;
                let ghost had = out@;
                let payload = ready.remove(0);
                proof {
                    assert(byte_views(rest)[0] == payload@);
                    assert(all.skip(had.len() as int)[0] == all[had.len() as int]);
                    assert(byte_views(ready@) =~= byte_views(rest).skip(1));
                }
                out.push(
                    Incoming::Datagram {
                        channel: header.channel,
                        payload,
                        frame_id: header.frame_id,
                        keyframe: kf,
                    },
                );
                proof {
                    assert(byte_views(ready@) =~= all.skip(out@.len() as int));
                    assert(incoming_views(out@) =~= incoming_views(had).push(wrap(payload@)));
                    assert(incoming_views(out@) =~= all.map_values(wrap).take(out@.len() as int));
                }
            }
            assert(all.map_values(wrap).take(out@.len() as int) =~= all.map_values(wrap));
            return out;
        }
        out.push(
            Incoming::Datagram {
                channel: header.channel,
                payload: plain,
                frame_id: header.frame_id,
                keyframe: false,
            },
        );
        assert(incoming_views(out@) =~= expected.1);
        out
    }

    /// Forgets the last session. Packet numbers start over.
    fn reset_transport(&mut self, as_host: bool)
        ensures
            final(self)@ == old(self)@.reset(as_host),
    {
        self.reliable_out.clear();
        self.inbox.clear();
        self.video.clear();
        self.send_seq = 1;
        self.reliable_next = [1, 1, 1, 1];
        self.acked = 0;
        self.sent_packets = 0;
        self.lost_packets = 0;
        self.crypto_nonce = if as_host {
            HOST_FIRST_NONCE
        } else {
            CLIENT_FIRST_NONCE
        };
        self.decrypt_fails = 0;
        self.last_idr_req = None;
        self.keys = None;
        assert(self@ =~= old(self)@.reset(as_host));
    }

    /// Derives the session keys with the peer whose hello this is.
    fn establish(&mut self, buf: &[u8], from: PeerAddr)
        requires
            buf@.len() >= HELLO_LEN,
        ensures
            final(self)@ == (EndpointModel {
                peer: Some(from),
                keys: Some(
                    old(self)@.handshake.derived(
                        buf@.subrange(20, 52),
                        buf@.subrange(52, 68),
                        old(self)@.pin,
                    ),
                ),
                established: true,
                ..old(self)@
            }),
            old(self)@.handshake.wf(),
            forall|h: HandshakeModel|
                h.wf() && h.public == buf@.subrange(20, 52) && h.nonce == buf@.subrange(52, 68)
                    ==> final(self)@.keys == Some(
                    #[trigger] h.derived(
                        old(self)@.handshake.public,
                        old(self)@.handshake.nonce,
                        old(self)@.pin,
                    ),
                ),
    {
        let pk = array_32(buf, HEADER_LEN);
        let nonce = array_16(buf, 52);
        self.peer = Some(from);
        self.keys = Some(self.handshake.derive(&pk, &nonce, self.pin.as_str()));
        self.established = true;
        assert(self@ =~= (EndpointModel {
            peer: Some(from),
            keys: self@.keys,
            established: true,
            ..old(self)@
        }));
    }

    /// A client's hello reaches a host: the host starts over with `fresh` and answers
    /// with its own hello. The client can derive the same keys from the answer.
    pub fn on_client_hello(&mut self, buf: &[u8], from: PeerAddr, fresh: Handshake) -> (r: Reaction)
        requires
            old(self)@.is_host,
        ensures
            (final(self)@, r@) == old(self)@.on_hello(buf@, PacketType::Hello, from, fresh@),
            r matches Reaction::Hello { reply: Some(p), .. } ==> p@.len() == HELLO_LEN,
            buf@.len() >= HELLO_LEN ==> forall|h: HandshakeModel|
                h.wf() && h.public == buf@.subrange(20, 52) && h.nonce == buf@.subrange(52, 68)
                    ==> final(self)@.keys == Some(
                    #[trigger] h.derived(
                        final(self)@.handshake.public,
                        final(self)@.handshake.nonce,
                        final(self)@.pin,
                    ),
                ),
    {
        let ghost m = self@;
        if buf.len() < HELLO_LEN {
            return Reaction::Ignored;
        }
        // New client (or reconnect): drop in-flight packets encrypted under the old key.
        self.handshake = fresh;
        self.epoch = if self.epoch == 255 {
            1
        } else {
            self.epoch + 1
        };
        assert(self@ =~= (EndpointModel { handshake: fresh@, epoch: m.next_epoch(), ..m }));
        self.reset_transport(true);
        self.establish(buf, from);
        let reply = self.hello_packet();
        Reaction::Hello { reply: Some(reply), established: true }
    }

    /// Any other hello: a host's answer, or a client's hello that reaches a client.
    fn on_other_hello(&mut self, buf: &[u8], header: PacketHeader, from: PeerAddr) -> (r: Reaction)
        requires
            header.ty == PacketType::HelloAck || (header.ty == PacketType::Hello
                && !old(self)@.is_host),
            buf@.len() >= HEADER_LEN,
        ensures
            forall|fresh: HandshakeModel|
                (final(self)@, r@) == #[trigger] old(self)@.on_hello(
                    buf@,
                    header.ty,
                    from,
                    fresh,
                ),
            match r {
                Reaction::Hello { reply, .. } => reply is None,
                _ => r is Ignored,
            },
    {
        let ghost m = self@;
        if buf.len() < HELLO_LEN {
            return Reaction::Ignored;
        }
        let was = self.established;
        let hello = header.ty == PacketType::Hello;
        if !hello {
            let epoch: u8 = buf[EPOCH_AT];
            self.epoch = if epoch == 0 {
                1
            } else {
                epoch
            };
            assert(self@ =~= (EndpointModel { epoch: self.epoch, ..m }));
            self.reset_transport(false);
        }
        self.establish(buf, from);
        Reaction::Hello { reply: None, established: hello || !was }
    }

    fn on_ack(&mut self, header: PacketHeader, now: u64) -> (r: Reaction)
        ensures
            (final(self)@, r@) == old(self)@.on_ack(header, now),
    {
        self.acked = max_u32(self.acked, header.seq);
        let rtt_us = self.reliable_out.acknowledge(header.channel.to_u8(), header.seq, now);
        assert(self@ =~= old(self)@.on_ack(header, now).0);
        Reaction::Acked { rtt_us }
    }

    /// Whether a keyframe request at `now` goes through. One that does holds others
    /// back for a while.
    fn push_idr(&mut self, now: u64) -> (r: bool)
        ensures
            r == old(self)@.idr_allowed(now),
            final(self)@ == old(self)@.idr_requested(now),
    {
        if let Some(prev) = self.last_idr_req {
            if elapsed_since(prev, now) < IDR_DEBOUNCE_NS {
                return false;
            }
        }
        self.last_idr_req = Some(now);
        assert(self@ =~= old(self)@.idr_requested(now));
        true
    }

    fn on_nack(&mut self, now: u64) -> (r: Reaction)
        requires
            old(self)@.lost_packets < u32::MAX,
        ensures
            (final(self)@, r@) == old(self)@.on_nack(now),
    {
        self.lost_packets = self.lost_packets + 1;
        assert(self@ =~= (EndpointModel {
            lost_packets: (old(self)@.lost_packets + 1) as u32,
            ..old(self)@
        }));
        let lost: u32 = self.lost_packets;
        let sent: u32 = max_u32(self.sent_packets, 1);
        let need_idr = self.push_idr(now);
        Reaction::Lost { lost, sent, need_idr }
    }

    /// What a datagram from `from` calls for. A client's hello makes a host draw a
    /// fresh handshake, and the client can derive the host's keys from it; everything else
    /// is determined.
    pub fn handle_datagram(&mut self, buf: &[u8], from: PeerAddr, now: u64) -> (r: Reaction)
        requires
            buf@.len() <= SEALED_AT + MAX_SEALED + TAG_LEN,
            old(self)@.crypto_nonce < u64::MAX,
            old(self)@.lost_packets < u32::MAX,
        ensures
            if old(self)@.is_host && is_hello(buf@) {
                exists|fresh: HandshakeModel| #[trigger]
                    fresh.wf() && (final(self)@, r@) == old(self)@.handled(buf@, from, now, fresh)
            } else {
                forall|fresh: HandshakeModel|
                    (final(self)@, r@) == #[trigger] old(self)@.handled(buf@, from, now, fresh)
            },
            match r {
                Reaction::Hello { reply: Some(p), .. } => p@.len() == HELLO_LEN,
                Reaction::Opened { ack: Some(a), .. } => a@.len() == SEALED_AT + TAG_LEN,
                _ => true,
            },
            old(self)@.is_host && is_hello(buf@) ==> forall|h: HandshakeModel|
                h.wf() && h.public == buf@.subrange(20, 52) && h.nonce == buf@.subrange(52, 68)
                    ==> final(self)@.keys == Some(
                    #[trigger] h.derived(
                        final(self)@.handshake.public,
                        final(self)@.handshake.nonce,
                        final(self)@.pin,
                    ),
                ),
    {
        let header = match PacketHeader::decode(buf) {
            Some(h) => h,
            None => {
                return Reaction::Ignored;
            },
        };
        match header.ty {
            PacketType::Hello => if self.is_host && buf.len() >= HELLO_LEN {
                let fresh = Handshake::new();
                assert(fresh@.wf());
                self.on_client_hello(buf, from, fresh)
            } else if self.is_host {
                Reaction::Ignored
            } else {
                self.on_other_hello(buf, header, from)
            },
            PacketType::HelloAck => self.on_other_hello(buf, header, from),
            PacketType::Ack => self.on_ack(header, now),
            PacketType::Nack => self.on_nack(now),
            PacketType::Data => self.on_data(buf, header),
        }
    }

    /// Makes the packets of a whole message, one per fragment, and says where to send
    /// them. Reliability is explicit: mouse moves must be unreliable, a lost packet must
    /// not stall later clicks behind in-order numbers.
    pub fn send_with(
        &mut self,
        channel: Channel,
        payload: &[u8],
        frame_id: u32,
        keyframe: bool,
        reliable: bool,
        now: u64,
    ) -> (r: Result<(PeerAddr, Vec<Vec<u8>>), SendError>)
        requires
            old(self)@.can_send(payload@.len()),
        ensures
            match r {
                Err(e) => {
                    &&& final(self)@ == old(self)@
                    &&& e == SendError::NoPeer ==> old(self)@.peer is None
                    &&& e == SendError::NotEstablished ==> old(self)@.peer is Some
                        && old(self)@.keys is None
                    &&& e != SendError::Encrypt
                },
                Ok((peer, packets)) => {
                    let m = old(self)@;
                    let message = MessageModel {
                        channel,
                        payload: payload@,
                        frame_id,
                        keyframe,
                        reliable,
                    };
                    &&& m.peer == Some(peer) && m.keys is Some
                    &&& byte_views(packets@) == m.message_packets(message, now)
                    &&& final(self)@ == m.sent_fragments(message, now, message.total())
                    &&& forall|i: int|
                        0 <= i < packets@.len() ==> (#[trigger] packets@[i])@.len() == SEALED_AT
                            + fragment_of(payload@, i).len() + TAG_LEN
                    &&& forall|i: int|
                        0 <= i < packets@.len() ==> (#[trigger] packets@[i])@.len() <= MTU
                    &&& m.kept_fit() ==> final(self)@.kept_fit()
                    &&& forall|i: int, peer: EndpointModel|
                        0 <= i < packets@.len() && peer.keys == m.keys && !peer.stale(m.epoch)
                            ==> #[trigger] peer.opened(packets@[i]@) == Some(
                            fragment_of(payload@, i),
                        )
                },
            },
    {
        let ghost m = self@;
        let ghost message = MessageModel { channel, payload: payload@, frame_id, keyframe, reliable };
        let ghost total = message.total();
        let peer = match self.peer {
            Some(p) => p,
            None => {
                return Err(SendError::NoPeer);
            },
        };
        if self.keys.is_none() {
            return Err(SendError::NotEstablished);
        }
        let frags = fragment(payload);
        let mut packets: Vec<Vec<u8>> = Vec::new();
        let mut i: usize = 0;
        proof {
            crate::packet::fragments_rejoin(payload@);
        }
        while i < frags.len()
            invariant
                i <= frags@.len(),
                frags@.len() == total,
                total == message.total(),
                total <= u16::MAX,
                message == (MessageModel {
                    channel,
                    payload: payload@,
                    frame_id,
                    keyframe,
                    reliable,
                }),
                forall|j: int|
                    #![trigger frags@[j]]
                    0 <= j < frags@.len() ==> frags@[j].0 == j as u16 && frags@[j].1
                        == total as u16 && frags@[j].2@ == fragment_of(payload@, j),
                forall|j: int| 0 <= j < total ==> (#[trigger] fragment_of(payload@, j)).len()
                    <= crate::packet::MAX_PAYLOAD,
                self@ == m.sent_fragments(message, now, i as nat),
                self@.peer == m.peer,
                self@.keys == m.keys,
                self@.epoch == m.epoch,
                m.peer is Some,
                m.keys is Some,
                self@.crypto_nonce == m.crypto_nonce + i,
                self@.sent_packets == m.sent_packets + i,
                m.crypto_nonce + total <= u64::MAX,
                m.sent_packets + total <= u32::MAX,
                packets@.len() == i,
                forall|j: int|
                    0 <= j < i ==> (#[trigger] packets@[j])@ == m.message_packet(message, now, j),
                forall|j: int|
                    0 <= j < i ==> (#[trigger] packets@[j])@.len() == SEALED_AT + fragment_of(
                        payload@,
                        j,
                    ).len() + TAG_LEN && packets@[j]@.len() <= MTU,
                m.kept_fit() ==> self@.kept_fit(),
                forall|j: int, peer: EndpointModel|
                    0 <= j < i && peer.keys == m.keys && !peer.stale(m.epoch)
                        ==> #[trigger] peer.opened(packets@[j]@) == Some(fragment_of(payload@, j)),
            decreases frags@.len() - i,
        {
            let (idx, count, chunk) = frags[i];
            assert(frags@[i as int].0 == i as u16);
            assert(fragment_of(payload@, i as int).len() <= crate::packet::MAX_PAYLOAD);
            match self.send_one(channel, chunk, frame_id, idx, count, reliable, keyframe, now) {
                Ok((_, packet)) => {
                    packets.push(packet);
                },
                Err(_) => {},
            }
            i = i + 1;
        }
        assert(byte_views(packets@) =~= m.message_packets(message, now));
        Ok((peer, packets))
    }

    /// Makes the packets of a whole message: reliable on the reliable channels, and for
    /// keyframes of the video.
    pub fn send(
        &mut self,
        channel: Channel,
        payload: &[u8],
        frame_id: u32,
        keyframe: bool,
        now: u64,
    ) -> (r: Result<(PeerAddr, Vec<Vec<u8>>), SendError>)
        requires
            old(self)@.can_send(payload@.len()),
        ensures
            match r {
                Err(e) => {
                    &&& final(self)@ == old(self)@
                    &&& e == SendError::NoPeer ==> old(self)@.peer is None
                    &&& e == SendError::NotEstablished ==> old(self)@.peer is Some
                        && old(self)@.keys is None
                    &&& e != SendError::Encrypt
                },
                Ok((peer, packets)) => {
                    let m = old(self)@;
                    let message = MessageModel {
                        channel,
                        payload: payload@,
                        frame_id,
                        keyframe,
                        reliable: sent_reliably(channel, keyframe),
                    };
                    &&& m.peer == Some(peer) && m.keys is Some
                    &&& byte_views(packets@) == m.message_packets(message, now)
                    &&& final(self)@ == m.sent_fragments(message, now, message.total())
                    &&& forall|i: int|
                        0 <= i < packets@.len() ==> (#[trigger] packets@[i])@.len() == SEALED_AT
                            + fragment_of(payload@, i).len() + TAG_LEN
                    &&& forall|i: int|
                        0 <= i < packets@.len() ==> (#[trigger] packets@[i])@.len() <= MTU
                    &&& m.kept_fit() ==> final(self)@.kept_fit()
                    &&& forall|i: int, peer: EndpointModel|
                        0 <= i < packets@.len() && peer.keys == m.keys && !peer.stale(m.epoch)
                            ==> #[trigger] peer.opened(packets@[i]@) == Some(
                            fragment_of(payload@, i),
                        )
                },
            },
    {
        self.send_with(channel, payload, frame_id, keyframe, is_reliable(channel, keyframe), now)
    }

    /// The reliable packets due again at `now`, in order, and where to send them.
    pub fn retransmit(&mut self, now: u64) -> (r: Option<(PeerAddr, Vec<Vec<u8>>)>)
        ensures
            match r {
                None => old(self)@.peer is None && final(self)@ == old(self)@,
                Some((peer, packets)) => {
                    &&& old(self)@.peer == Some(peer)
                    &&& lists_due(old(self)@.reliable_out, now, byte_views(packets@))
                    &&& final(self)@ == (EndpointModel {
                        reliable_out: all_passed(old(self)@.reliable_out, now),
                        ..old(self)@
                    })
                    &&& final(self)@ == old(self)@.resent(now)
                },
            },
    {
        let peer = match self.peer {
            Some(p) => p,
            None => {
                return None;
            },
        };
        let packets = self.reliable_out.take_due(now);
        assert(self@ =~= (EndpointModel {
            reliable_out: all_passed(old(self)@.reliable_out, now),
            ..old(self)@
        }));
        Some((peer, packets))
    }

    /// Gives up overdue frames at `now`. If there were any, says how many packets are
    /// lost and sent by now, and whether a keyframe is to be asked for.
    pub fn expire_video(&mut self, now: u64) -> (r: Option<(u32, u32, bool)>)
        requires
            old(self)@.lost_packets + old(self)@.video.frames.dom().len() <= u32::MAX,
        ensures
            (final(self)@, r) == old(self)@.video_expired(now),
    {
        let ghost m = self@;
        let lost: usize = self.video.expire(now);
        self.lost_packets = self.lost_packets + lost as u32;
        assert(self@ =~= (EndpointModel {
            video: m.video.pruned(now),
            lost_packets: (m.lost_packets + m.video.given_up(now).len()) as u32,
            ..m
        }));
        if lost == 0 {
            return None;
        }
        let lost_now: u32 = self.lost_packets;
        let sent: u32 = max_u32(self.sent_packets, 1);
        let need_idr = self.push_idr(now);
        Some((lost_now, sent, need_idr))
    }
}

} // verus!
