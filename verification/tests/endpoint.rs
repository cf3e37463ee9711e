use lansec::endpoint::{BudConfig, BudEndpoint, Incoming, PeerAddr, Reaction, SendError};
use lansec::messages::Channel;
use lansec::packet::{PacketHeader, PacketType, MTU};

const MS: u64 = 1_000_000;

fn addr(port: u16) -> PeerAddr {
    PeerAddr::V4 { ip: 0x7f00_0001, port }
}

/// An endpoint, its address, and the datagrams on their way to it.
struct Node {
    ep: BudEndpoint,
    addr: PeerAddr,
    wire: Vec<(PeerAddr, Vec<u8>)>,
    got: Vec<Incoming>,
}

impl Node {
    fn new(is_host: bool, port: u16) -> Node {
        let cfg = BudConfig { bind: addr(port), pin: "4242".to_string(), is_host };
        Node { ep: BudEndpoint::new(cfg), addr: addr(port), wire: Vec::new(), got: Vec::new() }
    }

    /// Handles everything on the wire. Gives the datagrams to send, and where to.
    fn poll(&mut self, now: u64) -> Vec<(PeerAddr, Vec<u8>)> {
        let mut out = Vec::new();
        for (from, bytes) in std::mem::take(&mut self.wire) {
            assert!(self.ep.has_room());
            match self.ep.handle_datagram(&bytes, from, now) {
                Reaction::Hello { reply, established } => {
                    if let Some(r) = reply {
                        out.push((from, r));
                    }
                    if established {
                        self.got.push(Incoming::Established { peer: from });
                    }
                }
                Reaction::Opened { ack, data } => {
                    if let Some(a) = ack {
                        out.push((from, a));
                    }
                    self.got.extend(self.ep.deliver(data, now));
                }
                Reaction::Lost { need_idr, .. } => {
                    if need_idr {
                        self.got.push(Incoming::NeedIdr);
                    }
                }
                Reaction::Ignored | Reaction::Acked { .. } => {}
            }
        }
        if let Some((peer, packets)) = self.ep.retransmit(now) {
            out.extend(packets.into_iter().map(|p| (peer, p)));
        }
        assert!(self.ep.has_loss_room());
        if let Some((_, _, need_idr)) = self.ep.expire_video(now) {
            if need_idr {
                self.got.push(Incoming::NeedIdr);
            }
        }
        out
    }

    fn send(&mut self, channel: Channel, payload: &[u8], frame_id: u32, keyframe: bool, now: u64) -> Vec<(PeerAddr, Vec<u8>)> {
        let (peer, packets) = self.ep.send(channel, payload, frame_id, keyframe, now).unwrap();
        packets.into_iter().map(|p| (peer, p)).collect()
    }
}

fn route(from: PeerAddr, packets: Vec<(PeerAddr, Vec<u8>)>, nodes: &mut [&mut Node]) {
    for (to, bytes) in packets {
        for n in nodes.iter_mut() {
            if n.addr == to {
                n.wire.push((from, bytes.clone()));
            }
        }
    }
}

fn loopback_pair() -> (Node, Node) {
    (Node::new(true, 1), Node::new(false, 2))
}

fn connect(host: &mut Node, client: &mut Node, now: u64) {
    let hello = client.ep.connect(host.addr);
    host.wire.push((client.addr, hello));
    for _ in 0..3 {
        exchange(host, client, now);
    }
}

fn exchange(host: &mut Node, client: &mut Node, now: u64) {
    let out = host.poll(now);
    route(host.addr, out, &mut [client]);
    let out = client.poll(now);
    route(client.addr, out, &mut [host]);
}

fn payloads(node: &Node, want: Channel) -> Vec<Vec<u8>> {
    node.got
        .iter()
        .filter_map(|m| match m {
            Incoming::Datagram { channel, payload, .. } if *channel == want => Some(payload.clone()),
            _ => None,
        })
        .collect()
}

fn idr_count(node: &Node) -> usize {
    node.got.iter().filter(|m| matches!(m, Incoming::NeedIdr)).count()
}

#[test]
fn handshake_and_unreliable_video() {
    let (mut host, mut client) = loopback_pair();
    connect(&mut host, &mut client, 0);
    assert!(host.ep.is_established() && client.ep.is_established());

    let payload = vec![7u8; 3000];
    let out = host.send(Channel::Video, &payload, 3, true, MS);
    route(host.addr, out, &mut [&mut client]);
    exchange(&mut host, &mut client, MS);
    let got = payloads(&client, Channel::Video);
    assert_eq!(got.first().map(|p| p.as_slice()), Some(payload.as_slice()));
}

#[test]
fn reliable_input_in_order() {
    let (mut host, mut client) = loopback_pair();
    connect(&mut host, &mut client, 0);
    let out = client.send(Channel::Input, b"click", 0, false, MS);
    route(client.addr, out, &mut [&mut host]);
    exchange(&mut host, &mut client, MS);
    assert!(payloads(&host, Channel::Input).iter().any(|p| p == b"click"));
}

#[test]
fn unreliable_mouse_delivers_without_acks() {
    let (mut host, mut client) = loopback_pair();
    connect(&mut host, &mut client, 0);
    for i in 0..32u8 {
        let (peer, packets) = client
            .ep
            .send_with(Channel::Input, &[b'm', i], 0, false, false, MS)
            .unwrap();
        let out = packets.into_iter().map(|p| (peer, p)).collect();
        route(client.addr, out, &mut [&mut host]);
    }
    let replies = host.poll(MS);
    let got = payloads(&host, Channel::Input).len();
    assert!(got >= 32, "unreliable mouse must not wait on acks, got {got}");
    assert!(replies.is_empty());
}

#[test]
fn reconnect_replaces_session_keys() {
    let (mut host, mut client1) = loopback_pair();
    connect(&mut host, &mut client1, 0);
    assert!(host.ep.is_established() && client1.ep.is_established());
    host.send(Channel::Control, b"stale-reliable", 0, true, MS);
    host.poll(MS);

    let mut client2 = Node::new(false, 3);
    let hello = client2.ep.connect(host.addr);
    host.wire.push((client2.addr, hello));
    host.got.clear();
    for i in 0..5 {
        let now = (10 + 10 * i) * MS;
        let out = host.poll(now);
        route(host.addr, out, &mut [&mut client1, &mut client2]);
        let out = client2.poll(now);
        route(client2.addr, out, &mut [&mut host]);
    }
    assert!(client2.ep.is_established());
    assert!(host.got.iter().any(|m| matches!(m, Incoming::Established { .. })));
    assert!(payloads(&client2, Channel::Control).is_empty());

    let payload = vec![9u8; 800];
    let out = host.send(Channel::Video, &payload, 9, true, 100 * MS);
    route(host.addr, out, &mut [&mut client1, &mut client2]);
    exchange(&mut host, &mut client2, 100 * MS);
    let got = payloads(&client2, Channel::Video);
    assert_eq!(got.first().map(|p| p.as_slice()), Some(payload.as_slice()));
}

#[test]
fn control_not_blocked_by_reliable_video() {
    let (mut host, mut client) = loopback_pair();
    connect(&mut host, &mut client, 0);
    let out = host.send(Channel::Control, b"caps-a", 0, true, MS);
    route(host.addr, out, &mut [&mut client]);
    let out = host.send(Channel::Video, &vec![1u8; 4000], 1, true, MS);
    route(host.addr, out, &mut [&mut client]);
    let out = host.send(Channel::Control, b"caps-b", 0, true, MS);
    route(host.addr, out, &mut [&mut client]);
    exchange(&mut host, &mut client, 2 * MS);
    let got = payloads(&client, Channel::Control);
    let got_a = got.iter().any(|p| p == b"caps-a");
    let got_b = got.iter().any(|p| p == b"caps-b");
    assert!(got_a && got_b, "control after reliable keyframe must still be delivered");
}

#[test]
fn sending_needs_a_peer_and_a_session() {
    let mut client = Node::new(false, 2);
    assert!(matches!(client.ep.send(Channel::Input, b"x", 0, false, 0), Err(SendError::NoPeer)));
    client.ep.connect(addr(1));
    assert!(matches!(client.ep.send(Channel::Input, b"x", 0, false, 0), Err(SendError::NotEstablished)));
    assert_eq!(SendError::NoPeer.message(), "no peer");
    assert_eq!(SendError::NotEstablished.message(), "not established");
    assert!(client.ep.retransmit(0).unwrap().1.is_empty());
    assert!(Node::new(false, 4).ep.retransmit(0).is_none());
}

#[test]
fn reliable_packets_are_handed_over_in_order_and_once() {
    let (mut host, mut client) = loopback_pair();
    connect(&mut host, &mut client, 0);
    let mut packets = Vec::new();
    for i in 0..6u8 {
        packets.extend(client.send(Channel::Control, &[i], 0, false, MS));
    }
    // Backwards, and each twice.
    packets.reverse();
    let twice: Vec<_> = packets.iter().flat_map(|p| [p.clone(), p.clone()]).collect();
    route(client.addr, twice, &mut [&mut host]);
    exchange(&mut host, &mut client, 2 * MS);
    let got = payloads(&host, Channel::Control);
    assert_eq!(got, (0..6u8).map(|i| vec![i]).collect::<Vec<_>>());
    assert_eq!(client.ep.queue_lengths().0, 0);
    assert_eq!(host.ep.queue_lengths().1, 0);
}

#[test]
fn a_gap_holds_back_its_own_channel_only() {
    let (mut host, mut client) = loopback_pair();
    connect(&mut host, &mut client, 0);
    let lost = client.send(Channel::Control, b"one", 0, false, MS);
    let second = client.send(Channel::Control, b"two", 0, false, MS);
    let click = client.send(Channel::Input, b"click", 0, false, MS);
    route(client.addr, second, &mut [&mut host]);
    route(client.addr, click, &mut [&mut host]);
    host.poll(2 * MS);
    assert!(payloads(&host, Channel::Control).is_empty());
    assert_eq!(payloads(&host, Channel::Input), vec![b"click".to_vec()]);
    assert_eq!(host.ep.queue_lengths().1, 1);
    route(client.addr, lost, &mut [&mut host]);
    host.poll(3 * MS);
    assert_eq!(payloads(&host, Channel::Control), vec![b"one".to_vec(), b"two".to_vec()]);
}

#[test]
fn unacknowledged_packets_are_sent_again() {
    let (mut host, mut client) = loopback_pair();
    connect(&mut host, &mut client, 0);
    let first = client.send(Channel::Input, b"a", 0, false, 10 * MS);
    let second = client.send(Channel::Control, b"b", 0, false, 10 * MS);
    assert!(client.ep.retransmit(17 * MS).unwrap().1.is_empty());
    let due = client.ep.retransmit(18 * MS).unwrap().1;
    // Control comes before input.
    assert_eq!(due, vec![second[0].1.clone(), first[0].1.clone()]);
    assert!(client.ep.retransmit(18 * MS).unwrap().1.is_empty());
    for p in due {
        host.wire.push((client.addr, p));
    }
    let acks = host.poll(20 * MS);
    assert_eq!(acks.len(), 2);
    match client.ep.handle_datagram(&acks[0].1, host.addr, 25 * MS) {
        Reaction::Acked { rtt_us } => assert_eq!(rtt_us, Some(15_000)),
        _ => panic!("not an acknowledgement"),
    }
    match client.ep.handle_datagram(&acks[0].1, host.addr, 25 * MS) {
        Reaction::Acked { rtt_us } => assert_eq!(rtt_us, None),
        _ => panic!("not an acknowledgement"),
    }
    assert_eq!(client.ep.queue_lengths().0, 1);
}

#[test]
fn video_reassembles_in_any_order() {
    let (mut host, mut client) = loopback_pair();
    connect(&mut host, &mut client, 0);
    let payload: Vec<u8> = (0..5000).map(|i| (i % 253) as u8).collect();
    let mut packets = host.send(Channel::Video, &payload, 1, true, MS);
    assert_eq!(packets.len(), 5);
    packets.swap(0, 4);
    packets.swap(1, 3);
    let last = packets.pop().unwrap();
    route(host.addr, packets, &mut [&mut client]);
    client.poll(2 * MS);
    assert!(payloads(&client, Channel::Video).is_empty());
    assert_eq!(client.ep.queue_lengths().2, 1);
    route(host.addr, vec![last], &mut [&mut client]);
    client.poll(3 * MS);
    assert_eq!(payloads(&client, Channel::Video), vec![payload]);
    assert_eq!(client.ep.queue_lengths().2, 0);
}

#[test]
fn overdue_frames_are_given_up() {
    let (mut host, mut client) = loopback_pair();
    connect(&mut host, &mut client, 0);
    let mut packets = host.send(Channel::Video, &[1u8; 2000], 1, true, MS);
    packets.pop();
    route(host.addr, packets, &mut [&mut client]);
    client.poll(MS);
    client.poll(81 * MS);
    assert_eq!(idr_count(&client), 0);
    client.poll(82 * MS);
    assert_eq!(idr_count(&client), 1);
    assert_eq!(client.ep.queue_lengths().2, 0);
    // A second loss within the debounce time asks for nothing.
    let mut packets = host.send(Channel::Video, &[1u8; 2000], 2, true, 100 * MS);
    packets.pop();
    route(host.addr, packets, &mut [&mut client]);
    client.poll(100 * MS);
    client.poll(200 * MS);
    assert_eq!(idr_count(&client), 1);
}

#[test]
fn frames_far_behind_are_dropped() {
    let (mut host, mut client) = loopback_pair();
    connect(&mut host, &mut client, 0);
    for id in [20u32, 12, 11] {
        let out = host.send(Channel::Video, &[id as u8], id, false, MS);
        route(host.addr, out, &mut [&mut client]);
    }
    client.poll(MS);
    assert_eq!(payloads(&client, Channel::Video), vec![vec![20], vec![12]]);
}

#[test]
fn loss_reports_count_and_ask_for_a_keyframe() {
    let (mut host, mut client) = loopback_pair();
    connect(&mut host, &mut client, 0);
    let nack = PacketHeader {
        ty: PacketType::Nack,
        channel: Channel::Video,
        flags: 0,
        seq: 0,
        frame_id: 0,
        frag_idx: 0,
        frag_count: 1,
    }
    .encode();
    match host.ep.handle_datagram(&nack, client.addr, MS) {
        Reaction::Lost { lost, sent, need_idr } => assert_eq!((lost, sent, need_idr), (1, 1, true)),
        _ => panic!("not a loss report"),
    }
    match host.ep.handle_datagram(&nack, client.addr, 250 * MS) {
        Reaction::Lost { lost, need_idr, .. } => assert_eq!((lost, need_idr), (2, false)),
        _ => panic!("not a loss report"),
    }
    match host.ep.handle_datagram(&nack, client.addr, 251 * MS) {
        Reaction::Lost { need_idr, .. } => assert!(need_idr),
        _ => panic!("not a loss report"),
    }
}

#[test]
fn forged_and_foreign_datagrams_are_ignored() {
    let (mut host, mut client) = loopback_pair();
    connect(&mut host, &mut client, 0);
    let out = client.send(Channel::Input, b"click", 0, false, MS);
    let mut forged = out[0].1.clone();
    let last = forged.len() - 1;
    forged[last] ^= 1;
    assert!(matches!(host.ep.handle_datagram(&forged, client.addr, MS), Reaction::Ignored));
    // A header that was tampered with does not open either.
    let mut renumbered = out[0].1.clone();
    renumbered[8] ^= 1;
    assert!(matches!(host.ep.handle_datagram(&renumbered, client.addr, MS), Reaction::Ignored));
    // Neither does a packet of another epoch.
    let mut stale = out[0].1.clone();
    stale[7] = 200;
    assert!(matches!(host.ep.handle_datagram(&stale, client.addr, MS), Reaction::Ignored));
    assert!(matches!(host.ep.handle_datagram(b"noise", client.addr, MS), Reaction::Ignored));
    assert!(matches!(host.ep.handle_datagram(&out[0].1[..27], client.addr, MS), Reaction::Ignored));
    assert!(matches!(host.ep.handle_datagram(&out[0].1, client.addr, MS), Reaction::Opened { .. }));
}

#[test]
fn a_wrong_pin_establishes_nothing_that_opens() {
    let mut host = Node::new(true, 1);
    let cfg = BudConfig { bind: addr(2), pin: "0000".to_string(), is_host: false };
    let mut client = Node { ep: BudEndpoint::new(cfg), addr: addr(2), wire: Vec::new(), got: Vec::new() };
    connect(&mut host, &mut client, 0);
    let out = client.send(Channel::Input, b"click", 0, false, MS);
    route(client.addr, out, &mut [&mut host]);
    host.poll(MS);
    assert!(payloads(&host, Channel::Input).is_empty());
}

#[test]
fn the_host_answers_with_a_new_epoch_each_time() {
    let mut host = Node::new(true, 1);
    let mut client = Node::new(false, 2);
    let hello = client.ep.connect(host.addr);
    assert_eq!(hello.len(), 68);
    for epoch in 1..=3u8 {
        match host.ep.handle_datagram(&hello, client.addr, 0) {
            Reaction::Hello { reply: Some(r), established } => {
                assert!(established);
                assert_eq!(r[7], epoch);
                assert_eq!(PacketHeader::decode(&r).unwrap().ty, PacketType::HelloAck);
            }
            _ => panic!("no answer"),
        }
    }
    // A hello that is cut off is not answered.
    assert!(matches!(host.ep.handle_datagram(&hello[..67], client.addr, 0), Reaction::Ignored));
}

#[test]
fn a_message_needs_room() {
    let (mut host, mut client) = loopback_pair();
    // Without a session there is nothing to number.
    assert!(client.ep.can_send(usize::MAX));
    connect(&mut host, &mut client, 0);
    assert!(client.ep.can_send(0) && client.ep.can_send(65_535 * 1200));
    assert!(!client.ep.can_send(65_535 * 1200 + 1));
}

#[test]
fn datagrams_fit_the_mtu() {
    let (mut host, mut client) = loopback_pair();
    connect(&mut host, &mut client, 0);
    let sent = client.send(Channel::Input, &[7; 2500], 0, false, 0);
    let lengths: Vec<usize> = sent.iter().map(|(_, p)| p.len()).collect();
    assert_eq!(lengths, vec![1244, 1244, 144]);
    assert!(lengths.iter().all(|n| *n <= MTU));
    match host.ep.handle_datagram(&sent[0].1, client.addr, 0) {
        Reaction::Opened { ack: Some(a), .. } => assert_eq!(a.len(), 44),
        _ => panic!("not acknowledged"),
    }
    // What is sent again is what was sent.
    let (_, again) = client.ep.retransmit(8 * MS).unwrap();
    assert_eq!(again, sent.into_iter().map(|(_, p)| p).collect::<Vec<_>>());
}

#[test]
fn packet_numbers_do_not_repeat() {
    let (mut host, mut client) = loopback_pair();
    connect(&mut host, &mut client, 0);
    let mut numbers = Vec::new();
    for round in 0..4u32 {
        let mut packets = client.send(Channel::Input, &[1; 1300], 0, false, 0);
        packets.extend(client.send(Channel::Audio, b"a", 0, false, 0));
        for (_, p) in &packets {
            if let Reaction::Opened { ack: Some(a), .. } = host.ep.handle_datagram(p, client.addr, 0) {
                numbers.push(a[20..28].to_vec());
            }
        }
        packets.extend(host.send(Channel::Video, &[2; 1300], round, true, 0));
        numbers.extend(packets.iter().map(|(_, p)| p[20..28].to_vec()));
    }
    let count = numbers.len();
    assert_eq!(count, 4 * 7);
    numbers.sort();
    numbers.dedup();
    assert_eq!(numbers.len(), count);
}
