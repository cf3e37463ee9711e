use lansec::messages::Channel;
use lansec::packet::{
    fragment, PacketHeader, PacketType, DEFAULT_PORT, FLAG_KEYFRAME, HEADER_LEN, MAX_PAYLOAD, MTU,
};

#[test]
fn header_roundtrip() {
    let h = PacketHeader {
        ty: PacketType::Data,
        channel: Channel::Video,
        flags: FLAG_KEYFRAME,
        seq: 42,
        frame_id: 7,
        frag_idx: 1,
        frag_count: 3,
    };
    let bytes = h.encode();
    let back = PacketHeader::decode(&bytes).unwrap();
    assert_eq!(back.seq, 42);
    assert_eq!(back.frag_count, 3);
    assert_eq!(back.flags, FLAG_KEYFRAME);
}

#[test]
fn header_bytes_are_laid_out_little_endian() {
    let h = PacketHeader {
        ty: PacketType::Nack,
        channel: Channel::Input,
        flags: 6,
        seq: 0x0403_0201,
        frame_id: 0x0807_0605,
        frag_idx: 0x0a09,
        frag_count: 0x0c0b,
    };
    let bytes = h.encode();
    assert_eq!(
        bytes,
        [b'B', b'U', b'D', b'1', 12, 3, 6, 0, 1, 2, 3, 4, 5, 6, 7, 8, 9, 10, 11, 12]
    );
    let stamped = h.encode_epoch(9);
    assert_eq!(stamped[7], 9);
    assert_eq!(PacketHeader::decode(&stamped), Some(h));
}

#[test]
fn header_decoding_is_strict() {
    let h = PacketHeader {
        ty: PacketType::Hello,
        channel: Channel::Control,
        flags: 0,
        seq: 0,
        frame_id: 0,
        frag_idx: 0,
        frag_count: 1,
    };
    let good = h.encode();
    assert!(PacketHeader::decode(&good).is_some());
    assert!(PacketHeader::decode(&good[..HEADER_LEN - 1]).is_none());
    let mut bad = good;
    bad[0] = b'X';
    assert!(PacketHeader::decode(&bad).is_none());
    let mut bad = good;
    bad[4] = 3;
    assert!(PacketHeader::decode(&bad).is_none());
    let mut bad = good;
    bad[5] = 4;
    assert!(PacketHeader::decode(&bad).is_none());
}

#[test]
fn packet_types_and_channels_have_their_codes() {
    assert_eq!(PacketType::from_u8(1), Some(PacketType::Hello));
    assert_eq!(PacketType::from_u8(2), Some(PacketType::HelloAck));
    assert_eq!(PacketType::from_u8(10), Some(PacketType::Data));
    assert_eq!(PacketType::from_u8(11), Some(PacketType::Ack));
    assert_eq!(PacketType::from_u8(12), Some(PacketType::Nack));
    assert_eq!(PacketType::from_u8(0), None);
    assert_eq!(PacketType::Ack.to_u8(), 11);
    assert_eq!(Channel::from_u8(3), Some(Channel::Input));
    assert_eq!(Channel::from_u8(4), None);
    assert_eq!(Channel::Audio.idx(), 2);
    assert!(Channel::Control.is_reliable() && Channel::Input.is_reliable());
    assert!(!Channel::Video.is_reliable() && !Channel::Audio.is_reliable());
}

#[test]
fn fragments_rejoin_to_the_payload() {
    for len in [0usize, 1, 1199, 1200, 1201, 2400, 3000] {
        let payload: Vec<u8> = (0..len).map(|i| (i % 251) as u8).collect();
        let frags = fragment(&payload);
        let expected = if len == 0 { 1 } else { len.div_ceil(MAX_PAYLOAD) };
        assert_eq!(frags.len(), expected);
        let mut joined = Vec::new();
        for (i, (idx, count, chunk)) in frags.iter().enumerate() {
            assert_eq!(*idx as usize, i);
            assert_eq!(*count as usize, expected);
            assert!(chunk.len() <= MAX_PAYLOAD);
            joined.extend_from_slice(chunk);
        }
        assert_eq!(joined, payload);
    }
}

#[test]
fn packets_fit_the_mtu() {
    assert!(HEADER_LEN + 8 + MAX_PAYLOAD + 16 <= MTU);
    assert_eq!(DEFAULT_PORT, 44700);
}

#[test]
fn fragments_are_counted() {
    for (len, count) in [(0, 1), (1, 1), (1200, 1), (1201, 2), (2400, 2)] {
        assert_eq!(lansec::packet::fragment_count(len), count);
    }
    assert_eq!(&lansec::packet::MAGIC, b"BUD1");
}
