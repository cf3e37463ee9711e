use lansec::caps::{
    Caps, Chroma, ChromaPref, Codec, CodecCap, DecodeBackend, EncodeBackend, NegotiatedFormat,
    Platform,
};
use lansec::codec::decode_control;
use lansec::messages::{AudioPacket, CongestionReport, ControlMsg, InputEvent, VideoAccessUnit};
use lansec::timing::FrameTimes;
use lansec::wire::{decode, encode, ProtocolError, WireFault};

#[test]
fn roundtrip_control() {
    let msg = ControlMsg::RequestIdr;
    let bytes = encode(&msg).unwrap();
    let back: ControlMsg = decode(&bytes).unwrap();
    assert!(matches!(back, ControlMsg::RequestIdr));
}

#[test]
fn decode_control_accepts_caps_with_or_without_chroma_pref() {
    // Current wire (no chroma_pref).
    let v1 = ControlMsg::CapsOffer(Caps {
        encode: vec![],
        decode: vec![CodecCap::decode(DecodeBackend::D3d11va, Chroma::Yuv420, 3840, 2160)],
        audio: true,
        input: true,
        platform: Platform::Windows,
    });
    let bytes = encode(&v1).unwrap();
    let msg = decode_control(&bytes).unwrap();
    assert!(matches!(msg, ControlMsg::CapsOffer(_)));

    // Brief V2 (with chroma_pref) from peers that still send it.
    let v2 = (
        0u32,
        (
            vec![(0u32, 1u32, 8u8, 1920u16, 1080u16, (Some(2u32), None::<u32>))],
            Vec::<u8>::new(),
            true,
            true,
            2u32,
            0u32,
        ),
    );
    let bytes2 = postcard::to_allocvec(&v2).unwrap();
    let back = decode_control(&bytes2).unwrap();
    match back {
        ControlMsg::CapsOffer(c) => {
            assert_eq!(
                c.encode,
                vec![CodecCap::encode(EncodeBackend::VideoToolbox, Chroma::Yuv420, 1920, 1080)]
            );
            assert_eq!(c.platform, Platform::Macos);
        }
        _ => panic!("not an offer"),
    }
}

#[test]
fn trailing_bytes_that_are_no_preference_are_refused() {
    let offer = ControlMsg::CapsOffer(Caps::default());
    let mut bytes = encode(&offer).unwrap();
    bytes.extend_from_slice(&encode(&ChromaPref::Yuv444).unwrap());
    assert!(decode_control(&bytes).is_ok());
    let last = bytes.len() - 1;
    bytes[last] = 3;
    assert!(matches!(decode_control(&bytes), Err(ProtocolError::Decode(WireFault::BadVariant))));
    // Behind any other message, anything may follow.
    let mut bye = encode(&ControlMsg::Bye).unwrap();
    bye.push(200);
    assert!(matches!(decode_control(&bye), Ok(ControlMsg::Bye)));
    assert!(matches!(decode_control(&[9]), Err(ProtocolError::Decode(WireFault::BadVariant))));
    assert!(matches!(decode_control(&[]), Err(ProtocolError::Decode(WireFault::UnexpectedEnd))));
}

#[test]
fn wire_bytes_are_those_of_postcard() {
    let format = NegotiatedFormat {
        codec: Codec::Hevc,
        chroma: Chroma::Yuv420,
        bit_depth: 8,
        encode: EncodeBackend::Qsv,
        decode: DecodeBackend::VideoToolbox,
        width: 3840,
        height: 2160,
    };
    let accept = encode(&ControlMsg::CapsAccept { format }).unwrap();
    let same = postcard::to_allocvec(&(1u32, (0u32, 1u32, 8u8, 1u32, 3u32, 3840u16, 2160u16))).unwrap();
    assert_eq!(accept, same);

    let report = CongestionReport {
        rtt_us: 300,
        loss_ppm: u32::MAX,
        suggested_bitrate_bps: 50_000_000,
    };
    let congestion = encode(&ControlMsg::Congestion(report)).unwrap();
    assert_eq!(congestion, postcard::to_allocvec(&(3u32, 300u32, u32::MAX, 50_000_000u32)).unwrap());

    let au = VideoAccessUnit {
        frame_id: 70_000,
        is_keyframe: true,
        width: 1920,
        height: 1080,
        times: FrameTimes {
            capture_us: 1,
            encode_done_us: 200,
            send_us: 3_000_000,
            recv_us: u64::MAX,
            decode_done_us: 0,
            present_us: 128,
        },
        annexb: vec![0, 0, 0, 1, 0x40],
    };
    let bytes = encode(&au).unwrap();
    let times = (1u64, 200u64, 3_000_000u64, u64::MAX, 0u64, 128u64);
    let same = postcard::to_allocvec(&(70_000u32, true, 1920u16, 1080u16, times, vec![0u8, 0, 0, 1, 0x40])).unwrap();
    assert_eq!(bytes, same);
    let back: VideoAccessUnit = decode(&bytes).unwrap();
    assert_eq!(back.times, au.times);
    assert_eq!(back.annexb, au.annexb);
    assert_eq!((back.frame_id, back.is_keyframe, back.width, back.height), (70_000, true, 1920, 1080));
}

#[test]
fn input_events_roundtrip() {
    let events = [
        InputEvent::MouseMoveAbs { x: 1, y: 65535, host_w: 1920, host_h: 1080 },
        InputEvent::MouseMoveRel { dx: -32768, dy: 32767 },
        InputEvent::MouseButton { button: 255, down: true },
        InputEvent::MouseWheel { dx: -1, dy: 0 },
        InputEvent::Key { vk: 0x41, down: false, scancode: 300 },
    ];
    for ev in events {
        let bytes = encode(&ev).unwrap();
        let back: InputEvent = decode(&bytes).unwrap();
        assert_eq!(back, ev);
    }
    // Zigzag keeps small amounts small.
    assert_eq!(encode(&InputEvent::MouseWheel { dx: -1, dy: 2 }).unwrap(), vec![3, 1, 4]);
    assert!(events[0].is_move() && events[1].is_move() && !events[2].is_move());
}

#[test]
fn audio_packets_roundtrip() {
    let pkt = AudioPacket { seq: 300, samples: 480, opus: vec![7; 200] };
    let bytes = encode(&pkt).unwrap();
    assert_eq!(bytes, postcard::to_allocvec(&(300u32, 480u16, vec![7u8; 200])).unwrap());
    let back: AudioPacket = decode(&bytes).unwrap();
    assert_eq!((back.seq, back.samples, back.opus), (300, 480, vec![7; 200]));
}

#[test]
fn offers_roundtrip_whole() {
    let caps = Caps {
        encode: vec![
            CodecCap::encode(EncodeBackend::Nvenc, Chroma::Yuv444, 3840, 2160),
            CodecCap::encode(EncodeBackend::Qsv, Chroma::Yuv420, 1, 65535),
        ],
        decode: vec![CodecCap::decode(DecodeBackend::Nvdec, Chroma::Yuv420, 100, 200)],
        audio: false,
        input: true,
        platform: Platform::Windows,
    };
    let bytes = encode(&ControlMsg::CapsOffer(caps.clone())).unwrap();
    match decode_control(&bytes).unwrap() {
        ControlMsg::CapsOffer(c) => {
            assert_eq!(c.encode, caps.encode);
            assert_eq!(c.decode, caps.decode);
            assert_eq!((c.audio, c.input, c.platform), (false, true, Platform::Windows));
        }
        _ => panic!("not an offer"),
    }
}

#[test]
fn malformed_messages_are_refused() {
    // A truth value of two.
    let mut bytes = encode(&InputEvent::MouseButton { button: 1, down: true }).unwrap();
    bytes[2] = 2;
    assert!(matches!(decode::<InputEvent>(&bytes), Err(ProtocolError::Decode(WireFault::BadBool))));
    // A number that is cut off.
    assert!(decode::<u32>(&[0x80]).is_err());
    // Groups past the end of a number.
    assert!(decode::<u16>(&[0x80, 0x80, 0x04]).is_err());
    assert_eq!(decode::<u16>(&[0x80, 0x80, 0x03]).unwrap(), 0xC000);
    assert!(decode::<u32>(&[0xff, 0xff, 0xff, 0xff, 0x10]).is_err());
    assert_eq!(decode::<u32>(&[0xff, 0xff, 0xff, 0xff, 0x0f]).unwrap(), u32::MAX);
    assert!(decode::<u64>(&[0xff, 0xff, 0xff, 0xff, 0xff, 0xff, 0xff, 0xff, 0xff, 0x02]).is_err());
    // Leading zero groups are fine.
    assert_eq!(decode::<u32>(&[0x81, 0x00]).unwrap(), 1);
    assert_eq!(decode::<i16>(&[0x01]).unwrap(), -1);
    // An option tag of two, and a byte string longer than the input.
    assert!(decode::<Option<u8>>(&[2, 0]).is_err());
    assert_eq!(decode::<Option<u8>>(&[1, 9]).unwrap(), Some(9));
    assert!(decode::<Vec<u8>>(&[3, 1, 2]).is_err());
}

/// Both failed, for the same reason.
fn same<T, U>(ours: Result<T, ProtocolError>, theirs: Result<U, postcard::Error>) {
    match (ours, theirs) {
        (Err(e), Err(p)) => assert_eq!(e.message(), format!("postcard decode: {p}")),
        _ => panic!("one of them decodes"),
    }
}

#[test]
fn errors_are_those_of_postcard() {
    let inputs: [&[u8]; 6] = [
        &[],
        &[0x80],
        &[0x80, 0x80, 0x04],
        &[0x80, 0x80, 0x80],
        &[0xff, 0xff, 0xff, 0xff, 0x10],
        &[0xff, 0xff, 0xff, 0xff, 0xff, 0xff, 0xff, 0xff, 0xff, 0x02],
    ];
    for s in inputs {
        same(decode::<u16>(s), postcard::from_bytes::<u16>(s));
        same(decode::<i16>(s), postcard::from_bytes::<i16>(s));
        if s.len() != 3 || s[2] != 0x04 {
            same(decode::<u32>(s), postcard::from_bytes::<u32>(s));
        }
        if s.len() < 2 || s.len() == 10 {
            same(decode::<u64>(s), postcard::from_bytes::<u64>(s));
        }
    }
    same(decode::<u8>(&[]), postcard::from_bytes::<u8>(&[]));
    same(decode::<bool>(&[]), postcard::from_bytes::<bool>(&[]));
    same(decode::<bool>(&[2]), postcard::from_bytes::<bool>(&[2]));
    same(decode::<Option<u8>>(&[]), postcard::from_bytes::<Option<u8>>(&[]));
    same(decode::<Option<u8>>(&[2, 0]), postcard::from_bytes::<Option<u8>>(&[2, 0]));
    same(decode::<Option<u8>>(&[1]), postcard::from_bytes::<Option<u8>>(&[1]));
    same(decode::<Vec<u8>>(&[3, 1, 2]), postcard::from_bytes::<Vec<u8>>(&[3, 1, 2]));
    same(decode::<(u8, bool)>(&[1, 7]), postcard::from_bytes::<(u8, bool)>(&[1, 7]));
    // A number that stands for no variant, on an enum that serde reads the same way.
    same(decode::<Codec>(&[5]), postcard::from_bytes::<Result<(), ()>>(&[5]));
    let e = decode::<u32>(&[0x80]).unwrap_err();
    assert_eq!(e, ProtocolError::Decode(WireFault::UnexpectedEnd));
    assert_eq!(e.message(), "postcard decode: Hit the end of buffer, expected more data");
    assert_eq!(
        ProtocolError::Encode(WireFault::BadVariant).message(),
        "postcard encode: Serde Deserialization Error"
    );
}

#[test]
fn copies_say_the_same() {
    let caps = Caps::default();
    assert_eq!(caps.clone(), caps);
    let msg = ControlMsg::CapsOffer(caps);
    assert_eq!(encode(&msg.clone()).unwrap(), encode(&msg).unwrap());
    let au = VideoAccessUnit {
        frame_id: 7,
        is_keyframe: true,
        width: 3,
        height: 4,
        times: FrameTimes::default(),
        annexb: vec![1, 2, 3],
    };
    assert_eq!(encode(&au.clone()).unwrap(), encode(&au).unwrap());
    let pkt = AudioPacket { seq: 1, samples: 2, opus: vec![9] };
    assert_eq!(encode(&pkt.clone()).unwrap(), encode(&pkt).unwrap());
}
