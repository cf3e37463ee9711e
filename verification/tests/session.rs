use lansec::caps::{Caps, Chroma, ChromaPref, CodecCap, DecodeBackend, EncodeBackend, Platform};
use lansec::client::{
    Intake, decoder_attempts, input_is_reliable, ClientAction, ClientSession, ClientStats, DecodeOutcome,
    MissingDecoder,
};
use lansec::config::SessionConfig;
use lansec::encode::{probe_encode, EncodeHardware};
use lansec::endpoint::{Incoming, PeerAddr};
use lansec::host::{
    negotiate_with_size, FrameStep, HostCmd, HostInput, HostSession, HostStats, NetAction,
};
use lansec::messages::{AudioPacket, Channel, ControlMsg, InputEvent, VideoAccessUnit};
use lansec::timing::FrameTimes;
use lansec::wire::{encode, Wire};

const MS: u64 = 1_000_000;

fn datagram<T: Wire>(channel: Channel, value: &T) -> Incoming {
    Incoming::Datagram { channel, payload: encode(value).unwrap(), frame_id: 0, keyframe: false }
}

fn caps(encode: Vec<CodecCap>, decode: Vec<CodecCap>, platform: Platform) -> Caps {
    Caps { encode, decode, audio: true, input: true, platform }
}

fn mac_host() -> HostSession {
    let local = caps(
        probe_encode(EncodeHardware::Macos { yuv444: true }),
        vec![],
        Platform::Macos,
    );
    HostSession::new(local, &SessionConfig::default(), 0)
}

#[test]
fn a_mac_offers_windows_420_whatever_the_client_lists() {
    let mut host = mac_host();
    host.on_cmd(HostCmd::Established, None);
    assert!(host.is_established());
    // No decoder listed: both chroma formats are assumed, 4:2:0 is taken.
    let step = host.on_cmd(HostCmd::CapsOffer(caps(vec![], vec![], Platform::Windows)), Some((2560, 1600)));
    let fmt = step.accept.unwrap();
    assert_eq!((fmt.chroma, fmt.decode, fmt.width, fmt.height), (Chroma::Yuv420, DecodeBackend::D3d11va, 2560, 1600));
    assert!(step.drop_encoder && !step.quit && !step.no_common);
    // Only something useless listed: the fallback is offered at the default size.
    let odd = CodecCap::encode(EncodeBackend::Qsv, Chroma::Yuv444, 10, 10);
    let step = host.on_cmd(HostCmd::CapsOffer(caps(vec![], vec![odd], Platform::Unknown)), None);
    let fmt = step.accept.unwrap();
    assert_eq!((fmt.chroma, fmt.width, fmt.height), (Chroma::Yuv420, 1920, 1080));
    assert_eq!(fmt.encode, EncodeBackend::VideoToolbox);
    assert!(step.no_common);
    // A Mac client with nothing in common gets nothing.
    let step = host.on_cmd(HostCmd::CapsOffer(caps(vec![], vec![], Platform::Macos)), None);
    assert!(step.accept.is_none() && !step.drop_encoder && !step.quit && step.no_common);
    let offer = HostSession::complete_offer(caps(vec![], vec![], Platform::Windows));
    assert_eq!(offer.decode.len(), 2);
    assert_eq!(HostSession::complete_offer(offer.clone()), offer);
    assert!(HostSession::complete_offer(caps(vec![], vec![], Platform::Macos)).decode.is_empty());
    assert!(host.on_cmd(HostCmd::Bye, None).quit);
}

#[test]
fn the_encoder_is_opened_for_the_format_in_force() {
    let mut host = mac_host();
    assert!(host.encoder_wanted(false, Some((1920, 1080)), 7).is_none());
    host.on_cmd(HostCmd::Established, None);
    assert!(host.encoder_wanted(false, Some((1920, 1080)), 7).is_none());
    let client = caps(
        vec![],
        vec![CodecCap::decode(DecodeBackend::VideoToolbox, Chroma::Yuv444, 3840, 2160)],
        Platform::Macos,
    );
    let fmt = host.on_cmd(HostCmd::CapsOffer(client), None).accept.unwrap();
    assert_eq!(fmt.chroma, Chroma::Yuv444);
    let cfg = host.encoder_wanted(false, Some((1920, 1080)), 7).unwrap();
    assert_eq!((cfg.width, cfg.height, cfg.bitrate_bps, cfg.prefer_444), (1920, 1080, 7, true));
    assert!(host.encoder_wanted(true, Some((1920, 1080)), 7).is_none());
    assert!(host.encoder_wanted(false, None, 7).is_none());
    // A new session starts without a format.
    host.on_cmd(HostCmd::Established, None);
    assert!(host.encoder_wanted(false, Some((1920, 1080)), 7).is_none());
    host.on_cmd(HostCmd::CapsAccept(fmt), None);
    assert!(host.encoder_wanted(false, Some((1920, 1080)), 7).is_some());
}

#[test]
fn negotiation_takes_the_screen_size() {
    let local = caps(probe_encode(EncodeHardware::Macos { yuv444: false }), vec![], Platform::Macos);
    let remote = caps(
        vec![],
        vec![CodecCap::decode(DecodeBackend::VideoToolbox, Chroma::Yuv420, 3840, 2160)],
        Platform::Macos,
    );
    let fmt = negotiate_with_size(&local, &remote, Some((70_000, 1000)), ChromaPref::Auto).unwrap();
    assert_eq!((fmt.width, fmt.height), (70_000u32 as u16, 1000));
    let none = caps(vec![], vec![], Platform::Macos);
    assert!(negotiate_with_size(&local, &none, None, ChromaPref::Auto).is_err());
}

#[test]
fn frames_are_encoded_on_change_request_and_briefly_after() {
    let mut host = mac_host();
    // The first frame is a keyframe.
    assert_eq!(host.on_frame(false, 0), FrameStep::Encode { force_idr: true, fresh: false });
    let au = host.on_encoded(100, 1920, 1080, true, vec![1, 2, 3], 50, 0);
    assert_eq!((au.frame_id, au.is_keyframe, au.width, au.height), (0, true, 1920, 1080));
    assert_eq!((au.times.capture_us, au.times.encode_done_us, au.times.send_us), (100, 150, 150));
    assert_eq!(au.annexb, vec![1, 2, 3]);
    assert_eq!(host.on_frame(true, 10 * MS), FrameStep::Encode { force_idr: false, fresh: true });
    assert_eq!(host.on_encoded(0, 1, 1, false, vec![], 0, 10 * MS).frame_id, 1);
    assert_eq!(host.on_frame(false, 209 * MS), FrameStep::Encode { force_idr: false, fresh: false });
    host.on_encoded(0, 1, 1, false, vec![], 0, 209 * MS);
    assert_eq!(host.on_frame(false, 210 * MS), FrameStep::Idle);
    // Frames that are not encoded are counted at the frame rate.
    assert_eq!(host.on_frame(false, 226 * MS), FrameStep::Repeat);
    assert_eq!(host.on_frame(false, 226 * MS), FrameStep::Idle);
    host.request_idr();
    assert_eq!(host.on_frame(false, 227 * MS), FrameStep::Encode { force_idr: true, fresh: false });
}

#[test]
fn motion_lifts_the_bitrate() {
    let mut host = mac_host();
    assert_eq!(host.next_bitrate(50_000_000, 0), Some(50_000_000));
    assert_eq!(host.next_bitrate(50_000_000, 0), None);
    host.on_frame(true, 10 * MS);
    assert_eq!(host.next_bitrate(50_000_000, 309 * MS), Some(100_000_000));
    assert_eq!(host.next_bitrate(120_000_000, 309 * MS), Some(120_000_000));
    assert_eq!(host.next_bitrate(50_000_000, 310 * MS), Some(50_000_000));
}

#[test]
fn host_figures_add_up() {
    let mut s = HostStats::new(5);
    s.note_encode(10);
    s.note_encode(4);
    s.note_send(1);
    s.note_send(7);
    s.note_frame(100);
    s.note_skip();
    s.note_step(FrameStep::Idle);
    s.note_step(FrameStep::Repeat);
    s.note_step(FrameStep::Encode { force_idr: false, fresh: true });
    s.note_step(FrameStep::Encode { force_idr: false, fresh: false });
    assert_eq!((s.encode_us, s.encode_max_us, s.send_us, s.send_max_us), (14, 10, 8, 7));
    assert_eq!((s.frames, s.video_bytes, s.skip, s.fresh, s.repeat), (1, 100, 1, 1, 2));
    assert!(!s.due(5 + 499 * MS) && s.due(5 + 500 * MS));
}

fn mv(x: u16) -> InputEvent {
    InputEvent::MouseMoveAbs { x, y: 0, host_w: 100, host_h: 100 }
}

fn button(down: bool) -> InputEvent {
    InputEvent::MouseButton { button: 0, down }
}

fn inject(input: &mut HostInput, events: &[InputEvent]) -> Vec<InputEvent> {
    let mut out = Vec::new();
    for ev in events {
        match input.on_incoming(datagram(Channel::Input, ev)) {
            NetAction::Inject(v) => out.extend(v),
            _ => panic!("input not taken"),
        }
    }
    out.extend(input.flush());
    out
}

#[test]
fn moves_are_coalesced_unless_a_button_is_held() {
    let mut input = HostInput::new();
    assert_eq!(inject(&mut input, &[mv(1), mv(2), mv(3)]), vec![mv(3)]);
    assert_eq!(
        inject(&mut input, &[mv(1), mv(2), button(true), mv(3), mv(4), button(false), mv(5), mv(6)]),
        vec![mv(2), button(true), mv(3), mv(4), button(false), mv(6)]
    );
    assert!(inject(&mut input, &[]).is_empty());
}

#[test]
fn the_host_reacts_to_the_network() {
    let mut input = HostInput::new();
    let peer = PeerAddr::V4 { ip: 1, port: 2 };
    assert!(matches!(input.on_incoming(Incoming::Established { peer }), NetAction::Greet));
    assert!(matches!(input.on_incoming(Incoming::NeedIdr), NetAction::NeedIdr));
    let msg = datagram(Channel::Control, &ControlMsg::RequestIdr);
    assert!(matches!(input.on_incoming(msg), NetAction::NeedIdr));
    let msg = datagram(Channel::Control, &ControlMsg::CapsOffer(Caps::default()));
    assert!(matches!(input.on_incoming(msg), NetAction::Forward(HostCmd::CapsOffer(_))));
    let report = lansec::messages::CongestionReport { rtt_us: 1, loss_ppm: 2, suggested_bitrate_bps: 3 };
    let msg = datagram(Channel::Control, &ControlMsg::Congestion(report));
    assert!(matches!(input.on_incoming(msg), NetAction::Bitrate(3)));
    let msg = datagram(Channel::Control, &ControlMsg::Bye);
    assert!(matches!(input.on_incoming(msg), NetAction::Quit));
    let msg = Incoming::Datagram { channel: Channel::Control, payload: vec![77], frame_id: 0, keyframe: false };
    match input.on_incoming(msg) {
        NetAction::BadControl(e) => assert_eq!(e.message(), "postcard decode: Serde Deserialization Error"),
        _ => panic!("it decodes"),
    }
    let msg = Incoming::Datagram { channel: Channel::Input, payload: vec![77], frame_id: 0, keyframe: false };
    assert!(matches!(input.on_incoming(msg), NetAction::Nothing));
    let msg = Incoming::Datagram { channel: Channel::Audio, payload: vec![], frame_id: 0, keyframe: false };
    assert!(matches!(input.on_incoming(msg), NetAction::Nothing));
}

fn unit(frame_id: u32, is_keyframe: bool) -> VideoAccessUnit {
    VideoAccessUnit {
        frame_id,
        is_keyframe,
        width: 1280,
        height: 720,
        times: FrameTimes::default(),
        annexb: vec![frame_id as u8],
    }
}

fn queue(client: &mut ClientSession, units: &[(u32, bool)]) {
    for (id, key) in units {
        let msg = datagram(Channel::Video, &unit(*id, *key));
        assert!(matches!(client.on_incoming(msg, 0), ClientAction::Nothing));
    }
}

#[test]
fn only_the_newest_frame_is_decoded() {
    let mut client = ClientSession::new(60, 0);
    queue(&mut client, &[(1, false), (2, false), (3, false)]);
    let (au, ask) = client.next_video(0);
    assert_eq!((au.unwrap().frame_id, ask), (3, false));
    assert!(client.next_video(0).0.is_none());
    // A backlog with a keyframe still gives its newest frame.
    queue(&mut client, &[(4, false), (5, true), (6, false), (7, false)]);
    assert_eq!(client.next_video(0).0.unwrap().frame_id, 7);
    // One without is thrown away, and a keyframe asked for.
    queue(&mut client, &[(8, false), (9, false), (10, false), (11, false)]);
    let (au, ask) = client.next_video(0);
    assert!(au.is_none() && ask);
    assert!(client.next_video(0).0.is_none());
}

#[test]
fn decoding_waits_for_a_keyframe() {
    let mut client = ClientSession::new(60, 0);
    assert!(client.decoder_opened(true, 0));
    assert_eq!(client.may_decode(false, 100 * MS), Intake::Drop { send_idr: false });
    assert_eq!(client.may_decode(false, 250 * MS), Intake::Drop { send_idr: true });
    assert_eq!(client.may_decode(true, 251 * MS), Intake::Decode);
    assert_eq!(client.may_decode(false, 252 * MS), Intake::Decode);
    assert!(!client.decoder_opened(false, 10_000 * MS));
}

#[test]
fn failures_wait_for_a_keyframe_again() {
    let mut client = ClientSession::new(60, 0);
    assert!(client.has_room());
    assert!(client.decoded(DecodeOutcome::Failed, 0));
    assert_eq!(client.may_decode(false, 0), Intake::Drop { send_idr: false });
    assert_eq!(client.may_decode(true, 0), Intake::Decode);
    for n in 2..30 {
        assert!(!client.decoded(DecodeOutcome::Failed, n * 1000 * MS));
    }
    assert!(client.decoded(DecodeOutcome::Failed, 30_000 * MS));
    // Frames that give nothing ask from the second on; a good frame starts over.
    assert!(!client.decoded(DecodeOutcome::Nothing, 40_000 * MS));
    assert!(client.decoded(DecodeOutcome::Nothing, 41_000 * MS));
    assert!(!client.decoded(DecodeOutcome::Frame, 42_000 * MS));
    assert!(!client.decoded(DecodeOutcome::Nothing, 43_000 * MS));
}

#[test]
fn frames_without_a_decoder_open_one_at_a_keyframe() {
    let mut client = ClientSession::new(60, 0);
    assert_eq!(client.decoder_missing(false, 1280, 720), MissingDecoder::Wait);
    assert_eq!(client.decoder_missing(true, 0, 720), MissingDecoder::AskIdr);
    assert_eq!(
        client.decoder_missing(true, 1280, 0),
        MissingDecoder::Open { width: 1280, height: 1 }
    );
}

#[test]
fn decoders_are_tried_in_order() {
    let tried = |w, g, c| {
        decoder_attempts(w, g, c).iter().map(|a| (a.on_gpu, a.chroma)).collect::<Vec<_>>()
    };
    let (y4, y2) = (Chroma::Yuv444, Chroma::Yuv420);
    assert_eq!(tried(true, true, y4), vec![(true, y4), (false, y4), (true, y2), (false, y2)]);
    assert_eq!(tried(true, false, y4), vec![(false, y4), (false, y2)]);
    assert_eq!(tried(true, true, y2), vec![(true, y2), (false, y2)]);
    assert_eq!(tried(false, true, y4), vec![(false, y4)]);
}

#[test]
fn host_times_are_moved_to_the_client_clock() {
    let mut client = ClientSession::new(60, 0);
    let mut au = unit(1, true);
    au.times.capture_us = 1_000;
    au.times.encode_done_us = 5_000;
    au.times.send_us = 6_000;
    let (mapped, gap) = client.video_arrived(au, 100_000, 4_000, 7 * MS);
    assert_eq!(gap, None);
    let t = mapped.times;
    assert_eq!((t.capture_us, t.encode_done_us, t.send_us, t.recv_us), (93_000, 97_000, 98_000, 100_000));
    assert_eq!(client.host_size(), (1280, 720));
    // A frame without a send time keeps its times; times before the origin are the origin.
    let mut au = unit(2, true);
    au.times.capture_us = 50;
    let (mapped, gap) = client.video_arrived(au, 100_000, 4_000, 9 * MS);
    assert_eq!((mapped.times.capture_us, mapped.times.recv_us, gap), (50, 100_000, Some(2_000)));
    let mut au = unit(3, true);
    au.times.capture_us = 1;
    au.times.send_us = 1_000_000;
    let (mapped, _) = client.video_arrived(au, 10, 0, 9 * MS);
    assert_eq!((mapped.times.capture_us, mapped.times.send_us), (0, 10));
}

#[test]
fn the_client_reacts_to_the_network() {
    let mut client = ClientSession::new(60, 0);
    let peer = PeerAddr::V6 { ip: 1, port: 2, flowinfo: 0, scope_id: 0 };
    assert!(matches!(client.on_incoming(Incoming::Established { peer }, 0), ClientAction::Greet));
    assert!(matches!(client.on_incoming(Incoming::NeedIdr, 0), ClientAction::SendIdr));
    assert!(matches!(client.on_incoming(Incoming::NeedIdr, 249 * MS), ClientAction::Nothing));
    assert!(matches!(client.on_incoming(Incoming::NeedIdr, 250 * MS), ClientAction::SendIdr));
    let format = lansec::caps::NegotiatedFormat {
        codec: lansec::caps::Codec::Hevc,
        chroma: Chroma::Yuv444,
        bit_depth: 8,
        encode: EncodeBackend::Nvenc,
        decode: DecodeBackend::D3d11va,
        width: 0,
        height: 900,
    };
    let msg = datagram(Channel::Control, &ControlMsg::CapsAccept { format });
    match client.on_incoming(msg, 0) {
        ClientAction::OpenDecoder { format: f, width, height } => {
            assert_eq!((f, width, height), (format, 1, 900));
        }
        _ => panic!("no decoder asked for"),
    }
    assert_eq!(client.present_size(), (1, 900));
    let msg = datagram(Channel::Control, &ControlMsg::Bye);
    assert!(matches!(client.on_incoming(msg, 0), ClientAction::Nothing));
    let pkt = AudioPacket { seq: 1, samples: 480, opus: vec![5] };
    match client.on_incoming(datagram(Channel::Audio, &pkt), 0) {
        ClientAction::Play(p) => assert_eq!((p.seq, p.opus), (1, vec![5])),
        _ => panic!("no audio"),
    }
    let msg = Incoming::Datagram { channel: Channel::Control, payload: vec![], frame_id: 0, keyframe: false };
    assert!(matches!(client.on_incoming(msg, 0), ClientAction::BadControl(_)));
}

#[test]
fn reports_and_repeats_are_paced() {
    let mut client = ClientSession::new(50, 0);
    assert!(!client.video_done(99 * MS));
    assert!(client.video_done(100 * MS));
    assert!(!client.video_done(199 * MS));
    assert!(!client.represent_due(false, 1000 * MS));
    assert!(!client.represent_due(true, 19 * MS));
    assert!(client.represent_due(true, 20 * MS));
    assert!(!client.represent_due(true, 39 * MS));
}

#[test]
fn troubles_are_reported_at_first_and_now_and_then() {
    let mut client = ClientSession::new(60, 0);
    let mut missing = Vec::new();
    let mut idle = Vec::new();
    let mut errors = Vec::new();
    for _ in 0..240 {
        client.decoder_missing(false, 0, 0);
        missing.extend(client.missing_report());
        client.decoded(DecodeOutcome::Nothing, 0);
        idle.extend(client.idle_report());
        client.decoded(DecodeOutcome::Failed, 0);
        errors.extend(client.error_report());
    }
    assert_eq!(missing, vec![1, 120, 240]);
    assert_eq!(idle, vec![1, 120, 240]);
    assert_eq!(errors, vec![1, 60, 120, 180, 240]);
}

#[test]
fn the_gap_runs_on_while_nothing_comes() {
    let mut client = ClientSession::new(60, 0);
    let mut stats = ClientStats::new(0);
    assert_eq!(client.gap_us(&stats, 9 * MS), 0);
    let au = VideoAccessUnit {
        frame_id: 0,
        is_keyframe: true,
        width: 1,
        height: 1,
        times: FrameTimes::default(),
        annexb: vec![],
    };
    client.video_arrived(au, 0, 0, 2 * MS);
    assert_eq!(client.gap_us(&stats, 9 * MS), 7_000);
    stats.note_video(1, Some(5));
    assert_eq!(client.gap_us(&stats, 9 * MS), 5);
}

#[test]
fn client_figures_add_up() {
    let mut s = ClientStats::new(0);
    s.note_video(10, None);
    s.note_video(20, Some(5));
    s.note_video(30, Some(3));
    s.note_decode(7);
    s.note_decode(2);
    s.note_present(1);
    s.note_pump(9);
    s.note_pump(4);
    assert_eq!((s.frames, s.video_bytes, s.gap_max_us), (3, 60, 5));
    assert_eq!((s.decode_us, s.decode_max_us, s.present_us, s.pump_max_us), (9, 7, 1, 9));
    assert!(s.due(500 * MS) && !s.due(499 * MS));
}

#[test]
fn moves_are_sent_unreliably() {
    assert!(!input_is_reliable(&mv(1)));
    assert!(!input_is_reliable(&InputEvent::MouseMoveRel { dx: 1, dy: 1 }));
    assert!(input_is_reliable(&button(true)));
    assert!(input_is_reliable(&InputEvent::Key { vk: 1, down: true, scancode: 0 }));
    assert!(input_is_reliable(&InputEvent::MouseWheel { dx: 0, dy: 1 }));
}
