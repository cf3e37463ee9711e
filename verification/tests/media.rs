use lansec::audio::{mix_is_float, play_overflows, to_stereo, AudioSequencer, PcmGather, FRAME_SAMPLES};
use lansec::caps::{Chroma, EncodeBackend, Platform};
use lansec::capture::{Acquired, CaptureError, CaptureSession, CaptureStep, GpuVendor};
use lansec::decode::{
    check_d3d11_hevc444, choose_transform, input_buffer_size, output_buffer_size,
    output_candidates, sample_to_frame, surface_call, DecodeError, DecoderPath, DecoderProfile,
    Drain, DrainStep, ListedProfile, MfTransform, OutputOutcome, Pixel, Subtype, SurfaceCall,
    SurfaceFormat, SurfaceStep,
};
use lansec::encode::{
    buffer_to_au, mf_bitrate, open_encoder, open_encoder_with_gpu, pack_wh, sample_to_au,
    select_transform, Credits, EncodeError, EncodeHardware, EncoderChoice, EncoderConfig, InputFmt,
    IntelHevcCaps, QsvOpen, TransformCandidate, TransformEvent,
};
use lansec::present::{DecodedFrame, Presenter};
use lansec::timing::{FrameTimes, FrameTimingPolicy};

#[test]
fn samples_are_gathered_into_frames() {
    let mut gather: PcmGather<f32> = PcmGather::default();
    assert!(gather.push(&vec![0.5; 959]).is_empty());
    let frames = gather.push(&vec![0.25; 1000]);
    assert_eq!(frames.len(), 2);
    assert_eq!(frames[0].len(), FRAME_SAMPLES * 2);
    assert_eq!((frames[0][958], frames[0][959], frames[1][0]), (0.5, 0.25, 0.25));
    assert_eq!(gather.push(&vec![1.0; 921]).len(), 1);
}

#[test]
fn recordings_become_stereo() {
    assert_eq!(to_stereo(&[1, 2, 3], 1), vec![1, 1, 2, 2, 3, 3]);
    assert_eq!(to_stereo(&[1, 2, 3, 4], 2), vec![1, 2, 3, 4]);
    assert_eq!(to_stereo(&[1, 2, 9, 3, 4, 9], 3), vec![1, 2, 3, 4]);
    assert!(to_stereo::<i16>(&[], 2).is_empty());
    assert!(mix_is_float(3, 16) && mix_is_float(0xFFFE, 16) && mix_is_float(1, 32));
    assert!(!mix_is_float(1, 16));
    assert!(!play_overflows(192_000) && play_overflows(192_001));
}

#[test]
fn audio_packets_are_numbered_from_one() {
    let mut seq = AudioSequencer::new();
    let p = seq.packet(vec![1, 2, 3, 4], 2);
    assert_eq!((p.seq, p.samples, p.opus), (1, 480, vec![1, 2]));
    let p = seq.packet(vec![9], 5);
    assert_eq!((p.seq, p.opus), (2, vec![9]));
    seq.seq = u32::MAX;
    assert_eq!(seq.packet(vec![], 0).seq, 0);
}

#[test]
fn capture_repeats_the_last_frame() {
    let mut s = CaptureSession::open(Platform::Windows, 1920, 1080).unwrap();
    assert_eq!(s.size(), (1920, 1080));
    assert_eq!(s.next_frame(Acquired::Timeout, 1), CaptureStep::Nothing);
    match s.next_frame(Acquired::Frame, 2) {
        CaptureStep::Deliver(i) => assert!(i.fresh && i.capture_us == 2 && i.width == 1920),
        _ => panic!("no frame"),
    }
    match s.next_frame(Acquired::Timeout, 3) {
        CaptureStep::Deliver(i) => assert!(!i.fresh && i.capture_us == 3),
        _ => panic!("no frame"),
    }
    assert_eq!(s.next_frame(Acquired::NoSurface, 4), CaptureStep::Nothing);
    assert_eq!(s.next_frame(Acquired::Failed, 4), CaptureStep::Fail);
    assert_eq!(s.next_frame(Acquired::AccessLost, 5), CaptureStep::Recreate);
    assert_eq!(s.next_frame(Acquired::Timeout, 6), CaptureStep::Nothing);
    match CaptureSession::open(Platform::Unknown, 1, 1) {
        Err(e) => assert_eq!(e.message(), "capture not implemented on Unknown"),
        Ok(_) => panic!("opened"),
    }
    assert_eq!(CaptureError::Timeout.message(), "timeout");
}

fn cfg(prefer_444: bool) -> EncoderConfig {
    EncoderConfig { width: 1920, height: 1080, bitrate_bps: 5, prefer_444 }
}

#[test]
fn encoders_are_chosen_by_hardware() {
    let win = EncodeHardware::Windows { nvenc: true, nvenc_444: false, intel: None };
    assert_eq!(
        open_encoder(cfg(true), win, GpuVendor::Nvidia),
        EncoderChoice::Nvenc { chroma: Chroma::Yuv420 }
    );
    assert_eq!(
        open_encoder_with_gpu(cfg(true), true, true, false, GpuVendor::Intel),
        EncoderChoice::Nvenc { chroma: Chroma::Yuv444 }
    );
    assert_eq!(open_encoder_with_gpu(cfg(true), true, true, true, GpuVendor::Intel), EncoderChoice::Qsv);
    assert_eq!(
        open_encoder_with_gpu(cfg(true), false, true, false, GpuVendor::Amd),
        EncoderChoice::Unavailable
    );
    assert_eq!(
        open_encoder(cfg(false), EncodeHardware::Macos { yuv444: true }, GpuVendor::Other(0)),
        EncoderChoice::VideoToolbox { chroma: Chroma::Yuv420 }
    );
    assert_eq!(
        open_encoder(cfg(true), EncodeHardware::Unknown, GpuVendor::Other(0)),
        EncoderChoice::Unavailable
    );
    assert_eq!(EncodeError::Unavailable.message(), "no hardware encoder");
    assert_eq!(DecodeError::Unavailable.message(), "no hardware decoder");
}

#[test]
fn encoder_buffers_become_access_units() {
    let buf = [1u8, 2, 3, 4];
    let au = buffer_to_au(1, 3, 0, true, &buf, Chroma::Yuv444, EncodeBackend::Nvenc).unwrap();
    assert_eq!((au.annexb, au.is_keyframe), (vec![1, 2, 3], true));
    let au = buffer_to_au(1, 1, 0, false, &buf, Chroma::Yuv420, EncodeBackend::VideoToolbox).unwrap();
    assert!(!au.is_keyframe);
    assert!(buffer_to_au(0, 3, 1, false, &buf, Chroma::Yuv420, EncodeBackend::Nvenc).is_none());
    assert!(buffer_to_au(1, 0, 1, false, &buf, Chroma::Yuv420, EncodeBackend::Nvenc).is_none());
    assert!(buffer_to_au(1, -1, 1, false, &buf, Chroma::Yuv420, EncodeBackend::Nvenc).is_none());
    assert!(sample_to_au(vec![], true, true, Chroma::Yuv420).is_none());
    let au = sample_to_au(vec![8], false, true, Chroma::Yuv420).unwrap();
    assert!(au.is_keyframe && au.backend == EncodeBackend::Qsv);
    assert_eq!(mf_bitrate(5), 1_000_000);
    assert_eq!(mf_bitrate(9_000_000), 9_000_000);
    assert_eq!(pack_wh(60, 1), (60u64 << 32) | 1);
}

fn candidate(name: &str, vendor: &str, activates: bool) -> TransformCandidate {
    TransformCandidate { name: name.as_bytes().to_vec(), vendor: vendor.as_bytes().to_vec(), activates }
}

#[test]
fn transforms_of_intel_come_first() {
    let list = vec![
        candidate("MICROSOFT HEVC", "VEN_8086", true),
        candidate("Other encoder", "VEN_10DE", true),
        candidate("Another", "VEN_8086", false),
        candidate("Quick Sync by InTeL", "", true),
        candidate("Intel again", "VEN_8086", true),
    ];
    assert_eq!(select_transform(&list), Some(3));
    assert_eq!(select_transform(&list[..3].iter().map(|c| candidate(
        std::str::from_utf8(&c.name).unwrap(),
        std::str::from_utf8(&c.vendor).unwrap(),
        c.activates,
    )).collect()), Some(1));
    assert_eq!(select_transform(&vec![candidate("Microsoft", "", true)]), None);
    assert_eq!(select_transform(&vec![]), None);
}

#[test]
fn credits_are_counted() {
    let mut c = Credits::new();
    assert!(!c.ready(true) && !c.ready(false));
    assert!(!c.handle_event(TransformEvent::NeedInput));
    assert!(!c.handle_event(TransformEvent::HaveOutput));
    assert!(!c.handle_event(TransformEvent::Other));
    assert!(c.handle_event(TransformEvent::Error));
    assert!(c.ready(true) && c.ready(false));
    c.spend_input();
    c.spend_input();
    c.spend_output();
    assert_eq!(c, Credits { input: 0, output: 0 });
}

fn open(prefer_444: bool, outcomes: &[bool]) -> QsvOpen {
    let mut s = QsvOpen::start(prefer_444);
    for ok in outcomes {
        s = s.step(*ok);
    }
    s
}

#[test]
fn the_intel_encoder_opens_step_by_step() {
    let ready = |chroma, input| QsvOpen::Ready { chroma, input };
    assert_eq!(open(true, &[true, true, true, true]), ready(Chroma::Yuv444, InputFmt::Ayuv));
    assert_eq!(open(true, &[true, false, true, true, true]), ready(Chroma::Yuv420, InputFmt::Nv12));
    assert_eq!(open(true, &[true, true, false]), QsvOpen::Failed);
    assert_eq!(open(false, &[true, false, true]), ready(Chroma::Yuv420, InputFmt::Argb32));
    assert_eq!(open(false, &[true, true, false, true]), ready(Chroma::Yuv420, InputFmt::Argb32));
    assert_eq!(open(false, &[true, false, false]), QsvOpen::Failed);
    assert_eq!(open(false, &[false]), QsvOpen::Failed);
    let caps = IntelHevcCaps::from_probe(true, false, false, true, true, false);
    assert_eq!(caps, IntelHevcCaps { hevc: true, yuv444: true });
    let caps = IntelHevcCaps::from_probe(false, true, true, true, true, true);
    assert_eq!(caps, IntelHevcCaps { hevc: false, yuv444: false });
}

#[test]
fn decoders_are_chosen_in_order() {
    assert_eq!(DecoderPath::first(), DecoderPath::MediaFoundation);
    assert_eq!(DecoderPath::MediaFoundation.next(), Some(DecoderPath::Dxva));
    assert_eq!(DecoderPath::Dxva.next(), Some(DecoderPath::Mfx));
    assert_eq!(DecoderPath::Mfx.next(), None);
    assert_eq!(choose_transform(Chroma::Yuv420, true, true), Some(MfTransform::Sync));
    assert_eq!(choose_transform(Chroma::Yuv444, true, true), Some(MfTransform::Hardware));
    assert_eq!(choose_transform(Chroma::Yuv444, true, false), None);
    let p = |profile, ayuv| ListedProfile { profile, ayuv };
    let listed = vec![
        p(DecoderProfile::Main444, false),
        p(DecoderProfile::Other, true),
        p(DecoderProfile::Main444Intel, true),
        p(DecoderProfile::Main444, true),
    ];
    assert_eq!(check_d3d11_hevc444(&listed, true, true), Some(DecoderProfile::Main444Intel));
    assert_eq!(check_d3d11_hevc444(&vec![], true, true), Some(DecoderProfile::Main444));
    assert_eq!(check_d3d11_hevc444(&vec![], false, true), Some(DecoderProfile::Main444Intel));
    assert_eq!(check_d3d11_hevc444(&vec![], false, false), None);
}

#[test]
fn output_types_are_tried_in_order() {
    let list = vec![Subtype::Argb32, Subtype::Ayuv, Subtype::Nv12, Subtype::Ayuv];
    assert_eq!(output_candidates(&list, Chroma::Yuv444), vec![1, 3, 0]);
    assert_eq!(output_candidates(&list, Chroma::Yuv420), vec![2, 1, 3, 0]);
    assert!(output_candidates(&vec![], Chroma::Yuv420).is_empty());
    assert!(output_candidates(&vec![Subtype::Nv12], Chroma::Yuv444).is_empty());
    let mut long = vec![Subtype::Other; 32];
    long.push(Subtype::Ayuv);
    assert!(output_candidates(&long, Chroma::Yuv444).is_empty());
    assert_eq!(Subtype::Argb32.label(), "ARGB32");
    assert_eq!(Subtype::Other.label(), "other");
}

#[test]
fn buffers_are_sized_for_the_decoder() {
    assert_eq!(input_buffer_size(1000, 0, 0), 2024);
    assert_eq!(input_buffer_size(1000, 5000, 16), 6032);
    assert_eq!(input_buffer_size(usize::MAX, 0, 1), u32::MAX);
    assert_eq!(output_buffer_size(10, 1920, 1080), 8_294_400);
    assert_eq!(output_buffer_size(u32::MAX, 1, 1), u32::MAX);
    assert_eq!(output_buffer_size(0, 0, 5), 1);
    assert_eq!(output_buffer_size(0, 100_000, 100_000), u32::MAX);
}

#[test]
fn draining_gives_up_on_small_buffers() {
    let mut d = Drain::new(true);
    assert_eq!(d.on_outcome(OutputOutcome::StreamChange { provides: true }), DrainStep::Retry);
    assert!(d.provides_samples);
    for _ in 0..4 {
        assert_eq!(d.on_outcome(OutputOutcome::TooSmall), DrainStep::Retry);
        assert!(!d.provides_samples);
    }
    assert_eq!(d.on_outcome(OutputOutcome::TooSmall), DrainStep::Fail);
    let mut d = Drain::new(false);
    assert_eq!(d.on_outcome(OutputOutcome::NeedMoreInput), DrainStep::Nothing);
    assert_eq!(d.on_outcome(OutputOutcome::Done { sample: false }), DrainStep::Nothing);
    assert_eq!(d.on_outcome(OutputOutcome::Done { sample: true }), DrainStep::Frame);
    assert_eq!(d.on_outcome(OutputOutcome::Failed), DrainStep::Fail);
}

#[test]
fn green_frames_are_dropped() {
    let green = Some(Pixel { b: 19, g: 41, r: 19 });
    let grey = Some(Pixel { b: 100, g: 100, r: 100 });
    let bgra = SurfaceFormat::Bgra8;
    assert_eq!(sample_to_frame(Chroma::Yuv444, bgra, green, true), SurfaceStep::Drop);
    assert_eq!(sample_to_frame(Chroma::Yuv420, bgra, green, true), SurfaceStep::Present);
    assert_eq!(sample_to_frame(Chroma::Yuv444, bgra, grey, true), SurfaceStep::Present);
    assert_eq!(sample_to_frame(Chroma::Yuv444, bgra, None, false), SurfaceStep::Present);
    assert_eq!(sample_to_frame(Chroma::Yuv444, SurfaceFormat::Ayuv, None, true), SurfaceStep::Convert);
    assert_eq!(sample_to_frame(Chroma::Yuv420, SurfaceFormat::Other, None, false), SurfaceStep::Drop);
    assert!(Pixel { b: 0, g: 0, r: 0 }.is_blank() && Pixel { b: 255, g: 255, r: 255 }.is_blank());
    assert_eq!(bgra.label(), "BGRA8");
    assert_eq!(surface_call(-3, true), SurfaceCall::Failed);
    assert_eq!(surface_call(0, true), SurfaceCall::Nothing);
    assert_eq!(surface_call(1, false), SurfaceCall::Nothing);
    assert_eq!(surface_call(1, true), SurfaceCall::Surface);
}

fn frame(decode_done_us: u64, surface: u8) -> DecodedFrame<u8> {
    DecodedFrame { width: 1, height: 1, decode_done_us, surface }
}

#[test]
fn one_frame_waits_and_late_ones_are_dropped() {
    let mut p: Presenter<u8> = Presenter::new(FrameTimingPolicy::default());
    assert!(p.take(0).is_none());
    p.submit(frame(0, 1), FrameTimes::default(), 20_000);
    assert_eq!(p.stats().dropped, 1);
    assert!(p.take(20_000).is_none());
    p.submit(frame(10_000, 2), FrameTimes::default(), 20_000);
    let times = FrameTimes { capture_us: 5, ..FrameTimes::default() };
    p.submit(frame(11_000, 3), times, 20_000);
    assert_eq!(p.stats().dropped, 2);
    assert_eq!(p.take(21_000).unwrap().surface, 3);
    let t = p.last_times();
    assert_eq!((t.capture_us, t.decode_done_us, t.present_us), (5, 11_000, 21_000));
    assert_eq!(p.stats().presented, 1);
}
