use lansec::caps::{ChromaPref, Platform};
use lansec::config::{config_path, validate_config, ConfigError, SessionConfig, SessionMode};
use lansec::congestion::{loss_ppm, CongestionController, CongestionStats, Pressure};
use lansec::launcher::LauncherApp;
use lansec::link::{LinkCounters, LinkMeter};
use lansec::loopback::LoopbackRun;
use lansec::timing::{FrameTimes, FrameTimingPolicy, SessionClock};

const MS: u64 = 1_000_000;

#[test]
fn clamp_keeps_target_in_range() {
    let mut c = SessionConfig {
        target_mbps: 200,
        min_mbps: 40,
        max_mbps: 100,
        ..Default::default()
    };
    c.clamp();
    assert_eq!(c.target_mbps, 100);
    assert_eq!(c.target_fps, 60);
}

#[test]
fn clamping_mends_every_setting() {
    let mut c = SessionConfig {
        target_fps: 5,
        target_mbps: 1,
        min_mbps: 0,
        max_mbps: 0,
        pin: String::new(),
        ..Default::default()
    };
    c.clamp();
    assert_eq!((c.target_fps, c.target_mbps, c.min_mbps, c.max_mbps), (30, 1, 1, 1));
    assert_eq!(c.pin, "0000");
    for (set, kept) in [(29, 30), (30, 30), (31, 31), (120, 120), (121, 120)] {
        let mut rate = SessionConfig { target_fps: set, ..Default::default() };
        rate.clamp();
        assert_eq!(rate.target_fps, kept);
    }
    let again = SessionConfig::from_stored(Some(c.clone()));
    assert_eq!((again.target_fps, again.pin), (c.target_fps, c.pin));
    let d = SessionConfig::from_stored(None);
    assert_eq!((d.mode, d.bind.as_str(), d.connect.as_str()), (SessionMode::Host, "0.0.0.0:44700", "127.0.0.1:44700"));
    assert_eq!((d.target_mbps, d.min_mbps, d.max_mbps, d.chroma), (50, 40, 100, ChromaPref::Auto));
}

#[test]
fn bitrates_are_in_bits() {
    let mut c = SessionConfig::default();
    assert_eq!((c.target_bps(), c.min_bps(), c.max_bps()), (50_000_000, 40_000_000, 100_000_000));
    c.max_mbps = 5_000;
    assert_eq!(c.max_bps(), u32::MAX);
}

#[test]
fn starting_needs_the_address_of_the_mode() {
    let mut c = SessionConfig::for_host("1.2.3.4:5".to_string(), "77".to_string());
    assert_eq!((c.mode, c.bind.as_str(), c.pin.as_str()), (SessionMode::Host, "1.2.3.4:5", "77"));
    assert!(validate_config(&c, true, false).is_ok());
    assert_eq!(c.validate_for_start(false, true), Err(ConfigError::InvalidBind));
    assert_eq!(ConfigError::InvalidBind.message(&c), "invalid bind address: 1.2.3.4:5");
    c.min_mbps = 200;
    assert_eq!(c.validate_for_start(true, true), Err(ConfigError::MinAboveMax));
    let e = validate_config(&c, true, true).unwrap_err();
    assert_eq!((e.message(), e.cause), ("session config", ConfigError::MinAboveMax));
    assert_eq!(ConfigError::MinAboveMax.message(&c), "min Mbps must be ≤ max Mbps");
    let c = SessionConfig::for_client("h:1".to_string(), "77".to_string());
    assert_eq!((c.mode, c.connect.as_str()), (SessionMode::Client, "h:1"));
    assert_eq!(c.validate_for_start(true, false), Err(ConfigError::InvalidConnect));
    assert_eq!(ConfigError::InvalidConnect.message(&c), "invalid connect address: h:1");
    assert_eq!(SessionMode::Host.label(), "Host");
    assert_eq!(SessionMode::Client.label(), "Client");
}

#[test]
fn settings_live_below_the_home_directory() {
    let home = || Some("/h".to_string());
    assert_eq!(
        config_path(Platform::Macos, home(), None),
        vec!["/h", "Library/Application Support/lansec/config.json"]
    );
    assert_eq!(config_path(Platform::Unknown, home(), None), vec!["/h", ".config/lansec/config.json"]);
    assert_eq!(
        config_path(Platform::Windows, home(), Some("A".to_string())),
        vec!["A", "lansec", "config.json"]
    );
    assert_eq!(config_path(Platform::Windows, home(), None), vec!["lansec-config.json"]);
    assert_eq!(config_path(Platform::Macos, None, None), vec!["lansec-config.json"]);
}

#[test]
fn the_launcher_starts_what_is_valid() {
    let mut app = LauncherApp::new(SessionConfig { min_mbps: 300, max_mbps: 10, ..Default::default() });
    assert!(app.try_start(true, false));
    assert_eq!((app.cfg.min_mbps, app.cfg.max_mbps), (300, 300));
    assert!(app.error.is_empty());
    assert!(!app.try_start(false, true));
    assert_eq!(app.error, "invalid bind address: 0.0.0.0:44700");
    app.save_failed("disk full");
    assert_eq!(app.error, "save config: disk full");
}

#[test]
fn drops_late_frames() {
    let hz = 60.0f32;
    let policy = FrameTimingPolicy { budget_us: (1_000_000.0 / hz.max(1.0)) as u64 };
    assert_eq!(policy, FrameTimingPolicy::default());
    assert!(!policy.should_drop(0, 8_000));
    assert!(policy.should_drop(0, 20_000));
    // The budget itself is in time, and so is a frame from the future.
    assert!(!policy.should_drop(0, 16_666));
    assert!(policy.should_drop(0, 16_667));
    assert!(!policy.should_drop(5, 0));
}

#[test]
fn the_session_clock_counts_microseconds() {
    let clock = SessionClock::new(5_000);
    assert_eq!(clock.now_us(5_999), 0);
    assert_eq!(clock.now_us(7_000), 2);
    assert_eq!(clock.now_us(0), 0);
    let t = FrameTimes { capture_us: 3, encode_done_us: 10, ..FrameTimes::default() };
    assert_eq!(t.capture_to_encode_us(), 7);
    assert_eq!(t.encode_to_send_us(), 0);
}

#[test]
fn frame_stages_have_their_spans() {
    let t = FrameTimes {
        capture_us: 1,
        encode_done_us: 3,
        send_us: 7,
        recv_us: 15,
        decode_done_us: 31,
        present_us: 63,
    };
    assert_eq!((t.capture_to_encode_us(), t.encode_to_send_us(), t.net_us()), (2, 4, 8));
    assert_eq!((t.decode_us(), t.present_queue_us(), t.glass_us()), (16, 32, 62));
}

/// What the smoothed figures call for, as the application works it out.
fn pressure(target: u32, loss: f32, rtt: f32) -> Pressure {
    if loss > 20_000.0 {
        Pressure::Cut { to: (target as f32 * 0.92) as u32 }
    } else if loss < 1_000.0 && rtt < 8_000.0 {
        Pressure::Raise { to: (target as f32 * 1.03) as u32 }
    } else {
        Pressure::Hold
    }
}

#[test]
fn loss_cuts_bitrate() {
    let mut cc = CongestionController::lan_default();
    let before = cc.target_bps;
    let loss = 0.0 * 0.7 + loss_ppm(20, 100).unwrap() as f32 * 0.3;
    cc.adjust(pressure(cc.target_bps, loss, 1_000.0), 0);
    assert!(cc.target_bps < before);
    assert_eq!(cc.target_bps, 46_000_000);
}

#[test]
fn bitrate_changes_are_bounded_and_paced() {
    let mut cc = CongestionController::from_bps(50_000_000, 40_000_000, 100_000_000);
    cc.adjust(Pressure::Cut { to: 1 }, 0);
    assert_eq!(cc.target_bps, 40_000_000);
    cc.adjust(Pressure::Raise { to: 60_000_000 }, 399 * MS);
    assert_eq!(cc.target_bps, 40_000_000);
    cc.adjust(Pressure::Raise { to: u32::MAX }, 400 * MS);
    assert_eq!(cc.target_bps, 100_000_000);
    cc.adjust(Pressure::Hold, 900 * MS);
    assert_eq!(cc.target_bps, 100_000_000);
    cc.set_in_flight(9);
    assert_eq!(cc.stats(1, 2), CongestionStats { rtt_us: 1, loss_ppm: 2, target_bps: 100_000_000, in_flight_bytes: 9 });
    assert_eq!(cc.report(1, 2).suggested_bitrate_bps, 100_000_000);
    let odd = CongestionController::from_bps(0, 0, 0);
    assert_eq!((odd.target_bps, odd.min_bps, odd.max_bps), (1_000_000, 1_000_000, 1_000_000));
    let big = CongestionController::from_mbps(5_000, 10, 6_000);
    assert_eq!((big.target_bps, big.min_bps, big.max_bps), (u32::MAX, 10_000_000, u32::MAX));
    assert_eq!(loss_ppm(1, 0), None);
    assert_eq!(loss_ppm(1, 3), Some(333_333));
}

#[test]
fn link_looks_show_what_is_new() {
    let mut meter = LinkMeter::new(10);
    let now = LinkCounters { sent: 100, recv: 50, pkts_sent: 3, pkts_recv: 2, would_block: 1 };
    let d = meter.snapshot(now, 30);
    assert_eq!((d.dt_ns, d.traffic), (20, now));
    let later = LinkCounters { sent: 150, ..now };
    let d = meter.snapshot(later, 31);
    assert_eq!((d.dt_ns, d.traffic.sent, d.traffic.recv), (1, 50, 0));
}

#[test]
fn the_smoke_test_starts_with_a_keyframe_and_ends() {
    let mut run = LoopbackRun::new(5);
    assert!(run.force_idr());
    assert!(run.note_encoded());
    assert!(!run.force_idr());
    for _ in 2..=30 {
        assert!(!run.note_encoded());
    }
    assert!(run.note_encoded());
    run.note_decoded();
    assert_eq!((run.encoded, run.decoded), (31, 1));
    assert!(run.running(5 + 2_999 * MS) && !run.running(5 + 3_000 * MS));
    assert_eq!(LoopbackRun::encoder_config(8, 9).bitrate_bps, 40_000_000);
}
