use lansec::caps::{
    negotiate, negotiate_with_pref, offers_chroma, Caps, Chroma, ChromaPref, CodecCap,
    DecodeBackend, EncodeBackend, Platform,
};
use lansec::capture::GpuVendor;
use lansec::config::local_caps;
use lansec::decode::{probe_decode, DecodeHardware, Hevc444Probe};
use lansec::encode::{probe_encode, EncodeHardware, IntelHevcCaps};

#[test]
fn prefers_444_when_both_sides_have_it() {
    let host = Caps {
        encode: vec![
            CodecCap::encode(EncodeBackend::Nvenc, Chroma::Yuv444, 3840, 2160),
            CodecCap::encode(EncodeBackend::Nvenc, Chroma::Yuv420, 3840, 2160),
        ],
        decode: vec![],
        audio: true,
        input: true,
        platform: Platform::Windows,
    };
    let client = Caps {
        encode: vec![],
        decode: vec![
            CodecCap::decode(DecodeBackend::VideoToolbox, Chroma::Yuv444, 3840, 2160),
            CodecCap::decode(DecodeBackend::VideoToolbox, Chroma::Yuv420, 3840, 2160),
        ],
        audio: true,
        input: true,
        platform: Platform::Macos,
    };
    let fmt = negotiate(&host, &client).unwrap();
    assert_eq!(fmt.chroma, Chroma::Yuv444);
    assert_eq!(fmt.encode, EncodeBackend::Nvenc);
    assert_eq!(fmt.decode, DecodeBackend::VideoToolbox);
}

#[test]
fn mac_host_windows_client_prefers_420() {
    let host = Caps {
        encode: vec![
            CodecCap::encode(EncodeBackend::VideoToolbox, Chroma::Yuv444, 2560, 1600),
            CodecCap::encode(EncodeBackend::VideoToolbox, Chroma::Yuv420, 2560, 1600),
        ],
        decode: vec![],
        audio: true,
        input: true,
        platform: Platform::Macos,
    };
    let client = Caps {
        encode: vec![],
        decode: vec![
            CodecCap::decode(DecodeBackend::D3d11va, Chroma::Yuv444, 3840, 2160),
            CodecCap::decode(DecodeBackend::D3d11va, Chroma::Yuv420, 3840, 2160),
        ],
        audio: true,
        input: true,
        platform: Platform::Windows,
    };
    let fmt = negotiate(&host, &client).unwrap();
    assert_eq!(fmt.chroma, Chroma::Yuv420);
    assert_eq!(fmt.encode, EncodeBackend::VideoToolbox);
    assert_eq!(fmt.decode, DecodeBackend::D3d11va);
}

#[test]
fn falls_back_to_420() {
    let host = Caps {
        encode: vec![CodecCap::encode(
            EncodeBackend::VideoToolbox,
            Chroma::Yuv420,
            2560,
            1600,
        )],
        decode: vec![],
        audio: false,
        input: true,
        platform: Platform::Macos,
    };
    let client = Caps {
        encode: vec![],
        decode: vec![
            CodecCap::decode(DecodeBackend::Nvdec, Chroma::Yuv444, 3840, 2160),
            CodecCap::decode(DecodeBackend::D3d11va, Chroma::Yuv420, 3840, 2160),
        ],
        audio: false,
        input: true,
        platform: Platform::Windows,
    };
    let fmt = negotiate(&host, &client).unwrap();
    assert_eq!(fmt.chroma, Chroma::Yuv420);
}

fn caps(encode: Vec<CodecCap>, decode: Vec<CodecCap>, platform: Platform) -> Caps {
    Caps { encode, decode, audio: true, input: true, platform }
}

#[test]
fn negotiated_size_is_the_smaller_of_both() {
    let host = caps(
        vec![CodecCap::encode(EncodeBackend::Qsv, Chroma::Yuv420, 2560, 2160)],
        vec![],
        Platform::Windows,
    );
    let client = caps(
        vec![],
        vec![CodecCap::decode(DecodeBackend::D3d11va, Chroma::Yuv420, 3840, 1080)],
        Platform::Windows,
    );
    let fmt = negotiate(&host, &client).unwrap();
    assert_eq!((fmt.width, fmt.height, fmt.bit_depth), (2560, 1080, 8));
    assert_eq!(fmt.chroma_label(), "4:2:0 (chroma subsampled fallback)");
}

#[test]
fn bit_depths_must_match_and_order_decides() {
    let mut deep = CodecCap::encode(EncodeBackend::Nvenc, Chroma::Yuv444, 3840, 2160);
    deep.bit_depth = 10;
    let shallow = CodecCap::encode(EncodeBackend::Qsv, Chroma::Yuv444, 1920, 1080);
    let host = caps(vec![deep, shallow], vec![], Platform::Windows);
    let client = caps(
        vec![],
        vec![CodecCap::decode(DecodeBackend::Qsv, Chroma::Yuv444, 3840, 2160)],
        Platform::Windows,
    );
    let fmt = negotiate(&host, &client).unwrap();
    assert_eq!(fmt.encode, EncodeBackend::Qsv);
    assert_eq!(fmt.chroma_label(), "4:4:4 true color");
    let nothing = caps(vec![], vec![], Platform::Windows);
    assert!(negotiate(&host, &nothing).is_none());
    assert!(negotiate(&nothing, &client).is_none());
}

#[test]
fn a_preference_comes_first() {
    let host = caps(
        probe_encode(EncodeHardware::Macos { yuv444: true }),
        vec![],
        Platform::Macos,
    );
    let client = caps(
        vec![],
        probe_decode(DecodeHardware::Macos { yuv444: true }),
        Platform::Macos,
    );
    assert_eq!(
        negotiate_with_pref(&host, &client, ChromaPref::Yuv420).unwrap().chroma,
        Chroma::Yuv420
    );
    assert_eq!(
        negotiate_with_pref(&host, &client, ChromaPref::Yuv444).unwrap().chroma,
        Chroma::Yuv444
    );
    assert_eq!(
        negotiate_with_pref(&host, &client, ChromaPref::Auto).unwrap().chroma,
        Chroma::Yuv444
    );
}

#[test]
fn probes_list_what_the_hardware_does() {
    let nvenc = probe_encode(EncodeHardware::Windows {
        nvenc: true,
        nvenc_444: true,
        intel: Some(IntelHevcCaps { hevc: true, yuv444: false }),
    });
    assert_eq!(
        nvenc,
        vec![
            CodecCap::encode(EncodeBackend::Nvenc, Chroma::Yuv444, 3840, 2160),
            CodecCap::encode(EncodeBackend::Nvenc, Chroma::Yuv420, 3840, 2160),
            CodecCap::encode(EncodeBackend::Qsv, Chroma::Yuv420, 3840, 2160),
        ]
    );
    assert!(probe_encode(EncodeHardware::Unknown).is_empty());
    assert!(probe_encode(EncodeHardware::Windows {
        nvenc: false,
        nvenc_444: true,
        intel: Some(IntelHevcCaps { hevc: false, yuv444: true }),
    })
    .is_empty());
    let probe = Hevc444Probe { d3d11: true, mft_444: false, mfx: false, dxva: true, vp_ayuv: true };
    let win = probe_decode(DecodeHardware::Windows { hevc_mft: true, probe_444: Some(probe) });
    assert_eq!(win.len(), 2);
    assert_eq!(win[0].chroma, Chroma::Yuv420);
    assert!(offers_chroma(&win, Chroma::Yuv444));
    let unready = Hevc444Probe { vp_ayuv: false, ..probe };
    let win = probe_decode(DecodeHardware::Windows { hevc_mft: true, probe_444: Some(unready) });
    assert!(!offers_chroma(&win, Chroma::Yuv444));
    assert!(probe_decode(DecodeHardware::Windows { hevc_mft: false, probe_444: Some(probe) }).is_empty());
    let mac = probe_decode(DecodeHardware::Macos { yuv444: true });
    assert_eq!(mac[0].chroma, Chroma::Yuv444);
}

#[test]
fn local_caps_offer_audio_and_input() {
    let c = local_caps(vec![], vec![], Platform::current("macos"));
    assert!(c.audio && c.input);
    assert_eq!(c.platform, Platform::Macos);
    assert_eq!(Platform::current("windows"), Platform::Windows);
    assert_eq!(Platform::current("linux"), Platform::Unknown);
    let d = Caps::default();
    assert!(!d.audio && d.encode.is_empty() && d.platform == Platform::Unknown);
    let copy = c.clone();
    assert_eq!(copy.platform, c.platform);
}

#[test]
fn gpu_vendors_have_their_numbers() {
    assert_eq!(GpuVendor::from_id(0x10DE), GpuVendor::Nvidia);
    assert_eq!(GpuVendor::from_id(0x8086), GpuVendor::Intel);
    assert_eq!(GpuVendor::from_id(0x1002), GpuVendor::Amd);
    assert_eq!(GpuVendor::from_id(7), GpuVendor::Other(7));
}

#[test]
fn preferences_have_labels() {
    assert_eq!(ChromaPref::default(), ChromaPref::Auto);
    assert_eq!(ChromaPref::Auto.label(), "Auto");
    assert_eq!(ChromaPref::Yuv420.label(), "4:2:0");
    assert_eq!(ChromaPref::Yuv444.label(), "4:4:4");
}
