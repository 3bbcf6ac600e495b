use moq_boy::encode::{
    default_bitrate_of, encoder_candidates, open_settings, rgba_frame, Config, DrainEnd, Encoder, Error,
    Geometry, Kind, OpenSettings, ReceivedPacket,
};
use std::cell::RefCell;

/// Opens the software encoders, as if they were all that is installed.
fn software(name: &str, _settings: &OpenSettings) -> Option<String> {
    if name == "libx264" || name == "h264" {
        Some(name.to_string())
    } else {
        None
    }
}

fn software_config(width: u32, height: u32, framerate: u32) -> Config {
    Config {
        kind: Kind::Software,
        ..Config::new(width, height, framerate)
    }
}

fn open(config: &Config) -> Encoder<String> {
    Encoder::new(config, software).unwrap()
}

#[test]
fn encode_rgba_rejects_short_buffer() {
    let config = software_config(320, 240, 30);
    let encoder = open(&config);
    // Far smaller than 320*240*4: must error, not panic on the row copy.
    assert!(matches!(
        encoder.encode_rgba(&[0u8; 16], 320, 240, false, 320 * 4, vec![0u8; 320 * 240 * 4]),
        Err(Error::Codec(_))
    ));
}

#[test]
fn new_rejects_zero_framerate() {
    let config = software_config(320, 240, 0);
    assert!(matches!(Encoder::new(&config, software), Err(Error::InvalidFramerate(0))));
}

#[test]
fn unknown_named_encoder_errors() {
    let config = Config {
        kind: Kind::Named("definitely_not_a_codec".into()),
        ..Config::new(320, 240, 30)
    };
    assert!(matches!(Encoder::new(&config, software), Err(Error::NoEncoder(_))));
}

#[test]
fn default_bitrate_scales_with_resolution() {
    let small = Config::new(320, 240, 30).resolved_bitrate();
    let large = Config::new(1920, 1080, 30).resolved_bitrate();
    assert!(large > small);
    assert!(small > 0);
}

#[test]
fn default_bitrate_is_seven_percent() {
    assert_eq!(Config::new(320, 240, 30).resolved_bitrate(), 161_280);
    assert_eq!(Config::new(1920, 1080, 30).resolved_bitrate(), 4_354_560);
    assert_eq!(Config::new(160, 144, 60).resolved_bitrate(), 96_768);
    let mut config = Config::new(160, 144, 60);
    config.bitrate = Some(5);
    assert_eq!(config.resolved_bitrate(), 5);
}

#[test]
fn default_bitrate_agrees_with_floating_point() {
    let mut n: u64 = 1;
    let mut step: u64 = 0x9e37_79b9_7f4a_7c15;
    for i in 0..200_000u64 {
        step = step.wrapping_mul(6364136223846793005).wrapping_add(1442695040888963407);
        n = n.wrapping_add(step) >> (i % 64);
        assert_eq!(default_bitrate_of(n), (n as f64 * 0.07) as u64, "{}", n);
    }
    for n in [0, 1, 14, 15, 100, (1u64 << 53) - 1, 1 << 53, (1 << 53) + 1, (1 << 53) + 2, u64::MAX - 1, u64::MAX] {
        assert_eq!(default_bitrate_of(n), (n as f64 * 0.07) as u64, "{}", n);
    }
}

#[test]
fn a_keyframe_comes_every_two_seconds() {
    assert_eq!(Config::new(1, 1, 30).gop, 60);
    assert_eq!(Config::new(1, 1, 0).gop, 1);
    assert_eq!(Config::new(1, 1, u32::MAX).gop, u32::MAX);
    assert!(matches!(Config::new(1, 1, 1).kind, Kind::Auto));
    assert_eq!(Kind::default(), Kind::Auto);
}

#[test]
fn hardware_is_tried_first() {
    let hardware = vec!["h264_videotoolbox", "h264_nvenc", "h264_qsv", "h264_vaapi", "h264_amf", "h264_v4l2m2m"];
    assert_eq!(encoder_candidates(&Kind::Hardware), hardware);
    assert_eq!(encoder_candidates(&Kind::Software), vec!["libx264", "h264"]);
    let mut all = hardware.clone();
    all.extend(["libx264", "h264"]);
    assert_eq!(encoder_candidates(&Kind::Auto), all);
    assert_eq!(encoder_candidates(&Kind::Named("x".to_string())), vec!["x"]);
}

#[test]
fn the_first_encoder_that_opens_is_used() {
    let tried = RefCell::new(Vec::new());
    let encoder = Encoder::new(&Config::new(320, 240, 30), |name: &str, _: &OpenSettings| {
        tried.borrow_mut().push(name.to_string());
        if name == "h264_qsv" {
            Some(7u32)
        } else {
            None
        }
    })
    .unwrap();
    assert_eq!(encoder.name(), "h264_qsv");
    assert_eq!(encoder.codec, 7);
    assert_eq!(encoder.keyframe_count(), 0);
    assert_eq!(*tried.borrow(), vec!["h264_videotoolbox", "h264_nvenc", "h264_qsv"]);
}

#[test]
fn all_tried_encoders_are_named() {
    let config = Config {
        kind: Kind::Hardware,
        ..Config::new(320, 240, 30)
    };
    match Encoder::new(&config, software) {
        Err(Error::NoEncoder(tried)) => assert_eq!(
            tried,
            "h264_videotoolbox, h264_nvenc, h264_qsv, h264_vaapi, h264_amf, h264_v4l2m2m"
        ),
        _ => panic!("a hardware encoder was opened"),
    }
}

#[test]
fn new_rejects_an_empty_picture() {
    for (w, h, text) in [
        (0, 240, "encoder dimensions must be non-zero (got 0x240)"),
        (320, 0, "encoder dimensions must be non-zero (got 320x0)"),
    ] {
        match Encoder::new(&software_config(w, h, 30), software) {
            Err(Error::Codec(message)) => assert_eq!(message, text),
            _ => panic!("an empty picture was accepted"),
        }
    }
}

#[test]
fn settings_follow_the_configuration() {
    let mut config = Config::new(320, 240, 30);
    let s = open_settings("libx264", &config);
    assert_eq!((s.width, s.height, s.gop, s.max_b_frames), (320, 240, 60, 0));
    assert_eq!(s.time_base, (1, 30));
    assert_eq!(s.frame_rate, (30, 1));
    assert_eq!(s.bit_rate, 161_280);
    assert_eq!(
        s.options,
        vec![
            ("preset".to_string(), "ultrafast".to_string()),
            ("tune".to_string(), "zerolatency".to_string())
        ]
    );
    config.bitrate = Some(1_000_000);
    let s = open_settings("h264_videotoolbox", &config);
    assert_eq!(s.bit_rate, 1_000_000);
    assert_eq!(
        s.options,
        vec![("realtime".to_string(), "1".to_string()), ("allow_sw".to_string(), "1".to_string())]
    );
    assert!(open_settings("h264_nvenc", &config).options.is_empty());
}

#[test]
fn rows_land_where_the_stride_puts_them() {
    // 1x2 pixels, rows 6 bytes apart.
    let rgba = [1u8, 2, 3, 4, 5, 6, 7, 8];
    let plane = rgba_frame(&rgba, 1, 2, 6, vec![9u8; 12]).unwrap();
    assert_eq!(plane, vec![1, 2, 3, 4, 9, 9, 5, 6, 7, 8, 9, 9]);
    // The last row needs no padding, and what is too much is left out.
    let plane = rgba_frame(&[1, 2, 3, 4, 5, 6, 7, 8, 10], 1, 2, 5, vec![0u8; 9]).unwrap();
    assert_eq!(plane, vec![1, 2, 3, 4, 0, 5, 6, 7, 8]);
    assert_eq!(rgba_frame(&[], 0, 3, 4, vec![7u8; 8]).unwrap(), vec![7u8; 8]);
}

#[test]
fn a_short_buffer_is_explained() {
    match rgba_frame(&[0u8; 16], 320, 240, 1280, Vec::new()) {
        Err(Error::Codec(message)) => assert_eq!(message, "RGBA buffer too small: 16 < 307200 for 320x240"),
        _ => panic!("a short buffer was accepted"),
    }
    let picture = open(&software_config(2, 1, 30))
        .encode_rgba(&[1u8; 8], 2, 1, true, 8, vec![0u8; 8])
        .unwrap();
    assert_eq!(picture.plane, vec![1u8; 8]);
    assert!(picture.keyframe);
    assert_eq!((picture.width, picture.height), (2, 1));
}

#[test]
fn the_scaler_is_rebuilt_when_the_input_changes() {
    let mut encoder = open(&software_config(320, 240, 30));
    let a = Geometry { format: 26, width: 320, height: 240 };
    assert!(encoder.needs_scaler(a));
    encoder.scaler_built(a);
    assert!(!encoder.needs_scaler(a));
    assert!(encoder.needs_scaler(Geometry { format: 0, ..a }));
    assert!(encoder.needs_scaler(Geometry { width: 321, ..a }));
    assert!(encoder.needs_scaler(Geometry { height: 241, ..a }));
}

#[test]
fn frames_are_stamped_by_their_count() {
    let mut encoder = open(&software_config(320, 240, 30));
    assert_eq!(encoder.stamp(), 0);
    assert_eq!(encoder.stamp(), 1);
    assert_eq!(encoder.stamp(), 2);
}

#[test]
fn packets_are_collected() {
    let mut encoder = open(&software_config(320, 240, 30));
    let packets = vec![
        ReceivedPacket { key: true, data: Some(vec![0, 0, 0, 1, 0x65]) },
        ReceivedPacket { key: true, data: None },
        ReceivedPacket { key: false, data: Some(vec![0, 0, 1, 0x41]) },
    ];
    let out = encoder.encode_frame(Ok(()), &packets, DrainEnd::Again).unwrap();
    assert_eq!(out.len(), 2);
    assert_eq!(&out[0][..], &[0, 0, 0, 1, 0x65]);
    assert_eq!(&out[1][..], &[0, 0, 1, 0x41]);
    assert_eq!(encoder.keyframe_count(), 2);
    let out = encoder.finish(Ok(()), &packets, DrainEnd::Eof).unwrap();
    assert_eq!(out.len(), 2);
    assert_eq!(encoder.keyframe_count(), 4);
}

#[test]
fn a_failing_codec_is_reported() {
    let mut encoder = open(&software_config(320, 240, 30));
    let packets = vec![ReceivedPacket { key: true, data: Some(vec![1]) }];
    match encoder.encode_frame(Ok(()), &packets, DrainEnd::Failed("broken".to_string())) {
        Err(Error::Ffmpeg(why)) => assert_eq!(why, "broken"),
        _ => panic!("the failure was passed over"),
    }
    assert_eq!(encoder.keyframe_count(), 1);
    match encoder.finish(Err("closed".to_string()), &packets, DrainEnd::Eof) {
        Err(Error::Ffmpeg(why)) => assert_eq!(why, "closed"),
        _ => panic!("the failure was passed over"),
    }
    assert_eq!(encoder.keyframe_count(), 1);
}
