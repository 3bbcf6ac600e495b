use bytes::Bytes;
use moq_boy::clock::Duration;
use moq_boy::encode::Kind;
use moq_boy::video::{byte_count, screen_config, EncoderConfig, FrameOutcome, Next, VideoEncoder, QUEUE_CAPACITY};

#[test]
fn sixty_frames_by_default() {
    let config = EncoderConfig::default();
    assert_eq!(config.framerate, 60);
    assert_eq!(config.bitrate, None);
    assert_eq!(QUEUE_CAPACITY, 4);
}

#[test]
fn the_screen_is_encoded_in_software() {
    let config = screen_config(&EncoderConfig { framerate: 30, bitrate: Some(1000) });
    assert_eq!((config.width, config.height, config.framerate), (160, 144, 30));
    assert_eq!(config.bitrate, Some(1000));
    assert_eq!(config.gop, 60);
    assert_eq!(config.kind, Kind::Software);
    assert_eq!(screen_config(&EncoderConfig::default()).resolved_bitrate(), 96_768);
}

#[test]
fn a_keyframe_is_forced_once() {
    let mut v = VideoEncoder::new();
    assert!(!v.start_frame());
    v.force_keyframe();
    assert!(v.start_frame());
    // Asked for while a frame is being encoded: the next one is forced.
    v.force_keyframe();
    assert_eq!(v.finish_frame(FrameOutcome::NotEncoded, Duration::from_micros(1)), Next::Continue);
    assert!(v.start_frame());
    assert!(!v.start_frame());
}

#[test]
fn published_frames_are_counted() {
    let mut v = VideoEncoder::new();
    let published = FrameOutcome::Published { bytes: 100, keyframes: 3 };
    assert_eq!(v.finish_frame(published, Duration::from_micros(1500)), Next::Continue);
    assert_eq!(v.finish_frame(published, Duration::from_micros(2500)), Next::Continue);
    assert_eq!(v.frames_encoded(), 2);
    assert_eq!(v.bytes_encoded(), 200);
    assert_eq!(v.keyframes_encoded(), 3);
    assert_eq!(v.encode_duration(), Duration::from_micros(2500));
    v.bytes_encoded = u64::MAX;
    v.finish_frame(published, Duration::from_micros(0));
    assert_eq!(v.bytes_encoded(), 99);
}

#[test]
fn a_bad_frame_is_tolerated() {
    let mut v = VideoEncoder::new();
    assert_eq!(v.finish_frame(FrameOutcome::NotEncoded, Duration::from_micros(7)), Next::Continue);
    assert_eq!(v.frames_encoded(), 0);
    assert_eq!(v.encode_duration(), Duration::from_micros(7));
}

#[test]
fn without_encoder_or_track_there_is_no_point() {
    for outcome in [FrameOutcome::NoEncoder, FrameOutcome::NotPublished] {
        let mut v = VideoEncoder::new();
        v.force_keyframe();
        let before = v;
        assert_eq!(v.finish_frame(outcome, Duration::from_micros(7)), Next::Stop);
        assert_eq!(v, before);
    }
}

#[test]
fn bytes_of_packets_are_summed() {
    let packets = vec![Bytes::from_static(&[1, 2, 3]), Bytes::new(), Bytes::from_static(&[4])];
    assert_eq!(byte_count(&packets), 4);
    assert_eq!(byte_count(&vec![]), 0);
}

#[test]
fn counters_add_up_over_a_run() {
    let mut v = VideoEncoder::new();
    let ms = Duration::from_millis(2);
    let mut forced = Vec::new();
    v.force_keyframe();
    for (i, outcome) in [
        FrameOutcome::Published { bytes: 100, keyframes: 1 },
        FrameOutcome::NotEncoded,
        FrameOutcome::Published { bytes: 7, keyframes: 1 },
        FrameOutcome::Published { bytes: 50, keyframes: 2 },
    ]
    .into_iter()
    .enumerate()
    {
        forced.push(v.start_frame());
        if i == 1 {
            // Requested while a frame is being encoded.
            v.force_keyframe();
        }
        assert_eq!(v.finish_frame(outcome, ms), Next::Continue);
    }
    assert_eq!(forced, vec![true, false, true, false]);
    assert_eq!((v.frames_encoded(), v.bytes_encoded(), v.keyframes_encoded()), (3, 157, 2));
    v.start_frame();
    assert_eq!(v.finish_frame(FrameOutcome::NotPublished, ms), Next::Stop);
    assert_eq!((v.frames_encoded(), v.bytes_encoded(), v.keyframes_encoded()), (3, 157, 2));
}
