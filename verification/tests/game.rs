use moq_boy::clock::{frame_timestamp, timestamp_from_micros, Duration, TimestampOverflow};
use moq_boy::emulator::{Button, HEIGHT, WIDTH};
use moq_boy::game::{latency_breakdown, webrtc_idle, CommandEffect, GameLoop, LatencyEntry, ResumeAction};
use moq_boy::input::{
    announced, frame_text, viewer_command, viewer_left, Command, InputError, RawCommand, RawTimestamp,
    TimestampEntry, ViewerEvent,
};

fn ms(n: u64) -> Duration {
    Duration::from_millis(n)
}

fn stamp(label: &str, at: u64) -> TimestampEntry {
    TimestampEntry { label: label.to_string(), ts: ms(at) }
}

fn pairs(entries: &[LatencyEntry]) -> Vec<(String, u32)> {
    entries.iter().map(|e| (e.label.clone(), e.ms)).collect()
}

fn buttons(viewer: &str, timestamps: Vec<TimestampEntry>, client_ts: Option<u64>) -> Command {
    Command::Buttons {
        buttons: vec![Button::A],
        viewer_id: viewer.to_string(),
        timestamps,
        client_ts,
    }
}

#[test]
fn spans_of_time() {
    assert_eq!(Duration::from_micros(1_999).as_millis(), 1);
    assert_eq!(Duration { nanos: 1_999 }.as_micros(), 1);
    assert_eq!(ms(3).saturating_sub(ms(1)), ms(2));
    assert_eq!(ms(1).saturating_sub(ms(3)), ms(0));
    assert_eq!(ms(u32::MAX as u64).as_millis_saturating(), u32::MAX);
    assert_eq!(ms(u32::MAX as u64 + 1).as_millis_saturating(), u32::MAX);
    assert_eq!(Duration { nanos: (1u128 << 64) * 1000 + 5000 }.as_micros_u64(), 5);
}

#[test]
fn media_timestamps_end_at_62_bits() {
    assert_eq!(timestamp_from_micros(16_742), Ok(16_742));
    assert_eq!(timestamp_from_micros((1 << 62) - 1), Ok((1 << 62) - 1));
    assert_eq!(timestamp_from_micros(1 << 62), Err(TimestampOverflow));
    assert_eq!(frame_timestamp(Duration { nanos: 1_234_567_890 }), Ok(1_234_567));
    assert_eq!(frame_timestamp(Duration { nanos: (1u128 << 62) * 1000 }), Err(TimestampOverflow));
}

#[test]
fn latencies_count_from_the_reported_timestamps() {
    let entries = latency_breakdown(ms(100), 7, &vec![stamp("render", 60), stamp("decode", 40), stamp("future", 200)]);
    assert_eq!(
        pairs(&entries),
        vec![
            ("encode".to_string(), 7),
            ("render".to_string(), 40),
            ("decode".to_string(), 60),
            ("future".to_string(), 0),
            ("input".to_string(), 60),
        ]
    );
    assert_eq!(pairs(&latency_breakdown(ms(100), 7, &vec![])), vec![("encode".to_string(), 7)]);
    let far = latency_breakdown(ms(10_000_000_000), 0, &vec![stamp("x", 0)]);
    assert_eq!(far[1].ms, u32::MAX);
}

#[test]
fn commands_update_the_viewers() {
    let mut game = GameLoop::new(ms(0), 0);
    match game.command(buttons("v1", vec![stamp("render", 10)], Some(77)), ms(30), 5) {
        CommandEffect::SetButtons { viewer_id, buttons } => {
            assert_eq!(viewer_id, "v1");
            assert_eq!(buttons, vec![Button::A]);
        }
        other => panic!("{:?}", other),
    }
    assert_eq!(game.pending_client_ts, Some(77));
    game.command(buttons("v2", vec![], None), ms(30), 6);
    assert_eq!(game.pending_client_ts, Some(77));
    let status = game.status(vec![Button::B], 3u8, Some("Dallas".to_string()));
    assert_eq!(status.buttons, vec![Button::B]);
    assert_eq!(status.stats, 3);
    assert_eq!(status.location, Some("Dallas".to_string()));
    assert_eq!(status.latency.len(), 2);
    assert_eq!(status.latency[0].0, "v1");
    assert_eq!(
        pairs(&status.latency[0].1),
        vec![("encode".to_string(), 5), ("render".to_string(), 20), ("input".to_string(), 20)]
    );
    assert!(matches!(game.command(viewer_left("v1"), ms(31), 0), CommandEffect::ViewerLeft { viewer_id } if viewer_id == "v1"));
    assert_eq!(game.status(vec![], (), None).latency.len(), 1);
    assert!(matches!(game.command(Command::Reset, ms(32), 0), CommandEffect::Reset));
    assert_eq!(game.status(vec![], (), None).latency.len(), 1);
    assert_eq!(game.window_commands, 4);
}

#[test]
fn frames_keep_pace_with_the_clock() {
    let mut game = GameLoop::new(ms(0), 0);
    assert_eq!(game.next_wait(ms(0)), None);
    assert_eq!(game.next_wait(ms(10)), Some(Duration::from_micros(6_742)));
    // A late frame does not shift the ones after it.
    assert_eq!(game.next_wait(ms(40)), None);
    assert_eq!(game.next_frame, Duration::from_micros(3 * 16_742));
    // After a pause there is nothing to catch up with.
    let actions = game.resume(ms(60_000), 9);
    assert_eq!(actions, vec![ResumeAction::ResetTick, ResumeAction::ForceKeyframe, ResumeAction::ResetEpoch]);
    assert_eq!(game.next_wait(ms(60_000)), None);
    assert_eq!(game.window_audio_start, 9);
}

#[test]
fn a_client_timestamp_is_drawn_once() {
    let mut game = GameLoop::new(ms(0), 0);
    game.command(buttons("v", vec![], Some(5)), ms(0), 0);
    assert_eq!(game.tick(false, false).watermark, None);
    assert_eq!(game.tick(true, false).watermark, Some(5));
    assert_eq!(game.tick(true, false).watermark, None);
}

#[test]
fn audio_is_anchored_when_it_comes_back() {
    let mut game = GameLoop::new(ms(0), 0);
    let plan = game.tick(true, true);
    assert!(plan.audio && plan.reset_epoch && plan.video);
    assert!(!game.tick(true, true).reset_epoch);
    let plan = game.tick(true, false);
    assert!(!plan.audio && !plan.reset_epoch);
    assert!(game.tick(false, true).reset_epoch);
}

#[test]
fn reports_come_every_five_seconds() {
    let mut game = GameLoop::new(ms(0), 100);
    game.tick(true, true);
    game.tick(true, true);
    game.tick(false, true);
    game.command(Command::Reset, ms(0), 0);
    assert_eq!(game.report(ms(4_999), 130), None);
    let report = game.report(ms(5_000), 150).unwrap();
    assert_eq!((report.commands, report.video_frames, report.audio_packets), (1, 2, 50));
    assert_eq!(game.report(ms(9_999), 150), None);
    let report = game.report(ms(10_000), 150).unwrap();
    assert_eq!((report.commands, report.video_frames, report.audio_packets), (0, 0, 0));
}

#[test]
fn without_tracks_there_is_nothing_to_do() {
    assert!(webrtc_idle(false, false));
    assert!(!webrtc_idle(true, false));
    assert!(!webrtc_idle(false, true));
}

#[test]
fn buttons_have_names() {
    let names = ["up", "down", "left", "right", "a", "b", "start", "select"];
    let all = [
        Button::Up,
        Button::Down,
        Button::Left,
        Button::Right,
        Button::A,
        Button::B,
        Button::Start,
        Button::Select,
    ];
    for (name, button) in names.iter().zip(all) {
        assert_eq!(Button::from_name(name), Some(button));
    }
    assert_eq!(Button::from_name("UP"), None);
    assert_eq!((WIDTH, HEIGHT), (160, 144));
}

#[test]
fn viewers_are_announced() {
    assert!(matches!(announced("v", true), ViewerEvent::Subscribe));
    assert!(matches!(
        announced("v", false),
        ViewerEvent::Send(Command::ViewerLeft { viewer_id }) if viewer_id == "v"
    ));
}

#[test]
fn command_frames_are_text() {
    assert_eq!(frame_text("h\u{e9}".as_bytes()), Ok("h\u{e9}"));
    assert_eq!(frame_text(b"\xc3"), Err(InputError::InvalidUtf8));
}

#[test]
fn messages_get_their_viewer() {
    let message = RawCommand::Buttons {
        buttons: vec![Button::Start],
        timestamps: vec![
            RawTimestamp { label: "a".to_string(), ts: Some(ms(1)) },
            RawTimestamp { label: "negative".to_string(), ts: None },
            RawTimestamp { label: "b".to_string(), ts: Some(ms(2)) },
        ],
        client_ts: Some(4),
    };
    match viewer_command("v", Some(message)) {
        Some(Command::Buttons { buttons, viewer_id, timestamps, client_ts }) => {
            assert_eq!(buttons, vec![Button::Start]);
            assert_eq!(viewer_id, "v");
            assert_eq!(client_ts, Some(4));
            let kept: Vec<(String, Duration)> = timestamps.into_iter().map(|t| (t.label, t.ts)).collect();
            assert_eq!(kept, vec![("a".to_string(), ms(1)), ("b".to_string(), ms(2))]);
        }
        other => panic!("{:?}", other),
    }
    assert!(matches!(viewer_command("v", Some(RawCommand::Reset)), Some(Command::Reset)));
    assert!(viewer_command("v", None).is_none());
}
