use moq_boy::clock::{Duration, TimestampOverflow};
use moq_boy::emulation::{EmulatorLoop, WhenIdle, LoopEffect, LoopEvent, Phase};
use moq_boy::emulator::Button;
use moq_boy::game::{CommandEffect, ResumeAction};
use moq_boy::input::{Command, TimestampEntry};

fn ms(n: u64) -> Duration {
    Duration::from_millis(n)
}

fn press(viewer: &str, seen: u64) -> Command {
    Command::Buttons {
        buttons: vec![Button::Start],
        viewer_id: viewer.to_string(),
        timestamps: vec![TimestampEntry { label: "render".to_string(), ts: ms(seen) }],
        client_ts: Some(9),
    }
}

#[test]
fn a_turn_runs_from_the_first_look_to_the_report() {
    let mut emu = EmulatorLoop::new(WhenIdle::Block, ms(0), 0);
    assert_eq!(emu.phase, Phase::Watch);
    assert!(matches!(emu.step(LoopEvent::Paused(false)), LoopEffect::Nothing));
    assert_eq!(emu.phase, Phase::Reading);
    assert!(matches!(emu.step(LoopEvent::Reading { elapsed: ms(100), encode_ms: 4 }), LoopEffect::Nothing));
    match emu.step(LoopEvent::Inbox(Some(press("v1", 60)))) {
        LoopEffect::Apply(CommandEffect::SetButtons { viewer_id, buttons }) => {
            assert_eq!(viewer_id, "v1");
            assert_eq!(buttons, vec![Button::Start]);
        }
        _ => panic!("the command was not applied"),
    }
    assert_eq!(emu.phase, Phase::Inbox);
    assert!(matches!(emu.step(LoopEvent::Inbox(None)), LoopEffect::Nothing));
    assert!(matches!(emu.step(LoopEvent::Clock { now: ms(100) }), LoopEffect::Nothing));
    match emu.step(LoopEvent::Woken { elapsed: ms(101), video: true, audio: true }) {
        LoopEffect::Frame(plan) => {
            assert_eq!(plan.elapsed, ms(101));
            assert!(plan.tick.video && plan.tick.audio && plan.tick.reset_epoch);
            assert_eq!(plan.tick.watermark, Some(9));
            assert_eq!(plan.timestamp, Some(Ok(101_000)));
        }
        _ => panic!("no frame"),
    }
    assert!(matches!(emu.step(LoopEvent::Done { now: ms(102), audio_packets: 0 }), LoopEffect::Nothing));
    assert_eq!(emu.phase, Phase::Watch);
    let status = emu.game.status(vec![], (), None);
    let stages: Vec<(&str, u32)> = status.latency[0].1.iter().map(|e| (e.label.as_str(), e.ms)).collect();
    assert_eq!(stages, vec![("encode", 4), ("render", 40), ("input", 40)]);
}

#[test]
fn a_pause_is_followed_by_a_restart_of_the_stream() {
    let mut emu = EmulatorLoop::new(WhenIdle::Block, ms(0), 0);
    emu.step(LoopEvent::Paused(true));
    assert_eq!(emu.phase, Phase::Paused);
    // Nothing but the end of the wait gets the loop going.
    assert!(matches!(emu.step(LoopEvent::Paused(false)), LoopEffect::Nothing));
    assert!(matches!(emu.step(LoopEvent::Inbox(Some(Command::Reset))), LoopEffect::Nothing));
    assert!(matches!(
        emu.step(LoopEvent::Woken { elapsed: ms(1), video: true, audio: true }),
        LoopEffect::Nothing
    ));
    assert_eq!(emu.phase, Phase::Paused);
    match emu.step(LoopEvent::Resumed { now: ms(8_000), audio_packets: 12 }) {
        LoopEffect::Resume(actions) => assert_eq!(
            actions,
            vec![ResumeAction::ResetTick, ResumeAction::ForceKeyframe, ResumeAction::ResetEpoch]
        ),
        _ => panic!("the stream was not restarted"),
    }
    assert_eq!(emu.phase, Phase::Reading);
    assert_eq!(emu.game.next_frame, ms(8_000));
    assert_eq!(emu.game.window_audio_start, 12);
}

#[test]
fn without_peers_the_loop_looks_again() {
    let mut emu = EmulatorLoop::new(WhenIdle::Poll, ms(0), 0);
    assert!(matches!(emu.step(LoopEvent::Paused(false)), LoopEffect::Nothing));
    assert_eq!(emu.phase, Phase::Watch);
    emu.step(LoopEvent::Peers { video: false, audio: false });
    assert_eq!(emu.phase, Phase::Paused);
    assert!(matches!(emu.step(LoopEvent::Resumed { now: ms(100), audio_packets: 0 }), LoopEffect::Resume(_)));
    assert_eq!(emu.phase, Phase::Watch);
    // The tracks that were watched when the turn began count, not those at the frame.
    emu.step(LoopEvent::Peers { video: false, audio: true });
    emu.step(LoopEvent::Reading { elapsed: ms(100), encode_ms: 0 });
    emu.step(LoopEvent::Inbox(None));
    emu.step(LoopEvent::Clock { now: ms(100) });
    match emu.step(LoopEvent::Woken { elapsed: ms(100), video: true, audio: false }) {
        LoopEffect::Frame(plan) => {
            assert!(!plan.tick.video && plan.tick.audio);
            assert_eq!(plan.timestamp, None);
        }
        _ => panic!("no frame"),
    }
}

#[test]
fn the_loop_sleeps_until_the_frame_is_due() {
    let mut emu = EmulatorLoop::new(WhenIdle::Block, ms(0), 0);
    for (now, slept) in [(0, None), (10, Some(Duration::from_micros(6_742)))] {
        emu.step(LoopEvent::Paused(false));
        emu.step(LoopEvent::Reading { elapsed: ms(now), encode_ms: 0 });
        emu.step(LoopEvent::Inbox(None));
        match (emu.step(LoopEvent::Clock { now: ms(now) }), slept) {
            (LoopEffect::Nothing, None) => {}
            (LoopEffect::Sleep(wait), Some(expected)) => assert_eq!(wait, expected),
            _ => panic!("the wait at {} ms is wrong", now),
        }
        emu.step(LoopEvent::Woken { elapsed: ms(now), video: false, audio: false });
        emu.step(LoopEvent::Done { now: ms(now), audio_packets: 0 });
    }
}

#[test]
fn the_loop_reports_what_it_did() {
    let mut emu = EmulatorLoop::new(WhenIdle::Block, ms(0), 5);
    emu.step(LoopEvent::Paused(false));
    emu.step(LoopEvent::Reading { elapsed: ms(0), encode_ms: 0 });
    assert!(matches!(emu.step(LoopEvent::Inbox(Some(Command::Reset))), LoopEffect::Apply(CommandEffect::Reset)));
    emu.step(LoopEvent::Inbox(None));
    emu.step(LoopEvent::Clock { now: ms(0) });
    let late = Duration { nanos: (1u128 << 62) * 1000 };
    match emu.step(LoopEvent::Woken { elapsed: late, video: true, audio: false }) {
        LoopEffect::Frame(plan) => assert_eq!(plan.timestamp, Some(Err(TimestampOverflow))),
        _ => panic!("no frame"),
    }
    match emu.step(LoopEvent::Done { now: ms(5_000), audio_packets: 7 }) {
        LoopEffect::Report(report) => {
            assert_eq!((report.commands, report.video_frames, report.audio_packets), (1, 1, 2));
        }
        _ => panic!("no report"),
    }
}
