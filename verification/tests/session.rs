use moq_boy::session::{
    relay_monitor, MonitorStep, RelayEvent, RelayReport, RelayWaiting, Session, Track, Waiting, Wake,
};
use moq_boy::table::Table;

#[test]
fn relay_sessions_pause_when_both_tracks_are_unused() {
    let mut s = Session::new();
    assert!(s.paused && !s.video_active && !s.audio_active);
    assert_eq!(s.relay_event(RelayEvent::Used(Track::Video)), Wake::Notify);
    assert!(!s.paused && s.video_active && !s.audio_active);
    assert_eq!(s.relay_event(RelayEvent::Used(Track::Audio)), Wake::Notify);
    assert_eq!(s.relay_event(RelayEvent::Unused(Track::Video)), Wake::Keep);
    assert!(!s.paused && !s.video_active && s.audio_active);
    assert_eq!(s.relay_event(RelayEvent::Unused(Track::Audio)), Wake::Keep);
    assert!(!s.paused);
    assert_eq!(s.relay_event(RelayEvent::BothUnused), Wake::Keep);
    assert!(s.paused);
    assert_eq!(s.relay_event(RelayEvent::EitherUsed), Wake::Notify);
    assert!(!s.paused);
    s.relay_event(RelayEvent::BothUnused);
    assert_eq!(s.relay_event(RelayEvent::Closed), Wake::Notify);
    assert!(!s.paused);
}

#[test]
fn server_sessions_pause_with_the_last_viewer() {
    let mut s = Session::new();
    assert_eq!(s.session_opened(), Wake::Notify);
    assert_eq!(s.session_opened(), Wake::Notify);
    assert!(!s.paused);
    s.session_closed();
    assert!(!s.paused);
    assert_eq!(s.session_count, 1);
    s.session_closed();
    assert!(s.paused);
    assert_eq!(s, Session::new());
}

#[test]
fn the_monitor_follows_the_viewers() {
    let mut s = Session::new();
    assert_eq!(s.monitor(Waiting::ForIdle), (MonitorStep::Paused, Waiting::ForViewer));
    assert_eq!(s.monitor(Waiting::ForViewer), (MonitorStep::Sleep, Waiting::ForViewer));
    s.session_opened();
    assert_eq!(s.monitor(Waiting::ForViewer), (MonitorStep::Resumed, Waiting::ForIdle));
    assert!(s.video_active && s.audio_active && !s.paused);
    assert_eq!(s.monitor(Waiting::ForIdle), (MonitorStep::Sleep, Waiting::ForIdle));
    s.session_closed();
    assert_eq!(s.monitor(Waiting::ForIdle), (MonitorStep::Paused, Waiting::ForViewer));
    assert!(!s.video_active && !s.audio_active && s.paused);
}

#[test]
fn tables_name_their_values() {
    let mut t: Table<u32> = Table::new();
    assert_eq!(t.len(), 0);
    t.insert("a".to_string(), 1);
    t.insert("b".to_string(), 2);
    t.insert("a".to_string(), 3);
    assert_eq!(t.len(), 2);
    assert_eq!(t.get("a"), Some(&3));
    assert_eq!(t.at(0), ("a", &3));
    assert_eq!(t.at(1), ("b", &2));
    *t.at_mut(1) = 5;
    assert!(t.contains("b") && !t.contains("c"));
    assert_eq!(t.remove("a"), Some(3));
    assert_eq!(t.remove("a"), None);
    assert_eq!(t.get("a"), None);
    assert_eq!(t.get("b"), Some(&5));
}

#[test]
fn sessions_are_counted_over_a_run() {
    let mut s = Session::new();
    let mut waiting = Waiting::ForIdle;
    let mut open = 0usize;
    for step in "+-++.-.+--.+.-.".chars() {
        match step {
            '+' => {
                s.session_opened();
                open += 1;
            }
            '-' => {
                s.session_closed();
                open -= 1;
            }
            _ => waiting = s.monitor(waiting).1,
        }
        assert_eq!(s.session_count, open);
        assert_eq!(s.paused, open == 0);
    }
}

#[test]
fn a_table_keeps_the_order_of_its_names() {
    let mut t: Table<u32> = Table::new();
    for (name, value) in [("c", 1), ("a", 2), ("b", 3), ("c", 4)] {
        t.insert(name.to_string(), value);
    }
    let order = |t: &Table<u32>| -> Vec<(String, u32)> {
        (0..t.len()).map(|i| (t.at(i).0.to_string(), *t.at(i).1)).collect()
    };
    assert_eq!(order(&t), vec![("c".to_string(), 4), ("a".to_string(), 2), ("b".to_string(), 3)]);
    assert_eq!(t.remove("a"), Some(2));
    assert_eq!(t.remove("a"), None);
    assert_eq!(order(&t), vec![("c".to_string(), 4), ("b".to_string(), 3)]);
}

#[test]
fn the_relay_monitor_waits_in_turn() {
    let mut s = Session::new();
    s.relay_event(RelayEvent::Used(Track::Video));
    s.relay_event(RelayEvent::Unused(Track::Video));
    let mut waiting = RelayWaiting::ForBothUnused;
    for paused in [true, false, true] {
        let (event, next) = relay_monitor(waiting, RelayReport::CameAbout);
        assert_eq!(event, if paused { RelayEvent::BothUnused } else { RelayEvent::EitherUsed });
        s.relay_event(event);
        assert_eq!(s.paused, paused);
        waiting = next;
    }
    assert_eq!(waiting, RelayWaiting::ForEitherUsed);
    // A viewer of either track resumes emulation while the monitor waits.
    s.relay_event(RelayEvent::Used(Track::Audio));
    assert!(!s.paused);
    s.relay_event(RelayEvent::BothUnused);
    for waiting in [RelayWaiting::ForEitherUsed, RelayWaiting::ForBothUnused, RelayWaiting::Ended] {
        let ended = relay_monitor(waiting, RelayReport::TrackClosed);
        assert_eq!(ended, (RelayEvent::Closed, RelayWaiting::Ended));
    }
    s.relay_event(RelayEvent::Closed);
    assert!(!s.paused);
}
