//! The pause state of a game session.
//!
//! Nobody watching means nothing to emulate. In relay mode the tracks tell who
//! is watching:
//!
//! ```text
//!   video_active -+
//!                 +- both false -> paused (emulation stops)
//!   audio_active -+
//!                    either true -> resumed
//! ```
//!
//! In server mode the number of sessions does:
//!
//! ```text
//!   session_count == 0 -> paused
//!   session_count > 0  -> resumed
//! ```

use vstd::prelude::*;

verus! {

/// A media track.
#[derive(Clone, Copy, Debug, PartialEq, Eq, Structural)]
pub enum Track {
    Video,
    Audio,
}

/// Whether the emulator thread has to be woken up.
#[derive(Clone, Copy, Debug, PartialEq, Eq, Structural)]
pub enum Wake {
    Notify,
    Keep,
}

/// The state that decides whether the emulator runs.
#[derive(Clone, Copy, Debug, PartialEq, Eq, Structural)]
pub struct Session {
    /// Whether anyone watches the video track.
    pub video_active: bool,
    /// Whether anyone listens to the audio track.
    pub audio_active: bool,
    /// The number of connected viewers (server mode).
    pub session_count: usize,
    /// Whether emulation is paused.
    pub paused: bool,
}

/// What the tracks of a relay report.
#[derive(Clone, Copy, Debug, PartialEq, Eq, Structural)]
pub enum RelayEvent {
    /// A viewer subscribed to a track.
    Used(Track),
    /// The last viewer of a track unsubscribed.
    Unused(Track),
    /// Both tracks were found without viewers.
    BothUnused,
    /// One of the tracks was found to have a viewer again.
    EitherUsed,
    /// A track was closed, which ends the monitoring.
    Closed,
}

/// The state after an event of the relay.
pub open spec fn after_relay_event(s: Session, event: RelayEvent) -> Session {
    match event {
        RelayEvent::Used(Track::Video) => Session { video_active: true, paused: false, ..s },
        RelayEvent::Used(Track::Audio) => Session { audio_active: true, paused: false, ..s },
        RelayEvent::Unused(Track::Video) => Session { video_active: false, ..s },
        RelayEvent::Unused(Track::Audio) => Session { audio_active: false, ..s },
        RelayEvent::BothUnused => Session { paused: true, ..s },
        RelayEvent::EitherUsed => Session { paused: false, ..s },
        RelayEvent::Closed => Session { paused: false, ..s },
    }
}

/// What the pause monitor of a relay waits for.
#[derive(Clone, Copy, Debug, PartialEq, Eq, Structural)]
pub enum RelayWaiting {
    /// For both tracks to become unused.
    ForBothUnused,
    /// For either track to become used.
    ForEitherUsed,
    /// For nothing any more: a track was closed.
    Ended,
}

/// What came of waiting.
#[derive(Clone, Copy, Debug, PartialEq, Eq, Structural)]
pub enum RelayReport {
    /// What was waited for came about.
    CameAbout,
    /// A track was closed.
    TrackClosed,
}

/// The event that a report to the pause monitor amounts to, and what the monitor
/// waits for then.
pub open spec fn relay_monitor_step(waiting: RelayWaiting, report: RelayReport) -> (
    RelayEvent,
    RelayWaiting,
) {
    match (waiting, report) {
        (RelayWaiting::ForBothUnused, RelayReport::CameAbout) => (
            RelayEvent::BothUnused,
            RelayWaiting::ForEitherUsed,
        ),
        (RelayWaiting::ForEitherUsed, RelayReport::CameAbout) => (
            RelayEvent::EitherUsed,
            RelayWaiting::ForBothUnused,
        ),
        _ => (RelayEvent::Closed, RelayWaiting::Ended),
    }
}

/// One step of the pause monitor (relay mode): it pauses when both tracks are
/// unused, resumes when either becomes used, and ends when a track is closed.
pub fn relay_monitor(waiting: RelayWaiting, report: RelayReport) -> (r: (RelayEvent, RelayWaiting))
    ensures
        r == relay_monitor_step(waiting, report),
{
    match report {
        RelayReport::TrackClosed => (RelayEvent::Closed, RelayWaiting::Ended),
        RelayReport::CameAbout => match waiting {
            RelayWaiting::ForBothUnused => (RelayEvent::BothUnused, RelayWaiting::ForEitherUsed),
            RelayWaiting::ForEitherUsed => (RelayEvent::EitherUsed, RelayWaiting::ForBothUnused),
            RelayWaiting::Ended => (RelayEvent::Closed, RelayWaiting::Ended),
        },
    }
}

/// The state after a viewer connected.
pub open spec fn after_open(s: Session) -> Session {
    Session { session_count: (s.session_count + 1) as usize, paused: false, ..s }
}

/// The state after a viewer disconnected. The last one pauses emulation.
pub open spec fn after_close(s: Session) -> Session {
    Session {
        session_count: (s.session_count - 1) as usize,
        paused: if s.session_count == 1 {
            true
        } else {
            s.paused
        },
        ..s
    }
}

/// What the session monitor waits for.
#[derive(Clone, Copy, Debug, PartialEq, Eq, Structural)]
pub enum Waiting {
    /// For the last viewer to leave.
    ForIdle,
    /// For a viewer to connect.
    ForViewer,
}

/// What the session monitor does next.
#[derive(Clone, Copy, Debug, PartialEq, Eq, Structural)]
pub enum MonitorStep {
    /// Look again after a moment.
    Sleep,
    /// Emulation was paused.
    Paused,
    /// Emulation was resumed: the emulator thread has to be woken up.
    Resumed,
}

/// What the session monitor does, what it waits for then, and the state after
/// it.
pub open spec fn monitor_step(s: Session, waiting: Waiting) -> (MonitorStep, Waiting, Session) {
    match waiting {
        Waiting::ForIdle => if s.session_count > 0 {
            (MonitorStep::Sleep, Waiting::ForIdle, s)
        } else {
            (
                MonitorStep::Paused,
                Waiting::ForViewer,
                Session { video_active: false, audio_active: false, paused: true, ..s },
            )
        },
        Waiting::ForViewer => if s.session_count == 0 {
            (MonitorStep::Sleep, Waiting::ForViewer, s)
        } else {
            (
                MonitorStep::Resumed,
                Waiting::ForIdle,
                Session { video_active: true, audio_active: true, paused: false, ..s },
            )
        },
    }
}

/// How long the session monitor sleeps between looks, in milliseconds.
pub const MONITOR_POLL_MS: u64 = 100;

impl Session {
    /// A session starts paused, until its first viewer.
    pub fn new() -> (r: Session)
        ensures
            r == (Session {
                video_active: false,
                audio_active: false,
                session_count: 0,
                paused: true,
            }),
    {
        Session { video_active: false, audio_active: false, session_count: 0, paused: true }
    }

    /// Take note of what the tracks of a relay report. The emulator thread is
    /// woken up whenever emulation resumes, and when the monitoring ends, so
    /// that it is not stuck.
    pub fn relay_event(&mut self, event: RelayEvent) -> (r: Wake)
        ensures
            *final(self) == after_relay_event(*old(self), event),
            r == if event is Used || event is EitherUsed || event is Closed {
                Wake::Notify
            } else {
                Wake::Keep
            },
    {
        match event {
            RelayEvent::Used(track) => {
                match track {
                    Track::Video => {
                        self.video_active = true;
                    },
                    Track::Audio => {
                        self.audio_active = true;
                    },
                }
                self.paused = false;
                Wake::Notify
            },
            RelayEvent::Unused(track) => {
                match track {
                    Track::Video => {
                        self.video_active = false;
                    },
                    Track::Audio => {
                        self.audio_active = false;
                    },
                }
                Wake::Keep
            },
            RelayEvent::BothUnused => {
                self.paused = true;
                Wake::Keep
            },
            RelayEvent::EitherUsed => {
                self.paused = false;
                Wake::Notify
            },
            RelayEvent::Closed => {
                self.paused = false;
                Wake::Notify
            },
        }
    }

    /// A viewer connected (server mode).
    pub fn session_opened(&mut self) -> (r: Wake)
        requires
            old(self).session_count < usize::MAX,
        ensures
            *final(self) == after_open(*old(self)),
            r == Wake::Notify,
    {
        self.session_count += 1;
        self.paused = false;
        Wake::Notify
    }

    /// A viewer disconnected (server mode).
    pub fn session_closed(&mut self)
        requires
            old(self).session_count > 0,
        ensures
            *final(self) == after_close(*old(self)),
    {
        if self.session_count == 1 {
            self.paused = true;
        }
        self.session_count -= 1;
    }

    /// One look of the session monitor (server mode).
    pub fn monitor(&mut self, waiting: Waiting) -> (r: (MonitorStep, Waiting))
        ensures
            (r.0, r.1, *final(self)) == monitor_step(*old(self), waiting),
    {
        match waiting {
            Waiting::ForIdle => {
                if self.session_count > 0 {
                    return (MonitorStep::Sleep, Waiting::ForIdle);
                }
                self.video_active = false;
                self.audio_active = false;
                self.paused = true;
                (MonitorStep::Paused, Waiting::ForViewer)
            },
            Waiting::ForViewer => {
                if self.session_count == 0 {
                    return (MonitorStep::Sleep, Waiting::ForViewer);
                }
                self.video_active = true;
                self.audio_active = true;
                self.paused = false;
                (MonitorStep::Resumed, Waiting::ForIdle)
            },
        }
    }
}

// Laws: server mode

/// Emulation is paused exactly while no viewer is connected.
pub open spec fn paused_iff_alone(s: Session) -> bool {
    s.paused <==> s.session_count == 0
}

/// In server mode emulation is paused exactly while no viewer is connected:
/// that is so at the start, and connecting, disconnecting and the session
/// monitor keep it so.
pub proof fn law_server_paused_iff_alone(s: Session, waiting: Waiting)
    requires
        paused_iff_alone(s),
    ensures
        s.session_count < usize::MAX ==> paused_iff_alone(after_open(s)),
        s.session_count > 0 ==> paused_iff_alone(after_close(s)),
        paused_iff_alone(monitor_step(s, waiting).2),
        paused_iff_alone(
            Session { video_active: false, audio_active: false, session_count: 0, paused: true },
        ),
{
}

/// A viewer that connects and disconnects again leaves the number of viewers
/// and the pause state as they were.
pub proof fn law_open_then_close(s: Session)
    requires
        paused_iff_alone(s),
        s.session_count < usize::MAX,
    ensures
        after_close(after_open(s)) == s,
{
}

/// Once the session monitor has seen the number of viewers change between none
/// and some, both tracks are active exactly while there are viewers.
pub proof fn law_monitor_follows_viewers(s: Session, waiting: Waiting)
    ensures
        monitor_step(s, waiting).0 is Paused ==> !monitor_step(s, waiting).2.video_active
            && !monitor_step(s, waiting).2.audio_active && s.session_count == 0,
        monitor_step(s, waiting).0 is Resumed ==> monitor_step(s, waiting).2.video_active
            && monitor_step(s, waiting).2.audio_active && s.session_count > 0,
        monitor_step(s, waiting).0 is Sleep ==> monitor_step(s, waiting).2 == s,
{
}

/// What happens in server mode.
pub enum ServerEvent {
    /// A viewer's session was established.
    Opened,
    /// A viewer's session was closed.
    Closed,
    /// A viewer's handshake failed.
    Failed,
    /// The session monitor looks.
    Look,
}

/// The state, and what the session monitor waits for, after an event.
pub open spec fn after_server_event(
    at: (Session, Waiting),
    event: ServerEvent,
) -> (Session, Waiting) {
    match event {
        ServerEvent::Opened => (after_open(at.0), at.1),
        ServerEvent::Closed => (after_close(at.0), at.1),
        ServerEvent::Failed => at,
        ServerEvent::Look => (monitor_step(at.0, at.1).2, monitor_step(at.0, at.1).1),
    }
}

/// The state, and what the session monitor waits for, after a run of events.
pub open spec fn after_server_events(
    at: (Session, Waiting),
    events: Seq<ServerEvent>,
) -> (Session, Waiting)
    decreases events.len(),
{
    if events.len() == 0 {
        at
    } else {
        after_server_event(after_server_events(at, events.drop_last()), events.last())
    }
}

/// The sessions established in a run, less those closed.
pub open spec fn still_open(events: Seq<ServerEvent>) -> int
    decreases events.len(),
{
    if events.len() == 0 {
        0
    } else {
        still_open(events.drop_last()) + match events.last() {
            ServerEvent::Opened => 1int,
            ServerEvent::Closed => -1int,
            _ => 0int,
        }
    }
}

/// Whether no more sessions are closed than were established, at any time, and
/// no more are open than can be counted.
pub open spec fn countable(events: Seq<ServerEvent>) -> bool {
    forall|i: int| 0 <= i <= events.len() ==> 0 <= #[trigger] still_open(events.take(i)) <= usize::MAX
}

/// Whatever happens in server mode, the sessions that are counted are those
/// established less those closed, and emulation is paused exactly while there
/// are none. A failed handshake counts for nothing.
pub proof fn law_server_run(at: (Session, Waiting), events: Seq<ServerEvent>)
    requires
        at.0.session_count == 0,
        at.0.paused,
        countable(events),
    ensures
        ({
            let after = after_server_events(at, events).0;
            &&& after.session_count == still_open(events)
            &&& paused_iff_alone(after)
        }),
    decreases events.len(),
{
    assert(events.take(events.len() as int) =~= events);
    if events.len() > 0 {
        let front = events.drop_last();
        assert(countable(front)) by {
            assert forall|i: int| 0 <= i <= front.len() implies 0 <= #[trigger] still_open(front.take(i))
                <= usize::MAX by {
                assert(front.take(i) =~= events.take(i));
            }
        }
        law_server_run(at, front);
        assert(still_open(events.take(events.len() as int)) >= 0);
    }
}

/// After any run of events in server mode, establishing a session resumes
/// emulation, closing the last one pauses it, and closing another one leaves it
/// as it is.
pub proof fn law_server_run_goes_on(at: (Session, Waiting), events: Seq<ServerEvent>)
    requires
        at.0.session_count == 0,
        at.0.paused,
        countable(events),
    ensures
        ({
            let now = after_server_events(at, events);
            &&& !after_server_event(now, ServerEvent::Opened).0.paused
            &&& still_open(events) == 1 ==> after_server_event(now, ServerEvent::Closed).0.paused
            &&& still_open(events) > 1 ==> after_server_event(now, ServerEvent::Closed).0.paused
                == now.0.paused
            &&& after_server_event(now, ServerEvent::Failed) == now
        }),
{
    law_server_run(at, events);
}

// Laws: relay mode

/// What happens in relay mode.
pub enum RelayStep {
    /// The monitor of a track found that it is watched.
    Used(Track),
    /// The monitor of a track found that it is not watched any more.
    Unused(Track),
    /// The pause monitor got a report.
    Report(RelayReport),
}

/// The state, and what the pause monitor waits for, after a step.
pub open spec fn after_relay_step(at: (Session, RelayWaiting), step: RelayStep) -> (
    Session,
    RelayWaiting,
) {
    match step {
        RelayStep::Used(track) => (after_relay_event(at.0, RelayEvent::Used(track)), at.1),
        RelayStep::Unused(track) => (after_relay_event(at.0, RelayEvent::Unused(track)), at.1),
        RelayStep::Report(report) => {
            let (event, next) = relay_monitor_step(at.1, report);
            (after_relay_event(at.0, event), next)
        },
    }
}

/// The state, and what the pause monitor waits for, after a run of steps.
pub open spec fn after_relay_steps(at: (Session, RelayWaiting), steps: Seq<RelayStep>) -> (
    Session,
    RelayWaiting,
)
    decreases steps.len(),
{
    if steps.len() == 0 {
        at
    } else {
        after_relay_step(after_relay_steps(at, steps.drop_last()), steps.last())
    }
}

/// Whether the pause monitor is told that both tracks are unused only while
/// neither is known to be watched.
pub open spec fn told_in_time(at: (Session, RelayWaiting), steps: Seq<RelayStep>) -> bool {
    forall|i: int|
        0 <= i < steps.len() && #[trigger] steps[i] == RelayStep::Report(RelayReport::CameAbout) ==> {
            let (before, waiting) = after_relay_steps(at, steps.take(i));
            waiting is ForBothUnused ==> !before.video_active && !before.audio_active
        }
}

/// However the monitors of the tracks and the pause monitor take turns,
/// emulation is not paused while a track is known to be watched, as long as the
/// pause monitor is told in time.
pub proof fn law_relay_not_paused_while_watched(
    at: (Session, RelayWaiting),
    steps: Seq<RelayStep>,
)
    requires
        at.0.paused ==> !at.0.video_active && !at.0.audio_active,
        told_in_time(at, steps),
    ensures
        ({
            let after = after_relay_steps(at, steps).0;
            after.paused ==> !after.video_active && !after.audio_active
        }),
    decreases steps.len(),
{
    if steps.len() > 0 {
        let front = steps.drop_last();
        assert(told_in_time(at, front)) by {
            assert forall|i: int|
                0 <= i < front.len() && #[trigger] front[i] == RelayStep::Report(
                    RelayReport::CameAbout,
                ) implies {
                let (before, waiting) = after_relay_steps(at, front.take(i));
                waiting is ForBothUnused ==> !before.video_active && !before.audio_active
            } by {
                assert(steps[i] == front[i]);
                assert(front.take(i) =~= steps.take(i));
            }
        }
        law_relay_not_paused_while_watched(at, front);
        assert(front =~= steps.take(steps.len() - 1));
        assert(steps[steps.len() - 1] == steps.last());
    }
}

/// Whatever happens in relay mode once emulation runs: only the pause monitor
/// pauses it, upon which it waits for a viewer. So emulation stands still only
/// while the monitor waits for one, and never after the monitor has ended.
pub proof fn law_relay_paused_only_while_waiting(
    at: (Session, RelayWaiting),
    steps: Seq<RelayStep>,
)
    requires
        at.0.paused ==> at.1 is ForEitherUsed,
    ensures
        ({
            let (after, waiting) = after_relay_steps(at, steps);
            &&& after.paused ==> waiting is ForEitherUsed
            &&& after.session_count == at.0.session_count
        }),
    decreases steps.len(),
{
    if steps.len() > 0 {
        law_relay_paused_only_while_waiting(at, steps.drop_last());
    }
}

/// In relay mode the number of sessions plays no part, and emulation pauses
/// only when both tracks are found unused; a viewer of either track resumes it.
pub proof fn law_relay_pause_and_resume(s: Session, event: RelayEvent)
    ensures
        after_relay_event(s, event).session_count == s.session_count,
        !s.paused && after_relay_event(s, event).paused ==> event is BothUnused,
        event is BothUnused ==> after_relay_event(s, event).paused,
        event is Used || event is EitherUsed ==> !after_relay_event(s, event).paused,
{
}

// Laws: what each call does

/// A viewer of either track resumes emulation, the last viewer of a track leaves
/// that track, and emulation pauses only when both tracks are found unused. The
/// emulator thread is woken up exactly when emulation may go on.
pub proof fn law_relay_events(session: &mut Session, event: RelayEvent, r: Wake)
    requires
        call_ensures(Session::relay_event, (session, event), r),
    ensures
        event == RelayEvent::Used(Track::Video) ==> final(session).video_active,
        event == RelayEvent::Used(Track::Audio) ==> final(session).audio_active,
        event == RelayEvent::Unused(Track::Video) ==> !final(session).video_active,
        event == RelayEvent::Unused(Track::Audio) ==> !final(session).audio_active,
        event != RelayEvent::Used(Track::Video) && event != RelayEvent::Unused(Track::Video)
            ==> final(session).video_active == old(session).video_active,
        event != RelayEvent::Used(Track::Audio) && event != RelayEvent::Unused(Track::Audio)
            ==> final(session).audio_active == old(session).audio_active,
        event is BothUnused ==> final(session).paused,
        event is Used || event is EitherUsed || event is Closed ==> !final(session).paused,
        event is Unused ==> final(session).paused == old(session).paused,
        r == Wake::Notify <==> event is Used || event is EitherUsed || event is Closed,
        final(session).session_count == old(session).session_count,
{
}

/// A viewer that connects is counted and resumes emulation; one that disconnects
/// is not counted any more, and pauses emulation exactly if it was the last.
pub proof fn law_sessions_are_counted(opened: &mut Session, wake: Wake, closed: &mut Session)
    requires
        old(opened).session_count < usize::MAX,
        old(closed).session_count > 0,
        call_ensures(Session::session_opened, (opened,), wake),
        call_ensures(Session::session_closed, (closed,), ()),
    ensures
        final(opened).session_count == old(opened).session_count + 1,
        !final(opened).paused,
        wake == Wake::Notify,
        final(closed).session_count == old(closed).session_count - 1,
        old(closed).session_count == 1 ==> final(closed).paused,
        old(closed).session_count > 1 ==> final(closed).paused == old(closed).paused,
        final(opened).video_active == old(opened).video_active,
        final(opened).audio_active == old(opened).audio_active,
        final(closed).video_active == old(closed).video_active,
        final(closed).audio_active == old(closed).audio_active,
{
}

/// The session monitor pauses emulation and both tracks once there are no viewers,
/// and resumes them once there are; otherwise it looks again later.
pub proof fn law_the_monitor_looks(session: &mut Session, waiting: Waiting, r: (MonitorStep, Waiting))
    requires
        call_ensures(Session::monitor, (session, waiting), r),
    ensures
        final(session).session_count == old(session).session_count,
        waiting == Waiting::ForIdle && old(session).session_count == 0 ==> {
            &&& r == (MonitorStep::Paused, Waiting::ForViewer)
            &&& final(session).paused
            &&& !final(session).video_active
            &&& !final(session).audio_active
        },
        waiting == Waiting::ForViewer && old(session).session_count > 0 ==> {
            &&& r == (MonitorStep::Resumed, Waiting::ForIdle)
            &&& !final(session).paused
            &&& final(session).video_active
            &&& final(session).audio_active
        },
        (waiting == Waiting::ForIdle) != (old(session).session_count == 0) ==> {
            &&& r == (MonitorStep::Sleep, waiting)
            &&& *final(session) == *old(session)
        },
{
}

/// The pause monitor of a relay waits for no viewers and for a viewer in turn,
/// reports what it waited for, and ends when a track is closed.
pub proof fn law_the_relay_monitor_takes_turns(
    waiting: RelayWaiting,
    report: RelayReport,
    r: (RelayEvent, RelayWaiting),
)
    requires
        call_ensures(relay_monitor, (waiting, report), r),
    ensures
        report == RelayReport::TrackClosed || waiting == RelayWaiting::Ended ==> r == (
            RelayEvent::Closed,
            RelayWaiting::Ended,
        ),
        report == RelayReport::CameAbout && waiting == RelayWaiting::ForBothUnused ==> r == (
            RelayEvent::BothUnused,
            RelayWaiting::ForEitherUsed,
        ),
        report == RelayReport::CameAbout && waiting == RelayWaiting::ForEitherUsed ==> r == (
            RelayEvent::EitherUsed,
            RelayWaiting::ForBothUnused,
        ),
{
}

/// A session starts paused, with nobody watching.
pub proof fn law_sessions_start_paused(r: Session)
    requires
        call_ensures(Session::new, (), r),
    ensures
        r.paused,
        !r.video_active,
        !r.audio_active,
        r.session_count == 0,
{
}

} // verus!
