//! The turns of the emulator loop: what happens in which order.
//!
//! In every turn the loop first waits while nobody watches. Then it applies the
//! commands that are waiting, sleeps until the frame is due, emulates the frame
//! and looks whether a report is due.
//!
//! The loop runs where the emulator does. Its phase says what it wants to know.
//! The application finds that out, hands it to [`EmulatorLoop::step`] and
//! performs the effect that comes back.

use crate::clock::{frame_timestamp, media_timestamp, micros_u64, Duration, TimestampOverflow};
use crate::game::{
    resume_actions, webrtc_idle, CommandEffect, GameLoop, Report, ResumeAction, TickPlan, FRAME_NANOS,
};
use crate::input::Command;
use vstd::prelude::*;

verus! {

/// The time between two looks for a peer in WebRTC mode, in milliseconds.
pub const IDLE_POLL_MS: u64 = 100;

/// How the loop waits while nobody watches.
#[derive(Clone, Copy, Debug, PartialEq, Eq, Structural)]
pub enum WhenIdle {
    /// Block until emulation is resumed, and go on with the turn.
    Block,
    /// Wait a moment and look again: a new turn begins.
    Poll,
}

/// What the loop wants to know next.
#[derive(Clone, Copy, Debug, PartialEq, Eq, Structural)]
pub enum Phase {
    /// Whether anybody watches.
    Watch,
    /// When the wait is over.
    Paused,
    /// How long the emulator runs, and how long encoding a frame takes.
    Reading,
    /// The next command that is waiting.
    Inbox,
    /// What time it is, now that all commands are applied.
    Pace,
    /// That the frame is due, and which tracks are watched.
    Frame,
    /// That the frame is done.
    Report,
}

/// An answer to what the loop wants to know.
pub enum LoopEvent {
    /// Whether emulation is paused.
    Paused(bool),
    /// Whether the tracks are watched by WebRTC peers.
    Peers { video: bool, audio: bool },
    /// The wait is over.
    Resumed { now: Duration, audio_packets: u64 },
    /// The time since the start, and the encoder's share of the latency.
    Reading { elapsed: Duration, encode_ms: u32 },
    /// A command, or none if no more are waiting.
    Inbox(Option<Command>),
    /// The time before the wait for the frame.
    Clock { now: Duration },
    /// The time after that wait, and which tracks are watched. In WebRTC mode
    /// the tracks count that were watched when the turn began.
    Woken { elapsed: Duration, video: bool, audio: bool },
    /// The frame was emulated and encoded.
    Done { now: Duration, audio_packets: u64 },
}

/// What is to be done for a frame.
pub struct FramePlan {
    /// The time since the start. Video and audio are stamped with it.
    pub elapsed: Duration,
    pub tick: TickPlan,
    /// The timestamp of the video frame, if it is to be encoded. An overflow
    /// ends the loop.
    pub timestamp: Option<Result<u64, TimestampOverflow>>,
}

/// What the application is to do.
pub enum LoopEffect {
    Nothing,
    /// Restart the stream after a wait.
    Resume(Vec<ResumeAction>),
    /// Carry out a command.
    Apply(CommandEffect),
    /// Sleep until the frame is due.
    Sleep(Duration),
    /// Count the frame, emulate it, publish the status, and encode.
    Frame(FramePlan),
    /// Log what was done.
    Report(Report),
}

impl FramePlan {
    /// The video frame is stamped with the time since the start.
    pub open spec fn stamped(self) -> bool {
        let stamp = media_timestamp(micros_u64(self.elapsed) as nat);
        &&& self.timestamp is Some <==> self.tick.video
        &&& self.timestamp matches Some(Ok(ts)) ==> stamp == Some(ts as nat)
        &&& self.timestamp matches Some(Err(_)) ==> stamp is None
    }
}

/// The loop of the emulator.
pub struct EmulatorLoop {
    pub game: GameLoop,
    pub when_idle: WhenIdle,
    pub phase: Phase,
    /// The time since the start that the commands of this turn count from.
    pub elapsed: Duration,
    /// The encoder's share of the latency in this turn.
    pub encode_ms: u32,
    /// The tracks that were watched when the turn began, in WebRTC mode.
    pub video: bool,
    pub audio: bool,
}

impl EmulatorLoop {
    pub open spec fn wf(&self) -> bool {
        self.game.wf()
    }

    /// The loop in another phase, and otherwise as it is.
    pub open spec fn enters(self, after: Self, phase: Phase) -> bool {
        &&& after.phase == phase
        &&& after.when_idle == self.when_idle
        &&& after.elapsed == self.elapsed
        &&& after.encode_ms == self.encode_ms
        &&& after.video == self.video
        &&& after.audio == self.audio
    }

    /// The machine's counters have room for what an event adds to them.
    pub open spec fn has_room(self, event: LoopEvent) -> bool {
        match (self.phase, event) {
            (Phase::Inbox, LoopEvent::Inbox(Some(_))) => self.game.window_commands < usize::MAX,
            (Phase::Pace, LoopEvent::Clock { .. }) => self.game.next_frame.nanos + FRAME_NANOS
                <= u128::MAX,
            (Phase::Frame, LoopEvent::Woken { .. }) => self.game.window_video < u64::MAX,
            (Phase::Report, LoopEvent::Done { audio_packets, .. }) => self.game.window_audio_start
                <= audio_packets,
            _ => true,
        }
    }

    /// What the loop does at an event. An event that does not answer what the
    /// loop wants to know changes nothing.
    pub open spec fn steps(self, after: Self, event: LoopEvent, effect: LoopEffect) -> bool {
        match (self.phase, self.when_idle, event) {
            (Phase::Watch, WhenIdle::Block, LoopEvent::Paused(paused)) => {
                &&& self.enters(after, if paused { Phase::Paused } else { Phase::Reading })
                &&& after.game == self.game
                &&& effect is Nothing
            },
            (Phase::Watch, WhenIdle::Poll, LoopEvent::Peers { video, audio }) => {
                let marked = EmulatorLoop { video, audio, ..self };
                &&& marked.enters(after, if !video && !audio { Phase::Paused } else { Phase::Reading })
                &&& after.game == self.game
                &&& effect is Nothing
            },
            (Phase::Paused, when_idle, LoopEvent::Resumed { now, audio_packets }) => {
                &&& self.enters(
                    after,
                    if when_idle == WhenIdle::Block { Phase::Reading } else { Phase::Watch },
                )
                &&& self.game.resumed(after.game, now, audio_packets)
                &&& effect matches LoopEffect::Resume(actions) && actions@ == resume_actions()
            },
            (Phase::Reading, _, LoopEvent::Reading { elapsed, encode_ms }) => {
                let marked = EmulatorLoop { elapsed, encode_ms, ..self };
                &&& marked.enters(after, Phase::Inbox)
                &&& after.game == self.game
                &&& effect is Nothing
            },
            (Phase::Inbox, _, LoopEvent::Inbox(Some(cmd))) => {
                &&& self.enters(after, Phase::Inbox)
                &&& effect matches LoopEffect::Apply(apply) && self.game.commanded(
                    after.game,
                    cmd,
                    self.elapsed,
                    self.encode_ms,
                    apply,
                )
            },
            (Phase::Inbox, _, LoopEvent::Inbox(None)) => {
                &&& self.enters(after, Phase::Pace)
                &&& after.game == self.game
                &&& effect is Nothing
            },
            (Phase::Pace, _, LoopEvent::Clock { now }) => {
                &&& self.enters(after, Phase::Frame)
                &&& match effect {
                    LoopEffect::Nothing => self.game.paced(after.game, now, None),
                    LoopEffect::Sleep(wait) => self.game.paced(after.game, now, Some(wait)),
                    _ => false,
                }
            },
            (Phase::Frame, when_idle, LoopEvent::Woken { elapsed, video, audio }) => {
                let polled = when_idle == WhenIdle::Poll;
                &&& self.enters(after, Phase::Report)
                &&& effect matches LoopEffect::Frame(plan) && {
                    &&& plan.elapsed == elapsed
                    &&& plan.stamped()
                    &&& self.game.ticked(
                        after.game,
                        if polled { self.video } else { video },
                        if polled { self.audio } else { audio },
                        plan.tick,
                    )
                }
            },
            (Phase::Report, _, LoopEvent::Done { now, audio_packets }) => {
                &&& self.enters(after, Phase::Watch)
                &&& match effect {
                    LoopEffect::Nothing => self.game.reported(after.game, now, audio_packets, None),
                    LoopEffect::Report(report) => self.game.reported(
                        after.game,
                        now,
                        audio_packets,
                        Some(report),
                    ),
                    _ => false,
                }
            },
            _ => after == self && effect is Nothing,
        }
    }

    /// A loop that is about to begin its first turn.
    pub fn new(when_idle: WhenIdle, now: Duration, audio_packets: u64) -> (r: Self)
        ensures
            r.wf(),
            r.phase == Phase::Watch,
            r.when_idle == when_idle,
            r.game.next_frame == now,
            crate::game::latencies(r.game.viewer_latency) == Map::<
                Seq<char>,
                Seq<(Seq<char>, u32)>,
            >::empty(),
            !r.game.was_audio_active,
            r.game.pending_client_ts is None,
            r.game.window_start == now,
            r.game.window_commands == 0,
            r.game.window_video == 0,
            r.game.window_audio_start == audio_packets,
    {
        EmulatorLoop {
            game: GameLoop::new(now, audio_packets),
            when_idle,
            phase: Phase::Watch,
            elapsed: now,
            encode_ms: 0,
            video: false,
            audio: false,
        }
    }

    /// Take an event and say what is to be done.
    pub fn step(&mut self, event: LoopEvent) -> (effect: LoopEffect)
        requires
            old(self).wf(),
            old(self).has_room(event),
        ensures
            final(self).wf(),
            old(self).steps(*final(self), event, effect),
    {
        match (self.phase, event) {
            (Phase::Watch, LoopEvent::Paused(paused)) => {
                if matches!(self.when_idle, WhenIdle::Block) {
                    self.phase = if paused { Phase::Paused } else { Phase::Reading };
                }
                LoopEffect::Nothing
            },
            (Phase::Watch, LoopEvent::Peers { video, audio }) => {
                if matches!(self.when_idle, WhenIdle::Poll) {
                    self.video = video;
                    self.audio = audio;
                    self.phase = if webrtc_idle(video, audio) { Phase::Paused } else { Phase::Reading };
                }
                LoopEffect::Nothing
            },
            (Phase::Paused, LoopEvent::Resumed { now, audio_packets }) => {
                self.phase = match self.when_idle {
                    WhenIdle::Block => Phase::Reading,
                    WhenIdle::Poll => Phase::Watch,
                };
                LoopEffect::Resume(self.game.resume(now, audio_packets))
            },
            (Phase::Reading, LoopEvent::Reading { elapsed, encode_ms }) => {
                self.elapsed = elapsed;
                self.encode_ms = encode_ms;
                self.phase = Phase::Inbox;
                LoopEffect::Nothing
            },
            (Phase::Inbox, LoopEvent::Inbox(Some(cmd))) => LoopEffect::Apply(
                self.game.command(cmd, self.elapsed, self.encode_ms),
            ),
            (Phase::Inbox, LoopEvent::Inbox(None)) => {
                self.phase = Phase::Pace;
                LoopEffect::Nothing
            },
            (Phase::Pace, LoopEvent::Clock { now }) => {
                self.phase = Phase::Frame;
                match self.game.next_wait(now) {
                    Some(wait) => LoopEffect::Sleep(wait),
                    None => LoopEffect::Nothing,
                }
            },
            (Phase::Frame, LoopEvent::Woken { elapsed, video, audio }) => {
                self.phase = Phase::Report;
                let tick = match self.when_idle {
                    WhenIdle::Block => self.game.tick(video, audio),
                    WhenIdle::Poll => self.game.tick(self.video, self.audio),
                };
                let timestamp = if tick.video { Some(frame_timestamp(elapsed)) } else { None };
                LoopEffect::Frame(FramePlan { elapsed, tick, timestamp })
            },
            (Phase::Report, LoopEvent::Done { now, audio_packets }) => {
                self.phase = Phase::Watch;
                match self.game.report(now, audio_packets) {
                    Some(report) => LoopEffect::Report(report),
                    None => LoopEffect::Nothing,
                }
            },
            _ => LoopEffect::Nothing,
        }
    }
}

// Laws

/// A stretch of the loop: the states it passes through, the events that it
/// takes and the effects that come of them.
pub struct Run {
    pub states: Seq<EmulatorLoop>,
    pub events: Seq<LoopEvent>,
    pub effects: Seq<LoopEffect>,
}

impl Run {
    pub open spec fn wf(self) -> bool {
        &&& self.states.len() == self.events.len() + 1
        &&& self.effects.len() == self.events.len()
        &&& forall|i: int|
            0 <= i < self.events.len() ==> (#[trigger] self.states[i]).steps(
                self.states[i + 1],
                self.events[i],
                self.effects[i],
            )
    }
}

/// While nobody watches, emulation stands still: where the loop waits at `i`
/// and a frame is emulated at `j`, the wait was over in between, and the stream
/// was restarted with it.
pub proof fn law_no_frame_while_paused(run: Run, i: int, j: int) -> (k: int)
    requires
        run.wf(),
        0 <= i <= j < run.events.len(),
        run.states[i].phase == Phase::Paused,
        run.effects[j] is Frame,
    ensures
        i <= k < j,
        run.events[k] is Resumed,
        run.effects[k] matches LoopEffect::Resume(actions) && actions@ == resume_actions(),
    decreases j - i,
{
    assert(run.states[i].steps(run.states[i + 1], run.events[i], run.effects[i]));
    if run.events[i] is Resumed {
        i
    } else {
        law_no_frame_while_paused(run, i + 1, j)
    }
}

/// Commands are applied before the loop sleeps: where a turn begins at `i` and
/// a frame is emulated at `j`, no more commands were waiting at some point in
/// between, and from there on the loop did nothing but wait for the frame.
pub proof fn law_commands_are_applied_before_the_frame(run: Run, i: int, j: int) -> (k: int)
    requires
        run.wf(),
        0 <= i <= j < run.events.len(),
        run.states[i].phase == Phase::Watch,
        run.states[j].phase == Phase::Pace || run.states[j].phase == Phase::Frame,
    ensures
        i <= k < j,
        run.events[k] == LoopEvent::Inbox(None),
        run.states[k].phase == Phase::Inbox,
        forall|m: int|
            k < m < j ==> (#[trigger] run.effects[m] is Nothing || run.effects[m] is Sleep),
    decreases j - i,
{
    let before = run.states[j - 1];
    assert(before.steps(run.states[j - 1 + 1], run.events[j - 1], run.effects[j - 1]));
    if before.phase == Phase::Inbox {
        j - 1
    } else {
        law_commands_are_applied_before_the_frame(run, i, j - 1)
    }
}

/// Every frame has its own turn: between two frames the loop looks whether
/// anybody watches.
pub proof fn law_every_frame_has_its_own_turn(run: Run, i: int, j: int) -> (k: int)
    requires
        run.wf(),
        0 <= i < j < run.events.len(),
        run.effects[i] is Frame,
        run.effects[j] is Frame,
    ensures
        i < k < j,
        run.states[k].phase == Phase::Watch,
{
    assert(run.states[i].steps(run.states[i + 1], run.events[i], run.effects[i]));
    lemma_report_ends_the_turn(run, i + 1, j)
}

proof fn lemma_report_ends_the_turn(run: Run, i: int, j: int) -> (k: int)
    requires
        run.wf(),
        0 <= i <= j < run.events.len(),
        run.states[i].phase == Phase::Report,
        run.effects[j] is Frame,
    ensures
        i < k < j,
        run.states[k].phase == Phase::Watch,
    decreases j - i,
{
    assert(run.states[i].steps(run.states[i + 1], run.events[i], run.effects[i]));
    assert(run.states[j].steps(run.states[j + 1], run.events[j], run.effects[j]));
    if run.states[i + 1].phase == Phase::Watch {
        i + 1
    } else {
        lemma_report_ends_the_turn(run, i + 1, j)
    }
}

/// Whether an event answers what the loop wants to know.
pub open spec fn answers(phase: Phase, when_idle: WhenIdle, event: LoopEvent) -> bool {
    match event {
        LoopEvent::Paused(_) => phase == Phase::Watch && when_idle == WhenIdle::Block,
        LoopEvent::Peers { .. } => phase == Phase::Watch && when_idle == WhenIdle::Poll,
        LoopEvent::Resumed { .. } => phase == Phase::Paused,
        LoopEvent::Reading { .. } => phase == Phase::Reading,
        LoopEvent::Inbox(_) => phase == Phase::Inbox,
        LoopEvent::Clock { .. } => phase == Phase::Pace,
        LoopEvent::Woken { .. } => phase == Phase::Frame,
        LoopEvent::Done { .. } => phase == Phase::Report,
    }
}

/// Whether a frame is stamped with the whole microseconds since the start, if it
/// is to be encoded, as long as they can be represented.
pub open spec fn stamped_in_time(plan: FramePlan) -> bool {
    &&& plan.tick.video <==> plan.timestamp is Some
    &&& plan.elapsed.nanos < 0x4000_0000_0000_0000 * 1_000 ==> (plan.timestamp matches Some(stamp)
        ==> (stamp matches Ok(ts) && ts * 1_000 <= plan.elapsed.nanos < (ts + 1) * 1_000))
    &&& 0x4000_0000_0000_0000 * 1_000 <= plan.elapsed.nanos < 0x1_0000_0000_0000_0000 * 1_000 ==> (
    plan.timestamp matches Some(stamp) ==> stamp is Err)
}

proof fn lemma_stamped(plan: FramePlan)
    requires
        plan.stamped(),
    ensures
        stamped_in_time(plan),
{
    let us = plan.elapsed.nanos as int / 1_000;
    vstd::arithmetic::div_mod::lemma_fundamental_div_mod(plan.elapsed.nanos as int, 1_000);
    if plan.elapsed.nanos < 0x1_0000_0000_0000_0000 * 1_000 {
        assert(us < 0x1_0000_0000_0000_0000);
        assert(micros_u64(plan.elapsed) == us);
    }
}

/// Whether the frame that a step plans encodes exactly these tracks, with the
/// time of the frame.
pub open spec fn plans_frame(effect: LoopEffect, elapsed: Duration, video: bool, audio: bool) -> bool {
    &&& effect matches LoopEffect::Frame(plan)
    &&& plan.elapsed == elapsed
    &&& plan.tick.video <==> video
    &&& plan.tick.audio <==> audio
    &&& stamped_in_time(plan)
}

/// In every turn the loop goes from one question to the next. Where nobody
/// watches it waits first; otherwise the answer leads on. An event that does not
/// answer its question changes nothing.
pub proof fn law_the_loop_goes_round(l: &mut EmulatorLoop, event: LoopEvent, effect: LoopEffect)
    requires
        call_ensures(EmulatorLoop::step, (l, event), effect),
    ensures
        final(l).when_idle == old(l).when_idle,
        !answers(old(l).phase, old(l).when_idle, event) ==> *final(l) == *old(l) && effect is Nothing,
        answers(old(l).phase, old(l).when_idle, event) ==> match event {
            LoopEvent::Paused(paused) => {
                &&& final(l).phase == Phase::Paused <==> paused
                &&& final(l).phase == Phase::Reading <==> !paused
                &&& effect is Nothing
                &&& final(l).game == old(l).game
            },
            LoopEvent::Peers { video, audio } => {
                &&& final(l).phase == Phase::Reading <==> video || audio
                &&& final(l).phase == Phase::Paused <==> !video && !audio
                &&& final(l).video == video
                &&& final(l).audio == audio
                &&& effect is Nothing
                &&& final(l).game == old(l).game
            },
            LoopEvent::Resumed { now, audio_packets } => {
                &&& old(l).when_idle == WhenIdle::Block ==> final(l).phase == Phase::Reading
                &&& old(l).when_idle == WhenIdle::Poll ==> final(l).phase == Phase::Watch
                &&& effect matches LoopEffect::Resume(actions) && actions@.contains(
                    ResumeAction::ForceKeyframe,
                ) && actions@.contains(ResumeAction::ResetEpoch) && actions@.contains(
                    ResumeAction::ResetTick,
                )
                &&& final(l).game.next_frame == now
                &&& final(l).game.window_start == now
                &&& final(l).game.window_audio_start == audio_packets
                &&& final(l).game.viewer_latency == old(l).game.viewer_latency
            },
            LoopEvent::Reading { elapsed, encode_ms } => {
                &&& final(l).phase == Phase::Inbox
                &&& final(l).elapsed == elapsed
                &&& final(l).encode_ms == encode_ms
                &&& effect is Nothing
                &&& final(l).game == old(l).game
            },
            LoopEvent::Inbox(Some(cmd)) => {
                &&& final(l).phase == Phase::Inbox
                &&& effect matches LoopEffect::Apply(apply) && applies(
                    *old(l),
                    *final(l),
                    cmd,
                    old(l).elapsed,
                    old(l).encode_ms,
                    apply,
                )
            },
            LoopEvent::Inbox(None) => {
                &&& final(l).phase == Phase::Pace
                &&& effect is Nothing
                &&& final(l).game == old(l).game
            },
            LoopEvent::Clock { now } => {
                &&& final(l).phase == Phase::Frame
                &&& effect is Sleep <==> now.nanos < old(l).game.next_frame.nanos
                &&& effect is Nothing <==> now.nanos >= old(l).game.next_frame.nanos
                &&& effect matches LoopEffect::Sleep(wait) ==> now.nanos + wait.nanos == old(l).game.next_frame.nanos
                &&& final(l).game.next_frame.nanos == old(l).game.next_frame.nanos + 16_742_000
            },
            LoopEvent::Woken { elapsed, video, audio } => {
                &&& final(l).phase == Phase::Report
                &&& old(l).when_idle == WhenIdle::Block ==> plans_frame(effect, elapsed, video, audio)
                &&& old(l).when_idle == WhenIdle::Poll ==> plans_frame(
                    effect,
                    elapsed,
                    old(l).video,
                    old(l).audio,
                )
            },
            LoopEvent::Done { now, audio_packets } => {
                &&& final(l).phase == Phase::Watch
                &&& effect is Report <==> now.nanos >= old(l).game.window_start.nanos
                    + 5_000_000_000
                &&& effect is Nothing <==> now.nanos < old(l).game.window_start.nanos
                    + 5_000_000_000
                &&& effect matches LoopEffect::Report(done) ==> done.commands == old(l).game.window_commands && done.video_frames == old(l).game.window_video
                    && done.audio_packets + old(l).game.window_audio_start == audio_packets
            },
        },
{
    let before = *old(l);
    let after = *final(l);
    match event {
        LoopEvent::Inbox(Some(cmd)) => {
            if before.phase == Phase::Inbox {
                lemma_applies(before, after, cmd, effect);
            }
        },
        LoopEvent::Woken { .. } => {
            if let LoopEffect::Frame(plan) = effect {
                if before.phase == Phase::Frame {
                    lemma_stamped(plan);
                }
            }
        },
        LoopEvent::Resumed { .. } => {
            if before.phase == Phase::Paused {
                let actions = effect->Resume_0@;
                assert(actions[0] == ResumeAction::ResetTick);
                assert(actions[1] == ResumeAction::ForceKeyframe);
                assert(actions[2] == ResumeAction::ResetEpoch);
            }
        },
        _ => {},
    }
}

/// Whether a command is carried out, with the time that its latencies count to.
pub open spec fn applies(
    before: EmulatorLoop,
    after: EmulatorLoop,
    cmd: Command,
    elapsed: Duration,
    encode_ms: u32,
    apply: CommandEffect,
) -> bool {
    &&& crate::game::takes_buttons(before.game, after.game, cmd, elapsed, encode_ms, apply)
    &&& crate::game::forgets_viewer(before.game, after.game, cmd, apply)
    &&& crate::game::resets(before.game, after.game, cmd, apply)
    &&& crate::game::counts_command(before.game, after.game)
}

proof fn lemma_applies(before: EmulatorLoop, after: EmulatorLoop, cmd: Command, effect: LoopEffect)
    requires
        before.phase == Phase::Inbox,
        before.steps(after, LoopEvent::Inbox(Some(cmd)), effect),
    ensures
        effect matches LoopEffect::Apply(apply) && applies(
            before,
            after,
            cmd,
            before.elapsed,
            before.encode_ms,
            apply,
        ),
{
    crate::game::lemma_commanded(
        before.game,
        after.game,
        cmd,
        before.elapsed,
        before.encode_ms,
        effect->Apply_0,
    );
}

proof fn lemma_mode_stays(run: Run, i: int)
    requires
        run.wf(),
        0 <= i < run.states.len(),
    ensures
        run.states[i].when_idle == run.states[0].when_idle,
    decreases i,
{
    if i > 0 {
        lemma_mode_stays(run, i - 1);
        assert(run.states[i - 1].steps(run.states[i - 1 + 1], run.events[i - 1], run.effects[i - 1]));
    }
}

/// Where the turn began that the loop is in, in WebRTC mode.
proof fn lemma_turn_began(run: Run, m: int) -> (i: int)
    requires
        run.wf(),
        run.states[0].phase == Phase::Watch,
        run.states[0].when_idle == WhenIdle::Poll,
        0 <= m < run.states.len(),
        run.states[m].phase == Phase::Reading || run.states[m].phase == Phase::Inbox
            || run.states[m].phase == Phase::Pace || run.states[m].phase == Phase::Frame,
    ensures
        0 <= i < m,
        run.states[i].phase == Phase::Watch,
        run.events[i] matches LoopEvent::Peers { video, audio } && video == run.states[m].video
            && audio == run.states[m].audio && (video || audio),
        forall|k: int| i < k <= m ==> (#[trigger] run.states[k]).phase != Phase::Watch,
    decreases m,
{
    lemma_mode_stays(run, m - 1);
    let before = run.states[m - 1];
    assert(before.steps(run.states[m - 1 + 1], run.events[m - 1], run.effects[m - 1]));
    if before.phase == Phase::Watch {
        m - 1
    } else {
        lemma_turn_began(run, m - 1)
    }
}

/// In WebRTC mode a frame encodes exactly the tracks that were watched when its
/// turn began: video and audio as the peers were then, at least one of the two,
/// with the time of the frame. A turn that began with video watched encodes a
/// video frame, however the tracks are watched by the time it is due.
pub proof fn law_webrtc_frames_encode_what_was_watched(run: Run, j: int) -> (i: int)
    requires
        run.wf(),
        run.states[0].phase == Phase::Watch,
        run.states[0].when_idle == WhenIdle::Poll,
        0 <= j < run.events.len(),
        run.effects[j] is Frame,
    ensures
        0 <= i < j,
        run.states[i].phase == Phase::Watch,
        forall|k: int| i < k <= j ==> (#[trigger] run.states[k]).phase != Phase::Watch,
        run.events[i] matches LoopEvent::Peers { video, audio } && (video || audio) && (
        run.events[j] matches LoopEvent::Woken { elapsed, .. } && plans_frame(
            run.effects[j],
            elapsed,
            video,
            audio,
        )),
{
    assert(run.states[j].steps(run.states[j + 1], run.events[j], run.effects[j]));
    lemma_mode_stays(run, j);
    assert(run.states[j].phase == Phase::Frame);
    lemma_stamped(run.effects[j]->Frame_0);
    lemma_turn_began(run, j)
}

/// In relay and server mode a frame encodes exactly the tracks that are watched
/// when it is due, with the time of the frame.
pub proof fn law_frames_encode_what_is_watched(run: Run, j: int)
    requires
        run.wf(),
        run.states[0].when_idle == WhenIdle::Block,
        0 <= j < run.events.len(),
        run.effects[j] is Frame,
    ensures
        run.events[j] matches LoopEvent::Woken { elapsed, video, audio } && plans_frame(
            run.effects[j],
            elapsed,
            video,
            audio,
        ),
{
    assert(run.states[j].steps(run.states[j + 1], run.events[j], run.effects[j]));
    lemma_mode_stays(run, j);
    lemma_stamped(run.effects[j]->Frame_0);
}

/// Where the reading was taken that the commands of a turn count from.
proof fn lemma_reading_taken(run: Run, m: int) -> (i: int)
    requires
        run.wf(),
        run.states[0].phase == Phase::Watch,
        0 <= m < run.states.len(),
        run.states[m].phase == Phase::Inbox,
    ensures
        0 <= i < m,
        run.states[i].phase == Phase::Reading,
        run.events[i] matches LoopEvent::Reading { elapsed, encode_ms } && elapsed
            == run.states[m].elapsed && encode_ms == run.states[m].encode_ms,
        forall|k: int| i < k <= m ==> (#[trigger] run.states[k]).phase == Phase::Inbox,
    decreases m,
{
    let before = run.states[m - 1];
    assert(before.steps(run.states[m - 1 + 1], run.events[m - 1], run.effects[m - 1]));
    if before.phase == Phase::Reading {
        m - 1
    } else {
        lemma_reading_taken(run, m - 1)
    }
}

/// Every command that comes in is carried out as it came, and its latencies count
/// to the time that was read before the commands of its turn.
pub proof fn law_every_command_is_carried_out(run: Run, j: int, cmd: Command) -> (i: int)
    requires
        run.wf(),
        run.states[0].phase == Phase::Watch,
        0 <= j < run.events.len(),
        run.states[j].phase == Phase::Inbox,
        run.events[j] == LoopEvent::Inbox(Some(cmd)),
    ensures
        0 <= i < j,
        run.states[i].phase == Phase::Reading,
        run.states[j + 1].phase == Phase::Inbox,
        forall|k: int| i < k <= j ==> (#[trigger] run.states[k]).phase == Phase::Inbox,
        run.events[i] matches LoopEvent::Reading { elapsed, encode_ms } && (
        run.effects[j] matches LoopEffect::Apply(apply) && applies(
            run.states[j],
            run.states[j + 1],
            cmd,
            elapsed,
            encode_ms,
            apply,
        )),
{
    assert(run.states[j].steps(run.states[j + 1], run.events[j], run.effects[j]));
    lemma_applies(run.states[j], run.states[j + 1], cmd, run.effects[j]);
    lemma_reading_taken(run, j)
}

/// Whether the events from `i` on are those of the rest of a turn with `n`
/// commands.
pub open spec fn rest_of_turn(run: Run, i: int, n: int) -> bool {
    &&& 0 <= i
    &&& 0 <= n
    &&& i + n + 4 < run.events.len()
    &&& run.events[i] is Reading
    &&& forall|k: int|
        i < k <= i + n ==> ((#[trigger] run.events[k]) matches LoopEvent::Inbox(Some(_)))
    &&& run.events[i + n + 1] == LoopEvent::Inbox(None)
    &&& run.events[i + n + 2] is Clock
    &&& run.events[i + n + 3] is Woken
    &&& run.events[i + n + 4] is Done
}

proof fn lemma_commands_of_a_turn(run: Run, i: int, n: int, m: int)
    requires
        run.wf(),
        rest_of_turn(run, i, n),
        run.states[i].phase == Phase::Reading,
        0 <= m <= n,
    ensures
        run.states[i + m + 1].phase == Phase::Inbox,
        forall|k: int| i < k <= i + m ==> (#[trigger] run.effects[k]) is Apply,
    decreases m,
{
    let at = i + m;
    if m > 0 {
        lemma_commands_of_a_turn(run, i, n, m - 1);
        assert(run.events[at] matches LoopEvent::Inbox(Some(_)));
    }
    assert(run.states[at].steps(run.states[at + 1], run.events[at], run.effects[at]));
}

/// A turn in which somebody watches yields a frame: once it was found that
/// somebody does, its commands are all carried out, its frame is emulated, and
/// the next turn begins.
pub proof fn law_watched_turns_yield_a_frame(run: Run, i: int, n: int)
    requires
        run.wf(),
        0 <= i,
        run.states[i].phase == Phase::Watch,
        run.states[i].when_idle == WhenIdle::Poll ==> (run.events[i] matches LoopEvent::Peers {
            video,
            audio,
        } && (video || audio)),
        run.states[i].when_idle == WhenIdle::Block ==> run.events[i] == LoopEvent::Paused(false),
        rest_of_turn(run, i + 1, n),
    ensures
        forall|k: int| i + 1 < k <= i + 1 + n ==> (#[trigger] run.effects[k]) is Apply,
        run.effects[i + n + 4] is Frame,
        run.states[i + n + 6].phase == Phase::Watch,
{
    assert(run.states[i].steps(run.states[i + 1], run.events[i], run.effects[i]));
    lemma_commands_of_a_turn(run, i + 1, n, n);
    let a = i + 1 + n + 1;
    assert(run.states[a].steps(run.states[a + 1], run.events[a], run.effects[a]));
    assert(run.states[a + 1].steps(run.states[a + 1 + 1], run.events[a + 1], run.effects[a + 1]));
    assert(run.states[a + 2].steps(run.states[a + 2 + 1], run.events[a + 2], run.effects[a + 2]));
    assert(run.states[a + 3].steps(run.states[a + 3 + 1], run.events[a + 3], run.effects[a + 3]));
}

/// Each frame of a run is due 16742 microseconds after the one before it, as
/// long as the loop did not have to wait for somebody to watch.
pub proof fn law_frames_of_a_run_keep_pace(run: Run, i: int, j: int)
    requires
        run.wf(),
        0 <= i <= j < run.states.len(),
        forall|k: int|
            i <= k < j ==> (#[trigger] run.states[k]).phase != Phase::Paused,
    ensures
        run.states[j].game.next_frame.nanos == run.states[i].game.next_frame.nanos + 16_742_000
            * paces(run, i, j),
    decreases j - i,
{
    if i < j {
        law_frames_of_a_run_keep_pace(run, i, j - 1);
        let before = run.states[j - 1];
        assert(before.phase != Phase::Paused);
        assert(before.steps(run.states[j - 1 + 1], run.events[j - 1], run.effects[j - 1]));
    }
}

/// How many frames were awaited from `i` to `j`.
pub open spec fn paces(run: Run, i: int, j: int) -> int
    decreases j - i,
{
    if j <= i {
        0
    } else {
        paces(run, i, j - 1) + if run.states[j - 1].phase == Phase::Pace && run.events[j - 1] is Clock {
            1int
        } else {
            0int
        }
    }
}

/// A loop starts with a turn, whose frame is due at once, and with nothing known
/// of anybody.
pub proof fn law_a_loop_starts_with_a_turn(
    when_idle: WhenIdle,
    now: Duration,
    audio_packets: u64,
    r: EmulatorLoop,
)
    requires
        call_ensures(EmulatorLoop::new, (when_idle, now, audio_packets), r),
    ensures
        r.phase == Phase::Watch,
        r.when_idle == when_idle,
        r.game.next_frame == now,
        r.game.window_start == now,
        r.game.window_commands == 0,
        r.game.window_video == 0,
        r.game.window_audio_start == audio_packets,
        r.game.pending_client_ts is None,
        !r.game.was_audio_active,
        forall|viewer_id: Seq<char>| !(#[trigger] r.game.viewer_latency@.dom().contains(viewer_id)),
{
    let known = crate::game::latencies(r.game.viewer_latency);
    assert forall|viewer_id: Seq<char>| !(#[trigger] r.game.viewer_latency@.dom().contains(viewer_id)) by {
        if r.game.viewer_latency@.dom().contains(viewer_id) {
            assert(known.dom().contains(viewer_id));
        }
    }
}

} // verus!
