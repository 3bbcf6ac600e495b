//! The emulator loop: when the next frame is due, what a viewer's command does,
//! what is encoded in a tick, and what is reported about it.
//!
//! In which order these things happen is up to [`crate::emulation`].
//!
//! Instants are given as the time since the emulator started.

use crate::clock::Duration;
use crate::emulator::Button;
use crate::input::{Command, TimestampEntry};
use crate::table::Table;
use vstd::prelude::*;

verus! {

/// The time between frames. The Game Boy runs at 59.727 Hz (4194304 Hz CPU,
/// 70224 cycles per frame).
pub const FRAME_NANOS: u128 = 16_742_000;

/// The time between stats reports.
pub const REPORT_NANOS: u128 = 5_000_000_000;

/// One stage of a viewer's latency.
#[derive(Debug)]
pub struct LatencyEntry {
    pub label: String,
    pub ms: u32,
}

/// The labels and milliseconds of a list of latencies.
pub open spec fn stages(entries: Seq<LatencyEntry>) -> Seq<(Seq<char>, u32)> {
    entries.map_values(|e: LatencyEntry| (e.label@, e.ms))
}

/// The latency from a viewer's timestamp to now.
pub open spec fn latency(elapsed: Duration, ts: Duration) -> u32 {
    crate::clock::millis_saturating(crate::clock::since(elapsed, ts))
}

/// The oldest of a viewer's timestamps.
pub open spec fn oldest(timestamps: Seq<TimestampEntry>) -> Duration
    recommends
        timestamps.len() > 0,
    decreases timestamps.len(),
{
    let last = timestamps.last().ts;
    if timestamps.len() <= 1 {
        last
    } else {
        let front = oldest(timestamps.drop_last());
        if last.nanos < front.nanos {
            last
        } else {
            front
        }
    }
}

/// What is reported of a viewer's latency: the encoder's share, the latency of
/// each timestamp that the viewer reported and, where it reported any, the
/// input latency. The input latency is the gap between what the viewer sees and
/// what is being emulated, so it counts from the oldest timestamp.
pub open spec fn breakdown(
    elapsed: Duration,
    encode_ms: u32,
    timestamps: Seq<TimestampEntry>,
) -> Seq<(Seq<char>, u32)> {
    seq![("encode"@, encode_ms)] + timestamps.map_values(
        |t: TimestampEntry| (t.label@, latency(elapsed, t.ts)),
    ) + if timestamps.len() == 0 {
        Seq::empty()
    } else {
        seq![("input"@, latency(elapsed, oldest(timestamps)))]
    }
}

/// The latency breakdown of a viewer.
pub fn latency_breakdown(
    elapsed: Duration,
    encode_ms: u32,
    timestamps: &Vec<TimestampEntry>,
) -> (r: Vec<LatencyEntry>)
    ensures
        stages(r@) == breakdown(elapsed, encode_ms, timestamps@),
{
    let ghost f = |t: TimestampEntry| (t.label@, latency(elapsed, t.ts));
    let ghost head = seq![("encode"@, encode_ms)];
    let mut out: Vec<LatencyEntry> = Vec::new();
    out.push(LatencyEntry { label: "encode".to_string(), ms: encode_ms });
    proof {
        assert(stages(out@) == head);
        assert(timestamps@.take(0).map_values(f) == Seq::<(Seq<char>, u32)>::empty());
    }
    let mut min: Option<Duration> = None;
    let mut i: usize = 0;
    while i < timestamps.len()
        invariant
            i <= timestamps@.len(),
            f == (|t: TimestampEntry| (t.label@, latency(elapsed, t.ts))),
            head == seq![("encode"@, encode_ms)],
            stages(out@) == head + timestamps@.take(i as int).map_values(f),
            i == 0 <==> min is None,
            min matches Some(m) ==> m == oldest(timestamps@.take(i as int)),
        decreases timestamps@.len() - i,
    {
        let t = &timestamps[i];
        let ms = elapsed.saturating_sub(t.ts).as_millis_saturating();
        let entry = LatencyEntry { label: t.label.clone(), ms };
        let ghost before = out@;
        out.push(entry);
        proof {
            let prefix = timestamps@.take(i as int);
            let longer = timestamps@.take(i + 1);
            assert(longer.drop_last() == prefix);
            assert(longer.last() == *t);
            assert(longer == prefix.push(*t));
            assert(longer.map_values(f) == prefix.map_values(f).push(f(*t)));
            assert(stages(out@) == stages(before).push((entry.label@, entry.ms)));
            assert(stages(out@) == head + longer.map_values(f));
        }
        min = match min {
            None => Some(t.ts),
            Some(m) => if t.ts.nanos < m.nanos {
                Some(t.ts)
            } else {
                Some(m)
            },
        };
        i += 1;
    }
    assert(timestamps@.take(timestamps@.len() as int) == timestamps@);
    if let Some(m) = min {
        let ms = elapsed.saturating_sub(m).as_millis_saturating();
        let entry = LatencyEntry { label: "input".to_string(), ms };
        let ghost before = out@;
        out.push(entry);
        proof {
            assert(stages(out@) == stages(before).push((entry.label@, entry.ms)));
        }
    }
    assert(stages(out@) == breakdown(elapsed, encode_ms, timestamps@));
    out
}

/// What the emulator has to do for a command.
#[derive(Debug)]
pub enum CommandEffect {
    /// Set the buttons that a viewer holds down.
    SetButtons { viewer_id: String, buttons: Vec<Button> },
    /// Release what a viewer held down.
    ViewerLeft { viewer_id: String },
    /// Reset the emulator and start its stats over.
    Reset,
}

/// What is to be done when emulation resumes after a pause.
#[derive(Clone, Copy, Debug, PartialEq, Eq, Structural)]
pub enum ResumeAction {
    /// Restart the tick timer, so that the pause is not counted.
    ResetTick,
    /// Force a video keyframe, so that new viewers can start decoding.
    ForceKeyframe,
    /// Re-anchor the audio timestamps, so that the pause appears in them.
    ResetEpoch,
}

/// What a pause is followed by.
pub open spec fn resume_actions() -> Seq<ResumeAction> {
    seq![ResumeAction::ResetTick, ResumeAction::ForceKeyframe, ResumeAction::ResetEpoch]
}

/// What is to be done in a tick of the emulator.
#[derive(Clone, Copy, Debug, PartialEq, Eq, Structural)]
pub struct TickPlan {
    /// Encode the frame.
    pub video: bool,
    /// The client timestamp to draw onto the frame.
    pub watermark: Option<u64>,
    /// Re-anchor the audio timestamps before encoding.
    pub reset_epoch: bool,
    /// Encode the audio samples. They are drained in any case.
    pub audio: bool,
}

/// What was done since the last report.
#[derive(Clone, Copy, Debug, PartialEq, Eq, Structural)]
pub struct Report {
    pub commands: usize,
    pub video_frames: u64,
    pub audio_packets: u64,
}

/// The game status that viewers see.
pub struct Status<S> {
    /// The buttons that are held down.
    pub buttons: Vec<Button>,
    /// The latency breakdown of each viewer.
    pub latency: Vec<(String, Vec<LatencyEntry>)>,
    pub stats: S,
    pub location: Option<String>,
}

/// When the frame after one is due that is due at `due`, in nanoseconds.
pub open spec fn next_due(due: nat) -> nat {
    due + FRAME_NANOS as nat
}

/// The state of the emulator loop.
pub struct GameLoop {
    /// When the next frame is due.
    pub next_frame: Duration,
    /// The latency breakdown of each viewer.
    pub viewer_latency: Table<Vec<LatencyEntry>>,
    /// Whether audio was encoded in the last tick.
    pub was_audio_active: bool,
    /// The client timestamp to draw onto the next encoded frame.
    pub pending_client_ts: Option<u64>,
    /// When the report window began.
    pub window_start: Duration,
    /// Commands received in the report window.
    pub window_commands: usize,
    /// Frames handed to the video encoder in the report window.
    pub window_video: u64,
    /// The audio packet count when the report window began.
    pub window_audio_start: u64,
}

/// The latency breakdown of each viewer, by viewer.
pub open spec fn latencies(table: Table<Vec<LatencyEntry>>) -> Map<Seq<char>, Seq<(Seq<char>, u32)>> {
    table@.map_values(|v: Vec<LatencyEntry>| stages(v@))
}

fn copy_stages(entries: &Vec<LatencyEntry>) -> (r: Vec<LatencyEntry>)
    ensures
        stages(r@) == stages(entries@),
{
    let mut out: Vec<LatencyEntry> = Vec::new();
    let mut i: usize = 0;
    while i < entries.len()
        invariant
            i <= entries@.len(),
            stages(out@) == stages(entries@.take(i as int)),
        decreases entries@.len() - i,
    {
        let entry = LatencyEntry { label: entries[i].label.clone(), ms: entries[i].ms };
        let ghost before = out@;
        out.push(entry);
        proof {
            assert(stages(out@) == stages(before).push((entry.label@, entry.ms)));
            assert(entries@.take(i + 1) == entries@.take(i as int).push(entries@[i as int]));
            assert(stages(entries@.take(i + 1)) == stages(entries@.take(i as int)).push(
                (entry.label@, entry.ms),
            ));
        }
        i += 1;
    }
    assert(entries@.take(entries@.len() as int) == entries@);
    out
}

impl GameLoop {
    /// Every viewer has one breakdown.
    pub open spec fn wf(&self) -> bool {
        self.viewer_latency.wf()
    }

    /// The state after a pause that ends `now`: the next frame is due at once,
    /// a new report window begins, and everything that a viewer would notice is
    /// kept.
    pub open spec fn resumed(self, after: GameLoop, now: Duration, audio_packets: u64) -> bool {
        &&& after.next_frame == now
        &&& after.window_start == now
        &&& after.window_commands == 0
        &&& after.window_video == 0
        &&& after.window_audio_start == audio_packets
        &&& after.viewer_latency == self.viewer_latency
        &&& after.was_audio_active == self.was_audio_active
        &&& after.pending_client_ts == self.pending_client_ts
    }

    /// The state after a command that was received `elapsed` after the start,
    /// and what the emulator has to do for it.
    pub open spec fn commanded(
        self,
        after: GameLoop,
        cmd: Command,
        elapsed: Duration,
        encode_ms: u32,
        effect: CommandEffect,
    ) -> bool {
        &&& after.window_commands == self.window_commands + 1
        &&& after.next_frame == self.next_frame
        &&& after.was_audio_active == self.was_audio_active
        &&& after.window_start == self.window_start
        &&& after.window_video == self.window_video
        &&& after.window_audio_start == self.window_audio_start
        &&& match cmd {
            Command::Buttons { buttons, viewer_id, timestamps, client_ts } => {
                &&& effect matches CommandEffect::SetButtons { viewer_id: v, buttons: b } && v@
                    == viewer_id@ && b@ == buttons@
                &&& latencies(after.viewer_latency) == latencies(self.viewer_latency).insert(
                    viewer_id@,
                    breakdown(elapsed, encode_ms, timestamps@),
                )
                &&& after.pending_client_ts == if client_ts is Some {
                    client_ts
                } else {
                    self.pending_client_ts
                }
            },
            Command::ViewerLeft { viewer_id } => {
                &&& effect matches CommandEffect::ViewerLeft { viewer_id: v } && v@ == viewer_id@
                &&& latencies(after.viewer_latency) == latencies(self.viewer_latency).remove(
                    viewer_id@,
                )
                &&& after.pending_client_ts == self.pending_client_ts
            },
            Command::Reset => {
                &&& effect is Reset
                &&& after.viewer_latency == self.viewer_latency
                &&& after.pending_client_ts == self.pending_client_ts
            },
        }
    }

    /// The state after waiting for the next frame, and how long the wait is.
    pub open spec fn paced(self, after: GameLoop, now: Duration, wait: Option<Duration>) -> bool {
        &&& now.nanos < self.next_frame.nanos ==> wait == Some(
            crate::clock::since(self.next_frame, now),
        )
        &&& now.nanos >= self.next_frame.nanos ==> wait is None
        &&& after.next_frame.nanos == next_due(self.next_frame.nanos as nat)
        &&& after.viewer_latency == self.viewer_latency
        &&& after.was_audio_active == self.was_audio_active
        &&& after.pending_client_ts == self.pending_client_ts
        &&& after.window_start == self.window_start
        &&& after.window_commands == self.window_commands
        &&& after.window_video == self.window_video
        &&& after.window_audio_start == self.window_audio_start
    }

    /// The state after a tick, and what is encoded in it.
    pub open spec fn ticked(
        self,
        after: GameLoop,
        is_video: bool,
        is_audio: bool,
        plan: TickPlan,
    ) -> bool {
        &&& plan.video == is_video
        &&& plan.audio == is_audio
        &&& plan.watermark == if is_video {
            self.pending_client_ts
        } else {
            None
        }
        &&& plan.reset_epoch == (is_audio && !self.was_audio_active)
        &&& after.pending_client_ts == if is_video {
            None
        } else {
            self.pending_client_ts
        }
        &&& after.was_audio_active == is_audio
        &&& after.window_video == self.window_video + if is_video {
            1int
        } else {
            0int
        }
        &&& after.next_frame == self.next_frame
        &&& after.viewer_latency == self.viewer_latency
        &&& after.window_start == self.window_start
        &&& after.window_commands == self.window_commands
        &&& after.window_audio_start == self.window_audio_start
    }

    /// The state after looking for a report, and the report if one is due.
    pub open spec fn reported(
        self,
        after: GameLoop,
        now: Duration,
        audio_packets: u64,
        report: Option<Report>,
    ) -> bool {
        &&& report is Some <==> crate::clock::since(now, self.window_start).nanos >= REPORT_NANOS
        &&& report matches Some(done) ==> {
            &&& done.commands == self.window_commands
            &&& done.video_frames == self.window_video
            &&& done.audio_packets == audio_packets - self.window_audio_start
            &&& after.window_start == now
            &&& after.window_commands == 0
            &&& after.window_video == 0
            &&& after.window_audio_start == audio_packets
        }
        &&& report is None ==> after == self
        &&& after.next_frame == self.next_frame
        &&& after.viewer_latency == self.viewer_latency
        &&& after.was_audio_active == self.was_audio_active
        &&& after.pending_client_ts == self.pending_client_ts
    }

    /// A loop whose first frame is due at once.
    pub fn new(now: Duration, audio_packets: u64) -> (r: GameLoop)
        ensures
            r.wf(),
            r.next_frame == now,
            latencies(r.viewer_latency) == Map::<Seq<char>, Seq<(Seq<char>, u32)>>::empty(),
            !r.was_audio_active,
            r.pending_client_ts is None,
            r.window_start == now,
            r.window_commands == 0,
            r.window_video == 0,
            r.window_audio_start == audio_packets,
    {
        let r = GameLoop {
            next_frame: now,
            viewer_latency: Table::new(),
            was_audio_active: false,
            pending_client_ts: None,
            window_start: now,
            window_commands: 0,
            window_video: 0,
            window_audio_start: audio_packets,
        };
        assert(latencies(r.viewer_latency) =~= Map::<Seq<char>, Seq<(Seq<char>, u32)>>::empty());
        r
    }

    /// Resume after a pause: frames missed during the pause are not caught up
    /// with, and a new report window begins. Everything that a viewer would
    /// notice is kept.
    pub fn resume(&mut self, now: Duration, audio_packets: u64) -> (r: Vec<ResumeAction>)
        requires
            old(self).wf(),
        ensures
            final(self).wf(),
            r@ == resume_actions(),
            old(self).resumed(*final(self), now, audio_packets),
    {
        self.next_frame = now;
        self.open_window(now, audio_packets);
        let mut actions: Vec<ResumeAction> = Vec::new();
        actions.push(ResumeAction::ResetTick);
        actions.push(ResumeAction::ForceKeyframe);
        actions.push(ResumeAction::ResetEpoch);
        assert(actions@ == resume_actions());
        actions
    }

    fn open_window(&mut self, now: Duration, audio_packets: u64)
        ensures
            final(self).window_start == now,
            final(self).window_commands == 0,
            final(self).window_video == 0,
            final(self).window_audio_start == audio_packets,
            final(self).next_frame == old(self).next_frame,
            final(self).viewer_latency == old(self).viewer_latency,
            final(self).was_audio_active == old(self).was_audio_active,
            final(self).pending_client_ts == old(self).pending_client_ts,
    {
        self.window_start = now;
        self.window_commands = 0;
        self.window_video = 0;
        self.window_audio_start = audio_packets;
    }

    /// Apply a viewer's command, received `elapsed` after the start.
    pub fn command(&mut self, cmd: Command, elapsed: Duration, encode_ms: u32) -> (r: CommandEffect)
        requires
            old(self).wf(),
            old(self).window_commands < usize::MAX,
        ensures
            final(self).wf(),
            old(self).commanded(*final(self), cmd, elapsed, encode_ms, r),
    {
        self.window_commands += 1;
        match cmd {
            Command::Buttons { buttons, viewer_id, timestamps, client_ts } => {
                if let Some(ts) = client_ts {
                    self.pending_client_ts = Some(ts);
                }
                let entries = latency_breakdown(elapsed, encode_ms, &timestamps);
                self.viewer_latency.insert(viewer_id.clone(), entries);
                proof {
                    assert(latencies(self.viewer_latency) =~= latencies(
                        old(self).viewer_latency,
                    ).insert(viewer_id@, breakdown(elapsed, encode_ms, timestamps@)));
                }
                CommandEffect::SetButtons { viewer_id, buttons }
            },
            Command::ViewerLeft { viewer_id } => {
                let _ = self.viewer_latency.remove(viewer_id.as_str());
                proof {
                    assert(latencies(self.viewer_latency) =~= latencies(
                        old(self).viewer_latency,
                    ).remove(viewer_id@));
                }
                CommandEffect::ViewerLeft { viewer_id }
            },
            Command::Reset => CommandEffect::Reset,
        }
    }

    /// How long to sleep until the next frame is due, if it is not due yet. The
    /// frame after it is due one frame time later.
    pub fn next_wait(&mut self, now: Duration) -> (r: Option<Duration>)
        requires
            old(self).wf(),
            old(self).next_frame.nanos + FRAME_NANOS <= u128::MAX,
        ensures
            final(self).wf(),
            old(self).paced(*final(self), now, r),
    {
        let wait = if now.nanos < self.next_frame.nanos {
            Some(self.next_frame.saturating_sub(now))
        } else {
            None
        };
        self.next_frame = Duration { nanos: self.next_frame.nanos + FRAME_NANOS };
        wait
    }

    /// What to encode in this tick, given which tracks are watched.
    ///
    /// A client timestamp is drawn once, onto the next frame that is encoded.
    /// Audio timestamps are re-anchored when audio is watched again.
    pub fn tick(&mut self, is_video: bool, is_audio: bool) -> (r: TickPlan)
        requires
            old(self).wf(),
            old(self).window_video < u64::MAX,
        ensures
            final(self).wf(),
            old(self).ticked(*final(self), is_video, is_audio, r),
    {
        let mut watermark: Option<u64> = None;
        if is_video {
            watermark = self.pending_client_ts;
            self.pending_client_ts = None;
            self.window_video += 1;
        }
        let reset_epoch = is_audio && !self.was_audio_active;
        self.was_audio_active = is_audio;
        TickPlan { video: is_video, watermark, reset_epoch, audio: is_audio }
    }

    /// The report that is due, if the report window is over. A new window
    /// begins then.
    pub fn report(&mut self, now: Duration, audio_packets: u64) -> (r: Option<Report>)
        requires
            old(self).wf(),
            old(self).window_audio_start <= audio_packets,
        ensures
            final(self).wf(),
            old(self).reported(*final(self), now, audio_packets, r),
    {
        if now.saturating_sub(self.window_start).nanos < REPORT_NANOS {
            return None;
        }
        let report = Report {
            commands: self.window_commands,
            video_frames: self.window_video,
            audio_packets: audio_packets - self.window_audio_start,
        };
        self.open_window(now, audio_packets);
        Some(report)
    }

    /// The status to publish: the buttons held down, the latency breakdown of
    /// each viewer, the stats and the location.
    pub fn status<S>(&self, buttons: Vec<Button>, stats: S, location: Option<String>) -> (r: Status<S>)
        requires
            self.wf(),
        ensures
            r.buttons == buttons,
            r.stats == stats,
            r.location == location,
            crate::table::unique_names(r.latency@),
            crate::table::by_name(r.latency@).map_values(|v: Vec<LatencyEntry>| stages(v@))
                == latencies(self.viewer_latency),
    {
        let mut latency: Vec<(String, Vec<LatencyEntry>)> = Vec::new();
        let ghost source = self.viewer_latency.in_order();
        let n = self.viewer_latency.len();
        let mut i: usize = 0;
        while i < n
            invariant
                self.wf(),
                i <= n,
                n == source.len(),
                source == self.viewer_latency.in_order(),
                latency@.len() == i,
                forall|k: int|
                    0 <= k < i ==> {
                        &&& (#[trigger] latency@[k]).0@ == source[k].0@
                        &&& stages(latency@[k].1@) == stages(source[k].1@)
                    },
            decreases n - i,
        {
            let (name, entries) = self.viewer_latency.at(i);
            let copy = copy_stages(entries);
            latency.push((name.to_string(), copy));
            i += 1;
        }
        proof {
            self.viewer_latency.lemma_in_order();
            lemma_same_names(latency@, source);
        }
        Status { buttons, latency, stats, location }
    }
}

proof fn lemma_same_names(a: Seq<(String, Vec<LatencyEntry>)>, b: Seq<(String, Vec<LatencyEntry>)>)
    requires
        a.len() == b.len(),
        crate::table::unique_names(b),
        forall|k: int|
            0 <= k < a.len() ==> {
                &&& (#[trigger] a[k]).0@ == b[k].0@
                &&& stages(a[k].1@) == stages(b[k].1@)
            },
    ensures
        crate::table::unique_names(a),
        crate::table::by_name(a).map_values(|v: Vec<LatencyEntry>| stages(v@))
            == crate::table::by_name(b).map_values(|v: Vec<LatencyEntry>| stages(v@)),
{
    let f = |v: Vec<LatencyEntry>| stages(v@);
    assert(crate::table::unique_names(a)) by {
        assert forall|i: int, j: int| 0 <= i < a.len() && 0 <= j < a.len() && i != j implies (
        #[trigger] a[i]).0@ != (#[trigger] a[j]).0@ by {
            assert(b[i].0@ != b[j].0@);
        }
    }
    let left = crate::table::by_name(a);
    let right = crate::table::by_name(b);
    assert forall|name: Seq<char>| left.dom().contains(name) == right.dom().contains(name) by {
        if crate::table::named(a, name) {
            let p = crate::table::place(a, name);
            assert(b[p].0@ == name);
        }
        if crate::table::named(b, name) {
            let p = crate::table::place(b, name);
            assert(a[p].0@ == name);
        }
    }
    assert forall|name: Seq<char>| left.dom().contains(name) implies stages(left[name]@) == stages(
        right[name]@,
    ) by {
        let p = crate::table::place(a, name);
        let q = crate::table::place(b, name);
        assert(a[p].0@ == name);
        assert(b[p].0@ == name);
        assert(b[q].0@ == name);
        assert(p == q);
    }
    assert(left.map_values(f) =~= right.map_values(f));
}

/// Whether emulation in WebRTC mode stands still: no track is watched.
pub fn webrtc_idle(is_video: bool, is_audio: bool) -> (r: bool)
    ensures
        r == (!is_video && !is_audio),
{
    !is_video && !is_audio
}

// Laws

/// The oldest timestamp is one of the timestamps, and none is older.
pub proof fn law_oldest_is_oldest(timestamps: Seq<TimestampEntry>)
    requires
        timestamps.len() > 0,
    ensures
        exists|i: int| 0 <= i < timestamps.len() && (#[trigger] timestamps[i]).ts == oldest(timestamps),
        forall|i: int|
            0 <= i < timestamps.len() ==> oldest(timestamps).nanos <= (#[trigger] timestamps[i]).ts.nanos,
    decreases timestamps.len(),
{
    let n = timestamps.len() as int;
    assert(timestamps[n - 1].ts == timestamps.last().ts);
    if n > 1 {
        let front = timestamps.drop_last();
        law_oldest_is_oldest(front);
        let w = choose|i: int| 0 <= i < front.len() && (#[trigger] front[i]).ts == oldest(front);
        assert(timestamps[w].ts == oldest(front));
        assert forall|i: int| 0 <= i < n implies oldest(timestamps).nanos <= (#[trigger] timestamps[i]).ts.nanos by {
            if i < n - 1 {
                assert(front[i] == timestamps[i]);
            }
        }
    }
}

/// The input latency is the largest that is reported for any of the viewer's
/// timestamps.
pub proof fn law_input_latency_is_the_largest(
    elapsed: Duration,
    encode_ms: u32,
    timestamps: Seq<TimestampEntry>,
    i: int,
)
    requires
        0 <= i < timestamps.len(),
    ensures
        breakdown(elapsed, encode_ms, timestamps).len() == timestamps.len() + 2,
        breakdown(elapsed, encode_ms, timestamps)[i + 1] == (
            timestamps[i].label@,
            latency(elapsed, timestamps[i].ts),
        ),
        breakdown(elapsed, encode_ms, timestamps)[i + 1].1 <= breakdown(
            elapsed,
            encode_ms,
            timestamps,
        ).last().1,
{
    law_oldest_is_oldest(timestamps);
    let a = crate::clock::since(elapsed, timestamps[i].ts).nanos;
    let b = crate::clock::since(elapsed, oldest(timestamps)).nanos;
    assert(a <= b);
    vstd::arithmetic::div_mod::lemma_div_is_ordered(a as int, b as int, 1_000_000);
}

/// When the next frame is due after `n` frames, where the first was due at
/// `first`.
pub open spec fn due_after(first: nat, n: nat) -> nat
    decreases n,
{
    if n == 0 {
        first
    } else {
        next_due(due_after(first, (n - 1) as nat))
    }
}

/// Frames are paced by the clock, not by when the previous frame was handled:
/// without a pause, the `n`-th frame is due exactly `n` frame times after the
/// first.
pub proof fn law_frames_keep_pace(first: nat, n: nat)
    ensures
        due_after(first, n) == first + n * FRAME_NANOS as nat,
    decreases n,
{
    if n > 0 {
        law_frames_keep_pace(first, (n - 1) as nat);
        assert(n * FRAME_NANOS as nat == (n - 1) * FRAME_NANOS as nat + FRAME_NANOS as nat)
            by (nonlinear_arith)
            requires
                n > 0,
        ;
    }
}

/// Whether a number is that of the whole milliseconds from `ts` to `elapsed`: the
/// largest that fits where there are more, and none where `ts` is later.
pub open spec fn millis_between(ms: u32, ts: Duration, elapsed: Duration) -> bool {
    let span = elapsed.nanos - ts.nanos;
    if span <= 0 {
        ms == 0
    } else if span >= 0x1_0000_0000 * 1_000_000 {
        ms == u32::MAX
    } else {
        ms * 1_000_000 <= span < (ms + 1) * 1_000_000
    }
}

/// Whether two lists of latencies say the same.
pub open spec fn same_stages(a: Seq<LatencyEntry>, b: Seq<LatencyEntry>) -> bool {
    &&& a.len() == b.len()
    &&& forall|i: int| 0 <= i < a.len() ==> (#[trigger] a[i]).label@ == b[i].label@ && a[i].ms == b[i].ms
}

/// Whether nothing is reported differently of a viewer.
pub open spec fn same_viewer(before: GameLoop, after: GameLoop, viewer_id: Seq<char>) -> bool {
    &&& after.viewer_latency@.dom().contains(viewer_id) <==> before.viewer_latency@.dom().contains(
        viewer_id,
    )
    &&& after.viewer_latency@.dom().contains(viewer_id) ==> same_stages(
        after.viewer_latency@[viewer_id]@,
        before.viewer_latency@[viewer_id]@,
    )
}

/// Whether a viewer's latencies are these: the encoder's share, then one for each
/// timestamp, under its label, and then the input latency, which is the largest
/// of them. Without timestamps there is the encoder's share alone.
pub open spec fn tells_latency(
    entries: Seq<LatencyEntry>,
    elapsed: Duration,
    encode_ms: u32,
    timestamps: Seq<TimestampEntry>,
) -> bool {
    let n = timestamps.len() as int;
    &&& entries.len() == n + if n == 0 {
        1int
    } else {
        2int
    }
    &&& entries[0].label@ == "encode"@
    &&& entries[0].ms == encode_ms
    &&& forall|i: int|
        0 <= i < n ==> (#[trigger] entries[i + 1]).label@ == timestamps[i].label@ && millis_between(
            entries[i + 1].ms,
            timestamps[i].ts,
            elapsed,
        )
    &&& n > 0 ==> {
        &&& entries.last().label@ == "input"@
        &&& forall|i: int| 0 <= i < n ==> (#[trigger] entries[i + 1]).ms <= entries.last().ms
        &&& exists|i: int| 0 <= i < n && (#[trigger] entries[i + 1]).ms == entries.last().ms
    }
}

proof fn lemma_millis_between(ts: Duration, elapsed: Duration)
    ensures
        millis_between(latency(elapsed, ts), ts, elapsed),
{
    let span = crate::clock::since(elapsed, ts).nanos as int;
    vstd::arithmetic::div_mod::lemma_fundamental_div_mod(span, 1_000_000);
}

proof fn lemma_stages(entries: Seq<LatencyEntry>, i: int)
    requires
        0 <= i < entries.len(),
    ensures
        stages(entries).len() == entries.len(),
        stages(entries)[i] == (entries[i].label@, entries[i].ms),
{
}

proof fn lemma_same_stages(a: Seq<LatencyEntry>, b: Seq<LatencyEntry>)
    requires
        stages(a) == stages(b),
    ensures
        same_stages(a, b),
{
    assert(stages(a).len() == a.len() && stages(b).len() == b.len());
    assert forall|i: int| 0 <= i < a.len() implies (#[trigger] a[i]).label@ == b[i].label@ && a[i].ms
        == b[i].ms by {
        lemma_stages(a, i);
        lemma_stages(b, i);
    }
}

/// What is reported of a viewer is what its breakdown says.
pub proof fn lemma_tells_latency(
    entries: Seq<LatencyEntry>,
    elapsed: Duration,
    encode_ms: u32,
    timestamps: Seq<TimestampEntry>,
)
    requires
        stages(entries) == breakdown(elapsed, encode_ms, timestamps),
    ensures
        tells_latency(entries, elapsed, encode_ms, timestamps),
{
    let all = breakdown(elapsed, encode_ms, timestamps);
    let n = timestamps.len() as int;
    assert(stages(entries).len() == entries.len());
    lemma_stages(entries, 0);
    assert(all[0] == ("encode"@, encode_ms));
    assert forall|i: int| 0 <= i < n implies (#[trigger] entries[i + 1]).label@ == timestamps[i].label@
        && millis_between(entries[i + 1].ms, timestamps[i].ts, elapsed) && entries[i + 1].ms
        <= entries.last().ms by {
        lemma_stages(entries, i + 1);
        lemma_stages(entries, n + 1);
        law_input_latency_is_the_largest(elapsed, encode_ms, timestamps, i);
        lemma_millis_between(timestamps[i].ts, elapsed);
    }
    if n > 0 {
        lemma_stages(entries, n + 1);
        law_oldest_is_oldest(timestamps);
        let w = choose|i: int|
            0 <= i < timestamps.len() && (#[trigger] timestamps[i]).ts == oldest(timestamps);
        law_input_latency_is_the_largest(elapsed, encode_ms, timestamps, w);
        lemma_stages(entries, w + 1);
        assert(entries[w + 1].ms == entries.last().ms);
    }
}

/// Whether what the emulator is told to hold down for a viewer is what the viewer
/// holds down: the same buttons, as many of them and in the same order.
pub open spec fn holds_down(
    effect: CommandEffect,
    viewer_id: Seq<char>,
    buttons: Seq<Button>,
) -> bool {
    &&& effect matches CommandEffect::SetButtons { viewer_id: v, buttons: b }
    &&& v@ == viewer_id
    &&& b@.to_set() == buttons.to_set()
    &&& b@.len() == buttons.len()
    &&& forall|i: int| 0 <= i < buttons.len() ==> #[trigger] b@[i] == buttons[i]
}

/// Whether a viewer's buttons are taken over: the emulator is told the buttons,
/// the viewer's latency is reported anew, a client timestamp waits for the next
/// frame, and nothing is changed for anyone else.
pub open spec fn takes_buttons(
    before: GameLoop,
    after: GameLoop,
    cmd: Command,
    elapsed: Duration,
    encode_ms: u32,
    effect: CommandEffect,
) -> bool {
    cmd matches Command::Buttons { buttons, viewer_id, timestamps, client_ts } ==> {
        &&& holds_down(effect, viewer_id@, buttons@)
        &&& after.viewer_latency@.dom().contains(viewer_id@)
        &&& tells_latency(
            after.viewer_latency@[viewer_id@]@,
            elapsed,
            encode_ms,
            timestamps@,
        )
        &&& forall|other: Seq<char>|
            other != viewer_id@ ==> #[trigger] same_viewer(before, after, other)
        &&& client_ts is Some ==> after.pending_client_ts == client_ts
        &&& client_ts is None ==> after.pending_client_ts == before.pending_client_ts
    }
}

/// Whether a viewer that left is forgotten, and no other.
pub open spec fn forgets_viewer(
    before: GameLoop,
    after: GameLoop,
    cmd: Command,
    effect: CommandEffect,
) -> bool {
    cmd matches Command::ViewerLeft { viewer_id } ==> {
        &&& effect matches CommandEffect::ViewerLeft { viewer_id: v } && v@ == viewer_id@
        &&& !after.viewer_latency@.dom().contains(viewer_id@)
        &&& forall|other: Seq<char>|
            other != viewer_id@ ==> #[trigger] same_viewer(before, after, other)
        &&& after.pending_client_ts == before.pending_client_ts
    }
}

/// Whether the emulator is reset, and what viewers see of each other stays.
pub open spec fn resets(
    before: GameLoop,
    after: GameLoop,
    cmd: Command,
    effect: CommandEffect,
) -> bool {
    cmd is Reset ==> {
        &&& effect is Reset
        &&& forall|viewer_id: Seq<char>| #[trigger] same_viewer(before, after, viewer_id)
        &&& after.pending_client_ts == before.pending_client_ts
    }
}

/// Whether a command was counted, and nothing else that only time changes.
pub open spec fn counts_command(before: GameLoop, after: GameLoop) -> bool {
    &&& after.window_commands == before.window_commands + 1
    &&& after.next_frame == before.next_frame
    &&& after.was_audio_active == before.was_audio_active
    &&& after.window_start == before.window_start
    &&& after.window_video == before.window_video
    &&& after.window_audio_start == before.window_audio_start
}

proof fn lemma_same_viewer(before: GameLoop, after: GameLoop, viewer_id: Seq<char>)
    requires
        latencies(after.viewer_latency).dom().contains(viewer_id) == latencies(
            before.viewer_latency,
        ).dom().contains(viewer_id),
        latencies(after.viewer_latency).dom().contains(viewer_id) ==> latencies(
            after.viewer_latency,
        )[viewer_id] == latencies(before.viewer_latency)[viewer_id],
    ensures
        same_viewer(before, after, viewer_id),
{
    if after.viewer_latency@.dom().contains(viewer_id) {
        assert(latencies(after.viewer_latency).dom().contains(viewer_id));
        assert(latencies(before.viewer_latency).dom().contains(viewer_id));
        lemma_same_stages(
            after.viewer_latency@[viewer_id]@,
            before.viewer_latency@[viewer_id]@,
        );
    } else {
        assert(!latencies(after.viewer_latency).dom().contains(viewer_id));
        if before.viewer_latency@.dom().contains(viewer_id) {
            assert(latencies(before.viewer_latency).dom().contains(viewer_id));
        }
    }
}

/// What applying a command comes to.
pub proof fn lemma_commanded(
    before: GameLoop,
    after: GameLoop,
    cmd: Command,
    elapsed: Duration,
    encode_ms: u32,
    effect: CommandEffect,
)
    requires
        before.commanded(after, cmd, elapsed, encode_ms, effect),
    ensures
        takes_buttons(before, after, cmd, elapsed, encode_ms, effect),
        forgets_viewer(before, after, cmd, effect),
        resets(before, after, cmd, effect),
        counts_command(before, after),
{
    match cmd {
        Command::Buttons { buttons, viewer_id, timestamps, client_ts } => {
            let told = latencies(after.viewer_latency);
            assert(told.dom().contains(viewer_id@));
            assert(after.viewer_latency@.dom().contains(viewer_id@));
            assert(told[viewer_id@] == stages(after.viewer_latency@[viewer_id@]@));
            lemma_tells_latency(
                after.viewer_latency@[viewer_id@]@,
                elapsed,
                encode_ms,
                timestamps@,
            );
            assert forall|other: Seq<char>| other != viewer_id@ implies #[trigger] same_viewer(
                before,
                after,
                other,
            ) by {
                lemma_same_viewer(before, after, other);
            }
            assert(holds_down(effect, viewer_id@, buttons@));
        },
        Command::ViewerLeft { viewer_id } => {
            if after.viewer_latency@.dom().contains(viewer_id@) {
                assert(latencies(after.viewer_latency).dom().contains(viewer_id@));
            }
            assert forall|other: Seq<char>| other != viewer_id@ implies #[trigger] same_viewer(
                before,
                after,
                other,
            ) by {
                lemma_same_viewer(before, after, other);
            }
        },
        Command::Reset => {
            assert forall|viewer_id: Seq<char>| #[trigger] same_viewer(before, after, viewer_id) by {
                lemma_same_viewer(before, after, viewer_id);
            }
        },
    }
}

/// A viewer holds down exactly the buttons of its command, however many there
/// are: a button is held down if and only if the command names it.
pub proof fn law_viewers_hold_what_they_press(
    game: &mut GameLoop,
    cmd: Command,
    elapsed: Duration,
    encode_ms: u32,
    r: CommandEffect,
    button: Button,
)
    requires
        call_ensures(GameLoop::command, (game, cmd, elapsed, encode_ms), r),
    ensures
        cmd is Buttons <==> r is SetButtons,
        cmd matches Command::Buttons { buttons, viewer_id, .. } ==> {
            &&& holds_down(r, viewer_id@, buttons@)
            &&& buttons@.contains(button) <==> r->SetButtons_buttons@.contains(button)
        },
{
    let before = *old(game);
    let after = *final(game);
    lemma_commanded(before, after, cmd, elapsed, encode_ms, r);
    if let Command::Buttons { buttons, .. } = cmd {
        assert(r->SetButtons_buttons@ =~= buttons@);
    }
}

/// What a viewer's command reports of its latency: the encoder's share, the time
/// since each of its timestamps, and the largest of these as its input latency.
/// What is reported of other viewers stays.
pub proof fn law_commands_report_latency(
    game: &mut GameLoop,
    cmd: Command,
    elapsed: Duration,
    encode_ms: u32,
    r: CommandEffect,
)
    requires
        call_ensures(GameLoop::command, (game, cmd, elapsed, encode_ms), r),
    ensures
        takes_buttons(*old(game), *final(game), cmd, elapsed, encode_ms, r),
        counts_command(*old(game), *final(game)),
{
    lemma_commanded(*old(game), *final(game), cmd, elapsed, encode_ms, r);
}

/// A viewer that left releases its buttons and is reported no more, and a reset
/// resets the emulator and nothing else.
pub proof fn law_other_commands(
    game: &mut GameLoop,
    cmd: Command,
    elapsed: Duration,
    encode_ms: u32,
    r: CommandEffect,
)
    requires
        call_ensures(GameLoop::command, (game, cmd, elapsed, encode_ms), r),
    ensures
        cmd is ViewerLeft <==> r is ViewerLeft,
        cmd is Reset <==> r is Reset,
        forgets_viewer(*old(game), *final(game), cmd, r),
        resets(*old(game), *final(game), cmd, r),
        counts_command(*old(game), *final(game)),
{
    lemma_commanded(*old(game), *final(game), cmd, elapsed, encode_ms, r);
}

/// The latency of each timestamp is the time since it, and the input latency is
/// the largest.
pub proof fn law_latency_is_the_time_since(
    elapsed: Duration,
    encode_ms: u32,
    timestamps: &Vec<TimestampEntry>,
    r: Vec<LatencyEntry>,
)
    requires
        call_ensures(latency_breakdown, (elapsed, encode_ms, timestamps), r),
    ensures
        tells_latency(r@, elapsed, encode_ms, timestamps@),
{
    lemma_tells_latency(r@, elapsed, encode_ms, timestamps@);
}

/// The wait for a frame ends when the frame is due, there is none where it is
/// due already, and the frame after it is due 16742 microseconds later.
pub proof fn law_waits_end_when_frames_are_due(game: &mut GameLoop, now: Duration, r: Option<Duration>)
    requires
        call_ensures(GameLoop::next_wait, (game, now), r),
    ensures
        r is Some <==> now.nanos < old(game).next_frame.nanos,
        r matches Some(wait) ==> now.nanos + wait.nanos == old(game).next_frame.nanos,
        final(game).next_frame.nanos == old(game).next_frame.nanos + 16_742_000,
        final(game).pending_client_ts == old(game).pending_client_ts,
        final(game).viewer_latency == old(game).viewer_latency,
        final(game).window_start == old(game).window_start,
        final(game).window_commands == old(game).window_commands,
        final(game).window_video == old(game).window_video,
{
}

/// A frame is encoded exactly if video is watched, and audio exactly if audio is
/// watched. A client timestamp that waits is drawn onto the first frame that is
/// encoded, and onto no other; audio timestamps are re-anchored exactly when
/// audio is watched again; and every encoded frame is counted.
pub proof fn law_ticks_encode_what_is_watched(
    game: &mut GameLoop,
    is_video: bool,
    is_audio: bool,
    r: TickPlan,
)
    requires
        call_ensures(GameLoop::tick, (game, is_video, is_audio), r),
    ensures
        r.video <==> is_video,
        r.audio <==> is_audio,
        r.watermark is Some <==> is_video && old(game).pending_client_ts is Some,
        r.watermark is Some ==> r.watermark == old(game).pending_client_ts,
        is_video ==> final(game).pending_client_ts is None,
        !is_video ==> final(game).pending_client_ts == old(game).pending_client_ts,
        r.reset_epoch <==> is_audio && !old(game).was_audio_active,
        final(game).was_audio_active <==> is_audio,
        is_video ==> final(game).window_video == old(game).window_video + 1,
        !is_video ==> final(game).window_video == old(game).window_video,
        final(game).next_frame == old(game).next_frame,
        final(game).viewer_latency == old(game).viewer_latency,
        final(game).window_commands == old(game).window_commands,
{
}

/// A report comes exactly if five seconds have passed since the window began. It
/// says what was counted in the window, and the next window begins with it.
pub proof fn law_reports_come_every_five_seconds(
    game: &mut GameLoop,
    now: Duration,
    audio_packets: u64,
    r: Option<Report>,
)
    requires
        call_ensures(GameLoop::report, (game, now, audio_packets), r),
    ensures
        r is Some <==> now.nanos >= old(game).window_start.nanos + 5_000_000_000,
        r matches Some(done) ==> {
            &&& done.commands == old(game).window_commands
            &&& done.video_frames == old(game).window_video
            &&& done.audio_packets + old(game).window_audio_start == audio_packets
            &&& final(game).window_start == now
            &&& final(game).window_commands == 0
            &&& final(game).window_video == 0
            &&& final(game).window_audio_start == audio_packets
        },
        r is None ==> *final(game) == *old(game),
        final(game).next_frame == old(game).next_frame,
        final(game).pending_client_ts == old(game).pending_client_ts,
        final(game).viewer_latency == old(game).viewer_latency,
{
}

/// After a pause the next frame is due at once, a keyframe is forced, the audio
/// timestamps are re-anchored and the tick timer is restarted, each once. What
/// viewers see of each other is kept.
pub proof fn law_pauses_leave_no_trace(
    game: &mut GameLoop,
    now: Duration,
    audio_packets: u64,
    r: Vec<ResumeAction>,
)
    requires
        call_ensures(GameLoop::resume, (game, now, audio_packets), r),
    ensures
        r@.len() == 3,
        r@[0] == ResumeAction::ResetTick,
        r@[1] == ResumeAction::ForceKeyframe,
        r@[2] == ResumeAction::ResetEpoch,
        final(game).next_frame == now,
        final(game).window_start == now,
        final(game).window_commands == 0,
        final(game).window_video == 0,
        final(game).window_audio_start == audio_packets,
        final(game).viewer_latency == old(game).viewer_latency,
        final(game).pending_client_ts == old(game).pending_client_ts,
        final(game).was_audio_active == old(game).was_audio_active,
{
}

/// The status lists every viewer once, with the latencies that are known of it,
/// and nobody else.
pub proof fn law_status_lists_every_viewer<S>(
    game: &GameLoop,
    buttons: Vec<Button>,
    stats: S,
    location: Option<String>,
    r: Status<S>,
    i: int,
    viewer_id: Seq<char>,
)
    requires
        call_ensures(GameLoop::status::<S>, (game, buttons, stats, location), r),
    ensures
        r.buttons == buttons,
        r.stats == stats,
        r.location == location,
        0 <= i < r.latency@.len() ==> game.viewer_latency@.dom().contains(r.latency@[i].0@)
            && same_stages(r.latency@[i].1@, game.viewer_latency@[r.latency@[i].0@]@),
        game.viewer_latency@.dom().contains(viewer_id) ==> crate::table::named(
            r.latency@,
            viewer_id,
        ),
        crate::table::unique_names(r.latency@),
{
    let listed = crate::table::by_name(r.latency@).map_values(|v: Vec<LatencyEntry>| stages(v@));
    let known = latencies(game.viewer_latency);
    assert(listed == known);
    if 0 <= i < r.latency@.len() {
        let name = r.latency@[i].0@;
        assert(crate::table::named(r.latency@, name));
        assert(crate::table::by_name(r.latency@).dom().contains(name));
        assert(listed.dom().contains(name));
        assert(known.dom().contains(name));
        let p = crate::table::place(r.latency@, name);
        assert(r.latency@[p].0@ == name);
        assert(p == i);
        assert(listed[name] == stages(r.latency@[i].1@));
        lemma_same_stages(r.latency@[i].1@, game.viewer_latency@[name]@);
    }
    if game.viewer_latency@.dom().contains(viewer_id) {
        assert(known.dom().contains(viewer_id));
        assert(listed.dom().contains(viewer_id));
        assert(crate::table::by_name(r.latency@).dom().contains(viewer_id));
    }
}

/// Emulation in WebRTC mode stands still exactly while neither track is watched.
pub proof fn law_webrtc_stands_still_while_idle(is_video: bool, is_audio: bool, r: bool)
    requires
        call_ensures(webrtc_idle, (is_video, is_audio), r),
    ensures
        is_video || is_audio ==> !r,
        !is_video && !is_audio ==> r,
{
}

/// However many frames are drawn without a pause, they are 16742 microseconds
/// apart.
pub proof fn law_frames_are_evenly_spaced(first: nat, n: nat)
    ensures
        due_after(first, n + 1) == due_after(first, n) + 16_742_000,
        due_after(first, 0) == first,
{
    law_frames_keep_pace(first, n);
    law_frames_keep_pace(first, n + 1);
}

/// In the beginning a frame is due at once, nobody has been heard of, and the
/// report window opens.
pub proof fn law_games_begin(now: Duration, audio_packets: u64, r: GameLoop, s: Seq<char>)
    requires
        call_ensures(GameLoop::new, (now, audio_packets), r),
    ensures
        r.next_frame == now,
        r.window_start == now,
        r.window_commands == 0,
        r.window_video == 0,
        r.window_audio_start == audio_packets,
        !latencies(r.viewer_latency).dom().contains(s),
        !r.was_audio_active,
        r.pending_client_ts is None,
{
}

} // verus!
