//! Video encoding pipeline: RGBA framebuffer to H.264 to the video track.
//!
//! Encoding runs on a thread of its own, so that the frame loop never blocks on
//! it. Frames arrive on a bounded queue; if the encoder falls behind, frames are
//! dropped to keep latency low. This module decides what the thread does with a
//! frame, whether it goes on after it, and what is counted.

use crate::buffer::{bytes_len, contents};
use crate::clock::{micros_u64, Duration};
use crate::emulator::{HEIGHT, WIDTH};
use crate::encode::{Config, Kind};
use bytes::Bytes;
use vstd::prelude::*;

verus! {

/// The number of frames that may wait for the encoder. A frame that finds the
/// queue full is dropped.
pub const QUEUE_CAPACITY: usize = 4;

/// Encoder configuration.
#[derive(Clone, Debug)]
pub struct EncoderConfig {
    pub framerate: u32,
    /// Target bitrate in bits per second. `None` derives one.
    pub bitrate: Option<u64>,
}

impl Default for EncoderConfig {
    fn default() -> (r: Self)
        ensures
            r.framerate == 60,
            r.bitrate is None,
    {
        EncoderConfig { framerate: 60, bitrate: None }
    }
}

/// How the encoder is configured: for the Game Boy screen, by the given
/// framerate and bitrate, and in software only, since hardware encoders can
/// reject such tiny pictures.
pub fn screen_config(enc: &EncoderConfig) -> (r: Config)
    ensures
        r.width == WIDTH,
        r.height == HEIGHT,
        r.framerate == enc.framerate,
        r.bitrate == enc.bitrate,
        r.gop == (if enc.framerate == 0 {
            1
        } else if 2 * enc.framerate > u32::MAX {
            u32::MAX as int
        } else {
            2 * enc.framerate
        }),
        r.kind is Software,
        r.bitrate_fits(),
{
    let mut config = Config::new(WIDTH, HEIGHT, enc.framerate);
    config.bitrate = enc.bitrate;
    config.kind = Kind::Software;
    proof {
        let pixels = config.width * config.height;
        assert(pixels == 23040) by (nonlinear_arith)
            requires
                config.width == 160,
                config.height == 144,
                pixels == config.width * config.height,
        ;
        assert(pixels * config.framerate <= 23040 * u32::MAX) by (nonlinear_arith)
            requires
                pixels == 23040,
        ;
    }
    config
}

/// What became of a frame.
#[derive(Clone, Copy, Debug, PartialEq, Eq, Structural)]
pub enum FrameOutcome {
    /// No encoder could be opened for it.
    NoEncoder,
    /// It could not be encoded.
    NotEncoded,
    /// It was encoded, but its packets could not be published.
    NotPublished,
    /// It was encoded and published: the bytes of its packets, and the number
    /// of keyframes that the encoder has emitted so far.
    Published { bytes: u64, keyframes: u64 },
}

/// Whether the encoder thread goes on.
#[derive(Clone, Copy, Debug, PartialEq, Eq, Structural)]
pub enum Next {
    /// With the next frame.
    Continue,
    /// Not at all.
    Stop,
}

/// What the encoder thread shares with the rest of the program.
#[derive(Clone, Copy, Debug, PartialEq, Eq, Structural)]
pub struct VideoEncoder {
    /// Whether the next frame is forced to be a keyframe.
    pub force_keyframe: bool,
    /// The encode duration of the latest frame, in microseconds.
    pub encode_duration: u64,
    /// Frames encoded and published.
    pub frames_encoded: u64,
    /// Bytes of encoded H.264 packets.
    pub bytes_encoded: u64,
    /// Keyframes emitted.
    pub keyframes_encoded: u64,
}

/// The sum of two counts, as a counter shows it.
pub open spec fn counted(a: u64, b: u64) -> u64 {
    ((a + b) % 0x1_0000_0000_0000_0000) as u64
}

/// Whether the frame that is started now is forced to be a keyframe, and the
/// state then.
pub open spec fn after_start(s: VideoEncoder) -> (bool, VideoEncoder) {
    (s.force_keyframe, VideoEncoder { force_keyframe: false, ..s })
}

/// Whether the thread goes on after a frame, and the state then.
///
/// A single bad frame is tolerable. That no encoder can be opened, or that the
/// track is gone, is not.
pub open spec fn after_frame(s: VideoEncoder, outcome: FrameOutcome, elapsed: Duration) -> (
    Next,
    VideoEncoder,
) {
    match outcome {
        FrameOutcome::NoEncoder => (Next::Stop, s),
        FrameOutcome::NotPublished => (Next::Stop, s),
        FrameOutcome::NotEncoded => (
            Next::Continue,
            VideoEncoder { encode_duration: micros_u64(elapsed), ..s },
        ),
        FrameOutcome::Published { bytes, keyframes } => (
            Next::Continue,
            VideoEncoder {
                encode_duration: micros_u64(elapsed),
                frames_encoded: counted(s.frames_encoded, 1),
                bytes_encoded: counted(s.bytes_encoded, bytes),
                keyframes_encoded: keyframes,
                ..s
            },
        ),
    }
}

impl VideoEncoder {
    /// A state with nothing encoded.
    pub fn new() -> (r: Self)
        ensures
            r == (VideoEncoder {
                force_keyframe: false,
                encode_duration: 0,
                frames_encoded: 0,
                bytes_encoded: 0,
                keyframes_encoded: 0,
            }),
    {
        VideoEncoder {
            force_keyframe: false,
            encode_duration: 0,
            frames_encoded: 0,
            bytes_encoded: 0,
            keyframes_encoded: 0,
        }
    }

    /// Force the next frame that is encoded to be a keyframe, so that viewers
    /// who come after a pause can start decoding.
    pub fn force_keyframe(&mut self)
        ensures
            *final(self) == (VideoEncoder { force_keyframe: true, ..*old(self) }),
    {
        self.force_keyframe = true;
    }

    /// Start on a frame. Returns whether it is forced to be a keyframe.
    pub fn start_frame(&mut self) -> (keyframe: bool)
        ensures
            (keyframe, *final(self)) == after_start(*old(self)),
    {
        let keyframe = self.force_keyframe;
        self.force_keyframe = false;
        keyframe
    }

    /// Be done with a frame that took `elapsed` to encode.
    pub fn finish_frame(&mut self, outcome: FrameOutcome, elapsed: Duration) -> (r: Next)
        ensures
            (r, *final(self)) == after_frame(*old(self), outcome, elapsed),
    {
        match outcome {
            FrameOutcome::NoEncoder => Next::Stop,
            FrameOutcome::NotPublished => Next::Stop,
            FrameOutcome::NotEncoded => {
                self.encode_duration = elapsed.as_micros_u64();
                Next::Continue
            },
            FrameOutcome::Published { bytes, keyframes } => {
                self.frames_encoded = self.frames_encoded.wrapping_add(1);
                self.bytes_encoded = self.bytes_encoded.wrapping_add(bytes);
                self.keyframes_encoded = keyframes;
                self.encode_duration = elapsed.as_micros_u64();
                Next::Continue
            },
        }
    }

    /// The encode duration of the latest frame.
    pub fn encode_duration(&self) -> (r: Duration)
        ensures
            r.nanos == self.encode_duration * 1_000,
    {
        Duration::from_micros(self.encode_duration)
    }

    /// Frames encoded and published.
    pub fn frames_encoded(&self) -> (r: u64)
        ensures
            r == self.frames_encoded,
    {
        self.frames_encoded
    }

    /// Bytes of encoded H.264 packets.
    pub fn bytes_encoded(&self) -> (r: u64)
        ensures
            r == self.bytes_encoded,
    {
        self.bytes_encoded
    }

    /// Keyframes emitted.
    pub fn keyframes_encoded(&self) -> (r: u64)
        ensures
            r == self.keyframes_encoded,
    {
        self.keyframes_encoded
    }
}

/// The number of bytes of all packets together.
pub open spec fn total_len(packets: Seq<Bytes>) -> nat
    decreases packets.len(),
{
    if packets.len() == 0 {
        0
    } else {
        total_len(packets.drop_last()) + contents(packets.last()).len()
    }
}

proof fn lemma_total_len_monotone(packets: Seq<Bytes>, i: int)
    requires
        0 <= i <= packets.len(),
    ensures
        total_len(packets.take(i)) <= total_len(packets),
    decreases packets.len() - i,
{
    if i < packets.len() {
        lemma_total_len_monotone(packets, i + 1);
        assert(packets.take(i + 1).drop_last() == packets.take(i));
    } else {
        assert(packets.take(i) == packets);
    }
}

/// The number of bytes of all packets together.
pub fn byte_count(packets: &Vec<Bytes>) -> (r: u64)
    requires
        total_len(packets@) <= u64::MAX,
    ensures
        r == total_len(packets@),
{
    let mut total: u64 = 0;
    let mut i: usize = 0;
    while i < packets.len()
        invariant
            i <= packets@.len(),
            total_len(packets@) <= u64::MAX,
            total == total_len(packets@.take(i as int)),
        decreases packets@.len() - i,
    {
        proof {
            lemma_total_len_monotone(packets@, i + 1);
            assert(packets@.take(i + 1).drop_last() == packets@.take(i as int));
            assert(packets@.take(i + 1).last() == packets@[i as int]);
        }
        total = total + bytes_len(&packets[i]) as u64;
        i += 1;
    }
    assert(packets@.take(packets@.len() as int) == packets@);
    total
}

/// What happens to the state that the encoder thread shares.
pub enum VideoStep {
    /// A keyframe is forced.
    Force,
    /// A frame is started.
    Start,
    /// A frame is done.
    Finish { outcome: FrameOutcome, elapsed: Duration },
}

/// The state after a run of steps.
pub open spec fn after_steps(s: VideoEncoder, steps: Seq<VideoStep>) -> VideoEncoder
    decreases steps.len(),
{
    if steps.len() == 0 {
        s
    } else {
        let before = after_steps(s, steps.drop_last());
        match steps.last() {
            VideoStep::Force => VideoEncoder { force_keyframe: true, ..before },
            VideoStep::Start => after_start(before).1,
            VideoStep::Finish { outcome, elapsed } => after_frame(before, outcome, elapsed).1,
        }
    }
}

/// The frames published in a run, the bytes of their packets, and the keyframe
/// count of the encoder at the last of them, if there is one.
pub open spec fn published(steps: Seq<VideoStep>) -> (nat, nat, Option<u64>)
    decreases steps.len(),
{
    if steps.len() == 0 {
        (0, 0, None)
    } else {
        let before = published(steps.drop_last());
        match steps.last() {
            VideoStep::Finish {
                outcome: FrameOutcome::Published { bytes, keyframes },
                elapsed: _,
            } => (before.0 + 1, before.1 + bytes as nat, Some(keyframes)),
            _ => before,
        }
    }
}

/// Over any run, the counters grow by what was published, as far as they count:
/// the frames by the frames published, the bytes by the length of their
/// packets. The keyframes are the encoder's at the last frame published. What
/// was not encoded or not published changes none of them.
pub proof fn law_counters_over_a_run(s: VideoEncoder, steps: Seq<VideoStep>)
    ensures
        ({
            let after = after_steps(s, steps);
            let (frames, bytes, keyframes) = published(steps);
            &&& after.frames_encoded == (s.frames_encoded + frames) % 0x1_0000_0000_0000_0000
            &&& after.bytes_encoded == (s.bytes_encoded + bytes) % 0x1_0000_0000_0000_0000
            &&& after.keyframes_encoded == match keyframes {
                Some(n) => n,
                None => s.keyframes_encoded,
            }
        }),
    decreases steps.len(),
{
    if steps.len() > 0 {
        let front = steps.drop_last();
        law_counters_over_a_run(s, front);
        let before = after_steps(s, front);
        let counts = published(front);
        if let VideoStep::Finish { outcome: FrameOutcome::Published { bytes, .. }, .. } = steps.last() {
            vstd::arithmetic::div_mod::lemma_add_mod_noop(
                (s.frames_encoded + counts.0) as int,
                1,
                0x1_0000_0000_0000_0000,
            );
            vstd::arithmetic::div_mod::lemma_add_mod_noop(
                (s.bytes_encoded + counts.1) as int,
                bytes as int,
                0x1_0000_0000_0000_0000,
            );
        }
    }
}

/// A request for a keyframe is used by one frame: of two frames of a run, the
/// later one is forced only if a keyframe was requested after the earlier one
/// was started.
pub proof fn law_a_request_forces_one_frame(s: VideoEncoder, steps: Seq<VideoStep>, i: int, j: int)
    requires
        0 <= i < j < steps.len(),
        steps[i] is Start,
        steps[j] is Start,
        forall|k: int| i < k < j ==> !((#[trigger] steps[k]) is Force),
    ensures
        !after_start(after_steps(s, steps.take(j))).0,
{
    lemma_not_forced(s, steps, i, j);
}

proof fn lemma_not_forced(s: VideoEncoder, steps: Seq<VideoStep>, i: int, j: int)
    requires
        0 <= i < j <= steps.len(),
        steps[i] is Start,
        forall|k: int| i < k < j ==> !((#[trigger] steps[k]) is Force),
    ensures
        !after_steps(s, steps.take(j)).force_keyframe,
    decreases j - i,
{
    assert(steps.take(j).drop_last() =~= steps.take(j - 1));
    assert(steps.take(j).last() == steps[j - 1]);
    if j - 1 > i {
        lemma_not_forced(s, steps, i, j - 1);
    }
}

/// A request for a keyframe is not lost: the first frame that is started after
/// it is forced.
pub proof fn law_a_request_is_served(s: VideoEncoder, steps: Seq<VideoStep>, i: int, j: int)
    requires
        0 <= i < j <= steps.len(),
        steps[i] is Force,
        forall|k: int| i < k < j ==> !((#[trigger] steps[k]) is Start),
    ensures
        after_start(after_steps(s, steps.take(j))).0,
    decreases j - i,
{
    assert(steps.take(j).drop_last() =~= steps.take(j - 1));
    assert(steps.take(j).last() == steps[j - 1]);
    if j - 1 > i {
        law_a_request_is_served(s, steps, i, j - 1);
    }
}

/// A forced keyframe is forced once: the frame started next is a keyframe, and
/// the one after it is not, unless it is forced again.
pub proof fn law_keyframe_is_forced_once(s: VideoEncoder, outcome: FrameOutcome, elapsed: Duration)
    ensures
        ({
            let forced = VideoEncoder { force_keyframe: true, ..s };
            let (first, started) = after_start(forced);
            let (second, _) = after_start(after_frame(started, outcome, elapsed).1);
            first && !second
        }),
{
}

/// Forcing a keyframe while a frame is being encoded is not lost: the frame
/// after it is forced.
pub proof fn law_keyframe_request_survives(s: VideoEncoder, outcome: FrameOutcome, elapsed: Duration)
    ensures
        after_start(
            after_frame(VideoEncoder { force_keyframe: true, ..s }, outcome, elapsed).1,
        ).0,
{
}

/// Only frames that were published are counted, each once, and the thread stops
/// without counting anything.
pub proof fn law_only_published_frames_count(s: VideoEncoder, outcome: FrameOutcome, elapsed: Duration)
    ensures
        after_frame(s, outcome, elapsed).0 is Stop ==> after_frame(s, outcome, elapsed).1 == s,
        !(outcome is Published) ==> after_frame(s, outcome, elapsed).1.frames_encoded
            == s.frames_encoded && after_frame(s, outcome, elapsed).1.bytes_encoded
            == s.bytes_encoded,
        outcome is Published && s.frames_encoded < u64::MAX ==> after_frame(
            s,
            outcome,
            elapsed,
        ).1.frames_encoded == s.frames_encoded + 1,
{
}

/// The screen of the Game Boy, 160 by 144 pixels, is encoded in software, at the
/// framerate and the bitrate that are configured and with a keyframe every two
/// seconds.
pub proof fn law_the_screen_is_encoded_as_configured(enc: &EncoderConfig, r: Config)
    requires
        call_ensures(screen_config, (enc,), r),
    ensures
        r.width == 160,
        r.height == 144,
        r.framerate == enc.framerate,
        r.bitrate == enc.bitrate,
        r.kind is Software,
        0 < enc.framerate && enc.framerate + enc.framerate <= u32::MAX ==> r.gop == enc.framerate
            + enc.framerate,
{
}

/// A frame is forced to be a keyframe exactly if that was asked for since the
/// frame before it was started.
pub proof fn law_keyframes_are_forced_when_asked(
    video: &mut VideoEncoder,
    keyframe: bool,
    asked: &mut VideoEncoder,
)
    requires
        call_ensures(VideoEncoder::start_frame, (video,), keyframe),
        call_ensures(VideoEncoder::force_keyframe, (asked,), ()),
    ensures
        keyframe <==> old(video).force_keyframe,
        !final(video).force_keyframe,
        final(asked).force_keyframe,
        final(video).frames_encoded == old(video).frames_encoded,
        final(video).bytes_encoded == old(video).bytes_encoded,
        final(video).keyframes_encoded == old(video).keyframes_encoded,
        final(asked).frames_encoded == old(asked).frames_encoded,
        final(asked).bytes_encoded == old(asked).bytes_encoded,
        final(asked).keyframes_encoded == old(asked).keyframes_encoded,
{
}

/// A frame that was published counts with its bytes, and no other does. The
/// thread ends exactly if no encoder could be opened or the track is gone; a frame
/// that could not be encoded is passed over.
pub proof fn law_published_frames_are_counted(
    video: &mut VideoEncoder,
    outcome: FrameOutcome,
    elapsed: Duration,
    r: Next,
)
    requires
        call_ensures(VideoEncoder::finish_frame, (video, outcome, elapsed), r),
    ensures
        r == Next::Stop <==> outcome == FrameOutcome::NoEncoder || outcome
            == FrameOutcome::NotPublished,
        outcome matches FrameOutcome::Published { bytes, keyframes } ==> {
            &&& old(video).frames_encoded < u64::MAX ==> final(video).frames_encoded == old(video).frames_encoded + 1
            &&& old(video).bytes_encoded + bytes <= u64::MAX ==> final(video).bytes_encoded == old(video).bytes_encoded + bytes
            &&& final(video).keyframes_encoded == keyframes
        },
        !(outcome is Published) ==> {
            &&& final(video).frames_encoded == old(video).frames_encoded
            &&& final(video).bytes_encoded == old(video).bytes_encoded
            &&& final(video).keyframes_encoded == old(video).keyframes_encoded
        },
        r == Next::Continue && elapsed.nanos < 0x1_0000_0000_0000_0000 * 1_000 ==> final(video).encode_duration * 1_000 <= elapsed.nanos < (final(video).encode_duration + 1) * 1_000,
        final(video).force_keyframe == old(video).force_keyframe,
{
    let us = elapsed.nanos as int / 1_000;
    if elapsed.nanos < 0x1_0000_0000_0000_0000 * 1_000 {
        assert(us < 0x1_0000_0000_0000_0000);
        assert(micros_u64(elapsed) == us);
    }
}

/// The bytes of packets add up: those of a list with one more packet are those of
/// the list and those of the packet.
pub proof fn law_bytes_add_up(packets: &Vec<Bytes>, r: u64, more: &Vec<Bytes>, s: u64, packet: Bytes)
    requires
        call_ensures(byte_count, (packets,), r),
        call_ensures(byte_count, (more,), s),
        more@ == packets@.push(packet),
    ensures
        s == r + contents(packet).len(),
        packets@.len() == 0 ==> r == 0,
{
    assert(more@.drop_last() =~= packets@);
}

/// What an encoder reports of itself is what it counted, and a new one has counted
/// nothing and forces no keyframe.
pub proof fn law_encoders_report_what_they_counted(
    encoder: &VideoEncoder,
    took: Duration,
    frames: u64,
    bytes: u64,
    keyframes: u64,
    fresh: VideoEncoder,
)
    requires
        call_ensures(VideoEncoder::encode_duration, (encoder,), took),
        call_ensures(VideoEncoder::frames_encoded, (encoder,), frames),
        call_ensures(VideoEncoder::bytes_encoded, (encoder,), bytes),
        call_ensures(VideoEncoder::keyframes_encoded, (encoder,), keyframes),
        call_ensures(VideoEncoder::new, (), fresh),
    ensures
        took.nanos == 1_000 * encoder.encode_duration,
        frames == encoder.frames_encoded,
        bytes == encoder.bytes_encoded,
        keyframes == encoder.keyframes_encoded,
        !fresh.force_keyframe,
        fresh.frames_encoded == 0,
        fresh.bytes_encoded == 0,
        fresh.keyframes_encoded == 0,
        fresh.encode_duration == 0,
{
}

} // verus!
