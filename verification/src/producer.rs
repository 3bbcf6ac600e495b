//! Publishing raw PCM as encoded audio.
//!
//! Samples are collected into frames of the codec's size, each frame is encoded
//! into a packet, and each packet is published with a timestamp. The first write
//! anchors the timeline; from there on timestamps advance by the number of
//! samples alone.
//!
//! Samples are handled by the bit patterns of their 32-bit floating point
//! values: they are collected and passed on, never computed with.

use crate::buffer::{contents, share};
use crate::clock::{media_timestamp, micros, timestamp_from_micros, Duration, MAX_TIMESTAMP};
use bytes::Bytes;
use vstd::prelude::*;

verus! {

/// What writing audio can fail with. `X` is what the codec and the track fail
/// with.
#[derive(Debug)]
pub enum AudioError<X> {
    /// The samples could not be read or resampled.
    Pcm(X),
    /// The codec could not encode a frame.
    Codec(X),
    /// A timestamp cannot be represented.
    Timestamp,
    /// A packet could not be published.
    Publish(X),
}

/// What has happened to the frame at hand.
pub enum DeliveryEvent<X> {
    /// There may be samples for a frame.
    Ready,
    /// The codec made this of the frame.
    Encoded(Result<Bytes, X>),
    /// The packet was handed to the tap.
    Tapped { packet: Bytes, ts: u64 },
    /// The track was handed the packet, and gave this.
    Published(Result<(), X>),
}

/// What is to be done next. A frame is encoded, then its packet is tapped, then
/// it is published, and then the next frame follows.
pub enum DeliveryStep<X> {
    /// Encode these samples.
    Encode { samples: Vec<u32> },
    /// Hand a copy of the packet to the tap.
    Tap { packet: Bytes, ts: u64 },
    /// Hand the packet to the track.
    Publish { packet: Bytes, ts: u64 },
    /// Nothing more: there are no samples for another frame, or something
    /// failed.
    End(Result<(), AudioError<X>>),
}

/// Collects PCM into frames and stamps the packets made from them.
pub struct AudioProducer<T: Fn(Bytes, u64)> {
    /// The name of the track.
    pub track_name: String,
    /// Samples per channel in a frame of the codec.
    pub frame_size: usize,
    /// Channels of the codec.
    pub codec_channels: u32,
    /// Samples per second and channel of the codec.
    pub codec_rate: u32,
    /// Samples that wait for the rest of their frame.
    pub pending: Vec<u32>,
    /// Samples per channel emitted since the current epoch.
    pub frames_produced: u64,
    /// The timestamp that the timeline is anchored to, in microseconds, once
    /// there is one.
    pub epoch_us: Option<u64>,
    /// Packets published.
    pub packets_encoded: u64,
    /// Receives each encoded packet with its timestamp in microseconds, before
    /// it is published.
    pub webrtc_tap: Option<T>,
}

/// The `i`-th chunk of `n` samples.
pub open spec fn chunk(samples: Seq<u32>, n: int, i: int) -> Seq<u32> {
    samples.subrange(i * n, i * n + n)
}

/// The timestamp in microseconds of a packet: the epoch, plus the time that
/// the samples emitted since it take.
pub open spec fn pts(epoch_us: int, produced: int, rate: u32) -> int {
    epoch_us + produced * 1_000_000 / (rate as int)
}

/// The bytes of a float sample of value zero.
pub const SILENCE: u32 = 0;

/// `samples` cut or filled up with silence to `n` samples.
pub open spec fn padded(samples: Seq<u32>, n: nat) -> Seq<u32> {
    Seq::new(n, |i: int| if i < samples.len() {
        samples[i]
    } else {
        SILENCE
    })
}

/// The codec was given these samples, and gave `r`.
pub open spec fn encoded<X, E: Fn(&Vec<u32>) -> Result<Bytes, X>>(
    encode: E,
    samples: Seq<u32>,
    r: Result<Bytes, X>,
) -> bool {
    exists|v: &Vec<u32>| v@ == samples && #[trigger] call_ensures(encode, (v,), r)
}

/// A packet with these bytes was handed to `tap`, if there is one.
pub open spec fn tapped<T: Fn(Bytes, u64)>(tap: Option<T>, bytes: Seq<u8>, ts: u64) -> bool {
    tap matches Some(f) ==> exists|b: Bytes|
        contents(b) == bytes && #[trigger] call_ensures(f, (b, ts), ())
}

/// These samples were encoded, the packet was tapped and handed to `publish`
/// with this timestamp, and that gave `r`.
pub open spec fn handed_on<
    X,
    T: Fn(Bytes, u64),
    E: Fn(&Vec<u32>) -> Result<Bytes, X>,
    P: Fn(Bytes, u64) -> Result<(), X>,
>(tap: Option<T>, encode: E, publish: P, samples: Seq<u32>, ts: u64, r: Result<(), X>) -> bool {
    exists|packet: Bytes|
        {
            &&& encoded(encode, samples, Ok::<Bytes, X>(packet))
            &&& tapped(tap, contents(packet), ts)
            &&& #[trigger] call_ensures(publish, (packet, ts), r)
        }
}

/// These samples were encoded, and the packet was tapped and published with
/// this timestamp.
pub open spec fn delivered<
    X,
    T: Fn(Bytes, u64),
    E: Fn(&Vec<u32>) -> Result<Bytes, X>,
    P: Fn(Bytes, u64) -> Result<(), X>,
>(tap: Option<T>, encode: E, publish: P, samples: Seq<u32>, ts: int) -> bool {
    &&& 0 <= ts <= MAX_TIMESTAMP
    &&& handed_on(tap, encode, publish, samples, ts as u64, Ok::<(), X>(()))
}

/// Handling these samples failed with `e`.
pub open spec fn undelivered<
    X,
    T: Fn(Bytes, u64),
    E: Fn(&Vec<u32>) -> Result<Bytes, X>,
    P: Fn(Bytes, u64) -> Result<(), X>,
>(
    tap: Option<T>,
    encode: E,
    publish: P,
    samples: Seq<u32>,
    ts: int,
    e: AudioError<X>,
) -> bool {
    match e {
        AudioError::Pcm(_) => false,
        AudioError::Codec(x) => encoded(encode, samples, Err::<Bytes, X>(x)),
        AudioError::Timestamp => ts > MAX_TIMESTAMP && exists|packet: Bytes| #[trigger]
            encoded(encode, samples, Ok::<Bytes, X>(packet)),
        AudioError::Publish(x) => 0 <= ts <= MAX_TIMESTAMP && handed_on(
            tap,
            encode,
            publish,
            samples,
            ts as u64,
            Err::<(), X>(x),
        ),
    }
}

/// The codec, the track and the tap accept whatever they are given.
pub open spec fn usable<
    X,
    T: Fn(Bytes, u64),
    E: Fn(&Vec<u32>) -> Result<Bytes, X>,
    P: Fn(Bytes, u64) -> Result<(), X>,
>(tap: Option<T>, encode: E, publish: P) -> bool {
    &&& forall|v: &Vec<u32>| #[trigger] call_requires(encode, (v,))
    &&& forall|b: Bytes, ts: u64| #[trigger] call_requires(publish, (b, ts))
    &&& tap matches Some(f) ==> forall|b: Bytes, ts: u64| #[trigger] call_requires(f, (b, ts))
}

/// The number of samples per channel that the resampler takes at a time: a
/// frame's worth at the input rate, and no resampler where the rates agree.
pub fn resample_chunk(input_rate: u32, codec_rate: u32, frame_duration: Duration) -> (r: Option<usize>)
    requires
        input_rate * micros(frame_duration) <= u128::MAX,
    ensures
        r is None <==> input_rate == codec_rate,
        r matches Some(n) ==> n == ((input_rate * micros(frame_duration) / 1_000_000) as u128) as usize,
{
    if input_rate == codec_rate {
        None
    } else {
        let samples: u128 = (input_rate as u128 * frame_duration.as_micros()) / 1_000_000;
        Some(samples as usize)
    }
}

fn take_front(v: &mut Vec<u32>, n: usize) -> (r: Vec<u32>)
    requires
        n <= old(v)@.len(),
    ensures
        r@ == old(v)@.take(n as int),
        final(v)@ == old(v)@.skip(n as int),
{
    let mut front = v.split_off(n);
    std::mem::swap(&mut front, v);
    front
}

impl<T: Fn(Bytes, u64)> AudioProducer<T> {
    /// The codec has frames that hold samples, and a rate.
    pub open spec fn wf(self) -> bool {
        &&& 0 < self.frame_size
        &&& 0 < self.codec_channels
        &&& 0 < self.codec_rate
        &&& self.frame_samples() <= usize::MAX
    }

    /// The number of samples of a frame, over all channels.
    pub open spec fn frame_samples(self) -> int {
        self.frame_size * self.codec_channels
    }

    /// The epoch that a write at this time is measured from.
    pub open spec fn epoch_for(self, timestamp_us: u64) -> u64 {
        match self.epoch_us {
            Some(e) => e,
            None => timestamp_us,
        }
    }

    /// The timestamp of the packet that comes `i` packets from now.
    pub open spec fn pts_ahead(self, epoch_us: u64, i: int) -> int {
        pts(epoch_us as int, self.frames_produced + i * self.frame_size, self.codec_rate)
    }

    /// The timestamps of the next `i` packets can be computed.
    pub open spec fn timeline_fits(self, epoch_us: u64, i: int) -> bool {
        &&& (self.frames_produced + i * self.frame_size) * 1_000_000 <= u64::MAX
        &&& self.pts_ahead(epoch_us, i) <= u64::MAX
    }

    /// A producer without samples and without an epoch.
    pub fn new(track_name: String, frame_size: usize, codec_channels: u32, codec_rate: u32) -> (r: Self)
        requires
            0 < frame_size,
            0 < codec_channels,
            0 < codec_rate,
            frame_size * codec_channels <= usize::MAX,
        ensures
            r.wf(),
            r.track_name == track_name,
            r.frame_size == frame_size,
            r.codec_channels == codec_channels,
            r.codec_rate == codec_rate,
            r.pending@ == Seq::<u32>::empty(),
            r.frames_produced == 0,
            r.epoch_us is None,
            r.packets_encoded == 0,
            r.webrtc_tap is None,
    {
        AudioProducer {
            track_name,
            frame_size,
            codec_channels,
            codec_rate,
            pending: Vec::new(),
            frames_produced: 0,
            epoch_us: None,
            packets_encoded: 0,
            webrtc_tap: None,
        }
    }

    /// The name of the track.
    pub fn track_name(&self) -> (r: &str)
        ensures
            r@ == self.track_name@,
    {
        self.track_name.as_str()
    }

    /// Packets published so far.
    pub fn packets_encoded(&self) -> (r: u64)
        ensures
            r == self.packets_encoded,
    {
        self.packets_encoded
    }

    /// Set a tap that receives each encoded packet with its timestamp in
    /// microseconds, before the packet is published.
    pub fn set_webrtc_tap(&mut self, tap: T)
        ensures
            *final(self) == (AudioProducer { webrtc_tap: Some(tap), ..*old(self) }),
    {
        self.webrtc_tap = Some(tap);
    }

    /// Anchor the timeline anew to the next write, and drop the samples that
    /// wait.
    ///
    /// To be called when resuming after an idle gap, so that the gap appears in
    /// the timestamps and audio stays aligned with video.
    pub fn reset_epoch(&mut self)
        ensures
            final(self).epoch_us is None,
            final(self).frames_produced == 0,
            final(self).pending@ == Seq::<u32>::empty(),
            *final(self) == (AudioProducer {
                epoch_us: None,
                frames_produced: 0,
                pending: final(self).pending,
                ..*old(self)
            }),
    {
        self.epoch_us = None;
        self.frames_produced = 0;
        self.pending.clear();
    }

    /// The timestamp of the next packet: the epoch, plus the samples emitted
    /// since it.
    pub fn timestamp(&self, epoch_us: u64) -> (r: Option<u64>)
        requires
            self.wf(),
            self.timeline_fits(epoch_us, 0),
        ensures
            r is Some <==> self.pts_ahead(epoch_us, 0) <= MAX_TIMESTAMP,
            r matches Some(ts) ==> ts == self.pts_ahead(epoch_us, 0),
    {
        assert(self.frames_produced + 0 * self.frame_size == self.frames_produced);
        let offset_us: u64 = (self.frames_produced * 1_000_000) / self.codec_rate as u64;
        match timestamp_from_micros(epoch_us + offset_us) {
            Ok(ts) => Some(ts),
            Err(_) => None,
        }
    }

    /// The next frame is taken out of the samples that wait, to be encoded,
    /// unless they do not fill one.
    pub open spec fn takes_frame<X>(self, after: Self, step: DeliveryStep<X>) -> bool {
        let n = self.frame_samples();
        if self.pending@.len() >= n {
            &&& step matches DeliveryStep::Encode { samples }
            &&& samples@ == self.pending@.take(n)
            &&& after.pending@ == self.pending@.skip(n)
            &&& after == (AudioProducer { pending: after.pending, ..self })
        } else {
            &&& step == DeliveryStep::<X>::End(Ok(()))
            &&& after == self
        }
    }

    /// What is to be done after an event, and the state then. The timeline
    /// advances by `advance` samples per channel with each packet.
    pub open spec fn stepped<X>(
        self,
        after: Self,
        epoch_us: u64,
        advance: usize,
        event: DeliveryEvent<X>,
        step: DeliveryStep<X>,
    ) -> bool {
        match event {
            DeliveryEvent::Ready => self.takes_frame(after, step),
            DeliveryEvent::Encoded(Err(x)) => {
                &&& step == DeliveryStep::<X>::End(Err(AudioError::Codec(x)))
                &&& after == self
            },
            DeliveryEvent::Encoded(Ok(packet)) => if self.pts_ahead(epoch_us, 0) > MAX_TIMESTAMP {
                &&& step == DeliveryStep::<X>::End(Err(AudioError::Timestamp))
                &&& after == self
            } else {
                let ts = self.pts_ahead(epoch_us, 0) as u64;
                &&& step == if self.webrtc_tap is Some {
                    DeliveryStep::<X>::Tap { packet, ts }
                } else {
                    DeliveryStep::<X>::Publish { packet, ts }
                }
                &&& after == (AudioProducer {
                    frames_produced: (self.frames_produced + advance) as u64,
                    ..self
                })
            },
            DeliveryEvent::Tapped { packet, ts } => {
                &&& step == DeliveryStep::<X>::Publish { packet, ts }
                &&& after == self
            },
            DeliveryEvent::Published(Err(x)) => {
                &&& step == DeliveryStep::<X>::End(Err(AudioError::Publish(x)))
                &&& after == self
            },
            DeliveryEvent::Published(Ok(_)) => (AudioProducer {
                packets_encoded: ((self.packets_encoded + 1) % 0x1_0000_0000_0000_0000) as u64,
                ..self
            }).takes_frame(after, step),
        }
    }

    fn take_frame<X>(&mut self) -> (r: DeliveryStep<X>)
        requires
            old(self).wf(),
        ensures
            old(self).takes_frame(*final(self), r),
    {
        proof {
            lemma_frame_samples(self.frame_size as int, self.codec_channels as int);
        }
        let frame_samples: usize = self.frame_size * self.codec_channels as usize;
        if self.pending.len() >= frame_samples {
            let samples = take_front(&mut self.pending, frame_samples);
            DeliveryStep::Encode { samples }
        } else {
            DeliveryStep::End(Ok(()))
        }
    }

    /// Decides what is to be done after an event.
    pub fn step<X>(&mut self, epoch_us: u64, advance: usize, event: DeliveryEvent<X>) -> (r: DeliveryStep<
        X,
    >)
        requires
            old(self).wf(),
            event matches DeliveryEvent::Encoded(Ok(_)) ==> old(self).timeline_fits(epoch_us, 0)
                && old(self).frames_produced + advance <= u64::MAX,
        ensures
            final(self).wf(),
            old(self).stepped(*final(self), epoch_us, advance, event, r),
    {
        match event {
            DeliveryEvent::Ready => self.take_frame(),
            DeliveryEvent::Encoded(Err(x)) => DeliveryStep::End(Err(AudioError::Codec(x))),
            DeliveryEvent::Encoded(Ok(packet)) => {
                let ts: u64 = match self.timestamp(epoch_us) {
                    Some(ts) => ts,
                    None => return DeliveryStep::End(Err(AudioError::Timestamp)),
                };
                self.frames_produced = self.frames_produced + advance as u64;
                if self.webrtc_tap.is_some() {
                    DeliveryStep::Tap { packet, ts }
                } else {
                    DeliveryStep::Publish { packet, ts }
                }
            },
            DeliveryEvent::Tapped { packet, ts } => DeliveryStep::Publish { packet, ts },
            DeliveryEvent::Published(Err(x)) => DeliveryStep::End(Err(AudioError::Publish(x))),
            DeliveryEvent::Published(Ok(_)) => {
                self.packets_encoded = self.packets_encoded.wrapping_add(1);
                self.take_frame()
            },
        }
    }

    /// The number of frames that the samples that wait fill.
    pub open spec fn full_frames(self) -> int {
        self.pending@.len() as int / self.frame_samples()
    }

    /// The timestamp of the `j`-th packet from now, if the timeline advances by
    /// `advance` samples per channel with each.
    pub open spec fn time_ahead(self, epoch_us: u64, advance: usize, j: int) -> int {
        pts(epoch_us as int, self.frames_produced + j * advance, self.codec_rate)
    }

    /// The timestamps of the frames that wait can be computed.
    pub open spec fn can_deliver(self, epoch_us: u64, advance: usize) -> bool {
        &&& (self.frames_produced + self.full_frames() * advance) * 1_000_000 <= u64::MAX
        &&& self.time_ahead(epoch_us, advance, self.full_frames()) <= u64::MAX
    }

    /// The state after `k` frames were taken out of the samples that wait, the
    /// timeline advanced by `m` samples per channel, and `d` packets were
    /// published.
    pub open spec fn advanced(self, after: Self, k: int, m: int, d: int) -> bool {
        &&& after.pending@ == self.pending@.skip(k * self.frame_samples())
        &&& after == (AudioProducer {
            pending: after.pending,
            frames_produced: (self.frames_produced + m) as u64,
            packets_encoded: ((self.packets_encoded + d) % 0x1_0000_0000_0000_0000) as u64,
            ..self
        })
    }

    /// What delivering the frames that wait consists of: steps from this state
    /// to `after`, each carried out by the codec, the tap or the track, up to
    /// the end with `r`.
    pub open spec fn delivers<
        X,
        E: Fn(&Vec<u32>) -> Result<Bytes, X>,
        P: Fn(Bytes, u64) -> Result<(), X>,
    >(
        self,
        after: Self,
        epoch_us: u64,
        advance: usize,
        encode: E,
        publish: P,
        r: Result<(), AudioError<X>>,
    ) -> bool {
        exists|d: Delivery<T, X>|
            {
                &&& #[trigger] d.wf(epoch_us, advance)
                &&& d.carried_out(encode, publish)
                &&& d.states[0] == self
                &&& d.states.last() == after
                &&& d.steps.last() == DeliveryStep::<X>::End(r)
            }
    }

    /// Delivers the frames that wait: carries out step after step until the
    /// end.
    fn deliver<
        X,
        E: Fn(&Vec<u32>) -> Result<Bytes, X>,
        P: Fn(Bytes, u64) -> Result<(), X>,
    >(&mut self, epoch_us: u64, advance: usize, encode: &E, publish: &P) -> (r: Result<
        (),
        AudioError<X>,
    >)
        requires
            old(self).wf(),
            old(self).can_deliver(epoch_us, advance),
            usable(old(self).webrtc_tap, *encode, *publish),
        ensures
            final(self).wf(),
            old(self).delivers(*final(self), epoch_us, advance, *encode, *publish, r),
    {
        let ghost start = *self;
        let mut step = self.step::<X>(epoch_us, advance, DeliveryEvent::Ready);
        let ghost mut d = Delivery {
            states: seq![start, *self],
            events: seq![DeliveryEvent::<X>::Ready],
            steps: seq![step],
        };
        proof {
            lemma_frame_samples(start.frame_size as int, start.codec_channels as int);
        }
        loop
            invariant
                start.wf(),
                start.frame_samples() > 0,
                start.can_deliver(epoch_us, advance),
                usable(start.webrtc_tap, *encode, *publish),
                start == *old(self),
                self.wf(),
                self.webrtc_tap == start.webrtc_tap,
                self.frame_samples() == start.frame_samples(),
                d.wf(epoch_us, advance),
                d.carried_out(*encode, *publish),
                d.states[0] == start,
                d.states.last() == *self,
                d.steps.last() == step,
            decreases self.pending@.len(), rank(step),
        {
            let ghost done = d;
            let ghost last = step;
            let ghost before = *self;
            proof {
                lemma_listed(d, epoch_us, advance, d.steps.len() - 1);
                lemma_times(start, epoch_us, advance, d.round(d.steps.len() - 1));
                lemma_times(start, epoch_us, advance, d.round(d.steps.len() - 1) + 1);
                assert(0 * self.frame_size == 0);
            }
            let event: DeliveryEvent<X> = match step {
                DeliveryStep::End(r) => return r,
                DeliveryStep::Encode { samples } => {
                    let result = encode(&samples);
                    assert(encoded(*encode, samples@, result));
                    DeliveryEvent::Encoded(result)
                },
                DeliveryStep::Tap { packet, ts } => {
                    if let Some(tap) = &self.webrtc_tap {
                        let copy = share(&packet);
                        tap(copy, ts);
                        assert(call_ensures(self.webrtc_tap->Some_0, (copy, ts), ()));
                    }
                    assert(tapped(self.webrtc_tap, contents(packet), ts));
                    DeliveryEvent::Tapped { packet, ts }
                },
                DeliveryStep::Publish { packet, ts } => DeliveryEvent::Published(publish(packet, ts)),
            };
            let ghost given = event;
            step = self.step(epoch_us, advance, event);
            proof {
                d = Delivery {
                    states: done.states.push(*self),
                    events: done.events.push(given),
                    steps: done.steps.push(step),
                };
                let n = done.steps.len() as int;
                assert forall|i: int| 0 <= i < d.steps.len() implies #[trigger] d.moved(
                    epoch_us,
                    advance,
                    i,
                ) by {
                    if i < n {
                        assert(done.moved(epoch_us, advance, i));
                    }
                }
                assert forall|i: int| 0 <= i < d.steps.len() - 1 implies #[trigger] d.followed(i) by {
                    if i < n - 1 {
                        assert(done.followed(i));
                    }
                }
                assert forall|i: int| 0 <= i < d.steps.len() - 1 implies #[trigger] d.carried(
                    *encode,
                    *publish,
                    i,
                ) by {
                    if i < n - 1 {
                        assert(done.carried(*encode, *publish, i));
                    }
                }
            }
        }
    }

    /// Whether the first `k` chunks of the samples were delivered.
    pub open spec fn all_delivered<
        X,
        E: Fn(&Vec<u32>) -> Result<Bytes, X>,
        P: Fn(Bytes, u64) -> Result<(), X>,
    >(self, epoch_us: u64, samples: Seq<u32>, k: int, encode: E, publish: P) -> bool {
        forall|i: int|
            0 <= i < k ==> delivered::<X, T, E, P>(
                self.webrtc_tap,
                encode,
                publish,
                #[trigger] chunk(samples, self.frame_samples(), i),
                self.pts_ahead(epoch_us, i),
            )
    }

    /// The state after `k` chunks of the samples were taken out and `d` of them
    /// were delivered, `m` of them with a timestamp.
    pub open spec fn after_chunks(
        self,
        after: Self,
        epoch_us: u64,
        samples: Seq<u32>,
        k: int,
        m: int,
        d: int,
    ) -> bool {
        &&& after.pending@ == samples.skip(k * self.frame_samples())
        &&& after == (AudioProducer {
            epoch_us: Some(epoch_us),
            pending: after.pending,
            frames_produced: (self.frames_produced + m * self.frame_size) as u64,
            packets_encoded: ((self.packets_encoded + d) % 0x1_0000_0000_0000_0000) as u64,
            ..self
        })
    }

    /// What a write does: how it ends, and the state after it.
    pub open spec fn wrote<
        X,
        E: Fn(&Vec<u32>) -> Result<Bytes, X>,
        P: Fn(Bytes, u64) -> Result<(), X>,
    >(
        self,
        after: Self,
        timestamp_us: u64,
        pcm: Result<Vec<u32>, X>,
        encode: E,
        publish: P,
        r: Result<(), AudioError<X>>,
    ) -> bool {
        let epoch = self.epoch_for(timestamp_us);
        &&& after.epoch_us == Some(epoch)
        &&& pcm matches Ok(new) ==> exists|filled: Self|
            {
                &&& filled.pending@ == self.pending@ + new@
                &&& filled == (AudioProducer {
                    epoch_us: Some(epoch),
                    pending: filled.pending,
                    ..self
                })
                &&& #[trigger] filled.delivers(after, epoch, self.frame_size, encode, publish, r)
            }
        &&& match pcm {
            Err(x) => {
                &&& r == Err::<(), AudioError<X>>(AudioError::Pcm(x))
                &&& after == (AudioProducer { epoch_us: Some(epoch), ..self })
            },
            Ok(new) => {
                let samples = self.pending@ + new@;
                let k = samples.len() as int / self.frame_samples();
                match r {
                    Ok(_) => {
                        &&& self.all_delivered::<X, E, P>(epoch, samples, k, encode, publish)
                        &&& self.after_chunks(after, epoch, samples, k, k, k)
                    },
                    Err(e) => exists|j: int|
                        {
                            &&& 0 <= j < k
                            &&& self.all_delivered::<X, E, P>(epoch, samples, j, encode, publish)
                            &&& undelivered::<X, T, E, P>(
                                self.webrtc_tap,
                                encode,
                                publish,
                                #[trigger] chunk(samples, self.frame_samples(), j),
                                self.pts_ahead(epoch, j),
                                e,
                            )
                            &&& self.after_chunks(
                                after,
                                epoch,
                                samples,
                                j + 1,
                                if e is Publish {
                                    j + 1
                                } else {
                                    j
                                },
                                j,
                            )
                        },
                }
            },
        }
    }

    /// The timestamps of the packets that a write of so many samples makes can
    /// be computed.
    pub open spec fn samples_fit(self, timestamp_us: u64, n: int) -> bool {
        self.timeline_fits(
            self.epoch_for(timestamp_us),
            (self.pending@.len() + n) / self.frame_samples(),
        )
    }

    /// The timestamps of the packets that a write of these samples makes can be
    /// computed.
    pub open spec fn write_fits(self, timestamp_us: u64, new: Seq<u32>) -> bool {
        self.samples_fit(timestamp_us, new.len() as int)
    }

    /// Whether so many samples can be [written](Self::write).
    pub fn fits(&self, timestamp_us: u64, samples: usize) -> (r: bool)
        requires
            self.wf(),
        ensures
            r == self.samples_fit(timestamp_us, samples as int),
            forall|new: Seq<u32>|
                new.len() == samples ==> r == #[trigger] self.write_fits(timestamp_us, new),
    {
        let epoch_us: u64 = match self.epoch_us {
            Some(e) => e,
            None => timestamp_us,
        };
        proof {
            lemma_frame_samples(self.frame_size as int, self.codec_channels as int);
        }
        let frame: u128 = (self.frame_size * self.codec_channels as usize) as u128;
        let total: u128 = self.pending.len() as u128 + samples as u128;
        let packets: u128 = total / frame;
        proof {
            let size = self.frame_size as int;
            vstd::arithmetic::div_mod::lemma_fundamental_div_mod(total as int, frame as int);
            vstd::arithmetic::div_mod::lemma_mod_bound(total as int, frame as int);
            assert(0 <= packets * size <= frame * packets) by (nonlinear_arith)
                requires
                    frame == size * self.codec_channels,
                    size > 0,
                    self.codec_channels >= 1,
                    packets >= 0,
            ;
        }
        let scaled: u128 = (self.frames_produced as u128 + packets * self.frame_size as u128)
            * 1_000_000;
        if scaled > u64::MAX as u128 {
            return false;
        }
        proof {
            vstd::arithmetic::div_mod::lemma_div_is_ordered_by_denominator(
                scaled as int,
                1,
                self.codec_rate as int,
            );
        }
        let after: u128 = epoch_us as u128 + scaled / self.codec_rate as u128;
        after <= u64::MAX as u128
    }

    /// Writes samples captured at a time: as many packets are encoded and
    /// published as there are full frames, and the rest waits for the next
    /// write.
    ///
    /// The first write, and the first after [`reset_epoch`](Self::reset_epoch),
    /// anchors the timeline to its time. The times of later writes are ignored.
    ///
    /// A failure ends the write: the frame that it came with is lost, and what
    /// follows it waits.
    pub fn write<
        X,
        E: Fn(&Vec<u32>) -> Result<Bytes, X>,
        P: Fn(Bytes, u64) -> Result<(), X>,
    >(&mut self, timestamp_us: u64, pcm: Result<Vec<u32>, X>, encode: &E, publish: &P) -> (r: Result<
        (),
        AudioError<X>,
    >)
        requires
            old(self).wf(),
            pcm matches Ok(new) ==> old(self).write_fits(timestamp_us, new@),
            usable(old(self).webrtc_tap, *encode, *publish),
        ensures
            final(self).wf(),
            old(self).wrote(*final(self), timestamp_us, pcm, *encode, *publish, r),
    {
        let epoch_us: u64 = match self.epoch_us {
            Some(e) => e,
            None => timestamp_us,
        };
        self.epoch_us = Some(epoch_us);
        let mut new = match pcm {
            Ok(new) => new,
            Err(x) => return Err(AudioError::Pcm(x)),
        };
        let ghost start = *old(self);
        let ghost samples = start.pending@ + new@;
        self.pending.append(&mut new);
        let ghost filled = *self;
        let r = self.deliver::<X, E, P>(epoch_us, self.frame_size, encode, publish);
        proof {
            lemma_outcome(filled, *self, epoch_us, start.frame_size, *encode, *publish, r);
            assert(filled.pending@ == samples);
            let k = filled.full_frames();
            match r {
                Ok(_) => {
                    assert(start.all_delivered::<X, E, P>(epoch_us, samples, k, *encode, *publish))
                        by {
                        assert forall|i: int| 0 <= i < k implies delivered::<X, T, E, P>(
                            start.webrtc_tap,
                            *encode,
                            *publish,
                            #[trigger] chunk(samples, start.frame_samples(), i),
                            start.pts_ahead(epoch_us, i),
                        ) by {
                            assert(filled.frame_delivered::<X, E, P>(
                                epoch_us,
                                start.frame_size,
                                *encode,
                                *publish,
                                i,
                            ));
                        }
                    }
                },
                Err(_) => {
                    let j = choose|j: int|
                        0 <= j < k && #[trigger] filled.failed_at(
                            *self,
                            epoch_us,
                            start.frame_size,
                            *encode,
                            *publish,
                            r->Err_0,
                            j,
                        );
                    assert(start.all_delivered::<X, E, P>(epoch_us, samples, j, *encode, *publish))
                        by {
                        assert forall|i: int| 0 <= i < j implies delivered::<X, T, E, P>(
                            start.webrtc_tap,
                            *encode,
                            *publish,
                            #[trigger] chunk(samples, start.frame_samples(), i),
                            start.pts_ahead(epoch_us, i),
                        ) by {
                            assert(filled.frame_delivered::<X, E, P>(
                                epoch_us,
                                start.frame_size,
                                *encode,
                                *publish,
                                i,
                            ));
                        }
                    }
                    assert(undelivered::<X, T, E, P>(
                        start.webrtc_tap,
                        *encode,
                        *publish,
                        chunk(samples, start.frame_samples(), j),
                        start.pts_ahead(epoch_us, j),
                        r->Err_0,
                    ));
                },
            }
        }
        r
    }

    /// Publishes what waits, filled up with silence to a full frame.
    pub fn finish<
        X,
        E: Fn(&Vec<u32>) -> Result<Bytes, X>,
        P: Fn(Bytes, u64) -> Result<(), X>,
    >(self, encode: &E, publish: &P) -> (r: Result<(), AudioError<X>>)
        requires
            self.wf(),
            self.pending@.len() > 0 ==> self.timeline_fits(self.epoch_for(0), 0),
            usable(self.webrtc_tap, *encode, *publish),
        ensures
            self.pending@.len() == 0 ==> r is Ok,
            self.pending@.len() > 0 ==> exists|filled: Self, after: Self|
                {
                    &&& filled.pending@ == padded(self.pending@, self.frame_samples() as nat)
                    &&& filled == (AudioProducer { pending: filled.pending, ..self })
                    &&& #[trigger] filled.delivers(after, self.epoch_for(0), 0, *encode, *publish, r)
                },
            self.pending@.len() > 0 && r is Ok ==> delivered::<X, T, E, P>(
                self.webrtc_tap,
                *encode,
                *publish,
                padded(self.pending@, self.frame_samples() as nat),
                self.pts_ahead(self.epoch_for(0), 0),
            ),
            self.pending@.len() > 0 ==> (r matches Err(e) ==> undelivered::<X, T, E, P>(
                self.webrtc_tap,
                *encode,
                *publish,
                padded(self.pending@, self.frame_samples() as nat),
                self.pts_ahead(self.epoch_for(0), 0),
                e,
            )),
    {
        let mut this = self;
        if this.pending.len() == 0 {
            return Ok(());
        }
        proof {
            lemma_frame_samples(self.frame_size as int, self.codec_channels as int);
        }
        let frame_samples: usize = this.frame_size * this.codec_channels as usize;
        this.pending = pad(&this.pending, frame_samples);
        let epoch_us: u64 = match this.epoch_us {
            Some(e) => e,
            None => 0,
        };
        let ghost filled = this;
        proof {
            let n = self.frame_samples();
            vstd::arithmetic::div_mod::lemma_div_by_self(n);
            assert(filled.full_frames() == 1);
            assert(1 * 0usize == 0 && 0 * 0usize == 0 && 0 * self.frame_size == 0);
            assert(0 * n == 0);
            assert(chunk(filled.pending@, n, 0) =~= filled.pending@);
        }
        let r = this.deliver::<X, E, P>(epoch_us, 0, encode, publish);
        proof {
            lemma_outcome(filled, this, epoch_us, 0, *encode, *publish, r);
            if r is Ok {
                assert(filled.frame_delivered::<X, E, P>(epoch_us, 0, *encode, *publish, 0));
            } else {
                let j = choose|j: int|
                    0 <= j < 1 && #[trigger] filled.failed_at(
                        this,
                        epoch_us,
                        0,
                        *encode,
                        *publish,
                        r->Err_0,
                        j,
                    );
                assert(j == 0);
            }
        }
        r
    }

    /// Whether the `i`-th frame that waits was delivered.
    pub open spec fn frame_delivered<
        X,
        E: Fn(&Vec<u32>) -> Result<Bytes, X>,
        P: Fn(Bytes, u64) -> Result<(), X>,
    >(self, epoch_us: u64, advance: usize, encode: E, publish: P, i: int) -> bool {
        delivered::<X, T, E, P>(
            self.webrtc_tap,
            encode,
            publish,
            chunk(self.pending@, self.frame_samples(), i),
            self.time_ahead(epoch_us, advance, i),
        )
    }

    /// Whether the `j`-th frame that waits failed with `e`, after the frames
    /// before it were delivered.
    pub open spec fn failed_at<
        X,
        E: Fn(&Vec<u32>) -> Result<Bytes, X>,
        P: Fn(Bytes, u64) -> Result<(), X>,
    >(
        self,
        after: Self,
        epoch_us: u64,
        advance: usize,
        encode: E,
        publish: P,
        e: AudioError<X>,
        j: int,
    ) -> bool {
        &&& forall|i: int|
            0 <= i < j ==> #[trigger] self.frame_delivered::<X, E, P>(
                epoch_us,
                advance,
                encode,
                publish,
                i,
            )
        &&& undelivered::<X, T, E, P>(
            self.webrtc_tap,
            encode,
            publish,
            chunk(self.pending@, self.frame_samples(), j),
            self.time_ahead(epoch_us, advance, j),
            e,
        )
        &&& self.advanced(
            after,
            j + 1,
            if e is Publish {
                (j + 1) * advance
            } else {
                j * advance
            },
            j,
        )
    }
}

/// How far a step is from the end of its frame.
spec fn rank<X>(step: DeliveryStep<X>) -> int {
    match step {
        DeliveryStep::Encode { samples: _ } => 3,
        DeliveryStep::Tap { packet: _, ts: _ } => 2,
        DeliveryStep::Publish { packet: _, ts: _ } => 1,
        DeliveryStep::End(_) => 0,
    }
}

/// The steps of a delivery, what each of them came after, and the states
/// between them.
pub struct Delivery<T: Fn(Bytes, u64), X> {
    pub states: Seq<AudioProducer<T>>,
    pub events: Seq<DeliveryEvent<X>>,
    pub steps: Seq<DeliveryStep<X>>,
}

impl<T: Fn(Bytes, u64), X> Delivery<T, X> {
    /// It starts with samples that wait, each event leads from one state to the
    /// next, and each event is that of the step before it.
    pub open spec fn wf(self, epoch_us: u64, advance: usize) -> bool {
        &&& self.steps.len() > 0
        &&& self.states.len() == self.steps.len() + 1
        &&& self.events.len() == self.steps.len()
        &&& self.states[0].wf()
        &&& self.events[0] is Ready
        &&& forall|i: int| 0 <= i < self.steps.len() ==> #[trigger] self.moved(epoch_us, advance, i)
        &&& forall|i: int| 0 <= i < self.steps.len() - 1 ==> #[trigger] self.followed(i)
    }

    /// The `i`-th step is the one to take after the `i`-th event.
    pub open spec fn moved(self, epoch_us: u64, advance: usize, i: int) -> bool {
        self.states[i].stepped(
            self.states[i + 1],
            epoch_us,
            advance,
            self.events[i],
            self.steps[i],
        )
    }

    /// The event after the `i`-th step is of its kind.
    pub open spec fn followed(self, i: int) -> bool {
        match self.steps[i] {
            DeliveryStep::Encode { samples: _ } => self.events[i + 1] is Encoded,
            DeliveryStep::Tap { packet, ts } => self.events[i + 1] == DeliveryEvent::<X>::Tapped {
                packet,
                ts,
            },
            DeliveryStep::Publish { packet: _, ts: _ } => self.events[i + 1] is Published,
            DeliveryStep::End(_) => false,
        }
    }

    /// The codec, the tap and the track were called as the steps say, and the
    /// events are what came of it.
    pub open spec fn carried_out<
        E: Fn(&Vec<u32>) -> Result<Bytes, X>,
        P: Fn(Bytes, u64) -> Result<(), X>,
    >(self, encode: E, publish: P) -> bool {
        forall|i: int|
            0 <= i < self.steps.len() - 1 ==> #[trigger] self.carried(encode, publish, i)
    }

    /// The `i`-th step was carried out.
    pub open spec fn carried<
        E: Fn(&Vec<u32>) -> Result<Bytes, X>,
        P: Fn(Bytes, u64) -> Result<(), X>,
    >(self, encode: E, publish: P, i: int) -> bool {
        match self.steps[i] {
            DeliveryStep::Encode { samples } => self.events[i + 1] matches DeliveryEvent::Encoded(r)
                && encoded(encode, samples@, r),
            DeliveryStep::Tap { packet, ts } => tapped(
                self.states[0].webrtc_tap,
                contents(packet),
                ts,
            ),
            DeliveryStep::Publish { packet, ts } => self.events[i + 1] matches DeliveryEvent::Published(
                r,
            ) && call_ensures(publish, (packet, ts), r),
            DeliveryStep::End(_) => false,
        }
    }

    /// The frame that the `i`-th step belongs to. There are three steps for
    /// each, or two where there is no tap.
    pub open spec fn round(self, i: int) -> int {
        if self.states[0].webrtc_tap is Some {
            i / 3
        } else {
            i / 2
        }
    }

    /// The place of the `i`-th step among those of its frame.
    pub open spec fn place(self, i: int) -> int {
        if self.states[0].webrtc_tap is Some {
            i % 3
        } else {
            i % 2
        }
    }

    /// Where among the steps of a frame it is published.
    pub open spec fn publish_place(self) -> int {
        if self.states[0].webrtc_tap is Some {
            2
        } else {
            1
        }
    }

    /// What the `i`-th step is: the frames come in order, and each is encoded,
    /// tapped and published, in this order, with its timestamp. The end comes
    /// after all of them, or after what failed.
    pub open spec fn listed(self, epoch_us: u64, advance: usize, i: int) -> bool {
        let start = self.states[0];
        let after = self.states[i + 1];
        let frames = start.full_frames();
        let j = self.round(i);
        let place = self.place(i);
        let ts_j = start.time_ahead(epoch_us, advance, j);
        match self.steps[i] {
            DeliveryStep::Encode { samples } => {
                &&& place == 0
                &&& j < frames
                &&& samples@ == chunk(start.pending@, start.frame_samples(), j)
                &&& start.advanced(after, j + 1, j * advance, j)
            },
            DeliveryStep::Tap { packet, ts } => {
                &&& place == 1
                &&& start.webrtc_tap is Some
                &&& j < frames
                &&& self.events[i] == DeliveryEvent::<X>::Encoded(Ok(packet))
                &&& ts == ts_j <= MAX_TIMESTAMP
                &&& start.advanced(after, j + 1, (j + 1) * advance, j)
            },
            DeliveryStep::Publish { packet, ts } => {
                &&& place == self.publish_place()
                &&& j < frames
                &&& self.events[i + 1 - place] == DeliveryEvent::<X>::Encoded(Ok(packet))
                &&& ts == ts_j <= MAX_TIMESTAMP
                &&& start.advanced(after, j + 1, (j + 1) * advance, j)
            },
            DeliveryStep::End(Ok(_)) => {
                &&& place == 0
                &&& j == frames
                &&& start.advanced(after, frames, frames * advance, frames)
            },
            DeliveryStep::End(Err(AudioError::Codec(x))) => {
                &&& place == 1
                &&& j < frames
                &&& self.events[i] == DeliveryEvent::<X>::Encoded(Err(x))
                &&& start.advanced(after, j + 1, j * advance, j)
            },
            DeliveryStep::End(Err(AudioError::Timestamp)) => {
                &&& place == 1
                &&& j < frames
                &&& self.events[i] matches DeliveryEvent::Encoded(Ok(_))
                &&& ts_j > MAX_TIMESTAMP
                &&& start.advanced(after, j + 1, j * advance, j)
            },
            DeliveryStep::End(Err(AudioError::Publish(x))) => {
                &&& place == 0
                &&& 0 < j <= frames
                &&& self.events[i] == DeliveryEvent::<X>::Published(Err(x))
                &&& start.advanced(after, j, j * advance, j - 1)
            },
            DeliveryStep::End(Err(AudioError::Pcm(_))) => false,
        }
    }
}

fn pad(samples: &Vec<u32>, n: usize) -> (r: Vec<u32>)
    ensures
        r@ == padded(samples@, n as nat),
{
    let mut out: Vec<u32> = Vec::new();
    let mut i: usize = 0;
    while i < n
        invariant
            i <= n,
            out@ == padded(samples@, i as nat),
        decreases n - i,
    {
        let sample: u32 = if i < samples.len() {
            samples[i]
        } else {
            SILENCE
        };
        out.push(sample);
        assert(out@ =~= padded(samples@, i as nat + 1));
        i += 1;
    }
    out
}

proof fn lemma_frame_samples(size: int, channels: int)
    requires
        size > 0,
        channels > 0,
    ensures
        size * channels > 0,
{
    assert(size * channels > 0) by (nonlinear_arith)
        requires
            size > 0,
            channels > 0,
    ;
}

proof fn lemma_count(start: int, j: int)
    ensures
        ((start + j) % 0x1_0000_0000_0000_0000 + 1) % 0x1_0000_0000_0000_0000 == (start + j + 1)
            % 0x1_0000_0000_0000_0000,
{
}

proof fn lemma_step(len: int, size: int, j: int)
    requires
        size > 0,
        0 <= j,
    ensures
        len - j * size >= size ==> j + 1 <= len / size,
        0 <= len - j * size < size ==> j == len / size,
{
    if len - j * size >= size {
        assert((j + 1) * size == j * size + size) by (nonlinear_arith);
        vstd::arithmetic::div_mod::lemma_div_is_ordered((j + 1) * size, len, size);
        vstd::arithmetic::div_mod::lemma_div_multiples_vanish(j + 1, size);
        assert(size * (j + 1) == (j + 1) * size) by (nonlinear_arith);
    } else if 0 <= len - j * size {
        vstd::arithmetic::div_mod::lemma_fundamental_div_mod_converse(len, size, j, len - j * size);
    }
}

proof fn lemma_timeline<T: Fn(Bytes, u64)>(s: AudioProducer<T>, epoch_us: u64, j: int, k: int)
    requires
        s.wf(),
        0 <= j <= k,
        s.timeline_fits(epoch_us, k),
    ensures
        s.timeline_fits(epoch_us, j),
        0 <= j * s.frame_size <= k * s.frame_size,
        j < k ==> s.frames_produced + j * s.frame_size + s.frame_size <= u64::MAX,
{
    let size = s.frame_size as int;
    assert(0 <= j * size <= k * size) by (nonlinear_arith)
        requires
            0 <= j <= k,
            size > 0,
    ;
    let a = (s.frames_produced + j * size) * 1_000_000;
    let b = (s.frames_produced + k * size) * 1_000_000;
    vstd::arithmetic::div_mod::lemma_div_is_ordered(a, b, s.codec_rate as int);
    if j < k {
        assert(j * size + size <= k * size) by (nonlinear_arith)
            requires
                j + 1 <= k,
                size > 0,
        ;
    }
}

proof fn lemma_times<T: Fn(Bytes, u64)>(
    s: AudioProducer<T>,
    epoch_us: u64,
    advance: usize,
    j: int,
)
    requires
        s.wf(),
        s.can_deliver(epoch_us, advance),
    ensures
        0 <= j <= s.full_frames() ==> {
            &&& 0 <= j * advance
            &&& (s.frames_produced + j * advance) * 1_000_000 <= u64::MAX
            &&& 0 <= s.time_ahead(epoch_us, advance, j) <= u64::MAX
        },
        (j + 1) * advance == j * advance + advance,
{
    let k = s.full_frames();
    assert((j + 1) * advance == j * advance + advance) by (nonlinear_arith);
    if 0 <= j <= k {
        assert(0 <= j * advance <= k * advance) by (nonlinear_arith)
            requires
                0 <= j <= k,
                0 <= advance,
        ;
        let a = (s.frames_produced + j * advance) * 1_000_000;
        let b = (s.frames_produced + k * advance) * 1_000_000;
        vstd::arithmetic::div_mod::lemma_div_is_ordered(a, b, s.codec_rate as int);
        vstd::arithmetic::div_mod::lemma_div_pos_is_pos(a, s.codec_rate as int);
    }
}

/// Taking the next frame out of what is left of the samples after `j` of them.
proof fn lemma_next_frame<T: Fn(Bytes, u64), X>(
    start: AudioProducer<T>,
    now: AudioProducer<T>,
    after: AudioProducer<T>,
    step: DeliveryStep<X>,
    j: int,
    m: int,
)
    requires
        start.wf(),
        0 <= j <= start.full_frames(),
        start.advanced(now, j, m, j),
        now.takes_frame(after, step),
    ensures
        match step {
            DeliveryStep::Encode { samples } => {
                &&& j < start.full_frames()
                &&& samples@ == chunk(start.pending@, start.frame_samples(), j)
                &&& start.advanced(after, j + 1, m, j)
            },
            DeliveryStep::End(Ok(_)) => j == start.full_frames() && after == now,
            _ => false,
        },
{
    let n = start.frame_samples();
    let len = start.pending@.len() as int;
    lemma_frame_samples(start.frame_size as int, start.codec_channels as int);
    vstd::arithmetic::div_mod::lemma_fundamental_div_mod(len, n);
    vstd::arithmetic::div_mod::lemma_mod_bound(len, n);
    let k = start.full_frames();
    assert(0 <= j * n <= k * n && k * n == n * k && (j + 1) * n == j * n + n) by (nonlinear_arith)
        requires
            0 <= j <= k,
            0 < n,
    ;
    lemma_step(len, n, j);
    if now.pending@.len() >= n {
        assert(now.pending@.take(n) =~= chunk(start.pending@, n, j));
        assert(now.pending@.skip(n) =~= start.pending@.skip((j + 1) * n));
    }
}

/// The steps are those listed.
proof fn lemma_listed<T: Fn(Bytes, u64), X>(
    d: Delivery<T, X>,
    epoch_us: u64,
    advance: usize,
    i: int,
)
    requires
        d.wf(epoch_us, advance),
        d.states[0].can_deliver(epoch_us, advance),
        0 <= i < d.steps.len(),
    ensures
        d.listed(epoch_us, advance, i),
        0 <= d.round(i) <= d.states[0].full_frames(),
    decreases i,
{
    let start = d.states[0];
    assert(d.moved(epoch_us, advance, i));
    lemma_frame_samples(start.frame_size as int, start.codec_channels as int);
    vstd::arithmetic::div_mod::lemma_div_pos_is_pos(
        start.pending@.len() as int,
        start.frame_samples(),
    );
    if i == 0 {
        assert(0 * advance == 0);
        assert(0 * start.frame_samples() == 0);
        assert(start.pending@.skip(0) =~= start.pending@);
        assert(start.advanced(start, 0, 0, 0));
        lemma_next_frame(start, start, d.states[1], d.steps[0], 0, 0);
    } else {
        lemma_listed(d, epoch_us, advance, i - 1);
        assert(d.followed(i - 1));
        let j = d.round(i - 1);
        lemma_times(start, epoch_us, advance, j);
        let now = d.states[i];
        let after = d.states[i + 1];
        assert(0 * now.frame_size == 0);
        match d.events[i] {
            DeliveryEvent::Ready => {},
            DeliveryEvent::Encoded(_) => {},
            DeliveryEvent::Tapped { packet: _, ts: _ } => {},
            DeliveryEvent::Published(Err(_)) => {},
            DeliveryEvent::Published(Ok(_)) => {
                let counted = AudioProducer {
                    packets_encoded: ((now.packets_encoded + 1) % 0x1_0000_0000_0000_0000) as u64,
                    ..now
                };
                lemma_count(start.packets_encoded as int, j);
                assert(start.advanced(counted, j + 1, (j + 1) * advance, j + 1));
                lemma_next_frame(start, counted, after, d.steps[i], j + 1, (j + 1) * advance);
            },
        }
    }
}

/// Every frame before the one that the last step belongs to was delivered.
proof fn lemma_delivered<
    T: Fn(Bytes, u64),
    X,
    E: Fn(&Vec<u32>) -> Result<Bytes, X>,
    P: Fn(Bytes, u64) -> Result<(), X>,
>(d: Delivery<T, X>, epoch_us: u64, advance: usize, encode: E, publish: P, i: int)
    requires
        d.wf(epoch_us, advance),
        d.carried_out(encode, publish),
        d.states[0].can_deliver(epoch_us, advance),
        0 <= i < d.round(d.steps.len() - 1),
        i < d.round(d.steps.len() - 1) - 1 || !(d.steps.last() matches DeliveryStep::End(
            Err(AudioError::Publish(_)),
        )),
    ensures
        d.states[0].frame_delivered::<X, E, P>(epoch_us, advance, encode, publish, i),
{
    let w = d.publish_place() + 1;
    let first = i * w;
    let p = first + w - 1;
    assert(first == if d.states[0].webrtc_tap is Some {
        i * 3
    } else {
        i * 2
    });
    assert(p + 1 <= d.steps.len() - 1);
    lemma_listed(d, epoch_us, advance, first);
    lemma_listed(d, epoch_us, advance, p);
    lemma_listed(d, epoch_us, advance, p + 1);
    lemma_times(d.states[0], epoch_us, advance, i);
    assert(d.followed(first));
    assert(d.followed(p));
    assert(d.carried(encode, publish, first));
    assert(d.carried(encode, publish, p));
    if d.states[0].webrtc_tap is Some {
        lemma_listed(d, epoch_us, advance, first + 1);
        assert(d.followed(first + 1));
        assert(d.carried(encode, publish, first + 1));
        assert(d.moved(epoch_us, advance, p));
    }
    assert(d.moved(epoch_us, advance, p + 1));
    if p + 1 < d.steps.len() - 1 {
        assert(d.followed(p + 1));
    }
    let packet = d.steps[p]->Publish_packet;
    let ts = d.steps[p]->Publish_ts;
    match d.events[p + 1] {
        DeliveryEvent::Published(Ok(u)) => {
            assert(u == ());
            assert(call_ensures(publish, (packet, ts), Ok::<(), X>(u)));
        },
        _ => {
            assert(false);
        },
    }
}

/// How a delivery ends, and the state after it.
proof fn lemma_outcome<
    T: Fn(Bytes, u64),
    X,
    E: Fn(&Vec<u32>) -> Result<Bytes, X>,
    P: Fn(Bytes, u64) -> Result<(), X>,
>(
    start: AudioProducer<T>,
    after: AudioProducer<T>,
    epoch_us: u64,
    advance: usize,
    encode: E,
    publish: P,
    r: Result<(), AudioError<X>>,
)
    requires
        start.wf(),
        start.can_deliver(epoch_us, advance),
        start.delivers(after, epoch_us, advance, encode, publish, r),
    ensures
        match r {
            Ok(_) => {
                &&& forall|i: int|
                    0 <= i < start.full_frames() ==> #[trigger] start.frame_delivered::<X, E, P>(
                        epoch_us,
                        advance,
                        encode,
                        publish,
                        i,
                    )
                &&& start.advanced(
                    after,
                    start.full_frames(),
                    start.full_frames() * advance,
                    start.full_frames(),
                )
            },
            Err(e) => exists|j: int|
                0 <= j < start.full_frames() && #[trigger] start.failed_at(
                    after,
                    epoch_us,
                    advance,
                    encode,
                    publish,
                    e,
                    j,
                ),
        },
{
    let d = choose|d: Delivery<T, X>|
        {
            &&& #[trigger] d.wf(epoch_us, advance)
            &&& d.carried_out(encode, publish)
            &&& d.states[0] == start
            &&& d.states.last() == after
            &&& d.steps.last() == DeliveryStep::<X>::End(r)
        };
    let last = d.steps.len() - 1;
    lemma_listed(d, epoch_us, advance, last);
    let end = d.round(last);
    let j = if r matches Err(AudioError::Publish(_)) {
        end - 1
    } else {
        end
    };
    assert forall|i: int| 0 <= i < j implies #[trigger] start.frame_delivered::<X, E, P>(
        epoch_us,
        advance,
        encode,
        publish,
        i,
    ) by {
        lemma_delivered(d, epoch_us, advance, encode, publish, i);
    }
    if let Err(e) = r {
        lemma_times(start, epoch_us, advance, j);
        let n = start.frame_samples();
        assert(last > 0);
        lemma_listed(d, epoch_us, advance, last - 1);
        assert(d.followed(last - 1));
        assert(d.carried(encode, publish, last - 1));
        assert(d.moved(epoch_us, advance, last));
        if e is Codec || e is Timestamp {
            assert(d.steps[last - 1] is Encode);
            assert(d.round(last - 1) == j);
        }
        if let AudioError::Timestamp = e {
            let packet = d.events[last]->Encoded_0->Ok_0;
            assert(encoded(encode, chunk(start.pending@, n, j), Ok::<Bytes, X>(packet)));
        }
        if e is Publish {
            let p = last - 1;
            let first = p - d.publish_place();
            lemma_listed(d, epoch_us, advance, first);
            assert(d.followed(first));
            assert(d.carried(encode, publish, first));
            if start.webrtc_tap is Some {
                lemma_listed(d, epoch_us, advance, first + 1);
                assert(d.followed(first + 1));
                assert(d.carried(encode, publish, first + 1));
                assert(d.moved(epoch_us, advance, p));
            }
            let packet = d.steps[p]->Publish_packet;
            let ts = d.steps[p]->Publish_ts;
            assert(d.steps[p] is Publish);
            assert(d.round(p) == j && d.round(first) == j);
            assert(d.steps[first] is Encode);
            assert(encoded(encode, chunk(start.pending@, n, j), Ok::<Bytes, X>(packet)));
            assert(tapped(start.webrtc_tap, contents(packet), ts));
            assert(call_ensures(publish, (packet, ts), Err::<(), X>(e->Publish_0)));
            assert(handed_on(
                start.webrtc_tap,
                encode,
                publish,
                chunk(start.pending@, n, j),
                ts,
                Err::<(), X>(e->Publish_0),
            ));
        }
        assert(undelivered::<X, T, E, P>(
            start.webrtc_tap,
            encode,
            publish,
            chunk(start.pending@, n, j),
            start.time_ahead(epoch_us, advance, j),
            e,
        ));
        assert(start.failed_at(after, epoch_us, advance, encode, publish, e, j));
    }
}

// Laws

/// The frames that wait are delivered in order, and nothing else is done: the
/// steps are, for each frame, to encode it, to tap its packet where there is a
/// tap, and to publish its packet, the last two with the timestamp of the frame.
/// Then comes the end; it comes earlier where something fails, upon which nothing
/// more is done.
pub proof fn law_steps_of_a_delivery<T: Fn(Bytes, u64), X>(
    d: Delivery<T, X>,
    epoch_us: u64,
    advance: usize,
    i: int,
)
    requires
        d.wf(epoch_us, advance),
        d.states[0].can_deliver(epoch_us, advance),
        0 <= i < d.steps.len(),
    ensures
        d.listed(epoch_us, advance, i),
        d.steps[i] is End ==> i == d.steps.len() - 1,
{
    lemma_listed(d, epoch_us, advance, i);
    if i < d.steps.len() - 1 {
        assert(d.followed(i));
    }
}

/// A packet is tapped before it is published, right before it, with the same
/// timestamp.
pub proof fn law_tapped_before_published<T: Fn(Bytes, u64), X>(
    d: Delivery<T, X>,
    epoch_us: u64,
    advance: usize,
    i: int,
)
    requires
        d.wf(epoch_us, advance),
        d.states[0].can_deliver(epoch_us, advance),
        d.states[0].webrtc_tap is Some,
        0 <= i < d.steps.len(),
    ensures
        d.steps[i] is Publish ==> i > 0 && d.steps[i - 1] is Tap,
        d.steps[i] is Publish ==> d.steps[i - 1]->Tap_packet == d.steps[i]->Publish_packet,
        d.steps[i] is Publish ==> d.steps[i - 1]->Tap_ts == d.steps[i]->Publish_ts,
{
    lemma_listed(d, epoch_us, advance, i);
    if d.steps[i] is Publish {
        assert(d.followed(i - 1));
        assert(d.moved(epoch_us, advance, i));
        lemma_listed(d, epoch_us, advance, i - 1);
    }
}

/// The first write after the start or after a reset anchors the timeline: its
/// first packet carries the time of the write.
pub proof fn law_first_write_anchors<T: Fn(Bytes, u64)>(s: AudioProducer<T>, timestamp_us: u64)
    requires
        s.wf(),
        s.epoch_us is None,
        s.frames_produced == 0,
    ensures
        s.pts_ahead(s.epoch_for(timestamp_us), 0) == timestamp_us,
{
    assert(0 * s.frame_size == 0);
    assert(0int / (s.codec_rate as int) == 0) by (nonlinear_arith)
        requires
            s.codec_rate > 0,
    ;
}

/// Once the timeline is anchored, the times of writes are ignored.
pub proof fn law_later_timestamps_are_ignored<T: Fn(Bytes, u64)>(s: AudioProducer<T>, a: u64, b: u64)
    requires
        s.epoch_us is Some,
    ensures
        s.epoch_for(a) == s.epoch_for(b),
{
}

/// Timestamps advance by the number of samples alone: over every whole second
/// of samples, by exactly a second, and never back.
pub proof fn law_timestamps_count_samples<T: Fn(Bytes, u64)>(
    s: AudioProducer<T>,
    epoch_us: u64,
    i: int,
    j: int,
    seconds: int,
)
    requires
        s.wf(),
        0 <= i <= j,
        0 <= seconds,
    ensures
        s.pts_ahead(epoch_us, i) <= s.pts_ahead(epoch_us, j),
        (j - i) * s.frame_size == seconds * s.codec_rate ==> s.pts_ahead(epoch_us, j) == s.pts_ahead(
            epoch_us,
            i,
        ) + seconds * 1_000_000,
{
    let size = s.frame_size as int;
    let rate = s.codec_rate as int;
    let a = (s.frames_produced + i * size) * 1_000_000;
    let b = (s.frames_produced + j * size) * 1_000_000;
    assert(i * size <= j * size) by (nonlinear_arith)
        requires
            i <= j,
            size > 0,
    ;
    vstd::arithmetic::div_mod::lemma_div_is_ordered(a, b, rate);
    if (j - i) * size == seconds * rate {
        assert((j - i) * size == j * size - i * size) by (nonlinear_arith);
        assert(seconds * rate * 1_000_000 == rate * (seconds * 1_000_000)) by (nonlinear_arith);
        assert(b == rate * (seconds * 1_000_000) + a);
        vstd::arithmetic::div_mod::lemma_hoist_over_denominator(a, seconds * 1_000_000, rate as nat);
        assert((seconds * 1_000_000) * rate == rate * (seconds * 1_000_000)) by (nonlinear_arith);
    }
}

/// The first `k` chunks of the samples, one after another.
pub open spec fn chunks(samples: Seq<u32>, n: int, k: nat) -> Seq<u32>
    decreases k,
{
    if k == 0 {
        Seq::empty()
    } else {
        chunks(samples, n, (k - 1) as nat) + chunk(samples, n, k - 1)
    }
}

/// No sample is lost, repeated or moved: the frames that a write encodes, and
/// what waits after it, are together what waited and what was written.
pub proof fn law_samples_are_conserved(samples: Seq<u32>, n: int, k: nat)
    requires
        0 < n,
        k * n <= samples.len(),
    ensures
        chunks(samples, n, k) + samples.skip(k * n) == samples,
    decreases k,
{
    if k == 0 {
        assert(k * n == 0) by (nonlinear_arith)
            requires
                k == 0,
        ;
        assert(chunks(samples, n, k) + samples.skip(0) =~= samples);
    } else {
        let j = (k - 1) as nat;
        assert(k * n == j * n + n) by (nonlinear_arith)
            requires
                k == j + 1,
        ;
        assert(j * n >= 0) by (nonlinear_arith)
            requires
                n > 0,
                j >= 0,
        ;
        law_samples_are_conserved(samples, n, j);
        assert(samples.skip(j * n) =~= chunk(samples, n, j as int) + samples.skip(k * n));
        assert(chunks(samples, n, k) + samples.skip(k * n) =~= chunks(samples, n, j)
            + samples.skip(j * n));
    }
}

/// How samples are divided over writes makes no difference to the frames: after
/// a write of `k` frames, the next write encodes the frames that would have
/// followed in one write of everything, with the same timestamps.
pub proof fn law_writes_compose<T: Fn(Bytes, u64)>(
    before: AudioProducer<T>,
    after: AudioProducer<T>,
    epoch_us: u64,
    samples: Seq<u32>,
    more: Seq<u32>,
    k: int,
    i: int,
)
    requires
        before.wf(),
        0 <= k,
        k * before.frame_samples() <= samples.len(),
        before.after_chunks(after, epoch_us, samples, k, k, k),
        before.timeline_fits(epoch_us, k),
        0 <= i,
        (k + i + 1) * before.frame_samples() <= samples.len() + more.len(),
    ensures
        chunk(after.pending@ + more, after.frame_samples(), i) == chunk(
            samples + more,
            before.frame_samples(),
            k + i,
        ),
        after.pts_ahead(epoch_us, i) == before.pts_ahead(epoch_us, k + i),
{
    let n = before.frame_samples();
    lemma_frame_samples(before.frame_size as int, before.codec_channels as int);
    lemma_timeline(before, epoch_us, k, k);
    assert((k + i) * n == k * n + i * n && (k + i + 1) * n == (k + i) * n + n) by (nonlinear_arith);
    assert(k * n >= 0 && i * n >= 0) by (nonlinear_arith)
        requires
            n > 0,
            k >= 0,
            i >= 0,
    ;
    assert(chunk(after.pending@ + more, n, i) =~= chunk(samples + more, n, k + i));
    assert((k + i) * before.frame_size == k * before.frame_size + i * before.frame_size)
        by (nonlinear_arith);
}

/// Writes one after another, from the start or a reset on, none of which
/// failed: the states between them, and the time, the samples, the codec and
/// the track of each.
pub struct Writes<T: Fn(Bytes, u64), E, P> {
    pub states: Seq<AudioProducer<T>>,
    pub times: Seq<u64>,
    pub samples: Seq<Vec<u32>>,
    pub codecs: Seq<E>,
    pub tracks: Seq<P>,
}

impl<T: Fn(Bytes, u64), E, P> Writes<T, E, P> {
    /// The number of writes.
    pub open spec fn len(self) -> int {
        self.times.len() as int
    }

    /// The samples of the first `m` writes, one after another.
    pub open spec fn written(self, m: int) -> Seq<u32>
        decreases m,
    {
        if m <= 0 {
            Seq::empty()
        } else {
            self.written(m - 1) + self.samples[m - 1]@
        }
    }

    /// The samples of a frame, over all channels.
    pub open spec fn frame(self) -> int {
        self.states[0].frame_samples()
    }

    /// The number of full frames among the samples of the first `m` writes.
    pub open spec fn frames(self, m: int) -> int {
        self.written(m).len() as int / self.frame()
    }

    /// The timestamp of the packet that comes `i` packets after the first.
    pub open spec fn time_of(self, i: int) -> int {
        pts(self.times[0] as int, i * self.states[0].frame_size, self.states[0].codec_rate)
    }

    /// The first state has no epoch, no samples waiting and none emitted, and
    /// each write leads from one state to the next.
    pub open spec fn wf<X>(self) -> bool where
        E: Fn(&Vec<u32>) -> Result<Bytes, X>,
        P: Fn(Bytes, u64) -> Result<(), X>,
     {
        &&& self.states.len() == self.times.len() + 1
        &&& self.samples.len() == self.times.len()
        &&& self.codecs.len() == self.times.len()
        &&& self.tracks.len() == self.times.len()
        &&& self.states[0].wf()
        &&& self.states[0].epoch_us is None
        &&& self.states[0].frames_produced == 0
        &&& self.states[0].pending@.len() == 0
        &&& forall|i: int| 0 <= i < self.times.len() ==> #[trigger] self.wrote_at::<X>(i)
    }

    /// The `i`-th write was possible and succeeded.
    pub open spec fn wrote_at<X>(self, i: int) -> bool where
        E: Fn(&Vec<u32>) -> Result<Bytes, X>,
        P: Fn(Bytes, u64) -> Result<(), X>,
     {
        &&& self.states[i].write_fits(self.times[i], self.samples[i]@)
        &&& self.states[i].wrote(
            self.states[i + 1],
            self.times[i],
            Ok::<Vec<u32>, X>(self.samples[i]),
            self.codecs[i],
            self.tracks[i],
            Ok::<(), AudioError<X>>(()),
        )
    }

    /// The state after the first `m` writes: the timeline is anchored to the
    /// first of them, as many packets were published as there are full frames,
    /// and the rest of the samples waits.
    pub open spec fn reached(self, m: int) -> bool {
        let first = self.states[0];
        let now = self.states[m];
        &&& now.epoch_us == if m == 0 {
            None
        } else {
            Some(self.times[0])
        }
        &&& now.pending@ == self.written(m).skip(self.frames(m) * self.frame())
        &&& now.frames_produced == self.frames(m) * first.frame_size
        &&& now.packets_encoded == (first.packets_encoded + self.frames(m))
            % 0x1_0000_0000_0000_0000
        &&& now.frame_size == first.frame_size
        &&& now.codec_channels == first.codec_channels
        &&& now.codec_rate == first.codec_rate
        &&& now.webrtc_tap == first.webrtc_tap
    }

    /// Whether the `i`-th frame of all samples was delivered by one of the first
    /// `m` writes, with its timestamp.
    pub open spec fn frame_delivered<X>(self, m: int, i: int) -> bool where
        E: Fn(&Vec<u32>) -> Result<Bytes, X>,
        P: Fn(Bytes, u64) -> Result<(), X>,
     {
        exists|w: int|
            0 <= w < m && #[trigger] self.delivered_by::<X>(w, chunk(self.written(m), self.frame(), i), self.time_of(i))
    }

    /// Whether the `w`-th write delivered these samples with this timestamp.
    pub open spec fn delivered_by<X>(self, w: int, samples: Seq<u32>, ts: int) -> bool where
        E: Fn(&Vec<u32>) -> Result<Bytes, X>,
        P: Fn(Bytes, u64) -> Result<(), X>,
     {
        delivered::<X, T, E, P>(
            self.states[0].webrtc_tap,
            self.codecs[w],
            self.tracks[w],
            samples,
            ts,
        )
    }
}

/// Over all writes since the start or a reset: the timeline is anchored to the
/// time of the first, there is a packet for each full frame of all samples
/// together, the `i`-th with the time of the first write plus the time that `i`
/// frames take, the counter grows by one for each, and the samples that are
/// left wait.
pub proof fn law_all_writes_since_the_epoch<
    X,
    T: Fn(Bytes, u64),
    E: Fn(&Vec<u32>) -> Result<Bytes, X>,
    P: Fn(Bytes, u64) -> Result<(), X>,
>(writes: Writes<T, E, P>, m: int)
    requires
        writes.wf::<X>(),
        0 <= m <= writes.len(),
    ensures
        writes.reached(m),
        forall|i: int| 0 <= i < writes.frames(m) ==> #[trigger] writes.frame_delivered::<X>(m, i),
    decreases m,
{
    let first = writes.states[0];
    let size = writes.frame();
    lemma_frame_samples(first.frame_size as int, first.codec_channels as int);
    if m == 0 {
        lemma_step(0, size, 0);
        assert(0 * size == 0);
        assert(0 * first.frame_size == 0);
        assert(writes.written(0).skip(0) =~= first.pending@);
    } else {
        law_all_writes_since_the_epoch::<X, T, E, P>(writes, m - 1);
        assert(writes.wrote_at::<X>(m - 1));
        let before = writes.states[m - 1];
        let after = writes.states[m];
        let past = writes.written(m - 1);
        let all = writes.written(m);
        let new = writes.samples[m - 1]@;
        let done = writes.frames(m - 1);
        let samples = before.pending@ + new;
        let k = samples.len() as int / size;
        assert(all == past + new);
        let epoch = before.epoch_for(writes.times[m - 1]);
        assert(epoch == writes.times[0]);
        vstd::arithmetic::div_mod::lemma_fundamental_div_mod(past.len() as int, size);
        vstd::arithmetic::div_mod::lemma_fundamental_div_mod(samples.len() as int, size);
        assert(size * done == done * size && size * k == k * size) by (nonlinear_arith);
        vstd::arithmetic::div_mod::lemma_div_pos_is_pos(past.len() as int, size);
        vstd::arithmetic::div_mod::lemma_div_pos_is_pos(samples.len() as int, size);
        assert(0 <= done * size && 0 <= k * size) by (nonlinear_arith)
            requires
                0 <= done,
                0 <= k,
                0 < size,
        ;
        assert((done + k) * size == done * size + k * size) by (nonlinear_arith);
        assert(samples =~= all.skip(done * size));
        vstd::arithmetic::div_mod::lemma_fundamental_div_mod_converse(
            all.len() as int,
            size,
            done + k,
            samples.len() as int - k * size,
        );
        assert(writes.frames(m) == done + k);
        assert((done + k) * first.frame_size == done * first.frame_size + k * first.frame_size)
            by (nonlinear_arith);
        lemma_timeline(before, epoch, 0, k);
        assert(after.pending@ =~= all.skip((done + k) * size));
        vstd::arithmetic::div_mod::lemma_add_mod_noop(
            first.packets_encoded + done,
            k,
            0x1_0000_0000_0000_0000,
        );
        vstd::arithmetic::div_mod::lemma_mod_bound(
            first.packets_encoded + done,
            0x1_0000_0000_0000_0000,
        );
        vstd::arithmetic::div_mod::lemma_add_mod_noop(
            (first.packets_encoded + done) % 0x1_0000_0000_0000_0000,
            k,
            0x1_0000_0000_0000_0000,
        );
        assert(writes.reached(m));
        assert forall|i: int| 0 <= i < writes.frames(m) implies #[trigger] writes.frame_delivered::<X>(
            m,
            i,
        ) by {
            assert((i + 1) * size == i * size + size) by (nonlinear_arith);
            assert(0 <= i * size) by (nonlinear_arith)
                requires
                    0 <= i,
                    0 < size,
            ;
            if i < done {
                assert(writes.frame_delivered::<X>(m - 1, i));
                assert((i + 1) * size <= done * size) by (nonlinear_arith)
                    requires
                        i + 1 <= done,
                        0 < size,
                ;
                assert(chunk(all, size, i) =~= chunk(past, size, i));
                let w = choose|w: int|
                    0 <= w < m - 1 && #[trigger] writes.delivered_by::<X>(
                        w,
                        chunk(past, size, i),
                        writes.time_of(i),
                    );
                assert(writes.delivered_by::<X>(w, chunk(all, size, i), writes.time_of(i)));
            } else {
                let j = i - done;
                assert((j + 1) * size == j * size + size && i * size == done * size + j * size
                    && i * first.frame_size == done * first.frame_size + j * first.frame_size)
                    by (nonlinear_arith)
                    requires
                        i == done + j,
                ;
                assert(0 <= j * size && (j + 1) * size <= k * size) by (nonlinear_arith)
                    requires
                        0 <= j,
                        j + 1 <= k,
                        0 < size,
                ;
                assert(chunk(samples, size, j) =~= chunk(all, size, i));
                assert(before.pts_ahead(epoch, j) == writes.time_of(i));
                assert(writes.delivered_by::<X>(
                    m - 1,
                    chunk(all, size, i),
                    writes.time_of(i),
                ));
            }
        }
    }
}

/// How the same samples are cut into writes makes no difference: the same
/// frames come out with the same times, and the same samples wait.
pub proof fn law_cutting_makes_no_difference<
    X,
    T: Fn(Bytes, u64),
    E: Fn(&Vec<u32>) -> Result<Bytes, X>,
    P: Fn(Bytes, u64) -> Result<(), X>,
>(a: Writes<T, E, P>, b: Writes<T, E, P>)
    requires
        a.wf::<X>(),
        b.wf::<X>(),
        0 < a.len(),
        0 < b.len(),
        a.states[0].frame_size == b.states[0].frame_size,
        a.states[0].codec_channels == b.states[0].codec_channels,
        a.states[0].codec_rate == b.states[0].codec_rate,
        a.times[0] == b.times[0],
        a.written(a.len()) == b.written(b.len()),
    ensures
        a.frames(a.len()) == b.frames(b.len()),
        a.states[a.len()].pending@ == b.states[b.len()].pending@,
        forall|i: int|
            0 <= i < a.frames(a.len()) ==> {
                &&& #[trigger] a.frame_delivered::<X>(a.len(), i)
                &&& b.frame_delivered::<X>(b.len(), i)
                &&& a.time_of(i) == b.time_of(i)
            },
{
    law_all_writes_since_the_epoch::<X, T, E, P>(a, a.len());
    law_all_writes_since_the_epoch::<X, T, E, P>(b, b.len());
}

/// The resampler takes as many samples at a time as fit into a frame's time at the
/// input rate, and there is none exactly if the rates agree.
pub proof fn law_resampling_by_the_frame(
    input_rate: u32,
    codec_rate: u32,
    frame_duration: Duration,
    us: u128,
    r: Option<usize>,
)
    requires
        call_ensures(resample_chunk, (input_rate, codec_rate, frame_duration), r),
        call_ensures(Duration::as_micros, (frame_duration,), us),
        input_rate * us < 0x1_0000_0000 * 1_000_000,
    ensures
        r is None <==> input_rate == codec_rate,
        r matches Some(n) ==> n * 1_000_000 <= input_rate * us < (n + 1) * 1_000_000,
{
}

/// Whether a timestamp lies so many samples after the epoch, to the microsecond.
pub open spec fn lies_after(ts: int, epoch_us: u64, produced: int, rate: u32) -> bool {
    (ts - epoch_us) * rate <= produced * 1_000_000 < (ts - epoch_us + 1) * rate
}

proof fn lemma_lies_after(epoch_us: u64, produced: int, rate: u32)
    requires
        rate > 0,
        produced >= 0,
    ensures
        lies_after(pts(epoch_us as int, produced, rate), epoch_us, produced, rate),
{
    let a = produced * 1_000_000;
    let d = rate as int;
    vstd::arithmetic::div_mod::lemma_fundamental_div_mod(a, d);
    vstd::arithmetic::div_mod::lemma_mod_bound(a, d);
    let q = a / d;
    assert(d * q == q * d) by (nonlinear_arith);
    assert((q + 1) * d == q * d + d) by (nonlinear_arith);
}

/// A packet is stamped with the time of the epoch plus the time that the samples
/// since then take, and cannot be stamped exactly if this takes more than 62 bits.
pub proof fn law_packets_are_stamped_by_samples<T: Fn(Bytes, u64)>(
    producer: &AudioProducer<T>,
    epoch_us: u64,
    r: Option<u64>,
)
    requires
        producer.wf(),
        call_ensures(AudioProducer::<T>::timestamp, (producer, epoch_us), r),
    ensures
        r matches Some(ts) ==> ts < 0x4000_0000_0000_0000 && lies_after(
            ts as int,
            epoch_us,
            producer.frames_produced as int,
            producer.codec_rate,
        ),
        r is None ==> producer.frames_produced * 1_000_000 >= (0x4000_0000_0000_0000 - epoch_us)
            * producer.codec_rate,
{
    let rate = producer.codec_rate;
    assert(0 * producer.frame_size == 0);
    lemma_lies_after(epoch_us, producer.frames_produced as int, rate);
    if r is None {
        let ts = pts(epoch_us as int, producer.frames_produced as int, rate);
        assert((ts - epoch_us) * rate >= (0x4000_0000_0000_0000 - epoch_us) * rate)
            by (nonlinear_arith)
            requires
                ts >= 0x4000_0000_0000_0000,
                rate > 0,
        ;
    }
}

/// Each step of a delivery follows from what happened: the samples of a frame are
/// encoded as soon as they are there, the packet goes to the tap if there is one
/// and to the track in any case, the samples advance the timeline, and each
/// packet that was published is counted. Nothing else changes.
pub proof fn law_what_follows_what<T: Fn(Bytes, u64), X>(
    producer: &mut AudioProducer<T>,
    epoch_us: u64,
    advance: usize,
    event: DeliveryEvent<X>,
    r: DeliveryStep<X>,
)
    requires
        old(producer).wf(),
        call_ensures(AudioProducer::<T>::step::<X>, (producer, epoch_us, advance, event), r),
        event matches DeliveryEvent::Encoded(Ok(_)) ==> old(producer).frames_produced + advance
            <= u64::MAX,
    ensures
        (event is Ready || (event matches DeliveryEvent::Published(Ok(_)))) ==> {
            let n = old(producer).frame_size * old(producer).codec_channels;
            &&& old(producer).pending@.len() >= n ==> (r matches DeliveryStep::Encode { samples } && {
                &&& samples@.len() == n
                &&& samples@ + final(producer).pending@ == old(producer).pending@
            })
            &&& old(producer).pending@.len() < n ==> r == DeliveryStep::<X>::End(Ok(()))
                && final(producer).pending == old(producer).pending
        },
        !(event is Ready || (event matches DeliveryEvent::Published(Ok(_)))) ==> final(
            producer).pending == old(producer).pending,
        event matches DeliveryEvent::Encoded(Ok(packet)) ==> match r {
            DeliveryStep::Tap { packet: p, ts } => p == packet && old(producer).webrtc_tap is Some
                && lies_after(
                ts as int,
                epoch_us,
                old(producer).frames_produced as int,
                old(producer).codec_rate,
            ) && final(producer).frames_produced == old(producer).frames_produced + advance,
            DeliveryStep::Publish { packet: p, ts } => p == packet && old(producer).webrtc_tap is None
                && lies_after(
                ts as int,
                epoch_us,
                old(producer).frames_produced as int,
                old(producer).codec_rate,
            ) && final(producer).frames_produced == old(producer).frames_produced + advance,
            DeliveryStep::End(Err(AudioError::Timestamp)) => final(producer).frames_produced == old(
                producer).frames_produced,
            _ => false,
        },
        !(event matches DeliveryEvent::Encoded(Ok(_))) ==> final(producer).frames_produced == old(
            producer).frames_produced,
        event matches DeliveryEvent::Encoded(Err(x)) ==> r == DeliveryStep::<X>::End(
            Err(AudioError::Codec(x)),
        ),
        event matches DeliveryEvent::Tapped { packet, ts } ==> r == (DeliveryStep::<X>::Publish {
            packet,
            ts,
        }),
        event matches DeliveryEvent::Published(Err(x)) ==> r == DeliveryStep::<X>::End(
            Err(AudioError::Publish(x)),
        ),
        event matches DeliveryEvent::Published(Ok(_)) ==> old(producer).packets_encoded < u64::MAX
            ==> final(producer).packets_encoded == old(producer).packets_encoded + 1,
        !(event matches DeliveryEvent::Published(Ok(_))) ==> final(producer).packets_encoded == old(
            producer).packets_encoded,
        final(producer).epoch_us == old(producer).epoch_us,
        final(producer).webrtc_tap == old(producer).webrtc_tap,
        final(producer).codec_rate == old(producer).codec_rate,
        final(producer).frame_size == old(producer).frame_size,
        final(producer).codec_channels == old(producer).codec_channels,
{
    let before = *old(producer);
    assert(0 * before.frame_size == 0);
    lemma_lies_after(epoch_us, before.frames_produced as int, before.codec_rate);
    let n = before.frame_samples();
    lemma_frame_samples(before.frame_size as int, before.codec_channels as int);
    if before.pending@.len() >= n {
        assert(before.pending@.take(n) + before.pending@.skip(n) =~= before.pending@);
    }
}

/// After a reset nothing waits, and the next packet is stamped with the time of
/// the write that it comes from, whatever was written before.
pub proof fn law_resets_anchor_anew<T: Fn(Bytes, u64)>(
    producer: &mut AudioProducer<T>,
    epoch_us: u64,
    r: Option<u64>,
)
    requires
        old(producer).wf(),
        call_ensures(AudioProducer::<T>::reset_epoch, (producer,), ()),
        call_ensures(AudioProducer::<T>::timestamp, (final(producer), epoch_us), r),
    ensures
        final(producer).epoch_us is None,
        final(producer).pending@.len() == 0,
        epoch_us < 0x4000_0000_0000_0000 ==> r == Some(epoch_us),
        final(producer).packets_encoded == old(producer).packets_encoded,
        final(producer).webrtc_tap == old(producer).webrtc_tap,
        final(producer).frame_size == old(producer).frame_size,
        final(producer).codec_channels == old(producer).codec_channels,
        final(producer).codec_rate == old(producer).codec_rate,
{
    assert(0 * final(producer).frame_size == 0);
    assert(0int / (final(producer).codec_rate as int) == 0) by {
        vstd::arithmetic::div_mod::lemma_div_basics(final(producer).codec_rate as int);
    }
}

/// A write of samples takes the time of the first write as its epoch, and leaves
/// less than a frame waiting; no sample is lost or moved.
pub proof fn law_writes_keep_every_sample<
    T: Fn(Bytes, u64),
    X,
    E: Fn(&Vec<u32>) -> Result<Bytes, X>,
    P: Fn(Bytes, u64) -> Result<(), X>,
>(
    producer: &mut AudioProducer<T>,
    timestamp_us: u64,
    new: Vec<u32>,
    encode: &E,
    publish: &P,
    packets: int,
)
    requires
        old(producer).wf(),
        call_ensures(
            AudioProducer::<T>::write::<X, E, P>,
            (producer, timestamp_us, Ok::<Vec<u32>, X>(new), encode, publish),
            Ok::<(), AudioError<X>>(()),
        ),
        packets * (old(producer).frame_size * old(producer).codec_channels) <= old(
            producer).pending@.len() + new@.len() < (packets + 1) * (old(producer).frame_size * old(
            producer).codec_channels),
        old(producer).frames_produced + packets * old(producer).frame_size <= u64::MAX,
    ensures
        old(producer).epoch_us is None ==> final(producer).epoch_us == Some(timestamp_us),
        old(producer).epoch_us is Some ==> final(producer).epoch_us == old(producer).epoch_us,
        final(producer).pending@ == (old(producer).pending@ + new@).skip(
            packets * (old(producer).frame_size * old(producer).codec_channels),
        ),
        final(producer).frames_produced == old(producer).frames_produced + packets * old(
            producer).frame_size,
        old(producer).packets_encoded + packets <= u64::MAX ==> final(producer).packets_encoded
            == old(producer).packets_encoded + packets,
{
    let n = old(producer).frame_samples();
    let total = (old(producer).pending@ + new@).len() as int;
    assert((packets + 1) * n == packets * n + n) by (nonlinear_arith);
    assert(packets >= 0) by (nonlinear_arith)
        requires
            (packets + 1) * n > total,
            total >= 0,
            n > 0,
    ;
    vstd::arithmetic::div_mod::lemma_fundamental_div_mod_converse(
        total,
        n,
        packets,
        total - packets * n,
    );
}

/// Whether samples can be written is whether the timestamp after the last of their
/// packets can be computed in 64 bits.
pub proof fn law_what_fits<T: Fn(Bytes, u64)>(
    producer: &AudioProducer<T>,
    timestamp_us: u64,
    samples: usize,
    r: bool,
    packets: int,
)
    requires
        producer.wf(),
        call_ensures(AudioProducer::<T>::fits, (producer, timestamp_us, samples), r),
        packets * (producer.frame_size * producer.codec_channels) <= producer.pending@.len()
            + samples < (packets + 1) * (producer.frame_size * producer.codec_channels),
        producer.epoch_us is None,
    ensures
        ({
            let produced = producer.frames_produced + packets * producer.frame_size;
            let fits = produced * 1_000_000 < 0x1_0000_0000_0000_0000;
            &&& r ==> fits
            &&& fits && timestamp_us == 0 ==> r
            &&& r ==> produced * 1_000_000 < (0x1_0000_0000_0000_0000 - timestamp_us)
                * producer.codec_rate
        }),
{
    let n = producer.frame_samples();
    let total = producer.pending@.len() + samples;
    assert((packets + 1) * n == packets * n + n) by (nonlinear_arith);
    assert(packets >= 0) by (nonlinear_arith)
        requires
            (packets + 1) * n > total,
            total >= 0,
            n > 0,
    ;
    vstd::arithmetic::div_mod::lemma_fundamental_div_mod_converse(
        total,
        n,
        packets,
        total - packets * n,
    );
    let size = producer.frame_size as int;
    assert(packets * size >= 0) by (nonlinear_arith)
        requires
            packets >= 0,
            size > 0,
    ;
    let produced = producer.frames_produced + packets * size;
    let rate = producer.codec_rate;
    let ts = pts(timestamp_us as int, produced, rate);
    lemma_lies_after(timestamp_us, produced, rate);
    vstd::arithmetic::div_mod::lemma_div_is_ordered_by_denominator(
        produced * 1_000_000,
        1,
        rate as int,
    );
    if r {
        assert((ts - timestamp_us + 1) * rate <= (0x1_0000_0000_0000_0000 - timestamp_us) * rate)
            by (nonlinear_arith)
            requires
                ts < 0x1_0000_0000_0000_0000,
                rate > 0,
        ;
    }
}

/// The samples that are left over are published as one more packet, filled up with
/// zeros to a frame, and stamped as the next packet would have been. Where nothing
/// is left over, nothing is published and nothing can fail.
pub proof fn law_the_rest_is_published<
    T: Fn(Bytes, u64),
    X,
    E: Fn(&Vec<u32>) -> Result<Bytes, X>,
    P: Fn(Bytes, u64) -> Result<(), X>,
>(
    producer: AudioProducer<T>,
    encode: &E,
    publish: &P,
    r: Result<(), AudioError<X>>,
)
    requires
        producer.wf(),
        call_ensures(AudioProducer::<T>::finish::<X, E, P>, (producer, encode, publish), r),
        producer.pending@.len() < producer.frame_size * producer.codec_channels,
        producer.epoch_us is Some,
    ensures
        producer.pending@.len() == 0 ==> r is Ok,
        producer.pending@.len() > 0 && r is Ok ==> exists|samples: Seq<u32>, ts: int|
            {
                &&& #[trigger] delivered::<X, T, E, P>(
                    producer.webrtc_tap,
                    *encode,
                    *publish,
                    samples,
                    ts,
                )
                &&& samples.len() == producer.frame_size * producer.codec_channels
                &&& samples.take(producer.pending@.len() as int) == producer.pending@
                &&& forall|i: int|
                    producer.pending@.len() <= i < samples.len() ==> #[trigger] samples[i] == 0
                &&& lies_after(
                    ts,
                    producer.epoch_us->Some_0,
                    producer.frames_produced as int,
                    producer.codec_rate,
                )
            },
{
    if producer.pending@.len() > 0 && r is Ok {
        lemma_frame_samples(producer.frame_size as int, producer.codec_channels as int);
        let epoch_us = producer.epoch_us->Some_0;
        let samples = padded(producer.pending@, producer.frame_samples() as nat);
        assert(0 * producer.frame_size == 0);
        let ts = producer.pts_ahead(epoch_us, 0);
        lemma_lies_after(epoch_us, producer.frames_produced as int, producer.codec_rate);
        assert(samples.take(producer.pending@.len() as int) =~= producer.pending@);
        assert(delivered::<X, T, E, P>(producer.webrtc_tap, *encode, *publish, samples, ts));
    }
}

} // verus!
