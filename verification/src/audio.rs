//! Audio: stereo unsigned 8-bit PCM from the Game Boy to Opus to the audio
//! track.
//!
//! Each buffer of samples is stamped with the emulator clock, which is shared
//! with video. Re-anchoring on resume makes a pause appear in the timestamps.

use crate::buffer::{contents, copy_from_slice};
use crate::clock::{micros_u64, Duration};
use crate::producer::{usable, AudioError, AudioProducer};
use bytes::Bytes;
use vstd::prelude::*;

verus! {

/// The Game Boy outputs stereo audio.
pub const CHANNELS: u32 = 2;

/// 64 kbps is reasonable for Game Boy audio (simple waveforms).
pub const OPUS_BITRATE: u32 = 64_000;

/// Samples per second that the emulator delivers.
pub const INPUT_SAMPLE_RATE: u32 = 44_100;

/// Encoded frames that may wait for a WebRTC peer.
pub const TAP_CAPACITY: usize = 16;

/// An encoded Opus frame, as WebRTC peers receive it.
pub struct EncodedAudio {
    /// The Opus-encoded audio data.
    pub data: Bytes,
    /// Timestamp in microseconds since the emulator started (aligned with
    /// video).
    pub ts_us: u64,
}

/// Encodes the audio of the emulator.
pub struct AudioEncoder<T: Fn(Bytes, u64)> {
    pub producer: AudioProducer<T>,
}

impl<T: Fn(Bytes, u64)> AudioEncoder<T> {
    /// An encoder for the track named `audio`, given the codec's frame size,
    /// channels and rate.
    pub fn new(frame_size: usize, codec_channels: u32, codec_rate: u32) -> (r: Self)
        requires
            0 < frame_size,
            0 < codec_channels,
            0 < codec_rate,
            frame_size * codec_channels <= usize::MAX,
        ensures
            r.producer.wf(),
            r.producer.track_name@ == "audio"@,
            r.producer.frame_size == frame_size,
            r.producer.codec_channels == codec_channels,
            r.producer.codec_rate == codec_rate,
            r.producer.pending@ == Seq::<u32>::empty(),
            r.producer.frames_produced == 0,
            r.producer.epoch_us is None,
            r.producer.packets_encoded == 0,
            r.producer.webrtc_tap is None,
    {
        AudioEncoder {
            producer: AudioProducer::new(
                "audio".to_string(),
                frame_size,
                codec_channels,
                codec_rate,
            ),
        }
    }

    /// An encoder that also hands each packet to `tap`.
    pub fn new_with_webrtc(frame_size: usize, codec_channels: u32, codec_rate: u32, tap: T) -> (r: Self)
        requires
            0 < frame_size,
            0 < codec_channels,
            0 < codec_rate,
            frame_size * codec_channels <= usize::MAX,
        ensures
            r.producer.wf(),
            r.producer.track_name@ == "audio"@,
            r.producer.frame_size == frame_size,
            r.producer.codec_channels == codec_channels,
            r.producer.codec_rate == codec_rate,
            r.producer.pending@ == Seq::<u32>::empty(),
            r.producer.frames_produced == 0,
            r.producer.epoch_us is None,
            r.producer.packets_encoded == 0,
            r.producer.webrtc_tap == Some(tap),
    {
        let mut encoder = AudioEncoder::new(frame_size, codec_channels, codec_rate);
        encoder.producer.set_webrtc_tap(tap);
        encoder
    }

    /// What receives each packet for WebRTC, if anything does.
    pub fn webrtc_tap(&self) -> (r: Option<&T>)
        ensures
            r is Some <==> self.producer.webrtc_tap is Some,
            r matches Some(tap) ==> self.producer.webrtc_tap == Some(*tap),
    {
        match &self.producer.webrtc_tap {
            Some(tap) => Some(tap),
            None => None,
        }
    }

    /// Packets published so far.
    pub fn packets_encoded(&self) -> (r: u64)
        ensures
            r == self.producer.packets_encoded,
    {
        self.producer.packets_encoded()
    }

    /// Re-anchor the timeline, so that a pause shows up in the timestamps.
    pub fn reset_epoch(&mut self)
        ensures
            final(self).producer.epoch_us is None,
            final(self).producer.frames_produced == 0,
            final(self).producer.pending@ == Seq::<u32>::empty(),
            final(self).producer == (AudioProducer {
                epoch_us: None,
                frames_produced: 0,
                pending: final(self).producer.pending,
                ..old(self).producer
            }),
    {
        self.producer.reset_epoch();
    }

    /// Push interleaved unsigned 8-bit PCM captured `elapsed` after the
    /// emulator started.
    ///
    /// `convert` makes samples for the codec of it, resampled where needed.
    pub fn push_samples<
        X,
        C: Fn(&Bytes) -> Result<Vec<u32>, X>,
        E: Fn(&Vec<u32>) -> Result<Bytes, X>,
        P: Fn(Bytes, u64) -> Result<(), X>,
    >(&mut self, samples: &[u8], elapsed: Duration, convert: &C, encode: &E, publish: &P) -> (r: Result<
        (),
        AudioError<X>,
    >)
        requires
            old(self).producer.wf(),
            usable(old(self).producer.webrtc_tap, *encode, *publish),
            forall|data: &Bytes| #[trigger] call_requires(*convert, (data,)),
            forall|data: &Bytes, pcm: Vec<u32>|
                contents(*data) == samples@ && #[trigger] call_ensures(
                    *convert,
                    (data,),
                    Ok::<Vec<u32>, X>(pcm),
                ) ==> old(self).producer.write_fits(micros_u64(elapsed), pcm@),
        ensures
            final(self).producer.wf(),
            exists|data: &Bytes, pcm: Result<Vec<u32>, X>|
                {
                    &&& contents(*data) == samples@
                    &&& #[trigger] call_ensures(*convert, (data,), pcm)
                    &&& old(self).producer.wrote(
                        final(self).producer,
                        micros_u64(elapsed),
                        pcm,
                        *encode,
                        *publish,
                        r,
                    )
                },
    {
        let data = copy_from_slice(samples);
        let pcm = convert(&data);
        assert(call_ensures(*convert, (&data,), pcm));
        self.producer.write(elapsed.as_micros_u64(), pcm, encode, publish)
    }
}

/// The audio of an emulator goes to the track named audio, with the codec that is
/// given, and to the tap exactly if there is one. Nothing waits in the beginning.
pub proof fn law_audio_goes_where_it_should<T: Fn(Bytes, u64)>(
    frame_size: usize,
    codec_channels: u32,
    codec_rate: u32,
    tap: T,
    r: (AudioEncoder<T>, AudioEncoder<T>),
    taps: (Option<&T>, Option<&T>),
)
    requires
        call_ensures(AudioEncoder::<T>::new, (frame_size, codec_channels, codec_rate), r.0),
        call_ensures(
            AudioEncoder::<T>::new_with_webrtc,
            (frame_size, codec_channels, codec_rate, tap),
            r.1,
        ),
        call_ensures(AudioEncoder::<T>::webrtc_tap, (&r.0,), taps.0),
        call_ensures(AudioEncoder::<T>::webrtc_tap, (&r.1,), taps.1),
    ensures
        taps.0 is None,
        taps.1 matches Some(t) && *t == tap,
        r.0.producer.track_name@ == "audio"@ && r.1.producer.track_name@ == "audio"@,
        r.0.producer.frame_size == frame_size && r.1.producer.frame_size == frame_size,
        r.0.producer.codec_channels == codec_channels && r.1.producer.codec_channels
            == codec_channels,
        r.0.producer.codec_rate == codec_rate && r.1.producer.codec_rate == codec_rate,
        r.0.producer.pending@.len() == 0 && r.1.producer.pending@.len() == 0,
        r.0.producer.epoch_us is None && r.1.producer.epoch_us is None,
        r.0.producer.frames_produced == 0 && r.1.producer.frames_produced == 0,
        r.0.producer.packets_encoded == 0 && r.1.producer.packets_encoded == 0,
{
}

/// After a reset, the timeline is anchored to the time of the next samples, in
/// microseconds since the emulator started.
pub proof fn law_samples_anchor_the_timeline<
    T: Fn(Bytes, u64),
    X,
    C: Fn(&Bytes) -> Result<Vec<u32>, X>,
    E: Fn(&Vec<u32>) -> Result<Bytes, X>,
    P: Fn(Bytes, u64) -> Result<(), X>,
>(
    encoder: &mut AudioEncoder<T>,
    samples: &[u8],
    elapsed: Duration,
    convert: &C,
    encode: &E,
    publish: &P,
    r: Result<(), AudioError<X>>,
    us: u64,
)
    requires
        call_ensures(
            AudioEncoder::<T>::push_samples::<X, C, E, P>,
            (encoder, samples, elapsed, convert, encode, publish),
            r,
        ),
        call_ensures(Duration::as_micros_u64, (elapsed,), us),
    ensures
        old(encoder).producer.epoch_us is None ==> final(encoder).producer.epoch_us == Some(us),
        old(encoder).producer.epoch_us is Some ==> final(encoder).producer.epoch_us == old(
            encoder).producer.epoch_us,
{
}

/// A reset drops what waits and the anchor of the timeline, and keeps the rest.
pub proof fn law_resets_of_audio<T: Fn(Bytes, u64)>(encoder: &mut AudioEncoder<T>)
    requires
        call_ensures(AudioEncoder::<T>::reset_epoch, (encoder,), ()),
    ensures
        final(encoder).producer.epoch_us is None,
        final(encoder).producer.pending@.len() == 0,
        final(encoder).producer.frames_produced == 0,
        final(encoder).producer.packets_encoded == old(encoder).producer.packets_encoded,
        final(encoder).producer.webrtc_tap == old(encoder).producer.webrtc_tap,
        final(encoder).producer.codec_rate == old(encoder).producer.codec_rate,
{
}

} // verus!
