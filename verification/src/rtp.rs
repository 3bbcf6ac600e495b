//! RTP packetizer: wraps encoded H.264 NAL units and Opus frames into
//! standard RTP packets for delivery over WebRTC media tracks.
//!
//! References: RFC 3550 (header), RFC 6184 (H.264), RFC 7587 (Opus).

use crate::buffer::{freeze, put_slice, put_u16, put_u32, put_u8, with_capacity};
use bytes::Bytes;
use vstd::prelude::*;

verus! {

broadcast use vstd::seq::group_seq_axioms;

/// SSRC used for both streams unless another one is chosen.
pub const DEFAULT_SSRC: u32 = 0x6d6f7100;

/// Standard RTP header length in bytes (no CSRC, no extension).
pub const RTP_HEADER_LEN: usize = 12;

/// RTP payload type for H.264 (dynamic range 96 to 127).
pub const H264_PT: u8 = 96;

/// RTP payload type for Opus (dynamic range 96 to 127).
pub const OPUS_PT: u8 = 111;

/// RTP clock rate for H.264 video (90 kHz).
pub const H264_CLOCK_RATE: u32 = 90_000;

/// RTP clock rate for Opus audio (48 kHz).
pub const OPUS_CLOCK_RATE: u32 = 48_000;

/// Per-track RTP sequence numbers and the SSRC they are sent under.
///
/// Not `Clone` on purpose: each peer needs its own packetizer so that sequence
/// numbers and timestamps are strictly monotonic per connection.
pub struct RtpPacketizer {
    pub ssrc: u32,
    pub video_seq: u16,
    pub audio_seq: u16,
}

/// The sequence number that follows `seq`: they wrap after 65535.
pub open spec fn next_seq(seq: u16) -> u16 {
    ((seq + 1) % 65536) as u16
}

/// An RTP packet (RFC 3550, section 5.1): version 2, no padding, no extension,
/// no contributing sources; then the marker bit and the payload type, the
/// sequence number, the timestamp, the SSRC and the payload.
pub open spec fn rtp_packet(
    marker: bool,
    payload_type: u8,
    seq: u16,
    timestamp: u32,
    ssrc: u32,
    payload: Seq<u8>,
) -> Seq<u8> {
    seq![
        0x80u8,
        (payload_type + if marker {
            128int
        } else {
            0int
        }) as u8,
    ] + crate::buffer::be16(seq) + crate::buffer::be32(timestamp) + crate::buffer::be32(ssrc)
        + payload
}

/// What is asked of a packetizer.
pub enum RtpCall {
    /// A NAL unit, with or without the marker bit.
    Video { nal: Seq<u8>, timestamp: u32, marker: bool },
    /// An Opus frame.
    Audio { frame: Seq<u8>, timestamp: u32 },
    /// To start the sequence numbers over.
    Reset,
}

/// The packet that a call makes, if it makes one.
pub open spec fn packet_of(s: RtpPacketizer, call: RtpCall) -> Option<Seq<u8>> {
    match call {
        RtpCall::Video { nal, timestamp, marker } => Some(
            rtp_packet(marker, H264_PT, s.video_seq, timestamp, s.ssrc, nal),
        ),
        RtpCall::Audio { frame, timestamp } => Some(
            rtp_packet(true, OPUS_PT, s.audio_seq, timestamp, s.ssrc, frame),
        ),
        RtpCall::Reset => None,
    }
}

/// The packetizer after a call.
pub open spec fn after_call(s: RtpPacketizer, call: RtpCall) -> RtpPacketizer {
    match call {
        RtpCall::Video { .. } => RtpPacketizer { video_seq: next_seq(s.video_seq), ..s },
        RtpCall::Audio { .. } => RtpPacketizer { audio_seq: next_seq(s.audio_seq), ..s },
        RtpCall::Reset => RtpPacketizer { video_seq: 0, audio_seq: 0, ..s },
    }
}

/// Writes one RTP packet.
fn packet(second: u8, seq: u16, timestamp: u32, ssrc: u32, payload: &[u8]) -> (r: Bytes)
    requires
        RTP_HEADER_LEN + payload@.len() <= isize::MAX,
    ensures
        crate::buffer::contents(r) == seq![0x80u8, second] + crate::buffer::be16(seq)
            + crate::buffer::be32(timestamp) + crate::buffer::be32(ssrc) + payload@,
{
    let mut buf = with_capacity(RTP_HEADER_LEN + payload.len());
    put_u8(&mut buf, 0x80);
    put_u8(&mut buf, second);
    assert(crate::buffer::written(buf) == seq![0x80u8, second]);
    put_u16(&mut buf, seq);
    put_u32(&mut buf, timestamp);
    put_u32(&mut buf, ssrc);
    put_slice(&mut buf, payload);
    freeze(buf)
}

impl Default for RtpPacketizer {
    fn default() -> (r: Self)
        ensures
            r.ssrc == DEFAULT_SSRC,
            r.video_seq == 0,
            r.audio_seq == 0,
    {
        RtpPacketizer { ssrc: DEFAULT_SSRC, video_seq: 0, audio_seq: 0 }
    }
}

impl RtpPacketizer {
    /// Create a packetizer with a specific SSRC.
    pub fn new(ssrc: u32) -> (r: Self)
        ensures
            r.ssrc == ssrc,
            r.video_seq == 0,
            r.audio_seq == 0,
    {
        RtpPacketizer { ssrc, video_seq: 0, audio_seq: 0 }
    }

    /// Return the current SSRC.
    pub fn ssrc(&self) -> (r: u32)
        ensures
            r == self.ssrc,
    {
        self.ssrc
    }

    /// Wrap a single H.264 NAL unit into an RTP packet, without the marker bit.
    ///
    /// Single NAL unit mode (RFC 6184, section 5.6): the NAL unit, header byte
    /// included and start code stripped, is the payload.
    pub fn wrap_h264(&mut self, nal: &[u8], timestamp_90khz: u32) -> (r: Bytes)
        requires
            RTP_HEADER_LEN + nal@.len() <= isize::MAX,
        ensures
            ({
                let call = RtpCall::Video { nal: nal@, timestamp: timestamp_90khz, marker: false };
                &&& Some(crate::buffer::contents(r)) == packet_of(*old(self), call)
                &&& *final(self) == after_call(*old(self), call)
            }),
    {
        let seq: u16 = self.video_seq;
        self.video_seq = self.video_seq.wrapping_add(1);
        packet(H264_PT, seq, timestamp_90khz, self.ssrc, nal)
    }

    /// Wrap a single H.264 NAL unit with the RTP marker bit set.
    ///
    /// The marker bit signals the last packet of a video frame, so that the
    /// decoder knows when a complete access unit has arrived.
    pub fn wrap_h264_marker(&mut self, nal: &[u8], timestamp_90khz: u32) -> (r: Bytes)
        requires
            RTP_HEADER_LEN + nal@.len() <= isize::MAX,
        ensures
            ({
                let call = RtpCall::Video { nal: nal@, timestamp: timestamp_90khz, marker: true };
                &&& Some(crate::buffer::contents(r)) == packet_of(*old(self), call)
                &&& *final(self) == after_call(*old(self), call)
            }),
    {
        let seq: u16 = self.video_seq;
        self.video_seq = self.video_seq.wrapping_add(1);
        assert(96u8 | 0x80u8 == 224u8) by (bit_vector);
        packet(H264_PT | 0x80, seq, timestamp_90khz, self.ssrc, nal)
    }

    /// Wrap an Opus audio frame into an RTP packet.
    ///
    /// The payload is the Opus frame itself (RFC 7587, section 4.1). The marker
    /// bit is set on every packet: each frame is a self-contained audio unit.
    pub fn wrap_opus(&mut self, opus_frame: &[u8], timestamp_48khz: u32) -> (r: Bytes)
        requires
            RTP_HEADER_LEN + opus_frame@.len() <= isize::MAX,
        ensures
            ({
                let call = RtpCall::Audio { frame: opus_frame@, timestamp: timestamp_48khz };
                &&& Some(crate::buffer::contents(r)) == packet_of(*old(self), call)
                &&& *final(self) == after_call(*old(self), call)
            }),
    {
        let seq: u16 = self.audio_seq;
        self.audio_seq = self.audio_seq.wrapping_add(1);
        assert(111u8 | 0x80u8 == 239u8) by (bit_vector);
        packet(OPUS_PT | 0x80, seq, timestamp_48khz, self.ssrc, opus_frame)
    }

    /// Reset sequence numbers. Call after a pause-resume cycle to avoid the
    /// decoder seeing a large discontinuity in sequence numbers.
    pub fn reset_seq(&mut self)
        ensures
            *final(self) == after_call(*old(self), RtpCall::Reset),
    {
        self.video_seq = 0;
        self.audio_seq = 0;
    }
}

// What a receiver reads out of a packet.

/// The marker bit of a packet.
pub open spec fn packet_marker(p: Seq<u8>) -> bool {
    p[1] >= 128
}

/// The payload type of a packet.
pub open spec fn packet_payload_type(p: Seq<u8>) -> int {
    p[1] as int % 128
}

/// The sequence number of a packet.
pub open spec fn packet_seq(p: Seq<u8>) -> int {
    p[2] * 256 + p[3]
}

/// The big-endian 32-bit number at an offset of a packet.
pub open spec fn packet_word(p: Seq<u8>, at: int) -> int {
    p[at] * 16777216 + p[at + 1] * 65536 + p[at + 2] * 256 + p[at + 3]
}

/// A receiver reads back exactly what was put into a packet: the version, the
/// marker, the payload type, the sequence number, the timestamp, the SSRC and,
/// after the header, the payload.
pub proof fn law_packet_reads_back(
    marker: bool,
    payload_type: u8,
    seq: u16,
    timestamp: u32,
    ssrc: u32,
    payload: Seq<u8>,
)
    requires
        payload_type < 128,
    ensures
        ({
            let p = rtp_packet(marker, payload_type, seq, timestamp, ssrc, payload);
            &&& p.len() == RTP_HEADER_LEN + payload.len()
            &&& p[0] == 0x80
            &&& packet_marker(p) == marker
            &&& packet_payload_type(p) == payload_type
            &&& packet_seq(p) == seq
            &&& packet_word(p, 4) == timestamp
            &&& packet_word(p, 8) == ssrc
            &&& p.skip(RTP_HEADER_LEN as int) == payload
        }),
{
    let p = rtp_packet(marker, payload_type, seq, timestamp, ssrc, payload);
    assert(p.skip(12) =~= payload);
}

/// The sequence number after `n` packets.
pub open spec fn seq_after(first: u16, n: nat) -> u16
    decreases n,
{
    if n == 0 {
        first
    } else {
        next_seq(seq_after(first, (n - 1) as nat))
    }
}

/// Packets are numbered in order: `n` packets after the one numbered `first`
/// comes the number `first + n`, modulo 65536.
pub proof fn law_sequence_numbers_count(first: u16, n: nat)
    ensures
        seq_after(first, n) as int == (first + n) % 65536,
    decreases n,
{
    if n > 0 {
        law_sequence_numbers_count(first, (n - 1) as nat);
        vstd::arithmetic::div_mod::lemma_add_mod_noop(first + n - 1, 1, 65536);
    }
}

/// No sequence number repeats within 65536 consecutive packets.
pub proof fn law_sequence_numbers_distinct(first: u16, i: nat, j: nat)
    requires
        i < j < i + 65536,
    ensures
        seq_after(first, i) != seq_after(first, j),
{
    law_sequence_numbers_count(first, i);
    law_sequence_numbers_count(first, j);
}

/// A marked video packet differs from the unmarked one in the marker bit alone,
/// and both take their number from the same counter.
pub proof fn law_marker_bit_alone(s: RtpPacketizer, nal: Seq<u8>, timestamp: u32)
    ensures
        ({
            let plain = RtpCall::Video { nal, timestamp, marker: false };
            let marked = RtpCall::Video { nal, timestamp, marker: true };
            let p = packet_of(s, plain)->Some_0;
            let q = packet_of(s, marked)->Some_0;
            &&& q.len() == p.len()
            &&& q[1] == p[1] | 0x80
            &&& p[1] & 0x80 == 0
            &&& forall|i: int| 0 <= i < p.len() && i != 1 ==> #[trigger] q[i] == p[i]
            &&& after_call(s, plain) == after_call(s, marked)
        }),
{
    let p = packet_of(s, RtpCall::Video { nal, timestamp, marker: false })->Some_0;
    let q = packet_of(s, RtpCall::Video { nal, timestamp, marker: true })->Some_0;
    assert(p[1] == 96u8);
    assert(q[1] == 224u8);
    assert(96u8 | 0x80u8 == 224u8 && 96u8 & 0x80u8 == 0u8) by (bit_vector);
    assert(p =~= seq![0x80u8, 96u8] + p.skip(2));
    assert(q =~= seq![0x80u8, 224u8] + p.skip(2));
}

/// The packetizer after a run of calls.
pub open spec fn after_calls(s: RtpPacketizer, calls: Seq<RtpCall>) -> RtpPacketizer
    decreases calls.len(),
{
    if calls.len() == 0 {
        s
    } else {
        after_call(after_calls(s, calls.drop_last()), calls.last())
    }
}

/// The number of video packets of a run since the sequence numbers were last
/// started over.
pub open spec fn videos(calls: Seq<RtpCall>) -> nat
    decreases calls.len(),
{
    if calls.len() == 0 || calls.last() is Reset {
        0
    } else {
        videos(calls.drop_last()) + if calls.last() is Video {
            1nat
        } else {
            0nat
        }
    }
}

/// The number of audio packets of a run since the sequence numbers were last
/// started over.
pub open spec fn audios(calls: Seq<RtpCall>) -> nat
    decreases calls.len(),
{
    if calls.len() == 0 || calls.last() is Reset {
        0
    } else {
        audios(calls.drop_last()) + if calls.last() is Audio {
            1nat
        } else {
            0nat
        }
    }
}

/// Packets are numbered per track over any run of calls: after `k` packets of a
/// track since the start, or since the numbers were started over, the next one
/// of that track is numbered `k`, modulo 65536. The packets of the other track
/// use up none of its numbers.
pub proof fn law_tracks_are_numbered_apart(s: RtpPacketizer, calls: Seq<RtpCall>)
    requires
        s.video_seq == 0,
        s.audio_seq == 0,
    ensures
        after_calls(s, calls).video_seq == videos(calls) % 65536,
        after_calls(s, calls).audio_seq == audios(calls) % 65536,
    decreases calls.len(),
{
    if calls.len() > 0 {
        law_tracks_are_numbered_apart(s, calls.drop_last());
    }
}

/// The packet of an Opus frame after any run of calls: the `k`-th audio packet
/// since the numbers were started over, counted from zero, carries the number
/// `k`, modulo 65536.
pub proof fn law_audio_packet_after_a_run(
    s: RtpPacketizer,
    calls: Seq<RtpCall>,
    frame: Seq<u8>,
    timestamp: u32,
)
    requires
        s.video_seq == 0,
        s.audio_seq == 0,
    ensures
        packet_of(after_calls(s, calls), RtpCall::Audio { frame, timestamp }) == Some(
            seq![0x80u8, 0xefu8] + crate::buffer::be16((audios(calls) % 65536) as u16)
                + crate::buffer::be32(timestamp) + crate::buffer::be32(s.ssrc) + frame,
        ),
{
    law_tracks_are_numbered_apart(s, calls);
    law_one_ssrc(s, calls);
}

/// The packet of a NAL unit after any run of calls: the `k`-th video packet
/// since the numbers were started over, counted from zero, carries the number
/// `k`, modulo 65536.
pub proof fn law_video_packet_after_a_run(
    s: RtpPacketizer,
    calls: Seq<RtpCall>,
    nal: Seq<u8>,
    timestamp: u32,
    marker: bool,
)
    requires
        s.video_seq == 0,
        s.audio_seq == 0,
    ensures
        packet_of(after_calls(s, calls), RtpCall::Video { nal, timestamp, marker }) == Some(
            rtp_packet(
                marker,
                H264_PT,
                (videos(calls) % 65536) as u16,
                timestamp,
                s.ssrc,
                nal,
            ),
        ),
{
    law_tracks_are_numbered_apart(s, calls);
    law_one_ssrc(s, calls);
}

/// A packetizer keeps one SSRC over any run of calls, and every packet that it
/// makes carries it.
#[verifier::spinoff_prover]
#[verifier::rlimit(50)]
pub proof fn law_one_ssrc(s: RtpPacketizer, calls: Seq<RtpCall>)
    ensures
        after_calls(s, calls).ssrc == s.ssrc,
        forall|i: int|
            0 <= i < calls.len() ==> (packet_of(
                after_calls(s, calls.take(i)),
                #[trigger] calls[i],
            ) matches Some(p) ==> p.subrange(8, 12) == crate::buffer::be32(s.ssrc)),
    decreases calls.len(),
{
    if calls.len() > 0 {
        let front = calls.drop_last();
        let n = calls.len() - 1;
        law_one_ssrc(s, front);
        assert forall|i: int| 0 <= i < calls.len() implies (packet_of(
            after_calls(s, calls.take(i)),
            #[trigger] calls[i],
        ) matches Some(p) ==> p.subrange(8, 12) == crate::buffer::be32(s.ssrc)) by {
            if i < n {
                assert(front[i] == calls[i]);
                assert(front.take(i) =~= calls.take(i));
            } else {
                assert(calls.take(i) =~= front);
                if let Some(p) = packet_of(after_calls(s, front), calls[i]) {
                    assert(p.subrange(8, 12) =~= crate::buffer::be32(s.ssrc));
                }
            }
        }
    }
}

/// Whether a packet of these bytes has this payload type, marker, number,
/// timestamp, SSRC and payload, as a receiver reads them.
pub open spec fn receiver_reads(
    p: Seq<u8>,
    payload_type: int,
    marker: bool,
    seq: u16,
    timestamp: u32,
    ssrc: u32,
    payload: Seq<u8>,
) -> bool {
    &&& p.len() == 12 + payload.len()
    &&& p[0] == 0x80
    &&& p[1] == payload_type + if marker {
        128int
    } else {
        0int
    }
    &&& p[2] * 256 + p[3] == seq
    &&& p[4] * 0x100_0000 + p[5] * 0x1_0000 + p[6] * 0x100 + p[7] == timestamp
    &&& p[8] * 0x100_0000 + p[9] * 0x1_0000 + p[10] * 0x100 + p[11] == ssrc
    &&& p.skip(12) == payload
}

/// Whether one counter went on by one, modulo 65536, and the other did not.
pub open spec fn counted_on(before: (u16, u16), after: (u16, u16)) -> bool {
    &&& after.0 == (before.0 + 1) % 65536
    &&& after.1 == before.1
}

/// What a receiver reads out of a packet of video is the NAL unit with its
/// timestamp, under payload type 96, with or without the marker; and the next
/// packet of video has the next number.
pub proof fn law_video_packets_are_read(
    rtp: &mut RtpPacketizer,
    nal: &[u8],
    timestamp: u32,
    r: Bytes,
    marker: bool,
)
    requires
        marker ==> call_ensures(RtpPacketizer::wrap_h264_marker, (rtp, nal, timestamp), r),
        !marker ==> call_ensures(RtpPacketizer::wrap_h264, (rtp, nal, timestamp), r),
    ensures
        receiver_reads(
            crate::buffer::contents(r),
            96,
            marker,
            old(rtp).video_seq,
            timestamp,
            old(rtp).ssrc,
            nal@,
        ),
        counted_on(
            (old(rtp).video_seq, old(rtp).audio_seq),
            (final(rtp).video_seq, final(rtp).audio_seq),
        ),
        final(rtp).ssrc == old(rtp).ssrc,
{
    law_packet_reads_back(marker, H264_PT, old(rtp).video_seq, timestamp, old(rtp).ssrc, nal@);
}

/// What a receiver reads out of a packet of audio is the Opus frame with its
/// timestamp, under payload type 111 and with the marker; and the next packet of
/// audio has the next number.
pub proof fn law_audio_packets_are_read(rtp: &mut RtpPacketizer, frame: &[u8], timestamp: u32, r: Bytes)
    requires
        call_ensures(RtpPacketizer::wrap_opus, (rtp, frame, timestamp), r),
    ensures
        receiver_reads(
            crate::buffer::contents(r),
            111,
            true,
            old(rtp).audio_seq,
            timestamp,
            old(rtp).ssrc,
            frame@,
        ),
        counted_on(
            (old(rtp).audio_seq, old(rtp).video_seq),
            (final(rtp).audio_seq, final(rtp).video_seq),
        ),
        final(rtp).ssrc == old(rtp).ssrc,
{
    law_packet_reads_back(true, OPUS_PT, old(rtp).audio_seq, timestamp, old(rtp).ssrc, frame@);
}

/// The numbers of a packetizer start at zero, and start over at zero, under the
/// SSRC that it was made for.
pub proof fn law_numbers_start_at_zero(ssrc: u32, r: RtpPacketizer, rtp: &mut RtpPacketizer)
    requires
        call_ensures(RtpPacketizer::new, (ssrc,), r),
        call_ensures(RtpPacketizer::reset_seq, (rtp,), ()),
    ensures
        r.ssrc == ssrc,
        r.video_seq == 0,
        r.audio_seq == 0,
        final(rtp).ssrc == old(rtp).ssrc,
        final(rtp).video_seq == 0,
        final(rtp).audio_seq == 0,
{
}

} // verus!
