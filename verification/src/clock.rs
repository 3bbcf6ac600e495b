//! Spans of time on the emulator clock, and the media timestamps made from
//! them.

use vstd::prelude::*;

verus! {

/// A span of time, in nanoseconds.
#[derive(Clone, Copy, Debug, PartialEq, Eq, Structural)]
pub struct Duration {
    pub nanos: u128,
}

/// The whole milliseconds of a span.
pub open spec fn millis(d: Duration) -> nat {
    d.nanos as nat / 1_000_000
}

/// The whole microseconds of a span.
pub open spec fn micros(d: Duration) -> nat {
    d.nanos as nat / 1_000
}

/// The time from `earlier` to `later`, and no time at all where `earlier` is
/// not earlier.
pub open spec fn since(later: Duration, earlier: Duration) -> Duration {
    Duration {
        nanos: if later.nanos >= earlier.nanos {
            (later.nanos - earlier.nanos) as u128
        } else {
            0
        },
    }
}

/// The whole milliseconds of a span, as far as they fit.
pub open spec fn millis_saturating(d: Duration) -> u32 {
    if millis(d) <= u32::MAX {
        millis(d) as u32
    } else {
        u32::MAX
    }
}

/// The whole microseconds of a span, modulo 2^64.
pub open spec fn micros_u64(d: Duration) -> u64 {
    (micros(d) % 0x1_0000_0000_0000_0000) as u64
}

impl Duration {
    /// A span of whole microseconds.
    pub fn from_micros(us: u64) -> (r: Duration)
        ensures
            r.nanos == us * 1_000,
    {
        Duration { nanos: us as u128 * 1_000 }
    }

    /// A span of whole milliseconds.
    pub fn from_millis(ms: u64) -> (r: Duration)
        ensures
            r.nanos == ms * 1_000_000,
    {
        Duration { nanos: ms as u128 * 1_000_000 }
    }

    /// The time since `earlier`, and no time at all where `earlier` is not
    /// earlier.
    pub fn saturating_sub(self, earlier: Duration) -> (r: Duration)
        ensures
            r == since(self, earlier),
    {
        Duration { nanos: self.nanos.saturating_sub(earlier.nanos) }
    }

    /// The whole milliseconds.
    pub fn as_millis(self) -> (r: u128)
        ensures
            r == millis(self),
    {
        self.nanos / 1_000_000
    }

    /// The whole microseconds.
    pub fn as_micros(self) -> (r: u128)
        ensures
            r == micros(self),
    {
        self.nanos / 1_000
    }

    /// The whole milliseconds, `u32::MAX` where they do not fit.
    pub fn as_millis_saturating(self) -> (r: u32)
        ensures
            r == millis_saturating(self),
    {
        let ms: u128 = self.as_millis();
        if ms <= u32::MAX as u128 {
            ms as u32
        } else {
            u32::MAX
        }
    }

    /// The whole microseconds, modulo 2^64.
    pub fn as_micros_u64(self) -> (r: u64)
        ensures
            r == micros_u64(self),
    {
        (self.as_micros() % 0x1_0000_0000_0000_0000) as u64
    }
}

/// The largest media timestamp, in any unit: what fits a QUIC variable-length
/// integer.
pub const MAX_TIMESTAMP: u64 = 0x3fff_ffff_ffff_ffff;

/// A media timestamp that cannot be represented.
#[derive(Clone, Copy, Debug, PartialEq, Eq, Structural)]
pub struct TimestampOverflow;

/// The media timestamp for a number of microseconds.
pub open spec fn media_timestamp(us: nat) -> Option<nat> {
    if us <= MAX_TIMESTAMP {
        Some(us)
    } else {
        None
    }
}

/// `hang::container::Timestamp::from_micros`: the media timestamp for a number
/// of microseconds, given back by `as_micros`. There is one up to 2^62 - 1, the
/// largest QUIC variable-length integer, and none above.
#[verifier::external_body]
fn container_timestamp(us: u64) -> (r: Option<u64>)
    ensures
        us <= MAX_TIMESTAMP ==> r == Some(us),
        us > MAX_TIMESTAMP ==> r is None,
{
    hang::container::Timestamp::from_micros(us).ok().map(|t| t.as_micros() as u64)
}

/// The media timestamp for a number of microseconds.
pub fn timestamp_from_micros(us: u64) -> (r: Result<u64, TimestampOverflow>)
    ensures
        r matches Ok(ts) ==> media_timestamp(us as nat) == Some(ts as nat),
        r is Err <==> media_timestamp(us as nat) is None,
{
    match container_timestamp(us) {
        Some(ts) => Ok(ts),
        None => Err(TimestampOverflow),
    }
}

/// The media timestamp of a frame captured `elapsed` after the emulator
/// started.
pub fn frame_timestamp(elapsed: Duration) -> (r: Result<u64, TimestampOverflow>)
    ensures
        r matches Ok(ts) ==> media_timestamp(micros_u64(elapsed) as nat) == Some(ts as nat),
        r is Err <==> media_timestamp(micros_u64(elapsed) as nat) is None,
{
    timestamp_from_micros(elapsed.as_micros_u64())
}

/// Frames captured later do not get an earlier media timestamp, as long as both
/// can be represented.
pub proof fn law_timestamps_follow_the_clock(a: Duration, b: Duration)
    requires
        a.nanos <= b.nanos,
        micros(b) <= MAX_TIMESTAMP,
    ensures
        media_timestamp(micros_u64(a) as nat) == Some(micros(a)),
        media_timestamp(micros_u64(b) as nat) == Some(micros(b)),
        micros(a) <= micros(b),
{
}

/// A span that is made of whole microseconds or milliseconds is read back as
/// them, and every span is as long as its whole milliseconds and microseconds say,
/// to less than one.
pub proof fn law_spans_are_read_back(
    us: u64,
    ms: u64,
    span: Duration,
    made: (Duration, Duration),
    whole: (u128, u128),
)
    requires
        call_ensures(Duration::from_micros, (us,), made.0),
        call_ensures(Duration::from_millis, (ms,), made.1),
        call_ensures(Duration::as_micros, (span,), whole.0),
        call_ensures(Duration::as_millis, (span,), whole.1),
    ensures
        span == made.0 ==> whole.0 == us,
        span == made.1 ==> whole.1 == ms,
        whole.0 * 1_000 <= span.nanos < (whole.0 + 1) * 1_000,
        whole.1 * 1_000_000 <= span.nanos < (whole.1 + 1) * 1_000_000,
{
}

/// The time since an earlier moment is what leads from it to now, and there is
/// none since a later one.
pub proof fn law_time_since(later: Duration, earlier: Duration, r: Duration)
    requires
        call_ensures(Duration::saturating_sub, (later, earlier), r),
    ensures
        earlier.nanos <= later.nanos ==> earlier.nanos + r.nanos == later.nanos,
        earlier.nanos > later.nanos ==> r.nanos == 0,
{
}

/// Whole milliseconds are given as far as they fit.
pub proof fn law_milliseconds_saturate(span: Duration, r: u32)
    requires
        call_ensures(Duration::as_millis_saturating, (span,), r),
    ensures
        span.nanos < 0x1_0000_0000 * 1_000_000 ==> r * 1_000_000 <= span.nanos < (r + 1) * 1_000_000,
        span.nanos >= 0x1_0000_0000 * 1_000_000 ==> r == u32::MAX,
{
}

/// A frame is stamped with the whole microseconds since the start, up to 2^62.
pub proof fn law_frames_are_stamped_in_microseconds(
    elapsed: Duration,
    r: Result<u64, TimestampOverflow>,
    us: u64,
    s: Result<u64, TimestampOverflow>,
)
    requires
        call_ensures(frame_timestamp, (elapsed,), r),
        call_ensures(timestamp_from_micros, (us,), s),
    ensures
        elapsed.nanos < 0x4000_0000_0000_0000 * 1_000 ==> (r matches Ok(ts) && ts * 1_000
            <= elapsed.nanos < (ts + 1) * 1_000),
        0x4000_0000_0000_0000 * 1_000 <= elapsed.nanos < 0x1_0000_0000_0000_0000 * 1_000 ==> r is Err,
        us < 0x4000_0000_0000_0000 ==> s == Ok::<u64, TimestampOverflow>(us),
        us >= 0x4000_0000_0000_0000 ==> s is Err,
{
    let whole = elapsed.nanos as int / 1_000;
    if elapsed.nanos < 0x1_0000_0000_0000_0000 * 1_000 {
        assert(whole < 0x1_0000_0000_0000_0000);
        assert(micros_u64(elapsed) == whole);
    }
}

} // verus!
