//! SDP codec parameters.

use vstd::prelude::*;

verus! {

/// SDP fmtp parameters for H.264 (Baseline Profile, Level 3.1).
///
/// - `profile-level-id=42e01f`: Constrained Baseline Profile, Level 3.1.
///   Supported by all major browsers and sufficient for up to 720p.
/// - `packetization-mode=1`: non-interleaved mode.
/// - `level-asymmetry-allowed=1`: the answerer may use a different level than
///   the offerer.
///
/// Reference: RFC 6184.
pub fn h264_fmtp() -> (r: String)
    ensures
        r@ == "profile-level-id=42e01f;packetization-mode=1;level-asymmetry-allowed=1"@,
{
    "profile-level-id=42e01f;packetization-mode=1;level-asymmetry-allowed=1".to_string()
}

/// SDP fmtp parameters for Opus (stereo, 64 kbps).
///
/// - `minptime=10`: minimum packetization time (10 ms).
/// - `useinbandfec=1`: in-band forward error correction.
/// - `stereo=1`: the encoder produces stereo.
/// - `sprop-stereo=1`: the stream is stereo.
/// - `maxaveragebitrate=64000`: target average bitrate (64 kbps).
///
/// Reference: RFC 7587.
pub fn opus_fmtp() -> (r: String)
    ensures
        r@ == "minptime=10;useinbandfec=1;stereo=1;sprop-stereo=1;maxaveragebitrate=64000"@,
{
    "minptime=10;useinbandfec=1;stereo=1;sprop-stereo=1;maxaveragebitrate=64000".to_string()
}

} // verus!
