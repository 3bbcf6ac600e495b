//! What a run of the program is made of, and the rates that it reports.

use crate::server::ServerConfig;
use crate::text::{joined, maybe};
use crate::video::EncoderConfig;
use vstd::prelude::*;

verus! {

/// Configuration of a run.
pub struct Config {
    /// Connect to the relay at this URL (relay mode).
    pub url: Option<String>,
    /// Session name, used in broadcast paths. Defaults to the ROM's file name
    /// without its extension.
    pub name: Option<String>,
    /// Base path prefix, from which the other prefixes are derived.
    pub prefix: String,
    /// Path prefix for game broadcasts. Defaults to `{prefix}/game`.
    pub prefix_game: Option<String>,
    /// Path prefix for viewer broadcasts. Defaults to `{prefix}/viewer`.
    pub prefix_viewer: Option<String>,
    /// Location label shown in viewer stats.
    pub location: Option<String>,
    /// The server configuration (server mode).
    pub server: ServerConfig,
    /// Output framerate.
    pub framerate: u32,
    /// Target video bitrate in kbps.
    pub bitrate: Option<u64>,
}

/// How viewers are reached.
#[derive(Debug)]
pub enum Mode {
    /// By way of the relay at this URL.
    Relay(String),
    /// Directly.
    Server,
}

/// What a run is made of.
pub struct RunPlan {
    /// The name of the session.
    pub name: String,
    /// Where the game is broadcast.
    pub broadcast_path: String,
    /// Where viewers broadcast.
    pub viewer_path: String,
    /// How video is encoded.
    pub encoder: EncoderConfig,
    pub mode: Mode,
}

/// Commands that may wait for the emulator.
pub const COMMAND_QUEUE: usize = 64;

/// Neither a relay nor anything to serve with is configured.
#[derive(Clone, Copy, Debug, PartialEq, Eq, Structural)]
pub struct NoMode;

impl NoMode {
    /// The message.
    pub fn message(&self) -> (r: String)
        ensures
            r@ == "must specify either --url <relay-url> (relay mode) or --listen <addr> with TLS config (server/direct mode)"@,
    {
        "must specify either --url <relay-url> (relay mode) or --listen <addr> with TLS config (server/direct mode)".to_string()
    }
}

/// The name of a session: the configured one, else the ROM's, else `unknown`.
pub open spec fn session_name(configured: Option<Seq<char>>, rom_stem: Option<Seq<char>>) -> Seq<char> {
    match configured {
        Some(name) => name,
        None => match rom_stem {
            Some(stem) => stem,
            None => "unknown"@,
        },
    }
}

/// Where something is broadcast: under its own prefix if one is configured, else
/// under a part of the base prefix.
pub open spec fn path(own: Option<Seq<char>>, base: Seq<char>, part: Seq<char>, name: Seq<char>) -> Seq<char> {
    match own {
        Some(prefix) => prefix + "/"@ + name,
        None => base + part + "/"@ + name,
    }
}

fn path_text(own: &Option<String>, base: &str, part: &str, name: &str) -> (r: String)
    ensures
        r@ == path(maybe(*own), base@, part@, name@),
{
    let mut out = match own {
        Some(prefix) => prefix.clone(),
        None => joined(base, part),
    };
    out.append("/");
    out.append(name);
    out
}

impl Config {
    /// Checks that there is a relay, or something to serve with.
    pub fn validate(&self) -> (r: Result<(), NoMode>)
        ensures
            r is Err <==> self.url is None && self.server.bind is None
                && self.server.tls.generate@.len() == 0 && self.server.tls.cert@.len() == 0,
    {
        if self.url.is_none() && self.server.bind.is_none() && self.server.tls.generate.len() == 0
            && self.server.tls.cert.len() == 0 {
            Err(NoMode)
        } else {
            Ok(())
        }
    }

    /// Decides what a run is made of, given the ROM's file name without its
    /// extension, where that is text.
    pub fn plan(&self, rom_stem: Option<String>) -> (r: RunPlan)
        requires
            self.bitrate matches Some(kbps) ==> kbps * 1000 <= u64::MAX,
        ensures
            r.name@ == session_name(maybe(self.name), maybe(rom_stem)),
            r.broadcast_path@ == path(maybe(self.prefix_game), self.prefix@, "/game"@, r.name@),
            r.viewer_path@ == path(maybe(self.prefix_viewer), self.prefix@, "/viewer"@, r.name@),
            r.encoder.framerate == self.framerate,
            self.bitrate is None ==> r.encoder.bitrate is None,
            self.bitrate matches Some(kbps) ==> (r.encoder.bitrate matches Some(bps) && bps == kbps
                * 1000),
            match self.url {
                Some(url) => r.mode matches Mode::Relay(u) && u@ == url@,
                None => r.mode is Server,
            },
    {
        let name = match &self.name {
            Some(name) => name.clone(),
            None => match rom_stem {
                Some(stem) => stem,
                None => "unknown".to_string(),
            },
        };
        let broadcast_path = path_text(
            &self.prefix_game,
            self.prefix.as_str(),
            "/game",
            name.as_str(),
        );
        let viewer_path = path_text(
            &self.prefix_viewer,
            self.prefix.as_str(),
            "/viewer",
            name.as_str(),
        );
        let bitrate: Option<u64> = match self.bitrate {
            Some(kbps) => Some(kbps * 1000),
            None => None,
        };
        let mode = match &self.url {
            Some(url) => Mode::Relay(url.clone()),
            None => Mode::Server,
        };
        RunPlan {
            name,
            broadcast_path,
            viewer_path,
            encoder: EncoderConfig { framerate: self.framerate, bitrate },
            mode,
        }
    }
}

/// Whether WebRTC signaling uses TLS: where there is a certificate to serve, or
/// one to generate.
pub fn signaling_uses_tls(tls: &crate::tls::Server) -> (r: bool)
    ensures
        r == (tls.cert@.len() > 0 || tls.generate@.len() > 0),
{
    tls.cert.len() > 0 || tls.generate.len() > 0
}

// Rates

/// Seconds between reports of the encoders' rates.
pub const RATE_INTERVAL: u64 = 5;

/// The counters of the encoders.
#[derive(Clone, Copy, Debug, PartialEq, Eq, Structural)]
pub struct Counters {
    pub video_frames: u64,
    pub video_bytes: u64,
    pub keyframes: u64,
    pub audio_packets: u64,
}

impl Counters {
    /// None of the counters is lower than before.
    pub open spec fn follows(self, earlier: Counters) -> bool {
        &&& self.video_frames >= earlier.video_frames
        &&& self.video_bytes >= earlier.video_bytes
        &&& self.keyframes >= earlier.keyframes
        &&& self.audio_packets >= earlier.audio_packets
    }
}

/// The rates of the encoders over an interval.
#[derive(Clone, Copy, Debug, PartialEq, Eq, Structural)]
pub struct Rates {
    /// Video frames per second.
    pub video_fps: u64,
    /// Kilobits of video per second.
    pub video_kbps: u64,
    /// Audio packets per second.
    pub audio_fps: u64,
    /// Keyframes in the interval.
    pub keyframes: u64,
}

/// The rates between two readings of the counters.
pub open spec fn rates(before: Counters, now: Counters) -> Rates {
    Rates {
        video_fps: ((now.video_frames - before.video_frames) / 5) as u64,
        video_kbps: ((now.video_bytes - before.video_bytes) * 8 / 1000 / 5) as u64,
        audio_fps: ((now.audio_packets - before.audio_packets) / 5) as u64,
        keyframes: (now.keyframes - before.keyframes) as u64,
    }
}

/// Reports the rates of the encoders.
pub struct RateLog {
    pub last: Counters,
}

impl RateLog {
    /// A log that starts at zero.
    pub fn new() -> (r: Self)
        ensures
            r.last == (Counters {
                video_frames: 0,
                video_bytes: 0,
                keyframes: 0,
                audio_packets: 0,
            }),
    {
        RateLog {
            last: Counters { video_frames: 0, video_bytes: 0, keyframes: 0, audio_packets: 0 },
        }
    }

    /// The rates since the last reading, unless neither video nor audio made any
    /// progress to speak of.
    pub fn tick(&mut self, now: Counters) -> (r: Option<Rates>)
        requires
            now.follows(old(self).last),
            (now.video_bytes - old(self).last.video_bytes) * 8 <= u64::MAX,
        ensures
            final(self).last == now,
            r is Some <==> rates(old(self).last, now).video_fps > 0 || rates(
                old(self).last,
                now,
            ).audio_fps > 0,
            r matches Some(reported) ==> reported == rates(old(self).last, now),
    {
        let before = self.last;
        let reported = Rates {
            video_fps: (now.video_frames - before.video_frames) / RATE_INTERVAL,
            video_kbps: ((now.video_bytes - before.video_bytes) * 8 / 1000) / RATE_INTERVAL,
            audio_fps: (now.audio_packets - before.audio_packets) / RATE_INTERVAL,
            keyframes: now.keyframes - before.keyframes,
        };
        self.last = now;
        if reported.video_fps > 0 || reported.audio_fps > 0 {
            Some(reported)
        } else {
            None
        }
    }
}

// Laws

/// Whether one text ends with another.
pub open spec fn ends_with(s: Seq<char>, end: Seq<char>) -> bool {
    s.len() >= end.len() && s.skip(s.len() - end.len()) == end
}

/// A run is named as configured, else after the ROM. The game and its viewers
/// broadcast under that name, each below its own prefix if one is configured, and
/// otherwise below its part of the base prefix.
pub proof fn law_runs_are_named(config: &Config, rom_stem: Option<String>, r: RunPlan)
    requires
        call_ensures(Config::plan, (config, rom_stem), r),
    ensures
        config.name matches Some(name) ==> r.name@ == name@,
        config.name is None ==> (rom_stem matches Some(stem) ==> r.name@ == stem@),
        config.name is None && rom_stem is None ==> r.name@ == "unknown"@,
        ends_with(r.broadcast_path@, "/"@ + r.name@),
        ends_with(r.viewer_path@, "/"@ + r.name@),
        config.prefix_game matches Some(prefix) ==> prefix@.is_prefix_of(r.broadcast_path@)
            && r.broadcast_path@.len() == prefix@.len() + 1 + r.name@.len(),
        config.prefix_game is None ==> (config.prefix@ + "/game"@).is_prefix_of(r.broadcast_path@)
            && r.broadcast_path@.len() == config.prefix@.len() + 6 + r.name@.len(),
        config.prefix_viewer matches Some(prefix) ==> prefix@.is_prefix_of(r.viewer_path@)
            && r.viewer_path@.len() == prefix@.len() + 1 + r.name@.len(),
        config.prefix_viewer is None ==> (config.prefix@ + "/viewer"@).is_prefix_of(r.viewer_path@)
            && r.viewer_path@.len() == config.prefix@.len() + 8 + r.name@.len(),
{
    reveal_strlit("/");
    reveal_strlit("/game");
    reveal_strlit("/viewer");
    let name = r.name@;
    lemma_path(maybe(config.prefix_game), config.prefix@, "/game"@, name);
    lemma_path(maybe(config.prefix_viewer), config.prefix@, "/viewer"@, name);
}

proof fn lemma_path(own: Option<Seq<char>>, base: Seq<char>, part: Seq<char>, name: Seq<char>)
    ensures
        ends_with(path(own, base, part, name), "/"@ + name),
        own matches Some(prefix) ==> prefix.is_prefix_of(path(own, base, part, name)),
        own is None ==> (base + part).is_prefix_of(path(own, base, part, name)),
        path(own, base, part, name).len() == "/"@.len() + name.len() + match own {
            Some(prefix) => prefix.len(),
            None => base.len() + part.len(),
        },
{
    let front = match own {
        Some(prefix) => prefix,
        None => base + part,
    };
    let all = path(own, base, part, name);
    let end = "/"@ + name;
    assert(all =~= front + end);
    assert(all.skip(all.len() - end.len()) =~= end);
    assert(all.take(front.len() as int) =~= front);
}

/// A run encodes at the framerate and the bitrate that are configured, the
/// latter in kilobits, and goes by way of the relay exactly if one is configured.
pub proof fn law_runs_encode_as_configured(config: &Config, rom_stem: Option<String>, r: RunPlan)
    requires
        config.bitrate matches Some(kbps) ==> kbps * 1000 <= u64::MAX,
        call_ensures(Config::plan, (config, rom_stem), r),
    ensures
        r.encoder.framerate == config.framerate,
        r.encoder.bitrate is Some <==> config.bitrate is Some,
        config.bitrate matches Some(kbps) ==> r.encoder.bitrate->Some_0 == 1_000 * kbps,
        r.mode is Relay <==> config.url is Some,
        config.url matches Some(url) ==> r.mode->Relay_0@ == url@,
{
}

/// There is nothing to run exactly if there is neither a relay, nor an address to
/// listen on, nor a certificate.
pub proof fn law_runs_need_a_mode(config: &Config, r: Result<(), NoMode>)
    requires
        call_ensures(Config::validate, (config,), r),
    ensures
        config.url is Some ==> r is Ok,
        config.server.bind is Some ==> r is Ok,
        config.server.tls.generate@.len() > 0 ==> r is Ok,
        config.server.tls.cert@.len() > 0 ==> r is Ok,
        config.url is None && config.server.bind is None && config.server.tls.generate@.len() == 0
            && config.server.tls.cert@.len() == 0 ==> r is Err,
{
}

/// Signaling uses TLS exactly if there is a certificate, or one to generate.
pub proof fn law_signaling_uses_what_there_is(tls: &crate::tls::Server, r: bool)
    requires
        call_ensures(signaling_uses_tls, (tls,), r),
    ensures
        tls.cert@.len() > 0 ==> r,
        tls.generate@.len() > 0 ==> r,
        tls.cert@.len() == 0 && tls.generate@.len() == 0 ==> !r,
{
}

/// Rates are what the counters grew by over five seconds, per second and rounded
/// down, and keyframes are counted. They are reported exactly if there was at
/// least one video frame or one audio packet per second, and the next rates
/// count from here.
pub proof fn law_rates_are_growth_per_second(log: &mut RateLog, now: Counters, r: Option<Rates>)
    requires
        call_ensures(RateLog::tick, (log, now), r),
        now.video_frames >= old(log).last.video_frames,
        now.video_bytes >= old(log).last.video_bytes,
        now.keyframes >= old(log).last.keyframes,
        now.audio_packets >= old(log).last.audio_packets,
        (now.video_bytes - old(log).last.video_bytes) * 8 <= u64::MAX,
    ensures
        final(log).last == now,
        r is Some <==> now.video_frames >= old(log).last.video_frames + 5 || now.audio_packets >= old(log).last.audio_packets + 5,
        r matches Some(rates) ==> {
            &&& rates.video_fps * 5 <= now.video_frames - old(log).last.video_frames
                < rates.video_fps * 5 + 5
            &&& rates.audio_fps * 5 <= now.audio_packets - old(log).last.audio_packets
                < rates.audio_fps * 5 + 5
            &&& rates.video_kbps * 5_000 <= (now.video_bytes - old(log).last.video_bytes) * 8
                < rates.video_kbps * 5_000 + 5_000
            &&& rates.keyframes + old(log).last.keyframes == now.keyframes
        },
{
}

/// A log of rates starts with nothing counted.
pub proof fn law_rates_start_at_zero(r: RateLog)
    requires
        call_ensures(RateLog::new, (), r),
    ensures
        r.last.video_frames == 0 && r.last.video_bytes == 0,
        r.last.keyframes == 0 && r.last.audio_packets == 0,
{
}

} // verus!
