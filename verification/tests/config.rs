use moq_boy::codec::{h264_fmtp, opus_fmtp};
use moq_boy::config::{signaling_uses_tls, Config, Counters, Mode, NoMode, RateLog};
use moq_boy::server::ServerConfig;
use moq_boy::tls::Server as TlsServer;

fn server() -> ServerConfig {
    ServerConfig {
        bind: None,
        backend: None,
        quic_lb_id: None,
        quic_lb_nonce: None,
        preferred_v4: None,
        preferred_v6: None,
        max_streams: None,
        version: vec![],
        tls: TlsServer::default(),
    }
}

fn config() -> Config {
    Config {
        url: None,
        name: None,
        prefix: "boy".to_string(),
        prefix_game: None,
        prefix_viewer: None,
        location: None,
        server: server(),
        framerate: 60,
        bitrate: None,
    }
}

#[test]
fn the_name_defaults_to_the_rom() {
    let mut c = config();
    let plan = c.plan(Some("tetris".to_string()));
    assert_eq!(plan.name, "tetris");
    assert_eq!(plan.broadcast_path, "boy/game/tetris");
    assert_eq!(plan.viewer_path, "boy/viewer/tetris");
    assert_eq!(c.plan(None).name, "unknown");
    c.name = Some("mine".to_string());
    assert_eq!(c.plan(Some("tetris".to_string())).name, "mine");
}

#[test]
fn prefixes_can_be_replaced() {
    let mut c = config();
    c.prefix_game = Some("g".to_string());
    let plan = c.plan(Some("x".to_string()));
    assert_eq!(plan.broadcast_path, "g/x");
    assert_eq!(plan.viewer_path, "boy/viewer/x");
    c.prefix_viewer = Some("v".to_string());
    assert_eq!(c.plan(Some("x".to_string())).viewer_path, "v/x");
}

#[test]
fn bitrates_are_given_in_kilobits() {
    let mut c = config();
    c.framerate = 30;
    assert_eq!(c.plan(None).encoder.bitrate, None);
    assert_eq!(c.plan(None).encoder.framerate, 30);
    c.bitrate = Some(1000);
    assert_eq!(c.plan(None).encoder.bitrate, Some(1_000_000));
}

#[test]
fn a_url_means_a_relay() {
    let mut c = config();
    assert!(matches!(c.plan(None).mode, Mode::Server));
    c.url = Some("https://relay".to_string());
    assert!(matches!(c.plan(None).mode, Mode::Relay(url) if url == "https://relay"));
}

#[test]
fn there_must_be_a_way_to_reach_viewers() {
    let mut c = config();
    assert_eq!(c.validate(), Err(NoMode));
    assert_eq!(
        NoMode.message(),
        "must specify either --url <relay-url> (relay mode) or --listen <addr> with TLS config (server/direct mode)"
    );
    c.url = Some("u".to_string());
    assert_eq!(c.validate(), Ok(()));
    let mut c = config();
    c.server.bind = Some("[::]:1".to_string());
    assert_eq!(c.validate(), Ok(()));
    let mut c = config();
    c.server.tls.generate.push("localhost".to_string());
    assert_eq!(c.validate(), Ok(()));
    let mut c = config();
    c.server.tls.cert.push("cert.pem".into());
    assert_eq!(c.validate(), Ok(()));
    // A key alone is nothing to serve with.
    let mut c = config();
    c.server.tls.key.push("key.pem".into());
    assert_eq!(c.validate(), Err(NoMode));
}

#[test]
fn signaling_uses_tls_where_there_is_a_certificate() {
    let mut tls = TlsServer::default();
    assert!(!signaling_uses_tls(&tls));
    tls.generate.push("localhost".to_string());
    assert!(signaling_uses_tls(&tls));
    let mut tls = TlsServer::default();
    tls.cert.push("cert.pem".into());
    assert!(signaling_uses_tls(&tls));
}

#[test]
fn rates_are_per_second() {
    let mut log = RateLog::new();
    let now = Counters { video_frames: 300, video_bytes: 1_000_000, keyframes: 3, audio_packets: 250 };
    let rates = log.tick(now).unwrap();
    assert_eq!((rates.video_fps, rates.video_kbps, rates.audio_fps, rates.keyframes), (60, 1600, 50, 3));
    assert_eq!(log.last, now);
    // Less than one per second is not reported, and not made up for later.
    let slow = Counters { video_frames: 304, audio_packets: 254, ..now };
    assert_eq!(log.tick(slow), None);
    let later = Counters { video_frames: 304, audio_packets: 259, ..now };
    let rates = log.tick(later).unwrap();
    assert_eq!((rates.video_fps, rates.video_kbps, rates.audio_fps, rates.keyframes), (0, 0, 1, 0));
}

#[test]
fn codec_parameters() {
    assert_eq!(
        h264_fmtp(),
        "profile-level-id=42e01f;packetization-mode=1;level-asymmetry-allowed=1"
    );
    assert_eq!(
        opus_fmtp(),
        "minptime=10;useinbandfec=1;stereo=1;sprop-stereo=1;maxaveragebitrate=64000"
    );
}
