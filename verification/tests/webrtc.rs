use bytes::Bytes;
use moq_boy::audio::EncodedAudio;
use moq_boy::emulator::Button;
use moq_boy::input::Command;
use moq_boy::net::{AddressBook, IpAddr, SocketAddr};
use moq_boy::peer::{InputCommand, PeerError, WebrtcOutput, WebrtcPeer};
use moq_boy::webrtc::{
    apply_outputs, into_command, pts_48khz, pts_90khz, resolve_ice_ip, udp_bind_addr, Action, AudioEvent,
    DispatchStep, EncodedFrame, Route, VideoEvent, WebrtcSession,
};

fn input(kind: &str, buttons: &[&str], client_ts: Option<u64>) -> InputCommand {
    InputCommand {
        cmd_type: kind.to_string(),
        buttons: buttons.iter().map(|b| b.to_string()).collect(),
        client_ts,
    }
}

fn v4(port: u16) -> SocketAddr {
    SocketAddr::V4 { ip: 0x0a00_0001, port }
}

fn session() -> WebrtcSession {
    WebrtcSession::new(v4(4443))
}

#[test]
fn messages_become_commands() {
    assert!(matches!(into_command(input("reset", &["a"], Some(1))), Command::Reset));
    match into_command(input("buttons", &["up", "warp", "a", "Select", "select"], Some(9))) {
        Command::Buttons { buttons, viewer_id, timestamps, client_ts } => {
            assert_eq!(buttons, vec![Button::Up, Button::A, Button::Select]);
            assert_eq!(viewer_id, "webrtc-viewer");
            assert!(timestamps.is_empty());
            assert_eq!(client_ts, Some(9));
        }
        other => panic!("{:?}", other),
    }
    // Whatever is not a reset is a button state.
    match into_command(input("anything", &["down", "left", "right", "b", "start"], None)) {
        Command::Buttons { buttons, .. } => assert_eq!(
            buttons,
            vec![Button::Down, Button::Left, Button::Right, Button::B, Button::Start]
        ),
        other => panic!("{:?}", other),
    }
}

#[test]
fn the_advertised_address() {
    let local = IpAddr::V4(0x7f00_0001);
    let lan = IpAddr::V4(0xc0a8_0001);
    let r = resolve_ice_ip(None, Some(lan));
    assert_eq!((r.ip, r.loopback_detected, r.unreachable), (lan, false, false));
    let r = resolve_ice_ip(None, None);
    assert_eq!((r.ip, r.loopback_detected, r.unreachable), (local, true, true));
    // A configured address is used as it is, and warned about only if it is no address.
    let r = resolve_ice_ip(Some(local), Some(lan));
    assert_eq!((r.ip, r.loopback_detected, r.unreachable), (local, false, false));
    let r = resolve_ice_ip(Some(IpAddr::V6(0)), None);
    assert_eq!((r.ip, r.loopback_detected, r.unreachable), (IpAddr::V6(0), false, true));
}

#[test]
fn loopback_and_unspecified_addresses() {
    for (n, loopback) in [
        (0x7eff_ffffu32, false),
        (0x7f00_0000, true),
        (0x7f00_0001, true),
        (0x7fff_ffff, true),
        (0x8000_0000, false),
    ] {
        assert_eq!(IpAddr::V4(n).is_loopback(), loopback);
        assert!(!IpAddr::V4(n).is_unspecified());
    }
    assert!(IpAddr::V4(0).is_unspecified());
    assert!(IpAddr::V6(0).is_unspecified() && !IpAddr::V6(0).is_loopback());
    assert!(IpAddr::V6(1).is_loopback() && !IpAddr::V6(1).is_unspecified());
    // An IPv4 loopback address mapped to IPv6 is no IPv6 loopback address.
    assert!(!IpAddr::V6(0xffff_7f00_0001).is_loopback());
}

#[test]
fn udp_binds_everywhere() {
    assert_eq!(udp_bind_addr(Some(5000)), SocketAddr::V4 { ip: 0, port: 5000 });
    assert_eq!(udp_bind_addr(None), SocketAddr::V4 { ip: 0, port: 0 });
    assert_eq!(
        SocketAddr::new(IpAddr::V6(1), 2),
        SocketAddr::V6 { ip: 1, port: 2, flowinfo: 0, scope_id: 0 }
    );
    assert_eq!(SocketAddr::new(IpAddr::V4(3), 2), SocketAddr::V4 { ip: 3, port: 2 });
}

#[test]
fn peers_keep_their_inputs_in_order() {
    let mut peer = WebrtcPeer::accept_offer("s".to_string(), "v=0").unwrap();
    assert_eq!(peer.session_id(), "s");
    assert!(!peer.is_connected());
    assert!(peer.recv_input().is_none());
    peer.incoming_commands.push_back(input("buttons", &["a"], None));
    peer.incoming_commands.push_back(input("reset", &[], None));
    assert_eq!(peer.recv_input().unwrap().cmd_type, "buttons");
    assert_eq!(peer.recv_input().unwrap().cmd_type, "reset");
    assert!(peer.recv_input().is_none());
    assert!(peer.poll().unwrap().is_empty());
    assert!(peer.add_ice_candidate("candidate").is_ok());
    peer.set_sps_pps(Bytes::from_static(b"sps"), Bytes::from_static(b"pps"));
    assert_eq!(peer.buffered_sps_pps, vec![Bytes::from_static(b"sps"), Bytes::from_static(b"pps")]);
}

#[test]
fn outputs_are_acted_upon() {
    let mut todo = Vec::new();
    let mut dead = Vec::new();
    let outputs = vec![
        WebrtcOutput::IceCandidate { session_id: "other".to_string(), candidate: "c".to_string() },
        WebrtcOutput::Answer { session_id: "other".to_string(), sdp: "v=0".to_string() },
        WebrtcOutput::IceDisconnected("gone".to_string()),
        WebrtcOutput::Transmit { destination: v4(1), contents: vec![1, 2] },
    ];
    apply_outputs("me", &Ok(outputs), &mut todo, &mut dead);
    assert_eq!(dead, vec!["gone".to_string()]);
    assert_eq!(todo.len(), 3);
    assert!(matches!(&todo[0], Action::PushIce { session_id, text } if session_id == "me" && text == "c"));
    assert!(matches!(&todo[1], Action::PushIce { session_id, text } if session_id == "other" && text == "ANSWER:v=0"));
    assert!(matches!(&todo[2], Action::Send { destination, contents } if *destination == v4(1) && *contents == vec![1, 2]));
    apply_outputs("me", &Err(PeerError { reason: "x".to_string() }), &mut todo, &mut dead);
    assert_eq!(dead, vec!["gone".to_string(), "me".to_string()]);
    assert_eq!(todo.len(), 3);
}

#[test]
fn a_round_drains_all_inputs() {
    let mut s = session();
    assert!(s.accept("s1", "v=0"));
    assert!(s.accept("s2", "v=0"));
    assert!(!s.video_active);
    s.peers.at_mut(0).incoming_commands.push_back(input("reset", &[], None));
    s.peers.at_mut(1).incoming_commands.push_back(input("buttons", &["a"], Some(3)));
    s.peers.at_mut(1).incoming_commands.push_back(input("reset", &[], None));
    let round = s.tick();
    assert!(round.actions.is_empty());
    assert!(round.lost.is_empty());
    assert_eq!(round.commands.len(), 3);
    assert!(matches!(round.commands[0], Command::Reset));
    assert!(matches!(round.commands[1], Command::Buttons { client_ts: Some(3), .. }));
    // Registered peers are not watching before they are connected.
    assert!(!s.video_active && !s.audio_active);
    assert!(s.tick().commands.is_empty());
    s.peers.at_mut(1).ice_connected = true;
    s.tick();
    assert!(s.video_active && s.audio_active);
    s.peers.at_mut(1).ice_connected = false;
    s.tick();
    assert!(!s.video_active && !s.audio_active);
}

#[test]
fn a_round_removes_what_is_lost() {
    let mut s = session();
    for id in ["s1", "s2", "s3"] {
        s.accept(id, "v=0");
    }
    s.accepted(v4(1), "s1");
    s.accepted(v4(2), "s2");
    s.accepted(v4(3), "s3");
    s.peers.at_mut(1).ice_connected = true;
    // A peer that is lost still gets its inputs out.
    s.peers.at_mut(0).incoming_commands.push_back(input("reset", &[], None));
    let polled = vec![
        Err(PeerError { reason: "broken".to_string() }),
        Ok(vec![
            WebrtcOutput::Transmit { destination: v4(9), contents: vec![7] },
            WebrtcOutput::IceDisconnected("s3".to_string()),
        ]),
        Ok(vec![WebrtcOutput::IceCandidate { session_id: "any".to_string(), candidate: "c".to_string() }]),
    ];
    let round = s.round(&polled);
    assert_eq!(round.lost, vec!["s1".to_string(), "s3".to_string()]);
    assert_eq!(round.actions.len(), 2);
    assert!(matches!(&round.actions[0], Action::Send { destination, .. } if *destination == v4(9)));
    assert!(matches!(&round.actions[1], Action::PushIce { session_id, .. } if session_id == "s3"));
    assert!(matches!(round.commands.as_slice(), [Command::Reset]));
    assert_eq!(s.peers.len(), 1);
    assert!(s.peers.contains("s2"));
    assert!(matches!(s.route(v4(2)), Route::Feed(id) if id == "s2"));
    assert!(matches!(s.route(v4(1)), Route::Try(_)));
    assert!(s.video_active && s.audio_active);

    let round = s.round(&vec![Err(PeerError { reason: "broken".to_string() })]);
    assert_eq!(round.lost, vec!["s2".to_string()]);
    assert!(!s.video_active && !s.audio_active);
    assert!(s.round(&vec![]).lost.is_empty());
}

#[test]
fn media_stops_with_the_last_peer() {
    let mut s = session();
    s.accept("s1", "v=0");
    s.accept("s2", "v=0");
    s.accepted(v4(1), "s1");
    s.accepted(v4(2), "s2");
    s.accepted(v4(3), "s1");
    s.peers.at_mut(1).ice_connected = true;
    s.bury(&vec!["s1".to_string(), "unknown".to_string()]);
    assert!(s.video_active && s.audio_active);
    assert_eq!(s.peers.len(), 1);
    assert!(matches!(s.route(v4(2)), Route::Feed(id) if id == "s2"));
    assert!(matches!(s.route(v4(1)), Route::Try(ids) if ids == vec!["s2".to_string()]));
    assert!(matches!(s.route(v4(3)), Route::Try(_)));
    s.bury(&vec!["s2".to_string()]);
    assert!(!s.video_active && !s.audio_active);
    assert!(matches!(s.route(v4(2)), Route::Try(ids) if ids.is_empty()));
}

#[test]
fn media_stops_when_only_unconnected_peers_are_left() {
    let mut s = session();
    s.accept("s1", "v=0");
    s.accept("s2", "v=0");
    s.peers.at_mut(0).ice_connected = true;
    s.bury(&vec![]);
    assert!(s.video_active && s.audio_active);
    s.bury(&vec!["s1".to_string()]);
    assert_eq!(s.peers.len(), 1);
    assert!(!s.video_active && !s.audio_active);
}

#[test]
fn packets_go_where_they_were_accepted() {
    let mut s = session();
    s.accept("s1", "v=0");
    s.accept("s2", "v=0");
    assert!(matches!(s.route(v4(9)), Route::Try(ids) if ids == vec!["s1".to_string(), "s2".to_string()]));
    s.accepted(v4(9), "s2");
    assert!(matches!(s.route(v4(9)), Route::Feed(id) if id == "s2"));
    s.accepted(v4(9), "s1");
    assert!(matches!(s.route(v4(9)), Route::Feed(id) if id == "s1"));
    assert!(matches!(s.route(v4(8)), Route::Try(_)));
}

#[test]
fn address_books_forget_sessions() {
    let mut book = AddressBook::new();
    book.insert(v4(1), "a".to_string());
    book.insert(v4(2), "b".to_string());
    book.insert(v4(3), "a".to_string());
    book.insert(v4(1), "b".to_string());
    assert_eq!(book.get(v4(1)), Some("b"));
    book.forget("b");
    assert_eq!(book.get(v4(1)), None);
    assert_eq!(book.get(v4(2)), None);
    assert_eq!(book.get(v4(3)), Some("a"));
}

#[test]
fn the_rtp_clock_runs_at_90_khz() {
    assert_eq!(pts_90khz(0), 0);
    assert_eq!(pts_90khz(1_000_000), 90_000);
    assert_eq!(pts_90khz(16_742), 1_506);
    // Wraps after 2^32 ticks.
    let wrap = (1u64 << 32) * 1000 / 90 + 1;
    assert_eq!(pts_90khz(wrap), ((wrap * 90 / 1000) % (1 << 32)) as u32);
    assert_eq!(pts_90khz(wrap + 5_000_000), pts_90khz(wrap).wrapping_add(450_000));
}

#[test]
fn frames_go_to_connected_peers() {
    let mut s = session();
    s.accept("s1", "v=0");
    s.accept("s2", "v=0");
    s.accept("s3", "v=0");
    s.peers.at_mut(0).ice_connected = true;
    s.peers.at_mut(2).ice_connected = true;
    let frame = EncodedFrame {
        nals: vec![Bytes::from_static(b"a"), Bytes::from_static(b"bc")],
        ts_us: 2_000_000,
    };
    let pushes = s.dispatch(&frame);
    let seen: Vec<(String, Vec<u8>, u32)> =
        pushes.iter().map(|p| (p.session_id.clone(), p.payload.to_vec(), p.timestamp)).collect();
    assert_eq!(
        seen,
        vec![
            ("s1".to_string(), b"a".to_vec(), 180_000),
            ("s1".to_string(), b"bc".to_vec(), 180_000),
            ("s3".to_string(), b"a".to_vec(), 180_000),
            ("s3".to_string(), b"bc".to_vec(), 180_000),
        ]
    );
    assert!(matches!(s.on_video(VideoEvent::Frame(frame)), DispatchStep::Push(p) if p.len() == 4));
    assert!(matches!(s.on_video(VideoEvent::Lagged(3)), DispatchStep::Skip));
    assert!(matches!(s.on_video(VideoEvent::Closed), DispatchStep::Stop));
}

#[test]
fn audio_goes_to_connected_peers() {
    let mut s = session();
    s.accept("s1", "v=0");
    s.accept("s2", "v=0");
    s.peers.at_mut(1).ice_connected = true;
    let frame = || EncodedAudio { data: Bytes::from_static(b"opus"), ts_us: 2_000_000 };
    let pushes = s.dispatch_audio(&frame());
    let seen: Vec<(String, Vec<u8>, u32)> =
        pushes.iter().map(|p| (p.session_id.clone(), p.payload.to_vec(), p.timestamp)).collect();
    assert_eq!(seen, vec![("s2".to_string(), b"opus".to_vec(), 96_000)]);
    assert!(matches!(s.on_audio(AudioEvent::Frame(frame())), DispatchStep::Push(p) if p.len() == 1));
    assert!(matches!(s.on_audio(AudioEvent::Lagged(3)), DispatchStep::Skip));
    assert!(matches!(s.on_audio(AudioEvent::Closed), DispatchStep::Stop));
    s.peers.at_mut(1).ice_connected = false;
    assert!(s.dispatch_audio(&frame()).is_empty());
}

#[test]
fn the_audio_rtp_clock_runs_at_48_khz() {
    assert_eq!(pts_48khz(0), 0);
    assert_eq!(pts_48khz(1_000_000), 48_000);
    assert_eq!(pts_48khz(20_000), 960);
    assert_eq!(pts_48khz(999), 47);
    // Wraps after 2^32 ticks.
    let wrap = (1u64 << 32) * 1000 / 48 + 1;
    assert_eq!(pts_48khz(wrap + 5_000_000), pts_48khz(wrap).wrapping_add(240_000));
    assert!(pts_48khz(wrap) < 2);
}
