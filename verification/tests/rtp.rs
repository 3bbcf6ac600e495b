use moq_boy::rtp::{RtpPacketizer, DEFAULT_SSRC, H264_CLOCK_RATE, H264_PT, OPUS_CLOCK_RATE, OPUS_PT};

#[test]
fn h264_rtp_header() {
    let mut pkt = RtpPacketizer::new(0x12345678);
    // A minimal NAL unit: SPS-like content (7 bytes including NAL header)
    let nal = b"\x67\x42\x00\x1e\xab\x40\x80";
    let ts = 90000u32; // 1 second at 90 kHz

    let rtp = pkt.wrap_h264(nal, ts);

    assert_eq!(rtp.len(), 12 + 7);
    assert_eq!(rtp[0], 0x80); // V=2
    assert_eq!(rtp[1] & 0x7f, H264_PT); // PT
    assert_eq!(rtp[1] & 0x80, 0); // M=0
    assert_eq!(u16::from_be_bytes([rtp[2], rtp[3]]), 0); // seq=0
    assert_eq!(u32::from_be_bytes([rtp[4], rtp[5], rtp[6], rtp[7]]), ts);
    assert_eq!(u32::from_be_bytes([rtp[8], rtp[9], rtp[10], rtp[11]]), 0x12345678);
    assert_eq!(&rtp[12..], nal);
}

#[test]
fn h264_marker_bit() {
    let mut pkt = RtpPacketizer::default();
    let nal = b"\x41\x9a\x00";
    let ts = 45000u32;

    let rtp = pkt.wrap_h264_marker(nal, ts);
    assert_eq!(rtp[1], H264_PT | 0x80); // M=1
}

#[test]
fn h264_sequence_increment() {
    let mut pkt = RtpPacketizer::default();
    let nal = b"\x65\xb8\x00";

    let p0 = pkt.wrap_h264(nal, 0);
    let p1 = pkt.wrap_h264(nal, 3000);

    assert_eq!(u16::from_be_bytes([p0[2], p0[3]]), 0);
    assert_eq!(u16::from_be_bytes([p1[2], p1[3]]), 1);
}

#[test]
fn opus_rtp_header() {
    let mut pkt = RtpPacketizer::new(0xabcd0001);
    // A small Opus frame
    let opus = b"\xfa\xff\xfe\x00";
    let ts = 480u32; // 10 ms at 48 kHz

    let rtp = pkt.wrap_opus(opus, ts);

    assert_eq!(rtp.len(), 12 + 4);
    assert_eq!(rtp[0], 0x80); // V=2
    assert_eq!(rtp[1] & 0x7f, OPUS_PT); // PT
    assert_eq!(rtp[1] & 0x80, 0x80); // M=1 (always for Opus)
    assert_eq!(u16::from_be_bytes([rtp[2], rtp[3]]), 0); // seq=0
    assert_eq!(u32::from_be_bytes([rtp[4], rtp[5], rtp[6], rtp[7]]), ts);
    assert_eq!(u32::from_be_bytes([rtp[8], rtp[9], rtp[10], rtp[11]]), 0xabcd0001);
    assert_eq!(&rtp[12..], opus);
}

#[test]
fn wrap_sequence_overflow() {
    let mut pkt = RtpPacketizer::default();
    pkt.video_seq = u16::MAX;
    let nal = b"\x41\x9a";

    let _p0 = pkt.wrap_h264(nal, 0);
    let p1 = pkt.wrap_h264(nal, 0);

    assert_eq!(u16::from_be_bytes([p1[2], p1[3]]), 0); // wraps to 0
}

#[test]
fn reset_seq() {
    let mut pkt = RtpPacketizer::default();
    pkt.video_seq = 42;
    pkt.audio_seq = 99;

    pkt.reset_seq();
    assert_eq!(pkt.video_seq, 0);
    assert_eq!(pkt.audio_seq, 0);
}

#[test]
fn packets_are_laid_out_byte_by_byte() {
    let mut pkt = RtpPacketizer::new(0x01020304);
    pkt.video_seq = 0xabcd;
    let rtp = pkt.wrap_h264(&[0x65, 0x01], 0x11223344);
    assert_eq!(
        &rtp[..],
        &[0x80, 96, 0xab, 0xcd, 0x11, 0x22, 0x33, 0x44, 0x01, 0x02, 0x03, 0x04, 0x65, 0x01]
    );
    let marked = pkt.wrap_h264_marker(&[], 0);
    assert_eq!(&marked[..], &[0x80, 224, 0xab, 0xce, 0, 0, 0, 0, 0x01, 0x02, 0x03, 0x04]);
}

#[test]
fn tracks_are_numbered_apart() {
    let mut pkt = RtpPacketizer::default();
    let _ = pkt.wrap_h264(&[1], 0);
    let _ = pkt.wrap_h264_marker(&[1], 0);
    let _ = pkt.wrap_opus(&[1], 0);
    assert_eq!(pkt.video_seq, 2);
    assert_eq!(pkt.audio_seq, 1);
    pkt.audio_seq = u16::MAX;
    let _ = pkt.wrap_opus(&[1], 0);
    assert_eq!(pkt.audio_seq, 0);
    assert_eq!(pkt.video_seq, 2);
}

#[test]
fn sequence_numbers_do_not_repeat_in_a_cycle() {
    let mut pkt = RtpPacketizer::new(7);
    let mut seen = vec![false; 65536];
    for _ in 0..65536 {
        let p = pkt.wrap_opus(&[], 0);
        let seq = u16::from_be_bytes([p[2], p[3]]) as usize;
        assert!(!seen[seq]);
        seen[seq] = true;
    }
    assert_eq!(pkt.audio_seq, 0);
}

#[test]
fn ssrc_is_kept() {
    assert_eq!(RtpPacketizer::default().ssrc(), DEFAULT_SSRC);
    assert_eq!(DEFAULT_SSRC, 0x6d6f7100);
    let mut pkt = RtpPacketizer::new(9);
    pkt.reset_seq();
    assert_eq!(pkt.ssrc(), 9);
    assert_eq!(H264_CLOCK_RATE, 90_000);
    assert_eq!(OPUS_CLOCK_RATE, 48_000);
}

#[test]
fn a_mixed_run_is_numbered_by_track() {
    let mut pkt = RtpPacketizer::new(0xa1b2c3d4);
    let number = |p: &[u8]| u16::from_be_bytes([p[2], p[3]]);
    let mut packets = Vec::new();
    for i in 0..3u16 {
        let v = pkt.wrap_h264(b"v", 0);
        let m = pkt.wrap_h264_marker(b"v", 0);
        let a = pkt.wrap_opus(b"a", 0);
        assert_eq!((number(&v), number(&m), number(&a)), (2 * i, 2 * i + 1, i));
        packets.extend([v, m, a]);
    }
    pkt.reset_seq();
    packets.push(pkt.wrap_h264(b"v", 0));
    let opus = pkt.wrap_opus(b"xy", 0x01020304);
    assert_eq!(&opus[..], b"\x80\xef\x00\x00\x01\x02\x03\x04\xa1\xb2\xc3\xd4xy");
    assert_eq!(number(&packets[9]), 0);
    assert!(packets.iter().all(|p| p[8..12] == [0xa1, 0xb2, 0xc3, 0xd4]));
    assert_eq!(pkt.ssrc(), 0xa1b2c3d4);
}

#[test]
fn the_marker_is_one_bit() {
    let (mut a, mut b) = (RtpPacketizer::new(7), RtpPacketizer::new(7));
    let plain = a.wrap_h264(b"\x65\x88", 900);
    let marked = b.wrap_h264_marker(b"\x65\x88", 900);
    assert_eq!(plain.len(), marked.len());
    assert_eq!(marked[1], plain[1] | 0x80);
    assert_eq!(plain[0], marked[0]);
    assert_eq!(plain[2..], marked[2..]);
    assert_eq!((a.video_seq, a.audio_seq), (b.video_seq, b.audio_seq));
}
