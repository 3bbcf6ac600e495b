use bytes::Bytes;
use moq_boy::audio::AudioEncoder;
use moq_boy::clock::Duration;
use moq_boy::producer::{resample_chunk, AudioError, AudioProducer, DeliveryEvent, DeliveryStep};
use std::cell::RefCell;
use std::rc::Rc;

type Tap = Box<dyn Fn(Bytes, u64)>;

/// One 20 ms frame at 48 kHz mono: 960 samples, by their bit patterns.
fn full_frame() -> Vec<u32> {
    vec![0.1f32.to_bits(); 960]
}

fn producer() -> AudioProducer<Tap> {
    AudioProducer::new("audio".to_string(), 960, 1, 48_000)
}

/// Writes each frame at its time and reads back the timestamps of the packets.
/// The timeline is re-anchored before the frame with the given number.
fn published_pts(times: &[u64], reset_before: Option<usize>) -> Vec<u64> {
    let mut producer = producer();
    let pts = RefCell::new(Vec::new());
    for (i, time) in times.iter().enumerate() {
        if reset_before == Some(i) {
            producer.reset_epoch();
        }
        producer
            .write(
                *time,
                Ok::<Vec<u32>, String>(full_frame()),
                &|samples: &Vec<u32>| {
                    assert_eq!(samples.len(), 960);
                    Ok(Bytes::from_static(b"opus"))
                },
                &|packet: Bytes, ts: u64| {
                    assert_eq!(&packet[..], b"opus");
                    pts.borrow_mut().push(ts);
                    Ok(())
                },
            )
            .unwrap();
    }
    pts.into_inner()
}

#[test]
fn epoch_anchors_to_first_frame_timestamp() {
    // The first frame's timestamp becomes the epoch.
    let pts = published_pts(&[1_000_000], None);
    assert_eq!(pts, vec![1_000_000]);
}

#[test]
fn pts_advances_by_frame_duration_ignoring_later_timestamps() {
    // Second frame's own timestamp (way ahead) is ignored; PTS advances by
    // exactly one 20 ms frame from the epoch.
    let pts = published_pts(&[1_000, 999_999], None);
    assert_eq!(pts, vec![1_000, 1_000 + 20_000]);
}

#[test]
fn reset_epoch_reanchors_so_the_gap_lands_in_pts() {
    // Frame at t=0, then reset_epoch + a frame at t=5s: the 5 s idle gap must
    // appear in the PTS (otherwise audio drifts behind a wall-clock video track).
    let pts = published_pts(&[0, 5_000_000], Some(1));
    assert_eq!(pts, vec![0, 5_000_000]);
}

#[test]
fn samples_wait_for_their_frame() {
    let mut p: AudioProducer<Tap> = AudioProducer::new("a".to_string(), 2, 2, 48_000);
    let frames = RefCell::new(Vec::new());
    let encode = |samples: &Vec<u32>| {
        frames.borrow_mut().push(samples.clone());
        Ok::<Bytes, String>(Bytes::new())
    };
    let publish = |_: Bytes, _: u64| Ok::<(), String>(());
    p.write(0, Ok(vec![1, 2, 3]), &encode, &publish).unwrap();
    assert!(frames.borrow().is_empty());
    p.write(0, Ok(vec![4, 5, 6, 7, 8, 9]), &encode, &publish).unwrap();
    assert_eq!(*frames.borrow(), vec![vec![1, 2, 3, 4], vec![5, 6, 7, 8]]);
    assert_eq!(p.pending, vec![9]);
    assert_eq!(p.frames_produced, 4);
    assert_eq!(p.packets_encoded(), 2);
    p.finish(&encode, &publish).unwrap();
    assert_eq!(frames.borrow()[2], vec![9, 0, 0, 0]);
}

#[test]
fn nothing_waits_after_a_reset() {
    let mut p: AudioProducer<Tap> = AudioProducer::new("a".to_string(), 4, 1, 8_000);
    let encode = |_: &Vec<u32>| Ok::<Bytes, String>(Bytes::new());
    let publish = |_: Bytes, _: u64| Ok::<(), String>(());
    p.write(5, Ok(vec![1, 2, 3]), &encode, &publish).unwrap();
    assert_eq!(p.epoch_us, Some(5));
    p.reset_epoch();
    assert!(p.pending.is_empty());
    assert_eq!(p.epoch_us, None);
    p.finish(&|_: &Vec<u32>| -> Result<Bytes, String> { panic!("there is nothing to encode") }, &publish)
        .unwrap();
}

#[test]
fn the_tap_gets_each_packet_first() {
    let log = std::rc::Rc::new(RefCell::new(Vec::new()));
    let tapped = log.clone();
    let mut p = producer();
    assert_eq!(p.track_name(), "audio");
    p.set_webrtc_tap(Box::new(move |b: Bytes, ts: u64| tapped.borrow_mut().push(("tap", b, ts))));
    p.write(
        7,
        Ok::<Vec<u32>, String>(full_frame()),
        &|_: &Vec<u32>| Ok(Bytes::from_static(b"x")),
        &|b: Bytes, ts: u64| {
            log.borrow_mut().push(("track", b, ts));
            Ok(())
        },
    )
    .unwrap();
    let log = log.borrow();
    assert_eq!(log.len(), 2);
    assert_eq!(log[0], ("tap", Bytes::from_static(b"x"), 7));
    assert_eq!(log[1], ("track", Bytes::from_static(b"x"), 7));
}

#[test]
fn failures_end_a_write() {
    let ok_encode = |_: &Vec<u32>| Ok::<Bytes, &str>(Bytes::new());
    let ok_publish = |_: Bytes, _: u64| Ok::<(), &str>(());

    let mut p = producer();
    assert!(matches!(p.write(3, Err("pcm"), &ok_encode, &ok_publish), Err(AudioError::Pcm("pcm"))));
    assert_eq!(p.epoch_us, Some(3));

    let mut two = full_frame();
    two.extend(full_frame());
    two.push(1);
    let mut p = producer();
    assert!(matches!(
        p.write(0, Ok(two.clone()), &|_: &Vec<u32>| Err("codec"), &ok_publish),
        Err(AudioError::Codec("codec"))
    ));
    assert_eq!(p.pending.len(), 961);
    assert_eq!(p.frames_produced, 0);

    let mut p = producer();
    assert!(matches!(
        p.write(0, Ok(two.clone()), &ok_encode, &|_: Bytes, _: u64| Err("gone")),
        Err(AudioError::Publish("gone"))
    ));
    assert_eq!(p.frames_produced, 960);
    assert_eq!(p.packets_encoded(), 0);

    let mut p = producer();
    assert!(matches!(
        p.write((1 << 62) - 20_000, Ok(two), &ok_encode, &ok_publish),
        Err(AudioError::Timestamp)
    ));
    assert_eq!(p.packets_encoded(), 1);
    assert_eq!(p.pending.len(), 1);
}

#[test]
fn timestamps_count_samples() {
    let mut p = producer();
    p.frames_produced = 48_000 * 3 + 1;
    assert_eq!(p.timestamp(10), Some(3_000_010 + 20));
    p.frames_produced = 0;
    assert_eq!(p.timestamp((1 << 62) - 1), Some((1 << 62) - 1));
    assert_eq!(p.timestamp(1 << 62), None);
}

#[test]
fn resampling_takes_a_frame_at_a_time() {
    assert_eq!(resample_chunk(48_000, 48_000, Duration::from_millis(20)), None);
    assert_eq!(resample_chunk(44_100, 48_000, Duration::from_millis(20)), Some(882));
    // 2.5 ms is not truncated to 2 ms.
    assert_eq!(resample_chunk(44_100, 48_000, Duration::from_micros(2_500)), Some(110));
}

#[test]
fn the_emulator_clock_stamps_audio() {
    let mut a: AudioEncoder<Tap> = AudioEncoder::new(2, 2, 48_000);
    assert_eq!(a.producer.track_name(), "audio");
    assert!(a.webrtc_tap().is_none());
    let pts = RefCell::new(Vec::new());
    let convert = |data: &Bytes| Ok::<Vec<u32>, String>(data.iter().map(|b| *b as u32).collect());
    let frames = RefCell::new(Vec::new());
    let encode = |samples: &Vec<u32>| {
        frames.borrow_mut().push(samples.clone());
        Ok(Bytes::new())
    };
    let publish = |_: Bytes, ts: u64| {
        pts.borrow_mut().push(ts);
        Ok(())
    };
    a.push_samples(&[1, 2, 3, 4], Duration::from_micros(12_345), &convert, &encode, &publish).unwrap();
    assert_eq!(*frames.borrow(), vec![vec![1, 2, 3, 4]]);
    a.reset_epoch();
    a.push_samples(&[5, 6, 7, 8], Duration::from_micros(99_000), &convert, &encode, &publish).unwrap();
    assert_eq!(*pts.borrow(), vec![12_345, 99_000]);
    assert_eq!(a.packets_encoded(), 2);

    let tap: Tap = Box::new(|_: Bytes, _: u64| ());
    let a = AudioEncoder::new_with_webrtc(960, 2, 48_000, tap);
    assert!(a.webrtc_tap().is_some());
}

/// Writes the samples in pieces of these sizes, and reads back the frames with
/// their timestamps, what waits and how many packets there were.
fn cut(samples: &[u32], sizes: &[usize]) -> (Vec<(Vec<u32>, u64)>, Vec<u32>, u64) {
    let mut p: AudioProducer<Tap> = AudioProducer::new("a".to_string(), 3, 2, 44_100);
    let frames = RefCell::new(Vec::new());
    let times = RefCell::new(Vec::new());
    let mut at = 0;
    for (i, size) in sizes.iter().enumerate() {
        p.write(
            500 + 1_000_000 * i as u64,
            Ok::<Vec<u32>, String>(samples[at..at + size].to_vec()),
            &|samples: &Vec<u32>| {
                frames.borrow_mut().push(samples.clone());
                Ok(Bytes::new())
            },
            &|_: Bytes, ts: u64| {
                times.borrow_mut().push(ts);
                Ok(())
            },
        )
        .unwrap();
        at += size;
    }
    assert_eq!(at, samples.len());
    let packets = p.packets_encoded();
    (frames.into_inner().into_iter().zip(times.into_inner()).collect(), p.pending, packets)
}

#[test]
fn cutting_the_samples_makes_no_difference() {
    let samples: Vec<u32> = (0..20).collect();
    let (frames, waiting, packets) = cut(&samples, &[20]);
    assert_eq!(packets, 3);
    assert_eq!(waiting, vec![18, 19]);
    assert_eq!(frames[0], (vec![0, 1, 2, 3, 4, 5], 500));
    // Three samples per channel at 44.1 kHz take 68.027 us.
    assert_eq!(frames[1], (vec![6, 7, 8, 9, 10, 11], 568));
    assert_eq!(frames[2], (vec![12, 13, 14, 15, 16, 17], 636));
    for sizes in [vec![1; 20], vec![5, 0, 13, 2], vec![6, 6, 8], vec![19, 1]] {
        assert_eq!(cut(&samples, &sizes), (frames.clone(), waiting.clone(), packets));
    }
}

#[test]
fn packets_are_encoded_tapped_and_published_in_order() {
    let log: Rc<RefCell<Vec<String>>> = Rc::new(RefCell::new(Vec::new()));
    let mut p: AudioProducer<Tap> = AudioProducer::new("a".to_string(), 2, 1, 1_000);
    let tapped = log.clone();
    p.set_webrtc_tap(Box::new(move |b: Bytes, ts: u64| tapped.borrow_mut().push(format!("tap {} {}", b[0], ts))));
    let encode = |samples: &Vec<u32>| {
        log.borrow_mut().push(format!("encode {:?}", samples));
        Ok::<Bytes, String>(Bytes::from(vec![samples[0] as u8]))
    };
    let publish = |b: Bytes, ts: u64| {
        log.borrow_mut().push(format!("publish {} {}", b[0], ts));
        Ok::<(), String>(())
    };
    p.write(50, Ok(vec![1, 2, 3, 4, 5]), &encode, &publish).unwrap();
    p.finish(&encode, &publish).unwrap();
    assert_eq!(
        *log.borrow(),
        vec![
            "encode [1, 2]",
            "tap 1 50",
            "publish 1 50",
            "encode [3, 4]",
            "tap 3 2050",
            "publish 3 2050",
            "encode [5, 0]",
            "tap 5 4050",
            "publish 5 4050",
        ]
    );
}

#[test]
fn a_delivery_goes_step_by_step() {
    let mut p: AudioProducer<Tap> = AudioProducer::new("a".to_string(), 2, 1, 1_000);
    p.pending = vec![1, 2, 3, 4, 5];
    let packet = || Bytes::from_static(b"p");
    let step = p.step::<String>(7, 2, DeliveryEvent::Ready);
    assert!(matches!(step, DeliveryStep::Encode { samples } if samples == vec![1, 2]));
    // Without a tap a packet is published at once.
    let step = p.step::<String>(7, 2, DeliveryEvent::Encoded(Ok(packet())));
    assert!(matches!(step, DeliveryStep::Publish { packet: b, ts: 7 } if b == packet()));
    assert_eq!((p.frames_produced, p.packets_encoded), (2, 0));
    let step = p.step::<String>(7, 2, DeliveryEvent::Published(Ok(())));
    assert!(matches!(step, DeliveryStep::Encode { samples } if samples == vec![3, 4]));
    assert_eq!(p.packets_encoded, 1);
    p.set_webrtc_tap(Box::new(|_: Bytes, _: u64| ()));
    let step = p.step::<String>(7, 2, DeliveryEvent::Encoded(Ok(packet())));
    assert!(matches!(step, DeliveryStep::Tap { packet: b, ts: 2007 } if b == packet()));
    let step = p.step::<String>(7, 2, DeliveryEvent::Tapped { packet: packet(), ts: 2007 });
    assert!(matches!(step, DeliveryStep::Publish { packet: b, ts: 2007 } if b == packet()));
    let step = p.step::<String>(7, 2, DeliveryEvent::Published(Ok(())));
    assert!(matches!(step, DeliveryStep::End(Ok(()))));
    assert_eq!((p.frames_produced, p.packets_encoded, p.pending.clone()), (4, 2, vec![5]));
    let x = || "x".to_string();
    let step = p.step(7, 2, DeliveryEvent::Encoded(Err(x())));
    assert!(matches!(step, DeliveryStep::End(Err(AudioError::Codec(e))) if e == x()));
    let step = p.step(7, 2, DeliveryEvent::Published(Err(x())));
    assert!(matches!(step, DeliveryStep::End(Err(AudioError::Publish(e))) if e == x()));
    let late = (1 << 62) - 1;
    let step = p.step::<String>(late, 2, DeliveryEvent::Encoded(Ok(packet())));
    assert!(matches!(step, DeliveryStep::End(Err(AudioError::Timestamp))));
    assert_eq!((p.frames_produced, p.packets_encoded), (4, 2));
}

#[test]
fn a_timeline_that_overflows_is_noticed() {
    let mut p: AudioProducer<Tap> = AudioProducer::new("a".to_string(), 10, 2, 1_000_000);
    assert!(p.fits(u64::MAX, 19));
    assert!(p.fits(u64::MAX - 10, 39));
    assert!(!p.fits(u64::MAX - 10, 40));
    assert!(!p.fits(0, usize::MAX));
    // One sample per channel takes a microsecond.
    assert!(p.fits(u64::MAX - 10, 20));
    assert!(!p.fits(u64::MAX - 9, 20));
    p.pending = vec![0];
    assert!(!p.fits(u64::MAX - 9, 19));
    // Once it is anchored, the time of the write does not matter.
    p.epoch_us = Some(0);
    assert!(p.fits(u64::MAX, 19));
    p.frames_produced = u64::MAX / 1_000_000;
    assert!(p.fits(0, 18));
    assert!(!p.fits(0, 19));
}
