use pcm_pipeline::config::ConfigError;
use pcm_pipeline::framer::EncodedFrame;
use pcm_pipeline::stream::{deliver, Stream, StreamError, StreamState};
use std::cell::{Cell, RefCell};

fn encode(frame: Vec<i16>, _max_bytes: usize) -> Result<Vec<u8>, String> {
    Ok(vec![(frame[0] % 251) as u8])
}

#[test]
fn stream_rejects_bad_configuration() {
    assert!(matches!(Stream::<i16>::new(0, 48000), Err(ConfigError::UnsupportedChannels)));
    assert!(matches!(Stream::<i16>::new(2, 10), Err(ConfigError::UnsupportedRate)));
}

#[test]
fn stream_walks_through_its_states() {
    let mut s = Stream::<i16>::new(2, 48000).unwrap();
    assert_eq!(s.state(), StreamState::Uninitialized);
    assert_eq!(s.frame_size(), None);
    let n = s.feed(&[0i16; 100], encode, |_d: Vec<u8>, _ms: u64| Ok(())).unwrap();
    assert_eq!(n, 0);
    assert_eq!(s.state(), StreamState::FrameSizeSelected);
    assert_eq!(s.frame_size(), Some(960));
    let n = s.feed(&[0i16; 1000], encode, |_d: Vec<u8>, _ms: u64| Ok(())).unwrap();
    assert_eq!(n, 1);
    assert_eq!(s.state(), StreamState::Streaming);
    assert_eq!(s.pending(), 140);
    let n = s.feed(&[0i16; 5], encode, |_d: Vec<u8>, _ms: u64| Ok(())).unwrap();
    assert_eq!(n, 0);
    assert_eq!(s.state(), StreamState::Streaming);
    s.finish();
    assert_eq!(s.state(), StreamState::Terminated);
    assert_eq!(s.pending(), 0);
    assert_eq!(s.frame_size(), Some(960));
}

#[test]
fn frames_reach_the_sink_in_order() {
    let mut s = Stream::<i16>::new(2, 48000).unwrap();
    let ramp: Vec<i16> = (0..960 * 5 + 3).map(|i| (i / 960) as i16).collect();
    let seen: RefCell<Vec<(Vec<u8>, u64)>> = RefCell::new(Vec::new());
    s.feed(&ramp[..10], encode, |_d: Vec<u8>, _ms: u64| Ok(())).unwrap();
    let n = s
        .feed(&ramp[10..], encode, |d: Vec<u8>, ms: u64| {
            seen.borrow_mut().push((d, ms));
            Ok(())
        })
        .unwrap();
    assert_eq!(n, 5);
    let seen = seen.into_inner();
    assert_eq!(
        seen,
        vec![(vec![0u8], 10), (vec![1], 10), (vec![2], 10), (vec![3], 10), (vec![4], 10)]
    );
    assert_eq!(s.pending(), 3);
}

#[test]
fn sink_failure_on_third_write_ends_the_stream() {
    let mut s = Stream::<i16>::new(2, 48000).unwrap();
    s.feed(&[0i16; 1], encode, |_d: Vec<u8>, _ms: u64| Ok(())).unwrap();
    let writes = Cell::new(0usize);
    let taken = Cell::new(0usize);
    let sink = |_d: Vec<u8>, _ms: u64| {
        writes.set(writes.get() + 1);
        if writes.get() == 3 {
            Err("sink closed".to_string())
        } else {
            taken.set(taken.get() + 1);
            Ok(())
        }
    };
    let r = s.feed(&vec![0i16; 960 * 5], encode, &sink);
    match r {
        Err(StreamError::Sink(delivered, e)) => {
            assert_eq!(delivered, 2);
            assert_eq!(e, "sink closed");
        },
        other => panic!("unexpected result: {:?}", other),
    }
    assert_eq!(taken.get(), 2);
    assert_eq!(writes.get(), 3);
    assert_eq!(s.state(), StreamState::Terminated);
    let encodes = Cell::new(0usize);
    let r = s.feed(
        &vec![0i16; 960 * 5],
        |f: Vec<i16>, m: usize| {
            encodes.set(encodes.get() + 1);
            encode(f, m)
        },
        &sink,
    );
    assert!(matches!(r, Err(StreamError::Terminated)));
    assert_eq!(writes.get(), 3);
    assert_eq!(encodes.get(), 0);
    assert_eq!(s.state(), StreamState::Terminated);
}

#[test]
fn encoder_failure_ends_the_stream_before_any_write() {
    let mut s = Stream::<i16>::new(2, 48000).unwrap();
    let writes = Cell::new(0usize);
    let r = s.feed(
        &vec![0i16; 4000],
        |_f: Vec<i16>, _m: usize| -> Result<Vec<u8>, String> { Err("bad frame".to_string()) },
        |_d: Vec<u8>, _ms: u64| {
            writes.set(writes.get() + 1);
            Ok(())
        },
    );
    match r {
        Err(StreamError::Encode(e)) => assert_eq!(e, "bad frame"),
        other => panic!("unexpected result: {:?}", other),
    }
    assert_eq!(writes.get(), 0);
    assert_eq!(s.state(), StreamState::Terminated);
}

#[test]
fn finished_stream_takes_nothing_in() {
    let mut s = Stream::<i16>::new(2, 48000).unwrap();
    s.finish();
    let r = s.feed(&vec![0i16; 4000], encode, |_d: Vec<u8>, _ms: u64| Ok(()));
    assert!(matches!(r, Err(StreamError::Terminated)));
    assert_eq!(s.frame_size(), None);
    assert_eq!(s.pending(), 0);
}

#[test]
fn deliver_stops_at_the_first_failure() {
    let frames: Vec<EncodedFrame> = (0..4u8)
        .map(|i| EncodedFrame { data: vec![i], duration_ms: 20 })
        .collect();
    let seen: RefCell<Vec<u8>> = RefCell::new(Vec::new());
    let r = deliver(&frames, |d: Vec<u8>, ms: u64| {
        assert_eq!(ms, 20);
        seen.borrow_mut().push(d[0]);
        if d[0] == 1 {
            Err(7u32)
        } else {
            Ok(())
        }
    });
    assert_eq!(r, Err((1, 7)));
    assert_eq!(seen.into_inner(), vec![0, 1]);
}

#[test]
fn deliver_writes_every_frame() {
    let frames: Vec<EncodedFrame> = (0..3u8)
        .map(|i| EncodedFrame { data: vec![i, i], duration_ms: 30 })
        .collect();
    let seen: RefCell<Vec<Vec<u8>>> = RefCell::new(Vec::new());
    let r = deliver(&frames, |d: Vec<u8>, _ms: u64| -> Result<(), ()> {
        seen.borrow_mut().push(d);
        Ok(())
    });
    assert_eq!(r, Ok(()));
    assert_eq!(seen.into_inner(), vec![vec![0, 0], vec![1, 1], vec![2, 2]]);
    let none: Vec<EncodedFrame> = Vec::new();
    assert_eq!(deliver(&none, |_d: Vec<u8>, _ms: u64| -> Result<(), ()> { Err(()) }), Ok(()));
}
