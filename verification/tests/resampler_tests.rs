use pcm_pipeline::config::ConfigError;
use pcm_pipeline::layout::interleave_audio;
use pcm_pipeline::resampler::{copy_planes, Resampler, WINDOW_FRAMES};
use std::cell::Cell;

fn doubled(window: Vec<Vec<i32>>) -> Result<Vec<Vec<i32>>, String> {
    Ok(window
        .into_iter()
        .map(|channel| channel.into_iter().flat_map(|s| [s, s]).collect())
        .collect())
}

fn unused(_window: Vec<Vec<f32>>) -> Result<Vec<Vec<f32>>, String> {
    Err("the conversion was called".to_string())
}

#[test]
fn resampler_rejects_bad_configuration() {
    assert!(matches!(Resampler::<f32>::new(0, 48000, 2), Err(ConfigError::UnsupportedRate)));
    assert!(matches!(Resampler::<f32>::new(44100, 0, 2), Err(ConfigError::UnsupportedRate)));
    assert!(matches!(Resampler::<f32>::new(0, 48000, 0), Err(ConfigError::UnsupportedRate)));
    assert!(matches!(Resampler::<f32>::new(44100, 48000, 0), Err(ConfigError::UnsupportedChannels)));
    assert!(matches!(
        Resampler::<f32>::new(44100, 48000, usize::MAX / 1024 + 1),
        Err(ConfigError::UnsupportedChannels)
    ));
    assert!(Resampler::<f32>::new(44100, 48000, usize::MAX / 1024).is_ok());
    assert!(Resampler::<f32>::new(44100, 48000, 2).is_ok());
}

#[test]
fn window_scales_with_the_channel_count() {
    assert_eq!(WINDOW_FRAMES, 1024);
    assert_eq!(Resampler::<f32>::new(44100, 48000, 1).unwrap().chunk_size(), 1024);
    assert_eq!(Resampler::<f32>::new(44100, 48000, 2).unwrap().chunk_size(), 2048);
    assert_eq!(Resampler::<f32>::new(44100, 48000, 6).unwrap().chunk_size(), 6144);
}

#[test]
fn equal_rates_pass_the_block_through() {
    let mut r = Resampler::<f32>::new(48000, 48000, 2).unwrap();
    assert!(r.is_passthrough());
    for len in [0usize, 1, 2047, 2048, 5000] {
        let block: Vec<f32> = (0..len).map(|i| i as f32 / 8192.0).collect();
        let out = r.process(&block, unused).unwrap();
        assert_eq!(out, block);
        assert_eq!(r.pending(), 0);
    }
}

#[test]
fn different_rates_are_no_passthrough() {
    let r = Resampler::<f32>::new(44100, 48000, 2).unwrap();
    assert!(!r.is_passthrough());
    assert_eq!(r.pending(), 0);
}

#[test]
fn process_converts_whole_windows_and_keeps_the_rest() {
    let mut r = Resampler::<i32>::new(24000, 48000, 2).unwrap();
    let block: Vec<i32> = (0..3000).collect();
    let out = r.process(&block, doubled).unwrap();
    assert_eq!(r.pending(), 952);
    assert_eq!(out.len(), 4096);
    // Stereo pairs (l, r) come out as (l, r), (l, r).
    for k in 0..1024 {
        let l = 2 * k as i32;
        assert_eq!(&out[4 * k..4 * k + 4], &[l, l + 1, l, l + 1]);
    }
    let more: Vec<i32> = (3000..4200).collect();
    let out = r.process(&more, doubled).unwrap();
    assert_eq!(r.pending(), 104);
    assert_eq!(out.len(), 4096);
    assert_eq!(&out[0..4], &[2048, 2049, 2048, 2049]);
    assert_eq!(&out[4092..4096], &[4094, 4095, 4094, 4095]);
}

#[test]
fn process_with_less_than_a_window_converts_nothing() {
    let mut r = Resampler::<i32>::new(24000, 48000, 2).unwrap();
    let calls = Cell::new(0usize);
    let out = r
        .process(&[1, 2, 3], |w: Vec<Vec<i32>>| -> Result<Vec<Vec<i32>>, String> {
            calls.set(calls.get() + 1);
            Ok(w)
        })
        .unwrap();
    assert!(out.is_empty());
    assert_eq!(calls.get(), 0);
    assert_eq!(r.pending(), 3);
}

#[test]
fn process_hands_over_one_window_per_channel_layout() {
    let mut r = Resampler::<i32>::new(16000, 48000, 3).unwrap();
    let block: Vec<i32> = (0..3072 * 2 + 5).collect();
    let calls = Cell::new(0usize);
    let out = r
        .process(&block, |w: Vec<Vec<i32>>| -> Result<Vec<Vec<i32>>, String> {
            assert_eq!(w.len(), 3);
            for (c, channel) in w.iter().enumerate() {
                assert_eq!(channel.len(), 1024);
                let first = (calls.get() * 3072 + c) as i32;
                assert_eq!(channel[0], first);
                assert_eq!(channel[1], first + 3);
            }
            calls.set(calls.get() + 1);
            Ok(w)
        })
        .unwrap();
    assert_eq!(calls.get(), 2);
    assert_eq!(out, block[..6144].to_vec());
    assert_eq!(r.pending(), 5);
}

#[test]
fn leftover_stays_below_one_window() {
    let mut r = Resampler::<i32>::new(44100, 48000, 2).unwrap();
    let mut total_in = 0usize;
    let mut total_out = 0usize;
    for len in [1usize, 2047, 1, 2048, 10_000, 0, 4095, 333] {
        let out = r
            .process(&vec![0i32; len], |w: Vec<Vec<i32>>| -> Result<Vec<Vec<i32>>, String> {
                Ok(w)
            })
            .unwrap();
        total_in += len;
        total_out += out.len();
        assert!(r.pending() < r.chunk_size());
        assert_eq!(total_out + r.pending(), total_in);
    }
}

#[test]
fn process_returns_the_first_conversion_failure() {
    let mut r = Resampler::<i32>::new(24000, 48000, 2).unwrap();
    let calls = Cell::new(0usize);
    let out = r.process(&vec![0i32; 2048 * 3 + 7], |w: Vec<Vec<i32>>| {
        calls.set(calls.get() + 1);
        if calls.get() == 2 {
            Err("broken")
        } else {
            Ok(w)
        }
    });
    assert!(matches!(out, Err("broken")));
    assert_eq!(calls.get(), 2);
    assert_eq!(r.pending(), 7);
}

#[test]
fn windows_are_split_by_channel() {
    let mut r = Resampler::<i32>::new(24000, 48000, 2).unwrap();
    let block: Vec<i32> = (0..2050).collect();
    let wins = r.windows(&block);
    assert_eq!(wins.len(), 1);
    assert_eq!(wins[0].len(), 2);
    assert_eq!(wins[0][0], (0..2048).step_by(2).collect::<Vec<i32>>());
    assert_eq!(wins[0][1], (1..2048).step_by(2).collect::<Vec<i32>>());
    assert_eq!(interleave_audio(&wins[0]), block[..2048].to_vec());
    assert_eq!(r.pending(), 2);
}

#[test]
fn copy_planes_copies_every_channel() {
    let planes = vec![vec![1u8, 2], vec![3], vec![]];
    assert_eq!(copy_planes(&planes), planes);
}

#[test]
fn windows_do_not_depend_on_the_rates() {
    let mut r = Resampler::<i32>::new(48000, 48000, 1).unwrap();
    let wins = r.windows(&vec![5i32; 1030]);
    assert_eq!(wins, vec![vec![vec![5i32; 1024]]]);
    assert_eq!(r.pending(), 6);
}
