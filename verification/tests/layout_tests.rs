use pcm_pipeline::blocks::{append, copy_range, split_blocks};
use pcm_pipeline::focus::Selected;
use pcm_pipeline::layout::{deinterleave_audio, interleave_audio};

#[test]
fn deinterleave_splits_stereo() {
    let data = [1i32, 2, 3, 4, 5, 6];
    let channels = deinterleave_audio(&data, 2);
    assert_eq!(channels, vec![vec![1, 3, 5], vec![2, 4, 6]]);
}

#[test]
fn deinterleave_gives_first_channels_the_extra_sample() {
    let data = [1i32, 2, 3, 4, 5];
    let channels = deinterleave_audio(&data, 2);
    assert_eq!(channels, vec![vec![1, 3, 5], vec![2, 4]]);
    let channels = deinterleave_audio(&data, 3);
    assert_eq!(channels, vec![vec![1, 4], vec![2, 5], vec![3]]);
}

#[test]
fn deinterleave_of_nothing_is_empty_channels() {
    let data: [f32; 0] = [];
    let channels = deinterleave_audio(&data, 3);
    assert_eq!(channels, vec![Vec::<f32>::new(), Vec::new(), Vec::new()]);
}

#[test]
fn deinterleave_more_channels_than_samples() {
    let data = [7u8, 8];
    let channels = deinterleave_audio(&data, 4);
    assert_eq!(channels, vec![vec![7], vec![8], vec![], vec![]]);
}

#[test]
fn deinterleave_mono_is_identity() {
    let data = [0.5f32, -0.25, 0.125];
    let channels = deinterleave_audio(&data, 1);
    assert_eq!(channels, vec![vec![0.5f32, -0.25, 0.125]]);
}

#[test]
fn interleave_merges_sample_by_sample() {
    let channels = vec![vec![1i32, 3, 5], vec![2, 4, 6]];
    assert_eq!(interleave_audio(&channels), vec![1, 2, 3, 4, 5, 6]);
}

#[test]
fn interleave_of_no_channels_is_empty() {
    let channels: Vec<Vec<f32>> = Vec::new();
    assert_eq!(interleave_audio(&channels), Vec::<f32>::new());
}

#[test]
fn interleave_of_empty_channels_is_empty() {
    let channels: Vec<Vec<i16>> = vec![Vec::new(), Vec::new()];
    assert_eq!(interleave_audio(&channels), Vec::<i16>::new());
}

#[test]
fn split_then_merge_gives_the_block_back() {
    let data: Vec<i32> = (0..12).collect();
    for n in [1usize, 2, 3, 4, 6, 12] {
        let channels = deinterleave_audio(&data, n);
        assert_eq!(interleave_audio(&channels), data);
    }
}

#[test]
fn merge_then_split_gives_the_channels_back() {
    let channels = vec![vec![1.0f32, 2.0], vec![3.0, 4.0], vec![5.0, 6.0]];
    let merged = interleave_audio(&channels);
    assert_eq!(merged, vec![1.0, 3.0, 5.0, 2.0, 4.0, 6.0]);
    assert_eq!(deinterleave_audio(&merged, 3), channels);
}

#[test]
fn append_adds_behind() {
    let mut v = vec![1u8, 2];
    append(&mut v, &[3, 4, 5]);
    assert_eq!(v, vec![1, 2, 3, 4, 5]);
    append(&mut v, &[]);
    assert_eq!(v, vec![1, 2, 3, 4, 5]);
}

#[test]
fn copy_range_copies_the_range() {
    let v = [10u32, 11, 12, 13, 14];
    assert_eq!(copy_range(&v, 1, 4), vec![11, 12, 13]);
    assert_eq!(copy_range(&v, 2, 2), Vec::<u32>::new());
    assert_eq!(copy_range(&v, 0, 5), v.to_vec());
}

#[test]
fn split_blocks_keeps_the_tail() {
    let mut buf: Vec<u32> = (0..10).collect();
    let blocks = split_blocks(&mut buf, 4);
    assert_eq!(blocks, vec![vec![0, 1, 2, 3], vec![4, 5, 6, 7]]);
    assert_eq!(buf, vec![8, 9]);
}

#[test]
fn split_blocks_of_exact_multiple_leaves_nothing() {
    let mut buf: Vec<u32> = (0..8).collect();
    let blocks = split_blocks(&mut buf, 4);
    assert_eq!(blocks.len(), 2);
    assert!(buf.is_empty());
}

#[test]
fn split_blocks_of_short_buffer_takes_nothing() {
    let mut buf: Vec<u32> = vec![1, 2, 3];
    let blocks = split_blocks(&mut buf, 4);
    assert!(blocks.is_empty());
    assert_eq!(buf, vec![1, 2, 3]);
}

#[test]
fn focus_starts_on_nothing() {
    assert_eq!(Selected::default(), Selected::Nothing);
    assert_ne!(Selected::default(), Selected::Left);
}
