use vstd::prelude::*;
use crate::blocks::{
    append, block, blocks_of, copy_range, full_blocks, lemma_block_bounds, lemma_tail_bounds,
    split_blocks, tail, views,
};
use crate::config::ConfigError;
use crate::layout::{
    channel_of, deinterleave_audio, interleave_audio, lemma_even_split, rectangular,
    spec_deinterleave, spec_interleave,
};

verus! {

/// Samples of each channel in one window handed to the rate conversion.
pub const WINDOW_FRAMES: usize = 1024;

/// A window as the rate conversion takes it: one sequence per channel, each
/// of `WINDOW_FRAMES` samples.
pub open spec fn is_window<T>(planes: Seq<Seq<T>>, channels: int) -> bool {
    &&& planes.len() == channels
    &&& forall|c: int| 0 <= c < channels ==> (#[trigger] planes[c]).len() == 1024
}

/// `output` is a result that `convert` can give for a window holding `input`.
pub open spec fn converts<T, E, F: Fn(Vec<Vec<T>>) -> Result<Vec<Vec<T>>, E>>(
    convert: F,
    input: Seq<Seq<T>>,
    output: Seq<Seq<T>>,
) -> bool {
    exists|w: Vec<Vec<T>>, r: Vec<Vec<T>>|
        views(w@) == input && views(r@) == output && #[trigger] call_ensures(
            convert,
            (w,),
            Ok::<Vec<Vec<T>>, E>(r),
        )
}

/// `e` is an error that `convert` can give for a window holding `input`.
pub open spec fn fails<T, E, F: Fn(Vec<Vec<T>>) -> Result<Vec<Vec<T>>, E>>(
    convert: F,
    input: Seq<Seq<T>>,
    e: E,
) -> bool {
    exists|w: Vec<Vec<T>>|
        views(w@) == input && #[trigger] call_ensures(convert, (w,), Err::<Vec<Vec<T>>, E>(e))
}

/// `convert` can take a window holding `input`.
pub open spec fn convertible<T, E, F: Fn(Vec<Vec<T>>) -> Result<Vec<Vec<T>>, E>>(
    convert: F,
    input: Seq<Seq<T>>,
) -> bool {
    exists|output: Seq<Seq<T>>| #[trigger] converts::<T, E, F>(convert, input, output)
}

/// `e` is an error that `convert` can give for one of the whole windows of
/// `buf`, after it has taken every window before that one.
pub open spec fn conversion_failed<T, E, F: Fn(Vec<Vec<T>>) -> Result<Vec<Vec<T>>, E>>(
    convert: F,
    buf: Seq<T>,
    window: int,
    channels: int,
    e: E,
) -> bool {
    exists|i: int|
        {
            &&& 0 <= i < full_blocks(buf.len() as int, window)
            &&& fails::<T, E, F>(
                convert,
                spec_deinterleave(#[trigger] block(buf, window, i), channels),
                e,
            )
            &&& forall|j: int|
                0 <= j < i ==> convertible::<T, E, F>(
                    convert,
                    spec_deinterleave(#[trigger] block(buf, window, j), channels),
                )
        }
}

/// `outs` holds, window by window, what `convert` gave for the whole windows
/// of `buf`.
pub open spec fn window_results<T, E, F: Fn(Vec<Vec<T>>) -> Result<Vec<Vec<T>>, E>>(
    convert: F,
    buf: Seq<T>,
    window: int,
    channels: int,
    outs: Seq<Seq<Seq<T>>>,
) -> bool {
    &&& outs.len() == full_blocks(buf.len() as int, window)
    &&& forall|i: int|
        0 <= i < outs.len() ==> converts::<T, E, F>(
            convert,
            spec_deinterleave(block(buf, window, i), channels),
            #[trigger] outs[i],
        )
}

/// The converted windows, each interleaved again, laid end to end.
pub open spec fn interleaved_all<T>(outs: Seq<Seq<Seq<T>>>) -> Seq<T>
    decreases outs.len(),
{
    if outs.len() == 0 {
        Seq::empty()
    } else {
        interleaved_all(outs.drop_last()) + spec_interleave(outs.last())
    }
}

/// What `process` may return for `data` where `held` was kept from earlier
/// calls: the block itself where nothing is converted; else the whole
/// windows of what has accumulated, converted one by one and interleaved
/// again, or the error of the first window that `convert` failed on.
pub open spec fn resampled<T, E, F: Fn(Vec<Vec<T>>) -> Result<Vec<Vec<T>>, E>>(
    convert: F,
    passthrough: bool,
    held: Seq<T>,
    data: Seq<T>,
    window: int,
    channels: int,
    r: Result<Vec<T>, E>,
) -> bool {
    if passthrough {
        match r {
            Ok(pcm) => pcm@ == data,
            Err(_) => false,
        }
    } else {
        match r {
            Ok(pcm) => exists|outs: Seq<Seq<Seq<T>>>| #[trigger]
                window_results::<T, E, F>(convert, held + data, window, channels, outs) && pcm@
                    == interleaved_all(outs),
            Err(e) => conversion_failed::<T, E, F>(convert, held + data, window, channels, e),
        }
    }
}

/// Feeds a stream of PCM blocks of any length to a rate conversion that
/// takes windows of a fixed size, and keeps what does not fill a window.
pub struct Resampler<T> {
    buffered_pcm: Vec<T>,
    channels: usize,
    source_rate: usize,
    target_rate: usize,
}

impl<T: Copy> Resampler<T> {
    /// The samples kept for the next call.
    pub closed spec fn buffered(&self) -> Seq<T> {
        self.buffered_pcm@
    }

    /// The channel count of the stream.
    pub closed spec fn spec_channels(&self) -> usize {
        self.channels
    }

    /// The rate of the samples that come in.
    pub closed spec fn spec_source_rate(&self) -> usize {
        self.source_rate
    }

    /// The rate of the samples that go out.
    pub closed spec fn spec_target_rate(&self) -> usize {
        self.target_rate
    }

    /// Both rates are the same, so nothing is converted.
    pub open spec fn passthrough(&self) -> bool {
        self.spec_source_rate() == self.spec_target_rate()
    }

    /// Interleaved samples in one window.
    pub open spec fn window_len(&self) -> int {
        1024 * self.spec_channels()
    }

    /// The configuration is one that `new` accepts, and less than one window
    /// is kept.
    pub open spec fn wf(&self) -> bool {
        &&& self.spec_channels() > 0
        &&& self.window_len() <= usize::MAX
        &&& self.spec_source_rate() > 0
        &&& self.spec_target_rate() > 0
        &&& self.buffered().len() < self.window_len()
    }

    /// A resampler from `in_sample_rate` to `out_sample_rate` for
    /// `channels` channels. Both rates and the channel count must be
    /// positive, and a window of `channels` channels countable.
    pub fn new(in_sample_rate: usize, out_sample_rate: usize, channels: usize) -> (r: Result<
        Self,
        ConfigError,
    >)
        ensures
            match r {
                Ok(s) => {
                    &&& in_sample_rate > 0 && out_sample_rate > 0
                    &&& channels > 0 && 1024 * channels <= usize::MAX
                    &&& s.wf()
                    &&& s.buffered().len() == 0
                    &&& s.spec_channels() == channels
                    &&& s.spec_source_rate() == in_sample_rate
                    &&& s.spec_target_rate() == out_sample_rate
                },
                Err(e) => if in_sample_rate == 0 || out_sample_rate == 0 {
                    e == ConfigError::UnsupportedRate
                } else {
                    (channels == 0 || 1024 * channels > usize::MAX) && e
                        == ConfigError::UnsupportedChannels
                },
            },
    {
        if in_sample_rate == 0 || out_sample_rate == 0 {
            return Err(ConfigError::UnsupportedRate);
        }
        if channels == 0 || channels > usize::MAX / WINDOW_FRAMES {
            return Err(ConfigError::UnsupportedChannels);
        }
        Ok(
            Resampler {
                buffered_pcm: Vec::new(),
                channels,
                source_rate: in_sample_rate,
                target_rate: out_sample_rate,
            },
        )
    }

    /// Whether both rates are the same.
    pub fn is_passthrough(&self) -> (r: bool)
        ensures
            r == self.passthrough(),
    {
        self.source_rate == self.target_rate
    }

    /// Interleaved samples in one window.
    pub fn chunk_size(&self) -> (n: usize)
        requires
            self.wf(),
        ensures
            n == self.window_len(),
    {
        WINDOW_FRAMES * self.channels
    }

    /// How many samples wait for the next call.
    pub fn pending(&self) -> (n: usize)
        ensures
            n == self.buffered().len(),
    {
        self.buffered_pcm.len()
    }

    /// Takes a block in and hands out the whole windows that have
    /// accumulated, in order, each split into its channels. What does not
    /// fill a window stays for the next call.
    pub fn windows(&mut self, data: &[T]) -> (wins: Vec<Vec<Vec<T>>>)
        requires
            old(self).wf(),
        ensures
            final(self).wf(),
            final(self).spec_channels() == old(self).spec_channels(),
            final(self).spec_source_rate() == old(self).spec_source_rate(),
            final(self).spec_target_rate() == old(self).spec_target_rate(),
            final(self).buffered() == tail(old(self).buffered() + data@, old(self).window_len()),
            final(self).buffered().len() < old(self).window_len(),
            wins@.len() == full_blocks(
                (old(self).buffered() + data@).len() as int,
                old(self).window_len(),
            ),
            forall|i: int|
                0 <= i < wins@.len() ==> {
                    &&& views((#[trigger] wins@[i])@) == spec_deinterleave(
                        block(old(self).buffered() + data@, old(self).window_len(), i),
                        old(self).spec_channels() as int,
                    )
                    &&& is_window(views(wins@[i]@), old(self).spec_channels() as int)
                },
    {
        let ghost buf = old(self).buffered() + data@;
        let size: usize = self.chunk_size();
        append(&mut self.buffered_pcm, data);
        let raw = split_blocks(&mut self.buffered_pcm, size);
        proof {
            lemma_tail_bounds(buf.len() as int, size as int);
        }
        let mut wins: Vec<Vec<Vec<T>>> = Vec::new();
        let mut i: usize = 0;
        while i < raw.len()
            invariant
                self.wf(),
                self.spec_channels() == old(self).spec_channels(),
                self.spec_source_rate() == old(self).spec_source_rate(),
                self.spec_target_rate() == old(self).spec_target_rate(),
                self.buffered() == tail(buf, size as int),
                size == old(self).window_len(),
                size > 0,
                views(raw@) == blocks_of(buf, size as int),
                raw@.len() == full_blocks(buf.len() as int, size as int),
                0 <= i <= raw@.len(),
                wins@.len() == i,
                forall|j: int|
                    0 <= j < i ==> {
                        &&& views((#[trigger] wins@[j])@) == spec_deinterleave(
                            block(buf, size as int, j),
                            self.spec_channels() as int,
                        )
                        &&& is_window(views(wins@[j]@), self.spec_channels() as int)
                    },
            decreases raw@.len() - i,
        {
            let planar = deinterleave_audio(raw[i].as_slice(), self.channels);
            proof {
                let n = self.spec_channels() as int;
                assert(views(raw@)[i as int] == raw@[i as int]@);
                lemma_block_bounds(buf.len() as int, size as int, i as int);
                assert forall|c: int| 0 <= c < n implies (#[trigger] views(planar@)[c]).len()
                    == 1024 by {
                    lemma_even_split(1024, n, c);
                }
            }
            wins.push(planar);
            i += 1;
        }
        wins
    }

    /// Takes a block in and returns what the rate conversion makes of the
    /// whole windows that have accumulated: each window is split into its
    /// channels, handed to `convert`, and what comes back is interleaved
    /// again and added to the result, in order. What does not fill a window
    /// stays for the next call. The first failure of `convert` ends the call
    /// and is returned. Where both rates are the same the block comes back
    /// as it is and `convert` is not called.
    pub fn process<E, F: Fn(Vec<Vec<T>>) -> Result<Vec<Vec<T>>, E>>(
        &mut self,
        data: &[T],
        convert: F,
    ) -> (r: Result<Vec<T>, E>)
        requires
            old(self).wf(),
            forall|w: Vec<Vec<T>>|
                is_window(views(w@), old(self).spec_channels() as int) ==> #[trigger] call_requires(
                    convert,
                    (w,),
                ),
            forall|w: Vec<Vec<T>>, out: Vec<Vec<T>>| #[trigger]
                call_ensures(convert, (w,), Ok::<Vec<Vec<T>>, E>(out)) ==> rectangular(
                    views(out@),
                ),
        ensures
            final(self).wf(),
            final(self).spec_channels() == old(self).spec_channels(),
            final(self).spec_source_rate() == old(self).spec_source_rate(),
            final(self).spec_target_rate() == old(self).spec_target_rate(),
            final(self).buffered().len() < old(self).window_len(),
            final(self).buffered() == if old(self).passthrough() {
                old(self).buffered()
            } else {
                tail(old(self).buffered() + data@, old(self).window_len())
            },
            resampled::<T, E, F>(
                convert,
                old(self).passthrough(),
                old(self).buffered(),
                data@,
                old(self).window_len(),
                old(self).spec_channels() as int,
                r,
            ),
    {
        if self.is_passthrough() {
            let pcm = copy_range(data, 0, data.len());
            assert(pcm@ =~= data@);
            return Ok(pcm);
        }
        let ghost buf = old(self).buffered() + data@;
        let ghost size = old(self).window_len();
        let ghost n = old(self).spec_channels() as int;
        let wins = self.windows(data);
        let mut pcm: Vec<T> = Vec::new();
        let ghost mut outs: Seq<Seq<Seq<T>>> = Seq::empty();
        let mut i: usize = 0;
        while i < wins.len()
            invariant
                self.wf(),
                self.spec_channels() == old(self).spec_channels(),
                self.spec_source_rate() == old(self).spec_source_rate(),
                self.spec_target_rate() == old(self).spec_target_rate(),
                self.buffered() == tail(buf, size),
                buf == old(self).buffered() + data@,
                size == old(self).window_len(),
                n == old(self).spec_channels(),
                !old(self).passthrough(),
                wins@.len() == full_blocks(buf.len() as int, size),
                forall|j: int|
                    0 <= j < wins@.len() ==> {
                        &&& views((#[trigger] wins@[j])@) == spec_deinterleave(block(buf, size, j), n)
                        &&& is_window(views(wins@[j]@), n)
                    },
                forall|w: Vec<Vec<T>>|
                    is_window(views(w@), n) ==> #[trigger] call_requires(convert, (w,)),
                forall|w: Vec<Vec<T>>, out: Vec<Vec<T>>| #[trigger]
                    call_ensures(convert, (w,), Ok::<Vec<Vec<T>>, E>(out)) ==> rectangular(
                        views(out@),
                    ),
                0 <= i <= wins@.len(),
                outs.len() == i,
                forall|j: int|
                    0 <= j < i ==> converts::<T, E, F>(
                        convert,
                        spec_deinterleave(block(buf, size, j), n),
                        #[trigger] outs[j],
                    ),
                pcm@ == interleaved_all(outs),
            decreases wins@.len() - i,
        {
            let window = copy_planes(&wins[i]);
            match convert(window) {
                Ok(out) => {
                    let merged = interleave_audio(out.as_slice());
                    append(&mut pcm, merged.as_slice());
                    proof {
                        let ghost before = outs;
                        outs = outs.push(views(out@));
                        assert(outs.drop_last() =~= before);
                    }
                },
                Err(e) => {
                    assert forall|j: int| 0 <= j < i implies convertible::<T, E, F>(
                        convert,
                        spec_deinterleave(#[trigger] block(buf, size, j), n),
                    ) by {
                        assert(converts::<T, E, F>(
                            convert,
                            spec_deinterleave(block(buf, size, j), n),
                            outs[j],
                        ));
                    }
                    return Err(e);
                },
            }
            i += 1;
        }
        proof {
            assert(window_results::<T, E, F>(convert, buf, size, n, outs));
        }
        Ok(pcm)
    }
}

/// A copy of per-channel vectors.
pub fn copy_planes<T: Copy>(src: &Vec<Vec<T>>) -> (r: Vec<Vec<T>>)
    ensures
        views(r@) == views(src@),
{
    let mut r: Vec<Vec<T>> = Vec::new();
    let mut c: usize = 0;
    while c < src.len()
        invariant
            0 <= c <= src@.len(),
            r@.len() == c,
            forall|j: int| 0 <= j < c ==> (#[trigger] r@[j])@ == src@[j]@,
        decreases src@.len() - c,
    {
        r.push(copy_range(src[c].as_slice(), 0, src[c].len()));
        c += 1;
    }
    r
}

} // verus!
