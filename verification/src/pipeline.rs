use vstd::prelude::*;
use crate::blocks::{tail, views};
use crate::config::ConfigError;
use crate::framer::is_candidate;
use crate::layout::rectangular;
use crate::resampler::{is_window, resampled, Resampler};
use crate::stream::{delivered, Stream, StreamError, StreamState};

verus! {

/// One stream from capture to sink: each block is brought to the target
/// rate, framed, encoded and written before the next is taken.
pub struct Pipeline<T> {
    resampler: Resampler<T>,
    stream: Stream<T>,
}

impl<T: Copy> Pipeline<T> {
    /// The rate conversion stage.
    pub closed spec fn resampler(&self) -> Resampler<T> {
        self.resampler
    }

    /// The framing stage with its state.
    pub closed spec fn stream(&self) -> Stream<T> {
        self.stream
    }

    /// Both stages are well formed and agree on the channel count and on the
    /// target rate.
    pub open spec fn wf(&self) -> bool {
        &&& self.resampler().wf()
        &&& self.stream().wf()
        &&& self.resampler().spec_channels() == self.stream().framer().spec_channels()
        &&& self.resampler().spec_target_rate() == self.stream().framer().spec_rate()
    }

    /// A pipeline from `source_rate` to `target_rate` for `channels`
    /// channels. The source rate must be positive, the target rate at least
    /// 1000 Hz, and the channel count positive and small enough for a window
    /// to be counted.
    pub fn new(source_rate: usize, target_rate: usize, channels: usize) -> (r: Result<
        Self,
        ConfigError,
    >)
        ensures
            match r {
                Ok(p) => {
                    &&& source_rate > 0 && target_rate >= 1000
                    &&& channels > 0 && 1024 * channels <= usize::MAX
                    &&& p.wf()
                    &&& p.stream().spec_state() == StreamState::Uninitialized
                    &&& p.stream().framer().carry().len() == 0
                    &&& p.resampler().buffered().len() == 0
                    &&& p.resampler().spec_channels() == channels
                    &&& p.resampler().spec_source_rate() == source_rate
                    &&& p.resampler().spec_target_rate() == target_rate
                },
                Err(e) => if source_rate == 0 || target_rate < 1000 {
                    e == ConfigError::UnsupportedRate
                } else {
                    (channels == 0 || 1024 * channels > usize::MAX) && e
                        == ConfigError::UnsupportedChannels
                },
            },
    {
        if source_rate == 0 || target_rate < 1000 {
            return Err(ConfigError::UnsupportedRate);
        }
        let resampler = match Resampler::new(source_rate, target_rate, channels) {
            Ok(resampler) => resampler,
            Err(e) => {
                return Err(e);
            },
        };
        match Stream::new(channels, target_rate) {
            Ok(stream) => Ok(Pipeline { resampler, stream }),
            Err(e) => Err(e),
        }
    }

    /// Where the stream stands.
    pub fn state(&self) -> (r: StreamState)
        ensures
            r == self.stream().spec_state(),
    {
        self.stream.state()
    }

    /// The frame size, if one was selected.
    pub fn frame_size(&self) -> (r: Option<usize>)
        ensures
            r == self.stream().framer().selected(),
    {
        self.stream.frame_size()
    }

    /// Whether blocks go to the framing as they come.
    pub fn is_passthrough(&self) -> (r: bool)
        ensures
            r == self.resampler().passthrough(),
    {
        self.resampler.is_passthrough()
    }

    /// Ends the stream: the source has no more blocks. What is carried over
    /// fills no frame and is dropped.
    pub fn finish(&mut self)
        requires
            old(self).wf(),
        ensures
            final(self).wf(),
            final(self).resampler() == old(self).resampler(),
            final(self).stream().spec_state() == StreamState::Terminated,
            final(self).stream().framer().carry().len() == 0,
            final(self).stream().framer().selected() == old(self).stream().framer().selected(),
    {
        self.stream.finish();
    }

    /// Takes one captured block through the stream: `convert` brings its
    /// whole windows to the target rate, the result is framed, `encode`
    /// encodes each frame and `write` takes each encoded frame with its
    /// playback time, in order. Returns how many frames were written. The
    /// first failure of any of the three ends the stream. A stream that has
    /// ended takes nothing in and calls none of them.
    pub fn feed<
        E,
        C: Fn(Vec<Vec<T>>) -> Result<Vec<Vec<T>>, E>,
        F: Fn(Vec<T>, usize) -> Result<Vec<u8>, E>,
        W: Fn(Vec<u8>, u64) -> Result<(), E>,
    >(&mut self, block: &[T], convert: C, encode: F, write: W) -> (r: Result<
        usize,
        StreamError<E>,
    >)
        requires
            old(self).wf(),
            forall|w: Vec<Vec<T>>|
                is_window(views(w@), old(self).resampler().spec_channels() as int)
                    ==> #[trigger] call_requires(convert, (w,)),
            forall|w: Vec<Vec<T>>, out: Vec<Vec<T>>| #[trigger]
                call_ensures(convert, (w,), Ok::<Vec<Vec<T>>, E>(out)) ==> rectangular(
                    views(out@),
                ),
            forall|frame: Vec<T>, max_bytes: usize|
                is_candidate(frame@.len() as int) && max_bytes == 2 * frame@.len()
                    ==> #[trigger] call_requires(encode, (frame, max_bytes)),
            forall|d: Vec<u8>, ms: u64| #[trigger] call_requires(write, (d, ms)),
        ensures
            final(self).wf(),
            final(self).resampler().spec_channels() == old(self).resampler().spec_channels(),
            final(self).resampler().spec_source_rate() == old(self).resampler().spec_source_rate(),
            final(self).resampler().spec_target_rate() == old(self).resampler().spec_target_rate(),
            old(self).stream().framer().selected().is_some()
                ==> final(self).stream().framer().selected()
                == old(self).stream().framer().selected(),
            old(self).stream().spec_state() == StreamState::Terminated ==> {
                &&& r matches Err(StreamError::Terminated)
                &&& final(self).resampler() == old(self).resampler()
                &&& final(self).stream() == old(self).stream()
            },
            old(self).stream().spec_state() != StreamState::Terminated ==> {
                &&& final(self).resampler().buffered() == if old(self).resampler().passthrough() {
                    old(self).resampler().buffered()
                } else {
                    tail(
                        old(self).resampler().buffered() + block@,
                        old(self).resampler().window_len(),
                    )
                }
                &&& final(self).resampler().buffered().len() < old(self).resampler().window_len()
                &&& exists|mid: Result<Vec<T>, E>| #[trigger]
                    resampled::<T, E, C>(
                        convert,
                        old(self).resampler().passthrough(),
                        old(self).resampler().buffered(),
                        block@,
                        old(self).resampler().window_len(),
                        old(self).resampler().spec_channels() as int,
                        mid,
                    ) && Self::framed_on(old(self).stream(), mid, encode, write, r, final(self).stream())
            },
    {
        if self.stream.state() == StreamState::Terminated {
            return Err(StreamError::Terminated);
        }
        match self.resampler.process(block, convert) {
            Err(e) => {
                self.stream.finish();
                Err(StreamError::Transform(e))
            },
            Ok(pcm) => self.stream.feed(pcm.as_slice(), encode, write),
        }
    }

    /// What the framing stage makes of the outcome `mid` of the rate
    /// conversion: after a failure the stream has ended and the error is
    /// returned; else the converted block is framed, encoded and written as
    /// a stream does that has not ended.
    pub open spec fn framed_on<
        E,
        F: Fn(Vec<T>, usize) -> Result<Vec<u8>, E>,
        W: Fn(Vec<u8>, u64) -> Result<(), E>,
    >(
        before: Stream<T>,
        mid: Result<Vec<T>, E>,
        encode: F,
        write: W,
        r: Result<usize, StreamError<E>>,
        after: Stream<T>,
    ) -> bool {
        match mid {
            Err(e) => {
                &&& r matches Err(StreamError::Transform(e2)) && e2 == e
                &&& after.spec_state() == StreamState::Terminated
                &&& after.framer().carry().len() == 0
                &&& after.framer().selected() == before.framer().selected()
            },
            Ok(pcm) => {
                let buf = before.framer().carry() + pcm@;
                let size = before.framer().size_for(buf);
                let ms = before.framer().spec_duration(buf);
                &&& after.framer().selected() == Some(size as usize)
                &&& after.framer().carry() == tail(buf, size)
                &&& after.framer().carry().len() < size
                &&& after.spec_state() == before.state_after(r)
                &&& delivered::<T, E, F, W>(encode, write, buf, size, ms, r)
            },
        }
    }
}

} // verus!
