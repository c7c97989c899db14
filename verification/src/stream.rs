use vstd::prelude::*;
use crate::blocks::{copy_range, tail};
use crate::config::ConfigError;
use crate::framer::{encode_failed, framed, is_candidate, EncodedFrame, Framer};

verus! {

/// Where a stream stands.
#[derive(Debug, PartialEq, Eq, Structural, Clone, Copy)]
pub enum StreamState {
    /// No block has been taken in.
    Uninitialized,
    /// The frame size is selected and no frame has gone out yet.
    FrameSizeSelected,
    /// Frames have gone out.
    Streaming,
    /// The source has ended, or encoding or the sink has failed.
    Terminated,
}

/// Why a call on a stream failed.
#[derive(Debug)]
pub enum StreamError<E> {
    /// The encoder rejected a frame.
    Encode(E),
    /// The sink failed, after it had taken this many frames of the call.
    Sink(usize, E),
    /// The rate conversion failed.
    Transform(E),
    /// The stream had ended before the call.
    Terminated,
}

/// `write` can take a frame of these bytes and this playback time.
pub open spec fn accepted<E, W: Fn(Vec<u8>, u64) -> Result<(), E>>(
    write: W,
    data: Seq<u8>,
    ms: u64,
) -> bool {
    exists|d: Vec<u8>, out: Result<(), E>|
        d@ == data && out.is_ok() && #[trigger] call_ensures(write, (d, ms), out)
}

/// `write` can fail with `e` on a frame of these bytes and this playback
/// time.
pub open spec fn rejected<E, W: Fn(Vec<u8>, u64) -> Result<(), E>>(
    write: W,
    data: Seq<u8>,
    ms: u64,
    e: E,
) -> bool {
    exists|d: Vec<u8>| d@ == data && #[trigger] call_ensures(write, (d, ms), Err::<(), E>(e))
}

/// The first `k` frames went to `write`, which took each of them.
pub open spec fn all_written<E, W: Fn(Vec<u8>, u64) -> Result<(), E>>(
    write: W,
    frames: Seq<EncodedFrame>,
    k: int,
) -> bool {
    forall|i: int|
        0 <= i < k ==> accepted::<E, W>(write, (#[trigger] frames[i]).data@, frames[i].duration_ms)
}

/// Frame `k` went to `write`, which failed on it with `e`.
pub open spec fn write_failed<E, W: Fn(Vec<u8>, u64) -> Result<(), E>>(
    write: W,
    frames: Seq<EncodedFrame>,
    k: int,
    e: E,
) -> bool {
    &&& 0 <= k < frames.len()
    &&& rejected::<E, W>(write, frames[k].data@, frames[k].duration_ms, e)
}

/// What a stream may return for a call that finds `buf` accumulated: how
/// many frames were encoded and written, all that `buf` holds; or the error
/// of the frame that `encode` failed on; or that of the frame that `write`
/// failed on, with the number of frames written before it.
pub open spec fn delivered<
    T,
    E,
    F: Fn(Vec<T>, usize) -> Result<Vec<u8>, E>,
    W: Fn(Vec<u8>, u64) -> Result<(), E>,
>(encode: F, write: W, buf: Seq<T>, size: int, ms: int, r: Result<usize, StreamError<E>>) -> bool {
    match r {
        Ok(n) => exists|frames: Seq<EncodedFrame>| #[trigger]
            framed::<T, E, F>(encode, buf, size, ms, frames) && n == frames.len()
                && all_written::<E, W>(write, frames, n as int),
        Err(StreamError::Encode(e)) => encode_failed::<T, E, F>(encode, buf, size, e),
        Err(StreamError::Sink(k, e)) => exists|frames: Seq<EncodedFrame>| #[trigger]
            framed::<T, E, F>(encode, buf, size, ms, frames) && all_written::<E, W>(
                write,
                frames,
                k as int,
            ) && write_failed::<E, W>(write, frames, k as int, e),
        Err(StreamError::Transform(_)) => false,
        Err(StreamError::Terminated) => false,
    }
}

/// Hands the frames to `write` one by one, in order, and stops at the first
/// that it fails on: the error comes back with the number of frames taken
/// before it, and no later frame is handed over.
pub fn deliver<E, W: Fn(Vec<u8>, u64) -> Result<(), E>>(frames: &Vec<EncodedFrame>, write: W) -> (r:
    Result<(), (usize, E)>)
    requires
        forall|d: Vec<u8>, ms: u64| #[trigger] call_requires(write, (d, ms)),
    ensures
        match r {
            Ok(_) => all_written::<E, W>(write, frames@, frames@.len() as int),
            Err((k, e)) => all_written::<E, W>(write, frames@, k as int) && write_failed::<E, W>(
                write,
                frames@,
                k as int,
                e,
            ),
        },
{
    let mut i: usize = 0;
    while i < frames.len()
        invariant
            0 <= i <= frames@.len(),
            forall|d: Vec<u8>, ms: u64| #[trigger] call_requires(write, (d, ms)),
            all_written::<E, W>(write, frames@, i as int),
        decreases frames@.len() - i,
    {
        let data = copy_range(frames[i].data.as_slice(), 0, frames[i].data.len());
        assert(data@ =~= frames@[i as int].data@);
        if let Err(e) = write(data, frames[i].duration_ms) {
            return Err((i, e));
        }
        i += 1;
    }
    Ok(())
}

/// The driver of one stream: it frames what comes in, has each frame
/// encoded and written to the sink, and ends for good at the first failure.
pub struct Stream<T> {
    framer: Framer<T>,
    state: StreamState,
}

impl<T: Copy> Stream<T> {
    /// The framer of the stream.
    pub closed spec fn framer(&self) -> Framer<T> {
        self.framer
    }

    /// Where the stream stands.
    pub closed spec fn spec_state(&self) -> StreamState {
        self.state
    }

    /// The framer is well formed, and a frame size is selected exactly where
    /// a stream that has not ended has taken a block in.
    pub open spec fn wf(&self) -> bool {
        &&& self.framer().wf()
        &&& (self.spec_state() == StreamState::Uninitialized
            ==> self.framer().selected().is_none())
        &&& (self.spec_state() == StreamState::FrameSizeSelected || self.spec_state()
            == StreamState::Streaming ==> self.framer().selected().is_some())
    }

    /// The state after a call that returned `r`: ended after a failure,
    /// streaming once a frame has been written, and else waiting for the
    /// first frame.
    pub open spec fn state_after<E>(&self, r: Result<usize, StreamError<E>>) -> StreamState {
        match r {
            Ok(n) => if n > 0 || self.spec_state() == StreamState::Streaming {
                StreamState::Streaming
            } else {
                StreamState::FrameSizeSelected
            },
            Err(_) => StreamState::Terminated,
        }
    }

    /// A stream of `channels` channels at `rate` Hz that has taken nothing in.
    pub fn new(channels: usize, rate: usize) -> (r: Result<Self, ConfigError>)
        ensures
            match r {
                Ok(s) => channels > 0 && rate >= 1000 && s.wf() && s.spec_state()
                    == StreamState::Uninitialized && s.framer().carry().len() == 0
                    && s.framer().spec_channels() == channels && s.framer().spec_rate() == rate,
                Err(e) => if channels == 0 {
                    e == ConfigError::UnsupportedChannels
                } else {
                    rate < 1000 && e == ConfigError::UnsupportedRate
                },
            },
    {
        match Framer::new(channels, rate) {
            Ok(framer) => Ok(Stream { framer, state: StreamState::Uninitialized }),
            Err(e) => Err(e),
        }
    }

    /// Where the stream stands.
    pub fn state(&self) -> (r: StreamState)
        ensures
            r == self.spec_state(),
    {
        self.state
    }

    /// The frame size, if one was selected.
    pub fn frame_size(&self) -> (r: Option<usize>)
        ensures
            r == self.framer().selected(),
    {
        self.framer.frame_size()
    }

    /// How many samples wait for the next call.
    pub fn pending(&self) -> (n: usize)
        ensures
            n == self.framer().carry().len(),
    {
        self.framer.pending()
    }

    /// Ends the stream: the source has no more blocks. What is carried over
    /// fills no frame and is dropped.
    pub fn finish(&mut self)
        requires
            old(self).wf(),
        ensures
            final(self).wf(),
            final(self).spec_state() == StreamState::Terminated,
            final(self).framer().carry().len() == 0,
            final(self).framer().selected() == old(self).framer().selected(),
            final(self).framer().spec_channels() == old(self).framer().spec_channels(),
            final(self).framer().spec_rate() == old(self).framer().spec_rate(),
    {
        self.framer.discard();
        self.state = StreamState::Terminated;
    }

    /// Takes a block in, has every whole frame that has accumulated encoded,
    /// and hands the encoded frames to `write` in order, each with its
    /// playback time. Returns how many frames were written. The first
    /// failure of `encode` or `write` ends the stream: no further frame is
    /// written, in this call or a later one. A stream that has ended takes
    /// nothing in and calls neither.
    pub fn feed<E, F: Fn(Vec<T>, usize) -> Result<Vec<u8>, E>, W: Fn(Vec<u8>, u64) -> Result<(), E>>(
        &mut self,
        pcm: &[T],
        encode: F,
        write: W,
    ) -> (r: Result<usize, StreamError<E>>)
        requires
            old(self).wf(),
            forall|frame: Vec<T>, max_bytes: usize|
                is_candidate(frame@.len() as int) && max_bytes == 2 * frame@.len()
                    ==> #[trigger] call_requires(encode, (frame, max_bytes)),
            forall|d: Vec<u8>, ms: u64| #[trigger] call_requires(write, (d, ms)),
        ensures
            final(self).wf(),
            final(self).framer().spec_channels() == old(self).framer().spec_channels(),
            final(self).framer().spec_rate() == old(self).framer().spec_rate(),
            old(self).framer().selected().is_some() ==> final(self).framer().selected() == old(
                self,
            ).framer().selected(),
            old(self).spec_state() == StreamState::Terminated ==> final(self).framer() == old(
                self,
            ).framer() && final(self).spec_state() == StreamState::Terminated && (r matches Err(
                StreamError::Terminated,
            )),
            old(self).spec_state() != StreamState::Terminated ==> {
                let buf = old(self).framer().carry() + pcm@;
                let size = old(self).framer().size_for(buf);
                let ms = old(self).framer().spec_duration(buf);
                &&& final(self).framer().selected() == Some(size as usize)
                &&& final(self).framer().carry() == tail(buf, size)
                &&& final(self).framer().carry().len() < size
                &&& final(self).spec_state() == old(self).state_after(r)
                &&& delivered::<T, E, F, W>(encode, write, buf, size, ms, r)
            },
    {
        if self.state == StreamState::Terminated {
            return Err(StreamError::Terminated);
        }
        let ghost buf = old(self).framer().carry() + pcm@;
        let ghost size = old(self).framer().size_for(buf);
        let ghost ms = old(self).framer().spec_duration(buf);
        match self.framer.push(pcm, encode) {
            Err(e) => {
                self.state = StreamState::Terminated;
                Err(StreamError::Encode(e))
            },
            Ok(frames) => {
                match deliver(&frames, write) {
                    Err((k, e)) => {
                        self.state = StreamState::Terminated;
                        Err(StreamError::Sink(k, e))
                    },
                    Ok(_) => {
                        if frames.len() > 0 {
                            self.state = StreamState::Streaming;
                        } else if self.state == StreamState::Uninitialized {
                            self.state = StreamState::FrameSizeSelected;
                        }
                        Ok(frames.len())
                    },
                }
            },
        }
    }
}

} // verus!
