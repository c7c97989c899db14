use vstd::prelude::*;
use crate::blocks::{
    append, block, blocks_of, copy_range, full_blocks, joined, lemma_block_bounds,
    lemma_tail_bounds, split_blocks, tail, views,
};
use crate::config::ConfigError;

verus! {

/// Frame of 10 ms at 48 kHz with two channels, in interleaved samples.
pub const SHORT_FRAME: usize = 960;

/// Frame of 20 ms at 48 kHz with two channels, in interleaved samples.
pub const MEDIUM_FRAME: usize = 1920;

/// Frame of 30 ms at 48 kHz with two channels, in interleaved samples.
pub const LONG_FRAME: usize = 2880;

/// The frame sizes a stream can be given.
pub open spec fn is_candidate(c: int) -> bool {
    c == 960 || c == 1920 || c == 2880
}

/// `c` is taken rather than `d` for a buffer of `len` samples: `d` yields no
/// whole frame, or `c` yields fewer, or as many and `c` comes first.
pub open spec fn outranks(len: int, c: int, d: int) -> bool {
    ||| full_blocks(len, d) == 0
    ||| full_blocks(len, c) < full_blocks(len, d)
    ||| (full_blocks(len, c) == full_blocks(len, d) && c <= d)
}

/// The rule of selection: among the candidates that yield at least one whole
/// frame, the one that yields the fewest, the earliest of them on a tie; the
/// first candidate where none yields a frame.
pub open spec fn selects(len: int, c: int) -> bool {
    if full_blocks(len, 960) == 0 && full_blocks(len, 1920) == 0 && full_blocks(len, 2880) == 0 {
        c == 960
    } else {
        &&& is_candidate(c)
        &&& full_blocks(len, c) > 0
        &&& outranks(len, c, 960)
        &&& outranks(len, c, 1920)
        &&& outranks(len, c, 2880)
    }
}

/// The frame size selected for a buffer of `len` samples.
pub open spec fn spec_frame_size(len: int) -> int {
    if len < 1920 {
        960
    } else if len / 2880 > 0 && len / 2880 < len / 1920 {
        2880
    } else {
        1920
    }
}

/// Playback time of one frame in milliseconds.
pub open spec fn spec_duration_ms(frame_size: int, channels: int, rate: int) -> int {
    frame_size / channels / (rate / 1000)
}

/// At 48 kHz with two channels a millisecond holds 96 interleaved samples:
/// the three candidates last 10, 20 and 30 ms.
pub proof fn lemma_duration_at_48k_stereo(frame_size: int)
    requires
        0 <= frame_size,
    ensures
        spec_duration_ms(frame_size, 2, 48000) == frame_size / 96,
        is_candidate(frame_size) ==> spec_duration_ms(frame_size, 2, 48000) * 96 == frame_size,
{
    assert(frame_size / 2 / 48 == frame_size / 96) by (nonlinear_arith)
        requires
            0 <= frame_size,
    ;
}

/// The selection is a function of the buffered length alone: exactly one
/// frame size meets the rule, and it is `spec_frame_size(len)`.
pub proof fn lemma_selection_unique(len: int, c: int)
    requires
        0 <= len,
    ensures
        selects(len, c) <==> c == spec_frame_size(len),
        is_candidate(spec_frame_size(len)),
{
}

/// Selects the frame size for a stream from the number of samples buffered
/// when the stream is first looked at.
pub fn select_frame_size(len: usize) -> (size: usize)
    ensures
        size == spec_frame_size(len as int),
        selects(len as int, size as int),
{
    let mut best: usize = SHORT_FRAME;
    let mut fewest: usize = len / SHORT_FRAME;
    if fewest == 0 {
        return best;
    }
    let medium: usize = len / MEDIUM_FRAME;
    if medium > 0 && medium < fewest {
        best = MEDIUM_FRAME;
        fewest = medium;
    }
    let long: usize = len / LONG_FRAME;
    if long > 0 && long < fewest {
        best = LONG_FRAME;
    }
    best
}

/// Playback time of one frame of `frame_size` interleaved samples, in whole
/// milliseconds.
pub fn frame_duration_ms(frame_size: usize, channels: usize, rate: usize) -> (ms: u64)
    requires
        channels > 0,
        rate >= 1000,
    ensures
        ms == spec_duration_ms(frame_size as int, channels as int, rate as int),
{
    let ms: usize = frame_size / channels / (rate / 1000);
    ms as u64
}

/// One encoded frame with its playback time.
#[derive(Debug)]
pub struct EncodedFrame {
    pub data: Vec<u8>,
    pub duration_ms: u64,
}

/// `out` is a result that `encode` can give for a frame holding `samples`.
pub open spec fn encodes<T, E, F: Fn(Vec<T>, usize) -> Result<Vec<u8>, E>>(
    encode: F,
    samples: Seq<T>,
    max_bytes: usize,
    out: Result<Vec<u8>, E>,
) -> bool {
    exists|frame: Vec<T>| frame@ == samples && #[trigger] call_ensures(encode, (frame, max_bytes), out)
}

/// The most bytes an encoded frame of `size` samples may fill: two for each
/// sample.
pub open spec fn max_bytes_for(size: int) -> usize {
    (2 * size) as usize
}

/// `frames` holds, frame by frame, what `encode` gave for the whole blocks
/// of `size` of `buf`, each with the playback time `ms`.
pub open spec fn framed<T, E, F: Fn(Vec<T>, usize) -> Result<Vec<u8>, E>>(
    encode: F,
    buf: Seq<T>,
    size: int,
    ms: int,
    frames: Seq<EncodedFrame>,
) -> bool {
    &&& frames.len() == full_blocks(buf.len() as int, size)
    &&& forall|i: int|
        0 <= i < frames.len() ==> {
            &&& (#[trigger] frames[i]).duration_ms == ms
            &&& encodes::<T, E, F>(
                encode,
                block(buf, size, i),
                max_bytes_for(size),
                Ok::<Vec<u8>, E>(frames[i].data),
            )
        }
}

/// `encode` can take a frame holding `samples`.
pub open spec fn encodable<T, E, F: Fn(Vec<T>, usize) -> Result<Vec<u8>, E>>(
    encode: F,
    samples: Seq<T>,
    max_bytes: usize,
) -> bool {
    exists|frame: Vec<T>, out: Result<Vec<u8>, E>|
        frame@ == samples && out.is_ok() && #[trigger] call_ensures(encode, (frame, max_bytes), out)
}

/// `e` is an error that `encode` can give for one of the whole blocks of
/// `size` of `buf`, after it has taken every block before that one.
pub open spec fn encode_failed<T, E, F: Fn(Vec<T>, usize) -> Result<Vec<u8>, E>>(
    encode: F,
    buf: Seq<T>,
    size: int,
    e: E,
) -> bool {
    exists|i: int|
        {
            &&& 0 <= i < full_blocks(buf.len() as int, size)
            &&& encodes::<T, E, F>(
                encode,
                #[trigger] block(buf, size, i),
                max_bytes_for(size),
                Err::<Vec<u8>, E>(e),
            )
            &&& forall|j: int|
                0 <= j < i ==> encodable::<T, E, F>(
                    encode,
                    #[trigger] block(buf, size, j),
                    max_bytes_for(size),
                )
        }
}

/// Cuts a stream of PCM blocks of any length into frames of one size, which
/// it selects when the first block arrives.
pub struct Framer<T> {
    carry: Vec<T>,
    frame_size: Option<usize>,
    channels: usize,
    rate: usize,
}

impl<T: Copy> Framer<T> {
    /// The samples carried over to the next call.
    pub closed spec fn carry(&self) -> Seq<T> {
        self.carry@
    }

    /// The frame size, once selected.
    pub closed spec fn selected(&self) -> Option<usize> {
        self.frame_size
    }

    /// The channel count of the stream.
    pub closed spec fn spec_channels(&self) -> usize {
        self.channels
    }

    /// The sample rate of the stream.
    pub closed spec fn spec_rate(&self) -> usize {
        self.rate
    }

    /// The frame size is a candidate and the carry-over is shorter than one
    /// frame; before the selection nothing is carried.
    pub open spec fn wf(&self) -> bool {
        &&& self.spec_channels() > 0
        &&& self.spec_rate() >= 1000
        &&& match self.selected() {
            Some(size) => is_candidate(size as int) && self.carry().len() < size,
            None => self.carry().len() == 0,
        }
    }

    /// The frame size in force for a call that finds `buf` accumulated: the
    /// one selected before, or else the one selected for `buf`.
    pub open spec fn size_for(&self, buf: Seq<T>) -> int {
        match self.selected() {
            Some(size) => size as int,
            None => spec_frame_size(buf.len() as int),
        }
    }

    /// Playback time of each frame for a call that finds `buf` accumulated.
    pub open spec fn spec_duration(&self, buf: Seq<T>) -> int {
        spec_duration_ms(self.size_for(buf), self.spec_channels() as int, self.spec_rate() as int)
    }

    /// A framer for a stream of `channels` channels at `rate` Hz, with no
    /// frame size selected yet.
    pub fn new(channels: usize, rate: usize) -> (r: Result<Self, ConfigError>)
        ensures
            match r {
                Ok(f) => channels > 0 && rate >= 1000 && f.wf() && f.selected().is_none()
                    && f.carry().len() == 0 && f.spec_channels() == channels && f.spec_rate()
                    == rate,
                Err(e) => if channels == 0 {
                    e == ConfigError::UnsupportedChannels
                } else {
                    rate < 1000 && e == ConfigError::UnsupportedRate
                },
            },
    {
        if channels == 0 {
            return Err(ConfigError::UnsupportedChannels);
        }
        if rate < 1000 {
            return Err(ConfigError::UnsupportedRate);
        }
        Ok(Framer { carry: Vec::new(), frame_size: None, channels, rate })
    }

    /// The frame size, if one was selected.
    pub fn frame_size(&self) -> (r: Option<usize>)
        ensures
            r == self.selected(),
    {
        self.frame_size
    }

    /// How many samples wait for the next call.
    pub fn pending(&self) -> (n: usize)
        ensures
            n == self.carry().len(),
    {
        self.carry.len()
    }

    /// Playback time of each frame of this stream, once the size is selected.
    pub fn duration_ms(&self) -> (r: Option<u64>)
        requires
            self.wf(),
        ensures
            r == match self.selected() {
                Some(size) => Some(
                    spec_duration_ms(size as int, self.spec_channels() as int, self.spec_rate() as int) as u64,
                ),
                None => None,
            },
    {
        match self.frame_size {
            Some(size) => Some(frame_duration_ms(size, self.channels, self.rate)),
            None => None,
        }
    }

    /// Drops what is carried over: the stream has ended, and less than a
    /// frame is never handed out.
    pub fn discard(&mut self)
        requires
            old(self).wf(),
        ensures
            final(self).wf(),
            final(self).carry().len() == 0,
            final(self).selected() == old(self).selected(),
            final(self).spec_channels() == old(self).spec_channels(),
            final(self).spec_rate() == old(self).spec_rate(),
    {
        self.carry.clear();
    }

    /// Takes a block in and hands out the whole frames that have
    /// accumulated, in order. The first call selects the frame size from what
    /// it finds; later calls keep it. What does not fill a frame stays for
    /// the next call.
    pub fn slice(&mut self, pcm: &[T]) -> (frames: Vec<Vec<T>>)
        requires
            old(self).wf(),
        ensures
            final(self).wf(),
            final(self).spec_channels() == old(self).spec_channels(),
            final(self).spec_rate() == old(self).spec_rate(),
            final(self).selected() == Some(old(self).size_for(old(self).carry() + pcm@) as usize),
            old(self).selected().is_some() ==> final(self).selected() == old(self).selected(),
            views(frames@) == blocks_of(
                old(self).carry() + pcm@,
                old(self).size_for(old(self).carry() + pcm@),
            ),
            final(self).carry() == tail(
                old(self).carry() + pcm@,
                old(self).size_for(old(self).carry() + pcm@),
            ),
            final(self).carry().len() < old(self).size_for(old(self).carry() + pcm@),
            joined(views(frames@)) + final(self).carry() == old(self).carry() + pcm@,
    {
        self.cut(pcm).1
    }

    /// Does the work of `slice` and returns the frame size with the frames.
    fn cut(&mut self, pcm: &[T]) -> (r: (usize, Vec<Vec<T>>))
        requires
            old(self).wf(),
        ensures
            final(self).wf(),
            final(self).spec_channels() == old(self).spec_channels(),
            final(self).spec_rate() == old(self).spec_rate(),
            r.0 == old(self).size_for(old(self).carry() + pcm@),
            final(self).selected() == Some(r.0),
            views(r.1@) == blocks_of(old(self).carry() + pcm@, r.0 as int),
            final(self).carry() == tail(old(self).carry() + pcm@, r.0 as int),
            final(self).carry().len() < r.0,
            joined(views(r.1@)) + final(self).carry() == old(self).carry() + pcm@,
    {
        append(&mut self.carry, pcm);
        let size: usize = match self.frame_size {
            Some(size) => size,
            None => {
                let size = select_frame_size(self.carry.len());
                self.frame_size = Some(size);
                size
            },
        };
        let frames = split_blocks(&mut self.carry, size);
        (size, frames)
    }

    /// Takes a block in, cuts the whole frames that have accumulated and
    /// encodes each with `encode`, which is given the frame and the most
    /// bytes it may fill: two for each sample. The frames come back in
    /// order, each with its playback time. The first failure of `encode`
    /// ends the call and is returned; the frames cut in this call are then
    /// dropped.
    pub fn push<E, F: Fn(Vec<T>, usize) -> Result<Vec<u8>, E>>(&mut self, pcm: &[T], encode: F) -> (r:
        Result<Vec<EncodedFrame>, E>)
        requires
            old(self).wf(),
            forall|frame: Vec<T>, max_bytes: usize|
                is_candidate(frame@.len() as int) && max_bytes == 2 * frame@.len()
                    ==> #[trigger] call_requires(encode, (frame, max_bytes)),
        ensures
            final(self).wf(),
            final(self).spec_channels() == old(self).spec_channels(),
            final(self).spec_rate() == old(self).spec_rate(),
            final(self).selected() == Some(old(self).size_for(old(self).carry() + pcm@) as usize),
            final(self).carry() == tail(
                old(self).carry() + pcm@,
                old(self).size_for(old(self).carry() + pcm@),
            ),
            final(self).carry().len() < old(self).size_for(old(self).carry() + pcm@),
            old(self).selected().is_some() ==> final(self).selected() == old(self).selected(),
            match r {
                Ok(frames) => framed::<T, E, F>(
                    encode,
                    old(self).carry() + pcm@,
                    old(self).size_for(old(self).carry() + pcm@),
                    old(self).spec_duration(old(self).carry() + pcm@),
                    frames@,
                ),
                Err(e) => encode_failed::<T, E, F>(
                    encode,
                    old(self).carry() + pcm@,
                    old(self).size_for(old(self).carry() + pcm@),
                    e,
                ),
            },
    {
        let ghost buf = old(self).carry() + pcm@;
        let ghost size_spec = old(self).size_for(buf);
        let (size, slices) = self.cut(pcm);
        let ms = frame_duration_ms(size, self.channels, self.rate);
        let mut frames: Vec<EncodedFrame> = Vec::new();
        let mut i: usize = 0;
        while i < slices.len()
            invariant
                self.wf(),
                self.spec_channels() == old(self).spec_channels(),
                self.spec_rate() == old(self).spec_rate(),
                self.selected() == Some(size),
                self.carry() == tail(buf, size as int),
                buf == old(self).carry() + pcm@,
                size_spec == old(self).size_for(buf),
                size == size_spec,
                is_candidate(size as int),
                views(slices@) == blocks_of(buf, size as int),
                0 <= i <= slices@.len(),
                frames@.len() == i,
                ms == spec_duration_ms(
                    size as int,
                    self.spec_channels() as int,
                    self.spec_rate() as int,
                ),
                forall|frame: Vec<T>, max_bytes: usize|
                    is_candidate(frame@.len() as int) && max_bytes == 2 * frame@.len()
                        ==> #[trigger] call_requires(encode, (frame, max_bytes)),
                forall|j: int|
                    0 <= j < i ==> encodable::<T, E, F>(
                        encode,
                        #[trigger] block(buf, size as int, j),
                        max_bytes_for(size as int),
                    ),
                forall|j: int|
                    0 <= j < i ==> {
                        &&& (#[trigger] frames@[j]).duration_ms == ms
                        &&& encodes::<T, E, F>(
                            encode,
                            block(buf, size as int, j),
                            max_bytes_for(size as int),
                            Ok::<Vec<u8>, E>(frames@[j].data),
                        )
                    },
            decreases slices@.len() - i,
        {
            proof {
                lemma_tail_bounds(buf.len() as int, size as int);
                assert(views(slices@).len() == slices@.len());
                assert(views(slices@)[i as int] == slices@[i as int]@);
                lemma_block_bounds(buf.len() as int, size as int, i as int);
            }
            let frame = copy_range(slices[i].as_slice(), 0, slices[i].len());
            assert(frame@ =~= block(buf, size as int, i as int));
            let encoded = encode(frame, 2 * size);
            match encoded {
                Ok(data) => {
                    frames.push(EncodedFrame { data, duration_ms: ms });
                },
                Err(e) => {
                    return Err(e);
                },
            }
            i += 1;
        }
        Ok(frames)
    }
}

} // verus!
