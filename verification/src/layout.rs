use vstd::prelude::*;
use vstd::arithmetic::div_mod::*;
use vstd::arithmetic::mul::*;
use crate::blocks::views;

verus! {

/// How many samples of an interleaved block of `len` samples with `n`
/// channels belong to channel `c`: the positions `c`, `c + n`, `c + 2n`, ...
/// below `len`.
pub open spec fn channel_len(len: int, n: int, c: int) -> int {
    if c >= len {
        0
    } else {
        (len - 1 - c) / n + 1
    }
}

/// Channel `c` of an interleaved block: its samples at the positions
/// `c`, `c + n`, `c + 2n`, ..., in that order.
pub open spec fn channel_of<T>(data: Seq<T>, n: int, c: int) -> Seq<T> {
    Seq::new(channel_len(data.len() as int, n, c) as nat, |k: int| data[k * n + c])
}

/// An interleaved block split into its `n` channels.
pub open spec fn spec_deinterleave<T>(data: Seq<T>, n: int) -> Seq<Seq<T>> {
    Seq::new(n as nat, |c: int| channel_of(data, n, c))
}

/// Every channel holds the same number of samples.
pub open spec fn rectangular<T>(channels: Seq<Seq<T>>) -> bool {
    forall|c: int| 0 <= c < channels.len() ==> (#[trigger] channels[c]).len() == channels[0].len()
}

/// The channels merged sample by sample: position `i` holds sample
/// `i / n` of channel `i % n`, where `n` is the number of channels.
pub open spec fn spec_interleave<T>(channels: Seq<Seq<T>>) -> Seq<T> {
    if channels.len() == 0 {
        Seq::empty()
    } else {
        Seq::new(
            (channels.len() * channels[0].len()) as nat,
            |i: int| channels[i % (channels.len() as int)][i / (channels.len() as int)],
        )
    }
}

/// Position `k * n + c` with `c < n` lies in channel `c` at index `k`.
pub proof fn lemma_position(k: int, n: int, c: int)
    requires
        0 <= k,
        0 <= c < n,
    ensures
        (k * n + c) % n == c,
        (k * n + c) / n == k,
{
    lemma_fundamental_div_mod_converse(k * n + c, n, k, c);
}

/// The positions `k * n + c` for `k < channel_len(len, n, c)` are exactly
/// those of channel `c` that lie below `len`.
pub proof fn lemma_channel_len(len: int, n: int, c: int, k: int)
    requires
        0 <= len,
        0 <= c < n,
        0 <= k,
    ensures
        k < channel_len(len, n, c) <==> k * n + c < len,
        0 <= channel_len(len, n, c) <= len,
{
    if c < len {
        let m = len - 1 - c;
        lemma_fundamental_div_mod(m, n);
        lemma_mod_bound(m, n);
        lemma_div_pos_is_pos(m, n);
        let q = m / n;
        if k <= q {
            lemma_mul_inequality(k, q, n);
            assert(q * n == n * q) by { lemma_mul_is_commutative(q, n) };
        } else {
            lemma_mul_inequality(q + 1, k, n);
            assert((q + 1) * n == q * n + n) by { lemma_mul_is_distributive_add_other_way(n, q, 1) };
            assert(q * n == n * q) by { lemma_mul_is_commutative(q, n) };
        }
    } else {
        lemma_mul_nonnegative(k, n);
    }
}

/// A block of `frames * n` samples gives each of its `n` channels `frames`
/// samples.
pub proof fn lemma_even_split(frames: int, n: int, c: int)
    requires
        0 < frames,
        0 <= c < n,
    ensures
        channel_len(frames * n, n, c) == frames,
{
    lemma_mul_is_distributive_sub_other_way(n, frames, 1);
    lemma_fundamental_div_mod_converse(frames * n - 1 - c, n, frames - 1, n - 1 - c);
    lemma_mul_strictly_positive(frames, n);
    lemma_mul_inequality(1, frames, n);
}

/// Splitting a block whose length is a multiple of the channel count and
/// merging the channels again gives the block back.
pub proof fn lemma_split_then_merge<T>(data: Seq<T>, n: int)
    requires
        0 < n,
        data.len() % (n as nat) == 0,
    ensures
        rectangular(spec_deinterleave(data, n)),
        spec_interleave(spec_deinterleave(data, n)) == data,
{
    let len = data.len() as int;
    let q = len / n;
    let channels = spec_deinterleave(data, n);
    lemma_fundamental_div_mod(len, n);
    lemma_div_pos_is_pos(len, n);
    lemma_mul_is_commutative(n, q);
    assert forall|c: int| 0 <= c < n implies (#[trigger] channels[c]).len() == q by {
        if q > 0 {
            lemma_even_split(q, n, c);
        } else {
            lemma_mul_basics(n);
        }
    }
    let merged = spec_interleave(channels);
    assert forall|i: int| 0 <= i < len implies merged[i] == data[i] by {
        lemma_fundamental_div_mod(i, n);
        lemma_mod_bound(i, n);
        lemma_div_pos_is_pos(i, n);
        lemma_mul_is_commutative(n, i / n);
        lemma_channel_len(len, n, i % n, i / n);
    }
}

/// Merging channels of equal length and splitting the block again gives
/// the channels back.
pub proof fn lemma_merge_then_split<T>(channels: Seq<Seq<T>>)
    requires
        channels.len() > 0,
        rectangular(channels),
    ensures
        spec_deinterleave(spec_interleave(channels), channels.len() as int) == channels,
{
    let n = channels.len() as int;
    let q = channels[0].len() as int;
    let merged = spec_interleave(channels);
    lemma_mul_is_commutative(n, q);
    lemma_mul_nonnegative(n, q);
    let split = spec_deinterleave(merged, n);
    assert forall|c: int| 0 <= c < n implies #[trigger] split[c] == channels[c] by {
        if q > 0 {
            lemma_even_split(q, n, c);
        } else {
            lemma_mul_basics(n);
        }
        assert forall|k: int| 0 <= k < q implies split[c][k] == channels[c][k] by {
            lemma_position(k, n, c);
            lemma_channel_len(q * n, n, c, k);
        }
    }
}

/// Splits an interleaved block into one vector per channel. Sample `i` goes
/// to channel `i % num_channels`, so where the length is no multiple of the
/// channel count the first channels hold one sample more.
pub fn deinterleave_audio<T: Copy>(interleaved_data: &[T], num_channels: usize) -> (channel_data:
    Vec<Vec<T>>)
    requires
        num_channels > 0,
    ensures
        views(channel_data@) == spec_deinterleave(interleaved_data@, num_channels as int),
{
    let len: usize = interleaved_data.len();
    let mut channel_data: Vec<Vec<T>> = Vec::new();
    let mut c: usize = 0;
    while c < num_channels
        invariant
            num_channels > 0,
            len == interleaved_data@.len(),
            0 <= c <= num_channels,
            channel_data@.len() == c,
            forall|j: int|
                0 <= j < c ==> (#[trigger] channel_data@[j])@ == channel_of(
                    interleaved_data@,
                    num_channels as int,
                    j,
                ),
        decreases num_channels - c,
    {
        let count: usize = if c >= len {
            0
        } else {
            (len - 1 - c) / num_channels + 1
        };
        let mut channel: Vec<T> = Vec::new();
        let mut k: usize = 0;
        while k < count
            invariant
                num_channels > 0,
                len == interleaved_data@.len(),
                0 <= c < num_channels,
                count == channel_len(len as int, num_channels as int, c as int),
                0 <= k <= count,
                channel@.len() == k,
                forall|j: int|
                    0 <= j < k ==> #[trigger] channel@[j] == interleaved_data@[j * num_channels
                        + c],
            decreases count - k,
        {
            proof {
                lemma_channel_len(len as int, num_channels as int, c as int, k as int);
                lemma_mul_nonnegative(k as int, num_channels as int);
            }
            channel.push(interleaved_data[k * num_channels + c]);
            k += 1;
        }
        channel_data.push(channel);
        c += 1;
    }
    channel_data
}

/// Merges per-channel vectors into one interleaved block: all first samples
/// in channel order, then all second samples, and so on. Every channel must
/// hold the same number of samples.
pub fn interleave_audio<T: Copy>(channel_data: &[Vec<T>]) -> (interleaved: Vec<T>)
    requires
        rectangular(views(channel_data@)),
    ensures
        interleaved@ == spec_interleave(views(channel_data@)),
{
    let num_channels: usize = channel_data.len();
    let mut interleaved: Vec<T> = Vec::new();
    if num_channels == 0 {
        return interleaved;
    }
    let samples_per_channel: usize = channel_data[0].len();
    let mut s: usize = 0;
    while s < samples_per_channel
        invariant
            num_channels == channel_data@.len(),
            num_channels > 0,
            samples_per_channel == channel_data@[0]@.len(),
            rectangular(views(channel_data@)),
            0 <= s <= samples_per_channel,
            interleaved@.len() == s * num_channels,
            forall|i: int|
                0 <= i < interleaved@.len() ==> #[trigger] interleaved@[i] == channel_data@[i % (
                num_channels as int)]@[i / (num_channels as int)],
        decreases samples_per_channel - s,
    {
        let mut c: usize = 0;
        while c < num_channels
            invariant
                num_channels == channel_data@.len(),
                num_channels > 0,
                samples_per_channel == channel_data@[0]@.len(),
                rectangular(views(channel_data@)),
                0 <= s < samples_per_channel,
                0 <= c <= num_channels,
                interleaved@.len() == s * num_channels + c,
                forall|i: int|
                    0 <= i < interleaved@.len() ==> #[trigger] interleaved@[i] == channel_data@[i
                        % (num_channels as int)]@[i / (num_channels as int)],
            decreases num_channels - c,
        {
            proof {
                lemma_position(s as int, num_channels as int, c as int);
                assert(views(channel_data@)[c as int].len() == views(channel_data@)[0].len());
            }
            interleaved.push(channel_data[c][s]);
            c += 1;
        }
        proof {
            assert((s + 1) * num_channels == s * num_channels + num_channels) by {
                lemma_mul_is_distributive_add_other_way(num_channels as int, s as int, 1);
            };
        }
        s += 1;
    }
    proof {
        assert(samples_per_channel * num_channels == num_channels * samples_per_channel) by {
            lemma_mul_is_commutative(samples_per_channel as int, num_channels as int);
        };
    }
    interleaved
}

} // verus!
