use vstd::prelude::*;
use vstd::arithmetic::div_mod::*;
use vstd::arithmetic::mul::*;

verus! {

/// Block number `i` of a buffer cut into consecutive blocks of `size`.
pub open spec fn block<T>(buf: Seq<T>, size: int, i: int) -> Seq<T> {
    buf.subrange(i * size, (i + 1) * size)
}

/// How many whole blocks of `size` a buffer of `len` holds.
pub open spec fn full_blocks(len: int, size: int) -> int {
    len / size
}

/// What is left of a buffer behind its last whole block of `size`.
pub open spec fn tail<T>(buf: Seq<T>, size: int) -> Seq<T> {
    buf.subrange(full_blocks(buf.len() as int, size) * size, buf.len() as int)
}

/// The parts laid end to end, in order.
pub open spec fn joined<T>(parts: Seq<Seq<T>>) -> Seq<T>
    decreases parts.len(),
{
    if parts.len() == 0 {
        Seq::empty()
    } else {
        joined(parts.drop_last()) + parts.last()
    }
}

/// The whole blocks of `size` of a buffer, in order.
pub open spec fn blocks_of<T>(buf: Seq<T>, size: int) -> Seq<Seq<T>> {
    Seq::new(full_blocks(buf.len() as int, size) as nat, |i: int| block(buf, size, i))
}

/// The views of a vector of vectors.
pub open spec fn views<T>(v: Seq<Vec<T>>) -> Seq<Seq<T>> {
    Seq::new(v.len(), |i: int| v[i]@)
}

/// Bounds of block `i` where `i` is below the number of whole blocks.
pub proof fn lemma_block_bounds(len: int, size: int, i: int)
    requires
        0 <= len,
        0 < size,
        0 <= i < full_blocks(len, size),
    ensures
        0 <= i * size,
        (i + 1) * size == i * size + size,
        (i + 1) * size <= full_blocks(len, size) * size,
        full_blocks(len, size) * size <= len,
        len - full_blocks(len, size) * size == len % size,
        len % size < size,
{
    lemma_tail_bounds(len, size);
    lemma_mul_nonnegative(i, size);
    lemma_mul_is_distributive_add_other_way(size, i, 1);
    lemma_mul_inequality(i + 1, full_blocks(len, size), size);
}

/// The tail of a buffer is shorter than a block.
pub proof fn lemma_tail_bounds(len: int, size: int)
    requires
        0 <= len,
        0 < size,
    ensures
        0 <= full_blocks(len, size) * size <= len,
        len - full_blocks(len, size) * size == len % size,
        0 <= len % size < size,
        0 <= full_blocks(len, size),
{
    lemma_fundamental_div_mod(len, size);
    lemma_mod_bound(len, size);
    lemma_div_pos_is_pos(len, size);
    lemma_mul_is_commutative(size, len / size);
}

/// The first `n` blocks laid end to end are the first `n * size` samples.
pub proof fn lemma_joined_prefix<T>(buf: Seq<T>, size: int, n: int)
    requires
        0 < size,
        0 <= n <= full_blocks(buf.len() as int, size),
    ensures
        0 <= n * size <= buf.len(),
        joined(blocks_of(buf, size).take(n)) == buf.subrange(0, n * size),
    decreases n,
{
    let len = buf.len() as int;
    lemma_tail_bounds(len, size);
    lemma_mul_nonnegative(n, size);
    lemma_mul_inequality(n, full_blocks(len, size), size);
    let parts = blocks_of(buf, size).take(n);
    if n == 0 {
        lemma_mul_basics(size);
    } else {
        lemma_joined_prefix(buf, size, n - 1);
        lemma_block_bounds(len, size, n - 1);
        assert(parts.drop_last() =~= blocks_of(buf, size).take(n - 1));
    }
}

/// Nothing is lost and nothing moves: the whole blocks of a buffer, laid end
/// to end and followed by its tail, are the buffer.
pub proof fn lemma_blocks_then_tail<T>(buf: Seq<T>, size: int)
    requires
        0 < size,
    ensures
        joined(blocks_of(buf, size)) + tail(buf, size) == buf,
        tail(buf, size).len() == (buf.len() as int) % size,
        tail(buf, size).len() < size,
{
    let len = buf.len() as int;
    let n = full_blocks(len, size);
    lemma_tail_bounds(len, size);
    lemma_joined_prefix(buf, size, n);
    assert(blocks_of(buf, size).take(n) =~= blocks_of(buf, size));
}

/// Laying parts end to end goes along with putting lists of parts together.
pub proof fn lemma_joined_concat<T>(a: Seq<Seq<T>>, b: Seq<Seq<T>>)
    ensures
        joined(a + b) == joined(a) + joined(b),
    decreases b.len(),
{
    if b.len() == 0 {
    } else {
        lemma_joined_concat(a, b.drop_last());
        assert((a + b).drop_last() =~= a + b.drop_last());
    }
}

/// What is carried over after the `inputs` have come in one by one, each
/// call taking the whole blocks of `size` off what has accumulated.
pub open spec fn carry_after<T>(carry: Seq<T>, size: int, inputs: Seq<Seq<T>>) -> Seq<T>
    decreases inputs.len(),
{
    if inputs.len() == 0 {
        carry
    } else {
        tail(carry_after(carry, size, inputs.drop_last()) + inputs.last(), size)
    }
}

/// The blocks handed out while the `inputs` came in one by one, in the order
/// in which they were handed out.
pub open spec fn blocks_after<T>(carry: Seq<T>, size: int, inputs: Seq<Seq<T>>) -> Seq<Seq<T>>
    decreases inputs.len(),
{
    if inputs.len() == 0 {
        Seq::empty()
    } else {
        blocks_after(carry, size, inputs.drop_last()) + blocks_of(
            carry_after(carry, size, inputs.drop_last()) + inputs.last(),
            size,
        )
    }
}

/// Over any run of calls no sample is lost, doubled or moved: the blocks
/// handed out so far, laid end to end and followed by what is carried over,
/// are what was carried at the start followed by every input in order; and
/// what is carried over is shorter than one block.
pub proof fn lemma_nothing_lost<T>(carry: Seq<T>, size: int, inputs: Seq<Seq<T>>)
    requires
        0 < size,
        carry.len() < size,
    ensures
        joined(blocks_after(carry, size, inputs)) + carry_after(carry, size, inputs) == carry
            + joined(inputs),
        carry_after(carry, size, inputs).len() < size,
        forall|i: int|
            0 <= i < blocks_after(carry, size, inputs).len() ==> (#[trigger] blocks_after(
                carry,
                size,
                inputs,
            )[i]).len() == size,
    decreases inputs.len(),
{
    if inputs.len() == 0 {
    } else {
        let before = inputs.drop_last();
        lemma_nothing_lost(carry, size, before);
        let buf = carry_after(carry, size, before) + inputs.last();
        lemma_blocks_then_tail(buf, size);
        lemma_joined_concat(blocks_after(carry, size, before), blocks_of(buf, size));
        assert(joined(blocks_after(carry, size, before)) + (carry_after(carry, size, before)
            + inputs.last()) =~= (joined(blocks_after(carry, size, before)) + carry_after(
            carry,
            size,
            before,
        )) + inputs.last());
        assert((carry + joined(before)) + inputs.last() =~= carry + joined(inputs));
        assert forall|i: int|
            0 <= i < blocks_after(carry, size, inputs).len() implies (#[trigger] blocks_after(
            carry,
            size,
            inputs,
        )[i]).len() == size by {
            let done = blocks_after(carry, size, before).len();
            if i >= done {
                lemma_block_bounds(buf.len() as int, size, i - done);
            }
        }
    }
}

/// Appends a copy of `src` to `dst`.
pub fn append<T: Copy>(dst: &mut Vec<T>, src: &[T])
    ensures
        final(dst)@ == old(dst)@ + src@,
{
    let mut i: usize = 0;
    while i < src.len()
        invariant
            0 <= i <= src@.len(),
            dst@ == old(dst)@ + src@.take(i as int),
        decreases src@.len() - i,
    {
        dst.push(src[i]);
        i += 1;
    }
}

/// A copy of `src[start..end]`.
pub fn copy_range<T: Copy>(src: &[T], start: usize, end: usize) -> (r: Vec<T>)
    requires
        start <= end <= src@.len(),
    ensures
        r@ == src@.subrange(start as int, end as int),
{
    let mut r: Vec<T> = Vec::new();
    let mut i: usize = start;
    while i < end
        invariant
            start <= i <= end <= src@.len(),
            r@ == src@.subrange(start as int, i as int),
        decreases end - i,
    {
        r.push(src[i]);
        i += 1;
    }
    r
}

/// Takes every whole block of `size` off the front of the buffer, in order,
/// and leaves the tail, which is shorter than one block.
pub fn split_blocks<T: Copy>(buf: &mut Vec<T>, size: usize) -> (blocks: Vec<Vec<T>>)
    requires
        size > 0,
    ensures
        views(blocks@) == blocks_of(old(buf)@, size as int),
        final(buf)@ == tail(old(buf)@, size as int),
        final(buf)@.len() == (old(buf)@.len() as int) % (size as int),
        final(buf)@.len() < size,
        joined(views(blocks@)) + final(buf)@ == old(buf)@,
{
    let len: usize = buf.len();
    let full: usize = len / size;
    let mut blocks: Vec<Vec<T>> = Vec::new();
    let mut i: usize = 0;
    proof {
        lemma_tail_bounds(len as int, size as int);
    }
    while i < full
        invariant
            size > 0,
            len == buf@.len(),
            buf@ == old(buf)@,
            full == full_blocks(len as int, size as int),
            0 <= i <= full,
            blocks@.len() == i,
            forall|j: int| 0 <= j < i ==> (#[trigger] blocks@[j])@ == block(buf@, size as int, j),
        decreases full - i,
    {
        proof {
            lemma_block_bounds(len as int, size as int, i as int);
        }
        let b = copy_range(buf.as_slice(), i * size, (i + 1) * size);
        blocks.push(b);
        i += 1;
    }
    let rest = copy_range(buf.as_slice(), full * size, len);
    proof {
        lemma_blocks_then_tail(buf@, size as int);
        assert(views(blocks@) =~= blocks_of(buf@, size as int));
    }
    *buf = rest;
    blocks
}

} // verus!
