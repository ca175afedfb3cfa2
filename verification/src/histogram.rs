//! Byte-frequency histograms, the integer half of the entropy estimate.

use vstd::prelude::*;

verus! {

/// Number of bins: one for each value a byte can take.
pub const BINS: usize = 256;

/// A buffer can be counted only if it is shorter than this: each bin is a `u16`.
pub const SAMPLE_LIMIT: usize = 65536;

/// How many times `value` occurs in `bytes`.
pub open spec fn occurrences(bytes: Seq<u8>, value: u8) -> nat {
    bytes.to_multiset().count(value)
}

/// The histogram of `bytes`: entry `v` counts the occurrences of the byte `v`.
pub open spec fn histogram(bytes: Seq<u8>) -> Seq<nat> {
    Seq::new(BINS as nat, |v: int| occurrences(bytes, v as u8))
}

/// No value occurs more often than the buffer is long.
pub proof fn lemma_occurrences_bounded(bytes: Seq<u8>, value: u8)
    ensures
        occurrences(bytes, value) <= bytes.len(),
    decreases bytes.len(),
{
    if bytes.len() == 0 {
        assert(bytes =~= Seq::<u8>::empty());
        assert(bytes.to_multiset() =~= vstd::multiset::Multiset::<u8>::empty()) by {
            bytes.to_multiset_ensures();
        }
    } else {
        let front = bytes.drop_last();
        assert(bytes =~= front.push(bytes.last()));
        front.to_multiset_ensures();
        lemma_occurrences_bounded(front, value);
    }
}

/// Counting one more byte raises its own bin by one and leaves the others alone.
pub proof fn lemma_occurrences_push(bytes: Seq<u8>, next: u8, value: u8)
    ensures
        occurrences(bytes.push(next), value) == occurrences(bytes, value) + if value == next {
            1nat
        } else {
            0nat
        },
{
    bytes.to_multiset_ensures();
}

/// The histogram does not depend on the order of the bytes: two buffers that
/// hold the same bytes, each as often as the other, have the same histogram.
pub proof fn lemma_histogram_ignores_order(a: Seq<u8>, b: Seq<u8>)
    requires
        a.to_multiset() == b.to_multiset(),
    ensures
        histogram(a) == histogram(b),
{
    assert(histogram(a) =~= histogram(b));
}

/// A buffer that repeats one value has its whole length in the bin of that
/// value and nothing in the others. All bins of the empty buffer are zero.
pub proof fn lemma_histogram_of_constant(bytes: Seq<u8>, value: u8)
    requires
        forall|i: int| 0 <= i < bytes.len() ==> bytes[i] == value,
    ensures
        histogram(bytes)[value as int] == bytes.len(),
        forall|v: int| 0 <= v < BINS && v != value ==> #[trigger] histogram(bytes)[v] == 0,
    decreases bytes.len(),
{
    if bytes.len() == 0 {
        assert(bytes =~= Seq::<u8>::empty());
        Seq::<u8>::empty().to_multiset_ensures();
    } else {
        let front = bytes.drop_last();
        assert(bytes =~= front.push(value));
        lemma_histogram_of_constant(front, value);
        assert forall|v: int| 0 <= v < BINS implies #[trigger] histogram(bytes)[v] == histogram(
            front,
        )[v] + if v == value {
            1nat
        } else {
            0nat
        } by {
            lemma_occurrences_push(front, value, v as u8);
        }
    }
}

/// Only a buffer that repeats one value has its whole length in one bin.
pub proof fn lemma_full_bin_is_constant(bytes: Seq<u8>, value: u8)
    requires
        histogram(bytes)[value as int] == bytes.len(),
    ensures
        forall|i: int| 0 <= i < bytes.len() ==> bytes[i] == value,
    decreases bytes.len(),
{
    if bytes.len() > 0 {
        let front = bytes.drop_last();
        let last = bytes.last();
        assert(bytes =~= front.push(last));
        lemma_occurrences_push(front, last, value);
        lemma_occurrences_bounded(front, value);
        lemma_full_bin_is_constant(front, value);
    }
}

/// The counts of a buffer that is shorter than `SAMPLE_LIMIT` fit their
/// bins: none is more than a `u16` holds.
pub proof fn lemma_bins_fit(bytes: Seq<u8>)
    requires
        bytes.len() < SAMPLE_LIMIT,
    ensures
        forall|v: int| 0 <= v < BINS ==> #[trigger] histogram(bytes)[v] <= u16::MAX,
{
    assert forall|v: int| 0 <= v < BINS implies #[trigger] histogram(bytes)[v] <= u16::MAX by {
        lemma_occurrences_bounded(bytes, v as u8);
    }
}

/// The limit cannot be raised: a buffer of `SAMPLE_LIMIT` bytes or more that
/// repeats one value has a count that no bin holds.
pub proof fn lemma_limit_is_tight(bytes: Seq<u8>, value: u8)
    requires
        bytes.len() >= SAMPLE_LIMIT,
        forall|i: int| 0 <= i < bytes.len() ==> bytes[i] == value,
    ensures
        histogram(bytes)[value as int] > u16::MAX,
{
    lemma_histogram_of_constant(bytes, value);
}

/// The sum of the first `n` bins.
pub open spec fn sum_of_bins(bins: Seq<nat>, n: nat) -> nat
    decreases n,
{
    if n == 0 {
        0
    } else {
        sum_of_bins(bins, (n - 1) as nat) + bins[n - 1]
    }
}

/// One more byte raises the sum of the first `n` bins by one if its own bin
/// is among them.
proof fn lemma_sum_after_push(bytes: Seq<u8>, next: u8, n: nat)
    requires
        n <= BINS,
    ensures
        sum_of_bins(histogram(bytes.push(next)), n) == sum_of_bins(histogram(bytes), n) + if next
            < n {
            1nat
        } else {
            0nat
        },
    decreases n,
{
    if n > 0 {
        lemma_sum_after_push(bytes, next, (n - 1) as nat);
        lemma_occurrences_push(bytes, next, (n - 1) as u8);
    }
}

/// The bins of the empty buffer add up to nothing.
proof fn lemma_sum_of_empty(n: nat)
    requires
        n <= BINS,
    ensures
        sum_of_bins(histogram(Seq::<u8>::empty()), n) == 0,
    decreases n,
{
    if n > 0 {
        lemma_sum_of_empty((n - 1) as nat);
        Seq::<u8>::empty().to_multiset_ensures();
    }
}

/// The bins add up to the length of the buffer: every byte is counted once.
pub proof fn lemma_histogram_total(bytes: Seq<u8>)
    ensures
        sum_of_bins(histogram(bytes), BINS as nat) == bytes.len(),
    decreases bytes.len(),
{
    if bytes.len() == 0 {
        assert(bytes =~= Seq::<u8>::empty());
        lemma_sum_of_empty(BINS as nat);
    } else {
        let front = bytes.drop_last();
        assert(bytes =~= front.push(bytes.last()));
        lemma_histogram_total(front);
        lemma_sum_after_push(front, bytes.last(), BINS as nat);
    }
}

/// Counts the occurrences of each byte value in `src`.
///
/// The bins are indexed by byte value, in ascending order.
pub fn byte_histogram(src: &[u8]) -> (bins: [u16; 256])
    requires
        src@.len() < SAMPLE_LIMIT,
    ensures
        forall|v: int| 0 <= v < BINS ==> #[trigger] bins@[v] == histogram(src@)[v],
{
    let mut bins: [u16; 256] = [0u16; 256];
    let mut i: usize = 0;
    assert(src@.take(0) =~= Seq::<u8>::empty());
    assert(forall|v: u8| occurrences(Seq::<u8>::empty(), v) == 0) by {
        Seq::<u8>::empty().to_multiset_ensures();
    }
    while i < src.len()
        invariant
            i <= src@.len(),
            src@.len() < SAMPLE_LIMIT,
            forall|v: int| 0 <= v < BINS ==> bins@[v] == occurrences(src@.take(i as int), v as u8),
        decreases src@.len() - i,
    {
        let byte: u8 = src[i];
        let slot: usize = byte as usize;
        proof {
            let seen = src@.take(i as int);
            assert(src@.take(i + 1) =~= seen.push(byte));
            lemma_occurrences_bounded(src@.take(i + 1), byte);
            assert forall|v: int| 0 <= v < BINS implies #[trigger] occurrences(
                src@.take(i + 1),
                v as u8,
            ) == occurrences(seen, v as u8) + if v == slot { 1nat } else { 0nat } by {
                lemma_occurrences_push(seen, byte, v as u8);
            }
        }
        let count: u16 = bins[slot];
        bins[slot] = count + 1;
        i = i + 1;
    }
    assert(src@.take(i as int) =~= src@);
    bins
}

/// Counts the occurrences of each byte value in `src`, unless `src` is too
/// long for the bins: a buffer of `SAMPLE_LIMIT` bytes or more is rejected.
pub fn checked_histogram(src: &[u8]) -> (counted: Option<[u16; 256]>)
    ensures
        counted is None <==> src@.len() >= SAMPLE_LIMIT,
        counted matches Some(bins) ==> forall|v: int|
            0 <= v < BINS ==> #[trigger] bins@[v] == histogram(src@)[v],
{
    if src.len() < SAMPLE_LIMIT {
        Some(byte_histogram(src))
    } else {
        None
    }
}

} // verus!
