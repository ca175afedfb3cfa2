//! The lockstep walk over two sector streams that looks for the sector at
//! which their classifications part.

use vstd::prelude::*;

verus! {

/// One of the two inputs of a comparison. `A` is pulled first.
#[derive(Clone, Copy, Debug, PartialEq, Eq, Structural)]
pub enum Side {
    /// The input that is pulled first, the left side.
    A,
    /// The input that is pulled second, the right side.
    B,
}

/// What one side delivered for a step of the comparison.
#[derive(Clone, Copy, Debug, PartialEq, Eq, Structural)]
pub enum Pull {
    /// A sector of `len` valid bytes. An empty sector says that the input has
    /// ended. `plaintext_like` tells whether the entropy density of the
    /// sector lies under the threshold.
    Sector { len: usize, plaintext_like: bool },
    /// The side reported that reading failed.
    Failed,
}

impl Pull {
    /// The side delivered the empty sector that closes its stream.
    pub open spec fn ends_input(self) -> bool {
        self matches Pull::Sector { len, .. } && len == 0
    }
}

/// Why a comparison could not be carried through.
#[derive(Clone, Copy, Debug, PartialEq, Eq, Structural)]
pub enum Fault {
    /// This side failed to read. If both did, `A` is named.
    ReadFailed(Side),
    /// The two sectors of a step differ in length.
    LengthMismatch,
}

/// How a comparison ends.
#[derive(Clone, Copy, Debug, PartialEq, Eq, Structural)]
pub enum Outcome {
    /// No sector looked like plaintext before the inputs ended.
    FullyEncrypted,
    /// At this byte offset both sides look like plaintext.
    BothUnencrypted(usize),
    /// At this byte offset exactly one side looks like plaintext: the best
    /// guess for where the encryption stopped.
    BestGuess(usize),
    /// The comparison broke off.
    Fatal(Fault),
}

/// What the pair `a`, `b` pulled at byte `offset` decides: the outcome if the
/// comparison ends here, and `None` if it goes on with the next pair.
///
/// A failed read ends it, then the common end of both inputs, then unequal
/// lengths. After that the classifications decide, and where neither side
/// looks like plaintext a sector shorter than `sector_size` ends the
/// comparison as the end of the inputs does.
pub open spec fn verdict(offset: usize, sector_size: usize, a: Pull, b: Pull) -> Option<Outcome> {
    match (a, b) {
        (Pull::Failed, _) => Some(Outcome::Fatal(Fault::ReadFailed(Side::A))),
        (_, Pull::Failed) => Some(Outcome::Fatal(Fault::ReadFailed(Side::B))),
        (
            Pull::Sector { len: len_a, plaintext_like: plain_a },
            Pull::Sector { len: len_b, plaintext_like: plain_b },
        ) => {
            if len_a == 0 && len_b == 0 {
                Some(Outcome::FullyEncrypted)
            } else if len_a != len_b {
                Some(Outcome::Fatal(Fault::LengthMismatch))
            } else if plain_a && plain_b {
                Some(Outcome::BothUnencrypted(offset))
            } else if plain_a || plain_b {
                Some(Outcome::BestGuess(offset))
            } else if len_a < sector_size {
                Some(Outcome::FullyEncrypted)
            } else {
                None
            }
        },
    }
}

/// The outcome of a comparison that stands at byte `offset` and pulls
/// `pairs` one after the other, or `None` if it is still under way after the
/// last of them.
pub open spec fn outcome_of(offset: int, sector_size: usize, pairs: Seq<(Pull, Pull)>) -> Option<
    Outcome,
>
    decreases pairs.len(),
{
    if pairs.len() == 0 {
        None
    } else {
        match verdict(offset as usize, sector_size, pairs[0].0, pairs[0].1) {
            Some(outcome) => Some(outcome),
            None => outcome_of(offset + sector_size, sector_size, pairs.drop_first()),
        }
    }
}

/// A pair of full sectors of which neither looks like plaintext.
pub open spec fn ciphertext_pair(sector_size: usize) -> (Pull, Pull) {
    (
        Pull::Sector { len: sector_size, plaintext_like: false },
        Pull::Sector { len: sector_size, plaintext_like: false },
    )
}

/// The first `k` pairs of `pairs` are pairs of full sectors that do not look
/// like plaintext.
pub open spec fn ciphertext_before(pairs: Seq<(Pull, Pull)>, k: nat, sector_size: usize) -> bool {
    &&& k <= pairs.len()
    &&& forall|i: int| 0 <= i < k ==> #[trigger] pairs[i] == ciphertext_pair(sector_size)
}

/// A comparison walks over full sectors that do not look like plaintext: after
/// `k` such pairs it stands `k` sectors further on, with the rest of the
/// pairs before it.
pub proof fn lemma_walks_over_ciphertext(
    offset: int,
    sector_size: usize,
    pairs: Seq<(Pull, Pull)>,
    k: nat,
)
    requires
        sector_size > 0,
        ciphertext_before(pairs, k, sector_size),
    ensures
        outcome_of(offset, sector_size, pairs) == outcome_of(
            offset + k * sector_size,
            sector_size,
            pairs.skip(k as int),
        ),
    decreases k,
{
    if k == 0 {
        assert(pairs.skip(0) =~= pairs);
        assert(0 * sector_size == 0) by (nonlinear_arith);
    } else {
        let rest = pairs.drop_first();
        assert(pairs[0] == ciphertext_pair(sector_size));
        assert forall|i: int| 0 <= i < k - 1 implies #[trigger] rest[i] == ciphertext_pair(
            sector_size,
        ) by {
            assert(rest[i] == pairs[i + 1]);
        }
        lemma_walks_over_ciphertext(offset + sector_size, sector_size, rest, (k - 1) as nat);
        assert(rest.skip(k - 1) =~= pairs.skip(k as int));
        assert(offset + sector_size + (k - 1) * sector_size == offset + k * sector_size)
            by (nonlinear_arith);
    }
}

/// Where the first `k` pairs are full sectors that do not look like
/// plaintext and the pair after them decides, the comparison ends with what
/// that pair decides at the offset of `k` sectors.
pub proof fn lemma_decided_at(sector_size: usize, pairs: Seq<(Pull, Pull)>, k: nat)
    requires
        sector_size > 0,
        k < pairs.len(),
        k * sector_size <= usize::MAX,
        ciphertext_before(pairs, k, sector_size),
        verdict((k * sector_size) as usize, sector_size, pairs[k as int].0, pairs[k as int].1)
            is Some,
    ensures
        outcome_of(0, sector_size, pairs) == verdict(
            (k * sector_size) as usize,
            sector_size,
            pairs[k as int].0,
            pairs[k as int].1,
        ),
{
    lemma_walks_over_ciphertext(0, sector_size, pairs, k);
    assert(pairs.skip(k as int)[0] == pairs[k as int]);
}

/// Two inputs of `n` full sectors each, none of which looks like plaintext,
/// are found fully encrypted when both end.
pub proof fn lemma_ciphertext_throughout(sector_size: usize, pairs: Seq<(Pull, Pull)>, n: nat)
    requires
        sector_size > 0,
        pairs.len() == n + 1,
        ciphertext_before(pairs, n, sector_size),
        pairs[n as int].0.ends_input(),
        pairs[n as int].1.ends_input(),
    ensures
        outcome_of(0, sector_size, pairs) == Some(Outcome::FullyEncrypted),
{
    lemma_walks_over_ciphertext(0, sector_size, pairs, n);
    assert(pairs.skip(n as int)[0] == pairs[n as int]);
}

/// Where exactly one side starts to look like plaintext at sector `k`, after
/// `k` pairs of full sectors that do not, the best guess is the offset of
/// sector `k`.
pub proof fn lemma_one_side_turns_plain(
    sector_size: usize,
    pairs: Seq<(Pull, Pull)>,
    k: nat,
    len: usize,
    plain_a: bool,
    plain_b: bool,
)
    requires
        sector_size > 0,
        k < pairs.len(),
        k * sector_size <= usize::MAX,
        ciphertext_before(pairs, k, sector_size),
        len > 0,
        plain_a != plain_b,
        pairs[k as int] == (
            Pull::Sector { len, plaintext_like: plain_a },
            Pull::Sector { len, plaintext_like: plain_b },
        ),
    ensures
        outcome_of(0, sector_size, pairs) == Some(
            Outcome::BestGuess((k * sector_size) as usize),
        ),
{
    lemma_decided_at(sector_size, pairs, k);
}

/// Where both sides start to look like plaintext at sector `k`, after `k`
/// pairs of full sectors that do not, the comparison reports the offset of
/// sector `k` as the place where both are unencrypted.
pub proof fn lemma_both_sides_turn_plain(
    sector_size: usize,
    pairs: Seq<(Pull, Pull)>,
    k: nat,
    len: usize,
)
    requires
        sector_size > 0,
        k < pairs.len(),
        k * sector_size <= usize::MAX,
        ciphertext_before(pairs, k, sector_size),
        len > 0,
        pairs[k as int] == (
            Pull::Sector { len, plaintext_like: true },
            Pull::Sector { len, plaintext_like: true },
        ),
    ensures
        outcome_of(0, sector_size, pairs) == Some(
            Outcome::BothUnencrypted((k * sector_size) as usize),
        ),
{
    lemma_decided_at(sector_size, pairs, k);
}

/// Where the two sectors of pair `k` differ in length, after `k` pairs of
/// full sectors that do not look like plaintext, the comparison breaks off:
/// it does not go on, whatever the sectors look like.
pub proof fn lemma_lengths_part(
    sector_size: usize,
    pairs: Seq<(Pull, Pull)>,
    k: nat,
    len_a: usize,
    len_b: usize,
    plain_a: bool,
    plain_b: bool,
)
    requires
        sector_size > 0,
        k < pairs.len(),
        k * sector_size <= usize::MAX,
        ciphertext_before(pairs, k, sector_size),
        len_a != len_b,
        pairs[k as int] == (
            Pull::Sector { len: len_a, plaintext_like: plain_a },
            Pull::Sector { len: len_b, plaintext_like: plain_b },
        ),
    ensures
        outcome_of(0, sector_size, pairs) == Some(Outcome::Fatal(Fault::LengthMismatch)),
{
    lemma_decided_at(sector_size, pairs, k);
}

/// A comparison under way: it stands at a byte offset and walks on in steps
/// of one sector.
pub struct SlideComparator {
    offset: usize,
    sector_size: usize,
}

impl SlideComparator {
    /// The byte offset of the pair that is compared next.
    pub closed spec fn spec_offset(&self) -> usize {
        self.offset
    }

    /// The length of a full sector.
    pub closed spec fn spec_sector_size(&self) -> usize {
        self.sector_size
    }

    /// A comparison at offset 0 of two streams of sectors of `sector_size`
    /// bytes.
    pub fn new(sector_size: usize) -> (comparator: SlideComparator)
        ensures
            comparator.offset() == 0,
            comparator.sector_size() == sector_size,
    {
        SlideComparator { offset: 0, sector_size }
    }

    /// The byte offset of the pair that is compared next.
    #[verifier::when_used_as_spec(spec_offset)]
    pub fn offset(&self) -> (offset: usize)
        ensures
            offset == self.offset(),
    {
        self.offset
    }

    /// The length of a full sector.
    #[verifier::when_used_as_spec(spec_sector_size)]
    pub fn sector_size(&self) -> (sector_size: usize)
        ensures
            sector_size == self.sector_size(),
    {
        self.sector_size
    }

    /// Compares the pair pulled at the current offset. Returns the outcome if
    /// the comparison ends here. Otherwise both sectors can be recycled, and
    /// the comparison stands one sector further on.
    pub fn step(&mut self, a: Pull, b: Pull) -> (decided: Option<Outcome>)
        requires
            old(self).offset() + old(self).sector_size() <= usize::MAX,
        ensures
            decided == verdict(old(self).offset(), old(self).sector_size(), a, b),
            final(self).sector_size() == old(self).sector_size(),
            final(self).offset() == if decided is None {
                old(self).offset() + old(self).sector_size()
            } else {
                old(self).offset() as int
            },
    {
        match (a, b) {
            (Pull::Failed, _) => Some(Outcome::Fatal(Fault::ReadFailed(Side::A))),
            (_, Pull::Failed) => Some(Outcome::Fatal(Fault::ReadFailed(Side::B))),
            (
                Pull::Sector { len: len_a, plaintext_like: plain_a },
                Pull::Sector { len: len_b, plaintext_like: plain_b },
            ) => {
                if len_a == 0 && len_b == 0 {
                    Some(Outcome::FullyEncrypted)
                } else if len_a != len_b {
                    Some(Outcome::Fatal(Fault::LengthMismatch))
                } else if plain_a && plain_b {
                    Some(Outcome::BothUnencrypted(self.offset))
                } else if plain_a || plain_b {
                    Some(Outcome::BestGuess(self.offset))
                } else if len_a < self.sector_size {
                    Some(Outcome::FullyEncrypted)
                } else {
                    self.offset = self.offset + self.sector_size;
                    None
                }
            },
        }
    }
}

impl Outcome {
    /// The status that a program reports for this outcome: 0 when the
    /// comparison was carried through, whatever it found, and 1 when it broke
    /// off.
    pub fn status(&self) -> (status: i32)
        ensures
            status == if *self is Fatal {
                1i32
            } else {
                0i32
            },
    {
        match self {
            Outcome::Fatal(_) => 1,
            _ => 0,
        }
    }
}

} // verus!
