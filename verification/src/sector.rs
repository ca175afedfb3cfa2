//! Sector buffers: a fixed capacity, of which only a prefix is valid.

use vstd::prelude::*;
use vstd::slice::slice_subrange;

verus! {

/// An owned byte buffer of fixed capacity with a valid length.
///
/// The storage is allocated once. Filling and clearing a sector change its
/// valid length and its bytes, never its capacity. The view is the valid
/// prefix: bytes behind it are never read.
pub struct Sector {
    data: Vec<u8>,
    len: usize,
}

impl View for Sector {
    type V = Seq<u8>;

    closed spec fn view(&self) -> Seq<u8> {
        self.data@.take(self.len as int)
    }
}

impl Sector {
    #[verifier::type_invariant]
    spec fn within_capacity(self) -> bool {
        self.len <= self.data@.len()
    }

    /// The number of bytes the sector can hold.
    pub closed spec fn spec_capacity(&self) -> usize {
        self.data.len()
    }

    /// An empty sector that can hold `capacity` bytes.
    pub fn with_capacity(capacity: usize) -> (sector: Sector)
        ensures
            sector@ == Seq::<u8>::empty(),
            sector.capacity() == capacity,
    {
        let sector = Sector { data: vec![0u8; capacity], len: 0 };
        assert(sector@ =~= Seq::<u8>::empty());
        sector
    }

    /// The number of bytes the sector can hold.
    #[verifier::when_used_as_spec(spec_capacity)]
    pub fn capacity(&self) -> (capacity: usize)
        ensures
            capacity == self.capacity(),
    {
        self.data.len()
    }

    /// The number of valid bytes, never more than the capacity.
    pub fn len(&self) -> (len: usize)
        ensures
            len == self@.len(),
            len <= self.capacity(),
    {
        proof {
            use_type_invariant(self);
        }
        self.len
    }

    /// Whether the sector holds no valid byte. An empty sector that a source
    /// hands out marks the end of its input.
    pub fn is_empty(&self) -> (empty: bool)
        ensures
            empty == (self@.len() == 0),
    {
        proof {
            use_type_invariant(self);
        }
        self.len == 0
    }

    /// Whether the valid bytes take up the whole capacity.
    pub fn is_full(&self) -> (full: bool)
        ensures
            full == (self@.len() == self.capacity()),
    {
        proof {
            use_type_invariant(self);
        }
        self.len == self.data.len()
    }

    /// The valid bytes.
    pub fn as_slice(&self) -> (bytes: &[u8])
        ensures
            bytes@ == self@,
    {
        proof {
            use_type_invariant(self);
        }
        slice_subrange(self.data.as_slice(), 0, self.len)
    }

    /// Resets the valid length to zero and keeps the storage.
    pub fn clear(&mut self)
        ensures
            final(self)@ == Seq::<u8>::empty(),
            final(self).capacity() == old(self).capacity(),
    {
        self.len = 0;
        assert(self@ =~= Seq::<u8>::empty());
    }

    /// Overwrites the sector with the bytes of `src` from `start` on, as many
    /// as the sector can hold, and returns how many were taken.
    pub fn fill(&mut self, src: &[u8], start: usize) -> (taken: usize)
        requires
            start <= src@.len(),
        ensures
            taken == spec_piece(old(self).capacity() as nat, (src@.len() - start) as nat),
            final(self)@ == src@.subrange(start as int, start + taken),
            final(self).capacity() == old(self).capacity(),
    {
        let room: usize = self.data.len();
        let left: usize = src.len() - start;
        let taken: usize = if left < room {
            left
        } else {
            room
        };
        self.len = 0;
        let mut i: usize = 0;
        while i < taken
            invariant
                i <= taken <= self.data@.len(),
                self.data@.len() == old(self).data@.len(),
                self.len == 0,
                start + taken <= src@.len() <= usize::MAX,
                self.data@.take(i as int) == src@.subrange(start as int, start + i),
            decreases taken - i,
        {
            self.data[i] = src[start + i];
            i = i + 1;
            assert(self.data@.take(i as int) =~= src@.subrange(start as int, start + i));
        }
        self.len = taken;
        taken
    }
}

/// The length of the next sector cut from `left` remaining bytes: a full
/// sector of `capacity` bytes if that many are left, otherwise all of them.
pub open spec fn spec_piece(capacity: nat, left: nat) -> nat {
    if left < capacity {
        left
    } else {
        capacity
    }
}

} // verus!
