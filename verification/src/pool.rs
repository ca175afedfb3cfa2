//! A pool of sector buffers that is filled once and never grows.

use vstd::prelude::*;
use crate::sector::Sector;

verus! {

/// A fixed stock of empty sectors of one capacity.
///
/// Every sector that exists was made when the pool was. A sector is either
/// idle in the pool or out with whoever took it, so the number of sectors in
/// use never exceeds the size of the pool, however much data passes through.
pub struct SectorPool {
    idle: Vec<Sector>,
    size: usize,
    sector_size: usize,
}

impl SectorPool {
    /// The pool holds no more sectors than it was made with, all of them
    /// empty and of the pool's sector size.
    pub closed spec fn wf(&self) -> bool {
        &&& self.idle@.len() <= self.size
        &&& forall|i: int|
            0 <= i < self.idle@.len() ==> (#[trigger] self.idle@[i])@.len() == 0
                && self.idle@[i].capacity() == self.sector_size
    }

    /// The number of sectors that the pool was made with.
    pub closed spec fn spec_size(&self) -> usize {
        self.size
    }

    /// The capacity of each sector of the pool.
    pub closed spec fn spec_sector_size(&self) -> usize {
        self.sector_size
    }

    /// The number of sectors that are in the pool right now.
    pub closed spec fn spec_idle(&self) -> usize {
        self.idle.len()
    }

    /// The number of sectors that were taken and have not come back.
    pub open spec fn spec_live(&self) -> int {
        self.size() - self.idle()
    }

    /// In a well-formed pool the sectors in use are at most as many as the
    /// pool was made with.
    pub proof fn lemma_live_bounded(&self)
        requires
            self.wf(),
        ensures
            0 <= self.spec_live() <= self.size(),
    {
    }

    /// A pool of `size` empty sectors of `sector_size` bytes each.
    pub fn new(size: usize, sector_size: usize) -> (pool: SectorPool)
        ensures
            pool.wf(),
            pool.size() == size,
            pool.sector_size() == sector_size,
            pool.idle() == size,
    {
        let mut idle: Vec<Sector> = Vec::new();
        let mut made: usize = 0;
        while made < size
            invariant
                made <= size,
                idle@.len() == made,
                forall|i: int|
                    0 <= i < idle@.len() ==> (#[trigger] idle@[i])@.len() == 0
                        && idle@[i].capacity() == sector_size,
            decreases size - made,
        {
            idle.push(Sector::with_capacity(sector_size));
            made = made + 1;
        }
        SectorPool { idle, size, sector_size }
    }

    /// The number of sectors that the pool was made with.
    #[verifier::when_used_as_spec(spec_size)]
    pub fn size(&self) -> (size: usize)
        ensures
            size == self.size(),
    {
        self.size
    }

    /// The capacity of each sector of the pool.
    #[verifier::when_used_as_spec(spec_sector_size)]
    pub fn sector_size(&self) -> (sector_size: usize)
        ensures
            sector_size == self.sector_size(),
    {
        self.sector_size
    }

    /// The number of sectors that are in the pool right now.
    #[verifier::when_used_as_spec(spec_idle)]
    pub fn idle(&self) -> (idle: usize)
        ensures
            idle == self.idle(),
    {
        self.idle.len()
    }

    /// The number of sectors that were taken and have not come back. It never
    /// exceeds the size of the pool.
    pub fn live(&self) -> (live: usize)
        requires
            self.wf(),
        ensures
            live == self.spec_live(),
            live <= self.size(),
    {
        self.size - self.idle.len()
    }

    /// Takes an empty sector out of the pool, if one is idle. The pool makes
    /// no new sector when it has none: the caller has to wait for one to come
    /// back.
    pub fn take(&mut self) -> (taken: Option<Sector>)
        requires
            old(self).wf(),
        ensures
            final(self).wf(),
            final(self).size() == old(self).size(),
            final(self).sector_size() == old(self).sector_size(),
            old(self).idle() == 0 ==> taken is None && final(self).idle() == 0,
            old(self).idle() > 0 ==> final(self).idle() == old(self).idle() - 1,
            old(self).idle() > 0 ==> (taken matches Some(sector) && sector@ == Seq::<u8>::empty()
                && sector.capacity() == old(self).sector_size()),
    {
        let taken = self.idle.pop();
        proof {
            if taken is Some {
                let sector = taken->0;
                assert(sector == old(self).idle@[old(self).idle@.len() - 1]);
                assert(sector@ =~= Seq::<u8>::empty());
            }
        }
        taken
    }

    /// Puts a sector back, emptied. A sector of another capacity, or one more
    /// sector than the pool was made with, is not accepted and is dropped.
    pub fn recycle(&mut self, sector: Sector) -> (accepted: bool)
        requires
            old(self).wf(),
        ensures
            final(self).wf(),
            final(self).size() == old(self).size(),
            final(self).sector_size() == old(self).sector_size(),
            accepted == (old(self).idle() < old(self).size() && sector.capacity() == old(
                self,
            ).sector_size()),
            final(self).idle() == old(self).idle() + if accepted {
                1int
            } else {
                0int
            },
    {
        if self.idle.len() < self.size && sector.capacity() == self.sector_size {
            let mut sector = sector;
            sector.clear();
            self.idle.push(sector);
            true
        } else {
            false
        }
    }
}

} // verus!
