//! Sector sources: an input read in batches and handed out sector by sector.

use vstd::prelude::*;
use vstd::arithmetic::div_mod::{
    lemma_fundamental_div_mod,
    lemma_fundamental_div_mod_converse,
    lemma_mod_add_multiples_vanish,
};
use vstd::slice::slice_subrange;
use crate::config::{BUFFERED_SECTORS, READ_BUF_SIZE, SECTOR_SIZE};
use crate::pool::SectorPool;
use crate::reader::greedy_gather;
use crate::sector::{spec_piece, Sector};

verus! {

/// Where a source stands between its input and its consumer.
#[derive(Clone, Copy, Debug, PartialEq, Eq, Structural)]
pub enum Production {
    /// The next batch has to be read from the input.
    Reading,
    /// A batch of `filled` bytes was read, and its first `pos` bytes have been
    /// handed out. `failed` tells that a failure ended the read of the batch.
    Slicing { filled: usize, pos: usize, failed: bool },
    /// The input is exhausted. The empty sector that says so is still owed.
    Closing,
    /// Reading the input failed, and what was read before the failure has
    /// been handed out. The failure is still owed.
    Failing,
    /// Nothing more will be produced.
    Stopped,
}

/// A sector that starts on a sector boundary and is cut short ends off the
/// boundaries.
pub proof fn lemma_short_piece_ends_off_boundary(pos: nat, end: nat, sector_size: nat)
    requires
        sector_size > 0,
        pos % sector_size == 0,
        pos < end < pos + sector_size,
    ensures
        end % sector_size != 0,
{
    let d = sector_size as int;
    let q = pos as int / d;
    let r = end - pos;
    lemma_fundamental_div_mod(pos as int, d);
    assert(d * q == q * d) by (nonlinear_arith);
    lemma_fundamental_div_mod_converse(end as int, d, q, r);
}

impl Production {
    /// A batch that is being cut has bytes left, never held more than
    /// `batch_size` bytes, and has been cut at sector boundaries so far.
    pub open spec fn wf(self, sector_size: usize, batch_size: usize) -> bool {
        self matches Production::Slicing { filled, pos, failed } ==> {
            &&& pos < filled <= batch_size
            &&& pos % sector_size == 0
        }
    }

    /// The state that follows a batch read that gathered `n` bytes, and that
    /// a failure ended if `failed` is set. The bytes are handed out first.
    /// A read that ended on no bytes says that the input is exhausted, and
    /// on a failure, that the failure is owed.
    pub open spec fn spec_loaded(n: usize, failed: bool) -> Production {
        if n > 0 {
            Production::Slicing { filled: n, pos: 0, failed }
        } else if failed {
            Production::Failing
        } else {
            Production::Closing
        }
    }

    /// Where in the batch the next sector starts.
    pub open spec fn spec_start(self) -> usize {
        match self {
            Production::Slicing { filled, pos, failed } => pos,
            _ => 0,
        }
    }

    /// The bytes of the batch that have not been handed out.
    pub open spec fn spec_left(self) -> nat {
        match self {
            Production::Slicing { filled, pos, failed } => if pos < filled {
                (filled - pos) as nat
            } else {
                0
            },
            _ => 0,
        }
    }

    /// The length of the next sector: as much of the batch as is left and
    /// fits, and nothing once the input is exhausted.
    pub open spec fn spec_piece_len(self, sector_size: usize) -> nat {
        spec_piece(sector_size as nat, self.spec_left())
    }

    /// The state that follows the handing out of the next sector. After the
    /// last sector of a batch the source owes the failure that ended the
    /// batch, if one did. Otherwise it reads on if the batch was full, and
    /// takes a short batch for the end of its input. The empty sector that
    /// closes the stream, or the failure, is the last thing produced.
    pub open spec fn spec_advanced(self, sector_size: usize, batch_size: usize) -> Production {
        match self {
            Production::Reading => Production::Reading,
            Production::Slicing { filled, pos, failed } => {
                let next = pos + self.spec_piece_len(sector_size);
                if next < filled {
                    Production::Slicing { filled, pos: next as usize, failed }
                } else if failed {
                    Production::Failing
                } else if filled < batch_size {
                    Production::Closing
                } else {
                    Production::Reading
                }
            },
            Production::Closing => Production::Stopped,
            Production::Failing => Production::Stopped,
            Production::Stopped => Production::Stopped,
        }
    }

    /// Handing out a sector keeps the state well-formed: a sector that is
    /// followed by another one in its batch is a full one, so the next one
    /// starts on a boundary again.
    pub proof fn lemma_advanced_wf(self, sector_size: usize, batch_size: usize)
        requires
            sector_size > 0,
            self.wf(sector_size, batch_size),
        ensures
            self.advanced(sector_size, batch_size).wf(sector_size, batch_size),
    {
        if let Production::Slicing { filled, pos, failed } = self {
            lemma_mod_add_multiples_vanish(pos as int, sector_size as int);
        }
    }

    /// A sector that is cut short is the last one of its batch and of the
    /// stream: a batch of whole sectors has no room for it unless the batch
    /// itself is short. What follows is the end of the input, or the failure
    /// that ended the batch.
    pub proof fn lemma_short_sector_is_last(self, sector_size: usize, batch_size: usize)
        requires
            sector_size > 0,
            batch_size % sector_size == 0,
            self.wf(sector_size, batch_size),
            0 < self.spec_piece_len(sector_size) < sector_size,
        ensures
            self.advanced(sector_size, batch_size) == Production::Closing || self.advanced(
                sector_size,
                batch_size,
            ) == Production::Failing,
    {
        if let Production::Slicing { filled, pos, failed } = self {
            lemma_short_piece_ends_off_boundary(pos as nat, filled as nat, sector_size as nat);
        }
    }

    /// A failure is not lost and is not passed off as the end of the input:
    /// while the batch that it ended is cut the failure stays owed, after the
    /// last sector of that batch it is what the source produces next, and
    /// only its handing over stops the source.
    pub proof fn lemma_failure_stays_owed(self, sector_size: usize, batch_size: usize)
        requires
            owes_failure(self),
        ensures
            self == Production::Failing ==> self.advanced(sector_size, batch_size)
                == Production::Stopped,
            self != Production::Failing ==> owes_failure(self.advanced(sector_size, batch_size)),
            self.advanced(sector_size, batch_size) != Production::Closing,
            self.advanced(sector_size, batch_size) != Production::Reading,
    {
    }

    /// The state that follows a batch read that gathered `n` bytes, and that
    /// a failure ended if `failed` is set.
    #[verifier::when_used_as_spec(spec_loaded)]
    pub fn loaded(n: usize, failed: bool) -> (state: Production)
        ensures
            state == Production::loaded(n, failed),
    {
        if n > 0 {
            Production::Slicing { filled: n, pos: 0, failed }
        } else if failed {
            Production::Failing
        } else {
            Production::Closing
        }
    }

    /// Where in the batch the next sector starts.
    #[verifier::when_used_as_spec(spec_start)]
    pub fn start(self) -> (start: usize)
        ensures
            start == self.start(),
    {
        match self {
            Production::Slicing { filled, pos, failed } => pos,
            _ => 0,
        }
    }

    /// The length of the next sector.
    pub fn piece_len(self, sector_size: usize) -> (len: usize)
        ensures
            len == self.spec_piece_len(sector_size),
    {
        match self {
            Production::Slicing { filled, pos, failed } => {
                let left: usize = if pos < filled {
                    filled - pos
                } else {
                    0
                };
                if left < sector_size {
                    left
                } else {
                    sector_size
                }
            },
            _ => 0,
        }
    }

    /// The state that follows the handing out of the next sector.
    #[verifier::when_used_as_spec(spec_advanced)]
    pub fn advanced(self, sector_size: usize, batch_size: usize) -> (state: Production)
        ensures
            state == self.advanced(sector_size, batch_size),
            self.wf(sector_size, batch_size) && sector_size > 0 ==> state.wf(
                sector_size,
                batch_size,
            ),
    {
        proof {
            if self.wf(sector_size, batch_size) && sector_size > 0 {
                self.lemma_advanced_wf(sector_size, batch_size);
            }
        }
        match self {
            Production::Reading => Production::Reading,
            Production::Slicing { filled, pos, failed } => {
                let piece: usize = self.piece_len(sector_size);
                if piece < filled && pos < filled - piece {
                    Production::Slicing { filled, pos: pos + piece, failed }
                } else if failed {
                    Production::Failing
                } else if filled < batch_size {
                    Production::Closing
                } else {
                    Production::Reading
                }
            },
            Production::Closing => Production::Stopped,
            Production::Failing => Production::Stopped,
            Production::Stopped => Production::Stopped,
        }
    }
}

/// What a call of `SectorSource::next` hands to the consumer.
pub enum Emission {
    /// A sector. One that holds bytes carries the next bytes of the input; an
    /// empty one says that the input has ended.
    Sector(Sector),
    /// Reading the input failed. Every byte that was read before the failure
    /// has been handed out, no empty sector was, and nothing follows.
    Failed(std::io::Error),
    /// Every sector of the pool is with the consumer. One has to be recycled
    /// before the source can go on.
    Starved,
    /// Production has stopped.
    Closed,
}

/// An input that is read in large batches and handed to a consumer in
/// sectors, through a fixed stock of buffers that the consumer gives back.
pub struct SectorSource<R> {
    input: R,
    batch: Vec<u8>,
    state: Production,
    owed: Option<std::io::Error>,
    pool: SectorPool,
}

impl<R> SectorSource<R> {
    /// Sectors hold at least one byte, a batch is a whole number of sectors,
    /// the state fits the batch, a failure is kept exactly while it is owed,
    /// and the pool is in order.
    pub open spec fn wf(&self) -> bool {
        &&& self.sector_size() > 0
        &&& self.batch_size() > 0
        &&& self.batch_size() % self.sector_size() == 0
        &&& self.batch().len() == self.batch_size()
        &&& self.state().wf(self.sector_size(), self.batch_size())
        &&& self.owed() is Some <==> owes_failure(self.state())
        &&& self.idle() <= self.pool_size()
        &&& self.stocked()
    }

    /// The sectors in the pool are empty and of the sector size.
    pub closed spec fn stocked(&self) -> bool {
        self.pool.wf()
    }

    /// Where the source stands.
    pub closed spec fn spec_state(&self) -> Production {
        self.state
    }

    /// The bytes of the batch buffer.
    pub closed spec fn batch(&self) -> Seq<u8> {
        self.batch@
    }

    /// The failure that ended the last batch read and that the consumer has
    /// not been given yet.
    pub closed spec fn owed(&self) -> Option<std::io::Error> {
        self.owed
    }

    /// The capacity of the sectors that the source hands out.
    pub closed spec fn spec_sector_size(&self) -> usize {
        self.pool.sector_size()
    }

    /// The number of bytes that one batch read asks for.
    pub closed spec fn spec_batch_size(&self) -> usize {
        self.batch.len()
    }

    /// The number of sectors that the source was made with.
    pub closed spec fn spec_pool_size(&self) -> usize {
        self.pool.size()
    }

    /// The number of sectors that are ready to be filled.
    pub closed spec fn spec_idle(&self) -> usize {
        self.pool.idle()
    }

    /// The number of sectors that are with the consumer.
    pub open spec fn spec_live(&self) -> int {
        self.pool_size() - self.idle()
    }

    /// The two sources have the same sector size, batch size and pool size.
    pub open spec fn same_setup(&self, other: &Self) -> bool {
        &&& self.sector_size() == other.sector_size()
        &&& self.batch_size() == other.batch_size()
        &&& self.pool_size() == other.pool_size()
    }

    /// The source has produced what `state` owes next, or could not for want
    /// of a buffer: `idle` sectors were ready, `owed` was the failure kept,
    /// `out` is what the consumer got, and `self` is the source afterwards.
    ///
    /// A failure that is owed is handed over as it is, needs no buffer, and
    /// stops the source. Otherwise the next sector leaves the pool with the
    /// next bytes of the batch, or with none at the end of the input.
    pub open spec fn handed_out(
        &self,
        state: Production,
        idle: usize,
        owed: Option<std::io::Error>,
        out: Emission,
    ) -> bool {
        if state == Production::Failing {
            &&& out matches Emission::Failed(failure)
            &&& owed == Some(failure)
            &&& self.state() == Production::Stopped
            &&& self.owed() is None
            &&& self.idle() == idle
        } else if idle == 0 {
            &&& out is Starved
            &&& self.state() == state
            &&& self.owed() == owed
            &&& self.idle() == 0
        } else {
            &&& out matches Emission::Sector(sector)
            &&& sector.capacity() == self.sector_size()
            &&& sector@.len() == state.spec_piece_len(self.sector_size())
            &&& sector@ == self.batch().subrange(
                state.start() as int,
                state.start() + state.spec_piece_len(self.sector_size()),
            )
            &&& self.state() == state.advanced(self.sector_size(), self.batch_size())
            &&& self.owed() == owed
            &&& self.idle() == idle - 1
        }
    }

    /// The sectors with the consumer are never more than the pool was made
    /// with.
    pub proof fn lemma_live_bounded(&self)
        requires
            self.wf(),
        ensures
            0 <= self.spec_live() <= self.pool_size(),
    {
        self.pool.lemma_live_bounded();
    }

    /// A source over `input` that cuts sectors of `sector_size` bytes from
    /// batches of `batch_size` bytes, with `pool_size` buffers to hand out.
    /// Nothing is read yet.
    pub fn new(input: R, sector_size: usize, batch_size: usize, pool_size: usize) -> (source: Self)
        requires
            sector_size > 0,
            batch_size > 0,
            batch_size % sector_size == 0,
        ensures
            source.wf(),
            source.state() == Production::Reading,
            source.sector_size() == sector_size,
            source.batch_size() == batch_size,
            source.pool_size() == pool_size,
            source.idle() == pool_size,
    {
        SectorSource {
            input,
            batch: vec![0u8; batch_size],
            state: Production::Reading,
            owed: None,
            pool: SectorPool::new(pool_size, sector_size),
        }
    }

    /// A source over `input` with the default sizes: sectors of
    /// `SECTOR_SIZE` bytes, batches of `READ_BUF_SIZE` bytes and a pool of
    /// `BUFFERED_SECTORS` buffers.
    pub fn standard(input: R) -> (source: Self)
        ensures
            source.wf(),
            source.state() == Production::Reading,
            source.sector_size() == SECTOR_SIZE,
            source.batch_size() == READ_BUF_SIZE,
            source.pool_size() == BUFFERED_SECTORS,
            source.idle() == BUFFERED_SECTORS,
    {
        Self::new(input, SECTOR_SIZE, READ_BUF_SIZE, BUFFERED_SECTORS)
    }

    /// Where the source stands.
    #[verifier::when_used_as_spec(spec_state)]
    pub fn state(&self) -> (state: Production)
        ensures
            state == self.state(),
    {
        self.state
    }

    /// The capacity of the sectors that the source hands out.
    #[verifier::when_used_as_spec(spec_sector_size)]
    pub fn sector_size(&self) -> (sector_size: usize)
        ensures
            sector_size == self.sector_size(),
    {
        self.pool.sector_size()
    }

    /// The number of bytes that one batch read asks for.
    #[verifier::when_used_as_spec(spec_batch_size)]
    pub fn batch_size(&self) -> (batch_size: usize)
        ensures
            batch_size == self.batch_size(),
    {
        self.batch.len()
    }

    /// The number of sectors that the source was made with.
    #[verifier::when_used_as_spec(spec_pool_size)]
    pub fn pool_size(&self) -> (pool_size: usize)
        ensures
            pool_size == self.pool_size(),
    {
        self.pool.size()
    }

    /// The number of sectors that are ready to be filled.
    #[verifier::when_used_as_spec(spec_idle)]
    pub fn idle(&self) -> (idle: usize)
        ensures
            idle == self.idle(),
    {
        self.pool.idle()
    }

    /// The number of sectors that are with the consumer. It never exceeds the
    /// size of the pool.
    pub fn live(&self) -> (live: usize)
        requires
            self.wf(),
        ensures
            live == self.spec_live(),
            live <= self.pool_size(),
    {
        self.pool.live()
    }

    /// Takes back a sector that the consumer is done with. It is emptied and
    /// its storage is used again. A sector that is not of this source's
    /// sector size, or that the pool has no room for, is dropped.
    pub fn recycle(&mut self, sector: Sector) -> (accepted: bool)
        requires
            old(self).wf(),
        ensures
            final(self).wf(),
            final(self).same_setup(old(self)),
            final(self).state() == old(self).state(),
            final(self).batch() == old(self).batch(),
            final(self).owed() == old(self).owed(),
            accepted == (old(self).spec_live() > 0 && sector.capacity() == old(self).sector_size()),
            final(self).idle() == old(self).idle() + if accepted {
                1int
            } else {
                0int
            },
    {
        self.pool.recycle(sector)
    }
}

impl<R: std::io::Read> SectorSource<R> {
    /// Produces the next sector, or the failure that takes its place.
    ///
    /// A source that has to read first fills its batch buffer with a greedy
    /// read, and goes on from `Production::loaded` of the count and of
    /// whether the read ended on a failure, which it keeps. Then it produces
    /// what its state owes: see `handed_out`. The bytes that were read in
    /// front of a failure are handed out in sectors before the failure is,
    /// and no empty sector ever follows or replaces a failure. What the input
    /// delivers is not known here.
    pub fn next(&mut self) -> (out: Emission)
        requires
            old(self).wf(),
        ensures
            final(self).wf(),
            final(self).same_setup(old(self)),
            out matches Emission::Sector(sector) ==> (sector@.len() == 0 <==> final(self).state()
                == Production::Stopped),
            out matches Emission::Sector(sector) ==> (0 < sector@.len() < old(self).sector_size()
                ==> final(self).state() == Production::Closing || final(self).state()
                == Production::Failing),
            out is Failed ==> final(self).state() == Production::Stopped && final(self).idle()
                == old(self).idle(),
            match old(self).state() {
                Production::Stopped => {
                    &&& out is Closed
                    &&& final(self).state() == Production::Stopped
                    &&& final(self).idle() == old(self).idle()
                },
                Production::Reading => exists|n: usize, failure: Option<std::io::Error>|
                    {
                        &&& n <= old(self).batch_size()
                        &&& failure is Some ==> n < old(self).batch_size()
                        &&& #[trigger] final(self).handed_out(
                            Production::loaded(n, failure is Some),
                            old(self).idle(),
                            failure,
                            out,
                        )
                    },
                state => {
                    &&& final(self).batch() == old(self).batch()
                    &&& final(self).handed_out(state, old(self).idle(), old(self).owed(), out)
                },
            },
    {
        if self.state == Production::Stopped {
            return Emission::Closed;
        }
        let ghost idle = self.pool.idle();
        if self.state == Production::Reading {
            let gathered = greedy_gather(&mut self.input, self.batch.as_mut_slice());
            self.state = Production::loaded(gathered.count, gathered.failure.is_some());
            self.owed = gathered.failure;
        }
        let ghost state = self.state;
        let ghost owed = self.owed;
        let out = if self.state == Production::Failing {
            self.state = Production::Stopped;
            match self.owed.take() {
                Some(failure) => Emission::Failed(failure),
                None => Emission::Closed,
            }
        } else {
            match self.pool.take() {
                None => Emission::Starved,
                Some(sector) => {
                    let mut sector = sector;
                    match self.state {
                        Production::Slicing { filled, pos, failed } => {
                            let bytes = slice_subrange(self.batch.as_slice(), 0, filled);
                            let taken = sector.fill(bytes, pos);
                            assert(bytes@.subrange(pos as int, pos + taken)
                                =~= self.batch@.subrange(pos as int, pos + taken));
                            proof {
                                if taken < self.pool.sector_size() {
                                    state.lemma_short_sector_is_last(
                                        self.pool.sector_size(),
                                        self.batch.len(),
                                    );
                                }
                            }
                        },
                        _ => {
                            assert(sector@ =~= self.batch@.subrange(0, 0));
                        },
                    }
                    self.state = self.state.advanced(self.pool.sector_size(), self.batch.len());
                    Emission::Sector(sector)
                },
            }
        };
        assert(self.handed_out(state, idle, owed, out));
        out
    }
}

/// Whether a source in `state` keeps a failure that the consumer has not been
/// given: one that ended the batch that is being cut, or one that is owed
/// next.
pub open spec fn owes_failure(state: Production) -> bool {
    match state {
        Production::Slicing { filled, pos, failed } => failed,
        Production::Failing => true,
        _ => false,
    }
}

} // verus!
