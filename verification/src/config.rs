//! The sizes that the sources and the comparison are run with by default.
//!
//! The three values belong together: the score limit was found for sectors
//! of `SECTOR_SIZE` bytes, and a batch is a whole number of such sectors.

use vstd::prelude::*;

verus! {

/// The length of a sector in bytes, the block size of common storage media.
pub const SECTOR_SIZE: usize = 512;

/// The number of sector buffers that one source owns.
pub const BUFFERED_SECTORS: usize = 4000;

/// The number of bytes that one batch read asks for: a quarter of the pool.
pub const READ_BUF_SIZE: usize = SECTOR_SIZE * (BUFFERED_SECTORS / 4);

/// The entropy score under which a full sector is almost certainly not
/// encrypted. Divided by `SECTOR_SIZE` it is the limit for the entropy
/// density of a sector, in bits per byte.
pub const PLAINTEXT_SCORE_LIMIT: usize = 3700;

} // verus!
