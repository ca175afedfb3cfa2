//! Greedy reads: filling a buffer from an input that may deliver less than asked.

use vstd::prelude::*;

verus! {

/// The error type of `std::io`. It is carried through and never inspected.
#[verifier::external_type_specification]
#[verifier::external_body]
pub struct ExIoError(std::io::Error);

/// What a greedy read gathered: the number of bytes that stand at the front
/// of the buffer, and the failure that ended the read, if one did.
pub struct Gathered {
    /// The number of bytes gathered.
    pub count: usize,
    /// The failure of the read that ended the greedy read, if it failed.
    pub failure: Option<std::io::Error>,
}

/// What a greedy read does once a read of the underlying input has returned.
pub enum ReadStep {
    /// The buffer holds this many bytes and is not full: read again behind them.
    Again(usize),
    /// The greedy read is over, with this much gathered.
    Over(Gathered),
}

/// The greedy policy. `filled` bytes of a buffer of `capacity` bytes were
/// already read when a further read returned `read`.
///
/// A failure ends the greedy read, and so do a read of zero bytes and a full
/// buffer. What was gathered before a failure is kept, and so is the failure.
pub open spec fn greedy_policy(
    filled: usize,
    capacity: usize,
    read: Result<usize, std::io::Error>,
) -> ReadStep {
    match read {
        Err(e) => ReadStep::Over(Gathered { count: filled, failure: Some(e) }),
        Ok(n) => if n == 0 {
            ReadStep::Over(Gathered { count: filled, failure: None })
        } else if filled + n < capacity {
            ReadStep::Again((filled + n) as usize)
        } else {
            ReadStep::Over(Gathered { count: (filled + n) as usize, failure: None })
        },
    }
}

/// What a greedy read reports to a caller that asks for the count alone: a
/// failure if nothing was gathered before it, and otherwise the count, a
/// failure behind it left to the next read.
pub open spec fn spec_count_or_failure(gathered: Gathered) -> Result<usize, std::io::Error> {
    match gathered.failure {
        Some(e) => if gathered.count == 0 {
            Err(e)
        } else {
            Ok(gathered.count)
        },
        None => Ok(gathered.count),
    }
}

/// Decides how a greedy read goes on after one read of the input.
pub fn greedy_step(filled: usize, capacity: usize, read: Result<usize, std::io::Error>) -> (step:
    ReadStep)
    requires
        read matches Ok(n) ==> filled + n <= capacity,
    ensures
        step == greedy_policy(filled, capacity, read),
{
    match read {
        Err(e) => ReadStep::Over(Gathered { count: filled, failure: Some(e) }),
        Ok(n) => {
            if n == 0 {
                ReadStep::Over(Gathered { count: filled, failure: None })
            } else if n < capacity - filled {
                ReadStep::Again(filled + n)
            } else {
                ReadStep::Over(Gathered { count: filled + n, failure: None })
            }
        },
    }
}

/// What a greedy read reports to a caller that asks for the count alone.
#[verifier::when_used_as_spec(spec_count_or_failure)]
pub fn count_or_failure(gathered: Gathered) -> (result: Result<usize, std::io::Error>)
    ensures
        result == count_or_failure(gathered),
{
    match gathered.failure {
        Some(e) => {
            if gathered.count == 0 {
                Err(e)
            } else {
                Ok(gathered.count)
            }
        },
        None => Ok(gathered.count),
    }
}

/// Calls `std::io::Read::read` on the part of `buf` that starts at `from`.
///
/// The buffer keeps its length, and the count that comes back is at most the
/// length of the part handed over, as the trait demands of every reader.
#[verifier::external_body]
fn read_from<R: std::io::Read>(input: &mut R, buf: &mut [u8], from: usize) -> (read: Result<
    usize,
    std::io::Error,
>)
    requires
        from <= old(buf)@.len(),
    ensures
        final(buf)@.len() == old(buf)@.len(),
        read matches Ok(n) ==> n <= old(buf)@.len() - from,
{
    input.read(&mut buf[from..])
}

/// Reads from `input` into `buf` until the buffer is full, a read returns no
/// bytes, or a read fails, and returns how much was gathered together with
/// the failure, if there was one.
///
/// What the input delivers is not known here: each read is answered as
/// `greedy_policy` says. A failure is met only where there was room to read
/// into, so it never comes with a full buffer.
pub fn greedy_gather<R: std::io::Read>(input: &mut R, buf: &mut [u8]) -> (gathered: Gathered)
    ensures
        final(buf)@.len() == old(buf)@.len(),
        gathered.count <= old(buf)@.len(),
        gathered.failure is Some && old(buf)@.len() > 0 ==> gathered.count < old(buf)@.len(),
{
    let capacity: usize = buf.len();
    let mut filled: usize = 0;
    loop
        invariant
            filled <= capacity,
            filled == 0 || filled < capacity,
            capacity == buf@.len(),
            buf@.len() == old(buf)@.len(),
        decreases capacity - filled,
    {
        let read = read_from(input, buf, filled);
        match greedy_step(filled, capacity, read) {
            ReadStep::Again(next) => {
                filled = next;
            },
            ReadStep::Over(gathered) => {
                return gathered;
            },
        }
    }
}

/// Reads from `input` into `buf` until the buffer is full, a read returns no
/// bytes, or a read fails, and returns the number of bytes gathered.
///
/// This is `greedy_gather` for a caller that asks for the count alone: see
/// `count_or_failure`. A failure that ended the read behind some bytes is not
/// in the result. A caller that must not lose it calls `greedy_gather`.
pub fn greedy_read<R: std::io::Read>(input: &mut R, buf: &mut [u8]) -> (result: Result<
    usize,
    std::io::Error,
>)
    ensures
        final(buf)@.len() == old(buf)@.len(),
        result matches Ok(n) ==> n <= old(buf)@.len(),
{
    count_or_failure(greedy_gather(input, buf))
}

} // verus!
