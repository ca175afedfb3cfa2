use enthunter::config::{PLAINTEXT_SCORE_LIMIT, SECTOR_SIZE};
use enthunter::histogram::byte_histogram;
use enthunter::sector::Sector;
use enthunter::slide::{Fault, Outcome, Pull, Side, SlideComparator};
use enthunter::source::{Emission, SectorSource};
use std::io::{Cursor, Error, ErrorKind, Read};

const FULL: Pull = Pull::Sector { len: 512, plaintext_like: false };
const FULL_PLAIN: Pull = Pull::Sector { len: 512, plaintext_like: true };
const END: Pull = Pull::Sector { len: 0, plaintext_like: false };

/// Walks a fresh comparison over `pairs` and returns what it decided, if
/// anything, and the offset it stands at.
fn walk(pairs: &[(Pull, Pull)]) -> (Option<Outcome>, usize) {
    let mut comparator = SlideComparator::new(512);
    for &(a, b) in pairs {
        if let Some(outcome) = comparator.step(a, b) {
            return (Some(outcome), comparator.offset());
        }
    }
    (None, comparator.offset())
}

fn score(bytes: &[u8]) -> f64 {
    let len = bytes.len() as f64;
    byte_histogram(bytes)
        .iter()
        .map(|&x| if x == 0 { 0.0 } else { (x as f64 / len).log2() * x as f64 })
        .fold(0.0, |a, e| a - e)
}

fn observe(sector: &Sector) -> Pull {
    let limit = PLAINTEXT_SCORE_LIMIT as f64 / SECTOR_SIZE as f64;
    let density = score(sector.as_slice()) / sector.len() as f64;
    Pull::Sector { len: sector.len(), plaintext_like: density < limit }
}

/// `sectors` sectors of bytes that look random, zeroed from sector `plain_from` on.
fn image(sectors: usize, plain_from: usize, seed: u64) -> Vec<u8> {
    let mut state = seed;
    let mut bytes = Vec::with_capacity(sectors * 512);
    for i in 0..sectors * 512 {
        state ^= state << 13;
        state ^= state >> 7;
        state ^= state << 17;
        bytes.push(if i / 512 >= plain_from { 0 } else { (state >> 24) as u8 });
    }
    bytes
}

/// An image of which only the first `good` bytes can be read.
struct Damaged {
    image: Cursor<Vec<u8>>,
    good: u64,
}

impl Read for Damaged {
    fn read(&mut self, buf: &mut [u8]) -> std::io::Result<usize> {
        let left = self.good.saturating_sub(self.image.position());
        if left == 0 {
            return Err(Error::new(ErrorKind::Other, "bad block"));
        }
        let n = buf.len().min(left as usize);
        self.image.read(&mut buf[..n])
    }
}

fn pull<R: Read>(source: &mut SectorSource<R>) -> (Pull, Option<Sector>) {
    match source.next() {
        Emission::Sector(sector) => (observe(&sector), Some(sector)),
        Emission::Failed(_) => (Pull::Failed, None),
        Emission::Starved => panic!("no buffer was ready"),
        Emission::Closed => panic!("the source has stopped"),
    }
}

/// Compares two inputs as the program does: pull from both, classify, step,
/// give the sectors back.
fn slide_inputs<A: Read, B: Read>(a: A, b: B) -> Outcome {
    let mut source_a = SectorSource::new(a, 512, 2048, 4);
    let mut source_b = SectorSource::new(b, 512, 2048, 4);
    let mut comparator = SlideComparator::new(SECTOR_SIZE);
    loop {
        let (pull_a, sector_a) = pull(&mut source_a);
        let (pull_b, sector_b) = pull(&mut source_b);
        if let Some(outcome) = comparator.step(pull_a, pull_b) {
            return outcome;
        }
        assert!(source_a.recycle(sector_a.unwrap()));
        assert!(source_b.recycle(sector_b.unwrap()));
    }
}

fn slide(a: Vec<u8>, b: Vec<u8>) -> Outcome {
    slide_inputs(Cursor::new(a), Cursor::new(b))
}

#[test]
fn new_comparison_stands_at_the_start() {
    let comparator = SlideComparator::new(512);
    assert_eq!(comparator.offset(), 0);
    assert_eq!(comparator.sector_size(), 512);
}

#[test]
fn ciphertext_pair_moves_one_sector_on() {
    let mut comparator = SlideComparator::new(512);
    assert_eq!(comparator.step(FULL, FULL), None);
    assert_eq!(comparator.offset(), 512);
    assert_eq!(comparator.step(FULL, FULL), None);
    assert_eq!(comparator.offset(), 1024);
}

#[test]
fn both_plain_ends_with_both_unencrypted() {
    assert_eq!(walk(&[(FULL_PLAIN, FULL_PLAIN)]), (Some(Outcome::BothUnencrypted(0)), 0));
}

#[test]
fn plain_on_either_side_alone_is_the_best_guess() {
    assert_eq!(walk(&[(FULL_PLAIN, FULL)]), (Some(Outcome::BestGuess(0)), 0));
    assert_eq!(walk(&[(FULL, FULL_PLAIN)]), (Some(Outcome::BestGuess(0)), 0));
}

#[test]
fn common_end_is_fully_encrypted() {
    assert_eq!(walk(&[(END, END)]), (Some(Outcome::FullyEncrypted), 0));
    let flagged = Pull::Sector { len: 0, plaintext_like: true };
    assert_eq!(walk(&[(flagged, flagged)]), (Some(Outcome::FullyEncrypted), 0));
}

#[test]
fn identical_ciphertext_files_are_fully_encrypted() {
    for n in [0usize, 1, 2, 7, 100] {
        let mut pairs = vec![(FULL, FULL); n];
        pairs.push((END, END));
        assert_eq!(walk(&pairs), (Some(Outcome::FullyEncrypted), n * 512));
    }
}

#[test]
fn left_side_turning_plain_is_found_at_its_sector() {
    for k in [0usize, 1, 5, 64] {
        let mut pairs = vec![(FULL, FULL); k];
        pairs.push((FULL_PLAIN, FULL));
        pairs.push((FULL_PLAIN, FULL));
        assert_eq!(walk(&pairs), (Some(Outcome::BestGuess(k * 512)), k * 512));
    }
}

#[test]
fn both_sides_turning_plain_are_found_at_their_sector() {
    for k in [0usize, 1, 5, 64] {
        let mut pairs = vec![(FULL, FULL); k];
        pairs.push((FULL_PLAIN, FULL_PLAIN));
        assert_eq!(walk(&pairs), (Some(Outcome::BothUnencrypted(k * 512)), k * 512));
    }
}

#[test]
fn unequal_lengths_break_the_comparison_off() {
    let short = Pull::Sector { len: 100, plaintext_like: false };
    assert_eq!(walk(&[(FULL, FULL), (FULL, short)]).0, Some(Outcome::Fatal(Fault::LengthMismatch)));
    assert_eq!(walk(&[(FULL, FULL), (FULL, END)]).0, Some(Outcome::Fatal(Fault::LengthMismatch)));
    assert_eq!(walk(&[(END, FULL)]).0, Some(Outcome::Fatal(Fault::LengthMismatch)));
    // The lengths are looked at before the classifications.
    let short_plain = Pull::Sector { len: 100, plaintext_like: true };
    assert_eq!(walk(&[(FULL_PLAIN, short_plain)]).0, Some(Outcome::Fatal(Fault::LengthMismatch)));
}

#[test]
fn failed_read_names_its_side() {
    assert_eq!(walk(&[(Pull::Failed, FULL)]).0, Some(Outcome::Fatal(Fault::ReadFailed(Side::A))));
    assert_eq!(walk(&[(FULL, Pull::Failed)]).0, Some(Outcome::Fatal(Fault::ReadFailed(Side::B))));
    assert_eq!(
        walk(&[(Pull::Failed, Pull::Failed)]).0,
        Some(Outcome::Fatal(Fault::ReadFailed(Side::A)))
    );
    assert_eq!(walk(&[(END, Pull::Failed)]).0, Some(Outcome::Fatal(Fault::ReadFailed(Side::B))));
}

#[test]
fn short_ciphertext_sector_ends_the_comparison() {
    let short = Pull::Sector { len: 100, plaintext_like: false };
    assert_eq!(walk(&[(FULL, FULL), (short, short)]), (Some(Outcome::FullyEncrypted), 512));
}

#[test]
fn short_plain_sector_is_still_reported() {
    let short = Pull::Sector { len: 100, plaintext_like: false };
    let short_plain = Pull::Sector { len: 100, plaintext_like: true };
    assert_eq!(walk(&[(FULL, FULL), (short_plain, short)]).0, Some(Outcome::BestGuess(512)));
    assert_eq!(
        walk(&[(FULL, FULL), (short_plain, short_plain)]).0,
        Some(Outcome::BothUnencrypted(512))
    );
}

#[test]
fn status_tells_a_finished_comparison_from_a_broken_one() {
    assert_eq!(Outcome::FullyEncrypted.status(), 0);
    assert_eq!(Outcome::BestGuess(1024).status(), 0);
    assert_eq!(Outcome::BothUnencrypted(0).status(), 0);
    assert_eq!(Outcome::Fatal(Fault::LengthMismatch).status(), 1);
    assert_eq!(Outcome::Fatal(Fault::ReadFailed(Side::B)).status(), 1);
}

#[test]
fn random_looking_sectors_are_not_plaintext_like() {
    let bytes = image(16, 16, 0x2545f4914f6cdd1d);
    for chunk in bytes.chunks(512) {
        assert!(score(chunk) / 512.0 >= 3700.0 / 512.0);
    }
    assert!(score(&[0u8; 512]) / 512.0 < 3700.0 / 512.0);
}

#[test]
fn slide_over_identical_ciphertext_images() {
    let bytes = image(20, 20, 0x9e3779b97f4a7c15);
    assert_eq!(slide(bytes.clone(), bytes), Outcome::FullyEncrypted);
}

#[test]
fn slide_finds_where_the_left_image_turns_plain() {
    let a = image(20, 6, 0x9e3779b97f4a7c15);
    let b = image(20, 20, 0x9e3779b97f4a7c15);
    assert_eq!(slide(a, b), Outcome::BestGuess(6 * 512));
}

#[test]
fn slide_finds_where_the_right_image_turns_plain() {
    let a = image(20, 20, 0x9e3779b97f4a7c15);
    let b = image(20, 11, 0x0123456789abcdef);
    assert_eq!(slide(a, b), Outcome::BestGuess(11 * 512));
}

#[test]
fn slide_finds_where_both_images_turn_plain() {
    let a = image(20, 9, 0x9e3779b97f4a7c15);
    let b = image(20, 9, 0x0123456789abcdef);
    assert_eq!(slide(a, b), Outcome::BothUnencrypted(9 * 512));
}

#[test]
fn slide_breaks_off_at_a_truncated_image() {
    let a = image(20, 20, 0x9e3779b97f4a7c15);
    let mut b = a.clone();
    b.truncate(7 * 512 + 100);
    assert_eq!(slide(a.clone(), b), Outcome::Fatal(Fault::LengthMismatch));
    let mut c = a.clone();
    c.truncate(7 * 512);
    assert_eq!(slide(a, c), Outcome::Fatal(Fault::LengthMismatch));
}

#[test]
fn slide_over_images_that_end_in_the_same_short_sector() {
    let mut a = image(20, 20, 0x9e3779b97f4a7c15);
    a.truncate(7 * 512 + 100);
    // The density of a hundred bytes is at most log2(100) bits per byte, which
    // is under the limit: the tail is classified as plaintext on both sides.
    assert_eq!(slide(a.clone(), a), Outcome::BothUnencrypted(7 * 512));
}

#[test]
fn slide_over_empty_images() {
    assert_eq!(slide(Vec::new(), Vec::new()), Outcome::FullyEncrypted);
}

#[test]
fn slide_breaks_off_at_a_bad_block_on_the_left() {
    let bytes = image(20, 20, 0x9e3779b97f4a7c15);
    for good in [0u64, 512, 7 * 512, 8 * 512, 19 * 512] {
        let a = Damaged { image: Cursor::new(bytes.clone()), good };
        let outcome = slide_inputs(a, Cursor::new(bytes.clone()));
        assert_eq!(outcome, Outcome::Fatal(Fault::ReadFailed(Side::A)), "{} good bytes", good);
        assert_eq!(outcome.status(), 1);
    }
}

#[test]
fn slide_breaks_off_at_a_bad_block_on_the_right() {
    let bytes = image(20, 20, 0x9e3779b97f4a7c15);
    let b = Damaged { image: Cursor::new(bytes.clone()), good: 7 * 512 };
    assert_eq!(
        slide_inputs(Cursor::new(bytes), b),
        Outcome::Fatal(Fault::ReadFailed(Side::B))
    );
}

#[test]
fn slide_over_images_with_the_same_bad_block_names_the_left() {
    let bytes = image(20, 20, 0x9e3779b97f4a7c15);
    let a = Damaged { image: Cursor::new(bytes.clone()), good: 20 * 512 };
    let b = Damaged { image: Cursor::new(bytes), good: 20 * 512 };
    // Both images were read to their last byte, and still this is no clean end.
    assert_eq!(slide_inputs(a, b), Outcome::Fatal(Fault::ReadFailed(Side::A)));
}

#[test]
fn slide_sees_the_bytes_in_front_of_a_bad_block_first() {
    let mut plain = image(20, 20, 0x9e3779b97f4a7c15);
    for byte in plain[3 * 512..].iter_mut() {
        *byte = 0;
    }
    let a = Damaged { image: Cursor::new(plain), good: 4 * 512 };
    let b = image(20, 20, 0x9e3779b97f4a7c15);
    assert_eq!(slide_inputs(a, Cursor::new(b)), Outcome::BestGuess(3 * 512));
}
