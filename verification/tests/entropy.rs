use enthunter::histogram::{byte_histogram, checked_histogram, BINS, SAMPLE_LIMIT};

/// The count-weighted Shannon entropy of `src`, summed over the bins of the
/// library's histogram in ascending order of byte value.
fn entropy_estimate(src: &[u8]) -> f64 {
    assert!(src.len() < SAMPLE_LIMIT);
    let bins = byte_histogram(src);
    let float_len = src.len() as f64;
    bins.iter()
        .map(|&x| if x == 0 { 0.0 } else { (x as f64 / float_len).log2() * x as f64 })
        .fold(0.0, |a, e| a - e)
}

#[test]
fn simple_entropies() {
    assert_eq!(entropy_estimate(b"AAAAAAAAAAAAAAAAAAAA"), 0.0);
    assert_eq!(entropy_estimate(b"ABAABBAAABBBAAAABBBB"), 20.0);
    assert_eq!(entropy_estimate(b"ABCCBACCCCABABCCCABC"), 30.0);
}

#[test]
fn entropy_of_empty_buffer_is_zero() {
    assert_eq!(entropy_estimate(b""), 0.0);
}

#[test]
fn entropy_of_uneven_thirds_is_computed_directly() {
    // 7 / 7 / 6 over twenty bytes: close to, but not, 20 * log2(3).
    let got = entropy_estimate(b"AAAAAAABBBBBBBCCCCCC");
    let seven = -(7.0f64 / 20.0).log2() * 7.0;
    let six = -(6.0f64 / 20.0).log2() * 6.0;
    let want = 0.0 + seven + seven + six;
    assert!((got - want).abs() < 1e-9);
    assert!((got - 20.0 * 3.0f64.log2()).abs() < 0.1);
    assert!(got != 20.0 * 3.0f64.log2());
}

#[test]
fn entropy_of_even_groups_is_length_times_log2_of_groups() {
    let mut buf = Vec::new();
    for v in 0..4u8 {
        for _ in 0..5 {
            buf.push(v);
        }
    }
    assert_eq!(entropy_estimate(&buf), 40.0);
}

#[test]
fn histogram_counts_each_value() {
    let bins = byte_histogram(b"ABCCBACCCCABABCCCABC");
    assert_eq!(bins.len(), BINS);
    assert_eq!(bins[b'A' as usize], 5);
    assert_eq!(bins[b'B' as usize], 5);
    assert_eq!(bins[b'C' as usize], 10);
    for v in 0..256usize {
        if v != b'A' as usize && v != b'B' as usize && v != b'C' as usize {
            assert_eq!(bins[v], 0);
        }
    }
}

#[test]
fn histogram_of_empty_buffer_is_all_zero() {
    let bins = byte_histogram(b"");
    assert!(bins.iter().all(|&c| c == 0));
}

#[test]
fn histogram_of_constant_buffer_has_one_bin() {
    let buf = vec![0x5au8; 512];
    let bins = byte_histogram(&buf);
    assert_eq!(bins[0x5a], 512);
    assert_eq!(bins.iter().filter(|&&c| c != 0).count(), 1);
    assert_eq!(entropy_estimate(&buf), 0.0);
}

#[test]
fn histogram_ignores_order() {
    let a = b"the quick brown fox jumps over the lazy dog".to_vec();
    let mut b = a.clone();
    b.reverse();
    let mut c = a.clone();
    c.sort();
    assert_eq!(byte_histogram(&a), byte_histogram(&b));
    assert_eq!(byte_histogram(&a), byte_histogram(&c));
    assert_eq!(entropy_estimate(&a), entropy_estimate(&b));
    assert_eq!(entropy_estimate(&a), entropy_estimate(&c));
}

#[test]
fn histogram_covers_both_ends_of_the_byte_range() {
    let bins = byte_histogram(&[0, 255, 255, 0, 0]);
    assert_eq!(bins[0], 3);
    assert_eq!(bins[255], 2);
}

#[test]
fn longest_buffer_fills_one_bin_to_the_brim() {
    let buf = vec![9u8; SAMPLE_LIMIT - 1];
    let bins = byte_histogram(&buf);
    assert_eq!(bins[9], 65535);
}

#[test]
fn checked_histogram_rejects_long_buffers() {
    assert_eq!(SAMPLE_LIMIT, 65536);
    assert!(checked_histogram(&vec![1u8; 65536]).is_none());
    assert!(checked_histogram(&vec![1u8; 70000]).is_none());
    let counted = checked_histogram(&vec![1u8; 65535]);
    assert_eq!(counted.map(|bins| bins[1]), Some(65535));
    assert_eq!(checked_histogram(b"AAB"), Some(byte_histogram(b"AAB")));
}

#[test]
fn score_exists_exactly_for_buffers_under_the_limit() {
    let score = |src: &[u8]| checked_histogram(src).map(|_| entropy_estimate(src));
    assert_eq!(score(&vec![0u8; 65535]), Some(0.0));
    assert_eq!(score(&vec![0u8; 65536]), None);
    assert_eq!(score(&vec![0u8; 65537]), None);
    assert_eq!(score(b""), Some(0.0));
    // The largest buffer, split evenly between two values, fills no bin beyond its range.
    let mut halves = vec![1u8; 32767];
    halves.extend_from_slice(&vec![2u8; 32767]);
    assert_eq!(score(&halves), Some(65534.0));
}
