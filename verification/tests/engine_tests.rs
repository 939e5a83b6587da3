use hashsearch::enumerate::candidate_at;
use hashsearch::enumerate::standard_alphabet;
use hashsearch::enumerate::Enumerator;
use hashsearch::oracle::xor32_hash;
use hashsearch::oracle::WeakHash;
use hashsearch::search::default_worker_count;
use hashsearch::search::evaluate;
use hashsearch::search::search_parallel;
use hashsearch::search::search_serial;
use hashsearch::search::Query;
use hashsearch::search::SearchOutcome;

fn binary_enumerator() -> Enumerator {
    Enumerator::MixedRadix { alphabet: b"01".to_vec(), length: 4 }
}

#[test]
fn mixed_radix_emits_least_significant_digit_first() {
    let e = Enumerator::MixedRadix { alphabet: b"abc".to_vec(), length: 2 };
    assert_eq!(candidate_at(&e, 0), b"aa".to_vec());
    assert_eq!(candidate_at(&e, 1), b"ba".to_vec());
    assert_eq!(candidate_at(&e, 2), b"ca".to_vec());
    assert_eq!(candidate_at(&e, 3), b"ab".to_vec());
    assert_eq!(candidate_at(&e, 8), b"cc".to_vec());
}

#[test]
fn mixed_radix_is_injective_on_its_range() {
    let e = Enumerator::MixedRadix { alphabet: b"abc".to_vec(), length: 2 };
    let mut seen: Vec<Vec<u8>> = Vec::new();
    for i in 0..9u64 {
        let c = candidate_at(&e, i);
        assert_eq!(c.len(), 2);
        assert!(c.iter().all(|b| b"abc".contains(b)));
        assert!(!seen.contains(&c), "duplicate candidate for index {}", i);
        seen.push(c);
    }
}

#[test]
fn standard_alphabet_is_the_62_alnum_symbols() {
    let a = standard_alphabet();
    let expected = b"abcdefghijklmnopqrstuvwxyzABCDEFGHIJKLMNOPQRSTUVWXYZ0123456789";
    assert_eq!(a, expected.to_vec());
}

#[test]
fn prefix_counter_appends_decimal() {
    let e = Enumerator::PrefixCounter { prefix: b"bitcoin".to_vec() };
    assert_eq!(candidate_at(&e, 0), b"bitcoin0".to_vec());
    assert_eq!(candidate_at(&e, 9), b"bitcoin9".to_vec());
    assert_eq!(candidate_at(&e, 123), b"bitcoin123".to_vec());
    assert_eq!(candidate_at(&e, 1000), b"bitcoin1000".to_vec());
}

#[test]
fn serial_search_finds_the_planted_match() {
    // index 6 enumerates "0110"; the XOR-window digest pins each byte to
    // its own shift over a 4-byte input, so exactly one index matches
    let target = xor32_hash(b"0110");
    let q = Query::WeakTarget { oracle: WeakHash::XorWindow, target, exclude: Vec::new() };
    let e = binary_enumerator();
    for n in [1u64, 2, 4, 8] {
        match search_serial(&q, &e, n, 16) {
            SearchOutcome::Found { index, candidate } => {
                assert_eq!(index, 6, "worker count {}", n);
                assert_eq!(candidate, b"0110".to_vec());
            }
            SearchOutcome::Exhausted => panic!("no match with {} workers", n),
        }
    }
}

#[test]
fn serial_search_reports_exhaustion() {
    // every candidate byte is nonzero, so no digest can be 0
    let q = Query::WeakTarget { oracle: WeakHash::XorWindow, target: 0, exclude: Vec::new() };
    let e = binary_enumerator();
    for n in [1u64, 3, 16] {
        assert!(matches!(search_serial(&q, &e, n, 16), SearchOutcome::Exhausted));
    }
}

#[test]
fn parallel_search_agrees_with_serial() {
    let target = xor32_hash(b"0110");
    let q = Query::WeakTarget { oracle: WeakHash::XorWindow, target, exclude: Vec::new() };
    let e = binary_enumerator();
    for workers in [1usize, 2, 4, 8] {
        match search_parallel(&q, &e, workers, 16) {
            SearchOutcome::Found { index, candidate } => {
                assert_eq!(index, 6, "worker count {}", workers);
                assert_eq!(candidate, b"0110".to_vec());
            }
            SearchOutcome::Exhausted => panic!("no match with {} workers", workers),
        }
    }
}

#[test]
fn parallel_search_reports_exhaustion() {
    let q = Query::WeakTarget { oracle: WeakHash::XorWindow, target: 0, exclude: Vec::new() };
    let e = binary_enumerator();
    assert!(matches!(search_parallel(&q, &e, 4, 16), SearchOutcome::Exhausted));
}

#[test]
fn excluded_candidate_never_matches() {
    let target = xor32_hash(b"0110");
    let q = Query::WeakTarget {
        oracle: WeakHash::XorWindow,
        target,
        exclude: b"0110".to_vec(),
    };
    let e = binary_enumerator();
    assert!(!evaluate(&q, b"0110"));
    assert!(matches!(search_serial(&q, &e, 1, 16), SearchOutcome::Exhausted));
}

#[test]
fn worker_count_is_positive() {
    assert!(default_worker_count() >= 1);
}
