use hashsearch::oracle::hash_contributions;
use hashsearch::oracle::simple_hash_bytes;
use hashsearch::oracle::xor32_hash;
use hashsearch::hex::starts_with_hex_pattern;
use hashsearch::report::solution_line;

#[test]
fn xor32_exact_values() {
    assert_eq!(xor32_hash(b""), 0);
    // 'a' = 0x61 at shift 0, 'b' = 0x62 at shift 8
    assert_eq!(xor32_hash(b"ab"), 0x6261);
    assert_eq!(xor32_hash(b"abcd"), 0x64636261);
    // the fifth byte wraps back to shift 0
    assert_eq!(xor32_hash(b"abcde"), 0x64636261 ^ 0x65);
}

#[test]
fn rolling_exact_values() {
    assert_eq!(simple_hash_bytes(b""), 0);
    assert_eq!(simple_hash_bytes(b"a"), 97);
    // 97 * 31 + 98
    assert_eq!(simple_hash_bytes(b"ab"), 3105);
}

#[test]
fn rolling_wraps_at_32_bits() {
    let h = simple_hash_bytes(b"aaaaaaaaaaaaaaaaaaaaaaaa");
    let mut expected: u32 = 0;
    for &b in b"aaaaaaaaaaaaaaaaaaaaaaaa" {
        expected = expected.wrapping_mul(31).wrapping_add(b as u32);
    }
    assert_eq!(h, expected);
}

#[test]
fn digests_are_deterministic() {
    let inputs: [&[u8]; 4] = [b"", b"x", b"ehosguri", b"a longer input with spaces"];
    for input in inputs {
        assert_eq!(xor32_hash(input), xor32_hash(input));
        assert_eq!(simple_hash_bytes(input), simple_hash_bytes(input));
    }
}

#[test]
fn contributions_trace_the_accumulator() {
    let trace = hash_contributions(b"ab");
    assert_eq!(trace.len(), 2);
    assert_eq!(trace[0], (0x61, 0x61));
    assert_eq!(trace[1], (0x6200, 0x6261));
    let full = hash_contributions(b"ehosguri");
    assert_eq!(full.len(), 8);
    assert_eq!(full[7].1, xor32_hash(b"ehosguri"));
}

#[test]
fn hex_prefix_matching() {
    assert!(starts_with_hex_pattern(&[0xca, 0xfe], b"cafe"));
    assert!(starts_with_hex_pattern(&[0xca, 0xfe], b"caf"));
    assert!(starts_with_hex_pattern(&[0xca, 0xfe], b""));
    assert!(!starts_with_hex_pattern(&[0xca, 0xfe], b"caff"));
    assert!(!starts_with_hex_pattern(&[0xca], b"cafe"));
    // low nibbles keep their leading zero
    assert!(starts_with_hex_pattern(&[0x0a, 0x01], b"0a01"));
}

#[test]
fn solution_lines_join_with_commas() {
    let one = vec![b"abc".to_vec()];
    assert_eq!(solution_line(&one), b"abc".to_vec());
    let two = vec![b"abc".to_vec(), b"def".to_vec()];
    assert_eq!(solution_line(&two), b"abc,def".to_vec());
    let three = vec![b"a".to_vec(), b"b".to_vec(), b"c".to_vec()];
    assert_eq!(solution_line(&three), b"a,b,c".to_vec());
}
