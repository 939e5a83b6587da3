use hashsearch::attacks::find_name_second_preimage;
use hashsearch::attacks::find_partial_collision;
use hashsearch::attacks::find_preimage;
use hashsearch::attacks::find_second_preimage;
use hashsearch::attacks::swap_half_blocks;
use hashsearch::attacks::verify_collision;
use hashsearch::birthday::find_collision_birthday;
use hashsearch::birthday::random_candidate;
use hashsearch::oracle::simple_hash_bytes;
use hashsearch::oracle::xor32_hash;

fn hex_string(bytes: &[u8]) -> String {
    let mut s = String::new();
    for b in bytes {
        s.push_str(&format!("{:02x}", b));
    }
    s
}

#[test]
fn block_swap_collides() {
    let original = b"ehosguri";
    let swapped = swap_half_blocks(original);
    assert_eq!(swapped, b"guriehos".to_vec());
    assert_eq!(xor32_hash(original), xor32_hash(&swapped));
    assert_ne!(original.to_vec(), swapped);
    assert_eq!(original.len(), 8);
    assert_eq!(swapped.len(), 8);
    assert!(swapped.is_ascii());
    assert!(verify_collision(original, &swapped));
}

#[test]
fn identical_inputs_are_no_collision() {
    assert!(!verify_collision(b"ehosguri", b"ehosguri"));
    assert!(!verify_collision(b"abcd1234", b"xyzw5678"));
}

#[test]
fn second_preimage_by_block_swap() {
    let target = b"bitcoin0";
    let found = find_second_preimage(target).expect("an 8-byte target with distinct halves");
    assert_eq!(found, b"oin0bitc".to_vec());
    assert_ne!(found, target.to_vec());
    assert_eq!(xor32_hash(&found), xor32_hash(target));
}

#[test]
fn second_preimage_declines_bad_lengths_and_equal_halves() {
    assert!(find_second_preimage(b"short").is_none());
    assert!(find_second_preimage(b"morethaneight").is_none());
    assert!(find_second_preimage(b"abcdabcd").is_none());
}

#[test]
fn preimage_solves_the_xor_equation() {
    let target: u32 = 0x1b575451;
    let found = find_preimage(target);
    assert_eq!(found.len(), 8);
    assert_eq!(&found[..4], b"1234");
    assert_eq!(xor32_hash(&found), target);
    for t in [0u32, 1, 0xdeadbeef, u32::MAX] {
        assert_eq!(xor32_hash(&find_preimage(t)), t);
    }
}

#[test]
fn partial_sha_collision_with_cafe_prefix() {
    let found = find_partial_collision(b"bitcoin", b"cafe", 4, 10_000_000)
        .expect("a cafe-prefixed digest below the bound");
    assert!(found.starts_with(b"bitcoin"));
    let digest = <sha2::Sha256 as sha2::Digest>::digest(&found);
    assert!(hex_string(&digest).starts_with("cafe"));
    // the suffix is a decimal counter
    let suffix = std::str::from_utf8(&found[7..]).unwrap();
    assert!(suffix.parse::<u64>().is_ok());
}

#[test]
fn partial_sha_collision_respects_the_pattern() {
    let found = find_partial_collision(b"bitcoin", b"00", 4, 10_000_000)
        .expect("a 00-prefixed digest below the bound");
    let digest = <sha2::Sha256 as sha2::Digest>::digest(&found);
    assert!(hex_string(&digest).starts_with("00"));
}

#[test]
fn tiny_bound_brute_force_comes_back_empty_handed() {
    // a 32-bit rolling-hash match is overwhelmingly unlikely within 1000
    // candidates, and any result the search does return is checked
    if let Some(c) = find_name_second_preimage(b"emmanuel", 2, 1000) {
        assert_eq!(simple_hash_bytes(&c), simple_hash_bytes(b"emmanuel"));
        assert_ne!(c, b"emmanuel".to_vec());
    }
}

#[test]
fn random_candidates_are_alnum() {
    for len in [0usize, 1, 8, 32] {
        let c = random_candidate(len);
        assert_eq!(c.len(), len);
        assert!(c.iter().all(|b| b.is_ascii_alphanumeric()));
    }
}

#[test]
fn birthday_bound_on_a_reduced_digest_space() {
    // over a digest space of size D = 2^16 (the rolling hash truncated to
    // 16 bits), the expected draws before a collision is sqrt(pi * D / 2),
    // about 320; the mean over 30 runs must land within a small factor
    let runs = 30u32;
    let mut total_draws = 0u64;
    for _ in 0..runs {
        let mut seen = std::collections::HashMap::new();
        loop {
            total_draws += 1;
            let candidate = random_candidate(8);
            let digest = simple_hash_bytes(&candidate) & 0xFFFF;
            if let Some(first) = seen.get(&digest) {
                if *first != candidate {
                    break;
                }
            } else {
                seen.insert(digest, candidate);
            }
        }
    }
    let mean = total_draws as f64 / runs as f64;
    let expected = (core::f64::consts::PI * 65536.0 / 2.0).sqrt();
    assert!(
        mean > expected / 3.0 && mean < expected * 3.0,
        "mean draws {} too far from the birthday bound {}",
        mean,
        expected
    );
}

#[test]
fn birthday_search_finds_a_collision() {
    let (a, b) = find_collision_birthday(10_000_000).expect("a birthday collision");
    assert_ne!(a, b);
    assert_eq!(a.len(), 8);
    assert_eq!(b.len(), 8);
    assert_eq!(simple_hash_bytes(&a), simple_hash_bytes(&b));
    assert!(a.is_ascii() && b.is_ascii());
}
