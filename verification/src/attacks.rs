//! The attack recipes layered on the oracles and the search engine:
//! block-swap collisions, algebraic preimages, and the brute-force
//! searches for second preimages and partial SHA-256 matches.

use vstd::prelude::*;
use crate::enumerate::Enumerator;
use crate::enumerate::alnum_alphabet;
use crate::enumerate::decimal_digits;
use crate::enumerate::lemma_radix_shape;
use crate::enumerate::standard_alphabet;
use crate::hex::copy_bytes;
use crate::hex::bytes_equal;
use crate::hex::hex_of;
use crate::oracle::WeakHash;
use crate::oracle::lemma_xor32_block_swap;
use crate::oracle::lemma_xor32_unfold8;
use crate::oracle::rolling_spec;
use crate::oracle::sha256_of;
use crate::oracle::simple_hash_bytes;
use crate::oracle::xor32_hash;
use crate::oracle::xor32_spec;
use crate::oracle::xor32_term;
use crate::search::Query;
use crate::search::SearchOutcome;
use crate::search::search_parallel;

verus! {

/// Swaps the two 4-byte halves of an 8-byte input. Because the
/// XOR-window shift pattern repeats every 4 bytes, the result has the
/// same XOR-window digest as the input.
pub fn swap_half_blocks(s: &[u8]) -> (r: Vec<u8>)
    requires
        s@.len() == 8,
    ensures
        r@ == s@.subrange(4, 8) + s@.subrange(0, 4),
        xor32_spec(r@) == xor32_spec(s@),
{
    let mut r: Vec<u8> = Vec::new();
    r.push(s[4]);
    r.push(s[5]);
    r.push(s[6]);
    r.push(s[7]);
    r.push(s[0]);
    r.push(s[1]);
    r.push(s[2]);
    r.push(s[3]);
    proof {
        assert(r@ =~= s@.subrange(4, 8) + s@.subrange(0, 4));
        lemma_xor32_block_swap(s@);
    }
    r
}

/// Checks that `a` and `b` form a valid XOR-window collision: distinct
/// bytes, equal digests.
pub fn verify_collision(a: &[u8], b: &[u8]) -> (r: bool)
    ensures
        r == (xor32_spec(a@) == xor32_spec(b@) && a@ != b@),
{
    let ha = xor32_hash(a);
    let hb = xor32_hash(b);
    ha == hb && !bytes_equal(a, b)
}

/// A second preimage for the XOR-window hash by block swapping: for an
/// 8-byte target whose halves differ, swapping the halves yields a
/// distinct input with the same digest. Succeeds exactly when the
/// target has 8 bytes and its two halves differ.
pub fn find_second_preimage(target: &[u8]) -> (r: Option<Vec<u8>>)
    ensures
        r is Some <==> target@.len() == 8 && target@.subrange(4, 8) + target@.subrange(0, 4)
            != target@,
        r matches Some(c) ==> c@ == target@.subrange(4, 8) + target@.subrange(0, 4) && xor32_spec(
            c@,
        ) == xor32_spec(target@) && c@ != target@ && c@.len() == 8,
{
    if target.len() == 8 {
        let candidate = swap_half_blocks(target);
        if !bytes_equal(candidate.as_slice(), target) {
            Some(candidate)
        } else {
            None
        }
    } else {
        None
    }
}

/// A preimage for the XOR-window hash by solving the XOR equation: the
/// first four bytes are fixed printable characters, and the last four
/// are chosen so that their shifted XOR cancels the difference with the
/// target. Total: every 32-bit target has an 8-byte preimage.
pub fn find_preimage(target: u32) -> (r: Vec<u8>)
    ensures
        r@.len() == 8,
        xor32_spec(r@) == target,
        r@[0] == 0x31 && r@[1] == 0x32 && r@[2] == 0x33 && r@[3] == 0x34,
{
    let c0: u8 = 0x31;
    let c1: u8 = 0x32;
    let c2: u8 = 0x33;
    let c3: u8 = 0x34;
    let partial: u32 = (c0 as u32) | ((c1 as u32) << 8u32) | ((c2 as u32) << 16u32) | ((c3
        as u32) << 24u32);
    let remaining: u32 = target ^ partial;
    let c4: u8 = (remaining & 0xFF) as u8;
    let c5: u8 = ((remaining >> 8u32) & 0xFF) as u8;
    let c6: u8 = ((remaining >> 16u32) & 0xFF) as u8;
    let c7: u8 = ((remaining >> 24u32) & 0xFF) as u8;
    let mut r: Vec<u8> = Vec::new();
    r.push(c0);
    r.push(c1);
    r.push(c2);
    r.push(c3);
    r.push(c4);
    r.push(c5);
    r.push(c6);
    r.push(c7);
    proof {
        lemma_xor32_unfold8(r@);
        assert(xor32_term(c0, 0) == (c0 as u32) << 0u32);
        assert(xor32_term(c1, 1) == (c1 as u32) << 8u32);
        assert(xor32_term(c2, 2) == (c2 as u32) << 16u32);
        assert(xor32_term(c3, 3) == (c3 as u32) << 24u32);
        assert(xor32_term(c4, 4) == (c4 as u32) << 0u32);
        assert(xor32_term(c5, 5) == (c5 as u32) << 8u32);
        assert(xor32_term(c6, 6) == (c6 as u32) << 16u32);
        assert(xor32_term(c7, 7) == (c7 as u32) << 24u32);
        let w: u32 = remaining;
        assert(((0x31u32) << 0u32) ^ ((0x32u32) << 8u32) ^ ((0x33u32) << 16u32) ^ ((0x34u32)
            << 24u32) ^ (((w & 0xFF) as u8 as u32) << 0u32) ^ ((((w >> 8u32) & 0xFF) as u8
            as u32) << 8u32) ^ ((((w >> 16u32) & 0xFF) as u8 as u32) << 16u32) ^ ((((w
            >> 24u32) & 0xFF) as u8 as u32) << 24u32) == target) by (bit_vector)
            requires
                w == target ^ ((0x31u32) | ((0x32u32) << 8u32) | ((0x33u32) << 16u32) | ((0x34u32)
                    << 24u32)),
        ;
    }
    r
}

/// A second preimage for the rolling hash by parallel brute force over
/// 8-symbol alphanumeric candidates: any returned candidate differs from
/// `name` and has the same rolling digest.
pub fn find_name_second_preimage(name: &[u8], workers: usize, bound: u64) -> (r: Option<Vec<u8>>)
    requires
        1 <= workers,
        bound <= u64::MAX - workers as u64,
    ensures
        r matches Some(c) ==> rolling_spec(c@) == rolling_spec(name@) && c@ != name@ && c@.len()
            == 8 && forall|k: int| 0 <= k < 8 ==> alnum_alphabet().contains(#[trigger] c@[k]),
{
    let target = simple_hash_bytes(name);
    let alphabet = standard_alphabet();
    let e = Enumerator::MixedRadix { alphabet, length: 8 };
    let q = Query::WeakTarget { oracle: WeakHash::Rolling, target, exclude: copy_bytes(name) };
    match search_parallel(&q, &e, workers, bound) {
        SearchOutcome::Found { index, candidate } => {
            proof {
                lemma_radix_shape(alnum_alphabet(), index as nat, 8);
            }
            Some(candidate)
        },
        SearchOutcome::Exhausted => None,
    }
}

/// A partial SHA-256 match by parallel brute force: any returned
/// candidate is the prefix followed by a decimal counter below `bound`,
/// and the lowercase hex encoding of its SHA-256 digest starts with
/// `pattern`.
pub fn find_partial_collision(prefix: &[u8], pattern: &[u8], workers: usize, bound: u64) -> (r:
    Option<Vec<u8>>)
    requires
        1 <= workers,
        bound <= u64::MAX - workers as u64,
    ensures
        r matches Some(c) ==> pattern@.is_prefix_of(hex_of(sha256_of(c@)))
            && prefix@.is_prefix_of(c@) && exists|i: u64|
            i < bound && c@ == prefix@ + decimal_digits(i as nat),
{
    let e = Enumerator::PrefixCounter { prefix: copy_bytes(prefix) };
    let q = Query::ShaHexPrefix { pattern: copy_bytes(pattern) };
    match search_parallel(&q, &e, workers, bound) {
        SearchOutcome::Found { index, candidate } => {
            proof {
                assert(candidate@ == prefix@ + decimal_digits(index as nat));
                assert(prefix@.is_prefix_of(candidate@)) by {
                    assert(candidate@.subrange(0, prefix@.len() as int) =~= prefix@);
                }
                assert(index < bound && candidate@ == prefix@ + decimal_digits(index as nat));
            }
            Some(candidate)
        },
        SearchOutcome::Exhausted => None,
    }
}

} // verus!
