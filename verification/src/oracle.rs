//! Hash oracles: a weak XOR-window hash, a weak multiplicative rolling
//! hash, and a cryptographic SHA-256 oracle treated as a black box.
//!
//! All digests are deterministic, pure functions of the input bytes; the
//! executable functions are tied to spec-level digest functions so that
//! two computations over equal byte sequences provably agree.

use vstd::prelude::*;

verus! {

/// The contribution of byte `b` at position `i`: the byte shifted left by
/// `(i % 4) * 8` bits, so the shift pattern repeats every four bytes.
pub open spec fn xor32_term(b: u8, i: nat) -> u32 {
    (b as u32) << (((i % 4) * 8) as u32)
}

/// The XOR-window digest of a byte sequence: every byte is XORed into a
/// 32-bit accumulator, shifted according to its position modulo 4.
pub open spec fn xor32_spec(s: Seq<u8>) -> u32
    decreases s.len(),
{
    if s.len() == 0 {
        0u32
    } else {
        xor32_spec(s.drop_last()) ^ xor32_term(s.last(), (s.len() - 1) as nat)
    }
}

/// Computes the XOR-window digest of `s`.
pub fn xor32_hash(s: &[u8]) -> (h: u32)
    ensures
        h == xor32_spec(s@),
{
    let mut h: u32 = 0;
    let mut i: usize = 0;
    while i < s.len()
        invariant
            i <= s.len(),
            h == xor32_spec(s@.take(i as int)),
        decreases s.len() - i,
    {
        let shift: u32 = ((i % 4) * 8) as u32;
        h = h ^ ((s[i] as u32) << shift);
        proof {
            let t = s@.take(i + 1);
            assert(t.drop_last() =~= s@.take(i as int));
            assert(t.last() == s@[i as int]);
        }
        i = i + 1;
    }
    proof {
        assert(s@.take(s@.len() as int) =~= s@);
    }
    h
}

/// One step of the multiplicative rolling hash: the accumulator times 31
/// plus the next byte, wrapping at 32 bits.
pub open spec fn rolling_step(h: u32, b: u8) -> u32 {
    ((((h as int) * 31 + b) % 0x1_0000_0000) as u32)
}

/// The multiplicative rolling digest of a byte sequence, starting from 0.
pub open spec fn rolling_spec(s: Seq<u8>) -> u32
    decreases s.len(),
{
    if s.len() == 0 {
        0u32
    } else {
        rolling_step(rolling_spec(s.drop_last()), s.last())
    }
}

/// Computes the multiplicative rolling digest of `bytes`.
pub fn simple_hash_bytes(bytes: &[u8]) -> (h: u32)
    ensures
        h == rolling_spec(bytes@),
{
    let mut h: u32 = 0;
    let mut i: usize = 0;
    while i < bytes.len()
        invariant
            i <= bytes.len(),
            h == rolling_spec(bytes@.take(i as int)),
        decreases bytes.len() - i,
    {
        let wide: u64 = (h as u64) * 31 + (bytes[i] as u64);
        h = (wide % 0x1_0000_0000) as u32;
        proof {
            let t = bytes@.take(i + 1);
            assert(t.drop_last() =~= bytes@.take(i as int));
            assert(t.last() == bytes@[i as int]);
        }
        i = i + 1;
    }
    proof {
        assert(bytes@.take(bytes@.len() as int) =~= bytes@);
    }
    h
}

/// The 32-byte SHA-256 digest of a byte sequence. The result depends on
/// the input bytes alone; its value is left unspecified here and is
/// produced only by the cryptographic oracle.
pub uninterp spec fn sha256_of(bytes: Seq<u8>) -> Seq<u8>;

/// Relies on sha2::Sha256::digest (the `Digest` trait): a pure function of
/// the input bytes producing a 32-byte digest.
#[verifier::external_body]
pub(crate) fn sha256_digest(bytes: &[u8]) -> (r: Vec<u8>)
    ensures
        r@ == sha256_of(bytes@),
        r@.len() == 32,
{
    <sha2::Sha256 as sha2::Digest>::digest(bytes).to_vec()
}

/// The two weak 32-bit oracles.
pub enum WeakHash {
    /// The XOR-window hash: invertible in closed form for 4- and 8-byte
    /// inputs, and invariant under permutation of 4-byte blocks.
    XorWindow,
    /// The multiplicative rolling hash (`h = h * 31 + byte`, wrapping):
    /// not algebraically invertible, so a brute-force target.
    Rolling,
}

/// The digest that a weak oracle assigns to a byte sequence.
pub open spec fn weak_digest_spec(o: WeakHash, s: Seq<u8>) -> u32 {
    match o {
        WeakHash::XorWindow => xor32_spec(s),
        WeakHash::Rolling => rolling_spec(s),
    }
}

/// Computes the digest of `bytes` under the chosen weak oracle.
pub fn weak_digest(o: &WeakHash, bytes: &[u8]) -> (h: u32)
    ensures
        h == weak_digest_spec(*o, bytes@),
{
    match o {
        WeakHash::XorWindow => xor32_hash(bytes),
        WeakHash::Rolling => simple_hash_bytes(bytes),
    }
}

/// The per-byte breakdown of the XOR-window digest: entry `i` holds the
/// contribution of byte `i` and the accumulator value after absorbing it.
pub fn hash_contributions(s: &[u8]) -> (r: Vec<(u32, u32)>)
    ensures
        r@.len() == s@.len(),
        forall|i: int|
            0 <= i < s@.len() ==> (#[trigger] r@[i]).0 == xor32_term(s@[i], i as nat) && r@[i].1
                == xor32_spec(s@.take(i + 1)),
{
    let mut r: Vec<(u32, u32)> = Vec::new();
    let mut h: u32 = 0;
    let mut i: usize = 0;
    while i < s.len()
        invariant
            i <= s.len(),
            r@.len() == i,
            h == xor32_spec(s@.take(i as int)),
            forall|j: int|
                0 <= j < i ==> (#[trigger] r@[j]).0 == xor32_term(s@[j], j as nat) && r@[j].1
                    == xor32_spec(s@.take(j + 1)),
        decreases s.len() - i,
    {
        let shift: u32 = ((i % 4) * 8) as u32;
        let contribution: u32 = (s[i] as u32) << shift;
        h = h ^ contribution;
        proof {
            let t = s@.take(i + 1);
            assert(t.drop_last() =~= s@.take(i as int));
            assert(t.last() == s@[i as int]);
        }
        r.push((contribution, h));
        i = i + 1;
    }
    r
}

/// Oracle determinism: each digest is a function of the bytes alone, so
/// any two computations over equal byte sequences yield equal digests,
/// independent of thread, ordering, or prior calls.
pub proof fn lemma_digest_deterministic(b1: Seq<u8>, b2: Seq<u8>)
    requires
        b1 == b2,
    ensures
        xor32_spec(b1) == xor32_spec(b2),
        rolling_spec(b1) == rolling_spec(b2),
        sha256_of(b1) == sha256_of(b2),
{
}

/// Unfolds the XOR-window digest of an 8-byte sequence into the XOR of
/// its eight positional terms.
pub proof fn lemma_xor32_unfold8(s: Seq<u8>)
    requires
        s.len() == 8,
    ensures
        xor32_spec(s) == xor32_term(s[0], 0) ^ xor32_term(s[1], 1) ^ xor32_term(s[2], 2)
            ^ xor32_term(s[3], 3) ^ xor32_term(s[4], 4) ^ xor32_term(s[5], 5) ^ xor32_term(
            s[6],
            6,
        ) ^ xor32_term(s[7], 7),
{
    let u7 = s.drop_last();
    let u6 = u7.drop_last();
    let u5 = u6.drop_last();
    let u4 = u5.drop_last();
    let u3 = u4.drop_last();
    let u2 = u3.drop_last();
    let u1 = u2.drop_last();
    let u0 = u1.drop_last();
    assert(xor32_spec(s) == xor32_spec(u7) ^ xor32_term(s[7], 7));
    assert(xor32_spec(u7) == xor32_spec(u6) ^ xor32_term(s[6], 6));
    assert(xor32_spec(u6) == xor32_spec(u5) ^ xor32_term(s[5], 5));
    assert(xor32_spec(u5) == xor32_spec(u4) ^ xor32_term(s[4], 4));
    assert(xor32_spec(u4) == xor32_spec(u3) ^ xor32_term(s[3], 3));
    assert(xor32_spec(u3) == xor32_spec(u2) ^ xor32_term(s[2], 2));
    assert(xor32_spec(u2) == xor32_spec(u1) ^ xor32_term(s[1], 1));
    assert(xor32_spec(u1) == xor32_spec(u0) ^ xor32_term(s[0], 0));
    assert(xor32_spec(u0) == 0);
    let a: u32 = xor32_term(s[0], 0);
    let b: u32 = xor32_term(s[1], 1);
    let c: u32 = xor32_term(s[2], 2);
    let d: u32 = xor32_term(s[3], 3);
    let e: u32 = xor32_term(s[4], 4);
    let f: u32 = xor32_term(s[5], 5);
    let g: u32 = xor32_term(s[6], 6);
    let h: u32 = xor32_term(s[7], 7);
    assert(((((((((0u32 ^ a) ^ b) ^ c) ^ d) ^ e) ^ f) ^ g) ^ h) == a ^ b ^ c ^ d ^ e ^ f ^ g ^ h)
        by (bit_vector);
}

/// Block invariance of the XOR-window hash: because the shift pattern
/// repeats every 4 bytes, swapping the two 4-byte halves of an 8-byte
/// input leaves the digest unchanged.
pub proof fn lemma_xor32_block_swap(s: Seq<u8>)
    requires
        s.len() == 8,
    ensures
        xor32_spec(s.subrange(4, 8) + s.subrange(0, 4)) == xor32_spec(s),
{
    let t = s.subrange(4, 8) + s.subrange(0, 4);
    lemma_xor32_unfold8(s);
    lemma_xor32_unfold8(t);
    assert(t[0] == s[4] && t[1] == s[5] && t[2] == s[6] && t[3] == s[7] && t[4] == s[0] && t[5]
        == s[1] && t[6] == s[2] && t[7] == s[3]);
    assert(xor32_term(t[0], 0) == xor32_term(s[4], 4));
    assert(xor32_term(t[1], 1) == xor32_term(s[5], 5));
    assert(xor32_term(t[2], 2) == xor32_term(s[6], 6));
    assert(xor32_term(t[3], 3) == xor32_term(s[7], 7));
    assert(xor32_term(t[4], 4) == xor32_term(s[0], 0));
    assert(xor32_term(t[5], 5) == xor32_term(s[1], 1));
    assert(xor32_term(t[6], 6) == xor32_term(s[2], 2));
    assert(xor32_term(t[7], 7) == xor32_term(s[3], 3));
    let a: u32 = xor32_term(s[0], 0);
    let b: u32 = xor32_term(s[1], 1);
    let c: u32 = xor32_term(s[2], 2);
    let d: u32 = xor32_term(s[3], 3);
    let e: u32 = xor32_term(s[4], 4);
    let f: u32 = xor32_term(s[5], 5);
    let g: u32 = xor32_term(s[6], 6);
    let h: u32 = xor32_term(s[7], 7);
    assert(e ^ f ^ g ^ h ^ a ^ b ^ c ^ d == a ^ b ^ c ^ d ^ e ^ f ^ g ^ h) by (bit_vector);
}

} // verus!
