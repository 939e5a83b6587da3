//! The birthday collision search: random sampling into a table mapping
//! each digest to the first candidate seen with it, until two distinct
//! candidates share a digest.

use vstd::prelude::*;
use std::collections::HashMap;
use crate::enumerate::alnum_alphabet;
use crate::enumerate::standard_alphabet;
use crate::hex::bytes_equal;
use crate::hex::copy_bytes;
use crate::oracle::rolling_spec;
use crate::oracle::simple_hash_bytes;

verus! {

/// Relies on rand::thread_rng and rand::Rng::gen_range over `0..bound`:
/// the drawn value lies below `bound`.
#[verifier::external_body]
fn random_below(bound: usize) -> (r: usize)
    requires
        1 <= bound,
    ensures
        r < bound,
{
    rand::Rng::gen_range(&mut rand::thread_rng(), 0..bound)
}

/// Draws a fresh random candidate of `len` symbols from the mixed-case
/// alphanumeric alphabet.
pub fn random_candidate(len: usize) -> (r: Vec<u8>)
    ensures
        r@.len() == len,
        forall|k: int| 0 <= k < len ==> alnum_alphabet().contains(#[trigger] r@[k]),
{
    let alphabet = standard_alphabet();
    let mut r: Vec<u8> = Vec::new();
    let mut i: usize = 0;
    while i < len
        invariant
            alphabet@ == alnum_alphabet(),
            i <= len,
            r@.len() == i,
            forall|k: int| 0 <= k < i ==> alnum_alphabet().contains(#[trigger] r@[k]),
        decreases len - i,
    {
        let idx = random_below(62);
        proof {
            assert(alnum_alphabet()[idx as int] == alphabet@[idx as int]);
        }
        r.push(alphabet[idx]);
        i = i + 1;
    }
    r
}

/// The birthday search against the rolling hash: repeatedly draws a
/// random 8-symbol candidate, probes the table of first-seen candidates
/// by digest, and returns the first pair of distinct candidates sharing
/// a digest. Gives up after `max_attempts` draws; any returned pair is a
/// proven collision.
pub fn find_collision_birthday(max_attempts: u64) -> (r: Option<(Vec<u8>, Vec<u8>)>)
    ensures
        r matches Some((a, b)) ==> a@ != b@ && rolling_spec(a@) == rolling_spec(b@) && a@.len()
            == 8 && b@.len() == 8,
{
    let mut table: HashMap<u32, Vec<u8>> = HashMap::new();
    let mut attempts: u64 = 0;
    while attempts < max_attempts
        invariant
            forall|h: u32| #[trigger]
                table@.contains_key(h) ==> rolling_spec(table@[h]@) == h && table@[h]@.len() == 8,
        decreases max_attempts - attempts,
    {
        let candidate = random_candidate(8);
        let h = simple_hash_bytes(candidate.as_slice());
        match table.get(&h) {
            Some(original) => {
                if !bytes_equal(original.as_slice(), candidate.as_slice()) {
                    let first = copy_bytes(original.as_slice());
                    return Some((first, candidate));
                }
                // the same candidate was drawn again; its digest is
                // already in the table, so there is nothing to insert
            },
            None => {
                table.insert(h, candidate);
            },
        }
        attempts = attempts + 1;
    }
    None
}

} // verus!
