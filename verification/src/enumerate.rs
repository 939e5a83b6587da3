//! The keyspace enumerator: a deterministic map from an unsigned index to
//! a candidate byte sequence.
//!
//! The mixed-radix form converts the index to base `|alphabet|`, emitting
//! `length` symbols least-significant digit first; over `[0, |alphabet|^length)`
//! it is injective whenever the alphabet has no repeated byte. The
//! prefix-counter form appends a decimal counter to a fixed prefix and is
//! used where only uniqueness, not coverage, matters.

use vstd::prelude::*;
use vstd::arithmetic::div_mod::lemma_fundamental_div_mod;
use vstd::arithmetic::div_mod::lemma_multiply_divide_lt;

verus! {

/// `base` raised to `e`.
pub open spec fn pow_spec(base: nat, e: nat) -> nat
    decreases e,
{
    if e == 0 {
        1
    } else {
        base * pow_spec(base, (e - 1) as nat)
    }
}

/// The candidate that the mixed-radix enumerator assigns to `index`:
/// `len` symbols, least-significant digit first, each digit mapped
/// through the alphabet. Indices at or beyond `|alphabet|^len` wrap.
pub open spec fn radix_candidate(alphabet: Seq<u8>, index: nat, len: nat) -> Seq<u8>
    decreases len,
{
    if len == 0 {
        Seq::empty()
    } else {
        seq![alphabet[(index % alphabet.len()) as int]] + radix_candidate(
            alphabet,
            index / alphabet.len(),
            (len - 1) as nat,
        )
    }
}

/// The decimal digits of `n`, most significant first, as ASCII bytes.
pub open spec fn decimal_digits(n: nat) -> Seq<u8>
    decreases n,
{
    if n < 10 {
        seq![(0x30 + n) as u8]
    } else {
        decimal_digits(n / 10).push((0x30 + n % 10) as u8)
    }
}

/// Whether no byte occurs twice in `s`.
pub open spec fn distinct_bytes(s: Seq<u8>) -> bool {
    forall|p: int, q: int| 0 <= p < q < s.len() ==> s[p] != s[q]
}

/// The keyspace enumerator variants.
pub enum Enumerator {
    /// Mixed-radix conversion over a fixed alphabet, `length` symbols.
    MixedRadix { alphabet: Vec<u8>, length: usize },
    /// A fixed prefix followed by the index written in decimal.
    PrefixCounter { prefix: Vec<u8> },
}

impl Enumerator {
    /// Well-formedness: a mixed-radix enumerator needs a nonempty alphabet.
    pub open spec fn wf(self) -> bool {
        match self {
            Enumerator::MixedRadix { alphabet, length } => alphabet@.len() >= 1,
            Enumerator::PrefixCounter { prefix } => true,
        }
    }

    /// The candidate assigned to `index`.
    pub open spec fn candidate(self, index: nat) -> Seq<u8> {
        match self {
            Enumerator::MixedRadix { alphabet, length } => radix_candidate(
                alphabet@,
                index,
                length as nat,
            ),
            Enumerator::PrefixCounter { prefix } => prefix@ + decimal_digits(index),
        }
    }
}

/// Builds the mixed-radix candidate for `index`.
fn mixed_radix_candidate(alphabet: &[u8], index: u64, len: usize) -> (c: Vec<u8>)
    requires
        alphabet@.len() >= 1,
    ensures
        c@ == radix_candidate(alphabet@, index as nat, len as nat),
        c@.len() == len,
    decreases len,
{
    if len == 0 {
        let c: Vec<u8> = Vec::new();
        proof {
            assert(c@ =~= radix_candidate(alphabet@, index as nat, 0));
        }
        c
    } else {
        let l = alphabet.len() as u64;
        let digit = (index % l) as usize;
        let mut rest = mixed_radix_candidate(alphabet, index / l, len - 1);
        let mut c: Vec<u8> = Vec::new();
        c.push(alphabet[digit]);
        c.append(&mut rest);
        proof {
            assert(c@ =~= seq![alphabet@[(index as nat % alphabet@.len()) as int]]
                + radix_candidate(
                alphabet@,
                index as nat / alphabet@.len(),
                (len - 1) as nat,
            ));
        }
        c
    }
}

/// Builds the decimal digits of `n`.
fn decimal_bytes(n: u64) -> (c: Vec<u8>)
    ensures
        c@ == decimal_digits(n as nat),
    decreases n,
{
    if n < 10 {
        let mut c: Vec<u8> = Vec::new();
        c.push(0x30 + n as u8);
        proof {
            assert(c@ =~= decimal_digits(n as nat));
        }
        c
    } else {
        let mut c = decimal_bytes(n / 10);
        c.push(0x30 + (n % 10) as u8);
        c
    }
}

/// Builds the candidate that `e` assigns to `index`.
pub fn candidate_at(e: &Enumerator, index: u64) -> (c: Vec<u8>)
    requires
        e.wf(),
    ensures
        c@ == e.candidate(index as nat),
{
    match e {
        Enumerator::MixedRadix { alphabet, length } => mixed_radix_candidate(
            alphabet.as_slice(),
            index,
            *length,
        ),
        Enumerator::PrefixCounter { prefix } => {
            let mut c: Vec<u8> = Vec::new();
            let mut digits = decimal_bytes(index);
            let mut i: usize = 0;
            while i < prefix.len()
                invariant
                    i <= prefix@.len(),
                    c@ == prefix@.take(i as int),
                decreases prefix@.len() - i,
            {
                c.push(prefix[i]);
                proof {
                    assert(c@ =~= prefix@.take(i + 1));
                }
                i = i + 1;
            }
            proof {
                assert(prefix@.take(prefix@.len() as int) =~= prefix@);
            }
            c.append(&mut digits);
            c
        },
    }
}

/// Symbol `i` of the mixed-case alphanumeric alphabet: the lower-case
/// letters, then the upper-case letters, then the digits.
pub open spec fn alnum_byte(i: int) -> u8 {
    if i < 26 {
        (0x61 + i) as u8
    } else if i < 52 {
        (0x27 + i) as u8
    } else {
        (i - 4) as u8
    }
}

/// The 62-symbol mixed-case alphanumeric alphabet.
pub open spec fn alnum_alphabet() -> Seq<u8> {
    Seq::new(62, |i: int| alnum_byte(i))
}

/// Builds the mixed-case alphanumeric alphabet.
pub fn standard_alphabet() -> (v: Vec<u8>)
    ensures
        v@ == alnum_alphabet(),
        v@.len() == 62,
{
    let mut v: Vec<u8> = Vec::new();
    let mut i: usize = 0;
    while i < 62
        invariant
            i <= 62,
            v@ =~= Seq::new(i as nat, |j: int| alnum_byte(j)),
        decreases 62 - i,
    {
        let b: u8 = if i < 26 {
            0x61 + i as u8
        } else if i < 52 {
            0x27 + i as u8
        } else {
            i as u8 - 4
        };
        v.push(b);
        proof {
            assert(v@ =~= Seq::new((i + 1) as nat, |j: int| alnum_byte(j)));
        }
        i = i + 1;
    }
    proof {
        assert(v@ =~= alnum_alphabet());
    }
    v
}

/// The alphanumeric alphabet holds no repeated byte, so the mixed-radix
/// enumerator over it is injective on its declared range.
pub proof fn lemma_alnum_distinct()
    ensures
        distinct_bytes(alnum_alphabet()),
{
    assert forall|p: int, q: int| 0 <= p < q < 62 implies alnum_alphabet()[p]
        != alnum_alphabet()[q] by {
        assert(alnum_alphabet()[p] == alnum_byte(p));
        assert(alnum_alphabet()[q] == alnum_byte(q));
    }
}

/// A mixed-radix candidate has exactly `len` symbols, each drawn from the
/// alphabet.
pub proof fn lemma_radix_shape(alphabet: Seq<u8>, index: nat, len: nat)
    requires
        alphabet.len() >= 1,
    ensures
        radix_candidate(alphabet, index, len).len() == len,
        forall|k: int|
            0 <= k < len ==> alphabet.contains(#[trigger] radix_candidate(alphabet, index, len)[k]),
    decreases len,
{
    if len != 0 {
        let tail = radix_candidate(alphabet, index / alphabet.len(), (len - 1) as nat);
        lemma_radix_shape(alphabet, index / alphabet.len(), (len - 1) as nat);
        let r = radix_candidate(alphabet, index, len);
        assert(r[0] == alphabet[(index % alphabet.len()) as int]);
        assert(alphabet.contains(r[0]));
        assert forall|k: int| 1 <= k < len implies alphabet.contains(#[trigger] r[k]) by {
            assert(r[k] == tail[k - 1]);
        }
    }
}

/// Decimal writing is injective: equal digit strings force equal numbers.
pub proof fn lemma_decimal_injective(i: nat, j: nat)
    requires
        decimal_digits(i) == decimal_digits(j),
    ensures
        i == j,
    decreases i,
{
    let d1 = decimal_digits(i);
    let d2 = decimal_digits(j);
    if i < 10 && j < 10 {
        assert(d1[0] == d2[0]);
    } else if i < 10 {
        assert(d1.len() == 1);
        assert(d2.len() == decimal_digits(j / 10).len() + 1);
        lemma_decimal_at_least_one_digit(j / 10);
    } else if j < 10 {
        assert(d2.len() == 1);
        assert(d1.len() == decimal_digits(i / 10).len() + 1);
        lemma_decimal_at_least_one_digit(i / 10);
    } else {
        assert(d1.last() == d2.last());
        assert(d1.drop_last() =~= decimal_digits(i / 10));
        assert(d2.drop_last() =~= decimal_digits(j / 10));
        lemma_decimal_injective(i / 10, j / 10);
        lemma_fundamental_div_mod(i as int, 10);
        lemma_fundamental_div_mod(j as int, 10);
    }
}

/// Every number has at least one decimal digit.
proof fn lemma_decimal_at_least_one_digit(n: nat)
    ensures
        decimal_digits(n).len() >= 1,
    decreases n,
{
    if n >= 10 {
        lemma_decimal_at_least_one_digit(n / 10);
    }
}

/// The prefix-counter enumerator never assigns one candidate to two
/// indices: the uniqueness that search correctness needs in the mode
/// where no bijection over a declared range is required.
pub proof fn lemma_prefix_counter_injective(prefix: Seq<u8>, i: nat, j: nat)
    requires
        prefix + decimal_digits(i) == prefix + decimal_digits(j),
    ensures
        i == j,
{
    let c1 = prefix + decimal_digits(i);
    let c2 = prefix + decimal_digits(j);
    assert(decimal_digits(i) =~= c1.subrange(prefix.len() as int, c1.len() as int));
    assert(decimal_digits(j) =~= c2.subrange(prefix.len() as int, c2.len() as int));
    lemma_decimal_injective(i, j);
}

/// Enumerator bijection over the declared range: distinct indices below
/// `|alphabet|^len` yield distinct candidates whenever the alphabet has
/// no repeated byte. Stated contrapositively: equal candidates force
/// equal indices.
pub proof fn lemma_radix_injective(alphabet: Seq<u8>, i: nat, j: nat, len: nat)
    requires
        alphabet.len() >= 1,
        distinct_bytes(alphabet),
        i < pow_spec(alphabet.len(), len),
        j < pow_spec(alphabet.len(), len),
        radix_candidate(alphabet, i, len) == radix_candidate(alphabet, j, len),
    ensures
        i == j,
    decreases len,
{
    let l = alphabet.len();
    if len == 0 {
        assert(pow_spec(l, 0) == 1);
    } else {
        let r1 = radix_candidate(alphabet, i, len);
        let r2 = radix_candidate(alphabet, j, len);
        let t1 = radix_candidate(alphabet, i / l, (len - 1) as nat);
        let t2 = radix_candidate(alphabet, j / l, (len - 1) as nat);
        lemma_radix_shape(alphabet, i / l, (len - 1) as nat);
        lemma_radix_shape(alphabet, j / l, (len - 1) as nat);
        let di = (i % l) as int;
        let dj = (j % l) as int;
        assert(r1[0] == alphabet[di] && r2[0] == alphabet[dj]);
        assert(di == dj) by {
            if di < dj {
                assert(alphabet[di] != alphabet[dj]);
            }
            if dj < di {
                assert(alphabet[dj] != alphabet[di]);
            }
        }
        assert(t1 =~= t2) by {
            assert forall|k: int| 0 <= k < t1.len() implies t1[k] == t2[k] by {
                assert(t1[k] == r1[k + 1] && t2[k] == r2[k + 1]);
            }
        }
        assert(i / l < pow_spec(l, (len - 1) as nat)) by {
            lemma_multiply_divide_lt(i as int, l as int, pow_spec(l, (len - 1) as nat) as int);
        }
        assert(j / l < pow_spec(l, (len - 1) as nat)) by {
            lemma_multiply_divide_lt(j as int, l as int, pow_spec(l, (len - 1) as nat) as int);
        }
        lemma_radix_injective(alphabet, i / l, j / l, (len - 1) as nat);
        lemma_fundamental_div_mod(i as int, l as int);
        lemma_fundamental_div_mod(j as int, l as int);
    }
}

} // verus!
