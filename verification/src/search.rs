//! The parallel bounded search coordinator.
//!
//! A query pairs an oracle with a match predicate. Worker `k` of `n`
//! sweeps the interleaved index class `k, k + n, k + 2n, ...` below the
//! bound, driving each index through the enumerator, the oracle and the
//! predicate. The serial coordinator is complete: it finds a match
//! exactly when one exists below the bound. The parallel coordinator
//! runs the same verified worker loop on a thread pool with a shared
//! cancellation flag; every candidate it returns is a proven match.

use vstd::prelude::*;
use vstd::arithmetic::div_mod::lemma_fundamental_div_mod;
use vstd::arithmetic::div_mod::lemma_mod_add_multiples_vanish;
use vstd::arithmetic::div_mod::lemma_small_mod;
use crate::enumerate::Enumerator;
use crate::enumerate::candidate_at;
use crate::hex::bytes_equal;
use crate::hex::hex_of;
use crate::hex::starts_with_hex_pattern;
use crate::oracle::WeakHash;
use crate::oracle::sha256_digest;
use crate::oracle::sha256_of;
use crate::oracle::weak_digest;
use crate::oracle::weak_digest_spec;

verus! {

/// A match predicate together with the oracle it tests.
pub enum Query {
    /// A weak-oracle digest must equal `target`, and the candidate must
    /// differ from `exclude` (the original, for (second-)preimage runs).
    WeakTarget { oracle: WeakHash, target: u32, exclude: Vec<u8> },
    /// The lowercase hex encoding of the SHA-256 digest must start with
    /// `pattern` (given as ASCII hex characters).
    ShaHexPrefix { pattern: Vec<u8> },
}

/// Whether candidate `c` satisfies query `q`.
pub open spec fn query_matches(q: Query, c: Seq<u8>) -> bool {
    match q {
        Query::WeakTarget { oracle, target, exclude } => weak_digest_spec(oracle, c) == target
            && c != exclude@,
        Query::ShaHexPrefix { pattern } => pattern@.is_prefix_of(hex_of(sha256_of(c))),
    }
}

/// Evaluates query `q` on candidate `c`.
pub fn evaluate(q: &Query, c: &[u8]) -> (r: bool)
    ensures
        r == query_matches(*q, c@),
{
    match q {
        Query::WeakTarget { oracle, target, exclude } => {
            let h = weak_digest(oracle, c);
            h == *target && !bytes_equal(c, exclude.as_slice())
        },
        Query::ShaHexPrefix { pattern } => {
            let digest = sha256_digest(c);
            starts_with_hex_pattern(digest.as_slice(), pattern.as_slice())
        },
    }
}

/// The shared cancellation signal: a single atomic boolean, set once a
/// worker has found a match and observed by every worker. A reader may
/// see a stale value, so nothing is assumed of what `is_set` returns.
pub struct SearchFlag {
    cell: core::sync::atomic::AtomicBool,
}

impl SearchFlag {
    /// Creates a fresh, unset signal for one search call.
    pub fn new() -> SearchFlag {
        SearchFlag { cell: core::sync::atomic::AtomicBool::new(false) }
    }

    /// Raises the signal. It is never reset within a search call.
    pub fn set(&self) {
        self.cell.store(true, core::sync::atomic::Ordering::Relaxed);
    }

    /// Observes the signal; the result may lag behind a recent `set`.
    pub fn is_set(&self) -> bool {
        self.cell.load(core::sync::atomic::Ordering::Relaxed)
    }
}

/// Two indices in the same residue class modulo `n` lie at least `n` apart.
proof fn lemma_class_gap(a: int, b: int, n: int)
    requires
        0 <= a < b,
        0 < n,
        a % n == b % n,
    ensures
        a + n <= b,
{
    lemma_fundamental_div_mod(a, n);
    lemma_fundamental_div_mod(b, n);
    let qa = a / n;
    let qb = b / n;
    let r = a % n;
    assert(qa < qb) by (nonlinear_arith)
        requires
            n * qa + r < n * qb + r,
            0 < n,
    ;
    assert(n * (qa + 1) <= n * qb) by (nonlinear_arith)
        requires
            qa < qb,
            0 < n,
    ;
    assert(n * (qa + 1) == n * qa + n) by (nonlinear_arith);
}

/// Worker `k` of `n`: sweeps indices `k, k + n, k + 2n, ...` below
/// `bound` and returns the first match in its class, or `None` when the
/// class holds none.
pub fn worker_scan(q: &Query, e: &Enumerator, k: u64, n: u64, bound: u64) -> (r: Option<
    (u64, Vec<u8>),
>)
    requires
        e.wf(),
        1 <= n,
        k < n,
        bound <= u64::MAX - n,
    ensures
        match r {
            Some((i, c)) => i < bound && i % n == k && c@ == e.candidate(i as nat)
                && query_matches(*q, c@) && forall|j: u64|
                j < i && j % n == k ==> !query_matches(*q, #[trigger] e.candidate(j as nat)),
            None => forall|j: u64|
                j < bound && j % n == k ==> !query_matches(*q, #[trigger] e.candidate(j as nat)),
        },
{
    let mut i: u64 = k;
    proof {
        lemma_small_mod(k as nat, n as nat);
        assert forall|j: u64| j < i && j % n == k implies !query_matches(
            *q,
            #[trigger] e.candidate(j as nat),
        ) by {
            lemma_small_mod(j as nat, n as nat);
        }
    }
    while i < bound
        invariant
            e.wf(),
            1 <= n,
            k < n,
            bound <= u64::MAX - n,
            i % n == k,
            forall|j: u64|
                j < i && j % n == k ==> !query_matches(*q, #[trigger] e.candidate(j as nat)),
        decreases bound + n - i,
    {
        let c = candidate_at(e, i);
        if evaluate(q, c.as_slice()) {
            return Some((i, c));
        }
        proof {
            lemma_mod_add_multiples_vanish(i as int, n as int);
            assert forall|j: u64| j < i + n && j % n == k implies !query_matches(
                *q,
                #[trigger] e.candidate(j as nat),
            ) by {
                if i < j {
                    lemma_class_gap(i as int, j as int, n as int);
                }
            }
        }
        i = i + n;
    }
    None
}

/// Worker `k` of `n` with cancellation: like `worker_scan`, but gives up
/// as soon as the shared signal is observed set, raising the signal
/// itself when it finds a match. `None` therefore promises nothing; any
/// returned candidate is a proven match.
pub fn worker_scan_cancellable(
    q: &Query,
    e: &Enumerator,
    k: u64,
    n: u64,
    bound: u64,
    flag: &SearchFlag,
) -> (r: Option<(u64, Vec<u8>)>)
    requires
        e.wf(),
        1 <= n,
        k < n,
        bound <= u64::MAX - n,
    ensures
        r matches Some((i, c)) ==> i < bound && i % n == k && c@ == e.candidate(i as nat)
            && query_matches(*q, c@),
{
    let mut i: u64 = k;
    proof {
        lemma_small_mod(k as nat, n as nat);
    }
    while i < bound
        invariant
            e.wf(),
            1 <= n,
            k < n,
            bound <= u64::MAX - n,
            i % n == k,
        decreases bound + n - i,
    {
        if flag.is_set() {
            return None;
        }
        let c = candidate_at(e, i);
        if evaluate(q, c.as_slice()) {
            flag.set();
            return Some((i, c));
        }
        proof {
            lemma_mod_add_multiples_vanish(i as int, n as int);
        }
        i = i + n;
    }
    None
}

/// Relies on rayon's `into_par_iter` over `0..workers` and
/// `find_map_any`: the workers run concurrently and the result, when
/// there is one, is a value some closure call returned in `Some` — here
/// always a find of the verified cancellable worker. Which match is
/// returned when several workers find one is scheduling-dependent.
#[verifier::external_body]
fn par_search(q: &Query, e: &Enumerator, workers: usize, bound: u64, flag: &SearchFlag) -> (r:
    Option<(u64, Vec<u8>)>)
    requires
        e.wf(),
        1 <= workers,
        bound <= u64::MAX - workers as u64,
    ensures
        r matches Some((i, c)) ==> i < bound && c@ == e.candidate(i as nat) && query_matches(
            *q,
            c@,
        ),
{
    rayon::iter::ParallelIterator::find_map_any(
        rayon::iter::IntoParallelIterator::into_par_iter(0..workers),
        |k| worker_scan_cancellable(q, e, k as u64, workers as u64, bound, flag),
    )
}

/// Relies on rayon::current_num_threads for the thread pool's
/// parallelism degree; nothing is assumed of the value.
#[verifier::external_body]
fn pool_threads() -> usize {
    rayon::current_num_threads()
}

/// The available hardware parallelism, at least 1.
pub fn default_worker_count() -> (n: usize)
    ensures
        1 <= n,
{
    let t = pool_threads();
    if t == 0 {
        1
    } else {
        t
    }
}

/// The outcome of one bounded search call.
pub enum SearchOutcome {
    /// A worker found index `index` whose candidate satisfies the query.
    Found { index: u64, candidate: Vec<u8> },
    /// No index below the bound satisfied the query.
    Exhausted,
}

/// The serial coordinator: sweeps every worker class in turn. It is
/// complete — it returns a match exactly when one exists below `bound`,
/// whatever the worker count `n`, since the classes cover `[0, bound)`
/// with no index visited twice.
pub fn search_serial(q: &Query, e: &Enumerator, n: u64, bound: u64) -> (r: SearchOutcome)
    requires
        e.wf(),
        1 <= n,
        bound <= u64::MAX - n,
    ensures
        r matches SearchOutcome::Found { index, candidate } ==> index < bound && candidate@
            == e.candidate(index as nat) && query_matches(*q, candidate@),
        r is Exhausted ==> forall|j: u64|
            j < bound ==> !query_matches(*q, #[trigger] e.candidate(j as nat)),
{
    let mut k: u64 = 0;
    while k < n
        invariant
            e.wf(),
            1 <= n,
            k <= n,
            bound <= u64::MAX - n,
            forall|j: u64|
                j < bound && j % n < k ==> !query_matches(*q, #[trigger] e.candidate(j as nat)),
        decreases n - k,
    {
        match worker_scan(q, e, k, n, bound) {
            Some((index, candidate)) => {
                return SearchOutcome::Found { index, candidate };
            },
            None => {},
        }
        k = k + 1;
    }
    proof {
        assert forall|j: u64| j < bound implies !query_matches(
            *q,
            #[trigger] e.candidate(j as nat),
        ) by {
            assert(j % n < n);
        }
    }
    SearchOutcome::Exhausted
}

/// The parallel coordinator: runs the cancellable worker for every class
/// on the thread pool, with a fresh shared cancellation signal. Any
/// returned candidate is a proven match; which of several simultaneous
/// matches wins is scheduling-dependent by design.
pub fn search_parallel(q: &Query, e: &Enumerator, workers: usize, bound: u64) -> (r: SearchOutcome)
    requires
        e.wf(),
        1 <= workers,
        bound <= u64::MAX - workers as u64,
    ensures
        r matches SearchOutcome::Found { index, candidate } ==> index < bound && candidate@
            == e.candidate(index as nat) && query_matches(*q, candidate@),
{
    let flag = SearchFlag::new();
    match par_search(q, e, workers, bound, &flag) {
        Some((index, candidate)) => SearchOutcome::Found { index, candidate },
        None => SearchOutcome::Exhausted,
    }
}

/// No double-counting: over a space whose only satisfying index below
/// `bound` is `istar`, any two successful coordinator outcomes carry the
/// same candidate — the one at `istar` — independent of how many workers
/// each run used.
pub proof fn lemma_unique_match_same_result(
    q: Query,
    e: Enumerator,
    bound: u64,
    istar: u64,
    i1: u64,
    c1: Seq<u8>,
    i2: u64,
    c2: Seq<u8>,
)
    requires
        istar < bound,
        forall|j: u64|
            j < bound ==> (query_matches(q, #[trigger] e.candidate(j as nat)) <==> j == istar),
        i1 < bound,
        c1 == e.candidate(i1 as nat),
        query_matches(q, c1),
        i2 < bound,
        c2 == e.candidate(i2 as nat),
        query_matches(q, c2),
    ensures
        i1 == istar,
        i2 == istar,
        c1 == c2,
        c1 == e.candidate(istar as nat),
{
}

} // verus!
