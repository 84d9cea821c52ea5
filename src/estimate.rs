//! Commitment and verification estimates, in nanoseconds, for hash
//! functions named by their measured latency.

use crate::cost::{
    commitment_cost, commitment_result, commitment_time, nodes_between, reported,
    unknown_hash, verification_cost, verification_result, verification_time, EstimateError,
};
use crate::text::same_text;
use vstd::arithmetic::power2::lemma_pow2_strictly_increases;
use vstd::prelude::*;

verus! {

/// Measured latency, in nanoseconds, of one invocation of the named hash.
pub open spec fn hashing_time(name: Seq<char>) -> Option<usize> {
    if name == "Poseidon"@ {
        Some(41000)
    } else if name == "Keccak"@ {
        Some(19000)
    } else if name == "Blake3"@ {
        Some(650)
    } else {
        None
    }
}

/// Whether the named hash has a known latency.
pub open spec fn known(name: Seq<char>) -> bool {
    hashing_time(name) is Some
}

/// Latency of a known hash.
pub open spec fn latency(name: Seq<char>) -> nat {
    match hashing_time(name) {
        Some(t) => t as nat,
        None => 0,
    }
}

/// The commitment estimate owed for two known hash names.
pub open spec fn commitment_estimate(
    n: nat,
    m: nat,
    k: nat,
    h1: Seq<char>,
    h2: Seq<char>,
) -> Result<usize, EstimateError> {
    commitment_result(n, m, k, latency(h1), latency(h2))
}

/// The verification estimate owed for two known hash names.
pub open spec fn verification_estimate(
    n: nat,
    m: nat,
    k: nat,
    h1: Seq<char>,
    h2: Seq<char>,
) -> Result<usize, EstimateError> {
    verification_result(n, m, k, latency(h1), latency(h2))
}

/// Whether `r` is the commitment estimate owed for any two names.
pub open spec fn is_commitment_estimate(
    r: Result<usize, EstimateError>,
    n: nat,
    m: nat,
    k: nat,
    h1: Seq<char>,
    h2: Seq<char>,
) -> bool {
    reported(r, h1, hashing_time(h1), h2, hashing_time(h2), commitment_estimate(n, m, k, h1, h2))
}

/// Whether `r` is the verification estimate owed for any two names.
pub open spec fn is_verification_estimate(
    r: Result<usize, EstimateError>,
    n: nat,
    m: nat,
    k: nat,
    h1: Seq<char>,
    h2: Seq<char>,
) -> bool {
    reported(
        r,
        h1,
        hashing_time(h1),
        h2,
        hashing_time(h2),
        verification_estimate(n, m, k, h1, h2),
    )
}

/// Looks up the latency of the named hash.
pub fn get_hashing_time(hash: &str) -> (r: Option<usize>)
    ensures
        r == hashing_time(hash@),
{
    if same_text(hash, "Poseidon") {
        Some(41000)
    } else if same_text(hash, "Keccak") {
        Some(19000)
    } else if same_text(hash, "Blake3") {
        Some(650)
    } else {
        None
    }
}

/// Commitment time for `2^n` leaves hashed with `h1` up to level `m`, then
/// with `h2` up to the cap at level `k`.
pub fn estimate_commitment_time_mixed_capped(n: usize, m: usize, k: usize, h1: &str, h2: &str) -> (r:
    Result<usize, EstimateError>)
    ensures
        is_commitment_estimate(r, n as nat, m as nat, k as nat, h1@, h2@),
{
    let t1 = match get_hashing_time(h1) {
        Some(t) => t,
        None => return unknown_hash(h1),
    };
    let t2 = match get_hashing_time(h2) {
        Some(t) => t,
        None => return unknown_hash(h2),
    };
    commitment_time(n, m, k, t1, t2)
}

/// Commitment time with a single root as the cap.
pub fn estimate_commitment_time_mixed(n: usize, m: usize, h1: &str, h2: &str) -> (r: Result<
    usize,
    EstimateError,
>)
    ensures
        is_commitment_estimate(r, n as nat, m as nat, 0, h1@, h2@),
{
    estimate_commitment_time_mixed_capped(n, m, 0, h1, h2)
}

/// Commitment time with the single hash `h` and the cap at level `k`.
pub fn estimate_commitment_time_capped(n: usize, k: usize, h: &str) -> (r: Result<
    usize,
    EstimateError,
>)
    ensures
        is_commitment_estimate(r, n as nat, k as nat, k as nat, h@, h@),
{
    estimate_commitment_time_mixed_capped(n, k, k, h, h)
}

/// Commitment time with the single hash `h` and a single root.
pub fn estimate_commitment_time(n: usize, h: &str) -> (r: Result<usize, EstimateError>)
    ensures
        is_commitment_estimate(r, n as nat, 0, 0, h@, h@),
{
    estimate_commitment_time_mixed_capped(n, 0, 0, h, h)
}

/// Time to verify one path: `n - m` levels hashed with `h1`, then `m - k`
/// levels with `h2`.
pub fn estimate_verification_time_mixed_capped(
    n: usize,
    m: usize,
    k: usize,
    h1: &str,
    h2: &str,
) -> (r: Result<usize, EstimateError>)
    ensures
        is_verification_estimate(r, n as nat, m as nat, k as nat, h1@, h2@),
{
    let t1 = match get_hashing_time(h1) {
        Some(t) => t,
        None => return unknown_hash(h1),
    };
    let t2 = match get_hashing_time(h2) {
        Some(t) => t,
        None => return unknown_hash(h2),
    };
    verification_time(n, m, k, t1, t2)
}

/// Verification time with a single root as the cap.
pub fn estimate_verification_time_mixed(n: usize, m: usize, h1: &str, h2: &str) -> (r: Result<
    usize,
    EstimateError,
>)
    ensures
        is_verification_estimate(r, n as nat, m as nat, 0, h1@, h2@),
{
    estimate_verification_time_mixed_capped(n, m, 0, h1, h2)
}

/// Verification time with the single hash `h` and the cap at level `k`.
pub fn estimate_verification_time_capped(n: usize, k: usize, h: &str) -> (r: Result<
    usize,
    EstimateError,
>)
    ensures
        is_verification_estimate(r, n as nat, k as nat, k as nat, h@, h@),
{
    estimate_verification_time_mixed_capped(n, k, k, h, h)
}

/// Verification time with the single hash `h` and a single root.
pub fn estimate_verification_time(n: usize, h: &str) -> (r: Result<usize, EstimateError>)
    ensures
        is_verification_estimate(r, n as nat, 0, 0, h@, h@),
{
    estimate_verification_time_mixed_capped(n, 0, 0, h, h)
}

/// A single hash capped at level `k` costs the same whether the switch level
/// is put at the cap or at the leaves: the switch never matters.
pub proof fn lemma_capped_is_switch_at_leaves(n: nat, k: nat, h: Seq<char>)
    requires
        known(h),
    ensures
        commitment_estimate(n, k, k, h, h) == commitment_estimate(n, n, k, h, h),
{
    let t = latency(h);
    assert(nodes_between(k, k) == 0);
    assert(nodes_between(n, n) == 0);
    assert(commitment_cost(n, k, k, t, t) == commitment_cost(n, n, k, t, t)) by (nonlinear_arith)
        requires
            commitment_cost(n, k, k, t, t) == nodes_between(k, n) * t + nodes_between(k, k) * t,
            commitment_cost(n, n, k, t, t) == nodes_between(n, n) * t + nodes_between(k, n) * t,
            nodes_between(k, k) == 0,
            nodes_between(n, n) == 0,
    ;
}

/// Using the same hash on both sides of the switch at level `m` is the same
/// as never switching.
pub proof fn lemma_same_hash_ignores_switch(n: nat, m: nat, k: nat, h: Seq<char>)
    requires
        k <= m <= n,
        known(h),
    ensures
        commitment_estimate(n, m, k, h, h) == commitment_estimate(n, k, k, h, h),
{
    let t = latency(h);
    let a = nodes_between(m, n);
    let b = nodes_between(k, m);
    assert(nodes_between(k, n) == a + b);
    assert(nodes_between(k, k) == 0);
    assert(a * t + b * t == (a + b) * t + 0 * t) by (nonlinear_arith);
}

/// Verifying against a single root with a single hash costs exactly one
/// hash per level.
pub proof fn lemma_single_hash_verification(n: nat, h: Seq<char>)
    requires
        known(h),
    ensures
        verification_estimate(n, 0, 0, h, h) == (if n * latency(h) <= usize::MAX {
            Ok((n * latency(h)) as usize)
        } else {
            Err(EstimateError::Overflow)
        }),
{
    let t = latency(h);
    assert(verification_cost(n, 0, 0, t, t) == n * t) by (nonlinear_arith)
        requires
            verification_cost(n, 0, 0, t, t) == (n - 0) * t + (0 - 0) * t,
    ;
}

/// More leaves cost strictly more to commit to, with the switch and cap
/// levels and both hashes held fixed.
pub proof fn lemma_commitment_grows_with_leaves(
    n1: nat,
    n2: nat,
    m: nat,
    k: nat,
    h1: Seq<char>,
    h2: Seq<char>,
)
    requires
        k <= m <= n1 < n2,
        known(h1),
        known(h2),
    ensures
        commitment_cost(n1, m, k, latency(h1), latency(h2)) < commitment_cost(
            n2,
            m,
            k,
            latency(h1),
            latency(h2),
        ),
{
    let t1 = latency(h1);
    let t2 = latency(h2);
    lemma_pow2_strictly_increases(n1 + 1, n2 + 1);
    let d1 = nodes_between(m, n1);
    let d2 = nodes_between(m, n2);
    assert(d1 < d2);
    assert(d1 * t1 < d2 * t1) by (nonlinear_arith)
        requires
            d1 < d2,
            t1 > 0,
    ;
}

/// A higher cap level costs strictly less, to commit and to verify, with the
/// other levels and both hashes held fixed.
pub proof fn lemma_higher_cap_costs_less(
    n: nat,
    m: nat,
    k1: nat,
    k2: nat,
    h1: Seq<char>,
    h2: Seq<char>,
)
    requires
        k1 < k2 <= m <= n,
        known(h1),
        known(h2),
    ensures
        commitment_cost(n, m, k2, latency(h1), latency(h2)) < commitment_cost(
            n,
            m,
            k1,
            latency(h1),
            latency(h2),
        ),
        verification_cost(n, m, k2, latency(h1), latency(h2)) < verification_cost(
            n,
            m,
            k1,
            latency(h1),
            latency(h2),
        ),
{
    let t2 = latency(h2);
    lemma_pow2_strictly_increases(k1 + 1, k2 + 1);
    let d1 = nodes_between(k1, m);
    let d2 = nodes_between(k2, m);
    assert(d2 < d1);
    assert(d2 * t2 < d1 * t2) by (nonlinear_arith)
        requires
            d2 < d1,
            t2 > 0,
    ;
    assert((m - k2) * t2 < (m - k1) * t2) by (nonlinear_arith)
        requires
            k1 < k2 <= m,
            t2 > 0,
    ;
}

} // verus!
