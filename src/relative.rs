//! Commitment estimates in relative units, for comparing hash functions by
//! their cost ratio rather than by measured time.

use crate::cost::{commitment_result, commitment_time, reported, unknown_hash, EstimateError};
use crate::text::same_text;
use vstd::prelude::*;

verus! {

/// Relative cost of one invocation of the named hash.
pub open spec fn hashing_time(name: Seq<char>) -> Option<usize> {
    if name == "Poseidon"@ {
        Some(3)
    } else if name == "Keccak"@ {
        Some(10)
    } else if name == "Blake3"@ {
        Some(20)
    } else {
        None
    }
}

/// Relative cost of a known hash.
pub open spec fn latency(name: Seq<char>) -> nat {
    match hashing_time(name) {
        Some(t) => t as nat,
        None => 0,
    }
}

/// Whether `r` is the relative commitment estimate owed for any two names.
pub open spec fn is_running_time(
    r: Result<usize, EstimateError>,
    n: nat,
    m: nat,
    k: nat,
    h1: Seq<char>,
    h2: Seq<char>,
) -> bool {
    reported(
        r,
        h1,
        hashing_time(h1),
        h2,
        hashing_time(h2),
        commitment_result(n, m, k, latency(h1), latency(h2)),
    )
}

/// Looks up the relative cost of the named hash.
pub fn get_hashing_time(hash: &str) -> (r: Option<usize>)
    ensures
        r == hashing_time(hash@),
{
    if same_text(hash, "Poseidon") {
        Some(3)
    } else if same_text(hash, "Keccak") {
        Some(10)
    } else if same_text(hash, "Blake3") {
        Some(20)
    } else {
        None
    }
}

/// Relative commitment cost for `2^n` leaves hashed with `h1` up to level
/// `m`, then with `h2` up to the cap at level `k`.
pub fn estimate_running_time_mixed_capped(n: usize, m: usize, k: usize, h1: &str, h2: &str) -> (r:
    Result<usize, EstimateError>)
    ensures
        is_running_time(r, n as nat, m as nat, k as nat, h1@, h2@),
{
    let t1 = match get_hashing_time(h1) {
        Some(t) => t,
        None => return unknown_hash(h1),
    };
    let t2 = match get_hashing_time(h2) {
        Some(t) => t,
        None => return unknown_hash(h2),
    };
    commitment_time(n, m, k, t1, t2)
}

/// Relative commitment cost with a single root as the cap.
pub fn estimate_running_time_mixed(n: usize, m: usize, h1: &str, h2: &str) -> (r: Result<
    usize,
    EstimateError,
>)
    ensures
        is_running_time(r, n as nat, m as nat, 0, h1@, h2@),
{
    estimate_running_time_mixed_capped(n, m, 0, h1, h2)
}

/// Relative commitment cost with the single hash `h` and a single root.
pub fn estimate_running_time(n: usize, h: &str) -> (r: Result<usize, EstimateError>)
    ensures
        is_running_time(r, n as nat, 0, 0, h@, h@),
{
    estimate_running_time_mixed_capped(n, 0, 0, h, h)
}

} // verus!
