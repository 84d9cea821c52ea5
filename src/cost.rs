//! The Merkle-tree cost formulae, on per-hash latencies.
//!
//! A tree has `2^n` leaves. Commitment hashes every node below the cap:
//! the levels from the leaves up to the switch level `m` use the first hash,
//! those from `m` up to the cap level `k` use the second one. Verification
//! walks one path and hashes once per level instead.

use vstd::arithmetic::power2::{
    lemma2_to64, lemma_pow2_pos, lemma_pow2_strictly_increases, lemma_pow2_unfold, pow2,
};
use vstd::prelude::*;
use vstd::string::StringExecFns;

verus! {

/// Why an estimate could not be given.
#[derive(Debug, Clone, PartialEq, Eq)]
pub enum EstimateError {
    /// The named hash function has no known latency.
    UnknownHash(String),
    /// The levels are out of order: `k <= m <= n` does not hold.
    InvalidShape,
    /// The estimate does not fit in a `usize`.
    Overflow,
}

/// Whether `r` is the error that names the unknown hash `name`.
pub open spec fn reports_unknown(r: Result<usize, EstimateError>, name: Seq<char>) -> bool {
    match r {
        Err(EstimateError::UnknownHash(s)) => s@ == name,
        _ => false,
    }
}

/// Whether `r` is what an estimate owes once both hash names have been
/// looked up: the error for the first unknown name, else `owed`.
pub open spec fn reported(
    r: Result<usize, EstimateError>,
    h1: Seq<char>,
    t1: Option<usize>,
    h2: Seq<char>,
    t2: Option<usize>,
    owed: Result<usize, EstimateError>,
) -> bool {
    if t1 is None {
        reports_unknown(r, h1)
    } else if t2 is None {
        reports_unknown(r, h2)
    } else {
        r == owed
    }
}

/// The error for a hash name that has no known latency.
pub fn unknown_hash(name: &str) -> (r: Result<usize, EstimateError>)
    ensures
        reports_unknown(r, name@),
{
    Err(EstimateError::UnknownHash(String::from_str(name)))
}

/// Number of hash invocations that building the levels from `lo` up to `hi`
/// takes: `(2 << hi) - (2 << lo)`.
pub open spec fn nodes_between(lo: nat, hi: nat) -> int {
    pow2(hi + 1) - pow2(lo + 1)
}

/// Whether the levels are ordered as the model needs: `k <= m <= n`.
pub open spec fn shape_ok(n: nat, m: nat, k: nat) -> bool {
    k <= m <= n
}

/// Time to commit to a tree of `2^n` leaves whose hash switches at level `m`
/// and whose cap is at level `k`, with latencies `t1` and `t2`.
pub open spec fn commitment_cost(n: nat, m: nat, k: nat, t1: nat, t2: nat) -> int {
    nodes_between(m, n) * t1 + nodes_between(k, m) * t2
}

/// Time to verify one path in the same tree: one hash per level.
pub open spec fn verification_cost(n: nat, m: nat, k: nat, t1: nat, t2: nat) -> int {
    (n - m) * t1 + (m - k) * t2
}

/// The outcome owed for an estimate of `cost` on levels that are ordered or not.
pub open spec fn checked_estimate(ordered: bool, cost: int) -> Result<usize, EstimateError> {
    if !ordered {
        Err(EstimateError::InvalidShape)
    } else if cost > usize::MAX {
        Err(EstimateError::Overflow)
    } else {
        Ok(cost as usize)
    }
}

/// The outcome owed by a commitment estimate on known latencies.
pub open spec fn commitment_result(n: nat, m: nat, k: nat, t1: nat, t2: nat) -> Result<
    usize,
    EstimateError,
> {
    checked_estimate(shape_ok(n, m, k), commitment_cost(n, m, k, t1, t2))
}

/// The outcome owed by a verification estimate on known latencies.
pub open spec fn verification_result(n: nat, m: nat, k: nat, t1: nat, t2: nat) -> Result<
    usize,
    EstimateError,
> {
    checked_estimate(shape_ok(n, m, k), verification_cost(n, m, k, t1, t2))
}

/// `2^e`, for `e <= 64`.
fn pow2_wide(e: usize) -> (r: u128)
    requires
        e <= 64,
    ensures
        r == pow2(e as nat),
{
    let mut r: u128 = 1;
    let mut i: usize = 0;
    proof {
        lemma2_to64();
    }
    while i < e
        invariant
            i <= e <= 64,
            r == pow2(i as nat),
        decreases e - i,
    {
        proof {
            lemma_pow2_unfold((i + 1) as nat);
            if i + 1 < 64 {
                lemma_pow2_strictly_increases((i + 1) as nat, 64);
            }
            lemma2_to64();
        }
        r = r * 2;
        i = i + 1;
    }
    r
}

/// `nodes_between(lo, hi) * t` when it fits in a `usize`.
fn region_time(lo: usize, hi: usize, t: usize) -> (r: Option<u128>)
    requires
        lo <= hi,
    ensures
        match r {
            Some(v) => v == nodes_between(lo as nat, hi as nat) * t && v <= usize::MAX,
            None => nodes_between(lo as nat, hi as nat) * t > usize::MAX,
        },
{
    if lo == hi || t == 0 {
        assert(nodes_between(lo as nat, hi as nat) * t == 0) by (nonlinear_arith)
            requires
                lo == hi || t == 0,
                nodes_between(lo as nat, hi as nat) == pow2((hi + 1) as nat) - pow2(
                    (lo + 1) as nat,
                ),
        ;
        return Some(0);
    }
    let ghost diff = nodes_between(lo as nat, hi as nat);
    proof {
        lemma_pow2_strictly_increases((lo + 1) as nat, (hi + 1) as nat);
        lemma_pow2_unfold((hi + 1) as nat);
        lemma_pow2_pos(lo as nat);
        lemma_pow2_unfold((lo + 1) as nat);
        lemma2_to64();
        if lo + 1 < hi {
            lemma_pow2_strictly_increases((lo + 1) as nat, hi as nat);
        }
        if hi + 1 < 64 {
            lemma_pow2_strictly_increases((hi + 1) as nat, 64);
        }
    }
    if hi >= 64 {
        proof {
            if hi > 64 {
                lemma_pow2_strictly_increases(64, hi as nat);
            }
            assert(diff * t >= diff) by (nonlinear_arith)
                requires
                    t >= 1,
                    diff >= 0,
            ;
        }
        return None;
    }
    let p_hi = pow2_wide(hi + 1);
    let p_lo = pow2_wide(lo + 1);
    let d = p_hi - p_lo;
    assert(d * t <= 0xffff_ffff_ffff_ffff * 0xffff_ffff_ffff_ffffu128) by (nonlinear_arith)
        requires
            d <= 0xffff_ffff_ffff_ffffu128,
            t <= 0xffff_ffff_ffff_ffffu128,
    ;
    let v = d * (t as u128);
    if v > usize::MAX as u128 {
        None
    } else {
        Some(v)
    }
}

/// Estimated commitment time, in the unit of the latencies `t1` and `t2`,
/// for `2^n` leaves, a switch of hash at level `m` and the cap at level `k`.
pub fn commitment_time(n: usize, m: usize, k: usize, t1: usize, t2: usize) -> (r: Result<
    usize,
    EstimateError,
>)
    ensures
        r == commitment_result(n as nat, m as nat, k as nat, t1 as nat, t2 as nat),
{
    if !(k <= m && m <= n) {
        return Err(EstimateError::InvalidShape);
    }
    let upper = region_time(m, n, t1);
    let lower = region_time(k, m, t2);
    match (upper, lower) {
        (Some(a), Some(b)) => {
            if a + b > usize::MAX as u128 {
                Err(EstimateError::Overflow)
            } else {
                Ok((a + b) as usize)
            }
        },
        _ => {
            proof {
                assert(nodes_between(m as nat, n as nat) >= 0) by {
                    if m < n {
                        lemma_pow2_strictly_increases((m + 1) as nat, (n + 1) as nat);
                    }
                }
                assert(nodes_between(k as nat, m as nat) >= 0) by {
                    if k < m {
                        lemma_pow2_strictly_increases((k + 1) as nat, (m + 1) as nat);
                    }
                }
                assert(nodes_between(m as nat, n as nat) * t1 >= 0) by (nonlinear_arith)
                    requires
                        nodes_between(m as nat, n as nat) >= 0,
                ;
                assert(nodes_between(k as nat, m as nat) * t2 >= 0) by (nonlinear_arith)
                    requires
                        nodes_between(k as nat, m as nat) >= 0,
                ;
            }
            Err(EstimateError::Overflow)
        },
    }
}

/// Estimated verification time, in the unit of the latencies `t1` and `t2`,
/// for the same tree shape as `commitment_time`.
pub fn verification_time(n: usize, m: usize, k: usize, t1: usize, t2: usize) -> (r: Result<
    usize,
    EstimateError,
>)
    ensures
        r == verification_result(n as nat, m as nat, k as nat, t1 as nat, t2 as nat),
{
    if !(k <= m && m <= n) {
        return Err(EstimateError::InvalidShape);
    }
    let upper = (n - m) as u128;
    let lower = (m - k) as u128;
    assert(upper * t1 <= 0xffff_ffff_ffff_ffff * 0xffff_ffff_ffff_ffffu128) by (nonlinear_arith)
        requires
            upper <= 0xffff_ffff_ffff_ffffu128,
            t1 <= 0xffff_ffff_ffff_ffffu128,
    ;
    assert(lower * t2 <= 0xffff_ffff_ffff_ffff * 0xffff_ffff_ffff_ffffu128) by (nonlinear_arith)
        requires
            lower <= 0xffff_ffff_ffff_ffffu128,
            t2 <= 0xffff_ffff_ffff_ffffu128,
    ;
    let a = upper * (t1 as u128);
    let b = lower * (t2 as u128);
    if a > usize::MAX as u128 || b > usize::MAX as u128 || a + b > usize::MAX as u128 {
        Err(EstimateError::Overflow)
    } else {
        Ok((a + b) as usize)
    }
}

} // verus!
