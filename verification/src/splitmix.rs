//! SplitMix64 state expansion.
//!
//! Seeding never installs a caller's words directly as generator state when
//! they may be of low quality: each candidate 64-bit input is expanded by the
//! SplitMix64 procedure (add a fixed odd increment, then three
//! xorshift/multiply finalization rounds), and three successive expansions
//! of one input yield the three state words of a lane.

use vstd::prelude::*;

use crate::model::{add64, mul64, Lane};

verus! {

/// The fixed odd SplitMix64 increment.
pub const SM_GAMMA: u64 = 0x9E37_79B9_7F4A_7C15;

/// First SplitMix64 finalization multiplier.
pub const SM_MULT_1: u64 = 0xBF58_476D_1CE4_E5B9;

/// Second SplitMix64 finalization multiplier.
pub const SM_MULT_2: u64 = 0x94D0_49BB_1331_11EB;

/// The SplitMix64 finalizer: three xorshift/multiply avalanche rounds.
/// Opaque because callers only ever compare finalized lanes for equality.
#[verifier::opaque]
pub open spec fn sm_finalize(s: u64) -> u64 {
    let a = mul64(s ^ (s >> 30u64), SM_MULT_1);
    let b = mul64(a ^ (a >> 27u64), SM_MULT_2);
    b ^ (b >> 31u64)
}

/// The SplitMix64 state after `k` further increments of the counter.
pub open spec fn sm_state(seed: u64, k: nat) -> u64
    decreases k,
{
    if k == 0 {
        seed
    } else {
        add64(sm_state(seed, (k - 1) as nat), SM_GAMMA)
    }
}

/// The lane obtained by expanding one 64-bit seed: the three state words
/// are the finalizations of three successive SplitMix64 states.
pub open spec fn split_mix_lane(seed: u64) -> Lane {
    Lane {
        x: sm_finalize(sm_state(seed, 1)),
        y: sm_finalize(sm_state(seed, 2)),
        z: sm_finalize(sm_state(seed, 3)),
    }
}

/// Whether a lane is the SplitMix64 expansion of some 64-bit candidate:
/// what every entropy-mixed seeding installs.
pub open spec fn is_expansion(l: Lane) -> bool {
    exists|c: u64| l == split_mix_lane(c)
}

/// One SplitMix64 finalization round trip in executable code.
fn sm_finalize_exec(s: u64) -> (r: u64)
    ensures
        r == sm_finalize(s),
{
    proof {
        reveal(sm_finalize);
    }
    let t = s ^ (s >> 30u64);
    proof {
        crate::model::lemma_mul64_wraps(t, SM_MULT_1);
    }
    let a = t.wrapping_mul(SM_MULT_1);
    let u = a ^ (a >> 27u64);
    proof {
        crate::model::lemma_mul64_wraps(u, SM_MULT_2);
    }
    let b = u.wrapping_mul(SM_MULT_2);
    b ^ (b >> 31u64)
}

/// Expands one 64-bit seed into a full three-word lane state.
pub fn split_mix_64(seed: u64) -> (r: [u64; 3])
    ensures
        r[0] == split_mix_lane(seed).x,
        r[1] == split_mix_lane(seed).y,
        r[2] == split_mix_lane(seed).z,
{
    broadcast use crate::model::lemma_add64_wraps;

    let s1 = seed.wrapping_add(SM_GAMMA);
    let s2 = s1.wrapping_add(SM_GAMMA);
    let s3 = s2.wrapping_add(SM_GAMMA);
    assert(sm_state(seed, 0) == seed);
    assert(s1 == sm_state(seed, 1));
    assert(s2 == sm_state(seed, 2));
    assert(s3 == sm_state(seed, 3));
    [sm_finalize_exec(s1), sm_finalize_exec(s2), sm_finalize_exec(s3)]
}

} // verus!
