//! Mathematical model of the RomuTrio recurrence.
//!
//! A [`Lane`] is one three-word generator state. The spec functions here
//! define a single transition, iterated transitions, the 64-bit output at a
//! given call index, and the little-endian byte stream both engines produce.
//! Every executable engine in this crate is specified against these
//! functions, so the scalar and wide engines provably emit the same per-lane
//! sequence.

use vstd::prelude::*;

verus! {

/// The fixed odd RomuTrio multiplier.
pub const ROMU_MULT: u64 = 0xD383_3E80_4F4C_574B;

/// One generator lane: three 64-bit state words.
pub struct Lane {
    pub x: u64,
    pub y: u64,
    pub z: u64,
}

/// 2^64, the modulus of all state-word arithmetic.
pub open spec fn word_mod() -> int {
    0x1_0000_0000_0000_0000
}

/// Addition modulo 2^64.
pub open spec fn add64(a: u64, b: u64) -> u64 {
    ((a + b) % word_mod()) as u64
}

/// Subtraction modulo 2^64.
pub open spec fn sub64(a: u64, b: u64) -> u64 {
    ((a - b) % word_mod()) as u64
}

/// Multiplication modulo 2^64. Opaque because its nonlinear body is needed
/// only by the lemmas that relate it to executable multiplication.
#[verifier::opaque]
pub open spec fn mul64(a: u64, b: u64) -> u64 {
    ((a * b) % word_mod()) as u64
}

/// Left rotation of a 64-bit word by `r` bits, 0 < r < 64.
pub open spec fn rotl64(v: u64, r: u64) -> u64
    recommends
        0 < r < 64,
{
    (v << r) | (v >> ((64 - r) as u64))
}

/// One step of the RomuTrio recurrence.
pub open spec fn lane_step(l: Lane) -> Lane {
    Lane {
        x: mul64(ROMU_MULT, l.z),
        y: rotl64(sub64(l.y, l.x), 12),
        z: rotl64(sub64(l.z, l.y), 44),
    }
}

/// The lane after `n` steps.
pub open spec fn lane_at(l: Lane, n: nat) -> Lane
    decreases n,
{
    if n == 0 {
        l
    } else {
        lane_step(lane_at(l, (n - 1) as nat))
    }
}

/// The 64-bit word emitted by call number `n` (counted from 0): a step
/// returns the previous `x`, so call `n` emits the `x` word of the state
/// after `n` steps.
pub open spec fn out_at(l: Lane, n: nat) -> u64 {
    lane_at(l, n).x
}

/// Byte `i` of the little-endian byte stream of one lane: output words are
/// emitted in call order, each as eight bytes, least significant first.
pub open spec fn stream_byte(l: Lane, i: nat) -> u8 {
    ((out_at(l, i / 8) >> (((i % 8) * 8) as u64)) & 0xFF) as u8
}

/// How many output words cover `n` bytes: `n / 8`, rounded up.
pub open spec fn words_for(n: nat) -> nat {
    (n + 7) / 8
}

/// A lane is degenerate exactly when all three words are zero; that state
/// is a fixed point of the recurrence and never advances.
pub open spec fn lane_nonzero(l: Lane) -> bool {
    !(l.x == 0 && l.y == 0 && l.z == 0)
}

/// Eight-lane states advanced in lockstep: one step maps every lane
/// through [`lane_step`].
pub open spec fn lanes_step(ls: Seq<Lane>) -> Seq<Lane> {
    Seq::new(ls.len(), |i: int| lane_step(ls[i]))
}

/// The lane vector after `n` lockstep steps.
pub open spec fn lanes_at(ls: Seq<Lane>, n: nat) -> Seq<Lane>
    decreases n,
{
    if n == 0 {
        ls
    } else {
        lanes_step(lanes_at(ls, (n - 1) as nat))
    }
}

/// Lane independence: advancing any number of lanes in lockstep and then
/// reading lane `i` gives exactly the state that advancing lane `i` alone
/// would give, call for call. A wide engine therefore matches, lane for
/// lane, independently run scalar engines seeded with the same triples.
pub proof fn lemma_lane_independence(ls: Seq<Lane>, i: int, n: nat)
    requires
        0 <= i < ls.len(),
    ensures
        lanes_at(ls, n).len() == ls.len(),
        lanes_at(ls, n)[i] == lane_at(ls[i], n),
    decreases n,
{
    if n > 0 {
        lemma_lane_independence(ls, i, (n - 1) as nat);
    }
}

/// Width consistency: the masks the narrower accessors apply keep exactly
/// the low 32, 16 or 8 bits of the 64-bit output word an identically
/// seeded engine emits at the same call index.
pub proof fn lemma_width_consistency(l: Lane, n: nat)
    ensures
        (out_at(l, n) & 0xFFFF_FFFF) == out_at(l, n) % 0x1_0000_0000,
        (out_at(l, n) & 0xFFFF) == out_at(l, n) % 0x1_0000,
        (out_at(l, n) & 0xFF) == out_at(l, n) % 0x100,
{
    let w = out_at(l, n);
    assert(w & 0xFFFF_FFFFu64 == w % 0x1_0000_0000u64 && w & 0xFFFFu64 == w % 0x1_0000u64 && (w
        & 0xFFu64) == w % 0x100u64) by (bit_vector);
}

/// The multiplicative inverse of [`ROMU_MULT`] modulo 2^64; it exists
/// because the multiplier is odd.
pub const ROMU_MULT_INVERSE: u64 = 0x43D6_8ED2_0CD1_FA63;

/// Multiplying by the odd constant is injective modulo 2^64: a zero
/// product forces a zero operand.
proof fn lemma_mul64_zero(z: u64)
    requires
        mul64(ROMU_MULT, z) == 0,
    ensures
        z == 0,
{
    reveal(mul64);
    let n = word_mod();
    let m = ROMU_MULT as int;
    let mi = ROMU_MULT_INVERSE as int;
    assert((m * z) % n == 0);
    vstd::arithmetic::div_mod::lemma_mul_mod_noop_left(mi * m, z as int, n);
    assert((mi * m) % n == 1);
    assert(((mi * m) % n * z) % n == z as int % n);
    vstd::arithmetic::mul::lemma_mul_is_associative(mi, m, z as int);
    vstd::arithmetic::div_mod::lemma_mul_mod_noop_right(mi, m * z, n);
    vstd::arithmetic::div_mod::lemma_small_mod(z as nat, n as nat);
}

/// A wrapped difference of zero means the words were equal.
proof fn lemma_sub64_zero(a: u64, b: u64)
    requires
        sub64(a, b) == 0,
    ensures
        a == b,
{
    let n = word_mod();
    if a - b >= 0 {
        vstd::arithmetic::div_mod::lemma_small_mod((a - b) as nat, n as nat);
    } else {
        vstd::arithmetic::div_mod::lemma_mod_add_multiples_vanish(a - b, n);
        vstd::arithmetic::div_mod::lemma_small_mod((a - b + n) as nat, n as nat);
    }
}

/// The recurrence never reaches the degenerate all-zero state from a
/// non-degenerate one: one step of a non-zero lane is again non-zero, so
/// the data-model invariant is preserved by every generation call.
pub proof fn lemma_step_preserves_nonzero(l: Lane)
    requires
        lane_nonzero(l),
    ensures
        lane_nonzero(lane_step(l)),
{
    let s = lane_step(l);
    if s.x == 0 && s.y == 0 && s.z == 0 {
        lemma_mul64_zero(l.z);
        let dy = sub64(l.y, l.x);
        assert(dy == 0) by (bit_vector)
            requires
                (dy << 12u64) | (dy >> 52u64) == 0u64,
        ;
        lemma_sub64_zero(l.y, l.x);
        let dz = sub64(l.z, l.y);
        assert(dz == 0) by (bit_vector)
            requires
                (dz << 44u64) | (dz >> 20u64) == 0u64,
        ;
        lemma_sub64_zero(l.z, l.y);
        assert(false);
    }
}

/// `wrapping_add` computes addition modulo 2^64.
pub broadcast proof fn lemma_add64_wraps(a: u64, b: u64)
    ensures
        #[trigger] a.wrapping_add(b) == add64(a, b),
{
    if a + b > u64::MAX {
        vstd::arithmetic::div_mod::lemma_mod_sub_multiples_vanish(a + b, word_mod());
        vstd::arithmetic::div_mod::lemma_small_mod((a + b - word_mod()) as nat, word_mod() as nat);
    } else {
        vstd::arithmetic::div_mod::lemma_small_mod((a + b) as nat, word_mod() as nat);
    }
}

/// `wrapping_sub` computes subtraction modulo 2^64.
pub broadcast proof fn lemma_sub64_wraps(a: u64, b: u64)
    ensures
        #[trigger] a.wrapping_sub(b) == sub64(a, b),
{
    if a - b < 0 {
        vstd::arithmetic::div_mod::lemma_mod_add_multiples_vanish(a - b, word_mod());
        vstd::arithmetic::div_mod::lemma_small_mod((a - b + word_mod()) as nat, word_mod() as nat);
    } else {
        vstd::arithmetic::div_mod::lemma_small_mod((a - b) as nat, word_mod() as nat);
    }
}

/// `wrapping_mul` computes multiplication modulo 2^64.
pub broadcast proof fn lemma_mul64_wraps(a: u64, b: u64)
    ensures
        #[trigger] a.wrapping_mul(b) == mul64(a, b),
{
    reveal(mul64);
    assert(a as nat * b as nat == (a * b) as nat);
}

} // verus!
