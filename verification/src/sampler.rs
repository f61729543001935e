//! Debiased bounded sampling.
//!
//! `mod_u*` draws a uniform value in `[0, bound)` by the multiply-shift
//! technique: a fresh `w`-bit draw `r` is multiplied by the bound, the high
//! `w` bits of the double-width product are the candidate, and a draw whose
//! low product part falls below the rejection threshold `(2^w - bound) mod
//! bound` is discarded and redrawn. The redraw is required for exact
//! uniformity whenever `2^w` is not a multiple of the bound; the expected
//! number of redraws is about one. Redraws stop after [`DRAW_CAP`]
//! attempts — the chance of even ten consecutive rejections is negligible —
//! at which point the last candidate is accepted.
//!
//! A bound of zero means no reduction: the raw `w`-bit draw is returned.
//! `range_*` samples the half-open interval `[low, high)` by shifting the
//! domain onto the unsigned span `high - low`; every range function
//! requires `low < high` as a precondition, uniformly across widths, and
//! never widens or wraps a misuse.

use vstd::prelude::*;

use crate::model::{lane_at, lane_step, out_at, Lane};
use crate::scalar::Rng;

verus! {

/// The most draws one bounded sample will consume.
pub const DRAW_CAP: u64 = 64;

/// 2^w for the supported draw widths.
pub open spec fn width_mod(w: nat) -> int
    recommends
        w == 8 || w == 16 || w == 32 || w == 64,
{
    if w == 8 {
        0x100
    } else if w == 16 {
        0x1_0000
    } else if w == 32 {
        0x1_0000_0000
    } else {
        0x1_0000_0000_0000_0000
    }
}

/// Draw number `k`: the low `w` bits of output word `k`.
pub open spec fn draw_at(l: Lane, w: nat, k: nat) -> int {
    out_at(l, k) as int % width_mod(w)
}

/// The rejection threshold `(2^w - bound) mod bound`.
pub open spec fn reject_threshold(w: nat, bound: u64) -> int
    recommends
        0 < bound < width_mod(w),
{
    (width_mod(w) - bound) % (bound as int)
}

/// The candidate output for draw `r`: the high `w` bits of `r * bound`.
pub open spec fn sample_hi(w: nat, r: int, bound: u64) -> int {
    (r * bound) / width_mod(w)
}

/// The low `w` bits of the double-width product `r * bound`.
pub open spec fn sample_lo(w: nat, r: int, bound: u64) -> int {
    (r * bound) % width_mod(w)
}

/// Whether draw number `k` escapes the rejection threshold.
pub open spec fn draw_accepted(l: Lane, w: nat, bound: u64, k: nat) -> bool {
    sample_lo(w, draw_at(l, w, k), bound) >= reject_threshold(w, bound)
}

/// Draw `k` is accepted and every earlier draw was rejected.
pub open spec fn first_accepted(l: Lane, w: nat, bound: u64, k: nat) -> bool {
    draw_accepted(l, w, bound, k) && (forall|j: nat| j < k ==> !draw_accepted(l, w, bound, j))
}

/// The exact relation between the starting state `l0`, the bound, the
/// returned sample `r` and the final state `l1` of one debiased bounded
/// sample at width `w`. A bound of zero performs no reduction; otherwise
/// the result is the candidate of the first accepted draw, or of the last
/// draw when all [`DRAW_CAP`] attempts were rejected.
pub open spec fn bounded_sample_rel(l0: Lane, w: nat, bound: u64, r: u64, l1: Lane) -> bool {
    if bound == 0 {
        r == draw_at(l0, w, 0) && l1 == lane_at(l0, 1)
    } else {
        (exists|k: nat|
            (#[trigger] first_accepted(l0, w, bound, k)) && k < DRAW_CAP && r == sample_hi(
                w,
                draw_at(l0, w, k),
                bound,
            ) && l1 == lane_at(l0, (k + 1) as nat)) || ((forall|j: nat|
            j < DRAW_CAP ==> !draw_accepted(l0, w, bound, j)) && r == sample_hi(
            w,
            draw_at(l0, w, (DRAW_CAP - 1) as nat),
            bound,
        ) && l1 == lane_at(l0, DRAW_CAP as nat))
    }
}

/// A bound of one admits only the sample zero — every candidate is the
/// high bits of a product below 2^w — so a range over a single value
/// always returns its lower end.
pub proof fn lemma_unit_span(l0: Lane, w: nat, r: u64, l1: Lane)
    requires
        w == 8 || w == 16 || w == 32 || w == 64,
        bounded_sample_rel(l0, w, 1, r, l1),
    ensures
        r == 0,
{
    assert forall|k: nat| sample_hi(w, draw_at(l0, w, k), 1) == 0 by {
        vstd::arithmetic::div_mod::lemma_mod_division_less_than_divisor(
            out_at(l0, k) as int,
            width_mod(w),
        );
        let d = draw_at(l0, w, k);
        assert(d * 1 == d);
        vstd::arithmetic::div_mod::lemma_basic_div(d, width_mod(w));
    }
}

/// The narrow widths: masking keeps the low bits and shifting right by the
/// width divides by 2^w.
proof fn lemma_width_split(v: u64, bits: u64, m: u64)
    requires
        (bits == 8 && m == 0x100) || (bits == 16 && m == 0x1_0000) || (bits == 32 && m
            == 0x1_0000_0000),
    ensures
        v & (m - 1) as u64 == v % m,
        v % m < m,
        v >> bits == v / m,
{
    if bits == 8 {
        assert(v & 0xFFu64 == v % 0x100u64 && v % 0x100u64 < 0x100u64 && v >> 8u64 == v
            / 0x100u64) by (bit_vector);
    } else if bits == 16 {
        assert(v & 0xFFFFu64 == v % 0x1_0000u64 && v % 0x1_0000u64 < 0x1_0000u64 && v >> 16u64 == v
            / 0x1_0000u64) by (bit_vector);
    } else {
        assert(v & 0xFFFF_FFFFu64 == v % 0x1_0000_0000u64 && v % 0x1_0000_0000u64
            < 0x1_0000_0000u64 && v >> 32u64 == v / 0x1_0000_0000u64) by (bit_vector);
    }
}

impl Rng {
    /// One narrow draw: advances one step and returns the candidate (high
    /// product part) and the low product part of the fresh draw.
    #[verifier::rlimit(50)]
    fn draw_small(&mut self, bound: u64, bits: u64, m: u64, mask: u64) -> (p: (u64, u64))
        requires
            (bits == 8 && m == 0x100) || (bits == 16 && m == 0x1_0000) || (bits == 32 && m
                == 0x1_0000_0000),
            mask == m - 1,
            0 < bound < m,
        ensures
            p.0 == sample_hi(bits as nat, draw_at(old(self).lane(), bits as nat, 0), bound),
            p.1 == sample_lo(bits as nat, draw_at(old(self).lane(), bits as nat, 0), bound),
            p.0 < bound,
            final(self).lane() == lane_step(old(self).lane()),
            final(self).source() == old(self).source(),
    {
        let w = self.next_u64();
        let r = w & mask;
        proof {
            lemma_width_split(w, bits, m);
            assert(r == draw_at(old(self).lane(), bits as nat, 0));
        }
        assert(r * bound < 0x1_0000_0000_0000_0000) by (nonlinear_arith)
            requires
                r < 0x1_0000_0000u64,
                bound < 0x1_0000_0000u64,
        ;
        let prod = r * bound;
        let lo = prod & mask;
        let hi = prod >> bits;
        proof {
            lemma_width_split(prod, bits, m);
            vstd::arithmetic::mul::lemma_mul_inequality(r as int, m - 1, bound as int);
            vstd::arithmetic::mul::lemma_mul_strict_inequality(m - 1, m as int, bound as int);
            vstd::arithmetic::div_mod::lemma_multiply_divide_lt(
                r as int * bound as int,
                m as int,
                bound as int,
            );
        }
        (hi, lo)
    }

    /// One full-width draw: advances one step and returns the candidate
    /// (high product half) and the low product half of the fresh draw.
    #[verifier::rlimit(50)]
    fn draw_wide(&mut self, bound: u64) -> (p: (u64, u64))
        requires
            0 < bound,
        ensures
            p.0 == sample_hi(64, draw_at(old(self).lane(), 64, 0), bound),
            p.1 == sample_lo(64, draw_at(old(self).lane(), 64, 0), bound),
            p.0 < bound,
            final(self).lane() == lane_step(old(self).lane()),
            final(self).source() == old(self).source(),
    {
        let w = self.next_u64();
        proof {
            vstd::arithmetic::div_mod::lemma_small_mod(w as nat, 0x1_0000_0000_0000_0000);
            assert(w == draw_at(old(self).lane(), 64, 0));
        }
        proof {
            vstd::arithmetic::mul::lemma_mul_upper_bound(
                w as int,
                u64::MAX as int,
                bound as int,
                u64::MAX as int,
            );
        }
        let prod = (w as u128) * (bound as u128);
        let lo = prod as u64;
        let hi = (prod >> 64u128) as u64;
        assert(lo == prod % 0x1_0000_0000_0000_0000u128 && (prod >> 64u128)
            < 0x1_0000_0000_0000_0000u128 && (prod >> 64u128) == prod
            / 0x1_0000_0000_0000_0000u128) by (bit_vector)
            requires
                lo == prod as u64,
        ;
        proof {
            vstd::arithmetic::mul::lemma_mul_inequality(
                w as int,
                0xFFFF_FFFF_FFFF_FFFF,
                bound as int,
            );
            vstd::arithmetic::div_mod::lemma_multiply_divide_lt(
                w as int * bound as int,
                0x1_0000_0000_0000_0000,
                bound as int,
            );
        }
        (hi, lo)
    }

    /// One debiased bounded sample from the low `bits` bits of each output
    /// word, for the draw widths below 64.
    #[verifier::rlimit(50)]
    fn sample_bounded_small(&mut self, bound: u64, bits: u64) -> (r: u64)
        requires
            bits == 8 || bits == 16 || bits == 32,
            bound < width_mod(bits as nat),
        ensures
            bounded_sample_rel(old(self).lane(), bits as nat, bound, r, final(self).lane()),
            r < width_mod(bits as nat),
            bound > 0 ==> r < bound,
            final(self).source() == old(self).source(),
    {
        let m = 1u64 << bits;
        assert((bits == 8u64 && m == 0x100u64) || (bits == 16u64 && m == 0x1_0000u64) || (bits
            == 32u64 && m == 0x1_0000_0000u64)) by (bit_vector)
            requires
                m == 1u64 << bits,
                bits == 8u64 || bits == 16u64 || bits == 32u64,
        ;
        assert(m == width_mod(bits as nat));
        let mask = m - 1;
        let ghost w_spec = bits as nat;
        if bound == 0 {
            let w = self.next_u64();
            let r = w & mask;
            proof {
                lemma_width_split(w, bits, m);
                assert(lane_at(old(self).lane(), 1) == lane_step(lane_at(old(self).lane(), 0)));
            }
            return r;
        }
        let t = (m - bound) % bound;
        assert(t == reject_threshold(w_spec, bound));
        let ghost l0 = old(self).lane();
        let mut k: u64 = 0;
        loop
            invariant
                (bits == 8 && m == 0x100) || (bits == 16 && m == 0x1_0000) || (bits == 32 && m
                    == 0x1_0000_0000),
                m == width_mod(w_spec),
                mask == m - 1,
                0 < bound < m,
                t == reject_threshold(w_spec, bound),
                w_spec == bits as nat,
                k < DRAW_CAP,
                forall|j: nat| j < k ==> !draw_accepted(l0, w_spec, bound, j),
                self.lane() == lane_at(l0, k as nat),
                self.source() == old(self).source(),
                l0 == old(self).lane(),
            decreases DRAW_CAP - k,
        {
            let ghost k0 = k as nat;
            proof {
                assert(out_at(lane_at(l0, k0), 0) == out_at(l0, k0));
                assert(lane_at(l0, (k0 + 1) as nat) == lane_step(lane_at(l0, k0)));
            }
            let p = self.draw_small(bound, bits, m, mask);
            let hi = p.0;
            let lo = p.1;
            proof {
                assert(draw_at(lane_at(l0, k0), w_spec, 0) == draw_at(l0, w_spec, k0));
            }
            if lo >= t {
                proof {
                    assert(draw_accepted(l0, w_spec, bound, k0));
                    assert(first_accepted(l0, w_spec, bound, k0));
                }
                return hi;
            }
            proof {
                assert(!draw_accepted(l0, w_spec, bound, k0));
            }
            if k == DRAW_CAP - 1 {
                proof {
                    assert(forall|j: nat| j < DRAW_CAP ==> !draw_accepted(l0, w_spec, bound, j));
                }
                return hi;
            }
            k = k + 1;
        }
    }

    /// Returns a uniform value in `[0, bound)`, exactly debiased; a bound
    /// of zero returns a full 64-bit output word unreduced.
    #[verifier::rlimit(50)]
    pub fn mod_u64(&mut self, bound: u64) -> (r: u64)
        ensures
            bounded_sample_rel(old(self).lane(), 64, bound, r, final(self).lane()),
            bound > 0 ==> r < bound,
            final(self).source() == old(self).source(),
    {
        if bound == 0 {
            let w = self.next_u64();
            proof {
                vstd::arithmetic::div_mod::lemma_small_mod(w as nat, 0x1_0000_0000_0000_0000);
                assert(lane_at(old(self).lane(), 1) == lane_step(lane_at(old(self).lane(), 0)));
            }
            return w;
        }
        let t = (0u64.wrapping_sub(bound)) % bound;
        proof {
            broadcast use crate::model::lemma_sub64_wraps;

            assert(0u64.wrapping_sub(bound) == 0x1_0000_0000_0000_0000 - bound);
            assert(t == reject_threshold(64, bound));
        }
        let ghost l0 = old(self).lane();
        let mut k: u64 = 0;
        loop
            invariant
                0 < bound,
                t == reject_threshold(64, bound),
                k < DRAW_CAP,
                forall|j: nat| j < k ==> !draw_accepted(l0, 64, bound, j),
                self.lane() == lane_at(l0, k as nat),
                self.source() == old(self).source(),
                l0 == old(self).lane(),
            decreases DRAW_CAP - k,
        {
            let ghost k0 = k as nat;
            proof {
                assert(out_at(lane_at(l0, k0), 0) == out_at(l0, k0));
                assert(lane_at(l0, (k0 + 1) as nat) == lane_step(lane_at(l0, k0)));
            }
            let p = self.draw_wide(bound);
            let hi = p.0;
            let lo = p.1;
            proof {
                assert(draw_at(lane_at(l0, k0), 64, 0) == draw_at(l0, 64, k0));
            }
            if lo >= t {
                proof {
                    assert(draw_accepted(l0, 64, bound, k0));
                    assert(first_accepted(l0, 64, bound, k0));
                }
                return hi;
            }
            proof {
                assert(!draw_accepted(l0, 64, bound, k0));
            }
            if k == DRAW_CAP - 1 {
                proof {
                    assert(forall|j: nat| j < DRAW_CAP ==> !draw_accepted(l0, 64, bound, j));
                }
                return hi;
            }
            k = k + 1;
        }
    }

    /// Returns a uniform value in `[0, bound)` from 32-bit draws; a bound
    /// of zero returns 32 fresh bits unreduced.
    pub fn mod_u32(&mut self, bound: u32) -> (r: u32)
        ensures
            bounded_sample_rel(old(self).lane(), 32, bound as u64, r as u64, final(self).lane()),
            bound > 0 ==> r < bound,
            final(self).source() == old(self).source(),
    {
        let r = self.sample_bounded_small(bound as u64, 32);
        r as u32
    }

    /// Returns a uniform value in `[0, bound)` from 16-bit draws; a bound
    /// of zero returns 16 fresh bits unreduced.
    pub fn mod_u16(&mut self, bound: u16) -> (r: u16)
        ensures
            bounded_sample_rel(old(self).lane(), 16, bound as u64, r as u64, final(self).lane()),
            bound > 0 ==> r < bound,
            final(self).source() == old(self).source(),
    {
        let r = self.sample_bounded_small(bound as u64, 16);
        r as u16
    }

    /// Returns a uniform value in `[0, bound)` from 8-bit draws; a bound
    /// of zero returns 8 fresh bits unreduced.
    pub fn mod_u8(&mut self, bound: u8) -> (r: u8)
        ensures
            bounded_sample_rel(old(self).lane(), 8, bound as u64, r as u64, final(self).lane()),
            bound > 0 ==> r < bound,
            final(self).source() == old(self).source(),
    {
        let r = self.sample_bounded_small(bound as u64, 8);
        r as u8
    }

    /// Returns a uniform value in the half-open interval `[low, high)`.
    pub fn range_u64(&mut self, low: u64, high: u64) -> (r: u64)
        requires
            low < high,
        ensures
            low <= r < high,
            bounded_sample_rel(
                old(self).lane(),
                64,
                (high - low) as u64,
                (r - low) as u64,
                final(self).lane(),
            ),
            final(self).source() == old(self).source(),
    {
        let span = high - low;
        let s = self.mod_u64(span);
        low + s
    }

    /// Returns a uniform value in the half-open interval `[low, high)`.
    pub fn range_u32(&mut self, low: u32, high: u32) -> (r: u32)
        requires
            low < high,
        ensures
            low <= r < high,
            bounded_sample_rel(
                old(self).lane(),
                32,
                (high - low) as u64,
                (r - low) as u64,
                final(self).lane(),
            ),
            final(self).source() == old(self).source(),
    {
        let span = high - low;
        let s = self.mod_u32(span);
        low + s
    }

    /// Returns a uniform value in the half-open interval `[low, high)`.
    pub fn range_u16(&mut self, low: u16, high: u16) -> (r: u16)
        requires
            low < high,
        ensures
            low <= r < high,
            bounded_sample_rel(
                old(self).lane(),
                16,
                (high - low) as u64,
                (r - low) as u64,
                final(self).lane(),
            ),
            final(self).source() == old(self).source(),
    {
        let span = high - low;
        let s = self.mod_u16(span);
        low + s
    }

    /// Returns a uniform value in the half-open interval `[low, high)`.
    pub fn range_u8(&mut self, low: u8, high: u8) -> (r: u8)
        requires
            low < high,
        ensures
            low <= r < high,
            bounded_sample_rel(
                old(self).lane(),
                8,
                (high - low) as u64,
                (r - low) as u64,
                final(self).lane(),
            ),
            final(self).source() == old(self).source(),
    {
        let span = high - low;
        let s = self.mod_u8(span);
        low + s
    }

    /// Returns a uniform value in the half-open interval `[low, high)`.
    /// The signed domain is shifted onto the unsigned span `high - low`.
    pub fn range_i64(&mut self, low: i64, high: i64) -> (r: i64)
        requires
            low < high,
        ensures
            low <= r < high,
            bounded_sample_rel(
                old(self).lane(),
                64,
                (high - low) as u64,
                (r - low) as u64,
                final(self).lane(),
            ),
            final(self).source() == old(self).source(),
    {
        let span = ((high as i128) - (low as i128)) as u64;
        let s = self.mod_u64(span);
        ((low as i128) + (s as i128)) as i64
    }

    /// Returns a uniform value in the half-open interval `[low, high)`.
    /// The signed domain is shifted onto the unsigned span `high - low`.
    pub fn range_i32(&mut self, low: i32, high: i32) -> (r: i32)
        requires
            low < high,
        ensures
            low <= r < high,
            bounded_sample_rel(
                old(self).lane(),
                32,
                (high - low) as u64,
                (r - low) as u64,
                final(self).lane(),
            ),
            final(self).source() == old(self).source(),
    {
        let span = ((high as i64) - (low as i64)) as u32;
        let s = self.mod_u32(span);
        ((low as i64) + (s as i64)) as i32
    }

    /// Returns a uniform value in the half-open interval `[low, high)`.
    /// The signed domain is shifted onto the unsigned span `high - low`.
    pub fn range_i16(&mut self, low: i16, high: i16) -> (r: i16)
        requires
            low < high,
        ensures
            low <= r < high,
            bounded_sample_rel(
                old(self).lane(),
                16,
                (high - low) as u64,
                (r - low) as u64,
                final(self).lane(),
            ),
            final(self).source() == old(self).source(),
    {
        let span = ((high as i32) - (low as i32)) as u16;
        let s = self.mod_u16(span);
        ((low as i32) + (s as i32)) as i16
    }

    /// Returns a uniform value in the half-open interval `[low, high)`.
    /// The signed domain is shifted onto the unsigned span `high - low`.
    pub fn range_i8(&mut self, low: i8, high: i8) -> (r: i8)
        requires
            low < high,
        ensures
            low <= r < high,
            bounded_sample_rel(
                old(self).lane(),
                8,
                (high - low) as u64,
                (r - low) as u64,
                final(self).lane(),
            ),
            final(self).source() == old(self).source(),
    {
        let span = ((high as i16) - (low as i16)) as u8;
        let s = self.mod_u8(span);
        ((low as i16) + (s as i16)) as i8
    }
}

} // verus!
