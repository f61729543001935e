//! The wide engine: eight RomuTrio lanes advanced in lockstep.
//!
//! The state is held in structure-of-arrays layout (an x-vector, a y-vector
//! and a z-vector) so that a vectorized build can advance all lanes with
//! single-instruction-multiple-lane arithmetic. Each lane follows exactly
//! the recurrence of [`crate::model`], so every lane provably emits the
//! same sequence a scalar engine would from the same seed. The 64-bit
//! multiply is decomposed into 32x32 partial products — vector units offer
//! no full 64x64 multiply — and the decomposition is proved equal to the
//! full multiply, so narrowing the instruction set cannot change the
//! stream.

use vstd::prelude::*;

use crate::entropy::{generate_seed, time_entropy, SeedSource};
use crate::model::{lane_at, lane_step, mul64, out_at, Lane, ROMU_MULT};
use crate::splitmix::{is_expansion, split_mix_64, split_mix_lane};

verus! {

/// The high 32 bits of the RomuTrio multiplier.
pub const ROMU_MULT_HIGH: u64 = 0xD383_3E80;

/// The low 32 bits of the RomuTrio multiplier.
pub const ROMU_MULT_LOW: u64 = 0x4F4C_574B;

/// How many eight-word output blocks cover `n` bytes: `n / 64`, rounded
/// up.
pub open spec fn blocks_for(n: nat) -> nat {
    (n + 63) / 64
}

/// The sum of the 32x32 partial products, taken modulo 2^64, is the full
/// 64-bit product.
proof fn lemma_decomposed_mul(
    zp: u64,
    zl: u64,
    zh: u64,
    zp_high: u64,
    zp_mid: u64,
    sum: u64,
    sum_shifted: u64,
    zp_low: u64,
    xn: u64,
)
    requires
        zl == zp & 0xFFFF_FFFF,
        zh == zp >> 32u64,
        zp_high == zl * 0xD383_3E80,
        zp_mid == zh * 0x4F4C_574B,
        sum == (zp_mid + zp_high) % 0x1_0000_0000_0000_0000,
        sum_shifted == sum << 32u64,
        zp_low == 0x4F4C_574B * zl,
        xn == (zp_low + sum_shifted) % 0x1_0000_0000_0000_0000,
    ensures
        xn == mul64(ROMU_MULT, zp),
{
    let s = 0x1_0000_0000int;
    let n = 0x1_0000_0000_0000_0000int;
    let a = zp_mid + zp_high;
    assert(zp == zh * 0x1_0000_0000u64 + zl && zl < 0x1_0000_0000u64 && zh < 0x1_0000_0000u64)
        by (bit_vector)
        requires
            zl == zp & 0xFFFF_FFFFu64,
            zh == zp >> 32u64,
    ;
    assert(sum_shifted == (sum & 0xFFFF_FFFFu64) * 0x1_0000_0000u64 && (sum & 0xFFFF_FFFFu64)
        == sum % 0x1_0000_0000u64) by (bit_vector)
        requires
            sum_shifted == sum << 32u64,
    ;
    // The low 32 bits of the wrapped partial-product sum are those of the
    // unwrapped sum, so shifting them left is the unwrapped sum times 2^32,
    // modulo 2^64.
    vstd::arithmetic::div_mod::lemma_mod_mod(a, s, s);
    assert(sum as int % s == a % s);
    vstd::arithmetic::div_mod::lemma_truncate_middle(a, s, s);
    assert(sum_shifted == (s * a) % n);
    // Dropping the wrap on the shifted term does not change the total
    // modulo 2^64.
    vstd::arithmetic::div_mod::lemma_add_mod_noop_right(zp_low as int, s * a, n);
    assert(xn == (zp_low + s * a) % n);
    // Ring identity: the full product splits into the partial products,
    // with the top term a multiple of 2^64.
    assert(0xD383_3E80_4F4C_574B * zp == 0x4F4C_574B * zl + 0x1_0000_0000int * (zh * 0x4F4C_574B
        + zl * 0xD383_3E80) + 0x1_0000_0000_0000_0000int * (0xD383_3E80 * zh)) by (nonlinear_arith)
        requires
            zp == zh * 0x1_0000_0000u64 + zl,
    ;
    vstd::arithmetic::div_mod::lemma_mod_multiples_vanish(
        0xD383_3E80 * zh,
        zp_low + s * a,
        n,
    );
    assert(xn == (0xD383_3E80_4F4C_574B * zp) % n);
    reveal(mul64);
}

/// One lane transition computed from 32x32 partial products, mirroring the
/// vector instruction sequence word for word.
#[verifier::rlimit(50)]
fn lane_step_decomposed(xp: u64, yp: u64, zp: u64) -> (r: (u64, u64, u64))
    ensures
        r.0 == lane_step(Lane { x: xp, y: yp, z: zp }).x,
        r.1 == lane_step(Lane { x: xp, y: yp, z: zp }).y,
        r.2 == lane_step(Lane { x: xp, y: yp, z: zp }).z,
{
    broadcast use crate::model::lemma_add64_wraps, crate::model::lemma_sub64_wraps;

    let zl = zp & 0xFFFF_FFFF;
    let zh = zp >> 32u64;
    assert(zl <= 0xFFFF_FFFFu64 && zh <= 0xFFFF_FFFFu64) by (bit_vector)
        requires
            zl == zp & 0xFFFF_FFFFu64,
            zh == zp >> 32u64,
    ;
    proof {
        vstd::arithmetic::mul::lemma_mul_inequality(zl as int, 0xFFFF_FFFF, 0xD383_3E80);
        vstd::arithmetic::mul::lemma_mul_inequality(zh as int, 0xFFFF_FFFF, 0x4F4C_574B);
    }
    let zp_high = zl * ROMU_MULT_HIGH;
    let zp_mid = zh * ROMU_MULT_LOW;
    let sum = zp_mid.wrapping_add(zp_high);
    let sum_shifted = sum << 32u64;
    let zp_low = ROMU_MULT_LOW * zl;
    let xn = zp_low.wrapping_add(sum_shifted);
    proof {
        lemma_decomposed_mul(zp, zl, zh, zp_high, zp_mid, sum, sum_shifted, zp_low, xn);
    }
    let ty = yp.wrapping_sub(xp);
    let yn = (ty << 12u64) | (ty >> 52u64);
    let tz = zp.wrapping_sub(yp);
    let zn = (tz << 44u64) | (tz >> 20u64);
    (xn, yn, zn)
}

/// An eight-lane RomuTrio generator in structure-of-arrays layout.
pub struct RngWide {
    x: [u64; 8],
    y: [u64; 8],
    z: [u64; 8],
    seed_source: SeedSource,
}

impl RngWide {
    /// The state words of lane `i`, as the model lane they form.
    pub closed spec fn lane(&self, i: int) -> Lane {
        Lane { x: self.x[i], y: self.y[i], z: self.z[i] }
    }

    /// The provenance of the current state.
    pub closed spec fn source(&self) -> SeedSource {
        self.seed_source
    }

    /// Byte `i` of the engine's little-endian byte stream: each call
    /// yields one 64-byte block, eight output words in lane order, each
    /// word as eight bytes, least significant first.
    pub open spec fn wide_stream_byte(&self, i: nat) -> u8 {
        ((out_at(self.lane(((i % 64) / 8) as int), i / 64) >> (((i % 8) * 8) as u64)) & 0xFF) as u8
    }

    /// Creates a new [`RngWide`] with a seed from the best available
    /// randomness source.
    pub fn new() -> (r: Self)
        ensures
            r.source() != SeedSource::User,
            forall|i: int| 0 <= i < 8 ==> is_expansion(#[trigger] r.lane(i)),
    {
        let mut rng = RngWide {
            x: [0u64, 0u64, 0u64, 0u64, 0u64, 0u64, 0u64, 0u64],
            y: [0u64, 0u64, 0u64, 0u64, 0u64, 0u64, 0u64, 0u64],
            z: [0u64, 0u64, 0u64, 0u64, 0u64, 0u64, 0u64, 0u64],
            seed_source: SeedSource::Fixed,
        };
        rng.seed();
        rng
    }

    /// Creates a new [`RngWide`] from the given eight 64-bit seeds, each
    /// expanded into a full lane through SplitMix64.
    ///
    /// The seeds should be from a high randomness source.
    pub fn from_seed_with_64bit(seeds: [u64; 8]) -> (r: Self)
        ensures
            forall|i: int| 0 <= i < 8 ==> r.lane(i) == split_mix_lane(seeds[i]),
            r.source() == SeedSource::User,
    {
        let mut x: [u64; 8] = [0u64, 0u64, 0u64, 0u64, 0u64, 0u64, 0u64, 0u64];
        let mut y: [u64; 8] = [0u64, 0u64, 0u64, 0u64, 0u64, 0u64, 0u64, 0u64];
        let mut z: [u64; 8] = [0u64, 0u64, 0u64, 0u64, 0u64, 0u64, 0u64, 0u64];
        let mut i: usize = 0;
        while i < 8
            invariant
                i <= 8,
                forall|j: int|
                    0 <= j < i ==> x[j] == split_mix_lane(seeds[j]).x && y[j] == split_mix_lane(
                        seeds[j],
                    ).y && z[j] == split_mix_lane(seeds[j]).z,
            decreases 8 - i,
        {
            let words = split_mix_64(seeds[i]);
            x[i] = words[0];
            y[i] = words[1];
            z[i] = words[2];
            i = i + 1;
        }
        RngWide { x, y, z, seed_source: SeedSource::User }
    }

    /// Creates a new [`RngWide`] with the given eight word triples
    /// installed directly as lane states.
    ///
    /// The seeds should be from a high randomness source. Every lane
    /// should have at least one non-zero word — an all-zero lane is a
    /// fixed point that never advances — and a seed of low quality should
    /// be followed by [`RngWide::mix`].
    pub fn from_seed_with_192bit(seeds: [[u64; 3]; 8]) -> (r: Self)
        ensures
            forall|i: int|
                0 <= i < 8 ==> r.lane(i) == (Lane {
                    x: seeds[i][0],
                    y: seeds[i][1],
                    z: seeds[i][2],
                }),
            r.source() == SeedSource::User,
    {
        let mut x: [u64; 8] = [0u64, 0u64, 0u64, 0u64, 0u64, 0u64, 0u64, 0u64];
        let mut y: [u64; 8] = [0u64, 0u64, 0u64, 0u64, 0u64, 0u64, 0u64, 0u64];
        let mut z: [u64; 8] = [0u64, 0u64, 0u64, 0u64, 0u64, 0u64, 0u64, 0u64];
        let mut i: usize = 0;
        while i < 8
            invariant
                i <= 8,
                forall|j: int|
                    0 <= j < i ==> x[j] == seeds[j][0] && y[j] == seeds[j][1] && z[j]
                        == seeds[j][2],
            decreases 8 - i,
        {
            x[i] = seeds[i][0];
            y[i] = seeds[i][1];
            z[i] = seeds[i][2];
            i = i + 1;
        }
        RngWide { x, y, z, seed_source: SeedSource::User }
    }

    /// Re-seeds the engine in place from the best available randomness
    /// source. Each lane receives its own entropy mix from a per-lane
    /// perturbation of the varying input, so lanes are decorrelated rather
    /// than duplicated.
    #[verifier::rlimit(100)]
    pub fn seed(&mut self)
        ensures
            final(self).source() != SeedSource::User,
            forall|i: int| 0 <= i < 8 ==> is_expansion(#[trigger] final(self).lane(i)),
    {
        let mut varying = time_entropy();
        let mut source = SeedSource::Fixed;
        let ghost mut cands: Seq<u64> = Seq::empty();
        let mut i: usize = 0;
        while i < 8
            invariant
                i <= 8,
                source != SeedSource::User,
                cands.len() == i,
                forall|j: int| 0 <= j < i ==> #[trigger] self.lane(j) == split_mix_lane(cands[j]),
            decreases 8 - i,
        {
            let ghost prev = *self;
            let (words, src) = generate_seed(varying);
            self.x[i] = words[0];
            self.y[i] = words[1];
            self.z[i] = words[2];
            source = src;
            varying = varying.wrapping_add(1);
            proof {
                let c = choose|c: u64|
                    words[0] == split_mix_lane(c).x && words[1] == split_mix_lane(c).y && words[2]
                        == split_mix_lane(c).z;
                cands = cands.push(c);
                assert forall|j: int| 0 <= j < i + 1 implies #[trigger] self.lane(j)
                    == split_mix_lane(cands[j]) by {
                    if j == i as int {
                        assert(self.lane(j) == split_mix_lane(c));
                    } else {
                        assert(self.lane(j) == prev.lane(j));
                    }
                }
            }
            i = i + 1;
        }
        let ghost done = *self;
        self.seed_source = source;
        proof {
            assert forall|j: int| 0 <= j < 8 implies is_expansion(#[trigger] self.lane(j)) by {
                assert(done.lane(j) == split_mix_lane(cands[j]));
                assert(self.lane(j) == done.lane(j));
            }
        }
    }

    /// The provenance of the current state, for caller diagnostics.
    pub fn seed_source(&self) -> (r: SeedSource)
        ensures
            r == self.source(),
    {
        self.seed_source
    }

    /// Advances every lane by one step and returns the eight previous `x`
    /// words in lane order.
    #[verifier::rlimit(100)]
    fn next(&mut self) -> (r: [u64; 8])
        ensures
            forall|i: int| 0 <= i < 8 ==> r[i] == out_at(old(self).lane(i), 0),
            forall|i: int| 0 <= i < 8 ==> final(self).lane(i) == lane_step(old(self).lane(i)),
            final(self).source() == old(self).source(),
    {
        let mut out: [u64; 8] = [0u64, 0u64, 0u64, 0u64, 0u64, 0u64, 0u64, 0u64];
        let mut i: usize = 0;
        while i < 8
            invariant
                i <= 8,
                forall|j: int| 0 <= j < i ==> out[j] == out_at(old(self).lane(j), 0),
                forall|j: int| 0 <= j < i ==> self.lane(j) == lane_step(old(self).lane(j)),
                forall|j: int| i <= j < 8 ==> self.lane(j) == old(self).lane(j),
                self.source() == old(self).source(),
            decreases 8 - i,
        {
            let ghost prev = *self;
            let ghost out0 = out;
            let stepped = lane_step_decomposed(self.x[i], self.y[i], self.z[i]);
            out[i] = self.x[i];
            self.x[i] = stepped.0;
            self.y[i] = stepped.1;
            self.z[i] = stepped.2;
            proof {
                assert forall|j: int| 0 <= j < i + 1 implies out[j] == out_at(
                    old(self).lane(j),
                    0,
                ) by {
                    if j == i as int {
                        assert(prev.lane(j) == old(self).lane(j));
                        assert(out[j] == out_at(old(self).lane(j), 0));
                    } else {
                        assert(out[j] == out0[j]);
                    }
                }
                assert forall|j: int| 0 <= j < i + 1 implies self.lane(j) == lane_step(
                    old(self).lane(j),
                ) by {
                    if j == i as int {
                        assert(self.lane(j) == lane_step(prev.lane(j)));
                        assert(prev.lane(j) == old(self).lane(j));
                    } else {
                        assert(self.lane(j) == prev.lane(j));
                    }
                }
                assert forall|j: int| i + 1 <= j < 8 implies self.lane(j) == old(self).lane(
                    j,
                ) by {
                    assert(self.lane(j) == prev.lane(j));
                }
            }
            i = i + 1;
        }
        out
    }

    /// Performs ten discard-output steps on every lane to erase transient
    /// correlation. Should be called after seeding from a low-entropy or
    /// structured seed.
    pub fn mix(&mut self)
        ensures
            forall|i: int| 0 <= i < 8 ==> final(self).lane(i) == lane_at(old(self).lane(i), 10),
            final(self).source() == old(self).source(),
    {
        let mut n: usize = 0;
        while n < 10
            invariant
                n <= 10,
                forall|i: int| 0 <= i < 8 ==> self.lane(i) == lane_at(old(self).lane(i), n as nat),
                self.source() == old(self).source(),
            decreases 10 - n,
        {
            self.next();
            proof {
                assert forall|i: int| 0 <= i < 8 implies self.lane(i) == lane_at(
                    old(self).lane(i),
                    (n + 1) as nat,
                ) by {
                    assert(lane_at(old(self).lane(i), (n + 1) as nat) == lane_step(
                        lane_at(old(self).lane(i), n as nat),
                    ));
                }
            }
            n = n + 1;
        }
    }

    /// Generates eight random 64-bit values, one fresh output word per
    /// lane, in lane order.
    pub fn u64x8(&mut self) -> (r: [u64; 8])
        ensures
            forall|i: int| 0 <= i < 8 ==> r[i] == out_at(old(self).lane(i), 0),
            forall|i: int| 0 <= i < 8 ==> final(self).lane(i) == lane_step(old(self).lane(i)),
            final(self).source() == old(self).source(),
    {
        self.next()
    }

    /// Fills the destination completely with the engine's little-endian
    /// byte stream: one 64-byte block per step, eight words in lane order,
    /// each word least significant byte first. A trailing partial chunk
    /// takes only the required prefix of one additional block; the unused
    /// suffix is discarded, never reused.
    #[verifier::rlimit(100)]
    pub fn fill_bytes(&mut self, dest: &mut Vec<u8>)
        ensures
            final(dest)@.len() == old(dest)@.len(),
            forall|i: int|
                0 <= i < old(dest)@.len() ==> final(dest)@[i] == old(self).wide_stream_byte(
                    i as nat,
                ),
            forall|j: int|
                0 <= j < 8 ==> final(self).lane(j) == lane_at(
                    old(self).lane(j),
                    blocks_for(old(dest)@.len()),
                ),
            final(self).source() == old(self).source(),
    {
        let len = dest.len();
        let mut i: usize = 0;
        let mut k: usize = 0;
        while i < len
            invariant
                len == old(dest)@.len(),
                dest@.len() == len,
                i <= len,
                i == 64 * k || (i == len && 64 * k < i + 64 && i <= 64 * k),
                forall|j: int| 0 <= j < 8 ==> self.lane(j) == lane_at(old(self).lane(j), k as nat),
                self.source() == old(self).source(),
                forall|m: int|
                    0 <= m < i ==> dest@[m] == old(self).wide_stream_byte(m as nat),
            decreases len - i,
        {
            let ghost k0 = k as nat;
            let ghost prev = *self;
            let words = self.next();
            proof {
                assert forall|l: int| 0 <= l < 8 implies words[l] == out_at(
                    old(self).lane(l),
                    k0,
                ) by {
                    assert(words[l] == out_at(prev.lane(l), 0));
                    assert(out_at(lane_at(old(self).lane(l), k0), 0) == out_at(
                        old(self).lane(l),
                        k0,
                    ));
                }
                assert forall|l: int| 0 <= l < 8 implies self.lane(l) == lane_at(
                    old(self).lane(l),
                    (k0 + 1) as nat,
                ) by {
                    assert(lane_at(old(self).lane(l), (k0 + 1) as nat) == lane_step(
                        lane_at(old(self).lane(l), k0),
                    ));
                }
            }
            let mut j: usize = 0;
            while j < 64 && i < len
                invariant
                    len == old(dest)@.len(),
                    dest@.len() == len,
                    j <= 64,
                    i <= len,
                    i == 64 * k + j,
                    forall|l: int|
                        0 <= l < 8 ==> words[l] == out_at(old(self).lane(l), k as nat),
                    forall|l: int|
                        0 <= l < 8 ==> self.lane(l) == lane_at(old(self).lane(l), (k + 1) as nat),
                    self.source() == old(self).source(),
                    forall|m: int|
                        0 <= m < i ==> dest@[m] == old(self).wide_stream_byte(m as nat),
                decreases 64 - j,
            {
                let widx = j / 8;
                let sh = 8 * ((j % 8) as u64);
                let w = words[widx];
                let b = (w >> sh) & 0xFF;
                assert(b <= 0xFFu64) by (bit_vector)
                    requires
                        b == (w >> sh) & 0xFFu64,
                ;
                dest[i] = b as u8;
                proof {
                    vstd::arithmetic::div_mod::lemma_fundamental_div_mod_converse(
                        i as int,
                        64,
                        k as int,
                        j as int,
                    );
                    assert(i as int / 64 == k && i as int % 64 == j);
                    vstd::arithmetic::div_mod::lemma_mod_multiples_vanish(
                        8 * (k as int),
                        j as int,
                        8,
                    );
                    assert(i as int % 8 == j as int % 8);
                    assert(dest@[i as int] == old(self).wide_stream_byte(i as nat));
                }
                i = i + 1;
                j = j + 1;
            }
            k = k + 1;
        }
        proof {
            assert(k as nat == blocks_for(len as nat)) by (nonlinear_arith)
                requires
                    (i == 64 * k || (i == len && 64 * k < i + 64 && i <= 64 * k)),
                    i == len,
                    blocks_for(len as nat) == ((len as nat) + 63) / 64,
            ;
        }
    }
}

impl Default for RngWide {
    /// Same as [`RngWide::new`]: seeded from the best available randomness
    /// source.
    fn default() -> (r: Self)
        ensures
            r.source() != SeedSource::User,
            forall|i: int| 0 <= i < 8 ==> is_expansion(#[trigger] r.lane(i)),
    {
        RngWide::new()
    }
}

} // verus!
