//! The scalar engine: a single RomuTrio lane.
//!
//! Every generation call advances the three-word state by exactly one step
//! of the recurrence in [`crate::model`] and emits the previous `x` word;
//! there is no internal buffering. The per-width accessors narrow one fresh
//! 64-bit output word.

use vstd::prelude::*;

use crate::entropy::{generate_seed, time_entropy, SeedSource};
use crate::model::{
    lane_at, lane_nonzero, lane_step, out_at, stream_byte, words_for, Lane, ROMU_MULT,
};
use crate::splitmix::{is_expansion, split_mix_64, split_mix_lane};

verus! {

/// A single-lane RomuTrio generator.
pub struct Rng {
    x: u64,
    y: u64,
    z: u64,
    seed_source: SeedSource,
}

impl Rng {
    /// The three state words, as the model lane they form.
    pub closed spec fn lane(&self) -> Lane {
        Lane { x: self.x, y: self.y, z: self.z }
    }

    /// The provenance of the current state.
    pub closed spec fn source(&self) -> SeedSource {
        self.seed_source
    }

    /// Creates a new [`Rng`] with a seed from the best available
    /// randomness source.
    pub fn new() -> (r: Self)
        ensures
            r.source() != SeedSource::User,
            is_expansion(r.lane()),
    {
        let mut rng = Rng { x: 0, y: 0, z: 0, seed_source: SeedSource::Fixed };
        rng.seed();
        rng
    }

    /// Creates a new [`Rng`] by expanding the given 64-bit seed into a full
    /// lane through SplitMix64.
    pub fn from_seed_with_64bit(seed: u64) -> (r: Self)
        ensures
            r.lane() == split_mix_lane(seed),
            r.source() == SeedSource::User,
    {
        let words = split_mix_64(seed);
        Rng { x: words[0], y: words[1], z: words[2], seed_source: SeedSource::User }
    }

    /// Creates a new [`Rng`] with the given words installed directly as
    /// state. The caller must avoid the all-zero state, which is a fixed
    /// point of the recurrence; a seed of low quality should be followed by
    /// [`Rng::mix`].
    pub fn from_seed_with_192bit(seed: [u64; 3]) -> (r: Self)
        requires
            !(seed[0] == 0 && seed[1] == 0 && seed[2] == 0),
        ensures
            r.lane() == (Lane { x: seed[0], y: seed[1], z: seed[2] }),
            lane_nonzero(r.lane()),
            r.source() == SeedSource::User,
    {
        Rng { x: seed[0], y: seed[1], z: seed[2], seed_source: SeedSource::User }
    }

    /// Re-seeds the engine in place from the best available randomness
    /// source, overwriting state and provenance.
    pub fn seed(&mut self)
        ensures
            final(self).source() != SeedSource::User,
            is_expansion(final(self).lane()),
    {
        let varying = time_entropy();
        let (words, source) = generate_seed(varying);
        self.x = words[0];
        self.y = words[1];
        self.z = words[2];
        self.seed_source = source;
        proof {
            let c = choose|c: u64|
                words[0] == split_mix_lane(c).x && words[1] == split_mix_lane(c).y && words[2]
                    == split_mix_lane(c).z;
            assert(self.lane() == split_mix_lane(c));
            assert(is_expansion(self.lane()));
        }
    }

    /// The provenance of the current state, for caller diagnostics.
    pub fn seed_source(&self) -> (r: SeedSource)
        ensures
            r == self.source(),
    {
        self.seed_source
    }

    /// Advances the state by one step and returns the previous `x` word.
    fn step(&mut self) -> (r: u64)
        ensures
            r == out_at(old(self).lane(), 0),
            final(self).lane() == lane_step(old(self).lane()),
            final(self).source() == old(self).source(),
    {
        broadcast use crate::model::lemma_sub64_wraps;

        let xp = self.x;
        let yp = self.y;
        let zp = self.z;
        proof {
            crate::model::lemma_mul64_wraps(ROMU_MULT, zp);
        }
        self.x = ROMU_MULT.wrapping_mul(zp);
        let ty = yp.wrapping_sub(xp);
        self.y = (ty << 12u64) | (ty >> 52u64);
        let tz = zp.wrapping_sub(yp);
        self.z = (tz << 44u64) | (tz >> 20u64);
        xp
    }

    /// Performs ten discard-output steps to erase transient correlation.
    /// Should be called after seeding from a low-entropy or structured
    /// seed.
    pub fn mix(&mut self)
        ensures
            final(self).lane() == lane_at(old(self).lane(), 10),
            final(self).source() == old(self).source(),
    {
        let mut i: usize = 0;
        while i < 10
            invariant
                i <= 10,
                self.lane() == lane_at(old(self).lane(), i as nat),
                self.source() == old(self).source(),
            decreases 10 - i,
        {
            self.step();
            proof {
                assert(lane_at(old(self).lane(), (i + 1) as nat) == lane_step(
                    lane_at(old(self).lane(), i as nat),
                ));
            }
            i = i + 1;
        }
    }

    /// Returns a fresh uniform 64-bit output word.
    pub fn next_u64(&mut self) -> (r: u64)
        ensures
            r == out_at(old(self).lane(), 0),
            final(self).lane() == lane_step(old(self).lane()),
            final(self).source() == old(self).source(),
    {
        self.step()
    }

    /// Returns the low 32 bits of a fresh output word.
    pub fn next_u32(&mut self) -> (r: u32)
        ensures
            r == (out_at(old(self).lane(), 0) & 0xFFFF_FFFF) as u32,
            final(self).lane() == lane_step(old(self).lane()),
            final(self).source() == old(self).source(),
    {
        let w = self.step();
        let low = w & 0xFFFF_FFFF;
        assert(low <= 0xFFFF_FFFFu64) by (bit_vector)
            requires
                low == w & 0xFFFF_FFFFu64,
        ;
        low as u32
    }

    /// Returns the low 16 bits of a fresh output word.
    pub fn next_u16(&mut self) -> (r: u16)
        ensures
            r == (out_at(old(self).lane(), 0) & 0xFFFF) as u16,
            final(self).lane() == lane_step(old(self).lane()),
            final(self).source() == old(self).source(),
    {
        let w = self.step();
        let low = w & 0xFFFF;
        assert(low <= 0xFFFFu64) by (bit_vector)
            requires
                low == w & 0xFFFFu64,
        ;
        low as u16
    }

    /// Returns the low 8 bits of a fresh output word.
    pub fn next_u8(&mut self) -> (r: u8)
        ensures
            r == (out_at(old(self).lane(), 0) & 0xFF) as u8,
            final(self).lane() == lane_step(old(self).lane()),
            final(self).source() == old(self).source(),
    {
        let w = self.step();
        let low = w & 0xFF;
        assert(low <= 0xFFu64) by (bit_vector)
            requires
                low == w & 0xFFu64,
        ;
        low as u8
    }

    /// Returns a fresh output word with its bit pattern reinterpreted as
    /// signed.
    pub fn next_i64(&mut self) -> (r: i64)
        ensures
            r == out_at(old(self).lane(), 0) as i64,
            final(self).lane() == lane_step(old(self).lane()),
            final(self).source() == old(self).source(),
    {
        self.step() as i64
    }

    /// Returns the low 32 bits of a fresh output word, reinterpreted as
    /// signed.
    pub fn next_i32(&mut self) -> (r: i32)
        ensures
            r == (out_at(old(self).lane(), 0) & 0xFFFF_FFFF) as u32 as i32,
            final(self).lane() == lane_step(old(self).lane()),
            final(self).source() == old(self).source(),
    {
        self.next_u32() as i32
    }

    /// Returns the low 16 bits of a fresh output word, reinterpreted as
    /// signed.
    pub fn next_i16(&mut self) -> (r: i16)
        ensures
            r == (out_at(old(self).lane(), 0) & 0xFFFF) as u16 as i16,
            final(self).lane() == lane_step(old(self).lane()),
            final(self).source() == old(self).source(),
    {
        self.next_u16() as i16
    }

    /// Returns the low 8 bits of a fresh output word, reinterpreted as
    /// signed.
    pub fn next_i8(&mut self) -> (r: i8)
        ensures
            r == (out_at(old(self).lane(), 0) & 0xFF) as u8 as i8,
            final(self).lane() == lane_step(old(self).lane()),
            final(self).source() == old(self).source(),
    {
        self.next_u8() as i8
    }

    /// Returns the low pointer-width bits of a fresh output word.
    pub fn next_usize(&mut self) -> (r: usize)
        ensures
            r == out_at(old(self).lane(), 0) as usize,
            final(self).lane() == lane_step(old(self).lane()),
            final(self).source() == old(self).source(),
    {
        self.step() as usize
    }

    /// Returns the low pointer-width bits of a fresh output word,
    /// reinterpreted as signed.
    pub fn next_isize(&mut self) -> (r: isize)
        ensures
            r == out_at(old(self).lane(), 0) as isize,
            final(self).lane() == lane_step(old(self).lane()),
            final(self).source() == old(self).source(),
    {
        self.step() as isize
    }

    /// Returns the low bit of a fresh output word as a boolean.
    pub fn next_bool(&mut self) -> (r: bool)
        ensures
            r == (out_at(old(self).lane(), 0) & 1 == 1),
            final(self).lane() == lane_step(old(self).lane()),
            final(self).source() == old(self).source(),
    {
        let w = self.step();
        w & 1 == 1
    }

    /// Returns the top 24 bits of a fresh output word: the numerator over
    /// 2^24 of a uniform `f32` in [0, 1). Dividing the result by 2^24
    /// yields a value that is never negative and strictly below 1.0, with
    /// the full available mantissa precision.
    pub fn float32_numerator(&mut self) -> (r: u32)
        ensures
            r == (out_at(old(self).lane(), 0) >> 40u64) as u32,
            r < 0x100_0000,
            final(self).lane() == lane_step(old(self).lane()),
            final(self).source() == old(self).source(),
    {
        let w = self.step();
        let top = w >> 40u64;
        assert(top < 0x100_0000u64) by (bit_vector)
            requires
                top == w >> 40u64,
        ;
        top as u32
    }

    /// Returns the top 53 bits of a fresh output word: the numerator over
    /// 2^53 of a uniform `f64` in [0, 1). Dividing the result by 2^53
    /// yields a value that is never negative and strictly below 1.0, with
    /// the full available mantissa precision.
    pub fn float64_numerator(&mut self) -> (r: u64)
        ensures
            r == out_at(old(self).lane(), 0) >> 11u64,
            r < 0x20_0000_0000_0000,
            final(self).lane() == lane_step(old(self).lane()),
            final(self).source() == old(self).source(),
    {
        let w = self.step();
        let top = w >> 11u64;
        assert(top < 0x20_0000_0000_0000u64) by (bit_vector)
            requires
                top == w >> 11u64,
        ;
        top
    }

    /// Fills the destination completely with the engine's little-endian
    /// byte stream, eight bytes per output word in call order. A trailing
    /// partial chunk takes only the required prefix of one additional
    /// output word; the unused suffix is discarded, never reused.
    pub fn fill_bytes(&mut self, dest: &mut Vec<u8>)
        ensures
            final(dest)@.len() == old(dest)@.len(),
            forall|i: int|
                0 <= i < old(dest)@.len() ==> final(dest)@[i] == stream_byte(
                    old(self).lane(),
                    i as nat,
                ),
            final(self).lane() == lane_at(old(self).lane(), words_for(old(dest)@.len())),
            final(self).source() == old(self).source(),
    {
        let len = dest.len();
        let mut i: usize = 0;
        let mut k: usize = 0;
        while i < len
            invariant
                len == old(dest)@.len(),
                dest@.len() == len,
                i <= len,
                i == 8 * k || (i == len && 8 * k < i + 8 && i <= 8 * k),
                self.lane() == lane_at(old(self).lane(), k as nat),
                self.source() == old(self).source(),
                forall|m: int| 0 <= m < i ==> dest@[m] == stream_byte(old(self).lane(), m as nat),
            decreases len - i,
        {
            let ghost k0 = k as nat;
            let w = self.step();
            proof {
                assert(lane_at(old(self).lane(), (k0 + 1) as nat) == lane_step(
                    lane_at(old(self).lane(), k0),
                ));
                assert(w == out_at(old(self).lane(), k0));
            }
            let mut j: usize = 0;
            while j < 8 && i < len
                invariant
                    len == old(dest)@.len(),
                    dest@.len() == len,
                    j <= 8,
                    i <= len,
                    i == 8 * k + j || (i == len && 8 * k + j >= i && 8 * k <= i),
                    j < 8 ==> i == 8 * k + j,
                    w == out_at(old(self).lane(), k as nat),
                    self.lane() == lane_at(old(self).lane(), (k + 1) as nat),
                    self.source() == old(self).source(),
                    forall|m: int|
                        0 <= m < i ==> dest@[m] == stream_byte(old(self).lane(), m as nat),
                decreases 8 - j,
            {
                let sh = 8 * (j as u64);
                let b = (w >> sh) & 0xFF;
                assert(b <= 0xFFu64) by (bit_vector)
                    requires
                        b == (w >> sh) & 0xFFu64,
                ;
                dest[i] = b as u8;
                proof {
                    assert(i as int % 8 == j && i as int / 8 == k) by (nonlinear_arith)
                        requires
                            i == 8 * k + j,
                            0 <= j < 8,
                    ;
                    assert(dest@[i as int] == stream_byte(old(self).lane(), i as nat));
                }
                i = i + 1;
                j = j + 1;
            }
            k = k + 1;
        }
        proof {
            assert(k as nat == words_for(len as nat)) by (nonlinear_arith)
                requires
                    (i == 8 * k || (i == len && 8 * k < i + 8 && i <= 8 * k)),
                    i == len,
                    words_for(len as nat) == ((len as nat) + 7) / 8,
            ;
        }
    }
}

} // verus!
