use romu::{Rng, RngWide, SeedSource};

fn lane_seeds() -> [[u64; 3]; 8] {
    [
        [1, 2, 4],
        [3, 5, 7],
        [0xdead_beef, 77, 0x1234_5678_9abc_def0],
        [u64::MAX, u64::MAX, u64::MAX],
        [1, 0, 0],
        [0, 0, 1],
        [42, 42, 42],
        [0x9e37_79b9_7f4a_7c15, 0xbf58_476d_1ce4_e5b9, 0x94d0_49bb_1331_11eb],
    ]
}

#[test]
fn lane_independence_against_scalar_engines() {
    let seeds = lane_seeds();
    let mut wide = RngWide::from_seed_with_192bit(seeds);
    let mut scalars: Vec<Rng> = seeds.iter().map(|s| Rng::from_seed_with_192bit(*s)).collect();
    for _call in 0..64 {
        let block = wide.u64x8();
        for (lane, value) in block.iter().enumerate() {
            assert_eq!(*value, scalars[lane].next_u64());
        }
    }
}

#[test]
fn wide_from_64bit_matches_scalar_expansion() {
    let words: [u64; 8] = [0, 1, 2, 3, 4, 5, 12345, u64::MAX];
    let mut wide = RngWide::from_seed_with_64bit(words);
    let mut scalars: Vec<Rng> = words.iter().map(|w| Rng::from_seed_with_64bit(*w)).collect();
    for _call in 0..16 {
        let block = wide.u64x8();
        for (lane, value) in block.iter().enumerate() {
            assert_eq!(*value, scalars[lane].next_u64());
        }
    }
}

#[test]
fn wide_mix_advances_ten_steps() {
    let seeds = lane_seeds();
    let mut mixed = RngWide::from_seed_with_192bit(seeds);
    mixed.mix();
    let mut stepped = RngWide::from_seed_with_192bit(seeds);
    for _ in 0..10 {
        stepped.u64x8();
    }
    for _ in 0..4 {
        assert_eq!(mixed.u64x8(), stepped.u64x8());
    }
}

#[test]
fn fill_bytes_covers_every_length() {
    let seeds = lane_seeds();
    for len in [0usize, 1, 7, 8, 9, 1_048_579] {
        let mut filler = RngWide::from_seed_with_192bit(seeds);
        let mut dest = vec![0u8; len];
        filler.fill_bytes(&mut dest);
        assert_eq!(dest.len(), len);

        // The stream is the lane-ordered words of each block, little endian.
        let mut twin = RngWide::from_seed_with_192bit(seeds);
        let mut expected = Vec::with_capacity(len);
        while expected.len() < len {
            for word in twin.u64x8() {
                expected.extend_from_slice(&word.to_le_bytes());
            }
        }
        expected.truncate(len);
        assert_eq!(dest, expected);
    }
}

#[test]
fn fill_bytes_is_reproducible() {
    let seeds = lane_seeds();
    let mut a = RngWide::from_seed_with_192bit(seeds);
    let mut b = RngWide::from_seed_with_192bit(seeds);
    let mut da = vec![0u8; 1_048_579];
    let mut db = vec![0u8; 1_048_579];
    a.fill_bytes(&mut da);
    b.fill_bytes(&mut db);
    assert_eq!(da, db);
    // The trailing partial block's unused suffix is discarded, never
    // reused: the next block is the same for both engines.
    assert_eq!(a.u64x8(), b.u64x8());
}

#[test]
fn fresh_wide_engines_differ() {
    let mut a = RngWide::new();
    let mut b = RngWide::default();
    assert!(a.seed_source() != SeedSource::User);
    assert!(b.seed_source() != SeedSource::User);
    assert_ne!(a.u64x8(), b.u64x8());
}

#[test]
fn wide_lanes_are_decorrelated() {
    let mut rng = RngWide::new();
    let block = rng.u64x8();
    for i in 0..8 {
        for j in (i + 1)..8 {
            assert_ne!(block[i], block[j]);
        }
    }
}

#[test]
fn wide_seed_changes_provenance() {
    let mut rng = RngWide::from_seed_with_192bit(lane_seeds());
    assert_eq!(rng.seed_source(), SeedSource::User);
    rng.seed();
    assert!(rng.seed_source() != SeedSource::User);
}
