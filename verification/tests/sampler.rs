use romu::Rng;

#[test]
fn mod_u64_in_range_and_unbiased() {
    let mut rng = Rng::from_seed_with_192bit([1, 2, 4]);
    let mut counts = [0u32; 7];
    for _ in 0..100_000 {
        let v = rng.mod_u64(7);
        assert!(v < 7);
        counts[v as usize] += 1;
    }
    // Chi-square against uniform over 7 residues (6 degrees of freedom);
    // 22.46 is the 0.1% critical value, and the seed is fixed, so the
    // statistic is reproducible.
    let expected = 100_000.0_f64 / 7.0;
    let chi2: f64 = counts
        .iter()
        .map(|&c| {
            let d = c as f64 - expected;
            d * d / expected
        })
        .sum();
    assert!(chi2 < 22.46, "chi-square statistic {chi2} too large");
}

#[test]
fn mod_u8_in_range_and_unbiased() {
    let mut rng = Rng::from_seed_with_192bit([9, 9, 9]);
    let mut counts = [0u32; 5];
    for _ in 0..100_000 {
        let v = rng.mod_u8(5);
        assert!(v < 5);
        counts[v as usize] += 1;
    }
    // Chi-square against uniform over 5 residues (4 degrees of freedom);
    // 18.47 is the 0.1% critical value.
    let expected = 100_000.0_f64 / 5.0;
    let chi2: f64 = counts
        .iter()
        .map(|&c| {
            let d = c as f64 - expected;
            d * d / expected
        })
        .sum();
    assert!(chi2 < 18.47, "chi-square statistic {chi2} too large");
}

#[test]
fn mod_bounds_across_widths() {
    let mut rng = Rng::from_seed_with_192bit([5, 6, 7]);
    for _ in 0..10_000 {
        assert!(rng.mod_u64(1_000_000_007) < 1_000_000_007);
        assert!(rng.mod_u32(97) < 97);
        assert!(rng.mod_u16(1_000) < 1_000);
        assert!(rng.mod_u8(3) < 3);
    }
}

#[test]
fn mod_of_one_is_always_zero() {
    let mut rng = Rng::from_seed_with_192bit([1, 2, 4]);
    for _ in 0..100 {
        assert_eq!(rng.mod_u64(1), 0);
        assert_eq!(rng.mod_u32(1), 0);
        assert_eq!(rng.mod_u16(1), 0);
        assert_eq!(rng.mod_u8(1), 0);
    }
}

#[test]
fn mod_zero_means_no_reduction() {
    let seed = [10, 20, 30];
    let mut sampler = Rng::from_seed_with_192bit(seed);
    let mut twin = Rng::from_seed_with_192bit(seed);
    for _ in 0..32 {
        let raw = twin.next_u64();
        assert_eq!(sampler.mod_u64(0), raw);
    }
    let mut sampler8 = Rng::from_seed_with_192bit(seed);
    let mut twin8 = Rng::from_seed_with_192bit(seed);
    for _ in 0..32 {
        let raw = twin8.next_u64();
        assert_eq!(sampler8.mod_u8(0), (raw & 0xFF) as u8);
    }
}

#[test]
fn ranges_stay_inside_bounds() {
    let mut rng = Rng::from_seed_with_192bit([2, 4, 8]);
    for _ in 0..10_000 {
        let v = rng.range_u64(10, 17);
        assert!((10..17).contains(&v));
        let v = rng.range_u32(1_000, 1_000_000);
        assert!((1_000..1_000_000).contains(&v));
        let v = rng.range_u16(0, 2);
        assert!(v < 2);
        let v = rng.range_u8(200, 255);
        assert!((200..255).contains(&v));
        let v = rng.range_i64(-5, 5);
        assert!((-5..5).contains(&v));
        let v = rng.range_i32(i32::MIN, i32::MAX);
        assert!(v < i32::MAX);
        let v = rng.range_i16(-300, -100);
        assert!((-300..-100).contains(&v));
        let v = rng.range_i8(-128, 127);
        assert!(v < 127);
    }
}

#[test]
fn range_of_single_value_returns_low() {
    let mut rng = Rng::from_seed_with_192bit([1, 2, 4]);
    for _ in 0..100 {
        assert_eq!(rng.range_u64(41, 42), 41);
        assert_eq!(rng.range_u32(0, 1), 0);
        assert_eq!(rng.range_u16(u16::MAX - 1, u16::MAX), u16::MAX - 1);
        assert_eq!(rng.range_u8(7, 8), 7);
        assert_eq!(rng.range_i64(-1, 0), -1);
        assert_eq!(rng.range_i32(i32::MIN, i32::MIN + 1), i32::MIN);
        assert_eq!(rng.range_i16(99, 100), 99);
        assert_eq!(rng.range_i8(-128, -127), -128);
    }
}

#[test]
fn range_i64_full_span() {
    let mut rng = Rng::from_seed_with_192bit([3, 1, 4]);
    let mut saw_negative = false;
    let mut saw_positive = false;
    for _ in 0..1_000 {
        let v = rng.range_i64(i64::MIN, i64::MAX);
        assert!(v < i64::MAX);
        if v < 0 {
            saw_negative = true;
        }
        if v > 0 {
            saw_positive = true;
        }
    }
    assert!(saw_negative && saw_positive);
}

#[test]
fn sampling_is_deterministic() {
    let seed = [6, 6, 6];
    let mut a = Rng::from_seed_with_192bit(seed);
    let mut b = Rng::from_seed_with_192bit(seed);
    for _ in 0..1_000 {
        assert_eq!(a.mod_u64(12_345), b.mod_u64(12_345));
        assert_eq!(a.range_i32(-7, 9), b.range_i32(-7, 9));
    }
}
