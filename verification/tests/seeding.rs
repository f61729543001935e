use romu::entropy::generate_seed;
use romu::splitmix::split_mix_64;
use romu::{Rng, SeedSource};

#[test]
fn split_mix_64_reference_values() {
    assert_eq!(
        split_mix_64(0),
        [0xe220a8397b1dcdaf, 0x6e789e6aa1b965f4, 0x06c45d188009454f]
    );
    assert_eq!(
        split_mix_64(12345),
        [0x22118258a9d111a0, 0x346edce5f713f8ed, 0x1e9a57bc80e6721d]
    );
}

#[test]
fn split_mix_64_matches_64bit_constructor() {
    let words = split_mix_64(42);
    let mut from_words = Rng::from_seed_with_192bit(words);
    let mut from_seed = Rng::from_seed_with_64bit(42);
    for _ in 0..16 {
        assert_eq!(from_words.next_u64(), from_seed.next_u64());
    }
}

#[test]
fn generate_seed_never_reports_user_provenance() {
    let (_, source) = generate_seed(123);
    assert!(source != SeedSource::User);
    assert!(matches!(source, SeedSource::Os | SeedSource::Fixed));
}

#[test]
fn generate_seed_varies_between_calls() {
    let (a, _) = generate_seed(1);
    let (b, _) = generate_seed(2);
    assert_ne!(a, b);
}
