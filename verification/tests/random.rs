use aetherloom::random::{
    body_hash, keep_coin, keep_hash, keep_seed, lattice_hash, relief_hash, Rng, BOULDER_SEGMENTS,
    DEFAULT_STATE,
};

#[test]
fn default_stream_steps_by_xorshift() {
    let mut r = Rng::new();
    assert_eq!(r.state(), DEFAULT_STATE);
    let s = r.next_sample();
    assert_eq!(r.state(), 0x510c_4619);
    assert_eq!(s, 804_377);
}

#[test]
fn seeding_forces_the_low_bit() {
    assert_eq!(Rng::seeded(0).state(), 1);
    assert_eq!(Rng::seeded(4).state(), 5);
    let mut r = Rng::new();
    r.reseed(12_344);
    assert_eq!(r.state(), 12_345);
}

#[test]
fn seeded_stream_matches_known_sequence() {
    let mut r = Rng::seeded(12_345);
    assert_eq!(r.next_sample(), 15_037_562);
    assert_eq!(r.state(), 3_336_926_330);
    assert_eq!(r.next_sample(), 2_754_991);
    assert_eq!(r.state(), 1_697_253_807);
}

#[test]
fn stream_never_reaches_zero() {
    let mut r = Rng::seeded(0);
    for _ in 0..10_000 {
        let s = r.next_sample();
        assert!(s < 1 << 24);
        assert_ne!(r.state(), 0);
    }
}

#[test]
fn lattice_hash_known_values() {
    assert_eq!(lattice_hash(0, 0, 0), 0);
    assert_eq!(lattice_hash(3, -7, 0x9e37_79b9), 52_045);
    assert_eq!(lattice_hash(-1000, 250, 12_345), 50_268);
}

#[test]
fn body_hash_known_values() {
    assert_eq!(body_hash(0, 0), 0);
    assert_eq!(body_hash(7, 97), 63_649);
    assert_eq!(body_hash(459, -194), 6_505);
}

#[test]
fn keep_hashes_known_values() {
    let seed = keep_seed(0, 320, -64);
    assert_eq!(seed, 2_466_797_046);
    assert_eq!(keep_hash(seed, 222), 17_010);
    assert!(keep_coin(seed, 222));
    assert_eq!(keep_seed(1, 0, 0), 4_067_344_842);
    assert_eq!(keep_hash(0, 0), 0);
    assert!(keep_coin(0, 0));
}

#[test]
fn boulder_relief_wraps_at_the_seam() {
    assert_eq!(relief_hash(0, 0), 0);
    assert_eq!(relief_hash(3, 4), 6_534);
    assert_eq!(relief_hash(3, 14), 6_534);
    assert_eq!(relief_hash(6, 10), 18_668);
    for ring in 0..8 {
        assert_eq!(relief_hash(ring, BOULDER_SEGMENTS), relief_hash(ring, 0));
    }
}
