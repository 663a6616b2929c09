use minefield::chance::Probability;
use rand::rngs::StdRng;
use rand::SeedableRng;

#[test]
fn probability_needs_a_ratio_between_zero_and_one() {
    assert!(Probability::new(0, 1).is_some());
    assert!(Probability::new(1, 4).is_some());
    assert!(Probability::new(4, 4).is_some());
    assert!(Probability::new(u32::MAX, u32::MAX).is_some());
    assert!(Probability::new(5, 4).is_none());
    assert!(Probability::new(0, 0).is_none());
    assert!(Probability::new(1, 0).is_none());
}

#[test]
fn probability_zero_never_hits() {
    let mut rng = StdRng::seed_from_u64(11);
    for _ in 0..1000 {
        assert!(!Probability::never().sample(&mut rng));
        assert!(!Probability::new(0, 1000).unwrap().sample(&mut rng));
    }
}

#[test]
fn probability_one_always_hits() {
    let mut rng = StdRng::seed_from_u64(12);
    for _ in 0..1000 {
        assert!(Probability::always().sample(&mut rng));
        assert!(Probability::new(1000, 1000).unwrap().sample(&mut rng));
    }
}

#[test]
fn probability_in_between_hits_about_as_often_as_it_says() {
    let mut rng = StdRng::seed_from_u64(13);
    let quarter = Probability::new(1, 4).unwrap();
    let hits = (0..10_000).filter(|_| quarter.sample(&mut rng)).count();
    assert!(hits > 2000 && hits < 3000, "{} hits", hits);
}
