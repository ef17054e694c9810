use title_card::sampler::should_sample;

#[test]
fn sampling_boundaries() {
    assert!(!should_sample(900));
    assert!(!should_sample(901));
    assert!(!should_sample(929));
    assert!(should_sample(930));
    assert!(should_sample(960));
    assert!(!should_sample(0));
    assert!(!should_sample(30));
}

#[test]
fn sampling_matches_policy_over_a_wide_range() {
    for i in 0u64..20000 {
        assert_eq!(should_sample(i), i > 900 && i % 30 == 0);
    }
    for i in (u64::MAX - 100)..=u64::MAX {
        assert_eq!(should_sample(i), i % 30 == 0);
    }
}
