use sigaldry::error::Error;
use sigaldry::matching::cost_less;
use sigaldry::matching::derive_enforced;
use sigaldry::matching::resolve;
use sigaldry::matching::satisfies;
use sigaldry::provider::VariationType;
use sigaldry::runes::HardwareSideChannelResistance;
use sigaldry::runes::IsolationLevel;
use sigaldry::runes::Rune;
use sigaldry::runes::RuneKind;
use sigaldry::runes::Schema;
use sigaldry::runes::SecurityCertification;
use sigaldry::runes::SoftwareSideChannelResistance;
use sigaldry::runes::VariationStrategy;

fn schema(runes: Vec<Rune>) -> Schema {
    Schema::from_runes(runes)
}

#[test]
fn minimal_over_provisioning_wins() {
    let requirement = schema(vec![Rune::SecurityBits(128)]);
    let c1 = schema(vec![Rune::SecurityBits(128)]);
    let c2 = schema(vec![Rune::SecurityBits(256)]);
    assert!(satisfies(&requirement, &c1));
    assert!(satisfies(&requirement, &c2));
    let candidates = vec![c1, c2];
    let (idx, _) = resolve(&requirement, &candidates).unwrap();
    assert_eq!(idx, 0);
    // The same outcome with the candidates swapped: the cheaper one still
    // wins, wherever it stands.
    let candidates = vec![schema(vec![Rune::SecurityBits(256)]), schema(vec![
        Rune::SecurityBits(128),
    ])];
    let (idx, _) = resolve(&requirement, &candidates).unwrap();
    assert_eq!(idx, 1);
}

#[test]
fn missing_hardware_resistance_is_unsatisfiable() {
    let requirement = schema(vec![Rune::HardwareSideChannelResistance(vec![
        HardwareSideChannelResistance::PowerAnalysisResistant,
    ])]);
    let candidate = schema(vec![Rune::SecurityBits(256)]);
    assert!(!satisfies(&requirement, &candidate));
    let candidates = vec![candidate];
    match resolve(&requirement, &candidates) {
        Err(Error::UnsatisfiableRequirements(s)) => assert_eq!(s, requirement),
        _ => panic!("resolution should fail"),
    }
}

#[test]
fn certifications_match_on_intersection() {
    let requirement = schema(vec![Rune::Certifications(vec![
        SecurityCertification(1),
        SecurityCertification(2),
    ])]);
    let shares_one = schema(vec![Rune::Certifications(vec![SecurityCertification(2)])]);
    let shares_none = schema(vec![Rune::Certifications(vec![SecurityCertification(3)])]);
    assert!(satisfies(&requirement, &shares_one));
    assert!(!satisfies(&requirement, &shares_none));
}

#[test]
fn resistance_sets_match_on_superset() {
    let requirement = schema(vec![Rune::SoftwareSideChannelResistance(vec![
        SoftwareSideChannelResistance::ConstantTime,
        SoftwareSideChannelResistance::CacheTimingResistant,
    ])]);
    let both = schema(vec![Rune::SoftwareSideChannelResistance(vec![
        SoftwareSideChannelResistance::CacheTimingResistant,
        SoftwareSideChannelResistance::ConstantTime,
    ])]);
    let one = schema(vec![Rune::SoftwareSideChannelResistance(vec![
        SoftwareSideChannelResistance::ConstantTime,
    ])]);
    assert!(satisfies(&requirement, &both));
    assert!(!satisfies(&requirement, &one));
}

#[test]
fn limits_compare_as_minimums() {
    let requirement = schema(vec![Rune::MessageLimit(100)]);
    assert!(!satisfies(&requirement, &schema(vec![Rune::MessageLimit(50)])));
    assert!(satisfies(&requirement, &schema(vec![Rune::MessageLimit(100)])));
    assert!(satisfies(&requirement, &schema(vec![Rune::MessageLimit(u128::MAX)])));
    // A kind the candidate does not declare fails the requirement.
    assert!(!satisfies(&requirement, &schema(vec![Rune::SecurityBits(256)])));
}

#[test]
fn isolation_compares_by_level() {
    let requirement = schema(vec![Rune::Isolated(IsolationLevel::SeparateProcess)]);
    assert!(satisfies(&requirement, &schema(vec![Rune::Isolated(IsolationLevel::DiscreteCpu)])));
    assert!(!satisfies(&requirement, &schema(vec![Rune::Isolated(IsolationLevel::SameProcess)])));
}

#[test]
fn presence_flags_must_be_declared() {
    let requirement = schema(vec![Rune::PublicPrivateKeyPair, Rune::QuantumResistance]);
    let full = schema(vec![Rune::PublicPrivateKeyPair, Rune::QuantumResistance]);
    let no_quantum = schema(vec![Rune::PublicPrivateKeyPair]);
    assert!(satisfies(&requirement, &full));
    assert!(!satisfies(&requirement, &no_quantum));
}

#[test]
fn horizons_must_cover_the_requirement() {
    let requirement = schema(vec![
        Rune::Integrity { year: 2035 },
        Rune::CryptoPeriod { begin: 10, end: 20 },
    ]);
    let covers = schema(vec![
        Rune::Integrity { year: 2040 },
        Rune::CryptoPeriod { begin: 5, end: 30 },
    ]);
    let narrow = schema(vec![
        Rune::Integrity { year: 2040 },
        Rune::CryptoPeriod { begin: 15, end: 30 },
    ]);
    let early = schema(vec![
        Rune::Integrity { year: 2030 },
        Rune::CryptoPeriod { begin: 5, end: 30 },
    ]);
    assert!(satisfies(&requirement, &covers));
    assert!(!satisfies(&requirement, &narrow));
    assert!(!satisfies(&requirement, &early));
}

#[test]
fn variation_strategy_restrictiveness() {
    let automatic = schema(vec![Rune::VariationStrategy(VariationStrategy::Automatic)]);
    assert!(satisfies(&automatic, &automatic));
    let offers_unique = schema(vec![Rune::VariationStrategy(VariationStrategy::CallerProvided(
        VariationType::Unique,
    ))]);
    let wants_arbitrary = schema(vec![Rune::VariationStrategy(VariationStrategy::CallerProvided(
        VariationType::Arbitrary,
    ))]);
    // A caller able to provide unique values can serve a construction that
    // demands anything up to unique.
    assert!(satisfies(&offers_unique, &offers_unique));
    assert!(satisfies(&offers_unique, &wants_arbitrary));
    // A caller only able to provide arbitrary values cannot serve a
    // construction that demands unique ones.
    assert!(!satisfies(&wants_arbitrary, &offers_unique));
    assert!(!satisfies(&automatic, &offers_unique));
}

#[test]
fn registry_order_breaks_ties() {
    let requirement = schema(vec![Rune::SecurityBits(128)]);
    let candidates = vec![
        schema(vec![Rune::SecurityBits(192)]),
        schema(vec![Rune::SecurityBits(192)]),
    ];
    let (idx, _) = resolve(&requirement, &candidates).unwrap();
    assert_eq!(idx, 0);
}

#[test]
fn cost_orders_by_security_bits_first() {
    let cheap = schema(vec![Rune::SecurityBits(128), Rune::MessageLimit(u128::MAX)]);
    let dear = schema(vec![Rune::SecurityBits(256), Rune::MessageLimit(1)]);
    assert!(cost_less(&cheap, &dear));
    assert!(!cost_less(&dear, &cheap));
}

#[test]
fn enforced_schema_takes_the_minimum() {
    let requirement = schema(vec![Rune::EnforcedMessageLimit(3), Rune::EnforcedTotalDataLimit(
        1000,
    )]);
    let candidate = schema(vec![
        Rune::SecurityBits(256),
        Rune::MessageLimit(100),
        Rune::TotalDataLimit(500),
    ]);
    let enforced = derive_enforced(&requirement, &candidate);
    assert_eq!(enforced.get(RuneKind::MessageLimit), Some(&Rune::EnforcedMessageLimit(3)));
    assert_eq!(enforced.get(RuneKind::TotalDataLimit), Some(&Rune::EnforcedTotalDataLimit(500)));
    // Kinds outside the limit families carry over from the candidate.
    assert_eq!(enforced.get(RuneKind::SecurityBits), Some(&Rune::SecurityBits(256)));
}

#[test]
fn enforced_schema_converts_declared_limits() {
    let requirement = schema(vec![Rune::SecurityBits(128)]);
    let candidate = schema(vec![Rune::SecurityBits(128), Rune::MessageSizeLimit(4096)]);
    let enforced = derive_enforced(&requirement, &candidate);
    assert_eq!(
        enforced.get(RuneKind::MessageSizeLimit),
        Some(&Rune::EnforcedMessageSizeLimit(4096))
    );
}

#[test]
fn resolve_returns_the_enforced_schema() {
    let mut b = sigaldry::runes::SchemaBuilder::new();
    b.security_bits(128);
    b.enforced_message_limit(3).unwrap();
    let requirement = b.build();
    let candidate = schema(vec![
        Rune::SecurityBits(192),
        Rune::MessageLimit(1 << 32),
        Rune::MessageSizeLimit(1 << 20),
        Rune::TotalDataLimit(1 << 40),
    ]);
    let candidates = vec![candidate];
    let (idx, enforced) = resolve(&requirement, &candidates).unwrap();
    assert_eq!(idx, 0);
    assert_eq!(enforced.get(RuneKind::MessageLimit), Some(&Rune::EnforcedMessageLimit(3)));
    assert_eq!(
        enforced.get(RuneKind::MessageSizeLimit),
        Some(&Rune::EnforcedMessageSizeLimit(1 << 20))
    );
    assert_eq!(
        enforced.get(RuneKind::TotalDataLimit),
        Some(&Rune::EnforcedTotalDataLimit(1 << 40))
    );
}
