use sigaldry::error::Error;
use sigaldry::runes::Rune;
use sigaldry::runes::RuneKind;
use sigaldry::runes::SchemaBuilder;
use sigaldry::runes::SecurityCertification;
use sigaldry::runes::SoftwareSideChannelResistance;
use sigaldry::runes::HardwareSideChannelResistance;
use sigaldry::runes::IsolationLevel;
use sigaldry::runes::Schema;
use sigaldry::runes::UNBOUNDED;

#[test]
fn default_baseline_limits() {
    let b = SchemaBuilder::new();
    let s = b.build();
    assert_eq!(s.get(RuneKind::MessageLimit), Some(&Rune::MessageLimit(65536)));
    assert_eq!(s.get(RuneKind::MessageSizeLimit), Some(&Rune::MessageSizeLimit(65536)));
    assert_eq!(s.get(RuneKind::TotalDataLimit), Some(&Rune::TotalDataLimit(4294967296)));
    assert_eq!(s.runes().len(), 3);
}

#[test]
fn scalar_setter_last_write_wins() {
    let mut b = SchemaBuilder::new();
    b.security_bits(128);
    b.security_bits(256);
    let s = b.build();
    assert_eq!(s.get(RuneKind::SecurityBits), Some(&Rune::SecurityBits(256)));
}

#[test]
fn quantum_resistance_toggle_removes() {
    let mut b = SchemaBuilder::new();
    b.quantum_resistance(true);
    b.quantum_resistance(false);
    let s = b.build();
    assert!(s.get(RuneKind::QuantumResistance).is_none());
}

#[test]
fn quantum_resistance_set() {
    let mut b = SchemaBuilder::new();
    b.quantum_resistance(true);
    let s = b.build();
    assert_eq!(s.get(RuneKind::QuantumResistance), Some(&Rune::QuantumResistance));
}

#[test]
fn unbounded_message_limit_rejected() {
    let mut b = SchemaBuilder::new();
    let r = b.message_limit(UNBOUNDED);
    assert!(matches!(r, Err(Error::InvalidMessageLimit)));
    let r = b.enforced_message_limit(UNBOUNDED);
    assert!(matches!(r, Err(Error::InvalidMessageLimit)));
    let r = b.message_size_limit(UNBOUNDED);
    assert!(matches!(r, Err(Error::InvalidMessageSizeLimit)));
    let r = b.enforced_message_size_limit(UNBOUNDED);
    assert!(matches!(r, Err(Error::InvalidMessageSizeLimit)));
    let r = b.total_data_limit(UNBOUNDED);
    assert!(matches!(r, Err(Error::InvalidTotalDataLimit)));
    let r = b.enforced_total_data_limit(UNBOUNDED);
    assert!(matches!(r, Err(Error::InvalidTotalDataLimit)));
    // The failed calls left the builder unchanged: the defaults are still
    // there and nothing of the attempted values appears.
    let s = b.build();
    assert_eq!(s.get(RuneKind::MessageLimit), Some(&Rune::MessageLimit(65536)));
    assert_eq!(s.get(RuneKind::MessageSizeLimit), Some(&Rune::MessageSizeLimit(65536)));
    assert_eq!(s.get(RuneKind::TotalDataLimit), Some(&Rune::TotalDataLimit(4294967296)));
    assert_eq!(s.runes().len(), 3);
}

#[test]
fn bounded_limits_accepted() {
    let mut b = SchemaBuilder::new();
    b.message_limit(100).unwrap();
    b.enforced_message_limit(10).unwrap();
    b.message_size_limit(4096).unwrap();
    b.total_data_limit(1 << 40).unwrap();
    let s = b.build();
    // A limit and its enforced counterpart share a kind: the enforced call
    // overwrote the plain one.
    assert_eq!(s.get(RuneKind::MessageLimit), Some(&Rune::EnforcedMessageLimit(10)));
    assert_eq!(s.get(RuneKind::MessageSizeLimit), Some(&Rune::MessageSizeLimit(4096)));
    assert_eq!(s.get(RuneKind::TotalDataLimit), Some(&Rune::TotalDataLimit(1 << 40)));
}

#[test]
fn crypto_period_rejects_inverted_window() {
    let mut b = SchemaBuilder::new();
    let r = b.crypto_period(10, 5);
    assert!(matches!(r, Err(Error::InvalidCryptoPeriod { begin: 10, end: 5 })));
    let r = b.crypto_period(7, 7);
    assert!(matches!(r, Err(Error::InvalidCryptoPeriod { begin: 7, end: 7 })));
    let s = b.build();
    assert!(s.get(RuneKind::CryptoPeriod).is_none());
}

#[test]
fn crypto_period_accepts_proper_window() {
    let mut b = SchemaBuilder::new();
    b.crypto_period(5, 10).unwrap();
    let s = b.build();
    assert_eq!(s.get(RuneKind::CryptoPeriod), Some(&Rune::CryptoPeriod { begin: 5, end: 10 }));
}

#[test]
fn vector_setters_union_without_duplicates() {
    let mut b = SchemaBuilder::new();
    b.software_side_channel_resistance(SoftwareSideChannelResistance::ConstantTime);
    b.software_side_channel_resistance(SoftwareSideChannelResistance::ConstantTime);
    b.software_side_channel_resistance(SoftwareSideChannelResistance::CacheTimingResistant);
    b.hardware_side_channel_resistance(HardwareSideChannelResistance::PowerAnalysisResistant);
    b.certification(SecurityCertification(1));
    b.certification(SecurityCertification(2));
    b.certification(SecurityCertification(1));
    let s = b.build();
    assert_eq!(
        s.get(RuneKind::SoftwareSideChannelResistance),
        Some(&Rune::SoftwareSideChannelResistance(vec![
            SoftwareSideChannelResistance::ConstantTime,
            SoftwareSideChannelResistance::CacheTimingResistant,
        ]))
    );
    assert_eq!(
        s.get(RuneKind::HardwareSideChannelResistance),
        Some(&Rune::HardwareSideChannelResistance(vec![
            HardwareSideChannelResistance::PowerAnalysisResistant,
        ]))
    );
    assert_eq!(
        s.get(RuneKind::Certifications),
        Some(&Rune::Certifications(vec![SecurityCertification(1), SecurityCertification(2)]))
    );
}

#[test]
fn scalar_setters_insert_their_rune() {
    let mut b = SchemaBuilder::new();
    b.public_private_key_pair();
    b.isolated(IsolationLevel::VirtualMachine);
    let s = b.build();
    assert_eq!(s.get(RuneKind::KeyTopology), Some(&Rune::PublicPrivateKeyPair));
    assert_eq!(s.get(RuneKind::Isolation), Some(&Rune::Isolated(IsolationLevel::VirtualMachine)));
}

#[test]
fn confidentiality_at_adds_duration() {
    let mut b = SchemaBuilder::new();
    b.confidentiality_at(1000, 500).unwrap();
    let s = b.build();
    assert_eq!(s.get(RuneKind::Confidentiality), Some(&Rune::Confidentiality { end_time: 1500 }));
}

#[test]
fn confidentiality_at_overflow_is_internal_error() {
    let mut b = SchemaBuilder::new();
    let r = b.confidentiality_at(i64::MAX, 1);
    assert!(matches!(r, Err(Error::InternalError)));
    let s = b.build();
    assert!(s.get(RuneKind::Confidentiality).is_none());
}

#[test]
fn confidentiality_uses_the_clock() {
    let mut b = SchemaBuilder::new();
    b.confidentiality(60_000).unwrap();
    let s = b.build();
    assert!(matches!(s.get(RuneKind::Confidentiality), Some(&Rune::Confidentiality { .. })));
}

#[test]
fn runes_are_sorted_by_kind() {
    let mut b = SchemaBuilder::new();
    b.quantum_resistance(true);
    b.security_bits(128);
    b.public_private_key_pair();
    b.certification(SecurityCertification(7));
    let s = b.build();
    let runes = s.runes();
    for w in runes.windows(2) {
        assert!(sigaldry::runes::kind_index(w[0].kind()) < sigaldry::runes::kind_index(w[1].kind()));
    }
}

#[test]
fn from_runes_merges_by_kind() {
    let s = Schema::from_runes(vec![
        Rune::SecurityBits(128),
        Rune::SecurityBits(192),
        Rune::Certifications(vec![SecurityCertification(1)]),
        Rune::Certifications(vec![SecurityCertification(2), SecurityCertification(1)]),
    ]);
    assert_eq!(s.get(RuneKind::SecurityBits), Some(&Rune::SecurityBits(192)));
    assert_eq!(
        s.get(RuneKind::Certifications),
        Some(&Rune::Certifications(vec![SecurityCertification(1), SecurityCertification(2)]))
    );
    assert_eq!(s.runes().len(), 2);
}
