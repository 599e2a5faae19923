use sigaldry::construction::ConstructionIdentifier;
use sigaldry::construction::ConstructionRegistry;
use sigaldry::matching::resolve;
use sigaldry::runes::Rune;
use sigaldry::runes::RuneKind;
use sigaldry::runes::Schema;
use sigaldry::security_properties::SecurityProperty;
use sigaldry::security_properties::SecurityPropertySet;

#[test]
fn identifiers_match_on_text() {
    let a = ConstructionIdentifier::new(String::from("aes-gcm"));
    let b = ConstructionIdentifier::new(String::from("aes-gcm"));
    let c = ConstructionIdentifier::new(String::from("chacha20"));
    assert!(a.matches(&b));
    assert!(!a.matches(&c));
}

#[test]
fn registry_lookup_by_identifier() {
    let mut registry = ConstructionRegistry::new();
    registry.register(
        ConstructionIdentifier::new(String::from("aes-gcm")),
        Schema::from_runes(vec![Rune::SecurityBits(128)]),
    );
    registry.register(
        ConstructionIdentifier::new(String::from("chacha20")),
        Schema::from_runes(vec![Rune::SecurityBits(256)]),
    );
    let id = ConstructionIdentifier::new(String::from("chacha20"));
    let schema = registry.get(&id).unwrap();
    assert_eq!(schema.get(RuneKind::SecurityBits), Some(&Rune::SecurityBits(256)));
    let missing = ConstructionIdentifier::new(String::from("des"));
    assert!(registry.get(&missing).is_none());
}

#[test]
fn later_registration_shadows_earlier() {
    let mut registry = ConstructionRegistry::new();
    let id = || ConstructionIdentifier::new(String::from("aes-gcm"));
    registry.register(id(), Schema::from_runes(vec![Rune::SecurityBits(128)]));
    registry.register(id(), Schema::from_runes(vec![Rune::SecurityBits(192)]));
    let schema = registry.get(&id()).unwrap();
    assert_eq!(schema.get(RuneKind::SecurityBits), Some(&Rune::SecurityBits(192)));
}

#[test]
fn resolution_over_registry_capabilities() {
    let mut registry = ConstructionRegistry::new();
    registry.register(
        ConstructionIdentifier::new(String::from("big")),
        Schema::from_runes(vec![Rune::SecurityBits(256)]),
    );
    registry.register(
        ConstructionIdentifier::new(String::from("small")),
        Schema::from_runes(vec![Rune::SecurityBits(128)]),
    );
    let requirement = Schema::from_runes(vec![Rune::SecurityBits(100)]);
    let candidates = registry.capabilities();
    let (idx, enforced) = resolve(&requirement, &candidates).unwrap();
    assert_eq!(idx, 1);
    assert_eq!(enforced.get(RuneKind::SecurityBits), Some(&Rune::SecurityBits(128)));
}

#[test]
fn property_set_reports_its_properties() {
    let set = SecurityPropertySet::new(vec![
        SecurityProperty::PublicPrivateKeyPair,
        SecurityProperty::SecurityBits(128),
    ]);
    let props = set.properties();
    assert_eq!(props.len(), 2);
    assert_eq!(props[0], SecurityProperty::PublicPrivateKeyPair);
    assert_eq!(props[1], SecurityProperty::SecurityBits(128));
}
