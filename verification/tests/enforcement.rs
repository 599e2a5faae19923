use sigaldry::enforcement::BindRune;
use sigaldry::error::Error;
use sigaldry::runes::Rune;
use sigaldry::runes::Schema;

#[test]
fn message_budget_exhausts_at_zero() {
    let enforced = Schema::from_runes(vec![Rune::EnforcedMessageLimit(3)]);
    let mut key = BindRune::new(enforced);
    assert!(key.seal_at(1, 0).is_ok());
    assert!(key.seal_at(1, 0).is_ok());
    assert!(key.seal_at(1, 0).is_ok());
    assert_eq!(key.remaining_message_budget(), Some(0));
    let r = key.seal_at(1, 0);
    assert!(matches!(r, Err(Error::MessageTooLong)));
    // The counter stays at zero, never negative.
    assert_eq!(key.remaining_message_budget(), Some(0));
}

#[test]
fn oversized_message_rejected_before_any_decrement() {
    let enforced = Schema::from_runes(vec![
        Rune::EnforcedMessageLimit(5),
        Rune::EnforcedMessageSizeLimit(10),
    ]);
    let mut key = BindRune::new(enforced);
    let r = key.seal_at(11, 0);
    assert!(matches!(r, Err(Error::MessageTooLong)));
    assert_eq!(key.remaining_message_budget(), Some(5));
    assert!(key.seal_at(10, 0).is_ok());
    assert_eq!(key.remaining_message_budget(), Some(4));
}

#[test]
fn total_data_budget_decrements_by_size() {
    let enforced = Schema::from_runes(vec![Rune::EnforcedTotalDataLimit(10)]);
    let mut key = BindRune::new(enforced);
    assert!(key.seal_at(6, 0).is_ok());
    assert_eq!(key.remaining_data_budget(), Some(4));
    let r = key.seal_at(5, 0);
    assert!(matches!(r, Err(Error::TotalDataTooLong)));
    assert_eq!(key.remaining_data_budget(), Some(4));
    assert!(key.seal_at(4, 0).is_ok());
    assert_eq!(key.remaining_data_budget(), Some(0));
}

#[test]
fn crypto_period_gates_operations() {
    let enforced = Schema::from_runes(vec![
        Rune::CryptoPeriod { begin: 100, end: 200 },
        Rune::EnforcedMessageLimit(5),
    ]);
    let mut key = BindRune::new(enforced);
    let r = key.seal_at(1, 50);
    assert!(matches!(r, Err(Error::CryptoPeriodTooSoon)));
    let r = key.seal_at(1, 250);
    assert!(matches!(r, Err(Error::CryptoPeriodTooLate)));
    let r = key.seal_at(1, 200);
    assert!(matches!(r, Err(Error::CryptoPeriodTooLate)));
    // Rejections never touched the budget.
    assert_eq!(key.remaining_message_budget(), Some(5));
    assert!(key.seal_at(1, 100).is_ok());
    assert!(key.seal_at(1, 199).is_ok());
    assert_eq!(key.remaining_message_budget(), Some(3));
}

#[test]
fn unseal_consumes_the_same_budgets() {
    let enforced = Schema::from_runes(vec![
        Rune::EnforcedMessageLimit(2),
        Rune::EnforcedTotalDataLimit(100),
    ]);
    let mut key = BindRune::new(enforced);
    assert!(key.unseal_at(30, 0).is_ok());
    assert_eq!(key.remaining_message_budget(), Some(1));
    assert_eq!(key.remaining_data_budget(), Some(70));
}

#[test]
fn seal_with_the_clock_succeeds_without_a_period() {
    let enforced = Schema::from_runes(vec![Rune::EnforcedMessageLimit(1)]);
    let mut key = BindRune::new(enforced);
    assert!(key.seal(1).is_ok());
    assert_eq!(key.remaining_message_budget(), Some(0));
    assert!(key.unseal(1).is_err());
}

#[test]
fn schema_reports_the_remaining_budgets() {
    let enforced = Schema::from_runes(vec![Rune::EnforcedMessageLimit(2)]);
    let mut key = BindRune::new(enforced);
    key.seal_at(1, 0).unwrap();
    assert_eq!(
        key.schema().get(sigaldry::runes::RuneKind::MessageLimit),
        Some(&Rune::EnforcedMessageLimit(1))
    );
}

#[test]
fn untracked_budgets_impose_no_ceiling() {
    let enforced = Schema::from_runes(vec![Rune::SecurityBits(128)]);
    let mut key = BindRune::new(enforced);
    for _ in 0..10 {
        assert!(key.seal_at(1 << 20, 0).is_ok());
    }
}
