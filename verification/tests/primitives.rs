use handy_core::primitives::{health_value, Health, WinType};

#[test]
fn test_health_order() {
    assert!(Health::Full == Health::Full);
    assert!(Health::Full > Health::Half);
    assert!(Health::Full > Health::Empty);

    assert!(Health::Half < Health::Full);
    assert!(Health::Half == Health::Half);
    assert!(Health::Half > Health::Empty);

    assert!(Health::Empty < Health::Full);
    assert!(Health::Empty < Health::Half);
    assert!(Health::Empty == Health::Empty);
}

#[test]
fn health_value_follows_order() {
    assert_eq!(health_value(Health::Empty), 0);
    assert_eq!(health_value(Health::Half), 1);
    assert_eq!(health_value(Health::Full), 2);
}

#[test]
fn win_type_is_over() {
    assert!(WinType::Win.is_over());
    assert!(WinType::Lose.is_over());
    assert!(!WinType::Unresolved.is_over());
}
