use event_sourcing::entities::user::UserId;
use event_sourcing::identifier::{decimal_string, EntityId};

#[test]
fn decimal_of_zero_and_small_numbers() {
    assert_eq!(decimal_string(0), "0");
    assert_eq!(decimal_string(7), "7");
    assert_eq!(decimal_string(10), "10");
    assert_eq!(decimal_string(12345), "12345");
}

#[test]
fn decimal_of_negative_numbers() {
    assert_eq!(decimal_string(-1), "-1");
    assert_eq!(decimal_string(-90), "-90");
}

#[test]
fn decimal_of_extreme_numbers() {
    assert_eq!(decimal_string(i128::MAX), i128::MAX.to_string());
    assert_eq!(decimal_string(i128::MIN), i128::MIN.to_string());
}

#[test]
fn user_id_as_entity_id() {
    let id = UserId::new(1700000000123456789);
    assert_eq!(id.value(), 1700000000123456789);
    assert_eq!(id.to_entity_id().as_str(), "1700000000123456789");
}

#[test]
fn entity_id_keeps_its_text() {
    let id = EntityId::new("user-42".to_string());
    assert_eq!(id.as_str(), "user-42");
    assert_eq!(id.clone().as_str(), "user-42");
}
