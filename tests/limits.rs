use war_tycoon::board::{GameField, UnitInField};
use war_tycoon::errors::ActionError;
use war_tycoon::resources::{Resource, ResourceType};
use war_tycoon::troops::{Unit, UnitType};

#[test]
fn credit_up_to_the_largest_stock() {
    let mut wood = Resource { resource_type: ResourceType::Wood, quantity: i32::MAX - 5 };
    assert!(wood.add(5).is_ok());
    assert_eq!(wood.quantity, i32::MAX);
    assert!(wood.can_pay(i32::MAX as i64));
    assert!(!wood.can_pay(i32::MAX as i64 + 1));
}

#[test]
fn largest_deposits_keep_exact_powers() {
    let mut f = GameField::new(0, 0);
    f.add_units(UnitInField::new(String::from("A"), Unit::unit_to_send(UnitType::Archer, i32::MAX)));
    f.add_units(UnitInField::new(String::from("A"), Unit::unit_to_send(UnitType::Archer, i32::MAX)));
    f.add_units(UnitInField::new(String::from("B"), Unit::unit_to_send(UnitType::Warrior, i32::MAX)));
    let chart = f.power_chart();
    assert_eq!(chart[0], (String::from("A"), 2 * 19 * (i32::MAX as i128)));
    assert_eq!(chart[1], (String::from("B"), 12 * (i32::MAX as i128)));
    assert_eq!(f.evaluate_field(), Some(String::from("A")));
    assert_eq!(f.get_units_by_type(UnitType::Archer), 2 * (i32::MAX as i128));
}

#[test]
fn sending_the_whole_pool_empties_it() {
    let mut warriors = Unit::new(UnitType::Warrior);
    warriors.train(i32::MAX);
    let sent = warriors.send_occupy(i32::MAX).unwrap();
    assert_eq!(sent.quantity, i32::MAX);
    assert_eq!(warriors.quantity, 0);
    assert_eq!(
        warriors.send_occupy(1),
        Err(ActionError::InsufficientUnits { unit: UnitType::Warrior, available: 0, requested: 1 })
    );
}
