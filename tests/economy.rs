use war_tycoon::actions::{Actions, Outcome};
use war_tycoon::board::GamePlan;
use war_tycoon::buildings::Building;
use war_tycoon::errors::ActionError;
use war_tycoon::game::create_player;
use war_tycoon::player::Player;
use war_tycoon::resources::{Resource, ResourceType};
use war_tycoon::troops::{Unit, UnitType};

fn stocks(p: &Player) -> (i32, i32) {
    (p.balance(ResourceType::Wood), p.balance(ResourceType::Gold))
}

fn held(p: &Player) -> (i32, i32) {
    (p.send_max_units(UnitType::Archer), p.send_max_units(UnitType::Warrior))
}

#[test]
fn harvest_twice_accumulates() {
    let mut plan = GamePlan::new(1, 1);
    let mut a = Player::new("A");
    let first = a.perform_action(Actions::Harvest, &mut plan);
    assert_eq!(
        first,
        Ok(Outcome::Harvested { wood_gained: 200, gold_gained: 120, wood: 200, gold: 120 })
    );
    assert_eq!(stocks(&a), (200, 120));
    a.perform_action(Actions::Harvest, &mut plan).unwrap();
    assert_eq!(stocks(&a), (400, 240));
}

#[test]
fn harvest_adds_same_yield_after_spending() {
    let mut plan = GamePlan::new(1, 1);
    let mut a = Player::new("A");
    a.perform_action(Actions::Harvest, &mut plan).unwrap();
    a.perform_action(Actions::Harvest, &mut plan).unwrap();
    a.perform_action(Actions::Build(Building::Base), &mut plan).unwrap();
    a.perform_action(Actions::Train(UnitType::Warrior, 3), &mut plan).unwrap();
    let (wood, gold) = stocks(&a);
    assert!(a.perform_action(Actions::Harvest, &mut plan).is_ok());
    assert_eq!(stocks(&a), (wood + 200, gold + 120));
    assert_eq!(held(&a), (0, 3));
}

#[test]
fn build_base_with_enough_resources() {
    let mut plan = GamePlan::new(1, 1);
    let mut a = Player::new("A");
    a.perform_action(Actions::Harvest, &mut plan).unwrap();
    a.perform_action(Actions::Harvest, &mut plan).unwrap();
    let r = a.perform_action(Actions::Build(Building::Base), &mut plan);
    assert_eq!(r, Ok(Outcome::Built { building: Building::Base, count: 1 }));
    assert_eq!(stocks(&a), (180, 140));
    assert_eq!(a.number_of_buildings(Building::Base), 1);
    assert_eq!(a.fighters_capacity(), 200);
}

#[test]
fn build_base_refused_when_short() {
    let mut plan = GamePlan::new(1, 1);
    let mut a = Player::new("A");
    a.perform_action(Actions::Harvest, &mut plan).unwrap();
    let r = a.perform_action(Actions::Build(Building::Base), &mut plan);
    assert_eq!(
        r,
        Err(ActionError::InsufficientResource {
            resource: ResourceType::Wood,
            available: 200,
            required: 220,
        })
    );
    assert_eq!(stocks(&a), (200, 120));
    assert_eq!(a.number_of_buildings(Building::Base), 0);
}

#[test]
fn build_base_names_both_resources_when_both_short() {
    let mut plan = GamePlan::new(1, 1);
    let mut a = Player::new("A");
    let r = a.perform_action(Actions::Build(Building::Base), &mut plan);
    assert_eq!(
        r,
        Err(ActionError::InsufficientResources {
            wood_available: 0,
            wood_required: 220,
            gold_available: 0,
            gold_required: 100,
        })
    );
    assert_eq!(stocks(&a), (0, 0));
    assert_eq!(a.number_of_buildings(Building::Base), 0);
}

#[test]
fn train_names_both_resources_when_both_short() {
    let mut plan = GamePlan::new(1, 1);
    let mut a = Player::new("A");
    a.perform_action(Actions::Harvest, &mut plan).unwrap();
    a.perform_action(Actions::Harvest, &mut plan).unwrap();
    a.perform_action(Actions::Build(Building::Base), &mut plan).unwrap();
    // 180 wood, 140 gold: 29 warriors need 290 wood and 145 gold
    let r = a.perform_action(Actions::Train(UnitType::Warrior, 29), &mut plan);
    assert_eq!(
        r,
        Err(ActionError::InsufficientResources {
            wood_available: 180,
            wood_required: 290,
            gold_available: 140,
            gold_required: 145,
        })
    );
    assert_eq!(stocks(&a), (180, 140));
    assert_eq!(held(&a), (0, 0));
}

#[test]
fn build_base_refused_when_gold_short() {
    let mut plan = GamePlan::new(1, 1);
    let mut a = Player::new("A");
    for _ in 0..4 {
        a.perform_action(Actions::Harvest, &mut plan).unwrap();
    }
    a.perform_action(Actions::Build(Building::Base), &mut plan).unwrap();
    a.perform_action(Actions::Build(Building::Base), &mut plan).unwrap();
    a.perform_action(Actions::Build(Building::Base), &mut plan).unwrap();
    assert_eq!(stocks(&a), (140, 180));
    a.perform_action(Actions::Harvest, &mut plan).unwrap();
    assert_eq!(stocks(&a), (340, 300));
    a.perform_action(Actions::Train(UnitType::Archer, 21), &mut plan).unwrap();
    assert_eq!(stocks(&a), (340, 90));
    let r = a.perform_action(Actions::Build(Building::Base), &mut plan);
    assert_eq!(
        r,
        Err(ActionError::InsufficientResource {
            resource: ResourceType::Gold,
            available: 90,
            required: 100,
        })
    );
    assert_eq!(stocks(&a), (340, 90));
    assert_eq!(a.number_of_buildings(Building::Base), 3);
}

#[test]
fn train_archers_within_capacity() {
    let mut plan = GamePlan::new(1, 1);
    let mut a = Player::new("A");
    a.perform_action(Actions::Harvest, &mut plan).unwrap();
    a.perform_action(Actions::Harvest, &mut plan).unwrap();
    a.perform_action(Actions::Build(Building::Base), &mut plan).unwrap();
    assert_eq!(a.current_fighters_capacity(), 200);
    let r = a.perform_action(Actions::Train(UnitType::Archer, 5), &mut plan);
    assert_eq!(r, Ok(Outcome::Trained { unit: UnitType::Archer, quantity: 5, held: 5 }));
    assert_eq!(stocks(&a), (180, 90));
    assert_eq!(held(&a), (5, 0));
    assert_eq!(a.current_fighters_capacity(), 195);
    assert!(a.has_fighters_available());
}

#[test]
fn train_warriors_costs_both_resources() {
    let mut plan = GamePlan::new(1, 1);
    let mut a = Player::new("A");
    a.perform_action(Actions::Harvest, &mut plan).unwrap();
    a.perform_action(Actions::Harvest, &mut plan).unwrap();
    a.perform_action(Actions::Build(Building::Base), &mut plan).unwrap();
    a.perform_action(Actions::Train(UnitType::Warrior, 4), &mut plan).unwrap();
    assert_eq!(stocks(&a), (140, 120));
    assert_eq!(held(&a), (0, 4));
}

#[test]
fn train_zero_is_invalid_quantity() {
    let mut plan = GamePlan::new(1, 1);
    let mut a = Player::new("A");
    a.perform_action(Actions::Harvest, &mut plan).unwrap();
    a.perform_action(Actions::Harvest, &mut plan).unwrap();
    a.perform_action(Actions::Build(Building::Base), &mut plan).unwrap();
    let r = a.perform_action(Actions::Train(UnitType::Warrior, 0), &mut plan);
    assert_eq!(r, Err(ActionError::InvalidQuantity { value: 0 }));
    assert_eq!(held(&a), (0, 0));
    assert_eq!(stocks(&a), (180, 140));
}

#[test]
fn train_negative_is_invalid_quantity() {
    let mut plan = GamePlan::new(1, 1);
    let mut a = Player::new("A");
    let r = a.perform_action(Actions::Train(UnitType::Archer, -3), &mut plan);
    assert_eq!(r, Err(ActionError::InvalidQuantity { value: -3 }));
    assert_eq!(held(&a), (0, 0));
}

#[test]
fn train_over_capacity_is_refused_without_payment() {
    let mut plan = GamePlan::new(1, 1);
    let mut a = Player::new("A");
    a.perform_action(Actions::Harvest, &mut plan).unwrap();
    a.perform_action(Actions::Harvest, &mut plan).unwrap();
    a.perform_action(Actions::Build(Building::Base), &mut plan).unwrap();
    a.perform_action(Actions::Train(UnitType::Archer, 5), &mut plan).unwrap();
    let r = a.perform_action(Actions::Train(UnitType::Archer, 196), &mut plan);
    assert_eq!(r, Err(ActionError::CapacityExceeded { requested: 196, available: 195 }));
    assert_eq!(stocks(&a), (180, 90));
    assert_eq!(held(&a), (5, 0));
}

#[test]
fn train_without_base_exceeds_capacity() {
    let mut plan = GamePlan::new(1, 1);
    let mut a = Player::new("A");
    a.perform_action(Actions::Harvest, &mut plan).unwrap();
    let r = a.perform_action(Actions::Train(UnitType::Warrior, 1), &mut plan);
    assert_eq!(r, Err(ActionError::CapacityExceeded { requested: 1, available: 0 }));
    assert_eq!(stocks(&a), (200, 120));
}

#[test]
fn train_unaffordable_is_refused() {
    let mut plan = GamePlan::new(1, 1);
    let mut a = Player::new("A");
    a.perform_action(Actions::Harvest, &mut plan).unwrap();
    a.perform_action(Actions::Harvest, &mut plan).unwrap();
    a.perform_action(Actions::Build(Building::Base), &mut plan).unwrap();
    let r = a.perform_action(Actions::Train(UnitType::Warrior, 19), &mut plan);
    assert_eq!(
        r,
        Err(ActionError::InsufficientResource {
            resource: ResourceType::Wood,
            available: 180,
            required: 190,
        })
    );
    assert_eq!(stocks(&a), (180, 140));
    assert_eq!(held(&a), (0, 0));
}

#[test]
fn max_trainable_and_sendable() {
    let mut plan = GamePlan::new(1, 1);
    let mut a = Player::new("A");
    assert_eq!(a.train_max_units(UnitType::Archer), 0);
    a.perform_action(Actions::Harvest, &mut plan).unwrap();
    a.perform_action(Actions::Harvest, &mut plan).unwrap();
    a.perform_action(Actions::Build(Building::Base), &mut plan).unwrap();
    // 180 wood, 140 gold, capacity 200
    assert_eq!(a.train_max_units(UnitType::Archer), 14);
    assert_eq!(a.train_max_units(UnitType::Warrior), 18);
    a.perform_action(Actions::Train(UnitType::Warrior, 7), &mut plan).unwrap();
    assert_eq!(a.send_max_units(UnitType::Warrior), 7);
    assert_eq!(a.send_max_units(UnitType::Archer), 0);
}

#[test]
fn max_trainable_is_capped_by_free_capacity() {
    let mut plan = GamePlan::new(1, 1);
    let mut a = Player::new("A");
    for _ in 0..20 {
        a.perform_action(Actions::Harvest, &mut plan).unwrap();
    }
    a.perform_action(Actions::Build(Building::Base), &mut plan).unwrap();
    a.perform_action(Actions::Train(UnitType::Archer, 195), &mut plan).unwrap();
    assert_eq!(stocks(&a), (3780, 350));
    assert_eq!(a.train_max_units(UnitType::Archer), 5);
    assert_eq!(a.train_max_units(UnitType::Warrior), 5);
    assert!(a.perform_action(Actions::Train(UnitType::Archer, 5), &mut plan).is_ok());
    assert_eq!(a.train_max_units(UnitType::Archer), 0);
    assert_eq!(a.train_max_units(UnitType::Warrior), 0);
}

#[test]
fn quit_changes_nothing() {
    let mut plan = GamePlan::new(1, 1);
    let mut a = Player::new("A");
    a.perform_action(Actions::Harvest, &mut plan).unwrap();
    assert_eq!(a.perform_action(Actions::Quit, &mut plan), Ok(Outcome::Quit));
    assert_eq!(stocks(&a), (200, 120));
}

#[test]
fn fits_limits_checks_harvest_headroom() {
    let a = Player::new("A");
    assert!(a.fits_limits(&Actions::Harvest));
    assert!(a.fits_limits(&Actions::Build(Building::Base)));
    assert!(a.fits_limits(&Actions::Quit));
}

#[test]
fn debit_more_than_balance_fails_unchanged() {
    let mut wood = Resource::new(ResourceType::Wood);
    wood.add(50).unwrap();
    let r = wood.subtract(51);
    assert_eq!(
        r,
        Err(ActionError::InsufficientResource {
            resource: ResourceType::Wood,
            available: 50,
            required: 51,
        })
    );
    assert_eq!(wood.quantity, 50);
    assert!(wood.subtract(50).is_ok());
    assert_eq!(wood.quantity, 0);
}

#[test]
fn debit_negative_is_invalid() {
    let mut gold = Resource::new(ResourceType::Gold);
    gold.add(10).unwrap();
    assert_eq!(gold.subtract(-1), Err(ActionError::InvalidQuantity { value: -1 }));
    assert_eq!(gold.quantity, 10);
}

#[test]
fn credit_zero_or_negative_is_refused() {
    let mut gold = Resource::new(ResourceType::Gold);
    assert_eq!(
        gold.add(0),
        Err(ActionError::ZeroOrNegativeAmount { resource: ResourceType::Gold, amount: 0 })
    );
    assert_eq!(
        gold.add(-5),
        Err(ActionError::ZeroOrNegativeAmount { resource: ResourceType::Gold, amount: -5 })
    );
    assert_eq!(gold.quantity, 0);
}

#[test]
fn can_pay_and_cannot_pay() {
    let mut wood = Resource::new(ResourceType::Wood);
    wood.add(30).unwrap();
    assert!(wood.can_pay(30));
    assert!(!wood.can_pay(31));
    assert_eq!(
        wood.cannot_pay(31),
        ActionError::InsufficientResource { resource: ResourceType::Wood, available: 30, required: 31 }
    );
}

#[test]
fn commit_more_than_held_fails_unchanged() {
    let mut archers = Unit::new(UnitType::Archer);
    archers.train(4);
    assert_eq!(
        archers.send_occupy(5),
        Err(ActionError::InsufficientUnits { unit: UnitType::Archer, available: 4, requested: 5 })
    );
    assert_eq!(archers.quantity, 4);
    assert_eq!(archers.send_occupy(0), Err(ActionError::InvalidQuantity { value: 0 }));
    let sent = archers.send_occupy(3).unwrap();
    assert_eq!(sent, Unit::unit_to_send(UnitType::Archer, 3));
    assert_eq!(archers.quantity, 1);
}

#[test]
fn fighting_power_in_tenths() {
    assert_eq!(Unit::unit_to_send(UnitType::Archer, 5).fighting_power(), 95);
    assert_eq!(Unit::unit_to_send(UnitType::Warrior, 10).fighting_power(), 120);
}

#[test]
fn duplicate_name_is_refused() {
    let players = vec![Player::new("A"), Player::new("B")];
    let r = create_player("B", &players);
    assert_eq!(r.err(), Some(ActionError::DuplicateActorName { name: String::from("B") }));
    let c = create_player("C", &players).unwrap();
    assert_eq!(c.nick(), "C");
    assert_eq!(stocks(&c), (0, 0));
}
