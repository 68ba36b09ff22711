use war_tycoon::actions::{Actions, Outcome};
use war_tycoon::board::{GameField, GamePlan, MatchOutcome, UnitInField};
use war_tycoon::buildings::Building;
use war_tycoon::errors::ActionError;
use war_tycoon::game::{evaluate_game, play_round, RoundStep};
use war_tycoon::player::Player;
use war_tycoon::troops::{Unit, UnitType};

fn deposit(owner: &str, kind: UnitType, quantity: i32) -> UnitInField {
    UnitInField::new(String::from(owner), Unit::unit_to_send(kind, quantity))
}

fn field_with(deposits: Vec<UnitInField>) -> GameField {
    let mut f = GameField::new(0, 0);
    for d in deposits {
        f.add_units(d);
    }
    f
}

/// A player with one base, enough to train the given units, and those units trained.
fn armed(name: &str, archers: i32, warriors: i32, plan: &mut GamePlan) -> Player {
    let mut p = Player::new(name);
    for _ in 0..4 {
        p.perform_action(Actions::Harvest, plan).unwrap();
    }
    p.perform_action(Actions::Build(Building::Base), plan).unwrap();
    if archers > 0 {
        p.perform_action(Actions::Train(UnitType::Archer, archers), plan).unwrap();
    }
    if warriors > 0 {
        p.perform_action(Actions::Train(UnitType::Warrior, warriors), plan).unwrap();
    }
    p
}

#[test]
fn stronger_warriors_win_the_field() {
    let mut plan = GamePlan::new(1, 1);
    let mut a = armed("A", 5, 0, &mut plan);
    let mut b = armed("B", 0, 10, &mut plan);
    let r = a.perform_action(Actions::Conquer(0, 0, UnitType::Archer, 5), &mut plan);
    assert_eq!(r, Ok(Outcome::Occupied { x: 0, y: 0, unit: UnitType::Archer, quantity: 5 }));
    b.perform_action(Actions::Conquer(0, 0, UnitType::Warrior, 10), &mut plan).unwrap();
    assert_eq!(a.send_max_units(UnitType::Archer), 0);
    assert!(!a.has_fighters_available());
    let field = plan.get_game_field(0, 0).unwrap();
    assert_eq!(field.evaluate_field(), Some(String::from("B")));
    let chart = field.power_chart();
    assert_eq!(chart, vec![(String::from("A"), 95), (String::from("B"), 120)]);
}

#[test]
fn equal_warrior_forces_tie() {
    let mut plan = GamePlan::new(1, 1);
    let mut a = armed("A", 0, 10, &mut plan);
    let mut b = armed("B", 0, 10, &mut plan);
    a.perform_action(Actions::Conquer(0, 0, UnitType::Warrior, 10), &mut plan).unwrap();
    b.perform_action(Actions::Conquer(0, 0, UnitType::Warrior, 10), &mut plan).unwrap();
    assert_eq!(plan.get_game_field(0, 0).unwrap().evaluate_field(), None);
}

#[test]
fn equal_archer_deposits_tie() {
    let f = field_with(vec![deposit("X", UnitType::Archer, 7), deposit("Y", UnitType::Archer, 7)]);
    assert_eq!(f.evaluate_field(), None);
}

#[test]
fn powers_one_tenth_apart_tie() {
    // 5 archers: 9.5; 8 warriors: 9.6
    let f = field_with(vec![deposit("A", UnitType::Archer, 5), deposit("B", UnitType::Warrior, 8)]);
    assert_eq!(f.evaluate_field(), None);
}

#[test]
fn powers_two_tenths_apart_have_a_winner() {
    // 10 archers: 19.0; 16 warriors: 19.2
    let f = field_with(vec![deposit("A", UnitType::Archer, 10), deposit("B", UnitType::Warrior, 16)]);
    assert_eq!(f.evaluate_field(), Some(String::from("B")));
}

#[test]
fn empty_field_has_no_winner() {
    let f = GameField::new(0, 0);
    assert_eq!(f.evaluate_field(), None);
    assert!(f.power_chart().is_empty());
}

#[test]
fn lone_owner_wins_field() {
    let f = field_with(vec![deposit("A", UnitType::Warrior, 1)]);
    assert_eq!(f.evaluate_field(), Some(String::from("A")));
}

#[test]
fn deposits_of_one_owner_are_summed() {
    // A: 3 archers + 4 warriors = 5.7 + 4.8 = 10.5; B: 8 archers = 15.2
    let f = field_with(vec![
        deposit("A", UnitType::Archer, 3),
        deposit("B", UnitType::Archer, 8),
        deposit("A", UnitType::Warrior, 4),
    ]);
    assert_eq!(
        f.power_chart(),
        vec![(String::from("A"), 105), (String::from("B"), 152)]
    );
    assert_eq!(f.evaluate_field(), Some(String::from("B")));
    let more = field_with(vec![
        deposit("A", UnitType::Archer, 3),
        deposit("B", UnitType::Archer, 8),
        deposit("A", UnitType::Warrior, 4),
        deposit("A", UnitType::Warrior, 4),
    ]);
    // A: 10.5 + 4.8 = 15.3 against 15.2: tied within the tolerance
    assert_eq!(more.evaluate_field(), None);
}

#[test]
fn winner_does_not_depend_on_deposit_order() {
    let forward = field_with(vec![
        deposit("A", UnitType::Archer, 3),
        deposit("B", UnitType::Warrior, 6),
        deposit("C", UnitType::Archer, 2),
        deposit("A", UnitType::Warrior, 2),
    ]);
    let backward = field_with(vec![
        deposit("A", UnitType::Warrior, 2),
        deposit("C", UnitType::Archer, 2),
        deposit("B", UnitType::Warrior, 6),
        deposit("A", UnitType::Archer, 3),
    ]);
    // A: 5.7 + 2.4 = 8.1; B: 7.2; C: 3.8
    assert_eq!(forward.evaluate_field(), Some(String::from("A")));
    assert_eq!(backward.evaluate_field(), forward.evaluate_field());
}

#[test]
fn players_units_keeps_only_that_owner() {
    let f = field_with(vec![
        deposit("A", UnitType::Archer, 3),
        deposit("B", UnitType::Archer, 8),
        deposit("A", UnitType::Warrior, 4),
    ]);
    let mine = f.players_units(String::from("A"));
    assert_eq!(mine.x(), 0);
    assert_eq!(mine.y(), 0);
    assert_eq!(mine.units().len(), 2);
    assert_eq!(mine.get_units_by_type(UnitType::Archer), 3);
    assert_eq!(mine.get_units_by_type(UnitType::Warrior), 4);
    assert_eq!(f.get_units_by_type(UnitType::Archer), 11);
}

#[test]
fn conquer_outside_the_battlefield_is_refused() {
    let mut plan = GamePlan::new(1, 1);
    let mut a = armed("A", 5, 0, &mut plan);
    let r = a.perform_action(Actions::Conquer(1, 0, UnitType::Archer, 5), &mut plan);
    assert_eq!(r, Err(ActionError::FieldNotFound { x: 1, y: 0 }));
    let r = a.perform_action(Actions::Conquer(0, 1, UnitType::Archer, 5), &mut plan);
    assert_eq!(r, Err(ActionError::FieldNotFound { x: 0, y: 1 }));
    assert_eq!(a.send_max_units(UnitType::Archer), 5);
    assert!(plan.get_game_field(0, 0).unwrap().units().is_empty());
}

#[test]
fn conquer_with_too_many_units_leaves_field_unchanged() {
    let mut plan = GamePlan::new(1, 1);
    let mut a = armed("A", 5, 0, &mut plan);
    let r = a.perform_action(Actions::Conquer(0, 0, UnitType::Archer, 6), &mut plan);
    assert_eq!(
        r,
        Err(ActionError::InsufficientUnits { unit: UnitType::Archer, available: 5, requested: 6 })
    );
    assert_eq!(a.send_max_units(UnitType::Archer), 5);
    assert!(plan.get_game_field(0, 0).unwrap().units().is_empty());
}

#[test]
fn conquer_with_zero_units_is_invalid() {
    let mut plan = GamePlan::new(1, 1);
    let mut a = armed("A", 5, 0, &mut plan);
    let r = a.perform_action(Actions::Conquer(0, 0, UnitType::Archer, 0), &mut plan);
    assert_eq!(r, Err(ActionError::InvalidQuantity { value: 0 }));
    assert!(plan.get_game_field(0, 0).unwrap().units().is_empty());
}

#[test]
fn plan_fields_are_laid_out_row_major() {
    let mut plan = GamePlan::new(2, 3);
    assert_eq!(plan.width(), 2);
    assert_eq!(plan.height(), 3);
    assert_eq!(plan.fields().len(), 6);
    for x in 0..2 {
        for y in 0..3 {
            let f = plan.get_game_field(x, y).unwrap();
            assert_eq!((f.x(), f.y()), (x, y));
        }
    }
    assert!(plan.get_game_field(2, 0).is_none());
    assert!(plan.get_game_field(0, 3).is_none());
}

#[test]
fn match_without_conquered_fields_has_no_winner() {
    let plan = GamePlan::new(2, 1);
    assert_eq!(evaluate_game(&plan), MatchOutcome::NoWinner);
    let mut tied = GamePlan::new(1, 1);
    tied.get_game_field(0, 0).unwrap().add_units(deposit("A", UnitType::Warrior, 10));
    tied.get_game_field(0, 0).unwrap().add_units(deposit("B", UnitType::Warrior, 10));
    assert_eq!(evaluate_game(&tied), MatchOutcome::NoWinner);
}

#[test]
fn match_with_unique_leader_has_a_winner() {
    let mut plan = GamePlan::new(3, 1);
    plan.get_game_field(0, 0).unwrap().add_units(deposit("A", UnitType::Warrior, 10));
    plan.get_game_field(1, 0).unwrap().add_units(deposit("B", UnitType::Warrior, 10));
    plan.get_game_field(2, 0).unwrap().add_units(deposit("A", UnitType::Archer, 1));
    assert_eq!(
        evaluate_game(&plan),
        MatchOutcome::Winner { owner: String::from("A"), fields: 2 }
    );
}

#[test]
fn match_with_tied_leaders_is_a_draw() {
    let mut plan = GamePlan::new(3, 1);
    plan.get_game_field(0, 0).unwrap().add_units(deposit("A", UnitType::Warrior, 10));
    plan.get_game_field(1, 0).unwrap().add_units(deposit("B", UnitType::Warrior, 10));
    plan.get_game_field(2, 0).unwrap().add_units(deposit("C", UnitType::Archer, 1));
    plan.get_game_field(2, 0).unwrap().add_units(deposit("D", UnitType::Archer, 1));
    match evaluate_game(&plan) {
        MatchOutcome::Draw { owners, fields } => {
            assert_eq!(fields, 1);
            let mut names = owners.clone();
            names.sort();
            assert_eq!(names, vec![String::from("A"), String::from("B")]);
        }
        other => panic!("expected a draw, got {:?}", other),
    }
}

#[test]
fn play_round_reports_each_step() {
    let mut plan = GamePlan::new(1, 1);
    let mut a = Player::new("A");
    assert_eq!(play_round(&mut a, &mut plan, Actions::Quit), RoundStep::QuitGame);
    assert_eq!(
        play_round(&mut a, &mut plan, Actions::Build(Building::Base)),
        RoundStep::Rejected(ActionError::InsufficientResources {
            wood_available: 0,
            wood_required: 220,
            gold_available: 0,
            gold_required: 100,
        })
    );
    assert_eq!(
        play_round(&mut a, &mut plan, Actions::Harvest),
        RoundStep::Finished(Outcome::Harvested {
            wood_gained: 200,
            gold_gained: 120,
            wood: 200,
            gold: 120,
        })
    );
}
