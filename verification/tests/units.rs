use hexcore::coords::axial_to_world;
use hexcore::traits::Moveable;
use hexcore::units::{
    apply_unit_command, movement_step, Unit, UnitCommand, UnitCommandType, UnitState, UnitType,
    DEFAULT_ATTACK_DAMAGE, DEFAULT_MOVEMENT_RANGE, DEFAULT_UNIT_HEALTH,
};

#[test]
fn new_unit_has_default_stats() {
    let u = Unit::new("Warrior".to_string(), 42, 1, -1);
    assert_eq!(u.position(), (1, -1));
    assert_eq!(u.health(), DEFAULT_UNIT_HEALTH);
    assert_eq!(u.movement_range, DEFAULT_MOVEMENT_RANGE);
    assert_eq!(u.attack_damage, DEFAULT_ATTACK_DAMAGE);
    assert_eq!(u.entity.sprite, 42);
}

#[test]
fn unit_type_names() {
    assert_eq!(UnitType::Warrior.name(), "Warrior");
    assert_eq!(UnitType::Archer.name(), "Archer");
    assert_eq!(UnitType::Mage.name(), "Mage");
    assert_eq!(UnitType::ElvenArcher.name(), "Elven Archer");
}

#[test]
fn damage_is_floored_at_zero() {
    let mut u = Unit::new("Warrior".to_string(), 0, 0, 0);
    assert!(!u.take_damage(30));
    assert_eq!(u.health(), 70);
    assert!(u.take_damage(100));
    assert_eq!(u.health(), 0);
    assert!(u.take_damage(1));
    assert_eq!(u.health(), 0);
}

#[test]
fn moves_are_limited_to_movement_range() {
    let mut u = Unit::new("Archer".to_string(), 0, 0, 0);
    assert!(u.can_move_to(2, 0));
    assert!(!u.can_move_to(3, 0));
    assert!(u.move_to(1, 1));
    assert_eq!(u.position(), (1, 1));
    assert!(!u.move_to(4, 4));
    assert_eq!(u.position(), (1, 1));
}

#[test]
fn out_of_range_command_is_dropped_silently() {
    let u = Unit::new("Mage".to_string(), 0, 0, 0);
    let mut state = UnitState::default();
    let command = UnitCommand { unit: 9, command_type: UnitCommandType::MoveTo(5, 5) };
    apply_unit_command(&u, &mut state, &command);
    assert_eq!(state, UnitState::default());
}

#[test]
fn command_and_step_move_the_unit() {
    let mut u = Unit::new("Mage".to_string(), 0, 0, 0);
    let mut state = UnitState::default();
    let command = UnitCommand { unit: 9, command_type: UnitCommandType::MoveTo(1, -1) };
    apply_unit_command(&u, &mut state, &command);
    assert!(state.is_moving);
    assert_eq!(state.target_position, Some((1, -1)));
    let moved = movement_step(&mut u, &mut state);
    assert_eq!(moved, Some(axial_to_world(1, -1)));
    assert_eq!(u.position(), (1, -1));
    assert_eq!(state, UnitState::default());
    // A further tick without a target does nothing.
    assert_eq!(movement_step(&mut u, &mut state), None);
    assert_eq!(u.position(), (1, -1));
}
