//! Units: their stats, damage arithmetic, movement validation, and the
//! command step that schedules and performs moves on the hex grid.

use vstd::prelude::*;

verus! {

use crate::coords::AXIAL_LIMIT;
use crate::coords::WorldPosition;
use crate::coords::axial_to_world;
use crate::coords::hex_dist;
use crate::coords::hex_distance;
use crate::coords::world_x_of;
use crate::coords::world_y_of;
use crate::traits::Moveable;

/// Health every unit starts with.
pub const DEFAULT_UNIT_HEALTH: i64 = 100;

/// Movement range, in hex steps, every unit starts with.
pub const DEFAULT_MOVEMENT_RANGE: i32 = 2;

/// Attack damage every unit starts with.
pub const DEFAULT_ATTACK_DAMAGE: i64 = 10;

/// Largest health and damage magnitude accepted; keeps damage arithmetic
/// within `i64`.
pub const STAT_LIMIT: i64 = 1_000_000_000_000;

/// What kind of thing a game entity is.
#[derive(Clone, Copy, Debug, PartialEq, Eq, Structural)]
pub enum EntityType {
    Unit,
    Building,
    Item,
}

/// Shared identity of a thing on the grid: name, description, kind, cell,
/// and the presentation layer's sprite handle.
#[derive(Debug)]
pub struct GameEntity {
    pub name: String,
    pub description: String,
    pub entity_type: EntityType,
    /// The axial cell the entity occupies.
    pub position: (i32, i32),
    /// Identifier of the sprite the presentation layer shows for it.
    pub sprite: u64,
}

/// The kinds of units the game knows.
#[derive(Clone, Copy, Debug, PartialEq, Eq, Structural)]
pub enum UnitType {
    Warrior,
    Archer,
    Mage,
    ElvenArcher,
}

impl UnitType {
    /// Display name of the unit kind.
    pub fn name(&self) -> (r: &'static str)
        ensures
            *self is Warrior ==> r@ == "Warrior"@,
            *self is Archer ==> r@ == "Archer"@,
            *self is Mage ==> r@ == "Mage"@,
            *self is ElvenArcher ==> r@ == "Elven Archer"@,
    {
        match self {
            UnitType::Warrior => "Warrior",
            UnitType::Archer => "Archer",
            UnitType::Mage => "Mage",
            UnitType::ElvenArcher => "Elven Archer",
        }
    }
}

/// A unit on the grid: identity, health, movement range and attack damage.
#[derive(Debug)]
pub struct Unit {
    pub entity: GameEntity,
    pub health: i64,
    /// Furthest hex distance the unit may cover in one move.
    pub movement_range: i32,
    pub attack_damage: i64,
}

impl Unit {
    /// Stats and position are within the grid and arithmetic limits.
    pub open spec fn wf(self) -> bool {
        &&& 0 <= self.health <= STAT_LIMIT
        &&& 0 <= self.movement_range
        &&& 0 <= self.attack_damage <= STAT_LIMIT
        &&& -AXIAL_LIMIT <= self.entity.position.0 as int <= AXIAL_LIMIT
        &&& -AXIAL_LIMIT <= self.entity.position.1 as int <= AXIAL_LIMIT
    }

    /// A fresh unit at cell `(q, r)` with the default stats.
    pub fn new(name: String, sprite: u64, q: i32, r: i32) -> (u: Unit)
        requires
            -AXIAL_LIMIT <= q as int <= AXIAL_LIMIT,
            -AXIAL_LIMIT <= r as int <= AXIAL_LIMIT,
        ensures
            u.entity.name@ == name@,
            u.entity.entity_type == EntityType::Unit,
            u.entity.position == (q, r),
            u.entity.sprite == sprite,
            u.health == DEFAULT_UNIT_HEALTH,
            u.movement_range == DEFAULT_MOVEMENT_RANGE,
            u.attack_damage == DEFAULT_ATTACK_DAMAGE,
            u.wf(),
    {
        Unit {
            entity: GameEntity {
                name,
                description: String::new(),
                entity_type: EntityType::Unit,
                position: (q, r),
                sprite,
            },
            health: DEFAULT_UNIT_HEALTH,
            movement_range: DEFAULT_MOVEMENT_RANGE,
            attack_damage: DEFAULT_ATTACK_DAMAGE,
        }
    }

    /// The cell the unit occupies.
    pub fn position(&self) -> (p: (i32, i32))
        ensures
            p == self.entity.position,
    {
        self.entity.position
    }

    /// The unit's current health.
    pub fn health(&self) -> (h: i64)
        ensures
            h == self.health,
    {
        self.health
    }

    /// Subtract `amount` from the unit's health, floored at zero. Returns
    /// whether the unit is defeated (health reached zero).
    pub fn take_damage(&mut self, amount: i64) -> (defeated: bool)
        requires
            old(self).wf(),
            0 <= amount <= STAT_LIMIT,
        ensures
            final(self).health == if old(self).health >= amount {
                old(self).health - amount
            } else {
                0
            },
            defeated == (final(self).health == 0),
            *final(self) == (Unit { health: final(self).health, ..*old(self) }),
            final(self).wf(),
    {
        self.health = if self.health >= amount {
            self.health - amount
        } else {
            0
        };
        self.health == 0
    }
}

impl Moveable for Unit {
    open spec fn moveable_wf(&self) -> bool {
        self.wf()
    }

    open spec fn position_spec(&self) -> (int, int) {
        (self.entity.position.0 as int, self.entity.position.1 as int)
    }

    open spec fn movement_range_spec(&self) -> int {
        self.movement_range as int
    }

    fn can_move_to(&self, q: i32, r: i32) -> (ok: bool) {
        let (current_q, current_r) = self.entity.position;
        let distance = hex_distance(current_q, current_r, q, r);
        distance <= self.movement_range
    }

    fn move_to(&mut self, q: i32, r: i32) -> (ok: bool) {
        let (current_q, current_r) = self.entity.position;
        let distance = hex_distance(current_q, current_r, q, r);
        if distance <= self.movement_range {
            self.entity.position = (q, r);
            true
        } else {
            false
        }
    }
}

/// Whether a unit is between cells and where it is headed.
#[derive(Clone, Copy, Debug, PartialEq, Eq)]
pub struct UnitState {
    pub is_moving: bool,
    /// The cell the unit has been ordered to, if any.
    pub target_position: Option<(i32, i32)>,
}

impl UnitState {
    /// The scheduled target, if any, is within the grid limits.
    pub open spec fn wf(self) -> bool {
        self.target_position matches Some(t) ==> {
            &&& -AXIAL_LIMIT <= t.0 as int <= AXIAL_LIMIT
            &&& -AXIAL_LIMIT <= t.1 as int <= AXIAL_LIMIT
        }
    }
}

impl Default for UnitState {
    /// At rest, with no scheduled target.
    fn default() -> (s: UnitState)
        ensures
            s == (UnitState { is_moving: false, target_position: None }),
    {
        UnitState { is_moving: false, target_position: None }
    }
}

/// An order issued to a unit.
#[derive(Clone, Copy, Debug, PartialEq, Eq, Structural)]
pub enum UnitCommandType {
    /// Move to the given axial cell.
    MoveTo(i32, i32),
}

/// An order together with the entity it is addressed to.
#[derive(Clone, Copy, Debug, PartialEq, Eq, Structural)]
pub struct UnitCommand {
    /// The entity the order is addressed to.
    pub unit: u64,
    pub command_type: UnitCommandType,
}

/// Whether `unit` may move to `(q, r)`: the hex distance from its cell is
/// within its movement range.
pub open spec fn can_reach(unit: Unit, q: int, r: int) -> bool {
    hex_dist(
        unit.entity.position.0 as int,
        unit.entity.position.1 as int,
        q,
        r,
    ) <= unit.movement_range
}

/// Apply an order to a unit's movement state: a move within the unit's range
/// is scheduled; a move out of range is dropped silently and changes
/// nothing.
pub fn apply_unit_command(unit: &Unit, state: &mut UnitState, command: &UnitCommand)
    requires
        unit.wf(),
        old(state).wf(),
    ensures
        *final(state) == match command.command_type {
            UnitCommandType::MoveTo(q, r) => {
                if -AXIAL_LIMIT <= q as int <= AXIAL_LIMIT && -AXIAL_LIMIT <= r as int
                    <= AXIAL_LIMIT && can_reach(*unit, q as int, r as int) {
                    UnitState { is_moving: true, target_position: Some((q, r)) }
                } else {
                    *old(state)
                }
            },
        },
        final(state).wf(),
{
    match command.command_type {
        UnitCommandType::MoveTo(q, r) => {
            if -(AXIAL_LIMIT as i32) <= q && q <= AXIAL_LIMIT as i32 && -(AXIAL_LIMIT as i32) <= r
                && r <= AXIAL_LIMIT as i32 {
                if unit.can_move_to(q, r) {
                    state.target_position = Some((q, r));
                    state.is_moving = true;
                }
            }
        },
    }
}

/// One movement tick: a unit with a reachable scheduled target moves there
/// and reports its new world position; an unreachable target is dropped.
/// Either way the schedule is cleared.
pub fn movement_step(unit: &mut Unit, state: &mut UnitState) -> (moved_to: Option<WorldPosition>)
    requires
        old(unit).wf(),
        old(state).wf(),
    ensures
        match old(state).target_position {
            None => {
                &&& *final(unit) == *old(unit)
                &&& *final(state) == *old(state)
                &&& moved_to is None
            },
            Some(t) => {
                &&& *final(state) == (UnitState { is_moving: false, target_position: None })
                &&& if can_reach(*old(unit), t.0 as int, t.1 as int) {
                    &&& *final(unit) == (Unit {
                        entity: final(unit).entity,
                        ..*old(unit)
                    })
                    &&& final(unit).entity == (GameEntity {
                        position: t,
                        ..old(unit).entity
                    })
                    &&& moved_to == Some(
                        WorldPosition {
                            x: world_x_of(t.0 as int, t.1 as int) as i64,
                            y: world_y_of(t.1 as int) as i64,
                            z: 0,
                        },
                    )
                } else {
                    &&& *final(unit) == *old(unit)
                    &&& moved_to is None
                }
            },
        },
        final(unit).wf(),
        final(state).wf(),
{
    match state.target_position {
        Some((q, r)) => {
            state.target_position = None;
            state.is_moving = false;
            if unit.can_move_to(q, r) {
                self_move(unit, q, r);
                Some(axial_to_world(q, r))
            } else {
                None
            }
        },
        None => None,
    }
}

/// Put `unit` on cell `(q, r)`, leaving its other fields unchanged.
fn self_move(unit: &mut Unit, q: i32, r: i32)
    requires
        old(unit).wf(),
        -AXIAL_LIMIT <= q as int <= AXIAL_LIMIT,
        -AXIAL_LIMIT <= r as int <= AXIAL_LIMIT,
    ensures
        *final(unit) == (Unit { entity: final(unit).entity, ..*old(unit) }),
        final(unit).entity == (GameEntity { position: (q, r), ..old(unit).entity }),
        final(unit).wf(),
{
    unit.entity.position = (q, r);
}

} // verus!
