//! Capability traits for entities on the hex grid.

use vstd::prelude::*;

verus! {

use crate::coords::AXIAL_LIMIT;
use crate::coords::hex_dist;

/// Entities that can move on the hex grid, limited to a per-entity movement
/// range counted in hex steps.
pub trait Moveable: Sized {
    /// The entity's coordinates and range are within the grid limits.
    spec fn moveable_wf(&self) -> bool;

    /// Cell the entity currently occupies.
    spec fn position_spec(&self) -> (int, int);

    /// Furthest hex distance the entity may cover in one move.
    spec fn movement_range_spec(&self) -> int;

    /// Whether the entity may move to cell `(q, r)`.
    fn can_move_to(&self, q: i32, r: i32) -> (ok: bool)
        requires
            self.moveable_wf(),
            -AXIAL_LIMIT <= q as int <= AXIAL_LIMIT,
            -AXIAL_LIMIT <= r as int <= AXIAL_LIMIT,
        ensures
            ok == (hex_dist(
                self.position_spec().0,
                self.position_spec().1,
                q as int,
                r as int,
            ) <= self.movement_range_spec()),
    ;

    /// Move the entity to cell `(q, r)` if it is in range. Returns whether
    /// the move happened; a move out of range changes nothing.
    fn move_to(&mut self, q: i32, r: i32) -> (ok: bool)
        requires
            old(self).moveable_wf(),
            -AXIAL_LIMIT <= q as int <= AXIAL_LIMIT,
            -AXIAL_LIMIT <= r as int <= AXIAL_LIMIT,
        ensures
            ok == (hex_dist(
                old(self).position_spec().0,
                old(self).position_spec().1,
                q as int,
                r as int,
            ) <= old(self).movement_range_spec()),
            ok ==> final(self).position_spec() == (q as int, r as int),
            !ok ==> *final(self) == *old(self),
            final(self).moveable_wf(),
            final(self).movement_range_spec() == old(self).movement_range_spec(),
    ;
}

/// Entities that can be interacted with.
pub trait Interactable {
    /// The type of interaction result.
    type Result;

    /// Perform the interaction and return the result.
    fn interact(&mut self) -> Self::Result;
}

} // verus!
