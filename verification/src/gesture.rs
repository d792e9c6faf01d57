//! Pointer gesture classification: one press/drag/release cycle per button.
//!
//! A press records its start position; while the button is held, each sample
//! checks the pointer's distance from that start against the drag threshold.
//! Once the threshold is exceeded the press is a drag for good (`was_drag`
//! stays set even if the pointer returns), and it remains readable after the
//! release until a consumer explicitly resets it, so a drag's terminating
//! release is never misread as a click.

use vstd::prelude::*;

verus! {

use crate::geometry::Point2;
use crate::geometry::dist_sq;
use crate::geometry::dist_sq_spec;
use crate::geometry::in_range;

/// Default drag threshold, in thousandths of a pixel.
pub const DEFAULT_DRAG_THRESHOLD: i64 = 5000;

/// Largest drag threshold accepted, in thousandths of a pixel.
pub const MAX_DRAG_THRESHOLD: i64 = 1_000_000;

/// A logical pointer button.
#[derive(Clone, Copy, Debug, PartialEq, Eq, Structural)]
pub enum MouseButton {
    Left,
    Right,
    Middle,
}

/// Gesture state of the pointer across one press/release cycle.
#[derive(Clone, Copy, Debug, PartialEq, Eq, Structural)]
pub struct MouseState {
    /// A button is currently held down.
    pub pressed: bool,
    /// Position recorded at the press (updated only by `update_position`).
    pub last_position: Point2,
    /// The current press has moved past the drag threshold.
    pub is_dragging: bool,
    /// The current or just-finished press was a drag at some point.
    pub was_drag: bool,
    /// The button of the current press, if any.
    pub drag_button: Option<MouseButton>,
    /// Distance from the press position beyond which a press becomes a drag,
    /// in thousandths of a pixel.
    pub drag_threshold: i64,
}

impl MouseState {
    /// The state is within the coordinate and threshold limits.
    pub open spec fn wf(self) -> bool {
        &&& in_range(self.last_position)
        &&& 0 <= self.drag_threshold <= MAX_DRAG_THRESHOLD
    }

    /// The sample at `current` moves the press past the drag threshold.
    pub open spec fn drag_triggered(self, current: Point2) -> bool {
        self.pressed && dist_sq_spec(current, self.last_position) > self.drag_threshold
            * self.drag_threshold
    }

    /// State after a press at `position` with `button`.
    pub open spec fn press_state(self, position: Point2, button: MouseButton) -> MouseState {
        MouseState {
            pressed: true,
            last_position: position,
            is_dragging: false,
            was_drag: false,
            drag_button: Some(button),
            drag_threshold: self.drag_threshold,
        }
    }

    /// State after sampling the pointer at `current` while checking for a
    /// drag.
    pub open spec fn sampled_state(self, current: Point2) -> MouseState {
        if self.drag_triggered(current) {
            MouseState { is_dragging: true, was_drag: true, ..self }
        } else {
            self
        }
    }

    /// State after the button is released. `was_drag` survives the release.
    pub open spec fn released_state(self) -> MouseState {
        MouseState { pressed: false, is_dragging: false, drag_button: None, ..self }
    }

    /// A fresh, idle gesture state with the default drag threshold.
    pub fn new() -> (s: MouseState)
        ensures
            s == (MouseState {
                pressed: false,
                last_position: Point2 { x: 0, y: 0 },
                is_dragging: false,
                was_drag: false,
                drag_button: None,
                drag_threshold: DEFAULT_DRAG_THRESHOLD,
            }),
            s.wf(),
    {
        MouseState {
            pressed: false,
            last_position: Point2 { x: 0, y: 0 },
            is_dragging: false,
            was_drag: false,
            drag_button: None,
            drag_threshold: DEFAULT_DRAG_THRESHOLD,
        }
    }

    /// Begin a press cycle at `position` with `button`; clears any previous
    /// drag flags.
    pub fn start_press(&mut self, position: Point2, button: MouseButton)
        requires
            old(self).wf(),
            in_range(position),
        ensures
            *final(self) == old(self).press_state(position, button),
            final(self).wf(),
    {
        self.pressed = true;
        self.last_position = position;
        self.is_dragging = false;
        self.was_drag = false;
        self.drag_button = Some(button);
    }

    /// End the press cycle. `was_drag` is kept until `reset_drag_state`.
    pub fn end_press(&mut self)
        requires
            old(self).wf(),
        ensures
            *final(self) == old(self).released_state(),
            final(self).wf(),
    {
        self.pressed = false;
        self.is_dragging = false;
        self.drag_button = None;
    }

    /// Clear the sticky `was_drag` flag, once its release has been consumed.
    pub fn reset_drag_state(&mut self)
        requires
            old(self).wf(),
        ensures
            *final(self) == (MouseState { was_drag: false, ..*old(self) }),
            final(self).wf(),
    {
        self.was_drag = false;
    }

    /// Sample the pointer at `current_position`: if a held press has moved
    /// past the drag threshold, mark the press as a drag, for good. Returns
    /// whether the press is a drag.
    pub fn check_drag(&mut self, current_position: Point2) -> (dragging: bool)
        requires
            old(self).wf(),
            in_range(current_position),
        ensures
            *final(self) == old(self).sampled_state(current_position),
            dragging == final(self).is_dragging,
            final(self).wf(),
    {
        if self.pressed {
            let d = dist_sq(current_position, self.last_position);
            proof {
                assert(self.drag_threshold * self.drag_threshold
                    <= 1_000_000_000_000) by (nonlinear_arith)
                    requires
                        0 <= self.drag_threshold <= MAX_DRAG_THRESHOLD,
                ;
            }
            if d > self.drag_threshold * self.drag_threshold {
                self.is_dragging = true;
                self.was_drag = true;
                return true;
            }
        }
        self.is_dragging
    }

    /// Record the pointer position without re-checking the drag threshold.
    pub fn update_position(&mut self, position: Point2)
        requires
            old(self).wf(),
            in_range(position),
        ensures
            *final(self) == (MouseState { last_position: position, ..*old(self) }),
            final(self).wf(),
    {
        self.last_position = position;
    }
}

impl Default for MouseState {
    /// A fresh, idle gesture state, as `new` returns.
    fn default() -> (s: MouseState)
        ensures
            s == (MouseState {
                pressed: false,
                last_position: Point2 { x: 0, y: 0 },
                is_dragging: false,
                was_drag: false,
                drag_button: None,
                drag_threshold: DEFAULT_DRAG_THRESHOLD,
            }),
            s.wf(),
    {
        MouseState::new()
    }
}

/// Once a press has moved past the drag threshold, it reads as a drag at
/// release time even if the pointer has returned under the threshold: in a
/// press-sample-sample-release cycle whose first sample is far from the
/// press position, `was_drag` still holds after the release.
pub proof fn lemma_drag_is_sticky(
    s: MouseState,
    start: Point2,
    far: Point2,
    near: Point2,
    button: MouseButton,
)
    requires
        dist_sq_spec(far, start) > s.drag_threshold * s.drag_threshold,
    ensures
        s.press_state(start, button).sampled_state(far).sampled_state(
            near,
        ).released_state().was_drag,
{
}

} // verus!
