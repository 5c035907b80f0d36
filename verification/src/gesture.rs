//! The slingshot gesture: press, drag, release.
//!
//! Releasing a drag launches the player against the drag: the velocity
//! changes by the drag vector, negated and scaled.

use vstd::prelude::*;
use crate::fixed::{div_toward_zero, div_toward_zero_i128, saturate, saturate_i128, sqrt_floor};
use crate::geometry::{difference, length_squared, Vec2};
use crate::kinematics::Player;

verus! {

/// The speed gained per unit of drag.
pub const PLAYER_SPEED: i64 = 8;

/// One reading of the pointer: where it is, if it is over the window, and
/// whether its button is down.
#[derive(Clone, Copy, Debug)]
pub struct PointerSample {
    pub position: Option<Vec2>,
    pub pressed: bool,
}

/// The line drawn while a drag is under way. It is feedback for the eye and
/// takes no part in the physics.
#[derive(Clone, Copy, Debug, PartialEq, Eq, Structural)]
pub struct GestureLine {
    /// The middle of the line: the anchor moved by half the drag.
    pub center: Vec2,
    /// The drag so far, from where it started to the pointer.
    pub drag: Vec2,
    /// The length of the drag, rounded down.
    pub length: u64,
}

/// The gesture's state: whether a drag is under way, where it started, and
/// the line that shows it.
#[derive(Clone, Copy, Debug)]
pub struct DragGesture {
    pub dragging: bool,
    pub start: Vec2,
    pub line: Option<GestureLine>,
}

/// The line for a drag from `start` to `pointer`, anchored at `anchor`.
pub open spec fn line_between(start: Vec2, pointer: Vec2, anchor: Vec2) -> GestureLine {
    let drag = difference(pointer, start);
    GestureLine {
        center: Vec2 {
            x: saturate(anchor.x + div_toward_zero(drag.x as int, 2)),
            y: saturate(anchor.y + div_toward_zero(drag.y as int, 2)),
        },
        drag,
        length: sqrt_floor(length_squared(drag)) as u64,
    }
}

/// The drag that a sample completes: the vector from the start of the drag
/// to the pointer, when a drag is under way, the button is up and the
/// pointer's position is known.
pub open spec fn released_drag(gesture: DragGesture, sample: PointerSample) -> Option<Vec2> {
    if gesture.dragging && !sample.pressed && sample.position is Some {
        Some(difference(sample.position->Some_0, gesture.start))
    } else {
        None
    }
}

/// The gesture after a sample. Without a pointer position nothing changes.
/// A press starts a drag, a held button follows the pointer, a release ends
/// the drag and removes the line.
pub open spec fn gesture_after(gesture: DragGesture, sample: PointerSample, anchor: Vec2)
    -> DragGesture {
    match sample.position {
        None => gesture,
        Some(pointer) => if sample.pressed {
            if gesture.dragging {
                DragGesture {
                    dragging: true,
                    start: gesture.start,
                    line: Some(line_between(gesture.start, pointer, anchor)),
                }
            } else {
                DragGesture {
                    dragging: true,
                    start: pointer,
                    line: Some(line_between(pointer, pointer, anchor)),
                }
            }
        } else {
            if gesture.dragging {
                DragGesture { dragging: false, start: gesture.start, line: None }
            } else {
                gesture
            }
        },
    }
}

/// The velocity after a launch against `drag`.
pub open spec fn launched(velocity: Vec2, drag: Vec2) -> Vec2 {
    Vec2 {
        x: saturate(velocity.x - drag.x * PLAYER_SPEED),
        y: saturate(velocity.y - drag.y * PLAYER_SPEED),
    }
}

/// Computes the line for a drag.
pub fn line_for(start: Vec2, pointer: Vec2, anchor: Vec2) -> (line: GestureLine)
    ensures
        line == line_between(start, pointer, anchor),
{
    let drag = pointer.minus(start);
    let half_x: i128 = div_toward_zero_i128(drag.x as i128, 2);
    let half_y: i128 = div_toward_zero_i128(drag.y as i128, 2);
    GestureLine {
        center: Vec2 {
            x: saturate_i128(anchor.x as i128 + half_x),
            y: saturate_i128(anchor.y as i128 + half_y),
        },
        drag,
        length: drag.length(),
    }
}

impl DragGesture {
    /// No drag under way.
    pub fn idle() -> (gesture: DragGesture)
        ensures
            gesture == (DragGesture { dragging: false, start: Vec2 { x: 0, y: 0 }, line: None }),
    {
        DragGesture { dragging: false, start: Vec2 { x: 0, y: 0 }, line: None }
    }

    /// Takes one pointer sample. `anchor` is where the line is anchored: the
    /// player's position. Returns the drag vector when the sample completes
    /// a drag.
    pub fn advance(&mut self, sample: PointerSample, anchor: Vec2) -> (released: Option<Vec2>)
        ensures
            *final(self) == gesture_after(*old(self), sample, anchor),
            released == released_drag(*old(self), sample),
    {
        match sample.position {
            None => None,
            Some(pointer) => {
                if sample.pressed {
                    if !self.dragging {
                        self.dragging = true;
                        self.start = pointer;
                    }
                    self.line = Some(line_for(self.start, pointer, anchor));
                    None
                } else if self.dragging {
                    self.dragging = false;
                    self.line = None;
                    Some(pointer.minus(self.start))
                } else {
                    None
                }
            },
        }
    }
}

impl Player {
    /// Launches the player against a completed drag.
    pub fn launch(&mut self, drag: Vec2)
        ensures
            *final(self) == (Player { velocity: launched(old(self).velocity, drag), ..*old(self) }),
    {
        let dx: i128 = (drag.x as i128) * (PLAYER_SPEED as i128);
        let dy: i128 = (drag.y as i128) * (PLAYER_SPEED as i128);
        self.velocity = Vec2 {
            x: saturate_i128(self.velocity.x as i128 - dx),
            y: saturate_i128(self.velocity.y as i128 - dy),
        };
    }
}

/// A sample without a pointer position changes nothing and launches nothing.
pub proof fn lemma_no_position_no_change(gesture: DragGesture, pressed: bool, anchor: Vec2)
    ensures
        gesture_after(gesture, PointerSample { position: None, pressed }, anchor) == gesture,
        released_drag(gesture, PointerSample { position: None, pressed }) is None,
{
}

/// A drag is completed exactly when the gesture goes from dragging to not
/// dragging, and only a completed drag removes the line of a drag under way.
pub proof fn lemma_release_ends_drag(gesture: DragGesture, sample: PointerSample, anchor: Vec2)
    ensures
        released_drag(gesture, sample) is Some <==> gesture.dragging && !gesture_after(
            gesture,
            sample,
            anchor,
        ).dragging,
        gesture_after(gesture, sample, anchor).dragging ==> gesture.dragging || (sample.pressed
            && sample.position is Some),
{
}

} // verus!
