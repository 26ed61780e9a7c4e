//! The resize grab: bookkeeping for an interactive edge drag.  Resolving
//! the dragged edge to the windows involved is done when the grab starts;
//! applying geometry during the drag is deliberately left open, so the
//! grab only carries the pin/move sets and the axis, and its release
//! rule.

use vstd::prelude::*;

use crate::grab::GrabStartData;
use crate::shell::WindowElement;

verus! {

/// Axis of an interactive resize: a left/right boundary moves, or a
/// top/bottom one.
#[derive(Clone, Copy, PartialEq, Eq, Structural, Debug)]
pub enum ResizeType {
    /// A vertical boundary between windows moves horizontally.
    LR,
    /// A horizontal boundary between windows moves vertically.
    HV,
}

/// A resize grab: the neighbor chain on the far side of the dragged edge
/// stays pinned while the grabbed window's edge moves.
#[derive(Clone, Debug)]
pub struct ResizeSurfaceGrab {
    /// Pointer state captured when the grab started.
    pub start_data: GrabStartData,
    /// Windows on the far side of the dragged boundary.
    pub pined_elements: Vec<WindowElement>,
    /// Windows whose dragged edge follows the pointer.
    pub moved_elements: Vec<WindowElement>,
    /// Which way the boundary moves.
    pub resize_type: ResizeType,
}

impl ResizeSurfaceGrab {
    /// Whether a button event ends this grab: it does once no tracked
    /// button remains pressed.
    pub fn button_releases(&self, current_pressed: &Vec<u32>) -> (r: bool)
        ensures
            r == !current_pressed@.contains(crate::grab::BTN_LEFT),
    {
        crate::grab::grab_released(current_pressed)
    }
}

} // verus!
