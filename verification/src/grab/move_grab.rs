//! The move grab: continuous 1:1 dragging of a window in stacking mode.

use vstd::prelude::*;

use crate::geometry::{point_wf, Point, MAX_COORD};
use crate::grab::GrabStartData;
use crate::space::{contains_handle, spec_map, window_of};
use crate::state::FlyJa;

verus! {

/// A move grab: the pointer position and the window position captured at
/// grab start.  The window is referenced by handle and re-resolved on
/// every motion tick.
#[derive(Clone, Copy, PartialEq, Eq, Structural, Debug)]
pub struct MoveSurfaceGrab {
    /// Pointer state captured when the grab started.
    pub start_data: GrabStartData,
    /// Handle of the dragged window.
    pub window: u64,
    /// Where the window sat when the grab started.
    pub initial_window_location: Point,
}

/// Position the drag puts the window at: the initial window position
/// shifted by how far the pointer travelled since the grab started.
pub open spec fn drag_target(grab: MoveSurfaceGrab, location: Point) -> Point {
    Point {
        x: (grab.initial_window_location.x + (location.x - grab.start_data.location.x)) as i32,
        y: (grab.initial_window_location.y + (location.y - grab.start_data.location.y)) as i32,
    }
}

impl MoveSurfaceGrab {
    /// One pointer-motion tick: re-place the window at the drag target,
    /// raised and activated, for continuous 1:1 tracking.  The window
    /// stays put when it is no longer registered or when the target
    /// would leave the coordinate range.
    pub fn motion(&self, data: &mut FlyJa, location: Point)
        requires
            old(data).wf(),
            point_wf(location),
            point_wf(self.start_data.location),
            point_wf(self.initial_window_location),
        ensures
            final(data).wf(),
            final(data).reseize_state == old(data).reseize_state,
            final(data).window_remove_state == old(data).window_remove_state,
            final(data).same_flags(*old(data)),
            ({
                let target = drag_target(*self, location);
                if point_wf(target) && contains_handle(old(data).space.windows(), self.window) {
                    final(data).space.windows() == spec_map(
                        old(data).space.windows(),
                        window_of(old(data).space.windows(), self.window),
                        target,
                        true,
                    )
                } else {
                    final(data).space.windows() == old(data).space.windows()
                }
            }),
    {
        let tx = self.initial_window_location.x + (location.x - self.start_data.location.x);
        let ty = self.initial_window_location.y + (location.y - self.start_data.location.y);
        if !(-MAX_COORD <= tx && tx <= MAX_COORD && -MAX_COORD <= ty && ty <= MAX_COORD) {
            return;
        }
        match data.space.find(self.window) {
            Some(w) => {
                proof {
                    assert(w.wf());
                }
                data.space.map_element(w, Point { x: tx, y: ty }, true);
            },
            None => {},
        }
    }

    /// Whether a button event ends this grab: it does once no tracked
    /// button remains pressed.
    pub fn button_releases(&self, current_pressed: &Vec<u32>) -> (r: bool)
        ensures
            r == !current_pressed@.contains(crate::grab::BTN_LEFT),
    {
        crate::grab::grab_released(current_pressed)
    }
}

} // verus!
