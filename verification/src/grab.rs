//! Pointer-driven interactive grabs: moving a window in stacking mode,
//! and the edge-resize bookkeeping.  A grab owns the pointer for the
//! duration of the interaction and is released once no tracked mouse
//! button remains pressed.

use vstd::prelude::*;

pub mod move_grab;
pub mod resize_grab;

verus! {

/// Code of the primary mouse button.
pub const BTN_LEFT: u32 = 0x110;

/// What a pointer grab captures when it starts: the pointer position at
/// that moment.
#[derive(Clone, Copy, PartialEq, Eq, Structural, Debug)]
pub struct GrabStartData {
    /// Pointer position when the grab started.
    pub location: crate::geometry::Point,
}

/// A grab ends once no tracked button remains pressed: true when the
/// primary button is no longer among the currently pressed codes.
pub fn grab_released(current_pressed: &Vec<u32>) -> (r: bool)
    ensures
        r == !current_pressed@.contains(BTN_LEFT),
{
    let n = current_pressed.len();
    let mut i: usize = 0;
    while i < n
        invariant
            n == current_pressed@.len(),
            i <= n,
            forall|k: int| 0 <= k < i ==> current_pressed@[k] != BTN_LEFT,
        decreases n - i,
    {
        if current_pressed[i] == BTN_LEFT {
            assert(current_pressed@.contains(BTN_LEFT));
            return false;
        }
        i = i + 1;
    }
    proof {
        if current_pressed@.contains(BTN_LEFT) {
            let k = choose|k: int| 0 <= k < n && current_pressed@[k] == BTN_LEFT;
        }
    }
    true
}

} // verus!
