//! Windows as the layout core sees them: an opaque handle, the last
//! acknowledged position and size, an optional pending target rectangle
//! set while a resize negotiation is in flight, and the activation flag.

use vstd::prelude::*;

use crate::geometry::{
    ext_point_wf, near, point_wf, size_wf, Point, Rect, Size, EPSILON, MAX_COORD,
};

verus! {

/// One client window.  The handle stands for the client's top-level
/// surface; the registry holds at most one window per handle.
#[derive(Clone, Copy, Debug)]
pub struct WindowElement {
    /// Opaque handle of the client surface this window belongs to.
    pub handle: u64,
    /// Acknowledged position.
    pub loc: Point,
    /// Acknowledged size.
    pub size: Size,
    /// Pending target rectangle, as a (start, end) corner pair, set while
    /// a resize negotiation is in flight; it overrides the acknowledged
    /// size for layout purposes until the client commits.
    pub resize_size: Option<(Point, Point)>,
    /// Whether the window currently holds the activated state.
    pub activated: bool,
}

impl WindowElement {
    /// The stored fields are within the coordinate bounds, and a pending
    /// rectangle, when present, is ordered with extents within bounds.
    pub open spec fn wf(self) -> bool {
        &&& point_wf(self.loc)
        &&& size_wf(self.size)
        &&& self.resize_size matches Some((s, e)) ==> {
            &&& ext_point_wf(s)
            &&& ext_point_wf(e)
            &&& s.x <= e.x && e.x - s.x <= MAX_COORD as int
            &&& s.y <= e.y && e.y - s.y <= MAX_COORD as int
        }
    }

    /// Size the layout works with: the pending target size while a resize
    /// is in flight, the acknowledged size otherwise.
    pub open spec fn spec_pending_size(self) -> Size {
        match self.resize_size {
            Some((s, e)) => Size { w: (e.x - s.x) as i32, h: (e.y - s.y) as i32 },
            None => self.size,
        }
    }

    /// Layout rectangle: the pending target size, if one is set, at the
    /// acknowledged position.
    pub open spec fn spec_geometry(self) -> Rect {
        Rect { loc: self.loc, size: self.spec_pending_size() }
    }

    /// Rectangle actually acknowledged by the client so far; this is what
    /// hit-testing goes by.
    pub open spec fn acked_rect(self) -> Rect {
        Rect { loc: self.loc, size: self.size }
    }

    /// A fresh window for a newly reported top-level surface: zero size at
    /// the origin, no resize in flight, not activated.
    pub fn new(handle: u64) -> (w: WindowElement)
        ensures
            w == (WindowElement {
                handle,
                loc: Point { x: 0, y: 0 },
                size: Size { w: 0, h: 0 },
                resize_size: None,
                activated: false,
            }),
    {
        WindowElement {
            handle,
            loc: Point { x: 0, y: 0 },
            size: Size { w: 0, h: 0 },
            resize_size: None,
            activated: false,
        }
    }

    /// Copy of this window with the given pending target rectangle.
    pub fn set_resize_size(&self, resize_size: (Point, Point)) -> (w: WindowElement)
        ensures
            w == (WindowElement { resize_size: Some(resize_size), ..*self }),
    {
        WindowElement { resize_size: Some(resize_size), ..*self }
    }

    /// Size a configure for this window would carry right now: the pending
    /// target size if a resize is in flight, else the acknowledged size.
    pub fn get_pedding_size(&self) -> (s: Size)
        requires
            self.wf(),
        ensures
            s == self.spec_pending_size(),
    {
        match self.resize_size {
            Some((start, end)) => Size { w: end.x - start.x, h: end.y - start.y },
            None => self.size,
        }
    }

    /// Layout rectangle of this window; see [`Self::spec_geometry`].
    pub fn geometry(&self) -> (r: Rect)
        requires
            self.wf(),
        ensures
            r == self.spec_geometry(),
    {
        Rect { loc: self.loc, size: self.get_pedding_size() }
    }

    /// Set or clear the activated flag; reports whether the flag changed.
    pub fn set_activated(&mut self, active: bool) -> (changed: bool)
        ensures
            *final(self) == (WindowElement { activated: active, ..*old(self) }),
            changed == (old(self).activated != active),
    {
        let changed = self.activated != active;
        self.activated = active;
        changed
    }

    /// The acknowledged rectangle agrees with the pending target rectangle
    /// on every edge, within the tolerance; without a pending rectangle
    /// there is nothing to have finished, and the answer is false.
    pub open spec fn spec_resize_finished(self) -> bool {
        match self.resize_size {
            Some((s, e)) => {
                &&& near(s.x as int, self.loc.x as int)
                &&& near(s.y as int, self.loc.y as int)
                &&& near(self.loc.x + self.size.w, e.x as int)
                &&& near(self.loc.y + self.size.h, e.y as int)
            },
            None => false,
        }
    }

    /// Whether the client has committed close enough to the pending target
    /// rectangle; mirrors [`Self::spec_resize_finished`].
    pub fn is_resize_finished(&self) -> (r: bool)
        requires
            self.wf(),
        ensures
            r == self.spec_resize_finished(),
    {
        match self.resize_size {
            Some((start, end)) => {
                let sx = start.x;
                let sy = start.y;
                let ex = end.x;
                let ey = end.y;
                sx - self.loc.x < EPSILON && self.loc.x - sx < EPSILON
                    && sy - self.loc.y < EPSILON && self.loc.y - sy < EPSILON
                    && self.loc.x + self.size.w - ex < EPSILON
                    && ex - (self.loc.x + self.size.w) < EPSILON
                    && self.loc.y + self.size.h - ey < EPSILON
                    && ey - (self.loc.y + self.size.h) < EPSILON
            },
            None => false,
        }
    }
}

} // verus!
