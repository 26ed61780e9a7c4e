//! The window registry: an insertion/z-ordered collection of windows, one
//! per handle, with the bottom of the stack at index zero.  Every mutation
//! has a functional specification over the sequence view, which the layout
//! pipelines and the laws about them build on.

use vstd::prelude::*;

use crate::geometry::{ext_point_wf, point_wf, rect_contains, Point, Size, MAX_COORD};
use crate::shell::WindowElement;

verus! {

/// No two entries share a handle.
pub open spec fn handles_unique(s: Seq<WindowElement>) -> bool {
    forall|i: int, j: int| 0 <= i < j < s.len() ==> s[i].handle != s[j].handle
}

/// Every entry is within the coordinate bounds.
pub open spec fn windows_wf(s: Seq<WindowElement>) -> bool {
    forall|i: int| 0 <= i < s.len() ==> #[trigger] s[i].wf()
}

/// Well-formed registry content: unique handles, bounded geometry.
pub open spec fn space_wf(s: Seq<WindowElement>) -> bool {
    handles_unique(s) && windows_wf(s)
}

/// Some entry carries this handle.
pub open spec fn contains_handle(s: Seq<WindowElement>, handle: u64) -> bool {
    exists|i: int| 0 <= i < s.len() && s[i].handle == handle
}

/// Index of the entry with this handle; meaningful when the handle is
/// present and handles are unique.
pub open spec fn idx_of(s: Seq<WindowElement>, handle: u64) -> int {
    choose|i: int| 0 <= i < s.len() && s[i].handle == handle
}

/// The entry with this handle.
pub open spec fn window_of(s: Seq<WindowElement>, handle: u64) -> WindowElement {
    s[idx_of(s, handle)]
}

/// The window with its activated flag cleared.
pub open spec fn deactivated(w: WindowElement) -> WindowElement {
    WindowElement { activated: false, ..w }
}

/// Every entry with its activated flag cleared.
pub open spec fn spec_deactivate_all(s: Seq<WindowElement>) -> Seq<WindowElement> {
    Seq::new(s.len(), |i: int| deactivated(s[i]))
}

/// The registry without the entry of this handle, if it had one.
pub open spec fn spec_remove_handle(s: Seq<WindowElement>, handle: u64) -> Seq<WindowElement> {
    if contains_handle(s, handle) {
        s.remove(idx_of(s, handle))
    } else {
        s
    }
}

/// No window is activated.
pub open spec fn no_activated(s: Seq<WindowElement>) -> bool {
    forall|i: int| 0 <= i < s.len() ==> !s[i].activated
}

/// `i` is the bottom-most activated index.
pub open spec fn is_first_activated(s: Seq<WindowElement>, i: int) -> bool {
    &&& 0 <= i < s.len()
    &&& s[i].activated
    &&& forall|k: int| 0 <= k < i ==> !s[k].activated
}

/// The bottom-most activated index.
pub open spec fn first_activated_idx(s: Seq<WindowElement>) -> int {
    choose|i: int| is_first_activated(s, i)
}

/// The window with a pending target rectangle recorded.
pub open spec fn with_pending(w: WindowElement, start: Point, end: Point) -> WindowElement {
    WindowElement { resize_size: Some((start, end)), ..w }
}

/// The window as placing it at `loc` stores it: repositioned, and
/// activated when the placement activates.
pub open spec fn placed(w: WindowElement, loc: Point, activate: bool) -> WindowElement {
    WindowElement { loc, activated: activate || w.activated, ..w }
}

/// Functional specification of [`Space::map_element`]: any previous entry
/// of the handle leaves, every other window loses activation when the
/// placement activates, and the placed window goes on top.
pub open spec fn spec_map(
    s: Seq<WindowElement>,
    w: WindowElement,
    loc: Point,
    activate: bool,
) -> Seq<WindowElement> {
    let base = spec_remove_handle(s, w.handle);
    let base = if activate {
        spec_deactivate_all(base)
    } else {
        base
    };
    base.push(placed(w, loc, activate))
}

/// The entry of `handle` with its pending target rectangle set to
/// `(start, end)`; no change when the handle is absent.
pub open spec fn spec_set_pending(
    s: Seq<WindowElement>,
    handle: u64,
    start: Point,
    end: Point,
) -> Seq<WindowElement> {
    if contains_handle(s, handle) {
        s.update(
            idx_of(s, handle),
            WindowElement { resize_size: Some((start, end)), ..window_of(s, handle) },
        )
    } else {
        s
    }
}

/// The window with its pending target rectangle, if any, taken over as
/// the acknowledged size.
pub open spec fn committed(w: WindowElement) -> WindowElement {
    match w.resize_size {
        Some((s, e)) => WindowElement {
            size: Size { w: (e.x - s.x) as i32, h: (e.y - s.y) as i32 },
            resize_size: None,
            ..w
        },
        None => w,
    }
}

/// The entry of `handle` with its pending rectangle committed; no change
/// when the handle is absent.
pub open spec fn spec_commit_pending(s: Seq<WindowElement>, handle: u64) -> Seq<WindowElement> {
    if contains_handle(s, handle) {
        s.update(idx_of(s, handle), committed(window_of(s, handle)))
    } else {
        s
    }
}

/// Topmost window whose acknowledged rectangle contains the point.
pub open spec fn spec_element_under(s: Seq<WindowElement>, px: int, py: int) -> Option<u64>
    decreases s.len(),
{
    if s.len() == 0 {
        None
    } else if rect_contains(s.last().acked_rect(), px, py) {
        Some(s.last().handle)
    } else {
        spec_element_under(s.drop_last(), px, py)
    }
}

/// Two registry contents whose entries carry the same handles position by
/// position contain exactly the same handles.
pub proof fn lemma_same_handles_contains(s1: Seq<WindowElement>, s2: Seq<WindowElement>)
    requires
        s1.len() == s2.len(),
        forall|i: int| 0 <= i < s1.len() ==> s1[i].handle == s2[i].handle,
    ensures
        forall|h: u64| contains_handle(s1, h) == contains_handle(s2, h),
{
    assert forall|h: u64| contains_handle(s1, h) == contains_handle(s2, h) by {
        if contains_handle(s1, h) {
            let i = choose|i: int| 0 <= i < s1.len() && s1[i].handle == h;
            assert(s2[i].handle == h);
        }
        if contains_handle(s2, h) {
            let i = choose|i: int| 0 <= i < s2.len() && s2[i].handle == h;
            assert(s1[i].handle == h);
        }
    }
}

/// When handles are unique, any index holding the handle is the index.
pub proof fn lemma_idx_of(s: Seq<WindowElement>, i: int)
    requires
        handles_unique(s),
        0 <= i < s.len(),
    ensures
        idx_of(s, s[i].handle) == i,
        contains_handle(s, s[i].handle),
{
    assert(contains_handle(s, s[i].handle));
    let j = idx_of(s, s[i].handle);
    assert(0 <= j < s.len() && s[j].handle == s[i].handle);
    if i < j {
        assert(s[i].handle != s[j].handle);
    } else if j < i {
        assert(s[j].handle != s[i].handle);
    }
}

/// Removing a handle removes its only entry: the handle is gone, the
/// others keep their order, uniqueness and bounds.
pub proof fn lemma_remove_handle(s: Seq<WindowElement>, handle: u64)
    requires
        space_wf(s),
    ensures
        space_wf(spec_remove_handle(s, handle)),
        !contains_handle(spec_remove_handle(s, handle), handle),
{
    if contains_handle(s, handle) {
        let i = idx_of(s, handle);
        let r = s.remove(i);
        assert forall|k: int| 0 <= k < r.len() implies #[trigger] r[k].wf() && r[k].handle
            != handle by {
            if k < i {
                assert(r[k] == s[k]);
                if s[k].handle == handle {
                    lemma_idx_of(s, k);
                }
            } else {
                assert(r[k] == s[k + 1]);
                if s[k + 1].handle == handle {
                    lemma_idx_of(s, k + 1);
                }
            }
        }
        assert forall|k: int, l: int| 0 <= k < l < r.len() implies r[k].handle
            != r[l].handle by {
            let k0 = if k < i { k } else { k + 1 };
            let l0 = if l < i { l } else { l + 1 };
            assert(r[k] == s[k0] && r[l] == s[l0]);
        }
    }
}

/// Placement preserves well-formedness of the registry content.
pub proof fn lemma_spec_map_wf(s: Seq<WindowElement>, w: WindowElement, loc: Point, activate: bool)
    requires
        space_wf(s),
        w.wf(),
        point_wf(loc),
    ensures
        space_wf(spec_map(s, w, loc, activate)),
        contains_handle(spec_map(s, w, loc, activate), w.handle),
        window_of(spec_map(s, w, loc, activate), w.handle) == placed(w, loc, activate),
{
    lemma_remove_handle(s, w.handle);
    let base0 = spec_remove_handle(s, w.handle);
    let base = if activate {
        spec_deactivate_all(base0)
    } else {
        base0
    };
    assert forall|k: int| 0 <= k < base.len() implies #[trigger] base[k].wf() && base[k].handle
        != w.handle by {
        assert(base0[k].wf() && base0[k].handle != w.handle);
    }
    let r = base.push(placed(w, loc, activate));
    assert(r[r.len() - 1] == placed(w, loc, activate));
    assert forall|k: int, l: int| 0 <= k < l < r.len() implies r[k].handle != r[l].handle by {
        if l < r.len() - 1 {
            assert(r[k] == base[k] && r[l] == base[l]);
        } else {
            assert(r[k] == base[k]);
        }
    }
    assert forall|k: int| 0 <= k < r.len() implies #[trigger] r[k].wf() by {
        if k < r.len() - 1 {
            assert(r[k] == base[k]);
        }
    }
    lemma_idx_of(r, r.len() - 1);
}

/// Mapping a window at a position is idempotent: doing it again changes
/// nothing, the window sits at that position, and the registry still has
/// exactly one entry for the handle.
pub proof fn lemma_map_idempotent(s: Seq<WindowElement>, w: WindowElement, p: Point, activate: bool)
    requires
        space_wf(s),
        w.wf(),
        point_wf(p),
    ensures
        spec_map(spec_map(s, w, p, activate), w, p, activate) == spec_map(s, w, p, activate),
        window_of(spec_map(s, w, p, activate), w.handle).loc == p,
        handles_unique(spec_map(s, w, p, activate)),
{
    lemma_spec_map_wf(s, w, p, activate);
    let s1 = spec_map(s, w, p, activate);
    let w1 = placed(w, p, activate);
    let n = s1.len() - 1;
    assert(s1[n] == w1);
    lemma_idx_of(s1, n);
    let base1 = spec_remove_handle(s1, w.handle);
    assert(base1 =~= s1.subrange(0, n));
    let inner = if activate {
        spec_deactivate_all(spec_remove_handle(s, w.handle))
    } else {
        spec_remove_handle(s, w.handle)
    };
    assert(base1 =~= inner);
    if activate {
        assert(spec_deactivate_all(base1) =~= base1);
    }
    assert(placed(w1, p, activate) == w1);
    assert(spec_map(s1, w, p, activate) =~= s1);
}

/// The window registry.
pub struct Space {
    /// The mapped windows, bottom of the z-order first.
    pub elements: Vec<WindowElement>,
}

impl Space {
    /// Registry content, bottom first.
    pub open spec fn windows(self) -> Seq<WindowElement> {
        self.elements@
    }

    /// Unique handles and bounded geometry.
    pub open spec fn wf(self) -> bool {
        space_wf(self.windows())
    }

    /// An empty registry.
    pub fn new() -> (s: Space)
        ensures
            s.windows() == Seq::<WindowElement>::empty(),
            s.wf(),
    {
        let s = Space { elements: Vec::new() };
        proof {
            assert(s.windows() =~= Seq::<WindowElement>::empty());
        }
        s
    }

    /// Number of mapped windows.
    pub fn len(&self) -> (n: usize)
        ensures
            n == self.windows().len(),
    {
        self.elements.len()
    }

    /// Index of the window with this handle.
    pub fn find_index(&self, handle: u64) -> (r: Option<usize>)
        requires
            self.wf(),
        ensures
            match r {
                Some(i) => contains_handle(self.windows(), handle) && i == idx_of(
                    self.windows(),
                    handle,
                ) && i < self.windows().len() && self.windows()[i as int].handle == handle,
                None => !contains_handle(self.windows(), handle),
            },
    {
        let n = self.elements.len();
        let mut i: usize = 0;
        while i < n
            invariant
                n == self.windows().len(),
                i <= n,
                self.wf(),
                forall|k: int| 0 <= k < i ==> self.windows()[k].handle != handle,
            decreases n - i,
        {
            if self.elements[i].handle == handle {
                proof {
                    lemma_idx_of(self.windows(), i as int);
                }
                return Some(i);
            }
            i = i + 1;
        }
        None
    }

    /// Look a window up by handle; an unknown handle yields nothing.
    pub fn find(&self, handle: u64) -> (r: Option<WindowElement>)
        requires
            self.wf(),
        ensures
            match r {
                Some(w) => contains_handle(self.windows(), handle) && w == window_of(
                    self.windows(),
                    handle,
                ),
                None => !contains_handle(self.windows(), handle),
            },
    {
        match self.find_index(handle) {
            Some(i) => Some(self.elements[i]),
            None => None,
        }
    }

    /// Position of the window with this handle.
    pub fn element_location(&self, handle: u64) -> (r: Option<Point>)
        requires
            self.wf(),
        ensures
            match r {
                Some(p) => contains_handle(self.windows(), handle) && p == window_of(
                    self.windows(),
                    handle,
                ).loc,
                None => !contains_handle(self.windows(), handle),
            },
    {
        match self.find_index(handle) {
            Some(i) => Some(self.elements[i].loc),
            None => None,
        }
    }

    /// Place a window: any previous entry of its handle leaves, the window
    /// goes on top of the z-order at `loc`, and when `activate` holds it
    /// becomes the only activated window.
    pub fn map_element(&mut self, w: WindowElement, loc: Point, activate: bool)
        requires
            old(self).wf(),
            w.wf(),
            point_wf(loc),
        ensures
            final(self).windows() == spec_map(old(self).windows(), w, loc, activate),
            final(self).wf(),
    {
        proof {
            lemma_spec_map_wf(self.windows(), w, loc, activate);
        }
        let ghost s0 = self.windows();
        match self.find_index(w.handle) {
            Some(i) => {
                self.elements.remove(i);
            },
            None => {},
        }
        let ghost base0 = self.windows();
        proof {
            assert(base0 == spec_remove_handle(s0, w.handle));
        }
        if activate {
            let n = self.elements.len();
            let mut j: usize = 0;
            while j < n
                invariant
                    n == self.windows().len(),
                    j <= n,
                    base0.len() == n,
                    forall|k: int| 0 <= k < j ==> self.windows()[k] == deactivated(base0[k]),
                    forall|k: int| j <= k < n ==> self.windows()[k] == base0[k],
                decreases n - j,
            {
                let mut entry = self.elements[j];
                entry.activated = false;
                self.elements[j] = entry;
                j = j + 1;
            }
            proof {
                assert(self.windows() =~= spec_deactivate_all(base0));
            }
        }
        let mut w2 = w;
        w2.loc = loc;
        if activate {
            w2.activated = true;
        }
        proof {
            assert(w2 == placed(w, loc, activate));
        }
        self.elements.push(w2);
    }

    /// Move the window of this handle to the top of the z-order, keeping
    /// its position, activating it when asked; unknown handles are a no-op.
    pub fn raise_element(&mut self, handle: u64, activate: bool)
        requires
            old(self).wf(),
        ensures
            contains_handle(old(self).windows(), handle) ==> final(self).windows() == spec_map(
                old(self).windows(),
                window_of(old(self).windows(), handle),
                window_of(old(self).windows(), handle).loc,
                activate,
            ),
            !contains_handle(old(self).windows(), handle) ==> final(self).windows() == old(
                self,
            ).windows(),
            final(self).wf(),
    {
        match self.find_index(handle) {
            Some(i) => {
                let w = self.elements[i];
                proof {
                    assert(self.windows()[i as int].wf());
                }
                self.map_element(w, w.loc, activate);
            },
            None => {},
        }
    }

    /// Record a pending target rectangle on the window of this handle;
    /// unknown handles are a no-op.
    pub fn set_pending(&mut self, handle: u64, start: Point, end: Point)
        requires
            old(self).wf(),
            ext_point_wf(start),
            ext_point_wf(end),
            start.x <= end.x,
            end.x - start.x <= MAX_COORD as int,
            start.y <= end.y,
            end.y - start.y <= MAX_COORD as int,
        ensures
            final(self).windows() == spec_set_pending(old(self).windows(), handle, start, end),
            final(self).wf(),
    {
        match self.find_index(handle) {
            Some(i) => {
                let mut w = self.elements[i];
                w.resize_size = Some((start, end));
                self.elements[i] = w;
                proof {
                    let s = old(self).windows();
                    let t = self.windows();
                    assert(s[i as int].wf());
                    assert forall|k: int| 0 <= k < t.len() implies #[trigger] t[k].wf() by {
                        if k != i {
                            assert(t[k] == s[k]);
                        }
                    }
                    assert forall|k: int, l: int| 0 <= k < l < t.len() implies t[k].handle
                        != t[l].handle by {
                        assert(t[k].handle == s[k].handle);
                        assert(t[l].handle == s[l].handle);
                    }
                }
            },
            None => {},
        }
    }

    /// Take the pending target rectangle of this window, if any, over as
    /// its acknowledged size; unknown handles are a no-op.
    pub fn commit_pending(&mut self, handle: u64)
        requires
            old(self).wf(),
        ensures
            final(self).windows() == spec_commit_pending(old(self).windows(), handle),
            final(self).wf(),
    {
        match self.find_index(handle) {
            Some(i) => {
                let mut w = self.elements[i];
                proof {
                    assert(self.windows()[i as int].wf());
                }
                match w.resize_size {
                    Some((start, end)) => {
                        w.size = Size { w: end.x - start.x, h: end.y - start.y };
                        w.resize_size = None;
                        self.elements[i] = w;
                    },
                    None => {},
                }
                proof {
                    let s = old(self).windows();
                    let t = self.windows();
                    assert(s[i as int].wf());
                    assert(t =~= spec_commit_pending(s, handle));
                    assert forall|k: int| 0 <= k < t.len() implies #[trigger] t[k].wf() by {
                        if k != i {
                            assert(t[k] == s[k]);
                        }
                    }
                    assert forall|k: int, l: int| 0 <= k < l < t.len() implies t[k].handle
                        != t[l].handle by {
                        assert(t[k].handle == s[k].handle);
                        assert(t[l].handle == s[l].handle);
                    }
                }
            },
            None => {},
        }
    }

    /// Remove the window of this handle; unknown handles are a no-op.
    pub fn remove_element(&mut self, handle: u64)
        requires
            old(self).wf(),
        ensures
            final(self).windows() == spec_remove_handle(old(self).windows(), handle),
            final(self).wf(),
            !contains_handle(final(self).windows(), handle),
    {
        proof {
            lemma_remove_handle(self.windows(), handle);
        }
        match self.find_index(handle) {
            Some(i) => {
                self.elements.remove(i);
            },
            None => {},
        }
    }

    /// Clear the activated flag of every window.
    pub fn deactivate_all(&mut self)
        requires
            old(self).wf(),
        ensures
            final(self).windows() == spec_deactivate_all(old(self).windows()),
            final(self).wf(),
    {
        let ghost s0 = self.windows();
        let n = self.elements.len();
        let mut j: usize = 0;
        while j < n
            invariant
                n == self.windows().len(),
                j <= n,
                s0.len() == n,
                forall|k: int| 0 <= k < j ==> self.windows()[k] == deactivated(s0[k]),
                forall|k: int| j <= k < n ==> self.windows()[k] == s0[k],
            decreases n - j,
        {
            let mut entry = self.elements[j];
            entry.activated = false;
            self.elements[j] = entry;
            j = j + 1;
        }
        proof {
            assert(self.windows() =~= spec_deactivate_all(s0));
            assert forall|k: int| 0 <= k < self.windows().len() implies #[trigger] self
                .windows()[k].wf() by {
                assert(s0[k].wf());
            }
            assert forall|k: int, l: int| 0 <= k < l < self.windows().len() implies self
                .windows()[k].handle != self.windows()[l].handle by {
                assert(self.windows()[k].handle == s0[k].handle);
                assert(self.windows()[l].handle == s0[l].handle);
            }
        }
    }

    /// Topmost window whose acknowledged rectangle contains the point.
    pub fn element_under(&self, p: Point) -> (r: Option<u64>)
        requires
            self.wf(),
            point_wf(p),
        ensures
            r == spec_element_under(self.windows(), p.x as int, p.y as int),
    {
        let mut i = self.elements.len();
        proof {
            assert(self.windows().subrange(0, i as int) =~= self.windows());
        }
        while i > 0
            invariant
                self.wf(),
                point_wf(p),
                i <= self.windows().len(),
                spec_element_under(self.windows(), p.x as int, p.y as int)
                    == spec_element_under(
                    self.windows().subrange(0, i as int),
                    p.x as int,
                    p.y as int,
                ),
            decreases i,
        {
            i = i - 1;
            let w = self.elements[i];
            proof {
                assert(w.wf());
                assert(self.windows().subrange(0, i + 1).last() == w);
                assert(self.windows().subrange(0, i + 1).drop_last() =~= self.windows().subrange(
                    0,
                    i as int,
                ));
            }
            let gw = w.loc;
            let gs = w.size;
            if gw.x <= p.x && p.x < gw.x + gs.w && gw.y <= p.y && p.y < gw.y + gs.h {
                return Some(w.handle);
            }
        }
        proof {
            assert(self.windows().subrange(0, 0) =~= Seq::<WindowElement>::empty());
        }
        None
    }

    /// Handle of the bottom-most window, if any window is mapped.
    pub fn first_handle(&self) -> (r: Option<u64>)
        ensures
            match r {
                Some(h) => self.windows().len() > 0 && h == self.windows()[0].handle,
                None => self.windows().len() == 0,
            },
    {
        if self.elements.len() > 0 {
            Some(self.elements[0].handle)
        } else {
            None
        }
    }

    /// Index of the bottom-most activated window, if one is activated.
    pub fn find_activated(&self) -> (r: Option<usize>)
        ensures
            match r {
                Some(i) => i < self.windows().len() && self.windows()[i as int].activated
                    && forall|k: int| 0 <= k < i ==> !self.windows()[k].activated,
                None => forall|k: int|
                    0 <= k < self.windows().len() ==> !self.windows()[k].activated,
            },
    {
        let n = self.elements.len();
        let mut i: usize = 0;
        while i < n
            invariant
                n == self.windows().len(),
                i <= n,
                forall|k: int| 0 <= k < i ==> !self.windows()[k].activated,
            decreases n - i,
        {
            if self.elements[i].activated {
                return Some(i);
            }
            i = i + 1;
        }
        None
    }
}

impl WindowElement {
    /// Re-place this window at its current position with the pending
    /// rectangle dropped, raising and activating it; a window that is not
    /// mapped stays unmapped.
    pub fn remap_element(&self, space: &mut Space)
        requires
            old(space).wf(),
            self.wf(),
        ensures
            contains_handle(old(space).windows(), self.handle) ==> final(space).windows()
                == spec_map(
                old(space).windows(),
                WindowElement { resize_size: None, ..*self },
                window_of(old(space).windows(), self.handle).loc,
                true,
            ),
            !contains_handle(old(space).windows(), self.handle) ==> final(space).windows() == old(
                space,
            ).windows(),
            final(space).wf(),
    {
        let cleared = WindowElement { resize_size: None, ..*self };
        match space.element_location(self.handle) {
            Some(position) => {
                proof {
                    assert(window_of(old(space).windows(), self.handle).wf());
                }
                space.map_element(cleared, position, true);
            },
            None => {},
        }
    }
}

} // verus!
