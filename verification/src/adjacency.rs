//! Adjacency search: given a vacated rectangle, find an ordered chain of
//! neighboring windows that spans one of its edges completely, within the
//! tolerance.  The four directions share one parameterized walk; each
//! step picks the bottom-most window in the z-order that matches the
//! direction's edge conditions at the accumulated position, and the whole
//! direction fails (yields an empty chain) as soon as no next window is
//! found before the far edge is reached.

use vstd::prelude::*;

use crate::geometry::{near, Point, EPSILON, MAX_COORD};
use crate::shell::WindowElement;
use crate::space::{contains_handle, lemma_idx_of, space_wf, window_of, windows_wf};
use crate::state::FlyJa;

verus! {

/// Where the neighbor chain lies relative to the vacated rectangle.
#[derive(Clone, Copy, PartialEq, Eq, Structural, Debug)]
pub enum Direction {
    /// Neighbors below: their top edge meets the vacated bottom edge;
    /// they move up to the vacated top and grow vertically.
    Down,
    /// Neighbors above: their bottom edge meets the vacated top edge;
    /// they stay and grow downward.
    Top,
    /// Neighbors to the left: their right edge meets the vacated left
    /// edge; they stay and grow rightward.
    Left,
    /// Neighbors to the right: their left edge meets the vacated right
    /// edge; they move left to the vacated left edge and grow.
    Right,
}

/// The walk of this direction accumulates along the x axis.
pub open spec fn walk_is_vertical(dir: Direction) -> bool {
    dir == Direction::Down || dir == Direction::Top
}

/// Whether the window matches this direction's edge conditions at the
/// accumulated position `(sx, sy)`; `(ex, ey)` is the far corner of the
/// vacated rectangle.  Layout rectangles (pending-aware) are compared,
/// and only windows with a positive extent along the walk axis count.
pub open spec fn walk_cond(
    dir: Direction,
    w: WindowElement,
    sx: int,
    sy: int,
    ex: int,
    ey: int,
) -> bool {
    let g = w.spec_geometry().size;
    match dir {
        Direction::Down => near(w.loc.x as int, sx) && near(w.loc.y as int, ey) && w.loc.x + g.w
            <= ex + EPSILON && g.w >= 1,
        Direction::Top => near(w.loc.x as int, sx) && near(w.loc.y + g.h, sy) && w.loc.x + g.w
            <= ex + EPSILON && g.w >= 1,
        Direction::Left => near(w.loc.x + g.w, sx) && near(w.loc.y as int, sy) && w.loc.y + g.h
            <= ey + EPSILON && g.h >= 1,
        Direction::Right => near(w.loc.x as int, ex) && near(w.loc.y as int, sy) && w.loc.y + g.h
            <= ey + EPSILON && g.h >= 1,
    }
}

/// Whether this window reaches the far edge, completing the chain.
pub open spec fn walk_finish(dir: Direction, w: WindowElement, ex: int, ey: int) -> bool {
    let g = w.spec_geometry().size;
    if walk_is_vertical(dir) {
        near(w.loc.x + g.w, ex)
    } else {
        near(w.loc.y + g.h, ey)
    }
}

/// Position the window will absorb: where it is re-placed when the chain
/// is applied.
pub open spec fn walk_pos(dir: Direction, w: WindowElement, sx: int, sy: int) -> Point {
    match dir {
        Direction::Down => Point { x: sx as i32, y: sy as i32 },
        Direction::Top => w.loc,
        Direction::Left => Point { x: w.loc.x, y: sy as i32 },
        Direction::Right => Point { x: sx as i32, y: sy as i32 },
    }
}

/// `j` is the first index whose window matches at `(sx, sy)`.
pub open spec fn is_first_cond(
    dir: Direction,
    s: Seq<WindowElement>,
    sx: int,
    sy: int,
    ex: int,
    ey: int,
    j: int,
) -> bool {
    &&& 0 <= j < s.len()
    &&& walk_cond(dir, s[j], sx, sy, ex, ey)
    &&& forall|k: int| 0 <= k < j ==> !walk_cond(dir, s[k], sx, sy, ex, ey)
}

/// The chain the walk of this direction yields, as (absorbed position,
/// window) pairs: empty when the direction fails, a complete edge-spanning
/// list otherwise.
pub open spec fn spec_chain(
    dir: Direction,
    s: Seq<WindowElement>,
    sx: int,
    sy: int,
    ex: int,
    ey: int,
) -> Seq<(Point, WindowElement)>
    decreases (if walk_is_vertical(dir) {
        ex + 2 * EPSILON - sx
    } else {
        ey + 2 * EPSILON - sy
    }),
{
    if exists|j: int| is_first_cond(dir, s, sx, sy, ex, ey, j) {
        let j = choose|j: int| is_first_cond(dir, s, sx, sy, ex, ey, j);
        let w = s[j];
        let g = w.spec_geometry().size;
        let pos = walk_pos(dir, w, sx, sy);
        if walk_finish(dir, w, ex, ey) {
            seq![(pos, w)]
        } else {
            let rest = if walk_is_vertical(dir) {
                spec_chain(dir, s, sx + g.w, sy, ex, ey)
            } else {
                spec_chain(dir, s, sx, sy + g.h, ex, ey)
            };
            if rest.len() == 0 {
                Seq::empty()
            } else {
                seq![(pos, w)] + rest
            }
        }
    } else {
        Seq::empty()
    }
}

/// Bounds under which the walk's arithmetic stays well inside `i32`.
pub open spec fn walk_bounds(sx: int, sy: int, ex: int, ey: int) -> bool {
    &&& -4 * (MAX_COORD as int) <= sx <= 4 * (MAX_COORD as int) + 2 * EPSILON
    &&& -4 * (MAX_COORD as int) <= sy <= 4 * (MAX_COORD as int) + 2 * EPSILON
    &&& -4 * (MAX_COORD as int) <= ex <= 4 * (MAX_COORD as int)
    &&& -4 * (MAX_COORD as int) <= ey <= 4 * (MAX_COORD as int)
}

/// Every chain entry is a registered window, looked up by its handle.
pub proof fn lemma_chain_members(
    dir: Direction,
    s: Seq<WindowElement>,
    sx: int,
    sy: int,
    ex: int,
    ey: int,
)
    requires
        space_wf(s),
    ensures
        forall|i: int|
            0 <= i < spec_chain(dir, s, sx, sy, ex, ey).len() ==> {
                let w = (#[trigger] spec_chain(dir, s, sx, sy, ex, ey)[i]).1;
                &&& contains_handle(s, w.handle)
                &&& w == window_of(s, w.handle)
                &&& w.wf()
            },
    decreases (if walk_is_vertical(dir) {
        ex + 2 * EPSILON - sx
    } else {
        ey + 2 * EPSILON - sy
    }),
{
    let c = spec_chain(dir, s, sx, sy, ex, ey);
    if exists|j: int| is_first_cond(dir, s, sx, sy, ex, ey, j) {
        let j = choose|j: int| is_first_cond(dir, s, sx, sy, ex, ey, j);
        let w = s[j];
        let g = w.spec_geometry().size;
        lemma_idx_of(s, j);
        assert(w == window_of(s, w.handle));
        assert(w.wf());
        if !walk_finish(dir, w, ex, ey) {
            if walk_is_vertical(dir) {
                lemma_chain_members(dir, s, sx + g.w, sy, ex, ey);
            } else {
                lemma_chain_members(dir, s, sx, sy + g.h, ex, ey);
            }
        }
    }
}

impl FlyJa {
    /// Evaluate this direction's edge conditions for one window.
    fn cond_exec(dir: Direction, w: &WindowElement, sx: i32, sy: i32, ex: i32, ey: i32) -> (r:
        bool)
        requires
            w.wf(),
            walk_bounds(sx as int, sy as int, ex as int, ey as int),
        ensures
            r == walk_cond(dir, *w, sx as int, sy as int, ex as int, ey as int),
    {
        let g = w.geometry().size;
        match dir {
            Direction::Down => w.loc.x - sx < EPSILON && sx - w.loc.x < EPSILON && w.loc.y - ey
                < EPSILON && ey - w.loc.y < EPSILON && w.loc.x + g.w <= ex + EPSILON && g.w >= 1,
            Direction::Top => w.loc.x - sx < EPSILON && sx - w.loc.x < EPSILON && w.loc.y + g.h
                - sy < EPSILON && sy - (w.loc.y + g.h) < EPSILON && w.loc.x + g.w <= ex + EPSILON
                && g.w >= 1,
            Direction::Left => w.loc.x + g.w - sx < EPSILON && sx - (w.loc.x + g.w) < EPSILON
                && w.loc.y - sy < EPSILON && sy - w.loc.y < EPSILON && w.loc.y + g.h <= ey
                + EPSILON && g.h >= 1,
            Direction::Right => w.loc.x - ex < EPSILON && ex - w.loc.x < EPSILON && w.loc.y - sy
                < EPSILON && sy - w.loc.y < EPSILON && w.loc.y + g.h <= ey + EPSILON && g.h >= 1,
        }
    }

    /// One parameterized walk serving all four directions; returns the
    /// chain [`spec_chain`] describes.
    fn walk(&self, dir: Direction, sx: i32, sy: i32, ex: i32, ey: i32) -> (r: Vec<
        (Point, WindowElement),
    >)
        requires
            self.wf(),
            walk_bounds(sx as int, sy as int, ex as int, ey as int),
        ensures
            r@ == spec_chain(
                dir,
                self.space.windows(),
                sx as int,
                sy as int,
                ex as int,
                ey as int,
            ),
        decreases (if walk_is_vertical(dir) {
            ex + 2 * EPSILON - sx
        } else {
            ey + 2 * EPSILON - sy
        }),
    {
        let ghost s = self.space.windows();
        let n = self.space.elements.len();
        let mut i: usize = 0;
        let mut found: Option<usize> = None;
        while i < n
            invariant
                self.wf(),
                walk_bounds(sx as int, sy as int, ex as int, ey as int),
                n == s.len(),
                s == self.space.windows(),
                i <= n,
                match found {
                    Some(j) => is_first_cond(
                        dir,
                        s,
                        sx as int,
                        sy as int,
                        ex as int,
                        ey as int,
                        j as int,
                    ) && j < n,
                    None => forall|k: int|
                        0 <= k < i ==> !walk_cond(dir, s[k], sx as int, sy as int, ex as int,
                        ey as int),
                },
            decreases n - i,
        {
            proof {
                assert(s[i as int].wf());
            }
            if found.is_none() && Self::cond_exec(dir, &self.space.elements[i], sx, sy, ex, ey) {
                found = Some(i);
            }
            i = i + 1;
        }
        match found {
            None => {
                proof {
                    assert(forall|j: int|
                        !is_first_cond(dir, s, sx as int, sy as int, ex as int, ey as int, j));
                    assert(spec_chain(dir, s, sx as int, sy as int, ex as int, ey as int)
                        =~= Seq::<(Point, WindowElement)>::empty());
                }
                Vec::new()
            },
            Some(j) => {
                proof {
                    let j0 = choose|j0: int|
                        is_first_cond(dir, s, sx as int, sy as int, ex as int, ey as int, j0);
                    assert(is_first_cond(dir, s, sx as int, sy as int, ex as int, ey as int,
                    j as int));
                    if j0 < j as int {
                        assert(!walk_cond(dir, s[j0], sx as int, sy as int, ex as int, ey as int));
                    } else if (j as int) < j0 {
                        assert(!walk_cond(dir, s[j as int], sx as int, sy as int, ex as int,
                        ey as int));
                    }
                    assert(j0 == j as int);
                    assert(s[j as int].wf());
                }
                let w = self.space.elements[j];
                let g = w.geometry().size;
                let pos = match dir {
                    Direction::Down => Point { x: sx, y: sy },
                    Direction::Top => w.loc,
                    Direction::Left => Point { x: w.loc.x, y: sy },
                    Direction::Right => Point { x: sx, y: sy },
                };
                proof {
                    assert(pos == walk_pos(dir, w, sx as int, sy as int));
                }
                let finished = match dir {
                    Direction::Down | Direction::Top => w.loc.x + g.w - ex < EPSILON && ex - (
                    w.loc.x + g.w) < EPSILON,
                    Direction::Left | Direction::Right => w.loc.y + g.h - ey < EPSILON && ey - (
                    w.loc.y + g.h) < EPSILON,
                };
                proof {
                    assert(finished == walk_finish(dir, w, ex as int, ey as int));
                }
                if finished {
                    let mut out: Vec<(Point, WindowElement)> = Vec::new();
                    out.push((pos, w));
                    proof {
                        assert(out@ =~= spec_chain(
                            dir,
                            s,
                            sx as int,
                            sy as int,
                            ex as int,
                            ey as int,
                        ));
                    }
                    out
                } else {
                    let rest = match dir {
                        Direction::Down | Direction::Top => self.walk(dir, sx + g.w, sy, ex, ey),
                        Direction::Left | Direction::Right => self.walk(dir, sx, sy + g.h, ex, ey),
                    };
                    if rest.len() == 0 {
                        proof {
                            assert(spec_chain(dir, s, sx as int, sy as int, ex as int, ey as int)
                                =~= Seq::<(Point, WindowElement)>::empty());
                        }
                        Vec::new()
                    } else {
                        let mut out: Vec<(Point, WindowElement)> = Vec::new();
                        out.push((pos, w));
                        let mut rest = rest;
                        out.append(&mut rest);
                        proof {
                            assert(out@ =~= spec_chain(
                                dir,
                                s,
                                sx as int,
                                sy as int,
                                ex as int,
                                ey as int,
                            ));
                        }
                        out
                    }
                }
            },
        }
    }

    /// The spec's "down" direction: windows just below the vacated
    /// rectangle, their top edge on its bottom edge, walked rightward
    /// from `start.x`; each absorbs upward, re-placed at the vacated
    /// top.  This is the highest-priority direction of the backfill.
    pub fn find_to_resize_v_down(&self, start: Point, end: Point) -> (r: Vec<
        (Point, WindowElement),
    >)
        requires
            self.wf(),
            walk_bounds(start.x as int, start.y as int, end.x as int, end.y as int),
        ensures
            r@ == spec_chain(
                Direction::Down,
                self.space.windows(),
                start.x as int,
                start.y as int,
                end.x as int,
                end.y as int,
            ),
    {
        self.walk(Direction::Down, start.x, start.y, end.x, end.y)
    }

    /// The spec's "top" direction: windows just above the vacated
    /// rectangle, their bottom edge on its top edge, walked rightward;
    /// each keeps its place and grows downward into the vacated space.
    pub fn find_to_resize_v_top(&self, start: Point, end: Point) -> (r: Vec<
        (Point, WindowElement),
    >)
        requires
            self.wf(),
            walk_bounds(start.x as int, start.y as int, end.x as int, end.y as int),
        ensures
            r@ == spec_chain(
                Direction::Top,
                self.space.windows(),
                start.x as int,
                start.y as int,
                end.x as int,
                end.y as int,
            ),
    {
        self.walk(Direction::Top, start.x, start.y, end.x, end.y)
    }

    /// The spec's "left" direction: windows to the left of the vacated
    /// rectangle, their right edge on its left edge, walked downward;
    /// each keeps its place and grows rightward.
    pub fn find_to_resize_h_left(&self, start: Point, end: Point) -> (r: Vec<
        (Point, WindowElement),
    >)
        requires
            self.wf(),
            walk_bounds(start.x as int, start.y as int, end.x as int, end.y as int),
        ensures
            r@ == spec_chain(
                Direction::Left,
                self.space.windows(),
                start.x as int,
                start.y as int,
                end.x as int,
                end.y as int,
            ),
    {
        self.walk(Direction::Left, start.x, start.y, end.x, end.y)
    }

    /// The spec's "right" direction: windows to the right of the vacated
    /// rectangle, their left edge on its right edge, walked downward;
    /// each moves left to the vacated left edge and grows.
    pub fn find_to_resize_h_right(&self, start: Point, end: Point) -> (r: Vec<
        (Point, WindowElement),
    >)
        requires
            self.wf(),
            walk_bounds(start.x as int, start.y as int, end.x as int, end.y as int),
        ensures
            r@ == spec_chain(
                Direction::Right,
                self.space.windows(),
                start.x as int,
                start.y as int,
                end.x as int,
                end.y as int,
            ),
    {
        self.walk(Direction::Right, start.x, start.y, end.x, end.y)
    }
}

} // verus!
