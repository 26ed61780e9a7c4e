//! Shell-lifecycle and request handling: new and destroyed top-level
//! surfaces, the initial-commit handshake, and the start of interactive
//! move and resize grabs.

use vstd::prelude::*;

use crate::backfill::backfill_windows_post;
use crate::geometry::{Point, Size, MAX_COORD};
use crate::grab::move_grab::MoveSurfaceGrab;
use crate::grab::resize_grab::{ResizeSurfaceGrab, ResizeType};
use crate::grab::GrabStartData;
use crate::shell::WindowElement;
use crate::space::{contains_handle, spec_map, spec_remove_handle, window_of};
use crate::state::{ConfigureRequest, FlyJa, PeddingResize, WindowRemoved, WmStatus};

verus! {

/// Which edge of a window an interactive resize drags.
#[derive(Clone, Copy, PartialEq, Eq, Structural, Debug)]
pub enum ResizeEdge {
    /// No edge; such a request resolves to nothing.
    NoEdge,
    /// The top edge.
    Top,
    /// The bottom edge.
    Bottom,
    /// The left edge.
    Left,
    /// The right edge.
    Right,
    /// The top-left corner.
    TopLeft,
    /// The top-right corner.
    TopRight,
    /// The bottom-left corner.
    BottomLeft,
    /// The bottom-right corner.
    BottomRight,
}

/// Side of the grabbed window on which a neighbor is looked for.
#[derive(Clone, Copy, PartialEq, Eq, Structural, Debug)]
pub enum EdgeSide {
    /// A neighbor whose right edge meets the window's left edge.
    Left,
    /// A neighbor whose left edge meets the window's right edge.
    Right,
    /// A neighbor whose bottom edge meets the window's top edge.
    Top,
    /// A neighbor whose top edge meets the window's bottom edge.
    Bottom,
}

/// The candidate touches the window's dragged edge, given the window's
/// rectangle `(sx, sy)`..`(ex, ey)`; edges must meet exactly here.
pub open spec fn edge_cond(
    edge: EdgeSide,
    w: WindowElement,
    sx: int,
    sy: int,
    ex: int,
    ey: int,
) -> bool {
    let g = w.spec_geometry().size;
    match edge {
        EdgeSide::Left => w.loc.x + g.w == sx && w.loc.y <= sy && w.loc.y + g.h > sy,
        EdgeSide::Right => w.loc.x == ex && w.loc.y <= sy && w.loc.y + g.h > sy,
        EdgeSide::Top => w.loc.y + g.h == sy && w.loc.x <= sx && w.loc.x + g.w > sx,
        EdgeSide::Bottom => w.loc.y == ey && w.loc.x <= sx && w.loc.x + g.w > sx,
    }
}

/// The candidate spans the window's dragged edge completely.
pub open spec fn edge_span(
    edge: EdgeSide,
    w: WindowElement,
    sx: int,
    sy: int,
    ex: int,
    ey: int,
) -> bool {
    let g = w.spec_geometry().size;
    match edge {
        EdgeSide::Left | EdgeSide::Right => w.loc.y == sy && w.loc.y + g.h == ey,
        EdgeSide::Top | EdgeSide::Bottom => w.loc.x == sx && w.loc.x + g.w == ex,
    }
}

/// `j` is the first registry index whose window touches the dragged edge.
pub open spec fn is_first_edge(
    edge: EdgeSide,
    s: Seq<WindowElement>,
    sx: int,
    sy: int,
    ex: int,
    ey: int,
    j: int,
) -> bool {
    &&& 0 <= j < s.len()
    &&& edge_cond(edge, s[j], sx, sy, ex, ey)
    &&& forall|k: int| 0 <= k < j ==> !edge_cond(edge, s[k], sx, sy, ex, ey)
}

/// Neighbor resolution for one dragged edge: the first window touching
/// the edge, provided it spans the edge completely, paired with the
/// grabbed window; chains of more than one neighbor are not resolved.
pub open spec fn edge_result(
    edge: EdgeSide,
    s: Seq<WindowElement>,
    window: WindowElement,
    sx: int,
    sy: int,
    ex: int,
    ey: int,
) -> Option<(Seq<WindowElement>, Seq<WindowElement>)> {
    if exists|j: int| is_first_edge(edge, s, sx, sy, ex, ey, j) {
        let j = choose|j: int| is_first_edge(edge, s, sx, sy, ex, ey, j);
        if edge_span(edge, s[j], sx, sy, ex, ey) {
            Some((seq![s[j]], seq![window]))
        } else {
            None
        }
    } else {
        None
    }
}

/// Lists an interactive resize would act on: the neighbor chain on the
/// far side of the dragged edge, the grabbed window, and the axis; or
/// nothing, when the request cannot be resolved.
pub open spec fn resize_request_spec(
    s: Seq<WindowElement>,
    surface: u64,
    has_grab: bool,
    edges: ResizeEdge,
) -> Option<(Seq<WindowElement>, Seq<WindowElement>, ResizeType)> {
    if !has_grab || !contains_handle(s, surface) {
        None
    } else {
        let w = window_of(s, surface);
        let g = w.spec_geometry().size;
        let sx = w.loc.x as int;
        let sy = w.loc.y as int;
        let ex = w.loc.x + g.w;
        let ey = w.loc.y + g.h;
        match edges {
            ResizeEdge::Left | ResizeEdge::TopLeft | ResizeEdge::BottomLeft => pack_lists(
                edge_result(EdgeSide::Left, s, w, sx, sy, ex, ey),
                ResizeType::LR,
            ),
            ResizeEdge::Right | ResizeEdge::TopRight | ResizeEdge::BottomRight => pack_lists(
                edge_result(EdgeSide::Right, s, w, sx, sy, ex, ey),
                ResizeType::LR,
            ),
            ResizeEdge::Top => pack_lists(
                edge_result(EdgeSide::Top, s, w, sx, sy, ex, ey),
                ResizeType::HV,
            ),
            ResizeEdge::Bottom => pack_lists(
                edge_result(EdgeSide::Bottom, s, w, sx, sy, ex, ey),
                ResizeType::HV,
            ),
            ResizeEdge::NoEdge => None,
        }
    }
}

/// Attach the resize axis to a resolved neighbor pair.
pub open spec fn pack_lists(
    o: Option<(Seq<WindowElement>, Seq<WindowElement>)>,
    t: ResizeType,
) -> Option<(Seq<WindowElement>, Seq<WindowElement>, ResizeType)> {
    match o {
        Some(p) => Some((p.0, p.1, t)),
        None => None,
    }
}

/// Rectangle a destroyed window vacates: its pending target rectangle if
/// a resize was in flight for it, else its acknowledged rectangle.
pub open spec fn vacated_rect(w: WindowElement) -> (Point, Point) {
    match w.resize_size {
        Some((s, e)) => (s, e),
        None => (
            w.loc,
            Point { x: (w.loc.x + w.size.w) as i32, y: (w.loc.y + w.size.h) as i32 },
        ),
    }
}

/// A grab start is valid when the pointer currently holds a grab for the
/// triggering serial and the grab's focused surface belongs to the same
/// client as the requesting surface; the captured pointer state is then
/// handed on.
pub fn check_grab(has_grab: bool, focus_same_client: bool, start_location: Point) -> (r: Option<
    GrabStartData,
>)
    ensures
        r == (if has_grab && focus_same_client {
            Some(GrabStartData { location: start_location })
        } else {
            None::<GrabStartData>
        }),
{
    if has_grab && focus_same_client {
        Some(GrabStartData { location: start_location })
    } else {
        None
    }
}

impl FlyJa {
    /// A new top-level surface: register its window at the provisional
    /// origin, on top of the z-order.  While tiling with an idle
    /// pipeline, the pipeline starts awaiting the window's first commit;
    /// a busy pipeline is never preempted.
    pub fn new_toplevel(&mut self, surface: u64)
        requires
            old(self).wf(),
        ensures
            final(self).wf(),
            final(self).space.windows() == spec_map(
                old(self).space.windows(),
                (WindowElement {
                    handle: surface,
                    loc: Point { x: 0, y: 0 },
                    size: Size { w: 0, h: 0 },
                    resize_size: None,
                    activated: false,
                }),
                Point { x: 0, y: 0 },
                false,
            ),
            final(self).reseize_state == (if old(self).wmstatus == WmStatus::Tile && old(
                self,
            ).reseize_state is Stop {
                PeddingResize::Resizing(surface)
            } else {
                old(self).reseize_state
            }),
            final(self).window_remove_state == old(self).window_remove_state,
            final(self).same_flags(*old(self)),
    {
        let w = WindowElement::new(surface);
        self.space.map_element(w, Point { x: 0, y: 0 }, false);
        let start = matches!(self.wmstatus, WmStatus::Tile) && matches!(
            self.reseize_state,
            PeddingResize::Stop,
        );
        if start {
            self.reseize_state = PeddingResize::Resizing(surface);
        }
    }

    /// A top-level surface went away: unregister its window, record the
    /// rectangle it vacated, and resolve the backfill for it at once.
    /// An unknown surface changes nothing.
    pub fn toplevel_destroyed(&mut self, surface: u64) -> (cfgs: Vec<ConfigureRequest>)
        requires
            old(self).wf(),
        ensures
            final(self).wf(),
            final(self).reseize_state == old(self).reseize_state,
            final(self).same_flags(*old(self)),
            if contains_handle(old(self).space.windows(), surface) {
                let vac = vacated_rect(window_of(old(self).space.windows(), surface));
                backfill_windows_post(
                    spec_remove_handle(old(self).space.windows(), surface),
                    vac.0,
                    vac.1,
                    final(self).space.windows(),
                    final(self).window_remove_state,
                    cfgs@,
                )
            } else {
                final(self).space.windows() == old(self).space.windows()
                    && final(self).window_remove_state == old(self).window_remove_state
                    && cfgs@.len() == 0
            },
    {
        match self.space.find(surface) {
            Some(w) => {
                proof {
                    assert(w.wf());
                }
                let (ps, pe) = match w.resize_size {
                    Some((s, e)) => (s, e),
                    None => (
                        w.loc,
                        Point { x: w.loc.x + w.size.w, y: w.loc.y + w.size.h },
                    ),
                };
                self.space.remove_element(surface);
                self.window_remove_state = WindowRemoved::Region { pos_start: ps, pos_end: pe };
                self.handle_window_removed_mul()
            },
            None => Vec::new(),
        }
    }

    /// A window's surface committed.  On the very first commit the
    /// initial configure is owed: it goes out bare, and in stacking mode
    /// the pipeline records the window for the centering step.  Later
    /// commits owe nothing here.  Unknown surfaces are a no-op.
    pub fn handle_window_commit(&mut self, surface: u64, initial_configure_sent: bool) -> (r:
        Option<ConfigureRequest>)
        requires
            old(self).wf(),
        ensures
            final(self).wf(),
            final(self).space.windows() == old(self).space.windows(),
            final(self).window_remove_state == old(self).window_remove_state,
            final(self).same_flags(*old(self)),
            if contains_handle(old(self).space.windows(), surface) && !initial_configure_sent {
                &&& r == Some(ConfigureRequest { window: surface, size: None, resizing: false })
                &&& final(self).reseize_state == (if old(self).wmstatus == WmStatus::Stack {
                    PeddingResize::ResizeFinished(surface)
                } else {
                    old(self).reseize_state
                })
            } else {
                r is None && final(self).reseize_state == old(self).reseize_state
            },
    {
        match self.space.find_index(surface) {
            Some(_) => {
                if !initial_configure_sent {
                    if matches!(self.wmstatus, WmStatus::Stack) {
                        self.reseize_state = PeddingResize::ResizeFinished(surface);
                    }
                    Some(ConfigureRequest { window: surface, size: None, resizing: false })
                } else {
                    None
                }
            },
            None => None,
        }
    }

    /// Begin an interactive move: only outside tiling mode (tiling owns
    /// positions), only with a valid pointer grab, and only for a
    /// registered window.  The grab captures the pointer position and
    /// the window's current position.
    pub fn move_request(&self, surface: u64, grab: Option<GrabStartData>) -> (r: Option<
        MoveSurfaceGrab,
    >)
        requires
            self.wf(),
        ensures
            match r {
                Some(g) => {
                    &&& self.wmstatus == WmStatus::Stack
                    &&& grab == Some(g.start_data)
                    &&& contains_handle(self.space.windows(), surface)
                    &&& g.window == surface
                    &&& g.initial_window_location == window_of(
                        self.space.windows(),
                        surface,
                    ).loc
                },
                None => self.wmstatus == WmStatus::Tile || grab is None || !contains_handle(
                    self.space.windows(),
                    surface,
                ),
            },
    {
        if matches!(self.wmstatus, WmStatus::Tile) {
            return None;
        }
        let start_data = match grab {
            Some(sd) => sd,
            None => {
                return None;
            },
        };
        match self.space.element_location(surface) {
            Some(loc) => Some(
                MoveSurfaceGrab {
                    start_data,
                    window: surface,
                    initial_window_location: loc,
                },
            ),
            None => None,
        }
    }

    /// Begin an interactive resize: with a valid pointer grab and a
    /// registered window, resolve the dragged edge to the neighbor on
    /// its far side; see [`resize_request_spec`].  The resolution covers
    /// a single spanning neighbor; anything else yields nothing.
    pub fn resize_request(&self, surface: u64, grab: Option<GrabStartData>, edges: ResizeEdge)
        -> (r: Option<ResizeSurfaceGrab>)
        requires
            self.wf(),
        ensures
            match resize_request_spec(self.space.windows(), surface, grab is Some, edges) {
                Some(trip) => {
                    &&& r matches Some(g)
                    &&& grab == Some(g.start_data)
                    &&& g.pined_elements@ == trip.0
                    &&& g.moved_elements@ == trip.1
                    &&& g.resize_type == trip.2
                },
                None => r is None,
            },
    {
        let start_data = match grab {
            Some(sd) => sd,
            None => {
                return None;
            },
        };
        let w = match self.space.find(surface) {
            Some(w) => w,
            None => {
                return None;
            },
        };
        proof {
            assert(w.wf());
        }
        let g = w.geometry().size;
        let sx = w.loc.x;
        let sy = w.loc.y;
        let ex = w.loc.x + g.w;
        let ey = w.loc.y + g.h;
        let looked: Option<(Vec<WindowElement>, Vec<WindowElement>, ResizeType)> = match edges {
            ResizeEdge::Left | ResizeEdge::TopLeft | ResizeEdge::BottomLeft => {
                match self.edge_neighbor(EdgeSide::Left, w, sx, sy, ex, ey) {
                    Some((a, b)) => Some((a, b, ResizeType::LR)),
                    None => None,
                }
            },
            ResizeEdge::Right | ResizeEdge::TopRight | ResizeEdge::BottomRight => {
                match self.edge_neighbor(EdgeSide::Right, w, sx, sy, ex, ey) {
                    Some((a, b)) => Some((a, b, ResizeType::LR)),
                    None => None,
                }
            },
            ResizeEdge::Top => {
                match self.edge_neighbor(EdgeSide::Top, w, sx, sy, ex, ey) {
                    Some((a, b)) => Some((a, b, ResizeType::HV)),
                    None => None,
                }
            },
            ResizeEdge::Bottom => {
                match self.edge_neighbor(EdgeSide::Bottom, w, sx, sy, ex, ey) {
                    Some((a, b)) => Some((a, b, ResizeType::HV)),
                    None => None,
                }
            },
            ResizeEdge::NoEdge => None,
        };
        match looked {
            Some((pined, moved, resize_type)) => Some(
                ResizeSurfaceGrab { start_data, pined_elements: pined, moved_elements: moved, resize_type },
            ),
            None => None,
        }
    }

    /// Neighbor lookup for one dragged edge; mirrors [`edge_result`].
    fn edge_neighbor(
        &self,
        edge: EdgeSide,
        window: WindowElement,
        sx: i32,
        sy: i32,
        ex: i32,
        ey: i32,
    ) -> (r: Option<(Vec<WindowElement>, Vec<WindowElement>)>)
        requires
            self.wf(),
            -4 * (MAX_COORD as int) <= sx <= 4 * (MAX_COORD as int),
            -4 * (MAX_COORD as int) <= sy <= 4 * (MAX_COORD as int),
            -4 * (MAX_COORD as int) <= ex <= 4 * (MAX_COORD as int),
            -4 * (MAX_COORD as int) <= ey <= 4 * (MAX_COORD as int),
        ensures
            (match r {
                Some(p) => Some((p.0@, p.1@)),
                None => None::<(Seq<WindowElement>, Seq<WindowElement>)>,
            }) == edge_result(
                edge,
                self.space.windows(),
                window,
                sx as int,
                sy as int,
                ex as int,
                ey as int,
            ),
    {
        let ghost s = self.space.windows();
        let n = self.space.elements.len();
        let mut i: usize = 0;
        let mut found: Option<usize> = None;
        while i < n
            invariant
                self.wf(),
                -4 * (MAX_COORD as int) <= sx <= 4 * (MAX_COORD as int),
                -4 * (MAX_COORD as int) <= sy <= 4 * (MAX_COORD as int),
                -4 * (MAX_COORD as int) <= ex <= 4 * (MAX_COORD as int),
                -4 * (MAX_COORD as int) <= ey <= 4 * (MAX_COORD as int),
                n == s.len(),
                s == self.space.windows(),
                i <= n,
                match found {
                    Some(j) => is_first_edge(edge, s, sx as int, sy as int, ex as int, ey as int,
                    j as int) && j < n,
                    None => forall|k: int|
                        0 <= k < i ==> !edge_cond(edge, s[k], sx as int, sy as int, ex as int,
                        ey as int),
                },
            decreases n - i,
        {
            proof {
                assert(s[i as int].wf());
            }
            if found.is_none() {
                let c = self.space.elements[i];
                let cg = c.geometry().size;
                let hit = match edge {
                    EdgeSide::Left => c.loc.x + cg.w == sx && c.loc.y <= sy && c.loc.y + cg.h
                        > sy,
                    EdgeSide::Right => c.loc.x == ex && c.loc.y <= sy && c.loc.y + cg.h > sy,
                    EdgeSide::Top => c.loc.y + cg.h == sy && c.loc.x <= sx && c.loc.x + cg.w
                        > sx,
                    EdgeSide::Bottom => c.loc.y == ey && c.loc.x <= sx && c.loc.x + cg.w > sx,
                };
                if hit {
                    found = Some(i);
                }
            }
            i = i + 1;
        }
        match found {
            None => {
                proof {
                    assert(forall|j: int|
                        !is_first_edge(edge, s, sx as int, sy as int, ex as int, ey as int, j));
                }
                None
            },
            Some(j) => {
                proof {
                    let j0 = choose|j0: int|
                        is_first_edge(edge, s, sx as int, sy as int, ex as int, ey as int, j0);
                    assert(is_first_edge(edge, s, sx as int, sy as int, ex as int, ey as int,
                    j as int));
                    if j0 < j as int {
                        assert(!edge_cond(edge, s[j0], sx as int, sy as int, ex as int,
                        ey as int));
                    } else if (j as int) < j0 {
                        assert(!edge_cond(edge, s[j as int], sx as int, sy as int, ex as int,
                        ey as int));
                    }
                    assert(j0 == j as int);
                    assert(s[j as int].wf());
                }
                let nb = self.space.elements[j];
                let ng = nb.geometry().size;
                let spans = match edge {
                    EdgeSide::Left | EdgeSide::Right => nb.loc.y == sy && nb.loc.y + ng.h == ey,
                    EdgeSide::Top | EdgeSide::Bottom => nb.loc.x == sx && nb.loc.x + ng.w == ex,
                };
                if spans {
                    let mut a: Vec<WindowElement> = Vec::new();
                    a.push(nb);
                    let mut b: Vec<WindowElement> = Vec::new();
                    b.push(window);
                    proof {
                        assert(a@ =~= seq![s[j as int]]);
                        assert(b@ =~= seq![window]);
                    }
                    Some((a, b))
                } else {
                    None
                }
            },
        }
    }
}

} // verus!
