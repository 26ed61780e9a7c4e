//! The window-manager state: the mode controller (tile/stack and split
//! axis), the resize-pipeline and removal-backfill state machines, and the
//! aggregate that owns the registry together with those states.

use vstd::prelude::*;

use crate::geometry::{ext_point_wf, point_wf, size_wf, Point, Size, MAX_COORD};
use crate::shell::WindowElement;
use crate::space::{
    contains_handle, first_activated_idx, is_first_activated, no_activated, spec_element_under,
    spec_map, window_of, Space,
};

verus! {

/// A backend that drives the compositor supplies at least a seat name.
pub trait Backend {
    /// Name of the seat this backend provides input devices for.
    fn seat_name(&self) -> String;
}

/// Layout policy: windows tile the output, or stack freely.
#[derive(Clone, Copy, PartialEq, Eq, Structural, Debug)]
pub enum WmStatus {
    /// Windows partition the output without gaps or overlaps.
    Tile,
    /// Windows float; pointer grabs may move them.
    Stack,
}

impl WmStatus {
    /// The other mode.
    pub open spec fn spec_toggled(self) -> WmStatus {
        match self {
            WmStatus::Tile => WmStatus::Stack,
            WmStatus::Stack => WmStatus::Tile,
        }
    }

    /// Flip between tiling and stacking.  This only gates which pipelines
    /// run on later commits; it performs no immediate re-layout.
    pub fn status_change(&mut self)
        ensures
            *final(self) == old(self).spec_toggled(),
    {
        match self {
            WmStatus::Tile => {
                *self = WmStatus::Stack;
            },
            WmStatus::Stack => {
                *self = WmStatus::Tile;
            },
        }
    }
}

/// Toggling the mode twice returns it to its original value.
pub proof fn lemma_status_change_involution(s: WmStatus)
    ensures
        s.spec_toggled().spec_toggled() == s,
{
}

/// State of the resize pipeline.  At most one negotiation is in flight.
#[derive(Clone, Copy, PartialEq, Eq, Debug)]
pub enum PeddingResize {
    /// A window was mapped; its resize will be issued on its next commit.
    Resizing(u64),
    /// One window was asked to take a new size; awaiting its commit.
    ResizeFinished(u64),
    /// Two windows were asked to take new sizes after a split; awaiting
    /// their commits.
    ResizeTwoWindowFinished((u64, u64)),
    /// No negotiation is in flight.
    Stop,
}

/// State of the removal backfill.
#[derive(Clone, PartialEq, Eq, Debug)]
pub enum WindowRemoved {
    /// No removal is being resolved.
    NoState,
    /// A window vanished and left this rectangle, given by two corners,
    /// awaiting adjacency resolution.
    Region {
        /// Top-left corner of the vacated rectangle.
        pos_start: Point,
        /// Bottom-right corner of the vacated rectangle.
        pos_end: Point,
    },
    /// A neighbor chain was resized; awaiting each listed window's commit.
    PeddingMutiResizeFinished(Vec<u64>),
}

/// Axis used when a new window splits the activated one while tiling.
#[derive(Clone, Copy, PartialEq, Eq, Structural, Debug)]
pub enum SplitState {
    /// Split along the horizontal axis: the new window goes to the right.
    H,
    /// Split along the vertical axis: the new window goes to the bottom.
    V,
}

/// Visual hint sent with a configure when the split axis is recorded.
#[derive(Clone, Copy, PartialEq, Eq, Structural, Debug)]
pub enum TileHint {
    /// The activated window will keep the left side.
    TiledRight,
    /// The activated window will keep the top side.
    TiledBottom,
}

/// One pending configure for a client: the proposed size, if any, and the
/// state of the "resizing" flag the client should draw with.
#[derive(Clone, Copy, PartialEq, Eq, Debug)]
pub struct ConfigureRequest {
    /// Handle of the window the configure is for.
    pub window: u64,
    /// Proposed size; nothing when only states change.
    pub size: Option<Size>,
    /// Whether the window should consider itself mid-resize.
    pub resizing: bool,
}

/// The vacated-region corners are ordered, bounded, and span at most the
/// stored maximum in each axis.
pub open spec fn region_wf(pos_start: Point, pos_end: Point) -> bool {
    &&& ext_point_wf(pos_start)
    &&& ext_point_wf(pos_end)
    &&& pos_start.x <= pos_end.x && pos_end.x - pos_start.x <= MAX_COORD as int
    &&& pos_start.y <= pos_end.y && pos_end.y - pos_start.y <= MAX_COORD as int
}

/// The whole window-manager state: the registry plus the mode flags and
/// the two state machines, owned by the event loop and handed by reference
/// into every handler.
pub struct FlyJa {
    /// The window registry.
    pub space: Space,
    /// Resize-pipeline state.
    pub reseize_state: PeddingResize,
    /// Layout mode.
    pub wmstatus: WmStatus,
    /// Split axis for the next insertion while tiling.
    pub splitstate: SplitState,
    /// Removal-backfill state.
    pub window_remove_state: WindowRemoved,
    /// Size of the output the windows are laid out on.
    pub output_size: Size,
    /// Last known pointer position in logical coordinates.
    pub pointer_location: Point,
}

impl FlyJa {
    /// Registry well-formed, output and pointer bounded, and a recorded
    /// vacated region bounded as well.
    pub open spec fn wf(self) -> bool {
        &&& self.space.wf()
        &&& size_wf(self.output_size)
        &&& point_wf(self.pointer_location)
        &&& self.window_remove_state matches WindowRemoved::Region { pos_start, pos_end }
            ==> region_wf(pos_start, pos_end)
    }

    /// All fields except the registry and the pipeline states, compared;
    /// used by contracts that leave the rest of the state alone.
    pub open spec fn same_flags(self, other: FlyJa) -> bool {
        &&& self.wmstatus == other.wmstatus
        &&& self.splitstate == other.splitstate
        &&& self.output_size == other.output_size
        &&& self.pointer_location == other.pointer_location
    }

    /// Nothing changed: registry content, both state machines, and the
    /// mode flags all agree.
    pub open spec fn same_core(self, other: FlyJa) -> bool {
        &&& self.space.windows() == other.space.windows()
        &&& self.reseize_state == other.reseize_state
        &&& self.window_remove_state == other.window_remove_state
        &&& self.same_flags(other)
    }

    /// Fresh state: empty registry, tiling mode, horizontal split axis,
    /// both state machines idle.
    pub fn init(output_size: Size) -> (s: FlyJa)
        requires
            size_wf(output_size),
        ensures
            s.space.windows() == Seq::<WindowElement>::empty(),
            s.reseize_state == PeddingResize::Stop,
            s.wmstatus == WmStatus::Tile,
            s.splitstate == SplitState::H,
            s.window_remove_state == WindowRemoved::NoState,
            s.output_size == output_size,
            s.pointer_location == (Point { x: 0, y: 0 }),
            s.wf(),
    {
        FlyJa {
            space: Space::new(),
            reseize_state: PeddingResize::Stop,
            wmstatus: WmStatus::Tile,
            splitstate: SplitState::H,
            window_remove_state: WindowRemoved::NoState,
            output_size,
            pointer_location: Point { x: 0, y: 0 },
        }
    }

    /// Record the pointer position reported by the input backend.
    pub fn set_pointer_location(&mut self, p: Point)
        requires
            old(self).wf(),
            point_wf(p),
        ensures
            *final(self) == (FlyJa { pointer_location: p, ..*old(self) }),
            final(self).wf(),
    {
        self.pointer_location = p;
    }

    /// Record a new output size, as reported when the output mode changes.
    pub fn set_output_size(&mut self, s: Size)
        requires
            old(self).wf(),
            size_wf(s),
        ensures
            *final(self) == (FlyJa { output_size: s, ..*old(self) }),
            final(self).wf(),
    {
        self.output_size = s;
    }

    /// Record the split axis.  If a window is activated, it is the one a
    /// later split will halve, and it should be told which side it will
    /// keep: the returned pair names it and the visual hint to send with a
    /// configure.  No geometry changes here.
    pub fn set_split_state(&mut self, state: SplitState) -> (r: Option<(u64, TileHint)>)
        requires
            old(self).wf(),
        ensures
            final(self).splitstate == state,
            final(self).space.windows() == old(self).space.windows(),
            final(self).reseize_state == old(self).reseize_state,
            final(self).wmstatus == old(self).wmstatus,
            final(self).window_remove_state == old(self).window_remove_state,
            final(self).output_size == old(self).output_size,
            final(self).pointer_location == old(self).pointer_location,
            final(self).wf(),
            match r {
                Some((h, hint)) => {
                    &&& is_first_activated(
                        old(self).space.windows(),
                        first_activated_idx(old(self).space.windows()),
                    )
                    &&& h == old(self).space.windows()[first_activated_idx(
                        old(self).space.windows(),
                    )].handle
                    &&& hint == (match state {
                        SplitState::H => TileHint::TiledRight,
                        SplitState::V => TileHint::TiledBottom,
                    })
                },
                None => no_activated(old(self).space.windows()),
            },
    {
        self.splitstate = state;
        match self.space.find_activated() {
            Some(i) => {
                proof {
                    let s = self.space.windows();
                    assert(is_first_activated(s, i as int));
                    let i0 = first_activated_idx(s);
                    assert(is_first_activated(s, i0));
                    if i0 < i as int {
                        assert(!s[i0].activated);
                    } else if (i as int) < i0 {
                        assert(!s[i as int].activated);
                    }
                    assert(i0 == i as int);
                }
                let h = self.space.elements[i].handle;
                let hint = match state {
                    SplitState::H => TileHint::TiledRight,
                    SplitState::V => TileHint::TiledBottom,
                };
                Some((h, hint))
            },
            None => None,
        }
    }

    /// Window registered for this surface handle, if any.
    pub fn window_for_surface(&self, surface: u64) -> (r: Option<WindowElement>)
        requires
            self.wf(),
        ensures
            match r {
                Some(w) => contains_handle(self.space.windows(), surface) && w == window_of(
                    self.space.windows(),
                    surface,
                ),
                None => !contains_handle(self.space.windows(), surface),
            },
    {
        self.space.find(surface)
    }

    /// Topmost window under the pointer, with its position; nothing when
    /// the pointer is over no window.
    pub fn surface_under_pointer(&self) -> (r: Option<(u64, Point)>)
        requires
            self.wf(),
        ensures
            match spec_element_under(
                self.space.windows(),
                self.pointer_location.x as int,
                self.pointer_location.y as int,
            ) {
                Some(h) => r matches Some((rh, rp)) && rh == h && contains_handle(
                    self.space.windows(),
                    h,
                ) && rp == window_of(self.space.windows(), h).loc,
                None => r is None,
            },
    {
        match self.space.element_under(self.pointer_location) {
            Some(h) => {
                proof {
                    lemma_element_under_contains(
                        self.space.windows(),
                        self.pointer_location.x as int,
                        self.pointer_location.y as int,
                    );
                }
                match self.space.element_location(h) {
                    Some(p) => Some((h, p)),
                    None => None,
                }
            },
            None => None,
        }
    }

    /// A bare configure for the bottom-most window, used to publish state
    /// that changed without any geometry.
    pub fn publish_commit(&self) -> (r: Option<ConfigureRequest>)
        ensures
            match r {
                Some(c) => self.space.windows().len() > 0 && c == (ConfigureRequest {
                    window: self.space.windows()[0].handle,
                    size: None,
                    resizing: false,
                }),
                None => self.space.windows().len() == 0,
            },
    {
        match self.space.first_handle() {
            Some(h) => Some(ConfigureRequest { window: h, size: None, resizing: false }),
            None => None,
        }
    }

    /// Grant or discard an activation request for a surface: a request
    /// whose token is younger than ten seconds raises the window; an older
    /// one is discarded.  Reports whether the wish was granted.
    pub fn request_activation(&mut self, surface: u64, token_age_secs: u64) -> (granted: bool)
        requires
            old(self).wf(),
        ensures
            granted == (token_age_secs < 10),
            final(self).wf(),
            final(self).same_flags(*old(self)),
            final(self).reseize_state == old(self).reseize_state,
            final(self).window_remove_state == old(self).window_remove_state,
            !granted ==> final(self).space.windows() == old(self).space.windows(),
            granted && contains_handle(old(self).space.windows(), surface)
                ==> final(self).space.windows() == spec_map(
                old(self).space.windows(),
                window_of(old(self).space.windows(), surface),
                window_of(old(self).space.windows(), surface).loc,
                true,
            ),
            granted && !contains_handle(old(self).space.windows(), surface)
                ==> final(self).space.windows() == old(self).space.windows(),
    {
        if token_age_secs < 10 {
            self.space.raise_element(surface, true);
            true
        } else {
            false
        }
    }
}

/// The topmost hit of [`spec_element_under`] is a registered window whose
/// acknowledged rectangle contains the point.
pub proof fn lemma_element_under_contains(s: Seq<WindowElement>, px: int, py: int)
    ensures
        spec_element_under(s, px, py) matches Some(h) ==> contains_handle(s, h),
    decreases s.len(),
{
    if s.len() > 0 {
        if crate::geometry::rect_contains(s.last().acked_rect(), px, py) {
            assert(s[s.len() - 1].handle == s.last().handle);
        } else {
            lemma_element_under_contains(s.drop_last(), px, py);
            match spec_element_under(s, px, py) {
                Some(h) => {
                    let i = choose|i: int|
                        0 <= i < s.drop_last().len() && s.drop_last()[i].handle == h;
                    assert(s[i].handle == h);
                },
                None => {},
            }
        }
    }
}

} // verus!
