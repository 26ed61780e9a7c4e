//! The resize pipeline: the two-turn handshake that gives a lone window
//! the whole output, or splits the activated window with a newcomer along
//! the recorded axis, and the completion steps that commit the negotiated
//! sizes and clear the "resizing" flag once the clients have acknowledged.

use vstd::prelude::*;

use crate::geometry::{point_wf, Point, Rect, Size, MAX_COORD};
use crate::shell::WindowElement;
use crate::space::{
    contains_handle, first_activated_idx, is_first_activated, no_activated, spec_commit_pending,
    spec_map, spec_set_pending, window_of, with_pending,
};
use crate::state::{ConfigureRequest, FlyJa, PeddingResize, SplitState, WmStatus};

verus! {

/// Size the activated window keeps after a split along this axis; an odd
/// dimension halves rounding down.
pub open spec fn split_a_size(a: WindowElement, st: SplitState) -> Size {
    let g = a.spec_geometry().size;
    match st {
        SplitState::H => Size { w: (g.w / 2) as i32, h: g.h },
        SplitState::V => Size { w: g.w, h: (g.h / 2) as i32 },
    }
}

/// Far corner of the rectangle the activated window keeps after a split.
pub open spec fn split_a_end(a: WindowElement, st: SplitState) -> Point {
    let g = a.spec_geometry().size;
    match st {
        SplitState::H => Point { x: (a.loc.x + g.w / 2) as i32, y: (a.loc.y + g.h) as i32 },
        SplitState::V => Point { x: (a.loc.x + g.w) as i32, y: (a.loc.y + g.h / 2) as i32 },
    }
}

/// Rectangle handed to the new window: exactly the half the activated
/// window vacates, so the two halves together are its old rectangle.
pub open spec fn split_b_rect(a: WindowElement, st: SplitState) -> Rect {
    let g = a.spec_geometry().size;
    match st {
        SplitState::H => Rect {
            loc: Point { x: (a.loc.x + g.w / 2) as i32, y: a.loc.y },
            size: Size { w: (g.w - g.w / 2) as i32, h: g.h },
        },
        SplitState::V => Rect {
            loc: Point { x: a.loc.x, y: (a.loc.y + g.h / 2) as i32 },
            size: Size { w: g.w, h: (g.h - g.h / 2) as i32 },
        },
    }
}

/// Outcome of the single-window step: the pipeline advances to awaiting
/// the window's commit; if the window is registered, its pending rectangle
/// becomes the full output at its position, it is raised and activated,
/// and one configure proposing the output size with the resizing flag
/// goes out.  An unknown surface changes no geometry and sends nothing.
pub open spec fn one_element_post(
    pre: FlyJa,
    post: FlyJa,
    cfgs: Seq<ConfigureRequest>,
    surface: u64,
) -> bool {
    &&& post.reseize_state == PeddingResize::ResizeFinished(surface)
    &&& post.window_remove_state == pre.window_remove_state
    &&& post.same_flags(pre)
    &&& if contains_handle(pre.space.windows(), surface) {
        let w = window_of(pre.space.windows(), surface);
        let end = Point {
            x: (w.loc.x + pre.output_size.w) as i32,
            y: (w.loc.y + pre.output_size.h) as i32,
        };
        &&& post.space.windows() == spec_map(
            pre.space.windows(),
            with_pending(w, w.loc, end),
            w.loc,
            true,
        )
        &&& cfgs == seq![
            ConfigureRequest { window: surface, size: Some(pre.output_size), resizing: true },
        ]
    } else {
        post.space.windows() == pre.space.windows() && cfgs.len() == 0
    }
}

/// Outcome of the split step.  Without an activated window, or when the
/// derived position of the new half would leave the coordinate range, no
/// geometry changes and the pipeline falls back to the single completion
/// state.  Otherwise the activated window's pending rectangle shrinks to
/// its kept half and a configure with the halved size goes out; then, if
/// the committing surface is registered, its window takes the vacated
/// half as pending rectangle, is mapped there raised and activated, a
/// second configure goes out, and the pipeline awaits both commits.
pub open spec fn split_post(
    pre: FlyJa,
    post: FlyJa,
    cfgs: Seq<ConfigureRequest>,
    surface: u64,
) -> bool {
    &&& post.window_remove_state == pre.window_remove_state
    &&& post.same_flags(pre)
    &&& if no_activated(pre.space.windows()) {
        &&& post.space.windows() == pre.space.windows()
        &&& post.reseize_state == PeddingResize::ResizeFinished(surface)
        &&& cfgs.len() == 0
    } else {
        let a = pre.space.windows()[first_activated_idx(pre.space.windows())];
        let brect = split_b_rect(a, pre.splitstate);
        if !point_wf(brect.loc) {
            &&& post.space.windows() == pre.space.windows()
            &&& post.reseize_state == PeddingResize::ResizeFinished(surface)
            &&& cfgs.len() == 0
        } else {
            let s1 = spec_set_pending(
                pre.space.windows(),
                a.handle,
                a.loc,
                split_a_end(a, pre.splitstate),
            );
            let cfg_a = ConfigureRequest {
                window: a.handle,
                size: Some(split_a_size(a, pre.splitstate)),
                resizing: true,
            };
            if contains_handle(pre.space.windows(), surface) {
                let b = window_of(s1, surface);
                let bend = Point {
                    x: (brect.loc.x + brect.size.w) as i32,
                    y: (brect.loc.y + brect.size.h) as i32,
                };
                &&& post.space.windows() == spec_map(
                    s1,
                    with_pending(b, brect.loc, bend),
                    brect.loc,
                    true,
                )
                &&& post.reseize_state == PeddingResize::ResizeTwoWindowFinished(
                    (a.handle, surface),
                )
                &&& cfgs == seq![
                    cfg_a,
                    ConfigureRequest { window: surface, size: Some(brect.size), resizing: true },
                ]
            } else {
                &&& post.space.windows() == s1
                &&& post.reseize_state == pre.reseize_state
                &&& cfgs == seq![cfg_a]
            }
        }
    }
}

impl FlyJa {
    /// Single-window completion: ask the committing window to take the
    /// whole output; see [`one_element_post`].
    fn handle_one_element(&mut self, surface: u64) -> (cfgs: Vec<ConfigureRequest>)
        requires
            old(self).wf(),
        ensures
            final(self).wf(),
            one_element_post(*old(self), *final(self), cfgs@, surface),
    {
        self.reseize_state = PeddingResize::ResizeFinished(surface);
        let mut cfgs: Vec<ConfigureRequest> = Vec::new();
        match self.space.find(surface) {
            Some(w) => {
                proof {
                    assert(w.wf());
                }
                let end = Point {
                    x: w.loc.x + self.output_size.w,
                    y: w.loc.y + self.output_size.h,
                };
                let w2 = w.set_resize_size((w.loc, end));
                self.space.map_element(w2, w.loc, true);
                cfgs.push(
                    ConfigureRequest {
                        window: surface,
                        size: Some(self.output_size),
                        resizing: true,
                    },
                );
                proof {
                    assert(cfgs@ =~= seq![
                        ConfigureRequest {
                            window: surface,
                            size: Some(old(self).output_size),
                            resizing: true,
                        },
                    ]);
                }
            },
            None => {},
        }
        cfgs
    }

    /// Split step: halve the activated window along the recorded axis and
    /// hand the vacated half to the committing window; see [`split_post`].
    fn handle_split_element(&mut self, surface: u64) -> (cfgs: Vec<ConfigureRequest>)
        requires
            old(self).wf(),
        ensures
            final(self).wf(),
            split_post(*old(self), *final(self), cfgs@, surface),
    {
        let mut cfgs: Vec<ConfigureRequest> = Vec::new();
        let act = self.space.find_activated();
        match act {
            None => {
                self.reseize_state = PeddingResize::ResizeFinished(surface);
                return cfgs;
            },
            Some(i) => {
                proof {
                    assert(is_first_activated(self.space.windows(), i as int));
                    let i0 = first_activated_idx(self.space.windows());
                    assert(is_first_activated(self.space.windows(), i0));
                    if i0 < i as int {
                        assert(!self.space.windows()[i0].activated);
                    } else if (i as int) < i0 {
                        assert(!self.space.windows()[i as int].activated);
                    }
                    assert(i0 == i as int);
                    assert(self.space.windows()[i as int].wf());
                }
                let a = self.space.elements[i];
                let g = a.geometry().size;
                let (a_end, a_size, b_loc, b_size) = match self.splitstate {
                    SplitState::H => (
                        Point { x: a.loc.x + g.w / 2, y: a.loc.y + g.h },
                        Size { w: g.w / 2, h: g.h },
                        Point { x: a.loc.x + g.w / 2, y: a.loc.y },
                        Size { w: g.w - g.w / 2, h: g.h },
                    ),
                    SplitState::V => (
                        Point { x: a.loc.x + g.w, y: a.loc.y + g.h / 2 },
                        Size { w: g.w, h: g.h / 2 },
                        Point { x: a.loc.x, y: a.loc.y + g.h / 2 },
                        Size { w: g.w, h: g.h - g.h / 2 },
                    ),
                };
                proof {
                    assert(a_end == split_a_end(a, self.splitstate));
                    assert(a_size == split_a_size(a, self.splitstate));
                    assert(b_loc == split_b_rect(a, self.splitstate).loc);
                    assert(b_size == split_b_rect(a, self.splitstate).size);
                }
                if !(-MAX_COORD <= b_loc.x && b_loc.x <= MAX_COORD && -MAX_COORD <= b_loc.y
                    && b_loc.y <= MAX_COORD) {
                    self.reseize_state = PeddingResize::ResizeFinished(surface);
                    return cfgs;
                }
                self.space.set_pending(a.handle, a.loc, a_end);
                proof {
                    let s0 = old(self).space.windows();
                    let s1 = self.space.windows();
                    assert(forall|k: int| 0 <= k < s1.len() ==> s1[k].handle == s0[k].handle);
                    crate::space::lemma_same_handles_contains(s1, s0);
                }
                cfgs.push(ConfigureRequest { window: a.handle, size: Some(a_size), resizing: true });
                match self.space.find(surface) {
                    Some(b) => {
                        proof {
                            assert(b.wf());
                            assert(0 <= g.w / 2 <= g.w && 0 <= g.h / 2 <= g.h);
                        }
                        let b_end = Point { x: b_loc.x + b_size.w, y: b_loc.y + b_size.h };
                        let w2 = b.set_resize_size((b_loc, b_end));
                        self.space.map_element(w2, b_loc, true);
                        cfgs.push(
                            ConfigureRequest { window: surface, size: Some(b_size), resizing: true },
                        );
                        self.reseize_state = PeddingResize::ResizeTwoWindowFinished(
                            (a.handle, surface),
                        );
                        proof {
                            let pre = *old(self);
                            let aa = pre.space.windows()[first_activated_idx(pre.space.windows())];
                            assert(aa == a);
                            assert(cfgs@ =~= seq![
                                ConfigureRequest {
                                    window: a.handle,
                                    size: Some(split_a_size(a, pre.splitstate)),
                                    resizing: true,
                                },
                                ConfigureRequest {
                                    window: surface,
                                    size: Some(split_b_rect(a, pre.splitstate).size),
                                    resizing: true,
                                },
                            ]);
                        }
                    },
                    None => {
                        proof {
                            assert(cfgs@ =~= seq![
                                ConfigureRequest {
                                    window: a.handle,
                                    size: Some(split_a_size(a, old(self).splitstate)),
                                    resizing: true,
                                },
                            ]);
                        }
                    },
                }
            },
        }
        cfgs
    }

    /// Pipeline step run on a commit while a mapped window awaits its
    /// resize: a lone window takes the whole output, any later window
    /// splits the activated one.
    pub fn handle_resize_tile_window_changing(&mut self) -> (cfgs: Vec<ConfigureRequest>)
        requires
            old(self).wf(),
        ensures
            final(self).wf(),
            match old(self).reseize_state {
                PeddingResize::Resizing(surface) => {
                    if old(self).space.windows().len() == 1 {
                        one_element_post(*old(self), *final(self), cfgs@, surface)
                    } else {
                        split_post(*old(self), *final(self), cfgs@, surface)
                    }
                },
                _ => final(self).same_core(*old(self)) && cfgs@.len() == 0,
            },
    {
        match self.reseize_state {
            PeddingResize::Resizing(surface) => {
                if self.space.len() == 1 {
                    self.handle_one_element(surface)
                } else {
                    self.handle_split_element(surface)
                }
            },
            _ => Vec::new(),
        }
    }

    /// Completion of a single-window resize: while tiling, once the
    /// awaited window exists, its pending rectangle is committed as its
    /// acknowledged geometry, a final configure without the resizing flag
    /// goes out, and the pipeline returns to idle.  Outside tiling mode,
    /// or for an unknown window, nothing changes.
    pub fn handle_resize_tile_window_finished(&mut self) -> (cfgs: Vec<ConfigureRequest>)
        requires
            old(self).wf(),
        ensures
            final(self).wf(),
            final(self).window_remove_state == old(self).window_remove_state,
            final(self).same_flags(*old(self)),
            match old(self).reseize_state {
                PeddingResize::ResizeFinished(surface) => {
                    if old(self).wmstatus == WmStatus::Tile && contains_handle(
                        old(self).space.windows(),
                        surface,
                    ) {
                        &&& final(self).space.windows() == spec_commit_pending(
                            old(self).space.windows(),
                            surface,
                        )
                        &&& final(self).reseize_state == PeddingResize::Stop
                        &&& cfgs@ == seq![
                            ConfigureRequest { window: surface, size: None, resizing: false },
                        ]
                    } else {
                        &&& final(self).space.windows() == old(self).space.windows()
                        &&& final(self).reseize_state == old(self).reseize_state
                        &&& cfgs@.len() == 0
                    }
                },
                _ => final(self).same_core(*old(self)) && cfgs@.len() == 0,
            },
    {
        let mut cfgs: Vec<ConfigureRequest> = Vec::new();
        match self.reseize_state {
            PeddingResize::ResizeFinished(surface) => {
                if !matches!(self.wmstatus, WmStatus::Tile) {
                    return cfgs;
                }
                match self.space.find_index(surface) {
                    Some(_) => {
                        self.space.commit_pending(surface);
                        cfgs.push(
                            ConfigureRequest { window: surface, size: None, resizing: false },
                        );
                        self.reseize_state = PeddingResize::Stop;
                        proof {
                            assert(cfgs@ =~= seq![
                                ConfigureRequest { window: surface, size: None, resizing: false },
                            ]);
                        }
                    },
                    None => {},
                }
            },
            _ => {},
        }
        cfgs
    }

    /// Completion of a split: while tiling, once both awaited windows
    /// exist, their pending rectangles are committed, final configures
    /// without the resizing flag go out for both, and the pipeline
    /// returns to idle.  Outside tiling mode, or while either window is
    /// unknown, nothing changes.
    pub fn handle_resize_tile_split_window_finished(&mut self) -> (cfgs: Vec<ConfigureRequest>)
        requires
            old(self).wf(),
        ensures
            final(self).wf(),
            final(self).window_remove_state == old(self).window_remove_state,
            final(self).same_flags(*old(self)),
            match old(self).reseize_state {
                PeddingResize::ResizeTwoWindowFinished(pair) => {
                    if old(self).wmstatus == WmStatus::Tile && contains_handle(
                        old(self).space.windows(),
                        pair.0,
                    ) && contains_handle(old(self).space.windows(), pair.1) {
                        &&& final(self).space.windows() == spec_commit_pending(
                            spec_commit_pending(old(self).space.windows(), pair.0),
                            pair.1,
                        )
                        &&& final(self).reseize_state == PeddingResize::Stop
                        &&& cfgs@ == seq![
                            ConfigureRequest { window: pair.0, size: None, resizing: false },
                            ConfigureRequest { window: pair.1, size: None, resizing: false },
                        ]
                    } else {
                        &&& final(self).space.windows() == old(self).space.windows()
                        &&& final(self).reseize_state == old(self).reseize_state
                        &&& cfgs@.len() == 0
                    }
                },
                _ => final(self).same_core(*old(self)) && cfgs@.len() == 0,
            },
    {
        let mut cfgs: Vec<ConfigureRequest> = Vec::new();
        match self.reseize_state {
            PeddingResize::ResizeTwoWindowFinished(pair) => {
                if !matches!(self.wmstatus, WmStatus::Tile) {
                    return cfgs;
                }
                let (ha, hb) = pair;
                let has_a = self.space.find_index(ha).is_some();
                let has_b = self.space.find_index(hb).is_some();
                if has_a && has_b {
                    self.space.commit_pending(ha);
                    self.space.commit_pending(hb);
                    cfgs.push(ConfigureRequest { window: ha, size: None, resizing: false });
                    cfgs.push(ConfigureRequest { window: hb, size: None, resizing: false });
                    self.reseize_state = PeddingResize::Stop;
                    proof {
                        assert(cfgs@ =~= seq![
                            ConfigureRequest { window: ha, size: None, resizing: false },
                            ConfigureRequest { window: hb, size: None, resizing: false },
                        ]);
                    }
                }
            },
            _ => {},
        }
        cfgs
    }

    /// Center the window awaiting a stack-mode completion on the output
    /// and end the negotiation.  Unknown windows leave everything as is.
    pub fn handle_place_stack_to_center(&mut self)
        requires
            old(self).wf(),
        ensures
            final(self).wf(),
            final(self).window_remove_state == old(self).window_remove_state,
            final(self).same_flags(*old(self)),
            match old(self).reseize_state {
                PeddingResize::ResizeFinished(surface) => {
                    if contains_handle(old(self).space.windows(), surface) {
                        let w = window_of(old(self).space.windows(), surface);
                        let pos = Point {
                            x: (old(self).output_size.w / 2 - w.spec_geometry().size.w / 2) as i32,
                            y: (old(self).output_size.h / 2 - w.spec_geometry().size.h / 2) as i32,
                        };
                        &&& final(self).space.windows() == spec_map(
                            old(self).space.windows(),
                            w,
                            pos,
                            false,
                        )
                        &&& final(self).reseize_state == PeddingResize::Stop
                    } else {
                        &&& final(self).space.windows() == old(self).space.windows()
                        &&& final(self).reseize_state == old(self).reseize_state
                    }
                },
                _ => final(self).same_core(*old(self)),
            },
    {
        match self.reseize_state {
            PeddingResize::ResizeFinished(surface) => {
                match self.space.find(surface) {
                    Some(w) => {
                        proof {
                            assert(w.wf());
                        }
                        let g = w.geometry().size;
                        proof {
                            assert(0 <= g.w / 2 <= g.w && 0 <= g.h / 2 <= g.h);
                            assert(0 <= self.output_size.w / 2 <= self.output_size.w);
                            assert(0 <= self.output_size.h / 2 <= self.output_size.h);
                        }
                        let pos = Point {
                            x: self.output_size.w / 2 - g.w / 2,
                            y: self.output_size.h / 2 - g.h / 2,
                        };
                        self.space.map_element(w, pos, false);
                        self.reseize_state = PeddingResize::Stop;
                    },
                    None => {},
                }
            },
            _ => {},
        }
    }
}

} // verus!
