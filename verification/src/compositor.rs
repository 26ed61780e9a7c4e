//! The commit dispatcher: one client commit drives, in this order, the
//! initial-configure bookkeeping, the removal backfill and its
//! completion, and — only while tiling — the resize pipeline's step and
//! its two completion checks.  [`spec_commit`] is the functional model
//! of that dispatch over a ghost snapshot of the whole state, and
//! [`FlyJa::commit`] is proved to follow it exactly.

use vstd::prelude::*;

use crate::backfill::{
    apply_chain, apply_commits, chain_cfgs, chain_fits, chain_handles, chain_of, chain_vertical,
};
use crate::geometry::{point_wf, Point, Size};
use crate::pipeline::{split_a_end, split_a_size, split_b_rect};
use crate::shell::WindowElement;
use crate::space::{
    contains_handle, first_activated_idx, no_activated, spec_commit_pending, spec_map,
    spec_set_pending, window_of, with_pending,
};
use crate::state::{ConfigureRequest, FlyJa, PeddingResize, SplitState, WindowRemoved, WmStatus};

verus! {

/// Ghost mirror of the removal-backfill state, with the awaited handles
/// as a sequence.
pub ghost enum RemovedModel {
    /// No removal is being resolved.
    NoState,
    /// A vacated rectangle awaits adjacency resolution.
    Region {
        /// Top-left corner of the vacated rectangle.
        pos_start: Point,
        /// Bottom-right corner of the vacated rectangle.
        pos_end: Point,
    },
    /// A resized chain awaits the listed windows' commits.
    Pending(Seq<u64>),
}

/// The backfill state as the ghost model sees it.
pub open spec fn removed_model(w: WindowRemoved) -> RemovedModel {
    match w {
        WindowRemoved::NoState => RemovedModel::NoState,
        WindowRemoved::Region { pos_start, pos_end } => RemovedModel::Region {
            pos_start,
            pos_end,
        },
        WindowRemoved::PeddingMutiResizeFinished(v) => RemovedModel::Pending(v@),
    }
}

/// Ghost snapshot of the whole window-manager state: the registry
/// content and every flag and state machine, as mathematical values.
#[verifier::ext_equal]
pub ghost struct ModelState {
    /// Registry content, bottom of the z-order first.
    pub windows: Seq<WindowElement>,
    /// Resize-pipeline state.
    pub reseize: PeddingResize,
    /// Removal-backfill state.
    pub removed: RemovedModel,
    /// Layout mode.
    pub wmstatus: WmStatus,
    /// Split axis for the next insertion while tiling.
    pub splitstate: SplitState,
    /// Output size.
    pub output_size: Size,
    /// Tracked pointer position.
    pub pointer_location: Point,
}

impl FlyJa {
    /// This state as a ghost snapshot.
    pub open spec fn model(self) -> ModelState {
        ModelState {
            windows: self.space.windows(),
            reseize: self.reseize_state,
            removed: removed_model(self.window_remove_state),
            wmstatus: self.wmstatus,
            splitstate: self.splitstate,
            output_size: self.output_size,
            pointer_location: self.pointer_location,
        }
    }
}

/// Step model of [`FlyJa::handle_window_commit`]: a known surface whose
/// initial configure is still owed gets a bare configure, and in
/// stacking mode the pipeline records it; anything else changes nothing.
pub open spec fn step_note(m: ModelState, surface: u64, ics: bool) -> (
    ModelState,
    Seq<ConfigureRequest>,
) {
    if contains_handle(m.windows, surface) && !ics {
        (
            ModelState {
                reseize: if m.wmstatus == WmStatus::Stack {
                    PeddingResize::ResizeFinished(surface)
                } else {
                    m.reseize
                },
                ..m
            },
            seq![ConfigureRequest { window: surface, size: None, resizing: false }],
        )
    } else {
        (m, Seq::empty())
    }
}

/// Step model of [`FlyJa::handle_window_removed_mul`]; the cases follow
/// [`crate::backfill::backfill_windows_post`].
pub open spec fn step_removed_mul(m: ModelState) -> (ModelState, Seq<ConfigureRequest>) {
    match m.removed {
        RemovedModel::Region { pos_start, pos_end } => {
            let c = chain_of(m.windows, pos_start, pos_end);
            let vertical = chain_vertical(m.windows, pos_start, pos_end);
            let dw = pos_end.x - pos_start.x;
            let dh = pos_end.y - pos_start.y;
            if c.len() == 0 || !chain_fits(c, vertical, dw, dh) {
                (ModelState { removed: RemovedModel::NoState, ..m }, Seq::empty())
            } else {
                (
                    ModelState {
                        windows: apply_chain(m.windows, c, vertical, dw, dh),
                        removed: RemovedModel::Pending(chain_handles(c)),
                        ..m
                    },
                    chain_cfgs(c, vertical, dw, dh),
                )
            }
        },
        _ => (m, Seq::empty()),
    }
}

/// First position in the list whose handle is no longer registered; the
/// list's length when every handle still is.
pub open spec fn first_absent(s: Seq<WindowElement>, hs: Seq<u64>) -> int
    decreases hs.len(),
{
    if hs.len() == 0 {
        0
    } else if !contains_handle(s, hs[0]) {
        0
    } else {
        1 + first_absent(s, hs.drop_first())
    }
}

/// [`first_absent`] is what its name says: everything before it is
/// registered, and the entry at it, if any, is not.
pub proof fn lemma_first_absent(s: Seq<WindowElement>, hs: Seq<u64>)
    ensures
        0 <= first_absent(s, hs) <= hs.len(),
        forall|k: int| 0 <= k < first_absent(s, hs) ==> contains_handle(s, #[trigger] hs[k]),
        first_absent(s, hs) < hs.len() ==> !contains_handle(s, hs[first_absent(s, hs)]),
    decreases hs.len(),
{
    if hs.len() > 0 && contains_handle(s, hs[0]) {
        lemma_first_absent(s, hs.drop_first());
        let fa = first_absent(s, hs);
        assert forall|k: int| 0 <= k < fa implies contains_handle(s, #[trigger] hs[k]) by {
            if k > 0 {
                assert(hs.drop_first()[k - 1] == hs[k]);
            }
        }
        if fa < hs.len() {
            assert(hs.drop_first()[fa - 1] == hs[fa]);
        }
    }
}

/// Step model of [`FlyJa::handle_window_mul_removed_finished`]: commit
/// each awaited window's pending rectangle in order, stopping at the
/// first one that is gone; the state rests once all are handled.
pub open spec fn step_mul_finished(m: ModelState) -> (ModelState, Seq<ConfigureRequest>) {
    match m.removed {
        RemovedModel::Pending(hs) => {
            let k = first_absent(m.windows, hs);
            (
                ModelState {
                    windows: apply_commits(m.windows, hs.take(k)),
                    removed: if k == hs.len() {
                        RemovedModel::NoState
                    } else {
                        m.removed
                    },
                    ..m
                },
                Seq::new(
                    k as nat,
                    |i: int| ConfigureRequest { window: hs[i], size: None, resizing: false },
                ),
            )
        },
        _ => (m, Seq::empty()),
    }
}

/// Step model of the single-window completion; the cases follow
/// [`crate::pipeline::one_element_post`].
pub open spec fn step_one(m: ModelState, surface: u64) -> (ModelState, Seq<ConfigureRequest>) {
    let m1 = ModelState { reseize: PeddingResize::ResizeFinished(surface), ..m };
    if contains_handle(m.windows, surface) {
        let w = window_of(m.windows, surface);
        let end = Point {
            x: (w.loc.x + m.output_size.w) as i32,
            y: (w.loc.y + m.output_size.h) as i32,
        };
        (
            ModelState {
                windows: spec_map(m.windows, with_pending(w, w.loc, end), w.loc, true),
                ..m1
            },
            seq![ConfigureRequest { window: surface, size: Some(m.output_size), resizing: true }],
        )
    } else {
        (m1, Seq::empty())
    }
}

/// Step model of the split; the cases follow
/// [`crate::pipeline::split_post`].
pub open spec fn step_split(m: ModelState, surface: u64) -> (ModelState, Seq<ConfigureRequest>) {
    if no_activated(m.windows) {
        (ModelState { reseize: PeddingResize::ResizeFinished(surface), ..m }, Seq::empty())
    } else {
        let a = m.windows[first_activated_idx(m.windows)];
        let brect = split_b_rect(a, m.splitstate);
        if !point_wf(brect.loc) {
            (ModelState { reseize: PeddingResize::ResizeFinished(surface), ..m }, Seq::empty())
        } else {
            let s1 = spec_set_pending(m.windows, a.handle, a.loc, split_a_end(a, m.splitstate));
            let cfg_a = ConfigureRequest {
                window: a.handle,
                size: Some(split_a_size(a, m.splitstate)),
                resizing: true,
            };
            if contains_handle(m.windows, surface) {
                let b = window_of(s1, surface);
                let bend = Point {
                    x: (brect.loc.x + brect.size.w) as i32,
                    y: (brect.loc.y + brect.size.h) as i32,
                };
                (
                    ModelState {
                        windows: spec_map(s1, with_pending(b, brect.loc, bend), brect.loc, true),
                        reseize: PeddingResize::ResizeTwoWindowFinished((a.handle, surface)),
                        ..m
                    },
                    seq![
                        cfg_a,
                        ConfigureRequest {
                            window: surface,
                            size: Some(brect.size),
                            resizing: true,
                        },
                    ],
                )
            } else {
                (ModelState { windows: s1, ..m }, seq![cfg_a])
            }
        }
    }
}

/// Step model of [`FlyJa::handle_resize_tile_window_changing`].
pub open spec fn step_changing(m: ModelState) -> (ModelState, Seq<ConfigureRequest>) {
    match m.reseize {
        PeddingResize::Resizing(surface) => {
            if m.windows.len() == 1 {
                step_one(m, surface)
            } else {
                step_split(m, surface)
            }
        },
        _ => (m, Seq::empty()),
    }
}

/// Step model of [`FlyJa::handle_resize_tile_window_finished`].
pub open spec fn step_finished(m: ModelState) -> (ModelState, Seq<ConfigureRequest>) {
    match m.reseize {
        PeddingResize::ResizeFinished(surface) => {
            if m.wmstatus == WmStatus::Tile && contains_handle(m.windows, surface) {
                (
                    ModelState {
                        windows: spec_commit_pending(m.windows, surface),
                        reseize: PeddingResize::Stop,
                        ..m
                    },
                    seq![ConfigureRequest { window: surface, size: None, resizing: false }],
                )
            } else {
                (m, Seq::empty())
            }
        },
        _ => (m, Seq::empty()),
    }
}

/// Step model of [`FlyJa::handle_resize_tile_split_window_finished`].
pub open spec fn step_split_finished(m: ModelState) -> (ModelState, Seq<ConfigureRequest>) {
    match m.reseize {
        PeddingResize::ResizeTwoWindowFinished(pair) => {
            if m.wmstatus == WmStatus::Tile && contains_handle(m.windows, pair.0)
                && contains_handle(m.windows, pair.1) {
                (
                    ModelState {
                        windows: spec_commit_pending(
                            spec_commit_pending(m.windows, pair.0),
                            pair.1,
                        ),
                        reseize: PeddingResize::Stop,
                        ..m
                    },
                    seq![
                        ConfigureRequest { window: pair.0, size: None, resizing: false },
                        ConfigureRequest { window: pair.1, size: None, resizing: false },
                    ],
                )
            } else {
                (m, Seq::empty())
            }
        },
        _ => (m, Seq::empty()),
    }
}

/// Functional model of one commit dispatch: bookkeeping, backfill
/// resolution and completion, and — while tiling — the pipeline step and
/// its two completion checks, with all configures in emission order.
pub open spec fn spec_commit(m: ModelState, surface: u64, ics: bool) -> (
    ModelState,
    Seq<ConfigureRequest>,
) {
    let (m1, c1) = step_note(m, surface, ics);
    let (m2, c2) = step_removed_mul(m1);
    let (m3, c3) = step_mul_finished(m2);
    if m3.wmstatus == WmStatus::Tile {
        let (m4, c4) = step_changing(m3);
        let (m5, c5) = step_finished(m4);
        let (m6, c6) = step_split_finished(m5);
        (m6, c1 + c2 + c3 + c4 + c5 + c6)
    } else {
        (m3, c1 + c2 + c3)
    }
}

impl FlyJa {
    /// A surface committed: run the whole dispatch on it and return every
    /// configure it produced, in emission order.  The tiling pipeline's
    /// steps run only while the mode is tiling; the backfill steps run in
    /// either mode.
    pub fn commit(&mut self, surface: u64, initial_configure_sent: bool) -> (cfgs: Vec<
        ConfigureRequest,
    >)
        requires
            old(self).wf(),
        ensures
            final(self).wf(),
            final(self).model() == spec_commit(
                old(self).model(),
                surface,
                initial_configure_sent,
            ).0,
            cfgs@ == spec_commit(old(self).model(), surface, initial_configure_sent).1,
    {
        let ghost m0 = self.model();
        let mut cfgs: Vec<ConfigureRequest> = Vec::new();
        match self.handle_window_commit(surface, initial_configure_sent) {
            Some(c) => {
                cfgs.push(c);
            },
            None => {},
        }
        let ghost m1 = step_note(m0, surface, initial_configure_sent).0;
        proof {
            assert(self.model() =~= m1);
            assert(cfgs@ =~= step_note(m0, surface, initial_configure_sent).1);
        }
        let ghost acc1 = cfgs@;
        let mut v = self.handle_window_removed_mul();
        cfgs.append(&mut v);
        let ghost m2 = step_removed_mul(m1).0;
        proof {
            assert(self.model() =~= m2);
            assert(cfgs@ =~= acc1 + step_removed_mul(m1).1);
        }
        let ghost acc2 = cfgs@;
        let ghost pre3 = *self;
        let mut v = self.handle_window_mul_removed_finished();
        let ghost cv3 = v@;
        cfgs.append(&mut v);
        let ghost m3 = step_mul_finished(m2).0;
        proof {
            match pre3.window_remove_state {
                WindowRemoved::PeddingMutiResizeFinished(vv) => {
                    let s = pre3.space.windows();
                    let hs = vv@;
                    lemma_first_absent(s, hs);
                    let fa = first_absent(s, hs);
                    let me = choose|me: int|
                        {
                            &&& 0 <= me <= hs.len()
                            &&& (forall|k: int| 0 <= k < me ==> contains_handle(s, hs[k]))
                            &&& (me < hs.len() ==> !contains_handle(s, hs[me]))
                            &&& self.space.windows() == apply_commits(s, #[trigger] hs.take(me))
                            &&& cv3 == Seq::new(
                                me as nat,
                                |k: int| ConfigureRequest {
                                    window: hs[k],
                                    size: None,
                                    resizing: false,
                                },
                            )
                            &&& self.window_remove_state == (if me == hs.len() {
                                WindowRemoved::NoState
                            } else {
                                pre3.window_remove_state
                            })
                        };
                    if me < fa {
                        assert(contains_handle(s, hs[me]));
                    } else if fa < me {
                        assert(contains_handle(s, hs[fa]));
                    }
                    assert(me == fa);
                },
                _ => {},
            }
            assert(self.model() =~= m3);
            assert(cfgs@ =~= acc2 + step_mul_finished(m2).1);
        }
        let ghost acc3 = cfgs@;
        if matches!(self.wmstatus, WmStatus::Tile) {
            let mut v = self.handle_resize_tile_window_changing();
            cfgs.append(&mut v);
            let ghost m4 = step_changing(m3).0;
            proof {
                assert(self.model() =~= m4);
                assert(cfgs@ =~= acc3 + step_changing(m3).1);
            }
            let ghost acc4 = cfgs@;
            let mut v = self.handle_resize_tile_window_finished();
            cfgs.append(&mut v);
            let ghost m5 = step_finished(m4).0;
            proof {
                assert(self.model() =~= m5);
                assert(cfgs@ =~= acc4 + step_finished(m4).1);
            }
            let ghost acc5 = cfgs@;
            let mut v = self.handle_resize_tile_split_window_finished();
            cfgs.append(&mut v);
            proof {
                assert(self.model() =~= step_split_finished(m5).0);
                assert(cfgs@ =~= acc5 + step_split_finished(m5).1);
                assert(self.model() =~= spec_commit(m0, surface, initial_configure_sent).0);
                assert(cfgs@ =~= spec_commit(m0, surface, initial_configure_sent).1);
            }
        } else {
            proof {
                assert(self.model() =~= spec_commit(m0, surface, initial_configure_sent).0);
                assert(cfgs@ =~= spec_commit(m0, surface, initial_configure_sent).1);
            }
        }
        cfgs
    }
}

} // verus!
