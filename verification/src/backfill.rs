//! Removal backfill: when a window disappears, the adjacency search looks
//! for a neighbor chain that spans one edge of the vacated rectangle, in
//! the fixed priority order below, top, left, right; a found chain is
//! resized to absorb the vacated space and the state machine then awaits
//! each chain window's commit.

use vstd::prelude::*;

use crate::adjacency::{lemma_chain_members, spec_chain, walk_bounds, Direction};
use crate::geometry::{point_wf, Point, Size, MAX_COORD};
use crate::shell::WindowElement;
use crate::space::{
    contains_handle, lemma_same_handles_contains, spec_commit_pending, spec_map, with_pending,
};
use crate::state::{ConfigureRequest, FlyJa, WindowRemoved};

verus! {

/// The chain the backfill selects: the first non-empty one in the fixed
/// priority order below, top, left, right of the vacated rectangle.
pub open spec fn chain_of(s: Seq<WindowElement>, ps: Point, pe: Point) -> Seq<
    (Point, WindowElement),
> {
    let down = spec_chain(Direction::Down, s, ps.x as int, ps.y as int, pe.x as int, pe.y as int);
    let top = spec_chain(Direction::Top, s, ps.x as int, ps.y as int, pe.x as int, pe.y as int);
    let left = spec_chain(Direction::Left, s, ps.x as int, ps.y as int, pe.x as int, pe.y as int);
    let right = spec_chain(
        Direction::Right,
        s,
        ps.x as int,
        ps.y as int,
        pe.x as int,
        pe.y as int,
    );
    if down.len() > 0 {
        down
    } else if top.len() > 0 {
        top
    } else if left.len() > 0 {
        left
    } else {
        right
    }
}

/// Whether the selected chain absorbs vertically (a chain below or above)
/// rather than horizontally.
pub open spec fn chain_vertical(s: Seq<WindowElement>, ps: Point, pe: Point) -> bool {
    let down = spec_chain(Direction::Down, s, ps.x as int, ps.y as int, pe.x as int, pe.y as int);
    let top = spec_chain(Direction::Top, s, ps.x as int, ps.y as int, pe.x as int, pe.y as int);
    down.len() > 0 || top.len() > 0
}

/// Size a chain window grows to: its extent along the vacated axis grows
/// by the vacated rectangle's extent in that axis.
pub open spec fn grown_size(w: WindowElement, vertical: bool, dw: int, dh: int) -> Size {
    let g = w.spec_geometry().size;
    if vertical {
        Size { w: g.w, h: (g.h + dh) as i32 }
    } else {
        Size { w: (g.w + dw) as i32, h: g.h }
    }
}

/// This chain entry's absorbed position and grown size stay within the
/// stored coordinate range.
pub open spec fn chain_fit_at(
    c: Seq<(Point, WindowElement)>,
    vertical: bool,
    dw: int,
    dh: int,
    k: int,
) -> bool {
    let g = c[k].1.spec_geometry().size;
    &&& point_wf(c[k].0)
    &&& if vertical {
        g.h + dh <= MAX_COORD as int
    } else {
        g.w + dw <= MAX_COORD as int
    }
}

/// The whole chain stays within the stored coordinate range when grown.
pub open spec fn chain_fits(c: Seq<(Point, WindowElement)>, vertical: bool, dw: int, dh: int) -> bool {
    forall|k: int| 0 <= k < c.len() ==> chain_fit_at(c, vertical, dw, dh, k)
}

/// Registry content after growing and re-placing each chain window in
/// order: each takes its absorbed position and the grown pending
/// rectangle, raised and activated in turn.
pub open spec fn apply_chain(
    s: Seq<WindowElement>,
    c: Seq<(Point, WindowElement)>,
    vertical: bool,
    dw: int,
    dh: int,
) -> Seq<WindowElement>
    decreases c.len(),
{
    if c.len() == 0 {
        s
    } else {
        let prev = apply_chain(s, c.drop_last(), vertical, dw, dh);
        let pos = c.last().0;
        let w = c.last().1;
        let gsz = grown_size(w, vertical, dw, dh);
        let end = Point { x: (pos.x + gsz.w) as i32, y: (pos.y + gsz.h) as i32 };
        spec_map(prev, with_pending(w, pos, end), pos, true)
    }
}

/// Configures the backfill sends: for each chain window its grown size
/// with the resizing flag set.
pub open spec fn chain_cfgs(
    c: Seq<(Point, WindowElement)>,
    vertical: bool,
    dw: int,
    dh: int,
) -> Seq<ConfigureRequest> {
    Seq::new(
        c.len(),
        |i: int| ConfigureRequest {
            window: c[i].1.handle,
            size: Some(grown_size(c[i].1, vertical, dw, dh)),
            resizing: true,
        },
    )
}

/// Handles of the chain windows, in chain order.
pub open spec fn chain_handles(c: Seq<(Point, WindowElement)>) -> Seq<u64> {
    Seq::new(c.len(), |i: int| c[i].1.handle)
}

/// Outcome of resolving a vacated region: without a covering chain, or
/// with one whose grown geometry would leave the coordinate range, the
/// gap stays and the state returns to rest; otherwise every chain window
/// is resized and re-placed and the state awaits their commits.
pub open spec fn backfill_post(
    pre: FlyJa,
    post: FlyJa,
    cfgs: Seq<ConfigureRequest>,
    ps: Point,
    pe: Point,
) -> bool {
    &&& post.reseize_state == pre.reseize_state
    &&& post.same_flags(pre)
    &&& backfill_windows_post(
        pre.space.windows(),
        ps,
        pe,
        post.space.windows(),
        post.window_remove_state,
        cfgs,
    )
}

/// The registry and state-machine part of [`backfill_post`], phrased
/// over the registry content alone.
pub open spec fn backfill_windows_post(
    s: Seq<WindowElement>,
    ps: Point,
    pe: Point,
    post_windows: Seq<WindowElement>,
    post_removed: WindowRemoved,
    cfgs: Seq<ConfigureRequest>,
) -> bool {
    let c = chain_of(s, ps, pe);
    let vertical = chain_vertical(s, ps, pe);
    let dw = pe.x - ps.x;
    let dh = pe.y - ps.y;
    if c.len() == 0 || !chain_fits(c, vertical, dw, dh) {
        &&& post_windows == s
        &&& post_removed == WindowRemoved::NoState
        &&& cfgs.len() == 0
    } else {
        &&& post_windows == apply_chain(s, c, vertical, dw, dh)
        &&& post_removed matches WindowRemoved::PeddingMutiResizeFinished(hs) && hs@
            == chain_handles(c)
        &&& cfgs == chain_cfgs(c, vertical, dw, dh)
    }
}

/// Registry content after committing the pending rectangles of the listed
/// windows, in order.
pub open spec fn apply_commits(s: Seq<WindowElement>, hs: Seq<u64>) -> Seq<WindowElement>
    decreases hs.len(),
{
    if hs.len() == 0 {
        s
    } else {
        spec_commit_pending(apply_commits(s, hs.drop_last()), hs.last())
    }
}

/// Committing pending rectangles changes no handle: entry by entry the
/// handles stay what they were.
pub proof fn lemma_apply_commits_handles(s: Seq<WindowElement>, hs: Seq<u64>)
    ensures
        apply_commits(s, hs).len() == s.len(),
        forall|i: int| 0 <= i < s.len() ==> #[trigger] apply_commits(s, hs)[i].handle
            == s[i].handle,
    decreases hs.len(),
{
    if hs.len() > 0 {
        lemma_apply_commits_handles(s, hs.drop_last());
    }
}

impl FlyJa {
    /// Resolve a recorded vacated region: run the adjacency search in the
    /// priority order below, top, left, right, and let a found chain
    /// absorb the vacated space; see [`backfill_post`].  Without a
    /// recorded region this changes nothing.
    pub fn handle_window_removed_mul(&mut self) -> (cfgs: Vec<ConfigureRequest>)
        requires
            old(self).wf(),
        ensures
            final(self).wf(),
            match old(self).window_remove_state {
                WindowRemoved::Region { pos_start, pos_end } => backfill_post(
                    *old(self),
                    *final(self),
                    cfgs@,
                    pos_start,
                    pos_end,
                ),
                _ => final(self).same_core(*old(self)) && cfgs@.len() == 0,
            },
    {
        let (ps, pe) = match &self.window_remove_state {
            WindowRemoved::Region { pos_start, pos_end } => (*pos_start, *pos_end),
            _ => {
                return Vec::new();
            },
        };
        let ghost s0 = self.space.windows();
        proof {
            assert(walk_bounds(ps.x as int, ps.y as int, pe.x as int, pe.y as int));
            lemma_chain_members(Direction::Down, s0, ps.x as int, ps.y as int, pe.x as int,
            pe.y as int);
            lemma_chain_members(Direction::Top, s0, ps.x as int, ps.y as int, pe.x as int,
            pe.y as int);
            lemma_chain_members(Direction::Left, s0, ps.x as int, ps.y as int, pe.x as int,
            pe.y as int);
            lemma_chain_members(Direction::Right, s0, ps.x as int, ps.y as int, pe.x as int,
            pe.y as int);
        }
        let c_down = self.find_to_resize_v_down(ps, pe);
        let (c, vertical): (Vec<(Point, WindowElement)>, bool) = if c_down.len() > 0 {
            (c_down, true)
        } else {
            let c_top = self.find_to_resize_v_top(ps, pe);
            if c_top.len() > 0 {
                (c_top, true)
            } else {
                let c_left = self.find_to_resize_h_left(ps, pe);
                if c_left.len() > 0 {
                    (c_left, false)
                } else {
                    (self.find_to_resize_h_right(ps, pe), false)
                }
            }
        };
        proof {
            assert(c@ == chain_of(s0, ps, pe));
            assert(vertical == chain_vertical(s0, ps, pe));
        }
        let dw = pe.x - ps.x;
        let dh = pe.y - ps.y;
        if c.len() == 0 {
            self.window_remove_state = WindowRemoved::NoState;
            return Vec::new();
        }
        let n = c.len();
        let mut fits = true;
        let mut i: usize = 0;
        while i < n
            invariant
                n == c@.len(),
                i <= n,
                c@ == chain_of(s0, ps, pe),
                forall|k: int|
                    0 <= k < c@.len() ==> (#[trigger] c@[k].1).wf(),
                0 <= dw <= MAX_COORD as int,
                0 <= dh <= MAX_COORD as int,
                fits == (forall|k: int| 0 <= k < i ==> chain_fit_at(c@, vertical, dw as int, dh as int, k)),
            decreases n - i,
        {
            let (pos, w) = c[i];
            let g = w.geometry().size;
            let ok = -MAX_COORD <= pos.x && pos.x <= MAX_COORD && -MAX_COORD <= pos.y && pos.y
                <= MAX_COORD && (if vertical {
                g.h + dh <= MAX_COORD
            } else {
                g.w + dw <= MAX_COORD
            });
            proof {
                assert(ok == chain_fit_at(c@, vertical, dw as int, dh as int, i as int));
            }
            fits = fits && ok;
            i = i + 1;
        }
        if !fits {
            self.window_remove_state = WindowRemoved::NoState;
            return Vec::new();
        }
        let mut cfgs: Vec<ConfigureRequest> = Vec::new();
        let mut handles: Vec<u64> = Vec::new();
        let mut i: usize = 0;
        while i < n
            invariant
                n == c@.len(),
                i <= n,
                c@ == chain_of(s0, ps, pe),
                forall|k: int|
                    0 <= k < c@.len() ==> (#[trigger] c@[k].1).wf(),
                chain_fits(c@, vertical, dw as int, dh as int),
                0 <= dw <= MAX_COORD as int,
                0 <= dh <= MAX_COORD as int,
                self.space.wf(),
                self.space.windows() == apply_chain(s0, c@.take(i as int), vertical, dw as int, dh as int),
                self.reseize_state == old(self).reseize_state,
                self.window_remove_state == old(self).window_remove_state,
                self.wmstatus == old(self).wmstatus,
                self.splitstate == old(self).splitstate,
                self.output_size == old(self).output_size,
                self.pointer_location == old(self).pointer_location,
                cfgs@.len() == i,
                forall|k: int| 0 <= k < i ==> cfgs@[k] == chain_cfgs(c@, vertical, dw as int, dh as int)[k],
                handles@.len() == i,
                forall|k: int| 0 <= k < i ==> handles@[k] == chain_handles(c@)[k],
            decreases n - i,
        {
            let (pos, w) = c[i];
            proof {
                assert(chain_fit_at(c@, vertical, dw as int, dh as int, i as int));
            }
            let g = w.geometry().size;
            let gsz = if vertical {
                Size { w: g.w, h: g.h + dh }
            } else {
                Size { w: g.w + dw, h: g.h }
            };
            let end = Point { x: pos.x + gsz.w, y: pos.y + gsz.h };
            let w2 = w.set_resize_size((pos, end));
            self.space.map_element(w2, pos, true);
            cfgs.push(ConfigureRequest { window: w.handle, size: Some(gsz), resizing: true });
            handles.push(w.handle);
            proof {
                assert(c@.take(i + 1).drop_last() =~= c@.take(i as int));
                assert(c@.take(i + 1).last() == c@[i as int]);
            }
            i = i + 1;
        }
        proof {
            assert(c@.take(n as int) =~= c@);
            assert(cfgs@ =~= chain_cfgs(c@, vertical, dw as int, dh as int));
            assert(handles@ =~= chain_handles(c@));
        }
        self.window_remove_state = WindowRemoved::PeddingMutiResizeFinished(handles);
        cfgs
    }

    /// Finish the backfill: for each listed window, in order, commit its
    /// pending rectangle and send a final configure without the resizing
    /// flag; the walk stops at the first window that is no longer
    /// registered, leaving the state as it was, and the state returns to
    /// rest once every listed window was handled.
    pub fn handle_window_mul_removed_finished(&mut self) -> (cfgs: Vec<ConfigureRequest>)
        requires
            old(self).wf(),
        ensures
            final(self).wf(),
            final(self).reseize_state == old(self).reseize_state,
            final(self).same_flags(*old(self)),
            match old(self).window_remove_state {
                WindowRemoved::PeddingMutiResizeFinished(hs) => exists|m: int|
                    {
                        &&& 0 <= m <= hs@.len()
                        &&& (forall|k: int|
                            0 <= k < m ==> contains_handle(
                                old(self).space.windows(),
                                hs@[k],
                            ))
                        &&& (m < hs@.len() ==> !contains_handle(
                            old(self).space.windows(),
                            hs@[m],
                        ))
                        &&& final(self).space.windows() == apply_commits(
                            old(self).space.windows(),
                            #[trigger] hs@.take(m),
                        )
                        &&& cfgs@ == Seq::new(
                            m as nat,
                            |k: int| ConfigureRequest { window: hs@[k], size: None, resizing: false },
                        )
                        &&& final(self).window_remove_state == (if m == hs@.len() {
                            WindowRemoved::NoState
                        } else {
                            old(self).window_remove_state
                        })
                    },
                _ => final(self).same_core(*old(self)) && cfgs@.len() == 0,
            },
    {
        let mut cfgs: Vec<ConfigureRequest> = Vec::new();
        let n = match &self.window_remove_state {
            WindowRemoved::PeddingMutiResizeFinished(v) => v.len(),
            _ => {
                return cfgs;
            },
        };
        let ghost s0 = self.space.windows();
        let ghost hs = match old(self).window_remove_state {
            WindowRemoved::PeddingMutiResizeFinished(v) => v@,
            _ => Seq::empty(),
        };
        let mut i: usize = 0;
        while i < n
            invariant
                old(self).wf(),
                old(self).window_remove_state matches WindowRemoved::PeddingMutiResizeFinished(v)
                    && v@ == hs,
                self.window_remove_state == old(self).window_remove_state,
                n == hs.len(),
                i <= n,
                s0 == old(self).space.windows(),
                self.space.wf(),
                self.space.windows() == apply_commits(s0, hs.take(i as int)),
                self.reseize_state == old(self).reseize_state,
                self.wmstatus == old(self).wmstatus,
                self.splitstate == old(self).splitstate,
                self.output_size == old(self).output_size,
                self.pointer_location == old(self).pointer_location,
                forall|k: int| 0 <= k < i ==> contains_handle(s0, hs[k]),
                cfgs@.len() == i,
                forall|k: int|
                    0 <= k < i ==> cfgs@[k] == (ConfigureRequest {
                        window: hs[k],
                        size: None,
                        resizing: false,
                    }),
            decreases n - i,
        {
            let h = match &self.window_remove_state {
                WindowRemoved::PeddingMutiResizeFinished(v) => v[i],
                _ => {
                    proof {
                        assert(false);
                    }
                    return cfgs;
                },
            };
            proof {
                lemma_apply_commits_handles(s0, hs.take(i as int));
                lemma_same_handles_contains(self.space.windows(), s0);
            }
            let present = self.space.find_index(h).is_some();
            if !present {
                proof {
                    let m = i as int;
                    assert(!contains_handle(s0, hs[m]));
                    assert(cfgs@ =~= Seq::new(
                        m as nat,
                        |k: int| ConfigureRequest { window: hs[k], size: None, resizing: false },
                    ));
                    assert(hs.take(m) == hs.take(m));
                }
                return cfgs;
            }
            self.space.commit_pending(h);
            cfgs.push(ConfigureRequest { window: h, size: None, resizing: false });
            proof {
                assert(hs.take(i + 1).drop_last() =~= hs.take(i as int));
                assert(hs.take(i + 1).last() == hs[i as int]);
            }
            i = i + 1;
        }
        self.window_remove_state = WindowRemoved::NoState;
        proof {
            let m = n as int;
            assert(hs.take(m) =~= hs);
            assert(cfgs@ =~= Seq::new(
                m as nat,
                |k: int| ConfigureRequest { window: hs[k], size: None, resizing: false },
            ));
        }
        cfgs
    }
}

} // verus!
