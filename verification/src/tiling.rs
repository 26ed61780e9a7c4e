//! The tiling invariant: while the resize pipeline is idle in tiling
//! mode, the layout rectangles of the registered windows are pairwise
//! non-overlapping and together cover the output rectangle.  The proofs
//! here show the invariant across the commit dispatch's tiling-mode
//! transitions: the single-window step establishes it, the split step
//! preserves it as it actually rewrites the registry, every completion
//! step only commits pending rectangles and moves nothing, an exactly
//! matched backfill chain absorbs precisely the vacated rectangle, and
//! a steady-state commit (no negotiation armed, no region pending)
//! keeps any tiling as it is.
//!
//! The invariant is stated of these tiling transitions only: stacking
//! mode moves windows freely, and a backfill chain matched within a
//! non-zero tolerance covers only approximately, so a layout touched by
//! either (for instance: toggle to stacking, drag a window, toggle
//! back) is outside this law.

use vstd::prelude::*;

use crate::backfill::apply_commits;
use crate::compositor::{
    first_absent, spec_commit, step_changing, step_finished, step_mul_finished, step_note,
    step_one, step_removed_mul, step_split, step_split_finished, ModelState,
};
use crate::geometry::{point_wf, rect_contains, size_wf, Point, Rect, Size, MAX_COORD};
use crate::pipeline::{split_a_end, split_a_size, split_b_rect};
use crate::shell::WindowElement;
use crate::state::PeddingResize;
use crate::space::{
    contains_handle, deactivated, first_activated_idx, is_first_activated, lemma_idx_of,
    lemma_same_handles_contains, no_activated, placed, space_wf, spec_commit_pending,
    spec_deactivate_all, spec_remove_handle, spec_set_pending, window_of, with_pending,
};

verus! {

/// No point lies in the layout rectangles of two distinct windows.
pub open spec fn pairwise_disjoint(s: Seq<WindowElement>) -> bool {
    forall|i: int, j: int, px: int, py: int|
        #![trigger rect_contains(s[i].spec_geometry(), px, py), rect_contains(s[j].spec_geometry(), px, py)]
        0 <= i < j < s.len() ==> !(rect_contains(s[i].spec_geometry(), px, py) && rect_contains(
            s[j].spec_geometry(),
            px,
            py,
        ))
}

/// Every point of the output lies in some window's layout rectangle.
pub open spec fn covers(s: Seq<WindowElement>, out: Rect) -> bool {
    forall|px: int, py: int|
        #[trigger] rect_contains(out, px, py) ==> exists|i: int|
            0 <= i < s.len() && rect_contains(#[trigger] s[i].spec_geometry(), px, py)
}

/// The windows tile the output: gapless and without overlaps.
pub open spec fn tiles(s: Seq<WindowElement>, out: Rect) -> bool {
    pairwise_disjoint(s) && covers(s, out)
}

/// A lone window whose layout rectangle is the output tiles it.  This is
/// the layout the single-window resize produces.
pub proof fn lemma_single_window_tiles(w: WindowElement, out: Rect)
    requires
        w.spec_geometry() == out,
    ensures
        tiles(seq![w], out),
{
    let s = seq![w];
    assert forall|px: int, py: int| rect_contains(out, px, py) implies exists|i: int|
        0 <= i < s.len() && rect_contains(#[trigger] s[i].spec_geometry(), px, py) by {
        assert(rect_contains(s[0].spec_geometry(), px, py));
    }
}

/// Splitting one tile at a vertical line preserves the tiling: replace
/// the tile at `i` by its left part of width `m` and append the right
/// part, and the layout still tiles the output.  This is the layout the
/// horizontal split produces, with `m` the halved width.
pub proof fn lemma_split_h_preserves_tiling(
    s: Seq<WindowElement>,
    i: int,
    a1: WindowElement,
    a2: WindowElement,
    m: int,
    out: Rect,
)
    requires
        tiles(s, out),
        0 <= i < s.len(),
        0 <= m <= s[i].spec_geometry().size.w,
        s[i].spec_geometry().size.w <= MAX_COORD as int,
        point_wf(s[i].spec_geometry().loc),
        a1.spec_geometry() == (Rect {
            loc: s[i].spec_geometry().loc,
            size: Size { w: m as i32, h: s[i].spec_geometry().size.h },
        }),
        a2.spec_geometry() == (Rect {
            loc: Point {
                x: (s[i].spec_geometry().loc.x + m) as i32,
                y: s[i].spec_geometry().loc.y,
            },
            size: Size {
                w: (s[i].spec_geometry().size.w - m) as i32,
                h: s[i].spec_geometry().size.h,
            },
        }),
    ensures
        tiles(s.update(i, a1).push(a2), out),
{
    let r = s[i].spec_geometry();
    let t = s.update(i, a1).push(a2);
    let n = s.len() as int;
    assert(t.len() == n + 1);
    assert(forall|k: int| 0 <= k < n && k != i ==> t[k] == s[k]);
    assert(t[i] == a1 && t[n] == a2);
    assert forall|px: int, py: int|
        rect_contains(a1.spec_geometry(), px, py) || rect_contains(
            a2.spec_geometry(),
            px,
            py,
        ) implies rect_contains(r, px, py) by {}
    assert forall|k: int, l: int, px: int, py: int|
        #![trigger rect_contains(t[k].spec_geometry(), px, py), rect_contains(t[l].spec_geometry(), px, py)]
        0 <= k < l < t.len() implies !(rect_contains(t[k].spec_geometry(), px, py)
        && rect_contains(t[l].spec_geometry(), px, py)) by {
        if rect_contains(t[k].spec_geometry(), px, py) && rect_contains(
            t[l].spec_geometry(),
            px,
            py,
        ) {
            if l < n {
                if k != i && l != i {
                    assert(!(rect_contains(s[k].spec_geometry(), px, py) && rect_contains(
                        s[l].spec_geometry(),
                        px,
                        py,
                    )));
                } else if k == i {
                    assert(rect_contains(r, px, py));
                    assert(!(rect_contains(s[k].spec_geometry(), px, py) && rect_contains(
                        s[l].spec_geometry(),
                        px,
                        py,
                    )));
                } else {
                    assert(rect_contains(r, px, py));
                    assert(!(rect_contains(s[k].spec_geometry(), px, py) && rect_contains(
                        s[l].spec_geometry(),
                        px,
                        py,
                    )));
                }
            } else {
                if k == i {
                    assert(px < r.loc.x + m && px >= r.loc.x + m);
                } else {
                    assert(rect_contains(r, px, py));
                    if k < i {
                        assert(!(rect_contains(s[k].spec_geometry(), px, py) && rect_contains(
                            s[i].spec_geometry(),
                            px,
                            py,
                        )));
                    } else {
                        assert(!(rect_contains(s[i].spec_geometry(), px, py) && rect_contains(
                            s[k].spec_geometry(),
                            px,
                            py,
                        )));
                    }
                }
            }
        }
    }
    assert forall|px: int, py: int| rect_contains(out, px, py) implies exists|c: int|
        0 <= c < t.len() && rect_contains(#[trigger] t[c].spec_geometry(), px, py) by {
        let k = choose|k: int| 0 <= k < s.len() && rect_contains(
            #[trigger] s[k].spec_geometry(),
            px,
            py,
        );
        if k != i {
            assert(rect_contains(t[k].spec_geometry(), px, py));
        } else {
            if px < r.loc.x + m {
                assert(rect_contains(t[i].spec_geometry(), px, py));
            } else {
                assert(rect_contains(t[n].spec_geometry(), px, py));
            }
        }
    }
}

/// The same split along a horizontal line: replace the tile at `i` by
/// its top part of height `m` and append the bottom part.  This is the
/// layout the vertical split produces, with `m` the halved height.
pub proof fn lemma_split_v_preserves_tiling(
    s: Seq<WindowElement>,
    i: int,
    a1: WindowElement,
    a2: WindowElement,
    m: int,
    out: Rect,
)
    requires
        tiles(s, out),
        0 <= i < s.len(),
        0 <= m <= s[i].spec_geometry().size.h,
        s[i].spec_geometry().size.h <= MAX_COORD as int,
        point_wf(s[i].spec_geometry().loc),
        a1.spec_geometry() == (Rect {
            loc: s[i].spec_geometry().loc,
            size: Size { w: s[i].spec_geometry().size.w, h: m as i32 },
        }),
        a2.spec_geometry() == (Rect {
            loc: Point {
                x: s[i].spec_geometry().loc.x,
                y: (s[i].spec_geometry().loc.y + m) as i32,
            },
            size: Size {
                w: s[i].spec_geometry().size.w,
                h: (s[i].spec_geometry().size.h - m) as i32,
            },
        }),
    ensures
        tiles(s.update(i, a1).push(a2), out),
{
    let r = s[i].spec_geometry();
    let t = s.update(i, a1).push(a2);
    let n = s.len() as int;
    assert(t.len() == n + 1);
    assert(forall|k: int| 0 <= k < n && k != i ==> t[k] == s[k]);
    assert(t[i] == a1 && t[n] == a2);
    assert forall|k: int, l: int, px: int, py: int|
        #![trigger rect_contains(t[k].spec_geometry(), px, py), rect_contains(t[l].spec_geometry(), px, py)]
        0 <= k < l < t.len() implies !(rect_contains(t[k].spec_geometry(), px, py)
        && rect_contains(t[l].spec_geometry(), px, py)) by {
        if rect_contains(t[k].spec_geometry(), px, py) && rect_contains(
            t[l].spec_geometry(),
            px,
            py,
        ) {
            if l < n {
                if k == i || l == i {
                    assert(rect_contains(r, px, py));
                }
                assert(!(rect_contains(s[k].spec_geometry(), px, py) && rect_contains(
                    s[l].spec_geometry(),
                    px,
                    py,
                )));
            } else {
                if k == i {
                    assert(py < r.loc.y + m && py >= r.loc.y + m);
                } else {
                    assert(rect_contains(r, px, py));
                    if k < i {
                        assert(!(rect_contains(s[k].spec_geometry(), px, py) && rect_contains(
                            s[i].spec_geometry(),
                            px,
                            py,
                        )));
                    } else {
                        assert(!(rect_contains(s[i].spec_geometry(), px, py) && rect_contains(
                            s[k].spec_geometry(),
                            px,
                            py,
                        )));
                    }
                }
            }
        }
    }
    assert forall|px: int, py: int| rect_contains(out, px, py) implies exists|c: int|
        0 <= c < t.len() && rect_contains(#[trigger] t[c].spec_geometry(), px, py) by {
        let k = choose|k: int| 0 <= k < s.len() && rect_contains(
            #[trigger] s[k].spec_geometry(),
            px,
            py,
        );
        if k != i {
            assert(rect_contains(t[k].spec_geometry(), px, py));
        } else {
            if py < r.loc.y + m {
                assert(rect_contains(t[i].spec_geometry(), px, py));
            } else {
                assert(rect_contains(t[n].spec_geometry(), px, py));
            }
        }
    }
}

/// The rectangles form a contiguous run of columns from `x0` to `x1`:
/// the first begins at `x0`, each next one begins where the previous
/// ends, and the last ends at `x1` exactly.
pub open spec fn chain_columns(c: Seq<Rect>, x0: int, x1: int) -> bool {
    &&& c.len() > 0
    &&& forall|i: int| 0 <= i < c.len() ==> 1 <= (#[trigger] c[i]).size.w
    &&& c[0].loc.x == x0
    &&& forall|i: int| 1 <= i < c.len() ==> (#[trigger] c[i]).loc.x == c[i - 1].loc.x + c[i
        - 1].size.w
    &&& c[c.len() - 1].loc.x + c[c.len() - 1].size.w == x1
}

/// The rectangles form an exact chain below the vacated rectangle `r`:
/// each one's top edge lies on `r`'s bottom edge, their left edges
/// accumulate from `r`'s left edge width by width, and the last one
/// reaches `r`'s right edge exactly.
pub open spec fn exact_down_chain(c: Seq<Rect>, r: Rect) -> bool {
    &&& chain_columns(c, r.loc.x as int, r.loc.x + r.size.w)
    &&& forall|i: int|
        0 <= i < c.len() ==> (#[trigger] c[i]).loc.y == r.loc.y + r.size.h && 0 <= c[i].size.h
}

/// All coordinates of the chain and of the vacated rectangle are within
/// the stored range, so the grown rectangles exist as machine values.
pub open spec fn chain_in_range(c: Seq<Rect>, r: Rect) -> bool {
    &&& point_wf(r.loc)
    &&& 0 <= r.size.w <= MAX_COORD as int
    &&& 0 <= r.size.h <= MAX_COORD as int
    &&& forall|i: int|
        0 <= i < c.len() ==> point_wf((#[trigger] c[i]).loc) && c[i].size.w <= MAX_COORD as int
            && c[i].size.h <= MAX_COORD as int
}

/// The chain rectangle grown to absorb the vacated rectangle `r`: moved
/// up to `r`'s top edge and taller by `r`'s height.
pub open spec fn absorbed(ci: Rect, r: Rect) -> Rect {
    Rect {
        loc: Point { x: ci.loc.x, y: r.loc.y },
        size: Size { w: ci.size.w, h: (ci.size.h + r.size.h) as i32 },
    }
}

/// The columns of a run are ordered: every earlier rectangle ends at or
/// before a later one begins, and all stay within the run's span.
proof fn lemma_chain_columns_bounds(c: Seq<Rect>, x0: int, x1: int)
    requires
        chain_columns(c, x0, x1),
    ensures
        forall|i: int, j: int|
            0 <= i < j < c.len() ==> (#[trigger] c[i]).loc.x + c[i].size.w <= (
            #[trigger] c[j]).loc.x,
        forall|i: int|
            0 <= i < c.len() ==> x0 <= (#[trigger] c[i]).loc.x && c[i].loc.x + c[i].size.w <= x1,
    decreases c.len(),
{
    if c.len() > 1 {
        let n = c.len() - 1;
        let x1b = c[n].loc.x as int;
        let c2 = c.drop_last();
        assert(forall|i: int| 0 <= i < n ==> c2[i] == c[i]);
        assert(chain_columns(c2, x0, x1b)) by {
            assert(c2[n - 1] == c[n - 1]);
            assert(c[n].loc.x == c[n - 1].loc.x + c[n - 1].size.w);
        }
        lemma_chain_columns_bounds(c2, x0, x1b);
        assert(x1b + c[n].size.w == x1);
        assert forall|i: int, j: int| 0 <= i < j < c.len() implies (#[trigger] c[i]).loc.x
            + c[i].size.w <= (#[trigger] c[j]).loc.x by {
            if j < n {
                assert(c2[i].loc.x + c2[i].size.w <= c2[j].loc.x);
            } else {
                assert(c2[i].loc.x + c2[i].size.w <= x1b);
            }
        }
        assert forall|i: int| 0 <= i < c.len() implies x0 <= (#[trigger] c[i]).loc.x && c[i].loc.x
            + c[i].size.w <= x1 by {
            if i < n {
                assert(x0 <= c2[i].loc.x && c2[i].loc.x + c2[i].size.w <= x1b);
            }
        }
    }
}

/// A run's columns cover its span completely: every x within the span
/// falls into some column.
proof fn lemma_chain_columns_cover(c: Seq<Rect>, x0: int, x1: int, px: int)
    requires
        chain_columns(c, x0, x1),
        x0 <= px < x1,
    ensures
        exists|i: int|
            0 <= i < c.len() && (#[trigger] c[i]).loc.x <= px < c[i].loc.x + c[i].size.w,
    decreases c.len(),
{
    let n = c.len() - 1;
    if c[n].loc.x <= px {
        assert(c[n].loc.x <= px < c[n].loc.x + c[n].size.w);
    } else {
        let x1b = c[n].loc.x as int;
        let c2 = c.drop_last();
        assert(c.len() > 1) by {
            if c.len() == 1 {
                assert(c[0].loc.x == x0);
            }
        }
        assert(forall|i: int| 0 <= i < n ==> c2[i] == c[i]);
        assert(chain_columns(c2, x0, x1b)) by {
            assert(c2[n - 1] == c[n - 1]);
            assert(c[n].loc.x == c[n - 1].loc.x + c[n - 1].size.w);
        }
        lemma_chain_columns_cover(c2, x0, x1b, px);
        let i = choose|i: int|
            0 <= i < c2.len() && (#[trigger] c2[i]).loc.x <= px < c2[i].loc.x + c2[i].size.w;
        assert(c[i].loc.x <= px < c[i].loc.x + c[i].size.w);
    }
}

/// Growing an exactly matched chain absorbs the vacated rectangle and
/// nothing else: together the grown rectangles cover precisely the
/// vacated rectangle plus their own old area, and they stay pairwise
/// disjoint.  This is the geometry of the backfill's highest-priority
/// direction; the other three directions are its mirror images, and a
/// chain matched only within the non-zero tolerance (for instance a
/// neighbor whose left edge sits four units off) covers approximately,
/// so it is outside this law.
pub proof fn lemma_down_backfill_absorbs_exactly(c: Seq<Rect>, r: Rect)
    requires
        exact_down_chain(c, r),
        chain_in_range(c, r),
    ensures
        forall|px: int, py: int|
            (exists|i: int|
                0 <= i < c.len() && rect_contains(#[trigger] absorbed(c[i], r), px, py))
                <==> (rect_contains(r, px, py) || exists|i: int|
                0 <= i < c.len() && rect_contains(#[trigger] c[i], px, py)),
        forall|i: int, j: int, px: int, py: int|
            #![trigger rect_contains(absorbed(c[i], r), px, py), rect_contains(absorbed(c[j], r), px, py)]
            0 <= i < j < c.len() ==> !(rect_contains(absorbed(c[i], r), px, py) && rect_contains(
                absorbed(c[j], r),
                px,
                py,
            )),
{
    lemma_chain_columns_bounds(c, r.loc.x as int, r.loc.x + r.size.w);
    let ry1 = r.loc.y + r.size.h;
    assert forall|px: int, py: int|
        (exists|i: int| 0 <= i < c.len() && rect_contains(#[trigger] absorbed(c[i], r), px, py))
            <==> (rect_contains(r, px, py) || exists|i: int|
            0 <= i < c.len() && rect_contains(#[trigger] c[i], px, py)) by {
        if exists|i: int| 0 <= i < c.len() && rect_contains(#[trigger] absorbed(c[i], r), px, py) {
            let i = choose|i: int|
                0 <= i < c.len() && rect_contains(#[trigger] absorbed(c[i], r), px, py);
            if py < ry1 {
                assert(rect_contains(r, px, py));
            } else {
                assert(rect_contains(c[i], px, py));
            }
        }
        if rect_contains(r, px, py) {
            lemma_chain_columns_cover(c, r.loc.x as int, r.loc.x + r.size.w, px);
            let i = choose|i: int|
                0 <= i < c.len() && (#[trigger] c[i]).loc.x <= px < c[i].loc.x + c[i].size.w;
            assert(rect_contains(absorbed(c[i], r), px, py));
        }
        if exists|i: int| 0 <= i < c.len() && rect_contains(#[trigger] c[i], px, py) {
            let i = choose|i: int| 0 <= i < c.len() && rect_contains(#[trigger] c[i], px, py);
            assert(rect_contains(absorbed(c[i], r), px, py));
        }
    }
}

/// Committing a pending rectangle never moves the layout: the layout
/// rectangle of every window is what it was, so a tiling stays a tiling
/// through the pipeline's completion steps.
pub proof fn lemma_commit_keeps_layout(s: Seq<WindowElement>, handle: u64, out: Rect)
    requires
        crate::space::space_wf(s),
    ensures
        spec_commit_pending(s, handle).len() == s.len(),
        forall|i: int|
            0 <= i < s.len() ==> (#[trigger] spec_commit_pending(s, handle)[i]).spec_geometry()
                == s[i].spec_geometry(),
        tiles(s, out) ==> tiles(spec_commit_pending(s, handle), out),
{
    let t = spec_commit_pending(s, handle);
    assert forall|i: int| 0 <= i < s.len() implies (#[trigger] t[i]).spec_geometry()
        == s[i].spec_geometry() by {
        assert(s[i].wf());
    }
    if tiles(s, out) {
        assert forall|k: int, l: int, px: int, py: int|
            #![trigger rect_contains(t[k].spec_geometry(), px, py), rect_contains(t[l].spec_geometry(), px, py)]
            0 <= k < l < t.len() implies !(rect_contains(t[k].spec_geometry(), px, py)
            && rect_contains(t[l].spec_geometry(), px, py)) by {
            assert(t[k].spec_geometry() == s[k].spec_geometry());
            assert(t[l].spec_geometry() == s[l].spec_geometry());
            assert(!(rect_contains(s[k].spec_geometry(), px, py) && rect_contains(
                s[l].spec_geometry(),
                px,
                py,
            )));
        }
        assert forall|px: int, py: int| rect_contains(out, px, py) implies exists|c: int|
            0 <= c < t.len() && rect_contains(#[trigger] t[c].spec_geometry(), px, py) by {
            let k = choose|k: int| 0 <= k < s.len() && rect_contains(
                #[trigger] s[k].spec_geometry(),
                px,
                py,
            );
            assert(rect_contains(t[k].spec_geometry(), px, py));
        }
    }
}


/// The split step of the resize pipeline preserves the tiling: when the
/// windows tile the output and the activated tile at `i` is halved along
/// the recorded axis, the kept half in place of it and the vacated half
/// on top still tile the output.
pub proof fn lemma_pipeline_split_tiles(
    s: Seq<WindowElement>,
    i: int,
    a1: WindowElement,
    a2: WindowElement,
    st: crate::state::SplitState,
    out: Rect,
)
    requires
        tiles(s, out),
        0 <= i < s.len(),
        s[i].wf(),
        a1.spec_geometry() == (Rect {
            loc: s[i].spec_geometry().loc,
            size: crate::pipeline::split_a_size(s[i], st),
        }),
        a2.spec_geometry() == crate::pipeline::split_b_rect(s[i], st),
    ensures
        tiles(s.update(i, a1).push(a2), out),
{
    let g = s[i].spec_geometry().size;
    match st {
        crate::state::SplitState::H => {
            lemma_split_h_preserves_tiling(s, i, a1, a2, g.w as int / 2, out);
        },
        crate::state::SplitState::V => {
            lemma_split_v_preserves_tiling(s, i, a1, a2, g.h as int / 2, out);
        },
    }
}


/// Tiling only reads the layout rectangles: two contents equal rectangle
/// by rectangle tile the same outputs.
pub proof fn lemma_tiles_same_geometry(s: Seq<WindowElement>, t: Seq<WindowElement>, out: Rect)
    requires
        s.len() == t.len(),
        forall|k: int|
            0 <= k < s.len() ==> (#[trigger] t[k]).spec_geometry() == s[k].spec_geometry(),
        tiles(s, out),
    ensures
        tiles(t, out),
{
    assert forall|k: int, l: int, px: int, py: int|
        #![trigger rect_contains(t[k].spec_geometry(), px, py), rect_contains(t[l].spec_geometry(), px, py)]
        0 <= k < l < t.len() implies !(rect_contains(t[k].spec_geometry(), px, py)
        && rect_contains(t[l].spec_geometry(), px, py)) by {
        assert(t[k].spec_geometry() == s[k].spec_geometry());
        assert(t[l].spec_geometry() == s[l].spec_geometry());
        assert(!(rect_contains(s[k].spec_geometry(), px, py) && rect_contains(
            s[l].spec_geometry(),
            px,
            py,
        )));
    }
    assert forall|px: int, py: int| rect_contains(out, px, py) implies exists|c: int|
        0 <= c < t.len() && rect_contains(#[trigger] t[c].spec_geometry(), px, py) by {
        let k = choose|k: int| 0 <= k < s.len() && rect_contains(
            #[trigger] s[k].spec_geometry(),
            px,
            py,
        );
        assert(rect_contains(t[k].spec_geometry(), px, py));
    }
}

/// A window whose layout rectangle has no extent covers nothing, so
/// dropping it keeps a tiling a tiling.
pub proof fn lemma_tiles_remove_empty(s: Seq<WindowElement>, i: int, out: Rect)
    requires
        tiles(s, out),
        0 <= i < s.len(),
        s[i].spec_geometry().size.w == 0 || s[i].spec_geometry().size.h == 0,
    ensures
        tiles(s.remove(i), out),
{
    let t = s.remove(i);
    assert(forall|k: int| 0 <= k < i ==> t[k] == s[k]);
    assert(forall|k: int| i <= k < t.len() ==> t[k] == s[k + 1]);
    assert forall|k: int, l: int, px: int, py: int|
        #![trigger rect_contains(t[k].spec_geometry(), px, py), rect_contains(t[l].spec_geometry(), px, py)]
        0 <= k < l < t.len() implies !(rect_contains(t[k].spec_geometry(), px, py)
        && rect_contains(t[l].spec_geometry(), px, py)) by {
        let k0 = if k < i { k } else { k + 1 };
        let l0 = if l < i { l } else { l + 1 };
        assert(t[k] == s[k0] && t[l] == s[l0]);
        assert(!(rect_contains(s[k0].spec_geometry(), px, py) && rect_contains(
            s[l0].spec_geometry(),
            px,
            py,
        )));
    }
    assert forall|px: int, py: int| rect_contains(out, px, py) implies exists|c: int|
        0 <= c < t.len() && rect_contains(#[trigger] t[c].spec_geometry(), px, py) by {
        let k = choose|k: int| 0 <= k < s.len() && rect_contains(
            #[trigger] s[k].spec_geometry(),
            px,
            py,
        );
        assert(k != i);
        if k < i {
            assert(rect_contains(t[k].spec_geometry(), px, py));
        } else {
            assert(t[k - 1] == s[k]);
            assert(rect_contains(t[k - 1].spec_geometry(), px, py));
        }
    }
}


/// Some window is activated, so a bottom-most activated one exists.
pub proof fn lemma_first_activated_exists(s: Seq<WindowElement>, j: int)
    requires
        0 <= j < s.len(),
        s[j].activated,
    ensures
        is_first_activated(s, first_activated_idx(s)),
    decreases j,
{
    if forall|k: int| 0 <= k < j ==> !(#[trigger] s[k]).activated {
        assert(is_first_activated(s, j));
    } else {
        let k = choose|k: int| 0 <= k < j && (#[trigger] s[k]).activated;
        lemma_first_activated_exists(s, k);
    }
    let i0 = first_activated_idx(s);
    assert(is_first_activated(s, i0));
}

/// The single-window step of the pipeline yields a tiling: with one
/// registered window sitting at the output's corner, the step leaves it
/// with the whole output as its layout rectangle, which tiles the
/// output.
pub proof fn lemma_step_one_tiles(m: ModelState, surface: u64, out: Rect)
    requires
        space_wf(m.windows),
        size_wf(m.output_size),
        m.windows.len() == 1,
        contains_handle(m.windows, surface),
        out == (Rect { loc: window_of(m.windows, surface).loc, size: m.output_size }),
    ensures
        tiles(step_one(m, surface).0.windows, out),
{
    let s = m.windows;
    let w = window_of(s, surface);
    let i = crate::space::idx_of(s, surface);
    assert(0 <= i < 1 && s[i].handle == surface);
    assert(s[i].wf());
    let end = Point {
        x: (w.loc.x + m.output_size.w) as i32,
        y: (w.loc.y + m.output_size.h) as i32,
    };
    let w2 = with_pending(w, w.loc, end);
    let t = step_one(m, surface).0.windows;
    assert(spec_remove_handle(s, surface) =~= Seq::<WindowElement>::empty());
    assert(spec_deactivate_all(Seq::<WindowElement>::empty()) =~= Seq::<
        WindowElement,
    >::empty());
    assert(t =~= seq![placed(w2, w.loc, true)]);
    assert(placed(w2, w.loc, true).spec_geometry() == out);
    lemma_single_window_tiles(placed(w2, w.loc, true), out);
    lemma_tiles_same_geometry(seq![placed(w2, w.loc, true)], t, out);
}

/// The split step of the pipeline preserves the tiling as it actually
/// rewrites the registry: starting from a tiling, with the committing
/// window still showing nothing (a fresh window before its first
/// resize) and distinct from the activated one, the step's result tiles
/// the output.  The committing window's empty rectangle leaves, the
/// activated tile shrinks to its kept half, and the newcomer takes the
/// vacated half.
pub proof fn lemma_step_split_tiles(m: ModelState, surface: u64, out: Rect)
    requires
        space_wf(m.windows),
        tiles(m.windows, out),
        !no_activated(m.windows),
        contains_handle(m.windows, surface),
        window_of(m.windows, surface).spec_geometry().size.w == 0 || window_of(
            m.windows,
            surface,
        ).spec_geometry().size.h == 0,
        m.windows[first_activated_idx(m.windows)].handle != surface,
        point_wf(split_b_rect(m.windows[first_activated_idx(m.windows)], m.splitstate).loc),
    ensures
        tiles(step_split(m, surface).0.windows, out),
{
    let s = m.windows;
    let j0 = choose|j: int| 0 <= j < s.len() && (#[trigger] s[j]).activated;
    lemma_first_activated_exists(s, j0);
    let ia = first_activated_idx(s);
    let a = s[ia];
    lemma_idx_of(s, ia);
    let st = m.splitstate;
    let g = a.spec_geometry().size;
    assert(a.wf());
    assert(0 <= g.w / 2 <= g.w && 0 <= g.h / 2 <= g.h);
    let brect = split_b_rect(a, st);
    let aend = split_a_end(a, st);
    let a1 = with_pending(window_of(s, a.handle), a.loc, aend);
    let s1 = spec_set_pending(s, a.handle, a.loc, aend);
    assert(s1 == s.update(ia, a1));
    assert(forall|k: int| 0 <= k < s.len() ==> (#[trigger] s1[k]).handle == s[k].handle);
    lemma_same_handles_contains(s1, s);
    let ib = crate::space::idx_of(s, surface);
    assert(0 <= ib < s.len() && s[ib].handle == surface);
    assert(ib != ia);
    assert(s[ib].wf());
    assert forall|k: int, l: int| 0 <= k < l < s1.len() implies s1[k].handle
        != s1[l].handle by {
        assert(s1[k].handle == s[k].handle && s1[l].handle == s[l].handle);
    }
    lemma_idx_of(s1, ib);
    let b = window_of(s1, surface);
    assert(b == s[ib]);
    let bend = Point {
        x: (brect.loc.x + brect.size.w) as i32,
        y: (brect.loc.y + brect.size.h) as i32,
    };
    let b2 = with_pending(b, brect.loc, bend);
    let a2v = placed(b2, brect.loc, true);
    let t = step_split(m, surface).0.windows;
    let base0 = s1.remove(ib);
    assert(t == spec_deactivate_all(base0).push(a2v));
    // the abstract split shape tiles
    assert(a1.spec_geometry() == (Rect { loc: s[ia].spec_geometry().loc, size: split_a_size(s[ia], st) }));
    assert(a2v.spec_geometry() == split_b_rect(s[ia], st));
    lemma_pipeline_split_tiles(s, ia, a1, a2v, st, out);
    let u = s.update(ia, a1).push(a2v);
    // the committing window's entry in that shape is its old empty one
    assert(u[ib] == s[ib]);
    assert(u[ib].spec_geometry().size.w == 0 || u[ib].spec_geometry().size.h == 0);
    lemma_tiles_remove_empty(u, ib, out);
    let ur = u.remove(ib);
    // the actual result equals that shape rectangle by rectangle
    assert(ur.len() == t.len());
    assert forall|k: int| 0 <= k < ur.len() implies (#[trigger] t[k]).spec_geometry()
        == ur[k].spec_geometry() by {
        if k < ur.len() - 1 {
            assert(t[k] == deactivated(base0[k]));
            if k < ib {
                assert(base0[k] == s1[k] && ur[k] == u[k] && u[k] == s1[k]);
            } else {
                assert(base0[k] == s1[k + 1] && ur[k] == u[k + 1] && u[k + 1] == s1[k + 1]);
            }
        } else {
            assert(t[k] == a2v && ur[k] == u[u.len() - 1] && u[u.len() - 1] == a2v);
        }
    }
    lemma_tiles_same_geometry(ur, t, out);
}


/// Committing a pending rectangle keeps the registry well formed: no
/// handle changes, and the committed size is the pending extent, which
/// the window's own bounds already limit.
pub proof fn lemma_commit_pending_wf(s: Seq<WindowElement>, handle: u64)
    requires
        space_wf(s),
    ensures
        space_wf(spec_commit_pending(s, handle)),
        spec_commit_pending(s, handle).len() == s.len(),
        forall|i: int|
            0 <= i < s.len() ==> (#[trigger] spec_commit_pending(s, handle)[i]).handle
                == s[i].handle,
{
    let t = spec_commit_pending(s, handle);
    assert forall|i: int| 0 <= i < t.len() implies (#[trigger] t[i]).wf() && t[i].handle
        == s[i].handle by {
        assert(s[i].wf());
    }
    assert forall|k: int, l: int| 0 <= k < l < t.len() implies t[k].handle != t[l].handle by {
        assert(t[k].handle == s[k].handle && t[l].handle == s[l].handle);
    }
}

/// The pipeline's single completion step keeps a tiling: it only commits
/// a pending rectangle, which never moves the layout.
pub proof fn lemma_step_finished_keeps_tiling(m: ModelState, out: Rect)
    requires
        space_wf(m.windows),
        tiles(m.windows, out),
    ensures
        tiles(step_finished(m).0.windows, out),
{
    match m.reseize {
        PeddingResize::ResizeFinished(surface) => {
            if m.wmstatus == crate::state::WmStatus::Tile && contains_handle(m.windows, surface) {
                lemma_commit_keeps_layout(m.windows, surface, out);
            }
        },
        _ => {},
    }
}

/// The pipeline's split completion step keeps a tiling: both commits
/// only take pending rectangles over, moving nothing.
pub proof fn lemma_step_split_finished_keeps_tiling(m: ModelState, out: Rect)
    requires
        space_wf(m.windows),
        tiles(m.windows, out),
    ensures
        tiles(step_split_finished(m).0.windows, out),
{
    match m.reseize {
        PeddingResize::ResizeTwoWindowFinished(pair) => {
            if m.wmstatus == crate::state::WmStatus::Tile && contains_handle(m.windows, pair.0)
                && contains_handle(m.windows, pair.1) {
                lemma_commit_keeps_layout(m.windows, pair.0, out);
                lemma_commit_pending_wf(m.windows, pair.0);
                lemma_commit_keeps_layout(spec_commit_pending(m.windows, pair.0), pair.1, out);
            }
        },
        _ => {},
    }
}

/// Committing any list of pending rectangles keeps a tiling.
pub proof fn lemma_apply_commits_keeps_tiling(s: Seq<WindowElement>, hs: Seq<u64>, out: Rect)
    requires
        space_wf(s),
        tiles(s, out),
    ensures
        space_wf(apply_commits(s, hs)),
        tiles(apply_commits(s, hs), out),
    decreases hs.len(),
{
    if hs.len() > 0 {
        lemma_apply_commits_keeps_tiling(s, hs.drop_last(), out);
        lemma_commit_keeps_layout(apply_commits(s, hs.drop_last()), hs.last(), out);
        lemma_commit_pending_wf(apply_commits(s, hs.drop_last()), hs.last());
    }
}

/// The backfill's completion step keeps a tiling: it only commits the
/// awaited windows' pending rectangles, in order, moving nothing.
pub proof fn lemma_step_mul_finished_keeps_tiling(m: ModelState, out: Rect)
    requires
        space_wf(m.windows),
        tiles(m.windows, out),
    ensures
        tiles(step_mul_finished(m).0.windows, out),
{
    match m.removed {
        crate::compositor::RemovedModel::Pending(hs) => {
            let k = first_absent(m.windows, hs);
            lemma_apply_commits_keeps_tiling(m.windows, hs.take(k), out);
        },
        _ => {},
    }
}


/// A steady-state commit keeps the tiling: while no resize negotiation
/// is armed and no vacated region is pending, the whole commit dispatch
/// moves no layout rectangle, so a tiling survives every such commit.
/// Together with the step theorems above this covers the tiling mode's
/// transitions: a lone window's resize establishes the tiling, a split
/// preserves it, the completion steps and every later commit keep it.
pub proof fn lemma_commit_steady_keeps_tiling(
    m: ModelState,
    surface: u64,
    ics: bool,
    out: Rect,
)
    requires
        space_wf(m.windows),
        tiles(m.windows, out),
        m.removed is NoState,
        !(m.reseize is Resizing),
    ensures
        tiles(spec_commit(m, surface, ics).0.windows, out),
{
    let m1 = step_note(m, surface, ics).0;
    let m2 = step_removed_mul(m1).0;
    let m3 = step_mul_finished(m2).0;
    assert(m3.windows == m.windows);
    if m3.wmstatus == crate::state::WmStatus::Tile {
        let m4 = step_changing(m3).0;
        assert(m4.windows == m.windows);
        lemma_step_finished_keeps_tiling(m4, out);
        let m5 = step_finished(m4).0;
        assert(space_wf(m5.windows)) by {
            match m4.reseize {
                PeddingResize::ResizeFinished(h) => {
                    lemma_commit_pending_wf(m4.windows, h);
                },
                _ => {},
            }
        }
        lemma_step_split_finished_keeps_tiling(m5, out);
    }
}

} // verus!
