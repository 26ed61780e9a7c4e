//! Scenario tests for the resize pipeline: a lone window taking the
//! whole output, and the split of the activated window with a newcomer.

use flyja::geometry::{Point, Size};
use flyja::state::{FlyJa, PeddingResize, SplitState, TileHint, WmStatus};

#[test]
fn single_window_resize() {
    let mut st = FlyJa::init(Size { w: 1920, h: 1080 });
    st.new_toplevel(1);
    assert_eq!(st.reseize_state, PeddingResize::Resizing(1));
    let cfgs = st.commit(1, false);
    assert_eq!(st.reseize_state, PeddingResize::Stop);
    let w = st.window_for_surface(1).unwrap();
    assert_eq!(w.loc, Point { x: 0, y: 0 });
    assert_eq!(w.size, Size { w: 1920, h: 1080 });
    assert_eq!(w.resize_size, None);
    // the initial bare configure, the proposed size, and the final one
    assert_eq!(cfgs.len(), 3);
    assert_eq!(cfgs[1].window, 1);
    assert_eq!(cfgs[1].size, Some(Size { w: 1920, h: 1080 }));
    assert!(cfgs[1].resizing);
    assert_eq!(cfgs[2].window, 1);
    assert!(!cfgs[2].resizing);
}

#[test]
fn horizontal_split() {
    let mut st = FlyJa::init(Size { w: 1920, h: 1080 });
    st.new_toplevel(1);
    st.commit(1, false);
    assert_eq!(st.splitstate, SplitState::H);
    st.new_toplevel(2);
    assert_eq!(st.reseize_state, PeddingResize::Resizing(2));
    let cfgs = st.commit(2, false);
    assert_eq!(st.reseize_state, PeddingResize::Stop);
    let a = st.window_for_surface(1).unwrap();
    let b = st.window_for_surface(2).unwrap();
    assert_eq!(a.loc, Point { x: 0, y: 0 });
    assert_eq!(a.size, Size { w: 960, h: 1080 });
    assert_eq!(b.loc, Point { x: 960, y: 0 });
    assert_eq!(b.size, Size { w: 960, h: 1080 });
    // bare initial configure, halved size for 1, vacated half for 2,
    // and the two final configures
    assert!(cfgs
        .iter()
        .any(|c| c.window == 1 && c.size == Some(Size { w: 960, h: 1080 }) && c.resizing));
    assert!(cfgs
        .iter()
        .any(|c| c.window == 2 && c.size == Some(Size { w: 960, h: 1080 }) && c.resizing));
    assert!(cfgs.iter().any(|c| c.window == 1 && c.size == None && !c.resizing));
    assert!(cfgs.iter().any(|c| c.window == 2 && c.size == None && !c.resizing));
}

#[test]
fn vertical_split() {
    let mut st = FlyJa::init(Size { w: 1920, h: 1080 });
    st.new_toplevel(1);
    st.commit(1, false);
    let hint = st.set_split_state(SplitState::V);
    assert_eq!(hint, Some((1, TileHint::TiledBottom)));
    st.new_toplevel(2);
    st.commit(2, false);
    let a = st.window_for_surface(1).unwrap();
    let b = st.window_for_surface(2).unwrap();
    assert_eq!(a.loc, Point { x: 0, y: 0 });
    assert_eq!(a.size, Size { w: 1920, h: 540 });
    assert_eq!(b.loc, Point { x: 0, y: 540 });
    assert_eq!(b.size, Size { w: 1920, h: 540 });
}

#[test]
fn odd_width_split_leaves_no_gap() {
    let mut st = FlyJa::init(Size { w: 1921, h: 1080 });
    st.new_toplevel(1);
    st.commit(1, false);
    st.new_toplevel(2);
    st.commit(2, false);
    let a = st.window_for_surface(1).unwrap();
    let b = st.window_for_surface(2).unwrap();
    // halving truncates for the kept side; the newcomer takes the rest
    assert_eq!(a.size, Size { w: 960, h: 1080 });
    assert_eq!(b.loc, Point { x: 960, y: 0 });
    assert_eq!(b.size, Size { w: 961, h: 1080 });
}

#[test]
fn new_window_does_not_preempt_busy_pipeline() {
    let mut st = FlyJa::init(Size { w: 1920, h: 1080 });
    st.new_toplevel(1);
    assert_eq!(st.reseize_state, PeddingResize::Resizing(1));
    st.new_toplevel(2);
    // the pipeline still awaits window 1
    assert_eq!(st.reseize_state, PeddingResize::Resizing(1));
}

#[test]
fn stack_mode_runs_no_tiling_pipeline() {
    let mut st = FlyJa::init(Size { w: 1920, h: 1080 });
    st.wmstatus.status_change();
    assert_eq!(st.wmstatus, WmStatus::Stack);
    st.new_toplevel(1);
    // outside tiling mode the mapping does not start a negotiation
    assert_eq!(st.reseize_state, PeddingResize::Stop);
    let cfgs = st.commit(1, false);
    // the initial commit owes its bare configure and records the window
    assert_eq!(cfgs.len(), 1);
    assert_eq!(st.reseize_state, PeddingResize::ResizeFinished(1));
    let w = st.window_for_surface(1).unwrap();
    assert_eq!(w.size, Size { w: 0, h: 0 });
}

#[test]
fn place_stack_to_center_centers_the_window() {
    let mut st = FlyJa::init(Size { w: 1920, h: 1080 });
    st.wmstatus.status_change();
    st.new_toplevel(1);
    st.space.set_pending(1, Point { x: 0, y: 0 }, Point { x: 400, y: 200 });
    st.space.commit_pending(1);
    st.commit(1, false);
    assert_eq!(st.reseize_state, PeddingResize::ResizeFinished(1));
    st.handle_place_stack_to_center();
    assert_eq!(st.reseize_state, PeddingResize::Stop);
    let w = st.window_for_surface(1).unwrap();
    assert_eq!(w.loc, Point { x: 760, y: 440 });
}

#[test]
fn mode_toggle_involution() {
    let mut s = WmStatus::Tile;
    s.status_change();
    assert_eq!(s, WmStatus::Stack);
    s.status_change();
    assert_eq!(s, WmStatus::Tile);
    let mut t = WmStatus::Stack;
    t.status_change();
    t.status_change();
    assert_eq!(t, WmStatus::Stack);
}

#[test]
fn set_split_state_without_activated_window() {
    let mut st = FlyJa::init(Size { w: 1920, h: 1080 });
    assert_eq!(st.set_split_state(SplitState::V), None);
    assert_eq!(st.splitstate, SplitState::V);
}

#[test]
fn publish_commit_targets_bottom_window() {
    let mut st = FlyJa::init(Size { w: 1920, h: 1080 });
    assert_eq!(st.publish_commit(), None);
    st.new_toplevel(7);
    st.new_toplevel(9);
    let c = st.publish_commit().unwrap();
    assert_eq!(c.window, 7);
    assert_eq!(c.size, None);
    assert!(!c.resizing);
}

#[test]
fn unknown_surface_commit_is_a_no_op() {
    let mut st = FlyJa::init(Size { w: 1920, h: 1080 });
    st.new_toplevel(1);
    // the commit bookkeeping ignores a surface it does not know
    assert_eq!(st.handle_window_commit(99, false), None);
    assert!(st.window_for_surface(99).is_none());
    assert_eq!(st.reseize_state, PeddingResize::Resizing(1));
}
