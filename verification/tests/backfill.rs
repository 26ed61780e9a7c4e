//! Scenario tests for window removal and the adjacency-driven backfill.

use flyja::geometry::{Point, Size};
use flyja::shell::WindowElement;
use flyja::state::{FlyJa, WindowRemoved};

fn window(handle: u64, x: i32, y: i32, w: i32, h: i32) -> WindowElement {
    WindowElement {
        handle,
        loc: Point { x, y },
        size: Size { w, h },
        resize_size: None,
        activated: false,
    }
}

fn place(st: &mut FlyJa, w: WindowElement) {
    let loc = w.loc;
    st.space.map_element(w, loc, false);
}

#[test]
fn down_backfill_selects_and_grows_the_window_below() {
    let mut st = FlyJa::init(Size { w: 1920, h: 1480 });
    place(&mut st, window(1, 0, 0, 960, 1080));
    place(&mut st, window(2, 960, 0, 960, 1080));
    place(&mut st, window(3, 960, 1080, 960, 400));
    let cfgs = st.toplevel_destroyed(2);
    assert!(st.window_for_surface(2).is_none());
    assert_eq!(st.window_remove_state, WindowRemoved::PeddingMutiResizeFinished(vec![3]));
    assert_eq!(cfgs.len(), 1);
    assert_eq!(cfgs[0].window, 3);
    assert_eq!(cfgs[0].size, Some(Size { w: 960, h: 1480 }));
    assert!(cfgs[0].resizing);
    // window 3 now awaits its commit at the grown size
    let d = st.window_for_surface(3).unwrap();
    assert_eq!(d.loc, Point { x: 960, y: 0 });
    assert_eq!(d.resize_size, Some((Point { x: 960, y: 0 }, Point { x: 1920, y: 1480 })));
    // its commit finishes the backfill
    let done = st.commit(3, true);
    assert_eq!(st.window_remove_state, WindowRemoved::NoState);
    let d = st.window_for_surface(3).unwrap();
    assert_eq!(d.loc, Point { x: 960, y: 0 });
    assert_eq!(d.size, Size { w: 960, h: 1480 });
    assert!(done.iter().any(|c| c.window == 3 && c.size == None && !c.resizing));
}

#[test]
fn no_neighbor_leaves_the_gap_and_rests() {
    let mut st = FlyJa::init(Size { w: 1920, h: 1080 });
    place(&mut st, window(2, 960, 0, 960, 1080));
    place(&mut st, window(5, 0, 500, 10, 10));
    let cfgs = st.toplevel_destroyed(2);
    assert!(cfgs.is_empty());
    assert_eq!(st.window_remove_state, WindowRemoved::NoState);
    let e = st.window_for_surface(5).unwrap();
    assert_eq!(e.loc, Point { x: 0, y: 500 });
    assert_eq!(e.size, Size { w: 10, h: 10 });
}

#[test]
fn left_backfill_grows_the_left_neighbor() {
    let mut st = FlyJa::init(Size { w: 1920, h: 1080 });
    place(&mut st, window(1, 0, 0, 960, 1080));
    place(&mut st, window(2, 960, 0, 960, 1080));
    let cfgs = st.toplevel_destroyed(2);
    assert_eq!(cfgs.len(), 1);
    assert_eq!(cfgs[0].window, 1);
    assert_eq!(cfgs[0].size, Some(Size { w: 1920, h: 1080 }));
    let done = st.commit(1, true);
    assert!(done.iter().any(|c| c.window == 1 && !c.resizing));
    let a = st.window_for_surface(1).unwrap();
    assert_eq!(a.loc, Point { x: 0, y: 0 });
    assert_eq!(a.size, Size { w: 1920, h: 1080 });
}

#[test]
fn down_chain_of_two_windows_covers_the_edge() {
    let mut st = FlyJa::init(Size { w: 1920, h: 1480 });
    place(&mut st, window(2, 0, 0, 1920, 1080));
    place(&mut st, window(3, 0, 1080, 1000, 400));
    place(&mut st, window(4, 1000, 1080, 920, 400));
    st.toplevel_destroyed(2);
    assert_eq!(
        st.window_remove_state,
        WindowRemoved::PeddingMutiResizeFinished(vec![3, 4])
    );
    let c = st.window_for_surface(3).unwrap();
    let d = st.window_for_surface(4).unwrap();
    assert_eq!(c.resize_size, Some((Point { x: 0, y: 0 }, Point { x: 1000, y: 1480 })));
    assert_eq!(d.resize_size, Some((Point { x: 1000, y: 0 }, Point { x: 1920, y: 1480 })));
}

#[test]
fn partial_chain_fails_whole_direction() {
    let mut st = FlyJa::init(Size { w: 1920, h: 1480 });
    place(&mut st, window(2, 0, 0, 1920, 1080));
    // covers only part of the bottom edge; nothing continues the chain
    place(&mut st, window(3, 0, 1080, 1000, 400));
    st.toplevel_destroyed(2);
    assert_eq!(st.window_remove_state, WindowRemoved::NoState);
    let c = st.window_for_surface(3).unwrap();
    assert_eq!(c.size, Size { w: 1000, h: 400 });
    assert_eq!(c.resize_size, None);
}

#[test]
fn tolerance_admits_small_misalignment_only() {
    let mut st = FlyJa::init(Size { w: 1920, h: 1480 });
    place(&mut st, window(1, 0, 0, 960, 1080));
    // off by four units: within the tolerance
    place(&mut st, window(3, 964, 1080, 956, 400));
    place(&mut st, window(2, 960, 0, 960, 1080));
    st.toplevel_destroyed(2);
    assert_eq!(st.window_remove_state, WindowRemoved::PeddingMutiResizeFinished(vec![3]));

    let mut st = FlyJa::init(Size { w: 1920, h: 1480 });
    place(&mut st, window(3, 965, 1080, 955, 400));
    place(&mut st, window(2, 960, 0, 960, 1080));
    // off by five units: outside the tolerance, no chain
    st.toplevel_destroyed(2);
    assert_eq!(st.window_remove_state, WindowRemoved::NoState);
}

#[test]
fn vacated_rectangle_uses_pending_size_in_flight() {
    let mut st = FlyJa::init(Size { w: 1920, h: 1080 });
    place(&mut st, window(2, 960, 0, 10, 10));
    // a resize to the full right half is still in flight for window 2
    st.space.set_pending(2, Point { x: 960, y: 0 }, Point { x: 1920, y: 1080 });
    place(&mut st, window(3, 960, 1080, 960, 400));
    st.toplevel_destroyed(2);
    // the vacated rectangle is the pending target, so window 3 matches it
    assert_eq!(st.window_remove_state, WindowRemoved::PeddingMutiResizeFinished(vec![3]));
}

#[test]
fn direction_names_follow_their_edges() {
    // down: windows whose top edge equals the vacated bottom edge
    let mut st = FlyJa::init(Size { w: 1920, h: 1480 });
    place(&mut st, window(3, 960, 1080, 960, 400));
    let start = Point { x: 960, y: 0 };
    let end = Point { x: 1920, y: 1080 };
    let down = st.find_to_resize_v_down(start, end);
    assert_eq!(down.len(), 1);
    assert_eq!(down[0].0, Point { x: 960, y: 0 });
    assert_eq!(down[0].1.handle, 3);
    assert!(st.find_to_resize_v_top(start, end).is_empty());
    assert!(st.find_to_resize_h_left(start, end).is_empty());
    assert!(st.find_to_resize_h_right(start, end).is_empty());

    // left: windows whose right edge equals the vacated left edge
    let mut st = FlyJa::init(Size { w: 1920, h: 1080 });
    place(&mut st, window(1, 0, 0, 960, 1080));
    let left = st.find_to_resize_h_left(start, end);
    assert_eq!(left.len(), 1);
    assert_eq!(left[0].0, Point { x: 0, y: 0 });
    assert_eq!(left[0].1.handle, 1);
    assert!(st.find_to_resize_v_down(start, end).is_empty());

    // top: windows whose bottom edge equals the vacated top edge
    let mut st = FlyJa::init(Size { w: 1920, h: 1480 });
    place(&mut st, window(4, 960, -400, 960, 400));
    let top = st.find_to_resize_v_top(start, end);
    assert_eq!(top.len(), 1);
    assert_eq!(top[0].0, Point { x: 960, y: -400 });
    assert_eq!(top[0].1.handle, 4);

    // right: windows whose left edge equals the vacated right edge
    let mut st = FlyJa::init(Size { w: 2880, h: 1080 });
    place(&mut st, window(5, 1920, 0, 960, 1080));
    let right = st.find_to_resize_h_right(start, end);
    assert_eq!(right.len(), 1);
    assert_eq!(right[0].0, Point { x: 960, y: 0 });
    assert_eq!(right[0].1.handle, 5);
}

#[test]
fn destroying_an_unknown_surface_changes_nothing() {
    let mut st = FlyJa::init(Size { w: 1920, h: 1080 });
    place(&mut st, window(1, 0, 0, 960, 1080));
    let cfgs = st.toplevel_destroyed(42);
    assert!(cfgs.is_empty());
    assert_eq!(st.window_remove_state, WindowRemoved::NoState);
    assert!(st.window_for_surface(1).is_some());
}

#[test]
fn missing_chain_window_stalls_the_finish() {
    let mut st = FlyJa::init(Size { w: 1920, h: 1480 });
    place(&mut st, window(2, 0, 0, 1920, 1080));
    place(&mut st, window(3, 0, 1080, 1000, 400));
    place(&mut st, window(4, 1000, 1080, 920, 400));
    st.toplevel_destroyed(2);
    // window 3 vanishes before acknowledging
    st.space.remove_element(3);
    let cfgs = st.handle_window_mul_removed_finished();
    assert!(cfgs.is_empty());
    // the chain still awaits; nothing was finalized
    assert_eq!(
        st.window_remove_state,
        WindowRemoved::PeddingMutiResizeFinished(vec![3, 4])
    );
    let d = st.window_for_surface(4).unwrap();
    assert!(d.resize_size.is_some());
}
