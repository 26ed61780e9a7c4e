//! Tests for the registry operations, the interactive grabs, and the
//! input dispatch.

use flyja::geometry::{Point, Size};
use flyja::grab::GrabStartData;
use flyja::input::{InputEvent, InputResult, KeyAction, ModifiersState};
use flyja::shell::WindowElement;
use flyja::state::{FlyJa, SplitState, WmStatus};
use flyja::xdg_shell::{check_grab, ResizeEdge};

fn window(handle: u64, x: i32, y: i32, w: i32, h: i32) -> WindowElement {
    WindowElement {
        handle,
        loc: Point { x, y },
        size: Size { w, h },
        resize_size: None,
        activated: false,
    }
}

fn place(st: &mut FlyJa, w: WindowElement) {
    let loc = w.loc;
    st.space.map_element(w, loc, false);
}

#[test]
fn map_is_idempotent() {
    let mut st = FlyJa::init(Size { w: 1920, h: 1080 });
    let w = window(1, 0, 0, 100, 100);
    let p = Point { x: 40, y: 60 };
    st.space.map_element(w, p, true);
    st.space.map_element(w, p, true);
    assert_eq!(st.space.len(), 1);
    assert_eq!(st.space.element_location(1), Some(p));
}

#[test]
fn grab_lifecycle_moves_then_releases() {
    let mut st = FlyJa::init(Size { w: 1920, h: 1080 });
    st.wmstatus.status_change();
    assert_eq!(st.wmstatus, WmStatus::Stack);
    place(&mut st, window(1, 0, 0, 200, 200));
    let start = check_grab(true, true, Point { x: 100, y: 100 }).unwrap();
    let grab = st.move_request(1, Some(start)).unwrap();
    assert_eq!(grab.initial_window_location, Point { x: 0, y: 0 });
    grab.motion(&mut st, Point { x: 150, y: 130 });
    assert_eq!(st.space.element_location(1), Some(Point { x: 50, y: 30 }));
    // button release with no remaining pressed buttons ends the grab
    assert!(grab.button_releases(&vec![]));
    drop(grab);
    // later motion only tracks the pointer; the window stays
    let r = st.process_input_event(InputEvent::PointerMotionAbsolute {
        position: Point { x: 600, y: 700 },
    });
    assert!(matches!(r, InputResult::Motion { .. }));
    assert_eq!(st.space.element_location(1), Some(Point { x: 50, y: 30 }));
}

#[test]
fn grab_stays_while_a_button_is_pressed() {
    let mut st = FlyJa::init(Size { w: 1920, h: 1080 });
    st.wmstatus.status_change();
    place(&mut st, window(1, 0, 0, 200, 200));
    let grab = st
        .move_request(1, Some(GrabStartData { location: Point { x: 10, y: 10 } }))
        .unwrap();
    assert!(!grab.button_releases(&vec![0x110]));
    assert!(grab.button_releases(&vec![0x111]));
}

#[test]
fn move_request_rejected_while_tiling() {
    let mut st = FlyJa::init(Size { w: 1920, h: 1080 });
    place(&mut st, window(1, 0, 0, 200, 200));
    let grab = st.move_request(1, Some(GrabStartData { location: Point { x: 5, y: 5 } }));
    assert!(grab.is_none());
}

#[test]
fn move_request_needs_a_valid_grab_and_window() {
    let mut st = FlyJa::init(Size { w: 1920, h: 1080 });
    st.wmstatus.status_change();
    place(&mut st, window(1, 0, 0, 200, 200));
    assert!(st.move_request(1, None).is_none());
    assert!(check_grab(false, true, Point { x: 0, y: 0 }).is_none());
    assert!(check_grab(true, false, Point { x: 0, y: 0 }).is_none());
    let ok = GrabStartData { location: Point { x: 0, y: 0 } };
    assert!(st.move_request(2, Some(ok)).is_none());
}

#[test]
fn resize_request_finds_the_spanning_neighbor() {
    let mut st = FlyJa::init(Size { w: 1920, h: 1080 });
    place(&mut st, window(1, 0, 0, 960, 1080));
    place(&mut st, window(2, 960, 0, 960, 1080));
    let start = GrabStartData { location: Point { x: 960, y: 500 } };
    let grab = st.resize_request(2, Some(start), ResizeEdge::Left).unwrap();
    assert_eq!(grab.pined_elements.len(), 1);
    assert_eq!(grab.pined_elements[0].handle, 1);
    assert_eq!(grab.moved_elements.len(), 1);
    assert_eq!(grab.moved_elements[0].handle, 2);
    assert!(matches!(
        grab.resize_type,
        flyja::grab::resize_grab::ResizeType::LR
    ));
    // the neighbor spans the edge only completely: a shorter one fails
    let mut st = FlyJa::init(Size { w: 1920, h: 1080 });
    place(&mut st, window(1, 0, 0, 960, 540));
    place(&mut st, window(2, 960, 0, 960, 1080));
    assert!(st.resize_request(2, Some(start), ResizeEdge::Left).is_none());
}

#[test]
fn resize_request_vertical_axis() {
    let mut st = FlyJa::init(Size { w: 1920, h: 1080 });
    place(&mut st, window(1, 0, 0, 1920, 540));
    place(&mut st, window(2, 0, 540, 1920, 540));
    let start = GrabStartData { location: Point { x: 500, y: 540 } };
    let grab = st.resize_request(2, Some(start), ResizeEdge::Top).unwrap();
    assert_eq!(grab.pined_elements[0].handle, 1);
    assert!(matches!(
        grab.resize_type,
        flyja::grab::resize_grab::ResizeType::HV
    ));
    assert!(st.resize_request(2, Some(start), ResizeEdge::NoEdge).is_none());
}

#[test]
fn click_raises_and_focuses_the_window_under_the_pointer() {
    let mut st = FlyJa::init(Size { w: 1920, h: 1080 });
    place(&mut st, window(1, 0, 0, 1920, 1080));
    place(&mut st, window(2, 0, 0, 400, 400));
    st.process_input_event(InputEvent::PointerMotionAbsolute {
        position: Point { x: 1000, y: 1000 },
    });
    // the small window is on top but the pointer is outside it
    let r = st.process_input_event(InputEvent::PointerButton {
        button: 0x110,
        pressed: true,
        pointer_grabbed: false,
    });
    match r {
        InputResult::Focus { target, configures } => {
            assert_eq!(target, Some(1));
            assert_eq!(configures.len(), 2);
        },
        _ => panic!("expected a focus result"),
    }
    let w1 = st.window_for_surface(1).unwrap();
    assert!(w1.activated);
    let w2 = st.window_for_surface(2).unwrap();
    assert!(!w2.activated);
}

#[test]
fn click_on_empty_space_clears_focus_and_activation() {
    let mut st = FlyJa::init(Size { w: 1920, h: 1080 });
    let mut w = window(1, 0, 0, 400, 400);
    w.activated = true;
    place(&mut st, w);
    st.process_input_event(InputEvent::PointerMotionAbsolute {
        position: Point { x: 1500, y: 900 },
    });
    let r = st.process_input_event(InputEvent::PointerButton {
        button: 0x110,
        pressed: true,
        pointer_grabbed: false,
    });
    match r {
        InputResult::Focus { target, configures } => {
            assert_eq!(target, None);
            assert_eq!(configures.len(), 1);
        },
        _ => panic!("expected a focus result"),
    }
    assert!(!st.window_for_surface(1).unwrap().activated);
}

#[test]
fn motion_reports_the_window_under_the_pointer() {
    let mut st = FlyJa::init(Size { w: 1920, h: 1080 });
    place(&mut st, window(1, 100, 100, 200, 200));
    let r = st.process_input_event(InputEvent::PointerMotionAbsolute {
        position: Point { x: 150, y: 150 },
    });
    match r {
        InputResult::Motion { under } => {
            assert_eq!(under, Some((1, Point { x: 100, y: 100 })));
        },
        _ => panic!("expected a motion result"),
    }
    let r = st.process_input_event(InputEvent::PointerMotionAbsolute {
        position: Point { x: 999, y: 999 },
    });
    match r {
        InputResult::Motion { under } => assert_eq!(under, None),
        _ => panic!("expected a motion result"),
    }
}

#[test]
fn keyboard_shortcuts_map_to_actions() {
    let logo = ModifiersState { ctrl: false, alt: false, shift: false, logo: true };
    let logo_shift = ModifiersState { shift: true, ..logo };
    let ctrl_alt = ModifiersState { ctrl: true, alt: true, shift: false, logo: false };
    let none = ModifiersState::default();
    let run = |m: ModifiersState, k: u32| flyja::input::process_keyboard_shortcut(m, k);
    assert_eq!(run(ctrl_alt, 0xff08), Some(KeyAction::Quit));
    assert_eq!(run(logo, 0x71), Some(KeyAction::Quit));
    assert_eq!(run(logo, 0xff0d), Some(KeyAction::Run("alacritty".to_owned())));
    assert_eq!(run(logo, 0x33), Some(KeyAction::Screen(2)));
    assert_eq!(run(logo, 0x74), Some(KeyAction::ToggleMode));
    assert_eq!(run(logo, 0x68), Some(KeyAction::SetSplit(SplitState::H)));
    assert_eq!(run(logo, 0x76), Some(KeyAction::SetSplit(SplitState::V)));
    assert_eq!(run(logo_shift, 0x4d), Some(KeyAction::ScaleDown));
    assert_eq!(run(logo_shift, 0x50), Some(KeyAction::ScaleUp));
    assert_eq!(run(logo_shift, 0x57), Some(KeyAction::TogglePreview));
    assert_eq!(run(logo_shift, 0x52), Some(KeyAction::RotateOutput));
    assert_eq!(run(logo_shift, 0x54), Some(KeyAction::ToggleTint));
    assert_eq!(run(none, 0x71), None);
    assert_eq!(run(logo, 0x30), None);
}

#[test]
fn key_release_is_only_forwarded() {
    let mut st = FlyJa::init(Size { w: 1920, h: 1080 });
    let logo = ModifiersState { ctrl: false, alt: false, shift: false, logo: true };
    let r = st.process_input_event(InputEvent::Keyboard {
        pressed: false,
        modifiers: logo,
        keysym: 0x71,
    });
    assert_eq!(r, InputResult::Forwarded);
    let r = st.process_input_event(InputEvent::Keyboard {
        pressed: true,
        modifiers: logo,
        keysym: 0x71,
    });
    assert_eq!(r, InputResult::Action(KeyAction::Quit));
}

#[test]
fn activation_request_honored_only_while_fresh() {
    let mut st = FlyJa::init(Size { w: 1920, h: 1080 });
    place(&mut st, window(1, 0, 0, 100, 100));
    place(&mut st, window(2, 0, 0, 100, 100));
    assert!(st.request_activation(1, 3));
    // window 1 is now on top
    assert_eq!(st.space.element_under(Point { x: 50, y: 50 }), Some(1));
    assert!(!st.request_activation(2, 11));
    assert_eq!(st.space.element_under(Point { x: 50, y: 50 }), Some(1));
}

#[test]
fn resize_finished_tolerates_five_units() {
    let w = WindowElement {
        handle: 1,
        loc: Point { x: 0, y: 0 },
        size: Size { w: 500, h: 500 },
        resize_size: Some((Point { x: 4, y: 0 }, Point { x: 504, y: 496 })),
        activated: false,
    };
    assert!(w.is_resize_finished());
    let w2 = WindowElement {
        resize_size: Some((Point { x: 5, y: 0 }, Point { x: 500, y: 500 })),
        ..w
    };
    assert!(!w2.is_resize_finished());
    let w3 = WindowElement { resize_size: None, ..w };
    assert!(!w3.is_resize_finished());
}

#[test]
fn pending_size_overrides_geometry() {
    let mut w = window(1, 10, 20, 300, 200);
    assert_eq!(w.get_pedding_size(), Size { w: 300, h: 200 });
    w = w.set_resize_size((Point { x: 10, y: 20 }, Point { x: 110, y: 70 }));
    assert_eq!(w.get_pedding_size(), Size { w: 100, h: 50 });
    let g = w.geometry();
    assert_eq!(g.loc, Point { x: 10, y: 20 });
    assert_eq!(g.size, Size { w: 100, h: 50 });
}

#[test]
fn remap_element_drops_the_pending_rectangle() {
    let mut st = FlyJa::init(Size { w: 1920, h: 1080 });
    let w = window(1, 10, 20, 300, 200)
        .set_resize_size((Point { x: 10, y: 20 }, Point { x: 110, y: 70 }));
    place(&mut st, w);
    w.remap_element(&mut st.space);
    let w2 = st.window_for_surface(1).unwrap();
    assert_eq!(w2.resize_size, None);
    assert_eq!(w2.loc, Point { x: 10, y: 20 });
    assert!(w2.activated);
}
