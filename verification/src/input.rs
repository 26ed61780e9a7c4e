//! Input handling: the fixed keyboard lookup table, and the dispatch of
//! pointer events onto the registry (raise and focus on click, pointer
//! tracking on motion).

use vstd::prelude::*;

use crate::geometry::{point_wf, Point};
use crate::space::{
    spec_deactivate_all, spec_element_under, spec_map, window_of, contains_handle,
};
use crate::state::{ConfigureRequest, FlyJa, SplitState};

verus! {

/// Keysym of the Backspace key.
pub const KEY_BACKSPACE: u32 = 0xff08;

/// Keysym of the Return key.
pub const KEY_RETURN: u32 = 0xff0d;

/// Keysym of the lower-case letter q.
pub const KEY_Q: u32 = 0x71;

/// Keysym of the digit 1.
pub const KEY_1: u32 = 0x31;

/// Keysym of the digit 9.
pub const KEY_9: u32 = 0x39;

/// Keysym of the upper-case letter M.
pub const KEY_M: u32 = 0x4d;

/// Keysym of the upper-case letter P.
pub const KEY_P: u32 = 0x50;

/// Keysym of the upper-case letter W.
pub const KEY_W: u32 = 0x57;

/// Keysym of the upper-case letter R.
pub const KEY_R: u32 = 0x52;

/// Keysym of the upper-case letter T.
pub const KEY_T: u32 = 0x54;

/// Keysym of the lower-case letter t.
pub const KEY_T_LOWER: u32 = 0x74;

/// Keysym of the lower-case letter h.
pub const KEY_H_LOWER: u32 = 0x68;

/// Keysym of the lower-case letter v.
pub const KEY_V_LOWER: u32 = 0x76;

/// Modifier keys held with a key press.
#[derive(Clone, Copy, PartialEq, Eq, Structural, Debug, Default)]
pub struct ModifiersState {
    /// A Control key is held.
    pub ctrl: bool,
    /// An Alt key is held.
    pub alt: bool,
    /// A Shift key is held.
    pub shift: bool,
    /// A Logo (Super) key is held.
    pub logo: bool,
}

/// What a keyboard shortcut asks for.
#[derive(Clone, PartialEq, Eq, Debug)]
pub enum KeyAction {
    /// Quit the compositor.
    Quit,
    /// Run a command.
    Run(String),
    /// Flip between tiling and stacking.
    ToggleMode,
    /// Record the split axis for the next insertion.
    SetSplit(SplitState),
    /// Switch to the screen with this index.
    Screen(usize),
    /// Scale the output up.
    ScaleUp,
    /// Scale the output down.
    ScaleDown,
    /// Toggle the preview mode.
    TogglePreview,
    /// Rotate the output.
    RotateOutput,
    /// Toggle the tint.
    ToggleTint,
    /// Do nothing more.
    NoAction,
}

/// Some shortcut of the table is bound to this key with these modifiers.
pub open spec fn shortcut_hit(m: ModifiersState, k: u32) -> bool {
    ||| m.ctrl && m.alt && k == KEY_BACKSPACE
    ||| m.logo && k == KEY_Q
    ||| m.logo && k == KEY_RETURN
    ||| m.logo && KEY_1 <= k <= KEY_9
    ||| m.logo && !m.shift && (k == KEY_T_LOWER || k == KEY_H_LOWER || k == KEY_V_LOWER)
    ||| m.logo && m.shift && (k == KEY_M || k == KEY_P || k == KEY_W || k == KEY_R || k == KEY_T)
}

/// The table binds this key with these modifiers to exactly this action.
/// Every binding is keyed on its own keysym, so at most one action fits.
pub open spec fn shortcut_action(m: ModifiersState, k: u32, a: KeyAction) -> bool {
    match a {
        KeyAction::Quit => m.ctrl && m.alt && k == KEY_BACKSPACE || m.logo && k == KEY_Q,
        KeyAction::Run(cmd) => m.logo && k == KEY_RETURN && cmd@ == "alacritty"@,
        KeyAction::ToggleMode => m.logo && !m.shift && k == KEY_T_LOWER,
        KeyAction::SetSplit(st) => m.logo && !m.shift && (k == KEY_H_LOWER && st == SplitState::H
            || k == KEY_V_LOWER && st == SplitState::V),
        KeyAction::Screen(i) => m.logo && KEY_1 <= k <= KEY_9 && i == k - KEY_1,
        KeyAction::ScaleUp => m.logo && m.shift && k == KEY_P,
        KeyAction::ScaleDown => m.logo && m.shift && k == KEY_M,
        KeyAction::TogglePreview => m.logo && m.shift && k == KEY_W,
        KeyAction::RotateOutput => m.logo && m.shift && k == KEY_R,
        KeyAction::ToggleTint => m.logo && m.shift && k == KEY_T,
        KeyAction::NoAction => false,
    }
}

/// The fixed shortcut table: a bound key yields its action, any other
/// key yields nothing.
pub fn process_keyboard_shortcut(modifiers: ModifiersState, keysym: u32) -> (r: Option<KeyAction>)
    ensures
        match r {
            Some(a) => shortcut_action(modifiers, keysym, a),
            None => !shortcut_hit(modifiers, keysym),
        },
{
    if modifiers.ctrl && modifiers.alt && keysym == KEY_BACKSPACE || modifiers.logo && keysym
        == KEY_Q {
        Some(KeyAction::Quit)
    } else if modifiers.logo && keysym == KEY_RETURN {
        Some(KeyAction::Run("alacritty".to_owned()))
    } else if modifiers.logo && KEY_1 <= keysym && keysym <= KEY_9 {
        Some(KeyAction::Screen((keysym - KEY_1) as usize))
    } else if modifiers.logo && !modifiers.shift && keysym == KEY_T_LOWER {
        Some(KeyAction::ToggleMode)
    } else if modifiers.logo && !modifiers.shift && keysym == KEY_H_LOWER {
        Some(KeyAction::SetSplit(SplitState::H))
    } else if modifiers.logo && !modifiers.shift && keysym == KEY_V_LOWER {
        Some(KeyAction::SetSplit(SplitState::V))
    } else if modifiers.logo && modifiers.shift && keysym == KEY_M {
        Some(KeyAction::ScaleDown)
    } else if modifiers.logo && modifiers.shift && keysym == KEY_P {
        Some(KeyAction::ScaleUp)
    } else if modifiers.logo && modifiers.shift && keysym == KEY_W {
        Some(KeyAction::TogglePreview)
    } else if modifiers.logo && modifiers.shift && keysym == KEY_R {
        Some(KeyAction::RotateOutput)
    } else if modifiers.logo && modifiers.shift && keysym == KEY_T {
        Some(KeyAction::ToggleTint)
    } else {
        None
    }
}

/// An input event as the core sees it: the backend has already turned
/// device coordinates into logical ones and resolved grab bookkeeping.
#[derive(Clone, Copy, PartialEq, Eq, Structural, Debug)]
pub enum InputEvent {
    /// A key went down or up, with the modifier state and the resolved
    /// keysym.
    Keyboard {
        /// Whether the key went down.
        pressed: bool,
        /// Modifier keys held.
        modifiers: ModifiersState,
        /// Resolved keysym.
        keysym: u32,
    },
    /// A pointer button went down or up.
    PointerButton {
        /// Button code.
        button: u32,
        /// Whether the button went down.
        pressed: bool,
        /// Whether a pointer grab is currently held.
        pointer_grabbed: bool,
    },
    /// The pointer moved to this logical position.
    PointerMotionAbsolute {
        /// New pointer position.
        position: Point,
    },
    /// A scroll event; the core ignores it.
    PointerAxis,
}

/// What the caller must do after the core processed an input event.
#[derive(Clone, PartialEq, Eq, Debug)]
pub enum InputResult {
    /// Perform this keyboard action.
    Action(KeyAction),
    /// Give keyboard focus to this window, if any, and deliver the
    /// listed configures; then forward the button event.
    Focus {
        /// Window to focus, or nothing to clear the focus.
        target: Option<u64>,
        /// Configures to deliver, bottom of the z-order first.
        configures: Vec<ConfigureRequest>,
    },
    /// Deliver the motion, over this window at this position if any.
    Motion {
        /// Topmost window under the pointer and its position.
        under: Option<(u64, Point)>,
    },
    /// Only forward the event; the core took nothing from it.
    Forwarded,
}

impl FlyJa {
    /// Process one input event.  A pressed shortcut becomes an action
    /// for the caller; a fresh button press raises and focuses the
    /// window under the pointer, or deactivates every window when the
    /// press hits no window; motion updates the tracked pointer
    /// position.  Everything else is merely forwarded.
    pub fn process_input_event(&mut self, event: InputEvent) -> (r: InputResult)
        requires
            old(self).wf(),
            event matches InputEvent::PointerMotionAbsolute { position } ==> point_wf(position),
        ensures
            final(self).wf(),
            final(self).reseize_state == old(self).reseize_state,
            final(self).window_remove_state == old(self).window_remove_state,
            final(self).wmstatus == old(self).wmstatus,
            final(self).splitstate == old(self).splitstate,
            final(self).output_size == old(self).output_size,
            match event {
                InputEvent::Keyboard { pressed, modifiers, keysym } => {
                    &&& final(self).space.windows() == old(self).space.windows()
                    &&& final(self).pointer_location == old(self).pointer_location
                    &&& pressed ==> match r {
                        InputResult::Action(a) => shortcut_action(modifiers, keysym, a),
                        InputResult::Forwarded => !shortcut_hit(modifiers, keysym),
                        _ => false,
                    }
                    &&& !pressed ==> r == InputResult::Forwarded
                },
                InputEvent::PointerButton { button, pressed, pointer_grabbed } => {
                    &&& final(self).pointer_location == old(self).pointer_location
                    &&& if pressed && !pointer_grabbed {
                        let s = old(self).space.windows();
                        let hit = spec_element_under(
                            s,
                            old(self).pointer_location.x as int,
                            old(self).pointer_location.y as int,
                        );
                        match hit {
                            Some(h) => {
                                &&& final(self).space.windows() == spec_map(
                                    s,
                                    window_of(s, h),
                                    window_of(s, h).loc,
                                    true,
                                )
                                &&& r matches InputResult::Focus { target, configures } && target
                                    == Some(h) && configures@ == Seq::new(
                                    final(self).space.windows().len(),
                                    |i: int| ConfigureRequest {
                                        window: final(self).space.windows()[i].handle,
                                        size: None,
                                        resizing: false,
                                    },
                                )
                            },
                            None => {
                                &&& final(self).space.windows() == spec_deactivate_all(s)
                                &&& r matches InputResult::Focus { target, configures } && target
                                    is None && configures@ == Seq::new(
                                    s.len(),
                                    |i: int| ConfigureRequest {
                                        window: s[i].handle,
                                        size: None,
                                        resizing: false,
                                    },
                                )
                            },
                        }
                    } else {
                        final(self).space.windows() == old(self).space.windows() && r
                            == InputResult::Forwarded
                    }
                },
                InputEvent::PointerMotionAbsolute { position } => {
                    &&& final(self).space.windows() == old(self).space.windows()
                    &&& final(self).pointer_location == position
                    &&& ({
                        let hit = spec_element_under(
                            old(self).space.windows(),
                            position.x as int,
                            position.y as int,
                        );
                        match hit {
                            Some(h) => r matches InputResult::Motion { under } && under matches
                                Some(u) && u.0 == h && u.1 == window_of(
                                old(self).space.windows(),
                                h,
                            ).loc,
                            None => r matches InputResult::Motion { under } && under is None,
                        }
                    })
                },
                InputEvent::PointerAxis => final(self).same_core(*old(self)) && r
                    == InputResult::Forwarded,
            },
    {
        match event {
            InputEvent::Keyboard { pressed, modifiers, keysym } => {
                if pressed {
                    match process_keyboard_shortcut(modifiers, keysym) {
                        Some(action) => InputResult::Action(action),
                        None => InputResult::Forwarded,
                    }
                } else {
                    InputResult::Forwarded
                }
            },
            InputEvent::PointerButton { button, pressed, pointer_grabbed } => {
                if pressed && !pointer_grabbed {
                    let hit = self.space.element_under(self.pointer_location);
                    match hit {
                        Some(h) => {
                            proof {
                                crate::state::lemma_element_under_contains(
                                    self.space.windows(),
                                    self.pointer_location.x as int,
                                    self.pointer_location.y as int,
                                );
                            }
                            self.space.raise_element(h, true);
                            let cfgs = self.all_bare_configures();
                            InputResult::Focus { target: Some(h), configures: cfgs }
                        },
                        None => {
                            self.space.deactivate_all();
                            let cfgs = self.all_bare_configures();
                            proof {
                                assert(Seq::new(
                                    self.space.windows().len(),
                                    |i: int| ConfigureRequest {
                                        window: self.space.windows()[i].handle,
                                        size: None,
                                        resizing: false,
                                    },
                                ) =~= Seq::new(
                                    old(self).space.windows().len(),
                                    |i: int| ConfigureRequest {
                                        window: old(self).space.windows()[i].handle,
                                        size: None,
                                        resizing: false,
                                    },
                                ));
                            }
                            InputResult::Focus { target: None, configures: cfgs }
                        },
                    }
                } else {
                    InputResult::Forwarded
                }
            },
            InputEvent::PointerMotionAbsolute { position } => {
                let under = self.surface_under_pointer_at(position);
                self.pointer_location = position;
                InputResult::Motion { under }
            },
            InputEvent::PointerAxis => InputResult::Forwarded,
        }
    }

    /// One bare configure per mapped window, bottom first.
    fn all_bare_configures(&self) -> (cfgs: Vec<ConfigureRequest>)
        ensures
            cfgs@ == Seq::new(
                self.space.windows().len(),
                |i: int| ConfigureRequest {
                    window: self.space.windows()[i].handle,
                    size: None,
                    resizing: false,
                },
            ),
    {
        let n = self.space.elements.len();
        let mut cfgs: Vec<ConfigureRequest> = Vec::new();
        let mut i: usize = 0;
        while i < n
            invariant
                n == self.space.windows().len(),
                i <= n,
                cfgs@.len() == i,
                forall|k: int|
                    0 <= k < i ==> cfgs@[k] == (ConfigureRequest {
                        window: self.space.windows()[k].handle,
                        size: None,
                        resizing: false,
                    }),
            decreases n - i,
        {
            cfgs.push(
                ConfigureRequest {
                    window: self.space.elements[i].handle,
                    size: None,
                    resizing: false,
                },
            );
            i = i + 1;
        }
        proof {
            assert(cfgs@ =~= Seq::new(
                self.space.windows().len(),
                |i: int| ConfigureRequest {
                    window: self.space.windows()[i].handle,
                    size: None,
                    resizing: false,
                },
            ));
        }
        cfgs
    }

    /// Topmost window under a position, with that window's location.
    fn surface_under_pointer_at(&self, position: Point) -> (r: Option<(u64, Point)>)
        requires
            self.wf(),
            point_wf(position),
        ensures
            match spec_element_under(
                self.space.windows(),
                position.x as int,
                position.y as int,
            ) {
                Some(h) => r matches Some(u) && u.0 == h && u.1 == window_of(
                    self.space.windows(),
                    h,
                ).loc,
                None => r is None,
            },
    {
        match self.space.element_under(position) {
            Some(h) => {
                proof {
                    crate::state::lemma_element_under_contains(
                        self.space.windows(),
                        position.x as int,
                        position.y as int,
                    );
                }
                match self.space.element_location(h) {
                    Some(p) => Some((h, p)),
                    None => None,
                }
            },
            None => None,
        }
    }
}

} // verus!
