//! A button of the first interface.
use vstd::prelude::*;
use super::MouseAction;

verus! {

#[derive(Debug, PartialEq, Eq, Clone, Copy, Structural)]
pub enum ButtonState {
    Idle,
    Hovered,
    Pressed,
    Disabled,
}

/// Whether a button counts as pressed when the mouse goes down or up.
#[derive(Debug, PartialEq, Eq, Clone, Copy, Structural)]
pub enum PressMode {
    Press,
    Release,
}

pub struct Button {
    label: String,
    state: ButtonState,
    press_mode: PressMode,
    pressed: bool,
}

pub struct ButtonView {
    pub label: Seq<char>,
    pub state: ButtonState,
    pub press_mode: PressMode,
    pub pressed: bool,
}

impl View for Button {
    type V = ButtonView;

    closed spec fn view(&self) -> ButtonView {
        ButtonView {
            label: self.label@,
            state: self.state,
            press_mode: self.press_mode,
            pressed: self.pressed,
        }
    }
}

/// The state a button goes to when it has the mouse.
pub open spec fn state_after(state: ButtonState, action: MouseAction) -> ButtonState {
    match action {
        MouseAction::Press => ButtonState::Pressed,
        MouseAction::Release => ButtonState::Hovered,
        MouseAction::Nothing => if state == ButtonState::Pressed {
            ButtonState::Pressed
        } else {
            ButtonState::Hovered
        },
    }
}

impl Button {
    /// A new button without a label.
    pub fn new(press_mode: PressMode, disabled: bool) -> (r: Button)
        ensures
            r@ == (ButtonView {
                label: Seq::empty(),
                state: if disabled {
                    ButtonState::Disabled
                } else {
                    ButtonState::Idle
                },
                press_mode,
                pressed: false,
            }),
    {
        Button {
            label: String::new(),
            state: if disabled {
                ButtonState::Disabled
            } else {
                ButtonState::Idle
            },
            press_mode,
            pressed: false,
        }
    }

    /// A new button with a label.
    pub fn new_labelled(label: String, press_mode: PressMode, disabled: bool) -> (r: Button)
        ensures
            r@ == (ButtonView {
                label: label@,
                state: if disabled {
                    ButtonState::Disabled
                } else {
                    ButtonState::Idle
                },
                press_mode,
                pressed: false,
            }),
    {
        Button {
            label,
            state: if disabled {
                ButtonState::Disabled
            } else {
                ButtonState::Idle
            },
            press_mode,
            pressed: false,
        }
    }

    /// Updates the button with the left mouse button's action, `hovered`
    /// saying whether the mouse is over it. A button takes the mouse when it
    /// is free and over it; it then reacts unless it is disabled.
    pub fn update(&mut self, mouse_free: &mut bool, hovered: bool, left_mouse_action: &MouseAction)
        ensures
            !*old(mouse_free) || !hovered ==> {
                &&& *final(mouse_free) == *old(mouse_free)
                &&& final(self)@ == (ButtonView {
                    state: if old(self)@.state == ButtonState::Disabled {
                        ButtonState::Disabled
                    } else {
                        ButtonState::Idle
                    },
                    ..old(self)@
                })
            },
            *old(mouse_free) && hovered ==> {
                &&& !*final(mouse_free)
                &&& old(self)@.state == ButtonState::Disabled ==> final(self)@ == old(self)@
                &&& old(self)@.state != ButtonState::Disabled ==> final(self)@ == (ButtonView {
                    state: state_after(old(self)@.state, *left_mouse_action),
                    pressed: old(self)@.pressed || (*left_mouse_action == MouseAction::Press
                        && old(self)@.press_mode == PressMode::Press) || (*left_mouse_action
                        == MouseAction::Release && old(self)@.press_mode == PressMode::Release),
                    ..old(self)@
                })
            },
    {
        // If the mouse isn't free, or if it's not over the button, make the button idle
        if !*mouse_free || !hovered {
            if self.state != ButtonState::Disabled {
                self.state = ButtonState::Idle;
            }
            return;
        }
        // The button captures the mouse and runs its normal logic
        *mouse_free = false;
        if self.state == ButtonState::Disabled {
            return;
        }
        self.state = match left_mouse_action {
            MouseAction::Press => {
                if self.press_mode == PressMode::Press {
                    self.pressed = true;
                }
                ButtonState::Pressed
            },
            MouseAction::Release => {
                if self.press_mode == PressMode::Release {
                    self.pressed = true;
                }
                ButtonState::Hovered
            },
            MouseAction::Nothing => {
                if self.state == ButtonState::Pressed {
                    ButtonState::Pressed
                } else {
                    ButtonState::Hovered
                }
            },
        };
    }

    /// Whether the button was pressed; resets that.
    pub fn pressed(&mut self) -> (r: bool)
        ensures
            r == old(self)@.pressed,
            final(self)@ == (ButtonView { pressed: false, ..old(self)@ }),
    {
        let return_value = self.pressed;
        self.pressed = false;
        return_value
    }

    pub fn label(&self) -> (r: &String)
        ensures
            r@ == self@.label,
    {
        &self.label
    }

    pub fn state(&self) -> (r: ButtonState)
        ensures
            r == self@.state,
    {
        self.state
    }
}

} // verus!
