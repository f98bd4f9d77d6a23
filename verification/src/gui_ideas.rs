//! A sketch of interface elements that take the mouse in turn.
use vstd::prelude::*;

verus! {

#[derive(Debug, PartialEq, Eq, Clone, Copy, Structural)]
pub enum MouseAction {
    Nothing,
    Down,
    Up,
}

#[derive(Debug, PartialEq, Eq, Clone, Copy, Structural)]
pub enum ButtonState {
    Idle,
    Hovered,
    Pressed,
    Disabled,
}

/// Whether a button counts as pressed when the mouse goes down or up.
#[derive(Debug, PartialEq, Eq, Clone, Copy, Structural)]
pub enum ButtonTrigger {
    Press,
    Release,
}

pub struct Button {
    pub trigger: ButtonTrigger,
    pub state: ButtonState,
    pub pressed: bool,
}

impl Button {
    pub fn new(trigger: ButtonTrigger, disabled: bool) -> (r: Button)
        ensures
            r.trigger == trigger,
            r.state == (if disabled {
                ButtonState::Disabled
            } else {
                ButtonState::Idle
            }),
            !r.pressed,
    {
        Button {
            trigger,
            state: if disabled {
                ButtonState::Disabled
            } else {
                ButtonState::Idle
            },
            pressed: false,
        }
    }

    /// Whether the button was pressed; resets that, so that no press is
    /// missed.
    pub fn pressed(&mut self) -> (r: bool)
        ensures
            r == old(self).pressed,
            !final(self).pressed,
            final(self).state == old(self).state,
            final(self).trigger == old(self).trigger,
    {
        match self.pressed {
            true => {
                self.pressed = false;
                true
            },
            false => false,
        }
    }

    /// Makes the button idle, unless it is disabled.
    pub fn default(&mut self)
        ensures
            final(self).state == (if old(self).state == ButtonState::Disabled {
                ButtonState::Disabled
            } else {
                ButtonState::Idle
            }),
            final(self).pressed == old(self).pressed,
            final(self).trigger == old(self).trigger,
    {
        if self.state != ButtonState::Disabled {
            self.state = ButtonState::Idle;
        }
    }

    /// Updates the button with the mouse, `mouse_over` saying whether it is
    /// over the button; returns whether the button took the mouse.
    pub fn update(&mut self, mouse_over: bool, mouse_action: MouseAction) -> (r: bool)
        ensures
            r == mouse_over,
            final(self).trigger == old(self).trigger,
            !mouse_over ==> final(self).state == (if old(self).state == ButtonState::Disabled {
                ButtonState::Disabled
            } else {
                ButtonState::Idle
            }) && final(self).pressed == old(self).pressed,
            mouse_over ==> ({
                let s = old(self).state;
                &&& final(self).state == (if s == ButtonState::Pressed && mouse_action
                    == MouseAction::Up {
                    ButtonState::Hovered
                } else if (s == ButtonState::Idle || s == ButtonState::Hovered) && mouse_action
                    == MouseAction::Down {
                    ButtonState::Pressed
                } else if s == ButtonState::Idle {
                    ButtonState::Hovered
                } else {
                    s
                })
                &&& final(self).pressed == (old(self).pressed || (s == ButtonState::Pressed
                    && mouse_action == MouseAction::Up && old(self).trigger == ButtonTrigger::Release)
                    || ((s == ButtonState::Idle || s == ButtonState::Hovered) && mouse_action
                    == MouseAction::Down && old(self).trigger == ButtonTrigger::Press))
            }),
    {
        // If the mouse isn't over the button, it is left alone
        if !mouse_over {
            self.default();
            return false;
        }
        match self.state {
            ButtonState::Pressed if mouse_action == MouseAction::Up => {
                if self.trigger == ButtonTrigger::Release {
                    self.pressed = true;
                }
                self.state = ButtonState::Hovered;
            },
            ButtonState::Idle if mouse_action == MouseAction::Down => {
                if self.trigger == ButtonTrigger::Press {
                    self.pressed = true;
                }
                self.state = ButtonState::Pressed;
            },
            ButtonState::Hovered if mouse_action == MouseAction::Down => {
                if self.trigger == ButtonTrigger::Press {
                    self.pressed = true;
                }
                self.state = ButtonState::Pressed;
            },
            ButtonState::Idle => self.state = ButtonState::Hovered,
            _ => {},
        }
        true
    }
}

} // verus!
