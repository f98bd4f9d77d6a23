//! The second interface.
use vstd::prelude::*;

verus! {

#[derive(Debug, PartialEq, Eq, Clone, Copy, Structural)]
pub enum MousePressMode {
    Nothing,
    Down,
    Up,
}

/// Whether the mouse was over the interface since this was last asked.
pub struct HoverFlag {
    hovered_on_gui: bool,
}

impl HoverFlag {
    pub fn new() -> (r: HoverFlag)
        ensures
            !r.get(),
    {
        HoverFlag { hovered_on_gui: false }
    }

    pub closed spec fn get(&self) -> bool {
        self.hovered_on_gui
    }

    /// Notes that the mouse is over the interface, when `hovering`.
    pub fn update(&mut self, hovering: bool)
        ensures
            final(self).get() == (old(self).get() || hovering),
    {
        if hovering {
            self.hovered_on_gui = true;
        }
    }

    /// Whether the mouse was over the interface; resets that.
    pub fn check_and_reset_hover_flag(&mut self) -> (r: bool)
        ensures
            r == old(self).get(),
            !final(self).get(),
    {
        if self.hovered_on_gui {
            self.hovered_on_gui = false;
            return true;
        } else {
            false
        }
    }
}

} // verus!
