//! The first interface: its menu and popups.
use vstd::prelude::*;

pub mod popup;
pub mod text_renderer;

verus! {

#[derive(Debug, PartialEq, Eq, Clone, Copy, Structural)]
pub enum MousePressMode {
    Nothing,
    Down,
    Up,
}

} // verus!
