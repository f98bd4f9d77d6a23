//! Elements of the first interface: things that make up the game window.
use vstd::prelude::*;

pub mod button;

verus! {

/// What a mouse button did this frame.
#[derive(Debug, PartialEq, Eq, Clone, Copy, Structural)]
pub enum MouseAction {
    Nothing,
    Press,
    Release,
}

} // verus!
