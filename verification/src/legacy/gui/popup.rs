//! The first interface's popups.
use vstd::prelude::*;

verus! {

#[derive(Debug, PartialEq, Eq, Clone, Copy, Structural)]
pub enum PopupKind {
    Exit,
}

/// The size of a popup of `kind`.
pub fn popup_size(kind: PopupKind) -> (r: (u32, u32))
    ensures
        r == (40u32, 20u32),
{
    match kind {
        PopupKind::Exit => (40, 20),
    }
}

} // verus!
