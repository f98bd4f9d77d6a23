//! The first interface's popups.
pub mod gui;
