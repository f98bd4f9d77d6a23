//! Game logic of a minesweeper game: the minefield itself, how digging and
//! flagging change it, and the immediate-mode interface state that turns mouse
//! input into button presses.
pub mod minesweeper;
pub mod ui;
pub mod elements;
pub mod gui;
pub mod gui_ideas;
pub mod legacy;
