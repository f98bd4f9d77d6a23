# minesweeper

A game of minesweeper, with its rules and its interface logic proved
correct with Verus.

- `src/minesweeper.rs`: the game itself: difficulties, digging (with the
  flood fill that opens empty areas), flagging, chording, winning and losing.
- `src/ui/`: the immediate-mode interface's logic: the hot and active
  items and button states, the menubar, the popups and their custom game
  fields, number fields, the minefield's mouse handling, the bomb explosion
  order, the status bar, and where each picture lies on the spritesheets.
- `src/elements/`, `src/gui/`, `src/gui_ideas.rs`, `src/legacy/`: button,
  hover and popup-size logic of simpler interfaces.
- `app/`: the window, drawn with macroquad: input, drawing, timing, and
  opening links.

The controls: left click digs, right click flags (keep it held to remove
more flags), and the middle button, or right and left together, chords.
