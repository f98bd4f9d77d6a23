//! How the mouse plays the minefield: a left click digs, a right click
//! flags (and dragging with it held keeps removing flags), and holding the
//! middle button, or left and right together, chords.
use vstd::prelude::*;
use crate::minesweeper::{
    GameView,
    Minesweeper,
    Tile,
    bomb_candidates_below,
    get_index_from_offset,
    index_from_offset,
    neighbour,
    neighbour_offset,
    NEIGHBOUR_COUNT,
};
use crate::ui::state::{MouseButton, State, StateView};
use super::{ElementView, MinesweeperElement};

verus! {

#[derive(Debug, PartialEq, Eq, Clone, Copy, Structural)]
pub enum SetFlagMode {
    Flag,
    Remove,
}

/// What a frame of interaction did.
pub struct Interaction {
    /// The tile that a click dug, or the bomb that a chord dug, if any.
    pub dug: Option<usize>,
    /// Whether the selected tile is drawn pressed in (about to be dug).
    pub pressed_tile: bool,
    /// Whether a flag was put down or taken off.
    pub flag_changed: bool,
    /// Whether a dig (or chord) is about to happen, for the face to look scared.
    pub about_to_dig: bool,
}

pub struct MinefieldView {
    pub flag_mode: Option<SetFlagMode>,
    pub chording: bool,
    pub chorded: bool,
}

pub struct Minefield {
    flag_mode: Option<SetFlagMode>,
    chording: bool,
    chorded: bool,
}

impl View for Minefield {
    type V = MinefieldView;

    closed spec fn view(&self) -> MinefieldView {
        MinefieldView { flag_mode: self.flag_mode, chording: self.chording, chorded: self.chorded }
    }
}

pub open spec fn any_released(s: StateView) -> bool {
    s.buttons(MouseButton::Middle).2 || s.buttons(MouseButton::Left).2 || s.buttons(
        MouseButton::Right,
    ).2
}

pub open spec fn any_down(s: StateView) -> bool {
    s.buttons(MouseButton::Middle).0 || s.buttons(MouseButton::Left).0 || s.buttons(
        MouseButton::Right,
    ).0
}

/// Whether the mouse is chording: the minefield is active and the middle
/// button, or the left and right ones together, are held.
pub open spec fn chord_held(is_active: bool, s: StateView) -> bool {
    is_active && (s.buttons(MouseButton::Middle).0 || (s.buttons(MouseButton::Left).0 && s.buttons(
        MouseButton::Right,
    ).0))
}

/// The flag mode after this frame's right button: a flag is only put down
/// once, while flags keep being removed while the button is held; pressing
/// the button on an actual flag removes flags, anywhere else puts one down.
pub open spec fn next_flag_mode(
    mode: Option<SetFlagMode>,
    is_active: bool,
    s: StateView,
    game: GameView,
    tile: int,
) -> Option<SetFlagMode> {
    let kept = if mode == Some(SetFlagMode::Flag) || !s.buttons(MouseButton::Right).0 {
        None
    } else {
        mode
    };
    if is_active && s.buttons(MouseButton::Right).1 {
        if 0 <= tile < game.board.len() && game.board[tile] != Tile::Flag {
            Some(SetFlagMode::Flag)
        } else {
            Some(SetFlagMode::Remove)
        }
    } else {
        kept
    }
}

impl Minefield {
    pub fn new() -> (r: Minefield)
        ensures
            r@.flag_mode is None,
            !r@.chording,
            !r@.chorded,
    {
        Minefield { flag_mode: None, chording: false, chorded: false }
    }

    /// Whether a chord is being held (its tiles are drawn pressed in).
    pub fn chording(&self) -> (r: bool)
        ensures
            r == self@.chording,
    {
        self.chording
    }

    /// Forgets the flag mode, for a new game.
    pub fn new_game(&mut self)
        ensures
            final(self)@ == (MinefieldView { flag_mode: None, ..old(self)@ }),
    {
        self.flag_mode = None;
    }

    /// Handles the mouse over the minefield at `selected_tile`, `is_active`
    /// saying whether the minefield holds the mouse.
    pub fn interact(
        &mut self,
        is_active: bool,
        selected_tile: usize,
        element: &mut MinesweeperElement,
        state: &State,
    ) -> (r: Interaction)
        requires
            old(element)@.wf(),
            old(element)@.game.turns == 0 && old(element)@.game.diggable(selected_tile as int)
                ==> old(element)@.game.bomb_count <= bomb_candidates_below(
                old(element)@.game.width as int,
                old(element)@.game.height as int,
                selected_tile as int,
                old(element)@.game.size(),
            ).len(),
        ensures
            final(element)@.wf(),
            ({
                let s = state@;
                let m = old(self)@;
                let held = chord_held(is_active, s);
                if m.chording && any_released(s) {
                    // The chord is let go of: it is made.
                    &&& final(self)@ == (MinefieldView { chording: false, chorded: true, ..m })
                    &&& old(element)@.after_chord(final(element)@, selected_tile as int, r.dug)
                    &&& !r.pressed_tile && !r.flag_changed && !r.about_to_dig
                } else if m.chorded && !any_down(s) {
                    &&& final(self)@ == (MinefieldView { chording: held, chorded: false, ..m })
                    &&& final(element)@ == old(element)@
                    &&& r.dug is None && !r.pressed_tile && !r.flag_changed && r.about_to_dig
                        == held
                } else if held || m.chorded {
                    // No digging or flagging while chording.
                    &&& final(self)@ == (MinefieldView { chording: held, ..m })
                    &&& final(element)@ == old(element)@
                    &&& r.dug is None && !r.pressed_tile && !r.flag_changed && r.about_to_dig
                        == held
                } else if is_active && s.buttons(MouseButton::Left).2 {
                    &&& final(self)@ == (MinefieldView { chording: false, ..m })
                    &&& r.dug == Some(selected_tile)
                    &&& !r.pressed_tile && !r.flag_changed && !r.about_to_dig
                    &&& old(element)@.dug_at(
                        final(element)@,
                        selected_tile as int,
                        old(element)@.game.diggable(selected_tile as int),
                    )
                } else {
                    let pressed = is_active && s.buttons(MouseButton::Left).0 && old(
                        element,
                    )@.game.diggable(selected_tile as int);
                    let mode = next_flag_mode(
                        m.flag_mode,
                        is_active,
                        s,
                        old(element)@.game,
                        selected_tile as int,
                    );
                    &&& final(self)@ == (MinefieldView { chording: false, chorded: false, flag_mode: mode })
                    &&& r.dug is None && r.pressed_tile == pressed && r.about_to_dig == pressed
                    &&& match mode {
                        Some(mode) => {
                            let (changed, game) = old(element)@.game.after_set_flag(
                                mode == SetFlagMode::Remove,
                                selected_tile as int,
                            );
                            &&& r.flag_changed == changed
                            &&& final(element)@ == (ElementView { game, ..old(element)@ })
                        },
                        None => !r.flag_changed && final(element)@ == old(element)@,
                    }
                }
            }),
    {
        let any_mouse_released = state.mouse_released(MouseButton::Middle) || state.mouse_released(
            MouseButton::Left,
        ) || state.mouse_released(MouseButton::Right);
        // If we were chording and any of the mouse buttons have been released, the chord is made
        if self.chording && any_mouse_released {
            self.chording = false;
            self.chorded = true;
            let bomb = element.chord(selected_tile);
            return Interaction { dug: bomb, pressed_tile: false, flag_changed: false, about_to_dig: false };
        }
        // We only want to be chording if the minefield is active and we're holding the right button(s)
        self.chording = is_active && (state.mouse_down(MouseButton::Middle) || (state.mouse_down(
            MouseButton::Left,
        ) && state.mouse_down(MouseButton::Right)));
        let about_to_dig = self.chording;
        // We only want to stop being chorded if none of the mouse buttons are down
        if self.chorded && !state.mouse_down(MouseButton::Middle) && !state.mouse_down(
            MouseButton::Left,
        ) && !state.mouse_down(MouseButton::Right) {
            self.chorded = false;
            return Interaction { dug: None, pressed_tile: false, flag_changed: false, about_to_dig };
        }
        // We don't want to dig or flag if we're chording, or we've chorded and we haven't let go
        if self.chording || self.chorded {
            return Interaction { dug: None, pressed_tile: false, flag_changed: false, about_to_dig };
        }
        // Digging
        if is_active && state.mouse_released(MouseButton::Left) {
            element.dig(selected_tile);
            proof {
                assert(element@.game.wf());
            }
            return Interaction {
                dug: Some(selected_tile),
                pressed_tile: false,
                flag_changed: false,
                about_to_dig: false,
            };
        }
        // If about to dig, the tile is drawn being dug
        let pressed_tile = is_active && state.mouse_down(MouseButton::Left) && element.game().diggable(
            selected_tile,
        );
        // Flagging
        if matches!(self.flag_mode, Some(SetFlagMode::Flag)) || !state.mouse_down(MouseButton::Right) {
            self.flag_mode = None;
        }
        if is_active && state.mouse_pressed(MouseButton::Right) {
            let board = element.game().board();
            let not_flag = selected_tile < board.len() && board[selected_tile] != Tile::Flag;
            self.flag_mode = match not_flag {
                true => Some(SetFlagMode::Flag),
                false => Some(SetFlagMode::Remove),
            };
        }
        let mut flag_changed = false;
        if let Some(flag_mode) = self.flag_mode {
            flag_changed = element.set_flag(flag_mode == SetFlagMode::Remove, selected_tile);
        }
        Interaction { dug: None, pressed_tile, flag_changed, about_to_dig: pressed_tile }
    }
}

/// The tiles a chord at `selected_tile` would dig, drawn pressed in while it
/// is held: the tile and its neighbours, those that are unopened.
pub fn chorded_tiles(game: &Minesweeper, selected_tile: usize) -> (r: Vec<usize>)
    requires
        game@.shape_ok(),
    ensures
        forall|i: usize|
            r@.contains(i) <==> {
                &&& (index_from_offset(
                    selected_tile as int,
                    0,
                    0,
                    game@.width as int,
                    game@.height as int,
                ) == Some(i as int) || exists|k: int|
                    0 <= k < 8 && #[trigger] neighbour(
                        selected_tile as int,
                        k,
                        game@.width as int,
                        game@.height as int,
                    ) == Some(i as int))
                &&& 0 <= i < game@.board.len()
                &&& game@.board[i as int] == Tile::Unopened
            },
{
    let ghost w = game@.width as int;
    let ghost h = game@.height as int;
    let board = game.board();
    let mut tiles: Vec<usize> = Vec::new();
    for k in 0..NEIGHBOUR_COUNT + 1
        invariant
            game@.shape_ok(),
            w == game@.width,
            h == game@.height,
            board@ == game@.board,
            forall|i: usize|
                tiles@.contains(i) <==> {
                    &&& ((k > 8 && index_from_offset(selected_tile as int, 0, 0, w, h) == Some(
                        i as int,
                    )) || exists|kk: int|
                        0 <= kk < k && kk < 8 && #[trigger] neighbour(selected_tile as int, kk, w, h)
                            == Some(i as int))
                    &&& 0 <= i < board@.len()
                    &&& board@[i as int] == Tile::Unopened
                },
    {
        let (x, y): (isize, isize) = if k < NEIGHBOUR_COUNT {
            neighbour_offset(k)
        } else {
            (0, 0)
        };
        let ghost before = tiles@;
        if let Some(i) = get_index_from_offset(selected_tile, x, y, game.width(), game.height()) {
            if i < board.len() && board[i] == Tile::Unopened {
                tiles.push(i);
            }
        }
        proof {
            assert forall|j: usize|
                tiles@.contains(j) <==> {
                    &&& ((k + 1 > 8 && index_from_offset(selected_tile as int, 0, 0, w, h) == Some(
                        j as int,
                    )) || exists|kk: int|
                        0 <= kk < k + 1 && kk < 8 && #[trigger] neighbour(selected_tile as int, kk, w, h)
                            == Some(j as int))
                    &&& 0 <= j < board@.len()
                    &&& board@[j as int] == Tile::Unopened
                } by {
                if tiles@.contains(j) && !before.contains(j) {
                    let t = choose|t: int| 0 <= t < tiles@.len() && tiles@[t] == j;
                    if t < before.len() {
                        assert(before[t] == j);
                    }
                    if k < 8 {
                        assert(neighbour(selected_tile as int, k as int, w, h) == Some(j as int));
                    }
                }
                if before.contains(j) {
                    let t = choose|t: int| 0 <= t < before.len() && before[t] == j;
                    assert(tiles@[t] == j);
                }
                if !before.contains(j) && 0 <= j < board@.len() && board@[j as int] == Tile::Unopened {
                    if k < 8 && neighbour(selected_tile as int, k as int, w, h) == Some(j as int) {
                        assert(tiles@[tiles@.len() - 1] == j);
                    }
                    if k == 8 && index_from_offset(selected_tile as int, 0, 0, w, h) == Some(j as int) {
                        assert(tiles@[tiles@.len() - 1] == j);
                    }
                }
            }
        }
    }
    tiles
}

/// The pictures a tile is drawn with (numbers of the minefield spritesheet):
/// its background, and the icon drawn over it. `losing` says whether it is
/// the tile that lost the game, `exploded` whether its bomb has gone off
/// (when the exploder holds one there), `chorded` whether it is drawn
/// pressed in by a chord, and `lost` whether the game is lost.
pub open spec fn tile_pictures_spec(
    tile: Tile,
    losing: bool,
    exploded: Option<bool>,
    chorded: bool,
    lost: bool,
) -> (usize, Option<usize>) {
    let background: usize = if losing {
        4
    } else if tile is Dug || tile is Numbered {
        1
    } else if tile is Flag && exploded != Some(true) {
        0
    } else if exploded is Some || chorded {
        1
    } else {
        0
    };
    let icon: Option<usize> = match (tile, exploded) {
        (Tile::Flag, None) => if lost {
            Some(6usize)
        } else {
            Some(5usize)
        },
        (Tile::Flag, Some(true)) => Some(7usize),
        (Tile::Flag, _) => Some(5usize),
        (_, Some(false)) => Some(2usize),
        (_, Some(true)) => Some(3usize),
        (Tile::Numbered(n), _) => Some((n + 7) as usize),
        _ => None,
    };
    (background, icon)
}

pub fn tile_pictures(tile: Tile, losing: bool, exploded: Option<bool>, chorded: bool, lost: bool) -> (r: (
    usize,
    Option<usize>,
))
    ensures
        r == tile_pictures_spec(tile, losing, exploded, chorded, lost),
{
    let background: usize = match tile {
        _ if losing => 4,  // The losing tile
        Tile::Dug | Tile::Numbered(_) => 1,  // A dug tile
        Tile::Flag if !matches!(exploded, Some(true)) => 0,  // A flag with no exploded bomb below it
        _ if exploded.is_some() || chorded => 1,  // A bomb, or a tile being chorded
        _ => 0,  // Unopened
    };
    let icon: Option<usize> = match (tile, exploded) {
        (Tile::Flag, None) if lost => Some(6),  // An incorrect flag
        (Tile::Flag, Some(true)) => Some(7),  // An exploded flag
        (Tile::Flag, _) => Some(5),  // A flag
        (_, Some(false)) => Some(2),  // An unexploded bomb
        (_, Some(true)) => Some(3),  // An exploded bomb
        (Tile::Numbered(n), _) => Some(n as usize + 7),  // A number
        _ => None,
    };
    (background, icon)
}

/// A number tile shows its number: a tile numbered `n` (1 to 8) that did
/// not lose the game and holds no bomb is drawn dug, with the picture of `n`,
/// which is picture `n + 7`. Dug tiles show no icon, unopened tiles none
/// either unless a bomb is there, and a losing tile has its own background.
pub proof fn law_tile_pictures_show_the_tile(n: u8, chorded: bool, lost: bool, exploded: Option<bool>)
    requires
        1 <= n <= 8,
    ensures
        tile_pictures_spec(Tile::Numbered(n), false, None, chorded, lost).0 == 1,
        tile_pictures_spec(Tile::Numbered(n), false, None, chorded, lost).1 is Some,
        tile_pictures_spec(Tile::Numbered(n), false, None, chorded, lost).1->0 == n + 7,
        tile_pictures_spec(Tile::Dug, false, None, chorded, lost) == (1usize, None::<usize>),
        tile_pictures_spec(Tile::Unopened, false, None, false, lost) == (0usize, None::<usize>),
        tile_pictures_spec(Tile::Unopened, false, None, true, lost).0 == 1,
        tile_pictures_spec(Tile::Flag, false, None, chorded, false) == (0usize, Some(5usize)),
        tile_pictures_spec(Tile::Flag, false, None, chorded, true) == (0usize, Some(6usize)),
        tile_pictures_spec(Tile::Unopened, false, Some(false), chorded, lost) == (1usize, Some(2usize)),
        tile_pictures_spec(Tile::Unopened, false, Some(true), chorded, lost) == (1usize, Some(3usize)),
        tile_pictures_spec(Tile::Flag, false, Some(true), chorded, lost) == (1usize, Some(7usize)),
        forall|t: Tile| tile_pictures_spec(t, true, exploded, chorded, lost).0 == 4,
{
}

/// How the right button sets the flag mode: pressing it on a tile that is
/// not a flag (an opened tile too) puts flags down, pressing it on a flag
/// takes flags off; putting a flag down lasts one frame, taking them off
/// lasts while the button is held; and flags are only taken off after a
/// press on a flag.
pub proof fn law_flag_mode_follows_the_press(
    mode: Option<SetFlagMode>,
    is_active: bool,
    s: StateView,
    game: GameView,
    tile: int,
)
    ensures
        is_active && s.buttons(MouseButton::Right).1 && 0 <= tile < game.board.len()
            && game.board[tile] != Tile::Flag ==> next_flag_mode(mode, is_active, s, game, tile)
            == Some(SetFlagMode::Flag),
        is_active && s.buttons(MouseButton::Right).1 && 0 <= tile < game.board.len()
            && game.board[tile] == Tile::Flag ==> next_flag_mode(mode, is_active, s, game, tile)
            == Some(SetFlagMode::Remove),
        !(is_active && s.buttons(MouseButton::Right).1) ==> next_flag_mode(
            mode,
            is_active,
            s,
            game,
            tile,
        ) == if mode == Some(SetFlagMode::Remove) && s.buttons(MouseButton::Right).0 {
            mode
        } else {
            None
        },
        next_flag_mode(mode, is_active, s, game, tile) == Some(SetFlagMode::Remove) ==> (is_active
            && s.buttons(MouseButton::Right).1 && !(0 <= tile < game.board.len() && game.board[tile]
            != Tile::Flag)) || (mode == Some(SetFlagMode::Remove) && s.buttons(MouseButton::Right).0),
{
    match mode {
        Some(SetFlagMode::Flag) => {},
        Some(SetFlagMode::Remove) => {},
        None => {},
    }
}

} // verus!
