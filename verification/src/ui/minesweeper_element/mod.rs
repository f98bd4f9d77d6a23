//! The minesweeper element: the game, its status bar, and the bombs going
//! off when the game is lost. This is its game side; what it draws, and its
//! clocks, belong to whoever draws it.
use vstd::prelude::*;
use crate::minesweeper::{Difficulty, GameState, GameView, Minesweeper, Tile, Timer, bomb_candidates_below, lemma_chord_bomb, lemma_chord_steps_keep_shape};
use self::exploder::{Exploder, ExploderView, bomb_entries, position_of};

pub mod exploder;
pub mod minefield;
pub mod status_bar;

verus! {

pub struct ElementView {
    pub game: GameView,
    pub difficulty: Difficulty,
    pub exploder: ExploderView,
    pub game_state_change: Option<GameState>,
    pub new_game_request: Option<Difficulty>,
    pub custom_values: Option<Difficulty>,
    pub losing_tile: Option<usize>,
}

pub struct MinesweeperElement {
    game: Minesweeper,
    difficulty: Difficulty,
    exploder: Exploder,
    game_state_change: Option<GameState>,
    new_game_request: Option<Difficulty>,
    custom_values: Option<Difficulty>,
    losing_tile: Option<usize>,
}

impl View for MinesweeperElement {
    type V = ElementView;

    closed spec fn view(&self) -> ElementView {
        ElementView {
            game: self.game@,
            difficulty: self.difficulty,
            exploder: self.exploder@,
            game_state_change: self.game_state_change,
            new_game_request: self.new_game_request,
            custom_values: self.custom_values,
            losing_tile: self.losing_tile,
        }
    }
}

impl ElementView {
    pub open spec fn wf(self) -> bool {
        &&& self.game.wf()
        &&& self.exploder.wf()
    }

    /// What a dig at `tile` does to the element, `r` saying whether it dug:
    /// the game is dug, and when that loses it, the dug tile is the losing
    /// tile and the bombs get ready to go off from it; the rest stays.
    pub open spec fn dug_at(self, next: ElementView, tile: int, r: bool) -> bool {
        &&& r == self.game.diggable(tile)
        &&& !r ==> next == self
        &&& r ==> self.game.dug(next.game, tile, next.game.bombs)
        &&& r && next.game.state == GameState::Lose ==> {
            &&& next.losing_tile == Some(tile as usize)
            &&& next.exploder.map_skip == 0
            &&& next.exploder.entries.to_multiset() == bomb_entries(
                next.game.bombs,
                tile,
                next.game.width as int,
            ).to_multiset()
        }
        &&& !(r && next.game.state == GameState::Lose) ==> next.exploder == self.exploder
            && next.losing_tile == self.losing_tile
        &&& next.difficulty == self.difficulty
        &&& next.custom_values == self.custom_values
        &&& next.game_state_change == self.game_state_change
        &&& next.new_game_request == self.new_game_request
    }

    /// A new game of `difficulty` in place of this one: a fresh board, no
    /// bombs going off, and the custom values remembered when the difficulty
    /// is a custom one.
    pub open spec fn started(self, next: ElementView, difficulty: Difficulty) -> bool {
        &&& next.difficulty == difficulty
        &&& next.game.width as int == difficulty.spec_values().0
        &&& next.game.height as int == difficulty.spec_values().1
        &&& next.game.bomb_count as int == difficulty.spec_values().2
        &&& next.game.board == Seq::new(next.game.size() as nat, |i: int| Tile::Unopened)
        &&& next.game.bombs.len() == 0
        &&& next.game.state == GameState::Playing
        &&& next.game.timer == Timer::Idle
        &&& next.game.turns == 0
        &&& next.exploder.entries.len() == 0
        &&& next.exploder.map_skip == 0
        &&& next.custom_values == if difficulty is Custom {
            Some(difficulty)
        } else {
            self.custom_values
        }
        &&& next.losing_tile is None
        &&& next.game_state_change == self.game_state_change
        &&& next.new_game_request == self.new_game_request
    }

    /// What a chord at `tile` does to the element, `r` being what it
    /// returns: the game is chorded, and when that loses it, the bomb that
    /// was dug becomes the losing tile and the bombs start going off from it.
    pub open spec fn after_chord(self, next: ElementView, tile: int, r: Option<usize>) -> bool {
        &&& !self.game.chordable(tile) ==> next == self && r is None
        &&& self.game.chordable(tile) ==> {
            &&& next.game == self.game.chord_steps(tile, 8)
            &&& r == self.game.chord_bomb(tile, 8)
            &&& next.game.state == GameState::Lose ==> {
                &&& r is Some
                &&& next.losing_tile == r
                &&& next.exploder.map_skip == 0
                &&& next.exploder.entries.to_multiset() == bomb_entries(
                    next.game.bombs,
                    r->0 as int,
                    next.game.width as int,
                ).to_multiset()
            }
            &&& next.game.state != GameState::Lose ==> next.exploder == self.exploder
                && next.losing_tile == self.losing_tile
            &&& next.difficulty == self.difficulty
            &&& next.custom_values == self.custom_values
            &&& next.game_state_change == self.game_state_change
            &&& next.new_game_request == self.new_game_request
        }
    }
}

impl MinesweeperElement {
    pub fn new() -> (r: MinesweeperElement)
        ensures
            r@.wf(),
            r@.difficulty == Difficulty::Easy,
            r@.game.turns == 0,
            r@.game.width == 9 && r@.game.height == 9 && r@.game.bomb_count == 9,
            r@.exploder.entries.len() == 0,
            r@.game_state_change is None,
            r@.new_game_request is None,
            r@.custom_values is None,
            r@.losing_tile is None,
    {
        let difficulty = Difficulty::Easy;
        MinesweeperElement {
            game: Minesweeper::new(difficulty),
            difficulty,
            exploder: Exploder::new(),
            game_state_change: None,
            new_game_request: None,
            custom_values: None,
            losing_tile: None,
        }
    }

    pub fn game(&self) -> (r: &Minesweeper)
        ensures
            r@ == self@.game,
    {
        &self.game
    }

    pub fn exploder(&self) -> (r: &Exploder)
        ensures
            r@ == self@.exploder,
    {
        &self.exploder
    }

    pub fn losing_tile(&self) -> (r: Option<usize>)
        ensures
            r == self@.losing_tile,
    {
        self.losing_tile
    }

    pub fn difficulty(&self) -> (r: Difficulty)
        ensures
            r == self@.difficulty,
    {
        self.difficulty
    }

    pub fn custom_values(&self) -> (r: Option<Difficulty>)
        ensures
            r == self@.custom_values,
    {
        self.custom_values
    }

    /// Whether a game has been started and not finished.
    pub fn game_in_progress(&self) -> (r: bool)
        ensures
            r == (self@.game.state == GameState::Playing && self@.game.turns != 0),
    {
        self.game.state() == GameState::Playing && self.game.turns() != 0
    }

    /// The new game asked for, if any; asking clears the request.
    pub fn new_game_requested(&mut self) -> (r: Option<Difficulty>)
        ensures
            r == old(self)@.new_game_request,
            final(self)@ == (ElementView { new_game_request: None, ..old(self)@ }),
    {
        self.new_game_request.take()
    }

    /// The state the game changed to on the last frame, if it changed.
    pub fn game_state_change(&mut self) -> (r: Option<GameState>)
        ensures
            r == old(self)@.game_state_change,
            final(self)@ == old(self)@,
    {
        self.game_state_change
    }

    /// Asks for a new game of the current difficulty (the face button was
    /// pressed).
    pub fn request_new_game(&mut self)
        ensures
            final(self)@ == (ElementView { new_game_request: Some(old(self)@.difficulty), ..old(self)@ }),
    {
        self.new_game_request = Some(self.difficulty);
    }

    /// Starts a new game of `difficulty`; a custom difficulty is remembered
    /// for the custom game popup.
    pub fn new_game(&mut self, difficulty: Difficulty)
        requires
            old(self)@.wf(),
        ensures
            final(self)@.wf(),
            old(self)@.started(final(self)@, difficulty),
    {
        self.game = Minesweeper::new(difficulty);
        self.difficulty = difficulty;
        self.exploder.reset();
        self.losing_tile = None;
        if let Difficulty::Custom(_) = difficulty {
            self.custom_values = Some(difficulty);
        }
    }

    /// Digs at `tile` of the minefield, and when that loses the game, gets
    /// the bombs ready to go off from the dug one. Returns whether something
    /// happened.
    pub fn dig(&mut self, tile: usize) -> (r: bool)
        requires
            old(self)@.wf(),
            old(self)@.game.turns == 0 && old(self)@.game.diggable(tile as int) ==> old(self)@.game.bomb_count
                <= bomb_candidates_below(
                old(self)@.game.width as int,
                old(self)@.game.height as int,
                tile as int,
                old(self)@.game.size(),
            ).len(),
        ensures
            final(self)@.wf(),
            old(self)@.dug_at(final(self)@, tile as int, r),
    {
        let prev_state = self.game.state();
        let r = self.game.dig(tile);
        // If we've lost on this dig, start exploding bombs!
        if prev_state == GameState::Playing && self.game.state() == GameState::Lose {
            self.losing_tile = Some(tile);
            self.exploder.initialise(tile, &self.game);
        }
        r
    }

    /// Flags (or unflags) `tile` of the minefield; returns whether something
    /// happened.
    /// Chords at `tile` (see `Minesweeper::chord`); when that loses the game,
    /// the bomb it dug is the losing tile and the bombs start going off from
    /// it. Returns the bomb dug, if any.
    pub fn chord(&mut self, tile: usize) -> (r: Option<usize>)
        requires
            old(self)@.wf(),
        ensures
            final(self)@.wf(),
            old(self)@.after_chord(final(self)@, tile as int, r),
    {
        let prev_state = self.game.state();
        let ghost before = self.game@;
        let r = self.game.chord(tile);
        proof {
            if before.chordable(tile as int) {
                lemma_chord_bomb(before, tile as int, 8);
                lemma_chord_steps_keep_shape(before, tile as int, 8);
            }
        }
        if prev_state == GameState::Playing && self.game.state() == GameState::Lose {
            let bomb = match r {
                Some(b) => b,
                None => tile,
            };
            self.losing_tile = Some(bomb);
            self.exploder.initialise(bomb, &self.game);
        }
        r
    }

    pub fn set_flag(&mut self, erasing_flags: bool, tile: usize) -> (r: bool)
        requires
            old(self)@.wf(),
        ensures
            final(self)@.wf(),
            (r, final(self)@.game) == old(self)@.game.after_set_flag(erasing_flags, tile as int),
            final(self)@ == (ElementView { game: final(self)@.game, ..old(self)@ }),
    {
        self.game.set_flag(erasing_flags, tile)
    }

    /// Records whether the game's state changed from `prev_state` this frame.
    pub fn note_state_change(&mut self, prev_state: GameState)
        ensures
            final(self)@ == (ElementView {
                game_state_change: if prev_state != old(self)@.game.state {
                    Some(old(self)@.game.state)
                } else {
                    None
                },
                ..old(self)@
            }),
    {
        let new_state = self.game.state();
        self.game_state_change = match prev_state != new_state {
            true => Some(new_state),
            false => None,
        }
    }

    /// Sets off the bombs within reach (see `Exploder::explode_within`) while
    /// the game is lost; returns whether any went off.
    pub fn explode(&mut self, reach: u128) -> (r: bool)
        requires
            old(self)@.wf(),
        ensures
            final(self)@.wf(),
            old(self)@.game.state != GameState::Lose ==> final(self)@ == old(self)@ && !r,
            old(self)@.game.state == GameState::Lose ==> {
                &&& final(self)@.exploder.map_skip == old(self)@.exploder.reached(reach)
                &&& r == (final(self)@.exploder.map_skip != old(self)@.exploder.map_skip)
            },
            final(self)@ == (ElementView { exploder: final(self)@.exploder, ..old(self)@ }),
            final(self)@.exploder.entries.len() == old(self)@.exploder.entries.len(),
            forall|j: int|
                0 <= j < old(self)@.exploder.entries.len() ==> (#[trigger] final(self)@.exploder.entries[j]).0
                    == old(self)@.exploder.entries[j].0 && final(self)@.exploder.entries[j].1.0
                    == old(self)@.exploder.entries[j].1.0,
    {
        if self.game.state() == GameState::Lose {
            self.exploder.explode_within(reach)
        } else {
            false
        }
    }
}

/// A losing dig starts the explosion at the dug tile: it is the losing
/// tile, and every bomb of the game is ready to go off, none gone off yet.
pub proof fn law_losing_dig_readies_every_bomb(before: ElementView, after: ElementView, tile: int, b: usize)
    requires
        before.dug_at(after, tile, true),
        after.exploder.wf(),
        after.game.state == GameState::Lose,
        after.game.bombs.contains(b),
    ensures
        after.losing_tile == Some(tile as usize),
        position_of(after.exploder.entries, b) is Some,
        forall|k: int| 0 <= k < after.exploder.entries.len() ==> !(#[trigger] after.exploder.entries[k]).1.1,
{
    broadcast use vstd::seq_lib::group_to_multiset_ensures;

    let target = bomb_entries(after.game.bombs, tile, after.game.width as int);
    let j = choose|j: int| 0 <= j < after.game.bombs.len() && after.game.bombs[j] == b;
    assert(target[j].0 == b);
    assert(target.contains(target[j]));
    assert(after.exploder.entries.to_multiset().count(target[j]) > 0);
    assert(after.exploder.entries.contains(target[j]));
    let k = choose|k: int| 0 <= k < after.exploder.entries.len() && after.exploder.entries[k] == target[j];
    assert(after.exploder.entries[k].0 == b);
}

} // verus!
