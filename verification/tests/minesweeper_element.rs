use minesweeper::minesweeper::{
    get_index_from_offset, neighbour_offset, Difficulty, GameState, Minesweeper, Tile,
};
use minesweeper::ui::minesweeper_element::exploder::Exploder;
use minesweeper::ui::minesweeper_element::minefield::{chorded_tiles, Minefield};
use minesweeper::ui::minesweeper_element::MinesweeperElement;
use minesweeper::ui::popups::PopupKind;
use minesweeper::ui::state::State;
use minesweeper::ui::{new_game_request, popup_for_state_change, quit_request};

const UP: (bool, bool, bool) = (false, false, false);
const PRESSED: (bool, bool, bool) = (true, true, false);
const HELD: (bool, bool, bool) = (true, false, false);
const RELEASED: (bool, bool, bool) = (false, false, true);

/// A lost 4 by 4 game: bombs at 15, 10 and 3, the one at 10 dug.
fn lost_game() -> Minesweeper {
    let mut game = Minesweeper::new(Difficulty::custom(4, 4, 3));
    assert!(game.dig_arranged(0, vec![15, 10, 3]));
    assert!(game.dig_arranged(10, vec![]));
    assert_eq!(game.state(), GameState::Lose);
    game
}

fn frame(left: (bool, bool, bool), right: (bool, bool, bool), middle: (bool, bool, bool)) -> State {
    let mut state = State::new();
    state.begin(left, right, middle);
    state
}

#[test]
fn exploder_orders_bombs_by_distance() {
    let game = lost_game();
    let mut exploder = Exploder::new();
    assert!(!exploder.contains(&10));
    assert!(exploder.all_exploded());
    exploder.initialise(10, &game);
    assert!(exploder.contains(&3));
    assert!(exploder.contains(&10));
    assert!(exploder.contains(&15));
    assert!(!exploder.contains(&0));
    assert_eq!(exploder.index_exploded(&15), Some(false));
    assert_eq!(exploder.index_exploded(&0), None);
    assert!(!exploder.all_exploded());

    // The bomb at distance 0 goes off first.
    assert!(exploder.explode_within(1));
    assert_eq!(exploder.index_exploded(&10), Some(true));
    assert_eq!(exploder.index_exploded(&15), Some(false));
    assert!(!exploder.explode_within(1));
    // Squared distance 2 (tile 15) is reached before 5 (tile 3).
    assert!(exploder.explode_within(3));
    assert_eq!(exploder.index_exploded(&15), Some(true));
    assert_eq!(exploder.index_exploded(&3), Some(false));
    assert!(exploder.explode_within(6));
    assert_eq!(exploder.index_exploded(&3), Some(true));
    assert!(exploder.all_exploded());
    assert!(!exploder.explode_within(100));

    exploder.reset();
    assert!(!exploder.contains(&10));
    assert!(exploder.all_exploded());
}

#[test]
fn exploder_skips_a_gap_all_at_once() {
    let game = lost_game();
    let mut exploder = Exploder::new();
    exploder.initialise(10, &game);
    assert!(exploder.explode_within(6));
    assert!(exploder.all_exploded());
}

#[test]
fn element_starts_on_an_easy_game() {
    let mut element = MinesweeperElement::new();
    assert_eq!(element.difficulty(), Difficulty::Easy);
    assert_eq!(element.game().width(), 9);
    assert_eq!(element.game().bomb_count(), 9);
    assert!(!element.game_in_progress());
    assert_eq!(element.custom_values(), None);
    assert_eq!(element.losing_tile(), None);
    assert_eq!(element.new_game_requested(), None);
    assert_eq!(element.game_state_change(), None);
    assert!(element.exploder().all_exploded());
}

#[test]
fn element_new_game_requests() {
    let mut element = MinesweeperElement::new();
    element.request_new_game();
    assert_eq!(element.new_game_requested(), Some(Difficulty::Easy));
    assert_eq!(element.new_game_requested(), None);
    let custom = Difficulty::custom(5, 6, 7);
    element.new_game(custom);
    assert_eq!(element.difficulty(), custom);
    assert_eq!(element.custom_values(), Some(custom));
    assert_eq!(element.game().width(), 5);
    assert_eq!(element.game().height(), 6);
    element.new_game(Difficulty::Normal);
    assert_eq!(element.custom_values(), Some(custom));
    assert_eq!(element.game().width(), 16);
}

#[test]
fn element_loses_and_explodes() {
    let mut element = MinesweeperElement::new();
    loop {
        element.new_game(Difficulty::custom(9, 9, 10));
        assert!(element.dig(40));
        if element.game().state() == GameState::Playing {
            break;
        }
    }
    assert!(element.game_in_progress());
    element.note_state_change(GameState::Playing);
    assert_eq!(element.game_state_change(), None);
    let bomb = element.game().bombs()[0];
    assert!(element.dig(bomb));
    assert_eq!(element.game().state(), GameState::Lose);
    assert!(!element.game_in_progress());
    assert_eq!(element.losing_tile(), Some(bomb));
    for b in element.game().bombs().clone() {
        assert!(element.exploder().contains(&b));
    }
    element.note_state_change(GameState::Playing);
    assert_eq!(element.game_state_change(), Some(GameState::Lose));
    assert!(element.explode(1));
    assert_eq!(element.exploder().index_exploded(&bomb), Some(true));
    assert!(element.explode(100000));
    assert!(element.exploder().all_exploded());
    // A new game clears the explosion.
    element.new_game(Difficulty::Easy);
    assert_eq!(element.losing_tile(), None);
    assert!(!element.exploder().contains(&bomb));
    assert!(!element.explode(100000));
}

#[test]
fn element_flags_tiles() {
    let mut element = MinesweeperElement::new();
    assert!(element.set_flag(false, 3));
    assert_eq!(element.game().board()[3], Tile::Flag);
    assert!(element.set_flag(true, 3));
    assert_eq!(element.game().board()[3], Tile::Unopened);
    assert!(!element.set_flag(true, 3));
}

#[test]
fn left_click_released_digs() {
    let mut element = MinesweeperElement::new();
    let mut field = Minefield::new();
    let pressed = field.interact(true, 40, &mut element, &frame(PRESSED, UP, UP));
    assert!(pressed.pressed_tile);
    assert!(pressed.about_to_dig);
    assert_eq!(pressed.dug, None);
    assert_eq!(element.game().turns(), 0);
    let released = field.interact(true, 40, &mut element, &frame(RELEASED, UP, UP));
    assert_eq!(released.dug, Some(40));
    assert!(!released.pressed_tile);
    assert_eq!(element.game().turns(), 1);
    assert_eq!(element.game().board()[40], Tile::Dug);
}

#[test]
fn inactive_minefield_does_not_dig() {
    let mut element = MinesweeperElement::new();
    let mut field = Minefield::new();
    let r = field.interact(false, 40, &mut element, &frame(RELEASED, UP, UP));
    assert_eq!(r.dug, None);
    assert_eq!(element.game().turns(), 0);
}

#[test]
fn right_click_flags_then_unflags() {
    let mut element = MinesweeperElement::new();
    let mut field = Minefield::new();
    let r = field.interact(true, 5, &mut element, &frame(UP, PRESSED, UP));
    assert!(r.flag_changed);
    assert_eq!(element.game().board()[5], Tile::Flag);
    // Holding the button does not flag more tiles.
    let r = field.interact(true, 6, &mut element, &frame(UP, HELD, UP));
    assert!(!r.flag_changed);
    assert_eq!(element.game().board()[6], Tile::Unopened);
    // Pressing on a flag removes flags while the button is held.
    let r = field.interact(true, 5, &mut element, &frame(UP, PRESSED, UP));
    assert!(r.flag_changed);
    assert_eq!(element.game().board()[5], Tile::Unopened);
    assert!(element.set_flag(false, 7));
    let r = field.interact(true, 7, &mut element, &frame(UP, HELD, UP));
    assert!(r.flag_changed);
    assert_eq!(element.game().board()[7], Tile::Unopened);
    // Letting go forgets the mode.
    field.interact(true, 7, &mut element, &frame(UP, RELEASED, UP));
    assert!(element.set_flag(false, 8));
    let r = field.interact(true, 8, &mut element, &frame(UP, HELD, UP));
    assert!(!r.flag_changed);
    assert_eq!(element.game().board()[8], Tile::Flag);
}

#[test]
fn chording_an_unopened_tile_digs_nothing() {
    let mut element = MinesweeperElement::new();
    let mut field = Minefield::new();
    let r = field.interact(true, 40, &mut element, &frame(PRESSED, PRESSED, UP));
    assert!(r.about_to_dig);
    assert!(!r.pressed_tile);
    let r = field.interact(true, 40, &mut element, &frame(RELEASED, HELD, UP));
    assert_eq!(r.dug, None);
    assert!(!r.about_to_dig);
    // Still chorded until every button is up.
    let r = field.interact(true, 40, &mut element, &frame(UP, HELD, UP));
    assert_eq!(r.dug, None);
    assert!(!r.flag_changed);
    let r = field.interact(true, 40, &mut element, &frame(UP, UP, UP));
    assert_eq!(r.dug, None);
    assert_eq!(element.game().turns(), 0);
    // Then a click digs again.
    let r = field.interact(true, 40, &mut element, &frame(RELEASED, UP, UP));
    assert_eq!(r.dug, Some(40));
}

#[test]
fn middle_button_chords() {
    let mut element = MinesweeperElement::new();
    let mut field = Minefield::new();
    let r = field.interact(true, 40, &mut element, &frame(UP, UP, PRESSED));
    assert!(r.about_to_dig);
    field.new_game();
    let r = field.interact(true, 40, &mut element, &frame(UP, UP, RELEASED));
    assert_eq!(r.dug, None);
    assert_eq!(element.game().turns(), 0);
}

#[test]
fn chorded_tiles_are_the_unopened_ones_around() {
    let mut game = Minesweeper::new(Difficulty::custom(4, 4, 1));
    let mut tiles = chorded_tiles(&game, 5);
    tiles.sort();
    assert_eq!(tiles, vec![0, 1, 2, 4, 5, 6, 8, 9, 10]);
    let mut corner = chorded_tiles(&game, 15);
    corner.sort();
    assert_eq!(corner, vec![10, 11, 14, 15]);
    assert!(game.set_flag(false, 1));
    let mut tiles = chorded_tiles(&game, 5);
    tiles.sort();
    assert_eq!(tiles, vec![0, 2, 4, 5, 6, 8, 9, 10]);
}

/// The neighbours of `tile` on `game`.
fn neighbours(game: &Minesweeper, tile: usize) -> Vec<usize> {
    (0..8)
        .filter_map(|k| {
            let (x, y) = neighbour_offset(k);
            get_index_from_offset(tile, x, y, game.width(), game.height())
        })
        .collect()
}

/// Starts Easy games, dug in the middle, until `pick` finds what a test
/// needs on one that is still being played.
fn playing_game_with<T>(element: &mut MinesweeperElement, pick: impl Fn(&Minesweeper) -> Option<T>) -> T {
    loop {
        element.new_game(Difficulty::Easy);
        assert!(element.dig(40));
        if element.game().state() == GameState::Playing {
            if let Some(found) = pick(element.game()) {
                return found;
            }
        }
    }
}

#[test]
fn chord_release_digs_around_a_satisfied_number() {
    let mut element = MinesweeperElement::new();
    let mut field = Minefield::new();
    // A numbered tile with an unopened safe neighbour.
    let target = playing_game_with(&mut element, |game| {
        (0..81).find(|&t| {
            matches!(game.board()[t], Tile::Numbered(_))
                && neighbours(game, t)
                    .iter()
                    .any(|n| game.board()[*n] == Tile::Unopened && !game.bombs().contains(n))
        })
    });
    let bombs = element.game().bombs().clone();
    for n in neighbours(element.game(), target) {
        if bombs.contains(&n) {
            assert!(element.set_flag(false, n));
        }
    }
    let r = field.interact(true, target, &mut element, &frame(PRESSED, UP, UP));
    assert!(r.pressed_tile == false);
    let r = field.interact(true, target, &mut element, &frame(HELD, PRESSED, UP));
    assert!(r.about_to_dig);
    let r = field.interact(true, target, &mut element, &frame(RELEASED, HELD, UP));
    assert_eq!(r.dug, None);
    assert_ne!(element.game().state(), GameState::Lose);
    for n in neighbours(element.game(), target) {
        if bombs.contains(&n) {
            assert_eq!(element.game().board()[n], Tile::Flag);
        } else {
            assert!(matches!(element.game().board()[n], Tile::Dug | Tile::Numbered(_)));
        }
    }
}

#[test]
fn chord_release_with_a_wrong_flag_loses() {
    let mut element = MinesweeperElement::new();
    let mut field = Minefield::new();
    // A tile showing 1 with an unopened safe neighbour: that one gets the flag.
    let (target, wrong) = playing_game_with(&mut element, |game| {
        (0..81).find_map(|t| {
            if game.board()[t] != Tile::Numbered(1) {
                return None;
            }
            neighbours(game, t)
                .into_iter()
                .find(|n| game.board()[*n] == Tile::Unopened && !game.bombs().contains(n))
                .map(|n| (t, n))
        })
    });
    let bombs = element.game().bombs().clone();
    let bomb = neighbours(element.game(), target)
        .into_iter()
        .find(|n| bombs.contains(n))
        .unwrap();
    assert!(element.set_flag(false, wrong));
    field.interact(true, target, &mut element, &frame(UP, UP, PRESSED));
    let r = field.interact(true, target, &mut element, &frame(UP, UP, RELEASED));
    assert_eq!(r.dug, Some(bomb));
    assert_eq!(element.game().state(), GameState::Lose);
    assert_eq!(element.losing_tile(), Some(bomb));
    assert!(element.exploder().contains(&bomb));
}

#[test]
fn quitting_asks_only_during_a_game() {
    let mut element = MinesweeperElement::new();
    assert!(quit_request(&element).is_none());
    assert!(element.dig(40));
    if element.game().state() == GameState::Playing {
        assert!(matches!(quit_request(&element), Some(PopupKind::Exit)));
    }
}

#[test]
fn new_game_asks_only_during_a_game() {
    let mut element = MinesweeperElement::new();
    assert!(new_game_request(&mut element, Difficulty::Hard).is_none());
    assert_eq!(element.difficulty(), Difficulty::Hard);
    assert_eq!(element.game().width(), 30);
    loop {
        element.new_game(Difficulty::Easy);
        assert!(element.dig(40));
        if element.game().state() == GameState::Playing {
            break;
        }
    }
    match new_game_request(&mut element, Difficulty::Normal) {
        Some(PopupKind::NewGame { difficulty }) => assert_eq!(difficulty, Difficulty::Normal),
        _ => panic!("a game in progress is asked about"),
    }
    assert_eq!(element.difficulty(), Difficulty::Easy);
    assert_eq!(element.game().turns(), 1);
}

#[test]
fn winning_brings_up_the_win_popup() {
    assert!(matches!(popup_for_state_change(Some(GameState::Win)), Some(PopupKind::Win)));
    assert!(popup_for_state_change(Some(GameState::Lose)).is_none());
    assert!(popup_for_state_change(None).is_none());
}

#[test]
fn exploder_starts_from_any_index() {
    let game = lost_game();
    let mut exploder = Exploder::new();
    exploder.initialise(1000, &game);
    // From (0, 250): tile 15 is 61018 away, 10 is 61508 and 3 is 62509.
    assert!(exploder.explode_within(61019));
    assert_eq!(exploder.index_exploded(&15), Some(true));
    assert_eq!(exploder.index_exploded(&10), Some(false));
    assert!(exploder.explode_within(62510));
    assert!(exploder.all_exploded());
}

#[test]
fn losing_click_starts_the_explosion_at_the_tile() {
    let mut element = MinesweeperElement::new();
    let mut field = Minefield::new();
    loop {
        element.new_game(Difficulty::Easy);
        assert!(element.dig(40));
        if element.game().state() == GameState::Playing {
            break;
        }
    }
    let bombs = element.game().bombs().clone();
    let bomb = bombs[0];
    let r = field.interact(true, bomb, &mut element, &frame(RELEASED, UP, UP));
    assert_eq!(r.dug, Some(bomb));
    assert_eq!(element.game().state(), GameState::Lose);
    assert_eq!(element.losing_tile(), Some(bomb));
    for b in &bombs {
        assert_eq!(element.exploder().index_exploded(b), Some(false));
    }
    assert_eq!(element.new_game_requested(), None);
    assert_eq!(element.difficulty(), Difficulty::Easy);
}
