use minesweeper::minesweeper::{
    get_index_from_offset, neighbour_offset, Difficulty, GameState, Minesweeper, Tile, Timer,
    MAX_HEIGHT, MAX_WIDTH, MIN_HEIGHT, MIN_WIDTH,
};

fn values(d: Difficulty) -> (usize, usize, usize) {
    let v = d.values();
    (v.width(), v.height(), v.bomb_count())
}

/// A 4 by 4 game with `bombs` bombs, its first dig made at `index` with the
/// bombs taken from the start of `arranged`.
fn small_game(bombs: usize, index: usize, arranged: Vec<usize>) -> (Minesweeper, bool) {
    let mut game = Minesweeper::new(Difficulty::custom(4, 4, bombs));
    let dug = game.dig_arranged(index, arranged);
    (game, dug)
}

#[test]
fn preset_difficulties_have_their_sizes() {
    assert_eq!(values(Difficulty::Easy), (9, 9, 9));
    assert_eq!(values(Difficulty::Normal), (16, 16, 40));
    assert_eq!(values(Difficulty::Hard), (30, 16, 100));
}

#[test]
fn custom_difficulty_keeps_values_within_limits() {
    assert_eq!(values(Difficulty::custom(10, 12, 20)), (10, 12, 20));
    assert_eq!(values(Difficulty::custom(1, 1000, 100000)), (MIN_WIDTH, MAX_HEIGHT, 3 * 99));
    assert_eq!(values(Difficulty::custom(300, 2, 5)), (MAX_WIDTH, MIN_HEIGHT, 5));
    assert_eq!(values(Difficulty::custom(0, 0, 0)), (4, 4, 0));
    assert_eq!(values(Difficulty::custom(4, 4, 10)), (4, 4, 9));
}

#[test]
fn custom_values_are_stable() {
    let first = values(Difficulty::custom(2, 500, 9999));
    let again = values(Difficulty::custom(first.0, first.1, first.2));
    assert_eq!(first, again);
}

#[test]
fn new_game_is_all_unopened() {
    let game = Minesweeper::new(Difficulty::Normal);
    assert_eq!(game.width(), 16);
    assert_eq!(game.height(), 16);
    assert_eq!(game.bomb_count(), 40);
    assert_eq!(game.board().len(), 256);
    assert!(game.board().iter().all(|t| *t == Tile::Unopened));
    assert!(game.bombs().is_empty());
    assert_eq!(game.state(), GameState::Playing);
    assert_eq!(*game.timer(), Timer::Idle);
    assert_eq!(game.turns(), 0);
    assert_eq!(game.flags_left(), 40);
}

#[test]
fn neighbour_offsets_go_round_the_tile() {
    assert_eq!(neighbour_offset(0), (-1, 1));
    assert_eq!(neighbour_offset(1), (0, 1));
    assert_eq!(neighbour_offset(2), (1, 1));
    assert_eq!(neighbour_offset(3), (-1, 0));
    assert_eq!(neighbour_offset(4), (1, 0));
    assert_eq!(neighbour_offset(5), (-1, -1));
    assert_eq!(neighbour_offset(6), (0, -1));
    assert_eq!(neighbour_offset(7), (1, -1));
}

#[test]
fn index_from_offset_stays_on_the_board() {
    assert_eq!(get_index_from_offset(0, 1, 0, 4, 4), Some(1));
    assert_eq!(get_index_from_offset(0, -1, 0, 4, 4), None);
    assert_eq!(get_index_from_offset(0, 0, 1, 4, 4), None);
    assert_eq!(get_index_from_offset(0, 0, -1, 4, 4), Some(4));
    assert_eq!(get_index_from_offset(5, -1, 1, 4, 4), Some(0));
    assert_eq!(get_index_from_offset(15, 1, 0, 4, 4), None);
    assert_eq!(get_index_from_offset(15, 0, -1, 4, 4), None);
    assert_eq!(get_index_from_offset(15, -1, 1, 4, 4), Some(10));
    assert_eq!(get_index_from_offset(7, 0, 0, 5, 3), Some(7));
    assert_eq!(get_index_from_offset(3, 1, 0, 4, 4), None);
}

#[test]
fn index_from_offset_refuses_an_index_past_usize() {
    assert_eq!(get_index_from_offset(usize::MAX - 1, 0, -1, usize::MAX, usize::MAX), None);
}

#[test]
fn timer_runs_then_freezes() {
    let mut t = Timer::Idle;
    assert!(t.is_none());
    t.freeze();
    assert_eq!(t, Timer::Idle);
    t.start();
    assert_eq!(t, Timer::Timing);
    assert!(!t.is_none());
    t.freeze();
    assert_eq!(t, Timer::Frozen);
    t.freeze();
    assert_eq!(t, Timer::Frozen);
}

#[test]
fn flagging_and_counting_flags() {
    let mut game = Minesweeper::new(Difficulty::Easy);
    assert_eq!(game.flags_left(), 9);
    assert!(game.set_flag(false, 0));
    assert_eq!(game.board()[0], Tile::Flag);
    assert_eq!(game.flags_left(), 8);
    assert!(!game.set_flag(false, 0));
    assert!(!game.set_flag(true, 1));
    assert!(!game.set_flag(false, 81));
    assert!(game.set_flag(true, 0));
    assert_eq!(game.board()[0], Tile::Unopened);
    assert_eq!(game.flags_left(), 9);
}

#[test]
fn flags_left_never_goes_below_zero() {
    let mut game = Minesweeper::new(Difficulty::custom(4, 4, 1));
    assert!(game.set_flag(false, 0));
    assert!(game.set_flag(false, 1));
    assert!(game.set_flag(false, 2));
    assert_eq!(game.flags_left(), 0);
}

#[test]
fn flag_then_erase_restores_the_board() {
    let mut game = Minesweeper::new(Difficulty::Easy);
    let before = game.board().clone();
    assert!(game.set_flag(false, 40));
    assert!(game.set_flag(true, 40));
    assert_eq!(*game.board(), before);
}

#[test]
fn flagged_tile_cannot_be_dug() {
    let mut game = Minesweeper::new(Difficulty::custom(4, 4, 1));
    assert!(game.set_flag(false, 0));
    assert!(!game.diggable(0));
    assert!(!game.dig_arranged(0, vec![15]));
    assert_eq!(game.turns(), 0);
    assert!(game.bombs().is_empty());
}

#[test]
fn bomb_candidates_leave_out_the_safe_zone() {
    let game = Minesweeper::new(Difficulty::custom(4, 4, 1));
    assert_eq!(game.bomb_candidates(0), vec![2, 3, 6, 7, 8, 9, 10, 11, 12, 13, 14, 15]);
    assert_eq!(
        game.bomb_candidates(5),
        vec![3, 7, 11, 12, 13, 14, 15]
    );
}

#[test]
fn first_dig_floods_the_empty_area_and_wins() {
    let (game, dug) = small_game(1, 0, vec![15, 2]);
    assert!(dug);
    assert_eq!(*game.bombs(), vec![15]);
    assert_eq!(game.turns(), 1);
    assert_eq!(game.state(), GameState::Win);
    assert_eq!(*game.timer(), Timer::Frozen);
    let board = game.board();
    assert_eq!(board[15], Tile::Unopened);
    for i in [10, 11, 14] {
        assert_eq!(board[i], Tile::Numbered(1));
    }
    for i in [0, 1, 2, 3, 4, 5, 6, 7, 8, 9, 12, 13] {
        assert_eq!(board[i], Tile::Dug);
    }
}

fn two_bomb_game() -> Minesweeper {
    let (game, dug) = small_game(2, 0, vec![15, 10, 3]);
    assert!(dug);
    game
}

#[test]
fn first_dig_stops_at_numbered_tiles() {
    let game = two_bomb_game();
    assert_eq!(*game.bombs(), vec![15, 10]);
    assert_eq!(game.state(), GameState::Playing);
    assert_eq!(*game.timer(), Timer::Timing);
    let board = game.board();
    for i in [0, 1, 2, 3, 4, 8, 12] {
        assert_eq!(board[i], Tile::Dug);
    }
    for i in [5, 6, 7, 9, 13] {
        assert_eq!(board[i], Tile::Numbered(1));
    }
    for i in [10, 11, 14, 15] {
        assert_eq!(board[i], Tile::Unopened);
    }
}

#[test]
fn later_digs_ignore_the_arrangement_and_can_win() {
    let mut game = two_bomb_game();
    let before = game.board().clone();
    assert!(game.dig_arranged(11, vec![0]));
    assert_eq!(*game.bombs(), vec![15, 10]);
    assert_eq!(game.board()[11], Tile::Numbered(2));
    for i in 0..16 {
        if i != 11 {
            assert_eq!(game.board()[i], before[i]);
        }
    }
    assert_eq!(game.state(), GameState::Playing);
    assert!(game.dig_arranged(14, vec![]));
    assert_eq!(game.board()[14], Tile::Numbered(2));
    assert_eq!(game.state(), GameState::Win);
    assert_eq!(*game.timer(), Timer::Frozen);
    assert_eq!(game.turns(), 3);
}

#[test]
fn digging_a_bomb_loses_and_ends_the_game() {
    let mut game = two_bomb_game();
    let board = game.board().clone();
    assert!(game.dig_arranged(10, vec![]));
    assert_eq!(game.state(), GameState::Lose);
    assert_eq!(*game.timer(), Timer::Frozen);
    assert_eq!(*game.board(), board);
    assert_eq!(game.turns(), 2);
    // A finished game stays as it is.
    assert!(!game.dig_arranged(11, vec![]));
    assert!(!game.set_flag(false, 11));
    assert!(!game.diggable(11));
    assert_eq!(game.turns(), 2);
    assert_eq!(game.state(), GameState::Lose);
}

#[test]
fn digging_an_opened_tile_does_nothing() {
    let mut game = two_bomb_game();
    assert!(!game.diggable(0));
    assert!(!game.dig_arranged(0, vec![]));
    assert!(!game.dig_arranged(16, vec![]));
    assert_eq!(game.turns(), 1);
}

#[test]
fn random_first_dig_is_safe() {
    let mut game = Minesweeper::new(Difficulty::Easy);
    assert!(game.dig(40));
    let safe = [30, 31, 32, 39, 40, 41, 48, 49, 50];
    assert_eq!(game.bombs().len(), 9);
    for b in game.bombs() {
        assert!(*b < 81);
        assert!(!safe.contains(b));
    }
    let mut sorted = game.bombs().clone();
    sorted.sort();
    sorted.dedup();
    assert_eq!(sorted.len(), 9);
    assert_ne!(game.state(), GameState::Lose);
    assert_eq!(game.board()[40], Tile::Dug);
    for i in safe {
        assert!(matches!(game.board()[i], Tile::Dug | Tile::Numbered(_)));
    }
}

#[test]
fn random_first_dig_takes_bombs_from_the_candidates() {
    for _ in 0..20 {
        let mut game = Minesweeper::new(Difficulty::custom(4, 4, 12));
        assert_eq!(game.bomb_count(), 9);
        let candidates = game.bomb_candidates(0);
        assert!(game.dig(0));
        assert_eq!(game.bombs().len(), 9);
        for b in game.bombs() {
            assert!(candidates.contains(b));
        }
        assert_ne!(game.state(), GameState::Lose);
    }
}

#[test]
fn dig_spreads_from_empty_tiles() {
    let (game, _) = small_game(1, 0, vec![15]);
    let board = game.board();
    // Tile 5 is empty, so each of its neighbours was opened.
    assert_eq!(board[5], Tile::Dug);
    for i in [0, 1, 2, 4, 6, 8, 9, 10] {
        assert_ne!(board[i], Tile::Unopened);
    }
}

#[test]
fn chord_digs_around_a_satisfied_number() {
    let mut game = two_bomb_game();
    assert!(game.set_flag(false, 10));
    assert_eq!(game.chord(6), None);
    assert_eq!(game.board()[11], Tile::Numbered(2));
    assert_eq!(game.board()[10], Tile::Flag);
    assert_eq!(game.state(), GameState::Playing);
    assert_eq!(game.turns(), 2);
    assert_eq!(game.chord(13), None);
    assert_eq!(game.board()[14], Tile::Numbered(2));
    assert_eq!(game.state(), GameState::Win);
}

#[test]
fn chord_with_a_wrong_flag_loses() {
    let mut game = two_bomb_game();
    assert!(game.set_flag(false, 11));
    assert_eq!(game.chord(6), Some(10));
    assert_eq!(game.state(), GameState::Lose);
    assert_eq!(game.board()[11], Tile::Flag);
    assert_eq!(*game.timer(), Timer::Frozen);
}

#[test]
fn chord_needs_the_right_number_of_flags() {
    let mut game = two_bomb_game();
    let before = game.board().clone();
    assert_eq!(game.chord(6), None);
    assert_eq!(*game.board(), before);
    assert_eq!(game.turns(), 1);
    assert!(game.set_flag(false, 10));
    assert!(game.set_flag(false, 11));
    assert_eq!(game.chord(6), None);
    assert_eq!(game.board()[11], Tile::Flag);
    assert_eq!(game.turns(), 1);
}

#[test]
fn chord_on_unnumbered_tiles_does_nothing() {
    let mut game = two_bomb_game();
    assert_eq!(game.chord(0), None);
    assert_eq!(game.chord(10), None);
    assert_eq!(game.chord(16), None);
    assert_eq!(game.turns(), 1);
    let mut fresh = Minesweeper::new(Difficulty::Easy);
    assert_eq!(fresh.chord(40), None);
    assert_eq!(fresh.turns(), 0);
}

#[test]
fn difficulty_limits() {
    assert!(Difficulty::custom(5, 5, 1).is_custom());
    assert!(!Difficulty::Hard.is_custom());
    assert!(Difficulty::dimensions_in_range(4, 4));
    assert!(Difficulty::dimensions_in_range(200, 100));
    assert!(!Difficulty::dimensions_in_range(3, 50));
    assert!(!Difficulty::dimensions_in_range(50, 101));
    assert_eq!(Difficulty::max_bombs(9, 9), Some(64));
    assert_eq!(Difficulty::max_bombs(4, 4), Some(9));
    assert_eq!(Difficulty::max_bombs(201, 9), None);
}

#[test]
fn game_state_questions() {
    assert!(GameState::Playing.is_playing());
    assert!(!GameState::Playing.is_win());
    assert!(GameState::Win.is_win());
    assert!(GameState::Lose.is_lose());
    assert!(!GameState::Lose.is_playing());
}

#[test]
fn first_dig_bombs_are_shuffled() {
    let first_candidates: Vec<usize> = Minesweeper::new(Difficulty::Easy).bomb_candidates(40)[..9].to_vec();
    let mut different = 0;
    for _ in 0..10 {
        let mut game = Minesweeper::new(Difficulty::Easy);
        assert!(game.dig(40));
        let mut bombs = game.bombs().clone();
        bombs.sort();
        if bombs != first_candidates {
            different += 1;
        }
    }
    assert!(different > 0);
}
