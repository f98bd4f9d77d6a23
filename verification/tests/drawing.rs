use minesweeper::legacy::gui::text_renderer::{char_len, legacy_char_map};
use minesweeper::minesweeper::{GameState, Tile};
use minesweeper::ui::minesweeper_element::minefield::tile_pictures;
use minesweeper::ui::minesweeper_element::status_bar::{
    bomb_counter_digit_count, bomb_counter_digits, eyes, face, height, min_size, timer_digits,
    SpamCounter,
};
use minesweeper::ui::renderer::style::{
    bomb_counter_digit, bomb_counter_size, rect, timer_colon, timer_digit, timer_digit_position,
    CounterDigit, Face, FaceType, Nineslice, SpriteRect, Style, Theme,
};
use minesweeper::ui::renderer::text_renderer::{
    character_values, default_char_map, split_vector_by_indexes, text_size, ERROR_CHAR,
};
use minesweeper::ui::spritesheet;
use minesweeper::ui::state::ButtonState;

fn chars(s: &str) -> Vec<char> {
    s.chars().collect()
}

#[test]
fn char_map_holds_the_font() {
    assert_eq!(default_char_map('A'), Some((3, 5)));
    assert_eq!(default_char_map('z'), Some((233, 5)));
    assert_eq!(default_char_map('0'), Some((238, 5)));
    assert_eq!(default_char_map(' '), Some((0, 3)));
    assert_eq!(default_char_map('\n'), Some((0, 0)));
    assert_eq!(default_char_map('\u{ac}'), Some((0, 1)));
    assert_eq!(default_char_map('|'), Some((372, 2)));
    assert_eq!(default_char_map('~'), None);
    assert_eq!(default_char_map('\u{e9}'), None);
}

#[test]
fn unknown_characters_draw_as_the_error_character() {
    assert_eq!(ERROR_CHAR, '?');
    assert_eq!(character_values('~'), (289, 4));
    assert_eq!(character_values('?'), (289, 4));
    assert_eq!(character_values('M'), (58, 6));
}

#[test]
fn split_vector_at_indexes() {
    let v = vec![1, 2, 3, 4, 5];
    assert_eq!(split_vector_by_indexes(&v, &[2]), vec![vec![1, 2], vec![3, 4, 5]]);
    assert_eq!(split_vector_by_indexes(&v, &[0, 2]), vec![vec![], vec![1, 2], vec![3, 4, 5]]);
    assert_eq!(split_vector_by_indexes(&v, &[]), vec![vec![1, 2, 3, 4, 5]]);
    assert_eq!(split_vector_by_indexes(&v, &[5]), vec![vec![1, 2, 3, 4, 5]]);
    assert_eq!(split_vector_by_indexes(&v, &[2, 9, 4]), vec![vec![1, 2], vec![3, 4], vec![5]]);
    let empty: Vec<u8> = vec![];
    assert_eq!(split_vector_by_indexes(&empty, &[]), Vec::<Vec<u8>>::new());
}

#[test]
fn text_size_measures_the_widest_line() {
    assert_eq!(text_size(&chars("")), (0, 1));
    assert_eq!(text_size(&chars("Hi")), (7, 1));
    assert_eq!(text_size(&chars("Hi\nyou")), (12, 2));
    assert_eq!(text_size(&chars("AB\nA")), (10, 2));
    assert_eq!(text_size(&chars("a\n\n")), (5, 3));
    assert_eq!(text_size(&chars("~~")), (8, 1));
}

#[test]
fn style_constants_and_counters() {
    assert_eq!(rect(1, 2, 3, 4), SpriteRect { x: 1, y: 2, w: 3, h: 4 });
    assert_eq!(bomb_counter_size(3), (34, 18));
    assert_eq!(bomb_counter_digit(CounterDigit::Digit(4)), rect(32, 36, 8, 14));
    assert_eq!(bomb_counter_digit(CounterDigit::Digit(12)), rect(72, 36, 8, 14));
    assert_eq!(bomb_counter_digit(CounterDigit::Empty), rect(80, 36, 8, 14));
    assert_eq!(bomb_counter_digit(CounterDigit::Dash), rect(88, 36, 8, 14));
    assert_eq!(timer_digit_position(0), 2);
    assert_eq!(timer_digit_position(1), 6);
    assert_eq!(timer_digit_position(2), 12);
    assert_eq!(timer_digit_position(3), 16);
    assert_eq!(timer_digit(Some(7)), rect(23, 50, 3, 5));
    assert_eq!(timer_digit(Some(15)), rect(32, 50, 3, 5));
    assert_eq!(timer_digit(None), rect(32, 50, 3, 5));
    assert_eq!(timer_colon(true), rect(1, 50, 1, 5));
    assert_eq!(timer_colon(false), rect(0, 50, 1, 5));
}

#[test]
fn style_follows_the_theme() {
    let mut style = Style::new();
    assert_eq!(*style.theme(), Theme::Light);
    assert_eq!(*style.face_type(), FaceType::Fox);
    assert_eq!(Theme::Light.y(), 0);
    assert_eq!(Theme::Dark.y(), 18);
    assert_eq!(style.background(), Nineslice::new(92, 0, 3, 3, 1));
    assert_eq!(style.minefield_tile(10), rect(9, 9, 9, 9));
    style.set_theme(Theme::Dark);
    assert_eq!(*style.theme(), Theme::Dark);
    assert_eq!(style.background(), Nineslice::new(92, 18, 3, 3, 1));
    assert_eq!(style.dropdown_background(), Nineslice::new(92, 18, 3, 3, 1));
    assert_eq!(style.dropdown_separator(), rect(94, 30, 1, 2));
    assert_eq!(style.text_input(), Nineslice::new(92, 33, 3, 3, 1));
    assert_eq!(style.popup_title(), Nineslice::new(86, 33, 3, 3, 1));
    assert_eq!(style.popup_body(), Nineslice::new(89, 33, 3, 3, 1));
    assert_eq!(style.popup_close(true), rect(95, 25, 7, 7));
    assert_eq!(style.popup_close(false), rect(95, 18, 7, 7));
    assert_eq!(style.bomb_counter_background(), Nineslice::new(92, 27, 3, 3, 1));
    assert_eq!(style.timer_background(), Nineslice::new(92, 27, 3, 3, 1));
    assert_eq!(style.minefield_tile(10), rect(9, 27, 9, 9));
    assert_eq!(style.minefield_border(), Nineslice::new(81, 29, 5, 5, 2));
    assert_eq!(style.minefield_selector(), rect(81, 18, 11, 11));
}

#[test]
fn button_looks() {
    let style = Style::new();
    assert_eq!(style.button(&ButtonState::Disabled), (0, Nineslice::new(92, 6, 3, 3, 1)));
    assert_eq!(style.button(&ButtonState::Idle), (0, Nineslice::new(92, 0, 3, 3, 1)));
    assert_eq!(style.button(&ButtonState::Hovered), (0, Nineslice::new(92, 0, 3, 3, 1)));
    assert_eq!(style.button(&ButtonState::Clicked), (1, Nineslice::new(92, 3, 3, 3, 1)));
    assert_eq!(style.button(&ButtonState::Held), (1, Nineslice::new(92, 3, 3, 3, 1)));
    assert_eq!(style.button(&ButtonState::Released), (1, Nineslice::new(92, 3, 3, 3, 1)));
}

#[test]
fn faces_and_eyes() {
    let mut style = Style::new();
    assert_eq!(style.face(Face::Idle, false, false), (rect(0, 55, 17, 17), None));
    assert_eq!(style.face(Face::Scared, true, false), (rect(17, 55, 17, 17), Some(rect(68, 55, 17, 17))));
    assert_eq!(style.face(Face::Idle, false, true), (rect(0, 55, 17, 17), Some(rect(85, 55, 17, 17))));
    assert_eq!(style.face(Face::Idle, true, true), (rect(0, 55, 17, 17), Some(rect(102, 55, 17, 17))));
    assert_eq!(style.face(Face::Win, true, true), (rect(34, 55, 17, 17), None));
    style.set_face_type(FaceType::Nerd);
    assert_eq!(style.face(Face::Lose, false, false), (rect(51, 72, 17, 17), None));
}

#[test]
fn status_bar_sizes() {
    assert_eq!(height(), 25);
    assert_eq!(min_size(), (75, 25));
}

#[test]
fn timer_shows_minutes_and_seconds() {
    assert_eq!(timer_digits(None), ([None, None, None, None], false));
    assert_eq!(timer_digits(Some(0)), ([None, Some(0), Some(0), Some(0)], true));
    assert_eq!(timer_digits(Some(83)), ([None, Some(1), Some(2), Some(3)], true));
    assert_eq!(timer_digits(Some(600)), ([Some(1), Some(0), Some(0), Some(0)], true));
    assert_eq!(timer_digits(Some(5999)), ([Some(9), Some(9), Some(5), Some(9)], true));
    assert_eq!(timer_digits(Some(100000)), ([Some(9), Some(9), Some(5), Some(9)], true));
}

#[test]
fn bomb_counter_has_at_least_two_digits() {
    assert_eq!(bomb_counter_digit_count(0), 2);
    assert_eq!(bomb_counter_digit_count(9), 2);
    assert_eq!(bomb_counter_digit_count(40), 2);
    assert_eq!(bomb_counter_digit_count(100), 3);
    assert_eq!(bomb_counter_digit_count(19701), 5);
}

#[test]
fn bomb_counter_digits_units_first() {
    assert_eq!(bomb_counter_digits(Some(7), 40), vec![CounterDigit::Digit(7), CounterDigit::Empty]);
    assert_eq!(bomb_counter_digits(Some(0), 9), vec![CounterDigit::Digit(0), CounterDigit::Empty]);
    assert_eq!(
        bomb_counter_digits(Some(45), 100),
        vec![CounterDigit::Digit(5), CounterDigit::Digit(4), CounterDigit::Empty]
    );
    assert_eq!(bomb_counter_digits(None, 100), vec![CounterDigit::Dash; 3]);
}

#[test]
fn first_spritesheet_pieces() {
    assert_eq!(spritesheet::input_field(false), Nineslice::new(84, 6, 3, 3, 1));
    assert_eq!(spritesheet::input_field(true), Nineslice::new(87, 6, 3, 3, 1));
    assert_eq!(spritesheet::menubar_colors(false), (0xC0CBDC, 0x181425));
    assert_eq!(spritesheet::menubar_colors(true), (0x262B44, 0xFFFFFF));
    assert_eq!(spritesheet::popup_close_color(true), (58, 68, 102, 255));
    assert_eq!(spritesheet::popup_close_color(false), (255, 255, 255, 255));
    assert_eq!(spritesheet::minefield_tile(6), rect(18, 9, 9, 9));
    assert_eq!(spritesheet::minefield_tile(40), rect(27, 27, 9, 9));
    assert_eq!(spritesheet::counter_size(3), (34, 18));
    assert_eq!(spritesheet::counter_digit(spritesheet::CounterDigit::Digit(7)), rect(52, 14, 8, 14));
    assert_eq!(spritesheet::counter_digit(spritesheet::CounterDigit::Digit(12)), rect(76, 0, 8, 14));
    assert_eq!(spritesheet::counter_digit(spritesheet::CounterDigit::Dash), rect(76, 14, 8, 14));
    assert_eq!(spritesheet::counter_digit(spritesheet::CounterDigit::Empty), rect(76, 0, 8, 14));
    assert_eq!(spritesheet::timer_digit(Some(4)), rect(50, 28, 3, 5));
    assert_eq!(spritesheet::timer_digit(None), rect(68, 28, 3, 5));
    assert_eq!(spritesheet::timer_colon(true), rect(37, 28, 1, 5));
    assert_eq!(spritesheet::timer_colon(false), rect(36, 28, 1, 5));
}

#[test]
fn minefield_tile_pictures() {
    assert_eq!(tile_pictures(Tile::Unopened, false, None, false, false), (0, None));
    assert_eq!(tile_pictures(Tile::Unopened, false, None, true, false), (1, None));
    assert_eq!(tile_pictures(Tile::Dug, false, None, false, false), (1, None));
    assert_eq!(tile_pictures(Tile::Numbered(3), false, None, false, false), (1, Some(10)));
    assert_eq!(tile_pictures(Tile::Flag, false, None, false, false), (0, Some(5)));
    assert_eq!(tile_pictures(Tile::Flag, false, None, false, true), (0, Some(6)));
    assert_eq!(tile_pictures(Tile::Flag, false, Some(false), false, true), (0, Some(5)));
    assert_eq!(tile_pictures(Tile::Flag, false, Some(true), false, true), (1, Some(7)));
    assert_eq!(tile_pictures(Tile::Unopened, false, Some(false), false, true), (1, Some(2)));
    assert_eq!(tile_pictures(Tile::Unopened, true, Some(true), false, true), (4, Some(3)));
}

#[test]
fn status_face_follows_the_game() {
    assert_eq!(face(GameState::Lose, true), Face::Lose);
    assert_eq!(face(GameState::Win, true), Face::Win);
    assert_eq!(face(GameState::Playing, true), Face::Scared);
    assert_eq!(face(GameState::Playing, false), Face::Idle);
}

#[test]
fn status_eyes_blink_before_anger() {
    assert_eq!(eyes(false, ButtonState::Idle, false), (false, false));
    assert_eq!(eyes(true, ButtonState::Idle, true), (true, false));
    assert_eq!(eyes(false, ButtonState::Held, true), (true, false));
    assert_eq!(eyes(false, ButtonState::Released, false), (true, false));
    assert_eq!(eyes(false, ButtonState::Hovered, true), (false, true));
}

#[test]
fn spamming_the_face_angers_it() {
    let mut spam = SpamCounter::new();
    assert!(!spam.angry());
    for _ in 0..9 {
        spam.update(true, false, false);
    }
    assert!(!spam.angry());
    spam.update(true, false, false);
    assert!(spam.angry());
    // Waiting does not calm an angry face; a later click does.
    spam.update(false, true, true);
    assert!(spam.angry());
    spam.update(true, true, false);
    assert!(spam.angry());
    spam.update(true, true, true);
    assert!(!spam.angry());
}

#[test]
fn slow_clicks_never_anger_the_face() {
    let mut spam = SpamCounter::new();
    for _ in 0..30 {
        spam.update(true, true, true);
        spam.update(false, true, true);
    }
    assert!(!spam.angry());
}

#[test]
fn first_interface_font_table() {
    assert_eq!(legacy_char_map('A'), Some((3, 5)));
    assert_eq!(legacy_char_map('!'), Some((286, 2)));
    assert_eq!(legacy_char_map('\''), Some((316, 2)));
    assert_eq!(legacy_char_map('\u{ac}'), Some((0, 1)));
    assert_eq!(legacy_char_map('~'), None);
    assert_eq!(char_len('M'), 6);
    assert_eq!(char_len('~'), 0);
}

#[test]
fn split_pieces_join_back() {
    let v: Vec<u8> = vec![1, 2, 3, 4, 5];
    for indexes in [vec![], vec![0], vec![2], vec![5], vec![0, 2, 9, 4], vec![1, 1, 3]] {
        let pieces = split_vector_by_indexes(&v, &indexes);
        assert_eq!(pieces.concat(), v);
    }
}
