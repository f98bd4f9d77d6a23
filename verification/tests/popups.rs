use minesweeper::minesweeper::Difficulty;
use minesweeper::ui::elements::{number_field_edit, Key};
use minesweeper::ui::popups::{
    add_popup, close_and_front, custom_difficulty, custom_size, popup_result, reorder_popups, PopupAction,
    PopupKind, PopupReturn,
};

fn values(d: Difficulty) -> (usize, usize, usize) {
    let v = d.values();
    (v.width(), v.height(), v.bomb_count())
}

fn custom_fields(d: Option<Difficulty>) -> (String, String, String) {
    match PopupKind::custom(d) {
        PopupKind::Custom { width, height, bomb_count } => (width, height, bomb_count),
        _ => panic!("not a custom popup"),
    }
}

fn s(text: &str) -> String {
    String::from(text)
}

#[test]
fn new_game_popup_holds_its_difficulty() {
    match PopupKind::new_game(Difficulty::Hard) {
        PopupKind::NewGame { difficulty } => assert_eq!(difficulty, Difficulty::Hard),
        _ => panic!("not a new game popup"),
    }
}

#[test]
fn custom_popup_fields_start_with_the_values() {
    assert_eq!(custom_fields(Some(Difficulty::Normal)), (s("16"), s("16"), s("40")));
    assert_eq!(custom_fields(Some(Difficulty::custom(120, 7, 300))), (s("120"), s("7"), s("300")));
    assert_eq!(custom_fields(None), (s(""), s(""), s("")));
}

#[test]
fn custom_popup_round_trip() {
    for d in [Difficulty::Easy, Difficulty::Hard, Difficulty::custom(200, 100, 19701)] {
        let (w, h, b) = custom_fields(Some(d));
        let back = custom_difficulty(&w, &h, &b).unwrap();
        assert!(matches!(back, Difficulty::Custom(_)));
        assert_eq!(values(back), values(d));
    }
}

#[test]
fn custom_difficulty_parses_values_within_the_limits() {
    let d = custom_difficulty(&s("9"), &s("4"), &s("24")).unwrap();
    assert!(d.is_custom());
    assert_eq!(values(d), (9, 4, 24));
    let d = custom_difficulty(&s("+12"), &s("0050"), &s("0")).unwrap();
    assert_eq!(values(d), (12, 50, 0));
    let d = custom_difficulty(&s("200"), &s("100"), &s("19701")).unwrap();
    assert_eq!(values(d), (200, 100, 19701));
}

#[test]
fn custom_difficulty_refuses_values_outside_the_limits() {
    assert!(custom_difficulty(&s("9"), &s("4"), &s("25")).is_none());
    assert!(custom_difficulty(&s("3"), &s("4"), &s("1")).is_none());
    assert!(custom_difficulty(&s("201"), &s("4"), &s("1")).is_none());
    assert!(custom_difficulty(&s("9"), &s("101"), &s("1")).is_none());
    assert!(custom_difficulty(&s("9"), &s("0500"), &s("0")).is_none());
}

#[test]
fn custom_size_gives_the_bomb_limit() {
    assert_eq!(custom_size(&s("9"), &s("4")), (Some((9, 4)), Some(24)));
    assert_eq!(custom_size(&s("200"), &s("100")), (Some((200, 100)), Some(19701)));
    assert_eq!(custom_size(&s("2"), &s("4")), (None, None));
    assert_eq!(custom_size(&s("9"), &s("")), (None, None));
}

#[test]
fn typing_a_digit_at_the_caret() {
    let mut number = s("12");
    let mut caret = 1;
    assert!(number_field_edit(&mut number, &mut caret, 4, None, Some('7'), None));
    assert_eq!(number, "172");
    assert_eq!(caret, 2);
}

#[test]
fn typing_is_refused_for_letters_and_full_fields() {
    let mut number = s("12");
    let mut caret = 2;
    assert!(!number_field_edit(&mut number, &mut caret, 4, None, Some('a'), None));
    assert_eq!(number, "12");
    let mut number = s("1234");
    let mut caret = 4;
    assert!(!number_field_edit(&mut number, &mut caret, 4, None, Some('5'), None));
    assert_eq!(number, "1234");
    assert_eq!(caret, 4);
}

#[test]
fn clicking_moves_the_caret_within_the_text() {
    let mut number = s("123");
    let mut caret = 0;
    assert!(!number_field_edit(&mut number, &mut caret, 4, Some(2), None, None));
    assert_eq!(caret, 2);
    assert!(!number_field_edit(&mut number, &mut caret, 4, Some(9), None, None));
    assert_eq!(caret, 3);
    let mut caret = 8;
    number_field_edit(&mut number, &mut caret, 4, None, None, None);
    assert_eq!(caret, 3);
}

#[test]
fn keys_move_the_caret_and_delete() {
    let mut number = s("123");
    let mut caret = 0;
    assert!(number_field_edit(&mut number, &mut caret, 4, None, None, Some(Key::Left)));
    assert_eq!(caret, 0);
    assert!(number_field_edit(&mut number, &mut caret, 4, None, None, Some(Key::Right)));
    assert_eq!(caret, 1);
    assert!(number_field_edit(&mut number, &mut caret, 4, None, None, Some(Key::Backspace)));
    assert_eq!((number.as_str(), caret), ("23", 0));
    assert!(!number_field_edit(&mut number, &mut caret, 4, None, None, Some(Key::Backspace)));
    assert!(number_field_edit(&mut number, &mut caret, 4, None, None, Some(Key::Delete)));
    assert_eq!((number.as_str(), caret), ("3", 0));
    assert!(number_field_edit(&mut number, &mut caret, 4, None, None, Some(Key::Right)));
    assert!(number_field_edit(&mut number, &mut caret, 4, None, None, Some(Key::Right)));
    assert_eq!(caret, 1);
    assert!(!number_field_edit(&mut number, &mut caret, 4, None, None, Some(Key::Delete)));
    assert!(!number_field_edit(&mut number, &mut caret, 4, None, None, Some(Key::Other)));
    assert_eq!(number, "3");
}

#[test]
fn typing_then_a_key_in_one_frame() {
    let mut number = s("45");
    let mut caret = 2;
    assert!(number_field_edit(&mut number, &mut caret, 4, Some(0), Some('9'), Some(Key::Delete)));
    assert_eq!((number.as_str(), caret), ("95", 1));
}

#[test]
fn field_stays_numeric() {
    let mut number = s("");
    let mut caret = 0;
    for c in ['1', 'x', '2', '-', '3', '4', '5'] {
        number_field_edit(&mut number, &mut caret, 3, None, Some(c), None);
        assert!(number.chars().all(|c| c.is_ascii_digit()));
        assert!(number.len() <= 3);
        assert!(caret <= number.len());
    }
    assert_eq!(number, "123");
}

fn returned_difficulty(r: &Option<PopupReturn>) -> Option<Difficulty> {
    match r {
        Some(PopupReturn::NewGame { difficulty }) => Some(*difficulty),
        _ => None,
    }
}

#[test]
fn popup_titles_and_sizes() {
    assert_eq!(PopupKind::new_game(Difficulty::Easy).title_and_size(), ("New game", 90, 46));
    assert_eq!(PopupKind::custom(None).title_and_size(), ("Custom", 78, 58));
    assert_eq!(PopupKind::About.title_and_size(), ("About", 100, 70));
    assert_eq!(PopupKind::Hint.title_and_size(), ("Hint", 60, 40));
    assert_eq!(PopupKind::Win.title_and_size(), ("You win!", 70, 34));
    assert_eq!(PopupKind::Exit.title_and_size(), ("Exit", 70, 40));
}

#[test]
fn popups_of_a_kind_whatever_their_contents() {
    assert!(PopupKind::new_game(Difficulty::Easy).same_kind_as(&PopupKind::new_game(Difficulty::Hard)));
    assert!(PopupKind::custom(None).same_kind_as(&PopupKind::custom(Some(Difficulty::Normal))));
    assert!(!PopupKind::Hint.same_kind_as(&PopupKind::About));
    assert!(PopupKind::Exit.same_kind_as(&PopupKind::Exit));
}

#[test]
fn exit_popup_confirms_or_cancels() {
    let (action, r) = popup_result(&PopupKind::Exit, true, false, false, false);
    assert!(matches!(action, PopupAction::Close));
    assert!(matches!(r, Some(PopupReturn::Exit)));
    let (action, r) = popup_result(&PopupKind::Exit, false, true, false, false);
    assert!(matches!(action, PopupAction::Close));
    assert!(r.is_none());
    let (action, r) = popup_result(&PopupKind::Exit, false, false, false, true);
    assert!(matches!(action, PopupAction::Front));
    assert!(r.is_none());
    let (action, _) = popup_result(&PopupKind::Exit, false, false, false, false);
    assert!(matches!(action, PopupAction::Keep));
}

#[test]
fn new_game_popup_hands_back_its_difficulty() {
    let kind = PopupKind::new_game(Difficulty::Normal);
    let (action, r) = popup_result(&kind, true, false, false, true);
    assert!(matches!(action, PopupAction::Close));
    assert_eq!(returned_difficulty(&r), Some(Difficulty::Normal));
    let (action, r) = popup_result(&kind, false, false, true, false);
    assert!(matches!(action, PopupAction::Close));
    assert!(r.is_none());
}

#[test]
fn single_button_popups_close() {
    for kind in [PopupKind::Hint, PopupKind::Win] {
        let (action, r) = popup_result(&kind, true, false, false, false);
        assert!(matches!(action, PopupAction::Close));
        assert!(r.is_none());
        let (action, _) = popup_result(&kind, false, true, false, false);
        assert!(matches!(action, PopupAction::Keep));
    }
    let (action, _) = popup_result(&PopupKind::About, true, true, false, false);
    assert!(matches!(action, PopupAction::Keep));
    let (action, _) = popup_result(&PopupKind::About, false, false, true, false);
    assert!(matches!(action, PopupAction::Close));
}

#[test]
fn custom_popup_submits_only_a_valid_game() {
    let good = PopupKind::Custom { width: s("10"), height: s("8"), bomb_count: s("12") };
    let (action, r) = popup_result(&good, true, false, false, false);
    assert!(matches!(action, PopupAction::Close));
    assert_eq!(values(returned_difficulty(&r).unwrap()), (10, 8, 12));
    let bad = PopupKind::Custom { width: s("10"), height: s("8"), bomb_count: s("64") };
    let (action, r) = popup_result(&bad, true, false, false, false);
    assert!(matches!(action, PopupAction::Keep));
    assert!(r.is_none());
    let (action, _) = popup_result(&bad, false, true, false, false);
    assert!(matches!(action, PopupAction::Close));
}

#[test]
fn lowest_popup_asking_closes_or_comes_forward() {
    let (keep, close, front) = (PopupAction::Keep, PopupAction::Close, PopupAction::Front);
    assert_eq!(close_and_front(&vec![keep, close, front, close, front]), (Some(1), Some(2)));
    assert_eq!(close_and_front(&vec![keep, keep]), (None, None));
    assert_eq!(close_and_front(&vec![]), (None, None));
}

#[test]
fn reordering_popups() {
    let mut v = vec!['a', 'b', 'c', 'd'];
    reorder_popups(&mut v, Some(1), None);
    assert_eq!(v, vec!['a', 'c', 'd']);
    reorder_popups(&mut v, None, Some(0));
    assert_eq!(v, vec!['c', 'd', 'a']);
    reorder_popups(&mut v, Some(2), Some(0));
    assert_eq!(v, vec!['d', 'c']);
    reorder_popups(&mut v, None, None);
    assert_eq!(v, vec!['d', 'c']);
}

#[test]
fn opening_a_popup_replaces_its_kind() {
    let mut popups: Vec<(PopupKind, u8)> = Vec::new();
    add_popup(&mut popups, PopupKind::Hint, 1);
    add_popup(&mut popups, PopupKind::new_game(Difficulty::Easy), 2);
    add_popup(&mut popups, PopupKind::About, 3);
    add_popup(&mut popups, PopupKind::new_game(Difficulty::Hard), 4);
    let tags: Vec<u8> = popups.iter().map(|p| p.1).collect();
    assert_eq!(tags, vec![1, 3, 4]);
    assert!(matches!(popups[2].0, PopupKind::NewGame { difficulty: Difficulty::Hard }));
    add_popup(&mut popups, PopupKind::Hint, 5);
    let tags: Vec<u8> = popups.iter().map(|p| p.1).collect();
    assert_eq!(tags, vec![3, 4, 5]);
}
