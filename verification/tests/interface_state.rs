use minesweeper::elements::button::{Button, ButtonState as OldButtonState, PressMode};
use minesweeper::elements::MouseAction;
use minesweeper::gui::{HoverFlag, MousePressMode};
use minesweeper::gui_ideas::{
    Button as IdeaButton, ButtonState as IdeaState, ButtonTrigger, MouseAction as IdeaAction,
};
use minesweeper::legacy::gui::popup::{popup_size, PopupKind as LegacyPopup};
use minesweeper::ui::hash_string;
use minesweeper::ui::menubar::Menubar;
use minesweeper::ui::state::{ButtonState, MouseButton, SelectedItem, State};

const UP: (bool, bool, bool) = (false, false, false);
const PRESSED: (bool, bool, bool) = (true, true, false);
const HELD: (bool, bool, bool) = (true, false, false);
const RELEASED: (bool, bool, bool) = (false, false, true);

#[test]
fn selected_item_assign_and_is_none() {
    let mut s = SelectedItem::Vacant;
    assert!(s.is_none());
    s.assign(7);
    assert_eq!(s, SelectedItem::Item(7));
    assert!(!s.is_none());
    assert!(s == 7u64);
    assert!(!(s == 8u64));
    assert!(!(SelectedItem::Unavailable == 7u64));
    assert!(!SelectedItem::Unavailable.is_none());
}

#[test]
fn selected_item_assign_if_none_and() {
    let mut s = SelectedItem::Vacant;
    assert!(!s.assign_if_none_and(3, false));
    assert_eq!(s, SelectedItem::Vacant);
    assert!(s.assign_if_none_and(3, true));
    assert_eq!(s, SelectedItem::Item(3));
    assert!(!s.assign_if_none_and(4, true));
    assert_eq!(s, SelectedItem::Item(3));
}

#[test]
fn selected_item_make_unavailable_if_none_and() {
    let mut s = SelectedItem::Vacant;
    assert!(!s.make_unavailable_if_none_and(false));
    assert_eq!(s, SelectedItem::Vacant);
    assert!(s.make_unavailable_if_none_and(true));
    assert_eq!(s, SelectedItem::Unavailable);
    let mut t = SelectedItem::Item(1);
    assert!(!t.make_unavailable_if_none_and(true));
    assert_eq!(t, SelectedItem::Item(1));
}

#[test]
fn button_state_clicked_and_released() {
    assert!(ButtonState::Clicked.clicked());
    assert!(!ButtonState::Held.clicked());
    assert!(ButtonState::Released.released());
    assert!(!ButtonState::Idle.released());
}

#[test]
fn new_state_has_nothing_selected() {
    let s = State::new();
    assert_eq!(s.hot_item, SelectedItem::Vacant);
    assert_eq!(s.active_item, SelectedItem::Vacant);
    assert!(s.text_field.is_none());
    assert_eq!(s.caret, 0);
    assert!(!s.mouse_down(MouseButton::Left));
    assert!(!s.mouse_pressed(MouseButton::Right));
    assert!(!s.mouse_released(MouseButton::Middle));
}

#[test]
fn state_settings() {
    let mut s = State::new();
    let scale = s.auto_scale();
    s.set_auto_scale(!scale);
    assert_eq!(s.auto_scale(), !scale);
    let pixel = s.pixel_perfect();
    s.set_pixel_perfect(!pixel);
    assert_eq!(s.pixel_perfect(), !pixel);
}

#[test]
fn begin_records_the_mouse_buttons() {
    let mut s = State::new();
    s.hot_item = SelectedItem::Item(9);
    s.begin(PRESSED, HELD, RELEASED);
    assert_eq!(s.hot_item, SelectedItem::Vacant);
    assert!(s.mouse_down(MouseButton::Left));
    assert!(s.mouse_pressed(MouseButton::Left));
    assert!(s.mouse_down(MouseButton::Right));
    assert!(!s.mouse_pressed(MouseButton::Right));
    assert!(s.mouse_released(MouseButton::Middle));
    assert!(!s.mouse_down(MouseButton::Unknown));
    assert!(!s.mouse_released(MouseButton::Unknown));
}

#[test]
fn a_button_is_hovered_clicked_held_and_released() {
    let mut s = State::new();
    s.begin(UP, UP, UP);
    assert_eq!(s.button_state(1, true, false, false), ButtonState::Hovered);
    s.finish();
    assert_eq!(s.active_item, SelectedItem::Vacant);

    s.begin(PRESSED, UP, UP);
    assert_eq!(s.button_state(1, true, false, false), ButtonState::Clicked);
    assert_eq!(s.active_item, SelectedItem::Item(1));
    s.finish();

    s.begin(HELD, UP, UP);
    assert_eq!(s.button_state(1, true, false, false), ButtonState::Held);
    s.finish();

    s.begin(RELEASED, UP, UP);
    assert_eq!(s.button_state(1, true, false, false), ButtonState::Released);
    s.finish();
    assert_eq!(s.active_item, SelectedItem::Vacant);
}

#[test]
fn a_held_button_left_by_the_mouse() {
    let mut s = State::new();
    s.begin(PRESSED, UP, UP);
    assert_eq!(s.button_state(1, true, false, false), ButtonState::Clicked);
    s.finish();
    s.begin(HELD, UP, UP);
    assert_eq!(s.button_state(1, false, false, false), ButtonState::Idle);
    assert_eq!(s.button_state(2, false, false, true), ButtonState::Idle);
    s.finish();
    s.begin(HELD, UP, UP);
    assert_eq!(s.button_state(1, false, false, true), ButtonState::Held);
    s.finish();
    // Released away from the button: it is not released.
    s.begin(RELEASED, UP, UP);
    assert_eq!(s.button_state(1, false, false, true), ButtonState::Held);
}

#[test]
fn only_one_hot_item_per_frame() {
    let mut s = State::new();
    s.begin(PRESSED, UP, UP);
    assert_eq!(s.button_state(1, true, false, false), ButtonState::Clicked);
    assert_eq!(s.button_state(2, true, false, false), ButtonState::Idle);
    assert_eq!(s.hot_item, SelectedItem::Item(1));
}

#[test]
fn pressing_over_nothing_makes_active_unavailable() {
    let mut s = State::new();
    s.begin(PRESSED, UP, UP);
    s.finish();
    assert_eq!(s.active_item, SelectedItem::Unavailable);
    s.begin(HELD, UP, UP);
    assert_eq!(s.button_state(1, true, false, false), ButtonState::Hovered);
    s.finish();
    s.begin(UP, UP, UP);
    s.finish();
    assert_eq!(s.active_item, SelectedItem::Vacant);
}

#[test]
fn disabled_button_stays_disabled() {
    let mut s = State::new();
    s.begin(PRESSED, UP, UP);
    assert_eq!(s.button_state(1, true, true, false), ButtonState::Disabled);
    s.finish();
    s.begin(RELEASED, UP, UP);
    assert_eq!(s.button_state(1, true, true, false), ButtonState::Disabled);
}

#[test]
fn hash_string_is_deterministic() {
    let a = hash_string(&String::from("New game"));
    let b = hash_string(&String::from("New game"));
    let c = hash_string(&String::from("Exit"));
    assert_eq!(a, b);
    assert_ne!(a, c);
}

#[test]
fn hover_flag_reports_once() {
    let mut f = HoverFlag::new();
    assert!(!f.check_and_reset_hover_flag());
    f.update(false);
    assert!(!f.check_and_reset_hover_flag());
    f.update(true);
    f.update(false);
    assert!(f.check_and_reset_hover_flag());
    assert!(!f.check_and_reset_hover_flag());
    assert_ne!(MousePressMode::Down, MousePressMode::Up);
}

#[test]
fn labelled_button_presses_on_press() {
    let mut b = Button::new_labelled(String::from("Ok"), PressMode::Press, false);
    assert_eq!(b.label(), "Ok");
    assert_eq!(b.state(), OldButtonState::Idle);
    let mut free = true;
    b.update(&mut free, true, &MouseAction::Press);
    assert!(!free);
    assert_eq!(b.state(), OldButtonState::Pressed);
    assert!(b.pressed());
    assert!(!b.pressed());
    let mut free = true;
    b.update(&mut free, true, &MouseAction::Nothing);
    assert_eq!(b.state(), OldButtonState::Pressed);
    let mut free = true;
    b.update(&mut free, true, &MouseAction::Release);
    assert_eq!(b.state(), OldButtonState::Hovered);
    assert!(!b.pressed());
}

#[test]
fn button_presses_on_release() {
    let mut b = Button::new(PressMode::Release, false);
    assert_eq!(b.label(), "");
    let mut free = true;
    b.update(&mut free, true, &MouseAction::Press);
    assert!(!b.pressed());
    let mut free = true;
    b.update(&mut free, true, &MouseAction::Release);
    assert!(b.pressed());
}

#[test]
fn button_under_something_else_is_idle() {
    let mut b = Button::new(PressMode::Press, false);
    let mut free = false;
    b.update(&mut free, true, &MouseAction::Press);
    assert!(!free);
    assert_eq!(b.state(), OldButtonState::Idle);
    assert!(!b.pressed());
    let mut free = true;
    b.update(&mut free, false, &MouseAction::Press);
    assert!(free);
    assert_eq!(b.state(), OldButtonState::Idle);
}

#[test]
fn disabled_button_takes_the_mouse_but_does_nothing() {
    let mut b = Button::new(PressMode::Press, true);
    let mut free = true;
    b.update(&mut free, true, &MouseAction::Press);
    assert!(!free);
    assert_eq!(b.state(), OldButtonState::Disabled);
    assert!(!b.pressed());
}

#[test]
fn idea_button_cycle() {
    let mut b = IdeaButton::new(ButtonTrigger::Release, false);
    assert_eq!(b.state, IdeaState::Idle);
    assert!(b.update(true, IdeaAction::Nothing));
    assert_eq!(b.state, IdeaState::Hovered);
    assert!(b.update(true, IdeaAction::Down));
    assert_eq!(b.state, IdeaState::Pressed);
    assert!(!b.pressed());
    assert!(b.update(true, IdeaAction::Up));
    assert_eq!(b.state, IdeaState::Hovered);
    assert!(b.pressed());
    assert!(!b.pressed());
    assert!(!b.update(false, IdeaAction::Down));
    assert_eq!(b.state, IdeaState::Idle);
}

#[test]
fn idea_button_press_trigger_and_disabled() {
    let mut b = IdeaButton::new(ButtonTrigger::Press, false);
    b.update(true, IdeaAction::Down);
    assert!(b.pressed());
    let mut d = IdeaButton::new(ButtonTrigger::Press, true);
    d.update(true, IdeaAction::Down);
    assert_eq!(d.state, IdeaState::Disabled);
    assert!(!d.pressed());
    d.default();
    assert_eq!(d.state, IdeaState::Disabled);
    b.default();
    assert_eq!(b.state, IdeaState::Idle);
}

#[test]
fn exit_popup_size() {
    assert_eq!(popup_size(LegacyPopup::Exit), (40, 20));
}

#[test]
fn state_hot_and_spent_clicks() {
    let mut s = State::new();
    s.begin(PRESSED, UP, UP);
    assert!(!s.is_hot(4));
    s.button_state(4, true, false, false);
    assert!(s.is_hot(4));
    s.make_active_unavailable();
    assert_eq!(s.active_item, SelectedItem::Unavailable);
}

#[test]
fn dropdown_entry_is_chosen_on_release() {
    let mut s = State::new();
    s.begin(PRESSED, UP, UP);
    assert!(!s.dropdown_entry(5, true));
    assert_eq!(s.active_item, SelectedItem::Item(5));
    s.begin(RELEASED, UP, UP);
    assert!(s.dropdown_entry(5, true));
    s.finish();
    // Moving onto an entry with the mouse up chooses it too.
    s.begin(UP, UP, UP);
    s.active_item = SelectedItem::Item(6);
    assert!(s.dropdown_entry(6, true));
    assert!(!s.dropdown_entry(7, true));
}

#[test]
fn menubar_opens_and_closes_menus() {
    let mut bar = Menubar::new();
    let mut s = State::new();
    // Hovering alone opens nothing.
    s.begin(UP, UP, UP);
    bar.begin();
    assert!(!bar.item(1, true, &mut s));
    assert!(bar.highlighted(1, &s));
    assert!(!bar.highlighted(2, &s));
    bar.finish(&mut s, true);
    s.finish();
    // Clicking opens the menu.
    s.begin(PRESSED, UP, UP);
    bar.begin();
    assert!(bar.item(1, true, &mut s));
    assert_eq!(bar.current(), Some(1));
    bar.finish(&mut s, true);
    s.finish();
    // Hovering another item while one is open moves to it.
    s.begin(UP, UP, UP);
    bar.begin();
    assert!(bar.item(1, false, &mut s));
    assert!(bar.item(2, true, &mut s));
    assert_eq!(bar.current(), Some(2));
    bar.finish(&mut s, true);
    s.finish();
    // Clicking outside the dropdown closes it and spends the click.
    s.begin(PRESSED, UP, UP);
    bar.begin();
    assert!(bar.item(2, false, &mut s));
    bar.finish(&mut s, true);
    assert_eq!(bar.current(), None);
    assert_eq!(s.active_item, SelectedItem::Unavailable);
}

#[test]
fn menubar_click_inside_the_dropdown_keeps_it() {
    let mut bar = Menubar::new();
    let mut s = State::new();
    s.begin(PRESSED, UP, UP);
    bar.begin();
    assert!(bar.item(1, true, &mut s));
    bar.finish(&mut s, true);
    s.finish();
    s.begin(PRESSED, UP, UP);
    bar.begin();
    assert!(bar.item(1, false, &mut s));
    assert!(!bar.dropdown_item(10, true, &mut s));
    bar.finish(&mut s, false);
    assert_eq!(bar.current(), Some(1));
    s.finish();
    // Letting go over the entry chooses it, which closes the menu.
    s.begin(RELEASED, UP, UP);
    bar.begin();
    assert!(bar.item(1, false, &mut s));
    assert!(bar.dropdown_item(10, true, &mut s));
    assert_eq!(bar.current(), None);
}

#[test]
fn text_field_takes_the_keyboard_when_clicked() {
    let mut s = State::new();
    assert!(!s.focus_on_click(3, ButtonState::Hovered));
    assert_eq!(s.text_field, None);
    assert!(s.focus_on_click(3, ButtonState::Clicked));
    assert_eq!(s.text_field, Some(3));
}
