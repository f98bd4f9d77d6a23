//! The menubar's logic: which of its menus is open, and how its items and
//! their dropdown entries answer the mouse. Where things are drawn is left
//! to whoever draws them.
use vstd::prelude::*;
use super::state::{button_state_spec, dropdown_entry_spec, ButtonState, Id, MouseButton, SelectedItem, State, StateView};

verus! {

/// Which menu is open, this frame and at the start of it.
pub struct MenubarView {
    pub item_current: Option<Id>,
    pub item_current_prev: Option<Id>,
}

pub struct Menubar {
    item_current: Option<Id>,
    item_current_prev: Option<Id>,
}

impl View for Menubar {
    type V = MenubarView;

    closed spec fn view(&self) -> MenubarView {
        MenubarView { item_current: self.item_current, item_current_prev: self.item_current_prev }
    }
}

impl Menubar {
    pub fn new() -> (r: Menubar)
        ensures
            r@.item_current is None,
            r@.item_current_prev is None,
    {
        Menubar { item_current: None, item_current_prev: None }
    }

    /// The menu that is open.
    pub fn current(&self) -> (r: Option<Id>)
        ensures
            r == self@.item_current,
    {
        self.item_current
    }

    /// Starts a frame, remembering which menu was open.
    pub fn begin(&mut self)
        ensures
            final(self)@ == (MenubarView { item_current: old(self)@.item_current, item_current_prev: old(self)@.item_current }),
    {
        self.item_current_prev = self.item_current;
    }

    /// A menu item `id`, the mouse being over it when `hovered`. Clicking it
    /// opens its menu, and so does hovering it while another menu is open.
    /// Returns whether its menu is open.
    pub fn item(&mut self, id: Id, hovered: bool, state: &mut State) -> (r: bool)
        ensures
            ({
                let (button, hot, active) = button_state_spec(
                    old(state)@.hot_item,
                    old(state)@.active_item,
                    id,
                    hovered,
                    false,
                    false,
                    old(state)@.buttons(MouseButton::Left).0,
                );
                let opens = (button == ButtonState::Hovered && old(self)@.item_current is Some) || button
                    == ButtonState::Clicked;
                &&& final(state)@ == (StateView { hot_item: hot, active_item: active, ..old(state)@ })
                &&& final(self)@ == (MenubarView {
                    item_current: if opens {
                        Some(id)
                    } else {
                        old(self)@.item_current
                    },
                    ..old(self)@
                })
                &&& r == (final(self)@.item_current == Some(id))
            }),
    {
        let button_state = state.button_state(id, hovered, false, false);
        if (button_state == ButtonState::Hovered && self.item_current.is_some()) || button_state
            == ButtonState::Clicked {
            self.item_current = Some(id);
        }
        match self.item_current {
            Some(current) => current == id,
            None => false,
        }
    }

    /// Whether the item `id` is drawn highlighted: its menu is open, or the
    /// mouse is over it.
    pub fn highlighted(&self, id: Id, state: &State) -> (r: bool)
        ensures
            r == (self@.item_current == Some(id) || state@.hot_item == SelectedItem::Item(id)),
    {
        let open = match self.item_current {
            Some(current) => current == id,
            None => false,
        };
        open || state.is_hot(id)
    }

    /// An entry of the open menu's dropdown (see `dropdown_entry_spec`);
    /// choosing it closes the menu. Returns whether it was chosen.
    pub fn dropdown_item(&mut self, id: Id, hovered: bool, state: &mut State) -> (r: bool)
        ensures
            ({
                let (hot, active, chosen) = dropdown_entry_spec(old(state)@, id, hovered);
                &&& final(state)@ == (StateView { hot_item: hot, active_item: active, ..old(state)@ })
                &&& r == chosen
                &&& final(self)@ == (MenubarView {
                    item_current: if chosen {
                        None
                    } else {
                        old(self)@.item_current
                    },
                    ..old(self)@
                })
            }),
    {
        let chosen = state.dropdown_entry(id, hovered);
        if chosen {
            self.item_current = None;
        }
        chosen
    }

    /// Ends a frame: a click anywhere but on the dropdown of a menu that was
    /// already open closes it, and the click is spent.
    pub fn finish(&mut self, state: &mut State, outside_dropdown: bool)
        ensures
            ({
                let closes = old(self)@.item_current is Some && old(self)@.item_current_prev is Some
                    && old(state)@.buttons(MouseButton::Left).1 && outside_dropdown;
                &&& final(state)@ == if closes {
                    StateView { active_item: SelectedItem::Unavailable, ..old(state)@ }
                } else {
                    old(state)@
                }
                &&& final(self)@ == if closes {
                    MenubarView { item_current: None, ..old(self)@ }
                } else {
                    old(self)@
                }
            }),
    {
        if self.item_current.is_some() && self.item_current_prev.is_some() && state.mouse_pressed(
            MouseButton::Left,
        ) && outside_dropdown {
            state.make_active_unavailable();
            self.item_current = None;
        }
    }
}

} // verus!
