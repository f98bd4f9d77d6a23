//! The interface state shared by every element of an immediate-mode
//! interface: which element the mouse is over ("hot"), which one is being
//! held ("active"), and what the mouse buttons did this frame.
use vstd::prelude::*;

verus! {

pub type Id = u64;

#[derive(Debug, PartialEq, Eq, Clone, Copy, Structural)]
pub enum SelectedItem {
    Vacant,
    Item(Id),
    Unavailable,
}

impl SelectedItem {
    /// Whether this is the item `id`.
    pub open spec fn holds(self, id: Id) -> bool {
        self == SelectedItem::Item(id)
    }

    pub fn assign(&mut self, id: Id)
        ensures
            *final(self) == SelectedItem::Item(id),
    {
        *self = SelectedItem::Item(id);
    }

    pub fn is_none(&self) -> (r: bool)
        ensures
            r == (*self == SelectedItem::Vacant),
    {
        matches!(*self, SelectedItem::Vacant)
    }

    /// Takes `id` if nothing is selected and `condition` holds; returns
    /// whether it did.
    pub fn assign_if_none_and(&mut self, id: Id, condition: bool) -> (r: bool)
        ensures
            r == (*old(self) == SelectedItem::Vacant && condition),
            *final(self) == (if r {
                SelectedItem::Item(id)
            } else {
                *old(self)
            }),
    {
        match (self.is_none(), condition) {
            (true, true) => {
                self.assign(id);
                true
            },
            _ => false,
        }
    }

    /// Becomes unavailable if nothing is selected and `condition` holds;
    /// returns whether it did.
    pub fn make_unavailable_if_none_and(&mut self, condition: bool) -> (r: bool)
        ensures
            r == (*old(self) == SelectedItem::Vacant && condition),
            *final(self) == (if r {
                SelectedItem::Unavailable
            } else {
                *old(self)
            }),
    {
        match (self.is_none(), condition) {
            (true, true) => {
                *self = SelectedItem::Unavailable;
                true
            },
            _ => false,
        }
    }
}

impl PartialEq<Id> for SelectedItem {
    fn eq(&self, other: &Id) -> (r: bool) {
        match self {
            SelectedItem::Item(s) => *s == *other,
            _ => false,
        }
    }
}

impl vstd::std_specs::cmp::PartialEqSpecImpl<Id> for SelectedItem {
    open spec fn obeys_eq_spec() -> bool {
        true
    }

    open spec fn eq_spec(&self, other: &Id) -> bool {
        self.holds(*other)
    }
}

#[derive(Debug, PartialEq, Eq, Clone, Copy, Structural)]
pub enum ButtonState {
    Disabled,
    Idle,
    Hovered,
    Clicked,
    Held,
    Released,
}

impl ButtonState {
    pub fn clicked(&self) -> (r: bool)
        ensures
            r == (*self == ButtonState::Clicked),
    {
        matches!(self, ButtonState::Clicked)
    }

    pub fn released(&self) -> (r: bool)
        ensures
            r == (*self == ButtonState::Released),
    {
        matches!(self, ButtonState::Released)
    }
}

/// The mouse buttons that the interface tracks.
#[derive(Debug, PartialEq, Eq, Clone, Copy, Structural)]
pub enum MouseButton {
    Right,
    Left,
    Middle,
    Unknown,
}

/// What a mouse button did this frame: (down, pressed, released).
pub type ButtonValues = (bool, bool, bool);

/// What `State::button_state` gives for a button `id`: its state, then the
/// hot and the active item afterwards.
pub open spec fn button_state_spec(
    hot: SelectedItem,
    active: SelectedItem,
    id: Id,
    hovered: bool,
    disabled: bool,
    held_when_not_hovered: bool,
    mouse_down: bool,
) -> (ButtonState, SelectedItem, SelectedItem) {
    // The button becomes hot when nothing else is and the mouse is over it,
    // and then active too if nothing else is and the mouse is down.
    let takes_hot = hot == SelectedItem::Vacant && hovered;
    let hot1 = if takes_hot {
        SelectedItem::Item(id)
    } else {
        hot
    };
    let takes_active = takes_hot && active == SelectedItem::Vacant && mouse_down;
    let active1 = if takes_active {
        SelectedItem::Item(id)
    } else {
        active
    };
    let state0 = if takes_active {
        ButtonState::Clicked
    } else if takes_hot {
        ButtonState::Hovered
    } else {
        ButtonState::Idle
    };
    // An active button that was not just clicked is held, or released when
    // the mouse goes up over it.
    let state1 = if (hot1.holds(id) || held_when_not_hovered) && active1.holds(id) && state0
        != ButtonState::Clicked {
        if !mouse_down && hovered {
            ButtonState::Released
        } else {
            ButtonState::Held
        }
    } else {
        state0
    };
    (if disabled {
        ButtonState::Disabled
    } else {
        state1
    }, hot1, active1)
}

/// What a menu entry `id` does to the hot and active items: it becomes hot
/// when nothing else is and the mouse is over it, and active too while the
/// mouse is down. Gives the hot and active items after it, and whether the
/// entry was chosen (it is hot and active, and the mouse is up).
pub open spec fn dropdown_entry_spec(s: StateView, id: Id, hovered: bool) -> (SelectedItem, SelectedItem, bool) {
    let mouse_down = s.buttons(MouseButton::Left).0;
    let takes_hot = s.hot_item == SelectedItem::Vacant && hovered;
    let hot = if takes_hot {
        SelectedItem::Item(id)
    } else {
        s.hot_item
    };
    let active = if takes_hot && mouse_down {
        SelectedItem::Item(id)
    } else {
        s.active_item
    };
    (hot, active, hot.holds(id) && active.holds(id) && !mouse_down)
}

/// What the interface state holds.
pub struct StateView {
    pub mouse_left: ButtonValues,
    pub mouse_right: ButtonValues,
    pub mouse_middle: ButtonValues,
    pub auto_scale: bool,
    pub pixel_perfect: bool,
    pub hot_item: SelectedItem,
    pub active_item: SelectedItem,
    pub text_field: Option<Id>,
    pub caret: usize,
}

impl StateView {
    pub open spec fn buttons(self, button: MouseButton) -> ButtonValues {
        match button {
            MouseButton::Left => self.mouse_left,
            MouseButton::Right => self.mouse_right,
            MouseButton::Middle => self.mouse_middle,
            MouseButton::Unknown => (false, false, false),
        }
    }
}

pub struct State {
    mouse_left: ButtonValues,
    mouse_right: ButtonValues,
    mouse_middle: ButtonValues,
    auto_scale: bool,
    pixel_perfect: bool,
    pub hot_item: SelectedItem,
    pub active_item: SelectedItem,
    pub text_field: Option<Id>,
    pub caret: usize,
}

impl View for State {
    type V = StateView;

    closed spec fn view(&self) -> StateView {
        StateView {
            mouse_left: self.mouse_left,
            mouse_right: self.mouse_right,
            mouse_middle: self.mouse_middle,
            auto_scale: self.auto_scale,
            pixel_perfect: self.pixel_perfect,
            hot_item: self.hot_item,
            active_item: self.active_item,
            text_field: self.text_field,
            caret: self.caret,
        }
    }
}

impl State {
    pub fn new() -> (r: State)
        ensures
            r@ == (StateView {
                mouse_left: (false, false, false),
                mouse_right: (false, false, false),
                mouse_middle: (false, false, false),
                auto_scale: true,
                pixel_perfect: true,
                hot_item: SelectedItem::Vacant,
                active_item: SelectedItem::Vacant,
                text_field: None,
                caret: 0,
            }),
    {
        State {
            mouse_left: (false, false, false),
            mouse_right: (false, false, false),
            mouse_middle: (false, false, false),
            auto_scale: true,
            pixel_perfect: true,
            hot_item: SelectedItem::Vacant,
            active_item: SelectedItem::Vacant,
            text_field: None,
            caret: 0,
        }
    }

    pub fn auto_scale(&self) -> (r: bool)
        ensures
            r == self@.auto_scale,
    {
        self.auto_scale
    }

    pub fn set_auto_scale(&mut self, auto_scale: bool)
        ensures
            final(self)@ == (StateView { auto_scale, ..old(self)@ }),
    {
        self.auto_scale = auto_scale;
    }

    pub fn pixel_perfect(&self) -> (r: bool)
        ensures
            r == self@.pixel_perfect,
    {
        self.pixel_perfect
    }

    pub fn set_pixel_perfect(&mut self, pixel_perfect: bool)
        ensures
            final(self)@ == (StateView { pixel_perfect, ..old(self)@ }),
    {
        self.pixel_perfect = pixel_perfect;
    }

    fn mouse_button_values(&self, button: MouseButton) -> (r: ButtonValues)
        ensures
            r == self@.buttons(button),
    {
        match button {
            MouseButton::Left => self.mouse_left,
            MouseButton::Right => self.mouse_right,
            MouseButton::Middle => self.mouse_middle,
            MouseButton::Unknown => (false, false, false),
        }
    }

    pub fn mouse_down(&self, button: MouseButton) -> (r: bool)
        ensures
            r == self@.buttons(button).0,
    {
        self.mouse_button_values(button).0
    }

    pub fn mouse_pressed(&self, button: MouseButton) -> (r: bool)
        ensures
            r == self@.buttons(button).1,
    {
        self.mouse_button_values(button).1
    }

    pub fn mouse_released(&self, button: MouseButton) -> (r: bool)
        ensures
            r == self@.buttons(button).2,
    {
        self.mouse_button_values(button).2
    }

    /// The state of a button `id` this frame, given whether the mouse is over
    /// it; a held button stays held when the mouse leaves it if
    /// `held_when_not_hovered`.
    pub fn button_state(&mut self, id: Id, hovered: bool, disabled: bool, held_when_not_hovered: bool) -> (r: ButtonState)
        ensures
            (r, final(self)@.hot_item, final(self)@.active_item) == button_state_spec(
                old(self)@.hot_item,
                old(self)@.active_item,
                id,
                hovered,
                disabled,
                held_when_not_hovered,
                old(self)@.buttons(MouseButton::Left).0,
            ),
            final(self)@ == (StateView {
                hot_item: final(self)@.hot_item,
                active_item: final(self)@.active_item,
                ..old(self)@
            }),
    {
        let mut state = ButtonState::Idle;
        let mouse_down = self.mouse_down(MouseButton::Left);

        if self.hot_item.assign_if_none_and(id, hovered) {
            state = match self.active_item.assign_if_none_and(id, mouse_down) {
                true => ButtonState::Clicked,
                false => ButtonState::Hovered,
            };
        }
        if (self.hot_item == id || held_when_not_hovered) && self.active_item == id && state
            != ButtonState::Clicked {
            state = match !mouse_down && hovered {
                true => ButtonState::Released,
                false => ButtonState::Held,
            }
        }
        if disabled {
            state = ButtonState::Disabled;
        }
        state
    }

    /// A text field `id` takes the keyboard when it is clicked; returns
    /// whether it did.
    pub fn focus_on_click(&mut self, id: Id, button_state: ButtonState) -> (r: bool)
        ensures
            r == (button_state == ButtonState::Clicked),
            final(self)@ == if r {
                StateView { text_field: Some(id), ..old(self)@ }
            } else {
                old(self)@
            },
    {
        if button_state == ButtonState::Clicked {
            self.text_field = Some(id);
            true
        } else {
            false
        }
    }

    /// Whether the element `id` is hot.
    pub fn is_hot(&self, id: Id) -> (r: bool)
        ensures
            r == (self@.hot_item == SelectedItem::Item(id)),
    {
        self.hot_item == id
    }

    /// Spends this frame's click: no element can become active with it.
    pub fn make_active_unavailable(&mut self)
        ensures
            final(self)@ == (StateView { active_item: SelectedItem::Unavailable, ..old(self)@ }),
    {
        self.active_item = SelectedItem::Unavailable;
    }

    /// A menu entry `id` (see `dropdown_entry_spec`); returns whether it was
    /// chosen.
    pub fn dropdown_entry(&mut self, id: Id, hovered: bool) -> (r: bool)
        ensures
            ({
                let (hot, active, chosen) = dropdown_entry_spec(old(self)@, id, hovered);
                &&& final(self)@ == (StateView { hot_item: hot, active_item: active, ..old(self)@ })
                &&& r == chosen
            }),
    {
        let mouse_down = self.mouse_down(MouseButton::Left);
        if self.hot_item.assign_if_none_and(id, hovered) {
            if mouse_down {
                self.active_item.assign(id);
            }
        }
        self.hot_item == id && self.active_item == id && !mouse_down
    }

    /// Starts a frame with what the mouse buttons did: nothing is hot until an
    /// element claims it.
    pub fn begin(&mut self, left: ButtonValues, right: ButtonValues, middle: ButtonValues)
        ensures
            final(self)@ == (StateView {
                mouse_left: left,
                mouse_right: right,
                mouse_middle: middle,
                hot_item: SelectedItem::Vacant,
                ..old(self)@
            }),
    {
        self.mouse_left = left;
        self.mouse_right = right;
        self.mouse_middle = middle;
        self.hot_item = SelectedItem::Vacant;
    }

    /// Ends a frame: letting go of the mouse frees the active item, and
    /// holding it down over nothing makes the active item unavailable.
    pub fn finish(&mut self)
        ensures
            final(self)@ == (StateView {
                active_item: if !old(self)@.buttons(MouseButton::Left).0 {
                    SelectedItem::Vacant
                } else if old(self)@.active_item == SelectedItem::Vacant {
                    SelectedItem::Unavailable
                } else {
                    old(self)@.active_item
                },
                ..old(self)@
            }),
    {
        match self.mouse_down(MouseButton::Left) {
            false => self.active_item = SelectedItem::Vacant,
            true if self.active_item == SelectedItem::Vacant => self.active_item = SelectedItem::Unavailable,
            _ => {},
        };
    }
}

/// Only one element is hot in a frame: once a button has taken the hot
/// item, a button with another id can neither become hot nor be clicked.
pub proof fn law_one_hot_item_per_frame(
    hot: SelectedItem,
    active: SelectedItem,
    first: Id,
    second: Id,
    hovered1: bool,
    hovered2: bool,
    held1: bool,
    held2: bool,
    mouse_down: bool,
)
    requires
        first != second,
        button_state_spec(hot, active, first, hovered1, false, held1, mouse_down).1.holds(first),
    ensures
        ({
            let (_, hot1, active1) = button_state_spec(hot, active, first, hovered1, false, held1, mouse_down);
            let (state2, hot2, _) = button_state_spec(hot1, active1, second, hovered2, false, held2, mouse_down);
            &&& hot2 == hot1
            &&& state2 != ButtonState::Hovered
            &&& state2 != ButtonState::Clicked
        }),
{
}

/// A button is only released when it was held (active) before, and the
/// mouse went up over it.
pub proof fn law_release_needs_hold(
    hot: SelectedItem,
    active: SelectedItem,
    id: Id,
    hovered: bool,
    disabled: bool,
    held_when_not_hovered: bool,
    mouse_down: bool,
)
    requires
        button_state_spec(hot, active, id, hovered, disabled, held_when_not_hovered, mouse_down).0
            == ButtonState::Released,
    ensures
        active.holds(id),
        !mouse_down,
        hovered,
{
}

/// A disabled button is always drawn disabled, whatever the mouse does.
pub proof fn law_disabled_button_stays_disabled(
    hot: SelectedItem,
    active: SelectedItem,
    id: Id,
    hovered: bool,
    held_when_not_hovered: bool,
    mouse_down: bool,
)
    ensures
        button_state_spec(hot, active, id, hovered, true, held_when_not_hovered, mouse_down).0
            == ButtonState::Disabled,
{
}

} // verus!
