//! Where each piece of the interface sits in the spritesheet, in pixels.
use vstd::prelude::*;
use crate::ui::state::ButtonState;

verus! {

/// A rectangle of the spritesheet, in whole pixels.
#[derive(Debug, Clone, Copy, PartialEq, Eq, Structural)]
pub struct SpriteRect {
    pub x: u32,
    pub y: u32,
    pub w: u32,
    pub h: u32,
}

pub fn rect(x: u32, y: u32, w: u32, h: u32) -> (r: SpriteRect)
    ensures
        r == (SpriteRect { x, y, w, h }),
{
    SpriteRect { x, y, w, h }
}

/// A picture drawn stretched, keeping a border of `padding` pixels.
#[derive(Debug, Clone, Copy, PartialEq, Eq, Structural)]
pub struct Nineslice {
    pub rect: SpriteRect,
    pub padding: u32,
}

/// `r` is the rectangle at (`x`, `y`), `w` wide and `h` tall.
pub open spec fn is_rect(r: SpriteRect, x: int, y: int, w: int, h: int) -> bool {
    r.x == x && r.y == y && r.w == w && r.h == h
}

pub open spec fn is_nineslice(n: Nineslice, x: int, y: int, w: int, h: int, padding: int) -> bool {
    is_rect(n.rect, x, y, w, h) && n.padding == padding
}

/// The picture of face (or eyes) number `index`, at height `y`.
pub open spec fn is_face_rect(r: SpriteRect, index: int, y: int) -> bool {
    is_rect(r, index * FACE_SIZE, y, FACE_SIZE as int, FACE_SIZE as int)
}

/// How far a button in `state` is pushed in, and which row of button
/// pictures it takes.
pub open spec fn button_look(state: ButtonState) -> (u32, u32) {
    match state {
        ButtonState::Disabled => (0, 6),
        ButtonState::Idle | ButtonState::Hovered => (0, 0),
        _ => (1, 3),
    }
}

/// Which eyes are drawn over the face, if any.
pub open spec fn eye_index(face: Face, blinking: bool, angry: bool) -> Option<u32> {
    match (face, blinking, angry) {
        (Face::Win, _, _) | (Face::Lose, _, _) => None,
        (_, false, false) => None,
        (_, true, false) => Some(4),
        (_, false, true) => Some(5),
        (_, true, true) => Some(6),
    }
}

impl Nineslice {
    pub fn new(x: u32, y: u32, w: u32, h: u32, padding: u32) -> (r: Nineslice)
        ensures
            r == (Nineslice { rect: SpriteRect { x, y, w, h }, padding }),
    {
        Nineslice { rect: SpriteRect { x, y, w, h }, padding }
    }
}

pub const STATUS_V_PAD: u32 = 3;
pub const FACE_BUTTON_SIZE: u32 = 19;
pub const FACE_SIZE: u32 = 17;
pub const FACE_OFFSET: u32 = 1;
pub const BOMB_COUNTER_DIGIT_WIDTH: u32 = 8;
pub const BOMB_COUNTER_DIGIT_HEIGHT: u32 = 14;
pub const BOMB_COUNTER_DIGIT_OFFSET_X: u32 = 3;
pub const BOMB_COUNTER_DIGIT_OFFSET_Y: u32 = 2;
pub const BOMB_COUNTER_DIGIT_GAP: u32 = 2;
pub const BOMB_COUNTER_HEIGHT: u32 = 18;
pub const TIMER_WIDTH: u32 = 21;
pub const TIMER_HEIGHT: u32 = 9;
pub const TIMER_DIGIT_Y: u32 = 2;
pub const TIMER_COLON_POSITION: u32 = 10;
pub const MINEFIELD_TILE_SIZE: u32 = 9;

/// The size of a bomb counter showing `digits` digits.
pub fn bomb_counter_size(digits: u32) -> (r: (u32, u32))
    requires
        digits <= 1000,
    ensures
        r.0 == (BOMB_COUNTER_DIGIT_WIDTH + BOMB_COUNTER_DIGIT_GAP) * digits + 4,
        r.1 == BOMB_COUNTER_HEIGHT,
{
    ((BOMB_COUNTER_DIGIT_WIDTH + BOMB_COUNTER_DIGIT_GAP) * digits + 4, BOMB_COUNTER_HEIGHT)
}

#[derive(Debug, Clone, Copy, PartialEq, Eq, Structural)]
pub enum CounterDigit {
    Digit(u32),
    Empty,
    Dash,
}

pub fn bomb_counter_digit(digit: CounterDigit) -> (r: SpriteRect)
    ensures
        is_rect(
            r,
            BOMB_COUNTER_DIGIT_WIDTH * match digit {
                CounterDigit::Digit(d) => if d < 9 {
                    d
                } else {
                    9
                },
                CounterDigit::Empty => 10,
                CounterDigit::Dash => 11,
            },
            36,
            BOMB_COUNTER_DIGIT_WIDTH as int,
            BOMB_COUNTER_DIGIT_HEIGHT as int,
        ),
{
    let along: u32 = match digit {
        CounterDigit::Digit(d) => if d < 9 {
            d
        } else {
            9
        },
        CounterDigit::Empty => 10,
        CounterDigit::Dash => 11,
    };
    SpriteRect {
        x: BOMB_COUNTER_DIGIT_WIDTH * along,
        y: 36,
        w: BOMB_COUNTER_DIGIT_WIDTH,
        h: BOMB_COUNTER_DIGIT_HEIGHT,
    }
}

/// The x positions of the timer's four digits.
pub fn timer_digit_position(i: usize) -> (r: u32)
    requires
        i < 4,
    ensures
        r == (if i == 0 {
            2u32
        } else if i == 1 {
            6
        } else if i == 2 {
            12
        } else {
            16
        }),
{
    match i {
        0 => 2,
        1 => 6,
        2 => 12,
        _ => 16,
    }
}

/// A digit of the timer; a missing digit (or one past 9) shows as blank.
pub fn timer_digit(digit: Option<u32>) -> (r: SpriteRect)
    ensures
        is_rect(
            r,
            2 + 3 * match digit {
                Some(d) => if d < 10 {
                    d
                } else {
                    10
                },
                None => 10,
            },
            50,
            3,
            5,
        ),
{
    let d: u32 = match digit {
        Some(d) => if d < 10 {
            d
        } else {
            10
        },
        None => 10,
    };
    rect(2 + d * 3, 50, 3, 5)
}

pub fn timer_colon(lit: bool) -> (r: SpriteRect)
    ensures
        is_rect(
            r,
            if lit {
                1
            } else {
                0
            },
            50,
            1,
            5,
        ),
{
    let x: u32 = if lit {
        1
    } else {
        0
    };
    rect(x, 50, 1, 5)
}

#[derive(Debug, Clone, Copy, PartialEq, Eq, Structural)]
pub enum Theme {
    Light,
    Dark,
}

impl Theme {
    pub open spec fn spec_y(&self) -> u32 {
        match self {
            Theme::Light => 0,
            Theme::Dark => 18,
        }
    }

    /// How far down the spritesheet the theme's pictures are.
    #[verifier::when_used_as_spec(spec_y)]
    pub fn y(&self) -> (r: u32)
        ensures
            r == self.spec_y(),
    {
        match self {
            Theme::Light => 0,
            Theme::Dark => 18,
        }
    }
}

#[derive(Debug, Clone, Copy, PartialEq, Eq, Structural)]
pub enum FaceType {
    Fox,
    Nerd,
}

#[derive(Debug, Clone, Copy, PartialEq, Eq, Structural)]
pub enum Face {
    Idle,
    Scared,
    Win,
    Lose,
}

pub open spec fn face_index(face: Face) -> u32 {
    match face {
        Face::Idle => 0,
        Face::Scared => 1,
        Face::Win => 2,
        Face::Lose => 3,
    }
}

/// Which pictures the interface is drawn with.
pub struct Style {
    theme: Theme,
    face_type: FaceType,
}

impl View for Style {
    type V = (Theme, FaceType);

    closed spec fn view(&self) -> (Theme, FaceType) {
        (self.theme, self.face_type)
    }
}

impl Style {
    pub fn new() -> (r: Style)
        ensures
            r@ == (Theme::Light, FaceType::Fox),
    {
        Style { theme: Theme::Light, face_type: FaceType::Fox }
    }

    pub fn theme(&self) -> (r: &Theme)
        ensures
            *r == self@.0,
    {
        &self.theme
    }

    pub fn set_theme(&mut self, t: Theme)
        ensures
            final(self)@ == (t, old(self)@.1),
    {
        self.theme = t
    }

    pub fn face_type(&self) -> (r: &FaceType)
        ensures
            *r == self@.1,
    {
        &self.face_type
    }

    pub fn set_face_type(&mut self, f: FaceType)
        ensures
            final(self)@ == (old(self)@.0, f),
    {
        self.face_type = f
    }

    pub fn background(&self) -> (r: Nineslice)
        ensures
            is_nineslice(r, 92, self@.0.spec_y() as int, 3, 3, 1),
    {
        Nineslice::new(92, self.theme.y(), 3, 3, 1)
    }

    pub fn dropdown_background(&self) -> (r: Nineslice)
        ensures
            is_nineslice(r, 92, self@.0.spec_y() as int, 3, 3, 1),
    {
        Nineslice::new(92, self.theme.y(), 3, 3, 1)
    }

    pub fn dropdown_separator(&self) -> (r: SpriteRect)
        ensures
            is_rect(r, 94, 12 + self@.0.spec_y(), 1, 2),
    {
        rect(94, 12 + self.theme.y(), 1, 2)
    }

    /// How a button in `button_state` is drawn: how far it is pushed in, and
    /// its picture. (Its text colour is read from the spritesheet.)
    pub fn button(&self, button_state: &ButtonState) -> (r: (u32, Nineslice))
        ensures
            r.0 == button_look(*button_state).0,
            is_nineslice(r.1, 92, button_look(*button_state).1 + self@.0.spec_y(), 3, 3, 1),
    {
        let (offset, y): (u32, u32) = match button_state {
            ButtonState::Disabled => (0, 6),
            ButtonState::Idle | ButtonState::Hovered => (0, 0),
            _ => (1, 3),
        };
        (offset, Nineslice::new(92, y + self.theme.y(), 3, 3, 1))
    }

    pub fn text_input(&self) -> (r: Nineslice)
        ensures
            is_nineslice(r, 92, 15 + self@.0.spec_y(), 3, 3, 1),
    {
        Nineslice::new(92, 15 + self.theme.y(), 3, 3, 1)
    }

    pub fn popup_title(&self) -> (r: Nineslice)
        ensures
            is_nineslice(r, 86, 15 + self@.0.spec_y(), 3, 3, 1),
    {
        Nineslice::new(86, 15 + self.theme.y(), 3, 3, 1)
    }

    pub fn popup_body(&self) -> (r: Nineslice)
        ensures
            is_nineslice(r, 89, 15 + self@.0.spec_y(), 3, 3, 1),
    {
        Nineslice::new(89, 15 + self.theme.y(), 3, 3, 1)
    }

    pub fn popup_close(&self, hovered: bool) -> (r: SpriteRect)
        ensures
            is_rect(
                r,
                95,
                (if hovered {
                    7int
                } else {
                    0
                }) + self@.0.spec_y(),
                7,
                7,
            ),
    {
        let y: u32 = if hovered {
            7
        } else {
            0
        };
        rect(95, y + self.theme.y(), 7, 7)
    }

    pub fn bomb_counter_background(&self) -> (r: Nineslice)
        ensures
            is_nineslice(r, 92, 9 + self@.0.spec_y(), 3, 3, 1),
    {
        Nineslice::new(92, 9 + self.theme.y(), 3, 3, 1)
    }

    pub fn timer_background(&self) -> (r: Nineslice)
        ensures
            is_nineslice(r, 92, 9 + self@.0.spec_y(), 3, 3, 1),
    {
        Nineslice::new(92, 9 + self.theme.y(), 3, 3, 1)
    }

    /// The `id`th picture of a minefield tile: they are laid out nine to a
    /// row.
    pub fn minefield_tile(&self, id: u32) -> (r: SpriteRect)
        requires
            id <= 1000,
        ensures
            is_rect(
                r,
                (id % 9) * MINEFIELD_TILE_SIZE,
                (id / 9) * MINEFIELD_TILE_SIZE + self@.0.spec_y(),
                MINEFIELD_TILE_SIZE as int,
                MINEFIELD_TILE_SIZE as int,
            ),
    {
        SpriteRect {
            x: (id % 9) * MINEFIELD_TILE_SIZE,
            y: (id / 9) * MINEFIELD_TILE_SIZE + self.theme.y(),
            w: MINEFIELD_TILE_SIZE,
            h: MINEFIELD_TILE_SIZE,
        }
    }

    pub fn minefield_border(&self) -> (r: Nineslice)
        ensures
            is_nineslice(r, 81, 11 + self@.0.spec_y(), 5, 5, 2),
    {
        Nineslice::new(81, 11 + self.theme.y(), 5, 5, 2)
    }

    pub fn minefield_selector(&self) -> (r: SpriteRect)
        ensures
            is_rect(r, 81, self@.0.spec_y() as int, 11, 11),
    {
        rect(81, self.theme.y(), 11, 11)
    }

    pub open spec fn spec_face_y(&self) -> int {
        55 + match self@.1 {
            FaceType::Fox => 0u32,
            FaceType::Nerd => 17,
        }
    }

    fn face_y(&self) -> (r: u32)
        ensures
            r as int == self.spec_face_y(),
    {
        55 + match self.face_type {
            FaceType::Fox => 0,
            FaceType::Nerd => 17,
        }
    }

    /// The pictures of the face, and of the eyes drawn over it: a face that
    /// won or lost has its own eyes; otherwise blinking and angry eyes are
    /// drawn over it.
    pub fn face(&self, face: Face, blinking: bool, angry: bool) -> (r: (SpriteRect, Option<SpriteRect>))
        ensures
            is_face_rect(r.0, face_index(face) as int, self.spec_face_y()),
            r.1 is Some == eye_index(face, blinking, angry) is Some,
            eye_index(face, blinking, angry) is Some ==> is_face_rect(
                r.1->0,
                eye_index(face, blinking, angry)->0 as int,
                self.spec_face_y(),
            ),
    {
        let y = self.face_y();
        let eye_index: Option<u32> = match (&face, blinking, angry) {
            (Face::Win, _, _) | (Face::Lose, _, _) => None,
            (_, false, false) => None,  // Neither
            (_, true, false) => Some(4),  // Blinking
            (_, false, true) => Some(5),  // Angry
            (_, true, true) => Some(6),  // Both
        };
        let face_number: u32 = match face {
            Face::Idle => 0,
            Face::Scared => 1,
            Face::Win => 2,
            Face::Lose => 3,
        };
        let eyes = match eye_index {
            Some(e) => Some(SpriteRect { x: e * FACE_SIZE, y, w: FACE_SIZE, h: FACE_SIZE }),
            None => None,
        };
        (SpriteRect { x: face_number * FACE_SIZE, y, w: FACE_SIZE, h: FACE_SIZE }, eyes)
    }
}

} // verus!
