//! Where the pieces of the first spritesheet layout are, in pixels, and the
//! colours that go with them.
use vstd::prelude::*;
use crate::ui::renderer::style::{SpriteRect, Nineslice, is_rect, is_nineslice};

verus! {

/// The picture of a text input field, red when its text is not valid.
pub fn input_field(error: bool) -> (r: Nineslice)
    ensures
        is_nineslice(r, if error { 87 } else { 84 }, 6, 3, 3, 1),
{
    match error {
        false => Nineslice::new(84, 6, 3, 3, 1),
        true => Nineslice::new(87, 6, 3, 3, 1),
    }
}

/// The menubar's background and text colours, as `0xRRGGBB`.
pub fn menubar_colors(hovered: bool) -> (r: (u32, u32))
    ensures
        r == (if hovered {
            (0x262B44u32, 0xFFFFFFu32)
        } else {
            (0xC0CBDCu32, 0x181425u32)
        }),
{
    match hovered {
        false => (0xC0CBDC, 0x181425),
        true => (0x262B44, 0xFFFFFF),
    }
}

/// The colour of a popup's close button, as (red, green, blue, alpha).
pub fn popup_close_color(hovered: bool) -> (r: (u8, u8, u8, u8))
    ensures
        r == (if hovered {
            (58u8, 68u8, 102u8, 255u8)
        } else {
            (255u8, 255u8, 255u8, 255u8)
        }),
{
    match hovered {
        true => (58, 68, 102, 255),
        false => (255, 255, 255, 255),
    }
}

/// The `id`th minefield tile picture (past the sixteenth, the sixteenth):
/// they are laid out four to a row.
pub fn minefield_tile(id: usize) -> (r: SpriteRect)
    ensures
        ({
            let i = if id > 15 {
                15
            } else {
                id as int
            };
            is_rect(r, i % 4 * 9, i / 4 * 9, 9, 9)
        }),
{
    let id = if id > 15 {
        15
    } else {
        id
    };
    SpriteRect { x: (id % 4 * 9) as u32, y: (id / 4 * 9) as u32, w: 9, h: 9 }
}

/// The size of a counter showing `digits` digits.
pub fn counter_size(digits: usize) -> (r: (usize, usize))
    requires
        digits <= 1000,
    ensures
        r.0 == digits * 10 + 4,
        r.1 == 18,
{
    (digits * 10 + 4, 18)
}

#[derive(Debug, Clone, Copy, PartialEq, Eq, Structural)]
pub enum CounterDigit {
    Empty,
    Dash,
    Digit(usize),
}

/// A digit of the counter; an empty digit, or one past 9, is blank.
pub fn counter_digit(digit: CounterDigit) -> (r: SpriteRect)
    ensures
        match digit {
            CounterDigit::Digit(d) if d <= 9 => is_rect(r, d % 5 * 8 + 36, d / 5 * 14, 8, 14),
            CounterDigit::Dash => is_rect(r, 76, 14, 8, 14),
            _ => is_rect(r, 76, 0, 8, 14),
        },
{
    let (x, y): (u32, u32) = match digit {
        CounterDigit::Digit(d) if d <= 9 => ((d % 5 * 8 + 36) as u32, (d / 5 * 14) as u32),
        CounterDigit::Dash => (76, 14),
        _ => (76, 0),
    };
    SpriteRect { x, y, w: 8, h: 14 }
}

/// A digit of the timer; a missing digit (or one past 10) shows as the
/// eleventh, blank, picture.
pub fn timer_digit(digit: Option<usize>) -> (r: SpriteRect)
    ensures
        ({
            let d = match digit {
                Some(d) => if d <= 10 {
                    d as int
                } else {
                    10
                },
                None => 10,
            };
            is_rect(r, 38 + d * 3, 28, 3, 5)
        }),
{
    let digit = if let Some(digit) = digit {
        if digit <= 10 {
            digit
        } else {
            10
        }
    } else {
        10
    };
    SpriteRect { x: (38 + digit * 3) as u32, y: 28, w: 3, h: 5 }
}

pub fn timer_colon(lit: bool) -> (r: SpriteRect)
    ensures
        is_rect(r, if lit { 37 } else { 36 }, 28, 1, 5),
{
    SpriteRect {
        x: if lit {
            37
        } else {
            36
        },
        y: 28,
        w: 1,
        h: 5,
    }
}

} // verus!
