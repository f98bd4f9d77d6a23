//! What the status bar above the minefield shows: the bomb counter and the
//! timer.
use vstd::prelude::*;
use crate::minesweeper::GameState;
use crate::ui::state::ButtonState;
use crate::ui::renderer::style::{
    CounterDigit,
    Face,
    BOMB_COUNTER_HEIGHT,
    FACE_BUTTON_SIZE,
    STATUS_V_PAD,
    TIMER_HEIGHT,
};

verus! {

/// The height of the status bar: its tallest element, plus padding.
pub fn height() -> (r: u32)
    ensures
        r == 25,
{
    let (button_height, bomb_counter_height, timer_height) = (
        FACE_BUTTON_SIZE,
        BOMB_COUNTER_HEIGHT,
        TIMER_HEIGHT,
    );
    let mut max = button_height;
    if bomb_counter_height > max {
        max = bomb_counter_height;
    }
    if timer_height > max {
        max = timer_height;
    }
    max + 2 * STATUS_V_PAD
}

pub fn min_size() -> (r: (u32, u32))
    ensures
        r == (75u32, 25u32),
{
    (75, height())
}

/// The timer's four digits (tens of minutes, minutes, tens of seconds,
/// seconds) and whether its colon is lit, for a game that has been going
/// for `seconds` seconds (or has not started, when `None`). It stops at
/// 99:59, and the tens of minutes are left blank below ten minutes.
pub fn timer_digits(seconds: Option<usize>) -> (r: ([Option<u32>; 4], bool))
    ensures
        match seconds {
            Some(t) => {
                let s = if t < 5999 {
                    t as int
                } else {
                    5999
                };
                &&& r.0@ == seq![
                    if s < 600 {
                        None
                    } else {
                        Some((s / 60 / 10) as u32)
                    },
                    Some(((s / 60) % 10) as u32),
                    Some(((s % 60) / 10) as u32),
                    Some((s % 10) as u32),
                ]
                &&& r.1
            },
            None => r.0@ == seq![None::<u32>, None, None, None] && !r.1,
        },
{
    match seconds {
        Some(time) => {
            let seconds: u32 = if time < 60 * 100 - 1 {
                time as u32
            } else {
                60 * 100 - 1
            };
            let digits = [
                // Don't display the last digit as a 0
                if seconds < 60 * 10 {
                    None
                } else {
                    Some((seconds / 60) / 10)
                },  // Tens of minutes
                Some((seconds / 60) % 10),  // Minutes
                Some((seconds % 60) / 10),  // Tens
                Some(seconds % 10),  // Units
            ];
            // The colon stays lit: a flashing one was distracting
            (digits, true)
        },
        None => ([None, None, None, None], false),
    }
}

/// How many decimal digits `n` has (none for zero).
pub open spec fn decimal_length(n: nat) -> nat
    decreases n,
{
    if n == 0 {
        0
    } else {
        1 + decimal_length(n / 10)
    }
}

/// `10` to the power `i`, or `u32::MAX` when that is bigger.
pub open spec fn power_of_ten(i: nat) -> int
    decreases i,
{
    if i == 0 {
        1
    } else if power_of_ten((i - 1) as nat) * 10 > u32::MAX {
        u32::MAX as int
    } else {
        power_of_ten((i - 1) as nat) * 10
    }
}

/// How many digits the bomb counter shows: those of the bomb count, and at
/// least two.
pub fn bomb_counter_digit_count(bomb_count: usize) -> (r: u32)
    ensures
        r == if decimal_length(bomb_count as nat) < 2 {
            2
        } else {
            decimal_length(bomb_count as nat)
        },
{
    let mut n = bomb_count;
    let mut length: u32 = 0;
    proof {
        lemma_decimal_length_bounded(bomb_count as nat);
    }
    while n > 0
        invariant
            length + decimal_length(n as nat) == decimal_length(bomb_count as nat),
            decimal_length(bomb_count as nat) <= 20,
        decreases n,
    {
        n = n / 10;
        length = length + 1;
    }
    if length < 2 {
        2
    } else {
        length
    }
}

pub open spec fn pow10(k: nat) -> nat
    decreases k,
{
    if k == 0 {
        1
    } else {
        10 * pow10((k - 1) as nat)
    }
}

proof fn lemma_decimal_length_below(n: nat, k: nat)
    requires
        n < pow10(k),
    ensures
        decimal_length(n) <= k,
    decreases k,
{
    if n > 0 && k > 0 {
        lemma_decimal_length_below(n / 10, (k - 1) as nat);
    }
}

proof fn lemma_decimal_length_bounded(n: nat)
    requires
        n <= usize::MAX,
    ensures
        decimal_length(n) <= 20,
{
    assert(pow10(20) == 100_000_000_000_000_000_000) by {
        reveal_with_fuel(pow10, 21);
    }
    lemma_decimal_length_below(n, 20);
}

/// The digit the bomb counter shows at place `i` (the units being place
/// 0): dashes when there is no value, and no leading zeros, the units
/// always being shown.
pub open spec fn counter_digit_at(value: Option<usize>, i: nat) -> CounterDigit {
    match value {
        None => CounterDigit::Dash,
        Some(v) => if power_of_ten(i) <= (v as u32) || i == 0 {
            CounterDigit::Digit((((v as u32) / (power_of_ten(i) as u32)) % 10) as u32)
        } else {
            CounterDigit::Empty
        },
    }
}

/// The digits of the bomb counter showing `value`, for a game of
/// `bomb_count` bombs, the units first.
pub fn bomb_counter_digits(value: Option<usize>, bomb_count: usize) -> (r: Vec<CounterDigit>)
    ensures
        r@.len() == (if decimal_length(bomb_count as nat) < 2 {
            2
        } else {
            decimal_length(bomb_count as nat)
        }),
        forall|i: int| 0 <= i < r@.len() ==> #[trigger] r@[i] == counter_digit_at(value, i as nat),
{
    let digits = bomb_counter_digit_count(bomb_count);
    let mut result: Vec<CounterDigit> = Vec::new();
    let mut power: u32 = 1;
    let mut i: u32 = 0;
    while i < digits
        invariant
            i <= digits,
            power >= 1,
            power as int == power_of_ten(i as nat),
            result@.len() == i,
            forall|j: int| 0 <= j < i ==> #[trigger] result@[j] == counter_digit_at(value, j as nat),
        decreases digits - i,
    {
        let digit = match value {
            None => CounterDigit::Dash,
            Some(v) => if power <= v as u32 || i == 0 {
                CounterDigit::Digit((v as u32 / power) % 10)
            } else {
                CounterDigit::Empty
            },
        };
        result.push(digit);
        power = match power.checked_mul(10) {
            Some(p) => p,
            None => u32::MAX,
        };
        i = i + 1;
    }
    result
}

/// Clicks on the face button within a short time of each other that make
/// the face angry.
pub const SPAM_ANGER_CLICKS: usize = 10;

/// The face on the status bar's button: it lost or won with the game, and
/// looks scared while a dig is about to happen.
pub fn face(state: GameState, scared: bool) -> (r: Face)
    ensures
        r == match state {
            GameState::Lose => Face::Lose,
            GameState::Win => Face::Win,
            GameState::Playing => if scared {
                Face::Scared
            } else {
                Face::Idle
            },
        },
{
    match (state, scared) {
        (GameState::Lose, _) => Face::Lose,
        (GameState::Win, _) => Face::Win,
        (_, true) => Face::Scared,
        (_, false) => Face::Idle,
    }
}

/// The face's eyes, as (blinking, angry): they close while blinking and
/// while the button is held down, and are otherwise angry when the face is.
pub fn eyes(blinking: bool, button_state: ButtonState, angry: bool) -> (r: (bool, bool))
    ensures
        ({
            let closed = blinking || button_state == ButtonState::Clicked || button_state
                == ButtonState::Held || button_state == ButtonState::Released;
            r == (closed, !closed && angry)
        }),
{
    let button_held = matches!(button_state, ButtonState::Clicked | ButtonState::Held | ButtonState::Released);
    match (blinking || button_held, angry) {
        (true, _) => (true, false),
        (_, true) => (false, true),
        _ => (false, false),
    }
}

/// How the face gets angry when its button is clicked over and over: the
/// clicks made close together are counted, and enough of them anger it.
pub struct SpamCounter {
    clicks: usize,
    angry: bool,
}

impl SpamCounter {
    /// The face is angry exactly when enough clicks have been counted.
    #[verifier::type_invariant]
    closed spec fn angry_when_spammed(self) -> bool {
        self.angry == (self.clicks >= SPAM_ANGER_CLICKS)
    }

    pub closed spec fn spec_clicks(&self) -> usize {
        self.clicks
    }

    pub closed spec fn spec_angry(&self) -> bool {
        self.angry
    }

    pub fn new() -> (r: SpamCounter)
        ensures
            r.spec_clicks() == 0,
            !r.spec_angry(),
            r.spec_angry() == (r.spec_clicks() >= SPAM_ANGER_CLICKS),
    {
        SpamCounter { clicks: 0, angry: false }
    }

    #[verifier::when_used_as_spec(spec_clicks)]
    pub fn clicks(&self) -> (r: usize)
        ensures
            r == self.spec_clicks(),
    {
        self.clicks
    }

    #[verifier::when_used_as_spec(spec_angry)]
    pub fn angry(&self) -> (r: bool)
        ensures
            r == self.spec_angry(),
    {
        self.angry
    }

    /// A frame of the face button: `clicked` says whether it was clicked,
    /// `calmed` whether the time since the last click is long enough to
    /// forget the clicks, and `cooled` whether it is long enough for a click
    /// to calm an angry face. The caller restarts that time on a click.
    pub fn update(&mut self, clicked: bool, calmed: bool, cooled: bool)
        requires
            old(self).spec_clicks() < usize::MAX,
        ensures
            ({
                let reset = (!old(self).spec_angry() && calmed) || (old(self).spec_angry() && clicked
                    && cooled);
                let clicks = if reset {
                    0
                } else {
                    old(self).spec_clicks() as int
                };
                let angry = !reset && old(self).spec_angry();
                if clicked {
                    &&& final(self).spec_clicks() == clicks + 1
                    &&& final(self).spec_angry() == (clicks + 1 >= SPAM_ANGER_CLICKS)
                } else {
                    &&& final(self).spec_clicks() == clicks
                    &&& final(self).spec_angry() == angry
                }
            }),
            final(self).spec_angry() == (final(self).spec_clicks() >= SPAM_ANGER_CLICKS),
    {
        proof {
            use_type_invariant(&*self);
        }
        if (!self.angry && calmed) || (self.angry && clicked && cooled) {
            *self = SpamCounter { clicks: 0, angry: false };
        }
        if clicked {
            let clicks = self.clicks + 1;
            *self = SpamCounter { clicks, angry: clicks >= SPAM_ANGER_CLICKS };
        }
    }
}

/// `power_of_ten` is 10 to the power `i`, capped at `u32::MAX`.
proof fn lemma_power_of_ten(i: nat)
    ensures
        power_of_ten(i) == if pow10(i) <= u32::MAX {
            pow10(i) as int
        } else {
            u32::MAX as int
        },
    decreases i,
{
    if i > 0 {
        lemma_power_of_ten((i - 1) as nat);
    }
}

/// The bomb counter shows a value in decimal: every place whose power of
/// ten is at most the value shows that place's digit (zeros inside the
/// number included), the places above are blank, the units are always
/// shown, and with no value every place shows a dash.
pub proof fn law_bomb_counter_shows_the_value(v: usize, i: nat)
    requires
        v < u32::MAX,
    ensures
        pow10(i) <= v ==> counter_digit_at(Some(v), i) == CounterDigit::Digit((((v as nat) / pow10(i)) % 10) as u32),
        i > 0 && pow10(i) > v ==> counter_digit_at(Some(v), i) == CounterDigit::Empty,
        counter_digit_at(Some(v), 0) == CounterDigit::Digit((v % 10) as u32),
        counter_digit_at(None, i) == CounterDigit::Dash,
{
    lemma_power_of_ten(i);
    lemma_power_of_ten(0);
    assert(pow10(0) == 1);
    assert(power_of_ten(0) == 1);
    assert((v as u32) as int == v);
    assert((v as u32) / (power_of_ten(0) as u32) == v as u32);
}

} // verus!
