//! The kinds of popup windows, and what they hand back.
use vstd::prelude::*;
use crate::minesweeper::{Difficulty, dimensions_valid, MAX_HEIGHT, MAX_WIDTH, MIN_HEIGHT, MIN_WIDTH};

verus! {

/// The decimal digits of `n`, most significant first.
pub open spec fn decimal_digits(n: nat) -> Seq<char>
    decreases n,
{
    if n < 10 {
        seq![((n + 48) as u32) as char]
    } else {
        decimal_digits(n / 10).push((((n % 10) + 48) as u32) as char)
    }
}

/// `format!("{:?}", n)`: for an integer, `Debug` writes its decimal digits.
#[verifier::external_body]
fn debug_string(n: usize) -> (s: String)
    ensures
        s@ == decimal_digits(n as nat),
{
    format!("{:?}", n)
}

pub enum PopupKind {
    NewGame { difficulty: Difficulty },
    Custom { width: String, height: String, bomb_count: String },
    About,
    Hint,
    Win,
    Exit,
}

impl PopupKind {
    pub fn new_game(difficulty: Difficulty) -> (r: Self)
        ensures
            r == (PopupKind::NewGame { difficulty }),
    {
        PopupKind::NewGame { difficulty }
    }

    /// The custom game popup, its fields filled with the values of
    /// `difficulty` when there is one, and empty otherwise.
    pub fn custom(difficulty: Option<Difficulty>) -> (r: Self)
        ensures
            match r {
                PopupKind::Custom { width, height, bomb_count } => match difficulty {
                    Some(d) => {
                        &&& width@ == decimal_digits(d.spec_values().0 as nat)
                        &&& height@ == decimal_digits(d.spec_values().1 as nat)
                        &&& bomb_count@ == decimal_digits(d.spec_values().2 as nat)
                    },
                    None => width@ == Seq::<char>::empty() && height@ == Seq::<char>::empty()
                        && bomb_count@ == Seq::<char>::empty(),
                },
                _ => false,
            },
    {
        let (width, height, bomb_count) = match difficulty {
            Some(d) => {
                let v = d.values();
                (debug_string(v.width()), debug_string(v.height()), debug_string(v.bomb_count()))
            },
            None => (String::new(), String::new(), String::new()),
        };
        PopupKind::Custom { width, height, bomb_count }
    }

    /// Whether two popups are of the same kind (whatever their contents):
    /// a popup opened replaces any of its kind.
    pub fn same_kind_as(&self, other: &PopupKind) -> (r: bool)
        ensures
            r == self.same_kind(other),
    {
        match (self, other) {
            (PopupKind::NewGame { .. }, PopupKind::NewGame { .. }) => true,
            (PopupKind::Custom { .. }, PopupKind::Custom { .. }) => true,
            (PopupKind::About, PopupKind::About) => true,
            (PopupKind::Hint, PopupKind::Hint) => true,
            (PopupKind::Win, PopupKind::Win) => true,
            (PopupKind::Exit, PopupKind::Exit) => true,
            _ => false,
        }
    }

    /// The title of a popup of this kind, and its size.
    pub fn title_and_size(&self) -> (r: (&'static str, u32, u32))
        ensures
            match self {
                PopupKind::NewGame { .. } => r.0@ == "New game"@ && r.1 == 90 && r.2 == 46,
                PopupKind::Custom { .. } => r.0@ == "Custom"@ && r.1 == 78 && r.2 == 58,
                PopupKind::About => r.0@ == "About"@ && r.1 == 100 && r.2 == 70,
                PopupKind::Hint => r.0@ == "Hint"@ && r.1 == 60 && r.2 == 40,
                PopupKind::Win => r.0@ == "You win!"@ && r.1 == 70 && r.2 == 34,
                PopupKind::Exit => r.0@ == "Exit"@ && r.1 == 70 && r.2 == 40,
            },
    {
        match self {
            PopupKind::NewGame { .. } => ("New game", 90, 46),
            PopupKind::Custom { .. } => ("Custom", 78, 58),
            PopupKind::About => ("About", 100, 70),
            PopupKind::Hint => ("Hint", 60, 40),
            PopupKind::Win => ("You win!", 70, 34),
            PopupKind::Exit => ("Exit", 70, 40),
        }
    }

    /// Whether two popups are of the same kind (whatever their contents).
    pub open spec fn same_kind(&self, other: &PopupKind) -> bool {
        match (self, other) {
            (PopupKind::NewGame { .. }, PopupKind::NewGame { .. }) => true,
            (PopupKind::Custom { .. }, PopupKind::Custom { .. }) => true,
            (PopupKind::About, PopupKind::About) => true,
            (PopupKind::Hint, PopupKind::Hint) => true,
            (PopupKind::Win, PopupKind::Win) => true,
            (PopupKind::Exit, PopupKind::Exit) => true,
            _ => false,
        }
    }
}

#[derive(Debug, PartialEq, Eq, Clone, Copy, Structural)]
pub enum PopupReturn {
    NewGame { difficulty: Difficulty },
    Exit,
}

#[derive(Debug, PartialEq, Eq, Clone, Copy, Structural)]
pub enum PopupAction {
    Keep,
    Front,
    Close,
}

/// Whether a popup closes this frame, given what its buttons did: its
/// confirming button (Exit, Yes, Submit, or the only button of the hint and
/// win popups), its Cancel button, and its close button. The custom popup's
/// Submit button only works when its fields ask for a game within the
/// limits.
pub open spec fn popup_closes(kind: PopupKind, confirmed: bool, cancelled: bool, close_clicked: bool) -> bool {
    close_clicked || match kind {
        PopupKind::Exit => confirmed || cancelled,
        PopupKind::NewGame { .. } => confirmed || cancelled,
        PopupKind::Hint => confirmed,
        PopupKind::Win => confirmed,
        PopupKind::About => false,
        PopupKind::Custom { width, height, bomb_count } => (confirmed && custom_request(
            width@,
            height@,
            bomb_count@,
        ) is Some) || cancelled,
    }
}

/// The action that a popup's frame ends with: it closes, or else comes to
/// the front when the mouse took hold of it this frame.
pub open spec fn popup_action_spec(close: bool, became_active: bool) -> PopupAction {
    if close {
        PopupAction::Close
    } else if became_active {
        PopupAction::Front
    } else {
        PopupAction::Keep
    }
}

/// Decides a popup's frame: what it does (see `popup_closes`), and what it
/// hands back: a confirmed exit, or a confirmed new game (for the custom
/// popup, the game its fields ask for).
pub fn popup_result(
    kind: &PopupKind,
    confirmed: bool,
    cancelled: bool,
    close_clicked: bool,
    became_active: bool,
) -> (r: (PopupAction, Option<PopupReturn>))
    ensures
        r.0 == popup_action_spec(popup_closes(*kind, confirmed, cancelled, close_clicked), became_active),
        match *kind {
            PopupKind::Exit => r.1 == if confirmed {
                Some(PopupReturn::Exit)
            } else {
                None
            },
            PopupKind::NewGame { difficulty } => r.1 == if confirmed {
                Some(PopupReturn::NewGame { difficulty })
            } else {
                None
            },
            PopupKind::Custom { width, height, bomb_count } => match custom_request(width@, height@, bomb_count@) {
                Some(v) => if confirmed {
                    r.1 is Some && r.1->0 is NewGame && r.1->0->NewGame_difficulty is Custom
                        && r.1->0->NewGame_difficulty.spec_values() == v
                } else {
                    r.1 is None
                },
                None => r.1 is None,
            },
            _ => r.1 is None,
        },
{
    let mut close = close_clicked;
    let mut return_value = None;
    match kind {
        PopupKind::Exit => {
            if confirmed {
                return_value = Some(PopupReturn::Exit);
                close = true;
            }
            close = close || cancelled;
        },
        PopupKind::NewGame { difficulty } => {
            if confirmed {
                return_value = Some(PopupReturn::NewGame { difficulty: *difficulty });
                close = true;
            }
            close = close || cancelled;
        },
        PopupKind::Hint => {
            close = close || confirmed;
        },
        PopupKind::Win => {
            close = close || confirmed;
        },
        PopupKind::About => {},
        PopupKind::Custom { width, height, bomb_count } => {
            let diff = custom_difficulty(width, height, bomb_count);
            if confirmed {
                if let Some(difficulty) = diff {
                    return_value = Some(PopupReturn::NewGame { difficulty });
                    close = true;
                }
            }
            close = close || cancelled;
        },
    }
    let action = match (close, became_active) {
        (true, _) => PopupAction::Close,
        (_, true) => PopupAction::Front,
        _ => PopupAction::Keep,
    };
    (action, return_value)
}

/// Which popup closes and which comes to the front, from the actions of the
/// popups (bottom first): of each, the lowest one that asked for it.
pub fn close_and_front(actions: &Vec<PopupAction>) -> (r: (Option<usize>, Option<usize>))
    ensures
        match r.0 {
            Some(c) => c < actions@.len() && actions@[c as int] == PopupAction::Close && forall|j: int|
                0 <= j < c ==> actions@[j] != PopupAction::Close,
            None => forall|j: int| 0 <= j < actions@.len() ==> actions@[j] != PopupAction::Close,
        },
        match r.1 {
            Some(f) => f < actions@.len() && actions@[f as int] == PopupAction::Front && forall|j: int|
                0 <= j < f ==> actions@[j] != PopupAction::Front,
            None => forall|j: int| 0 <= j < actions@.len() ==> actions@[j] != PopupAction::Front,
        },
{
    let mut close: Option<usize> = None;
    let mut front: Option<usize> = None;
    let mut i = actions.len();
    while i > 0
        invariant
            i <= actions@.len(),
            match close {
                Some(c) => i <= c < actions@.len() && actions@[c as int] == PopupAction::Close && forall|j: int|
                    i <= j < c ==> actions@[j] != PopupAction::Close,
                None => forall|j: int| i <= j < actions@.len() ==> actions@[j] != PopupAction::Close,
            },
            match front {
                Some(f) => i <= f < actions@.len() && actions@[f as int] == PopupAction::Front && forall|j: int|
                    i <= j < f ==> actions@[j] != PopupAction::Front,
                None => forall|j: int| i <= j < actions@.len() ==> actions@[j] != PopupAction::Front,
            },
        decreases i,
    {
        i = i - 1;
        match actions[i] {
            PopupAction::Close => close = Some(i),
            PopupAction::Front => front = Some(i),
            PopupAction::Keep => {},
        }
    }
    (close, front)
}

/// Opens a popup of `kind` (with what goes with it): any popup of the same
/// kind closes first, and the new one goes on top.
pub fn add_popup<P>(popups: &mut Vec<(PopupKind, P)>, kind: PopupKind, with: P)
    ensures
        final(popups)@ == old(popups)@.filter(|e: (PopupKind, P)| !e.0.same_kind(&kind)).push((kind, with)),
{
    let ghost keep = |e: (PopupKind, P)| !e.0.same_kind(&kind);
    let ghost start = popups@;
    let ghost mut j: int = 0;
    let mut i: usize = 0;
    while i < popups.len()
        invariant
            0 <= j <= start.len(),
            popups@ == start.subrange(0, j).filter(keep) + start.subrange(j, start.len() as int),
            i == start.subrange(0, j).filter(keep).len(),
            keep == (|e: (PopupKind, P)| !e.0.same_kind(&kind)),
        decreases popups@.len() - i,
    {
        let ghost f0 = start.subrange(0, j).filter(keep);
        let ghost before = popups@;
        proof {
            reveal(Seq::filter);
            assert(start.subrange(0, j + 1).drop_last() =~= start.subrange(0, j));
            assert(start.subrange(0, j + 1).last() == start[j]);
            assert(start.subrange(0, j + 1).filter(keep) == (if keep(start[j]) {
                f0.push(start[j])
            } else {
                f0
            }));
            assert(popups@[i as int] == start[j]);
            assert(start.subrange(j, start.len() as int).drop_first() =~= start.subrange(j + 1, start.len() as int));
        }
        if popups[i].0.same_kind_as(&kind) {
            popups.remove(i);
            proof {
                assert(popups@ =~= start.subrange(0, j + 1).filter(keep) + start.subrange(j + 1, start.len() as int));
                j = j + 1;
            }
        } else {
            proof {
                assert(popups@ =~= start.subrange(0, j + 1).filter(keep) + start.subrange(j + 1, start.len() as int));
                j = j + 1;
            }
            i = i + 1;
        }
    }
    proof {
        assert(j == start.len()) by {
            if j < start.len() {
                assert(popups@.len() > i);
            }
        }
        assert(start.subrange(0, j) =~= start);
        assert(popups@ =~= start.filter(keep));
    }
    popups.push((kind, with));
}

/// The popups after a frame: the one that closes is removed, then the one
/// at `front` (counted after that removal) is moved to the top.
pub open spec fn reordered<T>(popups: Seq<T>, close: Option<usize>, front: Option<usize>) -> Seq<T> {
    let kept = match close {
        Some(c) => popups.remove(c as int),
        None => popups,
    };
    match front {
        Some(f) => kept.remove(f as int).push(kept[f as int]),
        None => kept,
    }
}

/// Closes and brings to the front as `close_and_front` decided.
pub fn reorder_popups<T>(popups: &mut Vec<T>, close: Option<usize>, front: Option<usize>)
    requires
        close is Some ==> close->0 < old(popups)@.len(),
        front is Some ==> front->0 < old(popups)@.len() - (if close is Some {
            1int
        } else {
            0int
        }),
    ensures
        final(popups)@ == reordered(old(popups)@, close, front),
{
    if let Some(close) = close {
        popups.remove(close);
    }
    if let Some(front) = front {
        let popup = popups.remove(front);
        popups.push(popup);
    }
}

/// The value of a run of decimal digits.
pub open spec fn digits_value(digits: Seq<char>) -> nat
    decreases digits.len(),
{
    if digits.len() == 0 {
        0
    } else {
        digits_value(digits.drop_last()) * 10 + (digits.last() as nat - 48) as nat
    }
}

/// What `str::parse::<usize>` gives for `s`, as its documentation has it: an
/// optional `+` followed by at least one decimal digit, whose value fits in
/// a `usize`; anything else is an error.
pub open spec fn parse_usize_spec(s: Seq<char>) -> Option<nat> {
    let digits = if s.len() > 0 && s[0] == '+' {
        s.drop_first()
    } else {
        s
    };
    if digits.len() > 0 && (forall|i: int| 0 <= i < digits.len() ==> '0' <= #[trigger] digits[i] <= '9')
        && digits_value(digits) <= usize::MAX {
        Some(digits_value(digits))
    } else {
        None
    }
}

/// `str::parse::<usize>`, its error dropped.
#[verifier::external_body]
fn parse_usize(s: &String) -> (r: Option<usize>)
    ensures
        match parse_usize_spec(s@) {
            Some(v) => r == Some(v as usize),
            None => r is None,
        },
{
    s.parse::<usize>().ok()
}

/// The board that the custom popup's width and height fields ask for: both
/// parse as numbers within the limits.
pub open spec fn custom_size_spec(width: Seq<char>, height: Seq<char>) -> Option<(int, int)> {
    match (parse_usize_spec(width), parse_usize_spec(height)) {
        (Some(w), Some(h)) => if MIN_WIDTH <= w <= MAX_WIDTH && MIN_HEIGHT <= h <= MAX_HEIGHT {
            Some((w as int, h as int))
        } else {
            None
        },
        _ => None,
    }
}

/// The (width, height, bomb count) that the custom popup's fields ask for:
/// a board within the limits, and a bomb count it can hold.
pub open spec fn custom_request(width: Seq<char>, height: Seq<char>, bomb_count: Seq<char>) -> Option<
    (int, int, int),
> {
    match (custom_size_spec(width, height), parse_usize_spec(bomb_count)) {
        (Some((w, h)), Some(b)) => if b <= (w - 1) * (h - 1) {
            Some((w, h, b as int))
        } else {
            None
        },
        _ => None,
    }
}

/// The board size the custom popup's width and height fields ask for, and
/// the most bombs it can hold (shown as the bomb field's hint).
pub fn custom_size(width: &String, height: &String) -> (r: (Option<(usize, usize)>, Option<usize>))
    ensures
        match custom_size_spec(width@, height@) {
            Some((w, h)) => r.0 == Some((w as usize, h as usize)) && r.1 == Some(((w - 1) * (h - 1)) as usize),
            None => r.0 is None && r.1 is None,
        },
{
    match (parse_usize(width), parse_usize(height)) {
        (Some(w), Some(h)) => {
            if Difficulty::dimensions_in_range(w, h) {
                (Some((w, h)), Difficulty::max_bombs(w, h))
            } else {
                (None, None)
            }
        },
        _ => (None, None),
    }
}

/// The difficulty that the custom popup's fields ask for, when they ask for
/// one within the limits; otherwise its Submit button is disabled.
pub fn custom_difficulty(width: &String, height: &String, bomb_count: &String) -> (r: Option<Difficulty>)
    ensures
        match custom_request(width@, height@, bomb_count@) {
            Some(v) => r is Some && r->0 is Custom && r->0.spec_values() == v,
            None => r is None,
        },
{
    let (size, max_bombs) = custom_size(width, height);
    match (size, parse_usize(bomb_count)) {
        (Some((w, h)), Some(b)) => {
            assert((w - 1) * (h - 1) <= 199 * 99) by (nonlinear_arith)
                requires
                    4 <= w <= 200,
                    4 <= h <= 100,
            ;
            match max_bombs {
                Some(m) => {
                    if b <= m {
                        Some(Difficulty::custom(w, h, b))
                    } else {
                        None
                    }
                },
                None => None,
            }
        },
        _ => None,
    }
}

/// The decimal digits of `n` are a non-empty run of digits whose value is `n`.
pub proof fn lemma_decimal_digits(n: nat)
    ensures
        decimal_digits(n).len() > 0,
        forall|i: int| 0 <= i < decimal_digits(n).len() ==> '0' <= #[trigger] decimal_digits(n)[i] <= '9',
        digits_value(decimal_digits(n)) == n,
    decreases n,
{
    if n < 10 {
        let d = decimal_digits(n);
        assert(d.drop_last() =~= Seq::<char>::empty());
        assert(d.last() as nat == n + 48);
        assert(digits_value(d.drop_last()) == 0);
        assert(digits_value(d) == digits_value(d.drop_last()) * 10 + (d.last() as nat - 48) as nat);
    } else {
        lemma_decimal_digits(n / 10);
        let d = decimal_digits(n);
        let prefix = decimal_digits(n / 10);
        assert(d.drop_last() =~= prefix);
        assert(d.last() as nat == n % 10 + 48);
        assert(n == (n / 10) * 10 + n % 10) by (nonlinear_arith);
        assert(digits_value(d) == digits_value(d.drop_last()) * 10 + (d.last() as nat - 48) as nat);
    }
}

/// The custom game popup, opened for a difficulty and submitted as it is,
/// asks for that same difficulty: its fields parse back to the values they
/// were filled with, which are within the limits.
pub proof fn law_custom_popup_round_trip(d: Difficulty)
    requires
        dimensions_valid(d.spec_values().0, d.spec_values().1, d.spec_values().2),
    ensures
        custom_request(
            decimal_digits(d.spec_values().0 as nat),
            decimal_digits(d.spec_values().1 as nat),
            decimal_digits(d.spec_values().2 as nat),
        ) == Some(d.spec_values()),
{
    let v = d.spec_values();
    lemma_decimal_digits(v.0 as nat);
    lemma_decimal_digits(v.1 as nat);
    lemma_decimal_digits(v.2 as nat);
    assert(decimal_digits(v.0 as nat)[0] != '+');
    assert(decimal_digits(v.1 as nat)[0] != '+');
    assert(decimal_digits(v.2 as nat)[0] != '+');
    assert((v.0 - 1) * (v.1 - 1) <= 199 * 99) by (nonlinear_arith)
        requires
            4 <= v.0 <= 200,
            4 <= v.1 <= 100,
    ;
}

/// What a popup's buttons do: its close button always closes it; Cancel
/// closes the popups that have one (exit, new game, custom); confirming
/// closes the exit, new game, hint and win popups, and the custom one when
/// its fields ask for a game within the limits; with no button used, the
/// popup stays, coming to the front when the mouse took hold of it.
pub proof fn law_popup_buttons(
    kind: PopupKind,
    confirmed: bool,
    cancelled: bool,
    close_clicked: bool,
    became_active: bool,
)
    ensures
        close_clicked ==> popup_action_spec(popup_closes(kind, confirmed, cancelled, close_clicked), became_active)
            == PopupAction::Close,
        cancelled && (kind is Exit || kind is NewGame || kind is Custom) ==> popup_action_spec(
            popup_closes(kind, confirmed, cancelled, close_clicked),
            became_active,
        ) == PopupAction::Close,
        confirmed && (kind is Exit || kind is NewGame || kind is Hint || kind is Win) ==> popup_action_spec(
            popup_closes(kind, confirmed, cancelled, close_clicked),
            became_active,
        ) == PopupAction::Close,
        confirmed && (kind matches PopupKind::Custom { width, height, bomb_count } && custom_request(
            width@,
            height@,
            bomb_count@,
        ) is Some) ==> popup_action_spec(
            popup_closes(kind, confirmed, cancelled, close_clicked),
            became_active,
        ) == PopupAction::Close,
        !close_clicked && !confirmed && !cancelled ==> popup_action_spec(
            popup_closes(kind, confirmed, cancelled, close_clicked),
            became_active,
        ) == if became_active {
            PopupAction::Front
        } else {
            PopupAction::Keep
        },
        kind is About && !close_clicked ==> popup_action_spec(
            popup_closes(kind, confirmed, cancelled, close_clicked),
            became_active,
        ) != PopupAction::Close,
{
}

} // verus!
