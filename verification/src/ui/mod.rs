//! Generic interface stuff.
use vstd::prelude::*;
use std::collections::hash_map::DefaultHasher;
use std::hash::Hash;
use std::hash::Hasher;
use vstd::std_specs::hash::DefaultHasherAdditionalSpecFns;
use crate::minesweeper::{Difficulty, GameState};
use self::minesweeper_element::MinesweeperElement;
use self::popups::PopupKind;

pub mod elements;
pub mod menubar;
pub mod minesweeper_element;
pub mod popups;
pub mod renderer;
pub mod spritesheet;
pub mod state;

verus! {

/// The writes that `Hash::hash` of a `String` makes into a hasher, as a
/// function of the string's characters.
pub uninterp spec fn string_hash_writes(s: Seq<char>) -> Seq<Seq<u8>>;

/// `<String as Hash>::hash` into a `DefaultHasher`. What it writes depends on
/// the string alone; which bytes those are is left unsaid here.
#[verifier::external_body]
fn hash_string_into(input: &String, hasher: &mut DefaultHasher)
    ensures
        final(hasher)@ == old(hasher)@ + string_hash_writes(input@),
{
    input.hash(hasher);
}

/// A hash of a string, used to make ids for interface elements.
pub fn hash_string(input: &String) -> (r: u64)
    ensures
        r == DefaultHasher::spec_finish(string_hash_writes(input@)),
{
    let mut hasher = DefaultHasher::new();
    hash_string_into(input, &mut hasher);
    proof {
        assert(Seq::<Seq<u8>>::empty() + string_hash_writes(input@) =~= string_hash_writes(input@));
    }
    hasher.finish()
}

/// What a request to quit comes to: a game in progress is asked about
/// first, with the exit popup; otherwise the program quits (`None`).
pub fn quit_request(element: &MinesweeperElement) -> (r: Option<PopupKind>)
    ensures
        r == if element@.game.state == GameState::Playing && element@.game.turns != 0 {
            Some(PopupKind::Exit)
        } else {
            None
        },
{
    if element.game_in_progress() {
        Some(PopupKind::Exit)
    } else {
        None
    }
}

/// What a request for a new game comes to: a game in progress is asked
/// about first, with the new game popup; otherwise the new game starts.
pub fn new_game_request(element: &mut MinesweeperElement, difficulty: Difficulty) -> (r: Option<PopupKind>)
    requires
        old(element)@.wf(),
    ensures
        final(element)@.wf(),
        old(element)@.game.state == GameState::Playing && old(element)@.game.turns != 0 ==> {
            &&& r == Some(PopupKind::NewGame { difficulty })
            &&& final(element)@ == old(element)@
        },
        !(old(element)@.game.state == GameState::Playing && old(element)@.game.turns != 0) ==> {
            &&& r is None
            &&& old(element)@.started(final(element)@, difficulty)
        },
{
    if element.game_in_progress() {
        Some(PopupKind::NewGame { difficulty })
    } else {
        element.new_game(difficulty);
        None
    }
}

/// The popup that a change of the game's state brings up: winning
/// congratulates.
pub fn popup_for_state_change(change: Option<GameState>) -> (r: Option<PopupKind>)
    ensures
        r == if change == Some(GameState::Win) {
            Some(PopupKind::Win)
        } else {
            None
        },
{
    match change {
        Some(GameState::Win) => Some(PopupKind::Win),
        _ => None,
    }
}

} // verus!
