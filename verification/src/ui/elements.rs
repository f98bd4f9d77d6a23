//! Interface elements: the editing of a number field.
use vstd::prelude::*;
use vstd::utf8::is_ascii_chars;
use vstd::string::StringSliceAdditionalSpecFns;

verus! {

/// The keys that edit a text field.
#[derive(Debug, PartialEq, Eq, Clone, Copy, Structural)]
pub enum Key {
    Left,
    Right,
    Backspace,
    Delete,
    Other,
}

/// `String::insert`: puts `ch` at byte `idx`. On an ASCII string bytes and
/// characters line up, so it goes at character `idx`.
#[verifier::external_body]
fn string_insert(s: &mut String, idx: usize, ch: char)
    requires
        idx <= old(s)@.len(),
        is_ascii_chars(old(s)@),
    ensures
        final(s)@ == old(s)@.insert(idx as int, ch),
{
    s.insert(idx, ch);
}

/// `String::remove`: takes out the character at byte `idx`, which on an
/// ASCII string is character `idx`.
#[verifier::external_body]
fn string_remove(s: &mut String, idx: usize) -> (r: char)
    requires
        idx < old(s)@.len(),
        is_ascii_chars(old(s)@),
    ensures
        final(s)@ == old(s)@.remove(idx as int),
        r == old(s)@[idx as int],
{
    s.remove(idx)
}

pub open spec fn is_decimal_digit(c: char) -> bool {
    '0' <= c <= '9'
}

/// The caret and text after typing: a digit goes in at the caret while the
/// field holds fewer than `max` characters. Also whether it went in.
pub open spec fn typed_spec(number: Seq<char>, caret: int, max: int, char_pressed: Option<char>) -> (
    Seq<char>,
    int,
    bool,
) {
    match char_pressed {
        Some(c) => if is_decimal_digit(c) && number.len() < max {
            (number.insert(caret, c), caret + 1, true)
        } else {
            (number, caret, false)
        },
        None => (number, caret, false),
    }
}

/// The caret and text after a key: Left and Right move the caret, Backspace
/// removes the character before it and Delete the one after it. Also
/// whether the key did anything.
pub open spec fn key_spec(number: Seq<char>, caret: int, key: Option<Key>) -> (Seq<char>, int, bool) {
    match key {
        Some(Key::Left) => (number, if caret > 0 {
            caret - 1
        } else {
            0
        }, true),
        Some(Key::Right) => (number, if caret < number.len() {
            caret + 1
        } else {
            number.len() as int
        }, true),
        Some(Key::Backspace) => if caret > 0 {
            (number.remove(caret - 1), caret - 1, true)
        } else {
            (number, caret, false)
        },
        Some(Key::Delete) => if caret < number.len() {
            (number.remove(caret), caret, true)
        } else {
            (number, caret, false)
        },
        _ => (number, caret, false),
    }
}

/// A number field after a frame of editing: the caret is first put where
/// the text was clicked (if it was) and kept within the text; then a digit
/// may be typed, and a key pressed. Gives the text, the caret, and whether
/// anything was typed or a key did something (which restarts the caret's
/// blinking).
pub open spec fn number_field_edit_spec(
    number: Seq<char>,
    caret: int,
    max: int,
    click_pos: Option<usize>,
    char_pressed: Option<char>,
    key: Option<Key>,
) -> (Seq<char>, int, bool) {
    let c0 = match click_pos {
        Some(p) => p as int,
        None => caret,
    };
    let c1 = if c0 < number.len() {
        c0
    } else {
        number.len() as int
    };
    let (n2, c2, typed) = typed_spec(number, c1, max, char_pressed);
    let (n3, c3, pressed) = key_spec(n2, c2, key);
    (n3, c3, typed || pressed)
}

/// The length in bytes of an ASCII string, which is its number of
/// characters.
fn ascii_len(s: &String) -> (r: usize)
    requires
        is_ascii_chars(s@),
        s@.len() <= usize::MAX,
    ensures
        r == s@.len(),
{
    broadcast use vstd::string::is_ascii_spec_bytes;

    let t = s.as_str();
    assert(vstd::string::is_ascii(t));
    assert(t.spec_bytes().len() == s@.len());
    t.len()
}

fn type_digit(number: &mut String, caret: &mut usize, max: usize, char_pressed: Option<char>) -> (r: bool)
    requires
        is_ascii_chars(old(number)@),
        *old(caret) <= old(number)@.len(),
        old(number)@.len() < usize::MAX,
    ensures
        is_ascii_chars(final(number)@),
        (final(number)@, *final(caret) as int, r) == typed_spec(
            old(number)@,
            *old(caret) as int,
            max as int,
            char_pressed,
        ),
{
    let len = ascii_len(number);
    match char_pressed {
        Some(c) => {
            if '0' <= c && c <= '9' && len < max {
                string_insert(number, *caret, c);
                *caret = *caret + 1;
                proof {
                    assert forall|i: int| 0 <= i < number@.len() implies '\0' <= #[trigger] number@[i]
                        <= '\u{7f}' by {
                        if i < *old(caret) {
                            assert(number@[i] == old(number)@[i]);
                        } else if i > *old(caret) {
                            assert(number@[i] == old(number)@[i - 1]);
                        }
                    }
                }
                true
            } else {
                false
            }
        },
        None => false,
    }
}

fn press_key(number: &mut String, caret: &mut usize, key: Option<Key>) -> (r: bool)
    requires
        is_ascii_chars(old(number)@),
        old(number)@.len() <= usize::MAX,
        *old(caret) <= old(number)@.len(),
    ensures
        is_ascii_chars(final(number)@),
        (final(number)@, *final(caret) as int, r) == key_spec(old(number)@, *old(caret) as int, key),
{
    let len = ascii_len(number);
    match key {
        Some(Key::Left) => {
            *caret = if *caret > 0 {
                *caret - 1
            } else {
                0
            };
            true
        },
        Some(Key::Right) => {
            *caret = if *caret < len {
                *caret + 1
            } else {
                len
            };
            true
        },
        Some(Key::Backspace) => {
            if *caret > 0 {
                *caret = *caret - 1;
                string_remove(number, *caret);
                proof {
                    assert forall|i: int| 0 <= i < number@.len() implies '\0' <= #[trigger] number@[i]
                        <= '\u{7f}' by {
                        assert(number@[i] == old(number)@.remove(*final(caret) as int)[i]);
                        if i < *final(caret) {
                            assert(number@[i] == old(number)@[i]);
                        } else {
                            assert(number@[i] == old(number)@[i + 1]);
                        }
                    }
                }
                true
            } else {
                false
            }
        },
        Some(Key::Delete) => {
            if *caret < len {
                string_remove(number, *caret);
                proof {
                    assert forall|i: int| 0 <= i < number@.len() implies '\0' <= #[trigger] number@[i]
                        <= '\u{7f}' by {
                        if i < *caret {
                            assert(number@[i] == old(number)@[i]);
                        } else {
                            assert(number@[i] == old(number)@[i + 1]);
                        }
                    }
                }
                true
            } else {
                false
            }
        },
        _ => false,
    }
}

/// Edits a number field for a frame (see `number_field_edit_spec`); returns
/// whether the caret's blinking restarts.
pub fn number_field_edit(
    number: &mut String,
    caret: &mut usize,
    max: usize,
    click_pos: Option<usize>,
    char_pressed: Option<char>,
    key: Option<Key>,
) -> (r: bool)
    requires
        is_ascii_chars(old(number)@),
        old(number)@.len() < usize::MAX,
    ensures
        is_ascii_chars(final(number)@),
        (final(number)@, *final(caret) as int, r) == number_field_edit_spec(
            old(number)@,
            *old(caret) as int,
            max as int,
            click_pos,
            char_pressed,
            key,
        ),
        (forall|i: int| 0 <= i < old(number)@.len() ==> is_decimal_digit(#[trigger] old(number)@[i]))
            && old(number)@.len() <= max ==> {
            &&& forall|i: int| 0 <= i < final(number)@.len() ==> is_decimal_digit(#[trigger] final(number)@[i])
            &&& final(number)@.len() <= max
            &&& *final(caret) <= final(number)@.len()
        },
{
    proof {
        if (forall|i: int| 0 <= i < number@.len() ==> is_decimal_digit(#[trigger] number@[i]))
            && number@.len() <= max {
            law_number_field_stays_numeric(number@, *caret as int, max as int, click_pos, char_pressed, key);
        }
    }
    if let Some(click_pos) = click_pos {
        *caret = click_pos;
    }
    let len = ascii_len(number);
    if *caret > len {
        *caret = len;
    }
    let typed = type_digit(number, caret, max, char_pressed);
    let pressed = press_key(number, caret, key);
    typed || pressed
}

/// A number field only ever holds digits: editing one that holds only
/// digits keeps it so, never makes it longer than `max` by typing, and
/// keeps the caret within its text.
pub proof fn law_number_field_stays_numeric(
    number: Seq<char>,
    caret: int,
    max: int,
    click_pos: Option<usize>,
    char_pressed: Option<char>,
    key: Option<Key>,
)
    requires
        forall|i: int| 0 <= i < number.len() ==> is_decimal_digit(#[trigger] number[i]),
        number.len() <= max,
        0 <= caret,
    ensures
        ({
            let (n, c, _) = number_field_edit_spec(number, caret, max, click_pos, char_pressed, key);
            &&& forall|i: int| 0 <= i < n.len() ==> is_decimal_digit(#[trigger] n[i])
            &&& n.len() <= max
            &&& 0 <= c <= n.len()
        }),
{
    let c0 = match click_pos {
        Some(p) => p as int,
        None => caret,
    };
    let c1 = if c0 < number.len() {
        c0
    } else {
        number.len() as int
    };
    let (n2, c2, typed) = typed_spec(number, c1, max, char_pressed);
    if typed {
        let c = char_pressed->0;
        number.insert_ensures(c1, c);
        assert forall|i: int| 0 <= i < n2.len() implies is_decimal_digit(#[trigger] n2[i]) by {
            if i < c1 {
                assert(n2[i] == number[i]);
            } else if i > c1 {
                assert(n2[(i - 1) + 1] == number[i - 1]);
            }
        }
    }
    assert(0 <= c2 <= n2.len());
    let (n3, c3, pressed) = key_spec(n2, c2, key);
    if n3.len() != n2.len() || n3 != n2 {
        let at = if key == Some(Key::Backspace) {
            c2 - 1
        } else {
            c2
        };
        n2.remove_ensures(at);
        assert forall|i: int| 0 <= i < n3.len() implies is_decimal_digit(#[trigger] n3[i]) by {
            if i < at {
                assert(n3[i] == n2[i]);
            } else {
                assert(n3[i] == n2[i + 1]);
            }
        }
    }
}

/// What each key does to the text and the caret `c` (within the text):
/// Backspace takes out the character before the caret and moves it back,
/// Delete takes out the one after it, Left and Right move the caret by one
/// within the text, and a typed digit goes in at the caret when there is
/// room, the caret moving past it.
pub proof fn law_keys_edit_at_the_caret(number: Seq<char>, c: int, max: int, d: char)
    requires
        0 <= c <= number.len(),
    ensures
        c > 0 ==> key_spec(number, c, Some(Key::Backspace)) == (
            number.subrange(0, c - 1) + number.subrange(c, number.len() as int),
            c - 1,
            true,
        ),
        c == 0 ==> key_spec(number, c, Some(Key::Backspace)) == (number, c, false),
        c < number.len() ==> key_spec(number, c, Some(Key::Delete)) == (
            number.subrange(0, c) + number.subrange(c + 1, number.len() as int),
            c,
            true,
        ),
        c == number.len() ==> key_spec(number, c, Some(Key::Delete)) == (number, c, false),
        key_spec(number, c, Some(Key::Left)) == (number, if c > 0 {
            c - 1
        } else {
            0
        }, true),
        key_spec(number, c, Some(Key::Right)) == (number, if c < number.len() {
            c + 1
        } else {
            c
        }, true),
        key_spec(number, c, None) == (number, c, false),
        key_spec(number, c, Some(Key::Other)) == (number, c, false),
        is_decimal_digit(d) && number.len() < max ==> typed_spec(number, c, max, Some(d)) == (
            number.subrange(0, c).push(d) + number.subrange(c, number.len() as int),
            c + 1,
            true,
        ),
        !(is_decimal_digit(d) && number.len() < max) ==> typed_spec(number, c, max, Some(d)) == (
            number,
            c,
            false,
        ),
{
    if c > 0 {
        assert(number.remove(c - 1) =~= number.subrange(0, c - 1) + number.subrange(c, number.len() as int));
    }
    if c < number.len() {
        assert(number.remove(c) =~= number.subrange(0, c) + number.subrange(c + 1, number.len() as int));
    }
    assert(number.insert(c, d) =~= number.subrange(0, c).push(d) + number.subrange(c, number.len() as int));
}

} // verus!
