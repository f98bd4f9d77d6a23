//! The first interface's font: where each character starts in the font
//! picture and how wide it is, in pixels.
use vstd::prelude::*;

verus! {

/// The first interface's font table: a character's start and width, for
/// the characters the font has.
pub open spec fn legacy_char_map_spec(c: char) -> Option<(u32, u32)> {
    match c {
        'A' => Some((3, 5)),
        'a' => Some((131, 5)),
        '!' => Some((286, 2)),
        '0' => Some((237, 5)),
        'B' => Some((8, 5)),
        'b' => Some((136, 4)),
        '?' => Some((288, 4)),
        '1' => Some((242, 4)),
        'C' => Some((13, 5)),
        'c' => Some((140, 4)),
        ':' => Some((292, 2)),
        '2' => Some((246, 5)),
        'D' => Some((18, 5)),
        'd' => Some((144, 5)),
        ';' => Some((294, 3)),
        '3' => Some((251, 5)),
        'E' => Some((23, 4)),
        'e' => Some((149, 4)),
        ',' => Some((297, 3)),
        '4' => Some((256, 5)),
        'F' => Some((27, 4)),
        'f' => Some((153, 3)),
        '.' => Some((300, 2)),
        '5' => Some((261, 5)),
        'G' => Some((31, 5)),
        'g' => Some((156, 4)),
        '*' => Some((302, 4)),
        '6' => Some((266, 5)),
        'H' => Some((36, 5)),
        'h' => Some((160, 4)),
        '#' => Some((306, 6)),
        '7' => Some((271, 5)),
        'I' => Some((41, 4)),
        'i' => Some((164, 2)),
        '"' => Some((312, 4)),
        '8' => Some((276, 5)),
        'J' => Some((45, 4)),
        'j' => Some((166, 4)),
        '\'' => Some((316, 2)),
        '9' => Some((281, 5)),
        'K' => Some((49, 5)),
        'k' => Some((170, 4)),
        '[' => Some((318, 3)),
        'L' => Some((54, 4)),
        'l' => Some((174, 2)),
        ']' => Some((321, 3)),
        'M' => Some((58, 6)),
        'm' => Some((176, 6)),
        '(' => Some((324, 3)),
        'N' => Some((64, 5)),
        'n' => Some((182, 4)),
        ')' => Some((327, 3)),
        'O' => Some((69, 5)),
        'o' => Some((186, 4)),
        '{' => Some((330, 4)),
        'P' => Some((74, 5)),
        'p' => Some((190, 4)),
        '}' => Some((334, 4)),
        'Q' => Some((79, 5)),
        'q' => Some((194, 4)),
        '<' => Some((338, 4)),
        'R' => Some((84, 5)),
        'r' => Some((198, 4)),
        '>' => Some((342, 4)),
        'S' => Some((89, 5)),
        's' => Some((202, 4)),
        '-' => Some((346, 4)),
        'T' => Some((94, 4)),
        't' => Some((206, 4)),
        '+' => Some((350, 4)),
        'U' => Some((98, 5)),
        'u' => Some((210, 4)),
        '/' => Some((354, 4)),
        'V' => Some((103, 6)),
        'v' => Some((214, 4)),
        '=' => Some((358, 4)),
        'W' => Some((109, 6)),
        'w' => Some((218, 6)),
        '_' => Some((362, 5)),
        'X' => Some((115, 6)),
        'x' => Some((224, 4)),
        ' ' => Some((0, 3)),
        'Y' => Some((121, 5)),
        'y' => Some((228, 4)),
        '\n' => Some((0, 0)),
        'Z' => Some((126, 5)),
        'z' => Some((232, 5)),
        '\u{ac}' => Some((0, 1)),
        _ => None,
    }
}

pub fn legacy_char_map(c: char) -> (r: Option<(u32, u32)>)
    ensures
        r == legacy_char_map_spec(c),
{
    match c {
        'A' => Some((3, 5)),
        'a' => Some((131, 5)),
        '!' => Some((286, 2)),
        '0' => Some((237, 5)),
        'B' => Some((8, 5)),
        'b' => Some((136, 4)),
        '?' => Some((288, 4)),
        '1' => Some((242, 4)),
        'C' => Some((13, 5)),
        'c' => Some((140, 4)),
        ':' => Some((292, 2)),
        '2' => Some((246, 5)),
        'D' => Some((18, 5)),
        'd' => Some((144, 5)),
        ';' => Some((294, 3)),
        '3' => Some((251, 5)),
        'E' => Some((23, 4)),
        'e' => Some((149, 4)),
        ',' => Some((297, 3)),
        '4' => Some((256, 5)),
        'F' => Some((27, 4)),
        'f' => Some((153, 3)),
        '.' => Some((300, 2)),
        '5' => Some((261, 5)),
        'G' => Some((31, 5)),
        'g' => Some((156, 4)),
        '*' => Some((302, 4)),
        '6' => Some((266, 5)),
        'H' => Some((36, 5)),
        'h' => Some((160, 4)),
        '#' => Some((306, 6)),
        '7' => Some((271, 5)),
        'I' => Some((41, 4)),
        'i' => Some((164, 2)),
        '"' => Some((312, 4)),
        '8' => Some((276, 5)),
        'J' => Some((45, 4)),
        'j' => Some((166, 4)),
        '\'' => Some((316, 2)),
        '9' => Some((281, 5)),
        'K' => Some((49, 5)),
        'k' => Some((170, 4)),
        '[' => Some((318, 3)),
        'L' => Some((54, 4)),
        'l' => Some((174, 2)),
        ']' => Some((321, 3)),
        'M' => Some((58, 6)),
        'm' => Some((176, 6)),
        '(' => Some((324, 3)),
        'N' => Some((64, 5)),
        'n' => Some((182, 4)),
        ')' => Some((327, 3)),
        'O' => Some((69, 5)),
        'o' => Some((186, 4)),
        '{' => Some((330, 4)),
        'P' => Some((74, 5)),
        'p' => Some((190, 4)),
        '}' => Some((334, 4)),
        'Q' => Some((79, 5)),
        'q' => Some((194, 4)),
        '<' => Some((338, 4)),
        'R' => Some((84, 5)),
        'r' => Some((198, 4)),
        '>' => Some((342, 4)),
        'S' => Some((89, 5)),
        's' => Some((202, 4)),
        '-' => Some((346, 4)),
        'T' => Some((94, 4)),
        't' => Some((206, 4)),
        '+' => Some((350, 4)),
        'U' => Some((98, 5)),
        'u' => Some((210, 4)),
        '/' => Some((354, 4)),
        'V' => Some((103, 6)),
        'v' => Some((214, 4)),
        '=' => Some((358, 4)),
        'W' => Some((109, 6)),
        'w' => Some((218, 6)),
        '_' => Some((362, 5)),
        'X' => Some((115, 6)),
        'x' => Some((224, 4)),
        ' ' => Some((0, 3)),
        'Y' => Some((121, 5)),
        'y' => Some((228, 4)),
        '\n' => Some((0, 0)),
        'Z' => Some((126, 5)),
        'z' => Some((232, 5)),
        '\u{ac}' => Some((0, 1)),
        _ => None,
    }
}

/// How wide a character is drawn: nothing for one the font lacks.
pub fn char_len(c: char) -> (r: u32)
    ensures
        r == match legacy_char_map_spec(c) {
            Some((_, width)) => width,
            None => 0,
        },
{
    match legacy_char_map(c) {
        Some((_, width)) => width,
        None => 0,
    }
}

} // verus!
