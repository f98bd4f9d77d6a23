//! Sizes of text drawn with the bitmap font: where each character sits in the
//! font's texture and how wide it is, and how big a piece of text comes out.
use vstd::prelude::*;

verus! {

/// The font's characters: where each starts in the texture, and how wide it
/// is. A `'\u{ac}'` is a one pixel wide blank, used to align text.
pub open spec fn char_map_spec(c: char) -> Option<(u32, u32)> {
    match c {
        'A' => Some((3, 5)),
        'a' => Some((131, 5)),
        '!' => Some((287, 2)),
        '0' => Some((238, 5)),
        'B' => Some((8, 5)),
        'b' => Some((136, 4)),
        '?' => Some((289, 4)),
        '1' => Some((243, 4)),
        'C' => Some((13, 5)),
        'c' => Some((140, 4)),
        ':' => Some((293, 2)),
        '2' => Some((247, 5)),
        'D' => Some((18, 5)),
        'd' => Some((144, 5)),
        ';' => Some((295, 3)),
        '3' => Some((252, 5)),
        'E' => Some((23, 4)),
        'e' => Some((149, 5)),
        ',' => Some((298, 3)),
        '4' => Some((257, 5)),
        'F' => Some((27, 4)),
        'f' => Some((154, 3)),
        '.' => Some((301, 2)),
        '5' => Some((262, 5)),
        'G' => Some((31, 5)),
        'g' => Some((157, 4)),
        '*' => Some((303, 4)),
        '6' => Some((267, 5)),
        'H' => Some((36, 5)),
        'h' => Some((161, 4)),
        '#' => Some((307, 6)),
        '7' => Some((272, 5)),
        'I' => Some((41, 4)),
        'i' => Some((165, 2)),
        '"' => Some((313, 4)),
        '8' => Some((277, 5)),
        'J' => Some((45, 4)),
        'j' => Some((167, 4)),
        '\'' => Some((317, 2)),
        '9' => Some((282, 5)),
        'K' => Some((49, 5)),
        'k' => Some((171, 4)),
        '[' => Some((319, 3)),
        '\n' => Some((0, 0)),
        'L' => Some((54, 4)),
        'l' => Some((175, 2)),
        ']' => Some((322, 3)),
        '\u{ac}' => Some((0, 1)),
        'M' => Some((58, 6)),
        'm' => Some((177, 6)),
        '(' => Some((325, 3)),
        'N' => Some((64, 5)),
        'n' => Some((183, 4)),
        ')' => Some((328, 3)),
        'O' => Some((69, 5)),
        'o' => Some((187, 4)),
        '{' => Some((331, 4)),
        'P' => Some((74, 5)),
        'p' => Some((191, 4)),
        '}' => Some((335, 4)),
        'Q' => Some((79, 5)),
        'q' => Some((195, 4)),
        '<' => Some((339, 4)),
        'R' => Some((84, 5)),
        'r' => Some((199, 4)),
        '>' => Some((343, 4)),
        'S' => Some((89, 5)),
        's' => Some((203, 4)),
        '-' => Some((347, 4)),
        'T' => Some((94, 4)),
        't' => Some((207, 4)),
        '+' => Some((351, 4)),
        'U' => Some((98, 5)),
        'u' => Some((211, 4)),
        '/' => Some((355, 4)),
        'V' => Some((103, 6)),
        'v' => Some((215, 4)),
        '\\' => Some((357, 4)),
        'W' => Some((109, 6)),
        'w' => Some((219, 6)),
        '=' => Some((363, 4)),
        'X' => Some((115, 6)),
        'x' => Some((225, 4)),
        '_' => Some((367, 5)),
        'Y' => Some((121, 5)),
        'y' => Some((229, 4)),
        '|' => Some((372, 2)),
        'Z' => Some((126, 5)),
        'z' => Some((233, 5)),
        ' ' => Some((0, 3)),
        _ => None,
    }
}

/// For a character of the font, where it starts in the texture and how wide
/// it is.
pub fn default_char_map(c: char) -> (r: Option<(u32, u32)>)
    ensures
        r == char_map_spec(c),
{
    match c {
        'A' => Some((3, 5)),
        'a' => Some((131, 5)),
        '!' => Some((287, 2)),
        '0' => Some((238, 5)),
        'B' => Some((8, 5)),
        'b' => Some((136, 4)),
        '?' => Some((289, 4)),
        '1' => Some((243, 4)),
        'C' => Some((13, 5)),
        'c' => Some((140, 4)),
        ':' => Some((293, 2)),
        '2' => Some((247, 5)),
        'D' => Some((18, 5)),
        'd' => Some((144, 5)),
        ';' => Some((295, 3)),
        '3' => Some((252, 5)),
        'E' => Some((23, 4)),
        'e' => Some((149, 5)),
        ',' => Some((298, 3)),
        '4' => Some((257, 5)),
        'F' => Some((27, 4)),
        'f' => Some((154, 3)),
        '.' => Some((301, 2)),
        '5' => Some((262, 5)),
        'G' => Some((31, 5)),
        'g' => Some((157, 4)),
        '*' => Some((303, 4)),
        '6' => Some((267, 5)),
        'H' => Some((36, 5)),
        'h' => Some((161, 4)),
        '#' => Some((307, 6)),
        '7' => Some((272, 5)),
        'I' => Some((41, 4)),
        'i' => Some((165, 2)),
        '"' => Some((313, 4)),
        '8' => Some((277, 5)),
        'J' => Some((45, 4)),
        'j' => Some((167, 4)),
        '\'' => Some((317, 2)),
        '9' => Some((282, 5)),
        'K' => Some((49, 5)),
        'k' => Some((171, 4)),
        '[' => Some((319, 3)),
        '\n' => Some((0, 0)),
        'L' => Some((54, 4)),
        'l' => Some((175, 2)),
        ']' => Some((322, 3)),
        '\u{ac}' => Some((0, 1)),
        'M' => Some((58, 6)),
        'm' => Some((177, 6)),
        '(' => Some((325, 3)),
        'N' => Some((64, 5)),
        'n' => Some((183, 4)),
        ')' => Some((328, 3)),
        'O' => Some((69, 5)),
        'o' => Some((187, 4)),
        '{' => Some((331, 4)),
        'P' => Some((74, 5)),
        'p' => Some((191, 4)),
        '}' => Some((335, 4)),
        'Q' => Some((79, 5)),
        'q' => Some((195, 4)),
        '<' => Some((339, 4)),
        'R' => Some((84, 5)),
        'r' => Some((199, 4)),
        '>' => Some((343, 4)),
        'S' => Some((89, 5)),
        's' => Some((203, 4)),
        '-' => Some((347, 4)),
        'T' => Some((94, 4)),
        't' => Some((207, 4)),
        '+' => Some((351, 4)),
        'U' => Some((98, 5)),
        'u' => Some((211, 4)),
        '/' => Some((355, 4)),
        'V' => Some((103, 6)),
        'v' => Some((215, 4)),
        '\\' => Some((357, 4)),
        'W' => Some((109, 6)),
        'w' => Some((219, 6)),
        '=' => Some((363, 4)),
        'X' => Some((115, 6)),
        'x' => Some((225, 4)),
        '_' => Some((367, 5)),
        'Y' => Some((121, 5)),
        'y' => Some((229, 4)),
        '|' => Some((372, 2)),
        'Z' => Some((126, 5)),
        'z' => Some((233, 5)),
        ' ' => Some((0, 3)),
        _ => None,
    }
}

/// The character drawn in place of one the font lacks.
pub const ERROR_CHAR: char = '?';

/// The start and width of a character, or of the error character when the
/// font lacks it.
pub open spec fn character_values_spec(c: char) -> (u32, u32) {
    match char_map_spec(c) {
        Some(v) => v,
        None => match char_map_spec(ERROR_CHAR) {
            Some(v) => v,
            None => (0, 0),
        },
    }
}

pub fn character_values(c: char) -> (r: (u32, u32))
    ensures
        r == character_values_spec(c),
{
    match default_char_map(c) {
        Some(v) => v,
        None => match default_char_map(ERROR_CHAR) {
            Some(v) => v,
            None => (0, 0),
        },
    }
}

/// Splitting a vector of `len` items at `indexes`: the pieces made from the
/// first `k` indexes, as (start, end) ranges, and where the next piece starts.
/// An index past the end is skipped.
pub open spec fn split_ends(len: int, indexes: Seq<usize>, k: int) -> (Seq<(int, int)>, int)
    decreases k,
{
    if k <= 0 {
        (Seq::empty(), 0)
    } else {
        let (pieces, start) = split_ends(len, indexes, k - 1);
        let end = indexes[k - 1] as int;
        if end <= len {
            (pieces.push((start, end)), end)
        } else {
            (pieces, start)
        }
    }
}

/// The pieces that splitting a vector of `len` items at `indexes` gives: one
/// per index that is not past the end, then the rest when it is not empty.
pub open spec fn split_ranges(len: int, indexes: Seq<usize>) -> Seq<(int, int)> {
    let (pieces, start) = split_ends(len, indexes, indexes.len() as int);
    if start < len {
        pieces.push((start, len))
    } else {
        pieces
    }
}

/// No index (that is not past the end) lies before the one that came before it.
pub open spec fn indexes_never_go_back(len: int, indexes: Seq<usize>) -> bool {
    forall|k: int|
        0 <= k < indexes.len() && #[trigger] indexes[k] <= len ==> split_ends(len, indexes, k).1
            <= indexes[k]
}

proof fn lemma_split_ends_bounds(len: int, indexes: Seq<usize>, k: int)
    requires
        0 <= len,
        0 <= k <= indexes.len(),
        indexes_never_go_back(len, indexes),
    ensures
        0 <= split_ends(len, indexes, k).1 <= len,
        forall|i: int|
            0 <= i < split_ends(len, indexes, k).0.len() ==> 0 <= (
            #[trigger] split_ends(len, indexes, k).0[i]).0 <= split_ends(len, indexes, k).0[i].1
                <= len,
    decreases k,
{
    if k > 0 {
        lemma_split_ends_bounds(len, indexes, k - 1);
        assert(indexes[k - 1] <= len ==> split_ends(len, indexes, k - 1).1 <= indexes[k - 1]);
    }
}

/// The pieces of `s` that `ranges` pick out.
pub open spec fn pieces_of<A>(s: Seq<A>, ranges: Seq<(int, int)>) -> Seq<Seq<A>> {
    Seq::new(ranges.len(), |i: int| s.subrange(ranges[i].0, ranges[i].1))
}

/// Pieces put back together, in order.
pub open spec fn joined<A>(pieces: Seq<Seq<A>>) -> Seq<A>
    decreases pieces.len(),
{
    if pieces.len() == 0 {
        Seq::empty()
    } else {
        joined(pieces.drop_last()) + pieces.last()
    }
}

proof fn lemma_split_ends_join<A>(s: Seq<A>, indexes: Seq<usize>, k: int)
    requires
        0 <= k <= indexes.len(),
        indexes_never_go_back(s.len() as int, indexes),
    ensures
        joined(pieces_of(s, split_ends(s.len() as int, indexes, k).0)) == s.subrange(
            0,
            split_ends(s.len() as int, indexes, k).1,
        ),
    decreases k,
{
    let len = s.len() as int;
    lemma_split_ends_bounds(len, indexes, k);
    if k == 0 {
        assert(pieces_of(s, split_ends(len, indexes, k).0) =~= Seq::<Seq<A>>::empty());
        assert(s.subrange(0, 0) =~= Seq::<A>::empty());
    } else {
        lemma_split_ends_join(s, indexes, k - 1);
        lemma_split_ends_bounds(len, indexes, k - 1);
        let (pieces, start) = split_ends(len, indexes, k - 1);
        let end = indexes[k - 1] as int;
        if end <= len {
            assert(start <= end);
            let now = pieces_of(s, pieces.push((start, end)));
            assert(now.drop_last() =~= pieces_of(s, pieces));
            assert(now.last() == s.subrange(start, end));
            assert(s.subrange(0, start) + s.subrange(start, end) =~= s.subrange(0, end));
        }
    }
}

/// Splitting loses nothing: the pieces, put back together, give the whole
/// vector.
pub proof fn law_split_pieces_join<A>(s: Seq<A>, indexes: Seq<usize>)
    requires
        indexes_never_go_back(s.len() as int, indexes),
    ensures
        joined(pieces_of(s, split_ranges(s.len() as int, indexes))) == s,
{
    let len = s.len() as int;
    let k = indexes.len() as int;
    lemma_split_ends_join(s, indexes, k);
    lemma_split_ends_bounds(len, indexes, k);
    let (pieces, start) = split_ends(len, indexes, k);
    if start < len {
        let now = pieces_of(s, pieces.push((start, len)));
        assert(now.drop_last() =~= pieces_of(s, pieces));
        assert(s.subrange(0, start) + s.subrange(start, len) =~= s);
    } else {
        assert(s.subrange(0, start) =~= s);
    }
}

/// Splits `vector` at each of `indexes` (skipping those past its end); the
/// part after the last index makes the last piece when it is not empty.
pub fn split_vector_by_indexes<T: Clone>(vector: &[T], indexes: &[usize]) -> (r: Vec<Vec<T>>)
    requires
        indexes_never_go_back(vector@.len() as int, indexes@),
    ensures
        r@.len() == split_ranges(vector@.len() as int, indexes@).len(),
        forall|i: int|
            0 <= i < r@.len() ==> {
                let (start, end) = #[trigger] split_ranges(vector@.len() as int, indexes@)[i];
                &&& r@[i]@.len() == end - start
                &&& forall|j: int|
                    0 <= j < end - start ==> cloned(vector@[start + j], #[trigger] r@[i]@[j])
            },
{
    let ghost len = vector@.len() as int;
    let mut result: Vec<Vec<T>> = Vec::new();
    let mut start_index: usize = 0;
    let mut k: usize = 0;
    while k < indexes.len()
        invariant
            0 <= k <= indexes@.len(),
            len == vector@.len(),
            indexes_never_go_back(len, indexes@),
            start_index as int == split_ends(len, indexes@, k as int).1,
            result@.len() == split_ends(len, indexes@, k as int).0.len(),
            forall|i: int|
                0 <= i < result@.len() ==> {
                    let (start, end) = #[trigger] split_ends(len, indexes@, k as int).0[i];
                    &&& result@[i]@.len() == end - start
                    &&& forall|j: int|
                        0 <= j < end - start ==> cloned(vector@[start + j], #[trigger] result@[i]@[j])
                },
        decreases indexes@.len() - k,
    {
        proof {
            lemma_split_ends_bounds(len, indexes@, k as int);
        }
        let end_index = indexes[k];
        if end_index <= vector.len() {
            assert(split_ends(len, indexes@, k as int).1 <= indexes@[k as int]);
            let piece = copy_range(vector, start_index, end_index);
            let ghost before = result@;
            result.push(piece);
            start_index = end_index;
            proof {
                assert forall|i: int| 0 <= i < result@.len() implies {
                    let (start, end) = #[trigger] split_ends(len, indexes@, k + 1).0[i];
                    &&& result@[i]@.len() == end - start
                    &&& forall|j: int|
                        0 <= j < end - start ==> cloned(vector@[start + j], #[trigger] result@[i]@[j])
                } by {
                    if i < before.len() {
                        assert(result@[i] == before[i]);
                        assert(split_ends(len, indexes@, k + 1).0[i] == split_ends(len, indexes@, k as int).0[i]);
                    }
                }
            }
        }
        k = k + 1;
    }
    proof {
        lemma_split_ends_bounds(len, indexes@, k as int);
    }
    // Push the remaining elements after the last index
    if start_index < vector.len() {
        let piece = copy_range(vector, start_index, vector.len());
        let ghost before = result@;
        result.push(piece);
        proof {
            assert forall|i: int| 0 <= i < result@.len() implies {
                let (start, end) = #[trigger] split_ranges(len, indexes@)[i];
                &&& result@[i]@.len() == end - start
                &&& forall|j: int|
                    0 <= j < end - start ==> cloned(vector@[start + j], #[trigger] result@[i]@[j])
            } by {
                if i < before.len() {
                    assert(result@[i] == before[i]);
                }
            }
        }
    }
    result
}

/// A copy of `vector[start..end]`, each item cloned.
fn copy_range<T: Clone>(vector: &[T], start: usize, end: usize) -> (r: Vec<T>)
    requires
        start <= end <= vector@.len(),
    ensures
        r@.len() == end - start,
        forall|j: int| 0 <= j < end - start ==> cloned(vector@[start + j], #[trigger] r@[j]),
{
    let mut piece: Vec<T> = Vec::new();
    let mut i: usize = start;
    while i < end
        invariant
            start <= i <= end <= vector@.len(),
            piece@.len() == i - start,
            forall|j: int| 0 <= j < i - start ==> cloned(vector@[start + j], #[trigger] piece@[j]),
        decreases end - i,
    {
        piece.push(vector[i].clone());
        i = i + 1;
    }
    piece
}

/// The positions of the line breaks in `text`, in order.
pub open spec fn line_breaks_spec(text: Seq<char>) -> Seq<usize>
    decreases text.len(),
{
    if text.len() == 0 {
        Seq::empty()
    } else if text.last() == '\n' {
        line_breaks_spec(text.drop_last()).push((text.len() - 1) as usize)
    } else {
        line_breaks_spec(text.drop_last())
    }
}

/// How wide a run of characters is.
pub open spec fn line_width(line: Seq<char>) -> nat
    decreases line.len(),
{
    if line.len() == 0 {
        0
    } else {
        line_width(line.drop_last()) + character_values_spec(line.last()).1 as nat
    }
}

/// The widest of the first `k` lines of `text`, the lines being `pieces`.
pub open spec fn widest_line(text: Seq<char>, pieces: Seq<(int, int)>, k: int) -> nat
    decreases k,
{
    if k <= 0 {
        0
    } else {
        let w = line_width(text.subrange(pieces[k - 1].0, pieces[k - 1].1));
        let rest = widest_line(text, pieces, k - 1);
        if w > rest {
            w
        } else {
            rest
        }
    }
}

/// The size of `text`: the width of its widest line, and how many lines it
/// has.
pub open spec fn text_size_spec(text: Seq<char>) -> (nat, nat) {
    let breaks = line_breaks_spec(text);
    let pieces = split_ranges(text.len() as int, breaks);
    (widest_line(text, pieces, pieces.len() as int), breaks.len() + 1)
}

proof fn lemma_line_breaks(text: Seq<char>)
    requires
        text.len() <= usize::MAX,
    ensures
        forall|j: int|
            0 <= j < line_breaks_spec(text).len() ==> #[trigger] line_breaks_spec(text)[j] < text.len()
                && text[line_breaks_spec(text)[j] as int] == '\n',
        forall|a: int, b: int|
            0 <= a < b < line_breaks_spec(text).len() ==> #[trigger] line_breaks_spec(text)[a]
                < #[trigger] line_breaks_spec(text)[b],
        line_breaks_spec(text).len() <= text.len(),
    decreases text.len(),
{
    if text.len() > 0 {
        let prefix = text.drop_last();
        lemma_line_breaks(prefix);
        let b = line_breaks_spec(text);
        let pb = line_breaks_spec(prefix);
        assert forall|j: int| 0 <= j < b.len() implies #[trigger] b[j] < text.len() && text[b[j] as int] == '\n' by {
            if j < pb.len() {
                assert(b[j] == pb[j]);
                assert(prefix[pb[j] as int] == text[pb[j] as int]);
            }
        }
        assert forall|a: int, c: int| 0 <= a < c < b.len() implies #[trigger] b[a] < #[trigger] b[c] by {
            assert(b[a] == pb[a]);
            if c < pb.len() {
                assert(b[c] == pb[c]);
            }
        }
    }
}

proof fn lemma_increasing_split(len: int, indexes: Seq<usize>, k: int)
    requires
        0 <= k <= indexes.len(),
        forall|j: int| 0 <= j < indexes.len() ==> #[trigger] indexes[j] <= len,
        forall|a: int, b: int| 0 <= a < b < indexes.len() ==> #[trigger] indexes[a] < #[trigger] indexes[b],
    ensures
        split_ends(len, indexes, k).1 == if k == 0 {
            0
        } else {
            indexes[k - 1] as int
        },
    decreases k,
{
    if k > 0 {
        lemma_increasing_split(len, indexes, k - 1);
    }
}

proof fn lemma_line_width_bounded(line: Seq<char>)
    ensures
        line_width(line) <= 6 * line.len(),
    decreases line.len(),
{
    if line.len() > 0 {
        lemma_line_width_bounded(line.drop_last());
    }
}

/// The positions of the line breaks in `text`.
fn line_breaks(text: &Vec<char>) -> (r: Vec<usize>)
    ensures
        r@ == line_breaks_spec(text@),
{
    let mut line_breaks: Vec<usize> = Vec::new();
    for i in 0..text.len()
        invariant
            line_breaks@ == line_breaks_spec(text@.subrange(0, i as int)),
    {
        proof {
            assert(text@.subrange(0, i + 1).drop_last() =~= text@.subrange(0, i as int));
        }
        if text[i] == '\n' {
            line_breaks.push(i);
        }
    }
    proof {
        assert(text@.subrange(0, text@.len() as int) =~= text@);
    }
    line_breaks
}

/// How wide `line` is.
fn line_pixels(line: &Vec<char>) -> (r: u64)
    requires
        6 * line@.len() <= u64::MAX,
    ensures
        r as nat == line_width(line@),
        r <= 6 * line@.len(),
{
    let mut width: u64 = 0;
    for j in 0..line.len()
        invariant
            6 * line@.len() <= u64::MAX,
            width as nat == line_width(line@.subrange(0, j as int)),
            width <= 6 * j,
    {
        proof {
            assert(line@.subrange(0, j + 1).drop_last() =~= line@.subrange(0, j as int));
        }
        let (_, w) = character_values(line[j]);
        width = width + w as u64;
    }
    proof {
        assert(line@.subrange(0, line@.len() as int) =~= line@);
    }
    width
}

/// The size of `text` in the font: the width of its widest line, and how
/// many lines it has.
pub fn text_size(text: &Vec<char>) -> (r: (u64, usize))
    requires
        6 * text@.len() <= u64::MAX,
        text@.len() < usize::MAX,
    ensures
        r.0 as nat == text_size_spec(text@).0,
        r.1 as nat == text_size_spec(text@).1,
{
    let line_breaks = line_breaks(text);
    proof {
        lemma_line_breaks(text@);
        assert forall|k: int| 0 <= k < line_breaks@.len() && #[trigger] line_breaks@[k] <= text@.len()
            implies split_ends(text@.len() as int, line_breaks@, k).1 <= line_breaks@[k] by {
            lemma_increasing_split(text@.len() as int, line_breaks@, k);
            if k > 0 {
                assert(line_breaks@[k - 1] < line_breaks@[k]);
            }
        }
    }
    let lines = split_vector_by_indexes(text.as_slice(), line_breaks.as_slice());
    let ghost pieces = split_ranges(text@.len() as int, line_breaks@);
    proof {
        lemma_split_ends_bounds(text@.len() as int, line_breaks@, line_breaks@.len() as int);
    }
    let mut largest_line_len: u64 = 0;
    for i in 0..lines.len()
        invariant
            lines@.len() == pieces.len(),
            pieces == split_ranges(text@.len() as int, line_breaks@),
            6 * text@.len() <= u64::MAX,
            forall|m: int| 0 <= m < pieces.len() ==> 0 <= (#[trigger] pieces[m]).0 <= pieces[m].1 <= text@.len(),
            forall|m: int|
                0 <= m < lines@.len() ==> {
                    let (start, end) = #[trigger] pieces[m];
                    &&& lines@[m]@.len() == end - start
                    &&& forall|j: int|
                        0 <= j < end - start ==> cloned(text@[start + j], #[trigger] lines@[m]@[j])
                },
            largest_line_len as nat == widest_line(text@, pieces, i as int),
    {
        let line = &lines[i];
        proof {
            let piece = text@.subrange(pieces[i as int].0, pieces[i as int].1);
            assert(pieces[i as int].0 <= pieces[i as int].1 <= text@.len());
            assert forall|j: int| 0 <= j < line@.len() implies line@[j] == piece[j] by {
                assert(cloned(text@[pieces[i as int].0 + j], lines@[i as int]@[j]));
            }
            assert(line@ =~= piece);
        }
        let width = line_pixels(line);
        if width > largest_line_len {
            largest_line_len = width;
        }
    }
    (largest_line_len, line_breaks.len() + 1)
}
} // verus!
