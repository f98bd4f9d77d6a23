//! A "black box" game of minesweeper: it only handles the game's rules, and
//! knows nothing of rendering or input.
use vstd::prelude::*;
use macroquad::rand::ChooseRandom;

verus! {

pub const MAX_WIDTH: usize = 200;
pub const MAX_HEIGHT: usize = 100;
pub const MIN_WIDTH: usize = 4;
pub const MIN_HEIGHT: usize = 4;

/// The limits that every board size respects.
pub open spec fn dimensions_valid(width: int, height: int, bomb_count: int) -> bool {
    &&& MIN_WIDTH <= width <= MAX_WIDTH
    &&& MIN_HEIGHT <= height <= MAX_HEIGHT
    &&& 0 <= bomb_count <= (width - 1) * (height - 1)
}

#[derive(Debug, Clone, Copy, PartialEq, Eq, Structural)]
pub struct DifficultyValues {
    width: usize,
    height: usize,
    bomb_count: usize,
}

impl DifficultyValues {
    #[verifier::type_invariant]
    pub closed spec fn in_limits(self) -> bool {
        dimensions_valid(self.width as int, self.height as int, self.bomb_count as int)
    }

    pub closed spec fn spec_width(&self) -> usize {
        self.width
    }

    pub closed spec fn spec_height(&self) -> usize {
        self.height
    }

    pub closed spec fn spec_bomb_count(&self) -> usize {
        self.bomb_count
    }

    #[verifier::when_used_as_spec(spec_width)]
    pub fn width(&self) -> (r: usize)
        ensures
            r == self.spec_width(),
    {
        self.width
    }

    #[verifier::when_used_as_spec(spec_height)]
    pub fn height(&self) -> (r: usize)
        ensures
            r == self.spec_height(),
    {
        self.height
    }

    #[verifier::when_used_as_spec(spec_bomb_count)]
    pub fn bomb_count(&self) -> (r: usize)
        ensures
            r == self.spec_bomb_count(),
    {
        self.bomb_count
    }
}

#[derive(Debug, Clone, Copy, PartialEq, Eq, Structural)]
pub enum Difficulty {
    Easy,
    Normal,
    Hard,
    Custom(DifficultyValues),
}

pub open spec fn clamp_spec(v: int, lo: int, hi: int) -> int {
    if v < lo {
        lo
    } else if v > hi {
        hi
    } else {
        v
    }
}

/// The values of a custom difficulty: width and height brought into their
/// limits, and at most as many bombs as `(width - 1) * (height - 1)`.
pub open spec fn clamped_values(width: int, height: int, bomb_count: int) -> (int, int, int) {
    let w = clamp_spec(width, MIN_WIDTH as int, MAX_WIDTH as int);
    let h = clamp_spec(height, MIN_HEIGHT as int, MAX_HEIGHT as int);
    let most = (w - 1) * (h - 1);
    (w, h, if bomb_count <= most {
        bomb_count
    } else {
        most
    })
}

impl Difficulty {
    /// The (width, height, bomb count) that a difficulty stands for.
    pub open spec fn spec_values(self) -> (int, int, int) {
        match self {
            Difficulty::Easy => (9, 9, 9),
            Difficulty::Normal => (16, 16, 40),
            Difficulty::Hard => (30, 16, 100),
            Difficulty::Custom(v) => (v.width() as int, v.height() as int, v.bomb_count() as int),
        }
    }

    /// A custom difficulty; each value is brought into the (somewhat arbitrary) limits.
    pub fn custom(width: usize, height: usize, bomb_count: usize) -> (r: Self)
        ensures
            r is Custom,
            r.spec_values() == clamped_values(width as int, height as int, bomb_count as int),
    {
        let width = if width < MIN_WIDTH {
            MIN_WIDTH
        } else if width > MAX_WIDTH {
            MAX_WIDTH
        } else {
            width
        };
        let height = if height < MIN_HEIGHT {
            MIN_HEIGHT
        } else if height > MAX_HEIGHT {
            MAX_HEIGHT
        } else {
            height
        };
        assert((width - 1) * (height - 1) <= 199 * 99) by (nonlinear_arith)
            requires
                width <= 200,
                height <= 100,
                width >= 4,
                height >= 4,
        ;
        let most = (width - 1) * (height - 1);
        let bomb_count = if bomb_count < most {
            bomb_count
        } else {
            most
        };
        Difficulty::Custom(DifficultyValues { width, height, bomb_count })
    }

    pub fn is_custom(&self) -> (r: bool)
        ensures
            r == (*self is Custom),
    {
        matches!(*self, Difficulty::Custom(_))
    }

    /// Whether a board `width` by `height` is within the limits.
    pub fn dimensions_in_range(width: usize, height: usize) -> (r: bool)
        ensures
            r == (MIN_WIDTH <= width <= MAX_WIDTH && MIN_HEIGHT <= height <= MAX_HEIGHT),
    {
        MIN_WIDTH <= width && width <= MAX_WIDTH && MIN_HEIGHT <= height && height <= MAX_HEIGHT
    }

    /// The most bombs a board `width` by `height` can hold, when it is
    /// within the limits.
    pub fn max_bombs(width: usize, height: usize) -> (r: Option<usize>)
        ensures
            match r {
                Some(m) => MIN_WIDTH <= width <= MAX_WIDTH && MIN_HEIGHT <= height <= MAX_HEIGHT && m
                    == (width - 1) * (height - 1),
                None => !(MIN_WIDTH <= width <= MAX_WIDTH && MIN_HEIGHT <= height <= MAX_HEIGHT),
            },
    {
        if Difficulty::dimensions_in_range(width, height) {
            assert((width - 1) * (height - 1) <= 199 * 99) by (nonlinear_arith)
                requires
                    4 <= width <= 200,
                    4 <= height <= 100,
            ;
            Some((width - 1) * (height - 1))
        } else {
            None
        }
    }

    pub fn values(&self) -> (r: DifficultyValues)
        ensures
            r.width() as int == self.spec_values().0,
            r.height() as int == self.spec_values().1,
            r.bomb_count() as int == self.spec_values().2,
            dimensions_valid(r.width() as int, r.height() as int, r.bomb_count() as int),
    {
        let (width, height, bomb_count): (usize, usize, usize) = match *self {
            Difficulty::Easy => (9, 9, 9),
            Difficulty::Normal => (16, 16, 40),
            Difficulty::Hard => (30, 16, 100),
            Difficulty::Custom(difficulty_values) => {
                proof {
                    use_type_invariant(&difficulty_values);
                }
                return difficulty_values;
            },
        };
        DifficultyValues { width, height, bomb_count }
    }
}

#[derive(Debug, PartialEq, Eq, Clone, Copy, Structural)]
pub enum GameState {
    Playing,
    Win,
    Lose,
}

impl GameState {
    pub fn is_playing(&self) -> (r: bool)
        ensures
            r == (*self == GameState::Playing),
    {
        matches!(*self, GameState::Playing)
    }

    pub fn is_win(&self) -> (r: bool)
        ensures
            r == (*self == GameState::Win),
    {
        matches!(*self, GameState::Win)
    }

    pub fn is_lose(&self) -> (r: bool)
        ensures
            r == (*self == GameState::Lose),
    {
        matches!(*self, GameState::Lose)
    }
}

#[derive(Debug, PartialEq, Eq, Clone, Copy, Structural)]
pub enum Tile {
    Unopened,
    Flag,
    Dug,
    Numbered(u8),
}

/// Where the game's clock is: not started before the first dig, running while
/// the game is played, and stopped once it is won or lost. The times
/// themselves are kept by whoever displays them.
#[derive(Debug, PartialEq, Eq, Clone, Copy, Structural)]
pub enum Timer {
    Idle,
    Timing,
    Frozen,
}

impl Timer {
    pub fn start(&mut self)
        ensures
            *final(self) == Timer::Timing,
    {
        *self = Timer::Timing;
    }

    pub fn freeze(&mut self)
        ensures
            *final(self) == (if *old(self) == Timer::Timing {
                Timer::Frozen
            } else {
                *old(self)
            }),
    {
        if let Timer::Timing = self {
            *self = Timer::Frozen;
        }
    }

    pub fn is_none(&self) -> (r: bool)
        ensures
            r == (*self == Timer::Idle),
    {
        matches!(*self, Timer::Idle)
    }
}

/// The eight neighbours of a tile, as (x, y) offsets with y pointing up.
pub open spec fn neighbour_offset_spec(k: int) -> (int, int) {
    if k == 0 {
        (-1, 1)
    } else if k == 1 {
        (0, 1)
    } else if k == 2 {
        (1, 1)
    } else if k == 3 {
        (-1, 0)
    } else if k == 4 {
        (1, 0)
    } else if k == 5 {
        (-1, -1)
    } else if k == 6 {
        (0, -1)
    } else {
        (1, -1)
    }
}

pub const NEIGHBOUR_COUNT: usize = 8;

pub fn neighbour_offset(k: usize) -> (r: (isize, isize))
    requires
        k < NEIGHBOUR_COUNT,
    ensures
        r.0 as int == neighbour_offset_spec(k as int).0,
        r.1 as int == neighbour_offset_spec(k as int).1,
{
    match k {
        0 => (-1, 1),
        1 => (0, 1),
        2 => (1, 1),
        3 => (-1, 0),
        4 => (1, 0),
        5 => (-1, -1),
        6 => (0, -1),
        _ => (1, -1),
    }
}

/// The index `x_offset` columns right and `y_offset` rows up of `index`, on a
/// board `width` wide and `height` tall, if that lies on the board (and the
/// index fits in a `usize`).
pub open spec fn index_from_offset(index: int, dx: int, dy: int, width: int, height: int) -> Option<
    int,
> {
    let x = index % width + dx;
    let y = index / width - dy;
    if 0 <= x < width && 0 <= y < height && y * width + x <= usize::MAX {
        Some(y * width + x)
    } else {
        None
    }
}

pub fn get_index_from_offset(
    index: usize,
    x_offset: isize,
    y_offset: isize,
    width: usize,
    height: usize,
) -> (r: Option<usize>)
    requires
        width > 0,
        y_offset > isize::MIN,
    ensures
        match r {
            Some(i) => index_from_offset(
                index as int,
                x_offset as int,
                y_offset as int,
                width as int,
                height as int,
            ) == Some(i as int),
            None => index_from_offset(
                index as int,
                x_offset as int,
                y_offset as int,
                width as int,
                height as int,
            ) is None,
        },
{
    let x = match (index % width).checked_add_signed(x_offset) {
        Some(x) if x < width => x,
        _ => return None,
    };
    let y = match (index / width).checked_add_signed(-y_offset) {
        Some(y) if y < height => y,
        _ => return None,
    };
    // Safe way of doing (y * width + x)
    match y.checked_mul(width) {
        Some(f) => f.checked_add(x),
        None => {
            assert(y * width + x > usize::MAX) by (nonlinear_arith)
                requires
                    y * width > usize::MAX,
                    x >= 0,
            ;
            None
        },
    }
}

/// The `k`th neighbour of tile `i`, where it exists.
pub open spec fn neighbour(i: int, k: int, width: int, height: int) -> Option<int> {
    index_from_offset(i, neighbour_offset_spec(k).0, neighbour_offset_spec(k).1, width, height)
}

pub open spec fn is_neighbour(i: int, j: int, width: int, height: int) -> bool {
    exists|k: int| 0 <= k < 8 && #[trigger] neighbour(i, k, width, height) == Some(j)
}

/// How many of the first `k` neighbours of tile `i` hold a bomb.
pub open spec fn bombs_among_first(bombs: Seq<usize>, i: int, k: int, width: int, height: int) -> nat
    decreases k,
{
    if k <= 0 {
        0
    } else {
        bombs_among_first(bombs, i, k - 1, width, height) + match neighbour(
            i,
            k - 1,
            width,
            height,
        ) {
            Some(j) => if bombs.contains(j as usize) {
                1nat
            } else {
                0nat
            },
            None => 0nat,
        }
    }
}

/// The number shown on tile `i` once it is dug.
pub open spec fn bombs_around(bombs: Seq<usize>, i: int, width: int, height: int) -> nat {
    bombs_among_first(bombs, i, 8, width, height)
}

/// What a tile with `n` bombs around it looks like once dug.
pub open spec fn opened_tile(n: nat) -> Tile {
    if n == 0 {
        Tile::Dug
    } else {
        Tile::Numbered(n as u8)
    }
}

pub open spec fn is_opened(t: Tile) -> bool {
    t is Dug || t is Numbered
}

/// A tile that has not been dug (it may have a flag on it).
pub open spec fn is_closed(t: Tile) -> bool {
    t is Unopened || t is Flag
}

pub open spec fn closed_count(s: Seq<Tile>) -> nat
    decreases s.len(),
{
    if s.len() == 0 {
        0
    } else {
        closed_count(s.drop_last()) + if is_closed(s.last()) {
            1nat
        } else {
            0nat
        }
    }
}

pub open spec fn flag_count(s: Seq<Tile>) -> nat
    decreases s.len(),
{
    if s.len() == 0 {
        0
    } else {
        flag_count(s.drop_last()) + if s.last() == Tile::Flag {
            1nat
        } else {
            0nat
        }
    }
}

pub proof fn lemma_closed_count_update(s: Seq<Tile>, i: int, t: Tile)
    requires
        0 <= i < s.len(),
    ensures
        closed_count(s.update(i, t)) + (if is_closed(s[i]) {
            1int
        } else {
            0int
        }) == closed_count(s) + (if is_closed(t) {
            1int
        } else {
            0int
        }),
    decreases s.len(),
{
    if i == s.len() - 1 {
        assert(s.update(i, t).drop_last() =~= s.drop_last());
    } else {
        assert(s.update(i, t).drop_last() =~= s.drop_last().update(i, t));
        lemma_closed_count_update(s.drop_last(), i, t);
    }
}

pub proof fn lemma_flag_count_update(s: Seq<Tile>, i: int, t: Tile)
    requires
        0 <= i < s.len(),
    ensures
        flag_count(s.update(i, t)) + (if s[i] == Tile::Flag {
            1int
        } else {
            0int
        }) == flag_count(s) + (if t == Tile::Flag {
            1int
        } else {
            0int
        }),
    decreases s.len(),
{
    if i == s.len() - 1 {
        assert(s.update(i, t).drop_last() =~= s.drop_last());
    } else {
        assert(s.update(i, t).drop_last() =~= s.drop_last().update(i, t));
        lemma_flag_count_update(s.drop_last(), i, t);
    }
}

pub proof fn lemma_counts_bounded(s: Seq<Tile>)
    ensures
        closed_count(s) <= s.len(),
        flag_count(s) <= closed_count(s),
    decreases s.len(),
{
    if s.len() > 0 {
        lemma_counts_bounded(s.drop_last());
    }
}

/// Whether the game has been won on this board: every tile still closed
/// hides a bomb.
pub open spec fn all_safe_tiles_opened(board: Seq<Tile>, bombs: Seq<usize>) -> bool {
    forall|i: int| 0 <= i < board.len() && is_closed(#[trigger] board[i]) ==> bombs.contains(i as usize)
}

/// A chain of tiles that a dig at `start` opens one after the other: each
/// link was unopened, and every link but the last has no bomb around it (so
/// digging it also digs its neighbours), the next link being one of them.
pub open spec fn is_reveal_path(
    board: Seq<Tile>,
    bombs: Seq<usize>,
    width: int,
    height: int,
    start: int,
    p: Seq<int>,
) -> bool {
    &&& p.len() > 0
    &&& p[0] == start
    &&& forall|j: int|
        0 <= j < p.len() ==> 0 <= #[trigger] p[j] < board.len() && board[p[j]] == Tile::Unopened
    &&& forall|j: int|
        0 <= j < p.len() - 1 ==> bombs_around(bombs, #[trigger] p[j], width, height) == 0
            && is_neighbour(p[j], p[j + 1], width, height)
}

/// Whether digging at `start` opens tile `i`.
pub open spec fn revealed(
    board: Seq<Tile>,
    bombs: Seq<usize>,
    width: int,
    height: int,
    start: int,
    i: int,
) -> bool {
    exists|p: Seq<int>|
        #[trigger] is_reveal_path(board, bombs, width, height, start, p) && p.last() == i
}

/// The board after digging at `start` (which is not a bomb): every tile that
/// the dig reaches shows its number, the rest stay as they were.
pub open spec fn board_after_dig(
    board: Seq<Tile>,
    bombs: Seq<usize>,
    width: int,
    height: int,
    start: int,
) -> Seq<Tile> {
    Seq::new(
        board.len(),
        |i: int|
            if revealed(board, bombs, width, height, start, i) {
                opened_tile(bombs_around(bombs, i, width, height))
            } else {
                board[i]
            },
    )
}

/// Every neighbour of `i` that was unopened on `before` is opened on `after`.
pub open spec fn spreads_from(
    before: Seq<Tile>,
    after: Seq<Tile>,
    width: int,
    height: int,
    i: int,
) -> bool {
    forall|k: int|
        0 <= k < 8 ==> match #[trigger] neighbour(i, k, width, height) {
            Some(u) => before[u] == Tile::Unopened ==> after[u] != before[u],
            None => true,
        }
}

pub proof fn lemma_neighbour_in_board(i: int, k: int, width: int, height: int)
    requires
        width > 0,
        height > 0,
        neighbour(i, k, width, height) is Some,
    ensures
        0 <= neighbour(i, k, width, height)->0 < width * height,
{
    let x = i % width + neighbour_offset_spec(k).0;
    let y = i / width - neighbour_offset_spec(k).1;
    assert(0 <= y * width + x < width * height) by (nonlinear_arith)
        requires
            0 <= x < width,
            0 <= y < height,
    ;
}

/// A tile with no bomb around it has no bomb among its neighbours.
pub proof fn lemma_no_bomb_next_to_zero(bombs: Seq<usize>, i: int, m: int, k: int, width: int, height: int)
    requires
        bombs_among_first(bombs, i, m, width, height) == 0,
        0 <= k < m,
        neighbour(i, k, width, height) is Some,
    ensures
        !bombs.contains(neighbour(i, k, width, height)->0 as usize),
    decreases m,
{
    if k < m - 1 {
        lemma_no_bomb_next_to_zero(bombs, i, m - 1, k, width, height);
    }
}

pub proof fn lemma_bombs_among_first_bounded(bombs: Seq<usize>, i: int, m: int, width: int, height: int)
    requires
        0 <= m,
    ensures
        bombs_among_first(bombs, i, m, width, height) <= m,
    decreases m,
{
    if m > 0 {
        lemma_bombs_among_first_bounded(bombs, i, m - 1, width, height);
    }
}

/// A tile that a dig reaches never hides a bomb, when the dug tile does not.
pub proof fn lemma_revealed_not_bomb(
    board: Seq<Tile>,
    bombs: Seq<usize>,
    width: int,
    height: int,
    start: int,
    i: int,
)
    requires
        revealed(board, bombs, width, height, start, i),
        !bombs.contains(start as usize),
    ensures
        !bombs.contains(i as usize),
{
    let p = choose|p: Seq<int>|
        #[trigger] is_reveal_path(board, bombs, width, height, start, p) && p.last() == i;
    if p.len() > 1 {
        let t = p[p.len() - 2];
        assert(bombs_around(bombs, t, width, height) == 0 && is_neighbour(t, p[p.len() - 1], width, height));
        let k = choose|k: int| 0 <= k < 8 && #[trigger] neighbour(t, k, width, height) == Some(i);
        lemma_no_bomb_next_to_zero(bombs, t, 8, k, width, height);
    }
}

/// When every opened tile with no bomb around it spreads to its neighbours,
/// every tile along a reveal path has been opened.
proof fn lemma_path_opened(
    before: Seq<Tile>,
    after: Seq<Tile>,
    bombs: Seq<usize>,
    width: int,
    height: int,
    start: int,
    p: Seq<int>,
    j: int,
)
    requires
        is_reveal_path(before, bombs, width, height, start, p),
        0 <= j < p.len(),
        before.len() == after.len(),
        after[start] != before[start],
        forall|i: int|
            0 <= i < before.len() && after[i] != before[i] && bombs_around(bombs, i, width, height)
                == 0 ==> #[trigger] spreads_from(before, after, width, height, i),
    ensures
        after[p[j]] != before[p[j]],
    decreases j,
{
    if j > 0 {
        lemma_path_opened(before, after, bombs, width, height, start, p, j - 1);
        let t = p[j - 1];
        assert(bombs_around(bombs, t, width, height) == 0 && is_neighbour(t, p[j], width, height));
        assert(spreads_from(before, after, width, height, t));
        let k = choose|k: int| 0 <= k < 8 && #[trigger] neighbour(t, k, width, height) == Some(p[j]);
        assert(neighbour(t, k, width, height) == Some(p[j]));
    }
}

proof fn lemma_spreads_monotone(
    before: Seq<Tile>,
    mid: Seq<Tile>,
    after: Seq<Tile>,
    width: int,
    height: int,
    i: int,
)
    requires
        spreads_from(before, mid, width, height, i),
        width > 0,
        height > 0,
        before.len() == width * height,
        forall|v: int| 0 <= v < before.len() && mid[v] != before[v] ==> after[v] != before[v],
    ensures
        spreads_from(before, after, width, height, i),
{
    assert forall|k: int| 0 <= k < 8 implies match #[trigger] neighbour(i, k, width, height) {
        Some(u) => before[u] == Tile::Unopened ==> after[u] != before[u],
        None => true,
    } by {
        if neighbour(i, k, width, height) is Some {
            lemma_neighbour_in_board(i, k, width, height);
        }
    }
}

/// Every tile opened so far was unopened, shows its number, and is reached
/// by a reveal path (kept in `paths`).
#[verifier::opaque]
pub open spec fn opened_soundly(
    before: Seq<Tile>,
    after: Seq<Tile>,
    bombs: Seq<usize>,
    width: int,
    height: int,
    start: int,
    paths: Map<int, Seq<int>>,
) -> bool {
    forall|i: int|
        0 <= i < before.len() && #[trigger] after[i] != before[i] ==> {
            &&& before[i] == Tile::Unopened
            &&& after[i] == opened_tile(bombs_around(bombs, i, width, height))
            &&& paths.dom().contains(i)
            &&& is_reveal_path(before, bombs, width, height, start, paths[i])
            &&& paths[i].last() == i
        }
}

/// The tiles still to spread from: opened, with no bomb around them.
#[verifier::opaque]
pub open spec fn pending_ok(
    before: Seq<Tile>,
    after: Seq<Tile>,
    bombs: Seq<usize>,
    width: int,
    height: int,
    stack: Seq<usize>,
) -> bool {
    forall|j: int|
        0 <= j < stack.len() ==> {
            &&& 0 <= #[trigger] stack[j] < before.len()
            &&& after[stack[j] as int] != before[stack[j] as int]
            &&& bombs_around(bombs, stack[j] as int, width, height) == 0
        }
}

/// Every opened tile with no bomb around it, except those still pending and
/// `skip`, has spread to its neighbours.
#[verifier::opaque]
pub open spec fn spread_done(
    before: Seq<Tile>,
    after: Seq<Tile>,
    bombs: Seq<usize>,
    width: int,
    height: int,
    stack: Seq<usize>,
    skip: int,
) -> bool {
    forall|i: int|
        0 <= i < before.len() && i != skip && after[i] != before[i] && bombs_around(
            bombs,
            i,
            width,
            height,
        ) == 0 && !stack.contains(i as usize) ==> #[trigger] spreads_from(
            before,
            after,
            width,
            height,
            i,
        )
}

pub open spec fn flood_inv(
    before: Seq<Tile>,
    after: Seq<Tile>,
    bombs: Seq<usize>,
    width: int,
    height: int,
    start: int,
    paths: Map<int, Seq<int>>,
    stack: Seq<usize>,
    skip: int,
) -> bool {
    &&& width > 0
    &&& height > 0
    &&& before.len() == width * height
    &&& before.len() <= usize::MAX
    &&& after.len() == before.len()
    &&& 0 <= start < before.len()
    &&& after[start] != before[start]
    &&& opened_soundly(before, after, bombs, width, height, start, paths)
    &&& pending_ok(before, after, bombs, width, height, stack)
    &&& spread_done(before, after, bombs, width, height, stack, skip)
    &&& (skip != -1 ==> 0 <= skip < before.len() && after[skip] != before[skip] && bombs_around(
        bombs,
        skip,
        width,
        height,
    ) == 0)
}

/// The first `k` neighbours of `t` that were unopened are opened.
pub open spec fn spreads_within(before: Seq<Tile>, after: Seq<Tile>, width: int, height: int, t: int, k: int) -> bool {
    forall|kk: int|
        0 <= kk < k ==> match #[trigger] neighbour(t, kk, width, height) {
            Some(u) => before[u] == Tile::Unopened ==> after[u] != before[u],
            None => true,
        }
}

proof fn lemma_flood_init(
    b0: Seq<Tile>,
    bombs: Seq<usize>,
    width: int,
    height: int,
    start: int,
    c: nat,
    stack: Seq<usize>,
)
    requires
        width > 0,
        height > 0,
        b0.len() == width * height,
        b0.len() <= usize::MAX,
        0 <= start < b0.len(),
        b0[start] == Tile::Unopened,
        c == bombs_around(bombs, start, width, height),
        stack == (if c == 0 {
            seq![start as usize]
        } else {
            Seq::<usize>::empty()
        }),
    ensures
        flood_inv(
            b0,
            b0.update(start, opened_tile(c)),
            bombs,
            width,
            height,
            start,
            Map::empty().insert(start, seq![start]),
            stack,
            -1,
        ),
{
    reveal(opened_soundly);
    reveal(pending_ok);
    reveal(spread_done);
    let b = b0.update(start, opened_tile(c));
    let paths = Map::<int, Seq<int>>::empty().insert(start, seq![start]);
    assert(b[start] != b0[start]);
    assert(is_reveal_path(b0, bombs, width, height, start, seq![start]));
    assert(opened_soundly(b0, b, bombs, width, height, start, paths)) by {
        assert forall|i: int| 0 <= i < b0.len() && #[trigger] b[i] != b0[i] implies {
            &&& b0[i] == Tile::Unopened
            &&& b[i] == opened_tile(bombs_around(bombs, i, width, height))
            &&& paths.dom().contains(i)
            &&& is_reveal_path(b0, bombs, width, height, start, paths[i])
            &&& paths[i].last() == i
        } by {
            if i != start {
                assert(b[i] == b0[i]);
            }
        }
    }
    assert(pending_ok(b0, b, bombs, width, height, stack)) by {
        if c == 0 {
            assert(stack[0] as int == start);
        }
    }
    assert(spread_done(b0, b, bombs, width, height, stack, -1)) by {
        assert forall|i: int|
            0 <= i < b0.len() && i != -1 && b[i] != b0[i] && bombs_around(bombs, i, width, height)
                == 0 && !stack.contains(i as usize) implies #[trigger] spreads_from(
                b0,
                b,
                width,
                height,
                i,
            ) by {
            if i == start {
                assert(stack[0] == start as usize);
            } else {
                assert(b[i] == b0[i]);
            }
        }
    }
}

proof fn lemma_flood_pop(
    b0: Seq<Tile>,
    b: Seq<Tile>,
    bombs: Seq<usize>,
    width: int,
    height: int,
    start: int,
    paths: Map<int, Seq<int>>,
    stack: Seq<usize>,
    t: usize,
)
    requires
        flood_inv(b0, b, bombs, width, height, start, paths, stack.push(t), -1),
    ensures
        flood_inv(b0, b, bombs, width, height, start, paths, stack, t as int),
        0 <= t < b0.len(),
{
    reveal(pending_ok);
    reveal(spread_done);
    let before = stack.push(t);
    assert(before[stack.len() as int] == t);
    assert(pending_ok(b0, b, bombs, width, height, before));
    assert(pending_ok(b0, b, bombs, width, height, stack)) by {
        assert forall|j: int| 0 <= j < stack.len() implies {
            &&& 0 <= #[trigger] stack[j] < b0.len()
            &&& b[stack[j] as int] != b0[stack[j] as int]
            &&& bombs_around(bombs, stack[j] as int, width, height) == 0
        } by {
            assert(before[j] == stack[j]);
        }
    }
    assert(spread_done(b0, b, bombs, width, height, before, -1));
    assert(spread_done(b0, b, bombs, width, height, stack, t as int)) by {
        assert forall|i: int|
            0 <= i < b0.len() && i != t && b[i] != b0[i] && bombs_around(bombs, i, width, height)
                == 0 && !stack.contains(i as usize) implies #[trigger] spreads_from(
                b0,
                b,
                width,
                height,
                i,
            ) by {
            assert(!before.contains(i as usize)) by {
                if before.contains(i as usize) {
                    let j = choose|j: int| 0 <= j < before.len() && before[j] == i as usize;
                    if j < stack.len() {
                        assert(stack[j] == before[j]);
                    }
                }
            }
        }
    }
}

proof fn lemma_spreads_within_step(
    before: Seq<Tile>,
    after: Seq<Tile>,
    bombs: Seq<usize>,
    width: int,
    height: int,
    start: int,
    paths: Map<int, Seq<int>>,
    t: int,
    k: int,
)
    requires
        opened_soundly(before, after, bombs, width, height, start, paths),
        spreads_within(before, after, width, height, t, k),
        width > 0,
        height > 0,
        before.len() == width * height,
        after.len() == before.len(),
        match neighbour(t, k, width, height) {
            Some(u) => after[u] != Tile::Unopened,
            None => true,
        },
    ensures
        spreads_within(before, after, width, height, t, k + 1),
{
    reveal(opened_soundly);
    if neighbour(t, k, width, height) is Some {
        lemma_neighbour_in_board(t, k, width, height);
        let u = neighbour(t, k, width, height)->0;
        if before[u] == Tile::Unopened {
            assert(after[u] != before[u]);
        }
    }
    assert forall|kk: int| 0 <= kk < k + 1 implies match #[trigger] neighbour(t, kk, width, height) {
        Some(u) => before[u] == Tile::Unopened ==> after[u] != before[u],
        None => true,
    } by {
        if kk < k {
            assert(spreads_within(before, after, width, height, t, k));
        }
    }
}

proof fn lemma_flood_open(
    b0: Seq<Tile>,
    b: Seq<Tile>,
    bombs: Seq<usize>,
    width: int,
    height: int,
    start: int,
    paths: Map<int, Seq<int>>,
    stack: Seq<usize>,
    t: int,
    k: int,
    u: int,
    stack2: Seq<usize>,
)
    requires
        flood_inv(b0, b, bombs, width, height, start, paths, stack, t),
        spreads_within(b0, b, width, height, t, k),
        0 <= k < 8,
        0 <= t,
        neighbour(t, k, width, height) == Some(u),
        b[u] == Tile::Unopened,
        stack2 == (if bombs_around(bombs, u, width, height) == 0 {
            stack.push(u as usize)
        } else {
            stack
        }),
    ensures
        flood_inv(
            b0,
            b.update(u, opened_tile(bombs_around(bombs, u, width, height))),
            bombs,
            width,
            height,
            start,
            paths.insert(u, paths[t].push(u)),
            stack2,
            t,
        ),
        spreads_within(
            b0,
            b.update(u, opened_tile(bombs_around(bombs, u, width, height))),
            width,
            height,
            t,
            k + 1,
        ),
{
    reveal(opened_soundly);
    reveal(pending_ok);
    reveal(spread_done);
    lemma_neighbour_in_board(t, k, width, height);
    let c = bombs_around(bombs, u, width, height);
    let b2 = b.update(u, opened_tile(c));
    let pt = paths[t];
    let pu = pt.push(u);
    let paths2 = paths.insert(u, pu);
    // `u` was unopened from the start: had it been opened, it would show a number.
    assert(b[t] != b0[t]);
    assert(b0[u] == Tile::Unopened) by {
        if b[u] != b0[u] {
            assert(b[u] == opened_tile(bombs_around(bombs, u, width, height)));
        }
    }
    assert(is_neighbour(t, u, width, height)) by {
        assert(neighbour(t, k, width, height) == Some(u));
    }
    assert(is_reveal_path(b0, bombs, width, height, start, pt));
    assert forall|j: int| 0 <= j < pu.len() implies 0 <= #[trigger] pu[j] < b0.len() && b0[pu[j]]
        == Tile::Unopened by {
        if j < pt.len() {
            assert(pu[j] == pt[j]);
        }
    }
    assert forall|j: int| 0 <= j < pu.len() - 1 implies bombs_around(bombs, #[trigger] pu[j], width, height)
        == 0 && is_neighbour(pu[j], pu[j + 1], width, height) by {
        assert(pu[j] == pt[j]);
        if j < pt.len() - 1 {
            assert(pu[j + 1] == pt[j + 1]);
        } else {
            assert(pt[j] == t);
        }
    }
    assert(is_reveal_path(b0, bombs, width, height, start, pu));
    assert forall|i: int| 0 <= i < b0.len() && #[trigger] b2[i] != b0[i] implies {
        &&& b0[i] == Tile::Unopened
        &&& b2[i] == opened_tile(bombs_around(bombs, i, width, height))
        &&& paths2.dom().contains(i)
        &&& is_reveal_path(b0, bombs, width, height, start, paths2[i])
        &&& paths2[i].last() == i
    } by {
        if i != u {
            assert(b[i] != b0[i]);
        }
    }
    assert forall|j: int| 0 <= j < stack2.len() implies {
        &&& 0 <= #[trigger] stack2[j] < b0.len()
        &&& b2[stack2[j] as int] != b0[stack2[j] as int]
        &&& bombs_around(bombs, stack2[j] as int, width, height) == 0
    } by {
        if j < stack.len() {
            assert(stack2[j] == stack[j]);
            if stack[j] as int != u {
                assert(b[stack[j] as int] != b0[stack[j] as int]);
            }
        }
    }
    assert forall|i: int|
        0 <= i < b0.len() && i != t && b2[i] != b0[i] && bombs_around(bombs, i, width, height) == 0
            && !stack2.contains(i as usize) implies #[trigger] spreads_from(b0, b2, width, height, i) by {
        if i == u {
            assert(stack2[stack.len() as int] == u as usize);
        } else {
            assert(b[i] != b0[i]);
            if stack.contains(i as usize) {
                let j = choose|j: int| 0 <= j < stack.len() && stack[j] == i as usize;
                if c == 0 {
                    assert(stack2[j] == stack[j]);
                }
            }
            assert(spreads_from(b0, b, width, height, i));
            assert forall|v: int| 0 <= v < b0.len() && b[v] != b0[v] implies b2[v] != b0[v] by {
                if v == u {
                    assert(b[u] == b0[u]);
                }
            }
            lemma_spreads_monotone(b0, b, b2, width, height, i);
        }
    }
    assert forall|kk: int| 0 <= kk < k + 1 implies match #[trigger] neighbour(t, kk, width, height) {
        Some(v) => b0[v] == Tile::Unopened ==> b2[v] != b0[v],
        None => true,
    } by {
        if kk < k {
            assert(spreads_within(b0, b, width, height, t, k));
            if neighbour(t, kk, width, height) is Some {
                lemma_neighbour_in_board(t, kk, width, height);
                let v = neighbour(t, kk, width, height)->0;
                if b0[v] == Tile::Unopened && v != u {
                    assert(b[v] != b0[v]);
                }
            }
        }
    }
}

proof fn lemma_flood_done_with(
    b0: Seq<Tile>,
    b: Seq<Tile>,
    bombs: Seq<usize>,
    width: int,
    height: int,
    start: int,
    paths: Map<int, Seq<int>>,
    stack: Seq<usize>,
    t: int,
)
    requires
        flood_inv(b0, b, bombs, width, height, start, paths, stack, t),
        spreads_within(b0, b, width, height, t, 8),
    ensures
        flood_inv(b0, b, bombs, width, height, start, paths, stack, -1),
{
    reveal(spread_done);
    assert(spreads_from(b0, b, width, height, t)) by {
        assert forall|k: int| 0 <= k < 8 implies match #[trigger] neighbour(t, k, width, height) {
            Some(u) => b0[u] == Tile::Unopened ==> b[u] != b0[u],
            None => true,
        } by {
            assert(spreads_within(b0, b, width, height, t, 8));
        }
    }
}

proof fn lemma_flood_complete(
    b0: Seq<Tile>,
    b: Seq<Tile>,
    bombs: Seq<usize>,
    width: int,
    height: int,
    start: int,
    paths: Map<int, Seq<int>>,
)
    requires
        flood_inv(b0, b, bombs, width, height, start, paths, Seq::<usize>::empty(), -1),
    ensures
        b == board_after_dig(b0, bombs, width, height, start),
{
    reveal(opened_soundly);
    reveal(spread_done);
    let n = b0.len() as int;
    assert forall|i: int|
        0 <= i < n && b[i] != b0[i] && bombs_around(bombs, i, width, height) == 0 implies
        #[trigger] spreads_from(b0, b, width, height, i) by {
        assert(!Seq::<usize>::empty().contains(i as usize));
    }
    let target = board_after_dig(b0, bombs, width, height, start);
    assert forall|i: int| 0 <= i < n implies b[i] == target[i] by {
        if revealed(b0, bombs, width, height, start, i) {
            let p = choose|p: Seq<int>|
                #[trigger] is_reveal_path(b0, bombs, width, height, start, p) && p.last() == i;
            lemma_path_opened(b0, b, bombs, width, height, start, p, p.len() - 1);
        } else {
            if b[i] != b0[i] {
                assert(is_reveal_path(b0, bombs, width, height, start, paths[i]));
            }
        }
    }
    assert(b =~= target);
}

/// The tile that the first dig is made on and its neighbours: no bomb is
/// placed there.
pub open spec fn in_safe_zone(safe: int, i: int, width: int, height: int) -> bool {
    i == safe || is_neighbour(safe, i, width, height)
}

/// The tiles below `k`, in order, on which the first dig (at `safe`) may
/// place a bomb.
pub open spec fn bomb_candidates_below(width: int, height: int, safe: int, k: int) -> Seq<usize>
    decreases k,
{
    if k <= 0 {
        Seq::empty()
    } else if in_safe_zone(safe, k - 1, width, height) {
        bomb_candidates_below(width, height, safe, k - 1)
    } else {
        bomb_candidates_below(width, height, safe, k - 1).push((k - 1) as usize)
    }
}

pub proof fn lemma_candidates_below(width: int, height: int, safe: int, k: int)
    requires
        0 <= k <= usize::MAX + 1,
    ensures
        forall|j: int|
            0 <= j < bomb_candidates_below(width, height, safe, k).len() ==> {
                &&& #[trigger] bomb_candidates_below(width, height, safe, k)[j] < k
                &&& !in_safe_zone(safe, bomb_candidates_below(width, height, safe, k)[j] as int, width, height)
            },
        forall|a: int, b: int|
            0 <= a < b < bomb_candidates_below(width, height, safe, k).len() ==> #[trigger] bomb_candidates_below(
                width,
                height,
                safe,
                k,
            )[a] < #[trigger] bomb_candidates_below(width, height, safe, k)[b],
        bomb_candidates_below(width, height, safe, k).no_duplicates(),
    decreases k,
{
    if k > 0 {
        lemma_candidates_below(width, height, safe, k - 1);
    }
    let c = bomb_candidates_below(width, height, safe, k);
    assert forall|a: int, b: int| 0 <= a < c.len() && 0 <= b < c.len() && a != b implies c[a] != c[b] by {
        if a < b {
            assert(c[a] < c[b]);
        } else {
            assert(c[b] < c[a]);
        }
    }
}

/// An order of bomb positions that the first dig at `safe` can take its
/// bombs from (the first `bomb_count` of them).
pub open spec fn fits_first_dig(arranged: Seq<usize>, width: int, height: int, safe: int, bomb_count: int) -> bool {
    &&& bomb_count <= arranged.len()
    &&& arranged.no_duplicates()
    &&& forall|j: int|
        0 <= j < arranged.len() ==> #[trigger] arranged[j] < width * height && !in_safe_zone(
            safe,
            arranged[j] as int,
            width,
            height,
        )
}

pub open spec fn frozen(t: Timer) -> Timer {
    if t == Timer::Timing {
        Timer::Frozen
    } else {
        t
    }
}

impl GameView {
    /// What a dig at `index` that was allowed does, once the bombs are
    /// `placed`: the turn is counted, the clock starts on the first dig, and
    /// either a bomb is hit and the game lost, or the dig opens the tiles it
    /// reaches and the game is won when only bombs stay closed.
    pub open spec fn dug(self, next: GameView, index: int, placed: Seq<usize>) -> bool {
        let started = if self.turns == 0 {
            Timer::Timing
        } else {
            self.timer
        };
        &&& next.width == self.width
        &&& next.height == self.height
        &&& next.bomb_count == self.bomb_count
        &&& next.bombs == placed
        &&& next.turns == self.turns + 1
        &&& if placed.contains(index as usize) {
            &&& next.board == self.board
            &&& next.state == GameState::Lose
            &&& next.timer == frozen(started)
        } else {
            &&& next.board == board_after_dig(
                self.board,
                placed,
                self.width as int,
                self.height as int,
                index,
            )
            &&& next.state == if all_safe_tiles_opened(next.board, placed) {
                GameState::Win
            } else {
                GameState::Playing
            }
            &&& next.timer == if next.state == GameState::Win {
                frozen(started)
            } else {
                started
            }
        }
    }
}

proof fn lemma_permuted_candidates(a: Seq<usize>, b: Seq<usize>, width: int, height: int, safe: int)
    requires
        a.to_multiset() == b.to_multiset(),
        a.no_duplicates(),
        forall|j: int|
            0 <= j < a.len() ==> #[trigger] a[j] < width * height && !in_safe_zone(
                safe,
                a[j] as int,
                width,
                height,
            ),
    ensures
        b.len() == a.len(),
        b.no_duplicates(),
        forall|j: int|
            0 <= j < b.len() ==> #[trigger] b[j] < width * height && !in_safe_zone(
                safe,
                b[j] as int,
                width,
                height,
            ),
{
    broadcast use vstd::seq_lib::group_to_multiset_ensures;

    assert(a.to_multiset().len() == a.len());
    assert(b.to_multiset().len() == b.len());
    a.lemma_multiset_has_no_duplicates();
    assert forall|x: usize| b.to_multiset().contains(x) implies b.to_multiset().count(x) == 1 by {
        assert(a.to_multiset().contains(x));
    }
    b.lemma_multiset_has_no_duplicates_conv();
    assert forall|j: int| 0 <= j < b.len() implies #[trigger] b[j] < width * height && !in_safe_zone(
        safe,
        b[j] as int,
        width,
        height,
    ) by {
        assert(b.contains(b[j]));
        assert(b.to_multiset().count(b[j]) > 0);
        assert(a.contains(b[j]));
        let i = choose|i: int| 0 <= i < a.len() && a[i] == b[j];
        assert(a[i] < width * height);
    }
}

/// How many of the first `k` neighbours of tile `i` are flagged.
pub open spec fn flags_among_first(board: Seq<Tile>, i: int, k: int, width: int, height: int) -> nat
    decreases k,
{
    if k <= 0 {
        0
    } else {
        flags_among_first(board, i, k - 1, width, height) + match neighbour(i, k - 1, width, height) {
            Some(j) => if 0 <= j < board.len() && board[j] == Tile::Flag {
                1nat
            } else {
                0nat
            },
            None => 0nat,
        }
    }
}

/// The number of flags around tile `i`.
pub open spec fn flags_around(board: Seq<Tile>, i: int, width: int, height: int) -> nat {
    flags_among_first(board, i, 8, width, height)
}

impl GameView {
    /// The game after a dig at `index` on a game whose bombs are placed
    /// (any dig but the first): what `dug` describes, as a function.
    pub open spec fn after_dig(self, index: int) -> GameView {
        if !self.diggable(index) {
            self
        } else if self.bombs.contains(index as usize) {
            GameView {
                state: GameState::Lose,
                timer: frozen(self.timer),
                turns: (self.turns + 1) as usize,
                ..self
            }
        } else {
            let board = board_after_dig(
                self.board,
                self.bombs,
                self.width as int,
                self.height as int,
                index,
            );
            let won = all_safe_tiles_opened(board, self.bombs);
            GameView {
                board,
                state: if won {
                    GameState::Win
                } else {
                    GameState::Playing
                },
                timer: if won {
                    frozen(self.timer)
                } else {
                    self.timer
                },
                turns: (self.turns + 1) as usize,
                ..self
            }
        }
    }

    /// Whether a chord at `index` digs: the game is on, and the tile shows a
    /// number with exactly that many flags around it.
    pub open spec fn chordable(self, index: int) -> bool {
        &&& self.state == GameState::Playing
        &&& 0 <= index < self.board.len()
        &&& self.board[index] is Numbered
        &&& flags_around(self.board, index, self.width as int, self.height as int)
            == self.board[index]->Numbered_0
    }

    /// The game after a chord at `index` has dug its first `k` neighbours,
    /// in order (a dig that is not allowed, on a flag or once the game is
    /// over, does nothing).
    pub open spec fn chord_steps(self, index: int, k: int) -> GameView
        decreases k,
    {
        if k <= 0 {
            self
        } else {
            let g = self.chord_steps(index, k - 1);
            match neighbour(index, k - 1, self.width as int, self.height as int) {
                Some(j) => g.after_dig(j),
                None => g,
            }
        }
    }

    /// The first bomb that a chord at `index` digs among its first `k`
    /// neighbours, if it digs one.
    pub open spec fn chord_bomb(self, index: int, k: int) -> Option<usize>
        decreases k,
    {
        if k <= 0 {
            None
        } else {
            let prev = self.chord_bomb(index, k - 1);
            if prev is Some {
                prev
            } else {
                let g = self.chord_steps(index, k - 1);
                match neighbour(index, k - 1, self.width as int, self.height as int) {
                    Some(j) => if g.diggable(j) && g.bombs.contains(j as usize) {
                        Some(j as usize)
                    } else {
                        None
                    },
                    None => None,
                }
            }
        }
    }
}

/// Once the bombs are placed, what a dig does is a function of the game.
proof fn lemma_dug_is_after_dig(g: GameView, next: GameView, index: int)
    requires
        g.wf(),
        g.turns > 0,
        g.diggable(index),
        g.dug(next, index, g.bombs),
    ensures
        next == g.after_dig(index),
{
    lemma_closed_exists(g.board, index);
    assert(g.turns + 1 <= g.size());
}

proof fn lemma_closed_exists(s: Seq<Tile>, i: int)
    requires
        0 <= i < s.len(),
        is_closed(s[i]),
    ensures
        closed_count(s) >= 1,
{
    lemma_closed_count_update(s, i, Tile::Dug);
}

/// What a game looks like from outside.
pub struct GameView {
    pub width: usize,
    pub height: usize,
    pub bomb_count: usize,
    pub board: Seq<Tile>,
    pub bombs: Seq<usize>,
    pub state: GameState,
    pub timer: Timer,
    pub turns: usize,
}

pub struct Minesweeper {
    width: usize,
    height: usize,
    bomb_count: usize,
    board: Vec<Tile>,
    bombs: Vec<usize>,
    state: GameState,
    timer: Timer,
    turns: usize,
}

impl View for Minesweeper {
    type V = GameView;

    closed spec fn view(&self) -> GameView {
        GameView {
            width: self.width,
            height: self.height,
            bomb_count: self.bomb_count,
            board: self.board@,
            bombs: self.bombs@,
            state: self.state,
            timer: self.timer,
            turns: self.turns,
        }
    }
}

impl GameView {
    pub open spec fn size(self) -> int {
        self.width * self.height
    }

    /// Every tile that has been dug shows the number of bombs around it, and
    /// none hides a bomb.
    pub open spec fn opened_tiles_consistent(self) -> bool {
        forall|i: int|
            0 <= i < self.board.len() && is_opened(#[trigger] self.board[i]) ==> {
                &&& !self.bombs.contains(i as usize)
                &&& self.board[i] == opened_tile(
                    bombs_around(self.bombs, i, self.width as int, self.height as int),
                )
            }
    }

    /// The board has the size that the game's dimensions give it.
    pub open spec fn shape_ok(self) -> bool {
        &&& dimensions_valid(self.width as int, self.height as int, self.bomb_count as int)
        &&& self.board.len() == self.size()
    }

    pub open spec fn wf(self) -> bool {
        &&& self.shape_ok()
        &&& self.bombs.no_duplicates()
        &&& forall|j: int| 0 <= j < self.bombs.len() ==> #[trigger] self.bombs[j] < self.size()
        &&& self.opened_tiles_consistent()
        &&& self.turns == 0 ==> {
            &&& self.bombs.len() == 0
            &&& self.state == GameState::Playing
            &&& self.timer == Timer::Idle
            &&& forall|i: int| 0 <= i < self.board.len() ==> is_closed(#[trigger] self.board[i])
        }
        &&& self.turns > 0 ==> self.bombs.len() == self.bomb_count
        &&& self.state == GameState::Playing ==> self.turns + closed_count(self.board) <= self.size()
        &&& self.state == GameState::Win ==> all_safe_tiles_opened(self.board, self.bombs)
    }

    /// What `set_flag(erasing_flags, index)` returns, and the game after it:
    /// an unopened tile gets a flag, or (when erasing) a flag is taken off,
    /// while the game is played; anything else changes nothing.
    pub open spec fn after_set_flag(self, erasing_flags: bool, index: int) -> (bool, GameView) {
        let from = if erasing_flags {
            Tile::Flag
        } else {
            Tile::Unopened
        };
        let to = if erasing_flags {
            Tile::Unopened
        } else {
            Tile::Flag
        };
        if self.state == GameState::Playing && 0 <= index < self.board.len() && self.board[index]
            == from {
            (true, GameView { board: self.board.update(index, to), ..self })
        } else {
            (false, self)
        }
    }

    pub open spec fn diggable(self, index: int) -> bool {
        &&& self.state == GameState::Playing
        &&& 0 <= index < self.board.len()
        &&& self.board[index] == Tile::Unopened
    }
}

impl Minesweeper {
    pub fn new(difficulty: Difficulty) -> (r: Minesweeper)
        ensures
            r@.wf(),
            r@.width as int == difficulty.spec_values().0,
            r@.height as int == difficulty.spec_values().1,
            r@.bomb_count as int == difficulty.spec_values().2,
            r@.board == Seq::new(r@.size() as nat, |i: int| Tile::Unopened),
            r@.bombs.len() == 0,
            r@.state == GameState::Playing,
            r@.timer == Timer::Idle,
            r@.turns == 0,
    {
        let values = difficulty.values();
        let width = values.width();
        let height = values.height();
        let bomb_count = values.bomb_count();
        assert(width * height <= 200 * 100) by (nonlinear_arith)
            requires
                width <= 200,
                height <= 100,
        ;
        let size = width * height;
        let mut board: Vec<Tile> = Vec::new();
        let mut i: usize = 0;
        while i < size
            invariant
                i <= size,
                board@ == Seq::new(i as nat, |j: int| Tile::Unopened),
            decreases size - i,
        {
            board.push(Tile::Unopened);
            i = i + 1;
        }
        let r = Minesweeper {
            width,
            height,
            bomb_count,
            board,
            // The bombs are only placed on the first dig, so that the 3*3
            // area around it is safe.
            bombs: Vec::new(),
            state: GameState::Playing,
            timer: Timer::Idle,
            turns: 0,
        };
        proof {
            lemma_all_closed_count(r.board@);
        }
        r
    }

    pub fn width(&self) -> (r: usize)
        ensures
            r == self@.width,
    {
        self.width
    }

    pub fn height(&self) -> (r: usize)
        ensures
            r == self@.height,
    {
        self.height
    }

    pub fn bomb_count(&self) -> (r: usize)
        ensures
            r == self@.bomb_count,
    {
        self.bomb_count
    }

    pub fn board(&self) -> (r: &Vec<Tile>)
        ensures
            r@ == self@.board,
    {
        &self.board
    }

    pub fn bombs(&self) -> (r: &Vec<usize>)
        ensures
            r@ == self@.bombs,
    {
        &self.bombs
    }

    pub fn state(&self) -> (r: GameState)
        ensures
            r == self@.state,
    {
        self.state
    }

    pub fn timer(&self) -> (r: &Timer)
        ensures
            *r == self@.timer,
    {
        &self.timer
    }

    pub fn turns(&self) -> (r: usize)
        ensures
            r == self@.turns,
    {
        self.turns
    }

    /// How many flags the player needs to have flagged all the bombs.
    pub fn flags_left(&self) -> (r: usize)
        ensures
            r == if flag_count(self@.board) <= self@.bomb_count {
                self@.bomb_count - flag_count(self@.board)
            } else {
                0
            },
    {
        let mut flags_count: usize = 0;
        let mut i: usize = 0;
        while i < self.board.len()
            invariant
                i <= self.board@.len(),
                flags_count == flag_count(self.board@.subrange(0, i as int)),
            decreases self.board@.len() - i,
        {
            proof {
                assert(self.board@.subrange(0, i + 1).drop_last() =~= self.board@.subrange(
                    0,
                    i as int,
                ));
                lemma_counts_bounded(self.board@.subrange(0, i as int));
            }
            if self.board[i] == Tile::Flag {
                flags_count = flags_count + 1;
            }
            i = i + 1;
        }
        proof {
            assert(self.board@.subrange(0, i as int) =~= self.board@);
        }
        self.bomb_count.saturating_sub(flags_count)
    }

    pub fn diggable(&self, index: usize) -> (r: bool)
        ensures
            r == self@.diggable(index as int),
    {
        self.state == GameState::Playing && index < self.board.len() && self.board[index]
            == Tile::Unopened
    }

    /// Flags (or, when `erasing_flags`, unflags) a tile; returns whether
    /// something happened.
    pub fn set_flag(&mut self, erasing_flags: bool, index: usize) -> (r: bool)
        requires
            old(self)@.wf(),
        ensures
            final(self)@.wf(),
            (r, final(self)@) == old(self)@.after_set_flag(erasing_flags, index as int),
    {
        if self.state != GameState::Playing {
            return false;
        }
        if index >= self.board.len() {
            return false;
        }
        let tile = self.board[index];
        let new_tile = if tile == Tile::Unopened && !erasing_flags {
            Tile::Flag
        } else if tile == Tile::Flag && erasing_flags {
            Tile::Unopened
        } else {
            return false;
        };
        proof {
            lemma_closed_count_update(self.board@, index as int, new_tile);
        }
        self.board.set(index, new_tile);
        true
    }
    /// The tiles on which the first dig, at `safe_index`, may place a bomb:
    /// every tile but `safe_index` and its neighbours, in order.
    pub fn bomb_candidates(&self, safe_index: usize) -> (r: Vec<usize>)
        requires
            self@.shape_ok(),
        ensures
            r@ == bomb_candidates_below(
                self@.width as int,
                self@.height as int,
                safe_index as int,
                self@.size(),
            ),
    {
        let ghost w = self.width as int;
        let ghost h = self.height as int;
        let mut safe_positions: Vec<usize> = Vec::new();
        for k in 0..NEIGHBOUR_COUNT
            invariant
                self@.shape_ok(),
                w == self@.width,
                h == self@.height,
                forall|x: usize|
                    safe_positions@.contains(x) <==> exists|kk: int|
                        0 <= kk < k && #[trigger] neighbour(safe_index as int, kk, w, h) == Some(
                            x as int,
                        ),
        {
            let (x, y) = neighbour_offset(k);
            let next = get_index_from_offset(safe_index, x, y, self.width, self.height);
            let ghost before = safe_positions@;
            if let Some(i) = next {
                safe_positions.push(i);
            }
            proof {
                assert forall|x: usize|
                    safe_positions@.contains(x) <==> exists|kk: int|
                        0 <= kk < k + 1 && #[trigger] neighbour(safe_index as int, kk, w, h) == Some(
                            x as int,
                        ) by {
                    if safe_positions@.contains(x) {
                        if !before.contains(x) {
                            let j = choose|j: int| 0 <= j < safe_positions@.len() && safe_positions@[j] == x;
                            if j < before.len() {
                                assert(before[j] == safe_positions@[j]);
                            }
                            assert(neighbour(safe_index as int, k as int, w, h) == Some(x as int));
                        }
                    }
                    if exists|kk: int|
                        0 <= kk < k + 1 && #[trigger] neighbour(safe_index as int, kk, w, h) == Some(
                            x as int,
                        ) {
                        let kk = choose|kk: int|
                            0 <= kk < k + 1 && #[trigger] neighbour(safe_index as int, kk, w, h) == Some(
                                x as int,
                            );
                        if kk == k {
                            assert(safe_positions@[safe_positions@.len() - 1] == x);
                        } else {
                            assert(before.contains(x));
                            let j = choose|j: int| 0 <= j < before.len() && before[j] == x;
                            assert(safe_positions@[j] == x);
                        }
                    }
                }
            }
        }
        let ghost before_safe = safe_positions@;
        safe_positions.push(safe_index);
        proof {
            assert forall|x: usize|
                safe_positions@.contains(x) <==> in_safe_zone(safe_index as int, x as int, w, h) by {
                if safe_positions@.contains(x) && x != safe_index {
                    let j = choose|j: int| 0 <= j < safe_positions@.len() && safe_positions@[j] == x;
                    assert(before_safe[j] == x);
                    assert(before_safe.contains(x));
                }
                if x == safe_index {
                    assert(safe_positions@[safe_positions@.len() - 1] == x);
                } else if is_neighbour(safe_index as int, x as int, w, h) {
                    let kk = choose|kk: int| 0 <= kk < 8 && #[trigger] neighbour(safe_index as int, kk, w, h) == Some(x as int);
                    assert(before_safe.contains(x));
                    let j = choose|j: int| 0 <= j < before_safe.len() && before_safe[j] == x;
                    assert(safe_positions@[j] == x);
                }
            }
        }
        let size = self.board.len();
        let mut candidates: Vec<usize> = Vec::new();
        for i in 0..size
            invariant
                self@.shape_ok(),
                w == self@.width,
                h == self@.height,
                size == self@.size(),
                forall|x: usize|
                    safe_positions@.contains(x) <==> in_safe_zone(safe_index as int, x as int, w, h),
                candidates@ == bomb_candidates_below(w, h, safe_index as int, i as int),
        {
            if !vec_contains(&safe_positions, i) {
                candidates.push(i);
            }
        }
        candidates
    }

    /// Places the bombs for the game: the first `bomb_count` positions of
    /// `arranged`.
    fn populate_board(&mut self, arranged: &Vec<usize>)
        requires
            old(self)@.bomb_count <= arranged@.len(),
        ensures
            final(self)@ == (GameView {
                bombs: arranged@.subrange(0, old(self)@.bomb_count as int),
                ..old(self)@
            }),
    {
        let mut bombs: Vec<usize> = Vec::new();
        let mut i: usize = 0;
        while i < self.bomb_count
            invariant
                i <= self.bomb_count <= arranged@.len(),
                bombs@ == arranged@.subrange(0, i as int),
            decreases self.bomb_count - i,
        {
            bombs.push(arranged[i]);
            i = i + 1;
        }
        self.bombs = bombs;
    }

    /// Whether every tile that is still closed hides a bomb.
    fn all_safe_opened(&self) -> (r: bool)
        ensures
            r == all_safe_tiles_opened(self@.board, self@.bombs),
    {
        let mut i: usize = 0;
        while i < self.board.len()
            invariant
                i <= self.board@.len(),
                forall|j: int| 0 <= j < i && is_closed(#[trigger] self.board@[j]) ==> self.bombs@.contains(j as usize),
            decreases self.board@.len() - i,
        {
            let tile = self.board[i];
            if (tile == Tile::Flag || tile == Tile::Unopened) && !vec_contains(&self.bombs, i) {
                assert(is_closed(self.board@[i as int]));
                return false;
            }
            i = i + 1;
        }
        true
    }

    /// Digs at a position, taking the bombs, on the first dig, from the start
    /// of `arranged` (which is ignored on later digs); returns whether
    /// something happened.
    pub fn dig_arranged(&mut self, index: usize, arranged: Vec<usize>) -> (r: bool)
        requires
            old(self)@.wf(),
            old(self)@.turns == 0 && old(self)@.diggable(index as int) ==> fits_first_dig(
                arranged@,
                old(self)@.width as int,
                old(self)@.height as int,
                index as int,
                old(self)@.bomb_count as int,
            ),
        ensures
            final(self)@.wf(),
            r == old(self)@.diggable(index as int),
            !r ==> final(self)@ == old(self)@,
            r ==> old(self)@.dug(
                final(self)@,
                index as int,
                if old(self)@.turns == 0 {
                    arranged@.subrange(0, old(self)@.bomb_count as int)
                } else {
                    old(self)@.bombs
                },
            ),
    {
        if !self.diggable(index) {
            return false;
        }
        let ghost old_view = self@;
        let ghost w = self.width as int;
        let ghost h = self.height as int;
        proof {
            lemma_closed_exists(self.board@, index as int);
            assert(old_view.size() <= 200 * 100) by (nonlinear_arith)
                requires
                    old_view.width <= 200,
                    old_view.height <= 100,
            ;
        }
        if self.turns == 0 {
            self.populate_board(&arranged);
            self.timer.start();
            proof {
                let placed = arranged@.subrange(0, old_view.bomb_count as int);
                assert(placed.no_duplicates()) by {
                    assert forall|a: int, b: int| 0 <= a < placed.len() && 0 <= b < placed.len() && a != b implies placed[a] != placed[b] by {
                        assert(placed[a] == arranged@[a] && placed[b] == arranged@[b]);
                    }
                }
                assert forall|j: int| 0 <= j < placed.len() implies #[trigger] placed[j] < old_view.size() by {
                    assert(placed[j] == arranged@[j]);
                }
            }
        }
        self.turns = self.turns + 1;
        let ghost placed = self.bombs@;
        proof {
            assert(placed.contains(index) ==> old_view.turns > 0) by {
                if old_view.turns == 0 && placed.contains(index) {
                    let j = choose|j: int| 0 <= j < placed.len() && placed[j] == index;
                    assert(arranged@[j] == index);
                }
            }
        }
        // We dug a bomb! lose the game
        if vec_contains(&self.bombs, index) {
            self.state = GameState::Lose;
            self.timer.freeze();
            return true;
        }
        self.reveal_from(index);
        proof {
            let b0 = old_view.board;
            let b1 = self.board@;
            assert forall|i: int| 0 <= i < b1.len() && is_opened(#[trigger] b1[i]) implies {
                &&& !placed.contains(i as usize)
                &&& b1[i] == opened_tile(bombs_around(placed, i, w, h))
            } by {
                if revealed(b0, placed, w, h, index as int, i) {
                    lemma_revealed_not_bomb(b0, placed, w, h, index as int, i);
                } else {
                    assert(b1[i] == b0[i]);
                    if old_view.turns == 0 {
                        assert(is_closed(b0[i]));
                    }
                }
            }
        }
        let game_won = self.all_safe_opened();
        if game_won {
            self.state = GameState::Win;
            self.timer.freeze();
        }
        true
    }

    /// Digs at a position; returns whether something happened. The bombs are
    /// placed on the first dig, in random places that are neither the dug
    /// tile nor its neighbours.
    pub fn dig(&mut self, index: usize) -> (r: bool)
        requires
            old(self)@.wf(),
            old(self)@.turns == 0 && old(self)@.diggable(index as int) ==> old(self)@.bomb_count
                <= bomb_candidates_below(
                old(self)@.width as int,
                old(self)@.height as int,
                index as int,
                old(self)@.size(),
            ).len(),
        ensures
            final(self)@.wf(),
            r == old(self)@.diggable(index as int),
            !r ==> final(self)@ == old(self)@,
            r ==> old(self)@.dug(final(self)@, index as int, final(self)@.bombs),
            r && old(self)@.turns > 0 ==> final(self)@.bombs == old(self)@.bombs,
            r && old(self)@.turns == 0 ==> fits_first_dig(
                final(self)@.bombs,
                old(self)@.width as int,
                old(self)@.height as int,
                index as int,
                old(self)@.bomb_count as int,
            ),
    {
        if !self.diggable(index) {
            return false;
        }
        let mut arranged: Vec<usize> = Vec::new();
        if self.turns == 0 {
            arranged = self.bomb_candidates(index);
            let ghost candidates = arranged@;
            shuffle_positions(&mut arranged);
            proof {
                assert(self@.size() <= 200 * 100) by (nonlinear_arith)
                    requires
                        self@.width <= 200,
                        self@.height <= 100,
                ;
                lemma_candidates_below(self.width as int, self.height as int, index as int, self@.size());
                lemma_permuted_candidates(candidates, arranged@, self.width as int, self.height as int, index as int);
            }
        }
        let ghost arranged_view = arranged@;
        let ghost old_view = self@;
        let r = self.dig_arranged(index, arranged);
        proof {
            if r && old_view.turns == 0 {
                let placed = arranged_view.subrange(0, old_view.bomb_count as int);
                assert forall|j: int| 0 <= j < placed.len() implies #[trigger] placed[j] < old_view.size()
                    && !in_safe_zone(index as int, placed[j] as int, old_view.width as int, old_view.height as int) by {
                    assert(placed[j] == arranged_view[j]);
                }
            }
        }
        r
    }

    /// The number of bombs around tile `index`.
    fn neighbouring_bombs(&self, index: usize) -> (r: u8)
        requires
            self@.width > 0,
        ensures
            r as nat == bombs_around(self@.bombs, index as int, self@.width as int, self@.height as int),
    {
        let mut count: u8 = 0;
        for k in 0..NEIGHBOUR_COUNT
            invariant
                self@.width > 0,
                count as nat == bombs_among_first(
                    self@.bombs,
                    index as int,
                    k as int,
                    self@.width as int,
                    self@.height as int,
                ),
        {
            proof {
                lemma_bombs_among_first_bounded(
                    self@.bombs,
                    index as int,
                    k as int,
                    self@.width as int,
                    self@.height as int,
                );
            }
            let (x, y) = neighbour_offset(k);
            if let Some(j) = get_index_from_offset(index, x, y, self.width, self.height) {
                if vec_contains(&self.bombs, j) {
                    count = count + 1;
                }
            }
        }
        count
    }

    /// The number of flags around tile `index`.
    fn neighbouring_flags(&self, index: usize) -> (r: u8)
        requires
            self@.width > 0,
        ensures
            r as nat == flags_around(self@.board, index as int, self@.width as int, self@.height as int),
    {
        let mut count: u8 = 0;
        for k in 0..NEIGHBOUR_COUNT
            invariant
                self@.width > 0,
                count as nat == flags_among_first(
                    self@.board,
                    index as int,
                    k as int,
                    self@.width as int,
                    self@.height as int,
                ),
                count <= k,
        {
            let (x, y) = neighbour_offset(k);
            if let Some(j) = get_index_from_offset(index, x, y, self.width, self.height) {
                if j < self.board.len() && self.board[j] == Tile::Flag {
                    count = count + 1;
                }
            }
        }
        count
    }

    /// Chords at `index`: when the tile shows a number and exactly that many
    /// of its neighbours are flagged, every other unopened neighbour is dug.
    /// Returns the first bomb so dug, if any.
    pub fn chord(&mut self, index: usize) -> (r: Option<usize>)
        requires
            old(self)@.wf(),
        ensures
            final(self)@.wf(),
            !old(self)@.chordable(index as int) ==> final(self)@ == old(self)@ && r is None,
            old(self)@.chordable(index as int) ==> final(self)@ == old(self)@.chord_steps(index as int, 8)
                && r == old(self)@.chord_bomb(index as int, 8),
    {
        if self.state != GameState::Playing || index >= self.board.len() {
            return None;
        }
        let number = match self.board[index] {
            Tile::Numbered(n) => n,
            _ => {
                return None;
            },
        };
        if self.neighbouring_flags(index) != number {
            return None;
        }
        let ghost start = self@;
        proof {
            // The tile is opened, so the first dig has been made.
            assert(!is_closed(start.board[index as int]));
        }
        let mut bomb: Option<usize> = None;
        for k in 0..NEIGHBOUR_COUNT
            invariant
                start.wf(),
                start.turns > 0,
                self@.wf(),
                self@.turns > 0,
                self@ == start.chord_steps(index as int, k as int),
                bomb == start.chord_bomb(index as int, k as int),
                self@.width == start.width,
                self@.height == start.height,
        {
            let (x, y) = neighbour_offset(k);
            if let Some(j) = get_index_from_offset(index, x, y, self.width, self.height) {
                let ghost before = self@;
                let hit = self.diggable(j) && vec_contains(&self.bombs, j);
                let dug = self.dig_arranged(j, Vec::new());
                proof {
                    if dug {
                        lemma_dug_is_after_dig(before, self@, j as int);
                    }
                }
                if hit && bomb.is_none() {
                    bomb = Some(j);
                }
            }
        }
        bomb
    }

    /// Opens every tile that digging at `start` reaches: the dug tile, and,
    /// spreading from each opened tile with no bomb around it, its unopened
    /// neighbours.
    fn reveal_from(&mut self, start: usize)
        requires
            old(self)@.shape_ok(),
            old(self)@.diggable(start as int),
            !old(self)@.bombs.contains(start),
        ensures
            final(self)@ == (GameView {
                board: board_after_dig(
                    old(self)@.board,
                    old(self)@.bombs,
                    old(self)@.width as int,
                    old(self)@.height as int,
                    start as int,
                ),
                ..old(self)@
            }),
            closed_count(final(self)@.board) < closed_count(old(self)@.board),
    {
        let ghost b0 = self.board@;
        let ghost bombs = self.bombs@;
        let ghost w = self.width as int;
        let ghost h = self.height as int;
        let ghost v0 = self@;
        let c0 = self.neighbouring_bombs(start);
        proof {
            lemma_closed_count_update(self.board@, start as int, tile_for_spec(c0));
        }
        self.board.set(start, tile_for(c0));
        let mut stack: Vec<usize> = Vec::new();
        if c0 == 0 {
            stack.push(start);
        }
        let ghost mut paths: Map<int, Seq<int>> = Map::empty().insert(start as int, seq![start as int]);
        proof {
            assert(w * h <= 200 * 100) by (nonlinear_arith)
                requires
                    0 <= w <= 200,
                    0 <= h <= 100,
            ;
            lemma_flood_init(b0, bombs, w, h, start as int, c0 as nat, stack@);
        }
        while stack.len() > 0
            invariant
                self@ == (GameView { board: self.board@, ..v0 }),
                v0.shape_ok(),
                b0 == v0.board,
                bombs == v0.bombs,
                w == v0.width,
                h == v0.height,
                self.board@.len() == b0.len(),
                flood_inv(b0, self.board@, bombs, w, h, start as int, paths, stack@, -1),
                closed_count(self.board@) < closed_count(b0),
            decreases closed_count(self.board@) * 2 + stack@.len(),
        {
            let ghost stack_before = stack@;
            let t = stack.pop().unwrap();
            proof {
                assert(stack_before == stack@.push(t));
                lemma_flood_pop(b0, self.board@, bombs, w, h, start as int, paths, stack@, t);
            }
            let ghost measure_at_pop = closed_count(self.board@) * 2 + stack@.len();
            for k in 0..NEIGHBOUR_COUNT
                invariant
                    self@ == (GameView { board: self.board@, ..v0 }),
                    v0.shape_ok(),
                    b0 == v0.board,
                    bombs == v0.bombs,
                    w == v0.width,
                    h == v0.height,
                    0 <= t < b0.len(),
                    self.board@.len() == b0.len(),
                    flood_inv(b0, self.board@, bombs, w, h, start as int, paths, stack@, t as int),
                    spreads_within(b0, self.board@, w, h, t as int, k as int),
                    closed_count(self.board@) < closed_count(b0),
                    closed_count(self.board@) * 2 + stack@.len() <= measure_at_pop,
            {
                let (dx, dy) = neighbour_offset(k);
                let next = get_index_from_offset(t, dx, dy, self.width, self.height);
                match next {
                    Some(u) => {
                        proof {
                            lemma_neighbour_in_board(t as int, k as int, w, h);
                        }
                        if self.board[u] == Tile::Unopened {
                            let c = self.neighbouring_bombs(u);
                            let ghost board_before = self.board@;
                            let ghost stack_before_push = stack@;
                            let ghost paths_before = paths;
                            proof {
                                lemma_closed_count_update(self.board@, u as int, tile_for_spec(c));
                                paths = paths.insert(u as int, paths[t as int].push(u as int));
                            }
                            self.board.set(u, tile_for(c));
                            if c == 0 {
                                stack.push(u);
                            }
                            proof {
                                lemma_flood_open(
                                    b0,
                                    board_before,
                                    bombs,
                                    w,
                                    h,
                                    start as int,
                                    paths_before,
                                    stack_before_push,
                                    t as int,
                                    k as int,
                                    u as int,
                                    stack@,
                                );
                            }
                        } else {
                            proof {
                                lemma_spreads_within_step(b0, self.board@, bombs, w, h, start as int, paths, t as int, k as int);
                            }
                        }
                    },
                    None => {
                        proof {
                            lemma_spreads_within_step(b0, self.board@, bombs, w, h, start as int, paths, t as int, k as int);
                        }
                    },
                }
            }
            proof {
                lemma_flood_done_with(b0, self.board@, bombs, w, h, start as int, paths, stack@, t as int);
            }
        }
        proof {
            assert(stack@ =~= Seq::<usize>::empty());
            lemma_flood_complete(b0, self.board@, bombs, w, h, start as int, paths);
        }
    }
}

pub open spec fn tile_for_spec(count: u8) -> Tile {
    if count == 0 {
        Tile::Dug
    } else {
        Tile::Numbered(count)
    }
}

fn tile_for(count: u8) -> (r: Tile)
    ensures
        r == tile_for_spec(count),
        r == opened_tile(count as nat),
{
    if count != 0 {
        Tile::Numbered(count)
    } else {
        Tile::Dug
    }
}

/// macroquad's `ChooseRandom::shuffle` (quad-rand's Fisher-Yates shuffle on
/// the global generator). It only swaps elements, so what comes out is a
/// reordering of what went in; which order depends on the generator's state,
/// and nothing more is said of it.
#[verifier::external_body]
fn shuffle_positions(positions: &mut Vec<usize>)
    ensures
        final(positions)@.to_multiset() == old(positions)@.to_multiset(),
{
    positions.shuffle();
}

fn vec_contains(v: &Vec<usize>, x: usize) -> (r: bool)
    ensures
        r == v@.contains(x),
{
    let mut i: usize = 0;
    while i < v.len()
        invariant
            i <= v@.len(),
            forall|j: int| 0 <= j < i ==> v@[j] != x,
        decreases v@.len() - i,
    {
        if v[i] == x {
            assert(v@[i as int] == x);
            return true;
        }
        i = i + 1;
    }
    false
}

proof fn lemma_all_closed_count(s: Seq<Tile>)
    requires
        forall|i: int| 0 <= i < s.len() ==> is_closed(#[trigger] s[i]),
    ensures
        closed_count(s) == s.len(),
    decreases s.len(),
{
    if s.len() > 0 {
        lemma_all_closed_count(s.drop_last());
    }
}

} // verus!

verus! {

/// Laws of the game.
///
/// The first dig is always safe: the bombs are placed around it, so it never
/// loses, and the dug tile, having no bomb next to it, opens as an empty
/// tile.
pub proof fn law_first_dig_is_safe(before: GameView, after: GameView, index: int)
    requires
        before.wf(),
        before.turns == 0,
        before.diggable(index),
        before.dug(after, index, after.bombs),
        fits_first_dig(
            after.bombs,
            before.width as int,
            before.height as int,
            index,
            before.bomb_count as int,
        ),
    ensures
        after.state != GameState::Lose,
        !after.bombs.contains(index as usize),
        bombs_around(after.bombs, index, before.width as int, before.height as int) == 0,
        after.board[index] == Tile::Dug,
{
    let w = before.width as int;
    let h = before.height as int;
    let bombs = after.bombs;
    assert(before.size() <= 200 * 100) by (nonlinear_arith)
        requires
            before.width <= 200,
            before.height <= 100,
    ;
    if bombs.contains(index as usize) {
        let j = choose|j: int| 0 <= j < bombs.len() && bombs[j] == index as usize;
        assert(!in_safe_zone(index, bombs[j] as int, w, h));
    }
    lemma_no_bombs_next_to_first_dig(bombs, index, 8, w, h);
    assert(is_reveal_path(before.board, bombs, w, h, index, seq![index]));
    assert(revealed(before.board, bombs, w, h, index, index));
}

proof fn lemma_no_bombs_next_to_first_dig(bombs: Seq<usize>, index: int, m: int, width: int, height: int)
    requires
        0 <= m <= 8,
        forall|j: int|
            0 <= j < bombs.len() ==> !in_safe_zone(index, #[trigger] bombs[j] as int, width, height),
    ensures
        bombs_among_first(bombs, index, m, width, height) == 0,
    decreases m,
{
    if m > 0 {
        lemma_no_bombs_next_to_first_dig(bombs, index, m - 1, width, height);
        if let Some(u) = neighbour(index, m - 1, width, height) {
            if bombs.contains(u as usize) {
                let j = choose|j: int| 0 <= j < bombs.len() && bombs[j] == u as usize;
                assert(index_from_offset(index, neighbour_offset_spec(m - 1).0, neighbour_offset_spec(m - 1).1, width, height) == Some(u));
                assert(u >= 0);
                assert(is_neighbour(index, bombs[j] as int, width, height)) by {
                    assert(neighbour(index, m - 1, width, height) == Some(bombs[j] as int));
                }
            }
        }
    }
}

/// Flagging an unopened tile and then erasing that flag gives back the same
/// game.
pub proof fn law_flag_then_erase_restores(game: GameView, index: int)
    requires
        game.after_set_flag(false, index).0,
    ensures
        game.after_set_flag(false, index).1.after_set_flag(true, index) == (true, game),
{
    let flagged = game.after_set_flag(false, index).1;
    assert(flagged.board.update(index, Tile::Unopened) =~= game.board);
}

/// In a won game the tiles still closed are exactly the bombs: every safe
/// tile has been opened, and no bomb has.
pub proof fn law_won_game_leaves_only_bombs_closed(game: GameView, i: int)
    requires
        game.wf(),
        game.state == GameState::Win,
        0 <= i < game.board.len(),
    ensures
        is_closed(game.board[i]) <==> game.bombs.contains(i as usize),
{
}

/// Once a game is won or lost, nothing can be dug or flagged any more.
pub proof fn law_finished_game_stays(game: GameView, erasing_flags: bool, index: int)
    requires
        game.state != GameState::Playing,
    ensures
        !game.diggable(index),
        game.after_set_flag(erasing_flags, index) == (false, game),
{
}

/// A dig only ever opens unopened tiles: flags, and tiles opened earlier,
/// stay as they were.
pub proof fn law_dig_only_opens_unopened_tiles(
    board: Seq<Tile>,
    bombs: Seq<usize>,
    width: int,
    height: int,
    start: int,
    i: int,
)
    requires
        0 <= i < board.len(),
        board[i] != Tile::Unopened,
    ensures
        board_after_dig(board, bombs, width, height, start)[i] == board[i],
{
    if revealed(board, bombs, width, height, start, i) {
        let p = choose|p: Seq<int>|
            #[trigger] is_reveal_path(board, bombs, width, height, start, p) && p.last() == i;
        assert(board[p[p.len() - 1]] == Tile::Unopened);
    }
}

/// The flood fill: when a dig opens a tile with no bomb around it, it also
/// opens every unopened neighbour of that tile.
pub proof fn law_dig_spreads_from_empty_tiles(
    board: Seq<Tile>,
    bombs: Seq<usize>,
    width: int,
    height: int,
    start: int,
    t: int,
    k: int,
)
    requires
        width > 0,
        height > 0,
        board.len() == width * height,
        revealed(board, bombs, width, height, start, t),
        bombs_around(bombs, t, width, height) == 0,
        0 <= k < 8,
        neighbour(t, k, width, height) is Some,
        board[neighbour(t, k, width, height)->0] == Tile::Unopened,
    ensures
        revealed(board, bombs, width, height, start, neighbour(t, k, width, height)->0),
        board_after_dig(board, bombs, width, height, start)[neighbour(t, k, width, height)->0]
            == opened_tile(bombs_around(bombs, neighbour(t, k, width, height)->0, width, height)),
{
    let u = neighbour(t, k, width, height)->0;
    lemma_neighbour_in_board(t, k, width, height);
    let p = choose|p: Seq<int>|
        #[trigger] is_reveal_path(board, bombs, width, height, start, p) && p.last() == t;
    let q = p.push(u);
    assert(is_neighbour(t, u, width, height)) by {
        assert(neighbour(t, k, width, height) == Some(u));
    }
    assert forall|j: int| 0 <= j < q.len() implies 0 <= #[trigger] q[j] < board.len() && board[q[j]]
        == Tile::Unopened by {
        if j < p.len() {
            assert(q[j] == p[j]);
        }
    }
    assert forall|j: int| 0 <= j < q.len() - 1 implies bombs_around(bombs, #[trigger] q[j], width, height)
        == 0 && is_neighbour(q[j], q[j + 1], width, height) by {
        assert(q[j] == p[j]);
        if j < p.len() - 1 {
            assert(q[j + 1] == p[j + 1]);
        }
    }
    assert(is_reveal_path(board, bombs, width, height, start, q));
}

/// Making a custom difficulty from the values of a custom difficulty gives
/// the same values back.
pub proof fn law_custom_values_are_stable(width: int, height: int, bomb_count: int)
    ensures
        ({
            let v = clamped_values(width, height, bomb_count);
            clamped_values(v.0, v.1, v.2)
        }) == clamped_values(width, height, bomb_count),
{
    let v = clamped_values(width, height, bomb_count);
    assert(MIN_WIDTH <= v.0 <= MAX_WIDTH && MIN_HEIGHT <= v.1 <= MAX_HEIGHT);
    assert(0 <= (v.0 - 1) * (v.1 - 1)) by (nonlinear_arith)
        requires
            v.0 >= 1,
            v.1 >= 1,
    ;
}

/// A chord's digs keep the game's size and bombs.
pub proof fn lemma_chord_steps_keep_shape(game: GameView, index: int, k: int)
    requires
        0 <= k <= 8,
    ensures
        game.chord_steps(index, k).board.len() == game.board.len(),
        game.chord_steps(index, k).bombs == game.bombs,
        game.chord_steps(index, k).width == game.width,
        game.chord_steps(index, k).height == game.height,
    decreases k,
{
    if k > 0 {
        lemma_chord_steps_keep_shape(game, index, k - 1);
    }
}

/// The bomb a chord digs is a tile of the board, and a chord that loses
/// the game has dug one.
pub proof fn lemma_chord_bomb(game: GameView, index: int, k: int)
    requires
        0 <= k <= 8,
        game.width > 0,
        game.height > 0,
        game.state == GameState::Playing,
    ensures
        game.chord_bomb(index, k) is Some ==> game.chord_bomb(index, k)->0 < game.width * game.height,
        game.chord_steps(index, k).state == GameState::Lose ==> game.chord_bomb(index, k) is Some,
    decreases k,
{
    if k > 0 {
        lemma_chord_bomb(game, index, k - 1);
        if let Some(j) = neighbour(index, k - 1, game.width as int, game.height as int) {
            lemma_neighbour_in_board(index, k - 1, game.width as int, game.height as int);
        }
    }
}

/// A chord only ever digs unopened tiles: flags, and tiles opened earlier,
/// stay as they were, as do the game's size and bombs.
pub proof fn law_chord_only_opens_unopened_tiles(game: GameView, index: int, k: int, i: int)
    requires
        0 <= k <= 8,
        0 <= i < game.board.len(),
        game.board[i] != Tile::Unopened,
    ensures
        game.chord_steps(index, k).board.len() == game.board.len(),
        game.chord_steps(index, k).board[i] == game.board[i],
        game.chord_steps(index, k).bombs == game.bombs,
        game.chord_steps(index, k).width == game.width,
        game.chord_steps(index, k).height == game.height,
    decreases k,
{
    if k > 0 {
        law_chord_only_opens_unopened_tiles(game, index, k - 1, i);
        let g = game.chord_steps(index, k - 1);
        if let Some(j) = neighbour(index, k - 1, game.width as int, game.height as int) {
            if g.diggable(j) && !g.bombs.contains(j as usize) {
                law_dig_only_opens_unopened_tiles(g.board, g.bombs, g.width as int, g.height as int, j, i);
            }
        }
    }
}

/// Among the first `m` neighbours of `i`, when every flag is on a bomb,
/// there are no more flags than bombs, and as many only when every bomb is
/// flagged.
proof fn lemma_flags_match_bombs(board: Seq<Tile>, bombs: Seq<usize>, i: int, m: int, width: int, height: int)
    requires
        0 <= m <= 8,
        forall|k: int|
            0 <= k < 8 && #[trigger] neighbour(i, k, width, height) is Some && 0 <= neighbour(
                i,
                k,
                width,
                height,
            )->0 < board.len() && board[neighbour(i, k, width, height)->0] == Tile::Flag ==> bombs.contains(
                neighbour(i, k, width, height)->0 as usize,
            ),
    ensures
        flags_among_first(board, i, m, width, height) <= bombs_among_first(bombs, i, m, width, height),
        flags_among_first(board, i, m, width, height) == bombs_among_first(bombs, i, m, width, height)
            ==> forall|k: int|
            0 <= k < m && #[trigger] neighbour(i, k, width, height) is Some && bombs.contains(
                neighbour(i, k, width, height)->0 as usize,
            ) ==> 0 <= neighbour(i, k, width, height)->0 < board.len() && board[neighbour(
                i,
                k,
                width,
                height,
            )->0] == Tile::Flag,
    decreases m,
{
    if m > 0 {
        lemma_flags_match_bombs(board, bombs, i, m - 1, width, height);
    }
}

/// Chording is safe when the flags are right: when every flag around a
/// chordable tile is on a bomb, the chord digs no bomb and does not lose.
pub proof fn law_chord_with_correct_flags_is_safe(game: GameView, index: int)
    requires
        game.wf(),
        game.chordable(index),
        forall|k: int|
            0 <= k < 8 && #[trigger] neighbour(index, k, game.width as int, game.height as int) is Some
                && game.board[neighbour(index, k, game.width as int, game.height as int)->0]
                == Tile::Flag ==> game.bombs.contains(
                neighbour(index, k, game.width as int, game.height as int)->0 as usize,
            ),
    ensures
        game.chord_bomb(index, 8) is None,
        game.chord_steps(index, 8).state != GameState::Lose,
{
    let w = game.width as int;
    let h = game.height as int;
    assert forall|k: int|
        0 <= k < 8 && #[trigger] neighbour(index, k, w, h) is Some && 0 <= neighbour(index, k, w, h)->0
            < game.board.len() && game.board[neighbour(index, k, w, h)->0] == Tile::Flag implies game.bombs.contains(
        neighbour(index, k, w, h)->0 as usize,
    ) by {}
    lemma_flags_match_bombs(game.board, game.bombs, index, 8, w, h);
    lemma_bombs_among_first_bounded(game.bombs, index, 8, w, h);
    assert(is_opened(game.board[index]));
    assert(flags_around(game.board, index, w, h) == bombs_around(game.bombs, index, w, h));
    lemma_chord_digs_no_bomb(game, index, 8);
}

/// The steps of a chord around a tile whose bomb neighbours are all
/// flagged dig no bomb.
proof fn lemma_chord_digs_no_bomb(game: GameView, index: int, m: int)
    requires
        0 <= m <= 8,
        game.state == GameState::Playing,
        game.board.len() == game.width * game.height,
        game.width > 0,
        forall|k: int|
            0 <= k < 8 && #[trigger] neighbour(index, k, game.width as int, game.height as int) is Some
                && game.bombs.contains(neighbour(index, k, game.width as int, game.height as int)->0 as usize)
                ==> 0 <= neighbour(index, k, game.width as int, game.height as int)->0 < game.board.len()
                && game.board[neighbour(index, k, game.width as int, game.height as int)->0] == Tile::Flag,
    ensures
        game.chord_bomb(index, m) is None,
        game.chord_steps(index, m).state != GameState::Lose,
    decreases m,
{
    if m > 0 {
        lemma_chord_digs_no_bomb(game, index, m - 1);
        let g = game.chord_steps(index, m - 1);
        if let Some(j) = neighbour(index, m - 1, game.width as int, game.height as int) {
            if g.bombs.contains(j as usize) {
                lemma_chord_steps_keep_shape(game, index, m - 1);
                assert(neighbour(index, m - 1, game.width as int, game.height as int) is Some);
                assert(game.bombs.contains(j as usize));
                assert(0 <= j < game.board.len() && game.board[j] == Tile::Flag);
                law_chord_only_opens_unopened_tiles(game, index, m - 1, j);
                assert(g.board[j] == Tile::Flag);
            }
        }
    }
}

/// A chord's digs leave an unopened tile unopened or open it; they never
/// flag it.
proof fn lemma_chord_steps_open_or_leave(game: GameView, index: int, m: int, j: int)
    requires
        0 <= m <= 8,
        0 <= j < game.board.len(),
        game.board[j] == Tile::Unopened,
    ensures
        game.chord_steps(index, m).board[j] == Tile::Unopened || is_opened(game.chord_steps(index, m).board[j]),
    decreases m,
{
    lemma_chord_steps_keep_shape(game, index, m);
    if m > 0 {
        lemma_chord_steps_open_or_leave(game, index, m - 1, j);
        lemma_chord_steps_keep_shape(game, index, m - 1);
    }
}

/// Once a chord's digs have opened a tile, the later ones leave it as it is.
proof fn lemma_chord_steps_keep_opened(game: GameView, index: int, a: int, b: int, i: int)
    requires
        0 <= a <= b <= 8,
        0 <= i < game.board.len(),
        is_opened(game.chord_steps(index, a).board[i]),
    ensures
        game.chord_steps(index, b).board[i] == game.chord_steps(index, a).board[i],
    decreases b - a,
{
    lemma_chord_steps_keep_shape(game, index, a);
    if b > a {
        lemma_chord_steps_keep_opened(game, index, a, b - 1, i);
        lemma_chord_steps_keep_shape(game, index, b - 1);
        let g = game.chord_steps(index, b - 1);
        if let Some(u) = neighbour(index, b - 1, game.width as int, game.height as int) {
            if g.diggable(u) && !g.bombs.contains(u as usize) {
                law_dig_only_opens_unopened_tiles(g.board, g.bombs, g.width as int, g.height as int, u, i);
            }
        }
    }
}

/// A chord's digs only win the game once every safe tile is open.
proof fn lemma_chord_steps_win(game: GameView, index: int, m: int)
    requires
        0 <= m <= 8,
        game.state == GameState::Playing,
    ensures
        game.chord_steps(index, m).state == GameState::Win ==> all_safe_tiles_opened(
            game.chord_steps(index, m).board,
            game.chord_steps(index, m).bombs,
        ),
    decreases m,
{
    if m > 0 {
        lemma_chord_steps_win(game, index, m - 1);
    }
}

/// Chording opens the neighbours: when every flag around a chordable tile is
/// on a bomb, each of its neighbours that was unopened is opened by the
/// chord.
pub proof fn law_chord_opens_the_neighbours(game: GameView, index: int, k: int)
    requires
        game.wf(),
        game.chordable(index),
        forall|kk: int|
            0 <= kk < 8 && #[trigger] neighbour(index, kk, game.width as int, game.height as int) is Some
                && game.board[neighbour(index, kk, game.width as int, game.height as int)->0]
                == Tile::Flag ==> game.bombs.contains(
                neighbour(index, kk, game.width as int, game.height as int)->0 as usize,
            ),
        0 <= k < 8,
        neighbour(index, k, game.width as int, game.height as int) is Some,
        game.board[neighbour(index, k, game.width as int, game.height as int)->0] == Tile::Unopened,
    ensures
        is_opened(game.chord_steps(index, 8).board[neighbour(index, k, game.width as int, game.height as int)->0]),
{
    let w = game.width as int;
    let h = game.height as int;
    let j = neighbour(index, k, w, h)->0;
    lemma_neighbour_in_board(index, k, w, h);
    // The tile is safe: every bomb around a satisfied number is flagged.
    assert forall|kk: int|
        0 <= kk < 8 && #[trigger] neighbour(index, kk, w, h) is Some && 0 <= neighbour(index, kk, w, h)->0
            < game.board.len() && game.board[neighbour(index, kk, w, h)->0] == Tile::Flag implies game.bombs.contains(
        neighbour(index, kk, w, h)->0 as usize,
    ) by {}
    lemma_flags_match_bombs(game.board, game.bombs, index, 8, w, h);
    lemma_bombs_among_first_bounded(game.bombs, index, 8, w, h);
    assert(is_opened(game.board[index]));
    assert(flags_around(game.board, index, w, h) == bombs_around(game.bombs, index, w, h));
    assert(!game.bombs.contains(j as usize));
    lemma_chord_digs_no_bomb(game, index, k);
    lemma_chord_steps_keep_shape(game, index, k);
    lemma_chord_steps_keep_shape(game, index, k + 1);
    lemma_chord_steps_open_or_leave(game, index, k, j);
    lemma_chord_steps_win(game, index, k);
    let g = game.chord_steps(index, k);
    assert(game.chord_steps(index, k + 1) == g.after_dig(j));
    if is_opened(g.board[j]) {
        lemma_chord_steps_keep_opened(game, index, k, k + 1, j);
    } else if g.state == GameState::Playing {
        assert(is_reveal_path(g.board, g.bombs, w, h, j, seq![j]));
        assert(revealed(g.board, g.bombs, w, h, j, j));
    } else {
        assert(g.state == GameState::Win);
        assert(is_closed(g.board[j]));
    }
    lemma_chord_steps_keep_opened(game, index, k + 1, 8, j);
}

} // verus!
