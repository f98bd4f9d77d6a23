//! Makes the bombs go off one after the other, in a circle growing from the
//! bomb that was dug: each bomb is kept with its squared distance to that
//! bomb, nearest first, and the bombs inside the circle have gone off.
use vstd::prelude::*;
use indexmap::IndexMap;
use std::cmp::Ordering;
use crate::minesweeper::Minesweeper;

verus! {

#[verifier::external_type_specification]
#[verifier::external_body]
#[verifier::reject_recursive_types(K)]
#[verifier::reject_recursive_types(V)]
#[verifier::reject_recursive_types(S)]
pub struct ExIndexMap<K, V, S>(IndexMap<K, V, S>);

/// The entries of the map, in its order: each bomb's index, with its squared
/// distance and whether it has gone off.
pub uninterp spec fn explosion_entries(m: IndexMap<usize, (u128, bool)>) -> Seq<(usize, (u128, bool))>;

/// Where `key` is in `entries`, if it is there.
pub open spec fn position_of(entries: Seq<(usize, (u128, bool))>, key: usize) -> Option<int> {
    if exists|j: int| 0 <= j < entries.len() && (#[trigger] entries[j]).0 == key {
        Some(choose|j: int| 0 <= j < entries.len() && (#[trigger] entries[j]).0 == key)
    } else {
        None
    }
}

/// `IndexMap::new`: an empty map.
#[verifier::external_body]
fn map_new() -> (m: IndexMap<usize, (u128, bool)>)
    ensures
        explosion_entries(m) == Seq::<(usize, (u128, bool))>::empty(),
{
    IndexMap::new()
}

/// `IndexMap::clear`: removes every entry.
#[verifier::external_body]
fn map_clear(m: &mut IndexMap<usize, (u128, bool)>)
    ensures
        explosion_entries(*final(m)) == Seq::<(usize, (u128, bool))>::empty(),
{
    m.clear();
}

/// `IndexMap::len`.
#[verifier::external_body]
fn map_len(m: &IndexMap<usize, (u128, bool)>) -> (r: usize)
    ensures
        r == explosion_entries(*m).len(),
{
    m.len()
}

/// `IndexMap::insert`: a key already there keeps its place and takes the new
/// value (the old one is returned); a new key goes last.
#[verifier::external_body]
fn map_insert(m: &mut IndexMap<usize, (u128, bool)>, key: usize, value: (u128, bool)) -> (r: Option<(u128, bool)>)
    ensures
        match position_of(explosion_entries(*old(m)), key) {
            Some(j) => {
                &&& explosion_entries(*final(m)) == explosion_entries(*old(m)).update(j, (key, value))
                &&& r == Some(explosion_entries(*old(m))[j].1)
            },
            None => {
                &&& explosion_entries(*final(m)) == explosion_entries(*old(m)).push((key, value))
                &&& r is None
            },
        },
{
    m.insert(key, value)
}

/// `IndexMap::contains_key`.
#[verifier::external_body]
fn map_contains_key(m: &IndexMap<usize, (u128, bool)>, key: &usize) -> (r: bool)
    ensures
        r == (position_of(explosion_entries(*m), *key) is Some),
{
    m.contains_key(key)
}

/// `IndexMap::get`: the value of `key`, copied out.
#[verifier::external_body]
fn map_get(m: &IndexMap<usize, (u128, bool)>, key: &usize) -> (r: Option<(u128, bool)>)
    ensures
        r == match position_of(explosion_entries(*m), *key) {
            Some(j) => Some(explosion_entries(*m)[j].1),
            None => None,
        },
{
    m.get(key).copied()
}

/// Indexing an `IndexMap` by position: the value of the `i`th entry.
#[verifier::external_body]
fn map_value_at(m: &IndexMap<usize, (u128, bool)>, i: usize) -> (r: (u128, bool))
    requires
        i < explosion_entries(*m).len(),
    ensures
        r == explosion_entries(*m)[i as int].1,
{
    m[i]
}

/// Indexing an `IndexMap` mutably by position: sets the value of the `i`th
/// entry.
#[verifier::external_body]
fn map_set_value_at(m: &mut IndexMap<usize, (u128, bool)>, i: usize, value: (u128, bool))
    requires
        i < explosion_entries(*old(m)).len(),
    ensures
        explosion_entries(*final(m)) == explosion_entries(*old(m)).update(
            i as int,
            (explosion_entries(*old(m))[i as int].0, value),
        ),
{
    m[i] = value;
}

/// Orders two entries' values by squared distance.
fn compare_distances(a: &(u128, bool), b: &(u128, bool)) -> (r: Ordering)
    ensures
        r == (if a.0 < b.0 {
            Ordering::Less
        } else if a.0 == b.0 {
            Ordering::Equal
        } else {
            Ordering::Greater
        }),
{
    if a.0 < b.0 {
        Ordering::Less
    } else if a.0 == b.0 {
        Ordering::Equal
    } else {
        Ordering::Greater
    }
}

/// `IndexMap::sort_unstable_by`, comparing the squared distances: the same
/// entries come out, nearest first (the order of equally far ones is left
/// open).
#[verifier::external_body]
fn map_sort_by_distance(m: &mut IndexMap<usize, (u128, bool)>)
    ensures
        explosion_entries(*final(m)).to_multiset() == explosion_entries(*old(m)).to_multiset(),
        forall|a: int, b: int|
            0 <= a < b < explosion_entries(*final(m)).len() ==> (#[trigger] explosion_entries(
                *final(m),
            )[a]).1.0 <= (#[trigger] explosion_entries(*final(m))[b]).1.0,
{
    m.sort_unstable_by(|_, a, _, b| compare_distances(a, b));
}

/// The squared distance between tiles `a` and `b` of a board `width` wide.
pub open spec fn squared_distance(a: int, b: int, width: int) -> int {
    let dx = a % width - b % width;
    let dy = a / width - b / width;
    dx * dx + dy * dy
}

/// The entries the bombs start with, before sorting: each bomb with its
/// squared distance to `start`, none gone off.
pub open spec fn bomb_entries(bombs: Seq<usize>, start: int, width: int) -> Seq<(usize, (u128, bool))> {
    Seq::new(
        bombs.len(),
        |j: int| (bombs[j], (squared_distance(start, bombs[j] as int, width) as u128, false)),
    )
}

/// What an exploder holds.
pub struct ExploderView {
    pub entries: Seq<(usize, (u128, bool))>,
    pub map_skip: usize,
}

impl ExploderView {
    /// The entries are nearest first, and the bombs that went off are the
    /// first `map_skip` of them.
    pub open spec fn wf(self) -> bool {
        &&& self.map_skip <= self.entries.len()
        &&& forall|j: int|
            0 <= j < self.entries.len() ==> ((#[trigger] self.entries[j]).1.1 <==> j < self.map_skip)
        &&& forall|a: int, b: int|
            0 <= a < b < self.entries.len() ==> (#[trigger] self.entries[a]).1.0 <= (
            #[trigger] self.entries[b]).1.0
    }

    /// How many bombs have gone off once the circle reaches squared
    /// distance `reach`: going on from the first `map_skip`, every bomb
    /// nearer than `reach`, up to the first that is not.
    pub open spec fn reached(self, reach: u128) -> int {
        first_unreached(self.entries, reach, self.map_skip as int)
    }
}

/// The first entry from `k` on that is not nearer than `reach` (or the
/// number of entries, when all are).
pub open spec fn first_unreached(entries: Seq<(usize, (u128, bool))>, reach: u128, k: int) -> int
    decreases entries.len() - k,
{
    if k >= entries.len() || entries[k].1.0 >= reach {
        k
    } else {
        first_unreached(entries, reach, k + 1)
    }
}

pub struct Exploder {
    map: IndexMap<usize, (u128, bool)>,
    map_skip: usize,
}

impl View for Exploder {
    type V = ExploderView;

    closed spec fn view(&self) -> ExploderView {
        ExploderView { entries: explosion_entries(self.map), map_skip: self.map_skip }
    }
}

impl Exploder {
    pub fn new() -> (r: Exploder)
        ensures
            r@.entries == Seq::<(usize, (u128, bool))>::empty(),
            r@.map_skip == 0,
            r@.wf(),
    {
        Exploder { map: map_new(), map_skip: 0 }
    }

    pub fn contains(&self, key: &usize) -> (r: bool)
        ensures
            r == (position_of(self@.entries, *key) is Some),
    {
        map_contains_key(&self.map, key)
    }

    /// Whether the bomb at `key` has gone off (`None` when there is none).
    pub fn index_exploded(&self, key: &usize) -> (r: Option<bool>)
        ensures
            r == match position_of(self@.entries, *key) {
                Some(j) => Some(self@.entries[j].1.1),
                None => None,
            },
    {
        match map_get(&self.map, key) {
            Some((_, e)) => Some(e),
            None => None,
        }
    }

    pub fn reset(&mut self)
        ensures
            final(self)@.entries == Seq::<(usize, (u128, bool))>::empty(),
            final(self)@.map_skip == 0,
            final(self)@.wf(),
    {
        map_clear(&mut self.map);
        self.map_skip = 0;
    }

    /// Whether every bomb has gone off.
    pub fn all_exploded(&self) -> (r: bool)
        ensures
            r == (self@.map_skip == self@.entries.len()),
    {
        self.map_skip == map_len(&self.map)
    }

    /// Gets the bombs of `game` ready to go off from the bomb at
    /// `start_index`, nearest first.
    pub fn initialise(&mut self, start_index: usize, game: &Minesweeper)
        requires
            game@.wf(),
        ensures
            final(self)@.wf(),
            final(self)@.map_skip == 0,
            final(self)@.entries.to_multiset() == bomb_entries(
                game@.bombs,
                start_index as int,
                game@.width as int,
            ).to_multiset(),
    {
        self.reset();
        let width = game.width();
        let bombs = game.bombs();
        let ghost target = bomb_entries(bombs@, start_index as int, width as int);
        proof {
            assert(game@.size() <= 200 * 100) by (nonlinear_arith)
                requires
                    game@.width <= 200,
                    game@.height <= 100,
            ;
        }
        let center_x = start_index % width;
        let center_y = start_index / width;
        let mut i: usize = 0;
        while i < bombs.len()
            invariant
                i <= bombs@.len(),
                bombs@ == game@.bombs,
                game@.wf(),
                width == game@.width,
                center_x < width,
                center_x == start_index % width,
                center_y == start_index / width,
                target == bomb_entries(bombs@, start_index as int, width as int),
                explosion_entries(self.map) == target.subrange(0, i as int),
                self.map_skip == 0,
            decreases bombs@.len() - i,
        {
            let bomb_index = bombs[i];
            let x = bomb_index % width;
            let y = bomb_index / width;
            proof {
                assert(bombs@[i as int] < game@.size());
                assert(y < game@.height) by (nonlinear_arith)
                    requires
                        bomb_index < game@.width * game@.height,
                        y == bomb_index / game@.width,
                        game@.width > 0,
                ;
            }
            let dx: u128 = if center_x > x {
                (center_x - x) as u128
            } else {
                (x - center_x) as u128
            };
            let dy: u128 = if center_y > y {
                (center_y - y) as u128
            } else {
                (y - center_y) as u128
            };
            proof {
                assert(dx * dx <= 200 * 200) by (nonlinear_arith)
                    requires
                        dx <= 200,
                ;
                assert(dy * dy <= 0xFFFF_FFFF_FFFF_FFFF * 0xFFFF_FFFF_FFFF_FFFF) by (nonlinear_arith)
                    requires
                        dy <= 0xFFFF_FFFF_FFFF_FFFF,
                ;
                assert(dx * dx + dy * dy == squared_distance(start_index as int, bomb_index as int, width as int)) by (nonlinear_arith)
                    requires
                        dx == (if center_x > x {
                            center_x - x
                        } else {
                            x - center_x
                        }),
                        dy == (if center_y > y {
                            center_y - y
                        } else {
                            y - center_y
                        }),
                        center_x == start_index % width,
                        center_y == start_index / width,
                        x == bomb_index % width,
                        y == bomb_index / width,
                ;
                // The bombs are all different, so each one goes last.
                if position_of(explosion_entries(self.map), bomb_index) is Some {
                    let j = choose|j: int|
                        0 <= j < explosion_entries(self.map).len() && (#[trigger] explosion_entries(self.map)[j]).0 == bomb_index;
                    assert(explosion_entries(self.map)[j] == target[j]);
                    assert(bombs@[j] == bombs@[i as int]);
                }
            }
            // a^2 + b^2 = c^2
            let squared_distance = dx * dx + dy * dy;
            map_insert(&mut self.map, bomb_index, (squared_distance, false));
            i = i + 1;
            proof {
                assert(explosion_entries(self.map) =~= target.subrange(0, i as int));
            }
        }
        proof {
            assert(target.subrange(0, i as int) =~= target);
        }
        // Sort the map by distance
        map_sort_by_distance(&mut self.map);
        proof {
            broadcast use vstd::seq_lib::group_to_multiset_ensures;

            let e = explosion_entries(self.map);
            assert forall|j: int| 0 <= j < e.len() implies !(#[trigger] e[j]).1.1 by {
                assert(e.contains(e[j]));
                assert(e.to_multiset().count(e[j]) > 0);
                assert(target.contains(e[j]));
            }
        }
    }

    /// Sets off the bombs that the circle has reached, `reach` being just
    /// above its squared radius: going on from the first bomb not gone off,
    /// every bomb nearer than `reach` goes off, up to the first that is not.
    /// Returns whether any bomb went off.
    pub fn explode_within(&mut self, reach: u128) -> (r: bool)
        requires
            old(self)@.wf(),
        ensures
            final(self)@.wf(),
            final(self)@.map_skip == old(self)@.reached(reach),
            old(self)@.map_skip <= final(self)@.map_skip <= final(self)@.entries.len(),
            forall|j: int|
                old(self)@.map_skip <= j < final(self)@.map_skip
                    ==> (#[trigger] final(self)@.entries[j]).1.0 < reach,
            final(self)@.map_skip < final(self)@.entries.len()
                ==> final(self)@.entries[final(self)@.map_skip as int].1.0 >= reach,
            final(self)@.entries.len() == old(self)@.entries.len(),
            forall|j: int|
                0 <= j < old(self)@.entries.len() ==> (#[trigger] final(self)@.entries[j]).0
                    == old(self)@.entries[j].0 && final(self)@.entries[j].1.0
                    == old(self)@.entries[j].1.0,
            r == (final(self)@.map_skip != old(self)@.map_skip),
    {
        let ghost old_view = self@;
        let len = map_len(&self.map);
        let prev_skip = self.map_skip;
        let mut i = self.map_skip;
        while i < len
            invariant
                old_view.wf(),
                len == old_view.entries.len(),
                prev_skip == old_view.map_skip,
                prev_skip <= i <= len,
                self.map_skip == i,
                self@.wf(),
                self@.entries.len() == len,
                forall|j: int|
                    0 <= j < len ==> (#[trigger] self@.entries[j]).0 == old_view.entries[j].0
                        && self@.entries[j].1.0 == old_view.entries[j].1.0,
                forall|j: int| prev_skip <= j < i ==> (#[trigger] old_view.entries[j]).1.0 < reach,
                first_unreached(old_view.entries, reach, i as int) == old_view.reached(reach),
            ensures
                self.map_skip == i,
                self@.wf(),
                self@.entries.len() == len,
                forall|j: int|
                    0 <= j < len ==> (#[trigger] self@.entries[j]).0 == old_view.entries[j].0
                        && self@.entries[j].1.0 == old_view.entries[j].1.0,
                forall|j: int| prev_skip <= j < i ==> (#[trigger] old_view.entries[j]).1.0 < reach,
                i == len || old_view.entries[i as int].1.0 >= reach,
                i == old_view.reached(reach),
            decreases len - i,
        {
            let (squared_distance, _) = map_value_at(&self.map, i);
            if reach > squared_distance {
                // This bomb is inside the circle: it goes off.
                map_set_value_at(&mut self.map, i, (squared_distance, true));
                self.map_skip = self.map_skip + 1;
                i = i + 1;
            } else {
                // It is outside, and so are all the ones after it.
                break;
            }
        }
        self.map_skip != prev_skip
    }
}

/// The bombs go off nearest first: when a bomb has gone off, so has every
/// bomb nearer than it.
pub proof fn law_nearer_bombs_go_off_first(e: ExploderView, a: int, b: int)
    requires
        e.wf(),
        0 <= a < e.entries.len(),
        0 <= b < e.entries.len(),
        e.entries[a].1.1,
        e.entries[b].1.0 < e.entries[a].1.0,
    ensures
        e.entries[b].1.1,
{
    if b >= a {
        if b > a {
            assert(e.entries[a].1.0 <= e.entries[b].1.0);
        }
    }
}

} // verus!
