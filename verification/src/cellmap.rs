//! The cells of a heat map layout, keyed by `(row, column)` in a
//! `BTreeMap`: reading a cell, adding one, and listing them in key order.

use vstd::prelude::*;
use std::collections::BTreeMap;
use vstd::std_specs::iter::IteratorSpec;
use vstd::std_specs::cmp::OrdSpec;
use crate::geometry::Rect32;

verus! {

broadcast use {vstd::std_specs::btree::group_btree_axioms, vstd::laws_cmp::group_laws_cmp};

/// `(row, column)` keys order as the map needs.
proof fn lemma_cell_keys_ordered()
    ensures
        vstd::laws_cmp::obeys_cmp::<(usize, usize)>(),
        vstd::std_specs::btree::key_obeys_cmp_spec::<(usize, usize)>(),
{
}

/// `a` comes before `b`: rows first, then columns.
pub open spec fn key_before(a: (usize, usize), b: (usize, usize)) -> bool {
    a.0 < b.0 || (a.0 == b.0 && a.1 < b.1)
}

/// The box of a cell, if the layout has the cell.
pub open spec fn cell_at(map: Map<(usize, usize), Rect32>, key: (usize, usize)) -> Option<Rect32> {
    if map.contains_key(key) {
        Some(map[key])
    } else {
        None
    }
}

/// An empty layout.
pub fn new_cell_map() -> (map: BTreeMap<(usize, usize), Rect32>)
    ensures
        map@ == Map::<(usize, usize), Rect32>::empty(),
{
    BTreeMap::new()
}

/// The box of the cell at `(row, column)`.
pub fn cell_rect(map: &BTreeMap<(usize, usize), Rect32>, row: usize, column: usize) -> (r: Option<
    Rect32,
>)
    ensures
        r == cell_at(map@, (row, column)),
{
    proof {
        lemma_cell_keys_ordered();
    }
    match map.get(&(row, column)) {
        Some(rect) => Some(*rect),
        None => None,
    }
}

/// Sets the box of a cell, replacing the one it had.
pub fn insert_cell(map: &mut BTreeMap<(usize, usize), Rect32>, key: (usize, usize), rect: Rect32)
    ensures
        final(map)@ == old(map)@.insert(key, rect),
{
    proof {
        lemma_cell_keys_ordered();
    }
    map.insert(key, rect);
}

/// The number of cells.
pub fn cell_count(map: &BTreeMap<(usize, usize), Rect32>) -> (n: usize)
    ensures
        n == map@.dom().len(),
{
    map.len()
}

/// The entries are in strictly ascending key order.
pub open spec fn ascending(cells: Seq<((usize, usize), Rect32)>) -> bool {
    forall|i: int, j: int|
        0 <= i < j < cells.len() ==> key_before(#[trigger] cells[i].0, #[trigger] cells[j].0)
}

/// The entries are exactly the cells of the map.
pub open spec fn lists_map(cells: Seq<((usize, usize), Rect32)>, map: Map<(usize, usize), Rect32>) -> bool {
    &&& forall|i: int| 0 <= i < cells.len() ==> map.contains_key(#[trigger] cells[i].0) && map[cells[i].0]
        == cells[i].1
    &&& forall|k: (usize, usize)| #[trigger] map.contains_key(k) ==> exists|i: int|
        0 <= i < cells.len() && #[trigger] cells[i].0 == k
}

/// The cells with their boxes, in ascending key order.
pub fn cells_in_order(map: &BTreeMap<(usize, usize), Rect32>) -> (cells: Vec<((usize, usize), Rect32)>)
    ensures
        ascending(cells@),
        lists_map(cells@, map@),
        cells@.len() == map@.dom().len(),
{
    proof {
        lemma_cell_keys_ordered();
    }
    let ghost items = vstd::std_specs::btree::spec_btree_map_iter(map).remaining();
    let mut cells: Vec<((usize, usize), Rect32)> = Vec::new();
    for kv in it: map.iter()
        invariant
            it.seq() == items,
            items == vstd::std_specs::btree::spec_btree_map_iter(map).remaining(),
            vstd::std_specs::btree::increasing_seq(
                items.map_values(|kv: (&(usize, usize), &Rect32)| *kv.0),
            ),
            cells@.len() == it.index(),
            forall|i: int| 0 <= i < cells@.len() ==> cells@[i] == (*items[i].0, *items[i].1),
    {
        let (k, v) = kv;
        cells.push((*k, *v));
    }
    let ghost keys = items.map_values(|kv: (&(usize, usize), &Rect32)| *kv.0);
    assert(cells@.len() == items.len());
    assert forall|i: int, j: int| 0 <= i < j < cells@.len() implies key_before(
        #[trigger] cells@[i].0,
        #[trigger] cells@[j].0,
    ) by {
        assert(keys[i] == cells@[i].0);
        assert(keys[j] == cells@[j].0);
        assert(keys[i].cmp_spec(&keys[j]) is Less);
    }
    assert forall|i: int| 0 <= i < cells@.len() implies map@.contains_key(#[trigger] cells@[i].0)
        && map@[cells@[i].0] == cells@[i].1 by {
        assert(map@.contains_key(*items[i].0));
    }
    assert forall|k: (usize, usize)| #[trigger] map@.contains_key(k) implies exists|i: int|
        0 <= i < cells@.len() && #[trigger] cells@[i].0 == k by {
        assert(items.contains((&k, &map@[k])));
        let i = choose|i: int| 0 <= i < items.len() && items[i] == (&k, &map@[k]);
        assert(cells@[i].0 == k);
    }
    cells
}

} // verus!
