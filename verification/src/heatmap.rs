//! The integer side of a heat map: the layout that places each matrix cell
//! in the design, read from the layout table's records, and what the
//! viewer asks of it (a cell's box, the whole grid's box, the pitch of the
//! core cells, which cell a point falls in); the view that keeps context
//! around a cell; and stepping through the peaks.

use vstd::prelude::*;
use std::collections::BTreeMap;
use crate::cellmap::{
    ascending, cell_at, cell_count, cell_rect, cells_in_order, insert_cell, key_before, lists_map,
    new_cell_map,
};
use crate::geometry::{Point32, Rect32, clamp_i64_to_i32, clamp_to_i32};
use crate::idset::{FocusTransition, PendingFocus};
use crate::text::{chars_contain, contains_seq, decimal, lower, lower_chars, push_decimal, push_str, str_chars};

verus! {

broadcast use vstd::std_specs::btree::group_btree_axioms;

// ---------------------------------------------------------------------
// Reading the layout table
// ---------------------------------------------------------------------
/// One row of the layout table: a cell of the matrix and the rectangle it
/// covers, corners `(lx, ly)` and `(ux, uy)`.
#[derive(Clone, Copy, Debug, PartialEq, Eq, Structural)]
pub struct LayoutRecord {
    pub pixel_row: usize,
    pub pixel_col: usize,
    pub lx: i32,
    pub ly: i32,
    pub ux: i32,
    pub uy: i32,
}

/// Layouts of early global routing maps, whose path names `egr` in any
/// case, list columns before rows.
pub open spec fn is_egr_path(path: Seq<char>) -> bool {
    contains_seq(lower(path), seq!['e', 'g', 'r'])
}

/// A record's rectangle has a positive width and height.
pub open spec fn record_valid(r: LayoutRecord) -> bool {
    r.ux > r.lx && r.uy > r.ly
}

/// The cell a record places: `(row, column)`, swapped for `egr` layouts.
pub open spec fn record_key(r: LayoutRecord, egr: bool) -> (usize, usize) {
    if egr {
        (r.pixel_col, r.pixel_row)
    } else {
        (r.pixel_row, r.pixel_col)
    }
}

/// The rectangle a record gives.
pub open spec fn record_rect(r: LayoutRecord) -> Rect32 {
    Rect32 { lx: r.lx, ly: r.ly, hx: r.ux, hy: r.uy }
}

/// `map layout <path> has an invalid rectangle at row R, column C`.
pub open spec fn invalid_rect_message(path: Seq<char>, r: LayoutRecord) -> Seq<char> {
    "map layout "@ + path + " has an invalid rectangle at row "@ + decimal(r.pixel_row as nat)
        + ", column "@ + decimal(r.pixel_col as nat)
}

/// `failed to read map layout <path>: <error>`.
pub open spec fn read_error_message(path: Seq<char>, err: Seq<char>) -> Seq<char> {
    "failed to read map layout "@ + path + ": "@ + err
}

/// The records read in order: each valid one sets its cell (a later one
/// for the same cell wins); the first record that could not be read, or
/// whose rectangle is empty, stops the reading with its error.
pub open spec fn layout_cells(path: Seq<char>, records: Seq<Result<LayoutRecord, String>>) -> Result<
    Map<(usize, usize), Rect32>,
    Seq<char>,
>
    decreases records.len(),
{
    if records.len() == 0 {
        Ok(Map::empty())
    } else {
        match layout_cells(path, records.drop_last()) {
            Err(e) => Err(e),
            Ok(m) => match records.last() {
                Err(e) => Err(read_error_message(path, e@)),
                Ok(rec) => if record_valid(rec) {
                    Ok(m.insert(record_key(rec, is_egr_path(path)), record_rect(rec)))
                } else {
                    Err(invalid_rect_message(path, rec))
                },
            },
        }
    }
}

/// The layout a table gives (see `layout_cells`); a table without cells
/// is refused with `map layout is empty: <path>`.
pub open spec fn read_layout(path: Seq<char>, records: Seq<Result<LayoutRecord, String>>) -> Result<
    Map<(usize, usize), Rect32>,
    Seq<char>,
> {
    match layout_cells(path, records) {
        Ok(m) => if m.dom().len() == 0 {
            Err("map layout is empty: "@ + path)
        } else {
            Ok(m)
        },
        Err(e) => Err(e),
    }
}

/// Reads a layout table's records (see `read_layout`); `path` is the
/// table's path as messages show it, and each record is what reading its
/// row gave: the record, or the reader's error.
pub fn layout_from_records(path: &str, records: Vec<Result<LayoutRecord, String>>) -> (r: Result<
    BTreeMap<(usize, usize), Rect32>,
    String,
>)
    ensures
        match r {
            Ok(m) => read_layout(path@, records@) == Ok::<Map<(usize, usize), Rect32>, Seq<char>>(m@),
            Err(e) => read_layout(path@, records@) == Err::<Map<(usize, usize), Rect32>, Seq<char>>(e@),
        },
{
    let egr_word: Vec<char> = vec!['e', 'g', 'r'];
    assert(egr_word@ == seq!['e', 'g', 'r']);
    let egr = chars_contain(&lower_chars(&str_chars(path)), &egr_word);
    let mut layout = new_cell_map();
    let n = records.len();
    for i in 0..n
        invariant
            n == records@.len(),
            egr == is_egr_path(path@),
            layout_cells(path@, records@.take(i as int)) == Ok::<Map<(usize, usize), Rect32>, Seq<char>>(
                layout@,
            ),
    {
        assert(records@.take(i + 1).drop_last() =~= records@.take(i as int));
        assert(records@.take(i + 1).last() == records@[i as int]);
        match &records[i] {
            Err(e) => {
                let mut message = String::new();
                push_str(&mut message, "failed to read map layout ");
                push_str(&mut message, path);
                push_str(&mut message, ": ");
                push_str(&mut message, e.as_str());
                proof {
                    lemma_layout_error_stays(path@, records@, i + 1);
                }
                return Err(message);
            },
            Ok(rec) => {
                if rec.ux <= rec.lx || rec.uy <= rec.ly {
                    let mut message = String::new();
                    push_str(&mut message, "map layout ");
                    push_str(&mut message, path);
                    push_str(&mut message, " has an invalid rectangle at row ");
                    push_decimal(&mut message, rec.pixel_row as u64);
                    push_str(&mut message, ", column ");
                    push_decimal(&mut message, rec.pixel_col as u64);
                    proof {
                        lemma_layout_error_stays(path@, records@, i + 1);
                    }
                    return Err(message);
                }
                let key = if egr {
                    (rec.pixel_col, rec.pixel_row)
                } else {
                    (rec.pixel_row, rec.pixel_col)
                };
                insert_cell(&mut layout, key, Rect32 { lx: rec.lx, ly: rec.ly, hx: rec.ux, hy: rec.uy });
            },
        }
    }
    assert(records@.take(n as int) =~= records@);
    if cell_count(&layout) == 0 {
        let mut message = String::new();
        push_str(&mut message, "map layout is empty: ");
        push_str(&mut message, path);
        return Err(message);
    }
    Ok(layout)
}

/// Once reading stops with an error, more records do not change it.
proof fn lemma_layout_error_stays(path: Seq<char>, records: Seq<Result<LayoutRecord, String>>, k: int)
    requires
        0 <= k <= records.len(),
        layout_cells(path, records.take(k)) is Err,
    ensures
        layout_cells(path, records) == layout_cells(path, records.take(k)),
    decreases records.len() - k,
{
    if k < records.len() {
        assert(records.take(k + 1).drop_last() =~= records.take(k));
        lemma_layout_error_stays(path, records, k + 1);
    } else {
        assert(records.take(k) =~= records);
    }
}

// ---------------------------------------------------------------------
// Context around a cell, and stepping through peaks
// ---------------------------------------------------------------------
/// Rust's `x / 2` on integers: rounding towards zero.
pub open spec fn half_towards_zero(x: int) -> int {
    if x >= 0 {
        x / 2
    } else {
        -((-x) / 2)
    }
}

/// A square around a box's centre whose half side is the box's larger
/// side (at least 1), each edge clamped to the `i32` range.
pub open spec fn focus_box(b: Rect32) -> Rect32 {
    let w = b.hx - b.lx;
    let h = b.hy - b.ly;
    let half = if w >= h && w >= 1 {
        w
    } else if h >= 1 {
        h
    } else {
        1
    };
    let cx = half_towards_zero(b.lx + b.hx);
    let cy = half_towards_zero(b.ly + b.hy);
    Rect32 {
        lx: clamp_to_i32(cx - half),
        ly: clamp_to_i32(cy - half),
        hx: clamp_to_i32(cx + half),
        hy: clamp_to_i32(cy + half),
    }
}

fn half_of(x: i64) -> (r: i64)
    requires
        -0x1_0000_0000_0000 <= x <= 0x1_0000_0000_0000,
    ensures
        r == half_towards_zero(x as int),
{
    if x >= 0 {
        x / 2
    } else {
        -((-x) / 2)
    }
}

/// The view that shows a selected map cell with its surroundings (see
/// `focus_box`).
pub fn contextual_map_focus_bbox(bbox: Rect32) -> (r: Rect32)
    ensures
        r == focus_box(bbox),
{
    let width: i64 = bbox.hx as i64 - bbox.lx as i64;
    let height: i64 = bbox.hy as i64 - bbox.ly as i64;
    let half_extent: i64 = if width >= height && width >= 1 {
        width
    } else if height >= 1 {
        height
    } else {
        1
    };
    let center_x = half_of(bbox.lx as i64 + bbox.hx as i64);
    let center_y = half_of(bbox.ly as i64 + bbox.hy as i64);
    Rect32 {
        lx: clamp_i64_to_i32(center_x - half_extent),
        ly: clamp_i64_to_i32(center_y - half_extent),
        hx: clamp_i64_to_i32(center_x + half_extent),
        hy: clamp_i64_to_i32(center_y + half_extent),
    }
}

/// `c` is the cell at index `i` of the peaks, and no earlier peak is.
pub open spec fn first_at(peaks: Seq<(usize, usize)>, c: (usize, usize), i: int) -> bool {
    0 <= i < peaks.len() && peaks[i] == c && forall|j: int| 0 <= j < i ==> peaks[j] != c
}

/// The peak after `current` in the list, wrapping round; the first peak
/// when there is no current one or it is not a peak; none without peaks.
pub open spec fn next_peak(peaks: Seq<(usize, usize)>, current: Option<(usize, usize)>) -> Option<
    (usize, usize),
> {
    if peaks.len() == 0 {
        None
    } else {
        match current {
            Some(c) => if exists|i: int| first_at(peaks, c, i) {
                let i = choose|i: int| first_at(peaks, c, i);
                Some(peaks[(i + 1) % (peaks.len() as int)])
            } else {
                Some(peaks[0])
            },
            None => Some(peaks[0]),
        }
    }
}

/// The peak to show next (see `next_peak`), given the peaks in order.
pub fn next_peak_cell(peaks: &Vec<(usize, usize)>, current: Option<(usize, usize)>) -> (r: Option<
    (usize, usize),
>)
    ensures
        r == next_peak(peaks@, current),
{
    let n = peaks.len();
    if n == 0 {
        return None;
    }
    let c = match current {
        Some(c) => c,
        None => {
            return Some(peaks[0]);
        },
    };
    let mut i: usize = 0;
    while i < n
        invariant
            n == peaks@.len(),
            n > 0,
            current == Some(c),
            i <= n,
            forall|j: int| 0 <= j < i ==> peaks@[j] != c,
        decreases n - i,
    {
        let p = peaks[i];
        if p.0 == c.0 && p.1 == c.1 {
            assert(first_at(peaks@, c, i as int));
            proof {
                let k = choose|k: int| first_at(peaks@, c, k);
                if k < i {
                    assert(peaks@[k] != c);
                }
                if k > i {
                    assert(peaks@[i as int] != c);
                }
            }
            let next = if i + 1 == n {
                0
            } else {
                i + 1
            };
            proof {
                if i + 1 == n {
                    vstd::arithmetic::div_mod::lemma_mod_self_0(n as int);
                } else {
                    vstd::arithmetic::div_mod::lemma_small_mod((i + 1) as nat, n as nat);
                }
            }
            assert(next == (i + 1) % (n as int));
            return Some(peaks[next]);
        }
        i = i + 1;
    }
    assert(!exists|k: int| first_at(peaks@, c, k));
    Some(peaks[0])
}

// ---------------------------------------------------------------------
// Questions about a layout
// ---------------------------------------------------------------------
/// A heat map's layout: the size of its value matrix and the rectangle
/// each cell covers in the design.
pub struct HeatmapLayout {
    pub rows: usize,
    pub columns: usize,
    pub cells: BTreeMap<(usize, usize), Rect32>,
}

/// `k` is the layout's first cell: every other cell comes after it.
pub open spec fn is_first_cell(m: Map<(usize, usize), Rect32>, k: (usize, usize)) -> bool {
    m.contains_key(k) && forall|k2: (usize, usize)| #[trigger] m.contains_key(k2) && k2 != k ==> key_before(k, k2)
}

/// The layout's first cell.
pub open spec fn first_cell(m: Map<(usize, usize), Rect32>) -> (usize, usize) {
    choose|k: (usize, usize)| is_first_cell(m, k)
}

proof fn lemma_first_cell(m: Map<(usize, usize), Rect32>, cells: Seq<((usize, usize), Rect32)>)
    requires
        ascending(cells),
        lists_map(cells, m),
        cells.len() > 0,
    ensures
        is_first_cell(m, cells[0].0),
        first_cell(m) == cells[0].0,
        m[cells[0].0] == cells[0].1,
{
    let k = cells[0].0;
    assert(m.contains_key(cells[0].0));
    assert forall|k2: (usize, usize)| #[trigger] m.contains_key(k2) && k2 != k implies key_before(k, k2) by {
        let i = choose|i: int| 0 <= i < cells.len() && #[trigger] cells[i].0 == k2;
        assert(i != 0);
        assert(key_before(cells[0].0, cells[i].0));
    }
    assert(is_first_cell(m, k));
    let f = first_cell(m);
    assert(is_first_cell(m, f));
    if f != k {
        assert(key_before(k, f));
        assert(key_before(f, k));
    }
}

/// The absolute value.
pub open spec fn abs_int(x: int) -> int {
    if x < 0 {
        -x
    } else {
        x
    }
}

/// The column pitch at the first cell: the step to its right neighbour
/// when that lies further right, else the cell's width (a cell in the last
/// possible column has no right neighbour).
pub open spec fn pitch_x(m: Map<(usize, usize), Rect32>, k: (usize, usize)) -> int {
    let rect = m[k];
    let right = if k.1 < usize::MAX {
        cell_at(m, (k.0, (k.1 + 1) as usize))
    } else {
        None
    };
    if right is Some && right->0.lx - rect.lx > 0 {
        right->0.lx - rect.lx
    } else {
        rect.hx - rect.lx
    }
}

/// The row pitch at the first cell, negative since rows run downwards:
/// the step to the cell below when that lies lower, else minus the cell's
/// height (a cell in the last possible row has none below).
pub open spec fn pitch_y(m: Map<(usize, usize), Rect32>, k: (usize, usize)) -> int {
    let rect = m[k];
    let below = if k.0 < usize::MAX {
        cell_at(m, ((k.0 + 1) as usize, k.1))
    } else {
        None
    };
    if below is Some && below->0.ly - rect.ly < 0 {
        below->0.ly - rect.ly
    } else {
        -(rect.hy - rect.ly)
    }
}

/// The grid's edges `(lx, ly, hx, hy)`: extended from the first cell by
/// its pitches over the whole matrix, its row and column taken as `i32`.
pub open spec fn grid_edges(l: HeatmapLayout) -> (int, int, int, int) {
    let m = l.cells@;
    let k = first_cell(m);
    let rect = m[k];
    let px = pitch_x(m, k);
    let py = pitch_y(m, k);
    let lx = rect.lx - (k.1 as i32) * px;
    let hy = rect.hy - (k.0 as i32) * py;
    (lx, hy + py * (l.rows as i32), lx + px * (l.columns as i32), hy)
}

/// The layout has a matrix and at least one cell.
pub open spec fn has_grid(l: HeatmapLayout) -> bool {
    l.rows > 0 && l.columns > 0 && l.cells@.dom().len() > 0
}

/// The value fits in `i32`.
pub open spec fn fits_i32(v: int) -> bool {
    i32::MIN <= v <= i32::MAX
}

/// The grid's edges fit in `i32`.
pub open spec fn grid_fits(l: HeatmapLayout) -> bool {
    has_grid(l) ==> {
        let e = grid_edges(l);
        fits_i32(e.0) && fits_i32(e.1) && fits_i32(e.2) && fits_i32(e.3)
    }
}

/// The grid's box (see `grid_edges`); none without a grid.
pub open spec fn grid_box(l: HeatmapLayout) -> Option<Rect32> {
    if has_grid(l) {
        let e = grid_edges(l);
        Some(Rect32 { lx: e.0 as i32, ly: e.1 as i32, hx: e.2 as i32, hy: e.3 as i32 })
    } else {
        None
    }
}

/// The pitches of the core: the distances from the middle cell to the
/// cell right of it and to the one below it; none for a matrix under
/// three rows or columns or when one of the three cells is missing.
pub open spec fn core_pitch_of(l: HeatmapLayout) -> Option<(int, int)> {
    if l.rows < 3 || l.columns < 3 {
        None
    } else {
        let m = l.cells@;
        let r = l.rows / 2;
        let c = l.columns / 2;
        let a = cell_at(m, (r, c));
        let b = cell_at(m, (r, (c + 1) as usize));
        let d = cell_at(m, ((r + 1) as usize, c));
        if a is Some && b is Some && d is Some {
            Some((abs_int(b->0.lx - a->0.lx), abs_int(d->0.ly - a->0.ly)))
        } else {
            None
        }
    }
}

/// The core pitches fit in `i32`.
pub open spec fn core_pitch_fits(l: HeatmapLayout) -> bool {
    match core_pitch_of(l) {
        Some(p) => p.0 <= i32::MAX && p.1 <= i32::MAX,
        None => true,
    }
}

/// The point lies in the rectangle, edges included.
pub open spec fn point_in_rect(p: Point32, b: Rect32) -> bool {
    p.x >= b.lx && p.x <= b.hx && p.y >= b.ly && p.y <= b.hy
}

/// A cell whose size is within a quarter of the core pitches of them
/// (any cell when there are no core pitches).
pub open spec fn regular_cell(b: Rect32, pitch: Option<(int, int)>) -> bool {
    match pitch {
        Some(pp) => !(abs_int((b.hx - b.lx) - pp.0) * 4 > pp.0 || abs_int((b.hy - b.ly) - pp.1) * 4
            > pp.1),
        None => true,
    }
}

/// The cell `k` is one a click at `p` may pick.
pub open spec fn picks(m: Map<(usize, usize), Rect32>, k: (usize, usize), p: Point32, pitch: Option<(int, int)>) -> bool {
    m.contains_key(k) && point_in_rect(p, m[k]) && regular_cell(m[k], pitch)
}

/// The rectangle bounds every cell and each of its edges is some cell's.
pub open spec fn bounds_all(m: Map<(usize, usize), Rect32>, b: Rect32) -> bool {
    &&& forall|k: (usize, usize)| #[trigger] m.contains_key(k) ==> b.lx <= m[k].lx && b.ly <= m[k].ly
        && m[k].hx <= b.hx && m[k].hy <= b.hy
    &&& exists|k: (usize, usize)| #[trigger] m.contains_key(k) && m[k].lx == b.lx
    &&& exists|k: (usize, usize)| #[trigger] m.contains_key(k) && m[k].ly == b.ly
    &&& exists|k: (usize, usize)| #[trigger] m.contains_key(k) && m[k].hx == b.hx
    &&& exists|k: (usize, usize)| #[trigger] m.contains_key(k) && m[k].hy == b.hy
}

impl HeatmapLayout {
    /// The rectangle of a cell, if the layout places it.
    pub fn bbox(&self, row: usize, column: usize) -> (r: Option<Rect32>)
        ensures
            r == cell_at(self.cells@, (row, column)),
    {
        cell_rect(&self.cells, row, column)
    }

    fn grid_edges_exact(&self) -> (r: Option<(i128, i128, i128, i128)>)
        ensures
            match r {
                Some(e) => has_grid(*self) && grid_edges(*self) == (
                    e.0 as int,
                    e.1 as int,
                    e.2 as int,
                    e.3 as int,
                ),
                None => !has_grid(*self),
            },
    {
        if self.rows == 0 || self.columns == 0 {
            return None;
        }
        let cells = cells_in_order(&self.cells);
        if cells.len() == 0 {
            return None;
        }
        let (k, rect) = cells[0];
        proof {
            lemma_first_cell(self.cells@, cells@);
        }
        let right = if k.1 < usize::MAX {
            cell_rect(&self.cells, k.0, k.1 + 1)
        } else {
            None
        };
        let below = if k.0 < usize::MAX {
            cell_rect(&self.cells, k.0 + 1, k.1)
        } else {
            None
        };
        let width: i128 = rect.hx as i128 - rect.lx as i128;
        let height: i128 = rect.hy as i128 - rect.ly as i128;
        let px: i128 = match right {
            Some(r2) => {
                let d: i128 = r2.lx as i128 - rect.lx as i128;
                if d > 0 {
                    d
                } else {
                    width
                }
            },
            None => width,
        };
        let py: i128 = match below {
            Some(r2) => {
                let d: i128 = r2.ly as i128 - rect.ly as i128;
                if d < 0 {
                    d
                } else {
                    -height
                }
            },
            None => -height,
        };
        let c: i128 = (k.1 as i32) as i128;
        let r: i128 = (k.0 as i32) as i128;
        let rows: i128 = (self.rows as i32) as i128;
        let columns: i128 = (self.columns as i32) as i128;
        assert(-0x1_0000_0000_0000_0000 <= c * px <= 0x1_0000_0000_0000_0000) by (nonlinear_arith)
            requires
                -0x8000_0000 <= c <= 0x8000_0000,
                -0x1_0000_0000 <= px <= 0x1_0000_0000,
        ;
        assert(-0x1_0000_0000_0000_0000 <= r * py <= 0x1_0000_0000_0000_0000) by (nonlinear_arith)
            requires
                -0x8000_0000 <= r <= 0x8000_0000,
                -0x1_0000_0000 <= py <= 0x1_0000_0000,
        ;
        assert(-0x1_0000_0000_0000_0000 <= py * rows <= 0x1_0000_0000_0000_0000) by (nonlinear_arith)
            requires
                -0x8000_0000 <= rows <= 0x8000_0000,
                -0x1_0000_0000 <= py <= 0x1_0000_0000,
        ;
        assert(-0x1_0000_0000_0000_0000 <= px * columns <= 0x1_0000_0000_0000_0000) by (nonlinear_arith)
            requires
                -0x8000_0000 <= columns <= 0x8000_0000,
                -0x1_0000_0000 <= px <= 0x1_0000_0000,
        ;
        let lx: i128 = rect.lx as i128 - c * px;
        let hy: i128 = rect.hy as i128 - r * py;
        let ly: i128 = hy + py * rows;
        let hx: i128 = lx + px * columns;
        Some((lx, ly, hx, hy))
    }

    /// Whether the grid's box fits in `i32` (see `grid_fits`), which
    /// `grid_bbox` needs.
    pub fn grid_bbox_fits(&self) -> (r: bool)
        ensures
            r == grid_fits(*self),
    {
        match self.grid_edges_exact() {
            Some(e) => {
                let min: i128 = i32::MIN as i128;
                let max: i128 = i32::MAX as i128;
                min <= e.0 && e.0 <= max && min <= e.1 && e.1 <= max && min <= e.2 && e.2 <= max
                    && min <= e.3 && e.3 <= max
            },
            None => true,
        }
    }

    /// The box of the whole grid (see `grid_box`).
    pub fn grid_bbox(&self) -> (r: Option<Rect32>)
        requires
            grid_fits(*self),
        ensures
            r == grid_box(*self),
    {
        match self.grid_edges_exact() {
            Some(e) => Some(Rect32 { lx: e.0 as i32, ly: e.1 as i32, hx: e.2 as i32, hy: e.3 as i32 }),
            None => None,
        }
    }

    fn core_pitch_exact(&self) -> (r: Option<(i64, i64)>)
        ensures
            match r {
                Some(p) => core_pitch_of(*self) == Some((p.0 as int, p.1 as int)),
                None => core_pitch_of(*self) is None,
            },
    {
        if self.rows < 3 || self.columns < 3 {
            return None;
        }
        let r = self.rows / 2;
        let c = self.columns / 2;
        let a = match cell_rect(&self.cells, r, c) {
            Some(a) => a,
            None => {
                return None;
            },
        };
        let b = match cell_rect(&self.cells, r, c + 1) {
            Some(b) => b,
            None => {
                return None;
            },
        };
        let d = match cell_rect(&self.cells, r + 1, c) {
            Some(d) => d,
            None => {
                return None;
            },
        };
        let dx: i64 = b.lx as i64 - a.lx as i64;
        let dy: i64 = d.ly as i64 - a.ly as i64;
        let pitch_x: i64 = if dx < 0 {
            -dx
        } else {
            dx
        };
        let pitch_y: i64 = if dy < 0 {
            -dy
        } else {
            dy
        };
        Some((pitch_x, pitch_y))
    }

    /// Whether the core pitches fit in `i32` (see `core_pitch_fits`),
    /// which `core_pitch` and `cell_at_world_point` need.
    pub fn core_pitch_in_range(&self) -> (r: bool)
        ensures
            r == core_pitch_fits(*self),
    {
        match self.core_pitch_exact() {
            Some(p) => p.0 <= i32::MAX as i64 && p.1 <= i32::MAX as i64,
            None => true,
        }
    }

    /// The pitches of the core (see `core_pitch_of`).
    pub fn core_pitch(&self) -> (r: Option<(i32, i32)>)
        requires
            core_pitch_fits(*self),
        ensures
            match r {
                Some(p) => core_pitch_of(*self) == Some((p.0 as int, p.1 as int)),
                None => core_pitch_of(*self) is None,
            },
    {
        match self.core_pitch_exact() {
            Some(p) => Some((p.0 as i32, p.1 as i32)),
            None => None,
        }
    }

    /// The bounding box of all the cells; none without cells.
    pub fn overall_layout_bbox(&self) -> (r: Option<Rect32>)
        ensures
            match r {
                Some(b) => bounds_all(self.cells@, b),
                None => self.cells@.dom().len() == 0,
            },
    {
        let cells = cells_in_order(&self.cells);
        let n = cells.len();
        if n == 0 {
            return None;
        }
        let ghost m = self.cells@;
        let mut acc = cells[0].1;
        let mut i: usize = 1;
        while i < n
            invariant
                n == cells@.len(),
                1 <= i <= n,
                lists_map(cells@, m),
                forall|j: int| 0 <= j < i ==> acc.lx <= (#[trigger] cells@[j]).1.lx && acc.ly <= cells@[j].1.ly
                    && cells@[j].1.hx <= acc.hx && cells@[j].1.hy <= acc.hy,
                exists|j: int| 0 <= j < i && (#[trigger] cells@[j]).1.lx == acc.lx,
                exists|j: int| 0 <= j < i && (#[trigger] cells@[j]).1.ly == acc.ly,
                exists|j: int| 0 <= j < i && (#[trigger] cells@[j]).1.hx == acc.hx,
                exists|j: int| 0 <= j < i && (#[trigger] cells@[j]).1.hy == acc.hy,
            decreases n - i,
        {
            let next = cells[i].1;
            let ghost before = acc;
            acc = Rect32 {
                lx: if next.lx < acc.lx { next.lx } else { acc.lx },
                ly: if next.ly < acc.ly { next.ly } else { acc.ly },
                hx: if next.hx > acc.hx { next.hx } else { acc.hx },
                hy: if next.hy > acc.hy { next.hy } else { acc.hy },
            };
            proof {
                let j1 = choose|j: int| 0 <= j < i && (#[trigger] cells@[j]).1.lx == before.lx;
                let j2 = choose|j: int| 0 <= j < i && (#[trigger] cells@[j]).1.ly == before.ly;
                let j3 = choose|j: int| 0 <= j < i && (#[trigger] cells@[j]).1.hx == before.hx;
                let j4 = choose|j: int| 0 <= j < i && (#[trigger] cells@[j]).1.hy == before.hy;
                assert(cells@[i as int].1 == next);
                if next.lx < before.lx {
                    assert(cells@[i as int].1.lx == acc.lx);
                } else {
                    assert(cells@[j1].1.lx == acc.lx);
                }
                if next.ly < before.ly {
                    assert(cells@[i as int].1.ly == acc.ly);
                } else {
                    assert(cells@[j2].1.ly == acc.ly);
                }
                if next.hx > before.hx {
                    assert(cells@[i as int].1.hx == acc.hx);
                } else {
                    assert(cells@[j3].1.hx == acc.hx);
                }
                if next.hy > before.hy {
                    assert(cells@[i as int].1.hy == acc.hy);
                } else {
                    assert(cells@[j4].1.hy == acc.hy);
                }
            }
            i = i + 1;
        }
        proof {
            assert forall|k: (usize, usize)| #[trigger] m.contains_key(k) implies acc.lx <= m[k].lx && acc.ly
                <= m[k].ly && m[k].hx <= acc.hx && m[k].hy <= acc.hy by {
                let j = choose|j: int| 0 <= j < cells@.len() && #[trigger] cells@[j].0 == k;
                assert(m[cells@[j].0] == cells@[j].1);
            }
            let j1 = choose|j: int| 0 <= j < n && (#[trigger] cells@[j]).1.lx == acc.lx;
            let j2 = choose|j: int| 0 <= j < n && (#[trigger] cells@[j]).1.ly == acc.ly;
            let j3 = choose|j: int| 0 <= j < n && (#[trigger] cells@[j]).1.hx == acc.hx;
            let j4 = choose|j: int| 0 <= j < n && (#[trigger] cells@[j]).1.hy == acc.hy;
            assert(m.contains_key(cells@[j1].0) && m[cells@[j1].0] == cells@[j1].1);
            assert(m.contains_key(cells@[j2].0) && m[cells@[j2].0] == cells@[j2].1);
            assert(m.contains_key(cells@[j3].0) && m[cells@[j3].0] == cells@[j3].1);
            assert(m.contains_key(cells@[j4].0) && m[cells@[j4].0] == cells@[j4].1);
        }
        Some(acc)
    }

    /// The first cell, in key order, that holds the point and, when the
    /// core pitches are known, is within a quarter of them in size (see
    /// `picks`); none when no cell does.
    pub fn cell_at_world_point(&self, point: Point32) -> (r: Option<(usize, usize)>)
        requires
            core_pitch_fits(*self),
        ensures
            match r {
                Some(k) => picks(self.cells@, k, point, core_pitch_of(*self)) && forall|k2: (usize, usize)|
                    key_before(k2, k) ==> !picks(self.cells@, k2, point, core_pitch_of(*self)),
                None => forall|k: (usize, usize)| !picks(self.cells@, k, point, core_pitch_of(*self)),
            },
    {
        let pitch = self.core_pitch();
        let ghost pp = core_pitch_of(*self);
        let ghost m = self.cells@;
        let cells = cells_in_order(&self.cells);
        let n = cells.len();
        let mut i: usize = 0;
        while i < n
            invariant
                n == cells@.len(),
                i <= n,
                m == self.cells@,
                pp == core_pitch_of(*self),
                ascending(cells@),
                lists_map(cells@, m),
                match pitch {
                    Some(p) => pp == Some((p.0 as int, p.1 as int)),
                    None => pp is None,
                },
                forall|j: int| 0 <= j < i ==> !picks(m, #[trigger] cells@[j].0, point, pp),
            decreases n - i,
        {
            let (k, b) = cells[i];
            assert(m.contains_key(cells@[i as int].0) && m[cells@[i as int].0] == cells@[i as int].1);
            if point.x >= b.lx && point.x <= b.hx && point.y >= b.ly && point.y <= b.hy {
                let regular = match pitch {
                    Some((pitch_x, pitch_y)) => {
                        let px: i64 = pitch_x as i64;
                        let py: i64 = pitch_y as i64;
                        let w: i64 = b.hx as i64 - b.lx as i64;
                        let h: i64 = b.hy as i64 - b.ly as i64;
                        let dw: i64 = if w < px {
                            px - w
                        } else {
                            w - px
                        };
                        let dh: i64 = if h < py {
                            py - h
                        } else {
                            h - py
                        };
                        !(dw * 4 > px || dh * 4 > py)
                    },
                    None => true,
                };
                if regular {
                    assert(picks(m, k, point, pp));
                    assert forall|k2: (usize, usize)| key_before(k2, k) implies !picks(m, k2, point, pp) by {
                        if picks(m, k2, point, pp) {
                            let j = choose|j: int| 0 <= j < cells@.len() && #[trigger] cells@[j].0 == k2;
                            if j >= i {
                                if j > i {
                                    assert(key_before(cells@[i as int].0, cells@[j].0));
                                }
                            }
                        }
                    }
                    return Some(k);
                }
            }
            assert(!picks(m, cells@[i as int].0, point, pp));
            i = i + 1;
        }
        assert forall|k: (usize, usize)| !picks(m, k, point, pp) by {
            if picks(m, k, point, pp) {
                let j = choose|j: int| 0 <= j < cells@.len() && #[trigger] cells@[j].0 == k;
                assert(!picks(m, cells@[j].0, point, pp));
            }
        }
        None
    }
}

/// What clicking a heat-map cell does: the cell becomes the selection and,
/// when the layout places it, the view moves (animated, selecting no shape)
/// to the cell with context around it; when it does not, an error names
/// the cell.
pub enum MapCellPick {
    Focus { bbox: Rect32, focus: PendingFocus },
    Unmapped { message: String },
}

/// `layout.csv has no coordinate mapping for row <row>, column <column>`.
pub open spec fn unmapped_cell_message(row: usize, column: usize) -> Seq<char> {
    "layout.csv has no coordinate mapping for row "@ + decimal(row as nat) + ", column "@ + decimal(
        column as nat,
    )
}

impl HeatmapLayout {
    /// What clicking the cell at `(row, column)` does (see `MapCellPick`).
    pub fn pick_cell(&self, row: usize, column: usize) -> (r: MapCellPick)
        ensures
            match cell_at(self.cells@, (row, column)) {
                Some(b) => r matches MapCellPick::Focus { bbox, focus } && bbox == b && focus.bbox
                    == focus_box(b) && focus.select_shape_id is None && focus.transition
                    == FocusTransition::Animated,
                None => r matches MapCellPick::Unmapped { message } && message@
                    == unmapped_cell_message(row, column),
            },
    {
        match self.bbox(row, column) {
            Some(b) => MapCellPick::Focus {
                bbox: b,
                focus: PendingFocus {
                    bbox: contextual_map_focus_bbox(b),
                    select_shape_id: None,
                    transition: FocusTransition::Animated,
                },
            },
            None => {
                let mut m = String::new();
                push_str(&mut m, "layout.csv has no coordinate mapping for row ");
                push_decimal(&mut m, row as u64);
                push_str(&mut m, ", column ");
                push_decimal(&mut m, column as u64);
                MapCellPick::Unmapped { message: m }
            },
        }
    }
}

} // verus!
