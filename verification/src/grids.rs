//! Parameterized grids (routing tracks and GCells): which of their lines a
//! viewport shows, where each line lies, and whether a grid is drawn at
//! all.

use vstd::prelude::*;
use crate::geometry::{Point32, Rect32, spec_intersect_rect, intersect_rect, spec_ceil_div,
    floor_div_i64, ceil_div_i64};
use crate::layers::LayerUiState;
use crate::text::{lower, trim, str_chars, trim_chars, lower_chars, chars_eq_str};
use crate::visibility::{ObjectVisibility, OwnerType, owner_raw, owner_visible};

verus! {

/// At most this many lines of one grid are drawn in a view; denser grids
/// are sampled.
pub const MAX_PARAMETERIZED_GRID_LINES_PER_GRID: u64 = 4096;

/// A grid of evenly spaced lines: `count` lines from `start`, `step` apart,
/// across the given direction (`x`: vertical lines at x coordinates, `y`:
/// horizontal lines).
pub struct GridMetadata {
    pub grid_type: String,
    pub direction: String,
    pub start: i64,
    pub step: i64,
    pub count: u32,
    pub layer_names: Vec<String>,
}

impl Default for GridMetadata {
    fn default() -> (g: Self)
        ensures
            g.grid_type@.len() == 0,
            g.direction@.len() == 0,
            g.start == 0,
            g.step == 0,
            g.count == 0,
            g.layer_names@.len() == 0,
    {
        GridMetadata {
            grid_type: String::new(),
            direction: String::new(),
            start: 0,
            step: 0,
            count: 0,
            layer_names: Vec::new(),
        }
    }
}

/// A keyword as the grid metadata compares it: trimmed, ASCII lowercase.
pub open spec fn keyword(s: Seq<char>) -> Seq<char> {
    lower(trim(s))
}

fn keyword_chars(s: &String) -> (r: Vec<char>)
    ensures
        r@ == keyword(s@),
{
    let t = trim_chars(&str_chars(s.as_str()));
    lower_chars(&t)
}

/// Tracks and GCells are the grid types that are drawn.
pub open spec fn grid_owner(grid_type: Seq<char>) -> Option<OwnerType> {
    if keyword(grid_type) == seq!['t', 'r', 'a', 'c', 'k'] {
        Some(OwnerType::TrackGrid)
    } else if keyword(grid_type) == seq!['g', 'c', 'e', 'l', 'l'] {
        Some(OwnerType::GCellGrid)
    } else {
        None
    }
}

fn same_chars(a: &Vec<char>, b: &[char]) -> (r: bool)
    ensures
        r == (a@ == b@),
{
    if a.len() != b.len() {
        return false;
    }
    let n = a.len();
    for i in 0..n
        invariant
            n == a@.len() == b@.len(),
            forall|j: int| 0 <= j < i ==> a@[j] == b@[j],
    {
        if a[i] != b[i] {
            return false;
        }
    }
    assert(a@ =~= b@);
    true
}

/// The owner type that a grid's shapes would have: track or GCell grids.
pub fn grid_owner_type(grid: &GridMetadata) -> (r: Option<OwnerType>)
    ensures
        r == grid_owner(grid.grid_type@),
{
    let k = keyword_chars(&grid.grid_type);
    let track: [char; 5] = ['t', 'r', 'a', 'c', 'k'];
    let gcell: [char; 5] = ['g', 'c', 'e', 'l', 'l'];
    assert(track@ == seq!['t', 'r', 'a', 'c', 'k']);
    assert(gcell@ == seq!['g', 'c', 'e', 'l', 'l']);
    if same_chars(&k, &track) {
        Some(OwnerType::TrackGrid)
    } else if same_chars(&k, &gcell) {
        Some(OwnerType::GCellGrid)
    } else {
        None
    }
}

/// A grid bound to layers is drawn when one of them is switched on (names
/// compared exactly); a grid bound to none is always eligible.
pub open spec fn layer_filter_visible(names: Seq<String>, layers: Seq<LayerUiState>) -> bool {
    names.len() == 0 || exists|i: int, j: int|
        0 <= i < names.len() && 0 <= j < layers.len() && layers[j].visible && #[trigger] layers[j].name@
            == #[trigger] names[i]@
}

fn same_string(a: &String, b: &String) -> (r: bool)
    ensures
        r == (a@ == b@),
{
    let x = str_chars(a.as_str());
    chars_eq_str(&x, b.as_str())
}

/// Whether the grid's layer filter lets it be drawn (see
/// `layer_filter_visible`).
pub fn grid_layer_filter_is_visible(grid: &GridMetadata, layers: &Vec<LayerUiState>) -> (r: bool)
    ensures
        r == layer_filter_visible(grid.layer_names@, layers@),
{
    let names = &grid.layer_names;
    if names.len() == 0 {
        return true;
    }
    for i in 0..names.len()
        invariant
            names@ == grid.layer_names@,
            forall|a: int, b: int|
                0 <= a < i && 0 <= b < layers@.len() && layers@[b].visible ==> #[trigger] layers@[b].name@
                    != #[trigger] names@[a]@,
    {
        for j in 0..layers.len()
            invariant
                names@ == grid.layer_names@,
                i < names@.len(),
                forall|a: int, b: int|
                    0 <= a < i && 0 <= b < layers@.len() && layers@[b].visible ==> #[trigger] layers@[b].name@
                        != #[trigger] names@[a]@,
                forall|b: int|
                    0 <= b < j && layers@[b].visible ==> #[trigger] layers@[b].name@ != names@[i as int]@,
        {
            if layers[j].visible && same_string(&layers[j].name, &names[i]) {
                assert(layers@[j as int].name@ == names@[i as int]@);
                return true;
            }
        }
    }
    false
}

/// A grid is drawn when zoomed in, when its owner type is a switched-on
/// category, when its layer filter passes, and when it has lines.
pub open spec fn grid_visible(
    grid: GridMetadata,
    layers: Seq<LayerUiState>,
    visibility: ObjectVisibility,
    zoomed_in: bool,
) -> bool {
    match grid_owner(grid.grid_type@) {
        Some(o) => zoomed_in && owner_visible(visibility, owner_raw(o)) && layer_filter_visible(
            grid.layer_names@,
            layers,
        ) && grid.step > 0 && grid.count > 0,
        None => false,
    }
}

/// Whether a grid is drawn (see `grid_visible`); `zoomed_in` is whether the
/// canvas zoom exceeds 1.25.
pub fn parameterized_grid_is_visible(
    grid: &GridMetadata,
    layers: &Vec<LayerUiState>,
    visibility: ObjectVisibility,
    zoomed_in: bool,
) -> (r: bool)
    ensures
        r == grid_visible(*grid, layers@, visibility, zoomed_in),
{
    match grid_owner_type(grid) {
        Some(o) => zoomed_in && visibility.includes_owner_type(o.raw())
            && grid_layer_filter_is_visible(grid, layers) && grid.step > 0 && grid.count > 0,
        None => false,
    }
}

/// The direction of a grid's lines: `Some(true)` for `x` (lines at x
/// coordinates), `Some(false)` for `y`.
pub open spec fn grid_axis_is_x(direction: Seq<char>) -> Option<bool> {
    if keyword(direction) == seq!['x'] {
        Some(true)
    } else if keyword(direction) == seq!['y'] {
        Some(false)
    } else {
        None
    }
}

fn grid_axis(direction: &String) -> (r: Option<bool>)
    ensures
        r == grid_axis_is_x(direction@),
{
    let k = keyword_chars(direction);
    let x: [char; 1] = ['x'];
    let y: [char; 1] = ['y'];
    assert(x@ == seq!['x']);
    assert(y@ == seq!['y']);
    if same_chars(&k, &x) {
        Some(true)
    } else if same_chars(&k, &y) {
        Some(false)
    } else {
        None
    }
}

/// The segment of a grid line at `coordinate` inside the overlap of the
/// viewport and the grid bounds, if the line crosses it.
pub open spec fn line_endpoints(
    direction: Seq<char>,
    coordinate: i32,
    viewport: Rect32,
    bounds: Rect32,
) -> Option<(Point32, Point32)> {
    match spec_intersect_rect(viewport, bounds) {
        None => None,
        Some(b) => match grid_axis_is_x(direction) {
            Some(true) => if b.lx <= coordinate <= b.hx {
                Some((Point32 { x: coordinate, y: b.ly }, Point32 { x: coordinate, y: b.hy }))
            } else {
                None
            },
            Some(false) => if b.ly <= coordinate <= b.hy {
                Some((Point32 { x: b.lx, y: coordinate }, Point32 { x: b.hx, y: coordinate }))
            } else {
                None
            },
            None => None,
        },
    }
}

/// Where a grid line is drawn (see `line_endpoints`).
pub fn parameterized_grid_line_endpoints(
    grid: &GridMetadata,
    coordinate: i32,
    viewport: Rect32,
    grid_bounds: Rect32,
) -> (r: Option<(Point32, Point32)>)
    ensures
        r == line_endpoints(grid.direction@, coordinate, viewport, grid_bounds),
{
    let bounds = match intersect_rect(viewport, grid_bounds) {
        Some(b) => b,
        None => {
            return None;
        },
    };
    match grid_axis(&grid.direction) {
        Some(true) => if coordinate >= bounds.lx && coordinate <= bounds.hx {
            Some((Point32 { x: coordinate, y: bounds.ly }, Point32 { x: coordinate, y: bounds.hy }))
        } else {
            None
        },
        Some(false) => if coordinate >= bounds.ly && coordinate <= bounds.hy {
            Some((Point32 { x: bounds.lx, y: coordinate }, Point32 { x: bounds.hx, y: coordinate }))
        } else {
            None
        },
        None => None,
    }
}

/// `i64::saturating_sub`.
pub open spec fn sat_sub_i64(a: i64, b: i64) -> i64 {
    if a - b > i64::MAX {
        i64::MAX
    } else if a - b < i64::MIN {
        i64::MIN
    } else {
        (a - b) as i64
    }
}

fn saturating_sub_i64(a: i64, b: i64) -> (r: i64)
    ensures
        r == sat_sub_i64(a, b),
{
    let d: i128 = a as i128 - b as i128;
    if d > i64::MAX as i128 {
        i64::MAX
    } else if d < i64::MIN as i128 {
        i64::MIN
    } else {
        d as i64
    }
}

/// The first and last index of the grid's lines inside the viewport along
/// the grid's direction, clipped to the grid's own lines.
pub open spec fn visible_index_range(grid: GridMetadata, viewport: Rect32) -> Option<(u32, u32)> {
    if grid.step <= 0 || grid.count == 0 {
        None
    } else {
        match grid_axis_is_x(grid.direction@) {
            None => None,
            Some(is_x) => {
                let lo: i64 = if is_x {
                    viewport.lx as i64
                } else {
                    viewport.ly as i64
                };
                let hi: i64 = if is_x {
                    viewport.hx as i64
                } else {
                    viewport.hy as i64
                };
                let c = spec_ceil_div(sat_sub_i64(lo, grid.start) as int, grid.step as int);
                let first = if c > 0 {
                    c
                } else {
                    0
                };
                let f = sat_sub_i64(hi, grid.start) as int / grid.step as int;
                let last = if f < grid.count - 1 {
                    f
                } else {
                    grid.count - 1
                };
                if first > last {
                    None
                } else {
                    Some((first as u32, last as u32))
                }
            },
        }
    }
}

/// The index range of the grid lines that a viewport shows (see
/// `visible_index_range`).
pub fn grid_visible_index_range(grid: &GridMetadata, viewport: Rect32) -> (r: Option<(u32, u32)>)
    ensures
        r == visible_index_range(*grid, viewport),
        r matches Some((first, last)) ==> first <= last < grid.count,
{
    if grid.step <= 0 || grid.count == 0 {
        return None;
    }
    let is_x = match grid_axis(&grid.direction) {
        Some(b) => b,
        None => {
            return None;
        },
    };
    let lo: i64 = if is_x {
        viewport.lx as i64
    } else {
        viewport.ly as i64
    };
    let hi: i64 = if is_x {
        viewport.hx as i64
    } else {
        viewport.hy as i64
    };
    let c = ceil_div_i64(saturating_sub_i64(lo, grid.start), grid.step);
    let first: i64 = if c > 0 {
        c
    } else {
        0
    };
    let f = floor_div_i64(saturating_sub_i64(hi, grid.start), grid.step);
    let top: i64 = grid.count as i64 - 1;
    let last: i64 = if f < top {
        f
    } else {
        top
    };
    if first > last {
        return None;
    }
    Some((first as u32, last as u32))
}

/// `from`, `from + stride`, ... up to `last`.
pub open spec fn stepped(from: int, last: int, stride: int) -> Seq<u32>
    decreases (if last - from + 1 > 0 {
        last - from + 1
    } else {
        0
    }),
{
    if stride <= 0 || from > last {
        Seq::empty()
    } else {
        seq![from as u32] + stepped(from + stride, last, stride)
    }
}

/// The stride that samples `total` lines down to at most
/// `MAX_PARAMETERIZED_GRID_LINES_PER_GRID`.
pub open spec fn sample_stride(total: int) -> int {
    let s = spec_ceil_div(total, MAX_PARAMETERIZED_GRID_LINES_PER_GRID as int);
    if s > 1 {
        s
    } else {
        1
    }
}

/// The indices of the grid lines drawn in a viewport: every visible index
/// when there are few, else every `sample_stride`-th from the first.
pub open spec fn visible_indices(grid: GridMetadata, viewport: Rect32) -> Seq<u32> {
    match visible_index_range(grid, viewport) {
        None => Seq::empty(),
        Some((first, last)) => stepped(first as int, last as int, sample_stride(last - first + 1)),
    }
}

proof fn lemma_stepped_len(from: int, last: int, stride: int)
    requires
        stride > 0,
    ensures
        stepped(from, last, stride).len() * stride <= (if last - from + 1 > 0 {
            last - from + 1
        } else {
            0
        }) + stride - 1,
    decreases (if last - from + 1 > 0 {
        last - from + 1
    } else {
        0
    }),
{
    if from <= last {
        lemma_stepped_len(from + stride, last, stride);
        let n = stepped(from + stride, last, stride).len() as int;
        assert(stepped(from, last, stride).len() == n + 1);
        if last - from - stride + 1 > 0 {
            assert(n * stride <= last - from);
        } else {
            assert(n == 0) by (nonlinear_arith)
                requires
                    n >= 0,
                    stride > 0,
                    n * stride <= stride - 1,
            ;
            assert(n * stride == 0);
        }
        assert((n + 1) * stride == n * stride + stride) by (nonlinear_arith);
    } else {
        assert(stepped(from, last, stride).len() == 0);
        assert(0 * stride == 0);
    }
}

proof fn lemma_sampled_count(total: int, count: int)
    requires
        total >= 1,
        count * sample_stride(total) <= total + sample_stride(total) - 1,
    ensures
        count <= MAX_PARAMETERIZED_GRID_LINES_PER_GRID,
{
    let m = MAX_PARAMETERIZED_GRID_LINES_PER_GRID as int;
    let s = sample_stride(total);
    let c = spec_ceil_div(total, m);
    vstd::arithmetic::div_mod::lemma_fundamental_div_mod(total, m);
    assert(total <= m * c) by {
        if total % m == 0 {
            assert(c == total / m);
        } else {
            assert(c == total / m + 1);
        }
    }
    assert(total <= m * s) by (nonlinear_arith)
        requires
            total <= m * c,
            s >= c,
            m > 0,
    ;
    assert(count <= m) by (nonlinear_arith)
        requires
            count * s <= total + s - 1,
            total <= m * s,
            s >= 1,
    ;
}

/// The indices of the grid lines drawn in a viewport (see
/// `visible_indices`); never more than
/// `MAX_PARAMETERIZED_GRID_LINES_PER_GRID`.
pub fn grid_visible_indices(grid: &GridMetadata, viewport: Rect32) -> (indices: Vec<u32>)
    ensures
        indices@ == visible_indices(*grid, viewport),
        indices@.len() <= MAX_PARAMETERIZED_GRID_LINES_PER_GRID,
{
    let (first, last) = match grid_visible_index_range(grid, viewport) {
        Some(r) => r,
        None => {
            return Vec::new();
        },
    };
    let total: u64 = (last - first) as u64 + 1;
    let blocks: u64 = (total + (MAX_PARAMETERIZED_GRID_LINES_PER_GRID - 1))
        / MAX_PARAMETERIZED_GRID_LINES_PER_GRID;
    proof {
        let m = MAX_PARAMETERIZED_GRID_LINES_PER_GRID as int;
        vstd::arithmetic::div_mod::lemma_fundamental_div_mod(total as int, m);
        vstd::arithmetic::div_mod::lemma_fundamental_div_mod(total as int + m - 1, m);
        assert(blocks == spec_ceil_div(total as int, m));
    }
    let stride: u64 = if blocks > 1 {
        blocks
    } else {
        1
    };
    assert(stride == sample_stride(total as int));
    let mut indices: Vec<u32> = Vec::new();
    let mut x: u64 = first as u64;
    let ghost target = stepped(first as int, last as int, stride as int);
    assert(stride <= total) by {
        assert(blocks <= total) by (nonlinear_arith)
            requires
                blocks == (total + 4095) / 4096,
                total >= 1,
        ;
    }
    while x <= last as u64
        invariant
            first <= last,
            stride >= 1,
            stride <= total,
            total == (last - first) as u64 + 1,
            first <= x <= last as u64 + stride,
            indices@ + stepped(x as int, last as int, stride as int) == target,
        decreases last as u64 + stride + 1 - x,
    {
        let ghost rest = stepped(x as int, last as int, stride as int);
        assert(rest == seq![x as u32] + stepped(x + stride, last as int, stride as int));
        indices.push(x as u32);
        assert(indices@ + stepped(x + stride, last as int, stride as int) =~= target);
        x = x + stride;
    }
    assert(stepped(x as int, last as int, stride as int) == Seq::<u32>::empty());
    assert(indices@ =~= target);
    proof {
        lemma_stepped_len(first as int, last as int, stride as int);
        lemma_sampled_count(total as int, indices@.len() as int);
    }
    indices
}

/// `i64::saturating_add` and `i64::saturating_mul`: the exact value clamped
/// into the `i64` range.
pub open spec fn clamp_i64(v: int) -> i64 {
    if v > i64::MAX {
        i64::MAX
    } else if v < i64::MIN {
        i64::MIN
    } else {
        v as i64
    }
}

/// The coordinate of line `index`: `start + step * index`, each operation
/// saturating.
pub open spec fn coordinate_at(grid: GridMetadata, index: u32) -> i64 {
    clamp_i64(grid.start + clamp_i64(grid.step * index))
}

/// The coordinate of a grid line (see `coordinate_at`).
pub fn grid_coordinate_at_index(grid: &GridMetadata, index: u32) -> (c: i64)
    ensures
        c == coordinate_at(*grid, index),
{
    let step: i128 = grid.step as i128;
    let idx: i128 = index as i128;
    assert(-0x8000_0000_0000_0000 * 0x1_0000_0000 <= step * idx <= 0x8000_0000_0000_0000
        * 0x1_0000_0000) by (nonlinear_arith)
        requires
            -0x8000_0000_0000_0000 <= step <= 0x7fff_ffff_ffff_ffff,
            0 <= idx <= 0xffff_ffff,
    ;
    let product: i128 = step * idx;
    let offset: i64 = if product > i64::MAX as i128 {
        i64::MAX
    } else if product < i64::MIN as i128 {
        i64::MIN
    } else {
        product as i64
    };
    let sum: i128 = grid.start as i128 + offset as i128;
    if sum > i64::MAX as i128 {
        i64::MAX
    } else if sum < i64::MIN as i128 {
        i64::MIN
    } else {
        sum as i64
    }
}

/// Some grid's shapes would have the owner type.
pub open spec fn grids_cover(grids: Seq<GridMetadata>, owner_type: OwnerType) -> bool {
    exists|i: int| 0 <= i < grids.len() && grid_owner(#[trigger] grids[i].grid_type@) == Some(owner_type)
}

/// Whether the design describes grids of the owner type as parameterized
/// grids (see `grids_cover`).
pub fn has_parameterized_grid_metadata(grids: &Vec<GridMetadata>, owner_type: OwnerType) -> (r: bool)
    ensures
        r == grids_cover(grids@, owner_type),
{
    let n = grids.len();
    for i in 0..n
        invariant
            n == grids@.len(),
            forall|j: int| 0 <= j < i ==> grid_owner(#[trigger] grids@[j].grid_type@) != Some(owner_type),
    {
        if grid_owner_type(&grids[i]) == Some(owner_type) {
            return true;
        }
    }
    false
}

} // verus!
