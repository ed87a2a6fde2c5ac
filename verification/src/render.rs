//! Integer bookkeeping of the GPU canvas: packed colours, the tiles that a
//! bounding box covers, buffer-cache keys, the choice of an overview level
//! of detail, the spatial hash that jitters overview tile colours, and the
//! rectangles that lines and points are drawn as.

use vstd::prelude::*;
use crate::geometry::{
    Point32, Rect32, clamp_i64_to_i32, clamp_to_i32, floor_div_i64, intersect_rect, max_i32, min_i32,
    spec_intersect_rect,
};
use crate::visibility::{ObjectVisibility, category_visible, net_category};

verus! {

/// The edge of a canvas tile in database units.
pub const GPU_TILE_SIZE_DBU: i32 = 200_000;

/// The most overview tiles drawn in one frame.
pub const OVERVIEW_INSTANCE_BUDGET: usize = 48_000;

/// The four bytes of a colour read as a little-endian `u32`.
pub open spec fn packed_rgba(rgba: [u8; 4]) -> u32 {
    (rgba[0] as u32) | (rgba[1] as u32) << 8u32 | (rgba[2] as u32) << 16u32 | (rgba[3] as u32)
        << 24u32
}

/// Byte `k` (0 for the lowest) of a `u32`.
pub open spec fn byte_of(x: u32, k: u32) -> u8 {
    ((x >> (8 * k)) & 0xff) as u8
}

/// Packs an RGBA colour into one `u32`, red in the lowest byte.
pub fn pack_rgba_u32(rgba: [u8; 4]) -> (packed: u32)
    ensures
        packed == packed_rgba(rgba),
        packed as int == rgba[0] as int + rgba[1] as int * 0x100 + rgba[2] as int * 0x1_0000
            + rgba[3] as int * 0x100_0000,
{
    let r: u32 = rgba[0] as u32;
    let g: u32 = rgba[1] as u32;
    let b: u32 = rgba[2] as u32;
    let a: u32 = rgba[3] as u32;
    let packed: u32 = r | g << 8u32 | b << 16u32 | a << 24u32;
    assert(r < 256 && g < 256 && b < 256 && a < 256 ==> (r | g << 8u32 | b << 16u32 | a << 24u32)
        == r + g * 0x100 + b * 0x1_0000 + a * 0x100_0000) by (bit_vector);
    packed
}

/// The tile column or row that a coordinate falls in: the quotient rounded
/// down.
pub open spec fn tile_index(coord: i32, tile_size: i32) -> int {
    coord as int / tile_size as int
}

/// Row `tx` of tiles: `(tx, ty)` for `ty` from `min_ty`, `count` of them.
pub open spec fn tile_column(tx: int, min_ty: int, count: nat) -> Seq<(i32, i32)> {
    Seq::new(count, |j: int| (tx as i32, (min_ty + j) as i32))
}

/// The tiles of columns `min_tx` up to `end_tx` (excluded), each column
/// from `min_ty` to `max_ty`, column by column.
pub open spec fn tile_columns(min_tx: int, end_tx: int, min_ty: int, max_ty: int) -> Seq<(i32, i32)>
    decreases end_tx - min_tx,
{
    if end_tx <= min_tx {
        Seq::empty()
    } else {
        tile_columns(min_tx, end_tx - 1, min_ty, max_ty) + tile_column(
            end_tx - 1,
            min_ty,
            if max_ty >= min_ty {
                (max_ty - min_ty + 1) as nat
            } else {
                0
            },
        )
    }
}

/// The tiles of edge `tile_size` that `bbox` touches, column by column; a
/// single `(0, 0)` for a size that is not positive.
pub open spec fn tiles_for_bbox(bbox: Rect32, tile_size: i32) -> Seq<(i32, i32)> {
    if tile_size <= 0 {
        seq![(0i32, 0i32)]
    } else {
        tile_columns(
            tile_index(bbox.lx, tile_size),
            tile_index(bbox.hx, tile_size) + 1,
            tile_index(bbox.ly, tile_size),
            tile_index(bbox.hy, tile_size),
        )
    }
}

pub proof fn lemma_tile_index_in_range(coord: i32, tile_size: i32)
    requires
        tile_size > 0,
    ensures
        i32::MIN <= tile_index(coord, tile_size) <= i32::MAX,
        coord >= 0 ==> 0 <= tile_index(coord, tile_size) <= coord,
        coord < 0 ==> coord <= tile_index(coord, tile_size) < 0,
{
    let c = coord as int;
    let t = tile_size as int;
    vstd::arithmetic::div_mod::lemma_fundamental_div_mod(c, t);
    let q = c / t;
    let r = c % t;
    assert(c == t * q + r && 0 <= r < t);
    if c >= 0 {
        assert(q >= 0) by (nonlinear_arith)
            requires
                c == t * q + r,
                0 <= r < t,
                c >= 0,
        ;
        assert(q <= c) by (nonlinear_arith)
            requires
                c == t * q + r,
                0 <= r,
                t >= 1,
                q >= 0,
        ;
    } else {
        assert(q < 0) by (nonlinear_arith)
            requires
                c == t * q + r,
                0 <= r < t,
                c < 0,
        ;
        assert(c <= q) by (nonlinear_arith)
            requires
                c == t * q + r,
                r < t,
                t >= 1,
                q < 0,
        ;
    }
}

/// The tiles of edge `tile_size` that `bbox` touches: every `(tx, ty)` with
/// `tx` from the column of `lx` to that of `hx` and `ty` from the row of
/// `ly` to that of `hy`, column by column; `[(0, 0)]` for a tile size that
/// is not positive.
pub fn tile_coords_for_bbox(bbox: Rect32, tile_size: i32) -> (tiles: Vec<(i32, i32)>)
    ensures
        tiles@ == tiles_for_bbox(bbox, tile_size),
{
    if tile_size <= 0 {
        let mut single: Vec<(i32, i32)> = Vec::new();
        single.push((0, 0));
        assert(single@ =~= seq![(0i32, 0i32)]);
        return single;
    }
    proof {
        lemma_tile_index_in_range(bbox.lx, tile_size);
        lemma_tile_index_in_range(bbox.hx, tile_size);
        lemma_tile_index_in_range(bbox.ly, tile_size);
        lemma_tile_index_in_range(bbox.hy, tile_size);
    }
    let min_tx: i64 = floor_div_i64(bbox.lx as i64, tile_size as i64);
    let max_tx: i64 = floor_div_i64(bbox.hx as i64, tile_size as i64);
    let min_ty: i64 = floor_div_i64(bbox.ly as i64, tile_size as i64);
    let max_ty: i64 = floor_div_i64(bbox.hy as i64, tile_size as i64);
    let ghost count: nat = if max_ty >= min_ty {
        (max_ty - min_ty + 1) as nat
    } else {
        0
    };
    let mut tiles: Vec<(i32, i32)> = Vec::new();
    let mut tx: i64 = min_tx;
    while tx <= max_tx
        invariant
            i32::MIN <= min_tx <= i32::MAX,
            i32::MIN <= max_tx <= i32::MAX,
            i32::MIN <= min_ty <= i32::MAX,
            i32::MIN <= max_ty <= i32::MAX,
            min_tx <= tx <= max_tx + 1 || (tx == min_tx && max_tx < min_tx),
            count == (if max_ty >= min_ty {
                (max_ty - min_ty + 1) as nat
            } else {
                0
            }),
            tiles@ == tile_columns(min_tx as int, tx as int, min_ty as int, max_ty as int),
        decreases max_tx + 1 - tx,
    {
        let mut ty: i64 = min_ty;
        let ghost base = tiles@;
        while ty <= max_ty
            invariant
                i32::MIN <= min_tx <= tx <= max_tx <= i32::MAX,
                i32::MIN <= min_ty <= i32::MAX,
                i32::MIN <= max_ty <= i32::MAX,
                min_ty <= ty <= max_ty + 1 || (ty == min_ty && max_ty < min_ty),
                tiles@ == base + tile_column(tx as int, min_ty as int, (ty - min_ty) as nat),
            decreases max_ty + 1 - ty,
        {
            tiles.push((tx as i32, ty as i32));
            assert(tile_column(tx as int, min_ty as int, (ty - min_ty) as nat).push(
                (tx as i32, ty as i32),
            ) =~= tile_column(tx as int, min_ty as int, (ty + 1 - min_ty) as nat));
            ty = ty + 1;
        }
        assert(tile_column(tx as int, min_ty as int, (ty - min_ty) as nat) =~= tile_column(
            tx as int,
            min_ty as int,
            count,
        ));
        tx = tx + 1;
    }
    tiles
}

/// The key under which the canvas caches the instance buffer of a tile.
#[derive(Clone, Copy, Debug, PartialEq, Eq, Hash, Structural)]
pub struct GpuBufferKey {
    pub geometry_epoch: u64,
    pub tile_x: i32,
    pub tile_y: i32,
    pub zoom_tier: u8,
    pub layer_visibility_hash: u64,
    pub object_visibility_bits: u32,
}

/// The area of a rectangle counted with each side at least one unit.
pub open spec fn padded_area(r: Rect32) -> int {
    let w = if r.hx - r.lx >= 1 {
        r.hx - r.lx
    } else {
        1
    };
    let h = if r.hy - r.ly >= 1 {
        r.hy - r.ly
    } else {
        1
    };
    w * h
}

/// The extents of the rectangle fit in `i32`.
pub open spec fn extents_fit(r: Rect32) -> bool {
    i32::MIN <= r.hx - r.lx <= i32::MAX && i32::MIN <= r.hy - r.ly <= i32::MAX
}

fn padded_side(low: i32, high: i32) -> (s: i64)
    requires
        i32::MIN <= high - low <= i32::MAX,
    ensures
        s == if high - low >= 1 {
            high - low
        } else {
            1
        },
        1 <= s <= i32::MAX,
{
    let d: i32 = high - low;
    if d >= 1 {
        d as i64
    } else {
        1
    }
}

/// Whether a tile covers at least seven tenths of the die, each area taken
/// with sides of at least one unit.
pub fn tile_is_full_die(bbox: Rect32, world: Rect32) -> (full: bool)
    requires
        extents_fit(bbox),
        extents_fit(world),
        padded_area(bbox) * 10 <= i64::MAX,
        padded_area(world) * 7 <= i64::MAX,
    ensures
        full == (padded_area(bbox) * 10 >= padded_area(world) * 7),
{
    let tile_w = padded_side(bbox.lx, bbox.hx);
    let tile_h = padded_side(bbox.ly, bbox.hy);
    let world_w = padded_side(world.lx, world.hx);
    let world_h = padded_side(world.ly, world.hy);
    assert(tile_w * tile_h <= 0x4000_0000_0000_0000) by (nonlinear_arith)
        requires
            1 <= tile_w <= i32::MAX,
            1 <= tile_h <= i32::MAX,
    ;
    assert(world_w * world_h <= 0x4000_0000_0000_0000) by (nonlinear_arith)
        requires
            1 <= world_w <= i32::MAX,
            1 <= world_h <= i32::MAX,
    ;
    let tile_area: i64 = tile_w * tile_h;
    let world_area: i64 = world_w * world_h;
    tile_area * 10 >= world_area * 7
}

/// The level that the overview draws: the first candidate that has useful
/// tiles and fits the budget; failing that, the last candidate with useful
/// tiles (`fallback` until one is seen); `None` when no candidate has any.
pub open spec fn chosen_lod(
    lods: Seq<(u8, usize, usize)>,
    budget: usize,
    fallback: Option<u8>,
) -> Option<u8>
    decreases lods.len(),
{
    if lods.len() == 0 {
        fallback
    } else {
        let (lod, total, useful) = lods[0];
        if useful == 0 {
            chosen_lod(lods.drop_first(), budget, fallback)
        } else if total <= budget {
            Some(lod)
        } else {
            chosen_lod(lods.drop_first(), budget, Some(lod))
        }
    }
}

/// Picks the overview level of detail from candidates `(level, total
/// tiles, useful tiles)` in order of preference (see `chosen_lod`).
pub fn choose_overview_lod(lods: &[(u8, usize, usize)], budget: usize) -> (chosen: Option<u8>)
    ensures
        chosen == chosen_lod(lods@, budget, None),
{
    let mut fallback: Option<u8> = None;
    let mut i: usize = 0;
    assert(lods@.skip(0) =~= lods@);
    while i < lods.len()
        invariant
            i <= lods@.len(),
            chosen_lod(lods@.skip(i as int), budget, fallback) == chosen_lod(lods@, budget, None),
        decreases lods@.len() - i,
    {
        assert(lods@.skip(i as int).drop_first() =~= lods@.skip(i as int + 1));
        let (lod, total, useful) = lods[i];
        if useful != 0 {
            if total <= budget {
                return Some(lod);
            }
            fallback = Some(lod);
        }
        i = i + 1;
    }
    assert(lods@.skip(i as int).len() == 0);
    fallback
}

/// The FNV-1a offset basis.
pub const FNV_OFFSET_BASIS: u32 = 0x811c_9dc5;

/// The FNV prime for 32 bits.
pub const FNV_PRIME: u32 = 0x0100_0193;

/// One FNV-1a step: the byte is mixed in, then the state is multiplied by
/// the prime modulo 2^32.
pub open spec fn fnv_step(h: u32, b: u8) -> u32 {
    (((h ^ (b as u32)) as nat * FNV_PRIME as nat) % 0x1_0000_0000) as u32
}

/// FNV-1a over a byte sequence from a given state.
pub open spec fn fnv_bytes(h: u32, bytes: Seq<u8>) -> u32
    decreases bytes.len(),
{
    if bytes.len() == 0 {
        h
    } else {
        fnv_bytes(fnv_step(h, bytes[0]), bytes.drop_first())
    }
}

/// FNV-1a over a prefix and then one more byte.
proof fn lemma_fnv_push(h: u32, bytes: Seq<u8>, b: u8)
    ensures
        fnv_bytes(h, bytes.push(b)) == fnv_step(fnv_bytes(h, bytes), b),
    decreases bytes.len(),
{
    if bytes.len() == 0 {
        assert(bytes.push(b).drop_first() =~= Seq::<u8>::empty());
        assert(bytes.push(b)[0] == b);
        assert(fnv_bytes(fnv_step(h, b), Seq::<u8>::empty()) == fnv_step(h, b));
    } else {
        assert(bytes.push(b)[0] == bytes[0]);
        assert(bytes.push(b).drop_first() =~= bytes.drop_first().push(b));
        lemma_fnv_push(fnv_step(h, bytes[0]), bytes.drop_first(), b);
    }
}

/// The four little-endian bytes of an `i32`.
pub open spec fn le_bytes_i32(v: i32) -> Seq<u8> {
    seq![byte_of(v as u32, 0), byte_of(v as u32, 1), byte_of(v as u32, 2), byte_of(v as u32, 3)]
}

/// The sixteen bytes that the hash reads from a rectangle: `lx`, `ly`,
/// `hx`, `hy`, each little-endian.
pub open spec fn rect_bytes(r: Rect32) -> Seq<u8> {
    le_bytes_i32(r.lx) + le_bytes_i32(r.ly) + le_bytes_i32(r.hx) + le_bytes_i32(r.hy)
}

/// 32-bit FNV-1a of the rectangle's sixteen little-endian bytes.
pub open spec fn spec_hash_bbox(r: Rect32) -> u32 {
    fnv_bytes(FNV_OFFSET_BASIS, rect_bytes(r))
}

/// A deterministic 32-bit FNV-1a hash of a rectangle's coordinates.
pub fn hash_bbox_u32(bbox: Rect32) -> (h: u32)
    ensures
        h == spec_hash_bbox(bbox),
{
    let values: [i32; 4] = [bbox.lx, bbox.ly, bbox.hx, bbox.hy];
    let ghost all = rect_bytes(bbox);
    let mut h: u32 = FNV_OFFSET_BASIS;
    let mut i: usize = 0;
    while i < 4
        invariant
            i <= 4,
            values@ == seq![bbox.lx, bbox.ly, bbox.hx, bbox.hy],
            all == rect_bytes(bbox),
            all.len() == 16,
            h == fnv_bytes(FNV_OFFSET_BASIS, all.take(4 * i as int)),
        decreases 4 - i,
    {
        let v: u32 = values[i] as u32;
        assert(le_bytes_i32(values@[i as int]) =~= all.subrange(4 * i as int, 4 * i as int + 4));
        let mut k: u32 = 0;
        while k < 4
            invariant
                i < 4,
                k <= 4,
                v == values@[i as int] as u32,
                values@ == seq![bbox.lx, bbox.ly, bbox.hx, bbox.hy],
                all == rect_bytes(bbox),
                all.len() == 16,
                le_bytes_i32(values@[i as int]) =~= all.subrange(4 * i as int, 4 * i as int + 4),
                h == fnv_bytes(FNV_OFFSET_BASIS, all.take(4 * i as int + k as int)),
            decreases 4 - k,
        {
            let b: u8 = ((v >> (8 * k)) & 0xff) as u8;
            assert(b == byte_of(v, k));
            assert(all[4 * i as int + k as int] == b);
            proof {
                lemma_fnv_push(
                    FNV_OFFSET_BASIS,
                    all.take(4 * i as int + k as int),
                    all[4 * i as int + k as int],
                );
                assert(all.take(4 * i as int + k as int).push(all[4 * i as int + k as int])
                    =~= all.take(4 * i as int + k as int + 1));
            }
            h = (h ^ (b as u32)).wrapping_mul(FNV_PRIME);
            k = k + 1;
        }
        i = i + 1;
    }
    assert(all.take(16) =~= all);
    h
}


/// The area a view covers against the die's, each side at least one unit;
/// the die's area times six saturates at `i64::MAX`.
pub open spec fn view_tiles_pay_off(viewport: Rect32, world: Rect32) -> bool {
    let world6 = if padded_area(world) * 6 > i64::MAX {
        i64::MAX as int
    } else {
        padded_area(world) * 6
    };
    padded_area(viewport) >= world6
}

/// Whether the canvas draws precomputed view tiles in place of exact
/// shapes: only when tiles exist, no draft and no edit session need exact
/// geometry, the zoom is far out (`far_zoom`: the zoom is at most 0.35),
/// and the view covers at least six dies.
pub fn should_use_view_tiles_for_state(
    view_tile_count: usize,
    has_highlight: bool,
    has_selection: bool,
    has_draft: bool,
    edit_enabled: bool,
    far_zoom: bool,
    viewport: Rect32,
    world: Rect32,
) -> (r: bool)
    requires
        extents_fit(viewport),
        extents_fit(world),
    ensures
        r == (view_tile_count > 0 && !has_draft && !edit_enabled && far_zoom && view_tiles_pay_off(
            viewport,
            world,
        )),
{
    if view_tile_count == 0 {
        return false;
    }
    if has_draft || edit_enabled {
        return false;
    }
    let viewport_width = padded_side(viewport.lx, viewport.hx);
    let viewport_height = padded_side(viewport.ly, viewport.hy);
    let world_width = padded_side(world.lx, world.hx);
    let world_height = padded_side(world.ly, world.hy);
    assert(viewport_width * viewport_height <= 0x4000_0000_0000_0000) by (nonlinear_arith)
        requires
            1 <= viewport_width <= i32::MAX,
            1 <= viewport_height <= i32::MAX,
    ;
    assert(world_width * world_height <= 0x4000_0000_0000_0000) by (nonlinear_arith)
        requires
            1 <= world_width <= i32::MAX,
            1 <= world_height <= i32::MAX,
    ;
    assert(world_width * world_height >= 1) by (nonlinear_arith)
        requires
            1 <= world_width,
            1 <= world_height,
    ;
    let viewport_area: i64 = viewport_width * viewport_height;
    let world_area: i64 = world_width * world_height;
    let world6: i64 = if world_area > i64::MAX / 6 {
        i64::MAX
    } else {
        world_area * 6
    };
    far_zoom && viewport_area >= world6
}

/// Two rectangles share at least a point.
pub open spec fn rects_touch(a: Rect32, b: Rect32) -> bool {
    spec_intersect_rect(a, b) is Some
}

/// A fly line from a net's hub to its pins, drawn before the net is
/// routed.
pub struct UnroutedNetGuide {
    pub net_name: String,
    pub net_kind: String,
    pub hub: Point32,
    pub pin_centers: Vec<Point32>,
    pub bbox: Rect32,
}

/// A guide is drawn when its box meets the viewport and the drawing
/// category of its net kind is switched on.
pub fn unrouted_net_guide_is_visible(
    guide: &UnroutedNetGuide,
    visibility: ObjectVisibility,
    viewport: Rect32,
) -> (r: bool)
    ensures
        r == (rects_touch(guide.bbox, viewport) && category_visible(
            visibility,
            net_category(Some(guide.net_kind@)),
        )),
{
    intersect_rect(guide.bbox, viewport).is_some() && visibility.is_category_visible(
        crate::visibility::net_kind_drawing_category(Some(guide.net_kind.as_str())),
    )
}

/// The fill patterns of layer styles.
#[derive(Clone, Copy, Debug, PartialEq, Eq, Structural)]
pub enum FillPattern {
    Hollow,
    Solid,
    SparseDots,
    DenseDots,
    DiagonalHatch,
    CrossHatch,
    HorizontalHatch,
    VerticalHatch,
    Grid,
    XMark,
}

/// The code the canvas shader knows a fill pattern by: its position in
/// the list above.
pub open spec fn pattern_code(p: FillPattern) -> u32 {
    match p {
        FillPattern::Hollow => 0,
        FillPattern::Solid => 1,
        FillPattern::SparseDots => 2,
        FillPattern::DenseDots => 3,
        FillPattern::DiagonalHatch => 4,
        FillPattern::CrossHatch => 5,
        FillPattern::HorizontalHatch => 6,
        FillPattern::VerticalHatch => 7,
        FillPattern::Grid => 8,
        FillPattern::XMark => 9,
    }
}

/// The shader code of a fill pattern (see `pattern_code`).
pub fn fill_pattern_id(pattern: FillPattern) -> (id: u32)
    ensures
        id == pattern_code(pattern),
{
    match pattern {
        FillPattern::Hollow => 0,
        FillPattern::Solid => 1,
        FillPattern::SparseDots => 2,
        FillPattern::DenseDots => 3,
        FillPattern::DiagonalHatch => 4,
        FillPattern::CrossHatch => 5,
        FillPattern::HorizontalHatch => 6,
        FillPattern::VerticalHatch => 7,
        FillPattern::Grid => 8,
        FillPattern::XMark => 9,
    }
}

/// A wire segment from `begin` to `end` of the given width.
#[derive(Clone, Copy, Debug, PartialEq, Eq, Structural)]
pub struct LinePayload {
    pub begin: Point32,
    pub end: Point32,
    pub width: i32,
}

/// What a shape's payload describes.
#[derive(Clone, Copy, Debug, PartialEq, Eq, Structural)]
pub enum ShapeGeometry {
    Rect(Rect32),
    Line(LinePayload),
    Point(Point32),
}

/// The instance flag of a line.
pub const FLAG_LINE: u32 = 1;

/// The instance flag of a point.
pub const FLAG_POINT: u32 = 2;

/// Half the drawn thickness of a line: half its width, the width counted
/// as at least 80 units.
pub open spec fn line_half(width: i32) -> int {
    let w: int = if width < 0 {
        -width
    } else {
        width as int
    };
    let w = if w >= 80 {
        w
    } else {
        80
    };
    w / 2
}

/// The rectangle a line is drawn as: a horizontal or vertical line keeps
/// its extent along itself and gets the half thickness on both sides
/// across; any other line gets its bounding box widened by the half
/// thickness; edges saturate at the `i32` range.
pub open spec fn line_rect(line: LinePayload) -> Seq<i32> {
    let half = line_half(line.width);
    let b = line.begin;
    let e = line.end;
    if b.y == e.y {
        seq![min_i32(b.x, e.x), clamp_to_i32(b.y - half), max_i32(b.x, e.x), clamp_to_i32(b.y + half)]
    } else if b.x == e.x {
        seq![clamp_to_i32(b.x - half), min_i32(b.y, e.y), clamp_to_i32(b.x + half), max_i32(b.y, e.y)]
    } else {
        seq![
            clamp_to_i32(min_i32(b.x, e.x) - half),
            clamp_to_i32(min_i32(b.y, e.y) - half),
            clamp_to_i32(max_i32(b.x, e.x) + half),
            clamp_to_i32(max_i32(b.y, e.y) + half),
        ]
    }
}

fn min32(a: i32, b: i32) -> (r: i32)
    ensures
        r == min_i32(a, b),
{
    if a <= b {
        a
    } else {
        b
    }
}

fn max32(a: i32, b: i32) -> (r: i32)
    ensures
        r == max_i32(a, b),
{
    if a >= b {
        a
    } else {
        b
    }
}

/// The rectangle `[lx, ly, hx, hy]` a line is drawn as (see `line_rect`).
pub fn line_to_rect_dbu(line: LinePayload) -> (r: [i32; 4])
    requires
        line.width != i32::MIN,
    ensures
        r@ == line_rect(line),
{
    let w: i64 = if line.width < 0 {
        -(line.width as i64)
    } else {
        line.width as i64
    };
    let w: i64 = if w >= 80 {
        w
    } else {
        80
    };
    let half: i64 = w / 2;
    let b = line.begin;
    let e = line.end;
    let r: [i32; 4] = if b.y == e.y {
        [
            min32(b.x, e.x),
            clamp_i64_to_i32(b.y as i64 - half),
            max32(b.x, e.x),
            clamp_i64_to_i32(b.y as i64 + half),
        ]
    } else if b.x == e.x {
        [
            clamp_i64_to_i32(b.x as i64 - half),
            min32(b.y, e.y),
            clamp_i64_to_i32(b.x as i64 + half),
            max32(b.y, e.y),
        ]
    } else {
        [
            clamp_i64_to_i32(min32(b.x, e.x) as i64 - half),
            clamp_i64_to_i32(min32(b.y, e.y) as i64 - half),
            clamp_i64_to_i32(max32(b.x, e.x) as i64 + half),
            clamp_i64_to_i32(max32(b.y, e.y) as i64 + half),
        ]
    };
    assert(r@ =~= line_rect(line));
    r
}

/// The instance a shape's geometry is drawn as: a rectangle with a
/// positive area as it is (flag 0), a line as its rectangle (see
/// `line_rect`, flag `FLAG_LINE`), a point as a square of half side 80
/// (flag `FLAG_POINT`); none for an empty rectangle.
pub open spec fn geometry_instance(g: ShapeGeometry) -> Option<(Seq<i32>, u32)> {
    match g {
        ShapeGeometry::Rect(r) => if r.hx <= r.lx || r.hy <= r.ly {
            None
        } else {
            Some((seq![r.lx, r.ly, r.hx, r.hy], 0u32))
        },
        ShapeGeometry::Line(l) => Some((line_rect(l), FLAG_LINE)),
        ShapeGeometry::Point(p) => Some(
            (
                seq![
                    clamp_to_i32(p.x - 80),
                    clamp_to_i32(p.y - 80),
                    clamp_to_i32(p.x + 80),
                    clamp_to_i32(p.y + 80),
                ],
                FLAG_POINT,
            ),
        ),
    }
}

/// The instance of a shape's geometry (see `geometry_instance`).
pub fn geometry_to_instance(geometry: ShapeGeometry) -> (r: Option<([i32; 4], u32)>)
    requires
        geometry matches ShapeGeometry::Line(l) ==> l.width != i32::MIN,
    ensures
        match r {
            Some((rect, flag)) => geometry_instance(geometry) == Some((rect@, flag)),
            None => geometry_instance(geometry) is None,
        },
{
    match geometry {
        ShapeGeometry::Rect(rect) => {
            if rect.hx <= rect.lx || rect.hy <= rect.ly {
                return None;
            }
            let r: [i32; 4] = [rect.lx, rect.ly, rect.hx, rect.hy];
            assert(r@ =~= seq![rect.lx, rect.ly, rect.hx, rect.hy]);
            Some((r, 0))
        },
        ShapeGeometry::Line(line) => Some((line_to_rect_dbu(line), FLAG_LINE)),
        ShapeGeometry::Point(point) => {
            let half: i64 = 80;
            let r: [i32; 4] = [
                clamp_i64_to_i32(point.x as i64 - half),
                clamp_i64_to_i32(point.y as i64 - half),
                clamp_i64_to_i32(point.x as i64 + half),
                clamp_i64_to_i32(point.y as i64 + half),
            ];
            assert(r@ =~= seq![
                clamp_to_i32(point.x - 80),
                clamp_to_i32(point.y - 80),
                clamp_to_i32(point.x + 80),
                clamp_to_i32(point.y + 80),
            ]);
            Some((r, FLAG_POINT))
        },
    }
}

} // verus!
