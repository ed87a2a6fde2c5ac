//! How a shape is painted: the style of its layer, reworked by the kind of
//! design object that owns it, and the per-layer style lookup the canvas
//! keeps.

use vstd::prelude::*;
use crate::geometry::Rect32;
use crate::render::{FillPattern, ShapeGeometry, pattern_code, pack_rgba_u32, fill_pattern_id};
use std::collections::BTreeMap;
use vstd::std_specs::iter::IteratorSpec;
use vstd::std_specs::cmp::OrdSpec;
use crate::grids::GridMetadata;
use crate::layers::LayerUiState;
use crate::selection::{OwnerRef, ShapeRecord};
use crate::visibility::{OwnerType, owner_type_of_raw, LAYOUT_GEOMETRY_LAYER, DrawingCategory,
    ObjectVisibility, category_visible, uses_layer_visibility, shape_uses_layer_visibility};

verus! {

broadcast use {
    vstd::array::group_array_axioms,
    vstd::std_specs::btree::group_btree_axioms,
    vstd::laws_cmp::group_laws_cmp,
};

/// The grey of layout-level geometry.
pub const LAYOUT_GEOMETRY_GRAY: u8 = 148;

/// The most opaque fill layout-level geometry gets.
pub const LAYOUT_GEOMETRY_MAX_FILL_ALPHA: u8 = 48;

/// The most opaque frame layout-level geometry gets.
pub const LAYOUT_GEOMETRY_MAX_FRAME_ALPHA: u8 = 128;

/// How the shapes of one layer are painted: fill and frame colours
/// (red, green, blue, alpha), the alphas again on their own, the fill
/// pattern and the frame width in pixels.
#[derive(Clone, Copy, Debug)]
pub struct LayerStyle {
    pub layer_id: u16,
    pub visible: bool,
    pub rgba: [u8; 4],
    pub frame_rgba: [u8; 4],
    pub fill_alpha: u8,
    pub frame_alpha: u8,
    pub fill_pattern: FillPattern,
    pub line_width_px: u8,
}

/// A layer style with its colours as sequences.
pub struct StyleView {
    pub layer_id: u16,
    pub visible: bool,
    pub rgba: Seq<u8>,
    pub frame_rgba: Seq<u8>,
    pub fill_alpha: u8,
    pub frame_alpha: u8,
    pub fill_pattern: FillPattern,
    pub line_width_px: u8,
}

impl View for LayerStyle {
    type V = StyleView;

    open spec fn view(&self) -> StyleView {
        StyleView {
            layer_id: self.layer_id,
            visible: self.visible,
            rgba: self.rgba@,
            frame_rgba: self.frame_rgba@,
            fill_alpha: self.fill_alpha,
            frame_alpha: self.frame_alpha,
            fill_pattern: self.fill_pattern,
            line_width_px: self.line_width_px,
        }
    }
}

/// The smaller of two bytes.
pub open spec fn min_u8(a: u8, b: u8) -> u8 {
    if a <= b {
        a
    } else {
        b
    }
}

/// The larger of two bytes.
pub open spec fn max_u8(a: u8, b: u8) -> u8 {
    if a >= b {
        a
    } else {
        b
    }
}

/// The style in the layer's own colour with the given alphas, pattern and
/// frame width.
pub open spec fn retextured(
    s: StyleView,
    fill_alpha: u8,
    frame_alpha: u8,
    pattern: FillPattern,
    width: u8,
) -> StyleView {
    StyleView {
        rgba: s.rgba.take(3).push(fill_alpha),
        frame_rgba: s.rgba.take(3).push(frame_alpha),
        fill_alpha,
        frame_alpha,
        fill_pattern: pattern,
        line_width_px: width,
        ..s
    }
}

/// The style of context geometry: no fill, only a frame in the layer's
/// colour.
pub open spec fn outlined(s: StyleView, frame_alpha: u8, width: u8) -> StyleView {
    StyleView {
        rgba: s.rgba.update(3, 0),
        frame_rgba: s.rgba.take(3).push(frame_alpha),
        fill_alpha: 0,
        frame_alpha,
        fill_pattern: FillPattern::Hollow,
        line_width_px: width,
        ..s
    }
}

/// The fixed amber look of IO pins.
pub open spec fn io_pin_look(s: StyleView) -> StyleView {
    StyleView {
        rgba: seq![245u8, 190u8, 32u8, 104u8],
        frame_rgba: seq![255u8, 222u8, 89u8, 232u8],
        fill_alpha: 104,
        frame_alpha: 232,
        fill_pattern: FillPattern::CrossHatch,
        line_width_px: 2,
        ..s
    }
}

/// The translucent grey of layout-level geometry, keeping the style's
/// alphas up to their limits.
pub open spec fn grayed(s: StyleView) -> StyleView {
    let fill = min_u8(s.fill_alpha, LAYOUT_GEOMETRY_MAX_FILL_ALPHA);
    let frame = min_u8(s.frame_alpha, LAYOUT_GEOMETRY_MAX_FRAME_ALPHA);
    StyleView {
        rgba: seq![LAYOUT_GEOMETRY_GRAY, LAYOUT_GEOMETRY_GRAY, LAYOUT_GEOMETRY_GRAY, fill],
        frame_rgba: seq![LAYOUT_GEOMETRY_GRAY, LAYOUT_GEOMETRY_GRAY, LAYOUT_GEOMETRY_GRAY, frame],
        fill_alpha: fill,
        frame_alpha: frame,
        ..s
    }
}

/// The style a layer style becomes for shapes of an owner type.
pub open spec fn owner_look(s: StyleView, owner_type: Option<OwnerType>) -> StyleView {
    match owner_type {
        Some(OwnerType::Die) | Some(OwnerType::Core) => outlined(s, 170, 2),
        Some(OwnerType::Row) => outlined(s, 46, 1),
        Some(OwnerType::TrackGrid) => outlined(s, 82, 1),
        Some(OwnerType::GCellGrid) => outlined(s, 104, 2),
        Some(OwnerType::Obs) => retextured(s, 52, 190, FillPattern::CrossHatch, 1),
        Some(OwnerType::Via) => retextured(s, 48, 220, FillPattern::XMark, 1),
        Some(OwnerType::PinPortShape) | Some(OwnerType::InstancePinPortShape) => retextured(
            s,
            64,
            215,
            FillPattern::Grid,
            2,
        ),
        Some(OwnerType::IoPinPortShape) => io_pin_look(s),
        Some(OwnerType::NetWireSegment) => retextured(
            s,
            max_u8(s.fill_alpha, 56),
            max_u8(s.frame_alpha, 210),
            FillPattern::DiagonalHatch,
            s.line_width_px,
        ),
        Some(OwnerType::SpecialWireSegment) => retextured(s, 76, 235, FillPattern::Grid, 2),
        Some(OwnerType::InstanceBBox) => retextured(s, 64, 172, FillPattern::Solid, 1),
        Some(OwnerType::InstanceHalo) => retextured(s, 38, 156, FillPattern::HorizontalHatch, 1),
        Some(OwnerType::Blockage) => retextured(s, 66, 220, FillPattern::CrossHatch, 1),
        Some(OwnerType::Fill) => retextured(s, 42, 150, FillPattern::SparseDots, 1),
        Some(OwnerType::Region) => retextured(s, 36, 180, FillPattern::VerticalHatch, 1),
        Some(OwnerType::Slot) => retextured(s, 48, 190, FillPattern::HorizontalHatch, 1),
        None => s,
    }
}

/// The owner type of an optional owner.
pub open spec fn owner_type_of(owner: Option<&OwnerRef>) -> Option<OwnerType> {
    match owner {
        Some(o) => owner_type_of_raw(o.owner_type),
        None => None,
    }
}

/// The style a shape is painted with: its layer's style reworked for its
/// owner, and greyed on the layout-geometry layer.
pub open spec fn shape_look(s: StyleView, owner_type: Option<OwnerType>) -> StyleView {
    let o = owner_look(s, owner_type);
    if o.layer_id == LAYOUT_GEOMETRY_LAYER {
        grayed(o)
    } else {
        o
    }
}

/// The red, green and blue of a style's fill.
pub fn layer_style_rgb(style: LayerStyle) -> (rgb: [u8; 3])
    ensures
        rgb@ == style@.rgba.take(3),
{
    let rgb = [style.rgba[0], style.rgba[1], style.rgba[2]];
    assert(rgb@ =~= style@.rgba.take(3));
    rgb
}

/// The style in the layer's own colour with the given alphas, pattern and
/// frame width.
pub fn owner_texture_style(
    style: LayerStyle,
    fill_alpha: u8,
    frame_alpha: u8,
    fill_pattern: FillPattern,
    line_width_px: u8,
) -> (r: LayerStyle)
    ensures
        r@ == retextured(style@, fill_alpha, frame_alpha, fill_pattern, line_width_px),
{
    let rgb = layer_style_rgb(style);
    let mut r = style;
    r.rgba = [rgb[0], rgb[1], rgb[2], fill_alpha];
    r.frame_rgba = [rgb[0], rgb[1], rgb[2], frame_alpha];
    r.fill_alpha = fill_alpha;
    r.frame_alpha = frame_alpha;
    r.fill_pattern = fill_pattern;
    r.line_width_px = line_width_px;
    assert(r@.rgba =~= style@.rgba.take(3).push(fill_alpha));
    assert(r@.frame_rgba =~= style@.rgba.take(3).push(frame_alpha));
    r
}

/// The style in the layer's own colour with a solid fill.
pub fn solid_owner_texture_style(
    style: LayerStyle,
    fill_alpha: u8,
    frame_alpha: u8,
    line_width_px: u8,
) -> (r: LayerStyle)
    ensures
        r@ == retextured(style@, fill_alpha, frame_alpha, FillPattern::Solid, line_width_px),
{
    owner_texture_style(style, fill_alpha, frame_alpha, FillPattern::Solid, line_width_px)
}

/// The fixed amber look of IO pins.
pub fn io_pin_texture_style(style: LayerStyle) -> (r: LayerStyle)
    ensures
        r@ == io_pin_look(style@),
{
    let mut r = style;
    r.rgba = [245, 190, 32, 104];
    r.frame_rgba = [255, 222, 89, 232];
    r.fill_alpha = r.rgba[3];
    r.frame_alpha = r.frame_rgba[3];
    r.fill_pattern = FillPattern::CrossHatch;
    r.line_width_px = 2;
    assert(r@.rgba =~= seq![245u8, 190u8, 32u8, 104u8]);
    assert(r@.frame_rgba =~= seq![255u8, 222u8, 89u8, 232u8]);
    r
}

/// The style of context geometry: no fill, a frame in the layer's colour.
pub fn context_style(style: LayerStyle, frame_alpha: u8, line_width_px: u8) -> (r: LayerStyle)
    ensures
        r@ == outlined(style@, frame_alpha, line_width_px),
{
    let rgb = layer_style_rgb(style);
    let mut r = style;
    r.rgba = [style.rgba[0], style.rgba[1], style.rgba[2], 0];
    r.fill_alpha = 0;
    r.fill_pattern = FillPattern::Hollow;
    r.frame_rgba = [rgb[0], rgb[1], rgb[2], frame_alpha];
    r.frame_alpha = frame_alpha;
    r.line_width_px = line_width_px;
    assert(r@.rgba =~= style@.rgba.update(3, 0));
    assert(r@.frame_rgba =~= style@.rgba.take(3).push(frame_alpha));
    r
}

/// The translucent grey of layout-level geometry.
pub fn transparent_gray_layout_style(style: LayerStyle) -> (r: LayerStyle)
    ensures
        r@ == grayed(style@),
{
    let fill = if style.fill_alpha <= LAYOUT_GEOMETRY_MAX_FILL_ALPHA {
        style.fill_alpha
    } else {
        LAYOUT_GEOMETRY_MAX_FILL_ALPHA
    };
    let frame = if style.frame_alpha <= LAYOUT_GEOMETRY_MAX_FRAME_ALPHA {
        style.frame_alpha
    } else {
        LAYOUT_GEOMETRY_MAX_FRAME_ALPHA
    };
    let mut r = style;
    r.rgba = [LAYOUT_GEOMETRY_GRAY, LAYOUT_GEOMETRY_GRAY, LAYOUT_GEOMETRY_GRAY, fill];
    r.frame_rgba = [LAYOUT_GEOMETRY_GRAY, LAYOUT_GEOMETRY_GRAY, LAYOUT_GEOMETRY_GRAY, frame];
    r.fill_alpha = fill;
    r.frame_alpha = frame;
    assert(r@.rgba =~= seq![LAYOUT_GEOMETRY_GRAY, LAYOUT_GEOMETRY_GRAY, LAYOUT_GEOMETRY_GRAY, fill]);
    assert(r@.frame_rgba =~= seq![
        LAYOUT_GEOMETRY_GRAY,
        LAYOUT_GEOMETRY_GRAY,
        LAYOUT_GEOMETRY_GRAY,
        frame,
    ]);
    r
}

/// The style of the layout-geometry layer itself: hollow translucent grey.
pub open spec fn layout_style_view() -> StyleView {
    StyleView {
        layer_id: LAYOUT_GEOMETRY_LAYER,
        visible: true,
        rgba: seq![
            LAYOUT_GEOMETRY_GRAY,
            LAYOUT_GEOMETRY_GRAY,
            LAYOUT_GEOMETRY_GRAY,
            LAYOUT_GEOMETRY_MAX_FILL_ALPHA,
        ],
        frame_rgba: seq![
            LAYOUT_GEOMETRY_GRAY,
            LAYOUT_GEOMETRY_GRAY,
            LAYOUT_GEOMETRY_GRAY,
            LAYOUT_GEOMETRY_MAX_FRAME_ALPHA,
        ],
        fill_alpha: LAYOUT_GEOMETRY_MAX_FILL_ALPHA,
        frame_alpha: LAYOUT_GEOMETRY_MAX_FRAME_ALPHA,
        fill_pattern: FillPattern::Hollow,
        line_width_px: 1,
    }
}

/// The style of the layout-geometry layer (see `layout_style_view`).
pub fn layout_geometry_layer_style() -> (r: LayerStyle)
    ensures
        r@ == layout_style_view(),
{
    let r = LayerStyle {
        layer_id: LAYOUT_GEOMETRY_LAYER,
        visible: true,
        rgba: [
            LAYOUT_GEOMETRY_GRAY,
            LAYOUT_GEOMETRY_GRAY,
            LAYOUT_GEOMETRY_GRAY,
            LAYOUT_GEOMETRY_MAX_FILL_ALPHA,
        ],
        frame_rgba: [
            LAYOUT_GEOMETRY_GRAY,
            LAYOUT_GEOMETRY_GRAY,
            LAYOUT_GEOMETRY_GRAY,
            LAYOUT_GEOMETRY_MAX_FRAME_ALPHA,
        ],
        fill_alpha: LAYOUT_GEOMETRY_MAX_FILL_ALPHA,
        frame_alpha: LAYOUT_GEOMETRY_MAX_FRAME_ALPHA,
        fill_pattern: FillPattern::Hollow,
        line_width_px: 1,
    };
    assert(r@.rgba =~= seq![
        LAYOUT_GEOMETRY_GRAY,
        LAYOUT_GEOMETRY_GRAY,
        LAYOUT_GEOMETRY_GRAY,
        LAYOUT_GEOMETRY_MAX_FILL_ALPHA,
    ]);
    assert(r@.frame_rgba =~= seq![
        LAYOUT_GEOMETRY_GRAY,
        LAYOUT_GEOMETRY_GRAY,
        LAYOUT_GEOMETRY_GRAY,
        LAYOUT_GEOMETRY_MAX_FRAME_ALPHA,
    ]);
    r
}

/// The style a shape of this owner is painted with (see `shape_look`).
pub fn style_for_shape(style: LayerStyle, owner: Option<&OwnerRef>) -> (r: LayerStyle)
    ensures
        r@ == shape_look(style@, owner_type_of(owner)),
{
    let owner_type = match owner {
        Some(o) => OwnerType::from_raw(o.owner_type),
        None => None,
    };
    let styled = match owner_type {
        Some(OwnerType::Die) | Some(OwnerType::Core) => context_style(style, 170, 2),
        Some(OwnerType::Row) => context_style(style, 46, 1),
        Some(OwnerType::TrackGrid) => context_style(style, 82, 1),
        Some(OwnerType::GCellGrid) => context_style(style, 104, 2),
        Some(OwnerType::Obs) => owner_texture_style(style, 52, 190, FillPattern::CrossHatch, 1),
        Some(OwnerType::Via) => owner_texture_style(style, 48, 220, FillPattern::XMark, 1),
        Some(OwnerType::PinPortShape) | Some(OwnerType::InstancePinPortShape) => {
            owner_texture_style(style, 64, 215, FillPattern::Grid, 2)
        },
        Some(OwnerType::IoPinPortShape) => io_pin_texture_style(style),
        Some(OwnerType::NetWireSegment) => {
            let fill_alpha = if style.fill_alpha >= 56 {
                style.fill_alpha
            } else {
                56
            };
            let frame_alpha = if style.frame_alpha >= 210 {
                style.frame_alpha
            } else {
                210
            };
            let line_width_px = style.line_width_px;
            owner_texture_style(
                style,
                fill_alpha,
                frame_alpha,
                FillPattern::DiagonalHatch,
                line_width_px,
            )
        },
        Some(OwnerType::SpecialWireSegment) => owner_texture_style(
            style,
            76,
            235,
            FillPattern::Grid,
            2,
        ),
        Some(OwnerType::InstanceBBox) => solid_owner_texture_style(style, 64, 172, 1),
        Some(OwnerType::InstanceHalo) => owner_texture_style(
            style,
            38,
            156,
            FillPattern::HorizontalHatch,
            1,
        ),
        Some(OwnerType::Blockage) => owner_texture_style(
            style,
            66,
            220,
            FillPattern::CrossHatch,
            1,
        ),
        Some(OwnerType::Fill) => owner_texture_style(style, 42, 150, FillPattern::SparseDots, 1),
        Some(OwnerType::Region) => owner_texture_style(
            style,
            36,
            180,
            FillPattern::VerticalHatch,
            1,
        ),
        Some(OwnerType::Slot) => owner_texture_style(
            style,
            48,
            190,
            FillPattern::HorizontalHatch,
            1,
        ),
        None => style,
    };
    if styled.layer_id == LAYOUT_GEOMETRY_LAYER {
        transparent_gray_layout_style(styled)
    } else {
        styled
    }
}

/// The colour a 3-D slab of the layer is painted with: the fill colour,
/// or the frame colour where the layer has no fill, fully opaque.
pub fn layer_style_rgba_3d(style: &LayerStyle) -> (r: [u8; 4])
    ensures
        r@ == (if style.fill_alpha == 0 {
            style@.frame_rgba.take(3)
        } else {
            style@.rgba.take(3)
        }).push(255u8),
{
    let r = if style.fill_alpha == 0 {
        [style.frame_rgba[0], style.frame_rgba[1], style.frame_rgba[2], 255]
    } else {
        [style.rgba[0], style.rgba[1], style.rgba[2], 255]
    };
    assert(r@ =~= (if style.fill_alpha == 0 {
        style@.frame_rgba.take(3)
    } else {
        style@.rgba.take(3)
    }).push(255u8));
    r
}

/// Layer identifiers order as a `BTreeMap` needs.
proof fn lemma_layer_keys_ordered()
    ensures
        vstd::laws_cmp::obeys_cmp::<u16>(),
        vstd::std_specs::btree::key_obeys_cmp_spec::<u16>(),
{
}

/// The switch of each layer, a later entry for the same layer winning.
pub open spec fn layer_switches(layers: Seq<LayerUiState>) -> Map<u16, bool>
    decreases layers.len(),
{
    if layers.len() == 0 {
        Map::empty()
    } else {
        layer_switches(layers.drop_last()).insert(layers.last().layer_id, layers.last().visible)
    }
}

/// The style of each layer, a later entry for the same layer winning.
pub open spec fn layer_styles(layers: Seq<LayerUiState>) -> Map<u16, LayerStyle>
    decreases layers.len(),
{
    if layers.len() == 0 {
        Map::empty()
    } else {
        layer_styles(layers.drop_last()).insert(layers.last().layer_id, layers.last().style)
    }
}

/// The switches and styles of the layers, looked up by layer for each
/// shape the canvas draws.
pub struct LayerRenderIndex {
    visible_layer_map: BTreeMap<u16, bool>,
    style_map: BTreeMap<u16, LayerStyle>,
}

impl LayerRenderIndex {
    /// The switch of each layer in the index.
    pub closed spec fn switches(&self) -> Map<u16, bool> {
        self.visible_layer_map@
    }

    /// The style of each layer in the index.
    pub closed spec fn styles(&self) -> Map<u16, LayerStyle> {
        self.style_map@
    }

    /// The index of the side panel's layers, with the layout-geometry
    /// layer added, switched on, in its own style.
    pub fn new(layers: &Vec<LayerUiState>) -> (r: Self)
        ensures
            r.switches() == layer_switches(layers@).insert(LAYOUT_GEOMETRY_LAYER, true),
            r.styles().dom() == layer_styles(layers@).dom().insert(LAYOUT_GEOMETRY_LAYER),
            r.styles().remove(LAYOUT_GEOMETRY_LAYER) == layer_styles(layers@).remove(
                LAYOUT_GEOMETRY_LAYER,
            ),
            r.styles()[LAYOUT_GEOMETRY_LAYER]@ == layout_style_view(),
    {
        proof {
            lemma_layer_keys_ordered();
        }
        let mut visible_layer_map: BTreeMap<u16, bool> = BTreeMap::new();
        let mut style_map: BTreeMap<u16, LayerStyle> = BTreeMap::new();
        for i in 0..layers.len()
            invariant
                visible_layer_map@ == layer_switches(layers@.take(i as int)),
                style_map@ == layer_styles(layers@.take(i as int)),
        {
            assert(layers@.take(i + 1).drop_last() =~= layers@.take(i as int));
            visible_layer_map.insert(layers[i].layer_id, layers[i].visible);
            style_map.insert(layers[i].layer_id, layers[i].style);
        }
        assert(layers@.take(layers@.len() as int) =~= layers@);
        let ghost before = style_map@;
        visible_layer_map.insert(LAYOUT_GEOMETRY_LAYER, true);
        let layout = layout_geometry_layer_style();
        style_map.insert(LAYOUT_GEOMETRY_LAYER, layout);
        assert(style_map@.remove(LAYOUT_GEOMETRY_LAYER) =~= before.remove(LAYOUT_GEOMETRY_LAYER));
        assert(style_map@.dom() =~= before.dom().insert(LAYOUT_GEOMETRY_LAYER));
        LayerRenderIndex { visible_layer_map, style_map }
    }

    /// Whether the layer is in the index and switched on.
    pub fn is_layer_visible(&self, layer_id: u16) -> (r: bool)
        ensures
            r == (self.switches().contains_key(layer_id) && self.switches()[layer_id]),
    {
        proof {
            lemma_layer_keys_ordered();
        }
        match self.visible_layer_map.get(&layer_id) {
            Some(v) => *v,
            None => false,
        }
    }

    /// The style of the layer, if the index has it.
    pub fn get_style(&self, layer_id: u16) -> (r: Option<&LayerStyle>)
        ensures
            match r {
                Some(s) => self.styles().contains_key(layer_id) && *s == self.styles()[layer_id],
                None => !self.styles().contains_key(layer_id),
            },
    {
        proof {
            lemma_layer_keys_ordered();
        }
        self.style_map.get(&layer_id)
    }
}

/// The layer's entry in a style map.
pub open spec fn style_in(map: Map<u16, LayerStyle>, layer_id: u16) -> Option<LayerStyle> {
    if map.contains_key(layer_id) {
        Some(map[layer_id])
    } else {
        None
    }
}

/// The style a shape is drawn with before its owner reworks it: from the
/// visible layers where the shape follows its layer's switch, else from
/// all layers (falling back on the visible ones).
pub open spec fn base_style(
    layer_id: u16,
    owner_type: Option<OwnerType>,
    visible_layers: Map<u16, LayerStyle>,
    all_layers: Map<u16, LayerStyle>,
) -> Option<LayerStyle> {
    if layer_id != LAYOUT_GEOMETRY_LAYER && uses_layer_visibility(owner_type) {
        style_in(visible_layers, layer_id)
    } else if all_layers.contains_key(layer_id) {
        Some(all_layers[layer_id])
    } else {
        style_in(visible_layers, layer_id)
    }
}

fn style_lookup<'a>(map: &'a BTreeMap<u16, LayerStyle>, layer_id: u16) -> (r: Option<
    &'a LayerStyle,
>)
    ensures
        match r {
            Some(s) => style_in(map@, layer_id) == Some(*s),
            None => style_in(map@, layer_id) is None,
        },
{
    proof {
        lemma_layer_keys_ordered();
    }
    map.get(&layer_id)
}

/// The style a shape is drawn with, if any (see `base_style`); `None`
/// hides the shape.
pub fn visible_style_for_shape<'a>(
    shape: &ShapeRecord,
    owner: Option<&OwnerRef>,
    visible_layers: &'a BTreeMap<u16, LayerStyle>,
    all_layers: &'a BTreeMap<u16, LayerStyle>,
) -> (r: Option<&'a LayerStyle>)
    ensures
        match r {
            Some(s) => base_style(shape.layer_id, owner_type_of(owner), visible_layers@, all_layers@)
                == Some(*s),
            None => base_style(
                shape.layer_id,
                owner_type_of(owner),
                visible_layers@,
                all_layers@,
            ) is None,
        },
{
    let owner_type = match owner {
        Some(o) => OwnerType::from_raw(o.owner_type),
        None => None,
    };
    if shape_uses_layer_visibility(shape.layer_id, owner_type) {
        style_lookup(visible_layers, shape.layer_id)
    } else {
        match style_lookup(all_layers, shape.layer_id) {
            Some(s) => Some(s),
            None => style_lookup(visible_layers, shape.layer_id),
        }
    }
}

/// The layer style a shape starts from in the index: none where the
/// shape follows its layer's switch and the layer is off.
pub open spec fn indexed_base_style(
    layer_id: u16,
    owner_type: Option<OwnerType>,
    switches: Map<u16, bool>,
    styles: Map<u16, LayerStyle>,
) -> Option<LayerStyle> {
    if layer_id != LAYOUT_GEOMETRY_LAYER && uses_layer_visibility(owner_type) && !(
    switches.contains_key(layer_id) && switches[layer_id]) {
        None
    } else {
        style_in(styles, layer_id)
    }
}

/// The style a shape is painted with, from the index: its layer's style
/// reworked for its owner (see `shape_look`), or `None` when the layer is
/// off or has no style.  `owner_type` decides the layer switch, `owner`
/// the look.
pub fn visible_style_for_shape_fast(
    shape: &ShapeRecord,
    owner: Option<&OwnerRef>,
    owner_type: Option<OwnerType>,
    layer_index: &LayerRenderIndex,
) -> (r: Option<LayerStyle>)
    ensures
        match indexed_base_style(
            shape.layer_id,
            owner_type,
            layer_index.switches(),
            layer_index.styles(),
        ) {
            Some(base) => r is Some && r->0@ == shape_look(base@, owner_type_of(owner)),
            None => r is None,
        },
{
    let layer_id = shape.layer_id;
    if shape_uses_layer_visibility(layer_id, owner_type) && !layer_index.is_layer_visible(layer_id) {
        return None;
    }
    match layer_index.get_style(layer_id) {
        Some(base) => Some(style_for_shape(*base, owner)),
        None => None,
    }
}

/// A shape is shown by the index's switches: its layer is on (for shapes
/// that follow their layer) and its owner's category, if any, is on.
pub open spec fn indexed_shown(
    layer_id: u16,
    owner_type: Option<OwnerType>,
    category: Option<DrawingCategory>,
    switches: Map<u16, bool>,
    visibility: ObjectVisibility,
) -> bool {
    let layer_ok = if layer_id != LAYOUT_GEOMETRY_LAYER && uses_layer_visibility(owner_type) {
        switches.contains_key(layer_id) && switches[layer_id]
    } else {
        true
    };
    let owner_ok = match category {
        Some(c) => category_visible(visibility, c),
        None => true,
    };
    layer_ok && owner_ok
}

/// Whether a shape is drawn, by the index (see `indexed_shown`).
pub fn shape_is_visible_fast(
    shape: &ShapeRecord,
    owner_type: Option<OwnerType>,
    owner_category: Option<DrawingCategory>,
    layer_index: &LayerRenderIndex,
    object_visibility: &ObjectVisibility,
) -> (r: bool)
    ensures
        r == indexed_shown(
            shape.layer_id,
            owner_type,
            owner_category,
            layer_index.switches(),
            *object_visibility,
        ),
{
    let layer_visible = if shape_uses_layer_visibility(shape.layer_id, owner_type) {
        layer_index.is_layer_visible(shape.layer_id)
    } else {
        true
    };
    let owner_visible = match owner_category {
        Some(c) => object_visibility.is_category_visible(c),
        None => true,
    };
    layer_visible && owner_visible
}

/// The layers of a style map, in ascending order.
pub fn visible_layer_ids(visible_layers: &BTreeMap<u16, LayerStyle>) -> (ids: Vec<u16>)
    ensures
        forall|i: int, j: int| 0 <= i < j < ids@.len() ==> ids@[i] < ids@[j],
        ids@.to_set() == visible_layers@.dom(),
{
    proof {
        lemma_layer_keys_ordered();
    }
    let ghost items = vstd::std_specs::btree::spec_btree_map_iter(visible_layers).remaining();
    let mut ids: Vec<u16> = Vec::new();
    for kv in it: visible_layers.iter()
        invariant
            it.seq() == items,
            items == vstd::std_specs::btree::spec_btree_map_iter(visible_layers).remaining(),
            vstd::std_specs::btree::increasing_seq(
                items.map_values(|kv: (&u16, &LayerStyle)| *kv.0),
            ),
            ids@.len() == it.index(),
            forall|i: int| 0 <= i < ids@.len() ==> ids@[i] == *items[i].0,
    {
        let (k, _v) = kv;
        ids.push(*k);
    }
    let ghost keys = items.map_values(|kv: (&u16, &LayerStyle)| *kv.0);
    assert forall|i: int, j: int| 0 <= i < j < ids@.len() implies ids@[i] < ids@[j] by {
        assert(keys[i] == ids@[i]);
        assert(keys[j] == ids@[j]);
        assert(keys[i].cmp_spec(&keys[j]) is Less);
    }
    assert forall|k: u16| ids@.to_set().contains(k) implies visible_layers@.contains_key(k) by {
        let i = choose|i: int| 0 <= i < ids@.len() && ids@[i] == k;
        assert(visible_layers@.contains_key(*items[i].0));
    }
    assert forall|k: u16| visible_layers@.contains_key(k) implies ids@.to_set().contains(k) by {
        assert(items.contains((&k, &visible_layers@[k])));
        let i = choose|i: int| 0 <= i < items.len() && items[i] == (&k, &visible_layers@[k]);
        assert(ids@[i] == k);
    }
    assert(ids@.to_set() =~= visible_layers@.dom());
    ids
}

/// The style of the first switched-on layer named exactly `name`.
pub open spec fn first_visible_named(layers: Seq<LayerUiState>, name: Seq<char>) -> Option<
    LayerStyle,
>
    decreases layers.len(),
{
    if layers.len() == 0 {
        None
    } else if layers[0].visible && layers[0].name@ == name {
        Some(layers[0].style)
    } else {
        first_visible_named(layers.drop_first(), name)
    }
}

/// The style a grid's lines take: that of the first switched-on layer
/// named by the grid, trying its layer names in order.
pub open spec fn grid_style(names: Seq<String>, layers: Seq<LayerUiState>) -> Option<LayerStyle>
    decreases names.len(),
{
    if names.len() == 0 {
        None
    } else {
        match first_visible_named(layers, names[0]@) {
            Some(s) => Some(s),
            None => grid_style(names.drop_first(), layers),
        }
    }
}

fn first_visible_layer_named<'a>(layers: &'a Vec<LayerUiState>, name: &String) -> (r: Option<
    &'a LayerStyle,
>)
    ensures
        match r {
            Some(s) => first_visible_named(layers@, name@) == Some(*s),
            None => first_visible_named(layers@, name@) is None,
        },
{
    let n = layers.len();
    let mut i: usize = 0;
    assert(layers@.skip(0) =~= layers@);
    while i < n
        invariant
            n == layers@.len(),
            i <= n,
            first_visible_named(layers@.skip(i as int), name@) == first_visible_named(layers@, name@),
        decreases n - i,
    {
        assert(layers@.skip(i as int).drop_first() =~= layers@.skip(i + 1));
        assert(layers@.skip(i as int)[0] == layers@[i as int]);
        if layers[i].visible && crate::text::chars_eq_str(
            &crate::text::str_chars(layers[i].name.as_str()),
            name.as_str(),
        ) {
            return Some(&layers[i].style);
        }
        i = i + 1;
    }
    None
}

/// The style a grid's lines take (see `grid_style`).
pub fn grid_layer_style<'a>(grid: &GridMetadata, layers: &'a Vec<LayerUiState>) -> (r: Option<
    &'a LayerStyle,
>)
    ensures
        match r {
            Some(s) => grid_style(grid.layer_names@, layers@) == Some(*s),
            None => grid_style(grid.layer_names@, layers@) is None,
        },
{
    let names = &grid.layer_names;
    let n = names.len();
    let mut i: usize = 0;
    assert(names@.skip(0) =~= names@);
    while i < n
        invariant
            n == names@.len(),
            names@ == grid.layer_names@,
            i <= n,
            grid_style(names@.skip(i as int), layers@) == grid_style(names@, layers@),
        decreases n - i,
    {
        assert(names@.skip(i as int).drop_first() =~= names@.skip(i + 1));
        assert(names@.skip(i as int)[0] == names@[i as int]);
        match first_visible_layer_named(layers, &names[i]) {
            Some(s) => {
                return Some(s);
            },
            None => {},
        }
        i = i + 1;
    }
    None
}

/// One rectangle as the 2-D canvas shader draws it: its corners, fill and
/// frame colours packed red-lowest, its fill pattern's code and its frame
/// width in pixels.
#[derive(Clone, Copy, Debug)]
pub struct GpuShapeInstance {
    pub rect_dbu: [i32; 4],
    pub fill_rgba: u32,
    pub frame_rgba: u32,
    pub pattern_bits: u32,
    pub line_width_px: u8,
}

/// The packed value of an RGBA colour, red in the lowest byte.
pub open spec fn colour_word(c: Seq<u8>) -> int {
    c[0] + c[1] * 0x100 + c[2] * 0x1_0000 + c[3] * 0x100_0000
}

/// `i` draws `rect` in the style: fill and frame colours with the style's
/// own alphas.
pub open spec fn instance_of(rect: Rect32, s: StyleView, i: GpuShapeInstance) -> bool {
    &&& i.rect_dbu@ == seq![rect.lx, rect.ly, rect.hx, rect.hy]
    &&& i.fill_rgba == colour_word(s.rgba.update(3, s.fill_alpha))
    &&& i.frame_rgba == colour_word(s.frame_rgba.update(3, s.frame_alpha))
    &&& i.pattern_bits == pattern_code(s.fill_pattern)
    &&& i.line_width_px == s.line_width_px
}

/// The rectangles among the shapes, with their styles, in order; lines
/// and points are left out.
pub open spec fn rect_entries(shapes: Seq<(ShapeGeometry, LayerStyle)>) -> Seq<(Rect32, LayerStyle)>
    decreases shapes.len(),
{
    if shapes.len() == 0 {
        Seq::empty()
    } else {
        let rest = rect_entries(shapes.drop_last());
        match shapes.last().0 {
            ShapeGeometry::Rect(r) => rest.push((r, shapes.last().1)),
            _ => rest,
        }
    }
}

/// The shader instance of a rectangle in a style (see `instance_of`).
pub fn rect_instance(rect: Rect32, style: &LayerStyle) -> (i: GpuShapeInstance)
    ensures
        instance_of(rect, style@, i),
{
    let fill = [style.rgba[0], style.rgba[1], style.rgba[2], style.fill_alpha];
    let frame = [style.frame_rgba[0], style.frame_rgba[1], style.frame_rgba[2], style.frame_alpha];
    assert(fill@ =~= style@.rgba.update(3, style.fill_alpha));
    assert(frame@ =~= style@.frame_rgba.update(3, style.frame_alpha));
    let rect_dbu = [rect.lx, rect.ly, rect.hx, rect.hy];
    assert(rect_dbu@ =~= seq![rect.lx, rect.ly, rect.hx, rect.hy]);
    GpuShapeInstance {
        rect_dbu,
        fill_rgba: pack_rgba_u32(fill),
        frame_rgba: pack_rgba_u32(frame),
        pattern_bits: fill_pattern_id(style.fill_pattern),
        line_width_px: style.line_width_px,
    }
}

/// The shader instances of the rectangles among the shapes, in order
/// (see `rect_entries` and `instance_of`).
pub fn build_gpu_instances(shapes: &Vec<(ShapeGeometry, LayerStyle)>) -> (r: Vec<GpuShapeInstance>)
    ensures
        r@.len() == rect_entries(shapes@).len(),
        forall|i: int|
            0 <= i < r@.len() ==> instance_of(
                #[trigger] rect_entries(shapes@)[i].0,
                rect_entries(shapes@)[i].1@,
                r@[i],
            ),
{
    let mut instances: Vec<GpuShapeInstance> = Vec::new();
    for k in 0..shapes.len()
        invariant
            instances@.len() == rect_entries(shapes@.take(k as int)).len(),
            forall|i: int|
                0 <= i < instances@.len() ==> instance_of(
                    rect_entries(shapes@.take(k as int))[i].0,
                    rect_entries(shapes@.take(k as int))[i].1@,
                    #[trigger] instances@[i],
                ),
    {
        let ghost prev = rect_entries(shapes@.take(k as int));
        let ghost before = instances@;
        assert(shapes@.take(k + 1).drop_last() =~= shapes@.take(k as int));
        assert(shapes@.take(k + 1).last() == shapes@[k as int]);
        match &shapes[k].0 {
            ShapeGeometry::Rect(rect) => {
                let instance = rect_instance(*rect, &shapes[k].1);
                instances.push(instance);
                proof {
                    let next = rect_entries(shapes@.take(k + 1));
                    assert(next == prev.push((*rect, shapes@[k as int].1)));
                    assert forall|i: int| 0 <= i < instances@.len() implies instance_of(
                        next[i].0,
                        next[i].1@,
                        #[trigger] instances@[i],
                    ) by {
                        if i < before.len() {
                            assert(instances@[i] == before[i]);
                            assert(next[i] == prev[i]);
                        }
                    }
                }
            },
            _ => {
                assert(rect_entries(shapes@.take(k + 1)) == prev);
            },
        }
    }
    assert(shapes@.take(shapes@.len() as int) =~= shapes@);
    instances
}

/// How the lines of a parameterized grid are stroked: width in pixels and
/// colour (red, green, blue, alpha).
#[derive(Clone, Copy, Debug)]
pub struct GridStroke {
    pub width_px: u8,
    pub rgba: [u8; 4],
}

/// The colour of secondary text, which grids of no known kind take.
pub const SECONDARY_TEXT_RGB: [u8; 3] = [161, 161, 170];

/// The stroke of a grid's lines: in the colour of the grid's layer style
/// when it has one (tracks thin at alpha 82, gcells two pixels at alpha
/// 104, other grids thin at the style's frame alpha); otherwise in the
/// layout grey with the same widths and alphas, or, for other grids, thin
/// in opaque secondary-text grey.
pub open spec fn grid_stroke_look(style: Option<LayerStyle>, owner_type: OwnerType) -> (u8, Seq<u8>) {
    match style {
        Some(st) => match owner_type {
            OwnerType::TrackGrid => (1u8, st@.rgba.take(3).push(82u8)),
            OwnerType::GCellGrid => (2u8, st@.rgba.take(3).push(104u8)),
            _ => (1u8, st@.rgba.take(3).push(st.frame_alpha)),
        },
        None => match owner_type {
            OwnerType::TrackGrid => (
                1u8,
                seq![LAYOUT_GEOMETRY_GRAY, LAYOUT_GEOMETRY_GRAY, LAYOUT_GEOMETRY_GRAY, 82u8],
            ),
            OwnerType::GCellGrid => (
                2u8,
                seq![LAYOUT_GEOMETRY_GRAY, LAYOUT_GEOMETRY_GRAY, LAYOUT_GEOMETRY_GRAY, 104u8],
            ),
            _ => (1u8, seq![161u8, 161u8, 170u8, 255u8]),
        },
    }
}

/// The stroke of a parameterized grid's lines (see `grid_stroke_look`,
/// with the style of `grid_layer_style`).
pub fn parameterized_grid_stroke(
    grid: &GridMetadata,
    layers: &Vec<LayerUiState>,
    owner_type: OwnerType,
) -> (r: GridStroke)
    ensures
        (r.width_px, r.rgba@) == grid_stroke_look(grid_style(grid.layer_names@, layers@), owner_type),
{
    match grid_layer_style(grid, layers) {
        Some(style) => {
            let (width_px, alpha): (u8, u8) = match owner_type {
                OwnerType::TrackGrid => (1, 82),
                OwnerType::GCellGrid => (2, 104),
                _ => (1, style.frame_alpha),
            };
            let rgba = [style.rgba[0], style.rgba[1], style.rgba[2], alpha];
            assert(rgba@ =~= style@.rgba.take(3).push(alpha));
            GridStroke { width_px, rgba }
        },
        None => {
            let r = match owner_type {
                OwnerType::TrackGrid => GridStroke {
                    width_px: 1,
                    rgba: [LAYOUT_GEOMETRY_GRAY, LAYOUT_GEOMETRY_GRAY, LAYOUT_GEOMETRY_GRAY, 82],
                },
                OwnerType::GCellGrid => GridStroke {
                    width_px: 2,
                    rgba: [LAYOUT_GEOMETRY_GRAY, LAYOUT_GEOMETRY_GRAY, LAYOUT_GEOMETRY_GRAY, 104],
                },
                _ => GridStroke {
                    width_px: 1,
                    rgba: [SECONDARY_TEXT_RGB[0], SECONDARY_TEXT_RGB[1], SECONDARY_TEXT_RGB[2], 255],
                },
            };
            assert(r.rgba@ =~= grid_stroke_look(None, owner_type).1);
            r
        },
    }
}

} // verus!
