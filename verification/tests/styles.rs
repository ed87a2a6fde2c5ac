use std::collections::BTreeMap;

use chip_viewer_native::geometry::{Point32, Rect32};
use chip_viewer_native::grids::GridMetadata;
use chip_viewer_native::layers::{shape_is_visible, LayerUiState};
use chip_viewer_native::render::{FillPattern, LinePayload, ShapeGeometry};
use chip_viewer_native::selection::{OwnerRef, ShapeRecord};
use chip_viewer_native::styles::{
    build_gpu_instances, context_style, grid_layer_style, io_pin_texture_style, layer_style_rgb, layer_style_rgba_3d,
    layout_geometry_layer_style, owner_texture_style, parameterized_grid_stroke,
    shape_is_visible_fast,
    solid_owner_texture_style, style_for_shape, transparent_gray_layout_style,
    visible_layer_ids, visible_style_for_shape, visible_style_for_shape_fast, LayerRenderIndex,
    LayerStyle,
};
use chip_viewer_native::visibility::{
    DrawingCategory, ObjectVisibility, OwnerType, LAYOUT_GEOMETRY_LAYER,
};

fn layer_style(layer_id: u16) -> LayerStyle {
    LayerStyle {
        layer_id,
        visible: true,
        rgba: [72, 140, 220, 96],
        frame_rgba: [72, 140, 220, 200],
        fill_alpha: 96,
        frame_alpha: 200,
        fill_pattern: FillPattern::Solid,
        line_width_px: 1,
    }
}

fn owner(owner_type: OwnerType) -> OwnerRef {
    OwnerRef {
        owner_type: owner_type as u8,
        ..OwnerRef::default()
    }
}

fn ui_layer(layer_id: u16, name: &str, visible: bool, style: LayerStyle) -> LayerUiState {
    LayerUiState {
        layer_id,
        shape_count: 1,
        order: u32::from(layer_id),
        name: name.to_string(),
        layer_type: "routing".to_string(),
        display_role: "metal".to_string(),
        direction: "horizontal".to_string(),
        width: 0,
        pitch_x: 0,
        pitch_y: 0,
        min_spacing: 0,
        min_area: 0,
        min_step: 0,
        cut_spacing: 0,
        enclosure_below: String::new(),
        enclosure_above: String::new(),
        lef58_rule_count: 0,
        visible,
        style,
    }
}

fn shape_on(layer_id: u16) -> ShapeRecord {
    ShapeRecord {
        layer_id,
        bbox: Rect32 {
            lx: 0,
            ly: 0,
            hx: 10,
            hy: 10,
        },
        ..ShapeRecord::default()
    }
}

#[test]
fn owner_styles_preserve_layer_color_and_use_distinct_textures() {
    let base = layer_style(7);
    let assert_layer_color = |style: LayerStyle| {
        assert_eq!(&style.rgba[..3], &base.rgba[..3]);
        assert_eq!(&style.frame_rgba[..3], &base.rgba[..3]);
    };
    let track = owner(OwnerType::TrackGrid);
    let gcell = owner(OwnerType::GCellGrid);
    let instance = owner(OwnerType::InstanceBBox);
    let net = owner(OwnerType::NetWireSegment);
    let pdn = owner(OwnerType::SpecialWireSegment);
    let pin = owner(OwnerType::PinPortShape);
    let instance_pin = owner(OwnerType::InstancePinPortShape);
    let io_pin = owner(OwnerType::IoPinPortShape);

    let track_style = style_for_shape(base, Some(&track));
    assert_layer_color(track_style);
    assert_eq!(track_style.fill_pattern, FillPattern::Hollow);
    assert_eq!(track_style.fill_alpha, 0);
    assert_eq!(track_style.frame_alpha, 82);
    assert_eq!(track_style.line_width_px, 1);

    let gcell_style = style_for_shape(base, Some(&gcell));
    assert_layer_color(gcell_style);
    assert_eq!(gcell_style.fill_pattern, FillPattern::Hollow);
    assert_eq!(gcell_style.line_width_px, 2);

    let instance_style = style_for_shape(base, Some(&instance));
    assert_layer_color(instance_style);
    assert_eq!(instance_style.fill_pattern, FillPattern::Solid);
    assert_eq!(instance_style.fill_alpha, 64);
    assert_eq!(instance_style.frame_alpha, 172);
    assert_eq!(instance_style.line_width_px, 1);

    let net_style = style_for_shape(base, Some(&net));
    assert_layer_color(net_style);
    assert_eq!(net_style.fill_pattern, FillPattern::DiagonalHatch);
    assert!(net_style.fill_alpha >= 56);

    let pdn_style = style_for_shape(base, Some(&pdn));
    assert_layer_color(pdn_style);
    assert_eq!(pdn_style.fill_pattern, FillPattern::Grid);
    assert_eq!(pdn_style.line_width_px, 2);

    let pin_style = style_for_shape(base, Some(&pin));
    assert_layer_color(pin_style);
    assert_eq!(pin_style.fill_pattern, FillPattern::Grid);
    assert_eq!(pin_style.line_width_px, 2);

    let instance_pin_style = style_for_shape(base, Some(&instance_pin));
    assert_layer_color(instance_pin_style);
    assert_eq!(instance_pin_style.fill_pattern, FillPattern::Grid);
    assert_eq!(instance_pin_style.line_width_px, 2);

    let io_pin_style = style_for_shape(base, Some(&io_pin));
    assert_eq!(&io_pin_style.rgba[..3], &[245, 190, 32]);
    assert_eq!(&io_pin_style.frame_rgba[..3], &[255, 222, 89]);
    assert_eq!(io_pin_style.fill_pattern, FillPattern::CrossHatch);
    assert_eq!(io_pin_style.line_width_px, 2);

    let via = owner(OwnerType::Via);
    let via_style = style_for_shape(base, Some(&via));
    assert_layer_color(via_style);
    assert_eq!(via_style.fill_pattern, FillPattern::XMark);
    assert_eq!(via_style.line_width_px, 1);
}

#[test]
fn layout_geometry_layer_uses_transparent_gray_styles() {
    let layout = layout_geometry_layer_style();
    assert_eq!(layout.rgba, [148, 148, 148, 48]);
    assert_eq!(layout.frame_rgba, [148, 148, 148, 128]);

    let instance = owner(OwnerType::InstanceBBox);
    let instance_style = style_for_shape(layout, Some(&instance));
    assert_eq!(instance_style.rgba, [148, 148, 148, 48]);
    assert_eq!(instance_style.frame_rgba, [148, 148, 148, 128]);
    assert_eq!(instance_style.fill_pattern, FillPattern::Solid);

    let die = owner(OwnerType::Die);
    let die_style = style_for_shape(layout, Some(&die));
    assert_eq!(die_style.rgba, [148, 148, 148, 0]);
    assert_eq!(die_style.frame_rgba, [148, 148, 148, 128]);
    assert_eq!(die_style.fill_pattern, FillPattern::Hollow);
}

#[test]
fn visible_layer_ids_for_render_query_are_sorted_from_visible_layer_map() {
    let visible_layers = BTreeMap::from([(7, layer_style(7)), (3, layer_style(3))]);

    assert_eq!(visible_layer_ids(&visible_layers), vec![3, 7]);
}

#[test]
fn visible_style_for_shape_skips_shapes_from_invisible_layers() {
    let visible_layers = BTreeMap::from([(3, layer_style(3))]);
    let all_layers = BTreeMap::from([(3, layer_style(3)), (4, layer_style(4))]);
    let visible_shape = shape_on(3);
    let hidden_shape = shape_on(4);
    let hidden_instance = owner(OwnerType::InstanceBBox);

    assert!(visible_style_for_shape(&visible_shape, None, &visible_layers, &all_layers).is_some());
    assert!(visible_style_for_shape(&hidden_shape, None, &visible_layers, &all_layers).is_none());
    assert!(visible_style_for_shape(
        &hidden_shape,
        Some(&hidden_instance),
        &visible_layers,
        &all_layers
    )
    .is_some());
}

#[test]
fn texture_helpers_keep_the_layer_colour() {
    let base = layer_style(5);
    assert_eq!(layer_style_rgb(base), [72, 140, 220]);

    let textured = owner_texture_style(base, 10, 20, FillPattern::Grid, 3);
    assert_eq!(textured.rgba, [72, 140, 220, 10]);
    assert_eq!(textured.frame_rgba, [72, 140, 220, 20]);
    assert_eq!(textured.fill_alpha, 10);
    assert_eq!(textured.frame_alpha, 20);
    assert_eq!(textured.fill_pattern, FillPattern::Grid);
    assert_eq!(textured.line_width_px, 3);
    assert_eq!(textured.layer_id, 5);

    let solid = solid_owner_texture_style(base, 30, 40, 2);
    assert_eq!(solid.fill_pattern, FillPattern::Solid);
    assert_eq!(solid.rgba, [72, 140, 220, 30]);

    let context = context_style(base, 99, 2);
    assert_eq!(context.rgba, [72, 140, 220, 0]);
    assert_eq!(context.frame_rgba, [72, 140, 220, 99]);
    assert_eq!(context.fill_alpha, 0);
    assert_eq!(context.fill_pattern, FillPattern::Hollow);

    let io = io_pin_texture_style(base);
    assert_eq!(io.rgba, [245, 190, 32, 104]);
    assert_eq!(io.frame_rgba, [255, 222, 89, 232]);
    assert_eq!(io.fill_alpha, 104);
    assert_eq!(io.frame_alpha, 232);
}

#[test]
fn gray_layout_style_caps_alphas() {
    let mut opaque = layer_style(0);
    opaque.fill_alpha = 200;
    opaque.frame_alpha = 250;
    let gray = transparent_gray_layout_style(opaque);
    assert_eq!(gray.rgba, [148, 148, 148, 48]);
    assert_eq!(gray.frame_rgba, [148, 148, 148, 128]);

    let mut faint = layer_style(0);
    faint.fill_alpha = 5;
    faint.frame_alpha = 6;
    let gray = transparent_gray_layout_style(faint);
    assert_eq!(gray.rgba, [148, 148, 148, 5]);
    assert_eq!(gray.frame_rgba, [148, 148, 148, 6]);
}

#[test]
fn net_wires_keep_stronger_alphas_and_own_width() {
    let mut base = layer_style(9);
    base.fill_alpha = 120;
    base.frame_alpha = 100;
    base.line_width_px = 4;
    let net = owner(OwnerType::NetWireSegment);
    let styled = style_for_shape(base, Some(&net));
    assert_eq!(styled.fill_alpha, 120);
    assert_eq!(styled.frame_alpha, 210);
    assert_eq!(styled.line_width_px, 4);
    assert_eq!(styled.rgba, [72, 140, 220, 120]);

    let unowned = style_for_shape(base, None);
    assert_eq!(unowned.rgba, base.rgba);
    assert_eq!(unowned.fill_pattern, FillPattern::Solid);
}

#[test]
fn slab_colour_falls_back_on_the_frame() {
    let base = layer_style(2);
    assert_eq!(layer_style_rgba_3d(&base), [72, 140, 220, 255]);
    let mut hollow = base;
    hollow.fill_alpha = 0;
    hollow.frame_rgba = [1, 2, 3, 4];
    assert_eq!(layer_style_rgba_3d(&hollow), [1, 2, 3, 255]);
}

#[test]
fn render_index_reads_switches_and_styles() {
    let layers = vec![
        ui_layer(3, "MET1", true, layer_style(3)),
        ui_layer(4, "MET2", false, layer_style(4)),
    ];
    let index = LayerRenderIndex::new(&layers);
    assert!(index.is_layer_visible(3));
    assert!(!index.is_layer_visible(4));
    assert!(!index.is_layer_visible(9));
    assert!(index.is_layer_visible(LAYOUT_GEOMETRY_LAYER));
    assert_eq!(index.get_style(4).map(|s| s.layer_id), Some(4));
    assert!(index.get_style(9).is_none());
    assert_eq!(
        index.get_style(LAYOUT_GEOMETRY_LAYER).map(|s| s.rgba),
        Some([148, 148, 148, 48])
    );

    let net = owner(OwnerType::NetWireSegment);
    let on = visible_style_for_shape_fast(
        &shape_on(3),
        Some(&net),
        Some(OwnerType::NetWireSegment),
        &index,
    );
    assert_eq!(on.map(|s| s.fill_pattern), Some(FillPattern::DiagonalHatch));
    let off = visible_style_for_shape_fast(
        &shape_on(4),
        Some(&net),
        Some(OwnerType::NetWireSegment),
        &index,
    );
    assert!(off.is_none());
    let instance = owner(OwnerType::InstanceBBox);
    let layout_level = visible_style_for_shape_fast(
        &shape_on(4),
        Some(&instance),
        Some(OwnerType::InstanceBBox),
        &index,
    );
    assert_eq!(layout_level.map(|s| s.fill_alpha), Some(64));

    let visibility = ObjectVisibility::default();
    assert!(shape_is_visible_fast(
        &shape_on(3),
        Some(OwnerType::NetWireSegment),
        None,
        &index,
        &visibility
    ));
    assert!(!shape_is_visible_fast(
        &shape_on(4),
        Some(OwnerType::NetWireSegment),
        None,
        &index,
        &visibility
    ));
    let mut hidden_nets = ObjectVisibility::default();
    hidden_nets.set_category_visible(DrawingCategory::NetSignal, false);
    assert!(!shape_is_visible_fast(
        &shape_on(3),
        Some(OwnerType::NetWireSegment),
        Some(DrawingCategory::NetSignal),
        &index,
        &hidden_nets
    ));
}

#[test]
fn grid_lines_take_the_first_visible_named_layer_style() {
    let mut met2_style = layer_style(4);
    met2_style.rgba = [9, 9, 9, 9];
    let layers = vec![
        ui_layer(3, "MET1", false, layer_style(3)),
        ui_layer(4, "MET2", true, met2_style),
        ui_layer(5, "MET3", true, layer_style(5)),
    ];
    let grid = GridMetadata {
        layer_names: vec!["MET1".to_string(), "MET2".to_string(), "MET3".to_string()],
        ..GridMetadata::default()
    };
    assert_eq!(grid_layer_style(&grid, &layers).map(|s| s.rgba), Some([9, 9, 9, 9]));

    let unbound = GridMetadata {
        layer_names: vec!["MET1".to_string(), "POLY".to_string()],
        ..GridMetadata::default()
    };
    assert!(grid_layer_style(&unbound, &layers).is_none());
}

#[test]
fn gpu_instances_keep_rectangles_with_their_own_alphas() {
    let mut style = layer_style(3);
    style.fill_alpha = 7;
    style.fill_pattern = FillPattern::CrossHatch;
    style.line_width_px = 2;
    let rect = Rect32 {
        lx: -5,
        ly: 1,
        hx: 20,
        hy: 30,
    };
    let line = ShapeGeometry::Line(LinePayload {
        begin: Point32 { x: 0, y: 0 },
        end: Point32 { x: 10, y: 0 },
        width: 4,
    });
    let shapes = vec![
        (ShapeGeometry::Rect(rect), style),
        (line, layer_style(3)),
        (ShapeGeometry::Point(Point32 { x: 1, y: 1 }), layer_style(3)),
        (ShapeGeometry::Rect(rect), layer_style(4)),
    ];
    let instances = build_gpu_instances(&shapes);
    assert_eq!(instances.len(), 2);
    assert_eq!(instances[0].rect_dbu, [-5, 1, 20, 30]);
    assert_eq!(instances[0].fill_rgba, 131894344);
    assert_eq!(instances[0].frame_rgba, 3369897032);
    assert_eq!(instances[0].pattern_bits, 5);
    assert_eq!(instances[0].line_width_px, 2);
    assert_eq!(instances[1].fill_rgba, 1625066568);
    assert_eq!(instances[1].pattern_bits, 1);
    assert!(build_gpu_instances(&Vec::new()).is_empty());
}

#[test]
fn index_and_layer_list_agree_on_visibility() {
    let layers = vec![
        ui_layer(3, "MET1", true, layer_style(3)),
        ui_layer(4, "MET2", false, layer_style(4)),
    ];
    let index = LayerRenderIndex::new(&layers);
    let visibility = ObjectVisibility::default();
    for layer_id in [0u16, 3, 4, 9] {
        for owner_type in [None, Some(OwnerType::NetWireSegment), Some(OwnerType::InstanceBBox)] {
            let fast = shape_is_visible_fast(&shape_on(layer_id), owner_type, None, &index, &visibility);
            let listed = shape_is_visible(layer_id, owner_type, None, &layers, visibility);
            assert_eq!(fast, listed, "layer {layer_id} owner {owner_type:?}");
        }
    }
}

#[test]
fn parameterized_grid_stroke_uses_linked_layer_color() {
    let mut layers = vec![
        ui_layer(1, "M1", true, layer_style(1)),
        ui_layer(2, "M2", true, layer_style(2)),
    ];
    layers[0].style.rgba = [17, 34, 51, 44];
    layers[1].style.rgba = [90, 80, 70, 44];
    let grid = GridMetadata {
        grid_type: "track".to_string(),
        layer_names: vec!["M2".to_string()],
        ..GridMetadata::default()
    };

    let track_stroke = parameterized_grid_stroke(&grid, &layers, OwnerType::TrackGrid);
    assert_eq!(track_stroke.width_px, 1);
    assert_eq!(track_stroke.rgba, [90, 80, 70, 82]);

    let gcell_stroke = parameterized_grid_stroke(&grid, &layers, OwnerType::GCellGrid);
    assert_eq!(gcell_stroke.width_px, 2);
    assert_eq!(gcell_stroke.rgba, [90, 80, 70, 104]);
}

#[test]
fn unbound_parameterized_grids_use_transparent_gray_layout_color() {
    let grid = GridMetadata::default();

    let track_stroke = parameterized_grid_stroke(&grid, &Vec::new(), OwnerType::TrackGrid);
    assert_eq!(track_stroke.width_px, 1);
    assert_eq!(track_stroke.rgba, [148, 148, 148, 82]);

    let gcell_stroke = parameterized_grid_stroke(&grid, &Vec::new(), OwnerType::GCellGrid);
    assert_eq!(gcell_stroke.width_px, 2);
    assert_eq!(gcell_stroke.rgba, [148, 148, 148, 104]);

    let other = parameterized_grid_stroke(&grid, &Vec::new(), OwnerType::Row);
    assert_eq!(other.width_px, 1);
    assert_eq!(other.rgba, [161, 161, 170, 255]);
}
