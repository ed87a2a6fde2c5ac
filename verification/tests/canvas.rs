use chip_viewer_native::styles::LayerStyle;
use chip_viewer_native::geometry::{Point32, Rect32};
use chip_viewer_native::grids::{
    grid_coordinate_at_index, grid_layer_filter_is_visible, grid_owner_type,
    has_parameterized_grid_metadata,
    grid_visible_index_range, grid_visible_indices, parameterized_grid_is_visible,
    parameterized_grid_line_endpoints, GridMetadata, MAX_PARAMETERIZED_GRID_LINES_PER_GRID,
};
use chip_viewer_native::layers::{
    invert_layer_visibility, layer_hover_text, render_query_layer_ids, set_layer_visibility,
    shape_is_drawn_at_zoom, shape_is_visible, visible_layer_count, LayerUiState,
    ZoomVisibilityRules,
};
use chip_viewer_native::render::{
    choose_overview_lod, fill_pattern_id, geometry_to_instance, hash_bbox_u32, line_to_rect_dbu,
    pack_rgba_u32, should_use_view_tiles_for_state, FillPattern, LinePayload, ShapeGeometry,
    FLAG_LINE, FLAG_POINT,
    tile_coords_for_bbox, tile_is_full_die, unrouted_net_guide_is_visible, UnroutedNetGuide,
    GPU_TILE_SIZE_DBU, OVERVIEW_INSTANCE_BUDGET,
};
use chip_viewer_native::visibility::{DrawingCategory, ObjectVisibility, OwnerType};

fn layer_state(layer_id: u16, visible: bool) -> LayerUiState {
    LayerUiState {
        layer_id,
        shape_count: 1,
        order: u32::from(layer_id),
        name: format!("L{layer_id}"),
        layer_type: "unknown".to_string(),
        display_role: "unknown".to_string(),
        direction: "unknown".to_string(),
        width: 0,
        pitch_x: 0,
        pitch_y: 0,
        min_spacing: 0,
        min_area: 0,
        min_step: 0,
        cut_spacing: 0,
        enclosure_below: String::new(),
        enclosure_above: String::new(),
        lef58_rule_count: 0,
        visible,
        style: LayerStyle {
            layer_id,
            visible,
            rgba: [72, 140, 220, 96],
            frame_rgba: [72, 140, 220, 200],
            fill_alpha: 96,
            frame_alpha: 200,
            fill_pattern: FillPattern::Solid,
            line_width_px: 1,
        },
    }
}

fn layer_visibility(layers: &[LayerUiState]) -> Vec<bool> {
    layers.iter().map(|layer| layer.visible).collect()
}

fn test_world() -> Rect32 {
    Rect32 { lx: 0, ly: 0, hx: 10_000, hy: 8_000 }
}

#[test]
fn pack_rgba_u32_roundtrips_bytes() {
    let rgba = [0x12, 0x34, 0x56, 0x78];
    let packed = pack_rgba_u32(rgba);
    assert_eq!(packed.to_le_bytes(), rgba);
}

#[test]
fn packed_colour_puts_red_in_the_low_byte() {
    assert_eq!(pack_rgba_u32([0xff, 0, 0, 0]), 0x0000_00ff);
    assert_eq!(pack_rgba_u32([0, 0, 0, 0xff]), 0xff00_0000);
}

#[test]
fn test_tile_coords_single_tile() {
    let bbox = Rect32 { lx: 100, ly: 100, hx: 500, hy: 500 };
    let tiles = tile_coords_for_bbox(bbox, 1000);
    assert_eq!(tiles, vec![(0, 0)]);
}

#[test]
fn test_tile_coords_straddle_boundary() {
    let bbox = Rect32 { lx: 800, ly: 800, hx: 1200, hy: 1200 };
    let tiles = tile_coords_for_bbox(bbox, 1000);
    assert_eq!(tiles, vec![(0, 0), (0, 1), (1, 0), (1, 1)]);
}

#[test]
fn test_tile_coords_large_bbox() {
    let bbox = Rect32 { lx: 0, ly: 0, hx: 2500, hy: 1500 };
    let tiles = tile_coords_for_bbox(bbox, 1000);
    assert_eq!(tiles.len(), 6); // 3 x 2
}

#[test]
fn tiles_of_negative_coordinates_round_towards_minus_infinity() {
    let bbox = Rect32 { lx: -1, ly: -1000, hx: 0, hy: -1 };
    assert_eq!(tile_coords_for_bbox(bbox, 1000), vec![(-1, -1), (0, -1)]);
    assert_eq!(tile_coords_for_bbox(bbox, 0), vec![(0, 0)]);
    assert_eq!(GPU_TILE_SIZE_DBU, 200_000);
}

#[test]
fn overview_lod_prefers_finer_tiles_and_skips_full_die_slabs() {
    let world = test_world();
    assert!(tile_is_full_die(world, world));
    assert!(!tile_is_full_die(Rect32 { lx: 100, ly: 100, hx: 400, hy: 400 }, world));
    assert_eq!(
        choose_overview_lod(&[(0, 1_200, 1_200), (1, 80, 80), (3, 8, 0)], 48_000),
        Some(0)
    );
    assert_eq!(
        choose_overview_lod(&[(0, 90_000, 90_000), (1, 12_000, 12_000), (3, 8, 8)], 48_000),
        Some(1)
    );
    assert_eq!(choose_overview_lod(&[(0, 8, 0), (1, 8, 0), (3, 8, 0)], 48_000), None);
}

#[test]
fn overview_lod_falls_back_to_the_last_useful_level_over_budget() {
    assert_eq!(
        choose_overview_lod(&[(0, 90_000, 90_000), (1, 60_000, 10), (3, 8, 0)], OVERVIEW_INSTANCE_BUDGET),
        Some(1)
    );
    assert_eq!(choose_overview_lod(&[], OVERVIEW_INSTANCE_BUDGET), None);
}

#[test]
fn bbox_hash_is_fnv1a_over_little_endian_coordinates() {
    let bbox = Rect32 { lx: 1, ly: -2, hx: 300, hy: 40_000 };
    let mut expected = 0x811c_9dc5u32;
    for value in [bbox.lx, bbox.ly, bbox.hx, bbox.hy] {
        for byte in value.to_le_bytes() {
            expected ^= u32::from(byte);
            expected = expected.wrapping_mul(0x0100_0193);
        }
    }
    assert_eq!(hash_bbox_u32(bbox), expected);
    assert_ne!(hash_bbox_u32(bbox), hash_bbox_u32(Rect32 { lx: 2, ..bbox }));
}

#[test]
fn edit_mode_keeps_precise_shapes_at_far_zoom() {
    let world = Rect32 { lx: 0, ly: 0, hx: 1000, hy: 1000 };
    let overview_viewport = Rect32 { lx: -1000, ly: -1000, hx: 2000, hy: 2000 };
    // a zoom of 0.25 is far out
    assert!(!should_use_view_tiles_for_state(
        16, false, false, false, true, true, overview_viewport, world,
    ));
    assert!(!should_use_view_tiles_for_state(
        16, false, false, true, false, true, overview_viewport, world,
    ));
}

#[test]
fn overview_uses_view_tiles_when_far_even_with_exact_overlay() {
    let world = Rect32 { lx: 0, ly: 0, hx: 1000, hy: 1000 };
    let overview_viewport = Rect32 { lx: -1000, ly: -1000, hx: 2000, hy: 2000 };
    // a zoom of 0.25 is far out
    assert!(should_use_view_tiles_for_state(
        16, false, false, false, false, true, overview_viewport, world,
    ));
    assert!(should_use_view_tiles_for_state(
        16, true, false, false, false, true, overview_viewport, world,
    ));
    assert!(should_use_view_tiles_for_state(
        16, false, true, false, false, true, overview_viewport, world,
    ));
}

#[test]
fn view_tiles_need_tiles_a_far_zoom_and_a_wide_view() {
    let world = Rect32 { lx: 0, ly: 0, hx: 1000, hy: 1000 };
    let wide = Rect32 { lx: -1000, ly: -1000, hx: 2000, hy: 2000 };
    let narrow = Rect32 { lx: 0, ly: 0, hx: 2000, hy: 2000 };
    assert!(!should_use_view_tiles_for_state(0, false, false, false, false, true, wide, world));
    assert!(!should_use_view_tiles_for_state(16, false, false, false, false, false, wide, world));
    assert!(!should_use_view_tiles_for_state(16, false, false, false, false, true, narrow, world));
}

#[test]
fn parameterized_grid_visible_indices_clip_to_viewport_by_direction() {
    let grid = GridMetadata {
        grid_type: "track".to_string(),
        direction: "x".to_string(),
        start: 100,
        step: 200,
        count: 4,
        ..GridMetadata::default()
    };
    assert_eq!(
        grid_visible_indices(&grid, Rect32 { lx: 50, ly: -1000, hx: 550, hy: 1000 }),
        vec![0, 1, 2]
    );
    assert_eq!(
        grid_visible_indices(&grid, Rect32 { lx: 101, ly: -1000, hx: 499, hy: 1000 }),
        vec![1]
    );

    let y_grid = GridMetadata { direction: "y".to_string(), ..grid };
    assert_eq!(
        grid_visible_indices(&y_grid, Rect32 { lx: -1000, ly: 50, hx: 1000, hy: 550 }),
        vec![0, 1, 2]
    );
}

#[test]
fn grid_index_range_is_empty_outside_the_lines() {
    let grid = GridMetadata {
        grid_type: "track".to_string(),
        direction: "x".to_string(),
        start: 100,
        step: 200,
        count: 4,
        ..GridMetadata::default()
    };
    assert_eq!(grid_visible_index_range(&grid, Rect32 { lx: 0, ly: 0, hx: 99, hy: 10 }), None);
    assert_eq!(grid_visible_index_range(&grid, Rect32 { lx: 0, ly: 0, hx: 10_000, hy: 10 }), Some((0, 3)));
    assert_eq!(grid_coordinate_at_index(&grid, 3), 700);
    assert_eq!(grid_owner_type(&grid), Some(OwnerType::TrackGrid));
    let gcells = GridMetadata { grid_type: " GCell ".to_string(), ..GridMetadata::default() };
    assert_eq!(grid_owner_type(&gcells), Some(OwnerType::GCellGrid));
    let other = GridMetadata { grid_type: "row".to_string(), ..GridMetadata::default() };
    assert_eq!(grid_owner_type(&other), None);
}

#[test]
fn parameterized_grid_lines_clip_to_design_bounds() {
    let viewport = Rect32 { lx: -40, ly: 20, hx: 60, hy: 140 };
    let design_bounds = Rect32 { lx: 0, ly: 0, hx: 100, hy: 100 };
    let x_grid = GridMetadata { direction: "x".to_string(), ..GridMetadata::default() };
    assert_eq!(
        parameterized_grid_line_endpoints(&x_grid, 50, viewport, design_bounds),
        Some((Point32 { x: 50, y: 20 }, Point32 { x: 50, y: 100 }))
    );

    let y_grid = GridMetadata { direction: "y".to_string(), ..GridMetadata::default() };
    assert_eq!(
        parameterized_grid_line_endpoints(&y_grid, 40, viewport, design_bounds),
        Some((Point32 { x: 0, y: 40 }, Point32 { x: 60, y: 40 }))
    );
    assert_eq!(
        parameterized_grid_line_endpoints(
            &x_grid,
            50,
            Rect32 { lx: 120, ly: 120, hx: 160, hy: 160 },
            design_bounds,
        ),
        None
    );

    let drc_viewport = Rect32 { lx: -20_405, ly: 23_796, hx: 35_574, hy: 68_467 };
    let drc_die = Rect32 { lx: 0, ly: 0, hx: 59_076, hy: 59_076 };
    assert_eq!(
        parameterized_grid_line_endpoints(&x_grid, 20_300, drc_viewport, drc_die),
        Some((Point32 { x: 20_300, y: 23_796 }, Point32 { x: 20_300, y: 59_076 }))
    );
    assert_eq!(
        parameterized_grid_line_endpoints(&y_grid, 23_900, drc_viewport, drc_die),
        Some((Point32 { x: 0, y: 23_900 }, Point32 { x: 35_574, y: 23_900 }))
    );
}

#[test]
fn parameterized_grid_indices_are_sampled_when_viewport_contains_many_lines() {
    let grid = GridMetadata {
        grid_type: "gcell".to_string(),
        direction: "x".to_string(),
        start: 0,
        step: 1,
        count: 10000,
        ..GridMetadata::default()
    };
    let indices = grid_visible_indices(&grid, Rect32 { lx: 0, ly: 0, hx: 9999, hy: 10 });

    assert!(indices.len() as u64 <= MAX_PARAMETERIZED_GRID_LINES_PER_GRID);
    assert_eq!(indices.first(), Some(&0));
    assert!(indices.last().is_some_and(|index| *index <= 9999));
}

#[test]
fn parameterized_grid_visibility_respects_zoom_category_and_layers() {
    let mut layers = vec![layer_state(1, false), layer_state(2, true)];
    layers[0].name = "M1".to_string();
    layers[1].name = "M2".to_string();
    let mut grid_visibility = ObjectVisibility::default();
    grid_visibility.set_category_visible(DrawingCategory::Tracks, true);
    let grid = GridMetadata {
        grid_type: "track".to_string(),
        direction: "x".to_string(),
        start: 0,
        step: 100,
        count: 4,
        layer_names: vec!["M1".to_string()],
        ..GridMetadata::default()
    };

    // a zoom of 2.0 is zoomed in, one of 1.0 is not
    assert!(!parameterized_grid_is_visible(&grid, &layers, grid_visibility, true));
    layers[0].visible = true;
    assert!(parameterized_grid_is_visible(&grid, &layers, grid_visibility, true));
    assert!(!parameterized_grid_is_visible(&grid, &layers, grid_visibility, false));

    let mut hidden_guides = grid_visibility;
    hidden_guides.set_category_visible(DrawingCategory::Tracks, false);
    assert!(!parameterized_grid_is_visible(&grid, &layers, hidden_guides, true));
}

#[test]
fn grids_bound_to_no_layer_pass_the_layer_filter() {
    let layers = vec![layer_state(1, false)];
    let unbound = GridMetadata { grid_type: "track".to_string(), ..GridMetadata::default() };
    assert!(grid_layer_filter_is_visible(&unbound, &layers));
    let bound = GridMetadata { layer_names: vec!["L1".to_string()], ..GridMetadata::default() };
    assert!(!grid_layer_filter_is_visible(&bound, &layers));
}

#[test]
fn unrouted_net_guides_reuse_net_category_visibility_without_layer_filters() {
    let guide = UnroutedNetGuide {
        net_name: "clk".to_string(),
        net_kind: "clock".to_string(),
        hub: Point32 { x: 50, y: 50 },
        pin_centers: vec![Point32 { x: 10, y: 10 }, Point32 { x: 90, y: 90 }],
        bbox: Rect32 { lx: 10, ly: 10, hx: 90, hy: 90 },
    };
    let viewport = Rect32 { lx: 0, ly: 0, hx: 100, hy: 100 };
    let mut visibility = ObjectVisibility::default();

    assert!(!unrouted_net_guide_is_visible(&guide, visibility, viewport));

    visibility.set_category_visible(DrawingCategory::NetClock, true);

    assert!(unrouted_net_guide_is_visible(&guide, visibility, viewport));
    let far = Rect32 { lx: 200, ly: 200, hx: 300, hy: 300 };
    assert!(!unrouted_net_guide_is_visible(&guide, visibility, far));
}

#[test]
fn layer_visibility_helpers_show_hide_and_invert_layers() {
    let mut layers = vec![layer_state(1, true), layer_state(2, false), layer_state(3, true)];

    set_layer_visibility(&mut layers, false);
    assert_eq!(layer_visibility(&layers), vec![false, false, false]);

    set_layer_visibility(&mut layers, true);
    assert_eq!(layer_visibility(&layers), vec![true, true, true]);

    invert_layer_visibility(&mut layers);
    assert_eq!(layer_visibility(&layers), vec![false, false, false]);
}

#[test]
fn inverting_twice_restores_layer_visibility() {
    let mut layers = vec![layer_state(1, true), layer_state(2, false)];
    invert_layer_visibility(&mut layers);
    assert_eq!(layer_visibility(&layers), vec![false, true]);
    invert_layer_visibility(&mut layers);
    assert_eq!(layer_visibility(&layers), vec![true, false]);
    assert_eq!(layers[1].name, "L2");
}

#[test]
fn visible_layer_count_counts_only_enabled_layers() {
    let layers = vec![layer_state(1, true), layer_state(2, false), layer_state(3, true)];

    assert_eq!(visible_layer_count(&layers), 2);
}

#[test]
fn layer_hover_text_includes_rule_metadata_when_available() {
    let mut layer = layer_state(4, true);
    layer.name = "M4".to_string();
    layer.layer_type = "routing".to_string();
    layer.display_role = "metal".to_string();
    layer.direction = "vertical".to_string();
    layer.width = 100;
    layer.pitch_x = 200;
    layer.pitch_y = 300;
    layer.min_spacing = 70;
    layer.min_area = 400;
    layer.min_step = 50;
    layer.cut_spacing = 80;
    layer.enclosure_below = "1,2".to_string();
    layer.enclosure_above = "3,4".to_string();
    layer.lef58_rule_count = 5;

    assert_eq!(
        layer_hover_text(&layer),
        "id: 4\norder: 4\ntype: routing\nstyle role: metal\ndirection: vertical\nwidth: 100\npitch: 200 300\nmin spacing: 70\nmin area: 400\nmin step: 50\ncut spacing: 80\nenclosure below: 1,2\nenclosure above: 3,4\nLEF58 rules: 5"
    );
}

#[test]
fn layer_hover_text_leaves_out_unset_rules() {
    let layer = layer_state(2, true);
    assert_eq!(
        layer_hover_text(&layer),
        "id: 2\norder: 2\ntype: unknown\nstyle role: unknown\ndirection: unknown\nwidth: 0\npitch: 0 0"
    );
}

#[test]
fn render_query_layers_keep_layout_layer_for_layout_level_owner_categories() {
    let mut layers = vec![layer_state(0, false), layer_state(7, true), layer_state(8, false)];

    assert_eq!(render_query_layer_ids(&layers, ObjectVisibility::default()), vec![0, 7]);

    let mut visibility = ObjectVisibility::default();
    visibility.set_category_visible(DrawingCategory::Instances, false);
    visibility.set_category_visible(DrawingCategory::Boundaries, false);
    visibility.set_category_visible(DrawingCategory::Placement, false);
    visibility.set_category_visible(DrawingCategory::Regions, false);
    assert_eq!(render_query_layer_ids(&layers, visibility), vec![7]);

    layers[0].visible = true;
    assert_eq!(render_query_layer_ids(&layers, visibility), vec![0, 7]);

    let idb_only_layers = vec![layer_state(7, true), layer_state(8, false)];
    assert_eq!(
        render_query_layer_ids(&idb_only_layers, ObjectVisibility::default()),
        vec![0, 7]
    );

    for category in [
        DrawingCategory::Tracks,
        DrawingCategory::GCells,
        DrawingCategory::Obstructions,
        DrawingCategory::Regions,
    ] {
        let mut visibility = ObjectVisibility::default();
        visibility.set_all_visible(false);
        visibility.set_category_visible(category, true);
        assert_eq!(render_query_layer_ids(&idb_only_layers, visibility), vec![0, 7]);
    }
}

#[test]
fn shapes_follow_their_layer_and_owner_category_switches() {
    let layers = vec![layer_state(3, true), layer_state(4, false), layer_state(4, true)];
    let visibility = ObjectVisibility::default();
    assert!(shape_is_visible(3, Some(OwnerType::NetWireSegment), None, &layers, visibility));
    assert!(!shape_is_visible(4, Some(OwnerType::NetWireSegment), None, &layers, visibility));
    assert!(!shape_is_visible(5, None, None, &layers, visibility));
    assert!(shape_is_visible(4, Some(OwnerType::InstanceBBox), None, &layers, visibility));
    assert!(shape_is_visible(0, Some(OwnerType::NetWireSegment), None, &layers, visibility));
    let mut hidden = visibility;
    hidden.set_category_visible(DrawingCategory::Instances, false);
    assert!(!shape_is_visible(3, Some(OwnerType::InstanceBBox), Some(DrawingCategory::Instances), &layers, hidden));
}

#[test]
fn zoom_rules_defer_context_geometry_and_suppressed_grids() {
    let rules = ZoomVisibilityRules { track_grid_suppressed: true, gcell_grid_suppressed: false };
    assert!(!rules.is_drawn_at_zoom(Some(OwnerType::TrackGrid), true));
    assert!(rules.is_drawn_at_zoom(Some(OwnerType::GCellGrid), true));
    assert!(!rules.is_drawn_at_zoom(Some(OwnerType::GCellGrid), false));
    assert!(rules.is_drawn_at_zoom(Some(OwnerType::NetWireSegment), false));
    assert!(rules.is_drawn_at_zoom(None, false));
    assert!(!shape_is_drawn_at_zoom(Some(OwnerType::TrackGrid), true, true));
    assert!(shape_is_drawn_at_zoom(Some(OwnerType::TrackGrid), false, true));
    assert!(!shape_is_drawn_at_zoom(Some(OwnerType::Row), false, false));
    assert!(shape_is_drawn_at_zoom(Some(OwnerType::Die), false, false));
}

#[test]
fn parameterized_grid_metadata_is_found_by_owner_type() {
    let grids = vec![
        GridMetadata { grid_type: "track".to_string(), ..GridMetadata::default() },
        GridMetadata { grid_type: "row".to_string(), ..GridMetadata::default() },
    ];
    assert!(has_parameterized_grid_metadata(&grids, OwnerType::TrackGrid));
    assert!(!has_parameterized_grid_metadata(&grids, OwnerType::GCellGrid));
    assert!(!has_parameterized_grid_metadata(&Vec::new(), OwnerType::TrackGrid));
}

#[test]
fn fill_pattern_mapping_covers_all_patterns() {
    assert_eq!(fill_pattern_id(FillPattern::Hollow), 0);
    assert_eq!(fill_pattern_id(FillPattern::Solid), 1);
    assert_eq!(fill_pattern_id(FillPattern::SparseDots), 2);
    assert_eq!(fill_pattern_id(FillPattern::DenseDots), 3);
    assert_eq!(fill_pattern_id(FillPattern::DiagonalHatch), 4);
    assert_eq!(fill_pattern_id(FillPattern::CrossHatch), 5);
    assert_eq!(fill_pattern_id(FillPattern::HorizontalHatch), 6);
    assert_eq!(fill_pattern_id(FillPattern::VerticalHatch), 7);
    assert_eq!(fill_pattern_id(FillPattern::Grid), 8);
    assert_eq!(fill_pattern_id(FillPattern::XMark), 9);
}

#[test]
fn line_instances_use_axis_aligned_thickness() {
    let line = LinePayload { begin: Point32 { x: 0, y: 10 }, end: Point32 { x: 100, y: 10 }, width: 8 };
    let (rect_dbu, flag) = geometry_to_instance(ShapeGeometry::Line(line)).unwrap();
    assert_eq!(flag, FLAG_LINE);
    assert_eq!(rect_dbu[0], 0);
    assert_eq!(rect_dbu[2], 100);
    assert!(rect_dbu[3] > rect_dbu[1]);
    assert_eq!(rect_dbu, [0, -30, 100, 50]);
}

#[test]
fn lines_and_points_become_rectangles() {
    let vertical = LinePayload { begin: Point32 { x: 5, y: 90 }, end: Point32 { x: 5, y: -10 }, width: -300 };
    assert_eq!(line_to_rect_dbu(vertical), [-145, -10, 155, 90]);
    let diagonal = LinePayload { begin: Point32 { x: 0, y: 0 }, end: Point32 { x: 10, y: 20 }, width: 100 };
    assert_eq!(line_to_rect_dbu(diagonal), [-50, -50, 60, 70]);
    let edge = LinePayload { begin: Point32 { x: 0, y: i32::MAX }, end: Point32 { x: 1, y: i32::MAX }, width: 0 };
    assert_eq!(line_to_rect_dbu(edge), [0, i32::MAX - 40, 1, i32::MAX]);
    assert_eq!(
        geometry_to_instance(ShapeGeometry::Point(Point32 { x: 0, y: i32::MIN })),
        Some(([-80, i32::MIN, 80, i32::MIN + 80], FLAG_POINT))
    );
    assert_eq!(geometry_to_instance(ShapeGeometry::Rect(Rect32 { lx: 0, ly: 0, hx: 0, hy: 5 })), None);
    assert_eq!(
        geometry_to_instance(ShapeGeometry::Rect(Rect32 { lx: 0, ly: 0, hx: 3, hy: 5 })),
        Some(([0, 0, 3, 5], 0))
    );
}
