use chip_viewer_native::diagnostics::{
    cache_stats_line, design_metadata_lines, diagnostics_lines, ChipViewIndexMemoryStats,
    ChipViewMemoryStats, DeltaStats, DesignManifest, GeometryMappedBytes, RenderCacheStats,
};
use chip_viewer_native::geometry::{
    ceil_div_i64, clamp_i64_to_i32, floor_div_i64, intersect_rect, rect_from_corners,
    translate_rect, union_rect, Point32, Rect32,
};
use chip_viewer_native::panels::{
    effective_coordinate_unit, semantic_metadata_lines, ColormapMode, CoordinateUnit, ShadingStyle,
};
use chip_viewer_native::units::{
    cursor_status_line, format_distance, format_micron, hover_status_line, NearestShape,
};

#[test]
fn cursor_status_line_uses_selected_coordinate_unit() {
    let point = Point32 { x: 3000, y: -500 };

    assert_eq!(
        cursor_status_line(point, CoordinateUnit::Dbu, Some(2000)),
        "cursor: 3000 -500 DBU"
    );
    assert_eq!(
        cursor_status_line(point, CoordinateUnit::Micron, Some(2000)),
        "cursor: 1.500 -0.250 um"
    );
}

#[test]
fn hover_status_line_appends_nearest_shape_when_available() {
    let point = Point32 { x: 3000, y: -500 };

    assert_eq!(
        hover_status_line(
            point,
            CoordinateUnit::Dbu,
            Some(2000),
            Some(NearestShape { shape_id: 42, distance_squared: 25 }),
        ),
        "cursor: 3000 -500 DBU, nearest: shape 42 d2 25"
    );
    assert_eq!(
        hover_status_line(point, CoordinateUnit::Micron, Some(2000), None),
        "cursor: 1.500 -0.250 um"
    );
}

#[test]
fn micron_coordinate_unit_falls_back_to_dbu_without_manifest_scale() {
    assert_eq!(effective_coordinate_unit(CoordinateUnit::Micron, None), CoordinateUnit::Dbu);
    assert_eq!(format_distance(2000, CoordinateUnit::Micron, None), "2000 DBU");
}

#[test]
fn micron_text_matches_three_decimal_float_formatting() {
    for (value, scale) in [
        (1, 3u32),
        (2, 3),
        (-1, 3),
        (5, 2000),
        (1, 2000),
        (3, 2000),
        (-3, 2000),
        (7, 16),
        (2_147_483_647, 1000),
        (-2_147_483_648, 7),
        (1234567, 999),
        (0, 5),
    ] {
        let expected = format!("{:.3}", value as f64 / scale as f64);
        assert_eq!(format_micron(value, Some(scale)), expected, "{value} / {scale}");
    }
    assert_eq!(format_micron(42, None), "42.000");
    assert_eq!(format_micron(42, Some(0)), "42.000");
    assert_eq!(format_distance(2500, CoordinateUnit::Micron, Some(1000)), "2.500 um");
    assert_eq!(format_distance(-7, CoordinateUnit::Dbu, Some(1000)), "-7 DBU");
}

#[test]
fn translate_rect_moves_all_edges() {
    let rect = Rect32 { lx: 1, ly: 2, hx: 3, hy: 4 };

    assert_eq!(translate_rect(rect, 10, -2), Rect32 { lx: 11, ly: 0, hx: 13, hy: 2 });
}

#[test]
fn translation_saturates_at_the_coordinate_limits() {
    let rect = Rect32 { lx: i32::MAX - 1, ly: i32::MIN + 1, hx: i32::MAX, hy: 0 };
    assert_eq!(
        translate_rect(rect, 5, -5),
        Rect32 { lx: i32::MAX, ly: i32::MIN, hx: i32::MAX, hy: -5 }
    );
    let moved = translate_rect(Rect32 { lx: 1, ly: 2, hx: 3, hy: 4 }, 10, -2);
    assert_eq!(translate_rect(moved, -10, 2), Rect32 { lx: 1, ly: 2, hx: 3, hy: 4 });
}

#[test]
fn rectangles_union_intersect_and_normalise() {
    let a = Rect32 { lx: 0, ly: 0, hx: 10, hy: 10 };
    let b = Rect32 { lx: 5, ly: -5, hx: 20, hy: 5 };
    assert_eq!(union_rect(a, b), Rect32 { lx: 0, ly: -5, hx: 20, hy: 10 });
    assert_eq!(intersect_rect(a, b), Some(Rect32 { lx: 5, ly: 0, hx: 10, hy: 5 }));
    assert_eq!(intersect_rect(a, Rect32 { lx: 11, ly: 0, hx: 12, hy: 1 }), None);
    assert_eq!(rect_from_corners(10, -1, 2, 7), Rect32 { lx: 2, ly: -1, hx: 10, hy: 7 });
    assert_eq!(clamp_i64_to_i32(1 << 40), i32::MAX);
    assert_eq!(clamp_i64_to_i32(-(1 << 40)), i32::MIN);
    assert_eq!(floor_div_i64(-7, 2), -4);
    assert_eq!(ceil_div_i64(-7, 2), -3);
    assert_eq!(ceil_div_i64(7, 2), 4);
}

fn sample_memory() -> ChipViewMemoryStats {
    ChipViewMemoryStats {
        mapped_bytes: GeometryMappedBytes {
            meta: 10,
            shapes: 20,
            owners: 30,
            payload: 40,
            names: 50,
            name_index: 60,
            sidmap: 70,
            delta: 80,
            view: 90,
        },
        index_bytes: ChipViewIndexMemoryStats {
            layer_index_bytes: 100,
            shape_index_bytes: 200,
            view_index_bytes: 300,
            name_index_bytes: 400,
            net_index_bytes: 0,
            connectivity_index_bytes: 0,
            total_bytes: 1000,
        },
        mapped_plus_index_bytes: 1450,
    }
}

#[test]
fn diagnostics_lines_include_memory_cache_tile_and_delta_context() {
    let memory = sample_memory();
    let delta = DeltaStats {
        record_count: 3,
        latest_sequence_id: Some(11),
        latest_command_id: Some(22),
        latest_shape_id: Some(33),
        latest_old_version: Some(4),
        latest_new_version: Some(5),
    };
    let exact_cache = RenderCacheStats { entries: 2, hits: 7, misses: 8 };
    let tile_cache = RenderCacheStats { entries: 4, hits: 9, misses: 10 };

    assert_eq!(
        diagnostics_lines(&memory, &delta, 12, exact_cache, tile_cache),
        vec![
            "mmap bytes: 450",
            "index bytes: 1000",
            "total memory: 1450",
            "view tiles: 12",
            "exact cache: 2 entries, 7 hits, 8 misses",
            "tile cache: 4 entries, 9 hits, 10 misses",
            "delta records: 3",
            "latest delta: seq 11 cmd 22 shape 33 v4->5",
        ]
    );
}

#[test]
fn diagnostics_lines_report_empty_delta_log_without_latest_record() {
    let memory = ChipViewMemoryStats::default();
    let delta = DeltaStats::default();

    assert_eq!(
        diagnostics_lines(
            &memory,
            &delta,
            0,
            RenderCacheStats::default(),
            RenderCacheStats::default(),
        ),
        vec![
            "mmap bytes: 0",
            "index bytes: 0",
            "total memory: 0",
            "view tiles: 0",
            "exact cache: 0 entries, 0 hits, 0 misses",
            "tile cache: 0 entries, 0 hits, 0 misses",
            "delta records: 0",
            "latest delta: none",
        ]
    );
}

#[test]
fn mapped_bytes_total_adds_every_file() {
    assert_eq!(sample_memory().mapped_bytes.total(), 450);
    assert_eq!(
        cache_stats_line("exact cache", RenderCacheStats { entries: 1, hits: 2, misses: 3 }),
        "exact cache: 1 entries, 2 hits, 3 misses"
    );
}

#[test]
fn design_metadata_lines_report_manifest_context_when_available() {
    let manifest = DesignManifest {
        design_name: Some("uart_top".to_string()),
        design_version: Some("5.8".to_string()),
        dbu_per_micron: Some(2000),
        manufacture_grid: Some(5),
        dirty_lod_tile_count: Some(7),
        dirty_lod_rebuild_candidate_count: Some(11),
        written_side_file_count: Some(13),
        reused_side_file_count: Some(5),
    };

    assert_eq!(
        design_metadata_lines(&manifest),
        vec![
            "design: uart_top",
            "design version: 5.8",
            "dbu per micron: 2000",
            "manufacture grid: 5",
            "dirty LOD tiles: 7",
            "dirty LOD candidates: 11",
            "written side files: 13",
            "reused side files: 5",
        ]
    );
    assert!(design_metadata_lines(&DesignManifest::default()).is_empty());
}

#[test]
fn semantic_metadata_lines_report_site_and_master_counts() {
    assert_eq!(
        semantic_metadata_lines(2, 3, 4, 5, 6, 7, 8, 9),
        vec![
            "sites: 2".to_string(),
            "masters: 3".to_string(),
            "via definitions: 4".to_string(),
            "grid definitions: 5".to_string(),
            "connectivity endpoints: 6".to_string(),
            "net definitions: 7".to_string(),
            "buses: 8".to_string(),
            "groups: 9".to_string(),
        ]
    );
}

#[test]
fn shading_styles_are_listed_with_distinct_labels() {
    let labels: Vec<&str> = ShadingStyle::ALL.iter().map(|s| s.label()).collect();
    assert_eq!(labels, vec!["Normal", "Cartoon", "Tech", "Iridescent", "Translucent"]);
    assert_eq!(ShadingStyle::default(), ShadingStyle::Normal);
    assert_eq!(ShadingStyle::default().label(), "Normal");
}

#[test]
fn colormap_modes_have_distinct_labels_and_turbo_first() {
    let labels: Vec<&str> = [ColormapMode::Turbo, ColormapMode::Viridis, ColormapMode::Plasma]
        .iter()
        .map(|m| m.label())
        .collect();
    assert_eq!(labels, vec!["Turbo", "Viridis", "Plasma"]);
    assert_eq!(ColormapMode::default().label(), "Turbo");
}

#[test]
fn ceil_div_takes_negative_divisors() {
    // Euclidean quotient, plus one when a remainder is left.
    assert_eq!(ceil_div_i64(7, -2), -2);
    assert_eq!(ceil_div_i64(-7, -2), 5);
    assert_eq!(ceil_div_i64(8, -2), -4);
    assert_eq!(ceil_div_i64(i64::MIN, -2), i64::MIN / -2);
    assert_eq!(ceil_div_i64(i64::MAX, -1), -i64::MAX);
}
