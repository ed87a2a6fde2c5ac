use std::collections::BTreeMap;

use chip_viewer_native::geometry::{Point32, Rect32};
use chip_viewer_native::idset::FocusTransition;
use chip_viewer_native::heatmap::{
    contextual_map_focus_bbox, layout_from_records, next_peak_cell, HeatmapLayout, LayoutRecord,
    MapCellPick,
};

fn record(pixel_row: usize, pixel_col: usize, lx: i32, ly: i32, ux: i32, uy: i32) -> Result<LayoutRecord, String> {
    Ok(LayoutRecord { pixel_row, pixel_col, lx, ly, ux, uy })
}

fn two_by_two() -> Vec<Result<LayoutRecord, String>> {
    vec![
        record(0, 0, 0, 100, 10, 110),
        record(0, 1, 10, 100, 20, 110),
        record(1, 0, 0, 90, 10, 100),
        record(1, 1, 10, 90, 20, 100),
    ]
}

fn layout(rows: usize, columns: usize, records: Vec<Result<LayoutRecord, String>>) -> HeatmapLayout {
    HeatmapLayout { rows, columns, cells: layout_from_records("maps/density_map/layout.csv", records).unwrap() }
}

#[test]
fn map_focus_keeps_context_around_the_selected_cell() {
    let target = contextual_map_focus_bbox(Rect32 { lx: 0, ly: 0, hx: 100, hy: 20 });

    assert_eq!(target, Rect32 { lx: -50, ly: -90, hx: 150, hy: 110 });
}

#[test]
fn map_focus_of_an_empty_cell_keeps_a_unit_margin_and_clamps() {
    assert_eq!(
        contextual_map_focus_bbox(Rect32 { lx: -3, ly: 4, hx: -3, hy: 4 }),
        Rect32 { lx: -4, ly: 3, hx: -2, hy: 5 }
    );
    assert_eq!(
        contextual_map_focus_bbox(Rect32 { lx: i32::MIN, ly: 0, hx: i32::MAX, hy: 0 }),
        Rect32 { lx: i32::MIN, ly: i32::MIN, hx: i32::MAX, hy: i32::MAX }
    );
}

#[test]
fn loads_values_and_pixel_to_layout_coordinates() {
    let heatmap = layout(2, 2, two_by_two());

    assert_eq!(heatmap.bbox(0, 1), Some(Rect32 { lx: 10, ly: 100, hx: 20, hy: 110 }));
    assert_eq!(heatmap.bbox(2, 0), None);
    assert!(heatmap.grid_bbox_fits());
    assert_eq!(heatmap.grid_bbox(), Some(Rect32 { lx: 0, ly: 90, hx: 20, hy: 110 }));
    assert_eq!(heatmap.overall_layout_bbox(), Some(Rect32 { lx: 0, ly: 90, hx: 20, hy: 110 }));
    assert!(heatmap.core_pitch_in_range());
    assert_eq!(heatmap.core_pitch(), None);
    assert_eq!(heatmap.cell_at_world_point(Point32 { x: 5, y: 95 }), Some((1, 0)));
    assert_eq!(heatmap.cell_at_world_point(Point32 { x: 10, y: 100 }), Some((0, 0)));
    assert_eq!(heatmap.cell_at_world_point(Point32 { x: 21, y: 95 }), None);
}

#[test]
fn layout_rows_report_their_errors() {
    let mut bad = two_by_two();
    bad.insert(1, record(4, 5, 10, 10, 10, 20));
    assert_eq!(
        layout_from_records("m/layout.csv", bad).unwrap_err(),
        "map layout m/layout.csv has an invalid rectangle at row 4, column 5"
    );
    let mut unreadable = two_by_two();
    unreadable.insert(2, Err("CSV deserialize error".to_string()));
    unreadable.push(record(9, 9, 5, 5, 1, 1));
    assert_eq!(
        layout_from_records("m/layout.csv", unreadable).unwrap_err(),
        "failed to read map layout m/layout.csv: CSV deserialize error"
    );
    assert_eq!(
        layout_from_records("m/layout.csv", Vec::new()).unwrap_err(),
        "map layout is empty: m/layout.csv"
    );
}

#[test]
fn layout_rows_of_egr_maps_swap_rows_and_columns_and_later_rows_win() {
    let cells = layout_from_records(
        "maps/EGR_overflow_map/layout.csv",
        vec![record(0, 3, 1, 1, 2, 2), record(0, 3, 5, 5, 6, 6)],
    )
    .unwrap();
    assert_eq!(cells.len(), 1);
    assert_eq!(cells.get(&(3, 0)), Some(&Rect32 { lx: 5, ly: 5, hx: 6, hy: 6 }));
    let plain = layout_from_records("maps/density/layout.csv", vec![record(0, 3, 1, 1, 2, 2)]).unwrap();
    assert!(plain.contains_key(&(0, 3)));
}

fn three_by_three() -> HeatmapLayout {
    let mut cells = BTreeMap::new();
    for row in 0..3usize {
        for column in 0..3usize {
            let lx = 10 * column as i32;
            let uy = 100 - 10 * row as i32;
            cells.insert((row, column), Rect32 { lx, ly: uy - 10, hx: lx + 10, hy: uy });
        }
    }
    cells.insert((0, 0), Rect32 { lx: 0, ly: 90, hx: 30, hy: 100 });
    HeatmapLayout { rows: 3, columns: 3, cells }
}

#[test]
fn core_pitch_and_picking_skip_irregular_cells() {
    let heatmap = three_by_three();
    assert_eq!(heatmap.core_pitch(), Some((10, 10)));
    assert_eq!(heatmap.cell_at_world_point(Point32 { x: 15, y: 95 }), Some((0, 1)));
    assert_eq!(heatmap.cell_at_world_point(Point32 { x: 25, y: 75 }), Some((2, 2)));
    assert_eq!(heatmap.grid_bbox(), Some(Rect32 { lx: 0, ly: 70, hx: 30, hy: 100 }));
    assert_eq!(heatmap.overall_layout_bbox(), Some(Rect32 { lx: 0, ly: 70, hx: 30, hy: 100 }));
}

#[test]
fn empty_layouts_have_no_boxes() {
    let heatmap = HeatmapLayout { rows: 2, columns: 2, cells: BTreeMap::new() };
    assert_eq!(heatmap.grid_bbox(), None);
    assert_eq!(heatmap.overall_layout_bbox(), None);
    assert_eq!(heatmap.cell_at_world_point(Point32 { x: 0, y: 0 }), None);
    let no_matrix = HeatmapLayout { rows: 0, ..three_by_three() };
    assert_eq!(no_matrix.grid_bbox(), None);
}

#[test]
fn next_peak_cycles_through_the_peaks() {
    let peaks = vec![(1, 1), (2, 2), (0, 0)];
    assert_eq!(next_peak_cell(&peaks, None), Some((1, 1)));
    assert_eq!(next_peak_cell(&peaks, Some((2, 2))), Some((0, 0)));
    assert_eq!(next_peak_cell(&peaks, Some((0, 0))), Some((1, 1)));
    assert_eq!(next_peak_cell(&peaks, Some((5, 5))), Some((1, 1)));
    assert_eq!(next_peak_cell(&Vec::new(), Some((1, 1))), None);
}

#[test]
fn clicking_a_mapped_cell_focuses_it_and_an_unmapped_one_reports() {
    let layout = layout(2, 2, two_by_two());
    let bbox = layout.bbox(0, 1).unwrap();
    match layout.pick_cell(0, 1) {
        MapCellPick::Focus { bbox: picked, focus } => {
            assert_eq!(picked, bbox);
            assert_eq!(focus.bbox, contextual_map_focus_bbox(bbox));
            assert_eq!(focus.select_shape_id, None);
            assert_eq!(focus.transition, FocusTransition::Animated);
        }
        MapCellPick::Unmapped { .. } => panic!("cell (0, 1) is mapped"),
    }
    match layout.pick_cell(5, 7) {
        MapCellPick::Unmapped { message } => {
            assert_eq!(message, "layout.csv has no coordinate mapping for row 5, column 7")
        }
        MapCellPick::Focus { .. } => panic!("cell (5, 7) is not mapped"),
    }
}
