use std::collections::BTreeSet;

use chip_viewer_native::geometry::{Point32, Rect32};
use chip_viewer_native::idset::{
    clear_search_state, first_existing_shape_id, focus_target_for_shape_boxes,
    focus_target_for_shape_ids, overlay_shape_ids, retain_existing_shape_id,
    retain_existing_shape_ids, set_ids, shape_id_lookup_action, FocusTransition, PendingFocus,
};
use chip_viewer_native::selection::{
    edit_capability_lines, empty_label, grid_reference_bounds_from_records,
    is_renderable_shape, is_renderable_shape_kind, local_shape_label_name,
    owner_local_info_lines, pick_top_editable_instance_bbox, selection_connectivity_endpoint_line,
    selection_connectivity_lines, selection_detail_lines, shape_kind_label, shape_label_key,
    shape_label_kind, shape_label_text, shape_state_label, single_line_query_text,
    ConnectivityMetadata, OwnerLocalInfo, OwnerRef, ShapeKind, ShapeLabelKey, ShapeLabelKind,
    ShapeRecord, ShapeState,
};
use chip_viewer_native::visibility::OwnerType;

fn owner_of(owner_type: OwnerType) -> OwnerRef {
    OwnerRef { owner_type: owner_type.raw(), ..OwnerRef::default() }
}

#[test]
fn overlay_shape_ids_include_highlight_and_selection() {
    let highlighted = BTreeSet::from([10, 20]);

    assert_eq!(overlay_shape_ids(Some(30), &highlighted), BTreeSet::from([10, 20, 30]));
    assert_eq!(overlay_shape_ids(None, &highlighted), highlighted);
    assert_eq!(set_ids(&highlighted), vec![10, 20]);
}

#[test]
fn clear_search_state_resets_search_text_and_highlights() {
    let mut search_text = "clk".to_string();
    let mut highlighted = BTreeSet::from([10, 20]);

    clear_search_state(&mut search_text, &mut highlighted);

    assert!(search_text.is_empty());
    assert!(highlighted.is_empty());
}

#[test]
fn selection_detail_lines_include_shape_bbox_and_owner_context() {
    let shape = ShapeRecord {
        id: 42,
        version: 3,
        layer_id: 7,
        kind: ShapeKind::Line.raw(),
        state: ShapeState::Alive.raw(),
        flags: 0x0010,
        owner_index: 1,
        bbox: Rect32 { lx: 10, ly: 20, hx: 30, hy: 40 },
    };
    let owner = OwnerRef {
        owner_type: OwnerType::NetWireSegment.raw(),
        flags: 0x0020,
        owner_id: 123,
        path0: 1,
        path1: 2,
        path2: 3,
        path3: 4,
        name_id: 8,
    };

    assert_eq!(
        selection_detail_lines(&shape, Some(&owner), "net_wire_segment", Some("clk"), Some("via:VIA1")),
        vec![
            "shape: 42",
            "kind: line",
            "state: alive",
            "version: 3",
            "layer: 7",
            "flags: 0x0010",
            "bbox: 10 20 30 40",
            "owner: net_wire_segment 123",
            "owner flags: 0x0020",
            "name: clk",
            "local name: via:VIA1",
            "via: VIA1",
            "path: 1 2 3 4",
        ]
    );
}

#[test]
fn selection_detail_lines_expand_rich_via_local_info() {
    let shape = ShapeRecord {
        id: 42,
        version: 3,
        layer_id: 7,
        kind: ShapeKind::Rect.raw(),
        state: ShapeState::Alive.raw(),
        flags: 0x0010,
        bbox: Rect32 { lx: 10, ly: 20, hx: 30, hy: 40 },
        ..ShapeRecord::default()
    };
    let owner = OwnerRef {
        owner_type: OwnerType::Via.raw(),
        flags: 0x0020,
        owner_id: 123,
        path0: 1,
        path1: 2,
        path2: 3,
        path3: 4,
        name_id: 8,
    };
    let lines = selection_detail_lines(
        &shape,
        Some(&owner),
        "via",
        Some("clk"),
        Some(
            "via:VIA12 master:VIA12 type:generated rule:VIA12RULE bottom:M1 cut:VIA12 top:M2 cut_size:4x4 \
             cut_spacing:8,8 enclosure_bottom:1,2 enclosure_top:3,4 rowcol:1x2 default:true",
        ),
    );

    assert!(lines.contains(&"via: VIA12".to_string()));
    assert!(lines.contains(&"via master: VIA12".to_string()));
    assert!(lines.contains(&"via type: generated".to_string()));
    assert!(lines.contains(&"via rule: VIA12RULE".to_string()));
    assert!(lines.contains(&"via layers: M1 / VIA12 / M2".to_string()));
    assert!(lines.contains(&"via cut: size 4x4 spacing 8,8".to_string()));
    assert!(lines.contains(&"via enclosure: bottom 1,2 top 3,4".to_string()));
    assert!(lines.contains(&"via row/col: 1x2".to_string()));
    assert!(lines.contains(&"via default: true".to_string()));
}

#[test]
fn selection_detail_lines_report_a_missing_owner() {
    let shape = ShapeRecord { id: 1, kind: 9, state: 0, ..ShapeRecord::default() };
    assert_eq!(
        selection_detail_lines(&shape, None, "", None, None),
        vec![
            "shape: 1",
            "kind: other",
            "state: other",
            "version: 0",
            "layer: 0",
            "flags: 0x0000",
            "bbox: 0 0 0 0",
            "owner: unavailable",
        ]
    );
}

#[test]
fn local_info_parses_key_value_tokens() {
    let info = OwnerLocalInfo::parse("inst:u1  master:NAND2 site:core  note").unwrap();
    assert_eq!(info.kind, "inst");
    assert_eq!(info.field("master"), Some("NAND2"));
    assert_eq!(info.field("site"), Some("core"));
    assert_eq!(info.field("note"), None);
    assert_eq!(owner_local_info_lines(&info), vec!["master: NAND2", "site: core"]);
    assert!(OwnerLocalInfo::parse("plain name").is_none());
    let cut = OwnerLocalInfo::parse("via:V1 cut_size:a:b").unwrap();
    assert_eq!(cut.field("cut_size"), Some("a:b"));
    let partial = OwnerLocalInfo::parse("via:V2 top:M3").unwrap();
    assert_eq!(owner_local_info_lines(&partial), vec!["via: V2", "via layers: ? / ? / M3"]);
}

fn endpoint(endpoint_type: &str, instance_name: &str, pin_name: &str, master_name: &str) -> ConnectivityMetadata {
    ConnectivityMetadata {
        net_name: "clk".to_string(),
        net_kind: "clock".to_string(),
        endpoint_type: endpoint_type.to_string(),
        instance_name: instance_name.to_string(),
        pin_name: pin_name.to_string(),
        master_name: master_name.to_string(),
    }
}

#[test]
fn selection_connectivity_lines_report_endpoint_context() {
    let endpoints = vec![endpoint("instance", "u0", "A", "INVX1"), endpoint("io", "", "CLK", "")];

    assert_eq!(
        selection_connectivity_lines(&endpoints),
        vec![
            "connectivity endpoints: 2".to_string(),
            "endpoint: instance u0 A master:INVX1".to_string(),
            "endpoint: io - CLK master:-".to_string(),
        ]
    );
    assert!(selection_connectivity_lines(&Vec::new()).is_empty());
    assert_eq!(
        selection_connectivity_endpoint_line(&endpoint("", "", "", "")),
        "endpoint: - - - master:-"
    );
}

#[test]
fn selection_connectivity_lines_limit_verbose_endpoint_lists() {
    let endpoints = (0..8)
        .map(|index| endpoint("instance", &format!("u{index}"), "A", "INVX1"))
        .collect::<Vec<_>>();
    let lines = selection_connectivity_lines(&endpoints);

    assert_eq!(lines.len(), 8);
    assert_eq!(lines[0], "connectivity endpoints: 8");
    assert_eq!(lines[6], "endpoint: instance u5 A master:INVX1");
    assert_eq!(lines[7], "endpoints omitted: 2");
}

#[test]
fn shape_kind_rendering_includes_bbox_safe_line_and_point_shapes() {
    assert!(is_renderable_shape_kind(ShapeKind::Rect.raw()));
    assert!(is_renderable_shape_kind(ShapeKind::Line.raw()));
    assert!(is_renderable_shape_kind(ShapeKind::Point.raw()));
    assert!(!is_renderable_shape_kind(0));
}

#[test]
fn shape_labels_name_kinds_and_states() {
    assert_eq!(shape_kind_label(ShapeKind::Point.raw()), "point");
    assert_eq!(shape_kind_label(ShapeKind::Rect.raw()), "rect");
    assert_eq!(shape_kind_label(0), "other");
    assert_eq!(shape_state_label(ShapeState::Deleted.raw()), "deleted");
    assert_eq!(empty_label(""), "-");
    assert_eq!(empty_label("x"), "x");
    let live = ShapeRecord { kind: 1, state: 1, ..ShapeRecord::default() };
    assert!(is_renderable_shape(&live));
    assert!(!is_renderable_shape(&ShapeRecord { state: 2, ..live }));
}

#[test]
fn first_existing_shape_id_returns_lowest_live_highlight() {
    let highlighted = BTreeSet::from([30, 10, 20]);

    assert_eq!(first_existing_shape_id(&highlighted, |shape_id| shape_id != 10), Some(20));
    assert_eq!(first_existing_shape_id(&highlighted, |_| false), None);
}

#[test]
fn focus_target_for_shape_ids_uses_union_bbox_and_lowest_live_shape() {
    let highlighted = BTreeSet::from([30, 10, 20]);

    let focus = focus_target_for_shape_ids(&highlighted, |shape_id| match shape_id {
        20 => Some(Rect32 { lx: 100, ly: 100, hx: 120, hy: 130 }),
        30 => Some(Rect32 { lx: -10, ly: 5, hx: 15, hy: 25 }),
        _ => None,
    })
    .unwrap();

    assert_eq!(focus.select_shape_id, Some(20));
    assert_eq!(focus.bbox, Rect32 { lx: -10, ly: 5, hx: 120, hy: 130 });
    assert_eq!(focus_target_for_shape_ids(&highlighted, |_| None), None);
}

#[test]
fn focus_target_for_found_boxes_takes_their_union() {
    let boxes = vec![
        (7, Rect32 { lx: 0, ly: 0, hx: 1, hy: 1 }),
        (3, Rect32 { lx: 5, ly: -2, hx: 6, hy: 0 }),
    ];
    assert_eq!(
        focus_target_for_shape_boxes(&boxes),
        Some(PendingFocus {
            bbox: Rect32 { lx: 0, ly: -2, hx: 6, hy: 1 },
            select_shape_id: Some(3),
            transition: FocusTransition::Immediate,
        })
    );
    assert_eq!(focus_target_for_shape_boxes(&Vec::new()), None);
}

#[test]
fn shape_id_lookup_action_focuses_existing_shape() {
    let action = shape_id_lookup_action(" 42 ", |shape_id| {
        (shape_id == 42).then_some(Rect32 { lx: 10, ly: 20, hx: 30, hy: 40 })
    });

    assert_eq!(
        action.pending_focus,
        Some(PendingFocus {
            bbox: Rect32 { lx: 10, ly: 20, hx: 30, hy: 40 },
            select_shape_id: Some(42),
            transition: FocusTransition::Immediate,
        })
    );
    assert_eq!(action.message, "shape 42 selected");
}

#[test]
fn shape_id_lookup_action_reports_invalid_or_missing_shape() {
    let invalid = shape_id_lookup_action("shape-42", |_| None);
    assert_eq!(invalid.pending_focus, None);
    assert_eq!(invalid.message, "invalid ShapeId: shape-42");

    let missing = shape_id_lookup_action("99", |_| None);
    assert_eq!(missing.pending_focus, None);
    assert_eq!(missing.message, "shape 99 not found");

    let blank = shape_id_lookup_action("   ", |_| None);
    assert_eq!(blank.pending_focus, None);
    assert_eq!(blank.message, "enter a ShapeId");
}

#[test]
fn retain_existing_shape_id_clears_stale_selection() {
    assert_eq!(retain_existing_shape_id(Some(10), |shape_id| shape_id == 10), Some(10));
    assert_eq!(retain_existing_shape_id(Some(20), |shape_id| shape_id == 10), None);
    assert_eq!(retain_existing_shape_id(None, |shape_id| shape_id == 10), None);
}

#[test]
fn retain_existing_shape_ids_filters_stale_highlights() {
    let mut shape_ids = BTreeSet::from([10, 20, 30]);

    retain_existing_shape_ids(&mut shape_ids, |shape_id| shape_id != 20);

    assert_eq!(shape_ids, BTreeSet::from([10, 30]));
}

#[test]
fn grid_reference_bounds_use_only_alive_die_shapes() {
    let owners = vec![owner_of(OwnerType::Die), owner_of(OwnerType::InstanceBBox)];
    let shapes = vec![
        ShapeRecord {
            owner_index: 0,
            state: ShapeState::Alive.raw(),
            bbox: Rect32 { lx: 0, ly: 0, hx: 100, hy: 100 },
            ..ShapeRecord::default()
        },
        ShapeRecord {
            owner_index: 1,
            state: ShapeState::Alive.raw(),
            bbox: Rect32 { lx: -50, ly: -50, hx: 150, hy: 150 },
            ..ShapeRecord::default()
        },
        ShapeRecord {
            owner_index: 0,
            state: ShapeState::Deleted.raw(),
            bbox: Rect32 { lx: -100, ly: -100, hx: 200, hy: 200 },
            ..ShapeRecord::default()
        },
    ];

    assert_eq!(
        grid_reference_bounds_from_records(&shapes, &owners),
        Some(Rect32 { lx: 0, ly: 0, hx: 100, hy: 100 })
    );
    assert_eq!(grid_reference_bounds_from_records(&shapes, &Vec::new()), None);
}

#[test]
fn editable_instance_hit_ignores_overlapping_non_instance_shapes() {
    let point = Point32 { x: 15, y: 15 };
    let instance = ShapeRecord {
        id: 10,
        kind: ShapeKind::Rect.raw(),
        state: ShapeState::Alive.raw(),
        bbox: Rect32 { lx: 0, ly: 0, hx: 30, hy: 30 },
        ..ShapeRecord::default()
    };
    let wire = ShapeRecord { id: 99, bbox: instance.bbox, ..instance };
    let instance_owner = owner_of(OwnerType::InstanceBBox);
    let wire_owner = owner_of(OwnerType::NetWireSegment);

    assert_eq!(
        pick_top_editable_instance_bbox(&vec![(instance, instance_owner), (wire, wire_owner)], point),
        Some(instance.id)
    );
}

#[test]
fn editable_instance_hit_uses_topmost_overlapping_instance_bbox() {
    let point = Point32 { x: 15, y: 15 };
    let lower_instance = ShapeRecord {
        id: 20,
        kind: ShapeKind::Rect.raw(),
        state: ShapeState::Alive.raw(),
        bbox: Rect32 { lx: 0, ly: 0, hx: 30, hy: 30 },
        ..ShapeRecord::default()
    };
    let upper_instance = ShapeRecord { id: 10, bbox: lower_instance.bbox, ..lower_instance };
    let instance_owner = owner_of(OwnerType::InstanceBBox);

    assert_eq!(
        pick_top_editable_instance_bbox(
            &vec![(lower_instance, instance_owner), (upper_instance, instance_owner)],
            point,
        ),
        Some(upper_instance.id)
    );
    let outside = Point32 { x: 31, y: 15 };
    assert_eq!(
        pick_top_editable_instance_bbox(&vec![(lower_instance, instance_owner)], outside),
        None
    );
}

#[test]
fn edit_capability_lines_report_supported_tools_and_read_only_reasons() {
    let shape = ShapeRecord {
        kind: ShapeKind::Rect.raw(),
        state: ShapeState::Alive.raw(),
        ..ShapeRecord::default()
    };
    let instance_owner = owner_of(OwnerType::InstanceBBox);
    let net_owner = owner_of(OwnerType::NetWireSegment);
    let pin_owner = owner_of(OwnerType::PinPortShape);

    assert_eq!(
        edit_capability_lines(&shape, Some(&instance_owner), "instance_bbox", false),
        vec!["edit: view-only session".to_string()]
    );
    assert_eq!(
        edit_capability_lines(&shape, Some(&instance_owner), "instance_bbox", true),
        vec![
            "edit: move".to_string(),
            "edit note: instance resize is rejected; move preserves master size".to_string(),
        ]
    );
    assert_eq!(
        edit_capability_lines(&shape, Some(&net_owner), "net_wire_segment", true),
        vec!["edit: read-only, net_wire_segment is not editable".to_string()]
    );
    assert_eq!(
        edit_capability_lines(&shape, Some(&pin_owner), "pin_port_shape", true),
        vec!["edit: read-only, pin_port_shape is not editable".to_string()]
    );
    assert_eq!(
        edit_capability_lines(&shape, None, "", true),
        vec!["edit: read-only, owner unavailable".to_string()]
    );
    let line = ShapeRecord { kind: ShapeKind::Line.raw(), ..shape };
    assert_eq!(
        edit_capability_lines(&line, Some(&instance_owner), "instance_bbox", true),
        vec!["edit: read-only, only rect shapes are editable".to_string()]
    );
}

#[test]
fn shape_labels_pick_names_by_owner_kind() {
    assert_eq!(shape_label_kind(OwnerType::PinPortShape, 0), Some(ShapeLabelKind::IoPin));
    assert_eq!(shape_label_kind(OwnerType::PinPortShape, 3), Some(ShapeLabelKind::Pin));
    assert_eq!(shape_label_kind(OwnerType::SpecialWireSegment, 0), Some(ShapeLabelKind::Pdn));
    assert_eq!(shape_label_kind(OwnerType::Die, 0), None);
    let pin = OwnerRef { path0: 3, ..owner_of(OwnerType::PinPortShape) };
    assert_eq!(
        shape_label_text(ShapeLabelKind::Pin, OwnerType::PinPortShape, &pin, "top/u1/ A "),
        Some(" A ".trim().to_string())
    );
    assert_eq!(
        shape_label_text(ShapeLabelKind::Net, OwnerType::NetWireSegment, &pin, "  "),
        None
    );
    assert_eq!(local_shape_label_name("a/b/c"), "c");
    assert_eq!(local_shape_label_name("abc"), "abc");
    assert_eq!(single_line_query_text("a\nb\rc"), "a b c");
    let net = OwnerRef { owner_id: 5, ..owner_of(OwnerType::NetWireSegment) };
    assert!(matches!(
        shape_label_key(ShapeLabelKind::Net, &net, " clk "),
        ShapeLabelKey::Named { kind: ShapeLabelKind::Net, ref text } if text == "clk"
    ));
    assert!(matches!(
        shape_label_key(ShapeLabelKind::Instance, &net, "u1"),
        ShapeLabelKey::Owner { owner_id: 5, .. }
    ));
}
