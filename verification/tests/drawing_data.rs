use chip_viewer_native::census::CategoryCounts;
use chip_viewer_native::panels::{initial_analysis_tab, AnalysisTab, SearchMode};
use chip_viewer_native::visibility::{
    drawing_category_for_owner, instance_move_is_allowed, is_context_owner_type,
    net_kind_drawing_category, object_visibility_needs_layout_layer, owner_uses_layer_visibility,
    shape_uses_layer_visibility, DrawingCategory, ObjectVisibility, OwnerType,
    LAYOUT_GEOMETRY_LAYER,
};

#[test]
fn object_visibility_default_matches_startup_drawing_data() {
    let visibility = ObjectVisibility::default();
    let enabled = DrawingCategory::ALL
        .into_iter()
        .filter(|category| visibility.is_category_visible(*category))
        .collect::<Vec<_>>();

    assert_eq!(
        enabled,
        vec![
            DrawingCategory::Instances,
            DrawingCategory::Placement,
            DrawingCategory::Boundaries,
        ]
    );
    assert!(!visibility.is_all_visible());
}

#[test]
fn object_visibility_hides_only_the_requested_owner_categories() {
    let visibility = ObjectVisibility {
        instances: false,
        io_pin: true,
        net_signal: false,
        net_clock: false,
        net_other: false,
        pdn: true,
        tracks: true,
        ..ObjectVisibility::default()
    };

    assert!(!visibility.includes_owner_type(OwnerType::InstanceBBox as u8));
    assert!(!visibility.includes_owner_type(OwnerType::InstanceHalo as u8));
    assert!(!visibility.includes_owner_type(OwnerType::NetWireSegment as u8));
    assert!(visibility.includes_owner_type(OwnerType::SpecialWireSegment as u8));
    assert!(visibility.includes_owner_type(OwnerType::PinPortShape as u8));
    assert!(visibility.includes_owner_type(OwnerType::InstancePinPortShape as u8));
    assert!(visibility.includes_owner_type(OwnerType::IoPinPortShape as u8));
    assert!(visibility.includes_owner_type(OwnerType::TrackGrid as u8));
    assert!(!visibility.is_all_visible());
}

#[test]
fn net_kind_maps_to_drawing_net_categories() {
    assert_eq!(
        net_kind_drawing_category(Some("signal")),
        DrawingCategory::NetSignal
    );
    assert_eq!(
        net_kind_drawing_category(Some("CLOCK")),
        DrawingCategory::NetClock
    );
    assert_eq!(
        net_kind_drawing_category(Some("power")),
        DrawingCategory::NetOther
    );
    assert_eq!(net_kind_drawing_category(None), DrawingCategory::NetOther);
}

#[test]
fn extended_drawing_categories_control_vias_and_context_geometry() {
    let mut visibility = ObjectVisibility::default();
    visibility.set_all_visible(true);
    visibility.set_category_visible(DrawingCategory::Vias, false);
    visibility.set_category_visible(DrawingCategory::Tracks, false);
    visibility.set_category_visible(DrawingCategory::GCells, false);
    visibility.set_category_visible(DrawingCategory::Obstructions, false);

    assert!(!visibility.includes_owner_type(OwnerType::Via as u8));
    assert!(!visibility.includes_owner_type(OwnerType::TrackGrid as u8));
    assert!(!visibility.includes_owner_type(OwnerType::GCellGrid as u8));
    assert!(!visibility.includes_owner_type(OwnerType::Blockage as u8));
    assert!(!visibility.includes_owner_type(OwnerType::Obs as u8));
    assert!(visibility.includes_owner_type(OwnerType::Fill as u8));
}

#[test]
fn drawing_categories_cover_every_mapped_owner_type() {
    for owner_type in [
        OwnerType::InstanceBBox,
        OwnerType::InstanceHalo,
        OwnerType::NetWireSegment,
        OwnerType::SpecialWireSegment,
        OwnerType::Via,
        OwnerType::PinPortShape,
        OwnerType::InstancePinPortShape,
        OwnerType::IoPinPortShape,
        OwnerType::Row,
        OwnerType::TrackGrid,
        OwnerType::GCellGrid,
        OwnerType::Blockage,
        OwnerType::Obs,
        OwnerType::Die,
        OwnerType::Core,
        OwnerType::Fill,
        OwnerType::Region,
        OwnerType::Slot,
    ] {
        assert!(DrawingCategory::ALL
            .into_iter()
            .any(|category| category.includes_owner_type(owner_type)));
    }
}

#[test]
fn context_owner_types_are_deferred_until_zoomed_in() {
    assert!(is_context_owner_type(OwnerType::TrackGrid as u8));
    assert!(is_context_owner_type(OwnerType::GCellGrid as u8));
    assert!(is_context_owner_type(OwnerType::Row as u8));
    assert!(is_context_owner_type(OwnerType::Obs as u8));
    assert!(!is_context_owner_type(OwnerType::NetWireSegment as u8));
    assert!(!is_context_owner_type(OwnerType::InstanceBBox as u8));
}

#[test]
fn layout_level_owner_styles_do_not_require_layer_visibility() {
    assert!(!owner_uses_layer_visibility(Some(OwnerType::InstanceBBox)));
    assert!(!owner_uses_layer_visibility(Some(OwnerType::InstanceHalo)));
    assert!(!owner_uses_layer_visibility(Some(OwnerType::Die)));
    assert!(!owner_uses_layer_visibility(Some(OwnerType::Core)));
    assert!(!owner_uses_layer_visibility(Some(OwnerType::Row)));
    assert!(!owner_uses_layer_visibility(Some(OwnerType::Region)));

    assert!(owner_uses_layer_visibility(Some(OwnerType::NetWireSegment)));
    assert!(owner_uses_layer_visibility(Some(OwnerType::SpecialWireSegment)));
    assert!(owner_uses_layer_visibility(Some(OwnerType::PinPortShape)));
    assert!(owner_uses_layer_visibility(Some(OwnerType::InstancePinPortShape)));
    assert!(owner_uses_layer_visibility(Some(OwnerType::IoPinPortShape)));
    assert!(owner_uses_layer_visibility(Some(OwnerType::Via)));
    assert!(owner_uses_layer_visibility(None));

    assert!(!shape_uses_layer_visibility(
        LAYOUT_GEOMETRY_LAYER,
        Some(OwnerType::GCellGrid)
    ));
    assert!(!shape_uses_layer_visibility(
        LAYOUT_GEOMETRY_LAYER,
        Some(OwnerType::TrackGrid)
    ));
    assert!(!shape_uses_layer_visibility(
        LAYOUT_GEOMETRY_LAYER,
        Some(OwnerType::Blockage)
    ));
    assert!(shape_uses_layer_visibility(7, Some(OwnerType::TrackGrid)));
}

#[test]
fn search_mode_filters_net_and_instance_owner_types() {
    assert_eq!(SearchMode::All.owner_types(), None);
    assert_eq!(
        SearchMode::Net.owner_types(),
        Some(vec![OwnerType::NetWireSegment, OwnerType::SpecialWireSegment])
    );
    assert_eq!(
        SearchMode::Instance.owner_types(),
        Some(vec![OwnerType::InstanceBBox, OwnerType::InstanceHalo])
    );
    assert_eq!(SearchMode::Bus.owner_types(), None);
    assert_eq!(SearchMode::Group.owner_types(), None);
    assert_eq!(SearchMode::Pin.owner_types(), None);
    assert_eq!(SearchMode::Pin.label(), "Pin");
    assert_eq!(SearchMode::Bus.label(), "Bus");
    assert_eq!(SearchMode::Group.label(), "Group");
}

#[test]
fn instance_move_allows_only_instance_bounding_boxes() {
    assert!(instance_move_is_allowed(OwnerType::InstanceBBox as u8));
    assert!(!instance_move_is_allowed(OwnerType::NetWireSegment as u8));
    assert!(!instance_move_is_allowed(OwnerType::PinPortShape as u8));
}

#[test]
fn switching_a_category_reads_back_and_leaves_the_others() {
    let mut visibility = ObjectVisibility::default();
    visibility.set_category_visible(DrawingCategory::Vias, true);
    assert!(visibility.is_category_visible(DrawingCategory::Vias));
    assert!(visibility.is_category_visible(DrawingCategory::Instances));
    assert!(!visibility.is_category_visible(DrawingCategory::Pdn));
    visibility.set_category_visible(DrawingCategory::Instances, false);
    assert!(!visibility.is_category_visible(DrawingCategory::Instances));
    assert!(visibility.is_category_visible(DrawingCategory::Vias));
}

#[test]
fn setting_every_category_makes_all_visible_or_none() {
    let mut visibility = ObjectVisibility::default();
    visibility.set_all_visible(true);
    assert!(visibility.is_all_visible());
    assert_eq!(visibility.bits(), 0x3fff);
    visibility.set_all_visible(false);
    assert!(!visibility.is_all_visible());
    assert_eq!(visibility.bits(), 0);
}

#[test]
fn switch_bits_follow_category_order() {
    let visibility = ObjectVisibility::default();
    assert_eq!(visibility.bits(), 1 | (1 << 7) | (1 << 11));
    let mut other = ObjectVisibility::default();
    other.set_category_visible(DrawingCategory::Regions, true);
    assert_eq!(other.bits(), visibility.bits() | (1 << 13));
    assert_ne!(other.bits(), visibility.bits());
}

#[test]
fn net_wires_show_when_any_net_category_is_on() {
    let mut visibility = ObjectVisibility::default();
    assert!(!visibility.includes_owner_type(OwnerType::NetWireSegment as u8));
    visibility.set_category_visible(DrawingCategory::NetClock, true);
    assert!(visibility.includes_owner_type(OwnerType::NetWireSegment as u8));
    assert!(visibility.includes_owner_type(200));
}

#[test]
fn owner_categories_follow_net_kind_for_net_wires() {
    assert_eq!(
        drawing_category_for_owner(OwnerType::NetWireSegment as u8, Some(" clock ")),
        Some(DrawingCategory::NetClock)
    );
    assert_eq!(
        drawing_category_for_owner(OwnerType::Via as u8, Some("clock")),
        Some(DrawingCategory::Vias)
    );
    assert_eq!(drawing_category_for_owner(99, None), None);
}

#[test]
fn layout_layer_is_queried_for_layout_level_categories() {
    assert!(object_visibility_needs_layout_layer(ObjectVisibility::default()));
    let mut visibility = ObjectVisibility::default();
    visibility.set_all_visible(false);
    assert!(!object_visibility_needs_layout_layer(visibility));
    visibility.set_category_visible(DrawingCategory::GCells, true);
    assert!(object_visibility_needs_layout_layer(visibility));
}

#[test]
fn owner_raw_codes_round_trip() {
    for raw in 0u8..18 {
        let owner = OwnerType::from_raw(raw).unwrap();
        assert_eq!(owner.raw(), raw);
        assert_eq!(owner as u8, raw);
    }
    assert_eq!(OwnerType::from_raw(18), None);
}

#[test]
fn category_labels_name_the_sidebar_entries() {
    assert_eq!(DrawingCategory::Placement.label(), "Rows");
    assert_eq!(DrawingCategory::Boundaries.label(), "Die / Core");
    assert_eq!(
        DrawingCategory::Tracks.tooltip(),
        "Context geometry is shown after zooming in to keep the fitted route view readable."
    );
}

#[test]
fn category_counts_sum_the_shown_categories() {
    let categories = vec![
        Some(DrawingCategory::Instances),
        None,
        Some(DrawingCategory::NetSignal),
        Some(DrawingCategory::Instances),
        Some(DrawingCategory::Tracks),
    ];
    let counts = CategoryCounts::drawing_category_counts(&categories);
    assert_eq!(counts.shape_count(DrawingCategory::Instances), 2);
    assert_eq!(counts.shape_count(DrawingCategory::NetSignal), 1);
    assert_eq!(counts.shape_count(DrawingCategory::Fill), 0);
    let mut visibility = ObjectVisibility::default();
    visibility.set_all_visible(true);
    assert_eq!(counts.visible_object_shape_count(visibility), 4);
    visibility.set_category_visible(DrawingCategory::Instances, false);
    assert_eq!(counts.visible_object_shape_count(visibility), 2);
    visibility.set_all_visible(false);
    assert_eq!(counts.visible_object_shape_count(visibility), 0);
}

#[test]
fn analysis_panel_opens_on_the_first_loaded_report() {
    assert_eq!(initial_analysis_tab(true, true), AnalysisTab::Drc);
    assert_eq!(initial_analysis_tab(false, true), AnalysisTab::Antenna);
    assert_eq!(initial_analysis_tab(false, false), AnalysisTab::Maps);
}
