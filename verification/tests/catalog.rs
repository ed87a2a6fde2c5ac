use chip_viewer_native::maps::{
    catalog_from_categories, humanize_category, humanize_identifier, is_map_category_directory,
    map_item_load_paths,
    paths_equal, MapCatalog,
    MapCategory, MapItem,
};
use chip_viewer_native::snapshot::{
    snapshot_file_signature, snapshot_file_signature_changed, snapshot_paths,
    SnapshotFileStamp, SnapshotManifestPaths,
};

fn item(label: &str, png: &str, csv: Option<&str>) -> MapItem {
    MapItem {
        label: label.to_string(),
        png_path: png.to_string(),
        csv_path: csv.map(str::to_string),
    }
}

fn sample_catalog() -> MapCatalog {
    MapCatalog {
        categories: vec![
            MapCategory {
                id: "density_map".to_string(),
                label: humanize_category("density_map"),
                layout_path: Some("/maps/density_map/layout.csv".to_string()),
                items: vec![
                    item("place density", "/maps/density_map/place_density.png", Some("/maps/density_map/place_density.csv")),
                    item("pin density", "/maps/density_map/pin_density.png", None),
                ],
            },
            MapCategory {
                id: "empty_MAP".to_string(),
                label: humanize_category("empty_MAP"),
                layout_path: None,
                items: Vec::new(),
            },
            MapCategory {
                id: "congestion_map".to_string(),
                label: humanize_category("congestion_map"),
                layout_path: None,
                items: vec![item("overflow", "/maps/congestion_map/overflow.png", None)],
            },
        ],
        warnings: Vec::new(),
    }
}

#[test]
fn map_categories_are_named_from_their_directories() {
    assert!(is_map_category_directory("density_map"));
    assert!(is_map_category_directory("Congestion_MAP"));
    assert!(!is_map_category_directory("not_a_category"));
    assert!(!is_map_category_directory("map"));
    assert_eq!(humanize_category("density_map"), "DENSITY");
    assert_eq!(humanize_category("rudy_pin_MAP"), "RUDY PIN");
    assert_eq!(humanize_category("Mixed_Map"), "MIXED MAP");
    assert_eq!(humanize_identifier("place_density"), "place density");
}

#[test]
fn catalog_counts_items_over_every_category() {
    let catalog = sample_catalog();
    assert_eq!(catalog.item_count(), 3);
    assert!(!catalog.is_empty());
    let empty = MapCatalog {
        categories: vec![MapCategory {
            id: "a_map".to_string(),
            label: "A".to_string(),
            layout_path: None,
            items: Vec::new(),
        }],
        warnings: vec!["failed to read map category".to_string()],
    };
    assert_eq!(empty.item_count(), 0);
    assert!(empty.is_empty());
}

#[test]
fn catalog_finds_items_by_image_path_with_their_layout() {
    let catalog = sample_catalog();
    let (found, layout) = catalog.find_item_by_png("/maps/density_map/pin_density.png").unwrap();
    assert_eq!(found.label, "pin density");
    assert_eq!(layout, Some("/maps/density_map/layout.csv"));

    let (found, layout) = catalog.find_item_by_png("/maps//congestion_map/./overflow.png/").unwrap();
    assert_eq!(found.label, "overflow");
    assert_eq!(layout, None);

    assert!(catalog.find_item_by_png("/maps/density_map/missing.png").is_none());
}

#[test]
fn paths_compare_by_components() {
    assert!(paths_equal("a/b/c", "a//b/./c/"));
    assert!(paths_equal("/x", "/x/"));
    assert!(!paths_equal("/x", "x"));
    assert!(!paths_equal("./x", "x"));
    assert!(paths_equal("./x", "./x"));
    assert!(!paths_equal("a/b", "a/c"));
    assert!(!paths_equal("a/../b", "b"));
}

fn stamp(len: u64, modified_nanos: Option<i128>) -> Option<SnapshotFileStamp> {
    Some(SnapshotFileStamp { modified_nanos, len })
}

#[test]
fn snapshot_file_signature_does_not_change_for_identical_file_state() {
    let path = "snapshot/geometry.manifest".to_string();
    let previous = snapshot_file_signature(vec![(path.clone(), stamp(8, Some(1_000)))]);
    let current = snapshot_file_signature(vec![(path.clone(), stamp(8, Some(1_000)))]);

    assert!(!snapshot_file_signature_changed(&previous, &current));
}

#[test]
fn snapshot_file_signature_detects_binary_file_size_changes() {
    let path = "snapshot/geometry.shapes.bin".to_string();
    let previous = snapshot_file_signature(vec![(path.clone(), stamp(1, Some(1_000)))]);
    let current = snapshot_file_signature(vec![(path.clone(), stamp(6, Some(1_000)))]);

    assert!(snapshot_file_signature_changed(&previous, &current));
}

#[test]
fn snapshot_file_signature_detects_missing_file_becoming_available() {
    let path = "snapshot/geometry.delta.bin".to_string();
    let previous = snapshot_file_signature(vec![(path.clone(), None)]);
    let current = snapshot_file_signature(vec![(path.clone(), stamp(5, Some(2_000)))]);

    assert!(snapshot_file_signature_changed(&previous, &current));
}

#[test]
fn snapshot_signature_notices_new_and_retimed_files() {
    let a = "a".to_string();
    let b = "b".to_string();
    let previous = snapshot_file_signature(vec![(a.clone(), stamp(1, Some(10)))]);
    let more = snapshot_file_signature(vec![(a.clone(), stamp(1, Some(10))), (b.clone(), None)]);
    assert!(snapshot_file_signature_changed(&previous, &more));
    let retimed = snapshot_file_signature(vec![(a.clone(), stamp(1, Some(11)))]);
    assert!(snapshot_file_signature_changed(&previous, &retimed));
    let reordered_one = snapshot_file_signature(vec![(b.clone(), None), (a.clone(), stamp(1, Some(10)))]);
    assert!(!snapshot_file_signature_changed(&more, &reordered_one));
    let repeated = snapshot_file_signature(vec![(a.clone(), stamp(9, None)), (a.clone(), stamp(1, Some(10)))]);
    assert!(!snapshot_file_signature_changed(&previous, &repeated));
    assert_eq!(repeated.files.len(), 1);
    assert_eq!(repeated.files.get("a"), Some(&stamp(1, Some(10))));
}

#[test]
fn external_snapshot_refresh_records_reopened_manifest_file_set() {
    let mut manifest = SnapshotManifestPaths {
        path: "s/geometry.manifest".to_string(),
        meta: "s/geometry.meta".to_string(),
        shapes: "s/geometry.shapes.bin".to_string(),
        owners: "s/geometry.owners.bin".to_string(),
        payload: "s/geometry.payload.bin".to_string(),
        names: "s/geometry.names.bin".to_string(),
        name_index: "s/geometry.name_index.bin".to_string(),
        sidmap: "s/geometry.sidmap.bin".to_string(),
        view: "s/geometry.view.bin".to_string(),
        layers: Some("s/geometry.layers.json".to_string()),
        sites: None,
        masters: None,
        vias: None,
        grids: None,
        connectivity: None,
        buses: None,
        groups: None,
        delta: None,
    };
    let before = snapshot_paths(&manifest);
    assert_eq!(before.len(), 10);
    assert!(!before.contains(&"s/geometry.delta.bin".to_string()));

    manifest.delta = Some("s/geometry.delta.bin".to_string());
    let after = snapshot_paths(&manifest);
    assert_eq!(after.len(), 11);
    assert_eq!(after[0], "s/geometry.manifest");
    assert_eq!(after[10], "s/geometry.delta.bin");

    let signature = snapshot_file_signature(after.iter().map(|p| (p.clone(), stamp(1, Some(1)))).collect());
    assert!(signature.files.get("s/geometry.delta.bin").is_some());
}

#[test]
fn map_items_need_their_csv_and_the_category_layout() {
    let item = MapItem {
        label: "Congestion".to_string(),
        png_path: "maps/congestion/a.png".to_string(),
        csv_path: Some("maps/congestion/a.csv".to_string()),
    };
    let layout = "maps/congestion/layout.csv".to_string();
    assert_eq!(
        map_item_load_paths(&item, Some(&layout)),
        Ok((
            "maps/congestion/a.csv".to_string(),
            "maps/congestion/layout.csv".to_string()
        ))
    );
    assert_eq!(
        map_item_load_paths(&item, None),
        Err("layout.csv is missing for Congestion".to_string())
    );
    let without_csv = MapItem {
        csv_path: None,
        ..item
    };
    assert_eq!(
        map_item_load_paths(&without_csv, Some(&layout)),
        Err("matching CSV is missing for Congestion".to_string())
    );
}

#[test]
fn catalogs_keep_categories_with_items_and_warn_on_errors() {
    let with_items = MapCategory {
        id: "congestion_map".to_string(),
        label: "Congestion".to_string(),
        layout_path: None,
        items: vec![item("A", "a.png", None)],
    };
    let empty = MapCategory {
        id: "empty_map".to_string(),
        label: "Empty".to_string(),
        layout_path: None,
        items: Vec::new(),
    };
    let catalog = catalog_from_categories(vec![
        Err("failed to read map category x".to_string()),
        Ok(empty),
        Ok(with_items),
    ]);
    assert_eq!(catalog.categories.len(), 1);
    assert_eq!(catalog.categories[0].id, "congestion_map");
    assert_eq!(catalog.warnings, vec!["failed to read map category x".to_string()]);
    assert_eq!(catalog.item_count(), 1);
}
