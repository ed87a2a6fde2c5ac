use chip_viewer_native::render::FillPattern;
use chip_viewer_native::styles::LayerStyle;
use chip_viewer_native::analysis::{
    antenna_layer_counts_summary, antenna_overlay_from_sources, counts_from_violations,
    drc_detail_lines,
    drc_layer_counts_summary, drc_overlay_from_sources, drc_type_states_from_counts,
    merge_drc_counts, Violation,
};
use chip_viewer_native::assoc::StrMap;
use chip_viewer_native::counts::{
    parse_antenna_statis_csv, parse_drc_statis_csv, split_simple_csv_line, TypeCounts,
    TypeCountsMap,
};
use chip_viewer_native::geometry::Rect32;
use chip_viewer_native::json::{
    analysis_counts_fit, parse_antenna_json, parse_drc_json, JsonNumber, JsonValue,
};
use chip_viewer_native::layers::{drc_layer_is_visible, LayerUiState};

fn to_json(v: &serde_json::Value) -> JsonValue {
    match v {
        serde_json::Value::Null => JsonValue::Null,
        serde_json::Value::Bool(b) => JsonValue::Bool(*b),
        serde_json::Value::Number(n) => {
            if let Some(u) = n.as_u64() {
                JsonValue::Number(JsonNumber::PosInt(u))
            } else if let Some(i) = n.as_i64() {
                JsonValue::Number(JsonNumber::NegInt(i))
            } else {
                JsonValue::Number(JsonNumber::Float(n.as_f64().unwrap_or(0.0).round() as i64))
            }
        }
        serde_json::Value::String(s) => JsonValue::String(s.clone()),
        serde_json::Value::Array(a) => JsonValue::Array(a.iter().map(to_json).collect()),
        serde_json::Value::Object(m) => {
            JsonValue::Object(m.iter().map(|(k, v)| (k.clone(), to_json(v))).collect())
        }
    }
}

fn parse_drc_json_text(text: &str) -> (Vec<Violation>, TypeCountsMap) {
    let root: serde_json::Value = serde_json::from_str(text).unwrap();
    parse_drc_json(&to_json(&root))
}

fn layer_state(layer_id: u16, visible: bool) -> LayerUiState {
    LayerUiState {
        layer_id,
        shape_count: 1,
        order: u32::from(layer_id),
        name: format!("L{layer_id}"),
        layer_type: "unknown".to_string(),
        display_role: "unknown".to_string(),
        direction: "unknown".to_string(),
        width: 0,
        pitch_x: 0,
        pitch_y: 0,
        min_spacing: 0,
        min_area: 0,
        min_step: 0,
        cut_spacing: 0,
        enclosure_below: String::new(),
        enclosure_above: String::new(),
        lef58_rule_count: 0,
        visible,
        style: LayerStyle {
            layer_id,
            visible,
            rgba: [72, 140, 220, 96],
            frame_rgba: [72, 140, 220, 200],
            fill_alpha: 96,
            frame_alpha: 200,
            fill_pattern: FillPattern::Solid,
            line_width_px: 1,
        },
    }
}

fn counts_of<'a>(counts: &'a TypeCountsMap, name: &str) -> &'a TypeCounts {
    counts.get(name).unwrap()
}

#[test]
fn drc_json_parser_extracts_violations_and_counts() {
    let json = r#"
    {
      "drc": {
        "number": 2,
        "distribution": {
          "MetalShort": {
            "number": 2,
            "layers": {
              "MET1": {
                "number": 2,
                "list": [
                  {
                    "llx": 10,
                    "lly": 20,
                    "urx": 30,
                    "ury": 40,
                    "required_size": 12,
                    "net": ["clk"],
                    "inst": ["u0"]
                  },
                  {
                    "llx": 50,
                    "lly": 60,
                    "urx": 70,
                    "ury": 80,
                    "required_size": 4,
                    "net": ["rst"],
                    "inst": []
                  }
                ]
              }
            }
          }
        }
      }
    }
    "#;

    let (violations, counts) = parse_drc_json_text(json);

    assert_eq!(violations.len(), 2);
    assert_eq!(violations[0].violation_type, "MetalShort");
    assert_eq!(violations[0].layer, "MET1");
    assert_eq!(
        violations[0].bbox,
        Rect32 {
            lx: 10,
            ly: 20,
            hx: 30,
            hy: 40,
        }
    );
    assert_eq!(violations[0].required_size, Some(12));
    assert_eq!(violations[0].nets, vec!["clk"]);
    assert_eq!(violations[0].insts, vec!["u0"]);
    assert_eq!(counts_of(&counts, "MetalShort").total_count, 2);
    assert_eq!(
        *counts_of(&counts, "MetalShort").layer_counts.get("MET1").unwrap(),
        2
    );
}

#[test]
fn drc_statis_csv_parser_extracts_type_layer_counts() {
    let counts = parse_drc_statis_csv(
        "Type,MET1,VIA1,MET2,total\nMetalShort,2,0,3,5\nSpacing,0,1,0,1\ntotal,2,1,3,6\n",
    );

    assert_eq!(counts_of(&counts, "MetalShort").total_count, 5);
    assert_eq!(
        *counts_of(&counts, "MetalShort").layer_counts.get("MET1").unwrap(),
        2
    );
    assert_eq!(
        *counts_of(&counts, "MetalShort").layer_counts.get("MET2").unwrap(),
        3
    );
    assert_eq!(counts_of(&counts, "Spacing").total_count, 1);
    assert_eq!(
        *counts_of(&counts, "Spacing").layer_counts.get("VIA1").unwrap(),
        1
    );
    assert!(counts.get("total").is_none());
}

#[test]
fn drc_layer_visibility_uses_matching_physical_layer() {
    let mut met1 = layer_state(1, false);
    met1.name = "MET1".to_string();
    let mut met2 = layer_state(2, true);
    met2.name = "MET2".to_string();
    let layers = vec![met1, met2];

    assert!(!drc_layer_is_visible(&layers, "met1"));
    assert!(drc_layer_is_visible(&layers, "MET2"));
    assert!(drc_layer_is_visible(&layers, "UNKNOWN"));
}

#[test]
fn drc_detail_lines_include_core_violation_context() {
    let violation = Violation {
        id: 0,
        violation_type: "Spacing".to_string(),
        layer: "MET2".to_string(),
        bbox: Rect32 {
            lx: 1,
            ly: 2,
            hx: 3,
            hy: 4,
        },
        required_size: Some(7),
        nets: vec!["net0".to_string(), "VDD".to_string()],
        insts: vec!["u0".to_string()],
    };

    let lines = drc_detail_lines(&violation);

    assert!(lines.contains(&"type: Spacing".to_string()));
    assert!(lines.contains(&"layer: MET2".to_string()));
    assert!(lines.contains(&"bbox: (1, 2) - (3, 4)".to_string()));
    assert!(lines.contains(&"required size: 7".to_string()));
    assert!(lines.contains(&"nets: net0, VDD".to_string()));
    assert!(lines.contains(&"instances: u0".to_string()));
}

#[test]
fn csv_lines_split_on_commas_and_trim_fields() {
    assert_eq!(
        split_simple_csv_line(" Type , \"MET1\" ,total"),
        vec!["Type".to_string(), "MET1".to_string(), "total".to_string()]
    );
}

#[test]
fn antenna_statis_csv_parser_ignores_total_rows() {
    let counts = parse_antenna_statis_csv("Type,M1,total\nPAR,3,3\ntotal,3,3\n");
    assert_eq!(counts.len(), 1);
    assert_eq!(counts_of(&counts, "PAR").total_count, 3);
}

#[test]
fn json_counts_fill_a_missing_total_from_the_layers() {
    let json = r#"{"antenna": {"distribution": {"PAR": {"layers": {"M1": {"number": 2}, "M2": {"number": 3}, "M3": {"number": 0}}}}}}"#;
    let root: serde_json::Value = serde_json::from_str(json).unwrap();
    let (violations, counts) = parse_antenna_json(&to_json(&root));
    assert!(violations.is_empty());
    assert_eq!(counts_of(&counts, "PAR").total_count, 5);
    assert!(counts_of(&counts, "PAR").layer_counts.get("M3").is_none());
}

#[test]
fn layer_counts_that_overflow_a_missing_total_are_detected() {
    let big = u64::MAX / 2 + 1;
    let text = format!(
        r#"{{"drc": {{"distribution": {{"Short": {{"layers": {{"M1": {{"number": {big}}}, "M2": {{"number": {big}}}}}}}}}}}}}"#
    );
    let root = to_json(&serde_json::from_str::<serde_json::Value>(&text).unwrap());
    assert!(!analysis_counts_fit(&root, "drc"));
    assert!(analysis_counts_fit(&root, "antenna"));
    let with_total = text.replace(r#""Short": {"layers""#, r#""Short": {"number": 7, "layers""#);
    let root = to_json(&serde_json::from_str::<serde_json::Value>(&with_total).unwrap());
    assert!(analysis_counts_fit(&root, "drc"));
}

#[test]
fn json_without_distribution_gives_nothing() {
    let root: serde_json::Value = serde_json::from_str(r#"{"drc": {"number": 3}}"#).unwrap();
    let (violations, counts) = parse_drc_json(&to_json(&root));
    assert!(violations.is_empty());
    assert_eq!(counts.len(), 0);
}

fn one_type(name: &str, total: usize, layers: &[(&str, usize)]) -> TypeCountsMap {
    let mut layer_counts = StrMap::new();
    for (layer, count) in layers {
        layer_counts.insert(layer.to_string(), *count);
    }
    let mut map = StrMap::new();
    map.insert(
        name.to_string(),
        TypeCounts {
            total_count: total,
            layer_counts,
        },
    );
    map
}

#[test]
fn merging_counts_keeps_known_values_and_fills_gaps() {
    let mut target = one_type("Short", 0, &[("M1", 2)]);
    let source = one_type("Short", 9, &[("M1", 5), ("M2", 4)]);
    merge_drc_counts(&mut target, source);
    let short = counts_of(&target, "Short");
    assert_eq!(short.total_count, 9);
    assert_eq!(*short.layer_counts.get("M1").unwrap(), 2);
    assert_eq!(*short.layer_counts.get("M2").unwrap(), 4);

    let mut known = one_type("Short", 3, &[]);
    merge_drc_counts(&mut known, one_type("Short", 9, &[]));
    assert_eq!(counts_of(&known, "Short").total_count, 3);
}

#[test]
fn type_states_list_only_types_that_count_something() {
    let mut counts = one_type("Short", 2, &[]);
    counts.insert(
        "Empty".to_string(),
        TypeCounts {
            total_count: 0,
            layer_counts: StrMap::new(),
        },
    );
    let states = drc_type_states_from_counts(counts);
    assert_eq!(states.len(), 1);
    assert_eq!(states[0].name, "Short");
    assert!(states[0].visible);
}

#[test]
fn violations_are_counted_per_type_and_layer() {
    let make = |id: usize, t: &str, layer: &str| Violation {
        id,
        violation_type: t.to_string(),
        layer: layer.to_string(),
        bbox: Rect32 {
            lx: 0,
            ly: 0,
            hx: 1,
            hy: 1,
        },
        required_size: None,
        nets: vec![],
        insts: vec![],
    };
    let counts = counts_from_violations(&vec![
        make(0, "Short", "M1"),
        make(1, "Short", "M1"),
        make(2, "Short", "M2"),
        make(3, "Spacing", "M1"),
    ]);
    assert_eq!(counts_of(&counts, "Short").total_count, 3);
    assert_eq!(*counts_of(&counts, "Short").layer_counts.get("M1").unwrap(), 2);
    assert_eq!(counts_of(&counts, "Spacing").total_count, 1);
}

#[test]
fn layer_summaries_list_positive_layers() {
    let counts = one_type("Short", 5, &[("M2", 3), ("M1", 2), ("M3", 0)]);
    let layers = &counts_of(&counts, "Short").layer_counts;
    let drc = drc_layer_counts_summary(layers);
    let antenna = antenna_layer_counts_summary(layers);
    assert_eq!(drc, "M1: 2  M2: 3");
    assert_eq!(drc, antenna);
}

#[test]
fn overlays_report_load_errors_and_keep_paths() {
    assert!(drc_overlay_from_sources(None, None, None, None).is_none());
    let overlay = drc_overlay_from_sources(
        Some("drc.json".to_string()),
        None,
        Some(Err("missing file".to_string())),
        None,
    )
    .unwrap();
    assert_eq!(overlay.data_path, Some("drc.json".to_string()));
    assert!(overlay.violations.is_empty());
    assert!(overlay.load_error.unwrap().contains("missing file"));
}

fn violation(id: usize, ty: &str, layer: &str, bbox: Rect32) -> Violation {
    Violation {
        id,
        violation_type: ty.to_string(),
        layer: layer.to_string(),
        bbox,
        required_size: None,
        nets: Vec::new(),
        insts: Vec::new(),
    }
}

#[test]
fn visible_violations_follow_layer_and_type_switches_and_the_viewport() {
    let violations = vec![
        violation(0, "Short", "M1", Rect32 { lx: 0, ly: 0, hx: 10, hy: 10 }),
        violation(1, "Short", "M2", Rect32 { lx: 100, ly: 100, hx: 110, hy: 110 }),
        violation(2, "Spacing", "M1", Rect32 { lx: 5, ly: 5, hx: 6, hy: 6 }),
    ];
    let mut overlay = drc_overlay_from_sources(
        Some("drc.json".to_string()),
        None,
        Some(Ok((violations, StrMap::new()))),
        None,
    )
    .unwrap();
    let mut m1 = layer_state(1, true);
    m1.name = "M1".to_string();
    let mut m2 = layer_state(2, true);
    m2.name = "M2".to_string();
    let mut layers = vec![m1, m2];
    assert_eq!(overlay.visible_violation_count(&layers, None), 3);
    assert_eq!(
        overlay.visible_violation_count(&layers, Some(Rect32 { lx: 0, ly: 0, hx: 50, hy: 50 })),
        2
    );
    layers[1].visible = false;
    assert_eq!(overlay.visible_violation_count(&layers, None), 2);
    for state in overlay.type_states.iter_mut() {
        if state.name == "Spacing" {
            state.visible = false;
        }
    }
    assert_eq!(overlay.visible_violation_count(&layers, None), 1);
    overlay.set_all_visible(false);
    assert_eq!(overlay.visible_violation_count(&layers, None), 0);
}

#[test]
fn antenna_reports_keep_layer_names_in_lowercase() {
    let text = r#"{"antenna": {"distribution": {"PAR": {"number": 1, "layers": {"MET2": {"number": 1, "list": [{"llx": 1, "lly": 2, "urx": 3, "ury": 4}]}}}}}}"#;
    let root = to_json(&serde_json::from_str::<serde_json::Value>(text).unwrap());
    let (violations, counts) = parse_antenna_json(&root);
    assert_eq!(violations.len(), 1);
    assert_eq!(violations[0].layer, "met2");
    assert_eq!(violations[0].violation_type, "PAR");
    assert_eq!(*counts_of(&counts, "PAR").layer_counts.get("MET2").unwrap(), 1);
}

#[test]
fn viewport_counts_come_from_the_spatial_index() {
    let mut violations = Vec::new();
    for i in 0..200usize {
        let x = (i as i32) * 100;
        violations.push(violation(i, "Short", "M1", Rect32 { lx: x, ly: 0, hx: x + 10, hy: 10 }));
    }
    // Corners given the other way round are indexed by their envelope.
    violations.push(violation(200, "Short", "M1", Rect32 { lx: 5010, ly: 40, hx: 5000, hy: 30 }));
    let overlay = drc_overlay_from_sources(
        Some("drc.json".to_string()),
        None,
        Some(Ok((violations, StrMap::new()))),
        None,
    )
    .unwrap();
    let mut m1 = layer_state(1, true);
    m1.name = "M1".to_string();
    let layers = vec![m1];
    assert_eq!(overlay.visible_violation_count(&layers, None), 201);
    // Boxes 50..=60 lie in x 5000..6010; the reversed box at x 5000..5010
    // also touches.
    assert_eq!(
        overlay.visible_violation_count(&layers, Some(Rect32 { lx: 5000, ly: 0, hx: 6000, hy: 50 })),
        12
    );
    // A viewport touching a box's edge counts it; one beside it does not.
    assert_eq!(
        overlay.visible_violation_count(&layers, Some(Rect32 { lx: 10, ly: 10, hx: 20, hy: 20 })),
        1
    );
    assert_eq!(
        overlay.visible_violation_count(&layers, Some(Rect32 { lx: 11, ly: 0, hx: 99, hy: 10 })),
        0
    );
    // A viewport given by its corners the other way round is the same box.
    assert_eq!(
        overlay.visible_violation_count(&layers, Some(Rect32 { lx: 6000, ly: 50, hx: 5000, hy: 0 })),
        12
    );
}

#[test]
fn hidden_layers_hide_violations_whatever_the_case() {
    let violations = vec![
        violation(0, "PAR", "met1", Rect32 { lx: 0, ly: 0, hx: 10, hy: 10 }),
        violation(1, "PAR", "met2", Rect32 { lx: 0, ly: 0, hx: 10, hy: 10 }),
    ];
    let overlay = antenna_overlay_from_sources(
        Some("antenna.json".to_string()),
        None,
        Some(Ok((violations, StrMap::new()))),
        None,
    )
    .unwrap();
    let mut m1 = layer_state(1, false);
    m1.name = "MET1".to_string();
    let mut m2 = layer_state(2, true);
    m2.name = "MET2".to_string();
    let layers = vec![m1, m2];
    assert_eq!(overlay.visible_violation_count(&layers, None), 1);
    assert_eq!(
        overlay.visible_violation_count(&layers, Some(Rect32 { lx: 0, ly: 0, hx: 5, hy: 5 })),
        1
    );
}
