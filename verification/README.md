# chip_viewer_native

The decision logic of a native chip-layout viewer, written in Verus and
proved against its contracts.

- `src/` is the verified library: drawing-data switches and which shapes,
  grids, labels and layers are drawn, the style each shape is painted in
  and the rectangles handed to the canvas shader; DRC and antenna reports,
  their statistics tables, per-type counts and the R-tree (from `rstar`)
  that finds the violations in a viewport; the integer geometry of tiles,
  grids and heat-map layouts; the text of the inspector, status and
  diagnostics lines; the map catalog; snapshot change detection; start-up
  settings; and the edit-session protocol as a state machine. `laws.rs` and
  `report_laws.rs`
  state properties that span several operations.
- `tests/` runs the library on concrete values.
- `app/` is the command-line start-up around it: arguments, environment,
  file and directory reading, the JSON files of the edit-session protocol,
  and the floating-point ranking of heat-map peaks.
