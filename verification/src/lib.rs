//! Verified logic of the chip viewer: drawing-data visibility, DRC and
//! antenna statistics, session-action protocol messages and integer
//! geometry helpers.

pub mod analysis;
pub mod assoc;
pub mod cellmap;
pub mod canvas_laws;
pub mod census;
pub mod counts;
pub mod diagnostics;
pub mod edits;
pub mod geometry;
pub mod grids;
pub mod heatmap;
pub mod idset;
pub mod json;
pub mod laws;
pub mod layers;
pub mod maps;
pub mod panels;
pub mod previews;
pub mod render;
pub mod report_laws;
pub mod selection;
pub mod session;
pub mod settings;
pub mod snapshot;
pub mod spatial;
pub mod styles;
pub mod text;
pub mod units;
pub mod visibility;
pub mod workflow;
