//! The diagnostics panel: memory use of the mapped snapshot, render cache
//! counters, the delta log, and the design's manifest metadata.

use vstd::prelude::*;
use crate::text::{decimal, int_decimal, push_str, push_decimal, push_int_decimal, string_views};

verus! {

/// Bytes mapped for each file of the snapshot.
#[derive(Clone, Copy, Debug, PartialEq, Eq, Structural)]
pub struct GeometryMappedBytes {
    pub meta: u64,
    pub shapes: u64,
    pub owners: u64,
    pub payload: u64,
    pub names: u64,
    pub name_index: u64,
    pub sidmap: u64,
    pub delta: u64,
    pub view: u64,
}

/// The sum over the snapshot's files.
pub open spec fn mapped_total(m: GeometryMappedBytes) -> int {
    m.meta + m.shapes + m.owners + m.payload + m.names + m.name_index + m.sidmap + m.delta + m.view
}

impl GeometryMappedBytes {
    /// All mapped bytes.
    pub fn total(&self) -> (t: u64)
        requires
            mapped_total(*self) <= u64::MAX,
        ensures
            t == mapped_total(*self),
    {
        self.meta + self.shapes + self.owners + self.payload + self.names + self.name_index
            + self.sidmap + self.delta + self.view
    }
}

/// Memory held by the viewer's indexes.
#[derive(Clone, Copy, Debug, PartialEq, Eq, Structural)]
pub struct ChipViewIndexMemoryStats {
    pub layer_index_bytes: u64,
    pub shape_index_bytes: u64,
    pub view_index_bytes: u64,
    pub name_index_bytes: u64,
    pub net_index_bytes: u64,
    pub connectivity_index_bytes: u64,
    pub total_bytes: u64,
}

/// Memory of the mapped snapshot and of the indexes.
#[derive(Clone, Copy, Debug, PartialEq, Eq, Structural)]
pub struct ChipViewMemoryStats {
    pub mapped_bytes: GeometryMappedBytes,
    pub index_bytes: ChipViewIndexMemoryStats,
    pub mapped_plus_index_bytes: u64,
}

/// The delta log of applied edits and its latest record.
#[derive(Clone, Copy, Debug, PartialEq, Eq, Structural)]
pub struct DeltaStats {
    pub record_count: u64,
    pub latest_sequence_id: Option<u64>,
    pub latest_command_id: Option<u64>,
    pub latest_shape_id: Option<u64>,
    pub latest_old_version: Option<u32>,
    pub latest_new_version: Option<u32>,
}

/// Counters of a render cache.
#[derive(Clone, Copy, Debug, PartialEq, Eq, Structural)]
pub struct RenderCacheStats {
    pub entries: u64,
    pub hits: u64,
    pub misses: u64,
}

impl Default for GeometryMappedBytes {
    fn default() -> (m: Self)
        ensures
            mapped_total(m) == 0,
            m.meta == 0,
    {
        GeometryMappedBytes {
            meta: 0,
            shapes: 0,
            owners: 0,
            payload: 0,
            names: 0,
            name_index: 0,
            sidmap: 0,
            delta: 0,
            view: 0,
        }
    }
}

impl Default for ChipViewIndexMemoryStats {
    fn default() -> (s: Self)
        ensures
            s.total_bytes == 0,
    {
        ChipViewIndexMemoryStats {
            layer_index_bytes: 0,
            shape_index_bytes: 0,
            view_index_bytes: 0,
            name_index_bytes: 0,
            net_index_bytes: 0,
            connectivity_index_bytes: 0,
            total_bytes: 0,
        }
    }
}

impl Default for ChipViewMemoryStats {
    fn default() -> (s: Self)
        ensures
            mapped_total(s.mapped_bytes) == 0,
            s.index_bytes.total_bytes == 0,
            s.mapped_plus_index_bytes == 0,
    {
        ChipViewMemoryStats {
            mapped_bytes: GeometryMappedBytes::default(),
            index_bytes: ChipViewIndexMemoryStats::default(),
            mapped_plus_index_bytes: 0,
        }
    }
}

impl Default for DeltaStats {
    fn default() -> (s: Self)
        ensures
            s == (DeltaStats {
                record_count: 0,
                latest_sequence_id: None,
                latest_command_id: None,
                latest_shape_id: None,
                latest_old_version: None,
                latest_new_version: None,
            }),
    {
        DeltaStats {
            record_count: 0,
            latest_sequence_id: None,
            latest_command_id: None,
            latest_shape_id: None,
            latest_old_version: None,
            latest_new_version: None,
        }
    }
}

impl Default for RenderCacheStats {
    fn default() -> (s: Self)
        ensures
            s == (RenderCacheStats { entries: 0, hits: 0, misses: 0 }),
    {
        RenderCacheStats { entries: 0, hits: 0, misses: 0 }
    }
}

/// `<label>: N entries, H hits, M misses`.
pub open spec fn cache_text(label: Seq<char>, stats: RenderCacheStats) -> Seq<char> {
    label + ": "@ + decimal(stats.entries as nat) + " entries, "@ + decimal(stats.hits as nat)
        + " hits, "@ + decimal(stats.misses as nat) + " misses"@
}

/// A cache's line (see `cache_text`).
pub fn cache_stats_line(label: &str, stats: RenderCacheStats) -> (line: String)
    ensures
        line@ == cache_text(label@, stats),
{
    let mut line = String::new();
    push_str(&mut line, label);
    push_str(&mut line, ": ");
    push_decimal(&mut line, stats.entries);
    push_str(&mut line, " entries, ");
    push_decimal(&mut line, stats.hits);
    push_str(&mut line, " hits, ");
    push_decimal(&mut line, stats.misses);
    push_str(&mut line, " misses");
    line
}

/// The latest delta record's line: its sequence, command, shape and
/// version change when all are known, else `none`.
pub open spec fn latest_delta_text(d: DeltaStats) -> Seq<char> {
    match (
        d.latest_sequence_id,
        d.latest_command_id,
        d.latest_shape_id,
        d.latest_old_version,
        d.latest_new_version,
    ) {
        (Some(s), Some(c), Some(sh), Some(o), Some(n)) => "latest delta: seq "@ + decimal(s as nat)
            + " cmd "@ + decimal(c as nat) + " shape "@ + decimal(sh as nat) + " v"@ + decimal(
            o as nat,
        ) + "->"@ + decimal(n as nat),
        _ => "latest delta: none"@,
    }
}

/// The diagnostics lines: mapped, index and total memory, view tiles, the
/// two caches, the delta log's size and its latest record.
pub open spec fn diagnostics_text(
    memory: ChipViewMemoryStats,
    delta: DeltaStats,
    view_tile_count: u64,
    exact_cache: RenderCacheStats,
    tile_cache: RenderCacheStats,
) -> Seq<Seq<char>> {
    seq![
        "mmap bytes: "@ + decimal(mapped_total(memory.mapped_bytes) as nat),
        "index bytes: "@ + decimal(memory.index_bytes.total_bytes as nat),
        "total memory: "@ + decimal(memory.mapped_plus_index_bytes as nat),
        "view tiles: "@ + decimal(view_tile_count as nat),
        cache_text("exact cache"@, exact_cache),
        cache_text("tile cache"@, tile_cache),
        "delta records: "@ + decimal(delta.record_count as nat),
        latest_delta_text(delta),
    ]
}

fn labelled_number(label: &str, n: u64) -> (line: String)
    ensures
        line@ == label@ + decimal(n as nat),
{
    let mut line = String::new();
    push_str(&mut line, label);
    push_decimal(&mut line, n);
    line
}

fn latest_delta_line(d: &DeltaStats) -> (line: String)
    ensures
        line@ == latest_delta_text(*d),
{
    match (
        d.latest_sequence_id,
        d.latest_command_id,
        d.latest_shape_id,
        d.latest_old_version,
        d.latest_new_version,
    ) {
        (Some(s), Some(c), Some(sh), Some(o), Some(n)) => {
            let mut line = String::new();
            push_str(&mut line, "latest delta: seq ");
            push_decimal(&mut line, s);
            push_str(&mut line, " cmd ");
            push_decimal(&mut line, c);
            push_str(&mut line, " shape ");
            push_decimal(&mut line, sh);
            push_str(&mut line, " v");
            push_decimal(&mut line, o as u64);
            push_str(&mut line, "->");
            push_decimal(&mut line, n as u64);
            line
        },
        _ => {
            let mut line = String::new();
            push_str(&mut line, "latest delta: none");
            line
        },
    }
}

/// The diagnostics lines (see `diagnostics_text`).
pub fn diagnostics_lines(
    memory: &ChipViewMemoryStats,
    delta: &DeltaStats,
    view_tile_count: u64,
    exact_cache: RenderCacheStats,
    tile_cache: RenderCacheStats,
) -> (lines: Vec<String>)
    requires
        mapped_total(memory.mapped_bytes) <= u64::MAX,
    ensures
        string_views(lines@) == diagnostics_text(
            *memory,
            *delta,
            view_tile_count,
            exact_cache,
            tile_cache,
        ),
{
    let mut lines: Vec<String> = Vec::new();
    lines.push(labelled_number("mmap bytes: ", memory.mapped_bytes.total()));
    lines.push(labelled_number("index bytes: ", memory.index_bytes.total_bytes));
    lines.push(labelled_number("total memory: ", memory.mapped_plus_index_bytes));
    lines.push(labelled_number("view tiles: ", view_tile_count));
    lines.push(cache_stats_line("exact cache", exact_cache));
    lines.push(cache_stats_line("tile cache", tile_cache));
    lines.push(labelled_number("delta records: ", delta.record_count));
    lines.push(latest_delta_line(delta));
    assert(string_views(lines@) =~= diagnostics_text(
        *memory,
        *delta,
        view_tile_count,
        exact_cache,
        tile_cache,
    ));
    lines
}

/// The design facts that a snapshot manifest may carry.
pub struct DesignManifest {
    pub design_name: Option<String>,
    pub design_version: Option<String>,
    pub dbu_per_micron: Option<u32>,
    pub manufacture_grid: Option<i32>,
    pub dirty_lod_tile_count: Option<u64>,
    pub dirty_lod_rebuild_candidate_count: Option<u64>,
    pub written_side_file_count: Option<u64>,
    pub reused_side_file_count: Option<u64>,
}

impl Default for DesignManifest {
    fn default() -> (m: Self)
        ensures
            m.design_name is None,
            m.design_version is None,
            m.dbu_per_micron is None,
            m.manufacture_grid is None,
            m.dirty_lod_tile_count is None,
            m.dirty_lod_rebuild_candidate_count is None,
            m.written_side_file_count is None,
            m.reused_side_file_count is None,
    {
        DesignManifest {
            design_name: None,
            design_version: None,
            dbu_per_micron: None,
            manufacture_grid: None,
            dirty_lod_tile_count: None,
            dirty_lod_rebuild_candidate_count: None,
            written_side_file_count: None,
            reused_side_file_count: None,
        }
    }
}

pub open spec fn text_line(label: Seq<char>, v: Option<String>) -> Seq<Seq<char>> {
    match v {
        Some(s) => seq![label + s@],
        None => Seq::empty(),
    }
}

pub open spec fn number_line(label: Seq<char>, v: Option<u64>) -> Seq<Seq<char>> {
    match v {
        Some(n) => seq![label + decimal(n as nat)],
        None => Seq::empty(),
    }
}

/// One line for each fact that the manifest has, in a fixed order.
pub open spec fn design_text(m: DesignManifest) -> Seq<Seq<char>> {
    text_line("design: "@, m.design_name) + text_line("design version: "@, m.design_version)
        + number_line(
        "dbu per micron: "@,
        match m.dbu_per_micron {
            Some(d) => Some(d as u64),
            None => None,
        },
    ) + match m.manufacture_grid {
        Some(g) => seq!["manufacture grid: "@ + int_decimal(g as int)],
        None => Seq::empty(),
    } + number_line("dirty LOD tiles: "@, m.dirty_lod_tile_count) + number_line(
        "dirty LOD candidates: "@,
        m.dirty_lod_rebuild_candidate_count,
    ) + number_line("written side files: "@, m.written_side_file_count) + number_line(
        "reused side files: "@,
        m.reused_side_file_count,
    )
}

fn push_text_line(lines: &mut Vec<String>, label: &str, v: &Option<String>)
    ensures
        string_views(final(lines)@) == string_views(old(lines)@) + text_line(label@, *v),
{
    let ghost before = string_views(lines@);
    match v {
        Some(s) => {
            let mut line = String::new();
            push_str(&mut line, label);
            push_str(&mut line, s.as_str());
            lines.push(line);
        },
        None => {},
    }
    assert(string_views(lines@) =~= before + text_line(label@, *v));
}

fn push_number_line(lines: &mut Vec<String>, label: &str, v: Option<u64>)
    ensures
        string_views(final(lines)@) == string_views(old(lines)@) + number_line(label@, v),
{
    let ghost before = string_views(lines@);
    match v {
        Some(n) => {
            lines.push(labelled_number(label, n));
        },
        None => {},
    }
    assert(string_views(lines@) =~= before + number_line(label@, v));
}

/// The design metadata lines (see `design_text`).
pub fn design_metadata_lines(manifest: &DesignManifest) -> (lines: Vec<String>)
    ensures
        string_views(lines@) == design_text(*manifest),
{
    let mut lines: Vec<String> = Vec::new();
    assert(string_views(lines@) =~= Seq::<Seq<char>>::empty());
    push_text_line(&mut lines, "design: ", &manifest.design_name);
    push_text_line(&mut lines, "design version: ", &manifest.design_version);
    let dbu: Option<u64> = match manifest.dbu_per_micron {
        Some(d) => Some(d as u64),
        None => None,
    };
    push_number_line(&mut lines, "dbu per micron: ", dbu);
    let ghost before_grid = string_views(lines@);
    match manifest.manufacture_grid {
        Some(g) => {
            let mut line = String::new();
            push_str(&mut line, "manufacture grid: ");
            push_int_decimal(&mut line, g as i64);
            lines.push(line);
        },
        None => {},
    }
    assert(string_views(lines@) =~= before_grid + match manifest.manufacture_grid {
        Some(g) => seq!["manufacture grid: "@ + int_decimal(g as int)],
        None => Seq::<Seq<char>>::empty(),
    });
    push_number_line(&mut lines, "dirty LOD tiles: ", manifest.dirty_lod_tile_count);
    push_number_line(&mut lines, "dirty LOD candidates: ", manifest.dirty_lod_rebuild_candidate_count);
    push_number_line(&mut lines, "written side files: ", manifest.written_side_file_count);
    push_number_line(&mut lines, "reused side files: ", manifest.reused_side_file_count);
    assert(string_views(lines@) =~= design_text(*manifest));
    lines
}

} // verus!
