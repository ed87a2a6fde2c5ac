//! Names and choices shown in the side panels: search modes, info panels,
//! coordinate units, shading and colour-map styles, and metadata lines.

use vstd::prelude::*;
use crate::text::{decimal, push_decimal, push_str, string_views};
use crate::visibility::OwnerType;

verus! {

/// What a name search looks for.
#[derive(Clone, Copy, Debug, PartialEq, Eq, Structural)]
pub enum SearchMode {
    All,
    Net,
    Instance,
    Pin,
    Bus,
    Group,
}

pub open spec fn search_label(m: SearchMode) -> Seq<char> {
    match m {
        SearchMode::All => "All"@,
        SearchMode::Net => "Net"@,
        SearchMode::Instance => "Instance"@,
        SearchMode::Pin => "Pin"@,
        SearchMode::Bus => "Bus"@,
        SearchMode::Group => "Group"@,
    }
}

/// The owner types a search mode narrows to: nets are net and special
/// wires, instances are instance boxes and halos; other modes do not
/// narrow by owner type.
pub open spec fn search_owner_types(m: SearchMode) -> Option<Seq<OwnerType>> {
    match m {
        SearchMode::Net => Some(seq![OwnerType::NetWireSegment, OwnerType::SpecialWireSegment]),
        SearchMode::Instance => Some(seq![OwnerType::InstanceBBox, OwnerType::InstanceHalo]),
        _ => None,
    }
}

impl SearchMode {
    /// Every mode, in the order the picker lists them.
    pub const ALL: [SearchMode; 6] = [
        SearchMode::All,
        SearchMode::Net,
        SearchMode::Instance,
        SearchMode::Pin,
        SearchMode::Bus,
        SearchMode::Group,
    ];

    pub fn label(self) -> (r: &'static str)
        ensures
            r@ == search_label(self),
    {
        match self {
            SearchMode::All => "All",
            SearchMode::Net => "Net",
            SearchMode::Instance => "Instance",
            SearchMode::Pin => "Pin",
            SearchMode::Bus => "Bus",
            SearchMode::Group => "Group",
        }
    }

    /// The owner types the mode narrows to (see `search_owner_types`).
    pub fn owner_types(self) -> (r: Option<Vec<OwnerType>>)
        ensures
            match r {
                Some(v) => search_owner_types(self) == Some(v@),
                None => search_owner_types(self) is None,
            },
    {
        match self {
            SearchMode::Net => {
                let v = vec![OwnerType::NetWireSegment, OwnerType::SpecialWireSegment];
                assert(v@ =~= seq![OwnerType::NetWireSegment, OwnerType::SpecialWireSegment]);
                Some(v)
            },
            SearchMode::Instance => {
                let v = vec![OwnerType::InstanceBBox, OwnerType::InstanceHalo];
                assert(v@ =~= seq![OwnerType::InstanceBBox, OwnerType::InstanceHalo]);
                Some(v)
            },
            _ => None,
        }
    }
}

/// The info panels of the sidebar.
#[derive(Clone, Copy, Debug, PartialEq, Eq, Structural)]
pub enum SidebarInfoPanel {
    Selection,
    Diagnostics,
}

impl SidebarInfoPanel {
    pub fn label(self) -> (r: &'static str)
        ensures
            r@ == match self {
                SidebarInfoPanel::Selection => "Selection"@,
                SidebarInfoPanel::Diagnostics => "Diagnostics"@,
            },
    {
        match self {
            SidebarInfoPanel::Selection => "Selection",
            SidebarInfoPanel::Diagnostics => "Diagnostics",
        }
    }

    pub fn icon(self) -> (r: &'static str)
        ensures
            r@ == match self {
                SidebarInfoPanel::Selection => "⌖"@,
                SidebarInfoPanel::Diagnostics => "ⓘ"@,
            },
    {
        match self {
            SidebarInfoPanel::Selection => "⌖",
            SidebarInfoPanel::Diagnostics => "ⓘ",
        }
    }
}

/// The unit coordinates are shown in.
#[derive(Clone, Copy, Debug, PartialEq, Eq, Structural)]
pub enum CoordinateUnit {
    Dbu,
    Micron,
}

/// Microns are available only when the design gives a positive scale.
pub open spec fn unit_available(u: CoordinateUnit, dbu_per_micron: Option<u32>) -> bool {
    u == CoordinateUnit::Dbu || (dbu_per_micron is Some && dbu_per_micron->0 > 0)
}

/// The unit actually used: the chosen one when available, else DBU.
pub open spec fn effective_unit(u: CoordinateUnit, dbu_per_micron: Option<u32>) -> CoordinateUnit {
    if unit_available(u, dbu_per_micron) {
        u
    } else {
        CoordinateUnit::Dbu
    }
}

impl CoordinateUnit {
    pub fn label(self) -> (r: &'static str)
        ensures
            r@ == match self {
                CoordinateUnit::Dbu => "DBU"@,
                CoordinateUnit::Micron => "um"@,
            },
    {
        match self {
            CoordinateUnit::Dbu => "DBU",
            CoordinateUnit::Micron => "um",
        }
    }

    /// Whether the unit can be shown (see `unit_available`).
    pub fn is_available(self, dbu_per_micron: Option<u32>) -> (r: bool)
        ensures
            r == unit_available(self, dbu_per_micron),
    {
        match self {
            CoordinateUnit::Dbu => true,
            CoordinateUnit::Micron => match dbu_per_micron {
                Some(value) => value > 0,
                None => false,
            },
        }
    }
}

/// The unit actually used (see `effective_unit`).
pub fn effective_coordinate_unit(unit: CoordinateUnit, dbu_per_micron: Option<u32>) -> (r:
    CoordinateUnit)
    ensures
        r == effective_unit(unit, dbu_per_micron),
{
    if unit.is_available(dbu_per_micron) {
        unit
    } else {
        CoordinateUnit::Dbu
    }
}

/// The shading styles of the 3D view.
#[derive(Clone, Copy, Debug, PartialEq, Eq, Structural)]
pub enum ShadingStyle {
    Normal,
    Cartoon,
    Tech,
    Iridescent,
    Translucent,
}

impl ShadingStyle {
    /// Every shading style, in the order the picker lists them.
    pub const ALL: [ShadingStyle; 5] = [
        ShadingStyle::Normal,
        ShadingStyle::Cartoon,
        ShadingStyle::Tech,
        ShadingStyle::Iridescent,
        ShadingStyle::Translucent,
    ];

    pub fn label(self) -> (r: &'static str)
        ensures
            r@ == match self {
                ShadingStyle::Normal => "Normal"@,
                ShadingStyle::Cartoon => "Cartoon"@,
                ShadingStyle::Tech => "Tech"@,
                ShadingStyle::Iridescent => "Iridescent"@,
                ShadingStyle::Translucent => "Translucent"@,
            },
    {
        match self {
            ShadingStyle::Normal => "Normal",
            ShadingStyle::Cartoon => "Cartoon",
            ShadingStyle::Tech => "Tech",
            ShadingStyle::Iridescent => "Iridescent",
            ShadingStyle::Translucent => "Translucent",
        }
    }
}

impl Default for ShadingStyle {
    /// Plain shading.
    fn default() -> (r: Self)
        ensures
            r == ShadingStyle::Normal,
    {
        ShadingStyle::Normal
    }
}

/// The colour maps of heat maps.
#[derive(Clone, Copy, Debug, PartialEq, Eq, Structural)]
pub enum ColormapMode {
    Turbo,
    Viridis,
    Plasma,
}

impl ColormapMode {
    pub fn label(self) -> (r: &'static str)
        ensures
            r@ == match self {
                ColormapMode::Turbo => "Turbo"@,
                ColormapMode::Viridis => "Viridis"@,
                ColormapMode::Plasma => "Plasma"@,
            },
    {
        match self {
            ColormapMode::Turbo => "Turbo",
            ColormapMode::Viridis => "Viridis",
            ColormapMode::Plasma => "Plasma",
        }
    }
}

impl Default for ColormapMode {
    /// The turbo colour map.
    fn default() -> (r: Self)
        ensures
            r == ColormapMode::Turbo,
    {
        ColormapMode::Turbo
    }
}

fn count_line(label: &str, count: usize) -> (r: String)
    ensures
        r@ == label@ + decimal(count as nat),
{
    let mut r = String::new();
    push_str(&mut r, label);
    push_decimal(&mut r, count as u64);
    r
}

/// The semantic metadata lines of the diagnostics panel.
pub open spec fn semantic_lines(
    site_count: usize,
    master_count: usize,
    via_count: usize,
    grid_count: usize,
    connectivity_count: usize,
    net_count: usize,
    bus_count: usize,
    group_count: usize,
) -> Seq<Seq<char>> {
    seq![
        "sites: "@ + decimal(site_count as nat),
        "masters: "@ + decimal(master_count as nat),
        "via definitions: "@ + decimal(via_count as nat),
        "grid definitions: "@ + decimal(grid_count as nat),
        "connectivity endpoints: "@ + decimal(connectivity_count as nat),
        "net definitions: "@ + decimal(net_count as nat),
        "buses: "@ + decimal(bus_count as nat),
        "groups: "@ + decimal(group_count as nat),
    ]
}

/// One line per kind of semantic metadata with its count.
pub fn semantic_metadata_lines(
    site_count: usize,
    master_count: usize,
    via_count: usize,
    grid_count: usize,
    connectivity_count: usize,
    net_count: usize,
    bus_count: usize,
    group_count: usize,
) -> (lines: Vec<String>)
    ensures
        string_views(lines@) == semantic_lines(
            site_count,
            master_count,
            via_count,
            grid_count,
            connectivity_count,
            net_count,
            bus_count,
            group_count,
        ),
{
    let lines = vec![
        count_line("sites: ", site_count),
        count_line("masters: ", master_count),
        count_line("via definitions: ", via_count),
        count_line("grid definitions: ", grid_count),
        count_line("connectivity endpoints: ", connectivity_count),
        count_line("net definitions: ", net_count),
        count_line("buses: ", bus_count),
        count_line("groups: ", group_count),
    ];
    assert(string_views(lines@) =~= semantic_lines(
        site_count,
        master_count,
        via_count,
        grid_count,
        connectivity_count,
        net_count,
        bus_count,
        group_count,
    ));
    lines
}

/// The tabs of the analysis panel.
#[derive(Clone, Copy, Debug, PartialEq, Eq, Structural)]
pub enum AnalysisTab {
    Antenna,
    Drc,
    Maps,
}

/// The tab the analysis panel opens on: DRC when a DRC overlay was loaded,
/// else antenna when an antenna overlay was, else maps.
pub fn initial_analysis_tab(has_drc_overlay: bool, has_antenna_overlay: bool) -> (tab: AnalysisTab)
    ensures
        tab == if has_drc_overlay {
            AnalysisTab::Drc
        } else if has_antenna_overlay {
            AnalysisTab::Antenna
        } else {
            AnalysisTab::Maps
        },
{
    if has_drc_overlay {
        AnalysisTab::Drc
    } else if has_antenna_overlay {
        AnalysisTab::Antenna
    } else {
        AnalysisTab::Maps
    }
}

} // verus!
