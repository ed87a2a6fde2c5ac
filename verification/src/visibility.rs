//! Which layout objects the canvas draws: owner types, the drawing-data
//! categories the user switches on and off, and the rules that tie owner
//! types and layers to those switches.

use vstd::prelude::*;
use crate::text::{lower, lower_chars, str_chars, trim, trim_chars, chars_eq_str};

verus! {

/// The kind of design object a shape belongs to.  Raw codes follow the
/// order of declaration, starting at 0.
#[derive(Clone, Copy, Debug, PartialEq, Eq, Structural)]
pub enum OwnerType {
    InstanceBBox,
    InstanceHalo,
    NetWireSegment,
    SpecialWireSegment,
    Via,
    PinPortShape,
    InstancePinPortShape,
    IoPinPortShape,
    Row,
    TrackGrid,
    GCellGrid,
    Blockage,
    Obs,
    Die,
    Core,
    Fill,
    Region,
    Slot,
}

/// The owner type a raw code stands for.
pub open spec fn owner_type_of_raw(raw: u8) -> Option<OwnerType> {
    if raw == 0 {
        Some(OwnerType::InstanceBBox)
    } else if raw == 1 {
        Some(OwnerType::InstanceHalo)
    } else if raw == 2 {
        Some(OwnerType::NetWireSegment)
    } else if raw == 3 {
        Some(OwnerType::SpecialWireSegment)
    } else if raw == 4 {
        Some(OwnerType::Via)
    } else if raw == 5 {
        Some(OwnerType::PinPortShape)
    } else if raw == 6 {
        Some(OwnerType::InstancePinPortShape)
    } else if raw == 7 {
        Some(OwnerType::IoPinPortShape)
    } else if raw == 8 {
        Some(OwnerType::Row)
    } else if raw == 9 {
        Some(OwnerType::TrackGrid)
    } else if raw == 10 {
        Some(OwnerType::GCellGrid)
    } else if raw == 11 {
        Some(OwnerType::Blockage)
    } else if raw == 12 {
        Some(OwnerType::Obs)
    } else if raw == 13 {
        Some(OwnerType::Die)
    } else if raw == 14 {
        Some(OwnerType::Core)
    } else if raw == 15 {
        Some(OwnerType::Fill)
    } else if raw == 16 {
        Some(OwnerType::Region)
    } else if raw == 17 {
        Some(OwnerType::Slot)
    } else {
        None
    }
}

/// The raw code of an owner type: its position in the declaration.
pub open spec fn owner_raw(o: OwnerType) -> u8 {
    match o {
        OwnerType::InstanceBBox => 0,
        OwnerType::InstanceHalo => 1,
        OwnerType::NetWireSegment => 2,
        OwnerType::SpecialWireSegment => 3,
        OwnerType::Via => 4,
        OwnerType::PinPortShape => 5,
        OwnerType::InstancePinPortShape => 6,
        OwnerType::IoPinPortShape => 7,
        OwnerType::Row => 8,
        OwnerType::TrackGrid => 9,
        OwnerType::GCellGrid => 10,
        OwnerType::Blockage => 11,
        OwnerType::Obs => 12,
        OwnerType::Die => 13,
        OwnerType::Core => 14,
        OwnerType::Fill => 15,
        OwnerType::Region => 16,
        OwnerType::Slot => 17,
    }
}

impl OwnerType {
    /// The raw code of the owner type (see `owner_raw`).
    pub fn raw(self) -> (r: u8)
        ensures
            r == owner_raw(self),
            owner_type_of_raw(r) == Some(self),
    {
        match self {
            OwnerType::InstanceBBox => 0,
            OwnerType::InstanceHalo => 1,
            OwnerType::NetWireSegment => 2,
            OwnerType::SpecialWireSegment => 3,
            OwnerType::Via => 4,
            OwnerType::PinPortShape => 5,
            OwnerType::InstancePinPortShape => 6,
            OwnerType::IoPinPortShape => 7,
            OwnerType::Row => 8,
            OwnerType::TrackGrid => 9,
            OwnerType::GCellGrid => 10,
            OwnerType::Blockage => 11,
            OwnerType::Obs => 12,
            OwnerType::Die => 13,
            OwnerType::Core => 14,
            OwnerType::Fill => 15,
            OwnerType::Region => 16,
            OwnerType::Slot => 17,
        }
    }

    /// The owner type of a raw code, none for unknown codes.
    pub fn from_raw(raw: u8) -> (r: Option<OwnerType>)
        ensures
            r == owner_type_of_raw(raw),
    {
        match raw {
            0 => Some(OwnerType::InstanceBBox),
            1 => Some(OwnerType::InstanceHalo),
            2 => Some(OwnerType::NetWireSegment),
            3 => Some(OwnerType::SpecialWireSegment),
            4 => Some(OwnerType::Via),
            5 => Some(OwnerType::PinPortShape),
            6 => Some(OwnerType::InstancePinPortShape),
            7 => Some(OwnerType::IoPinPortShape),
            8 => Some(OwnerType::Row),
            9 => Some(OwnerType::TrackGrid),
            10 => Some(OwnerType::GCellGrid),
            11 => Some(OwnerType::Blockage),
            12 => Some(OwnerType::Obs),
            13 => Some(OwnerType::Die),
            14 => Some(OwnerType::Core),
            15 => Some(OwnerType::Fill),
            16 => Some(OwnerType::Region),
            17 => Some(OwnerType::Slot),
            _ => None,
        }
    }
}

/// A switchable group of drawing data.
#[derive(Clone, Copy, Debug, PartialEq, Eq, PartialOrd, Ord, Structural)]
pub enum DrawingCategory {
    Instances,
    NetSignal,
    NetClock,
    NetOther,
    Pdn,
    Vias,
    IoPins,
    Placement,
    Tracks,
    GCells,
    Obstructions,
    Boundaries,
    Fill,
    Regions,
}

/// The position of a category in the canvas's category order.
pub open spec fn category_index(c: DrawingCategory) -> nat {
    match c {
        DrawingCategory::Instances => 0,
        DrawingCategory::NetSignal => 1,
        DrawingCategory::NetClock => 2,
        DrawingCategory::NetOther => 3,
        DrawingCategory::Pdn => 4,
        DrawingCategory::Vias => 5,
        DrawingCategory::IoPins => 6,
        DrawingCategory::Placement => 7,
        DrawingCategory::Tracks => 8,
        DrawingCategory::GCells => 9,
        DrawingCategory::Obstructions => 10,
        DrawingCategory::Boundaries => 11,
        DrawingCategory::Fill => 12,
        DrawingCategory::Regions => 13,
    }
}

/// Every category, in order.
pub open spec fn all_categories() -> Seq<DrawingCategory> {
    seq![
        DrawingCategory::Instances,
        DrawingCategory::NetSignal,
        DrawingCategory::NetClock,
        DrawingCategory::NetOther,
        DrawingCategory::Pdn,
        DrawingCategory::Vias,
        DrawingCategory::IoPins,
        DrawingCategory::Placement,
        DrawingCategory::Tracks,
        DrawingCategory::GCells,
        DrawingCategory::Obstructions,
        DrawingCategory::Boundaries,
        DrawingCategory::Fill,
        DrawingCategory::Regions,
    ]
}

pub open spec fn category_label(c: DrawingCategory) -> Seq<char> {
    match c {
        DrawingCategory::Instances => "Instances"@,
        DrawingCategory::NetSignal => "Signal Nets"@,
        DrawingCategory::NetClock => "Clock Nets"@,
        DrawingCategory::NetOther => "Other Nets"@,
        DrawingCategory::Pdn => "PDN"@,
        DrawingCategory::Vias => "Vias"@,
        DrawingCategory::IoPins => "IO Pins"@,
        DrawingCategory::Placement => "Rows"@,
        DrawingCategory::Tracks => "Tracks"@,
        DrawingCategory::GCells => "GCells"@,
        DrawingCategory::Obstructions => "Obstructions"@,
        DrawingCategory::Boundaries => "Die / Core"@,
        DrawingCategory::Fill => "Fill"@,
        DrawingCategory::Regions => "Regions / Slots"@,
    }
}

pub open spec fn category_tooltip(c: DrawingCategory) -> Seq<char> {
    match c {
        DrawingCategory::NetSignal => "Regular signal net wire segments."@,
        DrawingCategory::NetClock => "Clock net wire segments from DEF net connect type."@,
        DrawingCategory::NetOther => "Non-signal and non-clock regular net wire segments."@,
        DrawingCategory::Vias => "Via owners are drawn on their assigned physical layer."@,
        DrawingCategory::Placement | DrawingCategory::Tracks | DrawingCategory::GCells
        | DrawingCategory::Obstructions =>
            "Context geometry is shown after zooming in to keep the fitted route view readable."@,
        _ => "Toggle this geometry category in the layout canvas."@,
    }
}

/// The owner types a category covers.
pub open spec fn category_includes(c: DrawingCategory, o: OwnerType) -> bool {
    match c {
        DrawingCategory::Instances => o == OwnerType::InstanceBBox || o == OwnerType::InstanceHalo,
        DrawingCategory::NetSignal | DrawingCategory::NetClock | DrawingCategory::NetOther => o
            == OwnerType::NetWireSegment,
        DrawingCategory::Pdn => o == OwnerType::SpecialWireSegment,
        DrawingCategory::Vias => o == OwnerType::Via,
        DrawingCategory::IoPins => o == OwnerType::PinPortShape || o
            == OwnerType::InstancePinPortShape || o == OwnerType::IoPinPortShape,
        DrawingCategory::Placement => o == OwnerType::Row,
        DrawingCategory::Tracks => o == OwnerType::TrackGrid,
        DrawingCategory::GCells => o == OwnerType::GCellGrid,
        DrawingCategory::Obstructions => o == OwnerType::Blockage || o == OwnerType::Obs,
        DrawingCategory::Boundaries => o == OwnerType::Die || o == OwnerType::Core,
        DrawingCategory::Fill => o == OwnerType::Fill,
        DrawingCategory::Regions => o == OwnerType::Region || o == OwnerType::Slot,
    }
}

/// The first category, in category order, that covers an owner type.
pub open spec fn first_category(o: OwnerType) -> DrawingCategory {
    match o {
        OwnerType::InstanceBBox | OwnerType::InstanceHalo => DrawingCategory::Instances,
        OwnerType::NetWireSegment => DrawingCategory::NetSignal,
        OwnerType::SpecialWireSegment => DrawingCategory::Pdn,
        OwnerType::Via => DrawingCategory::Vias,
        OwnerType::PinPortShape | OwnerType::InstancePinPortShape | OwnerType::IoPinPortShape =>
            DrawingCategory::IoPins,
        OwnerType::Row => DrawingCategory::Placement,
        OwnerType::TrackGrid => DrawingCategory::Tracks,
        OwnerType::GCellGrid => DrawingCategory::GCells,
        OwnerType::Blockage | OwnerType::Obs => DrawingCategory::Obstructions,
        OwnerType::Die | OwnerType::Core => DrawingCategory::Boundaries,
        OwnerType::Fill => DrawingCategory::Fill,
        OwnerType::Region | OwnerType::Slot => DrawingCategory::Regions,
    }
}

impl DrawingCategory {
    /// Every category, in the order the sidebar lists them.
    pub const ALL: [DrawingCategory; 14] = [
        DrawingCategory::Instances,
        DrawingCategory::NetSignal,
        DrawingCategory::NetClock,
        DrawingCategory::NetOther,
        DrawingCategory::Pdn,
        DrawingCategory::Vias,
        DrawingCategory::IoPins,
        DrawingCategory::Placement,
        DrawingCategory::Tracks,
        DrawingCategory::GCells,
        DrawingCategory::Obstructions,
        DrawingCategory::Boundaries,
        DrawingCategory::Fill,
        DrawingCategory::Regions,
    ];

    /// The sidebar name of the category.
    pub fn label(self) -> (r: &'static str)
        ensures
            r@ == category_label(self),
    {
        match self {
            DrawingCategory::Instances => "Instances",
            DrawingCategory::NetSignal => "Signal Nets",
            DrawingCategory::NetClock => "Clock Nets",
            DrawingCategory::NetOther => "Other Nets",
            DrawingCategory::Pdn => "PDN",
            DrawingCategory::Vias => "Vias",
            DrawingCategory::IoPins => "IO Pins",
            DrawingCategory::Placement => "Rows",
            DrawingCategory::Tracks => "Tracks",
            DrawingCategory::GCells => "GCells",
            DrawingCategory::Obstructions => "Obstructions",
            DrawingCategory::Boundaries => "Die / Core",
            DrawingCategory::Fill => "Fill",
            DrawingCategory::Regions => "Regions / Slots",
        }
    }

    /// The sidebar tooltip of the category.
    pub fn tooltip(self) -> (r: &'static str)
        ensures
            r@ == category_tooltip(self),
    {
        match self {
            DrawingCategory::NetSignal => "Regular signal net wire segments.",
            DrawingCategory::NetClock => "Clock net wire segments from DEF net connect type.",
            DrawingCategory::NetOther => "Non-signal and non-clock regular net wire segments.",
            DrawingCategory::Vias => "Via owners are drawn on their assigned physical layer.",
            DrawingCategory::Placement | DrawingCategory::Tracks | DrawingCategory::GCells
            | DrawingCategory::Obstructions => {
                "Context geometry is shown after zooming in to keep the fitted route view readable."
            },
            _ => "Toggle this geometry category in the layout canvas.",
        }
    }

    /// Whether the category covers an owner type.
    pub fn includes_owner_type(self, owner_type: OwnerType) -> (r: bool)
        ensures
            r == category_includes(self, owner_type),
    {
        match self {
            DrawingCategory::Instances => owner_type == OwnerType::InstanceBBox || owner_type
                == OwnerType::InstanceHalo,
            DrawingCategory::NetSignal | DrawingCategory::NetClock | DrawingCategory::NetOther => {
                owner_type == OwnerType::NetWireSegment
            },
            DrawingCategory::Pdn => owner_type == OwnerType::SpecialWireSegment,
            DrawingCategory::Vias => owner_type == OwnerType::Via,
            DrawingCategory::IoPins => owner_type == OwnerType::PinPortShape || owner_type
                == OwnerType::InstancePinPortShape || owner_type == OwnerType::IoPinPortShape,
            DrawingCategory::Placement => owner_type == OwnerType::Row,
            DrawingCategory::Tracks => owner_type == OwnerType::TrackGrid,
            DrawingCategory::GCells => owner_type == OwnerType::GCellGrid,
            DrawingCategory::Obstructions => owner_type == OwnerType::Blockage || owner_type
                == OwnerType::Obs,
            DrawingCategory::Boundaries => owner_type == OwnerType::Die || owner_type
                == OwnerType::Core,
            DrawingCategory::Fill => owner_type == OwnerType::Fill,
            DrawingCategory::Regions => owner_type == OwnerType::Region || owner_type
                == OwnerType::Slot,
        }
    }
}

/// The drawing-data switches of the canvas, one per category.
#[derive(Clone, Copy, Debug, PartialEq, Eq, Structural)]
pub struct ObjectVisibility {
    pub instances: bool,
    pub net_signal: bool,
    pub net_clock: bool,
    pub net_other: bool,
    pub pdn: bool,
    pub vias: bool,
    pub io_pin: bool,
    pub placement: bool,
    pub tracks: bool,
    pub gcells: bool,
    pub obstructions: bool,
    pub boundaries: bool,
    pub fill: bool,
    pub regions: bool,
}

/// The switch of a category.
pub open spec fn category_visible(v: ObjectVisibility, c: DrawingCategory) -> bool {
    match c {
        DrawingCategory::Instances => v.instances,
        DrawingCategory::NetSignal => v.net_signal,
        DrawingCategory::NetClock => v.net_clock,
        DrawingCategory::NetOther => v.net_other,
        DrawingCategory::Pdn => v.pdn,
        DrawingCategory::Vias => v.vias,
        DrawingCategory::IoPins => v.io_pin,
        DrawingCategory::Placement => v.placement,
        DrawingCategory::Tracks => v.tracks,
        DrawingCategory::GCells => v.gcells,
        DrawingCategory::Obstructions => v.obstructions,
        DrawingCategory::Boundaries => v.boundaries,
        DrawingCategory::Fill => v.fill,
        DrawingCategory::Regions => v.regions,
    }
}

/// The switches with the one of `c` set to `visible`.
pub open spec fn with_category(v: ObjectVisibility, c: DrawingCategory, visible: bool) -> ObjectVisibility {
    match c {
        DrawingCategory::Instances => ObjectVisibility { instances: visible, ..v },
        DrawingCategory::NetSignal => ObjectVisibility { net_signal: visible, ..v },
        DrawingCategory::NetClock => ObjectVisibility { net_clock: visible, ..v },
        DrawingCategory::NetOther => ObjectVisibility { net_other: visible, ..v },
        DrawingCategory::Pdn => ObjectVisibility { pdn: visible, ..v },
        DrawingCategory::Vias => ObjectVisibility { vias: visible, ..v },
        DrawingCategory::IoPins => ObjectVisibility { io_pin: visible, ..v },
        DrawingCategory::Placement => ObjectVisibility { placement: visible, ..v },
        DrawingCategory::Tracks => ObjectVisibility { tracks: visible, ..v },
        DrawingCategory::GCells => ObjectVisibility { gcells: visible, ..v },
        DrawingCategory::Obstructions => ObjectVisibility { obstructions: visible, ..v },
        DrawingCategory::Boundaries => ObjectVisibility { boundaries: visible, ..v },
        DrawingCategory::Fill => ObjectVisibility { fill: visible, ..v },
        DrawingCategory::Regions => ObjectVisibility { regions: visible, ..v },
    }
}

/// Every switch set to `visible`.
pub open spec fn uniform_visibility(visible: bool) -> ObjectVisibility {
    ObjectVisibility {
        instances: visible,
        net_signal: visible,
        net_clock: visible,
        net_other: visible,
        pdn: visible,
        vias: visible,
        io_pin: visible,
        placement: visible,
        tracks: visible,
        gcells: visible,
        obstructions: visible,
        boundaries: visible,
        fill: visible,
        regions: visible,
    }
}

/// The startup switches: instances, rows and die/core boundaries shown.
pub open spec fn default_visibility() -> ObjectVisibility {
    ObjectVisibility {
        instances: true,
        net_signal: false,
        net_clock: false,
        net_other: false,
        pdn: false,
        vias: false,
        io_pin: false,
        placement: true,
        tracks: false,
        gcells: false,
        obstructions: false,
        boundaries: true,
        fill: false,
        regions: false,
    }
}

/// `mask` when the switch is on, nothing otherwise.
#[verifier::opaque]
pub open spec fn switch_mask(on: bool, mask: u32) -> u32 {
    if on {
        mask
    } else {
        0u32
    }
}

/// One bit per switch, bit `category_index(c)` for category `c`.
pub open spec fn spec_bits(v: ObjectVisibility) -> u32 {
    switch_mask(v.instances, 1u32) | switch_mask(v.net_signal, 2u32) | switch_mask(v.net_clock, 4u32) | switch_mask(v.net_other, 8u32) | switch_mask(v.pdn, 16u32) | switch_mask(v.vias, 32u32) | switch_mask(v.io_pin, 64u32) | switch_mask(v.placement, 128u32) | switch_mask(v.tracks, 256u32) | switch_mask(v.gcells, 512u32) | switch_mask(v.obstructions, 1024u32) | switch_mask(v.boundaries, 2048u32) | switch_mask(v.fill, 4096u32) | switch_mask(v.regions, 8192u32)
}

/// Whether an owner type (by raw code) is drawn under these switches: a
/// net wire when any net category is on, any other known type when its
/// category is on, an unknown type always.
pub open spec fn owner_visible(v: ObjectVisibility, raw: u8) -> bool {
    match owner_type_of_raw(raw) {
        Some(OwnerType::NetWireSegment) => v.net_signal || v.net_clock || v.net_other,
        Some(o) => category_visible(v, first_category(o)),
        None => true,
    }
}

impl Default for ObjectVisibility {
    fn default() -> (v: Self)
        ensures
            v == default_visibility(),
    {
        ObjectVisibility {
            instances: true,
            net_signal: false,
            net_clock: false,
            net_other: false,
            pdn: false,
            vias: false,
            io_pin: false,
            placement: true,
            tracks: false,
            gcells: false,
            obstructions: false,
            boundaries: true,
            fill: false,
            regions: false,
        }
    }
}

impl ObjectVisibility {
    /// One bit per switch (see `spec_bits`), as the GPU tile cache keys on.
    pub fn bits(&self) -> (b: u32)
        ensures
            b == spec_bits(*self),
    {
        proof {
            reveal(switch_mask);
        }
        (if self.instances { 1u32 } else { 0u32 }) | (if self.net_signal { 2u32 } else { 0u32 }) | (
        if self.net_clock { 4u32 } else { 0u32 }) | (if self.net_other { 8u32 } else { 0u32 }) | (
        if self.pdn { 16u32 } else { 0u32 }) | (if self.vias { 32u32 } else { 0u32 }) | (
        if self.io_pin { 64u32 } else { 0u32 }) | (if self.placement { 128u32 } else { 0u32 }) | (
        if self.tracks { 256u32 } else { 0u32 }) | (if self.gcells { 512u32 } else { 0u32 }) | (
        if self.obstructions { 1024u32 } else { 0u32 }) | (if self.boundaries {
            2048u32
        } else {
            0u32
        }) | (if self.fill { 4096u32 } else { 0u32 }) | (if self.regions { 8192u32 } else { 0u32 })
    }

    /// The switch of a category.
    pub fn is_category_visible(self, category: DrawingCategory) -> (r: bool)
        ensures
            r == category_visible(self, category),
    {
        match category {
            DrawingCategory::Instances => self.instances,
            DrawingCategory::NetSignal => self.net_signal,
            DrawingCategory::NetClock => self.net_clock,
            DrawingCategory::NetOther => self.net_other,
            DrawingCategory::Pdn => self.pdn,
            DrawingCategory::Vias => self.vias,
            DrawingCategory::IoPins => self.io_pin,
            DrawingCategory::Placement => self.placement,
            DrawingCategory::Tracks => self.tracks,
            DrawingCategory::GCells => self.gcells,
            DrawingCategory::Obstructions => self.obstructions,
            DrawingCategory::Boundaries => self.boundaries,
            DrawingCategory::Fill => self.fill,
            DrawingCategory::Regions => self.regions,
        }
    }

    /// Sets the switch of one category; the others stay.
    pub fn set_category_visible(&mut self, category: DrawingCategory, visible: bool)
        ensures
            *final(self) == with_category(*old(self), category, visible),
    {
        let v = *self;
        *self = match category {
            DrawingCategory::Instances => ObjectVisibility { instances: visible, ..v },
            DrawingCategory::NetSignal => ObjectVisibility { net_signal: visible, ..v },
            DrawingCategory::NetClock => ObjectVisibility { net_clock: visible, ..v },
            DrawingCategory::NetOther => ObjectVisibility { net_other: visible, ..v },
            DrawingCategory::Pdn => ObjectVisibility { pdn: visible, ..v },
            DrawingCategory::Vias => ObjectVisibility { vias: visible, ..v },
            DrawingCategory::IoPins => ObjectVisibility { io_pin: visible, ..v },
            DrawingCategory::Placement => ObjectVisibility { placement: visible, ..v },
            DrawingCategory::Tracks => ObjectVisibility { tracks: visible, ..v },
            DrawingCategory::GCells => ObjectVisibility { gcells: visible, ..v },
            DrawingCategory::Obstructions => ObjectVisibility { obstructions: visible, ..v },
            DrawingCategory::Boundaries => ObjectVisibility { boundaries: visible, ..v },
            DrawingCategory::Fill => ObjectVisibility { fill: visible, ..v },
            DrawingCategory::Regions => ObjectVisibility { regions: visible, ..v },
        };
    }

    /// Sets every switch.
    pub fn set_all_visible(&mut self, visible: bool)
        ensures
            *final(self) == uniform_visibility(visible),
    {
        *self = ObjectVisibility {
            instances: visible,
            net_signal: visible,
            net_clock: visible,
            net_other: visible,
            pdn: visible,
            vias: visible,
            io_pin: visible,
            placement: visible,
            tracks: visible,
            gcells: visible,
            obstructions: visible,
            boundaries: visible,
            fill: visible,
            regions: visible,
        };
    }

    /// Whether every switch is on.
    pub fn is_all_visible(self) -> (r: bool)
        ensures
            r == (forall|c: DrawingCategory| category_visible(self, c)),
    {
        let r = self.instances && self.net_signal && self.net_clock && self.net_other && self.pdn
            && self.vias && self.io_pin && self.placement && self.tracks && self.gcells
            && self.obstructions && self.boundaries && self.fill && self.regions;
        proof {
            if !r {
                if !self.instances {
                    assert(!category_visible(self, DrawingCategory::Instances));
                } else if !self.net_signal {
                    assert(!category_visible(self, DrawingCategory::NetSignal));
                } else if !self.net_clock {
                    assert(!category_visible(self, DrawingCategory::NetClock));
                } else if !self.net_other {
                    assert(!category_visible(self, DrawingCategory::NetOther));
                } else if !self.pdn {
                    assert(!category_visible(self, DrawingCategory::Pdn));
                } else if !self.vias {
                    assert(!category_visible(self, DrawingCategory::Vias));
                } else if !self.io_pin {
                    assert(!category_visible(self, DrawingCategory::IoPins));
                } else if !self.placement {
                    assert(!category_visible(self, DrawingCategory::Placement));
                } else if !self.tracks {
                    assert(!category_visible(self, DrawingCategory::Tracks));
                } else if !self.gcells {
                    assert(!category_visible(self, DrawingCategory::GCells));
                } else if !self.obstructions {
                    assert(!category_visible(self, DrawingCategory::Obstructions));
                } else if !self.boundaries {
                    assert(!category_visible(self, DrawingCategory::Boundaries));
                } else if !self.fill {
                    assert(!category_visible(self, DrawingCategory::Fill));
                } else {
                    assert(!category_visible(self, DrawingCategory::Regions));
                }
            }
        }
        r
    }

    /// Whether shapes of an owner type (by raw code) are drawn (see
    /// `owner_visible`).
    pub fn includes_owner_type(self, owner_type: u8) -> (r: bool)
        ensures
            r == owner_visible(self, owner_type),
    {
        match OwnerType::from_raw(owner_type) {
            Some(OwnerType::NetWireSegment) => self.net_signal || self.net_clock || self.net_other,
            Some(o) => {
                let all = DrawingCategory::ALL;
                assert(all@ == all_categories());
                let mut i: usize = 0;
                while i < 14
                    invariant
                        all@ == all_categories(),
                        i <= 14,
                        o != OwnerType::NetWireSegment,
                        owner_type_of_raw(owner_type) == Some(o),
                        forall|j: int| 0 <= j < i ==> !category_includes(#[trigger] all_categories()[j], o),
                    decreases 14 - i,
                {
                    if all[i].includes_owner_type(o) {
                        assert(all_categories()[i as int] == first_category(o));
                        return self.is_category_visible(all[i]);
                    }
                    i = i + 1;
                }
                assert(category_includes(all_categories()[category_index(first_category(o)) as int], o));
                true
            },
            None => true,
        }
    }
}

/// `signal` and `clock` (after trimming, any ASCII case) pick their net
/// categories; anything else, or no kind, is an other net.
pub open spec fn net_category(kind: Option<Seq<char>>) -> DrawingCategory {
    match kind {
        Some(k) => if trim(k).len() > 0 && lower(trim(k)) == "signal"@ {
            DrawingCategory::NetSignal
        } else if trim(k).len() > 0 && lower(trim(k)) == "clock"@ {
            DrawingCategory::NetClock
        } else {
            DrawingCategory::NetOther
        },
        None => DrawingCategory::NetOther,
    }
}

/// The drawing category of a net from its connect type.
pub fn net_kind_drawing_category(kind: Option<&str>) -> (c: DrawingCategory)
    ensures
        c == net_category(
            match kind {
                Some(k) => Some(k@),
                None => None,
            },
        ),
{
    match kind {
        Some(k) => {
            let t = trim_chars(&str_chars(k));
            if t.len() == 0 {
                return DrawingCategory::NetOther;
            }
            let l = lower_chars(&t);
            if chars_eq_str(&l, "signal") {
                DrawingCategory::NetSignal
            } else if chars_eq_str(&l, "clock") {
                DrawingCategory::NetClock
            } else {
                DrawingCategory::NetOther
            }
        },
        None => DrawingCategory::NetOther,
    }
}

/// The category of an owner type (by raw code), the net category of a net
/// wire coming from its connect type; none for unknown codes.
pub open spec fn owner_category(raw: u8, net_kind: Option<Seq<char>>) -> Option<DrawingCategory> {
    match owner_type_of_raw(raw) {
        Some(OwnerType::NetWireSegment) => Some(net_category(net_kind)),
        Some(o) => Some(first_category(o)),
        None => None,
    }
}

/// The drawing category of a shape owner, given its raw owner type and, for
/// a net wire, the connect type of its net.
pub fn drawing_category_for_owner(owner_type: u8, net_kind: Option<&str>) -> (c: Option<
    DrawingCategory,
>)
    ensures
        c == owner_category(
            owner_type,
            match net_kind {
                Some(k) => Some(k@),
                None => None,
            },
        ),
{
    match OwnerType::from_raw(owner_type) {
        Some(o) => Some(
            match o {
                OwnerType::InstanceBBox | OwnerType::InstanceHalo => DrawingCategory::Instances,
                OwnerType::NetWireSegment => net_kind_drawing_category(net_kind),
                OwnerType::SpecialWireSegment => DrawingCategory::Pdn,
                OwnerType::Via => DrawingCategory::Vias,
                OwnerType::PinPortShape | OwnerType::InstancePinPortShape
                | OwnerType::IoPinPortShape => DrawingCategory::IoPins,
                OwnerType::Row => DrawingCategory::Placement,
                OwnerType::TrackGrid => DrawingCategory::Tracks,
                OwnerType::GCellGrid => DrawingCategory::GCells,
                OwnerType::Blockage | OwnerType::Obs => DrawingCategory::Obstructions,
                OwnerType::Die | OwnerType::Core => DrawingCategory::Boundaries,
                OwnerType::Fill => DrawingCategory::Fill,
                OwnerType::Region | OwnerType::Slot => DrawingCategory::Regions,
            },
        ),
        None => None,
    }
}

/// Rows, track grids, gcell grids and obstructions are context geometry,
/// drawn only once the view is zoomed in.
pub open spec fn context_owner(raw: u8) -> bool {
    match owner_type_of_raw(raw) {
        Some(OwnerType::Row) | Some(OwnerType::TrackGrid) | Some(OwnerType::GCellGrid) | Some(
            OwnerType::Obs,
        ) => true,
        _ => false,
    }
}

/// Whether an owner type (by raw code) is context geometry.
pub fn is_context_owner_type(owner_type: u8) -> (r: bool)
    ensures
        r == context_owner(owner_type),
{
    match OwnerType::from_raw(owner_type) {
        Some(OwnerType::Row) | Some(OwnerType::TrackGrid) | Some(OwnerType::GCellGrid) | Some(
            OwnerType::Obs,
        ) => true,
        _ => false,
    }
}

/// Die, core, row, instance and region outlines are drawn whatever the
/// layer switches say; everything else follows its layer.
pub open spec fn uses_layer_visibility(owner_type: Option<OwnerType>) -> bool {
    !(owner_type == Some(OwnerType::Die) || owner_type == Some(OwnerType::Core) || owner_type == Some(
        OwnerType::Row,
    ) || owner_type == Some(OwnerType::InstanceBBox) || owner_type == Some(OwnerType::InstanceHalo)
        || owner_type == Some(OwnerType::Region))
}

/// Whether shapes of an owner type follow their layer's switch.
pub fn owner_uses_layer_visibility(owner_type: Option<OwnerType>) -> (r: bool)
    ensures
        r == uses_layer_visibility(owner_type),
{
    match owner_type {
        Some(OwnerType::Die) | Some(OwnerType::Core) | Some(OwnerType::Row) | Some(
            OwnerType::InstanceBBox,
        ) | Some(OwnerType::InstanceHalo) | Some(OwnerType::Region) => false,
        _ => true,
    }
}

/// The layer that holds layout-level geometry (die, rows, grids).
pub const LAYOUT_GEOMETRY_LAYER: u16 = 0;

/// Whether a shape on `layer_id` with this owner type follows its layer's
/// switch: never on the layout-geometry layer.
pub fn shape_uses_layer_visibility(layer_id: u16, owner_type: Option<OwnerType>) -> (r: bool)
    ensures
        r == (layer_id != LAYOUT_GEOMETRY_LAYER && uses_layer_visibility(owner_type)),
{
    layer_id != LAYOUT_GEOMETRY_LAYER && owner_uses_layer_visibility(owner_type)
}

/// Whether the switches show any layout-level geometry, so that the
/// layout-geometry layer must be queried.
pub open spec fn needs_layout_layer(v: ObjectVisibility) -> bool {
    v.instances || v.boundaries || v.placement || v.tracks || v.gcells || v.obstructions
        || v.regions
}

pub fn object_visibility_needs_layout_layer(visibility: ObjectVisibility) -> (r: bool)
    ensures
        r == needs_layout_layer(visibility),
{
    visibility.instances || visibility.boundaries || visibility.placement || visibility.tracks
        || visibility.gcells || visibility.obstructions || visibility.regions
}

/// Only instance bounding boxes may be moved.
pub fn instance_move_is_allowed(owner_type: u8) -> (r: bool)
    ensures
        r == (owner_type_of_raw(owner_type) == Some(OwnerType::InstanceBBox)),
{
    OwnerType::from_raw(owner_type) == Some(OwnerType::InstanceBBox)
}

} // verus!
