//! Properties that hold across the library's operations: what a switch
//! change does to the drawing categories, what the edit-session protocol
//! guarantees over a sequence of steps, and the arithmetic facts that
//! colours, tiles, grids and rectangles rest on.

use vstd::prelude::*;
use crate::edits::{GeometryEditResult, GeometryEditStatus, reloads_after};
use crate::geometry::{Rect32, sat_add_i32, spec_intersect_rect, spec_union_rect};
use crate::maps::same_path;
use crate::heatmap::{
    focus_box, half_towards_zero, is_egr_path, layout_cells, record_key, record_rect, record_valid,
    first_at, next_peak, LayoutRecord,
};
use crate::cellmap::cell_at;
use crate::styles::{LayerStyle, shape_look, indexed_shown, layer_switches, LAYOUT_GEOMETRY_GRAY, LAYOUT_GEOMETRY_MAX_FILL_ALPHA,
    LAYOUT_GEOMETRY_MAX_FRAME_ALPHA};
use crate::layers::{inverted, visible_count, layer_id_visible, shape_shown, LayerUiState};
use crate::render::lemma_tile_index_in_range;
use crate::units::{quotient_thousandths, round_half_even, significand_shift, two_pow};
use crate::assoc::{assoc_get, assoc_insert_if_absent, lemma_insert_get};
use crate::analysis::{insert_all_if_absent, merge_counts, merge_one};
use crate::counts::{CountsView, LayerCountsView};
use crate::render::{byte_of, chosen_lod, packed_rgba, tile_column, tile_columns, tiles_for_bbox,
    tile_index};
use crate::session::{SessionActionKind, SessionActionProgressPhase, SessionActionResult};
use crate::visibility::{
    DrawingCategory, ObjectVisibility, OwnerType, category_includes, category_index, category_visible,
    default_visibility, first_category, owner_raw, owner_type_of_raw, owner_visible, spec_bits, switch_mask,
    uniform_visibility, with_category, LAYOUT_GEOMETRY_LAYER,
};
use crate::workflow::{
    PendingSessionAction, SessionView, after_command_written, after_edit_reload, after_edit_result,
    after_progress_report, after_request, after_session_reload, after_session_result, bumped, busy,
    edit_applied, request_refusal, result_matches, with_message, ProgressView,
};

verus! {

// ---------------------------------------------------------------------
// Drawing categories
// ---------------------------------------------------------------------
/// Switching a category on or off changes that category's switch to the
/// given value and leaves every other category as it was.
#[verifier::spinoff_prover]
pub proof fn law_set_category_then_read(
    v: ObjectVisibility,
    c: DrawingCategory,
    visible: bool,
    d: DrawingCategory,
)
    ensures
        category_visible(with_category(v, c, visible), d) == if d == c {
            visible
        } else {
            category_visible(v, d)
        },
{
    match c {
        DrawingCategory::Instances => {},
        DrawingCategory::NetSignal => {},
        DrawingCategory::NetClock => {},
        DrawingCategory::NetOther => {},
        DrawingCategory::Pdn => {},
        DrawingCategory::Vias => {},
        DrawingCategory::IoPins => {},
        DrawingCategory::Placement => {},
        DrawingCategory::Tracks => {},
        DrawingCategory::GCells => {},
        DrawingCategory::Obstructions => {},
        DrawingCategory::Boundaries => {},
        DrawingCategory::Fill => {},
        DrawingCategory::Regions => {},
    }
}

/// Switching every category on (or off) makes each category's switch that
/// value.
pub proof fn law_set_all_reads_uniform(visible: bool)
    ensures
        forall|c: DrawingCategory| #[trigger] category_visible(uniform_visibility(visible), c) == visible,
{
}

/// At startup exactly instances, rows and die/core boundaries are drawn.
pub proof fn law_default_shows_startup_categories()
    ensures
        forall|c: DrawingCategory|
            #[trigger] category_visible(default_visibility(), c) <==> (c == DrawingCategory::Instances
                || c == DrawingCategory::Placement || c == DrawingCategory::Boundaries),
{
}

/// Every owner type is covered by a drawing category: the first one in
/// category order that includes it.
pub proof fn law_every_owner_type_has_a_category(o: OwnerType)
    ensures
        category_includes(first_category(o), o),
        forall|c: DrawingCategory|
            #[trigger] category_includes(c, o) ==> category_index(first_category(o)) <= category_index(c),
{
}

/// Whether shapes of a known owner type are drawn depends on its
/// category's switch alone (for net wires: on any of the three net
/// categories); shapes of unknown owner types are always drawn.
pub proof fn law_owner_visibility_follows_categories(v: ObjectVisibility, raw: u8)
    ensures
        owner_type_of_raw(raw) is None ==> owner_visible(v, raw),
        owner_type_of_raw(raw) == Some(OwnerType::NetWireSegment) ==> (owner_visible(v, raw) <==> (
        category_visible(v, DrawingCategory::NetSignal) || category_visible(
            v,
            DrawingCategory::NetClock,
        ) || category_visible(v, DrawingCategory::NetOther))),
        forall|o: OwnerType|
            o != OwnerType::NetWireSegment && owner_type_of_raw(raw) == Some(o) ==> (owner_visible(
                v,
                raw,
            ) <==> category_visible(v, #[trigger] first_category(o))),
{
}

/// Raw owner codes and owner types correspond one to one.
pub proof fn law_owner_codes_round_trip(o: OwnerType, raw: u8)
    ensures
        owner_type_of_raw(owner_raw(o)) == Some(o),
        owner_type_of_raw(raw) == Some(o) ==> raw == owner_raw(o),
{
}

proof fn lemma_bits_of_masks(
    w0: u32,
    w1: u32,
    w2: u32,
    w3: u32,
    w4: u32,
    w5: u32,
    w6: u32,
    w7: u32,
    w8: u32,
    w9: u32,
    w10: u32,
    w11: u32,
    w12: u32,
    w13: u32,
    bits: u32,
)
    by (bit_vector)
    requires
        w0 == 0u32 || w0 == 1u32,
        w1 == 0u32 || w1 == 2u32,
        w2 == 0u32 || w2 == 4u32,
        w3 == 0u32 || w3 == 8u32,
        w4 == 0u32 || w4 == 16u32,
        w5 == 0u32 || w5 == 32u32,
        w6 == 0u32 || w6 == 64u32,
        w7 == 0u32 || w7 == 128u32,
        w8 == 0u32 || w8 == 256u32,
        w9 == 0u32 || w9 == 512u32,
        w10 == 0u32 || w10 == 1024u32,
        w11 == 0u32 || w11 == 2048u32,
        w12 == 0u32 || w12 == 4096u32,
        w13 == 0u32 || w13 == 8192u32,
        bits == w0 | w1 | w2 | w3 | w4 | w5 | w6 | w7 | w8 | w9 | w10 | w11 | w12 | w13,
    ensures
        ((bits >> 0u32) & 1u32 == 1u32) == (w0 != 0u32),
        ((bits >> 1u32) & 1u32 == 1u32) == (w1 != 0u32),
        ((bits >> 2u32) & 1u32 == 1u32) == (w2 != 0u32),
        ((bits >> 3u32) & 1u32 == 1u32) == (w3 != 0u32),
        ((bits >> 4u32) & 1u32 == 1u32) == (w4 != 0u32),
        ((bits >> 5u32) & 1u32 == 1u32) == (w5 != 0u32),
        ((bits >> 6u32) & 1u32 == 1u32) == (w6 != 0u32),
        ((bits >> 7u32) & 1u32 == 1u32) == (w7 != 0u32),
        ((bits >> 8u32) & 1u32 == 1u32) == (w8 != 0u32),
        ((bits >> 9u32) & 1u32 == 1u32) == (w9 != 0u32),
        ((bits >> 10u32) & 1u32 == 1u32) == (w10 != 0u32),
        ((bits >> 11u32) & 1u32 == 1u32) == (w11 != 0u32),
        ((bits >> 12u32) & 1u32 == 1u32) == (w12 != 0u32),
        ((bits >> 13u32) & 1u32 == 1u32) == (w13 != 0u32),
        bits < 0x4000,
{
}

/// Whether bit `k` of `bits` is set.
pub open spec fn bit_set(bits: u32, k: u32) -> bool {
    (bits >> k) & 1u32 == 1u32
}

/// Bit `category_index(c)` of the switch bits is set exactly when category
/// `c` is switched on; no bit above the fourteen is ever set.
#[verifier::rlimit(60)]
pub proof fn law_bits_record_each_switch(v: ObjectVisibility, c: DrawingCategory)
    ensures
        bit_set(spec_bits(v), category_index(c) as u32) == category_visible(v, c),
        spec_bits(v) < 0x4000,
{
    let bits = spec_bits(v);
    assert(switch_mask(v.instances, 1u32) == 0u32 || switch_mask(v.instances, 1u32) == 1u32) by {
        reveal(switch_mask);
    }
    assert((switch_mask(v.instances, 1u32) != 0u32) == v.instances) by {
        reveal(switch_mask);
    }
    assert(switch_mask(v.net_signal, 2u32) == 0u32 || switch_mask(v.net_signal, 2u32) == 2u32) by {
        reveal(switch_mask);
    }
    assert((switch_mask(v.net_signal, 2u32) != 0u32) == v.net_signal) by {
        reveal(switch_mask);
    }
    assert(switch_mask(v.net_clock, 4u32) == 0u32 || switch_mask(v.net_clock, 4u32) == 4u32) by {
        reveal(switch_mask);
    }
    assert((switch_mask(v.net_clock, 4u32) != 0u32) == v.net_clock) by {
        reveal(switch_mask);
    }
    assert(switch_mask(v.net_other, 8u32) == 0u32 || switch_mask(v.net_other, 8u32) == 8u32) by {
        reveal(switch_mask);
    }
    assert((switch_mask(v.net_other, 8u32) != 0u32) == v.net_other) by {
        reveal(switch_mask);
    }
    assert(switch_mask(v.pdn, 16u32) == 0u32 || switch_mask(v.pdn, 16u32) == 16u32) by {
        reveal(switch_mask);
    }
    assert((switch_mask(v.pdn, 16u32) != 0u32) == v.pdn) by {
        reveal(switch_mask);
    }
    assert(switch_mask(v.vias, 32u32) == 0u32 || switch_mask(v.vias, 32u32) == 32u32) by {
        reveal(switch_mask);
    }
    assert((switch_mask(v.vias, 32u32) != 0u32) == v.vias) by {
        reveal(switch_mask);
    }
    assert(switch_mask(v.io_pin, 64u32) == 0u32 || switch_mask(v.io_pin, 64u32) == 64u32) by {
        reveal(switch_mask);
    }
    assert((switch_mask(v.io_pin, 64u32) != 0u32) == v.io_pin) by {
        reveal(switch_mask);
    }
    assert(switch_mask(v.placement, 128u32) == 0u32 || switch_mask(v.placement, 128u32) == 128u32) by {
        reveal(switch_mask);
    }
    assert((switch_mask(v.placement, 128u32) != 0u32) == v.placement) by {
        reveal(switch_mask);
    }
    assert(switch_mask(v.tracks, 256u32) == 0u32 || switch_mask(v.tracks, 256u32) == 256u32) by {
        reveal(switch_mask);
    }
    assert((switch_mask(v.tracks, 256u32) != 0u32) == v.tracks) by {
        reveal(switch_mask);
    }
    assert(switch_mask(v.gcells, 512u32) == 0u32 || switch_mask(v.gcells, 512u32) == 512u32) by {
        reveal(switch_mask);
    }
    assert((switch_mask(v.gcells, 512u32) != 0u32) == v.gcells) by {
        reveal(switch_mask);
    }
    assert(switch_mask(v.obstructions, 1024u32) == 0u32 || switch_mask(v.obstructions, 1024u32) == 1024u32) by {
        reveal(switch_mask);
    }
    assert((switch_mask(v.obstructions, 1024u32) != 0u32) == v.obstructions) by {
        reveal(switch_mask);
    }
    assert(switch_mask(v.boundaries, 2048u32) == 0u32 || switch_mask(v.boundaries, 2048u32) == 2048u32) by {
        reveal(switch_mask);
    }
    assert((switch_mask(v.boundaries, 2048u32) != 0u32) == v.boundaries) by {
        reveal(switch_mask);
    }
    assert(switch_mask(v.fill, 4096u32) == 0u32 || switch_mask(v.fill, 4096u32) == 4096u32) by {
        reveal(switch_mask);
    }
    assert((switch_mask(v.fill, 4096u32) != 0u32) == v.fill) by {
        reveal(switch_mask);
    }
    assert(switch_mask(v.regions, 8192u32) == 0u32 || switch_mask(v.regions, 8192u32) == 8192u32) by {
        reveal(switch_mask);
    }
    assert((switch_mask(v.regions, 8192u32) != 0u32) == v.regions) by {
        reveal(switch_mask);
    }
    lemma_bits_of_masks(
        switch_mask(v.instances, 1u32),
        switch_mask(v.net_signal, 2u32),
        switch_mask(v.net_clock, 4u32),
        switch_mask(v.net_other, 8u32),
        switch_mask(v.pdn, 16u32),
        switch_mask(v.vias, 32u32),
        switch_mask(v.io_pin, 64u32),
        switch_mask(v.placement, 128u32),
        switch_mask(v.tracks, 256u32),
        switch_mask(v.gcells, 512u32),
        switch_mask(v.obstructions, 1024u32),
        switch_mask(v.boundaries, 2048u32),
        switch_mask(v.fill, 4096u32),
        switch_mask(v.regions, 8192u32),
        bits,
    );
    assert(bit_set(bits, 0) == v.instances);
    assert(bit_set(bits, 1) == v.net_signal);
    assert(bit_set(bits, 2) == v.net_clock);
    assert(bit_set(bits, 3) == v.net_other);
    assert(bit_set(bits, 4) == v.pdn);
    assert(bit_set(bits, 5) == v.vias);
    assert(bit_set(bits, 6) == v.io_pin);
    assert(bit_set(bits, 7) == v.placement);
    assert(bit_set(bits, 8) == v.tracks);
    assert(bit_set(bits, 9) == v.gcells);
    assert(bit_set(bits, 10) == v.obstructions);
    assert(bit_set(bits, 11) == v.boundaries);
    assert(bit_set(bits, 12) == v.fill);
    assert(bit_set(bits, 13) == v.regions);
    match c {
        DrawingCategory::Instances => {},
        DrawingCategory::NetSignal => {},
        DrawingCategory::NetClock => {},
        DrawingCategory::NetOther => {},
        DrawingCategory::Pdn => {},
        DrawingCategory::Vias => {},
        DrawingCategory::IoPins => {},
        DrawingCategory::Placement => {},
        DrawingCategory::Tracks => {},
        DrawingCategory::GCells => {},
        DrawingCategory::Obstructions => {},
        DrawingCategory::Boundaries => {},
        DrawingCategory::Fill => {},
        DrawingCategory::Regions => {},
    }
}

/// Two sets of switches with the same bits are the same switches.
pub proof fn law_bits_identify_switches(v: ObjectVisibility, w: ObjectVisibility)
    requires
        spec_bits(v) == spec_bits(w),
    ensures
        v == w,
{
    assert forall|c: DrawingCategory| category_visible(v, c) == category_visible(w, c) by {
        law_bits_record_each_switch(v, c);
        law_bits_record_each_switch(w, c);
    }
    assert(category_visible(v, DrawingCategory::Instances) == category_visible(
        w,
        DrawingCategory::Instances,
    ));
    assert(category_visible(v, DrawingCategory::NetSignal) == category_visible(
        w,
        DrawingCategory::NetSignal,
    ));
    assert(category_visible(v, DrawingCategory::NetClock) == category_visible(
        w,
        DrawingCategory::NetClock,
    ));
    assert(category_visible(v, DrawingCategory::NetOther) == category_visible(
        w,
        DrawingCategory::NetOther,
    ));
    assert(category_visible(v, DrawingCategory::Pdn) == category_visible(w, DrawingCategory::Pdn));
    assert(category_visible(v, DrawingCategory::Vias) == category_visible(w, DrawingCategory::Vias));
    assert(category_visible(v, DrawingCategory::IoPins) == category_visible(
        w,
        DrawingCategory::IoPins,
    ));
    assert(category_visible(v, DrawingCategory::Placement) == category_visible(
        w,
        DrawingCategory::Placement,
    ));
    assert(category_visible(v, DrawingCategory::Tracks) == category_visible(
        w,
        DrawingCategory::Tracks,
    ));
    assert(category_visible(v, DrawingCategory::GCells) == category_visible(
        w,
        DrawingCategory::GCells,
    ));
    assert(category_visible(v, DrawingCategory::Obstructions) == category_visible(
        w,
        DrawingCategory::Obstructions,
    ));
    assert(category_visible(v, DrawingCategory::Boundaries) == category_visible(
        w,
        DrawingCategory::Boundaries,
    ));
    assert(category_visible(v, DrawingCategory::Fill) == category_visible(w, DrawingCategory::Fill));
    assert(category_visible(v, DrawingCategory::Regions) == category_visible(
        w,
        DrawingCategory::Regions,
    ));
}

// ---------------------------------------------------------------------
// The edit-session protocol
// ---------------------------------------------------------------------
/// Command identifiers handed out one after another increase strictly
/// until the counter reaches its maximum, where it stays.
pub proof fn law_command_ids_increase(counter: u32)
    ensures
        counter < u32::MAX ==> counter < bumped(counter),
        counter == u32::MAX ==> bumped(counter) == counter,
        counter <= bumped(counter),
{
}

/// While a draft, an edit or a session action is pending, a request for a
/// session action is refused: no command identifier is handed out and
/// only the status line changes.
pub proof fn law_busy_session_refuses_requests(v: SessionView)
    requires
        v.session_dirty,
        busy(v),
    ensures
        request_refusal(v) == Some("wait for the current edit to finish"@),
        after_request(v) == with_message(v, "wait for the current edit to finish"@),
{
}

/// The progress shown belongs to the pending session action.
pub open spec fn progress_follows_pending(v: SessionView) -> bool {
    match v.pending_session_action {
        Some(pa) => v.progress matches Some(p) && p.action == pa.action && p.command_id
            == pa.command_id,
        None => true,
    }
}

/// Every step of the protocol keeps the progress shown tied to the pending
/// session action: a request, the command written (or not) for a request
/// that nothing was pending for, a progress report, the result of the
/// pending action, and the reload that follows it.
pub proof fn law_progress_stays_with_pending_action(
    v: SessionView,
    action: SessionActionKind,
    command_id: u64,
    close_after: bool,
    error: Option<Seq<char>>,
    report: ProgressView,
    result: Option<SessionActionResult>,
    message: Seq<char>,
)
    requires
        progress_follows_pending(v),
    ensures
        progress_follows_pending(after_request(v)),
        v.pending_session_action is None ==> progress_follows_pending(
            after_command_written(v, action, command_id, close_after, error),
        ),
        progress_follows_pending(after_progress_report(v, report)),
        v.pending_session_action matches Some(pa) ==> progress_follows_pending(
            after_session_result(v, pa, result),
        ),
        v.pending_session_action is None ==> progress_follows_pending(
            after_session_reload(v, action, command_id, message, error),
        ),
{
}

/// A result for another action or command never completes the pending
/// action: it fails, nothing is reloaded, and the edits stay unsettled.
pub proof fn law_mismatched_result_fails(v: SessionView, pa: PendingSessionAction, r: SessionActionResult)
    requires
        !result_matches(r, pa),
    ensures
        after_session_result(v, pa, Some(r)).pending_session_action is None,
        after_session_result(v, pa, Some(r)).progress matches Some(p) && p.phase
            == SessionActionProgressPhase::Failed && p.command_id == pa.command_id,
        after_session_result(v, pa, Some(r)).session_dirty == v.session_dirty,
        !after_session_result(v, pa, Some(r)).close_after_session_action,
{
}

/// Only a reload after an accepted session action settles the edits:
/// reading a result never does, and a failed reload leaves them unsettled.
pub proof fn law_only_a_completed_reload_settles_edits(
    v: SessionView,
    pa: PendingSessionAction,
    result: Option<SessionActionResult>,
    action: SessionActionKind,
    command_id: u64,
    message: Seq<char>,
    error: Seq<char>,
)
    ensures
        after_session_result(v, pa, result).session_dirty == v.session_dirty,
        after_session_reload(v, action, command_id, message, Some(error)).session_dirty
            == v.session_dirty,
        !after_session_reload(v, action, command_id, message, None).session_dirty,
{
}

/// A request made with unsettled edits and nothing pending, whose command
/// is written, whose accepted result comes back, and whose reload
/// succeeds, ends with the edits settled, nothing pending, and a
/// completed report carrying the result's message.
pub proof fn law_session_action_round_trip(
    v: SessionView,
    action: SessionActionKind,
    close_after: bool,
    r: SessionActionResult,
)
    requires
        request_refusal(v) is None,
        r.action == action,
        r.command_id == v.next_command_counter as u64,
        r.accepted,
    ensures
        ({
            let id = v.next_command_counter as u64;
            let requested = after_request(v);
            let written = after_command_written(requested, action, id, close_after, None);
            let pa = PendingSessionAction { action, command_id: id };
            let answered = after_session_result(written, pa, Some(r));
            let message = crate::session::result_message(
                r.action,
                r.accepted,
                crate::edits::opt_view(r.message),
            );
            let done = after_session_reload(answered, action, id, message, None);
            &&& written.pending_session_action == Some(pa)
            &&& answered.pending_session_action is None
            &&& !done.session_dirty
            &&& done.pending_session_action is None
            &&& done.progress matches Some(p) && p.phase == SessionActionProgressPhase::Completed
                && p.percent == 100 && p.message == message
            &&& done.last_message == Some(message)
        }),
{
}

/// A progress report about another action, another command, or with a
/// percent above 100 changes nothing.
pub proof fn law_foreign_progress_is_ignored(v: SessionView, report: ProgressView)
    requires
        match v.pending_session_action {
            Some(pa) => report.action != pa.action || report.command_id != pa.command_id
                || report.percent > 100,
            None => true,
        },
    ensures
        after_progress_report(v, report) == v,
{
}

/// A rejected edit is not reloaded and never marks the session as having
/// unsettled edits; an accepted or adjusted edit does once its reload
/// succeeds.
pub proof fn law_only_applied_edits_unsettle_the_session(
    v: SessionView,
    r: GeometryEditResult,
    message: Seq<char>,
)
    ensures
        r.status == GeometryEditStatus::Rejected ==> !reloads_after(r.status)
            && after_edit_result(v, Some(r)).session_dirty == v.session_dirty,
        edit_applied(r.status) ==> reloads_after(r.status) && after_edit_reload(
            v,
            r.status,
            message,
            None,
        ).session_dirty,
        r.status == GeometryEditStatus::Conflict ==> after_edit_reload(
            v,
            r.status,
            message,
            None,
        ).session_dirty == v.session_dirty,
{
}

// ---------------------------------------------------------------------
// Colours, tiles and levels of detail
// ---------------------------------------------------------------------
/// Packing a colour and reading back its bytes gives the colour: red in
/// the lowest byte, alpha in the highest.
pub proof fn law_packed_colour_round_trips(rgba: [u8; 4])
    ensures
        byte_of(packed_rgba(rgba), 0) == rgba[0],
        byte_of(packed_rgba(rgba), 1) == rgba[1],
        byte_of(packed_rgba(rgba), 2) == rgba[2],
        byte_of(packed_rgba(rgba), 3) == rgba[3],
{
    let r = rgba[0];
    let g = rgba[1];
    let b = rgba[2];
    let a = rgba[3];
    assert(((((r as u32) | (g as u32) << 8u32 | (b as u32) << 16u32 | (a as u32) << 24u32) >> 0u32)
        & 0xffu32) as u8 == r && ((((r as u32) | (g as u32) << 8u32 | (b as u32) << 16u32 | (a as u32)
        << 24u32) >> 8u32) & 0xffu32) as u8 == g && ((((r as u32) | (g as u32) << 8u32 | (b as u32)
        << 16u32 | (a as u32) << 24u32) >> 16u32) & 0xffu32) as u8 == b && ((((r as u32) | (g as u32)
        << 8u32 | (b as u32) << 16u32 | (a as u32) << 24u32) >> 24u32) & 0xffu32) as u8 == a)
        by (bit_vector);
}

/// The overview picks a level that has useful tiles; when some level with
/// useful tiles fits the budget, the pick is the first such level.
pub proof fn law_chosen_lod_is_a_useful_candidate(lods: Seq<(u8, usize, usize)>, budget: usize)
    ensures
        chosen_lod(lods, budget, None) matches Some(l) ==> exists|i: int|
            0 <= i < lods.len() && lods[i].0 == l && lods[i].2 > 0,
        forall|i: int|
            0 <= i < lods.len() && lods[i].2 > 0 && lods[i].1 <= budget && (forall|j: int|
                0 <= j < i ==> !(lods[j].2 > 0 && lods[j].1 <= budget)) ==> chosen_lod(
                lods,
                budget,
                None,
            ) == Some(#[trigger] lods[i].0),
{
    assert(lods.skip(0) =~= lods);
    lemma_chosen_lod_from(lods, budget, None, 0);
}

proof fn lemma_chosen_lod_from(
    lods: Seq<(u8, usize, usize)>,
    budget: usize,
    fallback: Option<u8>,
    k: int,
)
    requires
        0 <= k <= lods.len(),
        fallback matches Some(f) ==> exists|i: int| 0 <= i < k && lods[i].0 == f && lods[i].2 > 0,
        forall|j: int| 0 <= j < k ==> !(lods[j].2 > 0 && lods[j].1 <= budget),
    ensures
        chosen_lod(lods.skip(k), budget, fallback) matches Some(l) ==> exists|i: int|
            0 <= i < lods.len() && lods[i].0 == l && lods[i].2 > 0,
        forall|i: int|
            k <= i < lods.len() && lods[i].2 > 0 && lods[i].1 <= budget && (forall|j: int|
                k <= j < i ==> !(lods[j].2 > 0 && lods[j].1 <= budget)) ==> chosen_lod(
                lods.skip(k),
                budget,
                fallback,
            ) == Some(#[trigger] lods[i].0),
    decreases lods.len() - k,
{
    if k < lods.len() {
        let s = lods.skip(k);
        assert(s[0] == lods[k]);
        assert(s.drop_first() =~= lods.skip(k + 1));
        let (lod, total, useful) = lods[k];
        if useful == 0 {
            lemma_chosen_lod_from(lods, budget, fallback, k + 1);
        } else if total <= budget {
        } else {
            lemma_chosen_lod_from(lods, budget, Some(lod), k + 1);
        }
    }
}


// ---------------------------------------------------------------------
// Rectangles
// ---------------------------------------------------------------------
/// The union of two rectangles holds both, and each of its edges is an
/// edge of one of them.
pub proof fn law_union_holds_both(a: Rect32, b: Rect32)
    ensures
        ({
            let u = spec_union_rect(a, b);
            &&& u.lx <= a.lx && u.lx <= b.lx && u.ly <= a.ly && u.ly <= b.ly
            &&& u.hx >= a.hx && u.hx >= b.hx && u.hy >= a.hy && u.hy >= b.hy
            &&& (u.lx == a.lx || u.lx == b.lx) && (u.ly == a.ly || u.ly == b.ly)
            &&& (u.hx == a.hx || u.hx == b.hx) && (u.hy == a.hy || u.hy == b.hy)
        }),
        spec_union_rect(a, b) == spec_union_rect(b, a),
{
}

/// The overlap of two rectangles holds exactly the points that both hold;
/// when there is none, no point is in both.
pub proof fn law_intersection_is_the_common_part(a: Rect32, b: Rect32, x: i32, y: i32)
    ensures
        match spec_intersect_rect(a, b) {
            Some(i) => (i.lx <= x <= i.hx && i.ly <= y <= i.hy) <==> (a.lx <= x <= a.hx && a.ly <= y
                <= a.hy && b.lx <= x <= b.hx && b.ly <= y <= b.hy),
            None => !(a.lx <= x <= a.hx && a.ly <= y <= a.hy && b.lx <= x <= b.hx && b.ly <= y <= b.hy),
        },
{
}

/// Moving a coordinate by `d` and back by `-d` gives it back when the move
/// did not saturate.
pub proof fn law_translation_undoes(c: i32, d: i32)
    requires
        d != i32::MIN,
        i32::MIN <= c + d <= i32::MAX,
    ensures
        sat_add_i32(sat_add_i32(c, d), (-d) as i32) == c,
{
}

// ---------------------------------------------------------------------
// Paths
// ---------------------------------------------------------------------
/// Paths compare as an equivalence: every path names itself, the
/// comparison is symmetric, and it is transitive.
pub proof fn law_path_comparison_is_an_equivalence(a: Seq<char>, b: Seq<char>, c: Seq<char>)
    ensures
        same_path(a, a),
        same_path(a, b) ==> same_path(b, a),
        same_path(a, b) && same_path(b, c) ==> same_path(a, c),
{
}

// ---------------------------------------------------------------------
// Tiles
// ---------------------------------------------------------------------
/// The tile `(tx, ty)` is in the list.
pub open spec fn has_tile(t: Seq<(i32, i32)>, tx: int, ty: int) -> bool {
    t.contains((tx as i32, ty as i32))
}

proof fn lemma_tile_columns(min_tx: int, end_tx: int, min_ty: int, max_ty: int)
    requires
        i32::MIN <= min_tx,
        end_tx - 1 <= i32::MAX,
        i32::MIN <= min_ty,
        max_ty <= i32::MAX,
    ensures
        ({
            let t = tile_columns(min_tx, end_tx, min_ty, max_ty);
            let ny: int = if max_ty >= min_ty {
                max_ty - min_ty + 1
            } else {
                0
            };
            &&& t.len() == (if end_tx > min_tx {
                end_tx - min_tx
            } else {
                0
            }) * ny
            &&& forall|k: int|
                0 <= k < t.len() ==> min_tx <= #[trigger] t[k].0 < end_tx && min_ty <= t[k].1 <= max_ty
            &&& forall|tx: int, ty: int|
                min_tx <= tx < end_tx && min_ty <= ty <= max_ty ==> #[trigger] has_tile(t, tx, ty)
        }),
    decreases end_tx - min_tx,
{
    let ny: int = if max_ty >= min_ty {
        max_ty - min_ty + 1
    } else {
        0
    };
    if end_tx > min_tx {
        lemma_tile_columns(min_tx, end_tx - 1, min_ty, max_ty);
        let prev = tile_columns(min_tx, end_tx - 1, min_ty, max_ty);
        let col = tile_column(end_tx - 1, min_ty, ny as nat);
        let t = tile_columns(min_tx, end_tx, min_ty, max_ty);
        assert(t == prev + col);
        let w = end_tx - min_tx;
        assert(prev.len() == (w - 1) * ny);
        assert((w - 1) * ny + ny == w * ny) by (nonlinear_arith);
        assert forall|k: int| 0 <= k < t.len() implies min_tx <= #[trigger] t[k].0 < end_tx && min_ty
            <= t[k].1 <= max_ty by {
            if k < prev.len() {
                assert(t[k] == prev[k]);
            } else {
                assert(t[k] == col[k - prev.len()]);
            }
        }
        assert forall|tx: int, ty: int|
            min_tx <= tx < end_tx && min_ty <= ty <= max_ty implies #[trigger] has_tile(t, tx, ty) by {
            if tx < end_tx - 1 {
                assert(has_tile(prev, tx, ty));
                let k = choose|k: int| 0 <= k < prev.len() && prev[k] == (tx as i32, ty as i32);
                assert(t[k] == prev[k]);
            } else {
                let j = ty - min_ty;
                assert(col[j] == (tx as i32, ty as i32));
                assert(t[prev.len() + j] == col[j]);
            }
        }
    }
}

/// For a positive tile size, the tiles of a box are exactly the pairs of a
/// column from the one of `lx` to the one of `hx` and a row from the one
/// of `ly` to the one of `hy`; there are as many as columns times rows.
pub proof fn law_tiles_cover_the_box(bbox: Rect32, tile_size: i32)
    requires
        tile_size > 0,
    ensures
        ({
            let t = tiles_for_bbox(bbox, tile_size);
            let x0 = tile_index(bbox.lx, tile_size);
            let x1 = tile_index(bbox.hx, tile_size);
            let y0 = tile_index(bbox.ly, tile_size);
            let y1 = tile_index(bbox.hy, tile_size);
            &&& t.len() == (if x1 >= x0 {
                x1 - x0 + 1
            } else {
                0
            }) * (if y1 >= y0 {
                y1 - y0 + 1
            } else {
                0
            })
            &&& forall|k: int|
                0 <= k < t.len() ==> x0 <= #[trigger] t[k].0 <= x1 && y0 <= t[k].1 <= y1
            &&& forall|tx: int, ty: int|
                x0 <= tx <= x1 && y0 <= ty <= y1 ==> #[trigger] has_tile(t, tx, ty)
        }),
{
    lemma_tile_index_in_range(bbox.lx, tile_size);
    lemma_tile_index_in_range(bbox.hx, tile_size);
    lemma_tile_index_in_range(bbox.ly, tile_size);
    lemma_tile_index_in_range(bbox.hy, tile_size);
    lemma_tile_columns(
        tile_index(bbox.lx, tile_size),
        tile_index(bbox.hx, tile_size) + 1,
        tile_index(bbox.ly, tile_size),
        tile_index(bbox.hy, tile_size),
    );
}

// ---------------------------------------------------------------------
// Microns
// ---------------------------------------------------------------------
proof fn lemma_shift_of_multiple(k: nat, d: nat, s: nat)
    requires
        d > 0,
    ensures
        round_half_even(k * d * two_pow(s), d) == k * two_pow(s),
        round_half_even(1000 * (k * two_pow(s)), two_pow(s)) == 1000 * k,
{
    lemma_two_pow_positive(s);
    let p = two_pow(s);
    assert(k * d * p == d * (k * p)) by (nonlinear_arith);
    vstd::arithmetic::div_mod::lemma_div_multiples_vanish((k * p) as int, d as int);
    vstd::arithmetic::div_mod::lemma_mod_multiples_basic((k * p) as int, d as int);
    assert((k * p) * d == d * (k * p)) by (nonlinear_arith);
    assert(1000 * (k * p) == p * (1000 * k)) by (nonlinear_arith);
    vstd::arithmetic::div_mod::lemma_div_multiples_vanish((1000 * k) as int, p as int);
    vstd::arithmetic::div_mod::lemma_mod_multiples_basic((1000 * k) as int, p as int);
    assert((1000 * k) * p == p * (1000 * k)) by (nonlinear_arith);
}

proof fn lemma_two_pow_positive(s: nat)
    ensures
        two_pow(s) > 0,
    decreases s,
{
    if s > 0 {
        lemma_two_pow_positive((s - 1) as nat);
    }
}

/// A whole number of microns is printed with three zero decimals: the
/// quotient of `k * d` units by `d` units per micron is exactly `k`.
pub proof fn law_whole_microns_are_exact(k: nat, d: nat)
    requires
        d > 0,
    ensures
        quotient_thousandths(k * d, d) == 1000 * k,
{
    if k * d == 0 {
        assert(k == 0) by (nonlinear_arith)
            requires
                k * d == 0,
                d > 0,
        ;
    } else {
        lemma_shift_of_multiple(k, d, significand_shift(k * d, d, 0));
    }
}

// ---------------------------------------------------------------------
// Merging counts
// ---------------------------------------------------------------------
proof fn lemma_insert_if_absent_keeps(t: LayerCountsView, k: Seq<char>, v: usize, l: Seq<char>)
    ensures
        assoc_get(t, l) is Some ==> assoc_get(assoc_insert_if_absent(t, k, v), l) == assoc_get(t, l),
        assoc_get(assoc_insert_if_absent(t, k, v), l) is Some <==> (assoc_get(t, l) is Some || l == k),
{
    lemma_insert_get(t, k, v, l);
}

proof fn lemma_insert_all_keeps(t: LayerCountsView, s: LayerCountsView, l: Seq<char>)
    ensures
        assoc_get(t, l) is Some ==> assoc_get(insert_all_if_absent(t, s), l) == assoc_get(t, l),
    decreases s.len(),
{
    if s.len() > 0 {
        lemma_insert_all_keeps(t, s.drop_last(), l);
        lemma_insert_if_absent_keeps(insert_all_if_absent(t, s.drop_last()), s.last().0, s.last().1, l);
    }
}

/// Merging counts from another source never changes what the target
/// already knows: a type with a nonzero total keeps it, and every layer
/// count of a type stays.
pub proof fn law_merge_keeps_known_counts(
    target: Seq<(Seq<char>, CountsView)>,
    source: Seq<(Seq<char>, CountsView)>,
    k: Seq<char>,
    l: Seq<char>,
)
    ensures
        assoc_get(target, k) matches Some(c) ==> {
            &&& assoc_get(merge_counts(target, source), k) matches Some(m)
            &&& (c.0 > 0 ==> m.0 == c.0)
            &&& (assoc_get(c.1, l) is Some ==> assoc_get(m.1, l) == assoc_get(c.1, l))
        },
    decreases source.len(),
{
    if source.len() > 0 {
        law_merge_keeps_known_counts(target, source.drop_last(), k, l);
        let prev = merge_counts(target, source.drop_last());
        let key = source.last().0;
        let merged = merge_one(assoc_get(prev, key), source.last().1);
        lemma_insert_get(prev, key, merged, k);
        if key == k {
            if let Some(m) = assoc_get(prev, k) {
                lemma_insert_all_keeps(m.1, source.last().1.1, l);
            }
        }
    }
}

// ---------------------------------------------------------------------
// Heat maps
// ---------------------------------------------------------------------
proof fn lemma_half_brackets(x: int)
    ensures
        x - 1 <= 2 * half_towards_zero(x) <= x + 1,
{
}

/// The view that keeps context around a selected map cell shows the whole
/// cell.
pub proof fn law_focus_keeps_the_cell_in_view(b: Rect32)
    requires
        b.lx <= b.hx,
        b.ly <= b.hy,
    ensures
        focus_box(b).lx <= b.lx,
        focus_box(b).ly <= b.ly,
        b.hx <= focus_box(b).hx,
        b.hy <= focus_box(b).hy,
{
    lemma_half_brackets(b.lx + b.hx);
    lemma_half_brackets(b.ly + b.hy);
}

/// Reading a layout table, the last valid record read for a cell gives
/// that cell's box.
pub proof fn law_last_layout_record_wins(
    path: Seq<char>,
    records: Seq<Result<LayoutRecord, String>>,
    rec: LayoutRecord,
)
    requires
        layout_cells(path, records) is Ok,
        record_valid(rec),
    ensures
        layout_cells(path, records.push(Ok(rec))) matches Ok(m) && cell_at(
            m,
            record_key(rec, is_egr_path(path)),
        ) == Some(record_rect(rec)),
{
    assert(records.push(Ok(rec)).drop_last() =~= records);
}

// ---------------------------------------------------------------------
// Layer switches
// ---------------------------------------------------------------------
/// Flipping every layer's switch twice gives the layers back.
pub proof fn law_inverting_twice_restores_layers(layers: Seq<LayerUiState>)
    ensures
        inverted(inverted(layers)) == layers,
{
    assert(inverted(inverted(layers)) =~= layers);
}

/// After flipping every switch, the layers on are exactly those that were
/// off.
pub proof fn law_inverting_counts_the_other_layers(layers: Seq<LayerUiState>)
    ensures
        visible_count(inverted(layers)) + visible_count(layers) == layers.len(),
    decreases layers.len(),
{
    if layers.len() > 0 {
        law_inverting_counts_the_other_layers(layers.drop_last());
        assert(inverted(layers).drop_last() =~= inverted(layers.drop_last()));
    }
}


// ---------------------------------------------------------------------
// Shape styles
// ---------------------------------------------------------------------
/// Outside the layout-geometry layer, every owner but an IO pin keeps its
/// layer's colour: fill and frame both take the layer's fill colour.
pub proof fn law_owner_styles_keep_the_layer_colour(style: LayerStyle, owner_type: OwnerType)
    requires
        style.layer_id != LAYOUT_GEOMETRY_LAYER,
        owner_type != OwnerType::IoPinPortShape,
    ensures
        shape_look(style@, Some(owner_type)).rgba.take(3) == style@.rgba.take(3),
        shape_look(style@, Some(owner_type)).frame_rgba.take(3) == style@.rgba.take(3),
{
    let s = style@;
    let r = shape_look(s, Some(owner_type));
    assert(s.rgba.len() == 4);
    assert(r.rgba.take(3) =~= s.rgba.take(3));
    assert(r.frame_rgba.take(3) =~= s.rgba.take(3));
}

/// On the layout-geometry layer every shape is painted in translucent
/// grey, whatever its owner, with its alphas kept under the layer's limits.
pub proof fn law_layout_geometry_is_translucent_gray(style: LayerStyle, owner_type: Option<OwnerType>)
    requires
        style.layer_id == LAYOUT_GEOMETRY_LAYER,
    ensures
        shape_look(style@, owner_type).rgba.take(3) == seq![
            LAYOUT_GEOMETRY_GRAY,
            LAYOUT_GEOMETRY_GRAY,
            LAYOUT_GEOMETRY_GRAY,
        ],
        shape_look(style@, owner_type).frame_rgba.take(3) == seq![
            LAYOUT_GEOMETRY_GRAY,
            LAYOUT_GEOMETRY_GRAY,
            LAYOUT_GEOMETRY_GRAY,
        ],
        shape_look(style@, owner_type).fill_alpha <= LAYOUT_GEOMETRY_MAX_FILL_ALPHA,
        shape_look(style@, owner_type).frame_alpha <= LAYOUT_GEOMETRY_MAX_FRAME_ALPHA,
        shape_look(style@, owner_type).rgba[3] == shape_look(style@, owner_type).fill_alpha,
        shape_look(style@, owner_type).frame_rgba[3] == shape_look(style@, owner_type).frame_alpha,
{
    let r = shape_look(style@, owner_type);
    assert(r.rgba.take(3) =~= seq![LAYOUT_GEOMETRY_GRAY, LAYOUT_GEOMETRY_GRAY, LAYOUT_GEOMETRY_GRAY]);
    assert(r.frame_rgba.take(3) =~= seq![
        LAYOUT_GEOMETRY_GRAY,
        LAYOUT_GEOMETRY_GRAY,
        LAYOUT_GEOMETRY_GRAY,
    ]);
}

/// No two layers share an identifier.
pub open spec fn distinct_layer_ids(layers: Seq<LayerUiState>) -> bool {
    forall|a: int, b: int|
        0 <= a < b < layers.len() ==> #[trigger] layers[a].layer_id != #[trigger] layers[b].layer_id
}

proof fn lemma_switch_of_listed_layer(layers: Seq<LayerUiState>, id: u16)
    requires
        distinct_layer_ids(layers),
    ensures
        forall|j: int|
            0 <= j < layers.len() && #[trigger] layers[j].layer_id == id ==> layer_switches(
                layers,
            ).contains_key(id) && layer_switches(layers)[id] == layers[j].visible,
        (forall|j: int| 0 <= j < layers.len() ==> #[trigger] layers[j].layer_id != id)
            ==> !layer_switches(layers).contains_key(id),
    decreases layers.len(),
{
    if layers.len() > 0 {
        let rest = layers.drop_last();
        assert(distinct_layer_ids(rest)) by {
            assert forall|a: int, b: int| 0 <= a < b < rest.len() implies #[trigger] rest[a].layer_id
                != #[trigger] rest[b].layer_id by {
                assert(rest[a] == layers[a] && rest[b] == layers[b]);
            }
        }
        lemma_switch_of_listed_layer(rest, id);
        assert forall|j: int|
            0 <= j < layers.len() && #[trigger] layers[j].layer_id == id implies layer_switches(
                layers,
            ).contains_key(id) && layer_switches(layers)[id] == layers[j].visible by {
            if j < layers.len() - 1 {
                assert(rest[j] == layers[j]);
                assert(layers[layers.len() - 1].layer_id != layers[j].layer_id);
            }
        }
        if forall|j: int| 0 <= j < layers.len() ==> #[trigger] layers[j].layer_id != id {
            assert forall|j: int| 0 <= j < rest.len() implies #[trigger] rest[j].layer_id != id by {
                assert(rest[j] == layers[j]);
            }
            assert(layers[layers.len() - 1].layer_id != id);
        }
    }
}

proof fn lemma_first_switch_of_listed_layer(layers: Seq<LayerUiState>, id: u16)
    requires
        distinct_layer_ids(layers),
    ensures
        forall|j: int|
            0 <= j < layers.len() && #[trigger] layers[j].layer_id == id ==> layer_id_visible(
                layers,
                id,
            ) == layers[j].visible,
        (forall|j: int| 0 <= j < layers.len() ==> #[trigger] layers[j].layer_id != id)
            ==> !layer_id_visible(layers, id),
    decreases layers.len(),
{
    if layers.len() > 0 {
        let rest = layers.drop_first();
        assert(distinct_layer_ids(rest)) by {
            assert forall|a: int, b: int| 0 <= a < b < rest.len() implies #[trigger] rest[a].layer_id
                != #[trigger] rest[b].layer_id by {
                assert(rest[a] == layers[a + 1] && rest[b] == layers[b + 1]);
            }
        }
        lemma_first_switch_of_listed_layer(rest, id);
        assert forall|j: int|
            0 <= j < layers.len() && #[trigger] layers[j].layer_id == id implies layer_id_visible(
                layers,
                id,
            ) == layers[j].visible by {
            if j > 0 {
                assert(rest[j - 1] == layers[j]);
                assert(layers[0].layer_id != layers[j].layer_id);
            }
        }
        if forall|j: int| 0 <= j < layers.len() ==> #[trigger] layers[j].layer_id != id {
            assert forall|j: int| 0 <= j < rest.len() implies #[trigger] rest[j].layer_id != id by {
                assert(rest[j] == layers[j + 1]);
            }
            assert(layers[0].layer_id != id);
        }
    }
}

/// When no two layers share an identifier, the canvas's layer index
/// decides a shape's visibility exactly as the side panel's layer list
/// does.
pub proof fn law_indexed_visibility_matches_the_layer_list(
    layers: Seq<LayerUiState>,
    layer_id: u16,
    owner_type: Option<OwnerType>,
    category: Option<DrawingCategory>,
    visibility: ObjectVisibility,
)
    requires
        distinct_layer_ids(layers),
    ensures
        indexed_shown(
            layer_id,
            owner_type,
            category,
            layer_switches(layers).insert(LAYOUT_GEOMETRY_LAYER, true),
            visibility,
        ) == shape_shown(layer_id, owner_type, category, layers, visibility),
{
    lemma_switch_of_listed_layer(layers, layer_id);
    lemma_first_switch_of_listed_layer(layers, layer_id);
    if exists|j: int| 0 <= j < layers.len() && #[trigger] layers[j].layer_id == layer_id {
        let j = choose|j: int| 0 <= j < layers.len() && #[trigger] layers[j].layer_id == layer_id;
        assert(layers[j].layer_id == layer_id);
    }
}

// ---------------------------------------------------------------------
// Overview level of detail
// ---------------------------------------------------------------------
/// The candidate has useful tiles and fits the budget.
pub open spec fn lod_fits(lods: Seq<(u8, usize, usize)>, budget: usize, i: int) -> bool {
    lods[i].2 > 0 && lods[i].1 <= budget
}

proof fn lemma_chosen_lod_suffix(
    lods: Seq<(u8, usize, usize)>,
    budget: usize,
    fallback: Option<u8>,
    k: int,
)
    requires
        0 <= k <= lods.len(),
    ensures
        (chosen_lod(lods.skip(k), budget, fallback) is None) <==> (fallback is None && forall|j: int|
            k <= j < lods.len() ==> #[trigger] lods[j].2 == 0),
        (forall|j: int| k <= j < lods.len() ==> !lod_fits(lods, budget, j)) ==> {
            &&& (forall|j: int| k <= j < lods.len() ==> #[trigger] lods[j].2 == 0) ==> chosen_lod(
                lods.skip(k),
                budget,
                fallback,
            ) == fallback
            &&& forall|i: int|
                k <= i < lods.len() && #[trigger] lods[i].2 > 0 && (forall|j: int|
                    i < j < lods.len() ==> #[trigger] lods[j].2 == 0) ==> chosen_lod(
                    lods.skip(k),
                    budget,
                    fallback,
                ) == Some(lods[i].0)
        },
    decreases lods.len() - k,
{
    if k < lods.len() {
        let rest = lods.skip(k);
        assert(rest[0] == lods[k]);
        assert(rest.drop_first() =~= lods.skip(k + 1));
        let (lod, total, useful) = lods[k];
        if useful == 0 {
            lemma_chosen_lod_suffix(lods, budget, fallback, k + 1);
        } else if total <= budget {
            assert(lod_fits(lods, budget, k));
        } else {
            lemma_chosen_lod_suffix(lods, budget, Some(lod), k + 1);
            lemma_chosen_lod_suffix(lods, budget, fallback, k + 1);
        }
    } else {
        assert(lods.skip(k) =~= Seq::<(u8, usize, usize)>::empty());
    }
}

/// The overview's level: the first candidate with useful tiles that fits
/// the budget; when none fits, the last candidate with useful tiles; and
/// no level exactly when no candidate has useful tiles.
pub proof fn law_overview_lod_first_fit_else_last_useful(lods: Seq<(u8, usize, usize)>, budget: usize)
    ensures
        forall|i: int|
            0 <= i < lods.len() && lod_fits(lods, budget, i) && (forall|j: int|
                0 <= j < i ==> !lod_fits(lods, budget, j)) ==> chosen_lod(lods, budget, None)
                == Some(#[trigger] lods[i].0),
        (forall|j: int| 0 <= j < lods.len() ==> !lod_fits(lods, budget, j)) ==> forall|i: int|
            0 <= i < lods.len() && #[trigger] lods[i].2 > 0 && (forall|j: int|
                i < j < lods.len() ==> #[trigger] lods[j].2 == 0) ==> chosen_lod(lods, budget, None)
                == Some(lods[i].0),
        (chosen_lod(lods, budget, None) is None) <==> forall|j: int|
            0 <= j < lods.len() ==> #[trigger] lods[j].2 == 0,
{
    assert(lods.skip(0) =~= lods);
    lemma_chosen_lod_suffix(lods, budget, None, 0);
    law_chosen_lod_is_a_useful_candidate(lods, budget);
    assert forall|i: int|
        0 <= i < lods.len() && lod_fits(lods, budget, i) && (forall|j: int|
            0 <= j < i ==> !lod_fits(lods, budget, j)) implies chosen_lod(lods, budget, None)
        == Some(#[trigger] lods[i].0) by {
        assert forall|j: int| 0 <= j < i implies !(lods[j].2 > 0 && lods[j].1 <= budget) by {
            assert(!lod_fits(lods, budget, j));
        }
        assert(lods[i].2 > 0 && lods[i].1 <= budget);
    }
}

// ---------------------------------------------------------------------
// Merged layer counts, tile order, peak stepping
// ---------------------------------------------------------------------
proof fn lemma_get_push_counts(s: LayerCountsView, x: (Seq<char>, usize), k: Seq<char>)
    ensures
        assoc_get(s.push(x), k) == if assoc_get(s, k) is Some {
            assoc_get(s, k)
        } else if x.0 == k {
            Some(x.1)
        } else {
            None
        },
    decreases s.len(),
{
    if s.len() > 0 {
        assert(s.push(x).drop_first() =~= s.drop_first().push(x));
        assert(s.push(x)[0] == s[0]);
        if s[0].0 != k {
            lemma_get_push_counts(s.drop_first(), x, k);
            assert(assoc_get(s.push(x), k) == assoc_get(s.push(x).drop_first(), k));
            assert(assoc_get(s, k) == assoc_get(s.drop_first(), k));
        }
    } else {
        assert(s.push(x)[0] == x);
    }
}

/// Adding the layers a source has and the target lacks: a layer the
/// target has keeps the target's count; any other layer takes the source's
/// count; so the layers are those of either.
pub proof fn law_merged_layers_prefer_the_target(t: LayerCountsView, s: LayerCountsView, l: Seq<char>)
    ensures
        assoc_get(insert_all_if_absent(t, s), l) == if assoc_get(t, l) is Some {
            assoc_get(t, l)
        } else {
            assoc_get(s, l)
        },
    decreases s.len(),
{
    if s.len() > 0 {
        let rest = s.drop_last();
        law_merged_layers_prefer_the_target(t, rest, l);
        let prev = insert_all_if_absent(t, rest);
        lemma_insert_if_absent_keeps(prev, s.last().0, s.last().1, l);
        lemma_insert_get(prev, s.last().0, s.last().1, l);
        assert(rest.push(s.last()) =~= s);
        lemma_get_push_counts(rest, s.last(), l);
    }
}

proof fn lemma_tile_columns_ordered(min_tx: int, end_tx: int, min_ty: int, max_ty: int)
    requires
        i32::MIN <= min_tx,
        end_tx - 1 <= i32::MAX,
        i32::MIN <= min_ty,
        max_ty <= i32::MAX,
    ensures
        forall|a: int, b: int|
            0 <= a < b < tile_columns(min_tx, end_tx, min_ty, max_ty).len() ==> (#[trigger] tile_columns(
                min_tx,
                end_tx,
                min_ty,
                max_ty,
            )[a]).0 < (#[trigger] tile_columns(min_tx, end_tx, min_ty, max_ty)[b]).0 || (tile_columns(
                min_tx,
                end_tx,
                min_ty,
                max_ty,
            )[a].0 == tile_columns(min_tx, end_tx, min_ty, max_ty)[b].0 && tile_columns(
                min_tx,
                end_tx,
                min_ty,
                max_ty,
            )[a].1 < tile_columns(min_tx, end_tx, min_ty, max_ty)[b].1),
    decreases end_tx - min_tx,
{
    if end_tx > min_tx {
        lemma_tile_columns_ordered(min_tx, end_tx - 1, min_ty, max_ty);
        lemma_tile_columns(min_tx, end_tx - 1, min_ty, max_ty);
        let ny: int = if max_ty >= min_ty {
            max_ty - min_ty + 1
        } else {
            0
        };
        let prev = tile_columns(min_tx, end_tx - 1, min_ty, max_ty);
        let col = tile_column(end_tx - 1, min_ty, ny as nat);
        let t = tile_columns(min_tx, end_tx, min_ty, max_ty);
        assert(t == prev + col);
        assert forall|a: int, b: int| 0 <= a < b < t.len() implies (#[trigger] t[a]).0 < (
        #[trigger] t[b]).0 || (t[a].0 == t[b].0 && t[a].1 < t[b].1) by {
            if b < prev.len() {
                assert(t[a] == prev[a] && t[b] == prev[b]);
            } else if a < prev.len() {
                assert(t[a] == prev[a]);
                assert(t[b] == col[b - prev.len()]);
                assert(prev[a].0 < end_tx - 1);
            } else {
                assert(t[a] == col[a - prev.len()]);
                assert(t[b] == col[b - prev.len()]);
            }
        }
    }
}

/// The tiles of a box come column by column, each column from its lowest
/// row up, every tile once; a tile size that is not positive gives the
/// single tile `(0, 0)`.
pub proof fn law_tiles_come_column_by_column(bbox: Rect32, tile_size: i32)
    ensures
        tile_size <= 0 ==> tiles_for_bbox(bbox, tile_size) == seq![(0i32, 0i32)],
        tile_size > 0 ==> forall|a: int, b: int|
            0 <= a < b < tiles_for_bbox(bbox, tile_size).len() ==> (#[trigger] tiles_for_bbox(
                bbox,
                tile_size,
            )[a]).0 < (#[trigger] tiles_for_bbox(bbox, tile_size)[b]).0 || (tiles_for_bbox(
                bbox,
                tile_size,
            )[a].0 == tiles_for_bbox(bbox, tile_size)[b].0 && tiles_for_bbox(bbox, tile_size)[a].1
                < tiles_for_bbox(bbox, tile_size)[b].1),
{
    if tile_size > 0 {
        lemma_tile_index_in_range(bbox.lx, tile_size);
        lemma_tile_index_in_range(bbox.hx, tile_size);
        lemma_tile_index_in_range(bbox.ly, tile_size);
        lemma_tile_index_in_range(bbox.hy, tile_size);
        lemma_tile_columns_ordered(
            tile_index(bbox.lx, tile_size),
            tile_index(bbox.hx, tile_size) + 1,
            tile_index(bbox.ly, tile_size),
            tile_index(bbox.hy, tile_size),
        );
    }
}

/// Stepping through peaks: from a peak, the next is the one after its
/// first place in the list, the last wrapping round to the first; from no
/// peak, or from a cell that is not a peak, the first peak; without peaks,
/// none.
pub proof fn law_peaks_step_from_first_place(
    peaks: Seq<(usize, usize)>,
    current: Option<(usize, usize)>,
    i: int,
)
    ensures
        peaks.len() == 0 ==> next_peak(peaks, current) is None,
        0 <= i < peaks.len() && current == Some(peaks[i]) && (forall|j: int|
            0 <= j < i ==> peaks[j] != peaks[i]) ==> next_peak(peaks, current) == Some(
            peaks[(i + 1) % (peaks.len() as int)],
        ),
        peaks.len() > 0 && (current is None || (forall|j: int|
            0 <= j < peaks.len() ==> Some(#[trigger] peaks[j]) != current)) ==> next_peak(
            peaks,
            current,
        ) == Some(peaks[0]),
{
    if 0 <= i < peaks.len() && current == Some(peaks[i]) && (forall|j: int|
        0 <= j < i ==> peaks[j] != peaks[i]) {
        let c = peaks[i];
        assert(first_at(peaks, c, i));
        let k = choose|k: int| first_at(peaks, c, k);
        assert(first_at(peaks, c, k));
        assert(k == i);
    }
    if let Some(c) = current {
        if peaks.len() > 0 && (forall|j: int|
            0 <= j < peaks.len() ==> Some(#[trigger] peaks[j]) != current) {
            assert(!exists|k: int| first_at(peaks, c, k)) by {
                if exists|k: int| first_at(peaks, c, k) {
                    let k = choose|k: int| first_at(peaks, c, k);
                    assert(Some(peaks[k]) == current);
                }
            }
        }
    }
}

} // verus!
