//! Properties of what the canvas picks, counts and queries: the instance
//! box a drag starts on, the shapes the drawing-data switches show, and the
//! layers a render query asks for.

use vstd::prelude::*;
use crate::census::{CategoryCounts, categorised, count_in};
use crate::geometry::Point32;
use crate::layers::{query_layer_wanted, LayerUiState};
use crate::selection::{topmost_editable, OwnerRef, ShapeRecord};
use crate::visibility::{
    DrawingCategory, ObjectVisibility, OwnerType, all_categories, category_visible,
    needs_layout_layer, owner_type_of_raw, LAYOUT_GEOMETRY_LAYER,
};

verus! {

// ---------------------------------------------------------------------
// Picking an instance box
// ---------------------------------------------------------------------
/// Picking the instance box under a point: when something is picked, it is
/// a candidate that is alive, a rectangle, owned by an instance bounding box
/// and whose box holds the point (edges included), and no later candidate
/// is one; when nothing is picked, no candidate is one.
pub proof fn law_pick_is_the_last_instance_box_under_the_point(
    candidates: Seq<(ShapeRecord, OwnerRef)>,
    point: Point32,
)
    ensures
        match topmost_editable(candidates, point) {
            Some(id) => exists|i: int|
                0 <= i < candidates.len() && (#[trigger] candidates[i]).0.id == id
                    && candidates[i].0.state == 1 && candidates[i].0.kind == 1 && owner_type_of_raw(
                    candidates[i].1.owner_type,
                ) == Some(OwnerType::InstanceBBox) && candidates[i].0.bbox.lx <= point.x
                    <= candidates[i].0.bbox.hx && candidates[i].0.bbox.ly <= point.y
                    <= candidates[i].0.bbox.hy && forall|j: int|
                    i < j < candidates.len() ==> !(#[trigger] candidates[j].0.state == 1
                        && candidates[j].0.kind == 1 && owner_type_of_raw(candidates[j].1.owner_type)
                        == Some(OwnerType::InstanceBBox) && candidates[j].0.bbox.lx <= point.x
                        <= candidates[j].0.bbox.hx && candidates[j].0.bbox.ly <= point.y
                        <= candidates[j].0.bbox.hy),
            None => forall|i: int|
                0 <= i < candidates.len() ==> !(#[trigger] candidates[i].0.state == 1
                    && candidates[i].0.kind == 1 && owner_type_of_raw(candidates[i].1.owner_type)
                    == Some(OwnerType::InstanceBBox) && candidates[i].0.bbox.lx <= point.x
                    <= candidates[i].0.bbox.hx && candidates[i].0.bbox.ly <= point.y
                    <= candidates[i].0.bbox.hy),
        },
    decreases candidates.len(),
{
    if candidates.len() > 0 {
        let rest = candidates.drop_last();
        let n = candidates.len() - 1;
        law_pick_is_the_last_instance_box_under_the_point(rest, point);
        assert(candidates[n] == candidates.last());
        assert forall|i: int| 0 <= i < rest.len() implies rest[i] == candidates[i] by {}
        match topmost_editable(rest, point) {
            Some(id) => {
                if topmost_editable(candidates, point) == Some(id) && topmost_editable(candidates, point)
                    != Some(candidates.last().0.id) {
                    let i = choose|i: int|
                        0 <= i < rest.len() && (#[trigger] rest[i]).0.id == id && rest[i].0.state == 1
                            && rest[i].0.kind == 1 && owner_type_of_raw(rest[i].1.owner_type) == Some(
                            OwnerType::InstanceBBox,
                        ) && rest[i].0.bbox.lx <= point.x <= rest[i].0.bbox.hx && rest[i].0.bbox.ly
                            <= point.y <= rest[i].0.bbox.hy && forall|j: int|
                            i < j < rest.len() ==> !(#[trigger] rest[j].0.state == 1
                                && rest[j].0.kind == 1 && owner_type_of_raw(rest[j].1.owner_type)
                                == Some(OwnerType::InstanceBBox) && rest[j].0.bbox.lx <= point.x
                                <= rest[j].0.bbox.hx && rest[j].0.bbox.ly <= point.y
                                <= rest[j].0.bbox.hy);
                    assert(candidates[i] == rest[i]);
                    assert forall|j: int| i < j < candidates.len() implies !(
                    #[trigger] candidates[j].0.state == 1 && candidates[j].0.kind == 1
                        && owner_type_of_raw(candidates[j].1.owner_type) == Some(OwnerType::InstanceBBox)
                        && candidates[j].0.bbox.lx <= point.x <= candidates[j].0.bbox.hx
                        && candidates[j].0.bbox.ly <= point.y <= candidates[j].0.bbox.hy) by {
                        if j < n {
                            assert(candidates[j] == rest[j]);
                        }
                    }
                }
            },
            None => {
                assert forall|i: int| 0 <= i < n implies !(#[trigger] candidates[i].0.state == 1
                    && candidates[i].0.kind == 1 && owner_type_of_raw(candidates[i].1.owner_type)
                    == Some(OwnerType::InstanceBBox) && candidates[i].0.bbox.lx <= point.x
                    <= candidates[i].0.bbox.hx && candidates[i].0.bbox.ly <= point.y
                    <= candidates[i].0.bbox.hy) by {
                    assert(candidates[i] == rest[i]);
                }
            },
        }
    }
}

// ---------------------------------------------------------------------
// Shapes the switches show
// ---------------------------------------------------------------------
/// A category's shapes when its switch is on, else none.
pub open spec fn shown_of(counts: CategoryCounts, v: ObjectVisibility, c: DrawingCategory) -> nat {
    if category_visible(v, c) {
        counts.count_of(c)
    } else {
        0
    }
}

/// The shapes the switches show are the shapes of every one of the
/// fourteen drawing categories whose switch is on, summed.
pub proof fn law_visible_count_sums_every_switched_on_category(
    counts: CategoryCounts,
    v: ObjectVisibility,
)
    ensures
        counts.shown_total(v) == shown_of(counts, v, DrawingCategory::Instances) + shown_of(
            counts,
            v,
            DrawingCategory::NetSignal,
        ) + shown_of(counts, v, DrawingCategory::NetClock) + shown_of(
            counts,
            v,
            DrawingCategory::NetOther,
        ) + shown_of(counts, v, DrawingCategory::Pdn) + shown_of(counts, v, DrawingCategory::Vias)
            + shown_of(counts, v, DrawingCategory::IoPins) + shown_of(
            counts,
            v,
            DrawingCategory::Placement,
        ) + shown_of(counts, v, DrawingCategory::Tracks) + shown_of(
            counts,
            v,
            DrawingCategory::GCells,
        ) + shown_of(counts, v, DrawingCategory::Obstructions) + shown_of(
            counts,
            v,
            DrawingCategory::Boundaries,
        ) + shown_of(counts, v, DrawingCategory::Fill) + shown_of(
            counts,
            v,
            DrawingCategory::Regions,
        ),
{
    reveal_with_fuel(crate::census::shown_sum, 15);
    assert(all_categories()[0] == DrawingCategory::Instances);
    assert(all_categories()[13] == DrawingCategory::Regions);
}

/// The fourteen categories' shares of the shapes add up to the shapes that
/// have a category.
proof fn lemma_categories_partition(cats: Seq<Option<DrawingCategory>>)
    ensures
        count_in(cats, DrawingCategory::Instances) + count_in(cats, DrawingCategory::NetSignal)
            + count_in(cats, DrawingCategory::NetClock) + count_in(cats, DrawingCategory::NetOther)
            + count_in(cats, DrawingCategory::Pdn) + count_in(cats, DrawingCategory::Vias) + count_in(
            cats,
            DrawingCategory::IoPins,
        ) + count_in(cats, DrawingCategory::Placement) + count_in(cats, DrawingCategory::Tracks)
            + count_in(cats, DrawingCategory::GCells) + count_in(cats, DrawingCategory::Obstructions)
            + count_in(cats, DrawingCategory::Boundaries) + count_in(cats, DrawingCategory::Fill)
            + count_in(cats, DrawingCategory::Regions) == categorised(cats),
    decreases cats.len(),
{
    if cats.len() > 0 {
        lemma_categories_partition(cats.drop_last());
        match cats.last() {
            Some(DrawingCategory::Instances) => {},
            Some(DrawingCategory::NetSignal) => {},
            Some(DrawingCategory::NetClock) => {},
            Some(DrawingCategory::NetOther) => {},
            Some(DrawingCategory::Pdn) => {},
            Some(DrawingCategory::Vias) => {},
            Some(DrawingCategory::IoPins) => {},
            Some(DrawingCategory::Placement) => {},
            Some(DrawingCategory::Tracks) => {},
            Some(DrawingCategory::GCells) => {},
            Some(DrawingCategory::Obstructions) => {},
            Some(DrawingCategory::Boundaries) => {},
            Some(DrawingCategory::Fill) => {},
            Some(DrawingCategory::Regions) => {},
            None => {},
        }
    }
}

/// With every switch on, the switches show every shape that has a
/// category, given counts made from the shapes' categories.
pub proof fn law_all_switches_show_every_categorised_shape(
    counts: CategoryCounts,
    cats: Seq<Option<DrawingCategory>>,
    v: ObjectVisibility,
)
    requires
        forall|c: DrawingCategory| #[trigger] counts.count_of(c) == count_in(cats, c),
        forall|c: DrawingCategory| #[trigger] category_visible(v, c),
    ensures
        counts.shown_total(v) == categorised(cats),
{
    law_visible_count_sums_every_switched_on_category(counts, v);
    lemma_categories_partition(cats);
    assert(category_visible(v, DrawingCategory::Instances));
    assert(category_visible(v, DrawingCategory::NetSignal));
    assert(category_visible(v, DrawingCategory::NetClock));
    assert(category_visible(v, DrawingCategory::NetOther));
    assert(category_visible(v, DrawingCategory::Pdn));
    assert(category_visible(v, DrawingCategory::Vias));
    assert(category_visible(v, DrawingCategory::IoPins));
    assert(category_visible(v, DrawingCategory::Placement));
    assert(category_visible(v, DrawingCategory::Tracks));
    assert(category_visible(v, DrawingCategory::GCells));
    assert(category_visible(v, DrawingCategory::Obstructions));
    assert(category_visible(v, DrawingCategory::Boundaries));
    assert(category_visible(v, DrawingCategory::Fill));
    assert(category_visible(v, DrawingCategory::Regions));
    assert(counts.count_of(DrawingCategory::Instances) == count_in(cats, DrawingCategory::Instances));
    assert(counts.count_of(DrawingCategory::NetSignal) == count_in(cats, DrawingCategory::NetSignal));
    assert(counts.count_of(DrawingCategory::NetClock) == count_in(cats, DrawingCategory::NetClock));
    assert(counts.count_of(DrawingCategory::NetOther) == count_in(cats, DrawingCategory::NetOther));
    assert(counts.count_of(DrawingCategory::Pdn) == count_in(cats, DrawingCategory::Pdn));
    assert(counts.count_of(DrawingCategory::Vias) == count_in(cats, DrawingCategory::Vias));
    assert(counts.count_of(DrawingCategory::IoPins) == count_in(cats, DrawingCategory::IoPins));
    assert(counts.count_of(DrawingCategory::Placement) == count_in(cats, DrawingCategory::Placement));
    assert(counts.count_of(DrawingCategory::Tracks) == count_in(cats, DrawingCategory::Tracks));
    assert(counts.count_of(DrawingCategory::GCells) == count_in(cats, DrawingCategory::GCells));
    assert(counts.count_of(DrawingCategory::Obstructions) == count_in(
        cats,
        DrawingCategory::Obstructions,
    ));
    assert(counts.count_of(DrawingCategory::Boundaries) == count_in(cats, DrawingCategory::Boundaries));
    assert(counts.count_of(DrawingCategory::Fill) == count_in(cats, DrawingCategory::Fill));
    assert(counts.count_of(DrawingCategory::Regions) == count_in(cats, DrawingCategory::Regions));
}

// ---------------------------------------------------------------------
// The layout-geometry layer in render queries
// ---------------------------------------------------------------------
/// Each layout-level switch on its own (instances, die and core
/// boundaries, placement rows, tracks, gcells, obstructions, regions) makes
/// a render query ask for the layout-geometry layer; with all of them off,
/// the query asks for it only if the side panel lists it switched on.
pub proof fn law_layout_switches_query_the_layout_layer(
    layers: Seq<LayerUiState>,
    v: ObjectVisibility,
)
    ensures
        v.instances ==> query_layer_wanted(layers, v, LAYOUT_GEOMETRY_LAYER),
        v.boundaries ==> query_layer_wanted(layers, v, LAYOUT_GEOMETRY_LAYER),
        v.placement ==> query_layer_wanted(layers, v, LAYOUT_GEOMETRY_LAYER),
        v.tracks ==> query_layer_wanted(layers, v, LAYOUT_GEOMETRY_LAYER),
        v.gcells ==> query_layer_wanted(layers, v, LAYOUT_GEOMETRY_LAYER),
        v.obstructions ==> query_layer_wanted(layers, v, LAYOUT_GEOMETRY_LAYER),
        v.regions ==> query_layer_wanted(layers, v, LAYOUT_GEOMETRY_LAYER),
        v.instances ==> needs_layout_layer(v),
        v.boundaries ==> needs_layout_layer(v),
        v.placement ==> needs_layout_layer(v),
        v.tracks ==> needs_layout_layer(v),
        v.gcells ==> needs_layout_layer(v),
        v.obstructions ==> needs_layout_layer(v),
        v.regions ==> needs_layout_layer(v),
        !(v.instances || v.boundaries || v.placement || v.tracks || v.gcells || v.obstructions
            || v.regions) ==> !needs_layout_layer(v),
{
}

} // verus!
