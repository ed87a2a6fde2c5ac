//! The physical layers as the side panel shows them: their metadata and
//! visibility switches, the layers a render query asks for, and the hover
//! text with a layer's design rules.

use vstd::prelude::*;
use crate::styles::LayerStyle;
use crate::text::{decimal, int_decimal, eq_ignore_case, str_chars, chars_eq_ignore_case_str, push_str,
    push_decimal, push_int_decimal};
use crate::visibility::{ObjectVisibility, needs_layout_layer, object_visibility_needs_layout_layer,
    LAYOUT_GEOMETRY_LAYER, DrawingCategory, OwnerType, category_visible, context_owner, owner_raw,
    uses_layer_visibility, is_context_owner_type, shape_uses_layer_visibility};

verus! {

/// One physical layer in the side panel.
pub struct LayerUiState {
    pub layer_id: u16,
    pub shape_count: usize,
    pub order: u32,
    pub name: String,
    pub layer_type: String,
    pub display_role: String,
    pub direction: String,
    pub width: i32,
    pub pitch_x: i32,
    pub pitch_y: i32,
    pub min_spacing: i32,
    pub min_area: i32,
    pub min_step: i32,
    pub cut_spacing: i32,
    pub enclosure_below: String,
    pub enclosure_above: String,
    pub lef58_rule_count: u32,
    pub visible: bool,
    pub style: LayerStyle,
}

/// The layer with its visibility switch set as given and nothing else
/// changed.
pub open spec fn with_visible(l: LayerUiState, visible: bool) -> LayerUiState {
    LayerUiState { visible, ..l }
}

/// Turns every layer on or off.
pub fn set_layer_visibility(layers: &mut Vec<LayerUiState>, visible: bool)
    ensures
        final(layers)@.len() == old(layers)@.len(),
        forall|i: int|
            0 <= i < old(layers)@.len() ==> #[trigger] final(layers)@[i] == with_visible(
                old(layers)@[i],
                visible,
            ),
{
    let n = layers.len();
    for i in 0..n
        invariant
            n == old(layers)@.len() == layers@.len(),
            forall|j: int| 0 <= j < i ==> #[trigger] layers@[j] == with_visible(old(layers)@[j], visible),
            forall|j: int| i <= j < n ==> #[trigger] layers@[j] == old(layers)@[j],
    {
        layers[i].visible = visible;
    }
}

/// Every layer with its switch flipped.
pub open spec fn inverted(layers: Seq<LayerUiState>) -> Seq<LayerUiState> {
    layers.map_values(|l: LayerUiState| with_visible(l, !l.visible))
}

/// Flips every layer's switch (see `inverted`).
pub fn invert_layer_visibility(layers: &mut Vec<LayerUiState>)
    ensures
        final(layers)@ == inverted(old(layers)@),
        final(layers)@.len() == old(layers)@.len(),
        forall|i: int|
            0 <= i < old(layers)@.len() ==> #[trigger] final(layers)@[i] == with_visible(
                old(layers)@[i],
                !old(layers)@[i].visible,
            ),
{
    let n = layers.len();
    for i in 0..n
        invariant
            n == old(layers)@.len() == layers@.len(),
            forall|j: int|
                0 <= j < i ==> #[trigger] layers@[j] == with_visible(
                    old(layers)@[j],
                    !old(layers)@[j].visible,
                ),
            forall|j: int| i <= j < n ==> #[trigger] layers@[j] == old(layers)@[j],
    {
        let v = layers[i].visible;
        layers[i].visible = !v;
    }
    assert(layers@ =~= inverted(old(layers)@));
}

/// The number of layers switched on.
pub open spec fn visible_count(layers: Seq<LayerUiState>) -> nat
    decreases layers.len(),
{
    if layers.len() == 0 {
        0
    } else {
        visible_count(layers.drop_last()) + if layers.last().visible {
            1nat
        } else {
            0
        }
    }
}

proof fn lemma_visible_count_bound(layers: Seq<LayerUiState>)
    ensures
        visible_count(layers) <= layers.len(),
    decreases layers.len(),
{
    if layers.len() > 0 {
        lemma_visible_count_bound(layers.drop_last());
    }
}

/// The number of layers switched on.
pub fn visible_layer_count(layers: &Vec<LayerUiState>) -> (n: usize)
    ensures
        n == visible_count(layers@),
{
    let mut count: usize = 0;
    let len = layers.len();
    for i in 0..len
        invariant
            len == layers@.len(),
            count == visible_count(layers@.take(i as int)),
    {
        assert(layers@.take(i + 1).drop_last() =~= layers@.take(i as int));
        proof {
            lemma_visible_count_bound(layers@.take(i as int));
        }
        if layers[i].visible {
            count = count + 1;
        }
    }
    assert(layers@.take(len as int) =~= layers@);
    count
}

/// Whether an analysis marker on the named layer is shown: the switch of
/// the first layer of that name, ignoring ASCII case; shown when no layer
/// has the name.
pub open spec fn named_layer_visible(layers: Seq<LayerUiState>, name: Seq<char>) -> bool
    decreases layers.len(),
{
    if layers.len() == 0 {
        true
    } else if eq_ignore_case(layers[0].name@, name) {
        layers[0].visible
    } else {
        named_layer_visible(layers.drop_first(), name)
    }
}

fn named_layer_is_visible(layers: &Vec<LayerUiState>, layer_name: &str) -> (r: bool)
    ensures
        r == named_layer_visible(layers@, layer_name@),
{
    let n = layers.len();
    let target = str_chars(layer_name);
    let mut i: usize = 0;
    assert(layers@.skip(0) =~= layers@);
    while i < n
        invariant
            n == layers@.len(),
            i <= n,
            target@ == layer_name@,
            named_layer_visible(layers@.skip(i as int), layer_name@) == named_layer_visible(
                layers@,
                layer_name@,
            ),
        decreases n - i,
    {
        assert(layers@.skip(i as int).drop_first() =~= layers@.skip(i + 1));
        assert(layers@.skip(i as int)[0] == layers@[i as int]);
        let name_chars = str_chars(layers[i].name.as_str());
        if chars_eq_ignore_case_str(&name_chars, layer_name) {
            return layers[i].visible;
        }
        i = i + 1;
    }
    true
}

/// Whether DRC markers on the named layer are shown (see
/// `named_layer_visible`).
pub fn drc_layer_is_visible(layers: &Vec<LayerUiState>, layer_name: &str) -> (r: bool)
    ensures
        r == named_layer_visible(layers@, layer_name@),
{
    named_layer_is_visible(layers, layer_name)
}

/// Whether antenna markers on the named layer are shown (see
/// `named_layer_visible`).
pub fn antenna_layer_is_visible(layers: &Vec<LayerUiState>, layer_name: &str) -> (r: bool)
    ensures
        r == named_layer_visible(layers@, layer_name@),
{
    named_layer_is_visible(layers, layer_name)
}

/// The layer ids that a render query asks for: those of layers switched
/// on, plus the layout geometry layer when a switched-on drawing category
/// draws on it; ascending, each once.
pub open spec fn query_layer_wanted(
    layers: Seq<LayerUiState>,
    visibility: ObjectVisibility,
    id: u16,
) -> bool {
    (exists|i: int| 0 <= i < layers.len() && layers[i].visible && #[trigger] layers[i].layer_id == id)
        || (id == LAYOUT_GEOMETRY_LAYER && needs_layout_layer(visibility))
}

/// Strictly ascending.
pub open spec fn ascending(ids: Seq<u16>) -> bool {
    forall|i: int, j: int| 0 <= i < j < ids.len() ==> ids[i] < ids[j]
}

/// Inserts `id` into an ascending list unless it is there.
#[verifier::spinoff_prover]
fn insert_sorted(ids: &mut Vec<u16>, id: u16)
    requires
        ascending(old(ids)@),
    ensures
        ascending(final(ids)@),
        forall|x: u16| final(ids)@.contains(x) <==> (old(ids)@.contains(x) || x == id),
{
    let n = ids.len();
    let mut p: usize = 0;
    while p < n && ids[p] < id
        invariant
            n == ids@.len(),
            ids@ == old(ids)@,
            p <= n,
            ascending(ids@),
            forall|j: int| 0 <= j < p ==> ids@[j] < id,
        decreases n - p,
    {
        p = p + 1;
    }
    if p < n && ids[p] == id {
        assert(ids@.contains(id)) by {
            assert(ids@[p as int] == id);
        }
        return;
    }
    let ghost before = ids@;
    ids.insert(p, id);
    assert(ids@ =~= before.take(p as int).push(id) + before.skip(p as int));
    assert forall|i: int, j: int| 0 <= i < j < ids@.len() implies ids@[i] < ids@[j] by {
        if j < p {
            assert(ids@[i] == before[i] && ids@[j] == before[j]);
        } else if j == p {
            assert(ids@[i] == before[i]);
        } else if i == p {
            assert(ids@[j] == before[j - 1]);
            assert(p < n);
            if j - 1 > p {
                assert(before[p as int] < before[j - 1]);
            }
        } else if i < p {
            assert(ids@[i] == before[i] && ids@[j] == before[j - 1]);
        } else {
            assert(ids@[i] == before[i - 1] && ids@[j] == before[j - 1]);
        }
    }
    assert forall|x: u16| ids@.contains(x) <==> (before.contains(x) || x == id) by {
        if ids@.contains(x) {
            let k = choose|k: int| 0 <= k < ids@.len() && ids@[k] == x;
            if k < p {
                assert(before[k] == x);
            } else if k > p {
                assert(before[k - 1] == x);
            }
        }
        if before.contains(x) {
            let k = choose|k: int| 0 <= k < before.len() && before[k] == x;
            if k < p {
                assert(ids@[k] == x);
            } else {
                assert(ids@[k + 1] == x);
            }
        }
        if x == id {
            assert(ids@[p as int] == id);
        }
    }
}

/// The layers a render query asks for (see `query_layer_wanted`).
pub fn render_query_layer_ids(layers: &Vec<LayerUiState>, visibility: ObjectVisibility) -> (ids: Vec<
    u16,
>)
    ensures
        ascending(ids@),
        forall|id: u16| ids@.contains(id) <==> query_layer_wanted(layers@, visibility, id),
{
    let mut ids: Vec<u16> = Vec::new();
    let n = layers.len();
    for i in 0..n
        invariant
            n == layers@.len(),
            ascending(ids@),
            forall|id: u16|
                ids@.contains(id) <==> (exists|k: int|
                    0 <= k < i && layers@[k].visible && #[trigger] layers@[k].layer_id == id),
    {
        if layers[i].visible {
            insert_sorted(&mut ids, layers[i].layer_id);
        }
        assert forall|id: u16|
            ids@.contains(id) <==> (exists|k: int|
                0 <= k < i + 1 && layers@[k].visible && #[trigger] layers@[k].layer_id == id) by {
            if ids@.contains(id) && !(layers@[i as int].visible && layers@[i as int].layer_id == id) {
                let k = choose|k: int|
                    0 <= k < i && layers@[k].visible && #[trigger] layers@[k].layer_id == id;
                assert(0 <= k < i + 1);
            }
        }
    }
    if object_visibility_needs_layout_layer(visibility) {
        insert_sorted(&mut ids, LAYOUT_GEOMETRY_LAYER);
    }
    ids
}

/// `\n<label>: <value>` for a positive rule value, nothing otherwise.
pub open spec fn positive_rule_text(label: Seq<char>, value: i32) -> Seq<char> {
    if value > 0 {
        "\n"@ + label + ": "@ + int_decimal(value as int)
    } else {
        Seq::empty()
    }
}

/// Appends a design rule's line when its value is positive.
pub fn append_positive_layer_rule(text: &mut String, label: &str, value: i32)
    ensures
        final(text)@ == old(text)@ + positive_rule_text(label@, value),
{
    if value > 0 {
        push_str(text, "\n");
        push_str(text, label);
        push_str(text, ": ");
        push_int_decimal(text, value as i64);
    } else {
        assert(old(text)@ + Seq::<char>::empty() =~= old(text)@);
    }
}

/// `\n<label><value>` for a value that is not empty.
pub open spec fn nonempty_line(label: Seq<char>, value: Seq<char>) -> Seq<char> {
    if value.len() > 0 {
        label + value
    } else {
        Seq::empty()
    }
}

/// The tooltip of a layer: its id, order, type, style role, direction,
/// width and pitch, then the rules that it has.
pub open spec fn layer_hover(l: LayerUiState) -> Seq<char> {
    "id: "@ + decimal(l.layer_id as nat) + "\norder: "@ + decimal(l.order as nat) + "\ntype: "@
        + l.layer_type@ + "\nstyle role: "@ + l.display_role@ + "\ndirection: "@ + l.direction@
        + "\nwidth: "@ + int_decimal(l.width as int) + "\npitch: "@ + int_decimal(l.pitch_x as int)
        + " "@ + int_decimal(l.pitch_y as int) + positive_rule_text("min spacing"@, l.min_spacing)
        + positive_rule_text("min area"@, l.min_area) + positive_rule_text("min step"@, l.min_step)
        + positive_rule_text("cut spacing"@, l.cut_spacing) + nonempty_line(
        "\nenclosure below: "@,
        l.enclosure_below@,
    ) + nonempty_line("\nenclosure above: "@, l.enclosure_above@) + if l.lef58_rule_count > 0 {
        "\nLEF58 rules: "@ + decimal(l.lef58_rule_count as nat)
    } else {
        Seq::empty()
    }
}

/// The tooltip of a layer (see `layer_hover`).
pub fn layer_hover_text(layer: &LayerUiState) -> (text: String)
    ensures
        text@ == layer_hover(*layer),
{
    let mut text = String::new();
    push_str(&mut text, "id: ");
    push_decimal(&mut text, layer.layer_id as u64);
    push_str(&mut text, "\norder: ");
    push_decimal(&mut text, layer.order as u64);
    push_str(&mut text, "\ntype: ");
    push_str(&mut text, layer.layer_type.as_str());
    push_str(&mut text, "\nstyle role: ");
    push_str(&mut text, layer.display_role.as_str());
    push_str(&mut text, "\ndirection: ");
    push_str(&mut text, layer.direction.as_str());
    push_str(&mut text, "\nwidth: ");
    push_int_decimal(&mut text, layer.width as i64);
    push_str(&mut text, "\npitch: ");
    push_int_decimal(&mut text, layer.pitch_x as i64);
    push_str(&mut text, " ");
    push_int_decimal(&mut text, layer.pitch_y as i64);
    append_positive_layer_rule(&mut text, "min spacing", layer.min_spacing);
    append_positive_layer_rule(&mut text, "min area", layer.min_area);
    append_positive_layer_rule(&mut text, "min step", layer.min_step);
    append_positive_layer_rule(&mut text, "cut spacing", layer.cut_spacing);
    let ghost head = text@;
    if str_chars(layer.enclosure_below.as_str()).len() > 0 {
        push_str(&mut text, "\nenclosure below: ");
        push_str(&mut text, layer.enclosure_below.as_str());
    }
    assert(text@ =~= head + nonempty_line("\nenclosure below: "@, layer.enclosure_below@));
    let ghost head2 = text@;
    if str_chars(layer.enclosure_above.as_str()).len() > 0 {
        push_str(&mut text, "\nenclosure above: ");
        push_str(&mut text, layer.enclosure_above.as_str());
    }
    assert(text@ =~= head2 + nonempty_line("\nenclosure above: "@, layer.enclosure_above@));
    let ghost head3 = text@;
    if layer.lef58_rule_count > 0 {
        push_str(&mut text, "\nLEF58 rules: ");
        push_decimal(&mut text, layer.lef58_rule_count as u64);
    }
    assert(text@ =~= layer_hover(*layer));
    text
}

/// The switch of the first layer with the identifier; off when no layer
/// has it.
pub open spec fn layer_id_visible(layers: Seq<LayerUiState>, id: u16) -> bool
    decreases layers.len(),
{
    if layers.len() == 0 {
        false
    } else if layers[0].layer_id == id {
        layers[0].visible
    } else {
        layer_id_visible(layers.drop_first(), id)
    }
}

/// Whether the first layer with the identifier is switched on (see
/// `layer_id_visible`).
pub fn layer_id_is_visible(layers: &Vec<LayerUiState>, id: u16) -> (r: bool)
    ensures
        r == layer_id_visible(layers@, id),
{
    let n = layers.len();
    let mut i: usize = 0;
    assert(layers@.skip(0) =~= layers@);
    while i < n
        invariant
            n == layers@.len(),
            i <= n,
            layer_id_visible(layers@.skip(i as int), id) == layer_id_visible(layers@, id),
        decreases n - i,
    {
        assert(layers@.skip(i as int).drop_first() =~= layers@.skip(i + 1));
        assert(layers@.skip(i as int)[0] == layers@[i as int]);
        if layers[i].layer_id == id {
            return layers[i].visible;
        }
        i = i + 1;
    }
    assert(layers@.skip(n as int).len() == 0);
    false
}

/// A shape is shown when its layer is on (for shapes that follow their
/// layer) and its owner's drawing category, if it has one, is on.
pub open spec fn shape_shown(
    layer_id: u16,
    owner_type: Option<OwnerType>,
    category: Option<DrawingCategory>,
    layers: Seq<LayerUiState>,
    visibility: ObjectVisibility,
) -> bool {
    let layer_ok = if layer_id != LAYOUT_GEOMETRY_LAYER && uses_layer_visibility(owner_type) {
        layer_id_visible(layers, layer_id)
    } else {
        true
    };
    let owner_ok = match category {
        Some(c) => category_visible(visibility, c),
        None => true,
    };
    layer_ok && owner_ok
}

/// Whether a shape on `layer_id` is shown (see `shape_shown`);
/// `owner_type` and `category` are its owner's type and drawing category.
pub fn shape_is_visible(
    layer_id: u16,
    owner_type: Option<OwnerType>,
    category: Option<DrawingCategory>,
    layers: &Vec<LayerUiState>,
    visibility: ObjectVisibility,
) -> (r: bool)
    ensures
        r == shape_shown(layer_id, owner_type, category, layers@, visibility),
{
    let layer_ok = if shape_uses_layer_visibility(layer_id, owner_type) {
        layer_id_is_visible(layers, layer_id)
    } else {
        true
    };
    let owner_ok = match category {
        Some(c) => visibility.is_category_visible(c),
        None => true,
    };
    layer_ok && owner_ok
}

/// Which grids the canvas leaves to their parameterized drawing.
#[derive(Clone, Copy, Debug, PartialEq, Eq, Structural)]
pub struct ZoomVisibilityRules {
    pub track_grid_suppressed: bool,
    pub gcell_grid_suppressed: bool,
}

/// A shape is drawn at a zoom: never a suppressed grid's; context geometry
/// only when zoomed in (beyond 1.25); everything else always.
pub open spec fn drawn_at_zoom(
    rules: ZoomVisibilityRules,
    owner_type: Option<OwnerType>,
    zoomed_in: bool,
) -> bool {
    match owner_type {
        None => true,
        Some(o) => if o == OwnerType::TrackGrid && rules.track_grid_suppressed {
            false
        } else if o == OwnerType::GCellGrid && rules.gcell_grid_suppressed {
            false
        } else {
            zoomed_in || !context_owner(owner_raw(o))
        },
    }
}

impl ZoomVisibilityRules {
    /// Whether shapes of the owner type are drawn (see `drawn_at_zoom`).
    pub fn is_drawn_at_zoom(&self, owner_type: Option<OwnerType>, zoomed_in: bool) -> (r: bool)
        ensures
            r == drawn_at_zoom(*self, owner_type, zoomed_in),
    {
        match owner_type {
            None => true,
            Some(o) => {
                if o == OwnerType::TrackGrid && self.track_grid_suppressed {
                    false
                } else if o == OwnerType::GCellGrid && self.gcell_grid_suppressed {
                    false
                } else {
                    zoomed_in || !is_context_owner_type(o.raw())
                }
            },
        }
    }
}

/// Shapes of track or GCell grids that the design also describes as
/// parameterized grids are not drawn; other shapes are drawn when zoomed in
/// or when they are not context geometry.
pub fn shape_is_drawn_at_zoom(owner_type: Option<OwnerType>, grid_is_parameterized: bool, zoomed_in: bool) -> (r:
    bool)
    ensures
        r == match owner_type {
            Some(o) => !((o == OwnerType::TrackGrid || o == OwnerType::GCellGrid) && grid_is_parameterized)
                && (zoomed_in || !context_owner(owner_raw(o))),
            None => true,
        },
{
    match owner_type {
        Some(o) => {
            if (o == OwnerType::TrackGrid || o == OwnerType::GCellGrid) && grid_is_parameterized {
                return false;
            }
            zoomed_in || !is_context_owner_type(o.raw())
        },
        None => true,
    }
}

} // verus!
