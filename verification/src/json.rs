//! The violation report format: a JSON tree (already parsed) whose
//! `<check>.distribution` object maps each violation type to its total,
//! its per-layer counts and per-layer violation lists.

use vstd::prelude::*;
use crate::analysis::{Violation, ViolationView, violation_views};
use crate::assoc::{assoc_insert, StrMap};
use crate::counts::{layer_sum, layer_counts_sum_fits, sum_layer_counts, CountsView, LayerCounts, LayerCountsView, TypeCounts, TypeCountsMap};
use crate::geometry::{rect_from_corners, spec_rect_from_corners};
use crate::text::{lower, lower_chars, str_chars, string_from_chars, string_views};

verus! {

/// A JSON number as the report reader sees it: a non-negative integer, a
/// negative integer, or a fractional number rounded to the nearest integer
/// (halves away from zero, saturating at the `i64` range).
pub enum JsonNumber {
    PosInt(u64),
    NegInt(i64),
    Float(i64),
}

/// A parsed JSON value; an object keeps its members in order.
pub enum JsonValue {
    Null,
    Bool(bool),
    Number(JsonNumber),
    String(String),
    Array(Vec<JsonValue>),
    Object(Vec<(String, JsonValue)>),
}

/// The first member of `entries` named `key`.
pub open spec fn entries_get(entries: Seq<(String, JsonValue)>, key: Seq<char>) -> Option<JsonValue>
    decreases entries.len(),
{
    if entries.len() == 0 {
        None
    } else if entries[0].0@ == key {
        Some(entries[0].1)
    } else {
        entries_get(entries.drop_first(), key)
    }
}

/// `Value::get(key)`: the member named `key` of an object, none otherwise.
pub open spec fn spec_get(v: Option<JsonValue>, key: Seq<char>) -> Option<JsonValue> {
    match v {
        Some(JsonValue::Object(entries)) => entries_get(entries@, key),
        _ => None,
    }
}

/// `Value::get(key)`.
pub fn get<'a>(v: &'a JsonValue, key: &str) -> (r: Option<&'a JsonValue>)
    ensures
        match r {
            Some(x) => spec_get(Some(*v), key@) == Some(*x),
            None => spec_get(Some(*v), key@) is None,
        },
{
    match v {
        JsonValue::Object(entries) => {
            let n = entries.len();
            assert(entries@.skip(0) =~= entries@);
            for i in 0..n
                invariant
                    n == entries@.len(),
                    spec_get(Some(*v), key@) == entries_get(entries@, key@),
                    entries_get(entries@, key@) == entries_get(entries@.skip(i as int), key@),
            {
                assert(entries@.skip(i as int)[0] == entries@[i as int]);
                assert(entries@.skip(i as int).drop_first() =~= entries@.skip(i + 1));
                if entries[i].0 == string_from_chars(&str_chars(key)) {
                    assert(entries@[i as int].0@ == key@);
                    assert(entries_get(entries@.skip(i as int), key@) == Some(entries@[i as int].1));
                    return Some(&entries[i].1);
                }
            }
            assert(entries@.skip(n as int).len() == 0);
            None
        },
        _ => None,
    }
}

/// `Option<&Value>::and_then(|v| v.get(key))`.
fn get_opt<'a>(v: Option<&'a JsonValue>, key: &str) -> (r: Option<&'a JsonValue>)
    ensures
        match r {
            Some(x) => spec_get(
                match v {
                    Some(y) => Some(*y),
                    None => None,
                },
                key@,
            ) == Some(*x),
            None => spec_get(
                match v {
                    Some(y) => Some(*y),
                    None => None,
                },
                key@,
            ) is None,
        },
{
    match v {
        Some(x) => get(x, key),
        None => None,
    }
}

/// `Value::as_i64`.
pub open spec fn spec_as_i64(v: Option<JsonValue>) -> Option<i64> {
    match v {
        Some(JsonValue::Number(JsonNumber::PosInt(u))) => if u <= i64::MAX {
            Some(u as i64)
        } else {
            None
        },
        Some(JsonValue::Number(JsonNumber::NegInt(i))) => Some(i),
        _ => None,
    }
}

/// `Value::as_u64`.
pub open spec fn spec_as_u64(v: Option<JsonValue>) -> Option<u64> {
    match v {
        Some(JsonValue::Number(JsonNumber::PosInt(u))) => Some(u),
        _ => None,
    }
}

/// A coordinate: an integer that fits in `i32`.
pub open spec fn spec_json_i32(v: Option<JsonValue>) -> Option<i32> {
    match spec_as_i64(v) {
        Some(i) => if i32::MIN <= i <= i32::MAX {
            Some(i as i32)
        } else {
            None
        },
        None => None,
    }
}

/// An integer, a fractional number rounded, or none for other values.
pub open spec fn spec_json_i64(v: Option<JsonValue>) -> Option<i64> {
    match v {
        Some(JsonValue::Number(JsonNumber::PosInt(u))) => if u <= i64::MAX {
            Some(u as i64)
        } else {
            Some(i64::MAX)
        },
        Some(JsonValue::Number(JsonNumber::NegInt(i))) => Some(i),
        Some(JsonValue::Number(JsonNumber::Float(r))) => Some(r),
        _ => None,
    }
}

/// A count: a non-negative integer that fits in `usize`.
pub open spec fn spec_json_usize(v: Option<JsonValue>) -> Option<usize> {
    match spec_as_u64(v) {
        Some(u) => if u <= usize::MAX {
            Some(u as usize)
        } else {
            None
        },
        None => None,
    }
}

/// The string items of an array, in order; empty for any other value.
pub open spec fn spec_json_strings(v: Option<JsonValue>) -> Seq<Seq<char>> {
    match v {
        Some(JsonValue::Array(items)) => strings_of(items@),
        _ => Seq::empty(),
    }
}

pub open spec fn strings_of(items: Seq<JsonValue>) -> Seq<Seq<char>>
    decreases items.len(),
{
    if items.len() == 0 {
        Seq::empty()
    } else {
        let prev = strings_of(items.drop_last());
        match items.last() {
            JsonValue::String(s) => prev.push(s@),
            _ => prev,
        }
    }
}

pub open spec fn deref_opt(v: Option<&JsonValue>) -> Option<JsonValue> {
    match v {
        Some(x) => Some(*x),
        None => None,
    }
}

/// A JSON integer that fits in `i32`.
pub fn json_i32(value: Option<&JsonValue>) -> (r: Option<i32>)
    ensures
        r == spec_json_i32(deref_opt(value)),
{
    match value {
        Some(JsonValue::Number(JsonNumber::PosInt(u))) => {
            if *u <= i32::MAX as u64 {
                Some(*u as i32)
            } else {
                None
            }
        },
        Some(JsonValue::Number(JsonNumber::NegInt(i))) => {
            if *i >= i32::MIN as i64 && *i <= i32::MAX as i64 {
                Some(*i as i32)
            } else {
                None
            }
        },
        _ => None,
    }
}

/// A JSON number as an `i64`: integers as they are (a positive one beyond
/// the `i64` range saturating), fractional numbers rounded.
pub fn json_i64(value: Option<&JsonValue>) -> (r: Option<i64>)
    ensures
        r == spec_json_i64(deref_opt(value)),
{
    match value {
        Some(JsonValue::Number(JsonNumber::PosInt(u))) => {
            if *u <= i64::MAX as u64 {
                Some(*u as i64)
            } else {
                Some(i64::MAX)
            }
        },
        Some(JsonValue::Number(JsonNumber::NegInt(i))) => Some(*i),
        Some(JsonValue::Number(JsonNumber::Float(r))) => Some(*r),
        _ => None,
    }
}

/// A JSON non-negative integer that fits in `usize`.
pub fn json_usize(value: Option<&JsonValue>) -> (r: Option<usize>)
    ensures
        r == spec_json_usize(deref_opt(value)),
{
    match value {
        Some(JsonValue::Number(JsonNumber::PosInt(u))) => {
            if *u <= usize::MAX as u64 {
                Some(*u as usize)
            } else {
                None
            }
        },
        _ => None,
    }
}

/// The string items of a JSON array; empty for any other value.
pub fn json_string_vec(value: Option<&JsonValue>) -> (r: Vec<String>)
    ensures
        string_views(r@) == spec_json_strings(deref_opt(value)),
{
    let mut r: Vec<String> = Vec::new();
    match value {
        Some(JsonValue::Array(items)) => {
            let n = items.len();
            for i in 0..n
                invariant
                    n == items@.len(),
                    string_views(r@) == strings_of(items@.take(i as int)),
            {
                assert(items@.take(i + 1).drop_last() =~= items@.take(i as int));
                assert(items@.take(i + 1).last() == items@[i as int]);
                match &items[i] {
                    JsonValue::String(s) => {
                        let ghost before = string_views(r@);
                        r.push(s.clone());
                        assert(string_views(r@) =~= before.push(s@));
                    },
                    _ => {},
                }
            }
            assert(items@.take(n as int) =~= items@);
        },
        _ => {},
    }
    r
}

// ---------------------------------------------------------------------
// Violations
// ---------------------------------------------------------------------
/// A violation read from a list item: its corners `llx`, `lly`, `urx`,
/// `ury` (in any order), optional `required_size`, `net` and `inst` lists;
/// none when a corner is missing or not an `i32`.  The layer name is kept
/// as the report writes it.
pub open spec fn spec_parse_violation(
    node: JsonValue,
    id: usize,
    ty: Seq<char>,
    layer: Seq<char>,
) -> Option<ViolationView> {
    let n = Some(node);
    let llx = spec_json_i32(spec_get(n, "llx"@));
    let lly = spec_json_i32(spec_get(n, "lly"@));
    let urx = spec_json_i32(spec_get(n, "urx"@));
    let ury = spec_json_i32(spec_get(n, "ury"@));
    if llx is Some && lly is Some && urx is Some && ury is Some {
        Some(
            (
                id,
                ty,
                layer,
                spec_rect_from_corners(llx->0, lly->0, urx->0, ury->0),
                spec_json_i64(spec_get(n, "required_size"@)),
                spec_json_strings(spec_get(n, "net"@)),
                spec_json_strings(spec_get(n, "inst"@)),
            ),
        )
    } else {
        None
    }
}

/// Reads one violation from a list item (see `spec_parse_violation`).
pub fn parse_violation(node: &JsonValue, id: usize, violation_type: &str, layer: &str) -> (r:
    Option<Violation>)
    ensures
        match r {
            Some(v) => spec_parse_violation(*node, id, violation_type@, layer@) == Some(v@),
            None => spec_parse_violation(*node, id, violation_type@, layer@) is None,
        },
{
    let llx = match json_i32(get(node, "llx")) {
        Some(x) => x,
        None => return None,
    };
    let lly = match json_i32(get(node, "lly")) {
        Some(x) => x,
        None => return None,
    };
    let urx = match json_i32(get(node, "urx")) {
        Some(x) => x,
        None => return None,
    };
    let ury = match json_i32(get(node, "ury")) {
        Some(x) => x,
        None => return None,
    };
    let v = Violation {
        id,
        violation_type: string_from_chars(&str_chars(violation_type)),
        layer: string_from_chars(&str_chars(layer)),
        bbox: rect_from_corners(llx, lly, urx, ury),
        required_size: json_i64(get(node, "required_size")),
        nets: json_string_vec(get(node, "net")),
        insts: json_string_vec(get(node, "inst")),
    };
    Some(v)
}

/// Reads one DRC violation (see `parse_violation`).
pub fn parse_drc_violation(node: &JsonValue, id: usize, drc_type: &str, layer: &str) -> (r:
    Option<Violation>)
    ensures
        match r {
            Some(v) => spec_parse_violation(*node, id, drc_type@, layer@) == Some(v@),
            None => spec_parse_violation(*node, id, drc_type@, layer@) is None,
        },
{
    parse_violation(node, id, drc_type, layer)
}

/// Reads one antenna violation (see `parse_violation`).
pub fn parse_antenna_violation(node: &JsonValue, id: usize, antenna_type: &str, layer: &str) -> (r:
    Option<Violation>)
    ensures
        match r {
            Some(v) => spec_parse_violation(*node, id, antenna_type@, layer@) == Some(v@),
            None => spec_parse_violation(*node, id, antenna_type@, layer@) is None,
        },
{
    parse_violation(node, id, antenna_type, layer)
}

/// The violations of a list, appended after `vs`; each takes as id the
/// number of violations before it.
pub open spec fn add_items(
    vs: Seq<ViolationView>,
    items: Seq<JsonValue>,
    ty: Seq<char>,
    layer: Seq<char>,
) -> Seq<ViolationView>
    decreases items.len(),
{
    if items.len() == 0 {
        vs
    } else {
        let prev = add_items(vs, items.drop_last(), ty, layer);
        match spec_parse_violation(items.last(), prev.len() as usize, ty, layer) {
            Some(v) => prev.push(v),
            None => prev,
        }
    }
}

/// The `list` array of a layer node, empty when there is none.
pub open spec fn layer_items(node: JsonValue) -> Seq<JsonValue> {
    match spec_get(Some(node), "list"@) {
        Some(JsonValue::Array(items)) => items@,
        _ => Seq::empty(),
    }
}

/// The count a node gives under `number`, 0 when there is none.
pub open spec fn node_number(node: JsonValue) -> usize {
    match spec_json_usize(spec_get(Some(node), "number"@)) {
        Some(n) => n,
        None => 0,
    }
}

/// A layer's name as its violations keep it: in ASCII lowercase when
/// `fold` is set, else as the report writes it.
pub open spec fn stored_layer(name: Seq<char>, fold: bool) -> Seq<char> {
    if fold {
        lower(name)
    } else {
        name
    }
}

/// The violations of every layer of a type, in layer order.
pub open spec fn add_layers(
    vs: Seq<ViolationView>,
    layers: Seq<(String, JsonValue)>,
    ty: Seq<char>,
    fold: bool,
) -> Seq<ViolationView>
    decreases layers.len(),
{
    if layers.len() == 0 {
        vs
    } else {
        let prev = add_layers(vs, layers.drop_last(), ty, fold);
        add_items(prev, layer_items(layers.last().1), ty, stored_layer(layers.last().0@, fold))
    }
}

/// Layer counts of a type: each layer with a positive `number`.
pub open spec fn json_layer_counts(layers: Seq<(String, JsonValue)>) -> LayerCountsView
    decreases layers.len(),
{
    if layers.len() == 0 {
        Seq::empty()
    } else {
        let prev = json_layer_counts(layers.drop_last());
        let c = node_number(layers.last().1);
        if c > 0 {
            assoc_insert(prev, layers.last().0@, c)
        } else {
            prev
        }
    }
}

/// The `layers` object of a type node, empty when there is none.
pub open spec fn type_layers(node: JsonValue) -> Seq<(String, JsonValue)> {
    match spec_get(Some(node), "layers"@) {
        Some(JsonValue::Object(e)) => e@,
        _ => Seq::empty(),
    }
}

/// Counts of a type node: its `number` (or, when that is missing or 0, the
/// sum of its layer counts) and its layer counts.
pub open spec fn json_type_counts(node: JsonValue) -> CountsView {
    let lc = json_layer_counts(type_layers(node));
    let t = node_number(node);
    if t == 0 {
        (layer_sum(lc) as usize, lc)
    } else {
        (t, lc)
    }
}

/// The violations of every type, in type order.
pub open spec fn add_types(vs: Seq<ViolationView>, types: Seq<(String, JsonValue)>, fold: bool) -> Seq<
    ViolationView,
>
    decreases types.len(),
{
    if types.len() == 0 {
        vs
    } else {
        let prev = add_types(vs, types.drop_last(), fold);
        add_layers(prev, type_layers(types.last().1), types.last().0@, fold)
    }
}

/// The counts of every type, a later type of a name replacing an earlier.
pub open spec fn json_counts(types: Seq<(String, JsonValue)>) -> Seq<(Seq<char>, CountsView)>
    decreases types.len(),
{
    if types.len() == 0 {
        Seq::empty()
    } else {
        assoc_insert(
            json_counts(types.drop_last()),
            types.last().0@,
            json_type_counts(types.last().1),
        )
    }
}

/// The members of `<check>.distribution`, empty when it is not an object.
pub open spec fn distribution(root: JsonValue, check: Seq<char>) -> Seq<(String, JsonValue)> {
    match spec_get(spec_get(Some(root), check), "distribution"@) {
        Some(JsonValue::Object(e)) => e@,
        _ => Seq::empty(),
    }
}

/// Every type whose total is missing has layer counts whose sum fits.
pub open spec fn counts_fit(types: Seq<(String, JsonValue)>) -> bool {
    forall|i: int|
        0 <= i < types.len() && node_number(#[trigger] types[i].1) == 0 ==> layer_sum(
            json_layer_counts(type_layers(types[i].1)),
        ) <= usize::MAX
}

fn add_item_violations(
    violations: &mut Vec<Violation>,
    items: &Vec<JsonValue>,
    violation_type: &str,
    layer: &str,
)
    ensures
        violation_views(final(violations)@) == add_items(
            violation_views(old(violations)@),
            items@,
            violation_type@,
            layer@,
        ),
{
    let n = items.len();
    let ghost start = violation_views(violations@);
    for i in 0..n
        invariant
            n == items@.len(),
            violation_views(violations@) == add_items(
                start,
                items@.take(i as int),
                violation_type@,
                layer@,
            ),
    {
        assert(items@.take(i + 1).drop_last() =~= items@.take(i as int));
        assert(items@.take(i + 1).last() == items@[i as int]);
        let id = violations.len();
        match parse_violation(&items[i], id, violation_type, layer) {
            Some(v) => {
                let ghost before = violation_views(violations@);
                violations.push(v);
                assert(violation_views(violations@) =~= before.push(v@));
            },
            None => {},
        }
    }
    assert(items@.take(n as int) =~= items@);
}

fn add_layer_violations(
    violations: &mut Vec<Violation>,
    layers: &Vec<(String, JsonValue)>,
    violation_type: &str,
    fold: bool,
)
    ensures
        violation_views(final(violations)@) == add_layers(
            violation_views(old(violations)@),
            layers@,
            violation_type@,
            fold,
        ),
{
    let n = layers.len();
    let ghost start = violation_views(violations@);
    for i in 0..n
        invariant
            n == layers@.len(),
            violation_views(violations@) == add_layers(
                start,
                layers@.take(i as int),
                violation_type@,
                fold,
            ),
    {
        assert(layers@.take(i + 1).drop_last() =~= layers@.take(i as int));
        assert(layers@.take(i + 1).last() == layers@[i as int]);
        let layer_node = &layers[i].1;
        match get(layer_node, "list") {
            Some(JsonValue::Array(items)) => {
                let name = str_chars(layers[i].0.as_str());
                let stored = if fold {
                    string_from_chars(&lower_chars(&name))
                } else {
                    string_from_chars(&name)
                };
                add_item_violations(violations, items, violation_type, stored.as_str());
            },
            _ => {
                assert(layer_items(*layer_node) =~= Seq::<JsonValue>::empty());
            },
        }
    }
    assert(layers@.take(n as int) =~= layers@);
}

fn layer_counts_from_json(layers: &Vec<(String, JsonValue)>) -> (counts: LayerCounts)
    ensures
        counts@ == json_layer_counts(layers@),
{
    let mut counts: LayerCounts = StrMap::new();
    let n = layers.len();
    for i in 0..n
        invariant
            n == layers@.len(),
            counts@ == json_layer_counts(layers@.take(i as int)),
    {
        assert(layers@.take(i + 1).drop_last() =~= layers@.take(i as int));
        assert(layers@.take(i + 1).last() == layers@[i as int]);
        let c = match json_usize(get(&layers[i].1, "number")) {
            Some(c) => c,
            None => 0,
        };
        if c > 0 {
            counts.insert(layers[i].0.clone(), c);
        }
    }
    assert(layers@.take(n as int) =~= layers@);
    counts
}

/// Whether every type of a report without a total has layer counts whose
/// sum fits (see `counts_fit`), which reading the report needs.
pub fn analysis_counts_fit(root: &JsonValue, check: &str) -> (r: bool)
    ensures
        r == counts_fit(distribution(*root, check@)),
{
    let node = get_opt(get(root, check), "distribution");
    let types = match node {
        Some(JsonValue::Object(types)) => types,
        _ => {
            return true;
        },
    };
    let ghost ts = distribution(*root, check@);
    assert(ts == types@);
    let n = types.len();
    for i in 0..n
        invariant
            n == types@.len(),
            ts == types@,
            ts == distribution(*root, check@),
            forall|j: int|
                0 <= j < i && node_number(#[trigger] ts[j].1) == 0 ==> layer_sum(
                    json_layer_counts(type_layers(ts[j].1)),
                ) <= usize::MAX,
    {
        let type_node = &types[i].1;
        let total = match json_usize(get(type_node, "number")) {
            Some(c) => c,
            None => 0,
        };
        if total == 0 {
            match get(type_node, "layers") {
                Some(JsonValue::Object(layers)) => {
                    let counts = layer_counts_from_json(layers);
                    if !layer_counts_sum_fits(&counts) {
                        assert(ts[i as int].1 == *type_node);
                        assert(type_layers(*type_node) == layers@);
                        assert(node_number(ts[i as int].1) == 0);
                        assert(layer_sum(json_layer_counts(type_layers(ts[i as int].1))) > usize::MAX);
                        return false;
                    }
                },
                _ => {
                    assert(type_layers(*type_node) =~= Seq::<(String, JsonValue)>::empty());
                    assert(json_layer_counts(type_layers(*type_node)) =~= Seq::<(Seq<char>, usize)>::empty());
                },
            }
        }
    }
    true
}

/// Reads the `<check>.distribution` object of a violation report: every
/// type's violations (from the `list` of each of its layers) and its counts
/// (its `number`, else the sum of its layers' positive `number`s).  A report
/// without such an object gives nothing.  With `fold_layers` the violations
/// keep their layer names in ASCII lowercase.
pub fn parse_analysis_json(root: &JsonValue, check: &str, fold_layers: bool) -> (r: (
    Vec<Violation>,
    TypeCountsMap,
))
    requires
        counts_fit(distribution(*root, check@)),
    ensures
        violation_views(r.0@) == add_types(Seq::empty(), distribution(*root, check@), fold_layers),
        r.1@ == json_counts(distribution(*root, check@)),
{
    let mut violations: Vec<Violation> = Vec::new();
    let mut counts: TypeCountsMap = StrMap::new();
    let node = get_opt(get(root, check), "distribution");
    let types = match node {
        Some(JsonValue::Object(types)) => types,
        _ => {
            assert(violation_views(violations@) =~= Seq::<ViolationView>::empty());
            return (violations, counts);
        },
    };
    let ghost ts = distribution(*root, check@);
    assert(ts == types@);
    let n = types.len();
    assert(violation_views(violations@) =~= Seq::<ViolationView>::empty());
    for i in 0..n
        invariant
            n == types@.len(),
            ts == types@,
            counts_fit(ts),
            violation_views(violations@) == add_types(Seq::empty(), ts.take(i as int), fold_layers),
            counts@ == json_counts(ts.take(i as int)),
    {
        assert(ts.take(i + 1).drop_last() =~= ts.take(i as int));
        assert(ts.take(i + 1).last() == ts[i as int]);
        let type_node = &types[i].1;
        let name = &types[i].0;
        let total = match json_usize(get(type_node, "number")) {
            Some(c) => c,
            None => 0,
        };
        let mut type_counts = TypeCounts::new();
        match get(type_node, "layers") {
            Some(JsonValue::Object(layers)) => {
                add_layer_violations(&mut violations, layers, name.as_str(), fold_layers);
                type_counts.layer_counts = layer_counts_from_json(layers);
            },
            _ => {
                assert(type_layers(*type_node) =~= Seq::<(String, JsonValue)>::empty());
            },
        }
        if total == 0 {
            assert(node_number(ts[i as int].1) == 0);
            type_counts.total_count = sum_layer_counts(&type_counts.layer_counts);
        } else {
            type_counts.total_count = total;
        }
        counts.insert(name.clone(), type_counts);
    }
    assert(ts.take(n as int) =~= ts);
    (violations, counts)
}

/// Reads a DRC report (`drc.distribution`, see `parse_analysis_json`),
/// layer names kept as written.
pub fn parse_drc_json(root: &JsonValue) -> (r: (Vec<Violation>, TypeCountsMap))
    requires
        counts_fit(distribution(*root, "drc"@)),
    ensures
        violation_views(r.0@) == add_types(Seq::empty(), distribution(*root, "drc"@), false),
        r.1@ == json_counts(distribution(*root, "drc"@)),
{
    parse_analysis_json(root, "drc", false)
}

/// Reads an antenna report (`antenna.distribution`, see
/// `parse_analysis_json`), layer names in ASCII lowercase.
pub fn parse_antenna_json(root: &JsonValue) -> (r: (Vec<Violation>, TypeCountsMap))
    requires
        counts_fit(distribution(*root, "antenna"@)),
    ensures
        violation_views(r.0@) == add_types(Seq::empty(), distribution(*root, "antenna"@), true),
        r.1@ == json_counts(distribution(*root, "antenna"@)),
{
    parse_analysis_json(root, "antenna", true)
}

} // verus!
