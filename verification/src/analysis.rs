//! Violations of DRC and antenna checks, the counts derived from them, the
//! merging of counts from several sources, and the per-type states with
//! their visibility switches.

use vstd::prelude::*;
use crate::assoc::{
    assoc_get, assoc_insert, assoc_insert_if_absent, entry_views, lemma_get_entry,
    lemma_insert_after_remove, lemma_insert_entries, StrMap,
};
use crate::counts::{CountsView, LayerCounts, LayerCountsView, TypeCounts, TypeCountsMap};
use crate::geometry::Rect32;
use crate::spatial::{
    count_where, entries_of, entry_of, envelope, index_boxes, index_entries, lemma_count_where_multiset,
    lemma_entries_filter_len, lemma_filter_filter, locate_touching, tagged, touches, BoxIndex,
};
use crate::layers::LayerUiState;
use crate::text::{
    chars_eq_ignore_case, decimal, eq_ignore_case, int_decimal, join, join_strings, push_decimal,
    push_int_decimal, push_str, str_chars, string_from_str, string_views,
};

verus! {

/// One reported violation.
pub struct Violation {
    pub id: usize,
    pub violation_type: String,
    pub layer: String,
    pub bbox: Rect32,
    pub required_size: Option<i64>,
    pub nets: Vec<String>,
    pub insts: Vec<String>,
}

/// The model of a violation: id, type, layer, box, required size, nets and
/// instances.
pub type ViolationView = (
    usize,
    Seq<char>,
    Seq<char>,
    Rect32,
    Option<i64>,
    Seq<Seq<char>>,
    Seq<Seq<char>>,
);

impl View for Violation {
    type V = ViolationView;

    open spec fn view(&self) -> ViolationView {
        (
            self.id,
            self.violation_type@,
            self.layer@,
            self.bbox,
            self.required_size,
            string_views(self.nets@),
            string_views(self.insts@),
        )
    }
}

pub type DrcViolation = Violation;

pub type AntennaViolation = Violation;

/// The models of a sequence of violations.
pub open spec fn violation_views(v: Seq<Violation>) -> Seq<ViolationView> {
    v.map_values(|x: Violation| x@)
}

// ---------------------------------------------------------------------
// Merging counts
// ---------------------------------------------------------------------
/// Counts with nothing counted.
pub open spec fn no_counts() -> CountsView {
    (0usize, Seq::<(Seq<char>, usize)>::empty())
}

/// `entry(layer).or_insert(count)` for every source layer, in order.
pub open spec fn insert_all_if_absent(t: LayerCountsView, s: LayerCountsView) -> LayerCountsView
    decreases s.len(),
{
    if s.len() == 0 {
        t
    } else {
        assoc_insert_if_absent(insert_all_if_absent(t, s.drop_last()), s.last().0, s.last().1)
    }
}

/// Counts of one type after merging `source` into them: a zero total takes
/// the source total, and layers missing so far take the source counts.
pub open spec fn merge_one(existing: Option<CountsView>, source: CountsView) -> CountsView {
    let base = match existing {
        Some(c) => c,
        None => no_counts(),
    };
    (if base.0 == 0 {
        source.0
    } else {
        base.0
    }, insert_all_if_absent(base.1, source.1))
}

/// `target` after merging every type of `source`, in order.
pub open spec fn merge_counts(
    target: Seq<(Seq<char>, CountsView)>,
    source: Seq<(Seq<char>, CountsView)>,
) -> Seq<(Seq<char>, CountsView)>
    decreases source.len(),
{
    if source.len() == 0 {
        target
    } else {
        let prev = merge_counts(target, source.drop_last());
        let k = source.last().0;
        assoc_insert(prev, k, merge_one(assoc_get(prev, k), source.last().1))
    }
}

/// Adds the layers of `source` that `target` lacks.
fn insert_missing_layers(target: &mut LayerCounts, source: LayerCounts)
    ensures
        final(target)@ == insert_all_if_absent(old(target)@, source@),
{
    let entries = source.into_entries();
    let n = entries.len();
    for i in 0..n
        invariant
            n == entries@.len(),
            target@ == insert_all_if_absent(old(target)@, entry_views(entries@).take(i as int)),
    {
        let ghost s = entry_views(entries@);
        assert(s.take(i + 1).drop_last() =~= s.take(i as int));
        assert(s.take(i + 1).last() == s[i as int]);
        let key = &entries[i].0;
        let count = entries[i].1;
        if target.get(key.as_str()).is_none() {
            target.insert(key.clone(), count);
        }
    }
    assert(entry_views(entries@).take(n as int) =~= entry_views(entries@));
}

/// Merges `source` into `target`: for every source type, a zero target
/// total takes the source total and layers the target lacks take the
/// source counts; counts the target already has stay.
pub fn merge_type_counts(target: &mut TypeCountsMap, source: TypeCountsMap)
    ensures
        final(target)@ == merge_counts(old(target)@, source@),
{
    let mut entries = source.into_entries();
    let ghost all = entry_views(entries@);
    let n = entries.len();
    let mut i: usize = 0;
    while i < n
        invariant
            n == all.len(),
            i <= n,
            entry_views(entries@) == all.skip(i as int),
            target@ == merge_counts(old(target)@, all.take(i as int)),
        decreases n - i,
    {
        let ghost prev = target@;
        assert(entry_views(entries@).len() == entries@.len());
        assert(entries@.len() > 0);
        let ghost old_e = entries@;
        let (key, source_counts) = entries.remove(0);
        assert(entry_views(old_e)[0] == (key@, source_counts@));
        assert(entry_views(entries@) =~= entry_views(old_e).drop_first());
        assert(all[i as int] == (key@, source_counts@));
        assert(entry_views(entries@) =~= all.skip(i + 1));
        assert(all.take(i + 1).drop_last() =~= all.take(i as int));
        assert(all.take(i + 1).last() == all[i as int]);
        let existing = target.remove(key.as_str());
        let mut merged = match existing {
            Some(c) => c,
            None => TypeCounts::new(),
        };
        assert(merged@.0 == (match assoc_get(prev, key@) {
            Some(c) => c,
            None => no_counts(),
        }).0);
        if merged.total_count == 0 {
            merged.total_count = source_counts.total_count;
        }
        insert_missing_layers(&mut merged.layer_counts, source_counts.layer_counts);
        assert(merged@ == merge_one(assoc_get(prev, key@), source_counts@));
        proof {
            lemma_insert_after_remove(prev, key@, merged@);
        }
        target.insert(key, merged);
        i = i + 1;
    }
    assert(all.take(n as int) =~= all);
}

/// Merges DRC counts (see `merge_type_counts`).
pub fn merge_drc_counts(target: &mut TypeCountsMap, source: TypeCountsMap)
    ensures
        final(target)@ == merge_counts(old(target)@, source@),
{
    merge_type_counts(target, source)
}

/// Merges antenna counts (see `merge_type_counts`).
pub fn merge_antenna_counts(target: &mut TypeCountsMap, source: TypeCountsMap)
    ensures
        final(target)@ == merge_counts(old(target)@, source@),
{
    merge_type_counts(target, source)
}

// ---------------------------------------------------------------------
// Counting violations
// ---------------------------------------------------------------------
/// Counts of one type after counting one more violation on `layer`.
pub open spec fn count_one(existing: Option<CountsView>, layer: Seq<char>) -> CountsView {
    let base = match existing {
        Some(c) => c,
        None => no_counts(),
    };
    let layer_count: int = match assoc_get(base.1, layer) {
        Some(c) => c + 1,
        None => 1,
    };
    ((base.0 + 1) as usize, assoc_insert(base.1, layer, layer_count as usize))
}

/// Counts per type and layer of a sequence of violations.
pub open spec fn counts_from(vs: Seq<ViolationView>) -> Seq<(Seq<char>, CountsView)>
    decreases vs.len(),
{
    if vs.len() == 0 {
        Seq::empty()
    } else {
        let prev = counts_from(vs.drop_last());
        let v = vs.last();
        assoc_insert(prev, v.1, count_one(assoc_get(prev, v.1), v.2))
    }
}

/// Every count is at most `b`.
pub open spec fn counts_bounded(m: Seq<(Seq<char>, CountsView)>, b: int) -> bool {
    forall|j: int|
        0 <= j < m.len() ==> (#[trigger] m[j]).1.0 <= b && forall|l: int|
            0 <= l < m[j].1.1.len() ==> (#[trigger] m[j].1.1[l]).1 <= b
}

proof fn lemma_counts_bounded_step(prev: Seq<(Seq<char>, CountsView)>, b: int, k: Seq<char>, layer: Seq<char>)
    requires
        counts_bounded(prev, b),
        0 <= b,
        b + 1 <= usize::MAX,
    ensures
        counts_bounded(assoc_insert(prev, k, count_one(assoc_get(prev, k), layer)), b + 1),
{
    let existing = assoc_get(prev, k);
    let base = match existing {
        Some(c) => c,
        None => no_counts(),
    };
    if existing is Some {
        lemma_get_entry(prev, k);
        let m = choose|m: int| 0 <= m < prev.len() && #[trigger] prev[m] == (k, existing->0);
        assert(prev[m].1 == base);
    }
    assert(base.0 <= b);
    assert forall|l: int| 0 <= l < base.1.len() implies (#[trigger] base.1[l]).1 <= b by {
        if existing is Some {
            let m = choose|m: int| 0 <= m < prev.len() && #[trigger] prev[m] == (k, existing->0);
            assert(prev[m].1.1[l] == base.1[l]);
        }
    }
    let old_layer = assoc_get(base.1, layer);
    if old_layer is Some {
        lemma_get_entry(base.1, layer);
    }
    let c = count_one(existing, layer);
    assert forall|l: int| 0 <= l < c.1.len() implies (#[trigger] c.1[l]).1 <= b + 1 by {
        lemma_insert_entries(
            base.1,
            layer,
            (match old_layer {
                Some(x) => x + 1,
                None => 1,
            }) as usize,
            l,
        );
    }
    let r = assoc_insert(prev, k, c);
    assert forall|j: int| 0 <= j < r.len() implies (#[trigger] r[j]).1.0 <= b + 1 && forall|l: int|
        0 <= l < r[j].1.1.len() ==> (#[trigger] r[j].1.1[l]).1 <= b + 1 by {
        lemma_insert_entries(prev, k, c, j);
        if r[j] != (k, c) {
            let m = choose|m: int| 0 <= m < prev.len() && prev[m] == #[trigger] r[j];
            assert(prev[m] == r[j]);
        }
    }
}

fn count_violation(counts: &mut TypeCountsMap, violation: &Violation)
    requires
        counts_bounded(old(counts)@, usize::MAX - 1),
    ensures
        final(counts)@ == assoc_insert(
            old(counts)@,
            violation@.1,
            count_one(assoc_get(old(counts)@, violation@.1), violation@.2),
        ),
{
    let ghost prev = counts@;
    let existing = counts.remove(violation.violation_type.as_str());
    let mut c = match existing {
        Some(c) => c,
        None => TypeCounts::new(),
    };
    let ghost base = c@;
    proof {
        if assoc_get(prev, violation@.1) is Some {
            lemma_get_entry(prev, violation@.1);
            let m = choose|m: int|
                0 <= m < prev.len() && #[trigger] prev[m] == (
                    violation@.1,
                    assoc_get(prev, violation@.1)->0,
                );
            assert(prev[m].1 == base);
        }
    }
    c.total_count = c.total_count + 1;
    let old_layer = c.layer_counts.remove(violation.layer.as_str());
    let layer_count: usize = match old_layer {
        Some(x) => {
            proof {
                lemma_get_entry(base.1, violation@.2);
                let m = choose|m: int|
                    0 <= m < base.1.len() && #[trigger] base.1[m] == (violation@.2, x);
                assert(base.1[m].1 == x);
            }
            x + 1
        },
        None => 1,
    };
    proof {
        lemma_insert_after_remove(base.1, violation@.2, layer_count);
    }
    c.layer_counts.insert(violation.layer.clone(), layer_count);
    proof {
        lemma_insert_after_remove(prev, violation@.1, c@);
    }
    counts.insert(violation.violation_type.clone(), c);
}

/// Counts violations per type and per layer.
pub fn counts_from_violations(violations: &Vec<Violation>) -> (counts: TypeCountsMap)
    ensures
        counts@ == counts_from(violation_views(violations@)),
{
    let mut counts: TypeCountsMap = StrMap::new();
    let n = violations.len();
    let ghost vs = violation_views(violations@);
    for i in 0..n
        invariant
            n == violations@.len(),
            vs == violation_views(violations@),
            counts@ == counts_from(vs.take(i as int)),
            counts_bounded(counts@, i as int),
    {
        assert(vs.take(i + 1).drop_last() =~= vs.take(i as int));
        assert(vs.take(i + 1).last() == violations@[i as int]@);
        proof {
            lemma_counts_bounded_step(counts@, i as int, violations@[i as int]@.1, violations@[i as int]@.2);
        }
        count_violation(&mut counts, &violations[i]);
    }
    assert(vs.take(n as int) =~= vs);
    counts
}

/// Counts DRC violations (see `counts_from_violations`).
pub fn drc_counts_from_violations(violations: &Vec<Violation>) -> (counts: TypeCountsMap)
    ensures
        counts@ == counts_from(violation_views(violations@)),
{
    counts_from_violations(violations)
}

/// Counts antenna violations (see `counts_from_violations`).
pub fn antenna_counts_from_violations(violations: &Vec<Violation>) -> (counts: TypeCountsMap)
    ensures
        counts@ == counts_from(violation_views(violations@)),
{
    counts_from_violations(violations)
}

// ---------------------------------------------------------------------
// Type states
// ---------------------------------------------------------------------
/// One violation type as the analysis panel lists it.
pub struct TypeState {
    pub name: String,
    pub total_count: usize,
    pub layer_counts: LayerCounts,
    pub visible: bool,
}

/// The model of a type state: name, total, layer counts, visibility.
pub type TypeStateView = (Seq<char>, usize, LayerCountsView, bool);

impl View for TypeState {
    type V = TypeStateView;

    open spec fn view(&self) -> TypeStateView {
        (self.name@, self.total_count, self.layer_counts@, self.visible)
    }
}

pub type DrcTypeState = TypeState;

pub type AntennaTypeState = TypeState;

pub open spec fn state_views(v: Seq<TypeState>) -> Seq<TypeStateView> {
    v.map_values(|x: TypeState| x@)
}

/// The visible states of the types that count anything, in type order.
pub open spec fn type_states(m: Seq<(Seq<char>, CountsView)>) -> Seq<TypeStateView>
    decreases m.len(),
{
    if m.len() == 0 {
        Seq::empty()
    } else {
        let prev = type_states(m.drop_last());
        let (k, c) = m.last();
        if c.0 > 0 || c.1.len() > 0 {
            prev.push((k, c.0, c.1, true))
        } else {
            prev
        }
    }
}

/// One visible state per type that counts anything, in type order.
pub fn type_states_from_counts(counts: TypeCountsMap) -> (states: Vec<TypeState>)
    ensures
        state_views(states@) == type_states(counts@),
{
    let mut entries = counts.into_entries();
    let ghost all = entry_views(entries@);
    let n = entries.len();
    let mut states: Vec<TypeState> = Vec::new();
    let mut i: usize = 0;
    while i < n
        invariant
            n == all.len(),
            i <= n,
            entry_views(entries@) == all.skip(i as int),
            state_views(states@) == type_states(all.take(i as int)),
        decreases n - i,
    {
        assert(entry_views(entries@).len() == entries@.len());
        assert(entries@.len() > 0);
        let ghost old_e = entries@;
        let (name, c) = entries.remove(0);
        assert(entry_views(old_e)[0] == (name@, c@));
        assert(entry_views(entries@) =~= entry_views(old_e).drop_first());
        assert(all[i as int] == (name@, c@));
        assert(entry_views(entries@) =~= all.skip(i + 1));
        assert(all.take(i + 1).drop_last() =~= all.take(i as int));
        assert(all.take(i + 1).last() == all[i as int]);
        if c.total_count > 0 || c.layer_counts.len() > 0 {
            let state = TypeState {
                name,
                total_count: c.total_count,
                layer_counts: c.layer_counts,
                visible: true,
            };
            let ghost before = state_views(states@);
            states.push(state);
            assert(state_views(states@) =~= before.push(state@));
        }
        i = i + 1;
    }
    assert(all.take(n as int) =~= all);
    states
}

/// DRC type states (see `type_states_from_counts`).
pub fn drc_type_states_from_counts(counts: TypeCountsMap) -> (states: Vec<TypeState>)
    ensures
        state_views(states@) == type_states(counts@),
{
    type_states_from_counts(counts)
}

/// Antenna type states (see `type_states_from_counts`).
pub fn antenna_type_states_from_counts(counts: TypeCountsMap) -> (states: Vec<TypeState>)
    ensures
        state_views(states@) == type_states(counts@),
{
    type_states_from_counts(counts)
}

// ---------------------------------------------------------------------
// Summaries and detail lines
// ---------------------------------------------------------------------
/// The layers with a positive count, in layer order.
pub open spec fn positive_layers(s: LayerCountsView) -> LayerCountsView
    decreases s.len(),
{
    if s.len() == 0 {
        s
    } else {
        let prev = positive_layers(s.drop_last());
        if s.last().1 > 0 {
            prev.push(s.last())
        } else {
            prev
        }
    }
}

/// `"{layer}: {count}"`.
pub open spec fn layer_part(e: (Seq<char>, usize)) -> Seq<char> {
    e.0 + ": "@ + decimal(e.1 as nat)
}

/// How many layers a summary names before it abbreviates.
pub open spec fn summary_limit() -> int {
    6
}

/// The parts of a layer summary: the first six positive layers, then a
/// `+N layers` note for the rest.
pub open spec fn summary_parts(s: LayerCountsView) -> Seq<Seq<char>> {
    let p = positive_layers(s);
    let shown = p.take(if p.len() < summary_limit() {
        p.len() as int
    } else {
        summary_limit()
    }).map_values(|e: (Seq<char>, usize)| layer_part(e));
    if p.len() > summary_limit() {
        shown.push("+"@ + decimal((p.len() - summary_limit()) as nat) + " layers"@)
    } else {
        shown
    }
}

/// The summary line of a type's layer counts.
pub open spec fn layer_summary(s: LayerCountsView) -> Seq<char> {
    join(summary_parts(s), "  "@)
}

/// Summarises layer counts: up to six `layer: count` parts for the layers
/// with a positive count, then `+N layers` for any others, separated by two
/// spaces.
pub fn layer_counts_summary(layer_counts: &LayerCounts) -> (r: String)
    ensures
        r@ == layer_summary(layer_counts@),
{
    let entries = layer_counts.entries();
    let ghost s = layer_counts@;
    let n = entries.len();
    let mut parts: Vec<String> = Vec::new();
    let mut positive: usize = 0;
    for i in 0..n
        invariant
            n == entries@.len(),
            entry_views(entries@) == s,
            positive as int == positive_layers(s.take(i as int)).len(),
            positive <= i,
            string_views(parts@) == positive_layers(s.take(i as int)).take(
                if positive < 6 {
                    positive as int
                } else {
                    6
                },
            ).map_values(|e: (Seq<char>, usize)| layer_part(e)),
    {
        let ghost p0 = positive_layers(s.take(i as int));
        assert(s.take(i + 1).drop_last() =~= s.take(i as int));
        assert(s.take(i + 1).last() == s[i as int]);
        assert(s[i as int] == (entries@[i as int].0@, entries@[i as int].1));
        let count = entries[i].1;
        if count > 0 {
            let ghost p1 = positive_layers(s.take(i + 1));
            assert(p1 == p0.push(s[i as int]));
            if positive < 6 {
                let mut part = String::new();
                push_str(&mut part, entries[i].0.as_str());
                push_str(&mut part, ": ");
                push_decimal(&mut part, count as u64);
                let ghost before = string_views(parts@);
                parts.push(part);
                assert(string_views(parts@) =~= before.push(part@));
                assert(p1.take(positive + 1) =~= p0.take(positive as int).push(s[i as int]));
                assert(string_views(parts@) =~= p1.take(positive + 1).map_values(
                    |e: (Seq<char>, usize)| layer_part(e),
                ));
            } else {
                assert(p1.take(6) =~= p0.take(6));
            }
            positive = positive + 1;
        }
    }
    assert(s.take(n as int) =~= s);
    if positive > 6 {
        let mut note = String::new();
        push_str(&mut note, "+");
        push_decimal(&mut note, (positive - 6) as u64);
        push_str(&mut note, " layers");
        let ghost before = string_views(parts@);
        parts.push(note);
        assert(string_views(parts@) =~= before.push(note@));
    }
    assert(string_views(parts@) =~= summary_parts(s));
    join_strings(&parts, "  ")
}

/// Summarises DRC layer counts (see `layer_counts_summary`).
pub fn drc_layer_counts_summary(layer_counts: &LayerCounts) -> (r: String)
    ensures
        r@ == layer_summary(layer_counts@),
{
    layer_counts_summary(layer_counts)
}

/// Summarises antenna layer counts (see `layer_counts_summary`).
pub fn antenna_layer_counts_summary(layer_counts: &LayerCounts) -> (r: String)
    ensures
        r@ == layer_summary(layer_counts@),
{
    layer_counts_summary(layer_counts)
}

/// The detail lines of a violation: type, layer, box, then the required
/// size, nets and instances when present.
pub open spec fn detail_lines(v: ViolationView) -> Seq<Seq<char>> {
    let base = seq![
        "type: "@ + v.1,
        "layer: "@ + v.2,
        "bbox: ("@ + int_decimal(v.3.lx as int) + ", "@ + int_decimal(v.3.ly as int) + ") - ("@
            + int_decimal(v.3.hx as int) + ", "@ + int_decimal(v.3.hy as int) + ")"@,
    ];
    let with_size = match v.4 {
        Some(r) => base.push("required size: "@ + int_decimal(r as int)),
        None => base,
    };
    let with_nets = if v.5.len() > 0 {
        with_size.push("nets: "@ + join(v.5, ", "@))
    } else {
        with_size
    };
    if v.6.len() > 0 {
        with_nets.push("instances: "@ + join(v.6, ", "@))
    } else {
        with_nets
    }
}

fn labelled(label: &str, value: &str) -> (r: String)
    ensures
        r@ == label@ + value@,
{
    let mut r = String::new();
    push_str(&mut r, label);
    push_str(&mut r, value);
    assert(r@ =~= label@ + value@);
    r
}

/// The detail lines of a violation (see `detail_lines`).
pub fn violation_detail_lines(violation: &Violation) -> (lines: Vec<String>)
    ensures
        string_views(lines@) == detail_lines(violation@),
{
    let v = violation;
    let mut lines: Vec<String> = Vec::new();
    lines.push(labelled("type: ", v.violation_type.as_str()));
    lines.push(labelled("layer: ", v.layer.as_str()));
    let mut b = String::new();
    push_str(&mut b, "bbox: (");
    push_int_decimal(&mut b, v.bbox.lx as i64);
    push_str(&mut b, ", ");
    push_int_decimal(&mut b, v.bbox.ly as i64);
    push_str(&mut b, ") - (");
    push_int_decimal(&mut b, v.bbox.hx as i64);
    push_str(&mut b, ", ");
    push_int_decimal(&mut b, v.bbox.hy as i64);
    push_str(&mut b, ")");
    lines.push(b);
    let ghost base = string_views(lines@);
    assert(base =~= seq![
        "type: "@ + violation@.1,
        "layer: "@ + violation@.2,
        "bbox: ("@ + int_decimal(violation@.3.lx as int) + ", "@ + int_decimal(violation@.3.ly as int)
            + ") - ("@ + int_decimal(violation@.3.hx as int) + ", "@ + int_decimal(
            violation@.3.hy as int,
        ) + ")"@,
    ]);
    if let Some(required_size) = v.required_size {
        let mut line = String::new();
        push_str(&mut line, "required size: ");
        push_int_decimal(&mut line, required_size);
        let ghost before = string_views(lines@);
        lines.push(line);
        assert(string_views(lines@) =~= before.push(line@));
    }
    if v.nets.len() > 0 {
        let joined = join_strings(&v.nets, ", ");
        let line = labelled("nets: ", joined.as_str());
        let ghost before = string_views(lines@);
        lines.push(line);
        assert(string_views(lines@) =~= before.push(line@));
    }
    if v.insts.len() > 0 {
        let joined = join_strings(&v.insts, ", ");
        let line = labelled("instances: ", joined.as_str());
        let ghost before = string_views(lines@);
        lines.push(line);
        assert(string_views(lines@) =~= before.push(line@));
    }
    lines
}

/// The detail lines of a DRC violation.
pub fn drc_detail_lines(violation: &Violation) -> (lines: Vec<String>)
    ensures
        string_views(lines@) == detail_lines(violation@),
{
    violation_detail_lines(violation)
}

/// The detail lines of an antenna violation.
pub fn antenna_detail_lines(violation: &Violation) -> (lines: Vec<String>)
    ensures
        string_views(lines@) == detail_lines(violation@),
{
    violation_detail_lines(violation)
}

// ---------------------------------------------------------------------
// Overlays
// ---------------------------------------------------------------------
/// The violations and per-type states of one analysis (DRC or antenna),
/// with the paths they came from and any load error.
pub struct ViolationOverlay {
    pub data_path: Option<String>,
    pub statis_path: Option<String>,
    pub type_states: Vec<TypeState>,
    pub violations: Vec<Violation>,
    pub load_error: Option<String>,
    /// The violations' boxes, each tagged with the violation's position.
    pub rtree: BoxIndex,
}

pub type DrcOverlay = ViolationOverlay;

pub type AntennaOverlay = ViolationOverlay;

/// Sum of the totals of type states.
pub open spec fn totals_sum(s: Seq<TypeStateView>) -> nat
    decreases s.len(),
{
    if s.len() == 0 {
        0
    } else {
        totals_sum(s.drop_last()) + (s.last().1 as nat)
    }
}

/// Number of visible type states.
pub open spec fn visible_count(s: Seq<TypeStateView>) -> nat
    decreases s.len(),
{
    if s.len() == 0 {
        0
    } else {
        visible_count(s.drop_last()) + if s.last().3 {
            1nat
        } else {
            0nat
        }
    }
}

/// Whether the first state named `name` is visible (false when none is).
pub open spec fn named_visible(s: Seq<TypeStateView>, name: Seq<char>) -> bool
    decreases s.len(),
{
    if s.len() == 0 {
        false
    } else if s[0].0 == name {
        s[0].3
    } else {
        named_visible(s.drop_first(), name)
    }
}

proof fn lemma_totals_prefix(s: Seq<TypeStateView>, i: int, j: int)
    requires
        0 <= i <= j <= s.len(),
    ensures
        totals_sum(s.take(i)) <= totals_sum(s.take(j)),
    decreases j - i,
{
    if i < j {
        lemma_totals_prefix(s, i, j - 1);
        assert(s.take(j).drop_last() =~= s.take(j - 1));
    }
}

proof fn lemma_visible_count_bound(s: Seq<TypeStateView>)
    ensures
        visible_count(s) <= s.len(),
    decreases s.len(),
{
    if s.len() > 0 {
        lemma_visible_count_bound(s.drop_last());
    }
}

impl ViolationOverlay {
    /// Sum of the type totals.
    pub fn total_count(&self) -> (n: usize)
        requires
            totals_sum(state_views(self.type_states@)) <= usize::MAX,
        ensures
            n == totals_sum(state_views(self.type_states@)),
    {
        let ghost s = state_views(self.type_states@);
        let m = self.type_states.len();
        let mut acc: usize = 0;
        for i in 0..m
            invariant
                m == self.type_states@.len(),
                s == state_views(self.type_states@),
                totals_sum(s) <= usize::MAX,
                acc == totals_sum(s.take(i as int)),
        {
            proof {
                lemma_totals_prefix(s, i + 1, s.len() as int);
                assert(s.take(s.len() as int) =~= s);
                assert(s.take(i + 1).drop_last() =~= s.take(i as int));
            }
            acc = acc + self.type_states[i].total_count;
        }
        assert(s.take(m as int) =~= s);
        acc
    }

    /// Number of visible types.
    pub fn selected_type_count(&self) -> (n: usize)
        ensures
            n == visible_count(state_views(self.type_states@)),
    {
        let ghost s = state_views(self.type_states@);
        let m = self.type_states.len();
        let mut acc: usize = 0;
        for i in 0..m
            invariant
                m == self.type_states@.len(),
                s == state_views(self.type_states@),
                acc == visible_count(s.take(i as int)),
        {
            proof {
                lemma_visible_count_bound(s.take(i as int));
                assert(s.take(i + 1).drop_last() =~= s.take(i as int));
            }
            if self.type_states[i].visible {
                acc = acc + 1;
            }
        }
        assert(s.take(m as int) =~= s);
        acc
    }

    /// Shows or hides every type; nothing else changes.
    pub fn set_all_visible(&mut self, visible: bool)
        ensures
            final(self).type_states@.len() == old(self).type_states@.len(),
            forall|i: int|
                0 <= i < old(self).type_states@.len() ==> (#[trigger] final(self).type_states@[i])@
                    == ((old(self).type_states@[i])@.0, (old(self).type_states@[i])@.1, (old(
                    self,
                ).type_states@[i])@.2, visible),
            final(self).data_path == old(self).data_path,
            final(self).statis_path == old(self).statis_path,
            final(self).violations == old(self).violations,
            final(self).load_error == old(self).load_error,
    {
        let mut states: Vec<TypeState> = Vec::new();
        std::mem::swap(&mut states, &mut self.type_states);
        let ghost initial = states@;
        let n = states.len();
        let mut out: Vec<TypeState> = Vec::new();
        let mut i: usize = 0;
        while i < n
            invariant
                n == initial.len(),
                i <= n,
                states@ == initial.skip(i as int),
                out@.len() == i,
                forall|j: int|
                    0 <= j < i ==> (#[trigger] out@[j])@ == (initial[j]@.0, initial[j]@.1, initial[j]@.2, visible),
            decreases n - i,
        {
            let ghost before = states@;
            let mut state = states.remove(0);
            assert(states@ =~= initial.skip(i + 1));
            assert(state == initial[i as int]);
            state.visible = visible;
            out.push(state);
            i = i + 1;
        }
        self.type_states = out;
    }

    /// Whether the first type named `name` is visible; false when no type
    /// has that name.
    pub fn type_is_visible(&self, name: &str) -> (r: bool)
        ensures
            r == named_visible(state_views(self.type_states@), name@),
    {
        let ghost s = state_views(self.type_states@);
        let m = self.type_states.len();
        assert(s.skip(0) =~= s);
        for i in 0..m
            invariant
                m == self.type_states@.len(),
                s == state_views(self.type_states@),
                named_visible(s, name@) == named_visible(s.skip(i as int), name@),
        {
            assert(s.skip(i as int)[0] == s[i as int]);
            assert(s.skip(i as int).drop_first() =~= s.skip(i + 1));
            if self.type_states[i].name == string_from_str(name) {
                return self.type_states[i].visible;
            }
        }
        assert(s.skip(m as int).len() == 0);
        false
    }
}

/// A layer of that name, compared in ASCII lowercase, is switched off.
pub open spec fn layer_hidden(layers: Seq<LayerUiState>, name: Seq<char>) -> bool {
    exists|i: int|
        0 <= i < layers.len() && !layers[i].visible && #[trigger] eq_ignore_case(
            layers[i].name@,
            name,
        )
}

/// A visible type state has that name.
pub open spec fn type_shown(states: Seq<TypeState>, name: Seq<char>) -> bool {
    exists|i: int| 0 <= i < states.len() && states[i].visible && #[trigger] states[i].name@ == name
}

/// A violation is drawn: its layer is not switched off, its type is shown,
/// and, given a viewport, its box meets it.
pub open spec fn violation_drawn(
    v: Violation,
    layers: Seq<LayerUiState>,
    states: Seq<TypeState>,
    viewport: Option<Rect32>,
) -> bool {
    &&& !layer_hidden(layers, v.layer@)
    &&& type_shown(states, v.violation_type@)
    &&& match viewport {
        Some(vp) => in_view(v.bbox, vp),
        None => true,
    }
}

/// The number of violations drawn.
pub open spec fn drawn_count(
    vs: Seq<Violation>,
    layers: Seq<LayerUiState>,
    states: Seq<TypeState>,
    viewport: Option<Rect32>,
) -> nat
    decreases vs.len(),
{
    if vs.len() == 0 {
        0
    } else {
        drawn_count(vs.drop_last(), layers, states, viewport) + if violation_drawn(
            vs.last(),
            layers,
            states,
            viewport,
        ) {
            1nat
        } else {
            0nat
        }
    }
}

fn same_name(a: &String, b: &String) -> (r: bool)
    ensures
        r == (a@ == b@),
{
    crate::text::chars_eq_str(&crate::text::str_chars(a.as_str()), b.as_str())
}

fn layer_is_hidden(layers: &Vec<LayerUiState>, name: &String) -> (r: bool)
    ensures
        r == layer_hidden(layers@, name@),
{
    let name_chars = str_chars(name.as_str());
    let n = layers.len();
    for i in 0..n
        invariant
            n == layers@.len(),
            name_chars@ == name@,
            forall|j: int|
                0 <= j < i ==> !(!layers@[j].visible && #[trigger] eq_ignore_case(
                    layers@[j].name@,
                    name@,
                )),
    {
        if !layers[i].visible && chars_eq_ignore_case(&str_chars(layers[i].name.as_str()), &name_chars) {
            return true;
        }
    }
    false
}

fn type_is_shown(states: &Vec<TypeState>, name: &String) -> (r: bool)
    ensures
        r == type_shown(states@, name@),
{
    let n = states.len();
    for i in 0..n
        invariant
            n == states@.len(),
            forall|j: int| 0 <= j < i ==> !(states@[j].visible && #[trigger] states@[j].name@ == name@),
    {
        if states[i].visible && same_name(&states[i].name, name) {
            return true;
        }
    }
    false
}

/// A box is in the viewport when their envelopes share a point.
pub open spec fn in_view(bbox: Rect32, viewport: Rect32) -> bool {
    touches(entry_of(bbox, 0), envelope(viewport))
}

/// The boxes of the violations, in order.
pub open spec fn violation_boxes(vs: Seq<Violation>) -> Seq<Rect32> {
    Seq::new(vs.len(), |i: int| vs[i].bbox)
}

/// The index entry stands for a violation that is shown (its layer is not
/// hidden and its type is shown).
pub open spec fn entry_drawn(
    e: (i32, i32, i32, i32, usize),
    vs: Seq<Violation>,
    layers: Seq<LayerUiState>,
    states: Seq<TypeState>,
) -> bool {
    e.4 < vs.len() && !layer_hidden(layers, vs[e.4 as int].layer@) && type_shown(
        states,
        vs[e.4 as int].violation_type@,
    )
}

/// The entries of the index that are in the viewport and stand for shown
/// violations.
pub open spec fn drawn_entries(
    entries: vstd::multiset::Multiset<(i32, i32, i32, i32, usize)>,
    vs: Seq<Violation>,
    layers: Seq<LayerUiState>,
    states: Seq<TypeState>,
    viewport: Rect32,
) -> vstd::multiset::Multiset<(i32, i32, i32, i32, usize)> {
    entries.filter(
        |e: (i32, i32, i32, i32, usize)|
            touches(e, envelope(viewport)) && entry_drawn(e, vs, layers, states),
    )
}

/// Counting, over a prefix of the violations, the entries that are in the
/// viewport and drawn is counting the violations drawn there.
proof fn lemma_drawn_entries_prefix(
    vs: Seq<Violation>,
    layers: Seq<LayerUiState>,
    states: Seq<TypeState>,
    viewport: Rect32,
    k: int,
)
    requires
        0 <= k <= vs.len(),
        vs.len() <= usize::MAX,
    ensures
        count_where(
            Seq::new(vs.len(), |i: int| entry_of(vs[i].bbox, i as usize)).take(k),
            |e: (i32, i32, i32, i32, usize)|
                touches(e, envelope(viewport)) && entry_drawn(e, vs, layers, states),
        ) == drawn_count(vs.take(k), layers, states, Some(viewport)),
    decreases k,
{
    let entries = Seq::new(vs.len(), |i: int| entry_of(vs[i].bbox, i as usize));
    if k > 0 {
        lemma_drawn_entries_prefix(vs, layers, states, viewport, k - 1);
        assert(entries.take(k).drop_last() =~= entries.take(k - 1));
        assert(vs.take(k).drop_last() =~= vs.take(k - 1));
        assert(entries.take(k).last() == entry_of(vs[k - 1].bbox, (k - 1) as usize));
        assert(vs.take(k).last() == vs[k - 1]);
    }
}

impl ViolationOverlay {
    /// The index holds exactly the violations' boxes, each tagged with its
    /// violation's position.
    pub open spec fn indexed(&self) -> bool {
        index_entries(self.rtree) == entries_of(tagged(violation_boxes(self.violations@)))
    }

    /// How many violations are drawn.  In a viewport they are looked up in
    /// the index: the entries touching it that stand for shown violations.
    /// Without one, every violation is counted that is shown (see
    /// `violation_drawn`).  For an overlay whose index matches its
    /// violations, both are the number of violations drawn.
    pub fn visible_violation_count(&self, layers: &Vec<LayerUiState>, viewport: Option<Rect32>) -> (n:
        usize)
        ensures
            match viewport {
                Some(vp) => n == drawn_entries(
                    index_entries(self.rtree),
                    self.violations@,
                    layers@,
                    self.type_states@,
                    vp,
                ).len(),
                None => n == drawn_count(self.violations@, layers@, self.type_states@, None),
            },
            self.indexed() ==> n == drawn_count(self.violations@, layers@, self.type_states@, viewport),
    {
        let vs = &self.violations;
        match viewport {
            Some(vp) => {
                let total = vs.len();
                let found = locate_touching(&self.rtree, vp);
                let ghost p = |e: (i32, i32, i32, i32, usize)| entry_drawn(e, vs@, layers@, self.type_states@);
                let m = found.len();
                let mut count: usize = 0;
                for i in 0..m
                    invariant
                        m == found@.len(),
                        vs@ == self.violations@,
                        count <= i,
                        total == vs@.len(),
                        p == (|e: (i32, i32, i32, i32, usize)|
                            entry_drawn(e, vs@, layers@, self.type_states@)),
                        count == count_where(found@.take(i as int), p),
                {
                    assert(found@.take(i + 1).drop_last() =~= found@.take(i as int));
                    assert(found@.take(i + 1).last() == found@[i as int]);
                    let e = found[i];
                    if e.4 < vs.len() && !layer_is_hidden(layers, &vs[e.4].layer) && type_is_shown(
                        &self.type_states,
                        &vs[e.4].violation_type,
                    ) {
                        count = count + 1;
                    }
                }
                proof {
                    assert(found@.take(m as int) =~= found@);
                    lemma_count_where_multiset(found@, p);
                    let touch = |e: (i32, i32, i32, i32, usize)| touches(e, envelope(vp));
                    let all = index_entries(self.rtree);
                    lemma_filter_filter(all, touch, p);
                    assert(all.filter(|a: (i32, i32, i32, i32, usize)| touch(a) && p(a)) =~= drawn_entries(
                        all,
                        vs@,
                        layers@,
                        self.type_states@,
                        vp,
                    ));
                    if self.indexed() {
                        let boxes = violation_boxes(vs@);
                        let q = |e: (i32, i32, i32, i32, usize)|
                            touches(e, envelope(vp)) && entry_drawn(e, vs@, layers@, self.type_states@);
                        lemma_entries_filter_len(boxes, q);
                        let entries = Seq::new(boxes.len(), |i: int| entry_of(boxes[i], i as usize));
                        let entries2 = Seq::new(vs@.len(), |i: int| entry_of(vs@[i].bbox, i as usize));
                        assert(entries =~= entries2);
                        lemma_drawn_entries_prefix(vs@, layers@, self.type_states@, vp, vs@.len() as int);
                        assert(entries2.take(vs@.len() as int) =~= entries2);
                        assert(vs@.take(vs@.len() as int) =~= vs@);
                    }
                }
                count
            },
            None => {
                let n = vs.len();
                let mut count: usize = 0;
                for i in 0..n
                    invariant
                        n == vs@.len(),
                        vs@ == self.violations@,
                        count <= i,
                        count == drawn_count(vs@.take(i as int), layers@, self.type_states@, None),
                {
                    assert(vs@.take(i + 1).drop_last() =~= vs@.take(i as int));
                    assert(vs@.take(i + 1).last() == vs@[i as int]);
                    let v = &vs[i];
                    if !layer_is_hidden(layers, &v.layer) && type_is_shown(&self.type_states, &v.violation_type) {
                        count = count + 1;
                    }
                }
                assert(vs@.take(n as int) =~= vs@);
                count
            },
        }
    }
}

/// The characters of an optional string.
pub open spec fn opt_chars(s: Option<String>) -> Option<Seq<char>> {
    match s {
        Some(x) => Some(x@),
        None => None,
    }
}

/// `failed to load <label> data <path>: <err>`.
pub open spec fn data_error(label: Seq<char>, path: Seq<char>, err: Seq<char>) -> Seq<char> {
    "failed to load "@ + label + " data "@ + path + ": "@ + err
}

/// `failed to load <label> statistics <path>: <err>`.
pub open spec fn statis_error(label: Seq<char>, path: Seq<char>, err: Seq<char>) -> Seq<char> {
    "failed to load "@ + label + " statistics "@ + path + ": "@ + err
}

/// The load error of an overlay: the data error, the statistics error, or
/// both joined by `; `.
pub open spec fn overlay_error(
    label: Seq<char>,
    data_path: Option<String>,
    data: Option<Result<(Vec<Violation>, TypeCountsMap), String>>,
    statis_path: Option<String>,
    statis: Option<Result<TypeCountsMap, String>>,
) -> Option<Seq<char>> {
    let e1 = match (data_path, data) {
        (Some(p), Some(Err(e))) => Some(data_error(label, p@, e@)),
        _ => None,
    };
    let e2 = match (statis_path, statis) {
        (Some(p), Some(Err(e))) => Some(statis_error(label, p@, e@)),
        _ => None,
    };
    match (e1, e2) {
        (Some(a), Some(b)) => Some(a + "; "@ + b),
        (Some(a), None) => Some(a),
        (None, b) => b,
    }
}

/// The violations an overlay takes from its report, none when the report
/// is absent or failed.
pub open spec fn overlay_violations(data: Option<Result<(Vec<Violation>, TypeCountsMap), String>>) -> Seq<
    ViolationView,
> {
    match data {
        Some(Ok((v, _))) => violation_views(v@),
        _ => Seq::empty(),
    }
}

/// The type states of an overlay: the report counts, merged with the
/// statistics counts, merged with the counts of the report's violations.
pub open spec fn overlay_states(
    data: Option<Result<(Vec<Violation>, TypeCountsMap), String>>,
    statis: Option<Result<TypeCountsMap, String>>,
) -> Seq<TypeStateView> {
    let from_data = match data {
        Some(Ok((_, c))) => c@,
        _ => Seq::empty(),
    };
    let with_statis = match statis {
        Some(Ok(c)) => merge_counts(from_data, c@),
        _ => from_data,
    };
    type_states(merge_counts(with_statis, counts_from(overlay_violations(data))))
}

fn error_message(label: &str, what: &str, path: &String, err: &String) -> (r: String)
    ensures
        r@ == "failed to load "@ + label@ + what@ + path@ + ": "@ + err@,
{
    let mut r = String::new();
    push_str(&mut r, "failed to load ");
    push_str(&mut r, label);
    push_str(&mut r, what);
    push_str(&mut r, path.as_str());
    push_str(&mut r, ": ");
    push_str(&mut r, err.as_str());
    assert(r@ =~= "failed to load "@ + label@ + what@ + path@ + ": "@ + err@);
    r
}

/// Assembles an overlay from what was read for it: the report (its
/// violations and counts, or the error reading it) and the statistics
/// (counts, or the error).  No overlay when neither path is given.
pub fn overlay_from_sources(
    label: &str,
    data_path: Option<String>,
    statis_path: Option<String>,
    data: Option<Result<(Vec<Violation>, TypeCountsMap), String>>,
    statis: Option<Result<TypeCountsMap, String>>,
) -> (r: Option<ViolationOverlay>)
    requires
        data is Some <==> data_path is Some,
        statis is Some <==> statis_path is Some,
    ensures
        r is None <==> data_path is None && statis_path is None,
        r matches Some(o) ==> {
            &&& o.data_path == data_path
            &&& o.statis_path == statis_path
            &&& violation_views(o.violations@) == overlay_violations(data)
            &&& state_views(o.type_states@) == overlay_states(data, statis)
            &&& opt_chars(o.load_error) == overlay_error(label@, data_path, data, statis_path, statis)
            &&& o.indexed()
        },
{
    if data_path.is_none() && statis_path.is_none() {
        return None;
    }
    let ghost data_g = data;
    let ghost statis_g = statis;
    let mut load_error: Option<String> = None;
    let mut violations: Vec<Violation> = Vec::new();
    let mut counts: TypeCountsMap = StrMap::new();
    match data {
        Some(Ok((v, c))) => {
            violations = v;
            counts = c;
        },
        Some(Err(e)) => {
            match &data_path {
                Some(p) => {
                    load_error = Some(error_message(label, " data ", p, &e));
                },
                None => {},
            }
        },
        None => {},
    }
    assert(violation_views(violations@) =~= overlay_violations(data_g));
    match statis {
        Some(Ok(c)) => {
            merge_type_counts(&mut counts, c);
        },
        Some(Err(e)) => {
            match &statis_path {
                Some(p) => {
                    let message = error_message(label, " statistics ", p, &e);
                    load_error = match load_error {
                        Some(existing) => {
                            let mut joined = existing;
                            push_str(&mut joined, "; ");
                            push_str(&mut joined, message.as_str());
                            Some(joined)
                        },
                        None => Some(message),
                    };
                },
                None => {},
            }
        },
        None => {},
    }
    let from_violations = counts_from_violations(&violations);
    merge_type_counts(&mut counts, from_violations);
    let type_states = type_states_from_counts(counts);
    let mut boxes: Vec<Rect32> = Vec::new();
    for i in 0..violations.len()
        invariant
            boxes@ == violation_boxes(violations@.take(i as int)),
    {
        assert(violation_boxes(violations@.take(i + 1)) =~= violation_boxes(violations@.take(i as int)).push(
            violations@[i as int].bbox,
        ));
        boxes.push(violations[i].bbox);
    }
    assert(violations@.take(violations@.len() as int) =~= violations@);
    let rtree = index_boxes(&boxes);
    Some(ViolationOverlay { data_path, statis_path, type_states, violations, load_error, rtree })
}

/// A DRC overlay (see `overlay_from_sources`).
pub fn drc_overlay_from_sources(
    data_path: Option<String>,
    statis_path: Option<String>,
    data: Option<Result<(Vec<Violation>, TypeCountsMap), String>>,
    statis: Option<Result<TypeCountsMap, String>>,
) -> (r: Option<ViolationOverlay>)
    requires
        data is Some <==> data_path is Some,
        statis is Some <==> statis_path is Some,
    ensures
        r is None <==> data_path is None && statis_path is None,
        r matches Some(o) ==> {
            &&& o.data_path == data_path
            &&& o.statis_path == statis_path
            &&& violation_views(o.violations@) == overlay_violations(data)
            &&& state_views(o.type_states@) == overlay_states(data, statis)
            &&& opt_chars(o.load_error) == overlay_error("DRC"@, data_path, data, statis_path, statis)
            &&& o.indexed()
        },
{
    overlay_from_sources("DRC", data_path, statis_path, data, statis)
}

/// An antenna overlay (see `overlay_from_sources`).
pub fn antenna_overlay_from_sources(
    data_path: Option<String>,
    statis_path: Option<String>,
    data: Option<Result<(Vec<Violation>, TypeCountsMap), String>>,
    statis: Option<Result<TypeCountsMap, String>>,
) -> (r: Option<ViolationOverlay>)
    requires
        data is Some <==> data_path is Some,
        statis is Some <==> statis_path is Some,
    ensures
        r is None <==> data_path is None && statis_path is None,
        r matches Some(o) ==> {
            &&& o.data_path == data_path
            &&& o.statis_path == statis_path
            &&& violation_views(o.violations@) == overlay_violations(data)
            &&& state_views(o.type_states@) == overlay_states(data, statis)
            &&& opt_chars(o.load_error) == overlay_error(
                "Antenna"@,
                data_path,
                data,
                statis_path,
                statis,
            )
            &&& o.indexed()
        },
{
    overlay_from_sources("Antenna", data_path, statis_path, data, statis)
}

} // verus!
