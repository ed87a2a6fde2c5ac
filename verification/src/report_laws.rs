//! Properties of what the DRC and antenna reports and their statistics
//! give: violation numbering and boxes, where totals come from, which keys
//! a statistics table can hold, the layer summary line, the type states
//! the panel lists and the merge of counts from two sources.

use vstd::prelude::*;
use crate::analysis::{
    ViolationView, count_one, counts_from, layer_part, layer_summary, merge_counts, merge_one,
    positive_layers, summary_limit, summary_parts, type_states,
};
use crate::assoc::{
    assoc_get, chars_lt, lemma_chars_lt_irreflexive,
    lemma_insert_entries, lemma_insert_get, sorted_keys,
};
use crate::counts::{
    CountsView, LayerCountsView, csv_fields, header_counts, layer_sum, row_counts, row_type,
    statis_counts, statis_rows, total_word,
};
use crate::json::{
    add_items, add_layers, add_types, distribution, json_counts, json_layer_counts, json_type_counts,
    layer_items, node_number, spec_get, spec_parse_violation, type_layers, JsonValue,
};
use crate::text::{decimal, eq_ignore_case, join, lines, nonblank, trim};

verus! {

// ---------------------------------------------------------------------
// Reports
// ---------------------------------------------------------------------
/// Violations are numbered from 0 in order, and each box has its lower
/// corner at or below its upper corner.
pub open spec fn numbered_boxes(vs: Seq<ViolationView>) -> bool {
    forall|i: int|
        0 <= i < vs.len() ==> (#[trigger] vs[i]).0 == i as usize && vs[i].3.lx <= vs[i].3.hx
            && vs[i].3.ly <= vs[i].3.hy
}

proof fn lemma_items_numbered(
    vs: Seq<ViolationView>,
    items: Seq<JsonValue>,
    ty: Seq<char>,
    layer: Seq<char>,
)
    requires
        numbered_boxes(vs),
    ensures
        numbered_boxes(add_items(vs, items, ty, layer)),
    decreases items.len(),
{
    if items.len() > 0 {
        lemma_items_numbered(vs, items.drop_last(), ty, layer);
        let prev = add_items(vs, items.drop_last(), ty, layer);
        let r = add_items(vs, items, ty, layer);
        if let Some(v) = spec_parse_violation(items.last(), prev.len() as usize, ty, layer) {
            assert(r == prev.push(v));
            assert forall|i: int| 0 <= i < r.len() implies (#[trigger] r[i]).0 == i as usize
                && r[i].3.lx <= r[i].3.hx && r[i].3.ly <= r[i].3.hy by {
                if i < prev.len() {
                    assert(r[i] == prev[i]);
                }
            }
        }
    }
}

proof fn lemma_layers_numbered(
    vs: Seq<ViolationView>,
    layers: Seq<(String, JsonValue)>,
    ty: Seq<char>,
    fold: bool,
)
    requires
        numbered_boxes(vs),
    ensures
        numbered_boxes(add_layers(vs, layers, ty, fold)),
    decreases layers.len(),
{
    if layers.len() > 0 {
        lemma_layers_numbered(vs, layers.drop_last(), ty, fold);
        let prev = add_layers(vs, layers.drop_last(), ty, fold);
        lemma_items_numbered(
            prev,
            layer_items(layers.last().1),
            ty,
            crate::json::stored_layer(layers.last().0@, fold),
        );
    }
}

proof fn lemma_types_numbered(vs: Seq<ViolationView>, types: Seq<(String, JsonValue)>, fold: bool)
    requires
        numbered_boxes(vs),
    ensures
        numbered_boxes(add_types(vs, types, fold)),
    decreases types.len(),
{
    if types.len() > 0 {
        lemma_types_numbered(vs, types.drop_last(), fold);
        lemma_layers_numbered(
            add_types(vs, types.drop_last(), fold),
            type_layers(types.last().1),
            types.last().0@,
            fold,
        );
    }
}

/// The violations of a report are numbered 0, 1, 2, ... in the order they
/// are read, and every box has its corners ordered; a report without a
/// `distribution` object has no violations and no counts.
pub proof fn law_report_violations_are_numbered(root: JsonValue, check: Seq<char>, fold: bool)
    ensures
        numbered_boxes(add_types(Seq::empty(), distribution(root, check), fold)),
        !(spec_get(spec_get(Some(root), check), "distribution"@) matches Some(
            JsonValue::Object(_),
        )) ==> add_types(Seq::empty(), distribution(root, check), fold).len() == 0 && json_counts(
            distribution(root, check),
        ).len() == 0,
{
    lemma_types_numbered(Seq::empty(), distribution(root, check), fold);
}

proof fn lemma_json_layer_counts_positive(layers: Seq<(String, JsonValue)>)
    ensures
        forall|l: int|
            0 <= l < json_layer_counts(layers).len() ==> (#[trigger] json_layer_counts(layers)[l]).1
                > 0,
    decreases layers.len(),
{
    if layers.len() > 0 {
        lemma_json_layer_counts_positive(layers.drop_last());
        let prev = json_layer_counts(layers.drop_last());
        let c = node_number(layers.last().1);
        if c > 0 {
            assert forall|l: int| 0 <= l < json_layer_counts(layers).len() implies (
            #[trigger] json_layer_counts(layers)[l]).1 > 0 by {
                lemma_insert_entries(prev, layers.last().0@, c, l);
            }
        }
    }
}

/// The counts of a report: each type's counts are those of a type node of
/// that name; the total is the node's `number` when positive, else the sum
/// of the layer counts; and every layer count is positive.
pub proof fn law_report_totals_fall_back_to_layer_sums(types: Seq<(String, JsonValue)>)
    ensures
        forall|i: int|
            0 <= i < json_counts(types).len() ==> exists|j: int|
                0 <= j < types.len() && types[j].0@ == (#[trigger] json_counts(types)[i]).0
                    && json_counts(types)[i].1 == json_type_counts(types[j].1) && json_counts(
                    types,
                )[i].1.0 == (if node_number(types[j].1) > 0 {
                    node_number(types[j].1)
                } else {
                    layer_sum(json_counts(types)[i].1.1) as usize
                }),
        forall|i: int, l: int|
            0 <= i < json_counts(types).len() && 0 <= l < json_counts(types)[i].1.1.len() ==> (
            #[trigger] json_counts(types)[i].1.1[l]).1 > 0,
    decreases types.len(),
{
    if types.len() > 0 {
        law_report_totals_fall_back_to_layer_sums(types.drop_last());
        let prev = json_counts(types.drop_last());
        let key = types.last().0@;
        let c = json_type_counts(types.last().1);
        let n = types.len() - 1;
        lemma_json_layer_counts_positive(type_layers(types.last().1));
        assert forall|i: int| 0 <= i < json_counts(types).len() implies exists|j: int|
            0 <= j < types.len() && types[j].0@ == (#[trigger] json_counts(types)[i]).0
                && json_counts(types)[i].1 == json_type_counts(types[j].1) && json_counts(
                types,
            )[i].1.0 == (if node_number(types[j].1) > 0 {
                node_number(types[j].1)
            } else {
                layer_sum(json_counts(types)[i].1.1) as usize
            }) by {
            lemma_insert_entries(prev, key, c, i);
            if json_counts(types)[i] == (key, c) {
                assert(types[n] == types.last());
            } else {
                let m = choose|m: int| 0 <= m < prev.len() && prev[m] == #[trigger] json_counts(types)[i];
                let j = choose|j: int|
                    0 <= j < types.drop_last().len() && types.drop_last()[j].0@ == (
                    #[trigger] prev[m]).0 && prev[m].1 == json_type_counts(types.drop_last()[j].1)
                        && prev[m].1.0 == (if node_number(types.drop_last()[j].1) > 0 {
                        node_number(types.drop_last()[j].1)
                    } else {
                        layer_sum(prev[m].1.1) as usize
                    });
                assert(types[j] == types.drop_last()[j]);
            }
        }
        assert forall|i: int, l: int|
            0 <= i < json_counts(types).len() && 0 <= l < json_counts(types)[i].1.1.len() implies (
            #[trigger] json_counts(types)[i].1.1[l]).1 > 0 by {
            lemma_insert_entries(prev, key, c, i);
            if json_counts(types)[i] != (key, c) {
                let m = choose|m: int| 0 <= m < prev.len() && prev[m] == #[trigger] json_counts(types)[i];
                assert(prev[m].1.1[l] == json_counts(types)[i].1.1[l]);
            }
        }
    }
}

// ---------------------------------------------------------------------
// Statistics tables
// ---------------------------------------------------------------------
/// A layer column of the header: any column but the first, not named
/// `total` in any case.
pub open spec fn layer_column(headers: Seq<Seq<char>>, h: int) -> bool {
    1 <= h < headers.len() && !eq_ignore_case(headers[h], total_word())
}

proof fn lemma_header_counts_layers(headers: Seq<Seq<char>>, fields: Seq<Seq<char>>, n: int)
    requires
        n <= headers.len(),
    ensures
        forall|l: int|
            0 <= l < header_counts(headers, fields, n).1.len() ==> (#[trigger] header_counts(
                headers,
                fields,
                n,
            ).1[l]).1 > 0 && exists|h: int|
                layer_column(headers, h) && h < n && headers[h] == header_counts(headers, fields, n).1[l].0,
    decreases n,
{
    if n > 1 {
        lemma_header_counts_layers(headers, fields, n - 1);
        let prev = header_counts(headers, fields, n - 1);
        let i = n - 1;
        let value = crate::counts::field_value(fields, i);
        if !eq_ignore_case(headers[i], total_word()) && value > 0 {
            let r = header_counts(headers, fields, n).1;
            assert forall|l: int| 0 <= l < r.len() implies (#[trigger] r[l]).1 > 0 && exists|h: int|
                layer_column(headers, h) && h < n && headers[h] == r[l].0 by {
                lemma_insert_entries(prev.1, headers[i], value, l);
                if r[l] == (headers[i], value) {
                    assert(layer_column(headers, i));
                } else {
                    let m = choose|m: int| 0 <= m < prev.1.len() && prev.1[m] == #[trigger] r[l];
                    assert(prev.1[m] == r[l]);
                }
            }
        }
    }
}

proof fn lemma_statis_rows_keys(rows: Seq<Seq<char>>, headers: Seq<Seq<char>>)
    ensures
        forall|i: int|
            0 <= i < statis_rows(rows, headers).len() ==> exists|r: int|
                0 <= r < rows.len() && row_type(csv_fields(rows[r])) == Some(
                    (#[trigger] statis_rows(rows, headers)[i]).0,
                ) && statis_rows(rows, headers)[i].1 == row_counts(headers, csv_fields(rows[r])),
    decreases rows.len(),
{
    if rows.len() > 0 {
        lemma_statis_rows_keys(rows.drop_last(), headers);
        let prev = statis_rows(rows.drop_last(), headers);
        let fields = csv_fields(rows.last());
        if let Some(t) = row_type(fields) {
            let all = statis_rows(rows, headers);
            assert forall|i: int| 0 <= i < all.len() implies exists|r: int|
                0 <= r < rows.len() && row_type(csv_fields(rows[r])) == Some((#[trigger] all[i]).0)
                    && all[i].1 == row_counts(headers, csv_fields(rows[r])) by {
                lemma_insert_entries(prev, t, row_counts(headers, fields), i);
                if all[i] == (t, row_counts(headers, fields)) {
                    assert(rows[rows.len() - 1] == rows.last());
                } else {
                    let m = choose|m: int| 0 <= m < prev.len() && prev[m] == #[trigger] all[i];
                    let r = choose|r: int|
                        0 <= r < rows.drop_last().len() && row_type(csv_fields(rows.drop_last()[r]))
                            == Some((#[trigger] prev[m]).0) && prev[m].1 == row_counts(
                            headers,
                            csv_fields(rows.drop_last()[r]),
                        );
                    assert(rows[r] == rows.drop_last()[r]);
                }
            }
        }
    }
}

/// An entry of a statistics table as the row gives it: its type is the
/// row's first field, trimmed (never empty, never `total` in any case); its
/// total is the row's `total` column when positive, else the sum of its
/// layer counts; its layer counts are all positive and each is keyed by a
/// layer column of the header.
pub open spec fn counted_from_row(
    entry: (Seq<char>, CountsView),
    headers: Seq<Seq<char>>,
    row: Seq<char>,
) -> bool {
    let fields = csv_fields(row);
    let hc = header_counts(headers, fields, headers.len() as int);
    &&& entry.0 == trim(fields[0])
    &&& entry.0.len() > 0
    &&& !eq_ignore_case(entry.0, total_word())
    &&& entry.1.1 == hc.1
    &&& entry.1.0 == (if hc.0 > 0 {
        hc.0
    } else {
        layer_sum(hc.1) as usize
    })
    &&& forall|l: int|
        0 <= l < hc.1.len() ==> (#[trigger] hc.1[l]).1 > 0 && exists|h: int|
            layer_column(headers, h) && headers[h] == hc.1[l].0
}

/// The column names of a statistics text: its first non-blank line.
pub open spec fn statis_headers(text: Seq<char>) -> Seq<Seq<char>> {
    csv_fields(nonblank(lines(text))[0])
}

/// The rows of a statistics text: its non-blank lines after the first.
pub open spec fn statis_body(text: Seq<char>) -> Seq<Seq<char>> {
    nonblank(lines(text)).drop_first()
}

/// Entry `i` of the table is counted from one of the rows (see
/// `counted_from_row`).
pub open spec fn entry_has_source_row(text: Seq<char>, i: int) -> bool {
    exists|r: int|
        0 <= r < statis_body(text).len() && #[trigger] counted_from_row(
            statis_counts(text)[i],
            statis_headers(text),
            statis_body(text)[r],
        )
}

/// What a statistics table holds: nothing when there is no line after the
/// header; otherwise every entry is counted from one of the rows after it
/// (see `counted_from_row`).
pub proof fn law_statistics_keys_and_counts(text: Seq<char>)
    ensures
        nonblank(lines(text)).len() <= 1 ==> statis_counts(text).len() == 0,
        nonblank(lines(text)).len() > 1 ==> forall|i: int|
            0 <= i < statis_counts(text).len() ==> #[trigger] entry_has_source_row(text, i),
{
    let ls = nonblank(lines(text));
    if ls.len() > 1 {
        let headers = statis_headers(text);
        let rows = statis_body(text);
        assert(statis_counts(text) == statis_rows(rows, headers));
        lemma_statis_rows_keys(rows, headers);
        assert forall|i: int| 0 <= i < statis_counts(text).len() implies #[trigger] entry_has_source_row(
            text,
            i,
        ) by {
            let r = choose|r: int|
                0 <= r < rows.len() && row_type(csv_fields(rows[r])) == Some(
                    (#[trigger] statis_rows(rows, headers)[i]).0,
                ) && statis_rows(rows, headers)[i].1 == row_counts(headers, csv_fields(rows[r]));
            lemma_header_counts_layers(headers, csv_fields(rows[r]), headers.len() as int);
            assert(counted_from_row(statis_counts(text)[i], headers, rows[r]));
        }
    } else if ls.len() == 1 {
        assert(ls.drop_first().len() == 0);
    }
}

// ---------------------------------------------------------------------
// Layer summaries
// ---------------------------------------------------------------------
proof fn lemma_positive_layers_members(s: LayerCountsView)
    ensures
        forall|i: int|
            0 <= i < positive_layers(s).len() ==> (#[trigger] positive_layers(s)[i]).1 > 0
                && exists|j: int| 0 <= j < s.len() && s[j] == positive_layers(s)[i],
    decreases s.len(),
{
    if s.len() > 0 {
        let t = s.drop_last();
        lemma_positive_layers_members(t);
        let pt = positive_layers(t);
        let p = positive_layers(s);
        assert forall|i: int| 0 <= i < p.len() implies (#[trigger] p[i]).1 > 0 && exists|j: int|
            0 <= j < s.len() && s[j] == p[i] by {
            if i < pt.len() {
                assert(p[i] == pt[i]);
                let j = choose|j: int| 0 <= j < t.len() && t[j] == pt[i];
                assert(s[j] == t[j]);
            } else {
                assert(p[i] == s[s.len() - 1]);
            }
        }
    }
}

proof fn lemma_positive_layers_cover(s: LayerCountsView)
    ensures
        forall|j: int|
            0 <= j < s.len() && (#[trigger] s[j]).1 > 0 ==> exists|i: int|
                0 <= i < positive_layers(s).len() && positive_layers(s)[i] == s[j],
    decreases s.len(),
{
    if s.len() > 0 {
        let t = s.drop_last();
        lemma_positive_layers_cover(t);
        let pt = positive_layers(t);
        let p = positive_layers(s);
        assert forall|j: int| 0 <= j < s.len() && (#[trigger] s[j]).1 > 0 implies exists|i: int|
            0 <= i < p.len() && p[i] == s[j] by {
            if j < t.len() {
                assert(t[j] == s[j]);
                let i = choose|i: int| 0 <= i < pt.len() && pt[i] == t[j];
                assert(p[i] == pt[i]);
            } else {
                assert(p[p.len() - 1] == s[j]);
            }
        }
    }
}

proof fn lemma_positive_layers_sorted(s: LayerCountsView)
    requires
        sorted_keys(s),
    ensures
        sorted_keys(positive_layers(s)),
    decreases s.len(),
{
    if s.len() > 0 {
        let t = s.drop_last();
        assert(sorted_keys(t)) by {
            assert forall|a: int, b: int| 0 <= a < b < t.len() implies chars_lt(
                #[trigger] t[a].0,
                #[trigger] t[b].0,
            ) by {
                assert(t[a] == s[a] && t[b] == s[b]);
            }
        }
        lemma_positive_layers_sorted(t);
        lemma_positive_layers_members(t);
        let pt = positive_layers(t);
        let p = positive_layers(s);
        assert forall|a: int, b: int| 0 <= a < b < p.len() implies chars_lt(
            #[trigger] p[a].0,
            #[trigger] p[b].0,
        ) by {
            if b < pt.len() {
                assert(p[a] == pt[a] && p[b] == pt[b]);
            } else {
                assert(p[a] == pt[a]);
                let j = choose|j: int| 0 <= j < t.len() && t[j] == pt[a];
                assert(s[j] == t[j]);
                assert(p[b] == s[s.len() - 1]);
            }
        }
    }
}

/// The summary line of layer counts: the layers with a positive count, in
/// their order (ascending, for sorted counts); the first six as
/// `layer: count`, then `+N layers` for any beyond six, joined by two
/// spaces; empty when no layer has a positive count.
pub proof fn law_layer_summary(s: LayerCountsView)
    ensures
        forall|i: int|
            0 <= i < positive_layers(s).len() ==> (#[trigger] positive_layers(s)[i]).1 > 0
                && exists|j: int| 0 <= j < s.len() && s[j] == positive_layers(s)[i],
        forall|j: int|
            0 <= j < s.len() && (#[trigger] s[j]).1 > 0 ==> exists|i: int|
                0 <= i < positive_layers(s).len() && positive_layers(s)[i] == s[j],
        sorted_keys(s) ==> sorted_keys(positive_layers(s)),
        positive_layers(s).len() == 0 ==> layer_summary(s) == Seq::<char>::empty(),
        summary_parts(s).len() == if positive_layers(s).len() <= summary_limit() {
            positive_layers(s).len() as int
        } else {
            summary_limit() + 1
        },
        forall|i: int|
            0 <= i < summary_parts(s).len() && i < summary_limit() ==> #[trigger] summary_parts(s)[i]
                == layer_part(positive_layers(s)[i]),
        positive_layers(s).len() > summary_limit() ==> summary_parts(s)[summary_limit()] == "+"@
            + decimal((positive_layers(s).len() - summary_limit()) as nat) + " layers"@,
        layer_summary(s) == join(summary_parts(s), "  "@),
{
    lemma_positive_layers_members(s);
    lemma_positive_layers_cover(s);
    if sorted_keys(s) {
        lemma_positive_layers_sorted(s);
    }
    let p = positive_layers(s);
    if p.len() == 0 {
        assert(summary_parts(s) =~= Seq::<Seq<char>>::empty());
    }
}

// ---------------------------------------------------------------------
// Type states
// ---------------------------------------------------------------------
/// The states the analysis panel lists: one visible state for each type
/// that counts anything (a positive total or some layer), with its total
/// and layer counts unchanged, in the counts' order (ascending, for sorted
/// counts), and none for any other type.
proof fn lemma_type_states_members(m: Seq<(Seq<char>, CountsView)>)
    ensures
        forall|i: int|
            0 <= i < type_states(m).len() ==> (#[trigger] type_states(m)[i]).3 && (type_states(m)[i].1
                > 0 || type_states(m)[i].2.len() > 0) && exists|j: int|
                0 <= j < m.len() && m[j] == (type_states(m)[i].0, (type_states(m)[i].1, type_states(
                    m,
                )[i].2)),
    decreases m.len(),
{
    if m.len() > 0 {
        let t = m.drop_last();
        lemma_type_states_members(t);
        let pt = type_states(t);
        let p = type_states(m);
        assert forall|i: int| 0 <= i < p.len() implies (#[trigger] p[i]).3 && (p[i].1 > 0
            || p[i].2.len() > 0) && exists|j: int| 0 <= j < m.len() && m[j] == (p[i].0, (p[i].1, p[i].2))
            by {
            if i < pt.len() {
                assert(p[i] == pt[i]);
                let j = choose|j: int| 0 <= j < t.len() && t[j] == (pt[i].0, (pt[i].1, pt[i].2));
                assert(m[j] == t[j]);
            } else {
                assert(m[m.len() - 1] == m.last());
            }
        }
    }
}

proof fn lemma_type_states_cover(m: Seq<(Seq<char>, CountsView)>)
    ensures
        forall|j: int|
            0 <= j < m.len() && ((#[trigger] m[j]).1.0 > 0 || m[j].1.1.len() > 0) ==> exists|i: int|
                0 <= i < type_states(m).len() && type_states(m)[i] == (m[j].0, m[j].1.0, m[j].1.1, true),
    decreases m.len(),
{
    if m.len() > 0 {
        let t = m.drop_last();
        lemma_type_states_cover(t);
        let pt = type_states(t);
        let p = type_states(m);
        assert forall|j: int| 0 <= j < m.len() && ((#[trigger] m[j]).1.0 > 0 || m[j].1.1.len() > 0)
            implies exists|i: int| 0 <= i < p.len() && p[i] == (m[j].0, m[j].1.0, m[j].1.1, true) by {
            if j < t.len() {
                assert(t[j] == m[j]);
                let i = choose|i: int| 0 <= i < pt.len() && pt[i] == (t[j].0, t[j].1.0, t[j].1.1, true);
                assert(p[i] == pt[i]);
            } else {
                assert(p[p.len() - 1] == (m[j].0, m[j].1.0, m[j].1.1, true));
            }
        }
    }
}

proof fn lemma_type_states_sorted(m: Seq<(Seq<char>, CountsView)>)
    requires
        sorted_keys(m),
    ensures
        forall|a: int, b: int|
            0 <= a < b < type_states(m).len() ==> chars_lt(
                #[trigger] type_states(m)[a].0,
                #[trigger] type_states(m)[b].0,
            ),
    decreases m.len(),
{
    if m.len() > 0 {
        let t = m.drop_last();
        assert(sorted_keys(t)) by {
            assert forall|a: int, b: int| 0 <= a < b < t.len() implies chars_lt(
                #[trigger] t[a].0,
                #[trigger] t[b].0,
            ) by {
                assert(t[a] == m[a] && t[b] == m[b]);
            }
        }
        lemma_type_states_sorted(t);
        lemma_type_states_members(t);
        let pt = type_states(t);
        let p = type_states(m);
        assert forall|a: int, b: int| 0 <= a < b < p.len() implies chars_lt(
            #[trigger] p[a].0,
            #[trigger] p[b].0,
        ) by {
            if b < pt.len() {
                assert(p[a] == pt[a] && p[b] == pt[b]);
            } else {
                assert(p[a] == pt[a]);
                let j = choose|j: int| 0 <= j < t.len() && t[j] == (pt[a].0, (pt[a].1, pt[a].2));
                assert(m[j] == t[j]);
                let (k, c) = m.last();
                assert(p == pt.push((k, c.0, c.1, true)));
                assert(p[b].0 == m[m.len() - 1].0);
                assert(chars_lt(m[j].0, m[m.len() - 1].0));
            }
        }
    }
}

/// The states the analysis panel lists: one visible state for each type
/// that counts anything (a positive total or some layer), with its total
/// and layer counts unchanged, in the counts' order (ascending, for sorted
/// counts), and none for any other type.
pub proof fn law_type_states_list_counting_types(m: Seq<(Seq<char>, CountsView)>)
    ensures
        forall|i: int|
            0 <= i < type_states(m).len() ==> (#[trigger] type_states(m)[i]).3 && (type_states(m)[i].1
                > 0 || type_states(m)[i].2.len() > 0) && exists|j: int|
                0 <= j < m.len() && m[j] == (type_states(m)[i].0, (type_states(m)[i].1, type_states(
                    m,
                )[i].2)),
        forall|j: int|
            0 <= j < m.len() && ((#[trigger] m[j]).1.0 > 0 || m[j].1.1.len() > 0) ==> exists|i: int|
                0 <= i < type_states(m).len() && type_states(m)[i] == (m[j].0, m[j].1.0, m[j].1.1, true),
        sorted_keys(m) ==> forall|a: int, b: int|
            0 <= a < b < type_states(m).len() ==> chars_lt(
                #[trigger] type_states(m)[a].0,
                #[trigger] type_states(m)[b].0,
            ),
{
    lemma_type_states_members(m);
    lemma_type_states_cover(m);
    if sorted_keys(m) {
        lemma_type_states_sorted(m);
    }
}

// ---------------------------------------------------------------------
// Merging counts
// ---------------------------------------------------------------------
proof fn lemma_get_push<W>(s: Seq<(Seq<char>, W)>, x: (Seq<char>, W), k: Seq<char>)
    ensures
        assoc_get(s.push(x), k) == if assoc_get(s, k) is Some {
            assoc_get(s, k)
        } else if x.0 == k {
            Some(x.1)
        } else {
            None
        },
    decreases s.len(),
{
    if s.len() > 0 {
        assert(s.push(x).drop_first() =~= s.drop_first().push(x));
        assert(s.push(x)[0] == s[0]);
        if s[0].0 != k {
            lemma_get_push(s.drop_first(), x, k);
            assert(assoc_get(s.push(x), k) == assoc_get(s.push(x).drop_first(), k));
            assert(assoc_get(s, k) == assoc_get(s.drop_first(), k));
        }
    } else {
        assert(s.push(x).drop_first() =~= Seq::<(Seq<char>, W)>::empty());
        assert(s.push(x)[0] == x);
    }
}

/// Merging a source table into a target: a type only the target has keeps
/// its counts; a type of the source gets the target's counts merged with
/// the source's (a zero or missing total takes the source total, layers
/// the target lacks take the source counts).  So the merged types are
/// those of either table.
pub proof fn law_merge_counts_by_type(
    target: Seq<(Seq<char>, CountsView)>,
    source: Seq<(Seq<char>, CountsView)>,
    k: Seq<char>,
)
    requires
        sorted_keys(source),
    ensures
        assoc_get(merge_counts(target, source), k) == match assoc_get(source, k) {
            None => assoc_get(target, k),
            Some(sc) => Some(merge_one(assoc_get(target, k), sc)),
        },
        (assoc_get(merge_counts(target, source), k) is Some) <==> (assoc_get(target, k) is Some
            || assoc_get(source, k) is Some),
    decreases source.len(),
{
    if source.len() > 0 {
        let t = source.drop_last();
        assert(sorted_keys(t)) by {
            assert forall|a: int, b: int| 0 <= a < b < t.len() implies chars_lt(
                #[trigger] t[a].0,
                #[trigger] t[b].0,
            ) by {
                assert(t[a] == source[a] && t[b] == source[b]);
            }
        }
        law_merge_counts_by_type(target, t, k);
        let prev = merge_counts(target, t);
        let key = source.last().0;
        let merged = merge_one(assoc_get(prev, key), source.last().1);
        lemma_insert_get(prev, key, merged, k);
        assert(t.push(source.last()) =~= source);
        lemma_get_push(t, source.last(), k);
        if key == k {
            assert(assoc_get(t, k) is None) by {
                if assoc_get(t, k) is Some {
                    crate::assoc::lemma_get_entry(t, k);
                    let m = choose|m: int| 0 <= m < t.len() && #[trigger] t[m] == (k, assoc_get(t, k)->0);
                    assert(chars_lt(source[m].0, source[source.len() - 1].0));
                    lemma_chars_lt_irreflexive(k);
                }
            }
            law_merge_counts_by_type(target, t, key);
        }
    }
}

// ---------------------------------------------------------------------
// Counting violations
// ---------------------------------------------------------------------
/// How many of the violations are of type `t`.
pub open spec fn violations_of_type(vs: Seq<ViolationView>, t: Seq<char>) -> nat
    decreases vs.len(),
{
    if vs.len() == 0 {
        0
    } else {
        violations_of_type(vs.drop_last(), t) + if vs.last().1 == t {
            1nat
        } else {
            0nat
        }
    }
}

/// How many of the violations are of type `t` on layer `l`.
pub open spec fn violations_of_type_on_layer(vs: Seq<ViolationView>, t: Seq<char>, l: Seq<char>) -> nat
    decreases vs.len(),
{
    if vs.len() == 0 {
        0
    } else {
        violations_of_type_on_layer(vs.drop_last(), t, l) + if vs.last().1 == t && vs.last().2 == l {
            1nat
        } else {
            0nat
        }
    }
}

proof fn lemma_layer_count_within_type(vs: Seq<ViolationView>, t: Seq<char>, l: Seq<char>)
    ensures
        violations_of_type_on_layer(vs, t, l) <= violations_of_type(vs, t),
        violations_of_type(vs, t) <= vs.len(),
    decreases vs.len(),
{
    if vs.len() > 0 {
        lemma_layer_count_within_type(vs.drop_last(), t, l);
    }
}

/// Counting violations: a type has counts exactly when some violation is of
/// that type; its total is the number of violations of the type, and on
/// each layer its count is the number of violations of the type on that
/// layer (a layer without any has no entry).
pub proof fn law_violation_counts_count_violations(vs: Seq<ViolationView>, t: Seq<char>, l: Seq<char>)
    requires
        vs.len() <= usize::MAX,
    ensures
        match assoc_get(counts_from(vs), t) {
            None => violations_of_type(vs, t) == 0,
            Some(c) => {
                &&& violations_of_type(vs, t) > 0
                &&& c.0 == violations_of_type(vs, t)
                &&& assoc_get(c.1, l) == if violations_of_type_on_layer(vs, t, l) == 0 {
                    None::<usize>
                } else {
                    Some(violations_of_type_on_layer(vs, t, l) as usize)
                }
            },
        },
    decreases vs.len(),
{
    if vs.len() > 0 {
        let rest = vs.drop_last();
        let v = vs.last();
        law_violation_counts_count_violations(rest, t, l);
        lemma_layer_count_within_type(rest, t, l);
        lemma_layer_count_within_type(vs, t, l);
        let prev = counts_from(rest);
        let one = count_one(assoc_get(prev, v.1), v.2);
        lemma_insert_get(prev, v.1, one, t);
        if v.1 == t {
            let base = match assoc_get(prev, t) {
                Some(c) => c,
                None => (0usize, Seq::<(Seq<char>, usize)>::empty()),
            };
            let layer_count: int = match assoc_get(base.1, v.2) {
                Some(c) => c + 1,
                None => 1,
            };
            lemma_insert_get(base.1, v.2, layer_count as usize, l);
            if v.2 != l {
                if assoc_get(prev, t) is None {
                    assert(assoc_get(base.1, l) is None);
                }
            } else {
                if assoc_get(prev, t) is None {
                    assert(assoc_get(base.1, v.2) is None);
                }
            }
        }
    }
}

} // verus!
