//! Violation statistics per violation type and per layer: the statistics
//! CSV reader, merging of counts from several sources, and the per-type
//! states the analysis panel lists.

use vstd::prelude::*;
use crate::assoc::{assoc_insert, entry_views, StrMap};
use crate::text::{
    chars_eq_ignore_case_str, eq_ignore_case, lines, nonblank, nonblank_lines, parse_usize,
    parse_usize_chars, split, split_chars, str_chars, string_from_chars, trim, trim_chars,
    trim_quote_chars, trim_quotes, views, string_views,
};

verus! {

/// Layer name to count, in ascending layer order.
pub type LayerCounts = StrMap<usize>;

/// The model of a layer count map.
pub type LayerCountsView = Seq<(Seq<char>, usize)>;

/// The model of per-type counts: the total and the per-layer counts.
pub type CountsView = (usize, LayerCountsView);

/// Counts of one violation type.
pub struct TypeCounts {
    pub total_count: usize,
    pub layer_counts: LayerCounts,
}

impl View for TypeCounts {
    type V = CountsView;

    open spec fn view(&self) -> CountsView {
        (self.total_count, self.layer_counts@)
    }
}

pub type DrcTypeCounts = TypeCounts;

pub type AntennaTypeCounts = TypeCounts;

/// Violation type to counts, in ascending type order.
pub type TypeCountsMap = StrMap<TypeCounts>;

impl TypeCounts {
    /// No violations counted.
    pub fn new() -> (c: Self)
        ensures
            c@ == (0usize, Seq::<(Seq<char>, usize)>::empty()),
    {
        TypeCounts { total_count: 0, layer_counts: StrMap::new() }
    }
}

/// Sum of the counts of a layer count map.
pub open spec fn layer_sum(s: LayerCountsView) -> nat
    decreases s.len(),
{
    if s.len() == 0 {
        0
    } else {
        layer_sum(s.drop_last()) + (s.last().1 as nat)
    }
}

proof fn lemma_layer_sum_prefix(s: LayerCountsView, i: int, j: int)
    requires
        0 <= i <= j <= s.len(),
    ensures
        layer_sum(s.take(i)) <= layer_sum(s.take(j)),
    decreases j - i,
{
    if i < j {
        lemma_layer_sum_prefix(s, i, j - 1);
        assert(s.take(j).drop_last() =~= s.take(j - 1));
    }
}

/// Sums the counts of a layer count map (`values().sum()`).
pub fn sum_layer_counts(layers: &LayerCounts) -> (total: usize)
    requires
        layer_sum(layers@) <= usize::MAX,
    ensures
        total == layer_sum(layers@),
{
    let entries = layers.entries();
    let n = entries.len();
    let mut acc: usize = 0;
    for i in 0..n
        invariant
            n == entries@.len(),
            entry_views(entries@) == layers@,
            layer_sum(layers@) <= usize::MAX,
            acc == layer_sum(layers@.take(i as int)),
    {
        proof {
            lemma_layer_sum_prefix(layers@, i + 1, layers@.len() as int);
            assert(layers@.take(layers@.len() as int) =~= layers@);
            assert(layers@.take(i + 1).drop_last() =~= layers@.take(i as int));
            assert(layers@[i as int].1 == entries@[i as int].1);
        }
        acc = acc + entries[i].1;
    }
    assert(layers@.take(n as int) =~= layers@);
    acc
}

/// Whether the counts of a layer count map sum to at most `usize::MAX`.
pub fn layer_counts_sum_fits(layers: &LayerCounts) -> (r: bool)
    ensures
        r == (layer_sum(layers@) <= usize::MAX),
{
    let entries = layers.entries();
    let n = entries.len();
    let mut acc: usize = 0;
    for i in 0..n
        invariant
            n == entries@.len(),
            entry_views(entries@) == layers@,
            acc == layer_sum(layers@.take(i as int)),
    {
        proof {
            assert(layers@.take(i + 1).drop_last() =~= layers@.take(i as int));
            assert(layers@[i as int].1 == entries@[i as int].1);
        }
        match acc.checked_add(entries[i].1) {
            Some(next) => {
                acc = next;
            },
            None => {
                proof {
                    lemma_layer_sum_prefix(layers@, i + 1, layers@.len() as int);
                    assert(layers@.take(layers@.len() as int) =~= layers@);
                }
                return false;
            },
        }
    }
    assert(layers@.take(n as int) =~= layers@);
    true
}

// ---------------------------------------------------------------------
// Statistics CSV
// ---------------------------------------------------------------------
/// The word that marks total columns and total rows.
pub open spec fn total_word() -> Seq<char> {
    seq!['t', 'o', 't', 'a', 'l']
}

/// Fields of a CSV line: split at commas, each trimmed of white space and
/// then of double quotes.
pub open spec fn csv_fields(line: Seq<char>) -> Seq<Seq<char>> {
    split(line, ',').map_values(|f: Seq<char>| trim_quotes(trim(f)))
}

/// The count in column `i` of a row: its trimmed field read as a number, 0
/// when the column is missing or not a number.
pub open spec fn field_value(fields: Seq<Seq<char>>, i: int) -> usize {
    if 0 <= i < fields.len() {
        match parse_usize(trim(fields[i])) {
            Some(v) => v,
            None => 0,
        }
    } else {
        0
    }
}

/// The counts a row gives through its columns `1..n`: a `total` column
/// sets the total, any other column with a positive count sets that layer.
pub open spec fn header_counts(headers: Seq<Seq<char>>, fields: Seq<Seq<char>>, n: int) -> CountsView
    decreases n,
{
    if n <= 1 {
        (0usize, Seq::<(Seq<char>, usize)>::empty())
    } else {
        let prev = header_counts(headers, fields, n - 1);
        let i = n - 1;
        let value = field_value(fields, i);
        if eq_ignore_case(headers[i], total_word()) {
            (value, prev.1)
        } else if value > 0 {
            (prev.0, assoc_insert(prev.1, headers[i], value))
        } else {
            prev
        }
    }
}

/// The counts of a row; a missing or zero total becomes the layer sum.
pub open spec fn row_counts(headers: Seq<Seq<char>>, fields: Seq<Seq<char>>) -> CountsView {
    let c = header_counts(headers, fields, headers.len() as int);
    if c.0 == 0 {
        (layer_sum(c.1) as usize, c.1)
    } else {
        c
    }
}

/// The type a row counts, or none for blank and total rows.
pub open spec fn row_type(fields: Seq<Seq<char>>) -> Option<Seq<char>> {
    let t = trim(fields[0]);
    if t.len() == 0 || eq_ignore_case(t, total_word()) {
        None
    } else {
        Some(t)
    }
}

/// The counts of the rows after the header, a later row of a type
/// replacing an earlier one.
pub open spec fn statis_rows(rows: Seq<Seq<char>>, headers: Seq<Seq<char>>) -> Seq<
    (Seq<char>, CountsView),
>
    decreases rows.len(),
{
    if rows.len() == 0 {
        Seq::empty()
    } else {
        let prev = statis_rows(rows.drop_last(), headers);
        let fields = csv_fields(rows.last());
        match row_type(fields) {
            Some(t) => assoc_insert(prev, t, row_counts(headers, fields)),
            None => prev,
        }
    }
}

/// Every counted row whose total is missing has a layer sum that fits.
pub open spec fn statis_rows_fit(rows: Seq<Seq<char>>, headers: Seq<Seq<char>>) -> bool {
    forall|i: int|
        0 <= i < rows.len() && (#[trigger] row_type(csv_fields(rows[i]))) is Some && header_counts(
            headers,
            csv_fields(rows[i]),
            headers.len() as int,
        ).0 == 0 ==> layer_sum(header_counts(headers, csv_fields(rows[i]), headers.len() as int).1)
            <= usize::MAX
}

/// The counts a statistics CSV text gives: the first non-blank line names
/// the columns, each later non-blank line counts one type.
pub open spec fn statis_counts(text: Seq<char>) -> Seq<(Seq<char>, CountsView)> {
    let ls = nonblank(lines(text));
    if ls.len() == 0 {
        Seq::empty()
    } else {
        statis_rows(ls.drop_first(), csv_fields(ls[0]))
    }
}

/// The inputs on which the reader sums no more than a `usize` holds.
pub open spec fn statis_text_fits(text: Seq<char>) -> bool {
    let ls = nonblank(lines(text));
    ls.len() > 0 ==> statis_rows_fit(ls.drop_first(), csv_fields(ls[0]))
}

/// The fields of a CSV line, each trimmed of white space, then of quotes.
pub fn csv_field_chars(line: &Vec<char>) -> (fields: Vec<Vec<char>>)
    ensures
        views(fields@) == csv_fields(line@),
        fields@.len() >= 1,
{
    let pieces = split_chars(line, ',');
    let mut fields: Vec<Vec<char>> = Vec::new();
    let n = pieces.len();
    for i in 0..n
        invariant
            n == pieces@.len(),
            views(pieces@) == split(line@, ','),
            csv_fields(line@).len() == n,
            views(fields@) == csv_fields(line@).take(i as int),
    {
        assert(pieces@[i as int]@ == split(line@, ',')[i as int]);
        let t = trim_chars(&pieces[i]);
        let f = trim_quote_chars(&t);
        let ghost before = views(fields@);
        fields.push(f);
        assert(views(fields@) =~= before.push(f@));
        assert(views(fields@) =~= csv_fields(line@).take(i + 1));
    }
    assert(csv_fields(line@).take(n as int) =~= csv_fields(line@));
    fields
}

/// Splits one CSV line at commas; each field is trimmed of white space and
/// then of surrounding double quotes.
pub fn split_simple_csv_line(line: &str) -> (fields: Vec<String>)
    ensures
        string_views(fields@) == csv_fields(line@),
{
    let chars = str_chars(line);
    let parts = csv_field_chars(&chars);
    let mut fields: Vec<String> = Vec::new();
    let n = parts.len();
    for i in 0..n
        invariant
            n == parts@.len(),
            views(parts@) == csv_fields(line@),
            string_views(fields@) == csv_fields(line@).take(i as int),
    {
        assert(parts@[i as int]@ == csv_fields(line@)[i as int]);
        let f = string_from_chars(&parts[i]);
        let ghost before = string_views(fields@);
        fields.push(f);
        assert(string_views(fields@) =~= before.push(f@));
        assert(string_views(fields@) =~= csv_fields(line@).take(i + 1));
    }
    assert(csv_fields(line@).take(n as int) =~= csv_fields(line@));
    fields
}

fn is_total_word(chars: &Vec<char>) -> (r: bool)
    ensures
        r == eq_ignore_case(chars@, total_word()),
{
    let r = chars_eq_ignore_case_str(chars, "total");
    proof {
        reveal_strlit("total");
        assert("total"@ =~= total_word());
    }
    r
}

/// The counts one row gives.
fn row_type_counts(headers: &Vec<Vec<char>>, fields: &Vec<Vec<char>>) -> (c: TypeCounts)
    requires
        header_counts(views(headers@), views(fields@), headers@.len() as int).0 == 0 ==> layer_sum(
            header_counts(views(headers@), views(fields@), headers@.len() as int).1,
        ) <= usize::MAX,
    ensures
        c@ == row_counts(views(headers@), views(fields@)),
{
    let ghost hs = views(headers@);
    let ghost fs = views(fields@);
    let mut counts = TypeCounts::new();
    let nh = headers.len();
    let nf = fields.len();
    let mut i: usize = 1;
    while i < nh
        invariant
            1 <= i,
            nh == 0 ==> i == 1,
            nh > 0 ==> i <= nh,
            nh == headers@.len(),
            nf == fields@.len(),
            hs == views(headers@),
            fs == views(fields@),
            counts@ == header_counts(hs, fs, i as int),
        decreases nh - i,
    {
        let value: usize = if i < nf {
            let t = trim_chars(&fields[i]);
            match parse_usize_chars(&t) {
                Some(v) => v,
                None => 0,
            }
        } else {
            0
        };
        assert(value == field_value(fs, i as int));
        assert(hs[i as int] == headers@[i as int]@);
        if is_total_word(&headers[i]) {
            counts.total_count = value;
        } else if value > 0 {
            let name = string_from_chars(&headers[i]);
            counts.layer_counts.insert(name, value);
        }
        i = i + 1;
    }
    if nh == 0 {
        assert(counts@ == header_counts(hs, fs, nh as int));
    }
    if counts.total_count == 0 {
        let sum = sum_layer_counts(&counts.layer_counts);
        counts.total_count = sum;
    }
    counts
}

/// Reads a violation statistics CSV: the first non-blank line names the
/// columns (the first column holds the type, a `total` column the total,
/// every other column a layer), and each later non-blank line gives the
/// counts of one type.  Rows whose type is blank or `total` are skipped; a
/// missing or zero total becomes the sum of the layer counts.
pub fn parse_statis_csv(text: &str) -> (counts: TypeCountsMap)
    requires
        statis_text_fits(text@),
    ensures
        counts@ == statis_counts(text@),
{
    let chars = str_chars(text);
    let rows = nonblank_lines(&chars);
    let mut counts: TypeCountsMap = StrMap::new();
    let n = rows.len();
    if n == 0 {
        return counts;
    }
    let headers = csv_field_chars(&rows[0]);
    let ghost ls = views(rows@);
    let ghost hs = views(headers@);
    assert(hs == csv_fields(ls[0]));
    assert(ls.drop_first().take(0) =~= Seq::<Seq<char>>::empty());
    for r in 1..n
        invariant
            n == rows@.len(),
            ls == views(rows@),
            ls == nonblank(lines(text@)),
            hs == views(headers@),
            hs == csv_fields(ls[0]),
            statis_rows_fit(ls.drop_first(), hs),
            counts@ == statis_rows(ls.drop_first().take(r - 1), hs),
    {
        let fields = csv_field_chars(&rows[r]);
        let ghost fs = views(fields@);
        assert(ls.drop_first()[r - 1] == rows@[r as int]@);
        assert(ls.drop_first().take(r as int).drop_last() =~= ls.drop_first().take(r - 1));
        assert(ls.drop_first().take(r as int).last() == rows@[r as int]@);
        let t = trim_chars(&fields[0]);
        assert(t@ == trim(fs[0]));
        if t.len() == 0 || is_total_word(&t) {
            assert(row_type(fs) is None);
        } else {
            assert(row_type(fs) == Some(t@));
            proof {
                assert(row_type(csv_fields(ls.drop_first()[r - 1])) is Some);
            }
            let c = row_type_counts(&headers, &fields);
            let name = string_from_chars(&t);
            counts.insert(name, c);
        }
    }
    assert(ls.drop_first().take(n - 1) =~= ls.drop_first());
    counts
}

/// Reads a DRC statistics CSV (see `parse_statis_csv`).
pub fn parse_drc_statis_csv(text: &str) -> (counts: TypeCountsMap)
    requires
        statis_text_fits(text@),
    ensures
        counts@ == statis_counts(text@),
{
    parse_statis_csv(text)
}

/// Reads an antenna statistics CSV (see `parse_statis_csv`).
pub fn parse_antenna_statis_csv(text: &str) -> (counts: TypeCountsMap)
    requires
        statis_text_fits(text@),
    ensures
        counts@ == statis_counts(text@),
{
    parse_statis_csv(text)
}

} // verus!
