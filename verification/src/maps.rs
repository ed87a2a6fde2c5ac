//! The catalog of map images (heat maps and their layouts) found next to a
//! design: categories of items, path comparison as `Path` does it, and the
//! labels shown for categories and items.

use vstd::prelude::*;
use crate::text::{
    str_chars, split, split_chars, views, string_from_chars, upper, upper_chars, lower, lower_chars,
};

verus! {

/// One map image, its optional value table, and its label.
pub struct MapItem {
    pub label: String,
    pub png_path: String,
    pub csv_path: Option<String>,
}

/// A directory of map images.
pub struct MapCategory {
    pub id: String,
    pub label: String,
    pub layout_path: Option<String>,
    pub items: Vec<MapItem>,
}

/// Every category found, and the warnings met while looking.
pub struct MapCatalog {
    pub categories: Vec<MapCategory>,
    pub warnings: Vec<String>,
}

/// The number of items over all categories.
pub open spec fn items_total(categories: Seq<MapCategory>) -> nat
    decreases categories.len(),
{
    if categories.len() == 0 {
        0
    } else {
        items_total(categories.drop_last()) + categories.last().items@.len()
    }
}

proof fn lemma_items_total_zero(categories: Seq<MapCategory>)
    ensures
        (items_total(categories) == 0) <==> (forall|i: int|
            0 <= i < categories.len() ==> #[trigger] categories[i].items@.len() == 0),
    decreases categories.len(),
{
    if categories.len() > 0 {
        lemma_items_total_zero(categories.drop_last());
        assert forall|i: int| 0 <= i < categories.len() - 1 implies #[trigger] categories[i]
            == categories.drop_last()[i] by {}
    }
}

/// `.` alone: the segment that `Path` drops inside a path.
pub open spec fn is_dot(segment: Seq<char>) -> bool {
    segment.len() == 1 && segment[0] == '.'
}

/// A segment that `Path` keeps as a named component.
pub open spec fn is_named_segment(segment: Seq<char>) -> bool {
    segment.len() > 0 && !is_dot(segment)
}

/// The segments kept as named components, in order.
pub open spec fn named_segments(segments: Seq<Seq<char>>) -> Seq<Seq<char>>
    decreases segments.len(),
{
    if segments.len() == 0 {
        Seq::empty()
    } else if is_named_segment(segments.last()) {
        named_segments(segments.drop_last()).push(segments.last())
    } else {
        named_segments(segments.drop_last())
    }
}

/// The path starts at the root.
pub open spec fn path_is_absolute(p: Seq<char>) -> bool {
    p.len() > 0 && p[0] == '/'
}

/// The path starts with a `.` component, which `Path` keeps there.
pub open spec fn path_starts_at_cur_dir(p: Seq<char>) -> bool {
    !path_is_absolute(p) && is_dot(split(p, '/')[0])
}

/// Two paths with the same components, as `Path`'s `==` compares them:
/// repeated separators, a trailing separator and inner `.` segments do not
/// count.
pub open spec fn same_path(a: Seq<char>, b: Seq<char>) -> bool {
    &&& path_is_absolute(a) == path_is_absolute(b)
    &&& path_starts_at_cur_dir(a) == path_starts_at_cur_dir(b)
    &&& named_segments(split(a, '/')) == named_segments(split(b, '/'))
}

fn is_dot_chars(segment: &Vec<char>) -> (r: bool)
    ensures
        r == is_dot(segment@),
{
    segment.len() == 1 && segment[0] == '.'
}

fn named_segment_list(segments: &Vec<Vec<char>>) -> (r: Vec<Vec<char>>)
    ensures
        views(r@) == named_segments(views(segments@)),
{
    let mut r: Vec<Vec<char>> = Vec::new();
    let n = segments.len();
    for i in 0..n
        invariant
            n == segments@.len(),
            views(r@) == named_segments(views(segments@).take(i as int)),
    {
        let seg = &segments[i];
        assert(views(segments@).take(i + 1).drop_last() =~= views(segments@).take(i as int));
        assert(views(segments@).take(i + 1).last() == seg@);
        if seg.len() > 0 && !is_dot_chars(seg) {
            let copy = seg.clone();
            assert(copy@ == seg@);
            let ghost before = views(r@);
            r.push(copy);
            assert(views(r@) =~= before.push(seg@));
        }
    }
    assert(views(segments@).take(n as int) =~= views(segments@));
    r
}

fn same_chars(x: &Vec<char>, y: &Vec<char>) -> (r: bool)
    ensures
        r == (x@ == y@),
{
    if x.len() != y.len() {
        return false;
    }
    let m = x.len();
    for k in 0..m
        invariant
            m == x@.len() == y@.len(),
            forall|l: int| 0 <= l < k ==> x@[l] == y@[l],
    {
        if x[k] != y[k] {
            return false;
        }
    }
    assert(x@ =~= y@);
    true
}

fn same_segments(a: &Vec<Vec<char>>, b: &Vec<Vec<char>>) -> (r: bool)
    ensures
        r == (views(a@) == views(b@)),
{
    if a.len() != b.len() {
        assert(views(a@).len() != views(b@).len());
        return false;
    }
    let n = a.len();
    for i in 0..n
        invariant
            n == a@.len() == b@.len(),
            forall|j: int| 0 <= j < i ==> a@[j]@ == b@[j]@,
    {
        let x = &a[i];
        let y = &b[i];
        assert(views(a@)[i as int] == x@);
        assert(views(b@)[i as int] == y@);
        if !same_chars(x, y) {
            return false;
        }
    }
    assert(views(a@) =~= views(b@));
    true
}

/// Whether two paths name the same components (see `same_path`).
pub fn paths_equal(a: &str, b: &str) -> (r: bool)
    ensures
        r == same_path(a@, b@),
{
    let ac = str_chars(a);
    let bc = str_chars(b);
    let a_abs = ac.len() > 0 && ac[0] == '/';
    let b_abs = bc.len() > 0 && bc[0] == '/';
    if a_abs != b_abs {
        return false;
    }
    let a_segments = split_chars(&ac, '/');
    let b_segments = split_chars(&bc, '/');
    let a_cur = !a_abs && is_dot_chars(&a_segments[0]);
    let b_cur = !b_abs && is_dot_chars(&b_segments[0]);
    assert(views(a_segments@)[0] == a_segments@[0]@);
    assert(views(b_segments@)[0] == b_segments@[0]@);
    if a_cur != b_cur {
        return false;
    }
    let a_named = named_segment_list(&a_segments);
    let b_named = named_segment_list(&b_segments);
    same_segments(&a_named, &b_named)
}

impl MapCatalog {
    /// The number of map items over all categories.
    pub fn item_count(&self) -> (n: usize)
        requires
            items_total(self.categories@) <= usize::MAX,
        ensures
            n == items_total(self.categories@),
    {
        let mut total: usize = 0;
        let cats = &self.categories;
        for i in 0..cats.len()
            invariant
                cats@ == self.categories@,
                items_total(cats@) <= usize::MAX,
                total == items_total(cats@.take(i as int)),
        {
            assert(cats@.take(i + 1).drop_last() =~= cats@.take(i as int));
            proof {
                lemma_items_total_prefix(cats@, i + 1);
            }
            total = total + cats[i].items.len();
        }
        assert(cats@.take(cats@.len() as int) =~= cats@);
        total
    }

    /// Whether no category holds an item.
    pub fn is_empty(&self) -> (r: bool)
        ensures
            r == (items_total(self.categories@) == 0),
    {
        proof {
            lemma_items_total_zero(self.categories@);
        }
        let cats = &self.categories;
        for i in 0..cats.len()
            invariant
                cats@ == self.categories@,
                (items_total(cats@) == 0) <==> (forall|j: int|
                    0 <= j < cats@.len() ==> #[trigger] cats@[j].items@.len() == 0),
                forall|j: int| 0 <= j < i ==> #[trigger] cats@[j].items@.len() == 0,
        {
            if cats[i].items.len() > 0 {
                return false;
            }
        }
        true
    }

    /// The first item, category by category, whose image path names the
    /// same file as `path`, with its category's layout path.
    pub fn find_item_by_png(&self, path: &str) -> (found: Option<(&MapItem, Option<&str>)>)
        ensures
            match found {
                Some((item, layout)) => exists|c: int, k: int|
                    {
                        &&& 0 <= c < self.categories@.len()
                        &&& 0 <= k < self.categories@[c].items@.len()
                        &&& *item == self.categories@[c].items@[k]
                        &&& same_path(item.png_path@, path@)
                        &&& first_match(self.categories@, path@, c, k)
                        &&& match (layout, self.categories@[c].layout_path) {
                            (Some(l), Some(p)) => l@ == p@,
                            (None, None) => true,
                            _ => false,
                        }
                    },
                None => forall|c: int, k: int|
                    0 <= c < self.categories@.len() && 0 <= k
                        < self.categories@[c].items@.len() ==> !same_path(
                        #[trigger] self.categories@[c].items@[k].png_path@,
                        path@,
                    ),
            },
    {
        let cats = &self.categories;
        for c in 0..cats.len()
            invariant
                cats@ == self.categories@,
                forall|c2: int, k: int|
                    0 <= c2 < c && 0 <= k < cats@[c2].items@.len() ==> !same_path(
                        #[trigger] cats@[c2].items@[k].png_path@,
                        path@,
                    ),
        {
            let category = &cats[c];
            let items = &category.items;
            for k in 0..items.len()
                invariant
                    cats@ == self.categories@,
                    c < cats@.len(),
                    *category == cats@[c as int],
                    items@ == cats@[c as int].items@,
                    forall|c2: int, k2: int|
                        0 <= c2 < c && 0 <= k2 < cats@[c2].items@.len() ==> !same_path(
                            #[trigger] cats@[c2].items@[k2].png_path@,
                            path@,
                        ),
                    forall|k2: int|
                        0 <= k2 < k ==> !same_path(#[trigger] items@[k2].png_path@, path@),
            {
                let item = &items[k];
                if paths_equal(item.png_path.as_str(), path) {
                    let layout: Option<&str> = match &category.layout_path {
                        Some(p) => Some(p.as_str()),
                        None => None,
                    };
                    assert(first_match(self.categories@, path@, c as int, k as int));
                    return Some((item, layout));
                }
            }
        }
        None
    }
}

/// Item `k` of category `c` is the first, in order, whose image path names
/// `path`.
pub open spec fn first_match(categories: Seq<MapCategory>, path: Seq<char>, c: int, k: int) -> bool {
    &&& forall|c2: int, k2: int|
        0 <= c2 < c && 0 <= k2 < categories[c2].items@.len() ==> !same_path(
            #[trigger] categories[c2].items@[k2].png_path@,
            path,
        )
    &&& forall|k2: int|
        0 <= k2 < k ==> !same_path(#[trigger] categories[c].items@[k2].png_path@, path)
}

proof fn lemma_items_total_prefix(categories: Seq<MapCategory>, i: int)
    requires
        0 < i <= categories.len(),
    ensures
        items_total(categories.take(i)) == items_total(categories.take(i - 1))
            + categories[i - 1].items@.len(),
        items_total(categories.take(i)) <= items_total(categories),
    decreases categories.len() - i,
{
    assert(categories.take(i).drop_last() =~= categories.take(i - 1));
    if i < categories.len() {
        lemma_items_total_prefix(categories, i + 1);
    } else {
        assert(categories.take(i) =~= categories);
    }
}

/// `_` replaced by a space.
pub open spec fn humanized(value: Seq<char>) -> Seq<char> {
    value.map_values(|c: char| if c == '_' { ' ' } else { c })
}

/// An identifier as a label: each `_` becomes a space.
pub fn humanize_identifier(value: &str) -> (label: String)
    ensures
        label@ == humanized(value@),
{
    let chars = str_chars(value);
    let mut out: Vec<char> = Vec::new();
    let n = chars.len();
    for i in 0..n
        invariant
            n == chars@.len(),
            chars@ == value@,
            out@ == humanized(chars@.take(i as int)),
    {
        let c = chars[i];
        let d = if c == '_' {
            ' '
        } else {
            c
        };
        out.push(d);
        assert(humanized(chars@.take(i + 1)) =~= humanized(chars@.take(i as int)).push(d));
    }
    assert(chars@.take(n as int) =~= chars@);
    string_from_chars(&out)
}

/// The identifier without a `_map` suffix, or else without a `_MAP`
/// suffix, or else unchanged.
pub open spec fn category_base(id: Seq<char>) -> Seq<char> {
    let n = id.len();
    if n >= 4 && id.subrange(n - 4, n as int) == seq!['_', 'm', 'a', 'p'] {
        id.subrange(0, n - 4)
    } else if n >= 4 && id.subrange(n - 4, n as int) == seq!['_', 'M', 'A', 'P'] {
        id.subrange(0, n - 4)
    } else {
        id
    }
}

fn ends_with_chars(s: &Vec<char>, suffix: [char; 4]) -> (r: bool)
    ensures
        r == (s@.len() >= 4 && s@.subrange(s@.len() - 4, s@.len() as int) == suffix@),
{
    let n = s.len();
    if n < 4 {
        return false;
    }
    let r = s[n - 4] == suffix[0] && s[n - 3] == suffix[1] && s[n - 2] == suffix[2] && s[n - 1]
        == suffix[3];
    if r {
        assert(s@.subrange(n - 4, n as int) =~= suffix@);
    } else {
        assert(s@.subrange(n - 4, n as int) != suffix@) by {
            let t = s@.subrange(n - 4, n as int);
            if t == suffix@ {
                assert(t[0] == suffix@[0] && t[1] == suffix@[1] && t[2] == suffix@[2] && t[3]
                    == suffix@[3]);
            }
        }
    }
    r
}

/// A category's label: its identifier without the `_map` suffix, with
/// spaces for `_`, in ASCII capitals.
pub fn humanize_category(id: &str) -> (label: String)
    ensures
        label@ == upper(humanized(category_base(id@))),
{
    let chars = str_chars(id);
    let n = chars.len();
    let lower_suffix: [char; 4] = ['_', 'm', 'a', 'p'];
    let upper_suffix: [char; 4] = ['_', 'M', 'A', 'P'];
    assert(lower_suffix@ == seq!['_', 'm', 'a', 'p']);
    assert(upper_suffix@ == seq!['_', 'M', 'A', 'P']);
    let mut base: Vec<char> = Vec::new();
    let keep: usize = if ends_with_chars(&chars, lower_suffix) || ends_with_chars(
        &chars,
        upper_suffix,
    ) {
        n - 4
    } else {
        n
    };
    for i in 0..keep
        invariant
            keep <= n == chars@.len(),
            base@ == chars@.take(i as int),
    {
        base.push(chars[i]);
        assert(chars@.take(i + 1) =~= chars@.take(i as int).push(chars@[i as int]));
    }
    assert(base@ =~= category_base(id@));
    let base_text = string_from_chars(&base);
    let spaced = humanize_identifier(base_text.as_str());
    let spaced_chars = str_chars(spaced.as_str());
    let shouted = upper_chars(&spaced_chars);
    string_from_chars(&shouted)
}

/// A directory holds map images when its name ends in `_map`, ignoring
/// ASCII case.
pub open spec fn is_map_directory_name(name: Seq<char>) -> bool {
    let l = lower(name);
    l.len() >= 4 && l.subrange(l.len() - 4, l.len() as int) == seq!['_', 'm', 'a', 'p']
}

/// Whether a directory name marks a map category (see
/// `is_map_directory_name`).
pub fn is_map_category_directory(name: &str) -> (r: bool)
    ensures
        r == is_map_directory_name(name@),
{
    let chars = str_chars(name);
    let l = lower_chars(&chars);
    let suffix: [char; 4] = ['_', 'm', 'a', 'p'];
    assert(suffix@ == seq!['_', 'm', 'a', 'p']);
    ends_with_chars(&l, suffix)
}

/// The value table and layout table a map item is drawn from, or why it
/// cannot be: its CSV is missing, or its category has no `layout.csv`.
pub open spec fn map_item_sources(
    label: Seq<char>,
    csv_path: Option<Seq<char>>,
    layout_path: Option<Seq<char>>,
) -> Result<(Seq<char>, Seq<char>), Seq<char>> {
    match csv_path {
        None => Err("matching CSV is missing for "@ + label),
        Some(csv) => match layout_path {
            None => Err("layout.csv is missing for "@ + label),
            Some(layout) => Ok((csv, layout)),
        },
    }
}

/// The paths to load a map item's heat map from (see `map_item_sources`).
pub fn map_item_load_paths(item: &MapItem, layout_path: Option<&String>) -> (r: Result<
    (String, String),
    String,
>)
    ensures
        match r {
            Ok((csv, layout)) => map_item_sources(
                item.label@,
                match item.csv_path {
                    Some(c) => Some(c@),
                    None => None,
                },
                match layout_path {
                    Some(l) => Some(l@),
                    None => None,
                },
            ) == Ok::<(Seq<char>, Seq<char>), Seq<char>>((csv@, layout@)),
            Err(e) => map_item_sources(
                item.label@,
                match item.csv_path {
                    Some(c) => Some(c@),
                    None => None,
                },
                match layout_path {
                    Some(l) => Some(l@),
                    None => None,
                },
            ) == Err::<(Seq<char>, Seq<char>), Seq<char>>(e@),
        },
{
    let csv = match &item.csv_path {
        Some(c) => c,
        None => {
            let mut m = crate::text::string_from_str("matching CSV is missing for ");
            crate::text::push_str(&mut m, item.label.as_str());
            return Err(m);
        },
    };
    let layout = match layout_path {
        Some(l) => l,
        None => {
            let mut m = crate::text::string_from_str("layout.csv is missing for ");
            crate::text::push_str(&mut m, item.label.as_str());
            return Err(m);
        },
    };
    Ok((crate::text::string_from_str(csv.as_str()), crate::text::string_from_str(layout.as_str())))
}

/// The categories a catalog keeps from what reading each category
/// directory gave, in order: those read with at least one item.
pub open spec fn kept_categories(results: Seq<Result<MapCategory, String>>) -> Seq<MapCategory>
    decreases results.len(),
{
    if results.len() == 0 {
        Seq::empty()
    } else {
        let prev = kept_categories(results.drop_last());
        match results.last() {
            Ok(c) => if c.items@.len() > 0 {
                prev.push(c)
            } else {
                prev
            },
            Err(_) => prev,
        }
    }
}

/// The warnings of a catalog: the errors met reading category
/// directories, in order.
pub open spec fn category_warnings(results: Seq<Result<MapCategory, String>>) -> Seq<Seq<char>>
    decreases results.len(),
{
    if results.len() == 0 {
        Seq::empty()
    } else {
        let prev = category_warnings(results.drop_last());
        match results.last() {
            Ok(_) => prev,
            Err(e) => prev.push(e@),
        }
    }
}

/// Assembles a catalog from what reading each category directory gave, in
/// directory order: categories without items are left out, errors become
/// warnings.
pub fn catalog_from_categories(results: Vec<Result<MapCategory, String>>) -> (c: MapCatalog)
    ensures
        c.categories@ == kept_categories(results@),
        crate::text::string_views(c.warnings@) == category_warnings(results@),
{
    let ghost all = results@;
    let mut rest = results;
    let mut categories: Vec<MapCategory> = Vec::new();
    let mut warnings: Vec<String> = Vec::new();
    let n = rest.len();
    let mut i: usize = 0;
    while i < n
        invariant
            n == all.len(),
            i <= n,
            rest@ == all.skip(i as int),
            categories@ == kept_categories(all.take(i as int)),
            crate::text::string_views(warnings@) == category_warnings(all.take(i as int)),
        decreases n - i,
    {
        assert(all.take(i + 1).drop_last() =~= all.take(i as int));
        assert(all.take(i + 1).last() == all[i as int]);
        assert(rest@[0] == all[i as int]);
        let r = rest.remove(0);
        assert(rest@ =~= all.skip(i + 1));
        match r {
            Ok(c) => {
                if c.items.len() > 0 {
                    categories.push(c);
                }
            },
            Err(e) => {
                let ghost before = crate::text::string_views(warnings@);
                warnings.push(e);
                assert(crate::text::string_views(warnings@) =~= before.push(all[i as int]->Err_0@));
            },
        }
        i = i + 1;
    }
    assert(all.take(n as int) =~= all);
    MapCatalog { categories, warnings }
}

} // verus!
