//! The spatial index of violation boxes: an `rstar` R-tree of the boxes,
//! each tagged with its violation's position, asked for the boxes that
//! touch a viewport.

use vstd::prelude::*;
use vstd::multiset::Multiset;
use rstar::primitives::{GeomWithData, Rectangle};
use crate::geometry::Rect32;

verus! {

broadcast use {
    vstd::multiset::group_multiset_axioms,
    vstd::multiset::group_multiset_properties,
    vstd::seq_lib::group_to_multiset_ensures,
};

/// The smaller of two coordinates.
pub open spec fn low(a: i32, b: i32) -> i32 {
    if a <= b {
        a
    } else {
        b
    }
}

/// The larger of two coordinates.
pub open spec fn high(a: i32, b: i32) -> i32 {
    if a >= b {
        a
    } else {
        b
    }
}

/// The axis-aligned envelope of a box given by two corners: lowest x,
/// lowest y, highest x, highest y.
pub open spec fn envelope(r: Rect32) -> (i32, i32, i32, i32) {
    (low(r.lx, r.hx), low(r.ly, r.hy), high(r.lx, r.hx), high(r.ly, r.hy))
}

/// The index entry of a box: its envelope and the position it stands for.
pub open spec fn entry_of(r: Rect32, index: usize) -> (i32, i32, i32, i32, usize) {
    let e = envelope(r);
    (e.0, e.1, e.2, e.3, index)
}

/// An entry's envelope and a query envelope share at least a point
/// (touching edges and corners count).
pub open spec fn touches(e: (i32, i32, i32, i32, usize), q: (i32, i32, i32, i32)) -> bool {
    e.0 <= q.2 && e.1 <= q.3 && e.2 >= q.0 && e.3 >= q.1
}

/// The entries of boxes tagged with positions.
pub open spec fn entries_of(boxes: Seq<(Rect32, usize)>) -> Multiset<(i32, i32, i32, i32, usize)>
    decreases boxes.len(),
{
    if boxes.len() == 0 {
        Multiset::empty()
    } else {
        entries_of(boxes.drop_last()).insert(entry_of(boxes.last().0, boxes.last().1))
    }
}

/// An R-tree of boxes, each tagged with a position.
#[verifier::external_body]
pub struct BoxIndex {
    tree: rstar::RTree<GeomWithData<Rectangle<[i32; 2]>, usize>>,
}

/// The entries an index holds.
pub uninterp spec fn index_entries(index: BoxIndex) -> Multiset<(i32, i32, i32, i32, usize)>;

/// Builds an R-tree with `rstar::RTree::bulk_load`, each box stored as a
/// `Rectangle::from_corners` of its corners tagged with its position.
/// Claimed: the tree holds exactly those entries, each box as the envelope
/// of its two corners (as `rstar::AABB::from_corners` computes it).
#[verifier::external_body]
fn bulk_load_boxes(boxes: Vec<(Rect32, usize)>) -> (index: BoxIndex)
    ensures
        index_entries(index) == entries_of(boxes@),
{
    let nodes: Vec<GeomWithData<Rectangle<[i32; 2]>, usize>> = boxes.into_iter().map(
        |(r, i): (Rect32, usize)| GeomWithData::new(Rectangle::from_corners([r.lx, r.ly], [r.hx, r.hy]), i),
    ).collect();
    BoxIndex { tree: rstar::RTree::bulk_load(nodes) }
}

/// Asks the R-tree with `rstar::RTree::locate_in_envelope_intersecting`
/// for the entries touching the envelope of `query`'s corners, each handed
/// out as its envelope and position.  Claimed: the entries handed out,
/// counted with multiplicity, are exactly the index's entries that touch
/// the query; their order is left open, as the crate documents it.
#[verifier::external_body]
pub(crate) fn locate_touching(index: &BoxIndex, query: Rect32) -> (found: Vec<(i32, i32, i32, i32, usize)>)
    ensures
        found@.to_multiset() == index_entries(*index).filter(
            |e: (i32, i32, i32, i32, usize)| touches(e, envelope(query)),
        ),
{
    let aabb = rstar::AABB::from_corners([query.lx, query.ly], [query.hx, query.hy]);
    index.tree.locate_in_envelope_intersecting(aabb).map(
        |node: &GeomWithData<Rectangle<[i32; 2]>, usize>| (
            node.geom().lower()[0],
            node.geom().lower()[1],
            node.geom().upper()[0],
            node.geom().upper()[1],
            node.data,
        ),
    ).collect()
}

/// An index of the boxes, each tagged with its position in the list.
pub fn index_boxes(boxes: &Vec<Rect32>) -> (index: BoxIndex)
    ensures
        index_entries(index) == entries_of(tagged(boxes@)),
{
    let mut tagged_boxes: Vec<(Rect32, usize)> = Vec::new();
    for i in 0..boxes.len()
        invariant
            tagged_boxes@ == tagged(boxes@.take(i as int)),
    {
        assert(tagged(boxes@.take(i + 1)) =~= tagged(boxes@.take(i as int)).push((boxes@[i as int], i)));
        tagged_boxes.push((boxes[i], i));
    }
    assert(boxes@.take(boxes@.len() as int) =~= boxes@);
    bulk_load_boxes(tagged_boxes)
}

/// The boxes tagged with their positions.
pub open spec fn tagged(boxes: Seq<Rect32>) -> Seq<(Rect32, usize)> {
    Seq::new(boxes.len(), |i: int| (boxes[i], i as usize))
}

/// The number of elements of `s` that satisfy `p`.
pub open spec fn count_where<A>(s: Seq<A>, p: spec_fn(A) -> bool) -> nat
    decreases s.len(),
{
    if s.len() == 0 {
        0
    } else {
        count_where(s.drop_last(), p) + if p(s.last()) {
            1nat
        } else {
            0nat
        }
    }
}

/// Filtering after adding an element adds it to the filtered multiset
/// exactly when it passes.
pub proof fn lemma_filter_insert<A>(m: Multiset<A>, x: A, p: spec_fn(A) -> bool)
    ensures
        m.insert(x).filter(p) == if p(x) {
            m.filter(p).insert(x)
        } else {
            m.filter(p)
        },
{
    if p(x) {
        assert(m.insert(x).filter(p) =~= m.filter(p).insert(x));
    } else {
        assert(m.insert(x).filter(p) =~= m.filter(p));
    }
}

/// Counting the elements of a sequence that pass is the size of the
/// filtered multiset of its elements.
pub proof fn lemma_count_where_multiset<A>(s: Seq<A>, p: spec_fn(A) -> bool)
    ensures
        count_where(s, p) == s.to_multiset().filter(p).len(),
    decreases s.len(),
{
    if s.len() == 0 {
        assert(s.to_multiset() =~= Multiset::empty());
        assert(s.to_multiset().filter(p) =~= Multiset::empty());
    } else {
        let rest = s.drop_last();
        lemma_count_where_multiset(rest, p);
        assert(rest.push(s.last()) =~= s);
        assert(s.to_multiset() =~= rest.to_multiset().insert(s.last()));
        lemma_filter_insert(rest.to_multiset(), s.last(), p);
    }
}

/// Filtering twice is filtering by both conditions.
pub proof fn lemma_filter_filter<A>(m: Multiset<A>, p: spec_fn(A) -> bool, q: spec_fn(A) -> bool)
    ensures
        m.filter(p).filter(q) == m.filter(|a: A| p(a) && q(a)),
{
    assert(m.filter(p).filter(q) =~= m.filter(|a: A| p(a) && q(a)));
}

/// Counting the tagged boxes that pass, through the multiset of their
/// entries, is counting the positions whose box passes.
pub proof fn lemma_entries_filter_len(boxes: Seq<Rect32>, p: spec_fn((i32, i32, i32, i32, usize)) -> bool)
    ensures
        entries_of(tagged(boxes)).filter(p).len() == count_where(
            Seq::new(boxes.len(), |i: int| entry_of(boxes[i], i as usize)),
            p,
        ),
    decreases boxes.len(),
{
    let entries = Seq::new(boxes.len(), |i: int| entry_of(boxes[i], i as usize));
    if boxes.len() == 0 {
        assert(tagged(boxes) =~= Seq::<(Rect32, usize)>::empty());
        assert(entries_of(tagged(boxes)).filter(p) =~= Multiset::empty());
    } else {
        let rest = boxes.drop_last();
        lemma_entries_filter_len(rest, p);
        assert(tagged(boxes).drop_last() =~= tagged(rest));
        let rest_entries = Seq::new(rest.len(), |i: int| entry_of(rest[i], i as usize));
        assert(entries.drop_last() =~= rest_entries);
        lemma_filter_insert(
            entries_of(tagged(rest)),
            entry_of(boxes.last(), (boxes.len() - 1) as usize),
            p,
        );
    }
}

} // verus!
