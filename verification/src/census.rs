//! How many shapes each drawing category holds, and how many of them the
//! current switches show.

use vstd::prelude::*;
use crate::visibility::{
    DrawingCategory, ObjectVisibility, all_categories, category_index, category_visible,
};

verus! {

/// Shapes of category `c` among the shapes' categories (`None`: the shape
/// belongs to no category).
pub open spec fn count_in(categories: Seq<Option<DrawingCategory>>, c: DrawingCategory) -> nat
    decreases categories.len(),
{
    if categories.len() == 0 {
        0
    } else {
        count_in(categories.drop_last(), c) + if categories.last() == Some(c) {
            1nat
        } else {
            0nat
        }
    }
}

/// Shapes that belong to some category.
pub open spec fn categorised(categories: Seq<Option<DrawingCategory>>) -> nat
    decreases categories.len(),
{
    if categories.len() == 0 {
        0
    } else {
        categorised(categories.drop_last()) + if categories.last() is Some {
            1nat
        } else {
            0nat
        }
    }
}

/// The sum of the counts.
pub open spec fn seq_sum(s: Seq<usize>) -> nat
    decreases s.len(),
{
    if s.len() == 0 {
        0
    } else {
        seq_sum(s.drop_last()) + s.last() as nat
    }
}

proof fn lemma_sum_update(s: Seq<usize>, j: int, v: usize)
    requires
        0 <= j < s.len(),
    ensures
        seq_sum(s.update(j, v)) + s[j] as nat == seq_sum(s) + v as nat,
    decreases s.len(),
{
    if j < s.len() - 1 {
        lemma_sum_update(s.drop_last(), j, v);
        assert(s.update(j, v).drop_last() =~= s.drop_last().update(j, v));
    } else {
        assert(s.update(j, v).drop_last() =~= s.drop_last());
    }
}

proof fn lemma_sum_prefix(s: Seq<usize>, k: int)
    requires
        0 <= k <= s.len(),
    ensures
        seq_sum(s.take(k)) <= seq_sum(s),
    decreases s.len() - k,
{
    if k < s.len() {
        lemma_sum_prefix(s, k + 1);
        assert(s.take(k + 1).drop_last() =~= s.take(k));
    } else {
        assert(s.take(k) =~= s);
    }
}

proof fn lemma_categorised_bound(categories: Seq<Option<DrawingCategory>>)
    ensures
        categorised(categories) <= categories.len(),
    decreases categories.len(),
{
    if categories.len() > 0 {
        lemma_categorised_bound(categories.drop_last());
    }
}

proof fn lemma_index_round_trip(c: DrawingCategory)
    ensures
        category_index(c) < 14,
        all_categories()[category_index(c) as int] == c,
{
}

fn index_of(c: DrawingCategory) -> (i: usize)
    ensures
        i == category_index(c),
        i < 14,
{
    match c {
        DrawingCategory::Instances => 0,
        DrawingCategory::NetSignal => 1,
        DrawingCategory::NetClock => 2,
        DrawingCategory::NetOther => 3,
        DrawingCategory::Pdn => 4,
        DrawingCategory::Vias => 5,
        DrawingCategory::IoPins => 6,
        DrawingCategory::Placement => 7,
        DrawingCategory::Tracks => 8,
        DrawingCategory::GCells => 9,
        DrawingCategory::Obstructions => 10,
        DrawingCategory::Boundaries => 11,
        DrawingCategory::Fill => 12,
        DrawingCategory::Regions => 13,
    }
}

fn category_at(i: usize) -> (c: DrawingCategory)
    requires
        i < 14,
    ensures
        c == all_categories()[i as int],
        category_index(c) == i,
{
    if i == 0 {
        DrawingCategory::Instances
    } else if i == 1 {
        DrawingCategory::NetSignal
    } else if i == 2 {
        DrawingCategory::NetClock
    } else if i == 3 {
        DrawingCategory::NetOther
    } else if i == 4 {
        DrawingCategory::Pdn
    } else if i == 5 {
        DrawingCategory::Vias
    } else if i == 6 {
        DrawingCategory::IoPins
    } else if i == 7 {
        DrawingCategory::Placement
    } else if i == 8 {
        DrawingCategory::Tracks
    } else if i == 9 {
        DrawingCategory::GCells
    } else if i == 10 {
        DrawingCategory::Obstructions
    } else if i == 11 {
        DrawingCategory::Boundaries
    } else if i == 12 {
        DrawingCategory::Fill
    } else {
        DrawingCategory::Regions
    }
}

/// Shape counts per drawing category.
pub struct CategoryCounts {
    counts: Vec<usize>,
}

/// The shapes of the first `k` categories, in category order, that the
/// switches show.
pub open spec fn shown_sum(counts: CategoryCounts, v: ObjectVisibility, k: int) -> nat
    decreases k,
{
    if k <= 0 {
        0
    } else {
        shown_sum(counts, v, k - 1) + if category_visible(v, all_categories()[k - 1]) {
            counts.count_of(all_categories()[k - 1])
        } else {
            0nat
        }
    }
}

impl CategoryCounts {
    #[verifier::type_invariant]
    closed spec fn fits(self) -> bool {
        self.counts@.len() == 14 && seq_sum(self.counts@) <= usize::MAX
    }

    /// The number of shapes of category `c`.
    pub closed spec fn count_of(self, c: DrawingCategory) -> nat {
        self.counts@[category_index(c) as int] as nat
    }

    /// The shapes the switches show, over every category.
    pub open spec fn shown_total(self, v: ObjectVisibility) -> nat {
        shown_sum(self, v, 14)
    }

    /// Counts the shapes of each category, given each shape's category.
    pub fn drawing_category_counts(categories: &Vec<Option<DrawingCategory>>) -> (r: Self)
        ensures
            forall|c: DrawingCategory| #[trigger] r.count_of(c) == count_in(categories@, c),
    {
        let mut counts: Vec<usize> = vec![0, 0, 0, 0, 0, 0, 0, 0, 0, 0, 0, 0, 0, 0];
        let n = categories.len();
        assert(seq_sum(counts@) == 0) by {
            reveal_with_fuel(seq_sum, 15);
        }
        for i in 0..n
            invariant
                n == categories@.len(),
                counts@.len() == 14,
                forall|c: DrawingCategory| #[trigger] counts@[category_index(c) as int] == count_in(
                    categories@.take(i as int),
                    c,
                ),
                seq_sum(counts@) == categorised(categories@.take(i as int)),
                categorised(categories@.take(i as int)) <= i,
        {
            let ghost before = counts@;
            assert(categories@.take(i + 1).drop_last() =~= categories@.take(i as int));
            assert(categories@.take(i + 1).last() == categories@[i as int]);
            match categories[i] {
                Some(c) => {
                    let k = index_of(c);
                    proof {
                        lemma_sum_update(before, k as int, (before[k as int] + 1) as usize);
                        lemma_sum_prefix(before, 0);
                        assert(before[k as int] <= seq_sum(before)) by {
                            lemma_sum_update(before, k as int, 0);
                        }
                    }
                    let old_count = counts[k];
                    counts.set(k, old_count + 1);
                    assert forall|d: DrawingCategory| #[trigger] counts@[category_index(d) as int] == count_in(
                        categories@.take(i + 1),
                        d,
                    ) by {
                        lemma_index_round_trip(d);
                        lemma_index_round_trip(c);
                    }
                },
                None => {
                    assert forall|d: DrawingCategory| #[trigger] counts@[category_index(d) as int] == count_in(
                        categories@.take(i + 1),
                        d,
                    ) by {}
                },
            }
        }
        assert(categories@.take(n as int) =~= categories@);
        proof {
            lemma_categorised_bound(categories@);
        }
        let r = CategoryCounts { counts };
        r
    }

    /// The number of shapes of a category.
    pub fn shape_count(&self, category: DrawingCategory) -> (n: usize)
        ensures
            n == self.count_of(category),
    {
        proof {
            use_type_invariant(self);
        }
        self.counts[index_of(category)]
    }

    /// The number of shapes in the categories the switches show.
    pub fn visible_object_shape_count(&self, visibility: ObjectVisibility) -> (n: usize)
        ensures
            n == self.shown_total(visibility),
    {
        proof {
            use_type_invariant(self);
        }
        let mut acc: usize = 0;
        let mut k: usize = 0;
        while k < 14
            invariant
                k <= 14,
                self.counts@.len() == 14,
                seq_sum(self.counts@) <= usize::MAX,
                acc == shown_sum(*self, visibility, k as int),
                acc <= seq_sum(self.counts@.take(k as int)),
            decreases 14 - k,
        {
            let c = category_at(k);
            proof {
                lemma_sum_prefix(self.counts@, k + 1);
                assert(self.counts@.take(k + 1).drop_last() =~= self.counts@.take(k as int));
            }
            if visibility.is_category_visible(c) {
                acc = acc + self.counts[k];
            }
            k = k + 1;
        }
        acc
    }
}

} // verus!
