//! Sets of shape identifiers: the highlighted shapes of a search and the
//! selection drawn over them.

use vstd::prelude::*;
use std::collections::BTreeSet;
use vstd::std_specs::iter::IteratorSpec;
use crate::geometry::{Rect32, spec_union_rect, union_rect};
use crate::text::{decimal, parse_u64, trim, str_chars, trim_chars, parse_u64_chars, push_str,
    push_chars, push_decimal, string_from_str};

verus! {

broadcast use {vstd::std_specs::btree::group_btree_axioms, vstd::laws_cmp::group_laws_cmp};

/// `u64` keys order as `BTreeSet` needs.
proof fn lemma_u64_keys_ordered()
    ensures
        vstd::laws_cmp::obeys_cmp::<u64>(),
        vstd::std_specs::btree::key_obeys_cmp_spec::<u64>(),
{
}

/// The identifiers of a set, each once.
pub fn set_ids(set: &BTreeSet<u64>) -> (ids: Vec<u64>)
    ensures
        ids@.to_set() == set@,
        ids@.no_duplicates(),
{
    proof {
        lemma_u64_keys_ordered();
    }
    let ghost items = vstd::std_specs::btree::spec_btree_keys_iter(set).remaining();
    let mut ids: Vec<u64> = Vec::new();
    for x in it: set.iter()
        invariant
            it.seq() == items,
            items.unref().to_set() == set@,
            items.no_duplicates(),
            ids@.len() == it.index(),
            forall|i: int| 0 <= i < ids@.len() ==> ids@[i] == *it.seq()[i],
    {
        ids.push(*x);
    }
    assert(ids@ =~= items.unref());
    assert(ids@.no_duplicates()) by {
        assert forall|i: int, j: int| 0 <= i < ids@.len() && 0 <= j < ids@.len() && i != j implies ids@[i]
            != ids@[j] by {
            assert(items[i] != items[j]);
        }
    }
    ids
}


/// The set of highlighted shapes with the selected one added.
pub fn overlay_shape_ids(selected: Option<u64>, highlighted: &BTreeSet<u64>) -> (overlay: BTreeSet<
    u64,
>)
    ensures
        overlay@ == match selected {
            Some(id) => highlighted@.insert(id),
            None => highlighted@,
        },
{
    proof {
        lemma_u64_keys_ordered();
    }
    let mut overlay = highlighted.clone();
    match selected {
        Some(id) => {
            overlay.insert(id);
        },
        None => {},
    }
    overlay
}

/// Empties the search text and the highlighted shapes.
pub fn clear_search_state(search_text: &mut String, highlighted: &mut BTreeSet<u64>)
    ensures
        final(search_text)@.len() == 0,
        final(highlighted)@.is_empty(),
{
    *search_text = String::new();
    highlighted.clear();
}

/// The lowest identifier of the set for which `is_live` answers true.
/// Every identifier is asked once; the answers are what the contract speaks
/// of.
pub fn first_existing_shape_id(shape_ids: &BTreeSet<u64>, is_live: impl Fn(u64) -> bool) -> (first:
    Option<u64>)
    requires
        forall|id: u64| is_live.requires((id,)),
    ensures
        match first {
            Some(id) => shape_ids@.contains(id) && is_live.ensures((id,), true) && forall|k: u64|
                #![trigger shape_ids@.contains(k)]
                shape_ids@.contains(k) && k < id ==> is_live.ensures((k,), false),
            None => forall|k: u64| #[trigger] shape_ids@.contains(k) ==> is_live.ensures((k,), false),
        },
{
    let ids = set_ids(shape_ids);
    let mut best: Option<u64> = None;
    let n = ids.len();
    for i in 0..n
        invariant
            n == ids@.len(),
            ids@.to_set() == shape_ids@,
            forall|id: u64| is_live.requires((id,)),
            match best {
                Some(b) => (exists|j: int| 0 <= j < i && #[trigger] ids@[j] == b) && is_live.ensures((b,), true),
                None => true,
            },
            forall|j: int|
                0 <= j < i ==> #[trigger] is_live.ensures((ids@[j],), false) || (match best {
                    Some(b) => b <= ids@[j],
                    None => false,
                }),
    {
        let id = ids[i];
        let answer = is_live(id);
        let ghost old_best = best;
        if answer {
            let better = match best {
                Some(b) => id < b,
                None => true,
            };
            if better {
                best = Some(id);
            }
        }
        assert forall|j: int|
            0 <= j < i + 1 implies #[trigger] is_live.ensures((ids@[j],), false) || (match best {
                Some(b) => b <= ids@[j],
                None => false,
            }) by {
            if j < i {
                if !is_live.ensures((ids@[j],), false) {
                    assert(old_best is Some);
                }
            }
        }
        assert(ids@.subrange(0, i as int + 1) =~= ids@.subrange(0, i as int).push(id));
    }
    assert(ids@.subrange(0, n as int) =~= ids@);
    match best {
        Some(b) => {
            assert forall|k: u64| #![trigger shape_ids@.contains(k)]
                shape_ids@.contains(k) && k < b implies is_live.ensures((k,), false) by {
                assert(ids@.contains(k));
                let j = choose|j: int| 0 <= j < ids@.len() && ids@[j] == k;
                assert(is_live.ensures((ids@[j],), false) || b <= ids@[j]);
            }
        },
        None => {
            assert forall|k: u64| #[trigger] shape_ids@.contains(k) implies is_live.ensures(
                (k,),
                false,
            ) by {
                assert(ids@.contains(k));
                let j = choose|j: int| 0 <= j < ids@.len() && ids@[j] == k;
                assert(is_live.ensures((ids@[j],), false));
            }
        },
    }
    best
}

/// Keeps a selection only while `is_live` says its shape is still there.
pub fn retain_existing_shape_id(shape_id: Option<u64>, is_live: impl Fn(u64) -> bool) -> (kept:
    Option<u64>)
    requires
        forall|id: u64| is_live.requires((id,)),
    ensures
        match kept {
            Some(id) => shape_id == Some(id) && is_live.ensures((id,), true),
            None => match shape_id {
                Some(id) => is_live.ensures((id,), false),
                None => true,
            },
        },
{
    match shape_id {
        Some(id) => {
            if is_live(id) {
                Some(id)
            } else {
                None
            }
        },
        None => None,
    }
}

/// Drops the identifiers for which `is_live` answers false.
pub fn retain_existing_shape_ids(shape_ids: &mut BTreeSet<u64>, is_live: impl Fn(u64) -> bool)
    requires
        forall|id: u64| is_live.requires((id,)),
    ensures
        forall|k: u64| #[trigger] final(shape_ids)@.contains(k) ==> old(shape_ids)@.contains(k)
            && is_live.ensures((k,), true),
        forall|k: u64|
            #[trigger] old(shape_ids)@.contains(k) && !final(shape_ids)@.contains(k) ==> is_live.ensures(
                (k,),
                false,
            ),
{
    let ids = set_ids(shape_ids);
    let mut kept: BTreeSet<u64> = BTreeSet::new();
    let n = ids.len();
    for i in 0..n
        invariant
            n == ids@.len(),
            ids@.to_set() == old(shape_ids)@,
            ids@.no_duplicates(),
            forall|id: u64| is_live.requires((id,)),
            forall|k: u64| #[trigger] kept@.contains(k) ==> (exists|j: int| 0 <= j < i && #[trigger] ids@[j] == k)
                && is_live.ensures((k,), true),
            forall|j: int|
                0 <= j < i && !kept@.contains(ids@[j]) ==> #[trigger] is_live.ensures(
                    (ids@[j],),
                    false,
                ),
    {
        let id = ids[i];
        assert(ids@.subrange(0, i as int + 1) =~= ids@.subrange(0, i as int).push(id));
        proof {
            lemma_u64_keys_ordered();
        }
        if is_live(id) {
            kept.insert(id);
        }
        assert forall|j: int|
            0 <= j < i + 1 && !kept@.contains(ids@[j]) implies #[trigger] is_live.ensures(
                (ids@[j],),
                false,
            ) by {
            if j < i {
                assert(ids@[j] != id);
            }
        }
    }
    assert(ids@.subrange(0, n as int) =~= ids@);
    assert forall|k: u64|
        #[trigger] old(shape_ids)@.contains(k) && !kept@.contains(k) implies is_live.ensures(
            (k,),
            false,
        ) by {
        assert(ids@.contains(k));
        let j = choose|j: int| 0 <= j < ids@.len() && ids@[j] == k;
        assert(!kept@.contains(ids@[j]));
    }
    *shape_ids = kept;
}

/// How the view moves to a focus target.
#[derive(Clone, Copy, Debug, PartialEq, Eq, Structural)]
pub enum FocusTransition {
    Immediate,
    Animated,
}

/// A box to bring into view and the shape to select there.
#[derive(Clone, Copy, Debug, PartialEq, Eq, Structural)]
pub struct PendingFocus {
    pub bbox: Rect32,
    pub select_shape_id: Option<u64>,
    pub transition: FocusTransition,
}

/// The union of the boxes.
pub open spec fn union_all(boxes: Seq<(u64, Rect32)>) -> Rect32
    recommends
        boxes.len() > 0,
    decreases boxes.len(),
{
    if boxes.len() <= 1 {
        boxes[0].1
    } else {
        spec_union_rect(union_all(boxes.drop_last()), boxes.last().1)
    }
}

/// The lowest identifier among the boxes.
pub open spec fn lowest_id(boxes: Seq<(u64, Rect32)>) -> u64
    recommends
        boxes.len() > 0,
    decreases boxes.len(),
{
    if boxes.len() <= 1 {
        boxes[0].0
    } else if boxes.last().0 < lowest_id(boxes.drop_last()) {
        boxes.last().0
    } else {
        lowest_id(boxes.drop_last())
    }
}

/// The focus on found boxes: their union, selecting the lowest shape; none
/// when no box was found.
pub open spec fn focus_of(boxes: Seq<(u64, Rect32)>) -> Option<PendingFocus> {
    if boxes.len() == 0 {
        None
    } else {
        Some(
            PendingFocus {
                bbox: union_all(boxes),
                select_shape_id: Some(lowest_id(boxes)),
                transition: FocusTransition::Immediate,
            },
        )
    }
}

/// The boxes are the answers of `bbox_for_shape` for the identifiers of
/// the set, one for each identifier that has one.
pub open spec fn boxes_from_answers<F: Fn(u64) -> Option<Rect32>>(
    bbox_for_shape: F,
    ids: Set<u64>,
    boxes: Seq<(u64, Rect32)>,
) -> bool {
    &&& forall|i: int| 0 <= i < boxes.len() ==> ids.contains(#[trigger] boxes[i].0)
        && bbox_for_shape.ensures((boxes[i].0,), Some(boxes[i].1))
    &&& forall|i: int, j: int| 0 <= i < j < boxes.len() ==> #[trigger] boxes[i].0 != #[trigger] boxes[j].0
    &&& forall|k: u64| #[trigger] ids.contains(k) ==> (exists|i: int| 0 <= i < boxes.len() && #[trigger] boxes[i].0 == k)
        || bbox_for_shape.ensures((k,), None)
}

/// The focus target for a set of shapes: the union of the boxes that
/// `bbox_for_shape` finds, selecting the lowest identifier that has one;
/// none when it finds none. Each identifier is asked once.
pub fn focus_target_for_shape_ids(
    shape_ids: &BTreeSet<u64>,
    bbox_for_shape: impl Fn(u64) -> Option<Rect32>,
) -> (focus: Option<PendingFocus>)
    requires
        forall|id: u64| bbox_for_shape.requires((id,)),
    ensures
        exists|boxes: Seq<(u64, Rect32)>|
            boxes_from_answers(bbox_for_shape, shape_ids@, boxes) && focus == focus_of(boxes),
{
    let ids = set_ids(shape_ids);
    let mut boxes: Vec<(u64, Rect32)> = Vec::new();
    let n = ids.len();
    let mut i: usize = 0;
    while i < n
        invariant
            i <= n,
            n == ids@.len(),
            ids@.to_set() == shape_ids@,
            ids@.no_duplicates(),
            forall|id: u64| bbox_for_shape.requires((id,)),
            forall|j: int| 0 <= j < boxes@.len() ==> (exists|a: int| 0 <= a < i && #[trigger] ids@[a] == #[trigger] boxes@[j].0)
                && bbox_for_shape.ensures((boxes@[j].0,), Some(boxes@[j].1)),
            forall|a: int, b: int| 0 <= a < b < boxes@.len() ==> #[trigger] boxes@[a].0 != #[trigger] boxes@[b].0,
            forall|j: int| 0 <= j < i ==> (exists|a: int| 0 <= a < boxes@.len() && #[trigger] boxes@[a].0 == ids@[j])
                || bbox_for_shape.ensures((ids@[j],), None),
        decreases n - i,
    {
        let id = ids[i];
        let found = bbox_for_shape(id);
        let ghost before = boxes@;
        match found {
            Some(b) => {
                assert forall|j: int| 0 <= j < boxes@.len() implies #[trigger] boxes@[j].0 != id by {
                    let k = choose|k: int| 0 <= k < i && ids@[k] == boxes@[j].0;
                }
                boxes.push((id, b));
                assert forall|j: int| 0 <= j < i + 1 implies (exists|a: int| 0 <= a < boxes@.len() && #[trigger] boxes@[a].0 == ids@[j])
                    || bbox_for_shape.ensures((ids@[j],), None) by {
                    if j < i {
                        if exists|a: int| 0 <= a < before.len() && #[trigger] before[a].0 == ids@[j] {
                            let a = choose|a: int| 0 <= a < before.len() && #[trigger] before[a].0 == ids@[j];
                            assert(boxes@[a].0 == ids@[j]);
                        }
                    } else {
                        assert(boxes@[before.len() as int].0 == ids@[j]);
                    }
                }
            },
            None => {},
        }
        assert forall|j: int| 0 <= j < boxes@.len() implies (exists|a: int| 0 <= a < i + 1 && #[trigger] ids@[a] == #[trigger] boxes@[j].0)
            && bbox_for_shape.ensures((boxes@[j].0,), Some(boxes@[j].1)) by {
            if j < before.len() {
                assert(boxes@[j] == before[j]);
                let a = choose|a: int| 0 <= a < i && #[trigger] ids@[a] == before[j].0;
                assert(ids@[a] == boxes@[j].0);
            } else {
                assert(ids@[i as int] == boxes@[j].0);
            }
        }
        i = i + 1;
    }
    assert forall|k: u64| #[trigger] shape_ids@.contains(k) implies (exists|a: int| 0 <= a < boxes@.len() && #[trigger] boxes@[a].0 == k)
        || bbox_for_shape.ensures((k,), None) by {
        assert(ids@.contains(k));
        let j = choose|j: int| 0 <= j < ids@.len() && ids@[j] == k;
    }
    assert(boxes_from_answers(bbox_for_shape, shape_ids@, boxes@));
    focus_target_for_shape_boxes(&boxes)
}

/// The focus on found boxes (see `focus_of`).
pub fn focus_target_for_shape_boxes(boxes: &Vec<(u64, Rect32)>) -> (focus: Option<PendingFocus>)
    ensures
        focus == focus_of(boxes@),
{
    if boxes.len() == 0 {
        return None;
    }
    let mut bbox = boxes[0].1;
    let mut low = boxes[0].0;
    let n = boxes.len();
    assert(boxes@.subrange(0, 1).len() == 1);
    for i in 1..n
        invariant
            n == boxes@.len(),
            n >= 1,
            bbox == union_all(boxes@.subrange(0, i as int)),
            low == lowest_id(boxes@.subrange(0, i as int)),
    {
        assert(boxes@.subrange(0, i as int + 1).drop_last() =~= boxes@.subrange(0, i as int));
        bbox = union_rect(bbox, boxes[i].1);
        if boxes[i].0 < low {
            low = boxes[i].0;
        }
    }
    assert(boxes@.subrange(0, n as int) =~= boxes@);
    Some(PendingFocus { bbox, select_shape_id: Some(low), transition: FocusTransition::Immediate })
}

/// What a shape-id lookup does: where to focus, and the status line.
pub struct ShapeIdLookupAction {
    pub pending_focus: Option<PendingFocus>,
    pub message: String,
}

/// The outcome of looking up typed text as a shape identifier: a prompt for
/// blank text, an error for text that is not a `u64`, a not-found message,
/// or a focus on the shape's box.
pub open spec fn lookup_message(text: Seq<char>, found: Option<Rect32>) -> Seq<char> {
    let value = trim(text);
    if value.len() == 0 {
        "enter a ShapeId"@
    } else {
        match parse_u64(value) {
            None => "invalid ShapeId: "@ + value,
            Some(id) => match found {
                None => "shape "@ + decimal(id as nat) + " not found"@,
                Some(_) => "shape "@ + decimal(id as nat) + " selected"@,
            },
        }
    }
}

/// Looks up typed text as a shape identifier; `bbox_for_shape` is asked
/// once, for the parsed identifier.
pub fn shape_id_lookup_action(input: &str, bbox_for_shape: impl Fn(u64) -> Option<Rect32>) -> (action:
    ShapeIdLookupAction)
    requires
        forall|id: u64| bbox_for_shape.requires((id,)),
    ensures
        match parse_u64(trim(input@)) {
            Some(id) if trim(input@).len() > 0 => exists|found: Option<Rect32>|
                {
                    &&& bbox_for_shape.ensures((id,), found)
                    &&& action.message@ == lookup_message(input@, found)
                    &&& action.pending_focus == match found {
                        Some(b) => Some(
                            PendingFocus {
                                bbox: b,
                                select_shape_id: Some(id),
                                transition: FocusTransition::Immediate,
                            },
                        ),
                        None => None,
                    }
                },
            _ => action.pending_focus is None && action.message@ == lookup_message(input@, None),
        },
{
    let value = trim_chars(&str_chars(input));
    if value.len() == 0 {
        return ShapeIdLookupAction { pending_focus: None, message: string_from_str("enter a ShapeId") };
    }
    let id = match parse_u64_chars(&value) {
        Some(id) => id,
        None => {
            let mut message = String::new();
            push_str(&mut message, "invalid ShapeId: ");
            push_chars(&mut message, &value);
            return ShapeIdLookupAction { pending_focus: None, message };
        },
    };
    let found = bbox_for_shape(id);
    assert(value@ == trim(input@));
    assert(bbox_for_shape.ensures((id,), found));
    let mut message = String::new();
    push_str(&mut message, "shape ");
    push_decimal(&mut message, id);
    match found {
        None => {
            push_str(&mut message, " not found");
            let action = ShapeIdLookupAction { pending_focus: None, message };
            assert(action.message@ == lookup_message(input@, found));
            action
        },
        Some(bbox) => {
            push_str(&mut message, " selected");
            let action = ShapeIdLookupAction {
                pending_focus: Some(
                    PendingFocus { bbox, select_shape_id: Some(id), transition: FocusTransition::Immediate },
                ),
                message,
            };
            assert(action.message@ == lookup_message(input@, found));
            action
        },
    }
}

} // verus!
