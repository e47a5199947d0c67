//! Picking items out of a sequence by marks.

use vstd::prelude::*;

verus! {

/// The items of `items` that `keep` marks, in their order: item `i` stays
/// where `keep[i]` holds.
pub open spec fn picked<A>(items: Seq<A>, keep: Seq<bool>) -> Seq<A>
    decreases items.len(),
{
    if items.len() == 0 {
        Seq::empty()
    } else {
        let front = picked(items.drop_last(), keep.drop_last());
        if keep.last() {
            front.push(items.last())
        } else {
            front
        }
    }
}

/// The places that the first `n` marks of `keep` mark, in rising order.
pub open spec fn places(keep: Seq<bool>, n: nat) -> Seq<int>
    decreases n,
{
    if n == 0 {
        Seq::empty()
    } else if keep[n - 1] {
        places(keep, (n - 1) as nat).push(n - 1)
    } else {
        places(keep, (n - 1) as nat)
    }
}

/// Picking keeps all items where every item is marked.
pub proof fn law_pick_all<A>(items: Seq<A>, keep: Seq<bool>)
    requires
        keep.len() == items.len(),
        forall|i: int| 0 <= i < keep.len() ==> keep[i],
    ensures
        picked(items, keep) == items,
    decreases items.len(),
{
    if items.len() > 0 {
        law_pick_all(items.drop_last(), keep.drop_last());
        assert(items.drop_last().push(items.last()) =~= items);
    }
}

/// Picking keeps nothing where no item is marked.
pub proof fn law_pick_none<A>(items: Seq<A>, keep: Seq<bool>)
    requires
        keep.len() == items.len(),
        forall|i: int| 0 <= i < keep.len() ==> !keep[i],
    ensures
        picked(items, keep) == Seq::<A>::empty(),
    decreases items.len(),
{
    if items.len() > 0 {
        law_pick_none(items.drop_last(), keep.drop_last());
    }
}

/// Picking keeps the marked items and no others, in their order: what
/// is picked is the items at the marked places, and those places rise.
pub proof fn law_pick_in_order<A>(items: Seq<A>, keep: Seq<bool>)
    requires
        keep.len() == items.len(),
    ensures
        picked(items, keep).len() == places(keep, items.len()).len(),
        forall|k: int|
            0 <= k < picked(items, keep).len() ==> {
                let at = #[trigger] places(keep, items.len())[k];
                0 <= at < items.len() && keep[at] && picked(items, keep)[k] == items[at]
            },
        forall|a: int, b: int|
            0 <= a < b < places(keep, items.len()).len() ==> places(keep, items.len())[a]
                < places(keep, items.len())[b],
        forall|i: int|
            0 <= i < items.len() && keep[i] ==> places(keep, items.len()).contains(i),
    decreases items.len(),
{
    let n = items.len();
    if n > 0 {
        let front = items.drop_last();
        let marks = keep.drop_last();
        law_pick_in_order(front, marks);
        lemma_places_prefix(keep, marks, (n - 1) as nat);
        let before = places(keep, (n - 1) as nat);
        let all = places(keep, n);
        assert forall|k: int| 0 <= k < picked(items, keep).len() implies {
            let at = #[trigger] all[k];
            0 <= at < items.len() && keep[at] && picked(items, keep)[k] == items[at]
        } by {
            if k < before.len() {
                let at = before[k];
                assert(marks[at] == keep[at]);
                assert(front[at] == items[at]);
            }
        }
        assert forall|i: int| 0 <= i < items.len() && keep[i] implies all.contains(i) by {
            if i < n - 1 {
                assert(marks[i]);
                let k = choose|k: int| 0 <= k < before.len() && before[k] == i;
                assert(all[k] == i);
            } else {
                assert(all[all.len() - 1] == i);
            }
        }
    }
}

/// The places marked among the first `n` marks depend on those marks
/// only.
proof fn lemma_places_prefix(keep: Seq<bool>, marks: Seq<bool>, n: nat)
    requires
        n <= keep.len(),
        n <= marks.len(),
        forall|i: int| 0 <= i < n ==> keep[i] == marks[i],
    ensures
        places(keep, n) == places(marks, n),
    decreases n,
{
    if n > 0 {
        lemma_places_prefix(keep, marks, (n - 1) as nat);
    }
}

} // verus!
