//! Helpers over vectors.

use vstd::prelude::*;
use vstd::std_specs::cmp::PartialEqSpec;
use crate::picking::picked;

verus! {

/// Whether some item of `items` equals `value`.
pub open spec fn occurs<T: PartialEq>(items: Seq<T>, value: T) -> bool {
    exists|j: int| 0 <= j < items.len() && (#[trigger] items[j]).eq_spec(&value)
}

/// The test that holds of the values that equal no item of `items`.
pub open spec fn absent_from<T: PartialEq>(items: Seq<T>) -> spec_fn(T) -> bool {
    |value: T| !occurs(items, value)
}

/// The first place at which an item of `items` equals `value`.
pub open spec fn first_place<T: PartialEq>(items: Seq<T>, value: T, from: int) -> Option<int>
    decreases items.len() - from,
{
    if from >= items.len() {
        None
    } else if items[from].eq_spec(&value) {
        Some(from)
    } else {
        first_place(items, value, from + 1)
    }
}

/// `first_place` finds the first item from `from` on that equals `value`,
/// or no item from there on equals it.
pub proof fn lemma_first_place<T: PartialEq>(items: Seq<T>, value: T, from: int)
    requires
        0 <= from,
    ensures
        match first_place(items, value, from) {
            Some(i) => from <= i < items.len() && items[i].eq_spec(&value) && forall|k: int|
                from <= k < i ==> !(#[trigger] items[k]).eq_spec(&value),
            None => forall|k: int|
                from <= k < items.len() ==> !(#[trigger] items[k]).eq_spec(&value),
        },
    decreases items.len() - from,
{
    if from < items.len() && !items[from].eq_spec(&value) {
        lemma_first_place(items, value, from + 1);
    }
}

/// Whether `made` is what `f` may make of a copy of `item`.
pub open spec fn made_of<T: Clone, Q, F: Fn(T) -> Q>(f: F, item: T, made: Q) -> bool {
    exists|copy: T| cloned(item, copy) && #[trigger] call_ensures(f, (copy,), made)
}

/// Helpers over vectors, as functions of this type.
#[allow(non_camel_case_types)]
pub struct Array_Utils;

impl Array_Utils {
    /// The place of the first item that equals `value`.
    fn position_of<T>(arr: &Vec<T>, value: &T) -> (r: Option<usize>) where T: PartialEq + Copy
        ensures
            r matches Some(i) ==> i < arr.len(),
            T::obeys_eq_spec() ==> match r {
                Some(i) => first_place(arr@, *value, 0) == Some(i as int),
                None => first_place(arr@, *value, 0) is None,
            },
    {
        let mut i: usize = 0;
        while i < arr.len()
            invariant
                i <= arr.len(),
                T::obeys_eq_spec() ==> first_place(arr@, *value, 0) == first_place(
                    arr@,
                    *value,
                    i as int,
                ),
            decreases arr.len() - i,
        {
            if arr[i] == *value {
                return Some(i);
            }
            i = i + 1;
        }
        None
    }

    /// The items of `arr2` that equal no item of `arr1`, in their order.
    pub fn get_difference<T>(arr1: &Vec<T>, arr2: &Vec<T>) -> (r: Vec<T>) where
        T: PartialEq + Copy,

        ensures
            r.len() <= arr2.len(),
            T::obeys_eq_spec() ==> r@ == arr2@.filter(absent_from(arr1@)),
    {
        let ghost test = absent_from(arr1@);
        let mut cur_vector: Vec<T> = Vec::new();
        let mut i: usize = 0;
        proof {
            assert(arr2@.take(0) =~= Seq::empty());
        }
        while i < arr2.len()
            invariant
                i <= arr2.len(),
                test == absent_from(arr1@),
                cur_vector.len() <= i,
                T::obeys_eq_spec() ==> cur_vector@ == arr2@.take(i as int).filter(test),
            decreases arr2.len() - i,
        {
            let item = arr2[i];
            let found = Self::position_of(arr1, &item);
            proof {
                lemma_first_place(arr1@, item, 0);
                assert(arr2@.take(i + 1) =~= arr2@.take(i as int).push(item));
                Seq::lemma_filter_push(arr2@.take(i as int), item, test);
                if T::obeys_eq_spec() {
                    assert(test(item) == (found is None));
                }
            }
            if found.is_none() {
                cur_vector.push(item);
            }
            i = i + 1;
        }
        proof {
            assert(arr2@.take(arr2.len() as int) =~= arr2@);
        }
        cur_vector
    }

    /// The place of the first item of `arr` that equals `value`, or -1
    /// where none does.
    pub fn index_of<T>(arr: &Vec<T>, value: &T) -> (r: isize) where T: PartialEq + Copy
        requires
            arr.len() <= isize::MAX,
        ensures
            -1 <= r < arr.len(),
            T::obeys_eq_spec() ==> match first_place(arr@, *value, 0) {
                Some(i) => r == i,
                None => r == -1,
            },
    {
        match Self::position_of(arr, value) {
            Some(i) => i as isize,
            None => -1,
        }
    }

    /// The items of `arr` of which `iter` holds, in their order.
    pub fn filter<T, F>(arr: &Vec<T>, iter: &F) -> (r: Vec<T>) where
        T: PartialEq + Copy,
        F: Fn(&&T) -> bool,

        requires
            forall|i: int| 0 <= i < arr.len() ==> call_requires(*iter, (&&#[trigger] arr[i],)),
        ensures
            exists|keep: Seq<bool>|
                {
                    &&& keep.len() == arr.len()
                    &&& forall|i: int|
                        0 <= i < keep.len() ==> call_ensures(*iter, (&&arr[i],), #[trigger] keep[i])
                    &&& r@ == #[trigger] picked(arr@, keep)
                },
    {
        let mut out: Vec<T> = Vec::new();
        let ghost mut keep: Seq<bool> = Seq::empty();
        let mut i: usize = 0;
        proof {
            assert(arr@.take(0) =~= Seq::empty());
        }
        while i < arr.len()
            invariant
                i <= arr.len(),
                keep.len() == i,
                forall|k: int| 0 <= k < arr.len() ==> call_requires(*iter, (&&#[trigger] arr[k],)),
                forall|k: int| 0 <= k < i ==> call_ensures(*iter, (&&arr[k],), #[trigger] keep[k]),
                out@ == picked(arr@.take(i as int), keep),
            decreases arr.len() - i,
        {
            let item = &arr[i];
            let hit = iter(&item);
            if hit {
                out.push(*item);
            }
            proof {
                let ghost marks = keep.push(hit);
                assert(marks.drop_last() =~= keep);
                assert(arr@.take(i + 1).drop_last() =~= arr@.take(i as int));
                keep = marks;
            }
            i = i + 1;
        }
        proof {
            assert(arr@.take(arr.len() as int) =~= arr@);
        }
        out
    }

    /// What `iter` makes of a copy of each item of `arr`, in their order.
    pub fn map<T, Q, F>(arr: &Vec<T>, iter: &F) -> (r: Vec<Q>) where T: Clone, F: Fn(T) -> Q
        requires
            forall|i: int, copy: T|
                0 <= i < arr.len() && cloned(#[trigger] arr[i], copy) ==> #[trigger] call_requires(
                    *iter,
                    (copy,),
                ),
        ensures
            r.len() == arr.len(),
            forall|i: int| 0 <= i < arr.len() ==> made_of(*iter, arr[i], #[trigger] r[i]),
    {
        let mut cur_arr: Vec<Q> = Vec::new();
        let mut i: usize = 0;
        while i < arr.len()
            invariant
                i <= arr.len(),
                cur_arr.len() == i,
                forall|k: int, copy: T|
                    0 <= k < arr.len() && cloned(#[trigger] arr[k], copy)
                        ==> #[trigger] call_requires(*iter, (copy,)),
                forall|k: int| 0 <= k < i ==> made_of(*iter, arr[k], #[trigger] cur_arr[k]),
            decreases arr.len() - i,
        {
            let copy = arr[i].clone();
            let made = iter(copy);
            cur_arr.push(made);
            proof {
                assert(cloned(arr[i as int], copy) && call_ensures(
                    *iter,
                    (copy,),
                    cur_arr[i as int],
                ));
            }
            i = i + 1;
        }
        cur_arr
    }

    /// The item in the last place of `arr`.
    pub fn max<T>(arr: &Vec<T>) -> (r: T) where T: PartialEq + Copy + Ord
        requires
            arr.len() > 0,
        ensures
            r == arr[arr.len() - 1],
    {
        arr[arr.len() - 1]
    }
}

} // verus!
