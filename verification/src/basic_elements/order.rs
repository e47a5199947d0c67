//! Equality and order of cell values, both by their text form.

use vstd::prelude::*;
use std::cmp::Ordering;
use crate::text::{lemma_rank_same, rank, rank_of, Rank};
use crate::basic_elements::value::{Datum, TData};

verus! {

impl Datum {
    /// Two values are equal when they have the same type and the same
    /// text form.
    pub open spec fn same(self, other: Datum) -> bool {
        self.tag() == other.tag() && self.rendered() == other.rendered()
    }

    /// Where the value stands against `other`: in dictionary order of
    /// their text forms, whatever their types.
    pub open spec fn rank(self, other: Datum) -> Rank {
        rank_of(self.rendered(), other.rendered())
    }
}

impl PartialEq for TData {
    fn eq(&self, other: &Self) -> (r: bool) {
        let mine = self.rendered_chars();
        let theirs = other.rendered_chars();
        proof {
            lemma_rank_same(mine@, theirs@);
        }
        self.get_type() == other.get_type() && rank(&mine, &theirs) == Rank::Same
    }
}

impl vstd::std_specs::cmp::PartialEqSpecImpl for TData {
    open spec fn obeys_eq_spec() -> bool {
        true
    }

    open spec fn eq_spec(&self, other: &Self) -> bool {
        self@.same(other@)
    }
}

impl PartialOrd for TData {
    fn partial_cmp(&self, other: &Self) -> (r: Option<Ordering>) {
        let mine = self.rendered_chars();
        let theirs = other.rendered_chars();
        match rank(&mine, &theirs) {
            Rank::Before => Some(Ordering::Less),
            Rank::Same => Some(Ordering::Equal),
            Rank::After => Some(Ordering::Greater),
        }
    }
}

impl vstd::std_specs::cmp::PartialOrdSpecImpl for TData {
    open spec fn obeys_partial_cmp_spec() -> bool {
        true
    }

    open spec fn partial_cmp_spec(&self, other: &Self) -> Option<Ordering> {
        match self@.rank(other@) {
            Rank::Before => Some(Ordering::Less),
            Rank::Same => Some(Ordering::Equal),
            Rank::After => Some(Ordering::Greater),
        }
    }
}

} // verus!
