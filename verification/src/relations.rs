use crate::itemidlist::ItemIdList;
use crate::order::{chain_order, lemma_chain_order_equal};
use std::cmp::Ordering;
use vstd::prelude::*;
use vstd::std_specs::cmp::{PartialEqSpecImpl, PartialOrdSpecImpl};

verus! {

impl<'a> PartialEqSpecImpl for ItemIdList<'a> {
    open spec fn obeys_eq_spec() -> bool {
        true
    }

    /// Two chains are equal when they have the same segments with the same
    /// bytes, whoever owns the bytes.
    open spec fn eq_spec(&self, other: &Self) -> bool {
        self@ == other@
    }
}

impl<'a> PartialEq for ItemIdList<'a> {
    fn eq(&self, other: &Self) -> (r: bool) {
        proof {
            lemma_chain_order_equal(self@, other@);
        }
        self.compare(other) == 0
    }
}

impl<'a> PartialOrdSpecImpl for ItemIdList<'a> {
    open spec fn obeys_partial_cmp_spec() -> bool {
        true
    }

    /// Chains are ordered as the comparator orders them; any two compare.
    open spec fn partial_cmp_spec(&self, other: &Self) -> Option<Ordering> {
        if chain_order(self@, other@) < 0 {
            Some(Ordering::Less)
        } else if chain_order(self@, other@) == 0 {
            Some(Ordering::Equal)
        } else {
            Some(Ordering::Greater)
        }
    }
}

impl<'a> PartialOrd for ItemIdList<'a> {
    fn partial_cmp(&self, other: &Self) -> (r: Option<Ordering>) {
        let order = self.compare(other);
        if order < 0 {
            Some(Ordering::Less)
        } else if order == 0 {
            Some(Ordering::Equal)
        } else {
            Some(Ordering::Greater)
        }
    }
}

} // verus!
