//! A string payload tagged with the position where it was first seen.
use crate::ordered::{compare_keys, key_cmp};
use std::cmp::Ordering;
use vstd::prelude::*;

verus! {

/// A payload with its position; equal by payload alone, ordered by the key order.
pub struct OrderedString<T>(pub T, pub String);

impl<T> OrderedString<T> {
    pub fn new(n: T, s: String) -> (r: OrderedString<T>)
        ensures
            r.0 == n,
            r.1@ == s@,
    {
        OrderedString(n, s)
    }

    /// The payload.
    pub fn as_str(&self) -> (r: &str)
        ensures
            r@ == self.1@,
    {
        self.1.as_str()
    }

    /// Key equality: the payloads alone decide.
    pub fn same_key(&self, other: &Self) -> (r: bool)
        ensures
            r == (self.1@ == other.1@),
    {
        self.1 == other.1
    }
}

impl OrderedString<usize> {
    /// The key order: equal payloads are equal, otherwise the earlier position first.
    pub fn cmp_key(&self, other: &Self) -> (r: Ordering)
        ensures
            r == key_cmp(self.0 as int, self.1@, other.0 as int, other.1@),
    {
        compare_keys(self.0, self.1.as_str(), other.0, other.1.as_str())
    }
}

} // verus!
