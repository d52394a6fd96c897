//! Random picks, by way of the `rand` crate.

use rand::seq::{IndexedRandom, IteratorRandom};
use rand::RngExt;
use vstd::prelude::*;

verus! {

/// Calls `rand::RngExt::random_range` on the thread's generator.
///
/// Claimed of it: the number lies in the range, which must not be empty. Nothing is
/// said of which number of the range it is.
#[verifier::external_body]
pub(crate) fn random_between(min: u64, max: u64) -> (n: u64)
    requires
        min <= max,
    ensures
        min <= n <= max,
{
    rand::rng().random_range(min..=max)
}

/// Calls `rand::seq::IndexedRandom::choose` on the thread's generator.
///
/// Claimed of it: it picks an item of the list, and none only from an empty list.
/// Nothing is said of which item it is.
#[verifier::external_body]
pub(crate) fn choose_indexed<T>(items: &Vec<T>) -> (r: Option<&T>)
    ensures
        match r {
            Some(item) => items@.contains(*item),
            None => items@.len() == 0,
        },
{
    items.choose(&mut rand::rng())
}

/// Calls `rand::seq::IteratorRandom::choose` over the items of the list, on the
/// thread's generator.
///
/// Claimed of it: it picks an item of the list, and none only from an empty list.
/// Nothing is said of which item it is.
#[verifier::external_body]
pub(crate) fn choose_iterated<T>(items: &Vec<T>) -> (r: Option<&T>)
    ensures
        match r {
            Some(item) => items@.contains(*item),
            None => items@.len() == 0,
        },
{
    items.iter().choose(&mut rand::rng())
}

}
