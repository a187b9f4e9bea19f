//! Random choices.

use rand::seq::SliceRandom;
use rand::Rng;
use vstd::prelude::*;

verus! {

/// `Rng::gen_range` on `0..len`: some index below `len`, which it panics without.
#[verifier::external_body]
pub(crate) fn random_index(len: usize) -> (index: usize)
    requires
        len > 0,
    ensures
        index < len,
{
    rand::thread_rng().gen_range(0..len)
}

/// `SliceRandom::choose`: some item, or none if there is no item.
#[verifier::external_body]
pub(crate) fn random_item<'a, T>(items: &'a Vec<T>) -> (item: Option<&'a T>)
    ensures
        match item {
            Some(item) => items@.contains(*item),
            None => items@.len() == 0,
        },
{
    items.choose(&mut rand::thread_rng())
}

} // verus!
