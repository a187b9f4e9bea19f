//! `moka::sync::SegmentedCache`, a cache that forgets entries by time.

use vstd::prelude::*;

verus! {

/// `moka::sync::SegmentedCache`, opaque to the verifier.
#[verifier::external_type_specification]
#[verifier::external_body]
#[verifier::reject_recursive_types(K)]
#[verifier::reject_recursive_types(V)]
#[verifier::reject_recursive_types(S)]
pub struct ExSegmentedCache<K, V, S>(moka::sync::SegmentedCache<K, V, S>);

} // verus!
