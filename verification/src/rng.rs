use vstd::prelude::*;

verus! {

/// Relies on `rand::Rng::gen_range` on the thread-local generator
/// (`rand::thread_rng`): it samples a value of the half-open range
/// `lo..hi`, and panics only when the range is empty.
#[verifier::external_body]
pub(crate) fn random_in_range(lo: i32, hi: i32) -> (r: i32)
    requires
        lo < hi,
    ensures
        lo <= r < hi,
{
    rand::Rng::gen_range(&mut rand::thread_rng(), lo..hi)
}

} // verus!
