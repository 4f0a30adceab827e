use vstd::prelude::*;

verus! {

/// Relies on rand::rngs::ThreadRng via rand::thread_rng and
/// rand::Rng::gen_range: a value drawn uniformly from the half-open range,
/// using the thread-local generator. Nothing more is assumed of the draw than
/// its range.
#[verifier::external_body]
pub fn random_in_range(lo: i64, hi: i64) -> (r: i64)
    requires
        lo < hi,
    ensures
        lo <= r < hi,
{
    rand::Rng::gen_range(&mut rand::thread_rng(), lo..hi)
}

} // verus!
