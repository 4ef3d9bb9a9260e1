//! Random choices, drawn by the `rand` crate.

use rand::distr::SampleString as _;
use rand::RngExt as _;
use vstd::prelude::*;

verus! {

/// `rand`'s `random_range` on the thread's generator: some number below `n`.
#[verifier::external_body]
pub(crate) fn below(n: usize) -> (r: usize)
    requires
        n > 0,
    ensures
        r < n,
{
    rand::rng().random_range(0..n)
}

/// Whether `c` is an ASCII letter or digit.
pub open spec fn alphanumeric(c: char) -> bool {
    'a' <= c <= 'z' || 'A' <= c <= 'Z' || '0' <= c <= '9'
}

/// `rand`'s `Alphanumeric::sample_string` on the thread's generator: `n` random
/// ASCII letters and digits.
#[verifier::external_body]
pub(crate) fn alphanumeric_text(n: usize) -> (r: String)
    ensures
        r@.len() == n,
        forall|i: int| 0 <= i < n ==> alphanumeric(#[trigger] r@[i]),
{
    rand::distr::Alphanumeric.sample_string(&mut rand::rng(), n)
}

} // verus!
