//! Sources of randomness.
//!
//! Every draw the engine makes goes through one of these wrappers, and each
//! wrapper promises only what holds of every outcome: the bounds of the
//! sample.  All logic that consumes a draw takes it as a plain argument and
//! is verified for every value the wrapper can hand back.

use vstd::prelude::*;

verus! {

/// Whether a character is an ASCII alphanumeric character.
pub open spec fn is_alphanumeric_char(c: char) -> bool {
    ('a' <= c && c <= 'z') || ('A' <= c && c <= 'Z') || ('0' <= c && c <= '9')
}

/// Relies on rand's `Rng::gen_range` over an inclusive `i64` range: the
/// sample lies within the bounds, and the call panics on an empty range,
/// which the precondition rules out.
#[verifier::external_body]
pub fn random_i64_inclusive(lo: i64, hi: i64) -> (r: i64)
    requires
        lo <= hi,
    ensures
        lo <= r <= hi,
{
    rand::Rng::gen_range(&mut rand::thread_rng(), lo..=hi)
}

/// Relies on rand's `Rng::gen_range` over a half-open `u64` range: the
/// sample is strictly below the bound, and the call panics on an empty
/// range, which the precondition rules out.
#[verifier::external_body]
pub fn random_u64_below(bound: u64) -> (r: u64)
    requires
        bound > 0,
    ensures
        r < bound,
{
    rand::Rng::gen_range(&mut rand::thread_rng(), 0..bound)
}

/// Relies on rand's `DistString::sample_string` for the `Alphanumeric`
/// distribution: the result is exactly `len` characters, each drawn from
/// `A`-`Z`, `a`-`z`, `0`-`9`.
#[verifier::external_body]
pub fn random_alphanumeric_string(len: usize) -> (r: String)
    ensures
        r@.len() == len as nat,
        forall|i: int| 0 <= i < r@.len() ==> is_alphanumeric_char(#[trigger] r@[i]),
{
    rand::distributions::DistString::sample_string(
        &rand::distributions::Alphanumeric,
        &mut rand::thread_rng(),
        len,
    )
}

} // verus!
