//! Random numbers from `rand`.

use vstd::prelude::*;
use rand::Rng;
use rand::distributions::DistString;

verus! {

/// `rand::thread_rng().gen_range(low..=high)`: the contract claims only that
/// the number lies in the range; which number comes is chance.
#[verifier::external_body]
pub(crate) fn random_in_range(low: u32, high: u32) -> (r: u32)
    requires
        low <= high,
    ensures
        low <= r <= high,
{
    rand::thread_rng().gen_range(low..=high)
}

/// A letter or a decimal digit of ASCII.
pub open spec fn is_ascii_alphanumeric(c: char) -> bool {
    ('a' <= c && c <= 'z') || ('A' <= c && c <= 'Z') || ('0' <= c && c <= '9')
}

/// `rand::distributions::Alphanumeric.sample_string(&mut thread_rng(), len)`:
/// the contract claims `len` characters, each an ASCII letter or digit;
/// which ones is chance.
#[verifier::external_body]
pub(crate) fn random_alphanumeric(len: usize) -> (r: String)
    ensures
        r@.len() == len,
        forall|i: int| 0 <= i < len ==> is_ascii_alphanumeric(#[trigger] r@[i]),
{
    rand::distributions::Alphanumeric.sample_string(&mut rand::thread_rng(), len)
}

} // verus!
