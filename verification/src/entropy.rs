//! Randomness from the operating system.
use vstd::prelude::*;

verus! {

/// Random bytes from the operating system, through `getrandom::getrandom`. The
/// contract claims only that `n` bytes come back when the call succeeds; the call
/// reports a failure of the random source as an error.
#[verifier::external_body]
pub(crate) fn random_bytes(n: usize) -> (r: Result<Vec<u8>, String>)
    ensures
        r matches Ok(v) ==> v@.len() == n,
{
    let mut buf = vec![0u8; n];
    getrandom::getrandom(&mut buf).map(|_| buf).map_err(|e| e.to_string())
}

} // verus!
