//! The small guards that every operation runs before touching state.

use vstd::prelude::*;
use crate::errors::Error;

verus! {

/// Accepts `received` only when the allow-list holds it.
pub fn authorize(allowed: &Vec<u64>, received: u64) -> (r: Result<(), Error>)
    ensures
        r is Ok <==> allowed@.contains(received),
        r is Err ==> r == Err::<(), Error>(Error::Unauthorized),
{
    let mut i: usize = 0;
    while i < allowed.len()
        invariant
            i <= allowed@.len(),
            forall|j: int| 0 <= j < i ==> allowed@[j] != received,
        decreases allowed@.len() - i,
    {
        if allowed[i] == received {
            return Ok(());
        }
        i += 1;
    }
    Err(Error::Unauthorized)
}

/// Accepts only the expected account, failing with the given error otherwise.
pub fn validate_human_addr(expected: u64, received: u64, e: Error) -> (r: Result<(), Error>)
    ensures
        r is Ok <==> expected == received,
        r is Err ==> r == Err::<(), Error>(e),
{
    if expected != received {
        Err(e)
    } else {
        Ok(())
    }
}

/// Accepts only the expected amount, failing with the given error otherwise.
pub fn validate_uint128(expected: u128, received: u128, e: Error) -> (r: Result<(), Error>)
    ensures
        r is Ok <==> expected == received,
        r is Err ==> r == Err::<(), Error>(e),
{
    if expected != received {
        Err(e)
    } else {
        Ok(())
    }
}

} // verus!
