//! The clock.

use std::time::{SystemTime, UNIX_EPOCH};
use vstd::prelude::*;

verus! {

/// `SystemTime::now` and `SystemTime::duration_since` of std: the milliseconds since the start
/// of 1970, by the machine's clock. That the number is not negative is all that is said of it:
/// what it is rests on the clock. A clock that is set to a time before 1970 ends the program.
#[verifier::external_body]
pub fn current_time_millis() -> (r: i64)
    ensures
        r >= 0,
{
    SystemTime::now().duration_since(UNIX_EPOCH).unwrap().as_millis().try_into().unwrap()
}

} // verus!
