//! The wall clock.

use std::time::{SystemTime, UNIX_EPOCH};
use vstd::prelude::*;

verus! {

/// Reads the system clock with `SystemTime::now` and returns the time
/// since the Unix epoch in milliseconds, or 0 where the clock stands
/// before the epoch. Nothing is promised of the value: it changes from
/// call to call.
#[verifier::external_body]
pub fn now_ms() -> u64 {
    match SystemTime::now().duration_since(UNIX_EPOCH) {
        Ok(elapsed) => elapsed.as_millis() as u64,
        Err(_) => 0,
    }
}

} // verus!
