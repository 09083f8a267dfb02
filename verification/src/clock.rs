//! Points in time. The library never reads a clock: whoever calls it says
//! what time it is.

use vstd::prelude::*;

verus! {

/// A date and time without a time zone, as the persistent store keeps it.
#[verifier::external_type_specification]
#[verifier::external_body]
pub struct ExNaiveDateTime(chrono::NaiveDateTime);

/// `NaiveDateTime::clone`: the type is `Copy`, so the clone is the value
/// itself.
pub assume_specification[ <chrono::NaiveDateTime as Clone>::clone ](
    t: &chrono::NaiveDateTime,
) -> (r: chrono::NaiveDateTime)
    ensures
        r == *t,
;

} // verus!
