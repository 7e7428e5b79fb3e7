//! The date-time type that records carry. The library reads no clock: the
//! caller passes the times in.

use vstd::prelude::*;

verus! {

#[verifier::external_type_specification]
#[verifier::external_body]
pub struct ExNaiveDateTime(chrono::NaiveDateTime);

} // verus!
