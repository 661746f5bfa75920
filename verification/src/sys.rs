//! Trusted bindings to the process's clock and identifier source.
//!
//! Both values depend on the machine at the moment of the call, so
//! nothing is assumed of them; every function that uses one states
//! what holds whatever value came back.

use vstd::prelude::*;

verus! {

/// Relies on chrono's `Utc::now` and `DateTime::timestamp_millis`: the
/// current wall-clock time as milliseconds since the Unix epoch.
/// Nothing is assumed of the value.
#[verifier::external_body]
pub fn now_millis() -> i64 {
    chrono::Utc::now().timestamp_millis()
}

/// Relies on uuid's `Uuid::new_v4` and its `Display` form: a freshly
/// drawn random identifier, hyphenated. Nothing is assumed of the
/// value, not even freshness.
#[verifier::external_body]
pub fn fresh_uuid() -> String {
    uuid::Uuid::new_v4().to_string()
}

} // verus!
