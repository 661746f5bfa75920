//! The telemetry sink's answer to a forwarded reading.
//!
//! The sink accepts a telemetry reading over HTTP and forwards it to
//! the bus on the reporting device's topic. The reading itself (it
//! carries floating-point samples) and the publish stay in the
//! surrounding process; the acknowledgment it answers with is built
//! here.

use vstd::prelude::*;

verus! {

/// The acknowledgment for one accepted telemetry reading.
pub struct TelemetryResp {
    pub status: &'static str,
    pub forwarded_topic: String,
}

/// Acknowledges a reading forwarded on `forwarded_topic`.
pub fn telemetry_ack(forwarded_topic: String) -> (r: TelemetryResp)
    ensures
        r.status@ == "ok"@,
        r.forwarded_topic@ == forwarded_topic@,
{
    TelemetryResp { status: "ok", forwarded_topic }
}

} // verus!
