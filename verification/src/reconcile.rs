//! The status reconciler's decision on one inbound bus message.
//!
//! The surrounding process drains the bus and hands every message here
//! as plain values: the topic it arrived on and the fields of its
//! payload. This module classifies the reported status, recovers the
//! device from the topic, and applies the transition to the store; a
//! message that does not fit is dropped without touching any record.

use vstd::prelude::*;
use crate::job::{report_update, JobStatus, OtaJob};
use crate::store::{spec_message, JobStore, ReportOutcome};
use crate::strutil::str_eq;
use crate::topic::{is_status_topic_device, parse_status_topic};

verus! {

/// The fixed pause before the bus connection is retried after a
/// transport error, in milliseconds.
pub const RETRY_BACKOFF_MILLIS: u64 = 2000;

/// What the bus connection delivered to the reconciler's loop.
pub enum BusEvent {
    /// A message arrived on a subscribed topic.
    Message,
    /// The connection (re)opened: the broker acknowledged the session.
    Connected,
    /// Any other inbound packet.
    OtherIncoming,
    /// An outbound packet was flushed.
    Outgoing,
    /// The transport failed.
    ConnectionError,
}

/// What the reconciler's loop does next. The loop itself never ends:
/// every event maps to an action, and an error only ever means a
/// bounded pause.
pub enum BusAction {
    /// Hand the message to `handle_status_report`.
    HandleMessage,
    /// Subscribe to the status wildcard again: a fresh session starts
    /// with no subscriptions.
    Resubscribe,
    /// Nothing to do.
    Ignore,
    /// Pause this many milliseconds, then poll again.
    Backoff(u64),
}

/// The reconnect-and-resubscribe policy of the reconciler's loop: a
/// message is handled, a fresh connection resubscribes, a transport
/// error backs off for the fixed interval, and everything else is
/// ignored. No event stops the loop.
pub fn next_bus_action(event: &BusEvent) -> (r: BusAction)
    ensures
        match event {
            BusEvent::Message => r is HandleMessage,
            BusEvent::Connected => r is Resubscribe,
            BusEvent::OtherIncoming => r is Ignore,
            BusEvent::Outgoing => r is Ignore,
            BusEvent::ConnectionError => (r matches BusAction::Backoff(ms) && ms
                == RETRY_BACKOFF_MILLIS),
        },
{
    match event {
        BusEvent::Message => BusAction::HandleMessage,
        BusEvent::Connected => BusAction::Resubscribe,
        BusEvent::OtherIncoming => BusAction::Ignore,
        BusEvent::Outgoing => BusAction::Ignore,
        BusEvent::ConnectionError => BusAction::Backoff(RETRY_BACKOFF_MILLIS),
    }
}

/// How a reported status string is read: the known in-progress words
/// map to `InProgress`, the known success words to `Completed`, the
/// known failure words to `Failed`, and any other word is taken as a
/// liveness signal, `InProgress`.
pub open spec fn classify_spec(s: Seq<char>) -> JobStatus {
    if s == "in_progress"@ || s == "downloading"@ || s == "installing"@ {
        JobStatus::InProgress
    } else if s == "completed"@ || s == "success"@ || s == "ok"@ {
        JobStatus::Completed
    } else if s == "failed"@ || s == "error"@ {
        JobStatus::Failed
    } else {
        JobStatus::InProgress
    }
}

/// Decides `classify_spec`.
pub fn classify_status(status: &str) -> (r: JobStatus)
    ensures
        r == classify_spec(status@),
        r is InProgress || r is Completed || r is Failed,
{
    if str_eq(status, "in_progress") || str_eq(status, "downloading") || str_eq(
        status,
        "installing",
    ) {
        JobStatus::InProgress
    } else if str_eq(status, "completed") || str_eq(status, "success") || str_eq(status, "ok") {
        JobStatus::Completed
    } else if str_eq(status, "failed") || str_eq(status, "error") {
        JobStatus::Failed
    } else {
        JobStatus::InProgress
    }
}

/// A status-report topic determines its device: no topic matches the
/// required shape for two different devices.
pub proof fn lemma_status_topic_device_unique(
    prefix: Seq<char>,
    topic: Seq<char>,
    d1: Seq<char>,
    d2: Seq<char>,
)
    requires
        is_status_topic_device(prefix, topic, d1),
        is_status_topic_device(prefix, topic, d2),
    ensures
        d1 == d2,
{
    assert(d1.len() == d2.len()) by {
        assert(topic.len() == prefix.len() + d1.len() + "/ota/status"@.len());
        assert(topic.len() == prefix.len() + d2.len() + "/ota/status"@.len());
    }
    assert forall|j: int| 0 <= j < d1.len() implies d1[j] == d2[j] by {
        assert(d1[j] == topic[prefix.len() + j]);
        assert(d2[j] == topic[prefix.len() + j]);
    }
    assert(d1 =~= d2);
}

/// The device a status-report topic names, if the topic has the
/// required shape.
pub open spec fn status_topic_device(prefix: Seq<char>, topic: Seq<char>) -> Option<Seq<char>> {
    if exists|d: Seq<char>| is_status_topic_device(prefix, topic, d) {
        Some(choose|d: Seq<char>| is_status_topic_device(prefix, topic, d))
    } else {
        None
    }
}

/// What the reconciler did with one message.
#[derive(Debug)]
pub enum ReconcileOutcome {
    /// The report was applied; the updated record is returned.
    Applied(OtaJob),
    /// The job is already terminal: the report is a harmless no-op.
    Frozen,
    /// The payload names no known job: the report is dropped.
    UnknownJob,
    /// The topic does not match `<prefix><device>/ota/status`: the
    /// message is dropped.
    BadTopic,
}

/// Handles one status report: exactly the messages on a well-shaped
/// topic that name a known, still-running job change that one record,
/// by `report_update` under the classified status; every other
/// message leaves the store untouched.
pub fn handle_status_report(
    store: &mut JobStore,
    topic_prefix: &str,
    topic: &str,
    job_id: &str,
    status: &str,
    message: Option<String>,
    now: i64,
) -> (r: ReconcileOutcome)
    requires
        old(store).wf(),
    ensures
        final(store).wf(),
        match r {
            ReconcileOutcome::BadTopic => {
                &&& status_topic_device(topic_prefix@, topic@) is None
                &&& final(store)@ == old(store)@
            },
            ReconcileOutcome::UnknownJob => {
                &&& status_topic_device(topic_prefix@, topic@) is Some
                &&& !old(store)@.contains_key(job_id@)
                &&& final(store)@ == old(store)@
            },
            ReconcileOutcome::Frozen => {
                &&& status_topic_device(topic_prefix@, topic@) is Some
                &&& old(store)@.contains_key(job_id@)
                &&& old(store)@[job_id@].status.spec_is_terminal()
                &&& final(store)@ == old(store)@
            },
            ReconcileOutcome::Applied(j) => {
                &&& status_topic_device(topic_prefix@, topic@) is Some
                &&& old(store)@.contains_key(job_id@)
                &&& !old(store)@[job_id@].status.spec_is_terminal()
                &&& j@ == report_update(
                    old(store)@[job_id@],
                    classify_spec(status@),
                    spec_message(message),
                    status_topic_device(topic_prefix@, topic@).unwrap(),
                    now,
                )
                &&& final(store)@ == old(store)@.insert(job_id@, j@)
            },
        },
{
    let device = match parse_status_topic(topic_prefix, topic) {
        Some(d) => d,
        None => {
            return ReconcileOutcome::BadTopic;
        },
    };
    proof {
        let chosen = choose|d: Seq<char>| is_status_topic_device(topic_prefix@, topic@, d);
        lemma_status_topic_device_unique(topic_prefix@, topic@, chosen, device@);
    }
    let st = classify_status(status);
    match store.apply_report(job_id, st, message, device, now) {
        ReportOutcome::Applied(j) => ReconcileOutcome::Applied(j),
        ReportOutcome::Frozen => ReconcileOutcome::Frozen,
        ReportOutcome::Unknown => ReconcileOutcome::UnknownJob,
    }
}

} // verus!
