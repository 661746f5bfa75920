//! The job record and its state machine.

use vstd::prelude::*;

verus! {

/// Progress of one OTA update effort.
///
/// The state machine only ever moves forward:
/// `Created -> Dispatched -> InProgress -> {Completed, Failed}`,
/// where a terminal report may skip `InProgress`. Once a job is
/// `Completed` or `Failed` it is frozen.
#[derive(Clone, Copy, PartialEq, Eq, Structural, Debug)]
pub enum JobStatus {
    Created,
    Dispatched,
    InProgress,
    Completed,
    Failed,
}

impl JobStatus {
    /// A terminal status admits no further transition.
    pub open spec fn spec_is_terminal(&self) -> bool {
        self is Completed || self is Failed
    }

    #[verifier::when_used_as_spec(spec_is_terminal)]
    pub fn is_terminal(&self) -> (r: bool)
        ensures
            r == self.spec_is_terminal(),
    {
        matches!(self, JobStatus::Completed | JobStatus::Failed)
    }

    /// Position of a status along the state machine; transitions never
    /// decrease it.
    pub open spec fn rank(&self) -> int {
        match self {
            JobStatus::Created => 0,
            JobStatus::Dispatched => 1,
            JobStatus::InProgress => 2,
            JobStatus::Completed => 3,
            JobStatus::Failed => 3,
        }
    }
}

/// Mathematical model of a job record: the strings as character
/// sequences, the timestamps as milliseconds since the Unix epoch.
pub ghost struct JobData {
    pub id: Seq<char>,
    pub device_id: Seq<char>,
    pub artifact: Seq<char>,
    pub version: Seq<char>,
    pub status: JobStatus,
    pub created_at: i64,
    pub dispatched_at: Option<i64>,
    pub completed_at: Option<i64>,
    pub message: Option<Seq<char>>,
}

/// One OTA update effort for a single device, artifact and version.
///
/// `id`, `device_id`, `artifact` and `version` are fixed at creation;
/// `status`, the two later timestamps and `message` move with the state
/// machine.
#[derive(Debug)]
pub struct OtaJob {
    pub id: String,
    pub device_id: String,
    pub artifact: String,
    pub version: String,
    pub status: JobStatus,
    pub created_at: i64,
    pub dispatched_at: Option<i64>,
    pub completed_at: Option<i64>,
    pub message: Option<String>,
}

impl View for OtaJob {
    type V = JobData;

    open spec fn view(&self) -> JobData {
        JobData {
            id: self.id@,
            device_id: self.device_id@,
            artifact: self.artifact@,
            version: self.version@,
            status: self.status,
            created_at: self.created_at,
            dispatched_at: self.dispatched_at,
            completed_at: self.completed_at,
            message: match self.message {
                Some(ref m) => Some(m@),
                None => None,
            },
        }
    }
}

/// Internal consistency of one record: a job not yet dispatched has
/// no dispatch timestamp, and a completion timestamp stands exactly
/// on the terminal states.
pub open spec fn job_data_inv(j: JobData) -> bool {
    &&& (j.status is Created ==> j.dispatched_at is None && j.completed_at is None)
    &&& (j.completed_at is Some <==> j.status.spec_is_terminal())
}

/// The record after a successful dispatch: the status advances to
/// `Dispatched`, the dispatch timestamp is stamped, and the message
/// notes the command.
pub open spec fn dispatch_update(j: JobData, now: i64) -> JobData {
    JobData {
        status: JobStatus::Dispatched,
        dispatched_at: Some(now),
        message: Some("command dispatched"@),
        ..j
    }
}

/// The record after a status report classified as `st` from `device`:
/// the status is applied, a missing dispatch timestamp is stamped, a
/// terminal classification stamps the completion timestamp if not
/// already set, and the message is overwritten — by the reported one,
/// or by a note naming the reporting device.
pub open spec fn report_update(
    j: JobData,
    st: JobStatus,
    msg: Option<Seq<char>>,
    device: Seq<char>,
    now: i64,
) -> JobData {
    JobData {
        status: st,
        dispatched_at: if j.dispatched_at is None {
            Some(now)
        } else {
            j.dispatched_at
        },
        completed_at: if st.spec_is_terminal() && j.completed_at is None {
            Some(now)
        } else {
            j.completed_at
        },
        message: Some(
            match msg {
                Some(m) => m,
                None => "reported by "@ + device,
            },
        ),
        ..j
    }
}

impl Clone for OtaJob {
    /// A clone carries the same model.
    fn clone(&self) -> (r: Self)
        ensures
            r@ == self@,
    {
        OtaJob {
            id: self.id.clone(),
            device_id: self.device_id.clone(),
            artifact: self.artifact.clone(),
            version: self.version.clone(),
            status: self.status,
            created_at: self.created_at,
            dispatched_at: self.dispatched_at,
            completed_at: self.completed_at,
            message: match self.message {
                Some(ref m) => Some(m.clone()),
                None => None,
            },
        }
    }
}

} // verus!
