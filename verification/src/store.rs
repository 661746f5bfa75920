//! The job store: the authoritative map from job identity to job state.
//!
//! The store owns every record. Reads hand out copies; the only
//! mutation paths are `create` (admission), `mark_dispatched` (the
//! dispatcher's transition) and `apply_report` (the reconciler's
//! transition), and each preserves the per-record invariant and the
//! uniqueness of identifiers.

use vstd::prelude::*;
use vstd::string::*;
use crate::job::{
    dispatch_update, job_data_inv, report_update, JobData, JobStatus, OtaJob,
};
use crate::strutil::{str_eq, trimmed, trim_spec};

verus! {

/// Why a dispatch request failed.
#[derive(Clone, Copy, PartialEq, Eq, Structural, Debug)]
pub enum DispatchError {
    /// No job with the given identifier exists.
    NotFound,
    /// The job left `Created` already: the command is in flight or the
    /// device is working, so a second dispatch conflicts.
    AlreadyDispatched,
    /// The job already finished; it is frozen.
    AlreadyTerminal,
    /// The message bus did not acknowledge the publish.
    PublishFailed,
}

impl DispatchError {
    /// The HTTP status code this error is reported with.
    pub fn status_code(&self) -> (r: u16)
        ensures
            r == self.spec_status_code(),
    {
        match self {
            DispatchError::NotFound => 404,
            DispatchError::AlreadyDispatched => 409,
            DispatchError::AlreadyTerminal => 409,
            DispatchError::PublishFailed => 502,
        }
    }

    pub open spec fn spec_status_code(&self) -> u16 {
        match self {
            DispatchError::NotFound => 404,
            DispatchError::AlreadyDispatched => 409,
            DispatchError::AlreadyTerminal => 409,
            DispatchError::PublishFailed => 502,
        }
    }
}

/// What the reconciler did with one status report.
#[derive(Debug)]
pub enum ReportOutcome {
    /// The report was applied; the updated record is returned.
    Applied(OtaJob),
    /// The job is terminal: the report is a harmless no-op.
    Frozen,
    /// No such job is known: the report is dropped.
    Unknown,
}

/// The identifiers in `s` are pairwise distinct.
pub open spec fn ids_distinct(s: Seq<JobData>) -> bool {
    forall|p: int, q: int| 0 <= p < q < s.len() ==> s[p].id != s[q].id
}

/// The map a sequence of records represents: later records win, as
/// with repeated insertion.
pub open spec fn map_of(s: Seq<JobData>) -> Map<Seq<char>, JobData>
    decreases s.len(),
{
    if s.len() == 0 {
        Map::empty()
    } else {
        map_of(s.drop_last()).insert(s.last().id, s.last())
    }
}

proof fn lemma_map_of_contains(s: Seq<JobData>, k: Seq<char>)
    ensures
        map_of(s).contains_key(k) <==> exists|i: int| 0 <= i < s.len() && s[i].id == k,
    decreases s.len(),
{
    if s.len() > 0 {
        lemma_map_of_contains(s.drop_last(), k);
        if map_of(s).contains_key(k) {
            if s.last().id == k {
                assert(s[s.len() - 1].id == k);
            } else {
                let i = choose|i: int| 0 <= i < s.drop_last().len() && s.drop_last()[i].id == k;
                assert(s[i].id == k);
            }
        }
        if exists|i: int| 0 <= i < s.len() && s[i].id == k {
            let i = choose|i: int| 0 <= i < s.len() && s[i].id == k;
            if i < s.len() - 1 {
                assert(s.drop_last()[i].id == k);
            }
        }
    }
}

proof fn lemma_map_of_index(s: Seq<JobData>, i: int)
    requires
        ids_distinct(s),
        0 <= i < s.len(),
    ensures
        map_of(s).contains_key(s[i].id),
        map_of(s)[s[i].id] == s[i],
    decreases s.len(),
{
    if i == s.len() - 1 {
    } else {
        assert(ids_distinct(s.drop_last()));
        assert(s.drop_last()[i] == s[i]);
        lemma_map_of_index(s.drop_last(), i);
        assert(s[i].id != s.last().id);
    }
}

proof fn lemma_map_of_push(s: Seq<JobData>, j: JobData)
    ensures
        map_of(s.push(j)) == map_of(s).insert(j.id, j),
{
    assert(s.push(j).drop_last() =~= s);
    assert(s.push(j).last() == j);
}

proof fn lemma_map_of_update(s: Seq<JobData>, i: int, j: JobData)
    requires
        ids_distinct(s),
        0 <= i < s.len(),
        s[i].id == j.id,
    ensures
        map_of(s.update(i, j)) == map_of(s).insert(j.id, j),
    decreases s.len(),
{
    let u = s.update(i, j);
    if i == s.len() - 1 {
        assert(u.drop_last() =~= s.drop_last());
        assert(u.last() == j);
        assert(map_of(s).insert(j.id, j) =~= map_of(s.drop_last()).insert(j.id, j));
    } else {
        assert(u.drop_last() =~= s.drop_last().update(i, j));
        assert(u.last() == s.last());
        assert(ids_distinct(s.drop_last()));
        assert(s.drop_last()[i] == s[i]);
        lemma_map_of_update(s.drop_last(), i, j);
        assert(s.last().id != j.id);
        assert(map_of(s.drop_last()).insert(j.id, j).insert(s.last().id, s.last()) =~= map_of(
            s.drop_last(),
        ).insert(s.last().id, s.last()).insert(j.id, j));
    }
}

/// The authoritative, exclusively owned collection of jobs.
pub struct JobStore {
    jobs: Vec<OtaJob>,
}

impl View for JobStore {
    type V = Map<Seq<char>, JobData>;

    open spec fn view(&self) -> Map<Seq<char>, JobData> {
        map_of(self.records())
    }
}

impl JobStore {
    /// The records in admission order.
    pub closed spec fn records(&self) -> Seq<JobData> {
        self.jobs@.map_values(|j: OtaJob| j@)
    }

    /// Well-formedness: identifiers are unique and every record obeys
    /// its invariant.
    pub open spec fn wf(&self) -> bool {
        &&& ids_distinct(self.records())
        &&& forall|i: int| 0 <= i < self.records().len() ==> job_data_inv(#[trigger] self.records()[i])
    }

    /// An empty store.
    pub fn new() -> (r: JobStore)
        ensures
            r.wf(),
            r@ == Map::<Seq<char>, JobData>::empty(),
            r.records() == Seq::<JobData>::empty(),
    {
        let r = JobStore { jobs: Vec::new() };
        proof {
            assert(r.records() =~= Seq::<JobData>::empty());
        }
        r
    }

    /// The position of the record with identifier `id`, if any.
    fn find_index(&self, id: &str) -> (r: Option<usize>)
        ensures
            match r {
                Some(i) => i < self.records().len() && self.records()[i as int].id == id@,
                None => forall|i: int|
                    0 <= i < self.records().len() ==> self.records()[i].id != id@,
            },
    {
        let mut i: usize = 0;
        while i < self.jobs.len()
            invariant
                i <= self.jobs@.len(),
                self.records().len() == self.jobs@.len(),
                forall|j: int| 0 <= j < i ==> self.records()[j].id != id@,
            decreases self.jobs@.len() - i,
        {
            if str_eq(self.jobs[i].id.as_str(), id) {
                return Some(i);
            }
            i += 1;
        }
        None
    }

    /// A copy of the job with identifier `id`, if it exists.
    pub fn get(&self, id: &str) -> (r: Option<OtaJob>)
        requires
            self.wf(),
        ensures
            match r {
                Some(j) => self@.contains_key(id@) && j@ == self@[id@],
                None => !self@.contains_key(id@),
            },
    {
        match self.find_index(id) {
            Some(i) => {
                proof {
                    lemma_map_of_index(self.records(), i as int);
                }
                Some(self.jobs[i].clone())
            },
            None => {
                proof {
                    lemma_map_of_contains(self.records(), id@);
                }
                None
            },
        }
    }

    /// Copies of all records, in admission order: each stored job
    /// appears exactly once, exactly as the store holds it.
    pub fn list(&self) -> (r: Vec<OtaJob>)
        requires
            self.wf(),
        ensures
            r@.len() == self.records().len(),
            forall|i: int| 0 <= i < r@.len() ==> r@[i]@ == self.records()[i],
            forall|i: int|
                0 <= i < r@.len() ==> self@.contains_key(#[trigger] r@[i]@.id) && self@[r@[i]@.id]
                    == r@[i]@,
            forall|p: int, q: int| 0 <= p < q < r@.len() ==> r@[p]@.id != r@[q]@.id,
    {
        let mut out: Vec<OtaJob> = Vec::new();
        let mut i: usize = 0;
        while i < self.jobs.len()
            invariant
                i <= self.jobs@.len(),
                self.records().len() == self.jobs@.len(),
                out@.len() == i,
                forall|j: int| 0 <= j < i ==> out@[j]@ == self.records()[j],
            decreases self.jobs@.len() - i,
        {
            out.push(self.jobs[i].clone());
            i += 1;
        }
        proof {
            assert forall|p: int, q: int| 0 <= p < q < out@.len() implies out@[p]@.id
                != out@[q]@.id by {
                assert(self.records()[p].id != self.records()[q].id);
            }
            assert forall|i: int| 0 <= i < out@.len() implies self@.contains_key(
                #[trigger] out@[i]@.id,
            ) && self@[out@[i]@.id] == out@[i]@ by {
                lemma_map_of_index(self.records(), i);
            }
        }
        out
    }

    /// Stores `job`, replacing any record with the same identifier.
    fn upsert(&mut self, job: OtaJob)
        requires
            old(self).wf(),
            job_data_inv(job@),
        ensures
            final(self).wf(),
            final(self)@ == old(self)@.insert(job@.id, job@),
    {
        let ghost s0 = self.records();
        match self.find_index(job.id.as_str()) {
            Some(i) => {
                self.jobs.remove(i);
                self.jobs.insert(i, job);
                proof {
                    assert(self.records() =~= s0.update(i as int, job@));
                    lemma_map_of_update(s0, i as int, job@);
                }
            },
            None => {
                self.jobs.push(job);
                proof {
                    assert(self.records() =~= s0.push(job@));
                    lemma_map_of_push(s0, job@);
                    assert forall|p: int, q: int|
                        0 <= p < q < self.records().len() implies self.records()[p].id
                        != self.records()[q].id by {
                        if q == self.records().len() - 1 {
                            assert(s0[p].id != job@.id);
                        }
                    }
                }
            },
        }
    }

    /// Admits a new job: `Created`, stamped with `now`, its device
    /// identifier trimmed. A record under the same identifier is
    /// replaced, as under repeated map insertion.
    pub fn create(
        &mut self,
        id: String,
        device_id: &str,
        artifact: String,
        version: String,
        now: i64,
    ) -> (r: OtaJob)
        requires
            old(self).wf(),
        ensures
            final(self).wf(),
            final(self)@ == old(self)@.insert(id@, r@),
            r@ == (JobData {
                id: id@,
                device_id: trim_spec(device_id@),
                artifact: artifact@,
                version: version@,
                status: JobStatus::Created,
                created_at: now,
                dispatched_at: None,
                completed_at: None,
                message: None,
            }),
    {
        let job = OtaJob {
            id,
            device_id: trimmed(device_id),
            artifact,
            version,
            status: JobStatus::Created,
            created_at: now,
            dispatched_at: None,
            completed_at: None,
            message: None,
        };
        let r = job.clone();
        self.upsert(job);
        r
    }

    /// Admits a new job under a freshly drawn identifier, stamped with
    /// the current wall clock. Whatever identifier and time the
    /// process supplies, the store afterwards holds exactly the
    /// returned record under its identifier.
    pub fn create_job(&mut self, device_id: &str, artifact: String, version: String) -> (r: OtaJob)
        requires
            old(self).wf(),
        ensures
            final(self).wf(),
            final(self)@ == old(self)@.insert(r@.id, r@),
            r@.device_id == trim_spec(device_id@),
            r@.artifact == artifact@,
            r@.version == version@,
            r@.status is Created,
            r@.dispatched_at is None,
            r@.completed_at is None,
            r@.message is None,
    {
        let id = crate::sys::fresh_uuid();
        let now = crate::sys::now_millis();
        self.create(id, device_id, artifact, version, now)
    }

    /// Records a successful dispatch: only a job still in `Created`
    /// advances, exactly as `dispatch_step` says.
    pub fn mark_dispatched(&mut self, id: &str, now: i64) -> (r: Result<OtaJob, DispatchError>)
        requires
            old(self).wf(),
        ensures
            final(self).wf(),
            final(self)@ == dispatch_step(old(self)@, id@, now).0,
            match r {
                Ok(j) => dispatch_step(old(self)@, id@, now).1 == Ok::<JobData, DispatchError>(j@),
                Err(e) => dispatch_step(old(self)@, id@, now).1 == Err::<JobData, DispatchError>(
                    e,
                ),
            },
    {
        let i = match self.find_index(id) {
            Some(i) => i,
            None => {
                proof {
                    lemma_map_of_contains(self.records(), id@);
                }
                return Err(DispatchError::NotFound);
            },
        };
        proof {
            lemma_map_of_index(self.records(), i as int);
        }
        let j = &self.jobs[i];
        match j.status {
            JobStatus::Created => {
                let nj = OtaJob {
                    id: j.id.clone(),
                    device_id: j.device_id.clone(),
                    artifact: j.artifact.clone(),
                    version: j.version.clone(),
                    status: JobStatus::Dispatched,
                    created_at: j.created_at,
                    dispatched_at: Some(now),
                    completed_at: j.completed_at,
                    message: Some("command dispatched".to_owned()),
                };
                let r = nj.clone();
                self.upsert(nj);
                Ok(r)
            },
            JobStatus::Completed => Err(DispatchError::AlreadyTerminal),
            JobStatus::Failed => Err(DispatchError::AlreadyTerminal),
            _ => Err(DispatchError::AlreadyDispatched),
        }
    }

    /// Settles a dispatch once the publish attempt has an outcome. A
    /// failed publish changes nothing — no partial transition — and
    /// the caller may retry; an acknowledged publish records the
    /// dispatch as `mark_dispatched` does.
    pub fn settle_dispatch(&mut self, id: &str, publish_ok: bool, now: i64) -> (r: Result<
        OtaJob,
        DispatchError,
    >)
        requires
            old(self).wf(),
        ensures
            final(self).wf(),
            !publish_ok ==> final(self)@ == old(self)@ && r == Err::<OtaJob, DispatchError>(
                DispatchError::PublishFailed,
            ),
            publish_ok ==> final(self)@ == dispatch_step(old(self)@, id@, now).0 && match r {
                Ok(j) => dispatch_step(old(self)@, id@, now).1 == Ok::<JobData, DispatchError>(j@),
                Err(e) => dispatch_step(old(self)@, id@, now).1 == Err::<JobData, DispatchError>(
                    e,
                ),
            },
    {
        if !publish_ok {
            return Err(DispatchError::PublishFailed);
        }
        self.mark_dispatched(id, now)
    }

    /// Applies one classified status report, exactly as spelled out on
    /// the record by `report_update`: a missing job is dropped, a
    /// terminal job is left untouched.
    pub fn apply_report(
        &mut self,
        job_id: &str,
        status: JobStatus,
        message: Option<String>,
        device_id: &str,
        now: i64,
    ) -> (r: ReportOutcome)
        requires
            old(self).wf(),
            status is InProgress || status is Completed || status is Failed,
        ensures
            final(self).wf(),
            match r {
                ReportOutcome::Applied(j) => old(self)@.contains_key(job_id@) && !old(
                    self,
                )@[job_id@].status.spec_is_terminal() && j@ == report_update(
                    old(self)@[job_id@],
                    status,
                    spec_message(message),
                    device_id@,
                    now,
                ) && final(self)@ == old(self)@.insert(job_id@, j@),
                ReportOutcome::Frozen => old(self)@.contains_key(job_id@) && old(
                    self,
                )@[job_id@].status.spec_is_terminal() && final(self)@ == old(self)@,
                ReportOutcome::Unknown => !old(self)@.contains_key(job_id@) && final(self)@ == old(
                    self,
                )@,
            },
    {
        let i = match self.find_index(job_id) {
            Some(i) => i,
            None => {
                proof {
                    lemma_map_of_contains(self.records(), job_id@);
                }
                return ReportOutcome::Unknown;
            },
        };
        proof {
            lemma_map_of_index(self.records(), i as int);
        }
        let j = &self.jobs[i];
        if j.status.is_terminal() {
            return ReportOutcome::Frozen;
        }
        let new_message: String = match message {
            Some(m) => m,
            None => "reported by ".to_owned().concat(device_id),
        };
        let nj = OtaJob {
            id: j.id.clone(),
            device_id: j.device_id.clone(),
            artifact: j.artifact.clone(),
            version: j.version.clone(),
            status,
            created_at: j.created_at,
            dispatched_at: match j.dispatched_at {
                None => Some(now),
                Some(t) => Some(t),
            },
            completed_at: if status.is_terminal() && j.completed_at.is_none() {
                Some(now)
            } else {
                j.completed_at
            },
            message: Some(new_message),
        };
        let r = nj.clone();
        self.upsert(nj);
        ReportOutcome::Applied(r)
    }
}

/// A command ready to publish: the device-specific topic and the JSON
/// payload.
#[derive(Debug)]
pub struct DispatchCommand {
    pub topic: String,
    pub payload: String,
}

impl JobStore {
    /// Builds the command for a dispatch request without touching the
    /// record: the topic is derived from the job's device, the payload
    /// carries the job identifier, the artifact's public URL and the
    /// target version. Only a job still in `Created` may be
    /// dispatched; everything else is refused and the store is not
    /// read beyond the one record.
    pub fn prepare_dispatch(&self, id: &str, public_base: &str, topic_prefix: &str) -> (r: Result<
        DispatchCommand,
        DispatchError,
    >)
        requires
            self.wf(),
        ensures
            match r {
                Ok(cmd) => self@.contains_key(id@) && self@[id@].status is Created && cmd.topic@
                    == topic_prefix@ + self@[id@].device_id + "/ota"@ && cmd.payload@
                    == crate::codec::ota_command_json(
                    id@,
                    crate::topic::strip_trailing_slashes(public_base@) + "/ota/artifacts/"@
                        + self@[id@].artifact,
                    self@[id@].version,
                ),
                Err(e) => match e {
                    DispatchError::NotFound => !self@.contains_key(id@),
                    DispatchError::AlreadyTerminal => self@.contains_key(id@)
                        && self@[id@].status.spec_is_terminal(),
                    DispatchError::AlreadyDispatched => self@.contains_key(id@) && !(
                    self@[id@].status is Created) && !self@[id@].status.spec_is_terminal(),
                    DispatchError::PublishFailed => false,
                },
            },
    {
        let i = match self.find_index(id) {
            Some(i) => i,
            None => {
                proof {
                    lemma_map_of_contains(self.records(), id@);
                }
                return Err(DispatchError::NotFound);
            },
        };
        proof {
            lemma_map_of_index(self.records(), i as int);
        }
        let j = &self.jobs[i];
        match j.status {
            JobStatus::Created => {
                let topic = crate::topic::ota_command_topic(topic_prefix, j.device_id.as_str());
                let url = crate::topic::artifact_url(public_base, j.artifact.as_str());
                let payload = crate::codec::ota_command_payload(
                    id,
                    url.as_str(),
                    j.version.as_str(),
                );
                Ok(DispatchCommand { topic, payload })
            },
            JobStatus::Completed => Err(DispatchError::AlreadyTerminal),
            JobStatus::Failed => Err(DispatchError::AlreadyTerminal),
            _ => Err(DispatchError::AlreadyDispatched),
        }
    }
}

/// The message view a report carries, if any.
pub open spec fn spec_message(message: Option<String>) -> Option<Seq<char>> {
    match message {
        Some(m) => Some(m@),
        None => None,
    }
}

/// The dispatcher's transition on the whole store: `NotFound` for a
/// missing identifier, the `dispatch_update` for a job in `Created`,
/// and a conflict — the store unchanged — for every other state.
pub open spec fn dispatch_step(m: Map<Seq<char>, JobData>, id: Seq<char>, now: i64) -> (
    Map<Seq<char>, JobData>,
    Result<JobData, DispatchError>,
) {
    if !m.contains_key(id) {
        (m, Err(DispatchError::NotFound))
    } else if m[id].status is Created {
        (m.insert(id, dispatch_update(m[id], now)), Ok(dispatch_update(m[id], now)))
    } else if m[id].status.spec_is_terminal() {
        (m, Err(DispatchError::AlreadyTerminal))
    } else {
        (m, Err(DispatchError::AlreadyDispatched))
    }
}

/// The status of a job only ever moves forward along the state
/// machine: a dispatch strictly advances a `Created` job and stamps
/// its dispatch time, touching nothing else.
pub proof fn lemma_dispatch_moves_forward(j: JobData, now: i64)
    requires
        j.status is Created,
    ensures
        dispatch_update(j, now).status.rank() > j.status.rank(),
        dispatch_update(j, now).status is Dispatched,
        dispatch_update(j, now).dispatched_at == Some(now),
        dispatch_update(j, now).id == j.id,
        dispatch_update(j, now).device_id == j.device_id,
        dispatch_update(j, now).artifact == j.artifact,
        dispatch_update(j, now).version == j.version,
        dispatch_update(j, now).created_at == j.created_at,
        dispatch_update(j, now).completed_at == j.completed_at,
{
}

/// A status report never moves a record backwards: applied to a
/// non-terminal record, the classified status ranks at least as high
/// as the old one, and the record invariant is preserved.
pub proof fn lemma_report_moves_forward(
    j: JobData,
    st: JobStatus,
    msg: Option<Seq<char>>,
    device: Seq<char>,
    now: i64,
)
    requires
        job_data_inv(j),
        !j.status.spec_is_terminal(),
        st is InProgress || st is Completed || st is Failed,
    ensures
        report_update(j, st, msg, device, now).status.rank() >= j.status.rank(),
        job_data_inv(report_update(j, st, msg, device, now)),
{
}

/// A terminal job is frozen: the dispatcher refuses it and leaves the
/// store unchanged.
pub proof fn lemma_dispatch_respects_terminal(m: Map<Seq<char>, JobData>, id: Seq<char>, now: i64)
    requires
        m.contains_key(id),
        m[id].status.spec_is_terminal(),
    ensures
        dispatch_step(m, id, now).0 == m,
        dispatch_step(m, id, now).1 == Err::<JobData, DispatchError>(DispatchError::AlreadyTerminal),
{
}

/// Dispatch stamps `dispatched_at` exactly once: the first dispatch of
/// a `Created` job succeeds and stamps its time; a second dispatch,
/// whenever it runs, conflicts and changes nothing, so the stamp
/// stands as the first dispatch left it.
pub proof fn lemma_dispatch_stamps_once(
    m: Map<Seq<char>, JobData>,
    id: Seq<char>,
    t1: i64,
    t2: i64,
)
    requires
        m.contains_key(id),
        m[id].status is Created,
    ensures
        dispatch_step(m, id, t1).1 == Ok::<JobData, DispatchError>(
            dispatch_update(m[id], t1),
        ),
        dispatch_step(m, id, t1).0[id].dispatched_at == Some(t1),
        dispatch_step(dispatch_step(m, id, t1).0, id, t2).1 == Err::<JobData, DispatchError>(
            DispatchError::AlreadyDispatched,
        ),
        dispatch_step(dispatch_step(m, id, t1).0, id, t2).0 == dispatch_step(m, id, t1).0,
        dispatch_step(dispatch_step(m, id, t1).0, id, t2).0[id].dispatched_at == Some(t1),
{
}

/// Through a full lifecycle — dispatch at `t1`, a terminal report at
/// `t2 >= t1` — the timestamps land in wall-clock order: the dispatch
/// stamp is `t1`, the completion stamp is `t2`, and the first never
/// exceeds the second.
pub proof fn lemma_lifecycle_timestamps(
    j: JobData,
    st: JobStatus,
    msg: Option<Seq<char>>,
    device: Seq<char>,
    t1: i64,
    t2: i64,
)
    requires
        job_data_inv(j),
        j.status is Created,
        st is Completed || st is Failed,
        t1 <= t2,
    ensures
        ({
            let done = report_update(dispatch_update(j, t1), st, msg, device, t2);
            &&& done.status == st
            &&& done.dispatched_at == Some(t1)
            &&& done.completed_at == Some(t2)
            &&& done.dispatched_at.unwrap() <= done.completed_at.unwrap()
        }),
{
}

} // verus!
