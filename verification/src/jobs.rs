//! Writes that run in the background.

use vstd::prelude::*;
use vstd::string::*;

use crate::api_error::{ApiError, ErrorView};
use crate::collections::StrMap;
use crate::text::{str_eq, views};
use crate::write::{
    conflict_error, daemon_ingest_failure_views, entry_hash, DaemonIngestFailure,
    DaemonIngestResponse, EntryView, IdempotencyEntry, IngestFailureView, IngestResponseView,
};

verus! {

/// Where a job stands.
pub struct JobStatus {
    /// The job.
    pub job_id: String,
    /// Its status.
    pub status: String,
    /// What came of it.
    pub report: Option<DaemonIngestResponse>,
    /// What has happened to it.
    pub events: Vec<String>,
    /// The hash of what it writes.
    pub payload_hash: String,
}

/// The view of a [`JobStatus`].
#[verifier::ext_equal]
pub struct JobView {
    pub job_id: Seq<char>,
    pub status: Seq<char>,
    pub report: Option<IngestResponseView>,
    pub events: Seq<Seq<char>>,
    pub payload_hash: Seq<char>,
}

impl View for JobStatus {
    type V = JobView;

    open spec fn view(&self) -> JobView {
        JobView {
            job_id: self.job_id@,
            status: self.status@,
            report: match self.report {
                Some(r) => Some(r@),
                None => None,
            },
            events: views(self.events@),
            payload_hash: self.payload_hash@,
        }
    }
}

impl JobStatus {
    /// A copy with the same view.
    pub fn copy(&self) -> (r: JobStatus)
        ensures
            r@ == self@,
    {
        JobStatus {
            job_id: self.job_id.clone(),
            status: self.status.clone(),
            report: match &self.report {
                Some(r) => Some(r.copy()),
                None => None,
            },
            events: crate::text::copy_strings(&self.events),
            payload_hash: self.payload_hash.clone(),
        }
    }
}

/// A job that waits.
pub open spec fn queued_job(job_id: Seq<char>, payload_hash: Seq<char>) -> JobView {
    JobView { job_id, status: "queued"@, report: None, events: seq!["queued"@], payload_hash }
}

/// A job that was answered before.
pub open spec fn completed_job(
    job_id: Seq<char>,
    payload_hash: Seq<char>,
    report: IngestResponseView,
) -> JobView {
    JobView {
        job_id,
        status: "completed"@,
        report: Some(report),
        events: seq!["queued"@, "started"@, "completed"@],
        payload_hash,
    }
}

fn make_queued(job_id: &str, payload_hash: &str) -> (r: JobStatus)
    ensures
        r@ == queued_job(job_id@, payload_hash@),
{
    let mut events: Vec<String> = Vec::new();
    events.push("queued".to_owned());
    assert(views(events@) =~= seq!["queued"@]);
    JobStatus {
        job_id: job_id.to_owned(),
        status: "queued".to_owned(),
        report: None,
        events,
        payload_hash: payload_hash.to_owned(),
    }
}

fn make_completed(job_id: &str, payload_hash: &str, report: &DaemonIngestResponse) -> (r: JobStatus)
    ensures
        r@ == completed_job(job_id@, payload_hash@, report@),
{
    let mut events: Vec<String> = Vec::new();
    events.push("queued".to_owned());
    events.push("started".to_owned());
    events.push("completed".to_owned());
    assert(views(events@) =~= seq!["queued"@, "started"@, "completed"@]);
    JobStatus {
        job_id: job_id.to_owned(),
        status: "completed".to_owned(),
        report: Some(report.copy()),
        events,
        payload_hash: payload_hash.to_owned(),
    }
}

/// The jobs by their identifiers.
pub struct JobTable {
    jobs: StrMap<JobStatus>,
}

/// What is to be run for an accepted job.
#[derive(Debug, Clone, Copy, PartialEq, Eq, Structural)]
pub enum JobRun {
    /// Nothing: the job was accepted before.
    Nothing,
    /// The records that the pending entry remembers.
    Recovered,
    /// The records of the request.
    Submitted,
}

/// How an accepted job is answered.
#[derive(Debug, Clone, Copy, PartialEq, Eq, Structural)]
pub struct JobAnswer {
    /// The HTTP status: 202 for a new job, 200 for one that was accepted before.
    pub http_status: u16,
    /// What is to be run.
    pub run: JobRun,
}

/// The error of a key that was used for another payload.
pub open spec fn reused_key_error() -> ErrorView {
    conflict_error("idempotency key reused with different payload"@)
}

/// The jobs after a job was rehydrated: one that is there stays.
pub open spec fn kept_or_added(
    jobs: Map<Seq<char>, JobView>,
    job_id: Seq<char>,
    job: JobView,
) -> Map<Seq<char>, JobView> {
    if jobs.dom().contains(job_id) {
        jobs
    } else {
        jobs.insert(job_id, job)
    }
}

/// What becomes of a request to run a job: the jobs after it, and the answer.
pub open spec fn job_outcome(
    jobs: Map<Seq<char>, JobView>,
    job_id: Seq<char>,
    payload_hash: Seq<char>,
    entry: Option<EntryView>,
) -> (Map<Seq<char>, JobView>, Result<JobAnswer, ErrorView>) {
    match entry {
        Some(e) => if entry_hash(e) != payload_hash {
            (jobs, Err(reused_key_error()))
        } else {
            match e {
                EntryView::Committed { response, .. } => (
                    kept_or_added(jobs, job_id, completed_job(job_id, payload_hash, response)),
                    Ok(JobAnswer { http_status: 200, run: JobRun::Nothing }),
                ),
                EntryView::Pending { .. } => (
                    kept_or_added(jobs, job_id, queued_job(job_id, payload_hash)),
                    Ok(JobAnswer { http_status: 200, run: JobRun::Recovered }),
                ),
            }
        },
        None => if jobs.dom().contains(job_id) {
            if jobs[job_id].payload_hash != payload_hash {
                (jobs, Err(reused_key_error()))
            } else {
                (jobs, Ok(JobAnswer { http_status: 200, run: JobRun::Nothing }))
            }
        } else {
            (
                jobs.insert(job_id, queued_job(job_id, payload_hash)),
                Ok(JobAnswer { http_status: 202, run: JobRun::Submitted }),
            )
        },
    }
}

/// The jobs after a step of one: its status, one more event, and its report where
/// there is one.
pub open spec fn job_updated(
    jobs: Map<Seq<char>, JobView>,
    job_id: Seq<char>,
    status: Seq<char>,
    event: Seq<char>,
    report: Option<IngestResponseView>,
) -> Map<Seq<char>, JobView> {
    if jobs.dom().contains(job_id) {
        let j = jobs[job_id];
        jobs.insert(
            job_id,
            JobView {
                status,
                events: j.events.push(event),
                report: if report is Some {
                    report
                } else {
                    j.report
                },
                ..j
            },
        )
    } else {
        jobs
    }
}

/// The report of a job that failed.
pub open spec fn failure_report(job_id: Seq<char>, message: Seq<char>) -> IngestResponseView {
    IngestResponseView {
        attempted: 0,
        succeeded: 0,
        failed: 1,
        failures: seq![IngestFailureView { record_id: job_id, message }],
        record_ids: Seq::empty(),
        idempotent: false,
    }
}

/// The jobs after a job has ended.
pub open spec fn job_ended(
    jobs: Map<Seq<char>, JobView>,
    job_id: Seq<char>,
    result: Result<IngestResponseView, ErrorView>,
) -> Map<Seq<char>, JobView> {
    match result {
        Ok(r) => job_updated(jobs, job_id, "completed"@, "completed"@, Some(r)),
        Err(e) => job_updated(
            jobs,
            job_id,
            "failed"@,
            "failed"@,
            Some(failure_report(job_id, e.message)),
        ),
    }
}

fn make_failure_report(job_id: &str, message: &str) -> (r: DaemonIngestResponse)
    ensures
        r@ == failure_report(job_id@, message@),
{
    let mut failures: Vec<DaemonIngestFailure> = Vec::new();
    failures.push(
        DaemonIngestFailure { record_id: job_id.to_owned(), message: message.to_owned() },
    );
    assert(daemon_ingest_failure_views(failures@) =~= seq![
        IngestFailureView { record_id: job_id@, message: message@ },
    ]);
    let record_ids: Vec<String> = Vec::new();
    assert(views(record_ids@) =~= Seq::<Seq<char>>::empty());
    DaemonIngestResponse {
        attempted: 0,
        succeeded: 0,
        failed: 1,
        failures,
        record_ids,
        idempotent: false,
    }
}

impl JobTable {
    #[verifier::type_invariant]
    spec fn inv(self) -> bool {
        self.jobs.wf()
    }

    /// The jobs.
    pub closed spec fn jobs(&self) -> Map<Seq<char>, JobView> {
        self.jobs.map().map_values(|j: JobStatus| j@)
    }

    /// A table without jobs.
    pub fn new() -> (r: JobTable)
        ensures
            r.jobs() == Map::<Seq<char>, JobView>::empty(),
    {
        let r = JobTable { jobs: StrMap::new() };
        assert(r.jobs() =~= Map::<Seq<char>, JobView>::empty());
        r
    }

    /// The number of jobs.
    pub fn len(&self) -> (n: usize)
        ensures
            n == self.jobs().dom().len(),
    {
        proof {
            use_type_invariant(self);
            assert(self.jobs().dom() =~= self.jobs.map().dom());
        }
        self.jobs.len()
    }

    /// A job.
    pub fn get(&self, job_id: &str) -> (r: Option<&JobStatus>)
        ensures
            match r {
                Some(j) => self.jobs().dom().contains(job_id@) && self.jobs()[job_id@] == j@,
                None => !self.jobs().dom().contains(job_id@),
            },
    {
        proof {
            use_type_invariant(self);
        }
        self.jobs.get(job_id)
    }

    fn put(self, job_id: &str, job: JobStatus) -> (r: JobTable)
        ensures
            r.jobs() == self.jobs().insert(job_id@, job@),
    {
        proof {
            use_type_invariant(&self);
        }
        let ghost before = self.jobs();
        let ghost view = job@;
        let JobTable { mut jobs } = self;
        jobs.insert(job_id, job);
        let r = JobTable { jobs };
        assert(r.jobs() =~= before.insert(job_id@, view));
        r
    }

    fn keep_or_put(self, job_id: &str, job: JobStatus) -> (r: JobTable)
        ensures
            r.jobs() == kept_or_added(self.jobs(), job_id@, job@),
    {
        if self.get(job_id).is_some() {
            self
        } else {
            self.put(job_id, job)
        }
    }

    /// Accepts a job, or refuses it where its key was used for another payload. What is
    /// remembered of the write comes first, so that a job is found again after a
    /// restart.
    pub fn accept(self, job_id: &str, payload_hash: &str, entry: Option<&IdempotencyEntry>) -> (r: (
        JobTable,
        Result<JobAnswer, ApiError>,
    ))
        ensures
            ({
                let o = job_outcome(
                    self.jobs(),
                    job_id@,
                    payload_hash@,
                    match entry {
                        Some(e) => Some(e@),
                        None => None,
                    },
                );
                r.0.jobs() == o.0 && match (r.1, o.1) {
                    (Ok(a), Ok(b)) => a == b,
                    (Err(e), Err(f)) => e@ == f,
                    _ => false,
                }
            }),
    {
        match entry {
            Some(e) => {
                if !str_eq(e.payload_hash(), payload_hash) {
                    return (
                        self,
                        Err(
                            ApiError::conflict(
                                "idempotency key reused with different payload".to_owned(),
                            ),
                        ),
                    );
                }
                match e {
                    IdempotencyEntry::Committed { response, .. } => {
                        let job = make_completed(job_id, payload_hash, response);
                        (
                            self.keep_or_put(job_id, job),
                            Ok(JobAnswer { http_status: 200, run: JobRun::Nothing }),
                        )
                    },
                    IdempotencyEntry::Pending { .. } => {
                        let job = make_queued(job_id, payload_hash);
                        (
                            self.keep_or_put(job_id, job),
                            Ok(JobAnswer { http_status: 200, run: JobRun::Recovered }),
                        )
                    },
                }
            },
            None => {
                let known = match self.get(job_id) {
                    Some(j) => Some(str_eq(j.payload_hash.as_str(), payload_hash)),
                    None => None,
                };
                match known {
                    Some(same) => {
                        if same {
                            (self, Ok(JobAnswer { http_status: 200, run: JobRun::Nothing }))
                        } else {
                            (
                                self,
                                Err(
                                    ApiError::conflict(
                                        "idempotency key reused with different payload".to_owned(),
                                    ),
                                ),
                            )
                        }
                    },
                    None => {
                        let job = make_queued(job_id, payload_hash);
                        (
                            self.put(job_id, job),
                            Ok(JobAnswer { http_status: 202, run: JobRun::Submitted }),
                        )
                    },
                }
            },
        }
    }

    /// Notes a step of a job. A job that is not there is not added.
    pub fn update(
        self,
        job_id: &str,
        status: &str,
        event: &str,
        report: Option<DaemonIngestResponse>,
    ) -> (r: JobTable)
        ensures
            r.jobs() == job_updated(
                self.jobs(),
                job_id@,
                status@,
                event@,
                match report {
                    Some(x) => Some(x@),
                    None => None,
                },
            ),
    {
        let mut job = match self.get(job_id) {
            Some(j) => j.copy(),
            None => {
                return self;
            },
        };
        let ghost events = views(job.events@);
        job.status = status.to_owned();
        job.events.push(event.to_owned());
        assert(views(job.events@) =~= events.push(event@));
        match report {
            Some(x) => {
                job.report = Some(x);
            },
            None => {},
        }
        self.put(job_id, job)
    }

    /// Notes that a job has started.
    pub fn start(self, job_id: &str) -> (r: JobTable)
        ensures
            r.jobs() == job_updated(self.jobs(), job_id@, "running"@, "started"@, None),
    {
        self.update(job_id, "running", "started", None)
    }

    /// Notes what came of a job.
    pub fn finish(self, job_id: &str, result: Result<DaemonIngestResponse, ApiError>) -> (r: JobTable)
        ensures
            r.jobs() == job_ended(
                self.jobs(),
                job_id@,
                match result {
                    Ok(x) => Ok(x@),
                    Err(e) => Err(e@),
                },
            ),
    {
        match result {
            Ok(x) => self.update(job_id, "completed", "completed", Some(x)),
            Err(e) => {
                let report = make_failure_report(job_id, e.message.as_str());
                self.update(job_id, "failed", "failed", Some(report))
            },
        }
    }
}

// ---------------------------------------------------------------------------
// Laws
// ---------------------------------------------------------------------------

/// A job that was accepted once is accepted again without being run again, and the
/// table stays as it is.
pub proof fn law_accepted_job_is_not_run_twice(
    jobs: Map<Seq<char>, JobView>,
    job_id: Seq<char>,
    payload_hash: Seq<char>,
)
    requires
        !jobs.dom().contains(job_id),
    ensures
        ({
            let once = job_outcome(jobs, job_id, payload_hash, None).0;
            job_outcome(once, job_id, payload_hash, None) == (
                once,
                Ok::<JobAnswer, ErrorView>(JobAnswer { http_status: 200, run: JobRun::Nothing }),
            )
        }),
{
}

/// A key that was used for another payload is refused and changes nothing.
pub proof fn law_reused_job_key_is_refused(
    jobs: Map<Seq<char>, JobView>,
    job_id: Seq<char>,
    payload_hash: Seq<char>,
    entry: Option<EntryView>,
)
    requires
        match entry {
            Some(e) => entry_hash(e) != payload_hash,
            None => jobs.dom().contains(job_id) && jobs[job_id].payload_hash != payload_hash,
        },
    ensures
        job_outcome(jobs, job_id, payload_hash, entry) == (
            jobs,
            Err::<JobAnswer, ErrorView>(reused_key_error()),
        ),
{
}

/// Accepting a job touches no other job.
pub proof fn law_other_jobs_are_untouched(
    jobs: Map<Seq<char>, JobView>,
    job_id: Seq<char>,
    payload_hash: Seq<char>,
    entry: Option<EntryView>,
    other: Seq<char>,
)
    requires
        other != job_id,
    ensures
        ({
            let after = job_outcome(jobs, job_id, payload_hash, entry).0;
            after.dom().contains(other) == jobs.dom().contains(other) && (jobs.dom().contains(
                other,
            ) ==> after[other] == jobs[other])
        }),
{
}

/// A job that runs to its end has been queued, started and completed, in this order.
pub proof fn law_completed_job_tells_its_history(
    jobs: Map<Seq<char>, JobView>,
    job_id: Seq<char>,
    payload_hash: Seq<char>,
    report: IngestResponseView,
)
    requires
        !jobs.dom().contains(job_id),
    ensures
        ({
            let accepted = job_outcome(jobs, job_id, payload_hash, None).0;
            let started = job_updated(accepted, job_id, "running"@, "started"@, None);
            job_ended(started, job_id, Ok(report))[job_id] == completed_job(
                job_id,
                payload_hash,
                report,
            )
        }),
{
    let accepted = job_outcome(jobs, job_id, payload_hash, None).0;
    let started = job_updated(accepted, job_id, "running"@, "started"@, None);
    let ended = job_ended(started, job_id, Ok(report))[job_id];
    assert(ended.events =~= seq!["queued"@, "started"@, "completed"@]);
}

} // verus!
