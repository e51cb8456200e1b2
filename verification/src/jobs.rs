//! The record of import jobs, and what the endpoints that start and follow a job
//! answer from it.

use crate::http::{HttpError, Status};
use crate::pick::{all_picked, PickedFiles};
use crate::text::{copied, copied_list, decimal, decimal_text, joined, optional_text, texts};
use vstd::hash_map::StringHashMap;
use vstd::prelude::*;
use vstd::string::*;

verus! {

/// How far a job has come.
#[derive(Debug, Clone, Copy, PartialEq, Eq, Structural)]
pub enum JobState {
    Running,
    Done,
    Error,
}

impl JobState {
    /// The name of a state, as callers see it.
    pub open spec fn name(self) -> Seq<char> {
        match self {
            JobState::Running => "running"@,
            JobState::Done => "done"@,
            JobState::Error => "error"@,
        }
    }

    /// The name of a state, as callers see it.
    pub fn text(&self) -> (r: &'static str)
        ensures
            r@ == self.name(),
            r@ == (match self {
                JobState::Running => "running"@,
                JobState::Done => "done"@,
                JobState::Error => "error"@,
            }),
    {
        match self {
            JobState::Running => "running",
            JobState::Done => "done",
            JobState::Error => "error",
        }
    }
}

/// All that is known of a job.
#[derive(Debug)]
pub struct JobStatus {
    pub id: String,
    pub state: JobState,
    pub started_ms: u128,
    pub elapsed_ms: u128,
    pub paths: Vec<String>,
    pub bundle_path: Option<String>,
    pub bundle_size: u64,
    pub password: Option<String>,
    /// "json" or "ndjson" for plain results, "bundle" for a sealed one.
    pub format: Option<String>,
    pub error: Option<String>,
}

/// What a job's record says.
#[verifier::ext_equal]
pub struct JobView {
    pub id: Seq<char>,
    pub state: JobState,
    pub started_ms: u128,
    pub elapsed_ms: u128,
    pub paths: Seq<Seq<char>>,
    pub bundle_path: Option<Seq<char>>,
    pub bundle_size: u64,
    pub password: Option<Seq<char>>,
    pub format: Option<Seq<char>>,
    pub error: Option<Seq<char>>,
}

impl View for JobStatus {
    type V = JobView;

    open spec fn view(&self) -> JobView {
        JobView {
            id: self.id@,
            state: self.state,
            started_ms: self.started_ms,
            elapsed_ms: self.elapsed_ms,
            paths: texts(self.paths@),
            bundle_path: optional_text(self.bundle_path),
            bundle_size: self.bundle_size,
            password: optional_text(self.password),
            format: optional_text(self.format),
            error: optional_text(self.error),
        }
    }
}

impl Clone for JobStatus {
    fn clone(&self) -> (r: Self)
        ensures
            r@ == self@,
    {
        JobStatus {
            id: self.id.clone(),
            state: self.state,
            started_ms: self.started_ms,
            elapsed_ms: self.elapsed_ms,
            paths: copied_list(&self.paths),
            bundle_path: copied(&self.bundle_path),
            bundle_size: self.bundle_size,
            password: copied(&self.password),
            format: copied(&self.format),
            error: copied(&self.error),
        }
    }
}

impl JobView {
    /// A job that has just been started.
    pub open spec fn running(id: Seq<char>, started_ms: u128, paths: Seq<Seq<char>>) -> JobView {
        JobView {
            id,
            state: JobState::Running,
            started_ms,
            elapsed_ms: 0,
            paths,
            bundle_path: None,
            bundle_size: 0,
            password: None,
            format: None,
            error: None,
        }
    }

    /// The job after a failure. A failure that comes before any work leaves the
    /// elapsed time alone.
    pub open spec fn failed(self, elapsed_ms: Option<u128>, error: Seq<char>) -> JobView {
        JobView {
            state: JobState::Error,
            elapsed_ms: match elapsed_ms {
                Some(ms) => ms,
                None => self.elapsed_ms,
            },
            error: Some(error),
            ..self
        }
    }

    /// The job after its result has been written to `path`.
    pub open spec fn finished(
        self,
        elapsed_ms: u128,
        path: Seq<char>,
        size: u64,
        password: Seq<char>,
        format: Seq<char>,
    ) -> JobView {
        JobView {
            state: JobState::Done,
            elapsed_ms,
            bundle_path: Some(path),
            bundle_size: size,
            password: Some(password),
            format: Some(format),
            ..self
        }
    }

    /// The job as it is shown at a point in time: while it runs, with the time
    /// since its start.
    pub open spec fn shown_at(self, now_ms: u128) -> JobView {
        if self.state == JobState::Running {
            JobView { elapsed_ms: (now_ms - self.started_ms) as u128, ..self }
        } else {
            self
        }
    }

    /// What every record of the helper keeps to: a running job has no outcome
    /// yet, a finished one has a result, a failed one has an error.
    pub open spec fn coherent(self) -> bool {
        match self.state {
            JobState::Running => self == JobView::running(self.id, self.started_ms, self.paths),
            JobState::Done => self.bundle_path is Some && self.password is Some
                && self.format is Some,
            JobState::Error => self.error is Some,
        }
    }

    /// Where the result of a job is to be had and in which format, or the refusal
    /// for a job without a result.
    pub open spec fn result(self) -> Result<(Seq<char>, Seq<char>), (Status, Seq<char>)> {
        if self.state != JobState::Done {
            Err((Status::PreconditionFailed, "job state="@ + self.state.name() + ", not done"@))
        } else {
            match self.bundle_path {
                None => Err((Status::NotFound, "no bundle path"@)),
                Some(path) => Ok(
                    (
                        path,
                        match self.format {
                            Some(format) => format,
                            None => "bundle"@,
                        },
                    ),
                ),
            }
        }
    }
}

/// Where the result of a job is to be had, and in which format.
#[derive(Debug)]
pub struct BundleRef {
    pub path: String,
    pub format: String,
}

/// The answer that a `Result` of a bundle stands for.
pub open spec fn bundle_view(r: Result<BundleRef, HttpError>) -> Result<
    (Seq<char>, Seq<char>),
    (Status, Seq<char>),
> {
    match r {
        Ok(b) => Ok((b.path@, b.format@)),
        Err(e) => Err(e@),
    }
}

impl JobStatus {
    /// The job as it is shown at a point in time, which for a running job must
    /// not lie before its start.
    pub fn shown_at(&self, now_ms: u128) -> (r: JobStatus)
        requires
            self.state == JobState::Running ==> self.started_ms <= now_ms,
        ensures
            r@ == self@.shown_at(now_ms),
            self.state == JobState::Running ==> r@ == (JobView {
                elapsed_ms: (now_ms - self.started_ms) as u128,
                ..self@
            }),
            self.state != JobState::Running ==> r@ == self@,
    {
        let mut r = self.clone();
        if r.state == JobState::Running {
            r.elapsed_ms = now_ms - r.started_ms;
        }
        r
    }

    /// Where the result of a job is to be had, or the refusal for a job without
    /// one.
    pub fn result(&self) -> (r: Result<BundleRef, HttpError>)
        ensures
            bundle_view(r) == self@.result(),
            match r {
                Ok(b) => {
                    &&& self@.state == JobState::Done
                    &&& self@.bundle_path == Some(b.path@)
                    &&& b.format@ == (match self@.format {
                        Some(format) => format,
                        None => "bundle"@,
                    })
                },
                Err(e) => {
                    &&& self@.state != JobState::Done || self@.bundle_path is None
                    &&& self@.state == JobState::Done ==> e.status == Status::NotFound
                        && e.message@ == "no bundle path"@
                    &&& self@.state == JobState::Running ==> e.status
                        == Status::PreconditionFailed && e.message@ == "job state="@ + "running"@
                        + ", not done"@
                    &&& self@.state == JobState::Error ==> e.status
                        == Status::PreconditionFailed && e.message@ == "job state="@ + "error"@
                        + ", not done"@
                },
            },
    {
        if self.state != JobState::Done {
            let message = joined(
                joined("job state=", self.state.text()).as_str(),
                ", not done",
            );
            return Err(HttpError { status: Status::PreconditionFailed, message });
        }
        match &self.bundle_path {
            None => Err(
                HttpError { status: Status::NotFound, message: "no bundle path".to_owned() },
            ),
            Some(path) => {
                let format = match &self.format {
                    Some(format) => format.clone(),
                    None => "bundle".to_owned(),
                };
                Ok(BundleRef { path: path.clone(), format })
            },
        }
    }
}

/// All jobs, by id.
pub type Jobs = Map<Seq<char>, JobView>;

/// The jobs after one of them failed. An unknown id changes nothing.
pub open spec fn with_failure(
    jobs: Jobs,
    id: Seq<char>,
    elapsed_ms: Option<u128>,
    error: Seq<char>,
) -> Jobs {
    if jobs.contains_key(id) {
        jobs.insert(id, jobs[id].failed(elapsed_ms, error))
    } else {
        jobs
    }
}

/// The jobs after the result of one of them was written. An unknown id changes
/// nothing.
pub open spec fn with_result(
    jobs: Jobs,
    id: Seq<char>,
    elapsed_ms: u128,
    path: Seq<char>,
    size: u64,
    password: Seq<char>,
    format: Seq<char>,
) -> Jobs {
    if jobs.contains_key(id) {
        jobs.insert(id, jobs[id].finished(elapsed_ms, path, size, password, format))
    } else {
        jobs
    }
}

/// Every job is recorded under its own id, and its record is coherent.
pub open spec fn consistent(jobs: Jobs) -> bool {
    forall|id: Seq<char>| #[trigger]
        jobs.contains_key(id) ==> jobs[id].id == id && jobs[id].coherent()
}

/// The record of all jobs of a session.
pub struct JobTable {
    jobs: StringHashMap<JobStatus>,
}

impl View for JobTable {
    type V = Jobs;

    closed spec fn view(&self) -> Jobs {
        self.jobs@.map_values(|job: JobStatus| job@)
    }
}

impl JobTable {
    /// What every table that the helper makes keeps to.
    pub open spec fn wf(&self) -> bool {
        consistent(self@)
    }

    /// A table without jobs.
    pub fn new() -> (r: JobTable)
        ensures
            r@ == Map::<Seq<char>, JobView>::empty(),
            r.wf(),
    {
        let r = JobTable { jobs: StringHashMap::new() };
        assert(r@ =~= Map::<Seq<char>, JobView>::empty());
        r
    }

    /// The record of a job.
    pub fn get(&self, id: &str) -> (r: Option<&JobStatus>)
        ensures
            match r {
                Some(job) => self@.contains_key(id@) && job@ == self@[id@],
                None => !self@.contains_key(id@),
            },
    {
        self.jobs.get(id)
    }

    /// Records a job under an id, in the place of an earlier one.
    fn record(&mut self, id: &str, job: JobStatus)
        ensures
            final(self)@ == old(self)@.insert(id@, job@),
    {
        self.jobs.insert(id.to_owned(), job);
        assert(self@ =~= old(self)@.insert(id@, job@));
    }

    /// Records that a job failed.
    pub fn fail(&mut self, id: &str, elapsed_ms: Option<u128>, error: String)
        ensures
            final(self)@ == with_failure(old(self)@, id@, elapsed_ms, error@),
            !old(self)@.contains_key(id@) ==> final(self)@ == old(self)@,
            old(self)@.contains_key(id@) ==> final(self)@ == old(self)@.insert(
                id@,
                (JobView {
                    state: JobState::Error,
                    elapsed_ms: match elapsed_ms {
                        Some(ms) => ms,
                        None => old(self)@[id@].elapsed_ms,
                    },
                    error: Some(error@),
                    ..old(self)@[id@]
                }),
            ),
            old(self).wf() ==> final(self).wf(),
    {
        proof {
            if self.wf() {
                law_failure_keeps_the_table_consistent(self@, id@, elapsed_ms, error@);
            }
        }
        let changed = match self.jobs.get(id) {
            Some(job) => {
                let mut job = job.clone();
                job.state = JobState::Error;
                match elapsed_ms {
                    Some(ms) => {
                        job.elapsed_ms = ms;
                    },
                    None => {},
                }
                job.error = Some(error);
                Some(job)
            },
            None => None,
        };
        match changed {
            Some(job) => {
                self.record(id, job);
            },
            None => {},
        }
    }

    /// Records that the result of a job was written.
    pub fn finish(
        &mut self,
        id: &str,
        elapsed_ms: u128,
        path: String,
        size: u64,
        password: String,
        format: String,
    )
        ensures
            final(self)@ == with_result(
                old(self)@,
                id@,
                elapsed_ms,
                path@,
                size,
                password@,
                format@,
            ),
            !old(self)@.contains_key(id@) ==> final(self)@ == old(self)@,
            old(self)@.contains_key(id@) ==> final(self)@ == old(self)@.insert(
                id@,
                (JobView {
                    state: JobState::Done,
                    elapsed_ms,
                    bundle_path: Some(path@),
                    bundle_size: size,
                    password: Some(password@),
                    format: Some(format@),
                    ..old(self)@[id@]
                }),
            ),
            old(self).wf() ==> final(self).wf(),
    {
        let changed = match self.jobs.get(id) {
            Some(job) => {
                let mut job = job.clone();
                job.state = JobState::Done;
                job.elapsed_ms = elapsed_ms;
                job.bundle_path = Some(path);
                job.bundle_size = size;
                job.password = Some(password);
                job.format = Some(format);
                Some(job)
            },
            None => None,
        };
        match changed {
            Some(job) => {
                self.record(id, job);
            },
            None => {},
        }
    }
}

/// A failure keeps a consistent table consistent.
pub proof fn law_failure_keeps_the_table_consistent(
    jobs: Jobs,
    id: Seq<char>,
    elapsed_ms: Option<u128>,
    error: Seq<char>,
)
    requires
        consistent(jobs),
    ensures
        consistent(with_failure(jobs, id, elapsed_ms, error)),
{
    let after = with_failure(jobs, id, elapsed_ms, error);
    assert forall|k: Seq<char>| #[trigger] after.contains_key(k) implies after[k].id == k
        && after[k].coherent() by {
        assert(jobs.contains_key(k));
    }
}

/// A result keeps a consistent table consistent.
pub proof fn law_result_keeps_the_table_consistent(
    jobs: Jobs,
    id: Seq<char>,
    elapsed_ms: u128,
    path: Seq<char>,
    size: u64,
    password: Seq<char>,
    format: Seq<char>,
)
    requires
        consistent(jobs),
    ensures
        consistent(with_result(jobs, id, elapsed_ms, path, size, password, format)),
{
    let after = with_result(jobs, id, elapsed_ms, path, size, password, format);
    assert forall|k: Seq<char>| #[trigger] after.contains_key(k) implies after[k].id == k
        && after[k].coherent() by {
        assert(jobs.contains_key(k));
    }
}

/// The id of a job that is started at a point in time.
pub open spec fn job_id(id_ms: u128) -> Seq<char> {
    "job_"@ + decimal(id_ms as nat)
}

/// Makes the id of a job.
fn job_id_text(id_ms: u128) -> (r: String)
    ensures
        r@ == job_id(id_ms),
{
    joined("job_", decimal_text(id_ms).as_str())
}

/// The record that a new job gets: it runs, or it is refused because no engine
/// is there to run it.
pub open spec fn new_job(
    id_ms: u128,
    now_ms: u128,
    engine_loaded: bool,
    paths: Seq<Seq<char>>,
) -> JobView {
    let job = JobView::running(job_id(id_ms), now_ms, paths);
    if engine_loaded {
        job
    } else {
        job.failed(None, "engine not loaded — POST /init first"@)
    }
}

/// The jobs after a job was started.
pub open spec fn with_new_job(
    jobs: Jobs,
    id_ms: u128,
    now_ms: u128,
    engine_loaded: bool,
    paths: Seq<Seq<char>>,
) -> Jobs {
    jobs.insert(job_id(id_ms), new_job(id_ms, now_ms, engine_loaded, paths))
}

/// What is answered to a request to start a job.
#[derive(Debug)]
pub struct ProcessResponse {
    pub job_id: String,
    pub state: JobState,
}

/// Starts a job for the given files: records it, and says what to answer. The
/// engine is to be run for a job that is accepted, and for no other. Whether the
/// user picked the files is not asked here: `start_picked` does that first.
pub fn start_process(
    jobs: &mut JobTable,
    id_ms: u128,
    now_ms: u128,
    engine_loaded: bool,
    paths: &Vec<String>,
) -> (r: (Status, ProcessResponse))
    ensures
        final(jobs)@ == with_new_job(old(jobs)@, id_ms, now_ms, engine_loaded, texts(paths@)),
        r.1.job_id@ == "job_"@ + decimal(id_ms as nat),
        engine_loaded ==> final(jobs)@ == old(jobs)@.insert(
            "job_"@ + decimal(id_ms as nat),
            (JobView {
                    id: "job_"@ + decimal(id_ms as nat),
                    state: JobState::Running,
                    started_ms: now_ms,
                    elapsed_ms: 0,
                    paths: texts(paths@),
                    bundle_path: None,
                    bundle_size: 0,
                    password: None,
                    format: None,
                    error: None,
                }),
        ),
        !engine_loaded ==> final(jobs)@ == old(jobs)@.insert(
            "job_"@ + decimal(id_ms as nat),
            (JobView {
                    id: "job_"@ + decimal(id_ms as nat),
                    state: JobState::Error,
                    started_ms: now_ms,
                    elapsed_ms: 0,
                    paths: texts(paths@),
                    bundle_path: None,
                    bundle_size: 0,
                    password: None,
                    format: None,
                    error: Some("engine not loaded — POST /init first"@),
                }),
        ),
        old(jobs).wf() ==> final(jobs).wf(),
        r.0 == (if engine_loaded {
            Status::Accepted
        } else {
            Status::PreconditionFailed
        }),
        r.1.job_id@ == job_id(id_ms),
        r.1.state == (if engine_loaded {
            JobState::Running
        } else {
            JobState::Error
        }),
{
    proof {
        if jobs.wf() {
            law_new_job_keeps_the_table_consistent(
                jobs@,
                id_ms,
                now_ms,
                engine_loaded,
                texts(paths@),
            );
        }
    }
    let id = job_id_text(id_ms);
    let mut job = JobStatus {
        id: id.clone(),
        state: JobState::Running,
        started_ms: now_ms,
        elapsed_ms: 0,
        paths: copied_list(paths),
        bundle_path: None,
        bundle_size: 0,
        password: None,
        format: None,
        error: None,
    };
    if !engine_loaded {
        job.state = JobState::Error;
        job.error = Some("engine not loaded — POST /init first".to_owned());
        jobs.record(id.as_str(), job);
        return (
            Status::PreconditionFailed,
            ProcessResponse { job_id: id, state: JobState::Error },
        );
    }
    jobs.record(id.as_str(), job);
    (Status::Accepted, ProcessResponse { job_id: id, state: JobState::Running })
}

/// A new job keeps a consistent table consistent.
pub proof fn law_new_job_keeps_the_table_consistent(
    jobs: Jobs,
    id_ms: u128,
    now_ms: u128,
    engine_loaded: bool,
    paths: Seq<Seq<char>>,
)
    requires
        consistent(jobs),
    ensures
        consistent(with_new_job(jobs, id_ms, now_ms, engine_loaded, paths)),
{
    let after = with_new_job(jobs, id_ms, now_ms, engine_loaded, paths);
    assert forall|k: Seq<char>| #[trigger] after.contains_key(k) implies after[k].id == k
        && after[k].coherent() by {
        if k != job_id(id_ms) {
            assert(jobs.contains_key(k));
        }
    }
}

/// Whether a job for the given files is accepted: an engine is there to run it,
/// and the user picked every one of the files.
pub open spec fn accepted(
    engine_loaded: bool,
    paths: Seq<Seq<char>>,
    picked: Seq<Seq<char>>,
) -> bool {
    engine_loaded && all_picked(paths, picked)
}

/// The record of a job that is refused because the user did not pick all of its
/// files.
pub open spec fn unpicked_job(id_ms: u128, now_ms: u128, paths: Seq<Seq<char>>) -> JobView {
    JobView::running(job_id(id_ms), now_ms, paths).failed(
        None,
        "file not picked — POST /pick first"@,
    )
}

/// The jobs after a job was asked for.
pub open spec fn with_asked_job(
    jobs: Jobs,
    picked: Seq<Seq<char>>,
    id_ms: u128,
    now_ms: u128,
    engine_loaded: bool,
    paths: Seq<Seq<char>>,
) -> Jobs {
    if engine_loaded && !all_picked(paths, picked) {
        jobs.insert(job_id(id_ms), unpicked_job(id_ms, now_ms, paths))
    } else {
        with_new_job(jobs, id_ms, now_ms, engine_loaded, paths)
    }
}

/// Starts a job for the given files if the user picked all of them, and refuses
/// it otherwise: records it, and says what to answer.
pub fn start_picked(
    jobs: &mut JobTable,
    picked: &PickedFiles,
    id_ms: u128,
    now_ms: u128,
    engine_loaded: bool,
    paths: &Vec<String>,
) -> (r: (Status, ProcessResponse))
    ensures
        final(jobs)@ == with_asked_job(
            old(jobs)@,
            picked@,
            id_ms,
            now_ms,
            engine_loaded,
            texts(paths@),
        ),
        r.1.job_id@ == "job_"@ + decimal(id_ms as nat),
        r.0 == Status::Accepted <==> engine_loaded && forall|i: int|
            0 <= i < paths@.len() ==> picked@.contains(#[trigger] texts(paths@)[i]),
        r.0 == Status::Accepted ==> final(jobs)@ == old(jobs)@.insert(
            "job_"@ + decimal(id_ms as nat),
            (JobView {
                    id: "job_"@ + decimal(id_ms as nat),
                    state: JobState::Running,
                    started_ms: now_ms,
                    elapsed_ms: 0,
                    paths: texts(paths@),
                    bundle_path: None,
                    bundle_size: 0,
                    password: None,
                    format: None,
                    error: None,
                }),
        ),
        r.0 != Status::Accepted ==> r.0 == Status::PreconditionFailed && final(jobs)@ == old(
            jobs,
        )@.insert(
            "job_"@ + decimal(id_ms as nat),
            (JobView {
                    id: "job_"@ + decimal(id_ms as nat),
                    state: JobState::Error,
                    started_ms: now_ms,
                    elapsed_ms: 0,
                    paths: texts(paths@),
                    bundle_path: None,
                    bundle_size: 0,
                    password: None,
                    format: None,
                    error: Some(
                        if engine_loaded {
                            "file not picked — POST /pick first"@
                        } else {
                            "engine not loaded — POST /init first"@
                        },
                    ),
                }),
        ),
        old(jobs).wf() ==> final(jobs).wf(),
        r.0 == (if accepted(engine_loaded, texts(paths@), picked@) {
            Status::Accepted
        } else {
            Status::PreconditionFailed
        }),
        r.1.job_id@ == job_id(id_ms),
        r.1.state == (if accepted(engine_loaded, texts(paths@), picked@) {
            JobState::Running
        } else {
            JobState::Error
        }),
{
    if !engine_loaded || picked.cover(paths) {
        return start_process(jobs, id_ms, now_ms, engine_loaded, paths);
    }
    proof {
        if jobs.wf() {
            law_unpicked_job_keeps_the_table_consistent(jobs@, id_ms, now_ms, texts(paths@));
        }
    }
    let id = job_id_text(id_ms);
    let job = JobStatus {
        id: id.clone(),
        state: JobState::Error,
        started_ms: now_ms,
        elapsed_ms: 0,
        paths: copied_list(paths),
        bundle_path: None,
        bundle_size: 0,
        password: None,
        format: None,
        error: Some("file not picked — POST /pick first".to_owned()),
    };
    jobs.record(id.as_str(), job);
    (Status::PreconditionFailed, ProcessResponse { job_id: id, state: JobState::Error })
}

/// A job that is refused for its files keeps a consistent table consistent.
pub proof fn law_unpicked_job_keeps_the_table_consistent(
    jobs: Jobs,
    id_ms: u128,
    now_ms: u128,
    paths: Seq<Seq<char>>,
)
    requires
        consistent(jobs),
    ensures
        consistent(jobs.insert(job_id(id_ms), unpicked_job(id_ms, now_ms, paths))),
{
    let after = jobs.insert(job_id(id_ms), unpicked_job(id_ms, now_ms, paths));
    assert forall|k: Seq<char>| #[trigger] after.contains_key(k) implies after[k].id == k
        && after[k].coherent() by {
        if k != job_id(id_ms) {
            assert(jobs.contains_key(k));
        }
    }
}

/// What is answered to a question for a job's status.
pub open spec fn status_answer(jobs: Jobs, id: Seq<char>, now_ms: u128) -> Result<
    JobView,
    Status,
> {
    if jobs.contains_key(id) {
        Ok(jobs[id].shown_at(now_ms))
    } else {
        Err(Status::NotFound)
    }
}

/// The status of a job at a point in time, which for a running job must not lie
/// before its start.
pub fn get_status(jobs: &JobTable, id: &str, now_ms: u128) -> (r: Result<JobStatus, Status>)
    requires
        jobs@.contains_key(id@) && jobs@[id@].state == JobState::Running ==> jobs@[id@].started_ms
            <= now_ms,
    ensures
        match r {
            Ok(job) => status_answer(jobs@, id@, now_ms) == Ok::<JobView, Status>(job@),
            Err(status) => status_answer(jobs@, id@, now_ms) == Err::<JobView, Status>(status),
        },
        match r {
            Ok(job) => {
                &&& jobs@.contains_key(id@)
                &&& jobs@[id@].state == JobState::Running ==> job@ == (JobView {
                    elapsed_ms: (now_ms - jobs@[id@].started_ms) as u128,
                    ..jobs@[id@]
                })
                &&& jobs@[id@].state != JobState::Running ==> job@ == jobs@[id@]
            },
            Err(status) => !jobs@.contains_key(id@) && status == Status::NotFound,
        },
{
    match jobs.get(id) {
        Some(job) => Ok(job.shown_at(now_ms)),
        None => Err(Status::NotFound),
    }
}

/// What is answered to a request for a job's result, before it is read.
pub open spec fn bundle_answer(jobs: Jobs, id: Seq<char>) -> Result<
    (Seq<char>, Seq<char>),
    (Status, Seq<char>),
> {
    if jobs.contains_key(id) {
        jobs[id].result()
    } else {
        Err((Status::NotFound, "job not found"@))
    }
}

/// Where the result of a job is to be read, or why it cannot be had.
pub fn get_bundle(jobs: &JobTable, id: &str) -> (r: Result<BundleRef, HttpError>)
    ensures
        bundle_view(r) == bundle_answer(jobs@, id@),
        !jobs@.contains_key(id@) ==> r is Err && r->Err_0.status == Status::NotFound
            && r->Err_0.message@ == "job not found"@,
        jobs@.contains_key(id@) ==> match r {
                Ok(b) => {
                    &&& jobs@[id@].state == JobState::Done
                    &&& jobs@[id@].bundle_path == Some(b.path@)
                    &&& b.format@ == (match jobs@[id@].format {
                        Some(format) => format,
                        None => "bundle"@,
                    })
                },
                Err(e) => {
                    &&& jobs@[id@].state != JobState::Done || jobs@[id@].bundle_path is None
                    &&& jobs@[id@].state == JobState::Done ==> e.status == Status::NotFound
                        && e.message@ == "no bundle path"@
                    &&& jobs@[id@].state == JobState::Running ==> e.status
                        == Status::PreconditionFailed && e.message@ == "job state="@ + "running"@
                        + ", not done"@
                    &&& jobs@[id@].state == JobState::Error ==> e.status
                        == Status::PreconditionFailed && e.message@ == "job state="@ + "error"@
                        + ", not done"@
                },
            },
{
    match jobs.get(id) {
        Some(job) => job.result(),
        None => Err(HttpError { status: Status::NotFound, message: "job not found".to_owned() }),
    }
}

/// A record says what each of its fields holds.
pub proof fn law_job_record_is_its_fields(job: JobStatus)
    ensures
        job@.id == job.id@,
        job@.state == job.state,
        job@.started_ms == job.started_ms,
        job@.elapsed_ms == job.elapsed_ms,
        job@.paths.len() == job.paths@.len(),
        forall|i: int| 0 <= i < job.paths@.len() ==> #[trigger] job@.paths[i] == job.paths@[i]@,
        job@.bundle_path is Some <==> job.bundle_path is Some,
        job.bundle_path matches Some(path) ==> job@.bundle_path == Some(path@),
        job@.bundle_size == job.bundle_size,
        job@.password is Some <==> job.password is Some,
        job.password matches Some(password) ==> job@.password == Some(password@),
        job@.format is Some <==> job.format is Some,
        job.format matches Some(format) ==> job@.format == Some(format@),
        job@.error is Some <==> job.error is Some,
        job.error matches Some(error) ==> job@.error == Some(error@),
{
}

/// In a consistent table each job stands under its own id; one that runs has no
/// outcome yet, a finished one has a place, a password and a format, and a failed
/// one has an error.
pub proof fn law_consistent_records_fit_their_state(jobs: Jobs, id: Seq<char>)
    requires
        consistent(jobs),
        jobs.contains_key(id),
    ensures
        jobs[id].id == id,
        jobs[id].state == JobState::Running ==> jobs[id].elapsed_ms == 0 && jobs[id].bundle_path
            is None && jobs[id].bundle_size == 0 && jobs[id].password is None && jobs[id].format
            is None && jobs[id].error is None,
        jobs[id].state == JobState::Done ==> jobs[id].bundle_path is Some && jobs[id].password
            is Some && jobs[id].format is Some,
        jobs[id].state == JobState::Error ==> jobs[id].error is Some,
{
    assert(jobs[id].coherent());
}

} // verus!
