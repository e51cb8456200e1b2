//! What holds of jobs from their start to the reading of their results.

use crate::frame::{body, frame, framed, header, law_frame_round_trip, NEWLINE};
use crate::http::Status;
use crate::jobs::{
    accepted, bundle_answer, consistent, job_id, new_job, status_answer, unpicked_job,
    with_asked_job, with_failure, with_new_job, with_result, JobState, JobView, Jobs,
};
use crate::json::{header_format, header_password};
use crate::pick::{law_record_holds_what_was_picked, picked_in_all};
use crate::text::{decimal, law_decimal_round_trip};
use vstd::prelude::*;

verus! {

/// Jobs that are started at different points in time have different ids.
pub proof fn law_different_times_give_different_ids(a: u128, b: u128)
    requires
        a != b,
    ensures
        job_id(a) != job_id(b),
{
    law_decimal_round_trip(a as nat);
    law_decimal_round_trip(b as nat);
    if job_id(a) == job_id(b) {
        let n = "job_"@.len() as int;
        assert(job_id(a).skip(n) =~= decimal(a as nat));
        assert(job_id(b).skip(n) =~= decimal(b as nat));
    }
}

/// A job that is started while an engine is there can be followed at once: it
/// runs, it is for the given files, and it has taken the time since its start.
pub proof fn law_started_job_is_shown(
    jobs: Jobs,
    id_ms: u128,
    now_ms: u128,
    paths: Seq<Seq<char>>,
    later_ms: u128,
)
    requires
        now_ms <= later_ms,
    ensures
        status_answer(with_new_job(jobs, id_ms, now_ms, true, paths), job_id(id_ms), later_ms)
            matches Ok(job) && job.id == job_id(id_ms) && job.state == JobState::Running
            && job.paths == paths && job.started_ms == now_ms && job.elapsed_ms == later_ms
            - now_ms,
{
}

/// A job that is accepted can be followed at once: it runs, it is for the files
/// that were asked for, and it has taken the time since its start.
pub proof fn law_accepted_job_is_shown(
    jobs: Jobs,
    picked: Seq<Seq<char>>,
    id_ms: u128,
    now_ms: u128,
    engine_loaded: bool,
    paths: Seq<Seq<char>>,
    later_ms: u128,
)
    requires
        accepted(engine_loaded, paths, picked),
        now_ms <= later_ms,
    ensures
        status_answer(
            with_asked_job(jobs, picked, id_ms, now_ms, engine_loaded, paths),
            job_id(id_ms),
            later_ms,
        ) matches Ok(job) && job.id == job_id(id_ms) && job.state == JobState::Running
            && job.paths == paths && job.started_ms == now_ms && job.elapsed_ms == later_ms
            - now_ms,
{
}

/// A job that is asked for leaves every job with another id as it was, whether it
/// is accepted or refused.
pub proof fn law_an_asked_job_leaves_other_jobs_alone(
    jobs: Jobs,
    picked: Seq<Seq<char>>,
    id_ms: u128,
    now_ms: u128,
    engine_loaded: bool,
    paths: Seq<Seq<char>>,
    other: Seq<char>,
)
    requires
        other != job_id(id_ms),
    ensures
        with_asked_job(jobs, picked, id_ms, now_ms, engine_loaded, paths).contains_key(other)
            == jobs.contains_key(other),
        with_asked_job(jobs, picked, id_ms, now_ms, engine_loaded, paths)[other] == jobs[other],
{
}

/// A job is accepted only for files that the user picked, each at one time or
/// another in the session. So a file that was never picked is named in no request
/// to the engine: the job that asks for it is refused.
pub proof fn law_only_picked_files_are_imported(
    picks: Seq<Seq<Seq<char>>>,
    engine_loaded: bool,
    paths: Seq<Seq<char>>,
    i: int,
)
    requires
        0 <= i < paths.len(),
        accepted(engine_loaded, paths, picked_in_all(picks)),
    ensures
        exists|k: int| 0 <= k < picks.len() && (#[trigger] picks[k]).contains(paths[i]),
{
    assert(picked_in_all(picks).contains(paths[i]));
    law_record_holds_what_was_picked(picks, paths[i]);
}

/// A job that asks for a file that was never picked is recorded as failed,
/// whether or not there is an engine, and there is no result to be had of it.
pub proof fn law_unpicked_file_is_refused(
    jobs: Jobs,
    picked: Seq<Seq<char>>,
    id_ms: u128,
    now_ms: u128,
    engine_loaded: bool,
    paths: Seq<Seq<char>>,
    i: int,
    later_ms: u128,
)
    requires
        0 <= i < paths.len(),
        !picked.contains(paths[i]),
    ensures
        ({
            let after = with_asked_job(jobs, picked, id_ms, now_ms, engine_loaded, paths);
            &&& !accepted(engine_loaded, paths, picked)
            &&& status_answer(after, job_id(id_ms), later_ms) == Ok::<JobView, Status>(
                if engine_loaded {
                    unpicked_job(id_ms, now_ms, paths)
                } else {
                    new_job(id_ms, now_ms, false, paths)
                },
            )
            &&& bundle_answer(after, job_id(id_ms)) matches Err((status, _)) && status
                == Status::PreconditionFailed
        }),
{
}

/// A job that is started without an engine is recorded as failed: its status says
/// so at any time, and there is no result to be had of it.
pub proof fn law_refused_job_is_shown(
    jobs: Jobs,
    id_ms: u128,
    now_ms: u128,
    paths: Seq<Seq<char>>,
    later_ms: u128,
)
    ensures
        ({
            let after = with_new_job(jobs, id_ms, now_ms, false, paths);
            &&& status_answer(after, job_id(id_ms), later_ms) == Ok::<JobView, Status>(
                new_job(id_ms, now_ms, false, paths),
            )
            &&& new_job(id_ms, now_ms, false, paths).state == JobState::Error
            &&& new_job(id_ms, now_ms, false, paths).error is Some
            &&& bundle_answer(after, job_id(id_ms)) matches Err((status, _)) && status
                == Status::PreconditionFailed
        }),
{
}

/// A result that was written for a job can be had: its place and its format are
/// those that were recorded, and the job's status is that of a finished one with
/// its password and size.
pub proof fn law_written_result_is_found(
    jobs: Jobs,
    id: Seq<char>,
    elapsed_ms: u128,
    path: Seq<char>,
    size: u64,
    password: Seq<char>,
    format: Seq<char>,
    later_ms: u128,
)
    requires
        jobs.contains_key(id),
    ensures
        ({
            let after = with_result(jobs, id, elapsed_ms, path, size, password, format);
            &&& bundle_answer(after, id) matches Ok(bundle) && bundle == (path, format)
            &&& status_answer(after, id, later_ms) matches Ok(job) && job.state == JobState::Done
                && job.elapsed_ms == elapsed_ms && job.bundle_path == Some(path) && job.bundle_size
                == size && job.password == Some(password) && job.format == Some(format)
        }),
{
}

/// What the engine puts into a frame is what callers get: once the body of the
/// engine's output was written for a job, the job names that body's size and the
/// password and the format of the frame's header.
pub proof fn law_engine_output_becomes_the_result(
    jobs: Jobs,
    id: Seq<char>,
    head: Seq<u8>,
    rest: Seq<u8>,
    elapsed_ms: u128,
    path: Seq<char>,
    later_ms: u128,
)
    requires
        jobs.contains_key(id),
        !head.contains(NEWLINE),
    ensures
        ({
            let bytes = frame(head, rest);
            let after = with_result(
                jobs,
                id,
                elapsed_ms,
                path,
                body(bytes).len() as u64,
                header_password(header(bytes)),
                header_format(header(bytes)),
            );
            &&& framed(bytes)
            &&& body(bytes) == rest
            &&& bundle_answer(after, id) matches Ok(bundle) && bundle == (
                path,
                header_format(head),
            )
            &&& status_answer(after, id, later_ms) matches Ok(job) && job.state == JobState::Done
                && job.bundle_size == rest.len() as u64 && job.password == Some(
                header_password(head),
            ) && job.format == Some(header_format(head))
        }),
{
    law_frame_round_trip(head, rest);
}

/// A failure of a job is shown with its error, and there is no result to be had
/// of the job then.
pub proof fn law_failure_is_shown(
    jobs: Jobs,
    id: Seq<char>,
    elapsed_ms: Option<u128>,
    error: Seq<char>,
    later_ms: u128,
)
    requires
        jobs.contains_key(id),
    ensures
        ({
            let after = with_failure(jobs, id, elapsed_ms, error);
            &&& status_answer(after, id, later_ms) matches Ok(job) && job.state == JobState::Error
                && job.error == Some(error)
            &&& bundle_answer(after, id) matches Err((status, _)) && status
                == Status::PreconditionFailed
        }),
{
}

/// A run of the engine adds no job and removes none, and leaves every other job
/// as it was.
pub proof fn law_a_run_leaves_other_jobs_alone(
    jobs: Jobs,
    id: Seq<char>,
    failed_ms: Option<u128>,
    error: Seq<char>,
    elapsed_ms: u128,
    path: Seq<char>,
    size: u64,
    password: Seq<char>,
    format: Seq<char>,
    other: Seq<char>,
)
    ensures
        with_failure(jobs, id, failed_ms, error).dom() == jobs.dom(),
        with_result(jobs, id, elapsed_ms, path, size, password, format).dom() == jobs.dom(),
        other != id ==> with_failure(jobs, id, failed_ms, error)[other] == jobs[other],
        other != id ==> with_result(jobs, id, elapsed_ms, path, size, password, format)[other]
            == jobs[other],
{
    assert(with_failure(jobs, id, failed_ms, error).dom() =~= jobs.dom());
    assert(with_result(jobs, id, elapsed_ms, path, size, password, format).dom() =~= jobs.dom());
}

/// A run of the engine never changes which job it is, for which files it is, and
/// when it was started.
pub proof fn law_a_run_keeps_what_was_asked(
    job: JobView,
    failed_ms: Option<u128>,
    error: Seq<char>,
    elapsed_ms: u128,
    path: Seq<char>,
    size: u64,
    password: Seq<char>,
    format: Seq<char>,
)
    ensures
        ({
            let failed = job.failed(failed_ms, error);
            let finished = job.finished(elapsed_ms, path, size, password, format);
            &&& failed.id == job.id && failed.paths == job.paths && failed.started_ms
                == job.started_ms
            &&& finished.id == job.id && finished.paths == job.paths && finished.started_ms
                == job.started_ms
        }),
{
}

/// A new job leaves every job with another id as it was.
pub proof fn law_a_new_job_leaves_other_jobs_alone(
    jobs: Jobs,
    id_ms: u128,
    now_ms: u128,
    engine_loaded: bool,
    paths: Seq<Seq<char>>,
    other: Seq<char>,
)
    requires
        other != job_id(id_ms),
    ensures
        with_new_job(jobs, id_ms, now_ms, engine_loaded, paths).contains_key(other)
            == jobs.contains_key(other),
        with_new_job(jobs, id_ms, now_ms, engine_loaded, paths)[other] == jobs[other],
{
}

/// A result is to be had of a finished job and of no other. In the helper's own
/// tables every finished job has one, with the place and the format that its
/// record names.
pub proof fn law_results_are_those_of_finished_jobs(jobs: Jobs, id: Seq<char>)
    requires
        consistent(jobs),
    ensures
        bundle_answer(jobs, id) is Ok <==> jobs.contains_key(id) && jobs[id].state
            == JobState::Done,
        bundle_answer(jobs, id) matches Ok(bundle) ==> jobs[id].bundle_path == Some(bundle.0)
            && jobs[id].format == Some(bundle.1),
{
    if jobs.contains_key(id) {
        assert(jobs[id].coherent());
    }
}

/// Of a job that is not known, neither the status nor a result is to be had.
pub proof fn law_unknown_job_is_not_found(jobs: Jobs, id: Seq<char>, now_ms: u128)
    requires
        !jobs.contains_key(id),
    ensures
        status_answer(jobs, id, now_ms) == Err::<JobView, Status>(Status::NotFound),
        bundle_answer(jobs, id) == Err::<(Seq<char>, Seq<char>), (Status, Seq<char>)>(
            (Status::NotFound, "job not found"@),
        ),
{
}

/// The status of a job that no longer runs stays the same as time goes on.
pub proof fn law_ended_job_stands_still(jobs: Jobs, id: Seq<char>, a: u128, b: u128)
    requires
        jobs.contains_key(id),
        jobs[id].state != JobState::Running,
    ensures
        status_answer(jobs, id, a) == status_answer(jobs, id, b),
        status_answer(jobs, id, a) == Ok::<JobView, Status>(jobs[id]),
{
}

/// A job that is asked for is recorded under the id of its time, with its start
/// and its files: it runs if there is an engine and each of the files was picked,
/// and has failed otherwise, with the reason.
pub proof fn law_asked_job_is_recorded(
    jobs: Jobs,
    picked: Seq<Seq<char>>,
    id_ms: u128,
    now_ms: u128,
    engine_loaded: bool,
    paths: Seq<Seq<char>>,
)
    ensures
        accepted(engine_loaded, paths, picked) <==> engine_loaded && forall|i: int|
            0 <= i < paths.len() ==> picked.contains(#[trigger] paths[i]),
        ({
            let id = "job_"@ + decimal(id_ms as nat);
            let after = with_asked_job(jobs, picked, id_ms, now_ms, engine_loaded, paths);
            let job = after[id];
            &&& after.dom() == jobs.dom().insert(id)
            &&& job.id == id && job.started_ms == now_ms && job.paths == paths && job.elapsed_ms
                == 0
            &&& job.bundle_path is None && job.bundle_size == 0 && job.password is None
                && job.format is None
            &&& accepted(engine_loaded, paths, picked) ==> job.state == JobState::Running
                && job.error is None
            &&& !accepted(engine_loaded, paths, picked) ==> job.state == JobState::Error
            &&& !engine_loaded ==> job.error == Some("engine not loaded — POST /init first"@)
            &&& engine_loaded && !accepted(engine_loaded, paths, picked) ==> job.error == Some(
                "file not picked — POST /pick first"@,
            )
        }),
{
    assert(with_asked_job(jobs, picked, id_ms, now_ms, engine_loaded, paths).dom()
        =~= jobs.dom().insert("job_"@ + decimal(id_ms as nat)));
}

/// A failure changes the state, the error and, where it is given, the elapsed
/// time of a job that is known, and nothing else.
pub proof fn law_failure_changes_only_the_outcome(
    jobs: Jobs,
    id: Seq<char>,
    elapsed_ms: Option<u128>,
    error: Seq<char>,
)
    ensures
        !jobs.contains_key(id) ==> with_failure(jobs, id, elapsed_ms, error) == jobs,
        jobs.contains_key(id) ==> {
            let job = with_failure(jobs, id, elapsed_ms, error)[id];
            &&& job.state == JobState::Error && job.error == Some(error)
            &&& elapsed_ms is Some ==> job.elapsed_ms == elapsed_ms->0
            &&& elapsed_ms is None ==> job.elapsed_ms == jobs[id].elapsed_ms
            &&& job.id == jobs[id].id && job.started_ms == jobs[id].started_ms && job.paths
                == jobs[id].paths
            &&& job.bundle_path == jobs[id].bundle_path && job.bundle_size == jobs[id].bundle_size
            &&& job.password == jobs[id].password && job.format == jobs[id].format
        },
{
}

/// A result changes the state, the elapsed time, and what there is to know of the
/// result of a job that is known, and nothing else.
pub proof fn law_result_changes_only_the_outcome(
    jobs: Jobs,
    id: Seq<char>,
    elapsed_ms: u128,
    path: Seq<char>,
    size: u64,
    password: Seq<char>,
    format: Seq<char>,
)
    ensures
        !jobs.contains_key(id) ==> with_result(
            jobs,
            id,
            elapsed_ms,
            path,
            size,
            password,
            format,
        ) == jobs,
        jobs.contains_key(id) ==> {
            let job = with_result(jobs, id, elapsed_ms, path, size, password, format)[id];
            &&& job.state == JobState::Done && job.elapsed_ms == elapsed_ms
            &&& job.bundle_path == Some(path) && job.bundle_size == size
            &&& job.password == Some(password) && job.format == Some(format)
            &&& job.id == jobs[id].id && job.started_ms == jobs[id].started_ms && job.paths
                == jobs[id].paths && job.error == jobs[id].error
        },
{
}

/// The status of a known job is its record, in which a running job has the time
/// since its start; its result is answered by its state, and from its record.
pub proof fn law_answers_come_from_the_record(jobs: Jobs, id: Seq<char>, now_ms: u128)
    requires
        jobs.contains_key(id),
        jobs[id].state == JobState::Running ==> jobs[id].started_ms <= now_ms,
    ensures
        status_answer(jobs, id, now_ms) is Ok,
        ({
            let job = status_answer(jobs, id, now_ms)->Ok_0;
            &&& jobs[id].state == JobState::Running ==> job.elapsed_ms == now_ms
                - jobs[id].started_ms && job == (JobView {
                elapsed_ms: job.elapsed_ms,
                ..jobs[id]
            })
            &&& jobs[id].state != JobState::Running ==> job == jobs[id]
        }),
        jobs[id].state == JobState::Running ==> bundle_answer(jobs, id) == Err::<
            (Seq<char>, Seq<char>),
            (Status, Seq<char>),
        >((Status::PreconditionFailed, "job state="@ + "running"@ + ", not done"@)),
        jobs[id].state == JobState::Error ==> bundle_answer(jobs, id) == Err::<
            (Seq<char>, Seq<char>),
            (Status, Seq<char>),
        >((Status::PreconditionFailed, "job state="@ + "error"@ + ", not done"@)),
        jobs[id].state == JobState::Done && jobs[id].bundle_path is None ==> bundle_answer(
            jobs,
            id,
        ) == Err::<(Seq<char>, Seq<char>), (Status, Seq<char>)>(
            (Status::NotFound, "no bundle path"@),
        ),
        jobs[id].state == JobState::Done && jobs[id].bundle_path is Some ==> bundle_answer(
            jobs,
            id,
        ) is Ok && bundle_answer(jobs, id)->Ok_0.0 == jobs[id].bundle_path->0,
        jobs[id].state == JobState::Done && jobs[id].bundle_path is Some && jobs[id].format
            is Some ==> bundle_answer(jobs, id)->Ok_0.1 == jobs[id].format->0,
        jobs[id].state == JobState::Done && jobs[id].bundle_path is Some && jobs[id].format
            is None ==> bundle_answer(jobs, id)->Ok_0.1 == "bundle"@,
{
}

} // verus!
