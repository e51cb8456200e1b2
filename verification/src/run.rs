//! One run of the engine for a job: what is asked of the engine, what is made of
//! its reply, and how the job's record follows.

use crate::frame::{body, framed, header, law_frames_open_with_the_prefix, split_frame};
use crate::jobs::{with_failure, with_result, JobState, JobTable, JobView};
use crate::json::{
    header_format, header_password, read_header, request, request_bytes, text_member_of,
};
use crate::text::{joined, lossy_text, texts, utf8_lossy};
use vstd::prelude::*;
use vstd::string::*;
use vstd::utf8::*;

verus! {

/// The request to put to the engine for a job, or nothing where the engine is
/// gone, which fails the job.
pub fn begin_run(
    jobs: &mut JobTable,
    job_id: &str,
    paths: &Vec<String>,
    engine_loaded: bool,
) -> (r: Option<Vec<u8>>)
    ensures
        engine_loaded ==> final(jobs)@ == old(jobs)@ && (r matches Some(bytes) && bytes@
            == encode_utf8(request(texts(paths@)))),
        !engine_loaded ==> r is None && final(jobs)@ == with_failure(
            old(jobs)@,
            job_id@,
            None,
            "engine vanished mid-job"@,
        ),
        !engine_loaded && !old(jobs)@.contains_key(job_id@) ==> final(jobs)@ == old(jobs)@,
        !engine_loaded && old(jobs)@.contains_key(job_id@) ==> final(jobs)@ == old(jobs)@.insert(
            job_id@,
            (JobView {
                state: JobState::Error,
                error: Some("engine vanished mid-job"@),
                ..old(jobs)@[job_id@]
            }),
        ),
        old(jobs).wf() ==> final(jobs).wf(),
{
    if engine_loaded {
        Some(request_bytes(paths))
    } else {
        jobs.fail(job_id, None, "engine vanished mid-job".to_owned());
        None
    }
}

/// Whether what the engine returned is no output: a null pointer, or no bytes.
pub fn returned_nothing(null: bool, length: usize) -> (r: bool)
    ensures
        r == (null || length == 0),
{
    null || length == 0
}

/// What came back from the engine.
pub enum EngineReply {
    /// No output, but the bytes of its last error, if it has one.
    Nothing(Option<Vec<u8>>),
    /// Its output.
    Output(Vec<u8>),
}

/// What an engine without output says of it.
pub open spec fn engine_complaint(last_error: Option<Vec<u8>>) -> Seq<char> {
    match last_error {
        Some(bytes) => utf8_lossy(bytes@),
        None => "unknown"@,
    }
}

/// What an engine without output says of it.
pub fn complaint_text(last_error: &Option<Vec<u8>>) -> (r: String)
    ensures
        r@ == engine_complaint(*last_error),
        last_error matches Some(bytes) ==> r@ == utf8_lossy(bytes@),
        last_error is None ==> r@ == "unknown"@,
        last_error matches Some(bytes) ==> valid_utf8(bytes@) ==> r@ == decode_utf8(bytes@),
{
    match last_error {
        Some(bytes) => lossy_text(bytes.as_slice()),
        None => "unknown".to_owned(),
    }
}

/// A result of the engine, ready to be written.
pub struct RunOutput {
    pub password: String,
    pub format: String,
    pub body: Vec<u8>,
}

/// The error that a reply stands for, if it is none that a job can go on with.
pub open spec fn reply_error(reply: EngineReply) -> Option<Seq<char>> {
    match reply {
        EngineReply::Nothing(last_error) => Some("rp_run: "@ + engine_complaint(last_error)),
        EngineReply::Output(bytes) => if framed(bytes@) {
            None
        } else {
            Some("rp_run returned bytes without HDR prefix"@)
        },
    }
}

/// Takes the engine's reply: the result to be written, or nothing, which fails
/// the job.
pub fn receive_reply(
    jobs: &mut JobTable,
    job_id: &str,
    reply: &EngineReply,
    elapsed_ms: u128,
) -> (r: Option<RunOutput>)
    ensures
        match reply_error(*reply) {
            Some(error) => r is None && final(jobs)@ == with_failure(
                old(jobs)@,
                job_id@,
                Some(elapsed_ms),
                error,
            ),
            None => {
                &&& final(jobs)@ == old(jobs)@
                &&& reply matches EngineReply::Output(bytes)
                &&& r matches Some(output)
                &&& output.password@ == header_password(header(bytes@))
                &&& output.format@ == header_format(header(bytes@))
                &&& output.body@ == body(bytes@)
                &&& !valid_utf8(header(bytes@)) ==> output.password@ == ""@ && output.format@
                    == "bundle"@
            },
        },
        r is Some <==> (reply matches EngineReply::Output(bytes) && bytes@.len() >= 3 && bytes@[0]
            == 72 && bytes@[1] == 68 && bytes@[2] == 82 && bytes@.contains(10u8)),
        r is None && old(jobs)@.contains_key(job_id@) ==> final(jobs)@ == old(jobs)@.insert(
            job_id@,
            (JobView {
                state: JobState::Error,
                elapsed_ms,
                error: Some(
                    match *reply {
                        EngineReply::Nothing(Some(bytes)) => "rp_run: "@ + utf8_lossy(bytes@),
                        EngineReply::Nothing(None) => "rp_run: "@ + "unknown"@,
                        EngineReply::Output(_) => "rp_run returned bytes without HDR prefix"@,
                    },
                ),
                ..old(jobs)@[job_id@]
            }),
        ),
        r is Some || !old(jobs)@.contains_key(job_id@) ==> final(jobs)@ == old(jobs)@,
        (r matches Some(output) ==> {
            let bytes = reply->Output_0@;
            let head = header(bytes);
            &&& bytes == seq![72u8, 68u8, 82u8] + head + seq![10u8] + output.body@
            &&& !head.contains(10u8)
            &&& valid_utf8(head) ==> output.password@ == (match text_member_of(
                decode_utf8(head),
                "password"@,
            ) {
                Some(p) => p,
                None => ""@,
            })
            &&& valid_utf8(head) ==> output.format@ == (match text_member_of(
                decode_utf8(head),
                "format"@,
            ) {
                Some(f) => f,
                None => "bundle"@,
            })
        }),
        old(jobs).wf() ==> final(jobs).wf(),
{
    match reply {
        EngineReply::Nothing(last_error) => {
            let error = joined("rp_run: ", complaint_text(last_error).as_str());
            jobs.fail(job_id, Some(elapsed_ms), error);
            None
        },
        EngineReply::Output(bytes) => match split_frame(bytes.as_slice()) {
            Some(frame) => {
                let fields = read_header(frame.header.as_slice());
                Some(
                    RunOutput {
                        password: fields.password,
                        format: fields.format,
                        body: frame.body,
                    },
                )
            },
            None => {
                jobs.fail(
                    job_id,
                    Some(elapsed_ms),
                    "rp_run returned bytes without HDR prefix".to_owned(),
                );
                None
            },
        },
    }
}

/// Records how the writing of a result went: the path it was written to, or the
/// error.
pub fn finish_run(
    jobs: &mut JobTable,
    job_id: &str,
    output: &RunOutput,
    written: &Result<String, String>,
    elapsed_ms: u128,
)
    ensures
        final(jobs)@ == (match written {
            Ok(path) => with_result(
                old(jobs)@,
                job_id@,
                elapsed_ms,
                path@,
                output.body@.len() as u64,
                output.password@,
                output.format@,
            ),
            Err(error) => with_failure(
                old(jobs)@,
                job_id@,
                Some(elapsed_ms),
                "write bundle: "@ + error@,
            ),
        }),
        !old(jobs)@.contains_key(job_id@) ==> final(jobs)@ == old(jobs)@,
        old(jobs)@.contains_key(job_id@) ==> final(jobs)@ == old(jobs)@.insert(
            job_id@,
            match written {
                Ok(path) => (JobView {
                    state: JobState::Done,
                    elapsed_ms,
                    bundle_path: Some(path@),
                    bundle_size: output.body@.len() as u64,
                    password: Some(output.password@),
                    format: Some(output.format@),
                    ..old(jobs)@[job_id@]
                }),
                Err(error) => (JobView {
                    state: JobState::Error,
                    elapsed_ms,
                    error: Some("write bundle: "@ + error@),
                    ..old(jobs)@[job_id@]
                }),
            },
        ),
        old(jobs).wf() ==> final(jobs).wf(),
{
    match written {
        Ok(path) => {
            jobs.finish(
                job_id,
                elapsed_ms,
                path.clone(),
                output.body.len() as u64,
                output.password.clone(),
                output.format.clone(),
            );
        },
        Err(error) => {
            jobs.fail(job_id, Some(elapsed_ms), joined("write bundle: ", error.as_str()));
        },
    }
}

/// A reply without output fails a job with the engine's own words, or with none
/// known; output fails it exactly where it does not open with `HDR` or holds no
/// newline.
pub proof fn law_replies_that_fail_a_job(last_error: Option<Vec<u8>>, output: Vec<u8>)
    ensures
        last_error matches Some(bytes) ==> reply_error(EngineReply::Nothing(last_error)) == Some(
            "rp_run: "@ + utf8_lossy(bytes@),
        ),
        last_error is None ==> reply_error(EngineReply::Nothing(last_error)) == Some(
            "rp_run: "@ + "unknown"@,
        ),
        reply_error(EngineReply::Output(output)) is None <==> output@.len() >= 3 && output@[0] == 72
            && output@[1] == 68 && output@[2] == 82 && output@.contains(10u8),
        reply_error(EngineReply::Output(output)) matches Some(error) ==> error
            == "rp_run returned bytes without HDR prefix"@,
{
    law_frames_open_with_the_prefix(output@);
}

} // verus!
