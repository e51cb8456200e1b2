use rp_helper::clock::{
    chrono_ish_now_millis, millis_or_zero, reading_millis, whole_millis, MAX_MILLIS,
};
use rp_helper::engine::{advance, check_engine_size, engine_file_name, LoadStep, Symbol};
use rp_helper::fingerprint::fingerprint;
use rp_helper::http::{HttpError, Status};
use rp_helper::jobs::{
    get_bundle, get_status, start_picked, start_process, JobState, JobStatus, JobTable,
};
use rp_helper::pick::{
    is_white, only_picked, pick_failed, pick_files, picked_paths, DialogOutput, PickedFiles,
};
use rp_helper::run::{
    begin_run, complaint_text, finish_run, receive_reply, returned_nothing, EngineReply,
};
use rp_helper::slot::{healthz, init_engine, EngineInfo, EngineSlot, OpenedEngine};

fn strings(list: &[&str]) -> Vec<String> {
    list.iter().map(|s| s.to_string()).collect()
}

/// A table with one running job, started at 100.
fn one_job() -> (JobTable, String) {
    let mut jobs = JobTable::new();
    let (status, response) = start_process(&mut jobs, 99, 100, true, &strings(&["/a.csv"]));
    assert_eq!(status, Status::Accepted);
    (jobs, response.job_id)
}

#[test]
fn clock_reads_the_time_of_day() {
    let before = std::time::SystemTime::now()
        .duration_since(std::time::UNIX_EPOCH)
        .unwrap()
        .as_millis();
    let now = chrono_ish_now_millis();
    let after = std::time::SystemTime::now()
        .duration_since(std::time::UNIX_EPOCH)
        .unwrap()
        .as_millis();
    assert!(before <= now && now <= after);
    assert!(now <= MAX_MILLIS);
    assert_eq!(std::time::Duration::MAX.as_millis(), MAX_MILLIS);
}

#[test]
fn clock_before_the_epoch_counts_as_zero() {
    assert_eq!(millis_or_zero(None), 0);
    assert_eq!(millis_or_zero(Some(17)), 17);
}

#[test]
fn readings_are_rounded_down_to_milliseconds() {
    assert_eq!(whole_millis(0, 999_999), 0);
    assert_eq!(whole_millis(1, 1_999_999), 1001);
    assert_eq!(whole_millis(u64::MAX, 999_999_999), MAX_MILLIS);
    assert_eq!(reading_millis(Some((1700000000, 123_456_789))), 1700000000123);
    assert_eq!(reading_millis(None), 0);
    for (secs, nanos) in [(0, 0), (5, 999_999_999), (u64::MAX, 1), (17, 1_000_000)] {
        let span = std::time::Duration::new(secs, nanos);
        assert_eq!(whole_millis(secs, nanos), span.as_millis());
    }
}

#[test]
fn later_readings_show_no_less() {
    assert!(reading_millis(None) <= reading_millis(Some((0, 0))));
    assert!(reading_millis(Some((1, 999_999_999))) < reading_millis(Some((2, 999_999))));
    assert_eq!(reading_millis(Some((1, 0))), reading_millis(Some((1, 999_999))));
    assert!(reading_millis(Some((1, 999_999))) < reading_millis(Some((1, 1_999_999))));
}

#[test]
fn started_job_runs_and_is_shown() {
    let mut jobs = JobTable::new();
    let paths = strings(&["/a.csv", "/b.csv"]);
    let (status, response) = start_process(&mut jobs, 1700000000123, 1700000000124, true, &paths);
    assert_eq!(status, Status::Accepted);
    assert_eq!(response.job_id, "job_1700000000123");
    assert_eq!(response.state, JobState::Running);
    assert_eq!(response.state.text(), "running");

    let job = get_status(&jobs, "job_1700000000123", 1700000000200).unwrap();
    assert_eq!(job.id, "job_1700000000123");
    assert_eq!(job.state, JobState::Running);
    assert_eq!(job.started_ms, 1700000000124);
    assert_eq!(job.elapsed_ms, 76);
    assert_eq!(job.paths, paths);
    assert_eq!(job.bundle_path, None);
    assert_eq!(job.bundle_size, 0);
    assert_eq!(job.password, None);
    assert_eq!(job.format, None);
    assert_eq!(job.error, None);
    assert_eq!(jobs.get("job_1700000000123").unwrap().elapsed_ms, 0);
}

#[test]
fn job_without_an_engine_is_refused_and_recorded() {
    let mut jobs = JobTable::new();
    let (status, response) = start_process(&mut jobs, 5, 6, false, &strings(&["/a.csv"]));
    assert_eq!(status, Status::PreconditionFailed);
    assert_eq!(response.job_id, "job_5");
    assert_eq!(response.state, JobState::Error);
    let job = get_status(&jobs, "job_5", 1000).unwrap();
    assert_eq!(job.state, JobState::Error);
    assert_eq!(job.elapsed_ms, 0);
    assert_eq!(job.started_ms, 6);
    assert_eq!(job.paths, strings(&["/a.csv"]));
    assert_eq!(job.error.as_deref(), Some("engine not loaded \u{2014} POST /init first"));
    let refusal = get_bundle(&jobs, "job_5").unwrap_err();
    assert_eq!(refusal.status, Status::PreconditionFailed);
    assert_eq!(refusal.message, "job state=error, not done");
}

#[test]
fn unknown_jobs_are_not_found() {
    let (jobs, _) = one_job();
    assert_eq!(get_status(&jobs, "job_1", 500).unwrap_err(), Status::NotFound);
    let refusal = get_bundle(&jobs, "job_1").unwrap_err();
    assert_eq!(refusal.status, Status::NotFound);
    assert_eq!(refusal.message, "job not found");
    assert!(jobs.get("").is_none());
}

#[test]
fn running_job_has_no_result() {
    let (jobs, id) = one_job();
    let refusal = get_bundle(&jobs, &id).unwrap_err();
    assert_eq!(refusal.status, Status::PreconditionFailed);
    assert_eq!(refusal.message, "job state=running, not done");
}

#[test]
fn record_of_a_finished_job_without_a_place() {
    let (jobs, id) = one_job();
    let mut job: JobStatus = jobs.get(&id).unwrap().clone();
    job.state = JobState::Done;
    let refusal = job.result().unwrap_err();
    assert_eq!(refusal.status, Status::NotFound);
    assert_eq!(refusal.message, "no bundle path");
    job.bundle_path = Some("/tmp/x".to_string());
    let bundle = job.result().unwrap();
    assert_eq!(bundle.path, "/tmp/x");
    assert_eq!(bundle.format, "bundle");
}

#[test]
fn same_id_replaces_the_earlier_job() {
    let (mut jobs, id) = one_job();
    start_process(&mut jobs, 99, 300, true, &strings(&["/z.csv"]));
    let job = get_status(&jobs, &id, 310).unwrap();
    assert_eq!(job.paths, strings(&["/z.csv"]));
    assert_eq!(job.elapsed_ms, 10);
}

#[test]
fn different_times_give_different_ids() {
    let mut jobs = JobTable::new();
    let (_, a) = start_process(&mut jobs, 1, 1, true, &strings(&["/a"]));
    let (_, b) = start_process(&mut jobs, 10, 10, true, &strings(&["/b"]));
    assert_ne!(a.job_id, b.job_id);
    assert_eq!(jobs.get(&a.job_id).unwrap().paths, strings(&["/a"]));
    assert_eq!(jobs.get(&b.job_id).unwrap().paths, strings(&["/b"]));
}

#[test]
fn whole_run_from_request_to_result() {
    let (mut jobs, id) = one_job();
    start_process(&mut jobs, 200, 200, true, &strings(&["/other.csv"]));
    let request = begin_run(&mut jobs, &id, &strings(&["/a.csv"]), true).unwrap();
    assert_eq!(
        String::from_utf8(request).unwrap(),
        r#"{"encrypt":false,"password":"","paths":["/a.csv"],"row_limit":0}"#
    );
    let reply = EngineReply::Output(b"HDR{\"format\":\"json\",\"password\":\"pw\"}\n[]\n".to_vec());
    let output = receive_reply(&mut jobs, &id, &reply, 40).unwrap();
    assert_eq!(output.password, "pw");
    assert_eq!(output.format, "json");
    assert_eq!(output.body, b"[]\n".to_vec());
    assert_eq!(jobs.get(&id).unwrap().state, JobState::Running);

    finish_run(&mut jobs, &id, &output, &Ok("/tmp/r.json".to_string()), 55);
    let job = get_status(&jobs, &id, 9999).unwrap();
    assert_eq!(job.state, JobState::Done);
    assert_eq!(job.state.text(), "done");
    assert_eq!(job.elapsed_ms, 55);
    assert_eq!(job.started_ms, 100);
    assert_eq!(job.paths, strings(&["/a.csv"]));
    assert_eq!(job.bundle_path.as_deref(), Some("/tmp/r.json"));
    assert_eq!(job.bundle_size, 3);
    assert_eq!(job.password.as_deref(), Some("pw"));
    assert_eq!(job.format.as_deref(), Some("json"));
    assert_eq!(job.error, None);
    let bundle = get_bundle(&jobs, &id).unwrap();
    assert_eq!(bundle.path, "/tmp/r.json");
    assert_eq!(bundle.format, "json");

    let other = jobs.get("job_200").unwrap();
    assert_eq!(other.state, JobState::Running);
    assert_eq!(other.paths, strings(&["/other.csv"]));
}

#[test]
fn ended_job_stands_still() {
    let (mut jobs, id) = one_job();
    assert!(receive_reply(&mut jobs, &id, &EngineReply::Nothing(None), 30).is_none());
    let early = get_status(&jobs, &id, 0).unwrap();
    let late = get_status(&jobs, &id, 5000).unwrap();
    assert_eq!(early.elapsed_ms, 30);
    assert_eq!(late.elapsed_ms, 30);
    assert_eq!(early.error, late.error);
}

#[test]
fn engine_that_vanished_fails_the_job() {
    let (mut jobs, id) = one_job();
    assert!(begin_run(&mut jobs, &id, &strings(&["/a.csv"]), false).is_none());
    let job = jobs.get(&id).unwrap();
    assert_eq!(job.state, JobState::Error);
    assert_eq!(job.elapsed_ms, 0);
    assert_eq!(job.error.as_deref(), Some("engine vanished mid-job"));
}

#[test]
fn engine_without_output_fails_the_job() {
    let (mut jobs, id) = one_job();
    let reply = EngineReply::Nothing(Some(b"bad csv \xff".to_vec()));
    assert!(receive_reply(&mut jobs, &id, &reply, 12).is_none());
    let job = jobs.get(&id).unwrap();
    assert_eq!(job.state, JobState::Error);
    assert_eq!(job.elapsed_ms, 12);
    assert_eq!(job.error.as_deref(), Some("rp_run: bad csv \u{fffd}"));

    let (mut jobs, id) = one_job();
    assert!(receive_reply(&mut jobs, &id, &EngineReply::Nothing(None), 13).is_none());
    assert_eq!(jobs.get(&id).unwrap().error.as_deref(), Some("rp_run: unknown"));
    assert_eq!(complaint_text(&None), "unknown");
    assert_eq!(complaint_text(&Some(b"x".to_vec())), "x");
}

#[test]
fn output_without_a_frame_fails_the_job() {
    let (mut jobs, id) = one_job();
    let reply = EngineReply::Output(b"garbage\n".to_vec());
    assert!(receive_reply(&mut jobs, &id, &reply, 14).is_none());
    let job = jobs.get(&id).unwrap();
    assert_eq!(job.state, JobState::Error);
    assert_eq!(job.elapsed_ms, 14);
    assert_eq!(
        job.error.as_deref(),
        Some("rp_run returned bytes without HDR prefix")
    );
}

#[test]
fn result_that_cannot_be_written_fails_the_job() {
    let (mut jobs, id) = one_job();
    let reply = EngineReply::Output(b"HDR{}\nx".to_vec());
    let output = receive_reply(&mut jobs, &id, &reply, 1).unwrap();
    assert_eq!(output.password, "");
    assert_eq!(output.format, "bundle");
    finish_run(&mut jobs, &id, &output, &Err("disk full".to_string()), 15);
    let job = jobs.get(&id).unwrap();
    assert_eq!(job.state, JobState::Error);
    assert_eq!(job.elapsed_ms, 15);
    assert_eq!(job.error.as_deref(), Some("write bundle: disk full"));
    assert_eq!(job.bundle_path, None);
}

#[test]
fn run_of_an_unknown_job_changes_nothing() {
    let (mut jobs, id) = one_job();
    assert!(begin_run(&mut jobs, "job_7", &Vec::new(), false).is_none());
    assert!(receive_reply(&mut jobs, "job_7", &EngineReply::Nothing(None), 1).is_none());
    assert!(jobs.get("job_7").is_none());
    assert_eq!(jobs.get(&id).unwrap().state, JobState::Running);
}

#[test]
fn no_output_is_null_or_empty() {
    assert!(returned_nothing(true, 5));
    assert!(returned_nothing(false, 0));
    assert!(returned_nothing(true, 0));
    assert!(!returned_nothing(false, 1));
}

fn opened(version: &str, loaded_at_ms: u128) -> Result<OpenedEngine, HttpError> {
    Ok(OpenedEngine {
        version: version.to_string(),
        dylib_path: "/tmp/e".to_string(),
        loaded_at_ms,
    })
}

fn refused() -> Result<OpenedEngine, HttpError> {
    Err(advance(LoadStep::OpenLibrary, &Err("boom".to_string()), "/tmp/e").unwrap_err().reply)
}

#[test]
fn health_without_an_engine() {
    let slot = EngineSlot::new();
    assert!(!slot.is_loaded());
    let health = healthz(&slot, "1.2.3");
    assert_eq!(health.status, "no_engine");
    assert_eq!(health.helper_version, "1.2.3");
    assert!(!health.engine_loaded);
    assert_eq!(health.engine_version, None);
    assert_eq!(health.engine_sha256, None);
    assert_eq!(health.engine_loaded_at_ms, None);
}

#[test]
fn health_with_an_engine() {
    let mut slot = EngineSlot::new();
    slot.install(EngineInfo {
        version: "9".to_string(),
        loaded_at_ms: 77,
        dylib_path: "/tmp/e".to_string(),
        fingerprint: "00ff".to_string(),
    });
    assert!(slot.is_loaded());
    let health = healthz(&slot, "1.2.3");
    assert_eq!(health.status, "ok");
    assert_eq!(health.helper_version, "1.2.3");
    assert!(health.engine_loaded);
    assert_eq!(health.engine_version.as_deref(), Some("9"));
    assert_eq!(health.engine_sha256.as_deref(), Some("00ff"));
    assert_eq!(health.engine_loaded_at_ms, Some(77));
}

#[test]
fn loaded_engine_is_kept_and_answered() {
    let mut slot = EngineSlot::new();
    let body = vec![1u8; 4096];
    let response = init_engine(&mut slot, &body, false, opened("3.1", 88)).unwrap();
    assert!(response.ok);
    assert_eq!(response.engine_version, "3.1");
    assert_eq!(response.sha256, fingerprint(&body, false));
    assert_eq!(response.bytes, 4096);
    let health = healthz(&slot, "1");
    assert_eq!(health.engine_version.as_deref(), Some("3.1"));
    assert_eq!(health.engine_sha256, Some(response.sha256));
    assert_eq!(health.engine_loaded_at_ms, Some(88));
}

#[test]
fn failed_loads_leave_the_engine_in_place() {
    let mut slot = EngineSlot::new();
    let error = init_engine(&mut slot, &[1u8; 2000], false, refused()).unwrap_err();
    assert_eq!(error.status, Status::InternalServerError);
    assert_eq!(error.message, "dlopen failed: boom (path: /tmp/e)");
    assert!(!slot.is_loaded());

    init_engine(&mut slot, &[1u8; 2000], false, opened("1", 10)).unwrap();
    init_engine(&mut slot, &[2u8; 2000], false, opened("2", 20)).unwrap();
    assert!(init_engine(&mut slot, &[3u8; 2000], false, refused()).is_err());
    let error = init_engine(&mut slot, &[3u8; 999], false, opened("3", 30)).unwrap_err();
    assert_eq!(error.status, Status::BadRequest);
    assert_eq!(error.message, "init body too small: 999 bytes");

    let health = healthz(&slot, "1");
    assert_eq!(health.status, "ok");
    assert_eq!(health.engine_version.as_deref(), Some("2"));
    assert_eq!(health.engine_sha256, Some(fingerprint(&[2u8; 2000], false)));
    assert_eq!(health.engine_loaded_at_ms, Some(20));
}

#[test]
fn equal_engines_are_answered_alike() {
    let mut slot = EngineSlot::new();
    let body = vec![5u8; 1500];
    let first = init_engine(&mut slot, &body, false, opened("1", 10)).unwrap();
    init_engine(&mut slot, &[6u8; 1500], false, opened("x", 15)).unwrap();
    let second = init_engine(&mut slot, &body, false, opened("2", 20)).unwrap();
    assert_eq!(first.sha256, second.sha256);
    assert_eq!(first.bytes, second.bytes);
}

#[test]
fn small_bodies_are_no_engine() {
    let error = check_engine_size(999).unwrap_err();
    assert_eq!(error.status, Status::BadRequest);
    assert_eq!(error.message, "init body too small: 999 bytes");
    assert_eq!(check_engine_size(0).unwrap_err().message, "init body too small: 0 bytes");
    assert!(check_engine_size(1000).is_ok());
}

#[test]
fn engine_file_has_process_and_time() {
    assert_eq!(engine_file_name(42, 1700000000123), "rp-engine-42-1700000000123.dylib");
    assert_ne!(engine_file_name(1, 23), engine_file_name(12, 3));
    assert_ne!(engine_file_name(1, 23), engine_file_name(1, 24));
}

#[test]
fn loading_looks_up_every_function_in_order() {
    let mut step = LoadStep::WriteFile;
    let mut names = Vec::new();
    let mut steps = 0;
    while step != LoadStep::Ready {
        if let LoadStep::FindSymbol(symbol) = step {
            names.push(symbol.name());
        }
        step = advance(step, &Ok(()), "/tmp/e").unwrap();
        steps += 1;
    }
    assert_eq!(steps, 8);
    assert_eq!(
        names,
        vec!["rp_alloc", "rp_free", "rp_last_error", "rp_process", "rp_version", "rp_run"]
    );
    assert_eq!(advance(LoadStep::Ready, &Ok(()), "").unwrap(), LoadStep::Ready);
}

#[test]
fn failed_steps_end_the_loading() {
    let bad = Err("boom".to_string());
    let failure = advance(LoadStep::WriteFile, &bad, "/tmp/e").unwrap_err();
    assert_eq!(failure.reply.status, Status::InternalServerError);
    assert_eq!(failure.reply.message, "write dylib temp: boom");
    assert!(!failure.discard_file);

    let failure = advance(LoadStep::OpenLibrary, &bad, "/tmp/e").unwrap_err();
    assert_eq!(failure.reply.message, "dlopen failed: boom (path: /tmp/e)");
    assert!(failure.discard_file);

    let failure = advance(LoadStep::FindSymbol(Symbol::LastError), &bad, "/tmp/e").unwrap_err();
    assert_eq!(failure.reply.status, Status::InternalServerError);
    assert_eq!(failure.reply.message, "rp_last_error: boom");
    assert!(!failure.discard_file);
}

#[test]
fn picked_files_stand_on_lines() {
    assert_eq!(
        picked_paths("/a.csv\n/b c.csv\n"),
        strings(&["/a.csv", "/b c.csv"])
    );
    assert_eq!(picked_paths("/a.csv\n\n /b.csv\n \t\n"), strings(&["/a.csv", " /b.csv"]));
    assert_eq!(picked_paths(""), Vec::<String>::new());
    assert_eq!(picked_paths("\n\u{3000}\n"), Vec::<String>::new());
}

#[test]
fn picked_files_keep_their_names() {
    assert_eq!(picked_paths("/tmp/a.csv \n"), strings(&["/tmp/a.csv "]));
    assert_eq!(picked_paths("/tmp/a\r\n/tmp/b\rc\n"), strings(&["/tmp/a\r", "/tmp/b\rc"]));
    assert_eq!(picked_paths("/tmp/\u{a0}\n"), strings(&["/tmp/\u{a0}"]));
    let output = Some(DialogOutput { success: true, stdout: b"/tmp/a.csv \n".to_vec() });
    assert_eq!(pick_files(&output), strings(&["/tmp/a.csv "]));
}

#[test]
fn picked_files_agree_with_lines_that_are_not_blank() {
    for text in [
        "",
        "\n",
        "\r\n",
        "\r",
        "a",
        "a\n",
        "a\r\n",
        "a\r\r\nb",
        "a\r",
        "\n\na\n\n",
        " a \n\tb\n",
        "a b\n\u{2028}c\u{85}\n",
        "\u{e9}\u{1f600}\n\u{feff}x\n",
        "a\nb\rc\nd",
    ] {
        let expected: Vec<String> = text
            .split('\n')
            .filter(|l| !l.trim().is_empty())
            .map(|l| l.to_string())
            .collect();
        assert_eq!(picked_paths(text), expected);
    }
}

#[test]
fn printed_paths_are_picked_again() {
    let paths = strings(&["/a b ", "\t/c\r", "/d\u{85}"]);
    let text = format!("{}\n", paths.join("\n"));
    assert_eq!(picked_paths(&text), paths);
}

#[test]
fn only_picked_files_count_as_picked() {
    let picked = strings(&["/a", "/b"]);
    assert!(only_picked(&strings(&["/b", "/a", "/b"]), &picked));
    assert!(only_picked(&Vec::new(), &picked));
    assert!(!only_picked(&strings(&["/a", "/c"]), &picked));
    assert!(!only_picked(&strings(&["/a "]), &picked));

    let mut files = PickedFiles::new();
    assert!(!files.cover(&strings(&["/a"])));
    files.record(&strings(&["/a"]));
    files.record(&strings(&["/b"]));
    assert!(files.cover(&strings(&["/b", "/a"])));
    assert!(!files.cover(&strings(&["/c"])));
}

#[test]
fn job_for_picked_files_is_accepted() {
    let mut jobs = JobTable::new();
    let mut files = PickedFiles::new();
    files.record(&strings(&["/a.csv", "/b.csv"]));
    let (status, response) = start_picked(&mut jobs, &files, 1, 2, true, &strings(&["/b.csv"]));
    assert_eq!(status, Status::Accepted);
    assert_eq!(response.state, JobState::Running);
    let job = get_status(&jobs, "job_1", 5).unwrap();
    assert_eq!(job.paths, strings(&["/b.csv"]));
    assert_eq!(job.elapsed_ms, 3);

    start_picked(&mut jobs, &files, 6, 7, true, &strings(&["/other"]));
    let same = get_status(&jobs, "job_1", 5).unwrap();
    assert_eq!(same.state, JobState::Running);
    assert_eq!(same.paths, strings(&["/b.csv"]));
}

#[test]
fn job_for_a_file_that_was_not_picked_is_refused() {
    let mut jobs = JobTable::new();
    let mut files = PickedFiles::new();
    files.record(&strings(&["/a.csv"]));
    let paths = strings(&["/a.csv", "/etc/passwd"]);
    let (status, response) = start_picked(&mut jobs, &files, 1, 2, true, &paths);
    assert_eq!(status, Status::PreconditionFailed);
    assert_eq!(response.job_id, "job_1");
    assert_eq!(response.state, JobState::Error);
    let job = get_status(&jobs, "job_1", 5).unwrap();
    assert_eq!(job.state, JobState::Error);
    assert_eq!(job.elapsed_ms, 0);
    assert_eq!(job.started_ms, 2);
    assert_eq!(job.paths, paths);
    assert_eq!(job.error.as_deref(), Some("file not picked \u{2014} POST /pick first"));

    start_picked(&mut jobs, &files, 3, 4, false, &paths);
    assert_eq!(
        get_status(&jobs, "job_3", 5).unwrap().error.as_deref(),
        Some("engine not loaded \u{2014} POST /init first")
    );
}

#[test]
fn white_space_is_that_of_unicode() {
    for u in 0..=0x10ffffu32 {
        if let Some(c) = char::from_u32(u) {
            assert_eq!(is_white(c), c.is_whitespace());
        }
    }
}

#[test]
fn dialog_that_ended_well_gives_its_paths() {
    let output = Some(DialogOutput { success: true, stdout: b"/a\xff.csv\n/b.csv\n".to_vec() });
    assert_eq!(pick_files(&output), strings(&["/a\u{fffd}.csv", "/b.csv"]));
}

#[test]
fn cancelled_dialog_gives_no_paths() {
    let output = Some(DialogOutput { success: false, stdout: b"/a.csv\n".to_vec() });
    assert!(pick_files(&output).is_empty());
    assert!(pick_files(&None).is_empty());
}

#[test]
fn broken_dialog_is_an_internal_error() {
    let error = pick_failed("task panicked");
    assert_eq!(error.status, Status::InternalServerError);
    assert_eq!(error.message, "pick: task panicked");
}
