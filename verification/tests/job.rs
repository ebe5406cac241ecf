use conduit::audit::AuditCtx;
use conduit::clock::Timestamp;
use conduit::job::{
    job_limit_secs, BgJob, JobControl, JobEvent, JobRun, RingStream, MAX_JOB_STREAM_BYTES,
};

fn job() -> BgJob {
    BgJob::started(
        "job_1".into(),
        7,
        "cs_1".into(),
        "web".into(),
        "tail -f log".into(),
        Timestamp { secs: 0, nanos: 0 },
    )
}

#[test]
fn ring_reads_continue() {
    let mut r = RingStream::new();
    r.push(b"abc");
    assert_eq!(r.read_from(0), (b"abc".to_vec(), 3, false));
    assert_eq!(r.read_from(3), (vec![], 3, false));
    r.push(b"de");
    assert_eq!(r.read_from(3), (b"de".to_vec(), 5, false));
    assert_eq!(r.read_from(1), (b"bcde".to_vec(), 5, false));
    assert_eq!(r.read_from(99), (vec![], 5, false));
    assert_eq!(r.total(), 5);
}

#[test]
fn ring_drops_the_oldest_and_reports_the_gap() {
    let mut r = RingStream::new();
    r.push(&vec![b'a'; MAX_JOB_STREAM_BYTES]);
    let (all, next, gap) = r.read_from(0);
    assert_eq!((all.len(), next, gap), (MAX_JOB_STREAM_BYTES, MAX_JOB_STREAM_BYTES as u64, false));
    r.push(b"xy");
    let (kept, next, gap) = r.read_from(0);
    assert_eq!((kept.len(), next, gap), (MAX_JOB_STREAM_BYTES, MAX_JOB_STREAM_BYTES as u64 + 2, true));
    assert!(kept.ends_with(b"axy"));
    assert!(!r.read_from(2).2);
    assert!(r.read_from(1).2);
}

#[test]
fn chunks_leave_what_one_push_leaves() {
    let long = vec![b'l'; MAX_JOB_STREAM_BYTES + 3];
    let almost = vec![b'm'; MAX_JOB_STREAM_BYTES - 1];
    let chunks: [&[u8]; 4] = [b"", b"abc", &almost, &long];
    for a in chunks {
        for b in chunks {
            let (mut r1, mut r2) = (RingStream::new(), RingStream::new());
            r1.push(b"xy");
            r2.push(b"xy");
            r1.push(a);
            r1.push(b);
            r2.push(&[a, b].concat());
            assert_eq!(r1.total(), r2.total());
            assert_eq!(r1.total(), 2 + a.len() as u64 + b.len() as u64);
            assert!(r1.read_from(0) == r2.read_from(0));
        }
    }
}

#[test]
fn job_captures_until_it_ends() {
    let mut j = job();
    assert!(j.is_running());
    j.capture(&JobEvent::Data(b"out".to_vec()));
    j.capture(&JobEvent::ExtendedData(1, b"err".to_vec()));
    j.capture(&JobEvent::ExtendedData(5, b"other".to_vec()));
    j.capture(&JobEvent::Other);
    let s = j.read(0, 0);
    assert_eq!((s.stdout.as_slice(), s.stderr.as_slice()), (&b"out"[..], &b"err"[..]));
    assert_eq!((s.stdout_offset, s.stderr_offset), (3, 3));
    assert!(s.running && s.exit_code.is_none() && !s.stdout_gap && !s.stderr_gap);
    j.capture(&JobEvent::ExitStatus(0));
    assert!(j.is_running());
    j.capture(&JobEvent::Closed);
    let s = j.read(3, 3);
    assert!(s.stdout.is_empty() && !s.running);
    assert_eq!(s.exit_code, Some(0));
    assert!(j.has_room(&JobEvent::Data(vec![0; 8])));
}

#[test]
fn stop_and_deadline_end_a_job() {
    for event in [JobEvent::StopRequested, JobEvent::DeadlineElapsed] {
        let mut j = job();
        j.capture(&event);
        assert!(!j.is_running());
        assert_eq!(j.read(0, 0).exit_code, None);
    }
}

#[test]
fn job_limits() {
    assert_eq!(job_limit_secs(None), 1800);
    assert_eq!(job_limit_secs(Some(0)), 1);
    assert_eq!(job_limit_secs(Some(5)), 5);
    assert_eq!(job_limit_secs(Some(86_401)), 86_400);
}

#[test]
fn reader_follows_the_channel_and_records_the_end() {
    let ctx = AuditCtx {
        user_id: 7,
        token_id: 8,
        server_alias: "web".into(),
        session_id: "cs_1".into(),
    };
    let mut run = JobRun::new(ctx, "tail -f log".into());
    assert_eq!(run.step(&JobEvent::Data(vec![1])), JobControl::Continue);
    assert_eq!(run.step(&JobEvent::ExitStatus(143)), JobControl::Continue);
    assert_eq!(run.step(&JobEvent::StopRequested), JobControl::TearDown);
    assert_eq!(run.step(&JobEvent::DeadlineElapsed), JobControl::TearDown);
    assert_eq!(run.step(&JobEvent::Closed), JobControl::Finish);
    let e = run.finish();
    assert_eq!(e.event, "exec_bg_done");
    assert_eq!(e.command.as_deref(), Some("tail -f log"));
    assert_eq!(e.exit_code, Some(143));
    assert_eq!((e.user_id, e.token_id), (7, 8));
    assert_eq!((e.server_alias.as_str(), e.session_id.as_str()), ("web", "cs_1"));
    assert!(e.stdout.is_none() && e.stderr.is_none() && e.error.is_none());
}

#[test]
fn last_status_counts() {
    let mut j = job();
    j.capture(&JobEvent::ExitStatus(1));
    j.capture(&JobEvent::ExitStatus(2));
    j.capture(&JobEvent::Closed);
    assert_eq!(j.read(0, 0).exit_code, Some(2));
}
