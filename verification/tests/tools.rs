use conduit::channel::WalkStep;
use conduit::clock::{Timestamp, WallClock};
use conduit::error::Error;
use conduit::files::UploadSource;
use conduit::ingest::PendingUpload;
use conduit::job::JobEvent;
use conduit::models::{
    AuditEntry, AuthContext, AuthKind, ResolvedServer, ServerSummary, TokenKind,
};
use conduit::params::{
    CloseChannelParams, ExecParams, ExecPollParams, ExecStartParams, ExecStopParams,
    OpenChannelParams, SftpDownloadParams, SftpListParams, SftpUploadParams,
};
use conduit::ports::CapturedOutput;
use conduit::ratelimit::RateLimiter;
use conduit::service::{admitted, bearer_auth};
use conduit::session::{ChannelFailure, DirEntry, ExecOutput, SshSession};
use conduit::state::AppState;
use conduit::tools::{ConduitHandler, ToolError, ToolErrorKind};

fn auth(user_id: i64) -> AuthContext {
    AuthContext {
        user_id,
        username: "ann".into(),
        role: "ops".into(),
        token_id: user_id * 10,
        token_label: "cli".into(),
        token_kind: TokenKind::UserToken,
    }
}

fn server(alias: &str, jump: Option<&str>) -> ResolvedServer {
    ResolvedServer {
        alias: alias.into(),
        host: format!("{alias}.example"),
        port: 22,
        username: "ops".into(),
        auth_kind: AuthKind::Password,
        secret: b"pw".to_vec(),
        key_passphrase: None,
        certificate: None,
        jump_host_alias: jump.map(|j| j.to_string()),
    }
}

fn session(id: &str, user_id: i64, last_used_epoch: i64) -> SshSession {
    SshSession {
        id: id.into(),
        user_id,
        token_id: user_id * 10,
        server_alias: "web".into(),
        hop_path: vec!["jump".into(), "web".into()],
        created_at: Timestamp { secs: 1_700_000_000, nanos: 0 },
        last_used_epoch,
    }
}

fn handler(per_minute: u32) -> ConduitHandler {
    ConduitHandler::new(AppState::new(RateLimiter::new(per_minute), 1800, "/stage".into()))
}

fn with_session() -> ConduitHandler {
    let mut h = handler(0);
    h.channel_opened(&auth(1), session("cs_1", 1, 1_700_000_000));
    h
}

fn is_invalid(e: &ToolError, message: &str) {
    assert_eq!(e.kind, ToolErrorKind::InvalidRequest);
    assert_eq!(e.message, message);
}

fn is_internal(e: &ToolError, message: &str) {
    assert_eq!(e.kind, ToolErrorKind::Internal);
    assert_eq!(e.message, message);
}

fn is_about(e: &AuditEntry, event: &str) {
    assert_eq!(e.event, event);
    assert_eq!((e.user_id, e.token_id), (1, 10));
    assert_eq!((e.server_alias.as_str(), e.session_id.as_str()), ("web", "cs_1"));
    assert_eq!(e.id.len(), 36);
    assert!(e.created_at.secs > 1_700_000_000);
}

fn started(h: &mut ConduitHandler, command: &str) -> String {
    let params = ExecStartParams {
        session_id: "cs_1".into(),
        command: command.into(),
        max_runtime_secs: None,
    };
    let call = h.exec_start(&auth(1), &params).ok().unwrap();
    let cleared = h.start_cleared(call, Ok(())).ok().unwrap();
    let slot = h.job_slot(cleared).ok().unwrap();
    h.exec_started(slot, Ok(())).ok().unwrap().output.job_id
}

fn poll(job_id: &str, stdout_offset: Option<u64>) -> ExecPollParams {
    ExecPollParams { job_id: job_id.into(), stdout_offset, stderr_offset: None }
}

#[test]
fn bearer_tokens() {
    assert_eq!(bearer_auth(Some("Bearer abc")), Ok("abc"));
    assert_eq!(bearer_auth(Some("Bearer   abc \t")), Ok("abc"));
    assert_eq!(bearer_auth(Some("Bearer ")), Ok(""));
    assert_eq!(bearer_auth(Some("bearer abc")), Err(401));
    assert_eq!(bearer_auth(Some("Basic abc")), Err(401));
    assert_eq!(bearer_auth(None), Err(401));
}

#[test]
fn every_failed_validation_is_unauthorized() {
    assert_eq!(admitted(Ok(auth(3))).unwrap().user_id, 3);
    assert_eq!(admitted(Err(Error::Db("x".into()))).err(), Some(401));
    assert_eq!(admitted(Err(Error::Unauthorized("x".into()))).err(), Some(401));
}

#[test]
fn identity_of_a_request() {
    assert_eq!(ConduitHandler::auth(true, Some(auth(5))).unwrap().user_id, 5);
    is_internal(&ConduitHandler::auth(false, None).unwrap_err(), "missing http parts");
    is_invalid(&ConduitHandler::auth(true, None).unwrap_err(), "missing auth context");
}

#[test]
fn servers_are_listed_without_secrets() {
    let all = vec![ServerSummary {
        alias: "web".into(),
        description: Some("front".into()),
        tags: None,
    }];
    let out = ConduitHandler::list_servers(Ok(all)).unwrap();
    assert_eq!(out.servers.len(), 1);
    assert_eq!(out.servers[0].alias, "web");
    assert_eq!(out.servers[0].description.as_deref(), Some("front"));
    assert_eq!(out.servers[0].tags, None);
    let e = ConduitHandler::list_servers(Err(Error::Db("gone".into()))).unwrap_err();
    is_internal(&e, "db: gone");
}

#[test]
fn chain_of_jump_hosts_is_walked() {
    let params = OpenChannelParams { server: "web".into() };
    let walk = ConduitHandler::open_channel(&auth(1), &params);
    assert_eq!(walk.query(), (1, "web"));
    let walk = match walk.resolved(Ok(server("web", Some("mid")))).ok().unwrap() {
        WalkStep::Resolve(w) => w,
        WalkStep::Connect(_) => panic!("the jump host was passed over"),
    };
    assert_eq!(walk.query(), (1, "mid"));
    let walk = match walk.resolved(Ok(server("mid", Some("edge")))).ok().unwrap() {
        WalkStep::Resolve(w) => w,
        WalkStep::Connect(_) => panic!("the jump host was passed over"),
    };
    assert_eq!(walk.query(), (1, "edge"));
    match walk.resolved(Ok(server("edge", None))).ok().unwrap() {
        WalkStep::Connect(d) => match d.action() {
            conduit::session::DialAction::Connect { host, .. } => assert_eq!(host, "edge.example"),
            _ => panic!("the outer-most hop is not first"),
        },
        WalkStep::Resolve(_) => panic!("the chain does not end"),
    }
}

#[test]
fn cycle_of_jump_hosts_is_refused() {
    let params = OpenChannelParams { server: "web".into() };
    let walk = ConduitHandler::open_channel(&auth(1), &params);
    let e = walk.resolved(Ok(server("web", Some("web")))).err().unwrap();
    is_invalid(&e, "jump host cycle detected at 'web'");
    let walk = ConduitHandler::open_channel(&auth(1), &params);
    let walk = match walk.resolved(Ok(server("web", Some("mid")))).ok().unwrap() {
        WalkStep::Resolve(w) => w,
        WalkStep::Connect(_) => panic!("the jump host was passed over"),
    };
    let e = walk.resolved(Ok(server("mid", Some("web")))).err().unwrap();
    is_invalid(&e, "jump host cycle detected at 'web'");
}

#[test]
fn sixth_hop_is_refused() {
    let params = OpenChannelParams { server: "h0".into() };
    let mut walk = ConduitHandler::open_channel(&auth(1), &params);
    for i in 0..4 {
        let s = server(&format!("h{i}"), Some(&format!("h{}", i + 1)));
        walk = match walk.resolved(Ok(s)).ok().unwrap() {
            WalkStep::Resolve(w) => w,
            WalkStep::Connect(_) => panic!("the jump host was passed over"),
        };
    }
    let e = walk.resolved(Ok(server("h4", Some("h5")))).err().unwrap();
    is_invalid(&e, "jump host chain exceeds 5 hops");
}

#[test]
fn unresolved_server_is_an_invalid_request() {
    let params = OpenChannelParams { server: "web".into() };
    let walk = ConduitHandler::open_channel(&auth(1), &params);
    let e = walk.resolved(Err(Error::NotFound("web".into()))).err().unwrap();
    is_invalid(&e, "not found: web");
    is_internal(&ConduitHandler::connect_failed(&Error::Other("x".into())), "other: x");
}

#[test]
fn opened_channel_is_answered_and_recorded() {
    let mut h = handler(0);
    let o = h.channel_opened(&auth(1), session("cs_1", 1, 1_700_000_000));
    assert_eq!(o.output.session_id, "cs_1");
    assert_eq!(o.output.server, "web");
    assert_eq!(o.output.opened_at, "2023-11-14T22:13:20+00:00");
    assert_eq!(o.output.hop_path, vec!["jump", "web"]);
    is_about(&o.entry, "open_channel");
    assert!(o.entry.command.is_none());
    assert_eq!(h.state.active_sessions(), 1);
}

#[test]
fn sessions_of_others_cannot_be_used() {
    let h = with_session();
    assert_eq!(h.session_for("cs_1", &auth(1)).ok().unwrap().server_alias, "web");
    is_invalid(&h.session_for("cs_9", &auth(1)).err().unwrap(), "unknown session_id");
    is_invalid(&h.session_for("cs_1", &auth(2)).err().unwrap(), "session does not belong to token");
}

#[test]
fn exec_timeouts_are_clamped() {
    let h = with_session();
    let call = |timeout_secs| {
        let p = ExecParams { session_id: "cs_1".into(), command: "ls".into(), timeout_secs };
        h.exec(&auth(1), &p).ok().unwrap()
    };
    assert_eq!(call(None).timeout_secs, 60);
    assert_eq!(call(Some(5)).timeout_secs, 5);
    assert_eq!(call(Some(601)).timeout_secs, 600);
    assert_eq!(call(None).command, "ls");
    assert_eq!(call(None).ctx.session_id, "cs_1");
}

#[test]
fn blocked_command_is_recorded_and_not_counted() {
    let mut h = handler(1);
    h.channel_opened(&auth(1), session("cs_1", 1, 1_700_000_000));
    let p = ExecParams { session_id: "cs_1".into(), command: "reboot".into(), timeout_secs: None };
    let call = h.exec(&auth(1), &p).ok().unwrap();
    let x = h
        .clear_command(&call.ctx, &call.command, Err(Error::Forbidden("no".into())))
        .err()
        .unwrap();
    is_invalid(&x.error, "forbidden: no");
    is_about(&x.entry, "exec_blocked");
    assert_eq!(x.entry.command.as_deref(), Some("reboot"));
    assert_eq!(x.entry.error.as_deref(), Some("forbidden: no"));
    assert!(h.clear_command(&call.ctx, "ls", Ok(())).is_ok());
    let x = h.clear_command(&call.ctx, "ls", Ok(())).err().unwrap();
    is_invalid(&x.error, "rate limit exceeded: 1/min");
    is_about(&x.entry, "exec_rate_limited");
    assert_eq!(x.entry.command, None);
    assert_eq!(x.entry.error.as_deref(), Some("rate limit exceeded: 1/min"));
}

#[test]
fn blocked_job_is_not_cleared() {
    let mut h = with_session();
    let p = ExecStartParams {
        session_id: "cs_1".into(),
        command: "reboot".into(),
        max_runtime_secs: None,
    };
    let call = h.exec_start(&auth(1), &p).ok().unwrap();
    let x = h.start_cleared(call, Err(Error::Forbidden("no".into()))).err().unwrap();
    is_invalid(&x.error, "forbidden: no");
    is_about(&x.entry, "exec_blocked");
}

#[test]
fn commands_are_counted_by_the_given_clock() {
    let mut h = handler(1);
    h.channel_opened(&auth(1), session("cs_1", 1, 1_700_000_000));
    let ctx = h.ctx_for("cs_1", &auth(1)).ok().unwrap();
    assert!(h.clear_command_at(&ctx, "ls", Ok(()), 0, 0).is_ok());
    assert!(h.clear_command_at(&ctx, "ls", Ok(()), 60_000_000_000, 60_000_000_000).is_err());
    assert!(h.clear_command_at(&ctx, "ls", Ok(()), 60_000_000_001, 60_000_000_001).is_ok());
}

fn output() -> ExecOutput {
    ExecOutput {
        stdout: "password=x".into(),
        stderr: "warn".into(),
        exit_code: 2,
        duration_ms: 15,
        truncated: true,
    }
}

#[test]
fn finished_command_is_recorded_raw() {
    let mut h = with_session();
    let p = ExecParams { session_id: "cs_1".into(), command: "cat".into(), timeout_secs: None };
    let call = h.exec(&auth(1), &p).ok().unwrap();
    let cleared = h.exec_cleared(call, Ok(())).ok().unwrap();
    assert_eq!(cleared.get().command, "cat");
    let done = h.exec_finished(cleared, Ok(output()));
    is_about(&done.entry, "exec");
    assert_eq!(done.entry.command.as_deref(), Some("cat"));
    assert_eq!(done.entry.stdout.as_deref(), Some("password=x"));
    assert_eq!(done.entry.stderr.as_deref(), Some("warn"));
    assert_eq!((done.entry.exit_code, done.entry.duration_ms), (Some(2), Some(15)));
    assert_eq!(done.entry.error, None);
    let out = done.result.ok().unwrap();
    let given = ConduitHandler::to_filter(&out);
    assert_eq!((given.stdout.as_str(), given.exit_code), ("password=x", Some(2)));
    let filtered =
        CapturedOutput { stdout: "password=***".into(), stderr: "".into(), exit_code: Some(0) };
    let reply = ConduitHandler::exec_reply(out, Some(filtered));
    assert_eq!((reply.stdout.as_str(), reply.stderr.as_str()), ("password=***", ""));
    assert_eq!((reply.exit_code, reply.duration_ms, reply.truncated), (0, 15, true));
    assert!(h.session_for("cs_1", &auth(1)).ok().unwrap().last_used_epoch > 1_700_000_000);
}

#[test]
fn without_a_filter_output_passes_through() {
    let reply = ConduitHandler::exec_reply(output(), None);
    assert_eq!((reply.stdout.as_str(), reply.stderr.as_str()), ("password=x", "warn"));
    assert_eq!((reply.exit_code, reply.duration_ms, reply.truncated), (2, 15, true));
    let kept = CapturedOutput { stdout: "s".into(), stderr: "e".into(), exit_code: None };
    assert_eq!(ConduitHandler::exec_reply(output(), Some(kept)).exit_code, 2);
}

#[test]
fn failed_command_is_recorded() {
    let mut h = with_session();
    let p = ExecParams { session_id: "cs_1".into(), command: "cat".into(), timeout_secs: None };
    let call = h.exec(&auth(1), &p).ok().unwrap();
    let cleared = h.exec_cleared(call, Ok(())).ok().unwrap();
    let done = h.exec_finished(cleared, Err(Error::Invalid("exec timeout after 60s".into())));
    is_internal(&done.result.err().unwrap(), "invalid input: exec timeout after 60s");
    is_about(&done.entry, "exec_error");
    assert_eq!(done.entry.command.as_deref(), Some("cat"));
    assert_eq!(done.entry.error.as_deref(), Some("invalid input: exec timeout after 60s"));
    assert_eq!(h.session_for("cs_1", &auth(1)).ok().unwrap().last_used_epoch, 1_700_000_000);
}

#[test]
fn background_job_lives_and_ends() {
    let mut h = with_session();
    let p = ExecStartParams {
        session_id: "cs_1".into(),
        command: "tail -f".into(),
        max_runtime_secs: Some(9),
    };
    let call = h.exec_start(&auth(1), &p).ok().unwrap();
    assert_eq!(call.limit_secs, 9);
    let cleared = h.start_cleared(call, Ok(())).ok().unwrap();
    assert_eq!(cleared.get().command, "tail -f");
    let slot = h.job_slot(cleared).ok().unwrap();
    let id = slot.get().1.to_string();
    assert!(id.starts_with("job_"));
    assert_eq!(slot.get().0.limit_secs, 9);
    let s = h.exec_started(slot, Ok(())).ok().unwrap();
    assert_eq!((s.output.job_id.as_str(), s.output.session_id.as_str()), (id.as_str(), "cs_1"));
    assert!(s.output.started_at.contains('T'));
    is_about(&s.entry, "exec_start");
    assert_eq!(s.entry.command.as_deref(), Some("tail -f"));

    h.state.job_event(&id, &JobEvent::Data(vec![b'l', 0xff]));
    let p = h.exec_poll(&auth(1), &poll(&id, None)).ok().unwrap();
    assert_eq!((p.server_alias.as_str(), p.command.as_str()), ("web", "tail -f"));
    assert_eq!(ConduitHandler::chunk_to_filter(&p).stdout, "l\u{fffd}");
    let filtered = CapturedOutput { stdout: "*".into(), stderr: "".into(), exit_code: None };
    let reply = ConduitHandler::poll_reply(p, Some(filtered));
    assert_eq!((reply.stdout.as_str(), reply.stdout_offset, reply.running), ("*", 2, true));

    h.state.job_event(&id, &JobEvent::Data(b"og".to_vec()));
    h.state.job_event(&id, &JobEvent::ExitStatus(0));
    h.state.job_event(&id, &JobEvent::Closed);
    let p = h.exec_poll(&auth(1), &poll(&id, Some(2))).ok().unwrap();
    let reply = ConduitHandler::poll_reply(p, None);
    assert_eq!((reply.stdout.as_str(), reply.stdout_offset), ("og", 4));
    assert_eq!((reply.running, reply.exit_code), (false, Some(0)));

    let gone = h.exec_stop(&auth(1), &ExecStopParams { job_id: id.clone() }).ok().unwrap();
    assert!(gone.output.stopped);
    is_about(&gone.entry, "exec_stop");
    assert_eq!(gone.entry.command.as_deref(), Some("tail -f"));
    is_invalid(&h.exec_poll(&auth(1), &poll(&id, None)).err().unwrap(), "unknown job_id");
    h.state.job_event(&id, &JobEvent::Data(b"late".to_vec()));
}

#[test]
fn jobs_of_others_cannot_be_used() {
    let mut h = with_session();
    let id = started(&mut h, "top -b");
    is_invalid(&h.exec_poll(&auth(2), &poll(&id, None)).err().unwrap(), "job does not belong to token");
    let stop = ExecStopParams { job_id: id.clone() };
    is_invalid(&h.exec_stop(&auth(2), &stop).err().unwrap(), "job does not belong to token");
    assert!(h.exec_poll(&auth(1), &poll(&id, None)).is_ok());
}

#[test]
fn ninth_running_job_is_refused() {
    let mut h = with_session();
    let ids: Vec<String> = (0..8).map(|i| started(&mut h, &format!("job {i}"))).collect();
    let p = ExecStartParams {
        session_id: "cs_1".into(),
        command: "one more".into(),
        max_runtime_secs: None,
    };
    let call = h.exec_start(&auth(1), &p).ok().unwrap();
    let cleared = h.start_cleared(call, Ok(())).ok().unwrap();
    let e = h.job_slot(cleared).err().unwrap();
    is_invalid(&e, "session already has 8 active background jobs");
    h.state.job_event(&ids[3], &JobEvent::Closed);
    let call = h.exec_start(&auth(1), &p).ok().unwrap();
    let cleared = h.start_cleared(call, Ok(())).ok().unwrap();
    assert!(h.job_slot(cleared).is_ok());
}

#[test]
fn job_that_does_not_start_is_an_error() {
    let mut h = with_session();
    let p = ExecStartParams {
        session_id: "cs_1".into(),
        command: "x".into(),
        max_runtime_secs: None,
    };
    let call = h.exec_start(&auth(1), &p).ok().unwrap();
    let cleared = h.start_cleared(call, Ok(())).ok().unwrap();
    let slot = h.job_slot(cleared).ok().unwrap();
    let e = h.exec_started(slot, Err(ChannelFailure::SessionClosed)).err().unwrap();
    is_internal(&e, "invalid input: session closed");
    assert_eq!(h.state.running_jobs("cs_1"), 0);
}

#[test]
fn closing_a_channel_stops_its_jobs() {
    let mut h = with_session();
    h.channel_opened(&auth(1), session("cs_2", 1, 1_700_000_000));
    let id = started(&mut h, "top -b");
    let close = CloseChannelParams { session_id: "cs_1".into() };
    is_invalid(&h.close_channel(&auth(2), &close).err().unwrap(), "session does not belong to token");
    assert_eq!(h.state.active_sessions(), 2);
    let c = h.close_channel(&auth(1), &close).ok().unwrap();
    assert!(c.output.closed);
    assert_eq!(c.stopped, vec![id.clone()]);
    assert_eq!(c.session.unwrap().id, "cs_1");
    is_about(&c.entry.unwrap(), "close_channel");
    assert_eq!(h.state.active_sessions(), 1);
    is_invalid(&h.session_for("cs_1", &auth(1)).err().unwrap(), "unknown session_id");
    assert!(h.session_for("cs_2", &auth(1)).is_ok());
    is_invalid(&h.exec_poll(&auth(1), &poll(&id, None)).err().unwrap(), "unknown job_id");
    let again = h.close_channel(&auth(1), &close).ok().unwrap();
    assert!(again.output.closed && again.session.is_none() && again.entry.is_none());
}

#[test]
fn idle_sessions_are_reaped_with_their_jobs() {
    let mut h = handler(0);
    h.channel_opened(&auth(1), session("cs_1", 1, 1_000));
    h.channel_opened(&auth(1), session("cs_2", 1, 5_000));
    let p = |s: &str| ExecStartParams {
        session_id: s.into(),
        command: "x".into(),
        max_runtime_secs: None,
    };
    let mut ids = Vec::new();
    for s in ["cs_1", "cs_2"] {
        let call = h.exec_start(&auth(1), &p(s)).ok().unwrap();
        let cleared = h.start_cleared(call, Ok(())).ok().unwrap();
        let slot = h.job_slot(cleared).ok().unwrap();
        ids.push(h.exec_started(slot, Ok(())).ok().unwrap().output.job_id);
    }
    h.state.touch_session_at("cs_1", 1_000);
    h.state.touch_session_at("cs_2", 5_000);
    assert!(h.state.reap_idle_at(2_800).sessions.is_empty());
    let r = h.state.reap_idle_at(2_801);
    assert_eq!(r.sessions.len(), 1);
    assert_eq!(r.sessions[0].id, "cs_1");
    assert_eq!(r.stopped, vec![ids[0].clone()]);
    assert!(h.exec_poll(&auth(1), &poll(&ids[1], None)).is_ok());
    h.state.touch_session_at("cs_2", 5_000);
    assert_eq!(h.state.reap_idle().sessions.len(), 1);
    assert_eq!(h.state.active_sessions(), 0);
}

#[test]
fn polling_keeps_a_session_alive() {
    let mut h = with_session();
    let id = started(&mut h, "x");
    h.state.touch_session_at("cs_1", 0);
    assert!(h.exec_poll(&auth(1), &poll(&id, None)).is_ok());
    assert!(h.state.reap_idle().sessions.is_empty());
    assert!(h.session_for("cs_1", &auth(1)).ok().unwrap().idle_secs(&mut WallClock::new()) < 600);
}

#[test]
fn no_timeout_means_no_reaping() {
    let state = AppState::new(RateLimiter::new(0), 0, "/stage".into());
    let mut h = ConduitHandler::new(state);
    h.channel_opened(&auth(1), session("cs_1", 1, 0));
    assert!(h.state.reap_idle().sessions.is_empty());
    assert_eq!(h.state.active_sessions(), 1);
}

#[test]
fn sessions_know_how_long_they_have_been_idle() {
    let mut s = session("cs_1", 1, 100);
    assert_eq!(s.idle_secs_at(160), 60);
    assert_eq!(s.idle_secs_at(90), -10);
    let mut clock = WallClock::new();
    s.touch(&mut clock);
    assert!(s.last_used_epoch > 1_600_000_000);
    assert!(s.idle_secs(&mut clock) < 600);
    let old = session("cs_2", 1, 100);
    assert!(old.idle_secs(&mut clock) > 1_600_000_000);
}

#[test]
fn directory_is_listed_and_recorded() {
    let mut h = with_session();
    let p = SftpListParams { session_id: "cs_1".into(), path: "/etc".into() };
    let call = h.sftp_list(&auth(1), &p).ok().unwrap();
    let entry = DirEntry { name: "hosts".into(), is_dir: false, size: 3, mode: 0o644 };
    let done = h.sftp_listed(&call, Ok(vec![entry]));
    assert_eq!(done.result.ok().unwrap().entries[0].name, "hosts");
    is_about(&done.entry, "sftp_list");
    assert_eq!(done.entry.command.as_deref(), Some("LIST /etc"));
    let done = h.sftp_listed(&call, Err(Error::Other("readdir: x".into())));
    is_internal(&done.result.err().unwrap(), "other: readdir: x");
    is_about(&done.entry, "sftp_list_error");
    assert_eq!(done.entry.error.as_deref(), Some("other: readdir: x"));
}

#[test]
fn downloads_are_capped() {
    let state = AppState::new(RateLimiter::new(0), 1800, "/stage".into());
    let mut h = ConduitHandler::new(state);
    h.channel_opened(&auth(1), session("cs_1", 1, 1_700_000_000));
    let cap = |h: &ConduitHandler, max_bytes| {
        let p = SftpDownloadParams { session_id: "cs_1".into(), path: "/f".into(), max_bytes };
        h.sftp_download(&auth(1), &p).ok().unwrap().cap
    };
    assert_eq!(cap(&h, None), 1_048_576);
    assert_eq!(cap(&h, Some(10)), 10);
    assert_eq!(cap(&h, Some(u64::MAX)), 1_048_576);
    h.state.max_download_bytes = 100;
    assert_eq!(cap(&h, None), 100);
    let state = AppState::new(RateLimiter::new(0), 1800, "/stage".into())
        .with_max_download_bytes(4 << 20)
        .with_ingest_config("/other".into(), 5);
    assert_eq!((state.max_download_bytes, state.ingest.max_bytes), (4 << 20, 5));
}

#[test]
fn downloaded_content_can_be_uploaded_again() {
    let mut h = with_session();
    let p = SftpDownloadParams { session_id: "cs_1".into(), path: "/f".into(), max_bytes: None };
    let call = h.sftp_download(&auth(1), &p).ok().unwrap();
    let done = h.sftp_downloaded(&call, Ok((b"hello".to_vec(), true)));
    is_about(&done.entry, "sftp_download");
    assert_eq!(done.entry.command.as_deref(), Some("GET /f"));
    assert_eq!(done.entry.duration_ms, Some(5));
    let out = done.result.ok().unwrap();
    assert_eq!((out.content_base64.as_str(), out.size, out.truncated), ("aGVsbG8=", 5, true));
    let p = SftpUploadParams {
        session_id: "cs_1".into(),
        path: "/g".into(),
        content_base64: out.content_base64,
        upload_handle: None,
    };
    let call = h.sftp_upload(&auth(1), &p).ok().unwrap();
    match &call.source {
        UploadSource::Bytes(b) => assert_eq!(b, b"hello"),
        UploadSource::Staged(_) => panic!("nothing was staged"),
    }
    let done = h.sftp_uploaded(&call, Ok(5));
    assert_eq!(done.result.ok().unwrap().bytes_written, 5);
    is_about(&done.entry, "sftp_upload");
    assert_eq!(done.entry.command.as_deref(), Some("PUT /g"));
    assert_eq!(done.entry.duration_ms, Some(5));
}

#[test]
fn failed_transfers_are_recorded() {
    let mut h = with_session();
    let p = SftpDownloadParams { session_id: "cs_1".into(), path: "/f".into(), max_bytes: None };
    let call = h.sftp_download(&auth(1), &p).ok().unwrap();
    let done = h.sftp_downloaded(&call, Err(Error::Other("open: x".into())));
    is_internal(&done.result.err().unwrap(), "other: open: x");
    is_about(&done.entry, "sftp_download_error");
    assert_eq!(done.entry.command.as_deref(), Some("GET /f"));
    let p = SftpUploadParams {
        session_id: "cs_1".into(),
        path: "/g".into(),
        content_base64: "".into(),
        upload_handle: None,
    };
    let call = h.sftp_upload(&auth(1), &p).ok().unwrap();
    let done = h.sftp_uploaded(&call, Err(Error::Other("write: x".into())));
    is_internal(&done.result.err().unwrap(), "other: write: x");
    is_about(&done.entry, "sftp_upload_error");
    assert_eq!(done.entry.error.as_deref(), Some("other: write: x"));
}

#[test]
fn content_that_is_not_base64_is_refused() {
    let mut h = with_session();
    let p = SftpUploadParams {
        session_id: "cs_1".into(),
        path: "/g".into(),
        content_base64: "a?".into(),
        upload_handle: None,
    };
    let e = h.sftp_upload(&auth(1), &p).err().unwrap();
    assert_eq!(e.kind, ToolErrorKind::InvalidRequest);
    assert!(e.message.starts_with("base64 decode: "));
    let e = conduit::files::upload_content(Err("bad".into())).unwrap_err();
    is_invalid(&e, "base64 decode: bad");
}

#[test]
fn staged_upload_is_consumed_by_its_owner() {
    let mut h = with_session();
    h.channel_opened(&auth(2), session("cs_2", 2, 1_700_000_000));
    let pending = PendingUpload { handle: "up_1".into(), path: "/stage/up_1".into() };
    h.state.ingest.stage(pending, 4, 1, Ok(())).unwrap();
    let p = |s: &str| SftpUploadParams {
        session_id: s.into(),
        path: "/g".into(),
        content_base64: "".into(),
        upload_handle: Some("up_1".into()),
    };
    is_invalid(&h.sftp_upload(&auth(1), &p("cs_9")).err().unwrap(), "unknown session_id");
    let e = h.sftp_upload(&auth(2), &p("cs_2")).err().unwrap();
    is_invalid(&e, "unknown or expired upload_handle");
    let call = h.sftp_upload(&auth(1), &p("cs_1")).ok().unwrap();
    match &call.source {
        UploadSource::Staged(s) => assert_eq!((s.path.as_str(), s.size), ("/stage/up_1", 4)),
        UploadSource::Bytes(_) => panic!("the staged upload was passed over"),
    }
    let e = h.sftp_upload(&auth(1), &p("cs_1")).err().unwrap();
    is_invalid(&e, "unknown or expired upload_handle");
}

#[test]
fn clients_are_told_of_every_tool() {
    let text = ConduitHandler::instructions();
    for tool in [
        "list_servers", "open_channel", "exec_start", "exec_poll", "exec_stop", "sftp_list",
        "sftp_download", "sftp_upload", "close_channel",
    ] {
        assert!(text.contains(tool));
    }
}
