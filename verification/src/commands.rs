//! Running commands: one-shot with `exec`, and in the background with
//! `exec_start`, `exec_poll` and `exec_stop`.

use vstd::prelude::*;
use vstd::string::*;

use crate::audit::{log, no_detail, records, AuditCtx, AuditCtxView, AuditDetail, AuditDetailView};
use crate::clock::{rfc3339_text, to_rfc3339, LAST_SECOND};
use crate::error::Error;
use crate::ids::{is_prefixed_id, job_id};
use crate::job::{
    job_limit, job_limit_secs, stream_read, BgJob, JobRun, MAX_JOBS_PER_SESSION,
};
use crate::models::{AuditEntry, AuthContext};
use crate::params::{
    ExecParams, ExecPollOutput, ExecPollParams, ExecStartOutput, ExecStartParams, ExecStopOutput,
    ExecStopParams,
};
use crate::ports::{CapturedOutput, CapturedOutputView};
use crate::ratelimit::{admits, limit_text, recorded_after};
use crate::session::{
    channel_error_of, is_new_job, ChannelFailure, ExecOutput, ExecOutputView, SshSession,
};
use crate::state::{running_jobs_of, touched, used_at, AppState};
use crate::text::{decimal, decimal_digits, from_utf8_lossy, join3, owned, utf8_lossy};
use crate::tools::{
    audit_ctx_of, internal, invalid, session_ctx, ConduitHandler, ToolError, ToolErrorView,
};

verus! {

/// Timeout of a one-shot command when the caller omits one, in seconds.
pub const DEFAULT_EXEC_SECS: u64 = 60;

/// Longest timeout of a one-shot command, in seconds.
pub const MAX_EXEC_SECS: u64 = 600;

/// The timeout that applies to a one-shot command.
pub open spec fn exec_timeout(timeout_secs: Option<u64>) -> u64 {
    match timeout_secs {
        None => DEFAULT_EXEC_SECS,
        Some(n) => if n > MAX_EXEC_SECS {
            MAX_EXEC_SECS
        } else {
            n
        },
    }
}

/// A one-shot command that a caller asks for on a session.
pub struct ExecCall {
    pub ctx: AuditCtx,
    pub command: String,
    pub timeout_secs: u64,
}

/// A background command that a caller asks for on a session.
pub struct StartCall {
    pub ctx: AuditCtx,
    pub command: String,
    pub limit_secs: u64,
}

/// A one-shot command that may be run: the authorizer let it pass, and it is within
/// the rate of its token.
pub struct ClearedExec {
    call: ExecCall,
}

impl ClearedExec {
    pub closed spec fn call(&self) -> ExecCall {
        self.call
    }

    pub fn get(&self) -> (r: &ExecCall)
        ensures
            *r == self.call(),
    {
        &self.call
    }
}

/// A background command that may be started: the authorizer let it pass, and it is
/// within the rate of its token.
pub struct ClearedStart {
    call: StartCall,
}

impl ClearedStart {
    pub closed spec fn call(&self) -> StartCall {
        self.call
    }

    pub fn get(&self) -> (r: &StartCall)
        ensures
            *r == self.call(),
    {
        &self.call
    }
}

/// A background command that may be started, on a session with room for it, and
/// the identifier it gets.
pub struct JobSlot {
    call: StartCall,
    job_id: String,
}

impl JobSlot {
    pub closed spec fn call(&self) -> StartCall {
        self.call
    }

    pub closed spec fn job_id(&self) -> Seq<char> {
        self.job_id@
    }

    /// The command to start, and the identifier of its job.
    pub fn get(&self) -> (r: (&StartCall, &str))
        ensures
            *r.0 == self.call(),
            r.1@ == self.job_id(),
    {
        (&self.call, self.job_id.as_str())
    }
}

/// Why a command is not run: what is put on record, and the answer.
pub struct Refusal {
    pub entry: AuditEntry,
    pub error: ToolError,
}

/// A command and the error it met with, for the audit trail.
pub open spec fn failed_command(command: Seq<char>, error: Seq<char>) -> AuditDetailView {
    AuditDetailView { command: Some(command), error: Some(error), ..no_detail() }
}

/// An error, for the audit trail.
pub open spec fn error_only(error: Seq<char>) -> AuditDetailView {
    AuditDetailView { error: Some(error), ..no_detail() }
}

/// A command that was run and its raw output, for the audit trail.
pub open spec fn run_detail(command: Seq<char>, out: ExecOutputView) -> AuditDetailView {
    AuditDetailView {
        command: Some(command),
        stdout: Some(out.stdout),
        stderr: Some(out.stderr),
        exit_code: Some(out.exit_code as i64),
        duration_ms: Some(out.duration_ms),
        error: None,
    }
}

fn failed_command_detail(command: &str, error: String) -> (r: AuditDetail)
    ensures
        r@ == failed_command(command@, error@),
{
    let mut detail = AuditDetail::of_command(owned(command));
    detail.error = Some(error);
    detail
}

/// Whether a refusal puts the event on record and answers with the message.
pub open spec fn refuses(
    refusal: Refusal,
    ctx: AuditCtxView,
    event: Seq<char>,
    detail: AuditDetailView,
    message: Seq<char>,
) -> bool {
    &&& records(refusal.entry@, ctx, event, detail)
    &&& refusal.error@ == invalid(message)
}

/// Whether a state differs from the one before only in that a request of a token
/// was counted that came at `now` and is recorded under `stamp`.
pub open spec fn counted(
    before: AppState,
    token_id: i64,
    now: u128,
    stamp: u128,
    after: AppState,
) -> bool {
    &&& after == (AppState { limiter: after.limiter, ..before })
    &&& after.limiter.wf()
    &&& after.limiter.limit() == before.limiter.limit()
    &&& after.limiter.times(token_id) == recorded_after(
        before.limiter.limit(),
        before.limiter.times(token_id),
        now,
        stamp,
    )
    &&& forall|t: i64|
        t != token_id ==> #[trigger] after.limiter.times(t) == before.limiter.times(t)
}

/// Whether a command was cleared or refused as it should be, given what the
/// authorizer said: what the authorizer blocks is refused and does not count toward
/// the rate, and whether anything else is refused depends on the rate alone.
pub open spec fn cleared_as(
    before: AppState,
    ctx: AuditCtxView,
    command: Seq<char>,
    verdict: Result<(), Error>,
    refusal: Option<Refusal>,
    after: AppState,
) -> bool {
    match verdict {
        Err(v) => {
            &&& after == before
            &&& refusal matches Some(x)
            &&& refuses(
                x,
                ctx,
                "exec_blocked"@,
                failed_command(command, v@.message()),
                v@.message(),
            )
        },
        Ok(()) => {
            &&& exists|now: u128, stamp: u128|
                {
                    &&& before.limiter.reading() <= now <= stamp == after.limiter.reading()
                    &&& #[trigger] counted(before, ctx.token_id, now, stamp, after)
                    &&& refusal is None <==> admits(
                        before.limiter.limit(),
                        before.limiter.times(ctx.token_id),
                        now,
                    )
                }
            &&& refusal matches Some(x) ==> refuses(
                x,
                ctx,
                "exec_rate_limited"@,
                error_only(limit_text(before.limiter.limit())),
                limit_text(before.limiter.limit()),
            )
            &&& before.limiter.limit() == 0 ==> refusal is None
        },
    }
}

/// The refusal in a result.
pub open spec fn refusal_of<T>(r: Result<T, Refusal>) -> Option<Refusal> {
    match r {
        Ok(_) => None,
        Err(x) => Some(x),
    }
}

/// What a caller is told of a one-shot command, given what the filter made of its
/// output. Without a filter it is told the output as it is; a filter that takes
/// the exit code away leaves it as it was.
pub open spec fn exec_reply_of(
    out: ExecOutputView,
    filtered: Option<CapturedOutputView>,
) -> ExecOutputView {
    match filtered {
        None => out,
        Some(f) => ExecOutputView {
            stdout: f.stdout,
            stderr: f.stderr,
            exit_code: match f.exit_code {
                Some(c) => c,
                None => out.exit_code,
            },
            ..out
        },
    }
}

/// What a filter is given of a one-shot command.
pub open spec fn exec_captured(out: ExecOutputView) -> CapturedOutputView {
    CapturedOutputView { stdout: out.stdout, stderr: out.stderr, exit_code: Some(out.exit_code) }
}

/// The outcome of a one-shot command: what is put on record, and what goes on to
/// the filter or the error.
pub struct ExecDone {
    pub entry: AuditEntry,
    pub result: Result<ExecOutput, ToolError>,
}

/// The job that a caller may use under an identifier, or the error.
pub open spec fn usable_job(jobs: Map<Seq<char>, BgJob>, job_id: Seq<char>, user_id: i64) -> Result<
    BgJob,
    ToolErrorView,
> {
    if !jobs.contains_key(job_id) {
        Err(invalid("unknown job_id"@))
    } else if jobs[job_id].user_id != user_id {
        Err(invalid("job does not belong to token"@))
    } else {
        Ok(jobs[job_id])
    }
}

/// The error for a session with too many jobs.
pub open spec fn jobs_error() -> ToolErrorView {
    invalid(
        "session already has "@ + decimal_digits(MAX_JOBS_PER_SESSION as nat)
            + " active background jobs"@,
    )
}

/// A background command that was started.
pub struct JobStarted {
    pub output: ExecStartOutput,
    pub entry: AuditEntry,
    /// The reader that is to follow the command.
    pub run: JobRun,
}

/// One poll of a background job, before a filter sees it.
pub struct Poll {
    pub output: ExecPollOutput,
    pub server_alias: String,
    pub command: String,
}

/// What a caller is told of a job whose streams carried `out` and `err`.
pub open spec fn is_poll_of(
    output: ExecPollOutput,
    job: BgJob,
    out: Seq<u8>,
    err: Seq<u8>,
    stdout_offset: u64,
    stderr_offset: u64,
) -> bool {
    let so = stream_read(out, stdout_offset as int);
    let se = stream_read(err, stderr_offset as int);
    &&& output.stdout@ == utf8_lossy(so.bytes)
    &&& output.stderr@ == utf8_lossy(se.bytes)
    &&& output.stdout_offset == so.next
    &&& output.stderr_offset == se.next
    &&& output.stdout_gap == so.gap
    &&& output.stderr_gap == se.gap
    &&& output.running == job.inner.running
    &&& output.exit_code == job.inner.exit_code
}

/// The offset that a caller reads from: the start, when it names none.
pub open spec fn offset_of(offset: Option<u64>) -> u64 {
    match offset {
        Some(n) => n,
        None => 0,
    }
}

/// A job that a caller stopped.
pub struct JobStopped {
    pub output: ExecStopOutput,
    pub entry: AuditEntry,
}

impl ConduitHandler {
    /// Execute a shell command in an open channel: finds the session. The
    /// authorizer is to be asked next.
    pub fn exec(&self, auth: &AuthContext, params: &ExecParams) -> (r: Result<ExecCall, ToolError>)
        requires
            self.state.wf(),
        ensures
            match (r, session_ctx(self.state.sessions@, params.session_id@, auth@)) {
                (Ok(call), Ok(v)) => {
                    &&& call.ctx@ == v
                    &&& call.command@ == params.command@
                    &&& call.timeout_secs == exec_timeout(params.timeout_secs)
                },
                (Err(e), Err(v)) => e@ == v,
                _ => false,
            },
            r matches Ok(call) ==> is_exec_call(call, *params),
    {
        match self.ctx_for(params.session_id.as_str(), auth) {
            Err(e) => Err(e),
            Ok(ctx) => {
                let secs: u64 = params.timeout_secs.unwrap_or(DEFAULT_EXEC_SECS);
                let timeout_secs: u64 = if secs > MAX_EXEC_SECS {
                    MAX_EXEC_SECS
                } else {
                    secs
                };
                Ok(ExecCall { ctx, command: params.command.clone(), timeout_secs })
            },
        }
    }

    /// Clears a command for running, given what the authorizer said of it. What the
    /// authorizer blocks is refused, and so is what exceeds the rate of the token.
    pub fn clear_command(&mut self, ctx: &AuditCtx, command: &str, verdict: Result<(), Error>) -> (r: Result<
        (),
        Refusal,
    >)
        requires
            old(self).state.wf(),
        ensures
            final(self).state.wf(),
            cleared_as(
                old(self).state,
                ctx@,
                command@,
                verdict,
                refusal_of(r),
                final(self).state,
            ),
    {
        match verdict {
            Err(e) => Err(Self::blocked(ctx, command, e)),
            Ok(()) => {
                let ghost before = self.state;
                let r = self.state.limiter.check_and_record(ctx.token_id);
                proof {
                    let (now, stamp) = choose|now: u128, stamp: u128|
                        {
                            &&& before.limiter.reading() <= now <= stamp
                                == self.state.limiter.reading()
                            &&& r is Ok <==> #[trigger] admits(
                                before.limiter.limit(),
                                before.limiter.times(ctx.token_id),
                                now,
                            )
                            &&& self.state.limiter.times(ctx.token_id)
                                == #[trigger] recorded_after(
                                before.limiter.limit(),
                                before.limiter.times(ctx.token_id),
                                now,
                                stamp,
                            )
                        };
                    assert(counted(before, ctx.token_id, now, stamp, self.state));
                }
                match r {
                    Ok(()) => Ok(()),
                    Err(m) => Err(Self::rate_limited(ctx, m)),
                }
            },
        }
    }

    /// Clears a one-shot command for running.
    pub fn exec_cleared(&mut self, call: ExecCall, verdict: Result<(), Error>) -> (r: Result<
        ClearedExec,
        Refusal,
    >)
        requires
            old(self).state.wf(),
        ensures
            final(self).state.wf(),
            cleared_as(
                old(self).state,
                call.ctx@,
                call.command@,
                verdict,
                refusal_of(r),
                final(self).state,
            ),
            r matches Ok(c) ==> c.call() == call,
    {
        match self.clear_command(&call.ctx, call.command.as_str(), verdict) {
            Ok(()) => Ok(ClearedExec { call }),
            Err(x) => Err(x),
        }
    }

    /// Clears a background command for starting.
    pub fn start_cleared(&mut self, call: StartCall, verdict: Result<(), Error>) -> (r: Result<
        ClearedStart,
        Refusal,
    >)
        requires
            old(self).state.wf(),
        ensures
            final(self).state.wf(),
            cleared_as(
                old(self).state,
                call.ctx@,
                call.command@,
                verdict,
                refusal_of(r),
                final(self).state,
            ),
            r matches Ok(c) ==> c.call() == call,
    {
        match self.clear_command(&call.ctx, call.command.as_str(), verdict) {
            Ok(()) => Ok(ClearedStart { call }),
            Err(x) => Err(x),
        }
    }

    /// The same for a request that comes at `now` on the monotonic clock and,
    /// where it is admitted, is recorded under `stamp`.
    pub fn clear_command_at(
        &mut self,
        ctx: &AuditCtx,
        command: &str,
        verdict: Result<(), Error>,
        now: u128,
        stamp: u128,
    ) -> (r: Result<(), Refusal>)
        requires
            old(self).state.wf(),
        ensures
            final(self).state.wf(),
            verdict matches Err(v) ==> {
                &&& *final(self) == *old(self)
                &&& r matches Err(x)
                &&& refuses(
                    x,
                    ctx@,
                    "exec_blocked"@,
                    failed_command(command@, v@.message()),
                    v@.message(),
                )
            },
            verdict is Ok ==> {
                &&& counted(old(self).state, ctx.token_id, now, stamp, final(self).state)
                &&& r is Ok <==> admits(
                    old(self).state.limiter.limit(),
                    old(self).state.limiter.times(ctx.token_id),
                    now,
                )
                &&& r matches Err(x) ==> refuses(
                    x,
                    ctx@,
                    "exec_rate_limited"@,
                    error_only(limit_text(old(self).state.limiter.limit())),
                    limit_text(old(self).state.limiter.limit()),
                )
            },
    {
        match verdict {
            Err(e) => Err(Self::blocked(ctx, command, e)),
            Ok(()) => match self.state.limiter.check_and_record_at(ctx.token_id, now, stamp) {
                Ok(()) => Ok(()),
                Err(m) => Err(Self::rate_limited(ctx, m)),
            },
        }
    }

    /// The refusal of a command that the authorizer blocks.
    fn blocked(ctx: &AuditCtx, command: &str, error: Error) -> (r: Refusal)
        ensures
            refuses(
                r,
                ctx@,
                "exec_blocked"@,
                failed_command(command@, error@.message()),
                error@.message(),
            ),
    {
        let message = error.to_string();
        let detail = failed_command_detail(command, message.clone());
        Refusal {
            entry: log(ctx, "exec_blocked", detail),
            error: ToolError::invalid_request(message),
        }
    }

    /// The refusal of a request that comes too soon.
    fn rate_limited(ctx: &AuditCtx, message: String) -> (r: Refusal)
        ensures
            refuses(r, ctx@, "exec_rate_limited"@, error_only(message@), message@),
    {
        let mut detail = AuditDetail::none();
        detail.error = Some(message.clone());
        Refusal {
            entry: log(ctx, "exec_rate_limited", detail),
            error: ToolError::invalid_request(message),
        }
    }

    /// Takes in the outcome of a one-shot command. The output is put on record as
    /// it came in; only what the caller receives goes through the filter.
    pub fn exec_finished(&mut self, cleared: ClearedExec, outcome: Result<ExecOutput, Error>) -> (r:
        ExecDone)
        requires
            old(self).state.wf(),
        ensures
            final(self).state.wf(),
            match (outcome, r.result) {
                (Ok(out), Ok(kept)) => {
                    let call = cleared.call();
                    &&& kept@ == out@
                    &&& records(r.entry@, call.ctx@, "exec"@, run_detail(call.command@, out@))
                    &&& touched(old(self).state, call.ctx.session_id@, final(self).state)
                },
                (Err(v), Err(e)) => {
                    let call = cleared.call();
                    &&& *final(self) == *old(self)
                    &&& e@ == internal(v@.message())
                    &&& records(
                        r.entry@,
                        call.ctx@,
                        "exec_error"@,
                        failed_command(call.command@, v@.message()),
                    )
                },
                _ => false,
            },
            is_outcome_of(r, cleared.call(), outcome),
    {
        let call = cleared.call;
        match outcome {
            Ok(out) => {
                self.state.touch_session(call.ctx.session_id.as_str());
                let mut detail = AuditDetail::of_command(call.command.clone());
                detail.stdout = Some(out.stdout.clone());
                detail.stderr = Some(out.stderr.clone());
                detail.exit_code = Some(out.exit_code as i64);
                detail.duration_ms = Some(out.duration_ms);
                let entry = log(&call.ctx, "exec", detail);
                ExecDone { entry, result: Ok(out) }
            },
            Err(e) => {
                let message = e.to_string();
                let detail = failed_command_detail(call.command.as_str(), message.clone());
                ExecDone {
                    entry: log(&call.ctx, "exec_error", detail),
                    result: Err(ToolError::internal_error(message)),
                }
            },
        }
    }

    /// What a filter is given of the outcome of a one-shot command.
    pub fn to_filter(out: &ExecOutput) -> (r: CapturedOutput)
        ensures
            r@ == exec_captured(out@),
    {
        CapturedOutput {
            stdout: out.stdout.clone(),
            stderr: out.stderr.clone(),
            exit_code: Some(out.exit_code),
        }
    }

    /// The answer to the caller of a one-shot command, given what the filter made
    /// of the output, where there is a filter.
    pub fn exec_reply(out: ExecOutput, filtered: Option<CapturedOutput>) -> (r:
        crate::params::ExecOutput)
        ensures
            r@ == exec_reply_of(
                out@,
                match filtered {
                    Some(f) => Some(f@),
                    None => None,
                },
            ),
    {
        let (stdout, stderr, exit_code) = match filtered {
            None => (out.stdout, out.stderr, out.exit_code),
            Some(f) => (f.stdout, f.stderr, f.exit_code.unwrap_or(out.exit_code)),
        };
        crate::params::ExecOutput {
            stdout,
            stderr,
            exit_code,
            duration_ms: out.duration_ms,
            truncated: out.truncated,
        }
    }

    /// Start a long-running command in the background: finds the session. The
    /// authorizer is to be asked next.
    pub fn exec_start(&self, auth: &AuthContext, params: &ExecStartParams) -> (r: Result<
        StartCall,
        ToolError,
    >)
        requires
            self.state.wf(),
        ensures
            match (r, session_ctx(self.state.sessions@, params.session_id@, auth@)) {
                (Ok(call), Ok(v)) => {
                    &&& call.ctx@ == v
                    &&& call.command@ == params.command@
                    &&& call.limit_secs == job_limit(params.max_runtime_secs)
                },
                (Err(e), Err(v)) => e@ == v,
                _ => false,
            },
            r matches Ok(call) ==> is_start_call(call, *params),
    {
        match self.ctx_for(params.session_id.as_str(), auth) {
            Err(e) => Err(e),
            Ok(ctx) => Ok(
                StartCall {
                    ctx,
                    command: params.command.clone(),
                    limit_secs: job_limit_secs(params.max_runtime_secs),
                },
            ),
        }
    }

    /// A slot with a fresh identifier for a job on the session, unless the session
    /// has too many running ones.
    pub fn job_slot(&self, cleared: ClearedStart) -> (r: Result<JobSlot, ToolError>)
        requires
            self.state.wf(),
        ensures
            r is Ok <==> running_jobs_of(self.state.jobs@, cleared.call().ctx.session_id@).len()
                < MAX_JOBS_PER_SESSION,
            r is Ok <==> has_job_room(self.state.jobs@, cleared.call().ctx.session_id@),
            r matches Ok(slot) ==> slot.call() == cleared.call() && is_prefixed_id(
                "job_"@,
                slot.job_id(),
            ),
            r matches Err(e) ==> e@ == jobs_error(),
    {
        let call = cleared.call;
        let running = self.state.running_jobs(call.ctx.session_id.as_str());
        if running >= MAX_JOBS_PER_SESSION {
            return Err(
                ToolError::invalid_request(
                    join3(
                        "session already has ",
                        decimal(MAX_JOBS_PER_SESSION as u128).as_str(),
                        " active background jobs",
                    ),
                ),
            );
        }
        Ok(JobSlot { call, job_id: job_id() })
    }

    /// Takes in a background command that was started, or the failure to start
    /// it.
    pub fn exec_started(&mut self, slot: JobSlot, started: Result<(), ChannelFailure>) -> (r: Result<
        JobStarted,
        ToolError,
    >)
        requires
            old(self).state.wf(),
        ensures
            final(self).state.wf(),
            match (started, r) {
                (Err(f), Err(e)) => {
                    &&& *final(self) == *old(self)
                    &&& e@ == internal(channel_error_of(f).message())
                },
                (Ok(()), Ok(s)) => {
                    let call = slot.call();
                    let job_id = slot.job_id();
                    let job = final(self).state.jobs@[job_id];
                    &&& final(self).state.same_settings(&old(self).state)
                    &&& 0 <= final(self).state.clock.reading() <= LAST_SECOND
                    &&& final(self).state.sessions@ == used_at(
                        old(self).state.sessions@,
                        call.ctx.session_id@,
                        final(self).state.clock.reading(),
                    )
                    &&& final(self).state.jobs@ == old(self).state.jobs@.insert(job_id, job)
                    &&& is_new_job(job, job_id, call.ctx@, call.command@)
                    &&& s.output.job_id@ == job_id
                    &&& s.output.session_id@ == call.ctx.session_id@
                    &&& s.output.started_at@ == rfc3339_text(
                        job.started_at.secs,
                        job.started_at.nanos,
                    )
                    &&& records(
                        s.entry@,
                        call.ctx@,
                        "exec_start"@,
                        (AuditDetailView { command: Some(call.command@), ..no_detail() }),
                    )
                    &&& s.run.ctx() == call.ctx@
                    &&& s.run.command() == call.command@
                    &&& s.run.exit_code() is None
                },
                _ => false,
            },
            r matches Ok(s) ==> is_start_of(
                s,
                slot.call(),
                slot.job_id(),
                final(self).state.jobs@[slot.job_id()],
            ),
            r is Ok <==> started is Ok,
    {
        let call = slot.call;
        let job_id = slot.job_id;
        match SshSession::start_job(job_id.clone(), &call.ctx, call.command.clone(), started) {
            Err(e) => Err(ToolError::internal_error(e.to_string())),
            Ok(job) => {
                let started_at = job.started_at;
                self.state.touch_session(call.ctx.session_id.as_str());
                self.state.jobs.insert(job_id.as_str(), job);
                assert(self.state.jobs@ =~= old(self).state.jobs@.insert(
                    job_id@,
                    self.state.jobs@[job_id@],
                ));
                let entry = log(
                    &call.ctx,
                    "exec_start",
                    AuditDetail::of_command(call.command.clone()),
                );
                let run = JobRun::new(call.ctx.clone(), call.command.clone());
                Ok(
                    JobStarted {
                        output: ExecStartOutput {
                            job_id,
                            session_id: call.ctx.session_id.clone(),
                            started_at: to_rfc3339(started_at),
                        },
                        entry,
                        run,
                    },
                )
            },
        }
    }

    /// The job under an identifier, if the caller may use it.
    pub fn job_for(&self, job_id: &str, auth: &AuthContext) -> (r: Result<&BgJob, ToolError>)
        requires
            self.state.wf(),
        ensures
            match (r, usable_job(self.state.jobs@, job_id@, auth.user_id)) {
                (Ok(j), Ok(v)) => *j == v,
                (Err(e), Err(v)) => e@ == v,
                _ => false,
            },
    {
        match self.state.jobs.get(job_id) {
            None => Err(ToolError::invalid_request(owned("unknown job_id"))),
            Some(j) => {
                if j.user_id != auth.user_id {
                    Err(ToolError::invalid_request(owned("job does not belong to token")))
                } else {
                    Ok(j)
                }
            },
        }
    }

    /// Read newly captured output from a background job. Polling counts as
    /// activity, so the idle reaper keeps the underlying session alive while a
    /// job is being monitored.
    pub fn exec_poll(&mut self, auth: &AuthContext, params: &ExecPollParams) -> (r: Result<
        Poll,
        ToolError,
    >)
        requires
            old(self).state.wf(),
        ensures
            final(self).state.wf(),
            match (r, usable_job(old(self).state.jobs@, params.job_id@, auth.user_id)) {
                (Err(e), Err(v)) => *final(self) == *old(self) && e@ == v,
                (Ok(p), Ok(job)) => {
                    &&& touched(old(self).state, job.session_id@, final(self).state)
                    &&& p.server_alias@ == job.server_alias@
                    &&& p.command@ == job.command@
                    &&& forall|out: Seq<u8>, err: Seq<u8>| #[trigger]
                        job.holds(out, err) ==> is_poll_of(
                            p.output,
                            job,
                            out,
                            err,
                            offset_of(params.stdout_offset),
                            offset_of(params.stderr_offset),
                        )
                },
                _ => false,
            },
            r matches Ok(p) ==> is_poll_about(p, old(self).state.jobs@[params.job_id@]),
    {
        let (poll, session_id) = match self.job_for(params.job_id.as_str(), auth) {
            Err(e) => {
                return Err(e);
            },
            Ok(job) => {
                assert(self.state.jobs@.contains_key(params.job_id@));
                let snap = job.read(
                    params.stdout_offset.unwrap_or(0),
                    params.stderr_offset.unwrap_or(0),
                );
                let output = ExecPollOutput {
                    stdout: from_utf8_lossy(snap.stdout.as_slice()),
                    stderr: from_utf8_lossy(snap.stderr.as_slice()),
                    stdout_offset: snap.stdout_offset,
                    stderr_offset: snap.stderr_offset,
                    stdout_gap: snap.stdout_gap,
                    stderr_gap: snap.stderr_gap,
                    running: snap.running,
                    exit_code: snap.exit_code,
                };
                (
                    Poll {
                        output,
                        server_alias: job.server_alias.clone(),
                        command: job.command.clone(),
                    },
                    job.session_id.clone(),
                )
            },
        };
        self.state.touch_session(session_id.as_str());
        Ok(poll)
    }

    /// What a filter is given of a poll.
    pub fn chunk_to_filter(poll: &Poll) -> (r: CapturedOutput)
        ensures
            r.stdout@ == poll.output.stdout@,
            r.stderr@ == poll.output.stderr@,
            r.exit_code == poll.output.exit_code,
            passes_chunk(*poll, r@),
    {
        CapturedOutput {
            stdout: poll.output.stdout.clone(),
            stderr: poll.output.stderr.clone(),
            exit_code: poll.output.exit_code,
        }
    }

    /// The answer to a poll, given what the filter made of the chunk, where there
    /// is a filter.
    pub fn poll_reply(poll: Poll, filtered: Option<CapturedOutput>) -> (r: ExecPollOutput)
        ensures
            filtered is None ==> r == poll.output,
            filtered matches Some(f) ==> r == (ExecPollOutput {
                stdout: f.stdout,
                stderr: f.stderr,
                exit_code: f.exit_code,
                ..poll.output
            }),
            is_poll_reply(poll.output, filtered, r),
    {
        match filtered {
            None => poll.output,
            Some(f) => ExecPollOutput {
                stdout: f.stdout,
                stderr: f.stderr,
                exit_code: f.exit_code,
                stdout_offset: poll.output.stdout_offset,
                stderr_offset: poll.output.stderr_offset,
                stdout_gap: poll.output.stdout_gap,
                stderr_gap: poll.output.stderr_gap,
                running: poll.output.running,
            },
        }
    }

    /// Stop a background job and free it. The reader is to be told.
    pub fn exec_stop(&mut self, auth: &AuthContext, params: &ExecStopParams) -> (r: Result<
        JobStopped,
        ToolError,
    >)
        requires
            old(self).state.wf(),
        ensures
            final(self).state.wf(),
            match (r, usable_job(old(self).state.jobs@, params.job_id@, auth.user_id)) {
                (Err(e), Err(v)) => *final(self) == *old(self) && e@ == v,
                (Ok(s), Ok(job)) => {
                    &&& final(self).state.same_but_sessions_and_jobs(&old(self).state)
                    &&& final(self).state.sessions == old(self).state.sessions
                    &&& final(self).state.jobs@ == old(self).state.jobs@.remove(params.job_id@)
                    &&& s.output.stopped
                    &&& records(
                        s.entry@,
                        audit_ctx_of(auth@, job.server_alias@, job.session_id@),
                        "exec_stop"@,
                        (AuditDetailView { command: Some(job.command@), ..no_detail() }),
                    )
                },
                _ => false,
            },
            r matches Ok(s) ==> is_stop_of(s, auth@, old(self).state.jobs@[params.job_id@]),
    {
        let entry = match self.job_for(params.job_id.as_str(), auth) {
            Err(e) => {
                return Err(e);
            },
            Ok(job) => {
                let ctx = Self::audit_ctx(
                    auth,
                    job.server_alias.as_str(),
                    job.session_id.as_str(),
                );
                log(&ctx, "exec_stop", AuditDetail::of_command(job.command.clone()))
            },
        };
        self.state.jobs.remove(params.job_id.as_str());
        Ok(JobStopped { output: ExecStopOutput { stopped: true }, entry })
    }
}

/// Without a filter the caller receives what the command gave, which is also what
/// is put on record; and so it does with a filter that leaves its input as it is.
pub proof fn law_no_filter_passes_through(command: Seq<char>, out: ExecOutputView)
    ensures
        exec_reply_of(out, None) == out,
        exec_reply_of(out, Some(exec_captured(out))) == out,
        run_detail(command, out).stdout == Some(exec_reply_of(out, None).stdout),
        run_detail(command, out).stderr == Some(exec_reply_of(out, None).stderr),
{
}

/// No filter can change how long a command took or whether its output was cut.
pub proof fn law_filter_leaves_the_facts(out: ExecOutputView, filtered: Option<CapturedOutputView>)
    ensures
        exec_reply_of(out, filtered).duration_ms == out.duration_ms,
        exec_reply_of(out, filtered).truncated == out.truncated,
{
}

/// A one-shot command never gets longer than the longest timeout, and gets what
/// was asked for up to there.
pub proof fn law_exec_timeout_is_bounded(timeout_secs: Option<u64>)
    ensures
        exec_timeout(timeout_secs) <= MAX_EXEC_SECS,
        timeout_secs matches Some(n) ==> n <= MAX_EXEC_SECS ==> exec_timeout(timeout_secs) == n,
{
}

/// A job can be polled and stopped by the user who started it, and by nobody
/// else.
pub proof fn law_jobs_are_private(
    jobs: Map<Seq<char>, BgJob>,
    job_id: Seq<char>,
    user_id: i64,
)
    ensures
        usable_job(jobs, job_id, user_id) is Ok <==> jobs.contains_key(job_id)
            && jobs[job_id].user_id == user_id,
{
}

/// A job that has been stopped cannot be found any more, by anybody.
pub proof fn law_stopped_jobs_are_unknown(
    jobs: Map<Seq<char>, BgJob>,
    job_id: Seq<char>,
    user_id: i64,
)
    ensures
        usable_job(jobs.remove(job_id), job_id, user_id) == Err::<BgJob, ToolErrorView>(
            invalid("unknown job_id"@),
        ),
{
}

/// A session that had room for a job when it was started has at most eight
/// running jobs with it.
pub proof fn law_running_jobs_are_bounded(
    jobs: Map<Seq<char>, BgJob>,
    ctx: AuditCtxView,
    job_id: Seq<char>,
    job: BgJob,
    command: Seq<char>,
)
    requires
        jobs.dom().finite(),
        running_jobs_of(jobs, ctx.session_id).len() < MAX_JOBS_PER_SESSION,
        is_new_job(job, job_id, ctx, command),
    ensures
        running_jobs_of(jobs.insert(job_id, job), ctx.session_id).len() <= MAX_JOBS_PER_SESSION,
{
    let before = running_jobs_of(jobs, ctx.session_id);
    let after = running_jobs_of(jobs.insert(job_id, job), ctx.session_id);
    assert(before.subset_of(jobs.dom()));
    vstd::set_lib::lemma_len_subset(before, jobs.dom());
    assert(after =~= before.insert(job_id));
}

/// A poll tells of each stream what that stream carried from the caller's offset on, as
/// far as it is retained, the offset to go on from, and whether something is missing.
pub proof fn law_poll_tells_each_stream(
    output: ExecPollOutput,
    job: BgJob,
    out: Seq<u8>,
    err: Seq<u8>,
    stdout_offset: u64,
    stderr_offset: u64,
)
    requires
        is_poll_of(output, job, out, err, stdout_offset, stderr_offset),
    ensures
        out.len() - 2_097_152 <= stdout_offset <= out.len() ==> output.stdout@ == utf8_lossy(
            out.skip(stdout_offset as int),
        ),
        err.len() - 2_097_152 <= stderr_offset <= err.len() ==> output.stderr@ == utf8_lossy(
            err.skip(stderr_offset as int),
        ),
        stdout_offset >= out.len() ==> output.stdout@ == utf8_lossy(Seq::empty()),
        stderr_offset >= err.len() ==> output.stderr@ == utf8_lossy(Seq::empty()),
        stdout_offset < out.len() - 2_097_152 ==> output.stdout@ == utf8_lossy(
            out.skip(out.len() - 2_097_152),
        ),
        stderr_offset < err.len() - 2_097_152 ==> output.stderr@ == utf8_lossy(
            err.skip(err.len() - 2_097_152),
        ),
        output.stdout_gap <==> stdout_offset < out.len() - 2_097_152,
        output.stderr_gap <==> stderr_offset < err.len() - 2_097_152,
        output.stdout_offset == out.len(),
        output.stderr_offset == err.len(),
        output.running <==> job.inner.running,
        output.exit_code == job.inner.exit_code,
{
    assert(out.len() == stdout_offset ==> out.skip(stdout_offset as int) =~= Seq::<u8>::empty());
    assert(err.len() == stderr_offset ==> err.skip(stderr_offset as int) =~= Seq::<u8>::empty());
}

/// What a job wrote to one stream makes no difference to what a poll tells of the other:
/// two jobs with the same error stream are told alike of it, and two with the same output
/// stream are told alike of that.
pub proof fn law_poll_keeps_streams_apart(
    a: ExecPollOutput,
    b: ExecPollOutput,
    job_a: BgJob,
    job_b: BgJob,
    stream: Seq<u8>,
    other_a: Seq<u8>,
    other_b: Seq<u8>,
    offset: u64,
    other_offset: u64,
)
    ensures
        is_poll_of(a, job_a, other_a, stream, other_offset, offset) && is_poll_of(
            b,
            job_b,
            other_b,
            stream,
            other_offset,
            offset,
        ) ==> a.stderr@ == b.stderr@ && a.stderr_offset == b.stderr_offset && a.stderr_gap
            == b.stderr_gap,
        is_poll_of(a, job_a, stream, other_a, offset, other_offset) && is_poll_of(
            b,
            job_b,
            stream,
            other_b,
            offset,
            other_offset,
        ) ==> a.stdout@ == b.stdout@ && a.stdout_offset == b.stdout_offset && a.stdout_gap
            == b.stdout_gap,
        is_poll_of(a, job_a, stream, other_a, offset, other_offset) && is_poll_of(
            b,
            job_b,
            other_b,
            stream,
            other_offset,
            offset,
        ) ==> a.stdout@ == b.stderr@,
{
}

/// A poll that goes on from the offsets of the one before is told exactly what the job
/// wrote in between, on each stream, as long as that is not more than is retained.
pub proof fn law_polls_continue(
    first: ExecPollOutput,
    second: ExecPollOutput,
    job: BgJob,
    later: BgJob,
    out: Seq<u8>,
    err: Seq<u8>,
    more_out: Seq<u8>,
    more_err: Seq<u8>,
    stdout_offset: u64,
    stderr_offset: u64,
)
    requires
        is_poll_of(first, job, out, err, stdout_offset, stderr_offset),
        is_poll_of(
            second,
            later,
            out + more_out,
            err + more_err,
            first.stdout_offset,
            first.stderr_offset,
        ),
        more_out.len() <= 2_097_152,
        more_err.len() <= 2_097_152,
    ensures
        second.stdout@ == utf8_lossy(more_out),
        second.stderr@ == utf8_lossy(more_err),
        !second.stdout_gap,
        !second.stderr_gap,
{
    assert((out + more_out).skip(out.len() as int) =~= more_out);
    assert((err + more_err).skip(err.len() as int) =~= more_err);
    law_poll_tells_each_stream(first, job, out, err, stdout_offset, stderr_offset);
    law_poll_tells_each_stream(
        second,
        later,
        out + more_out,
        err + more_err,
        first.stdout_offset,
        first.stderr_offset,
    );
}

/// A caller who names an offset reads from there, and one who names none reads from the
/// start.
pub proof fn law_offsets_are_as_named(offset: Option<u64>)
    ensures
        offset matches Some(n) ==> offset_of(offset) == n,
        offset is None ==> offset_of(offset) == 0,
{
}

/// A one-shot command gets a minute when the caller does not say, what it asks for up to
/// ten minutes, and ten minutes when it asks for more.
pub proof fn law_exec_timeout_is_as_asked(timeout_secs: Option<u64>)
    ensures
        timeout_secs is None ==> exec_timeout(timeout_secs) == 60,
        timeout_secs matches Some(n) ==> (n <= 600 ==> exec_timeout(timeout_secs) == n) && (n
            > 600 ==> exec_timeout(timeout_secs) == 600),
{
}

/// A command that was run is put on record with both its streams, each as what it is, its
/// exit code and its duration; one that failed with its error, and no output.
pub proof fn law_runs_are_recorded_whole(
    command: Seq<char>,
    out: ExecOutputView,
    error: Seq<char>,
)
    ensures
        run_detail(command, out).command == Some(command),
        run_detail(command, out).stdout == Some(out.stdout),
        run_detail(command, out).stderr == Some(out.stderr),
        run_detail(command, out).exit_code == Some(out.exit_code as i64),
        run_detail(command, out).exit_code->0 == out.exit_code,
        run_detail(command, out).duration_ms == Some(out.duration_ms),
        run_detail(command, out).error is None,
        failed_command(command, error).command == Some(command),
        failed_command(command, error).error == Some(error),
        failed_command(command, error).stdout is None,
        failed_command(command, error).stderr is None,
        failed_command(command, error).exit_code is None,
        failed_command(command, error).duration_ms is None,
        error_only(error).error == Some(error),
        error_only(error).command is None,
        error_only(error).stdout is None,
        error_only(error).stderr is None,
        error_only(error).exit_code is None,
        error_only(error).duration_ms is None,
{
}

/// A filter is given both streams of a command, each as what it is, and its exit code.
/// What it makes of them is what the caller is told; an exit code that it takes away
/// stays as it was.
pub proof fn law_filter_decides_the_text(out: ExecOutputView, f: CapturedOutputView)
    ensures
        exec_captured(out).stdout == out.stdout,
        exec_captured(out).stderr == out.stderr,
        exec_captured(out).exit_code == Some(out.exit_code),
        exec_reply_of(out, Some(f)).stdout == f.stdout,
        exec_reply_of(out, Some(f)).stderr == f.stderr,
        f.exit_code matches Some(c) ==> exec_reply_of(out, Some(f)).exit_code == c,
        f.exit_code is None ==> exec_reply_of(out, Some(f)).exit_code == out.exit_code,
        exec_reply_of(out, None).stdout == out.stdout,
        exec_reply_of(out, None).stderr == out.stderr,
        exec_reply_of(out, None).exit_code == out.exit_code,
{
}

/// A command that the authorizer blocks is refused with the authorizer's words, is put on
/// record as blocked, and changes nothing: it does not count toward the rate.
pub proof fn law_blocked_commands_change_nothing(
    before: AppState,
    ctx: AuditCtxView,
    command: Seq<char>,
    verdict: Result<(), Error>,
    refusal: Option<Refusal>,
    after: AppState,
)
    requires
        cleared_as(before, ctx, command, verdict, refusal, after),
        verdict is Err,
    ensures
        after == before,
        refusal is Some,
        refusal->0.error.kind == crate::tools::ToolErrorKind::InvalidRequest,
        refusal->0.error.message@ == verdict->Err_0@.message(),
        refusal->0.entry.event@ == "exec_blocked"@,
        crate::text::opt_text(refusal->0.entry.command) == Some(command),
        crate::text::opt_text(refusal->0.entry.error) == Some(verdict->Err_0@.message()),
        refusal->0.entry.user_id == ctx.user_id,
        refusal->0.entry.token_id == ctx.token_id,
        refusal->0.entry.server_alias@ == ctx.server_alias,
        refusal->0.entry.session_id@ == ctx.session_id,
{
}

/// A command that the authorizer lets pass is refused only for its rate, with words and a
/// record that say so. Whether it is refused or not, sessions, jobs and uploads stay as
/// they were, and so do the request times of every other token.
pub proof fn law_rate_alone_refuses_the_rest(
    before: AppState,
    ctx: AuditCtxView,
    command: Seq<char>,
    verdict: Result<(), Error>,
    refusal: Option<Refusal>,
    after: AppState,
    other: i64,
)
    requires
        cleared_as(before, ctx, command, verdict, refusal, after),
        verdict is Ok,
        other != ctx.token_id,
    ensures
        after.sessions == before.sessions,
        after.jobs == before.jobs,
        after.ingest == before.ingest,
        after.clock == before.clock,
        after.idle_timeout_secs == before.idle_timeout_secs,
        after.max_download_bytes == before.max_download_bytes,
        after.limiter.limit() == before.limiter.limit(),
        after.limiter.times(other) == before.limiter.times(other),
        before.limiter.limit() == 0 ==> refusal is None,
        refusal is Some ==> {
            &&& refusal->0.error.kind == crate::tools::ToolErrorKind::InvalidRequest
            &&& refusal->0.error.message@ == "rate limit exceeded: "@ + decimal_digits(
                before.limiter.limit() as nat,
            ) + "/min"@
            &&& refusal->0.entry.event@ == "exec_rate_limited"@
            &&& crate::text::opt_text(refusal->0.entry.error) == Some(
                refusal->0.error.message@,
            )
            &&& refusal->0.entry.user_id == ctx.user_id
            &&& refusal->0.entry.token_id == ctx.token_id
            &&& refusal->0.entry.session_id@ == ctx.session_id
        },
        exists|now: u128, stamp: u128|
            {
                &&& before.limiter.reading() <= now <= stamp
                &&& stamp == after.limiter.reading()
                &&& refusal is None <==> #[trigger] admits(
                    before.limiter.limit(),
                    before.limiter.times(ctx.token_id),
                    now,
                )
                &&& after.limiter.times(ctx.token_id) == #[trigger] recorded_after(
                    before.limiter.limit(),
                    before.limiter.times(ctx.token_id),
                    now,
                    stamp,
                )
            },
{
    let (now, stamp) = choose|now: u128, stamp: u128|
        {
            &&& before.limiter.reading() <= now <= stamp == after.limiter.reading()
            &&& #[trigger] counted(before, ctx.token_id, now, stamp, after)
            &&& refusal is None <==> admits(
                before.limiter.limit(),
                before.limiter.times(ctx.token_id),
                now,
            )
        };
    assert(counted(before, ctx.token_id, now, stamp, after));
}

/// A caller is given the very job it names, or told that there is none by that name, or
/// that it is not the caller's.
pub proof fn law_job_is_the_one_named(
    jobs: Map<Seq<char>, BgJob>,
    job_id: Seq<char>,
    user_id: i64,
)
    ensures
        jobs.contains_key(job_id) && jobs[job_id].user_id == user_id ==> usable_job(
            jobs,
            job_id,
            user_id,
        ) == Ok::<BgJob, ToolErrorView>(jobs[job_id]),
        !jobs.contains_key(job_id) ==> usable_job(jobs, job_id, user_id) == Err::<
            BgJob,
            ToolErrorView,
        >(invalid("unknown job_id"@)),
        jobs.contains_key(job_id) && jobs[job_id].user_id != user_id ==> usable_job(
            jobs,
            job_id,
            user_id,
        ) == Err::<BgJob, ToolErrorView>(invalid("job does not belong to token"@)),
{
}

/// The refusal of a ninth job names the limit.
pub proof fn law_too_many_jobs_are_named()
    ensures
        jobs_error().kind == crate::tools::ToolErrorKind::InvalidRequest,
        jobs_error().message == "session already has "@ + decimal_digits(8)
            + " active background jobs"@,
        MAX_JOBS_PER_SESSION == 8,
{
}

/// Whether a call is for the command, and within the time, that the parameters ask for.
pub open spec fn is_exec_call(call: ExecCall, params: ExecParams) -> bool {
    call.command@ == params.command@ && call.timeout_secs == exec_timeout(params.timeout_secs)
}

/// Whether a call is for the command, and within the time, that the parameters ask for.
pub open spec fn is_start_call(call: StartCall, params: ExecStartParams) -> bool {
    call.command@ == params.command@ && call.limit_secs == job_limit(params.max_runtime_secs)
}

/// The very command that was asked for is run, whatever it holds, within the time that
/// was asked for, as far as it is allowed.
pub proof fn law_command_is_run_as_asked(
    call: ExecCall,
    params: ExecParams,
    start: StartCall,
    start_params: ExecStartParams,
)
    requires
        is_exec_call(call, params),
        is_start_call(start, start_params),
    ensures
        call.command@ == params.command@,
        params.timeout_secs matches Some(n) ==> n <= 600 ==> call.timeout_secs == n,
        params.timeout_secs matches Some(n) ==> n > 600 ==> call.timeout_secs == 600,
        params.timeout_secs is None ==> call.timeout_secs == 60,
        start.command@ == start_params.command@,
        start_params.max_runtime_secs is None ==> start.limit_secs == 1800,
        start_params.max_runtime_secs matches Some(n) ==> 1 <= n <= 86_400 ==> start.limit_secs
            == n,
        start_params.max_runtime_secs matches Some(n) ==> n > 86_400 ==> start.limit_secs
            == 86_400,
{
}

/// Whether a session has room for another job.
pub open spec fn has_job_room(jobs: Map<Seq<char>, BgJob>, session_id: Seq<char>) -> bool {
    running_jobs_of(jobs, session_id).len() < MAX_JOBS_PER_SESSION
}

/// A session has room for another job exactly where fewer than eight of its jobs run;
/// jobs of other sessions, and jobs that have ended, do not count.
pub proof fn law_job_room_is_eight(
    jobs: Map<Seq<char>, BgJob>,
    session_id: Seq<char>,
    running: Set<Seq<char>>,
)
    requires
        forall|k: Seq<char>| #[trigger]
            running.contains(k) <==> jobs.contains_key(k) && jobs[k].session_id@ == session_id
                && jobs[k].inner.running,
    ensures
        has_job_room(jobs, session_id) <==> running.len() < 8,
{
    assert(running =~= running_jobs_of(jobs, session_id));
}

/// Whether the start of a job is answered and put on record as it should be.
pub open spec fn is_start_of(
    started: JobStarted,
    call: StartCall,
    job_id: Seq<char>,
    job: BgJob,
) -> bool {
    &&& started.output.job_id@ == job_id
    &&& started.output.session_id@ == call.ctx.session_id@
    &&& started.output.started_at@ == rfc3339_text(job.started_at.secs, job.started_at.nanos)
    &&& is_new_job(job, job_id, call.ctx@, call.command@)
    &&& records(
        started.entry@,
        call.ctx@,
        "exec_start"@,
        (AuditDetailView { command: Some(call.command@), ..no_detail() }),
    )
    &&& started.run.ctx() == call.ctx@
    &&& started.run.command() == call.command@
}

/// The caller of a job that was started is told its identifier, its session and when it
/// was started; the job runs the command that was asked for, and so it stands on record,
/// put down to the caller.
pub proof fn law_start_is_answered(
    started: JobStarted,
    call: StartCall,
    job_id: Seq<char>,
    job: BgJob,
)
    requires
        is_start_of(started, call, job_id, job),
    ensures
        started.output.job_id@ == job_id,
        started.output.session_id@ == call.ctx.session_id@,
        started.output.started_at@ == rfc3339_text(job.started_at.secs, job.started_at.nanos),
        job.id@ == job_id,
        job.command@ == call.command@,
        job.user_id == call.ctx.user_id,
        job.session_id@ == call.ctx.session_id@,
        job.server_alias@ == call.ctx.server_alias@,
        job.inner.running,
        started.entry.event@ == "exec_start"@,
        crate::text::opt_text(started.entry.command) == Some(call.command@),
        started.entry.error is None,
        started.entry.user_id == call.ctx.user_id,
        started.entry.token_id == call.ctx.token_id,
        started.entry.session_id@ == call.ctx.session_id@,
        started.entry.server_alias@ == call.ctx.server_alias@,
        started.run.command() == call.command@,
{
}

/// Whether a poll is about the job.
pub open spec fn is_poll_about(poll: Poll, job: BgJob) -> bool {
    &&& poll.server_alias@ == job.server_alias@
    &&& poll.command@ == job.command@
    &&& poll.output.running == job.inner.running
    &&& poll.output.exit_code == job.inner.exit_code
    &&& poll.output.stdout_offset == job.inner.out.length()
    &&& poll.output.stderr_offset == job.inner.err.length()
    &&& forall|out: Seq<u8>, err: Seq<u8>| #[trigger]
        job.holds(out, err) ==> poll.output.stdout_offset == out.len()
            && poll.output.stderr_offset == err.len()
}

/// A poll tells of the job that was named: its command and server to the filter, and to
/// the caller whether it runs, its exit code, and how far each of its streams has come.
pub proof fn law_poll_is_about_its_job(poll: Poll, job: BgJob, out: Seq<u8>, err: Seq<u8>)
    requires
        is_poll_about(poll, job),
        job.holds(out, err),
    ensures
        poll.command@ == job.command@,
        poll.server_alias@ == job.server_alias@,
        poll.output.running <==> job.inner.running,
        poll.output.exit_code == job.inner.exit_code,
        poll.output.stdout_offset == out.len(),
        poll.output.stderr_offset == err.len(),
{
}

/// Whether a filter is given the chunk of a poll.
pub open spec fn passes_chunk(poll: Poll, chunk: CapturedOutputView) -> bool {
    &&& chunk.stdout == poll.output.stdout@
    &&& chunk.stderr == poll.output.stderr@
    &&& chunk.exit_code == poll.output.exit_code
}

/// Whether a poll is answered with what the filter made of it.
pub open spec fn is_poll_reply(
    output: ExecPollOutput,
    filtered: Option<CapturedOutput>,
    reply: ExecPollOutput,
) -> bool {
    &&& filtered is None ==> reply == output
    &&& filtered matches Some(f) ==> reply.stdout@ == f.stdout@ && reply.stderr@ == f.stderr@
        && reply.exit_code == f.exit_code
    &&& reply.stdout_offset == output.stdout_offset
    &&& reply.stderr_offset == output.stderr_offset
    &&& reply.stdout_gap == output.stdout_gap
    &&& reply.stderr_gap == output.stderr_gap
    &&& reply.running == output.running
}

/// A filter is given each stream of a poll as what it is, and decides their text; it
/// cannot change where the caller goes on reading, nor whether the job runs.
pub proof fn law_filter_leaves_the_offsets(
    poll: Poll,
    chunk: CapturedOutputView,
    filtered: Option<CapturedOutput>,
    reply: ExecPollOutput,
)
    requires
        passes_chunk(poll, chunk),
        is_poll_reply(poll.output, filtered, reply),
    ensures
        chunk.stdout == poll.output.stdout@,
        chunk.stderr == poll.output.stderr@,
        chunk.exit_code == poll.output.exit_code,
        filtered is None ==> reply.stdout@ == poll.output.stdout@ && reply.stderr@
            == poll.output.stderr@ && reply.exit_code == poll.output.exit_code,
        filtered matches Some(f) ==> reply.stdout@ == f.stdout@ && reply.stderr@ == f.stderr@
            && reply.exit_code == f.exit_code,
        reply.stdout_offset == poll.output.stdout_offset,
        reply.stderr_offset == poll.output.stderr_offset,
        reply.stdout_gap == poll.output.stdout_gap,
        reply.stderr_gap == poll.output.stderr_gap,
        reply.running == poll.output.running,
{
}

/// Whether the stop of a job is answered and put on record as it should be.
pub open spec fn is_stop_of(
    stopped: JobStopped,
    auth: crate::models::AuthContextView,
    job: BgJob,
) -> bool {
    &&& stopped.output.stopped
    &&& records(
        stopped.entry@,
        audit_ctx_of(auth, job.server_alias@, job.session_id@),
        "exec_stop"@,
        (AuditDetailView { command: Some(job.command@), ..no_detail() }),
    )
}

/// The stop of a job stands on record with the job's command, session and server, put
/// down to the caller.
pub proof fn law_stop_is_recorded(
    stopped: JobStopped,
    auth: crate::models::AuthContextView,
    job: BgJob,
)
    requires
        is_stop_of(stopped, auth, job),
    ensures
        stopped.output.stopped,
        stopped.entry.event@ == "exec_stop"@,
        crate::text::opt_text(stopped.entry.command) == Some(job.command@),
        stopped.entry.session_id@ == job.session_id@,
        stopped.entry.server_alias@ == job.server_alias@,
        stopped.entry.user_id == auth.user_id,
        stopped.entry.token_id == auth.token_id,
        stopped.entry.error is None,
{
}

/// Whether the outcome of a one-shot command goes on and is put on record as it should
/// be.
pub open spec fn is_outcome_of(
    done: ExecDone,
    call: ExecCall,
    outcome: Result<ExecOutput, Error>,
) -> bool {
    match (outcome, done.result) {
        (Ok(out), Ok(kept)) => {
            &&& kept@ == out@
            &&& records(done.entry@, call.ctx@, "exec"@, run_detail(call.command@, out@))
        },
        (Err(v), Err(e)) => {
            &&& e@ == internal(v@.message())
            &&& records(
                done.entry@,
                call.ctx@,
                "exec_error"@,
                failed_command(call.command@, v@.message()),
            )
        },
        _ => false,
    }
}

/// The output of a command goes on as it came in, and so it stands on record, each stream
/// as what it is; a command that failed is answered and put on record with its error. All
/// of it is put down to the caller.
pub proof fn law_outcome_goes_on_and_is_recorded(
    done: ExecDone,
    call: ExecCall,
    outcome: Result<ExecOutput, Error>,
)
    requires
        is_outcome_of(done, call, outcome),
    ensures
        done.result is Ok <==> outcome is Ok,
        crate::text::opt_text(done.entry.command) == Some(call.command@),
        done.entry.user_id == call.ctx.user_id,
        done.entry.token_id == call.ctx.token_id,
        done.entry.session_id@ == call.ctx.session_id@,
        done.entry.server_alias@ == call.ctx.server_alias@,
        outcome matches Ok(out) ==> {
            &&& done.result->Ok_0.stdout@ == out.stdout@
            &&& done.result->Ok_0.stderr@ == out.stderr@
            &&& done.result->Ok_0.exit_code == out.exit_code
            &&& done.result->Ok_0.duration_ms == out.duration_ms
            &&& done.result->Ok_0.truncated == out.truncated
            &&& done.entry.event@ == "exec"@
            &&& crate::text::opt_text(done.entry.stdout) == Some(out.stdout@)
            &&& crate::text::opt_text(done.entry.stderr) == Some(out.stderr@)
            &&& done.entry.exit_code == Some(out.exit_code as i64)
            &&& done.entry.duration_ms == Some(out.duration_ms)
            &&& done.entry.error is None
        },
        outcome matches Err(v) ==> {
            &&& done.result->Err_0.message@ == v@.message()
            &&& done.result->Err_0.kind == crate::tools::ToolErrorKind::Internal
            &&& done.entry.event@ == "exec_error"@
            &&& crate::text::opt_text(done.entry.error) == Some(v@.message())
            &&& done.entry.stdout is None
        },
{
}

} // verus!
