//! What the engine keeps between two calls: sessions, background jobs, request
//! rates and staged uploads.

use vstd::prelude::*;

use crate::clock::{WallClock, LAST_SECOND};
use crate::ingest::{IngestStore, Staged, DEFAULT_INGEST_TTL_SECS, DEFAULT_MAX_UPLOAD_BYTES};
use crate::job::{exit_after, BgJob, JobEvent};
use crate::ratelimit::RateLimiter;
use crate::registry::Registry;
use crate::session::SshSession;
use crate::text::{listed, same, texts};

verus! {

/// Default cap on the bytes that one download returns (1MB).
pub const DEFAULT_MAX_DOWNLOAD_BYTES: usize = 1_048_576;

/// Shared engine state.
pub struct AppState {
    pub sessions: Registry<SshSession>,
    /// Background exec jobs, keyed by job id.
    pub jobs: Registry<BgJob>,
    pub limiter: RateLimiter,
    pub idle_timeout_secs: i64,
    /// Hard cap on the bytes that one download returns.
    pub max_download_bytes: usize,
    pub ingest: IngestStore,
    /// The clock by which sessions are used and idle.
    pub clock: WallClock,
}

/// The jobs that belong to a session.
pub open spec fn jobs_of(jobs: Map<Seq<char>, BgJob>, session_id: Seq<char>) -> Set<Seq<char>> {
    Set::new(|k: Seq<char>| jobs.contains_key(k) && jobs[k].session_id@ == session_id)
}

/// The jobs of a session that are still running.
pub open spec fn running_jobs_of(jobs: Map<Seq<char>, BgJob>, session_id: Seq<char>) -> Set<
    Seq<char>,
> {
    Set::new(
        |k: Seq<char>|
            jobs.contains_key(k) && jobs[k].session_id@ == session_id && jobs[k].inner.running,
    )
}

/// The jobs that belong to one of the sessions.
pub open spec fn jobs_of_any(jobs: Map<Seq<char>, BgJob>, sessions: Set<Seq<char>>) -> Set<
    Seq<char>,
> {
    Set::new(|k: Seq<char>| jobs.contains_key(k) && sessions.contains(jobs[k].session_id@))
}

/// The sessions that have been idle for longer than the timeout.
pub open spec fn idle_sessions(
    sessions: Map<Seq<char>, SshSession>,
    idle_timeout_secs: i64,
    now: i64,
) -> Set<Seq<char>> {
    Set::new(
        |k: Seq<char>|
            {
                &&& idle_timeout_secs > 0
                &&& sessions.contains_key(k)
                &&& now - sessions[k].last_used_epoch > idle_timeout_secs
            },
    )
}

/// The sessions with one of them used at a point in time.
pub open spec fn used_at(sessions: Map<Seq<char>, SshSession>, id: Seq<char>, at: i64) -> Map<
    Seq<char>,
    SshSession,
> {
    if sessions.contains_key(id) {
        sessions.insert(id, (SshSession { last_used_epoch: at, ..sessions[id] }))
    } else {
        sessions
    }
}

/// Whether a state differs from the one before only in that a session, if it is
/// there, was used at the reading of the clock.
pub open spec fn touched(before: AppState, id: Seq<char>, after: AppState) -> bool {
    &&& after.wf()
    &&& after.same_settings(&before)
    &&& after.jobs == before.jobs
    &&& 0 <= after.clock.reading() <= LAST_SECOND
    &&& after.sessions@ == used_at(before.sessions@, id, after.clock.reading())
}

/// Whether the list names exactly the members of the set, each once.
pub open spec fn lists(list: Seq<String>, set: Set<Seq<char>>) -> bool {
    &&& texts(list).no_duplicates()
    &&& texts(list).to_set() == set
}

/// The sessions that were reaped, and the jobs to be stopped with them.
pub struct Reaped {
    pub sessions: Vec<SshSession>,
    pub stopped: Vec<String>,
}

impl AppState {
    pub open spec fn wf(&self) -> bool {
        &&& self.sessions.wf()
        &&& self.jobs.wf()
        &&& self.limiter.wf()
        &&& self.ingest.wf()
        &&& forall|k: Seq<char>| #[trigger]
            self.sessions@.contains_key(k) ==> self.sessions@[k].wf() && self.sessions@[k].id@ == k
        &&& forall|k: Seq<char>| #[trigger]
            self.jobs@.contains_key(k) ==> self.jobs@[k].wf() && self.jobs@[k].id@ == k
    }

    /// Nothing differs but sessions and jobs.
    pub open spec fn same_but_sessions_and_jobs(&self, other: &AppState) -> bool {
        self.same_settings(other) && self.clock == other.clock
    }

    /// The same limits apply, and the same uploads and request times are held.
    pub open spec fn same_settings(&self, other: &AppState) -> bool {
        &&& self.limiter == other.limiter
        &&& self.idle_timeout_secs == other.idle_timeout_secs
        &&& self.max_download_bytes == other.max_download_bytes
        &&& self.ingest == other.ingest
    }

    /// An engine without sessions, jobs or uploads.
    pub fn new(limiter: RateLimiter, idle_timeout_secs: i64, ingest_dir: String) -> (r: Self)
        requires
            limiter.wf(),
        ensures
            r.wf(),
            r.sessions@ == Map::<Seq<char>, SshSession>::empty(),
            r.jobs@ == Map::<Seq<char>, BgJob>::empty(),
            r.limiter == limiter,
            r.idle_timeout_secs == idle_timeout_secs,
            r.max_download_bytes == DEFAULT_MAX_DOWNLOAD_BYTES,
            r.clock.reading() == 0,
            r.ingest.dir() == ingest_dir@,
            r.ingest.limit() == DEFAULT_MAX_UPLOAD_BYTES,
            r.ingest.ttl_secs() == DEFAULT_INGEST_TTL_SECS,
            r.ingest.held() == Map::<Seq<char>, Staged>::empty(),
    {
        AppState {
            sessions: Registry::new(),
            jobs: Registry::new(),
            limiter,
            idle_timeout_secs,
            max_download_bytes: DEFAULT_MAX_DOWNLOAD_BYTES,
            ingest: IngestStore::new(
                ingest_dir,
                DEFAULT_MAX_UPLOAD_BYTES,
                DEFAULT_INGEST_TTL_SECS,
            ),
            clock: WallClock::new(),
        }
    }

    /// The same engine with another cap on downloads.
    pub fn with_max_download_bytes(self, max_download_bytes: usize) -> (r: Self)
        ensures
            r == (AppState { max_download_bytes, ..self }),
    {
        AppState {
            sessions: self.sessions,
            jobs: self.jobs,
            limiter: self.limiter,
            idle_timeout_secs: self.idle_timeout_secs,
            max_download_bytes,
            ingest: self.ingest,
            clock: self.clock,
        }
    }

    /// The same engine with an empty store of uploads in another directory and
    /// with another cap.
    pub fn with_ingest_config(self, dir: String, max_upload_bytes: usize) -> (r: Self)
        ensures
            r == (AppState { ingest: r.ingest, ..self }),
            r.ingest.wf(),
            r.ingest.dir() == dir@,
            r.ingest.limit() == max_upload_bytes,
            r.ingest.ttl_secs() == DEFAULT_INGEST_TTL_SECS,
            r.ingest.held() == Map::<Seq<char>, Staged>::empty(),
    {
        AppState {
            sessions: self.sessions,
            jobs: self.jobs,
            limiter: self.limiter,
            idle_timeout_secs: self.idle_timeout_secs,
            max_download_bytes: self.max_download_bytes,
            ingest: IngestStore::new(dir, max_upload_bytes, DEFAULT_INGEST_TTL_SECS),
            clock: self.clock,
        }
    }

    /// How many sessions are open.
    pub fn active_sessions(&self) -> (n: usize)
        requires
            self.wf(),
        ensures
            n == self.sessions@.len(),
    {
        self.sessions.len()
    }

    /// Marks a session, if it is still there, as used now.
    pub fn touch_session(&mut self, id: &str)
        requires
            old(self).wf(),
        ensures
            touched(*old(self), id@, *final(self)),
    {
        let now = self.clock.read();
        self.touch_session_at(id, now);
    }

    /// Marks a session, if it is still there, as used at a point in time.
    pub fn touch_session_at(&mut self, id: &str, now: i64)
        requires
            old(self).wf(),
            0 <= now <= LAST_SECOND,
        ensures
            final(self).wf(),
            final(self).same_but_sessions_and_jobs(old(self)),
            final(self).jobs == old(self).jobs,
            final(self).sessions@ == used_at(old(self).sessions@, id@, now),
    {
        match self.sessions.remove(id) {
            Some(mut session) => {
                session.touch_at(now);
                self.sessions.insert(id, session);
                assert(self.sessions@ =~= used_at(old(self).sessions@, id@, now));
            },
            None => {
                assert(self.sessions@ =~= old(self).sessions@);
            },
        }
    }

    /// How many jobs of a session are running.
    pub fn running_jobs(&self, session_id: &str) -> (n: usize)
        requires
            self.wf(),
        ensures
            n == running_jobs_of(self.jobs@, session_id@).len(),
    {
        let test = |j: &BgJob| -> (b: bool)
            ensures
                b == (j.session_id@ == session_id@ && j.inner.running),
            { same(j.session_id.as_str(), session_id) && j.is_running() };
        let ids = self.jobs.ids_where(test);
        proof {
            texts(ids@).unique_seq_to_set();
            assert(texts(ids@).to_set() =~= running_jobs_of(self.jobs@, session_id@));
        }
        ids.len()
    }

    /// Drop every background job belonging to a session, and say which ones are
    /// to be stopped. Called when the session is closed or reaped so jobs never
    /// outlive their channel.
    pub fn stop_jobs_for_session(&mut self, session_id: &str) -> (r: Vec<String>)
        requires
            old(self).wf(),
        ensures
            final(self).wf(),
            final(self).same_but_sessions_and_jobs(old(self)),
            final(self).sessions == old(self).sessions,
            final(self).jobs@ == old(self).jobs@.remove_keys(
                jobs_of(old(self).jobs@, session_id@),
            ),
            lists(r@, jobs_of(old(self).jobs@, session_id@)),
    {
        let test = |j: &BgJob| -> (b: bool)
            ensures
                b == (j.session_id@ == session_id@),
            { same(j.session_id.as_str(), session_id) };
        let ids = self.jobs.ids_where(test);
        assert(texts(ids@).to_set() =~= jobs_of(old(self).jobs@, session_id@));
        self.jobs.remove_all(&ids);
        ids
    }

    /// Closes the sessions that have been idle for longer than the timeout, and
    /// drops their jobs. A non-positive timeout disables reaping.
    pub fn reap_idle(&mut self) -> (r: Reaped)
        requires
            old(self).wf(),
        ensures
            final(self).wf(),
            final(self).same_settings(old(self)),
            0 <= final(self).clock.reading() <= LAST_SECOND,
            reaped_at(
                old(self).sessions@,
                old(self).jobs@,
                old(self).idle_timeout_secs,
                final(self).clock.reading(),
                r,
                final(self).sessions@,
                final(self).jobs@,
            ),
    {
        let now = self.clock.read();
        self.reap_idle_at(now)
    }

    /// Closes the sessions that have been idle for too long at a point in time.
    pub fn reap_idle_at(&mut self, now: i64) -> (r: Reaped)
        requires
            old(self).wf(),
            0 <= now <= LAST_SECOND,
        ensures
            final(self).wf(),
            final(self).same_but_sessions_and_jobs(old(self)),
            reaped_at(
                old(self).sessions@,
                old(self).jobs@,
                old(self).idle_timeout_secs,
                now,
                r,
                final(self).sessions@,
                final(self).jobs@,
            ),
    {
        let cutoff = self.idle_timeout_secs;
        let ghost sessions0 = self.sessions@;
        let ghost jobs0 = self.jobs@;
        let ghost idle = idle_sessions(sessions0, cutoff, now);
        if cutoff <= 0 {
            let none: Vec<String> = Vec::new();
            proof {
                assert(idle =~= Set::empty());
                assert(jobs_of_any(jobs0, idle) =~= Set::empty());
                assert(texts(none@).to_set() =~= Set::empty());
                assert(sessions0.remove_keys(idle) =~= sessions0);
                assert(jobs0.remove_keys(jobs_of_any(jobs0, idle)) =~= jobs0);
            }
            return Reaped { sessions: Vec::new(), stopped: none };
        }
        let test = |s: &SshSession| -> (b: bool)
            requires
                s.wf(),
            ensures
                b == (now - s.last_used_epoch > cutoff),
            { s.idle_secs_at(now) > cutoff };
        let ids = self.sessions.ids_where(test);
        assert(texts(ids@).to_set() =~= idle);
        let closed = self.sessions.remove_all(&ids);
        proof {
            assert forall|i: int| 0 <= i < closed@.len() implies {
                &&& idle.contains((#[trigger] closed@[i]).id@)
                &&& closed@[i] == sessions0[closed@[i].id@]
            } by {
                assert(texts(ids@)[i] == ids@[i]@);
                assert(texts(ids@).contains(texts(ids@)[i]));
            }
            assert forall|k: Seq<char>| #[trigger] idle.contains(k) implies closed@.contains(
                sessions0[k],
            ) by {
                let i = choose|i: int| 0 <= i < texts(ids@).len() && texts(ids@)[i] == k;
                assert(closed@[i] == sessions0[ids@[i]@]);
            }
            texts(ids@).unique_seq_to_set();
        }
        let test = |j: &BgJob| -> (b: bool)
            ensures
                b == texts(ids@).contains(j.session_id@),
            { listed(&ids, j.session_id.as_str()) };
        let stopped = self.jobs.ids_where(test);
        assert(texts(stopped@).to_set() =~= jobs_of_any(jobs0, idle));
        self.jobs.remove_all(&stopped);
        Reaped { sessions: closed, stopped }
    }

    /// Takes in what an event brings to a job, if the job is still there.
    pub fn job_event(&mut self, job_id: &str, event: &JobEvent)
        requires
            old(self).wf(),
            old(self).jobs@.contains_key(job_id@) ==> old(self).jobs@[job_id@].has_room_for(*event),
        ensures
            final(self).wf(),
            final(self).same_but_sessions_and_jobs(old(self)),
            final(self).sessions == old(self).sessions,
            !old(self).jobs@.contains_key(job_id@) ==> final(self).jobs@ == old(self).jobs@,
            old(self).jobs@.contains_key(job_id@) ==> {
                let before = old(self).jobs@[job_id@];
                let after = final(self).jobs@[job_id@];
                &&& final(self).jobs@ == old(self).jobs@.insert(job_id@, after)
                &&& captured(before, *event, after)
            },
            is_event_on(old(self).jobs@, job_id@, *event, final(self).jobs@),
    {
        match self.jobs.remove(job_id) {
            Some(mut job) => {
                job.capture(event);
                self.jobs.insert(job_id, job);
                assert(self.jobs@ =~= old(self).jobs@.insert(job_id@, self.jobs@[job_id@]));
            },
            None => {
                assert(self.jobs@ =~= old(self).jobs@);
            },
        }
    }
}

/// Whether a job is as it was but for what an event brought.
pub open spec fn captured(before: BgJob, event: JobEvent, after: BgJob) -> bool {
    &&& after.same_job(&before)
    &&& forall|out: Seq<u8>, err: Seq<u8>| #[trigger]
        before.holds(out, err) ==> after.holds(
            out + crate::job::out_bytes(event),
            err + crate::job::err_bytes(event),
        )
    &&& after.inner.out.length() == before.inner.out.length() + crate::job::out_bytes(event).len()
    &&& after.inner.err.length() == before.inner.err.length() + crate::job::err_bytes(event).len()
    &&& after.inner.exit_code == exit_after(before.inner.exit_code, event)
    &&& after.inner.running == (before.inner.running && crate::job::job_control(event)
        == crate::job::JobControl::Continue)
}

/// Whether a sweep at a point in time closed exactly the sessions that had been
/// idle for too long, and dropped exactly the jobs that belonged to them.
pub open spec fn reaped_at(
    sessions: Map<Seq<char>, SshSession>,
    jobs: Map<Seq<char>, BgJob>,
    idle_timeout_secs: i64,
    now: i64,
    reaped: Reaped,
    sessions_after: Map<Seq<char>, SshSession>,
    jobs_after: Map<Seq<char>, BgJob>,
) -> bool {
    let idle = idle_sessions(sessions, idle_timeout_secs, now);
    &&& sessions_after == sessions.remove_keys(idle)
    &&& jobs_after == jobs.remove_keys(jobs_of_any(jobs, idle))
    &&& lists(reaped.stopped@, jobs_of_any(jobs, idle))
    &&& reaped.sessions@.len() == idle.len()
    &&& forall|i: int|
        0 <= i < reaped.sessions@.len() ==> {
            &&& idle.contains((#[trigger] reaped.sessions@[i]).id@)
            &&& reaped.sessions@[i] == sessions[reaped.sessions@[i].id@]
        }
    &&& forall|k: Seq<char>| #[trigger]
        idle.contains(k) ==> reaped.sessions@.contains(sessions[k])
}

/// A non-positive timeout disables reaping.
pub proof fn law_no_timeout_no_reaping(
    sessions: Map<Seq<char>, SshSession>,
    idle_timeout_secs: i64,
    now: i64,
)
    requires
        idle_timeout_secs <= 0,
    ensures
        idle_sessions(sessions, idle_timeout_secs, now) == Set::<Seq<char>>::empty(),
{
    assert(idle_sessions(sessions, idle_timeout_secs, now) =~= Set::<Seq<char>>::empty());
}

/// A session that was used is not reaped before the timeout has passed again.
pub proof fn law_use_keeps_a_session(
    sessions: Map<Seq<char>, SshSession>,
    id: Seq<char>,
    used: i64,
    idle_timeout_secs: i64,
    now: i64,
)
    requires
        sessions.contains_key(id),
        now - used <= idle_timeout_secs,
    ensures
        !idle_sessions(used_at(sessions, id, used), idle_timeout_secs, now).contains(id),
        forall|k: Seq<char>|
            k != id ==> idle_sessions(
                used_at(sessions, id, used),
                idle_timeout_secs,
                now,
            ).contains(k) == #[trigger] idle_sessions(
                sessions,
                idle_timeout_secs,
                now,
            ).contains(k),
{
}

/// Once the jobs of a session have been dropped, none of its jobs is left, and
/// every job of another session is there as it was.
pub proof fn law_jobs_end_with_their_session(
    jobs: Map<Seq<char>, BgJob>,
    session_id: Seq<char>,
)
    ensures
        ({
            let after = jobs.remove_keys(jobs_of(jobs, session_id));
            &&& jobs_of(after, session_id) == Set::<Seq<char>>::empty()
            &&& forall|other: Seq<char>|
                other != session_id ==> #[trigger] jobs_of(after, other) == jobs_of(jobs, other)
            &&& after.submap_of(jobs)
        }),
{
    let after = jobs.remove_keys(jobs_of(jobs, session_id));
    assert(jobs_of(after, session_id) =~= Set::<Seq<char>>::empty());
    assert forall|other: Seq<char>| other != session_id implies #[trigger] jobs_of(after, other)
        == jobs_of(jobs, other) by {
        assert(jobs_of(after, other) =~= jobs_of(jobs, other));
    }
}

/// A job belongs to a session exactly where it says so, and is counted as running
/// exactly where it also runs.
pub proof fn law_jobs_belong_to_their_session(
    jobs: Map<Seq<char>, BgJob>,
    session_id: Seq<char>,
    sessions: Set<Seq<char>>,
    k: Seq<char>,
)
    ensures
        jobs_of(jobs, session_id).contains(k) <==> jobs.contains_key(k) && jobs[k].session_id@
            == session_id,
        running_jobs_of(jobs, session_id).contains(k) <==> jobs.contains_key(k)
            && jobs[k].session_id@ == session_id && jobs[k].inner.running,
        jobs_of_any(jobs, sessions).contains(k) <==> jobs.contains_key(k) && sessions.contains(
            jobs[k].session_id@,
        ),
{
}

/// A session is idle for too long exactly where a timeout is set and more seconds than
/// that have passed since it was last used.
pub proof fn law_idle_is_longer_than_the_timeout(
    sessions: Map<Seq<char>, SshSession>,
    idle_timeout_secs: i64,
    now: i64,
    k: Seq<char>,
)
    ensures
        idle_sessions(sessions, idle_timeout_secs, now).contains(k) <==> idle_timeout_secs > 0
            && sessions.contains_key(k) && now > sessions[k].last_used_epoch + idle_timeout_secs,
{
}

/// Using a session moves the time of its last use and nothing else, and changes no other
/// session; using one that is not there changes nothing.
pub proof fn law_use_moves_one_time(
    sessions: Map<Seq<char>, SshSession>,
    id: Seq<char>,
    at: i64,
    k: Seq<char>,
)
    ensures
        used_at(sessions, id, at).contains_key(k) <==> sessions.contains_key(k),
        k != id && sessions.contains_key(k) ==> used_at(sessions, id, at)[k] == sessions[k],
        sessions.contains_key(id) ==> {
            let s = used_at(sessions, id, at)[id];
            &&& s.last_used_epoch == at
            &&& s.id == sessions[id].id
            &&& s.user_id == sessions[id].user_id
            &&& s.token_id == sessions[id].token_id
            &&& s.server_alias == sessions[id].server_alias
            &&& s.hop_path == sessions[id].hop_path
            &&& s.created_at == sessions[id].created_at
        },
        !sessions.contains_key(id) ==> used_at(sessions, id, at) == sessions,
{
}

/// A state in which a session was used differs from the one before in the time of that
/// use alone, which is the reading of the clock.
pub proof fn law_touch_changes_one_session(before: AppState, id: Seq<char>, after: AppState)
    requires
        touched(before, id, after),
    ensures
        after.jobs == before.jobs,
        after.limiter == before.limiter,
        after.ingest == before.ingest,
        after.idle_timeout_secs == before.idle_timeout_secs,
        after.max_download_bytes == before.max_download_bytes,
        after.sessions@.dom() == before.sessions@.dom(),
        before.sessions@.contains_key(id) ==> after.sessions@[id].last_used_epoch
            == after.clock.reading() && after.sessions@[id].user_id
            == before.sessions@[id].user_id,
        forall|k: Seq<char>|
            k != id && before.sessions@.contains_key(k) ==> #[trigger] after.sessions@[k]
                == before.sessions@[k],
        0 <= after.clock.reading(),
{
    assert(after.sessions@.dom() =~= before.sessions@.dom());
}

/// A list that names the members of a set has as many places as the set has members, and
/// names each of them.
pub proof fn law_list_names_each_once(list: Seq<String>, set: Set<Seq<char>>, k: Seq<char>)
    requires
        lists(list, set),
    ensures
        list.len() == set.len(),
        set.contains(k) <==> exists|i: int| 0 <= i < list.len() && (#[trigger] list[i])@ == k,
{
    texts(list).unique_seq_to_set();
    if set.contains(k) {
        assert(texts(list).contains(k));
        let i = choose|i: int| 0 <= i < texts(list).len() && texts(list)[i] == k;
        assert(list[i]@ == k);
    }
    if exists|i: int| 0 <= i < list.len() && (#[trigger] list[i])@ == k {
        let i = choose|i: int| 0 <= i < list.len() && (#[trigger] list[i])@ == k;
        assert(texts(list)[i] == k);
    }
}

/// An event of a job brings the job its bytes, its exit code or its end, and changes
/// nothing else of it.
pub proof fn law_event_is_captured(
    before: BgJob,
    event: JobEvent,
    after: BgJob,
    out: Seq<u8>,
    err: Seq<u8>,
)
    requires
        captured(before, event, after),
        before.holds(out, err),
    ensures
        event matches JobEvent::Data(b) ==> after.holds(out + b@, err),
        event matches JobEvent::ExtendedData(ext, b) ==> (ext == 1 ==> after.holds(out, err + b@))
            && (ext != 1 ==> after.holds(out, err)),
        !(event is Data) && !(event is ExtendedData) ==> after.holds(out, err),
        event matches JobEvent::ExitStatus(status) ==> after.inner.exit_code == Some(
            status as i32,
        ),
        !(event is ExitStatus) ==> after.inner.exit_code == before.inner.exit_code,
        after.inner.running <==> before.inner.running && !(event is Closed)
            && !(event is StopRequested) && !(event is DeadlineElapsed),
        after.id == before.id,
        after.user_id == before.user_id,
        after.session_id == before.session_id,
        after.server_alias == before.server_alias,
        after.command == before.command,
        after.started_at == before.started_at,
{
    assert(out + Seq::<u8>::empty() =~= out);
    assert(err + Seq::<u8>::empty() =~= err);
}

/// A sweep closes a session exactly where it had been idle for too long, and drops and
/// stops exactly the jobs of those; every other session and job stays as it was.
pub proof fn law_reaping_takes_the_idle(
    sessions: Map<Seq<char>, SshSession>,
    jobs: Map<Seq<char>, BgJob>,
    idle_timeout_secs: i64,
    now: i64,
    reaped: Reaped,
    sessions_after: Map<Seq<char>, SshSession>,
    jobs_after: Map<Seq<char>, BgJob>,
    k: Seq<char>,
)
    requires
        reaped_at(
            sessions,
            jobs,
            idle_timeout_secs,
            now,
            reaped,
            sessions_after,
            jobs_after,
        ),
    ensures
        sessions_after.contains_key(k) <==> sessions.contains_key(k) && (idle_timeout_secs <= 0
            || now - sessions[k].last_used_epoch <= idle_timeout_secs),
        sessions_after.contains_key(k) ==> sessions_after[k] == sessions[k],
        sessions.contains_key(k) && !sessions_after.contains_key(k) ==> reaped.sessions@.contains(
            sessions[k],
        ),
        jobs_after.contains_key(k) ==> jobs.contains_key(k) && jobs_after[k] == jobs[k],
        jobs.contains_key(k) ==> (!jobs_after.contains_key(k) <==> sessions.contains_key(
            jobs[k].session_id@,
        ) && !sessions_after.contains_key(jobs[k].session_id@)),
        jobs.contains_key(k) && !jobs_after.contains_key(k) ==> exists|i: int|
            0 <= i < reaped.stopped@.len() && (#[trigger] reaped.stopped@[i])@ == k,
{
    let idle = idle_sessions(sessions, idle_timeout_secs, now);
    law_list_names_each_once(reaped.stopped@, jobs_of_any(jobs, idle), k);
}

/// Settings that are the same are the same in every limit and in what is held.
pub proof fn law_same_settings_are_all(a: AppState, b: AppState)
    ensures
        a.same_settings(&b) ==> a.limiter == b.limiter && a.ingest == b.ingest
            && a.idle_timeout_secs == b.idle_timeout_secs && a.max_download_bytes
            == b.max_download_bytes,
        a.same_but_sessions_and_jobs(&b) ==> a.same_settings(&b) && a.clock == b.clock,
{
}

/// Whether an event was taken in by the job that it is of, and by no other.
pub open spec fn is_event_on(
    before: Map<Seq<char>, BgJob>,
    job_id: Seq<char>,
    event: JobEvent,
    after: Map<Seq<char>, BgJob>,
) -> bool {
    &&& forall|k: Seq<char>| #[trigger] after.contains_key(k) <==> before.contains_key(k)
    &&& forall|k: Seq<char>| k != job_id && before.contains_key(k) ==> #[trigger] after[k]
        == before[k]
    &&& before.contains_key(job_id) ==> captured(before[job_id], event, after[job_id])
}

/// What a job's channel brings goes to that job, every byte to its own stream, and to no
/// other job.
pub proof fn law_event_goes_to_its_job(
    before: Map<Seq<char>, BgJob>,
    job_id: Seq<char>,
    event: JobEvent,
    after: Map<Seq<char>, BgJob>,
    out: Seq<u8>,
    err: Seq<u8>,
    k: Seq<char>,
)
    requires
        is_event_on(before, job_id, event, after),
        before.contains_key(job_id),
        before[job_id].holds(out, err),
    ensures
        after.contains_key(k) <==> before.contains_key(k),
        k != job_id && before.contains_key(k) ==> after[k] == before[k],
        event matches JobEvent::Data(b) ==> after[job_id].holds(out + b@, err),
        event matches JobEvent::ExtendedData(ext, b) ==> ext == 1 ==> after[job_id].holds(
            out,
            err + b@,
        ),
        DEFAULT_MAX_DOWNLOAD_BYTES == 1_048_576,
{
    law_event_is_captured(before[job_id], event, after[job_id], out, err);
}

} // verus!
