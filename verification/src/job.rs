//! Background commands, and the output they are polled for.

use vstd::prelude::*;

use crate::audit::{log, no_detail, records, AuditCtx, AuditCtxView, AuditDetail, AuditDetailView};
use crate::clock::Timestamp;
use crate::models::AuditEntry;

verus! {

/// Per-stream ring-buffer cap for a background job. Keeps the most recent bytes
/// (oldest dropped) so long-running captures stay bounded.
pub const MAX_JOB_STREAM_BYTES: usize = 2_097_152;

/// Default wall-clock limit for a background job when the caller omits one.
pub const DEFAULT_JOB_MAX_SECS: u64 = 1800;

/// Hard ceiling on a background job's wall-clock limit (24h).
pub const MAX_JOB_MAX_SECS: u64 = 86_400;

/// Max concurrent background jobs per SSH session.
pub const MAX_JOBS_PER_SESSION: usize = 8;

/// The first offset that is still retained of a stream.
pub open spec fn retained_from(stream: Seq<u8>) -> int {
    if stream.len() > MAX_JOB_STREAM_BYTES {
        stream.len() - MAX_JOB_STREAM_BYTES
    } else {
        0
    }
}

/// One read of a stream from an offset on: the bytes, the offset to go on from,
/// and whether bytes from that offset on have been dropped already.
pub struct StreamRead {
    pub bytes: Seq<u8>,
    pub next: int,
    pub gap: bool,
}

/// What a reader at `offset` is given of everything that a stream carried.
pub open spec fn stream_read(stream: Seq<u8>, offset: int) -> StreamRead {
    if offset >= stream.len() {
        StreamRead { bytes: Seq::empty(), next: stream.len() as int, gap: false }
    } else if offset < retained_from(stream) {
        StreamRead {
            bytes: stream.skip(retained_from(stream)),
            next: stream.len() as int,
            gap: true,
        }
    } else {
        StreamRead { bytes: stream.skip(offset), next: stream.len() as int, gap: false }
    }
}

/// What a ring buffer holds: its bytes, and the absolute offset of the first one.
pub struct RingView {
    pub data: Seq<u8>,
    pub start_offset: int,
}

/// What is left of a stream in a ring buffer.
pub open spec fn ring_of(stream: Seq<u8>) -> RingView {
    RingView { data: stream.skip(retained_from(stream)), start_offset: retained_from(stream) }
}

/// A ring buffer after an append: the oldest bytes past the cap are dropped.
pub open spec fn pushed(ring: RingView, bytes: Seq<u8>) -> RingView {
    let full = ring.data + bytes;
    RingView {
        data: full.skip(retained_from(full)),
        start_offset: ring.start_offset + retained_from(full),
    }
}

/// Cumulative-offset ring buffer: appends are unbounded in offset space, but
/// only the most recent [`MAX_JOB_STREAM_BYTES`] bytes are retained. A reader
/// tracks an absolute offset; if it falls behind past the retained window the
/// read reports a gap.
pub struct RingStream {
    data: Vec<u8>,
    /// Absolute offset of `data[0]`.
    start_offset: u64,
}

impl View for RingStream {
    type V = RingView;

    closed spec fn view(&self) -> RingView {
        RingView { data: self.data@, start_offset: self.start_offset as int }
    }
}

impl RingStream {
    /// The buffer is what is left of `stream`.
    pub open spec fn holds(&self, stream: Seq<u8>) -> bool {
        self@ == ring_of(stream)
    }

    /// The length of everything that was pushed.
    pub open spec fn length(&self) -> int {
        self@.start_offset + self@.data.len()
    }

    /// The buffer never grows past its cap, and drops nothing before it is full.
    pub open spec fn wf(&self) -> bool {
        &&& self@.data.len() <= MAX_JOB_STREAM_BYTES
        &&& 0 <= self@.start_offset
        &&& self@.start_offset > 0 ==> self@.data.len() == MAX_JOB_STREAM_BYTES
        &&& self.length() <= u64::MAX
    }

    pub fn new() -> (r: Self)
        ensures
            r.wf(),
            r.length() == 0,
            r.holds(Seq::empty()),
    {
        let r = RingStream { data: Vec::new(), start_offset: 0 };
        assert(r.data@ =~= Seq::<u8>::empty().skip(0));
        r
    }

    /// Appends to the stream.
    pub fn push(&mut self, bytes: &[u8])
        requires
            old(self).wf(),
            old(self).length() + bytes@.len() <= u64::MAX,
        ensures
            final(self).wf(),
            final(self)@ == pushed(old(self)@, bytes@),
            final(self).length() == old(self).length() + bytes@.len(),
            forall|stream: Seq<u8>| #[trigger]
                old(self).holds(stream) ==> final(self).holds(stream + bytes@),
    {
        let ghost before = *self;
        self.data.extend_from_slice(bytes);
        let ghost full = self.data@;
        assert(full =~= before.data@ + bytes@);
        if self.data.len() > MAX_JOB_STREAM_BYTES {
            let excess: usize = self.data.len() - MAX_JOB_STREAM_BYTES;
            self.data = self.data.split_off(excess);
            self.start_offset = self.start_offset + excess as u64;
            assert(self.data@ =~= full.skip(excess as int));
        }
        assert(self@.data =~= pushed(before@, bytes@).data);
        assert forall|stream: Seq<u8>| #[trigger] before.holds(stream) implies self.holds(
            stream + bytes@,
        ) by {
            let after = stream + bytes@;
            assert(before.data@ == before@.data && before@.start_offset == before.start_offset);
            assert(full =~= after.skip(before.start_offset as int));
            assert(self.data@ =~= after.skip(self.start_offset as int));
        }
    }

    /// The length of everything that was pushed.
    pub fn total(&self) -> (r: u64)
        requires
            self.wf(),
        ensures
            r == self.length(),
    {
        self.start_offset + self.data.len() as u64
    }

    /// Return bytes from absolute `offset` onward, the new offset to resume
    /// from, and whether data before `offset` was dropped (a gap).
    pub fn read_from(&self, offset: u64) -> (r: (Vec<u8>, u64, bool))
        requires
            self.wf(),
        ensures
            r.1 == self.length(),
            r.0@.len() <= MAX_JOB_STREAM_BYTES,
            forall|stream: Seq<u8>| #[trigger]
                self.holds(stream) ==> (StreamRead { bytes: r.0@, next: r.1 as int, gap: r.2 })
                    == stream_read(stream, offset as int),
    {
        let total = self.total();
        if offset >= total {
            let none: Vec<u8> = Vec::new();
            assert(none@ =~= Seq::<u8>::empty());
            return (none, total, false);
        }
        let gap = offset < self.start_offset;
        let from: u64 = if gap {
            self.start_offset
        } else {
            offset
        };
        let idx: usize = (from - self.start_offset) as usize;
        let tail = vstd::slice::slice_subrange(self.data.as_slice(), idx, self.data.len());
        let bytes = vstd::slice::slice_to_vec(tail);
        assert forall|stream: Seq<u8>| #[trigger] self.holds(stream) implies (StreamRead {
            bytes: bytes@,
            next: total as int,
            gap: gap,
        }) == stream_read(stream, offset as int) by {
            assert(bytes@ =~= stream.skip(from as int));
        }
        (bytes, total, gap)
    }
}

/// How output is cut into chunks cannot be told from a ring buffer: pushing one chunk
/// and then another leaves what pushing both at once leaves.
pub proof fn law_chunking_is_unobservable(ring: RingView, a: Seq<u8>, b: Seq<u8>)
    ensures
        pushed(pushed(ring, a), b) == pushed(ring, a + b),
{
    let twice = pushed(pushed(ring, a), b);
    let once = pushed(ring, a + b);
    assert(ring.data + (a + b) =~= (ring.data + a) + b);
    assert(twice.data =~= once.data);
}

/// Every ring buffer in order is what is left of some stream, whose length it counts.
pub proof fn law_ring_holds_a_stream(ring: RingStream)
    requires
        ring.wf(),
    ensures
        exists|stream: Seq<u8>| #[trigger] ring.holds(stream) && stream.len() == ring.length(),
{
    let dropped = Seq::new(ring@.start_offset as nat, |i: int| 0u8);
    let stream = dropped + ring@.data;
    assert(stream.skip(retained_from(stream)) =~= ring@.data);
    assert(ring.holds(stream));
}

/// A reader that goes on from the offset of its last read is given exactly what
/// the stream carried since, unless it is told of a gap; and it is told of a gap
/// exactly when more was carried since than is retained.
pub proof fn law_next_read_continues(stream: Seq<u8>, more: Seq<u8>, offset: int)
    requires
        0 <= offset <= stream.len(),
    ensures
        ({
            let first = stream_read(stream, offset);
            let second = stream_read(stream + more, first.next);
            &&& second.gap <==> more.len() > MAX_JOB_STREAM_BYTES
            &&& !second.gap ==> second.bytes == more
            &&& !first.gap && !second.gap ==> first.bytes + second.bytes == (stream + more).skip(
                offset,
            )
        }),
{
    let first = stream_read(stream, offset);
    let second = stream_read(stream + more, first.next);
    if !second.gap {
        assert(second.bytes =~= more);
        if !first.gap {
            assert(first.bytes + second.bytes =~= (stream + more).skip(offset));
        }
    }
}

/// A read repeated from the offset it gave, with nothing pushed in between,
/// gives nothing and reports no gap.
pub proof fn law_read_at_end_is_empty(stream: Seq<u8>, offset: int)
    requires
        0 <= offset,
    ensures
        stream_read(stream, stream_read(stream, offset).next) == (StreamRead {
            bytes: Seq::empty(),
            next: stream.len() as int,
            gap: false,
        }),
{
}

/// The output and the state of a background command.
pub struct JobInner {
    pub out: RingStream,
    pub err: RingStream,
    pub running: bool,
    pub exit_code: Option<i32>,
}

/// A background command capturing output for incremental polling.
pub struct BgJob {
    pub id: String,
    pub user_id: i64,
    pub session_id: String,
    pub server_alias: String,
    pub command: String,
    pub started_at: Timestamp,
    pub inner: JobInner,
}

/// One incremental read of a [`BgJob`].
pub struct JobSnapshot {
    pub stdout: Vec<u8>,
    pub stderr: Vec<u8>,
    pub stdout_offset: u64,
    pub stderr_offset: u64,
    pub stdout_gap: bool,
    pub stderr_gap: bool,
    pub running: bool,
    pub exit_code: Option<i32>,
}

impl JobSnapshot {
    /// The snapshot's part of the output stream.
    pub open spec fn out(&self) -> StreamRead {
        StreamRead { bytes: self.stdout@, next: self.stdout_offset as int, gap: self.stdout_gap }
    }

    /// The snapshot's part of the error stream.
    pub open spec fn err(&self) -> StreamRead {
        StreamRead { bytes: self.stderr@, next: self.stderr_offset as int, gap: self.stderr_gap }
    }
}

/// What the channel of a background command, its deadline or a stop request
/// brings about.
pub enum JobEvent {
    /// Bytes of the command's output.
    Data(Vec<u8>),
    /// Bytes of another stream of the command; stream 1 is its error output.
    ExtendedData(u32, Vec<u8>),
    /// The command's exit status.
    ExitStatus(u32),
    /// The channel was closed, or brings nothing more.
    Closed,
    /// Any other message of the channel.
    Other,
    /// Somebody asked for the command to be stopped.
    StopRequested,
    /// The command's wall-clock limit has passed.
    DeadlineElapsed,
}

/// What to do with a background command after an event.
#[derive(Clone, Copy, Debug, PartialEq, Eq, Structural)]
pub enum JobControl {
    /// Wait for the next event.
    Continue,
    /// Send SIGTERM to the command and close its channel; then it is over.
    TearDown,
    /// It is over.
    Finish,
}

/// What an event means for the command that is running.
pub open spec fn job_control(event: JobEvent) -> JobControl {
    match event {
        JobEvent::Closed => JobControl::Finish,
        JobEvent::StopRequested => JobControl::TearDown,
        JobEvent::DeadlineElapsed => JobControl::TearDown,
        _ => JobControl::Continue,
    }
}

/// What an event adds to the output stream.
pub open spec fn out_bytes(event: JobEvent) -> Seq<u8> {
    match event {
        JobEvent::Data(b) => b@,
        _ => Seq::empty(),
    }
}

/// What an event adds to the error stream.
pub open spec fn err_bytes(event: JobEvent) -> Seq<u8> {
    match event {
        JobEvent::ExtendedData(ext, b) => if ext == 1 {
            b@
        } else {
            Seq::empty()
        },
        _ => Seq::empty(),
    }
}

/// The exit code known after an event.
pub open spec fn exit_after(exit_code: Option<i32>, event: JobEvent) -> Option<i32> {
    match event {
        JobEvent::ExitStatus(status) => Some(status as i32),
        _ => exit_code,
    }
}

impl BgJob {
    pub open spec fn wf(&self) -> bool {
        self.inner.out.wf() && self.inner.err.wf()
    }

    /// The buffers are what is left of the two streams.
    pub open spec fn holds(&self, out: Seq<u8>, err: Seq<u8>) -> bool {
        self.inner.out.holds(out) && self.inner.err.holds(err)
    }

    /// Whether the streams still have offsets for what the event brings.
    pub open spec fn has_room_for(&self, event: JobEvent) -> bool {
        &&& self.inner.out.length() + out_bytes(event).len() <= u64::MAX
        &&& self.inner.err.length() + err_bytes(event).len() <= u64::MAX
    }

    /// The same job but for what it captures.
    pub open spec fn same_job(&self, other: &BgJob) -> bool {
        &&& self.id == other.id
        &&& self.user_id == other.user_id
        &&& self.session_id == other.session_id
        &&& self.server_alias == other.server_alias
        &&& self.command == other.command
        &&& self.started_at == other.started_at
    }

    /// A command that has just been started on its channel.
    pub fn started(
        id: String,
        user_id: i64,
        session_id: String,
        server_alias: String,
        command: String,
        started_at: Timestamp,
    ) -> (r: Self)
        ensures
            r.wf(),
            r.id == id,
            r.user_id == user_id,
            r.session_id == session_id,
            r.server_alias == server_alias,
            r.command == command,
            r.started_at == started_at,
            r.holds(Seq::empty(), Seq::empty()),
            r.inner.out.length() == 0,
            r.inner.err.length() == 0,
            r.inner.running,
            r.inner.exit_code is None,
    {
        BgJob {
            id,
            user_id,
            session_id,
            server_alias,
            command,
            started_at,
            inner: JobInner {
                out: RingStream::new(),
                err: RingStream::new(),
                running: true,
                exit_code: None,
            },
        }
    }

    /// Read new output since the given absolute offsets.
    pub fn read(&self, stdout_offset: u64, stderr_offset: u64) -> (r: JobSnapshot)
        requires
            self.wf(),
        ensures
            forall|out: Seq<u8>, err: Seq<u8>| #[trigger]
                self.holds(out, err) ==> {
                    &&& r.out() == stream_read(out, stdout_offset as int)
                    &&& r.err() == stream_read(err, stderr_offset as int)
                },
            r.stdout@.len() <= MAX_JOB_STREAM_BYTES,
            r.stderr@.len() <= MAX_JOB_STREAM_BYTES,
            r.running == self.inner.running,
            r.exit_code == self.inner.exit_code,
            r.stdout_offset == self.inner.out.length(),
            r.stderr_offset == self.inner.err.length(),
    {
        let (stdout, so, sg) = self.inner.out.read_from(stdout_offset);
        let (stderr, eo, eg) = self.inner.err.read_from(stderr_offset);
        JobSnapshot {
            stdout,
            stderr,
            stdout_offset: so,
            stderr_offset: eo,
            stdout_gap: sg,
            stderr_gap: eg,
            running: self.inner.running,
            exit_code: self.inner.exit_code,
        }
    }

    pub fn is_running(&self) -> (r: bool)
        ensures
            r == self.inner.running,
    {
        self.inner.running
    }

    /// Takes in what an event brings: output, an exit code, or the end.
    pub fn capture(&mut self, event: &JobEvent)
        requires
            old(self).wf(),
            old(self).has_room_for(*event),
        ensures
            final(self).wf(),
            final(self).same_job(old(self)),
            forall|out: Seq<u8>, err: Seq<u8>| #[trigger]
                old(self).holds(out, err) ==> final(self).holds(
                    out + out_bytes(*event),
                    err + err_bytes(*event),
                ),
            *event matches JobEvent::Data(b) ==> forall|out: Seq<u8>, err: Seq<u8>| #[trigger]
                old(self).holds(out, err) ==> final(self).holds(out + b@, err),
            *event matches JobEvent::ExtendedData(ext, b) ==> ext == 1 ==> forall|
                out: Seq<u8>,
                err: Seq<u8>,
            | #[trigger]
                old(self).holds(out, err) ==> final(self).holds(out, err + b@),
            forall|events: Seq<JobEvent>| #[trigger]
                old(self).holds(job_out(events), job_err(events)) ==> final(self).holds(
                    job_out(events.push(*event)),
                    job_err(events.push(*event)),
                ),
            final(self).inner.exit_code == exit_after(old(self).inner.exit_code, *event),
            forall|events: Seq<JobEvent>|
                old(self).inner.exit_code == exit_of(events) ==> final(self).inner.exit_code
                    == #[trigger] exit_of(events.push(*event)),
            final(self).inner.running == (old(self).inner.running && job_control(*event)
                == JobControl::Continue),
            final(self).inner.out.length() == old(self).inner.out.length() + out_bytes(
                *event,
            ).len(),
            final(self).inner.err.length() == old(self).inner.err.length() + err_bytes(
                *event,
            ).len(),
    {
        proof {
            lemma_exit_of_push(*event);
            assert forall|events: Seq<JobEvent>| #[trigger] events.push(*event).drop_last()
                == events by {
                assert(events.push(*event).drop_last() =~= events);
            }
            assert forall|s: Seq<u8>| #[trigger] (s + Seq::<u8>::empty()) == s by {
                assert(s + Seq::<u8>::empty() =~= s);
            }
        }
        match event {
            JobEvent::Data(bytes) => {
                self.inner.out.push(bytes.as_slice());
            },
            JobEvent::ExtendedData(ext, bytes) => {
                if *ext == 1 {
                    self.inner.err.push(bytes.as_slice());
                }
            },
            JobEvent::ExitStatus(status) => {
                self.inner.exit_code = Some(#[verifier::truncate] (*status as i32));
            },
            JobEvent::Closed => {
                self.inner.running = false;
            },
            JobEvent::StopRequested => {
                self.inner.running = false;
            },
            JobEvent::DeadlineElapsed => {
                self.inner.running = false;
            },
            JobEvent::Other => {},
        }
    }
}

impl BgJob {
    /// Whether the streams still have offsets for what the event brings.
    pub fn has_room(&self, event: &JobEvent) -> (r: bool)
        requires
            self.wf(),
        ensures
            r == self.has_room_for(*event),
    {
        match event {
            JobEvent::Data(bytes) => {
                bytes.len() as u64 <= u64::MAX - self.inner.out.total()
            },
            JobEvent::ExtendedData(ext, bytes) => {
                *ext != 1 || bytes.len() as u64 <= u64::MAX - self.inner.err.total()
            },
            _ => true,
        }
    }
}

/// The wall-clock limit that applies to a background job.
pub open spec fn job_limit(max_runtime_secs: Option<u64>) -> u64 {
    match max_runtime_secs {
        None => DEFAULT_JOB_MAX_SECS,
        Some(n) => if n < 1 {
            1
        } else if n > MAX_JOB_MAX_SECS {
            MAX_JOB_MAX_SECS
        } else {
            n
        },
    }
}

/// Works out the wall-clock limit of a background job, in seconds.
pub fn job_limit_secs(max_runtime_secs: Option<u64>) -> (r: u64)
    ensures
        r == job_limit(max_runtime_secs),
{
    let secs: u64 = max_runtime_secs.unwrap_or(DEFAULT_JOB_MAX_SECS);
    if secs < 1 {
        1
    } else if secs > MAX_JOB_MAX_SECS {
        MAX_JOB_MAX_SECS
    } else {
        secs
    }
}

/// Every background job has a limit of at least one second and at most a day.
pub proof fn law_job_limit_is_bounded(max_runtime_secs: Option<u64>)
    ensures
        1 <= job_limit(max_runtime_secs) <= MAX_JOB_MAX_SECS,
{
}

/// The exit code that a job reports in the end, as the audit trail keeps it.
pub open spec fn audited_code(exit_code: Option<i32>) -> Option<i64> {
    match exit_code {
        Some(c) => Some(c as i64),
        None => None,
    }
}

/// The reader of a background command: it follows the events of the channel
/// until the command is over, whoever still knows of the job by then.
pub struct JobRun {
    ctx: AuditCtx,
    command: String,
    exit_code: Option<i32>,
}

impl JobRun {
    pub closed spec fn ctx(&self) -> AuditCtxView {
        self.ctx@
    }

    pub closed spec fn command(&self) -> Seq<char> {
        self.command@
    }

    pub closed spec fn exit_code(&self) -> Option<i32> {
        self.exit_code
    }

    /// The reader of a command that has just been started.
    pub fn new(ctx: AuditCtx, command: String) -> (r: Self)
        ensures
            r.ctx() == ctx@,
            r.command() == command@,
            r.exit_code() is None,
    {
        JobRun { ctx, command, exit_code: None }
    }

    /// Takes note of an event, and says what to do.
    pub fn step(&mut self, event: &JobEvent) -> (r: JobControl)
        ensures
            r == job_control(*event),
            final(self).ctx() == old(self).ctx(),
            final(self).command() == old(self).command(),
            final(self).exit_code() == exit_after(old(self).exit_code(), *event),
            forall|events: Seq<JobEvent>|
                old(self).exit_code() == exit_of(events) ==> final(self).exit_code()
                    == #[trigger] exit_of(events.push(*event)),
    {
        proof {
            lemma_exit_of_push(*event);
        }
        match event {
            JobEvent::ExitStatus(status) => {
                self.exit_code = Some(#[verifier::truncate] (*status as i32));
                JobControl::Continue
            },
            JobEvent::Closed => JobControl::Finish,
            JobEvent::StopRequested => JobControl::TearDown,
            JobEvent::DeadlineElapsed => JobControl::TearDown,
            _ => JobControl::Continue,
        }
    }

    /// The audit entry for the command that is over.
    pub fn finish(self) -> (r: AuditEntry)
        ensures
            records(
                r@,
                self.ctx(),
                "exec_bg_done"@,
                (AuditDetailView {
                    command: Some(self.command()),
                    exit_code: audited_code(self.exit_code()),
                    ..no_detail()
                }),
            ),
            is_end_of(r@, self.ctx(), self.command(), self.exit_code()),
    {
        let mut detail = AuditDetail::of_command(self.command);
        detail.exit_code = match self.exit_code {
            Some(c) => Some(c as i64),
            None => None,
        };
        log(&self.ctx, "exec_bg_done", detail)
    }
}

/// The exit code known after some events, to the job and to its reader alike.
pub open spec fn exit_of(events: Seq<JobEvent>) -> Option<i32>
    decreases events.len(),
{
    if events.len() == 0 {
        None
    } else {
        exit_after(exit_of(events.drop_last()), events.last())
    }
}

proof fn lemma_exit_of_push(event: JobEvent)
    ensures
        forall|events: Seq<JobEvent>| #[trigger]
            exit_of(events.push(event)) == exit_after(exit_of(events), event),
{
    assert forall|events: Seq<JobEvent>| #[trigger] exit_of(events.push(event)) == exit_after(
        exit_of(events),
        event,
    ) by {
        assert(events.push(event).drop_last() =~= events);
    }
}

/// A job ends with the exit status that was reported last, whatever came after
/// it.
pub proof fn law_last_status_counts(events: Seq<JobEvent>, i: int)
    requires
        0 <= i < events.len(),
        forall|j: int| i < j < events.len() ==> !(#[trigger] events[j] is ExitStatus),
    ensures
        events[i] matches JobEvent::ExitStatus(status) ==> exit_of(events) == Some(status as i32),
    decreases events.len(),
{
    let init = events.drop_last();
    if i < init.len() {
        assert forall|j: int| i < j < init.len() implies !(#[trigger] init[j] is ExitStatus) by {
            assert(init[j] == events[j]);
        }
        law_last_status_counts(init, i);
        assert(init[i] == events[i]);
        assert(events.last() == events[events.len() - 1]);
    }
}

/// A job for which no exit status was reported ends without an exit code.
pub proof fn law_no_status_no_code(events: Seq<JobEvent>)
    requires
        forall|j: int| 0 <= j < events.len() ==> !(#[trigger] events[j] is ExitStatus),
    ensures
        exit_of(events) is None,
    decreases events.len(),
{
    if events.len() > 0 {
        let init = events.drop_last();
        assert forall|j: int| 0 <= j < init.len() implies !(#[trigger] init[j] is ExitStatus) by {
            assert(init[j] == events[j]);
        }
        law_no_status_no_code(init);
        assert(!(events[events.len() - 1] is ExitStatus));
    }
}

/// A read from an offset that is still retained gives every byte of the stream from that
/// offset on, and the length of the stream to go on from. Bytes are missing exactly where
/// more than two megabytes lie behind the offset; then the last two megabytes come.
pub proof fn law_reads_are_of_the_stream(stream: Seq<u8>, offset: int)
    requires
        0 <= offset,
    ensures
        stream_read(stream, offset).next == stream.len(),
        stream_read(stream, offset).gap <==> offset < stream.len() - 2_097_152,
        offset >= stream.len() ==> stream_read(stream, offset).bytes.len() == 0,
        stream.len() - 2_097_152 <= offset <= stream.len() ==> {
            &&& stream_read(stream, offset).bytes.len() == stream.len() - offset
            &&& forall|i: int|
                0 <= i < stream.len() - offset ==> #[trigger] stream_read(stream, offset).bytes[i]
                    == stream[offset + i]
        },
        offset < stream.len() - 2_097_152 ==> {
            &&& stream_read(stream, offset).bytes.len() == 2_097_152
            &&& forall|i: int|
                0 <= i < 2_097_152 ==> #[trigger] stream_read(stream, offset).bytes[i]
                    == stream[stream.len() - 2_097_152 + i]
        },
{
}

/// A ring buffer that holds what is left of a stream holds, after an append, what is left
/// of the longer stream.
pub proof fn law_push_appends(stream: Seq<u8>, bytes: Seq<u8>)
    ensures
        pushed(ring_of(stream), bytes) == ring_of(stream + bytes),
{
    let after = stream + bytes;
    let full = stream.skip(retained_from(stream)) + bytes;
    assert(full =~= after.skip(retained_from(stream)));
    assert(pushed(ring_of(stream), bytes).data =~= ring_of(after).data);
}

/// What a ring buffer holds of a stream is the end of the stream, up to two megabytes of
/// it, at the offset where it stood.
pub proof fn law_ring_keeps_the_end(stream: Seq<u8>, i: int)
    requires
        0 <= i < ring_of(stream).data.len(),
    ensures
        ring_of(stream).data[i] == stream[ring_of(stream).start_offset + i],
        ring_of(stream).start_offset + ring_of(stream).data.len() == stream.len(),
        ring_of(stream).data.len() <= 2_097_152,
        stream.len() <= 2_097_152 ==> ring_of(stream).start_offset == 0,
{
}

/// A snapshot of a job tells its output as output and its error output as error output.
pub proof fn law_snapshot_keeps_streams_apart(snap: JobSnapshot)
    ensures
        snap.out().bytes == snap.stdout@,
        snap.out().next == snap.stdout_offset,
        snap.out().gap == snap.stdout_gap,
        snap.err().bytes == snap.stderr@,
        snap.err().next == snap.stderr_offset,
        snap.err().gap == snap.stderr_gap,
{
}

/// A chunk of output adds all its bytes to the output stream and nothing to the error
/// stream; a chunk of the error stream adds all its bytes there and nothing to the
/// output; nothing else adds anything to either.
pub proof fn law_job_chunks_are_taken_whole(event: JobEvent)
    ensures
        event matches JobEvent::Data(b) ==> out_bytes(event) == b@ && err_bytes(event).len() == 0,
        event matches JobEvent::ExtendedData(ext, b) ==> out_bytes(event).len() == 0 && (ext == 1
            ==> err_bytes(event) == b@) && (ext != 1 ==> err_bytes(event).len() == 0),
        !(event is Data) ==> out_bytes(event).len() == 0,
        !(event is ExtendedData) ==> err_bytes(event).len() == 0,
{
}

/// The output stream of a job after a run of events.
pub open spec fn job_out(events: Seq<JobEvent>) -> Seq<u8>
    decreases events.len(),
{
    if events.len() == 0 {
        Seq::empty()
    } else {
        job_out(events.drop_last()) + out_bytes(events.last())
    }
}

/// The error stream of a job after a run of events.
pub open spec fn job_err(events: Seq<JobEvent>) -> Seq<u8>
    decreases events.len(),
{
    if events.len() == 0 {
        Seq::empty()
    } else {
        job_err(events.drop_last()) + err_bytes(events.last())
    }
}

/// What a job has written after one run of events and then another is what it wrote in
/// the first and then what it wrote in the second; a run of chunks of output alone adds
/// as many bytes as the chunks have, and nothing to the error stream.
pub proof fn law_job_output_adds_up(first: Seq<JobEvent>, second: Seq<JobEvent>)
    ensures
        job_out(first + second) == job_out(first) + job_out(second),
        job_err(first + second) == job_err(first) + job_err(second),
        (forall|i: int| 0 <= i < second.len() ==> (#[trigger] second[i]) is Data) ==> job_err(
            second,
        ).len() == 0,
    decreases second.len(),
{
    if second.len() == 0 {
        assert(first + second =~= first);
        assert(job_out(first) + job_out(second) =~= job_out(first));
        assert(job_err(first) + job_err(second) =~= job_err(first));
    } else {
        let init = second.drop_last();
        law_job_output_adds_up(first, init);
        assert((first + second).drop_last() =~= first + init);
        assert((first + second).last() == second.last());
        assert(job_out(first + second) =~= job_out(first) + job_out(second));
        assert(job_err(first + second) =~= job_err(first) + job_err(second));
        if forall|i: int| 0 <= i < second.len() ==> (#[trigger] second[i]) is Data {
            assert forall|i: int| 0 <= i < init.len() implies (#[trigger] init[i]) is Data by {
                assert(init[i] == second[i]);
            }
            assert(second[second.len() - 1] is Data);
        }
    }
}

/// Every byte of a chunk of output stands in the output stream of its job, right after
/// what came before it; and so it is with the error stream.
pub proof fn law_job_keeps_every_byte(before: Seq<JobEvent>, event: JobEvent, after: Seq<JobEvent>)
    ensures
        event matches JobEvent::Data(b) ==> {
            let all = job_out(before.push(event) + after);
            all.skip(job_out(before).len() as int).take(b@.len() as int) == b@
        },
        event matches JobEvent::ExtendedData(ext, b) ==> ext == 1 ==> {
            let all = job_err(before.push(event) + after);
            all.skip(job_err(before).len() as int).take(b@.len() as int) == b@
        },
{
    law_job_output_adds_up(before.push(event), after);
    assert(before.push(event).drop_last() =~= before);
    if let JobEvent::Data(b) = event {
        let all = job_out(before.push(event) + after);
        assert(all.skip(job_out(before).len() as int).take(b@.len() as int)
            =~= b@);
    }
    if let JobEvent::ExtendedData(ext, b) = event {
        if ext == 1 {
            let all = job_err(before.push(event) + after);
            assert(all.skip(job_err(before).len() as int).take(b@.len() as int)
                =~= b@);
        }
    }
}

/// A job runs on until its channel is closed, it is asked to stop or its time is up; only
/// in the last two cases is the command torn down.
pub proof fn law_job_ends_when_it_must(event: JobEvent)
    ensures
        job_control(event) == JobControl::Finish <==> event is Closed,
        job_control(event) == JobControl::TearDown <==> event is StopRequested
            || event is DeadlineElapsed,
        job_control(event) == JobControl::Continue <==> !(event is Closed)
            && !(event is StopRequested) && !(event is DeadlineElapsed),
{
}

/// An exit status becomes the exit code, and nothing else changes it.
pub proof fn law_status_becomes_the_code(exit_code: Option<i32>, event: JobEvent)
    ensures
        event matches JobEvent::ExitStatus(status) ==> exit_after(exit_code, event) == Some(
            status as i32,
        ),
        !(event is ExitStatus) ==> exit_after(exit_code, event) == exit_code,
{
}

/// A caller gets the limit it asks for between one second and a day, and half an hour
/// when it asks for none.
pub proof fn law_job_limit_is_as_asked(max_runtime_secs: Option<u64>)
    ensures
        max_runtime_secs is None ==> job_limit(max_runtime_secs) == 1800,
        max_runtime_secs matches Some(n) ==> {
            &&& 1 <= n <= 86_400 ==> job_limit(max_runtime_secs) == n
            &&& n > 86_400 ==> job_limit(max_runtime_secs) == 86_400
            &&& n < 1 ==> job_limit(max_runtime_secs) == 1
        },
{
}

/// The audit trail keeps the exit code of a job as it is.
pub proof fn law_code_is_kept(exit_code: Option<i32>)
    ensures
        exit_code matches Some(c) ==> audited_code(exit_code) == Some(c as i64) && audited_code(
            exit_code,
        )->0 == c,
        exit_code is None ==> audited_code(exit_code) is None,
{
}

/// A job's two buffers are each of its own stream, and say so apart from each other.
pub proof fn law_job_holds_each_stream(
    job: BgJob,
    out: Seq<u8>,
    err: Seq<u8>,
)
    requires
        job.holds(out, err),
    ensures
        job.inner.out@ == ring_of(out),
        job.inner.err@ == ring_of(err),
        job.inner.out.length() == out.len(),
        job.inner.err.length() == err.len(),
{
}

/// The same job is the same in everything that was asked for.
pub proof fn law_same_job_keeps_its_facts(job: BgJob, other: BgJob)
    requires
        job.same_job(&other),
    ensures
        job.id@ == other.id@,
        job.user_id == other.user_id,
        job.session_id@ == other.session_id@,
        job.server_alias@ == other.server_alias@,
        job.command@ == other.command@,
        job.started_at == other.started_at,
{
}

/// Whether an entry puts the end of a job on record.
pub open spec fn is_end_of(
    entry: crate::models::AuditEntryView,
    ctx: AuditCtxView,
    command: Seq<char>,
    exit_code: Option<i32>,
) -> bool {
    &&& entry.event == "exec_bg_done"@
    &&& entry.command == Some(command)
    &&& entry.exit_code == audited_code(exit_code)
    &&& entry.user_id == ctx.user_id
    &&& entry.token_id == ctx.token_id
    &&& entry.server_alias == ctx.server_alias
    &&& entry.session_id == ctx.session_id
    &&& entry.stdout is None
    &&& entry.stderr is None
    &&& entry.error is None
}

/// The end of a job stands on record with its command and its exit code, where it had
/// one, put down to who started it.
pub proof fn law_end_is_recorded(
    entry: crate::models::AuditEntryView,
    ctx: AuditCtxView,
    command: Seq<char>,
    exit_code: Option<i32>,
)
    requires
        is_end_of(entry, ctx, command, exit_code),
    ensures
        entry.event == "exec_bg_done"@,
        entry.command == Some(command),
        exit_code matches Some(c) ==> entry.exit_code is Some && entry.exit_code->0 == c,
        exit_code is None ==> entry.exit_code is None,
        entry.user_id == ctx.user_id,
        entry.token_id == ctx.token_id,
        entry.server_alias == ctx.server_alias,
        entry.session_id == ctx.session_id,
        entry.error is None,
{
}

} // verus!
