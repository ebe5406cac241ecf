//! SSH sessions: how one comes about over a chain of hops, what a command's
//! channel is read into, and how files come over.

use vstd::prelude::*;
use vstd::string::*;

use crate::audit::{AuditCtx, AuditCtxView};
use crate::clock::{clock_time, utc_now, MonoClock, Timestamp, WallClock, LAST_SECOND};
use crate::error::{Error, ErrorView};
use crate::ids::{is_prefixed_id, session_id};
use crate::job::BgJob;
use crate::models::{ResolvedServer, ResolvedServerView};
use crate::sshkey::{
    auth_failure, auth_outcome, auth_request_of, authenticate, law_login_is_the_hops,
    law_password_is_the_secret, login_name, AuthReply, AuthRequest, AuthRequestView,
};
use crate::text::{
    decimal, decimal_digits, from_utf8_lossy, join2, join3, owned, texts, utf8_lossy,
};

verus! {

/// Cap on each output stream of a one-shot command.
pub const MAX_OUTPUT_BYTES: usize = 1_048_576;

/// The most hops a chain may have.
pub const MAX_JUMP_HOPS: usize = 5;

/// The hops of a chain as values.
pub open spec fn hop_views(chain: Seq<ResolvedServer>) -> Seq<ResolvedServerView> {
    chain.map_values(|h: ResolvedServer| h@)
}

/// The aliases of the hops of a chain.
pub open spec fn hop_aliases(chain: Seq<ResolvedServerView>) -> Seq<Seq<char>> {
    chain.map_values(|h: ResolvedServerView| h.alias)
}

/// An SSH session that is open, as far as anything is decided by it.
pub struct SshSession {
    pub id: String,
    pub user_id: i64,
    pub token_id: i64,
    pub server_alias: String,
    pub hop_path: Vec<String>,
    pub created_at: Timestamp,
    pub last_used_epoch: i64,
}

impl SshSession {
    /// The times of the session are times that a clock gave.
    pub open spec fn wf(&self) -> bool {
        &&& self.created_at.valid()
        &&& 0 <= self.last_used_epoch <= LAST_SECOND
    }

    /// The same session but for when it was last used.
    pub open spec fn same_session(&self, other: &SshSession) -> bool {
        &&& self.id == other.id
        &&& self.user_id == other.user_id
        &&& self.token_id == other.token_id
        &&& self.server_alias == other.server_alias
        &&& self.hop_path == other.hop_path
        &&& self.created_at == other.created_at
    }

    /// Marks the session as used now.
    pub fn touch(&mut self, clock: &mut WallClock)
        requires
            old(self).wf(),
        ensures
            final(self).wf(),
            final(self).same_session(old(self)),
            final(self).last_used_epoch == final(clock).reading(),
            0 <= final(clock).reading() <= LAST_SECOND,
    {
        let now = clock.read();
        self.touch_at(now);
    }

    /// Marks the session as used at the given second.
    pub fn touch_at(&mut self, now: i64)
        ensures
            final(self).same_session(old(self)),
            final(self).last_used_epoch == now,
    {
        self.last_used_epoch = now;
    }

    /// The seconds since the session was last used.
    pub fn idle_secs(&self, clock: &mut WallClock) -> (r: i64)
        requires
            self.wf(),
        ensures
            r == final(clock).reading() - self.last_used_epoch,
            0 <= final(clock).reading() <= LAST_SECOND,
    {
        let now = clock.read();
        self.idle_secs_at(now)
    }

    /// The seconds from when the session was last used to the given second.
    pub fn idle_secs_at(&self, now: i64) -> (r: i64)
        requires
            self.wf(),
            0 <= now <= LAST_SECOND,
        ensures
            r == now - self.last_used_epoch,
    {
        now - self.last_used_epoch
    }
}

/// Whether a session is the one that a chain of hops opened for a user's token.
pub open spec fn opened_over(
    session: SshSession,
    user_id: i64,
    token_id: i64,
    chain: Seq<ResolvedServerView>,
) -> bool {
    &&& session.wf()
    &&& clock_time(session.created_at)
    &&& is_prefixed_id("cs_"@, session.id@)
    &&& session.user_id == user_id
    &&& session.token_id == token_id
    &&& session.server_alias@ == chain.last().alias
    &&& texts(session.hop_path@) == hop_aliases(chain)
    &&& session.last_used_epoch == session.created_at.secs
}

/// What to do to reach the next hop.
pub enum DialAction {
    /// Connect to the first hop.
    Connect { host: String, port: u16 },
    /// Open a tunnel from the hop `via`, and connect through it.
    Tunnel { via: usize, host: String, port: u16 },
}

/// Whether the action reaches hop `at` of a chain: the first hop directly, and
/// every other one through the hop before it.
pub open spec fn reaches(action: DialAction, chain: Seq<ResolvedServerView>, at: int) -> bool {
    match action {
        DialAction::Connect { host, port } => {
            &&& at == 0
            &&& host@ == chain[0].host
            &&& port == chain[0].port
        },
        DialAction::Tunnel { via, host, port } => {
            &&& at > 0
            &&& via == at - 1
            &&& host@ == chain[at].host
            &&& port == chain[at].port
        },
    }
}

/// How reaching a hop went.
pub enum DialReply {
    Connected,
    /// Connecting to the first hop failed.
    ConnectFailed(String),
    /// Opening the tunnel failed.
    TunnelFailed(String),
    /// The handshake through the tunnel failed.
    HandshakeFailed(String),
}

/// The error that a reply amounts to; nothing where the hop was reached.
pub open spec fn dial_failure(hop: ResolvedServerView, reply: DialReply) -> Option<ErrorView> {
    match reply {
        DialReply::Connected => None,
        DialReply::ConnectFailed(e) => Some(
            ErrorView::Other("ssh connect "@ + hop.host + ": "@ + e@),
        ),
        DialReply::TunnelFailed(e) => Some(
            ErrorView::Other(
                "direct-tcpip to "@ + hop.host + ":"@ + decimal_digits(hop.port as nat) + ": "@
                    + e@,
            ),
        ),
        DialReply::HandshakeFailed(e) => Some(
            ErrorView::Other("tunneled handshake to "@ + hop.host + ": "@ + e@),
        ),
    }
}

/// Says what a reply amounts to.
fn dial_outcome(hop: &ResolvedServer, reply: DialReply) -> (r: Result<(), Error>)
    ensures
        match (r, dial_failure(hop@, reply)) {
            (Ok(()), None) => true,
            (Err(e), Some(v)) => e@ == v,
            _ => false,
        },
{
    match reply {
        DialReply::Connected => Ok(()),
        DialReply::ConnectFailed(e) => {
            let mut text = join3("ssh connect ", hop.host.as_str(), ": ");
            text.append(e.as_str());
            Err(Error::Other(text))
        },
        DialReply::TunnelFailed(e) => {
            let mut text = join3("direct-tcpip to ", hop.host.as_str(), ":");
            text.append(decimal(hop.port as u128).as_str());
            text.append(": ");
            text.append(e.as_str());
            Err(Error::Other(text))
        },
        DialReply::HandshakeFailed(e) => {
            let mut text = join3("tunneled handshake to ", hop.host.as_str(), ": ");
            text.append(e.as_str());
            Err(Error::Other(text))
        },
    }
}

/// A chain of hops of which the next one is to be reached.
pub struct Dialing {
    user_id: i64,
    token_id: i64,
    chain: Vec<ResolvedServer>,
    at: usize,
}

/// A chain of hops of which the next one has been reached and is to let us in.
pub struct Authenticating {
    user_id: i64,
    token_id: i64,
    chain: Vec<ResolvedServer>,
    at: usize,
}

/// What follows when a hop has let us in.
pub enum ChainStep {
    /// The next hop is to be reached.
    Dial(Dialing),
    /// The session is open.
    Established(SshSession),
}

impl Dialing {
    pub closed spec fn wf(&self) -> bool {
        self.at < self.chain@.len()
    }

    pub closed spec fn chain(&self) -> Seq<ResolvedServerView> {
        hop_views(self.chain@)
    }

    pub closed spec fn at(&self) -> int {
        self.at as int
    }

    pub closed spec fn user(&self) -> (i64, i64) {
        (self.user_id, self.token_id)
    }

    /// What to do to reach the hop.
    pub fn action(&self) -> (r: DialAction)
        requires
            self.wf(),
        ensures
            reaches(r, self.chain(), self.at()),
    {
        let hop = &self.chain[self.at];
        assert(self.chain()[self.at as int] == hop@);
        if self.at == 0 {
            DialAction::Connect { host: hop.host.clone(), port: hop.port }
        } else {
            DialAction::Tunnel { via: self.at - 1, host: hop.host.clone(), port: hop.port }
        }
    }

    /// Goes on when the hop has been reached: to the credentials to offer it.
    pub fn reached(self, reply: DialReply) -> (r: Result<(Authenticating, AuthRequest), Error>)
        requires
            self.wf(),
        ensures
            match dial_failure(self.chain()[self.at()], reply) {
                Some(v) => r matches Err(e) && e@ == v,
                None => match (r, auth_request_of(self.chain()[self.at()])) {
                    (Ok((a, q)), Ok(v)) => a.wf() && a.chain() == self.chain() && a.at()
                        == self.at() && a.user() == self.user() && q@ == v,
                    (Err(e), Err(v)) => e@ == v,
                    _ => false,
                },
            },
            r matches Ok((a, q)) ==> {
                &&& offers(q@, self.chain(), self.at())
                &&& a.chain() == self.chain()
                &&& a.at() == self.at()
                &&& a.user() == self.user()
            },
    {
        assert(self.chain()[self.at as int] == self.chain@[self.at as int]@);
        match dial_outcome(&self.chain[self.at], reply) {
            Err(e) => Err(e),
            Ok(()) => match authenticate(&self.chain[self.at]) {
                Err(e) => Err(e),
                Ok(request) => Ok(
                    (
                        Authenticating {
                            user_id: self.user_id,
                            token_id: self.token_id,
                            chain: self.chain,
                            at: self.at,
                        },
                        request,
                    ),
                ),
            },
        }
    }
}

impl Authenticating {
    pub closed spec fn wf(&self) -> bool {
        self.at < self.chain@.len()
    }

    pub closed spec fn chain(&self) -> Seq<ResolvedServerView> {
        hop_views(self.chain@)
    }

    pub closed spec fn at(&self) -> int {
        self.at as int
    }

    pub closed spec fn user(&self) -> (i64, i64) {
        (self.user_id, self.token_id)
    }

    /// Goes on when the hop has answered: to the next hop, or to the open
    /// session behind the last one.
    pub fn answered(self, reply: AuthReply) -> (r: Result<ChainStep, Error>)
        requires
            self.wf(),
        ensures
            match auth_failure(self.chain()[self.at()], reply) {
                Some(v) => r matches Err(e) && e@ == v,
                None => match r {
                    Err(_) => false,
                    Ok(ChainStep::Dial(d)) => self.at() + 1 < self.chain().len() && d.wf()
                        && d.chain() == self.chain() && d.at() == self.at() + 1 && d.user()
                        == self.user(),
                    Ok(ChainStep::Established(s)) => self.at() + 1 == self.chain().len()
                        && opened_over(s, self.user().0, self.user().1, self.chain()),
                },
            },
            r matches Ok(step) ==> goes_on(step, self.chain(), self.at(), self.user()),
    {
        assert(self.chain()[self.at as int] == self.chain@[self.at as int]@);
        match auth_outcome(&self.chain[self.at], reply) {
            Err(e) => Err(e),
            Ok(()) => {
                if self.at < self.chain.len() - 1 {
                    Ok(
                        ChainStep::Dial(
                            Dialing {
                                user_id: self.user_id,
                                token_id: self.token_id,
                                chain: self.chain,
                                at: self.at + 1,
                            },
                        ),
                    )
                } else {
                    Ok(
                        ChainStep::Established(
                            open_session(self.user_id, self.token_id, &self.chain),
                        ),
                    )
                }
            },
        }
    }
}

/// The aliases of the hops, in their order.
fn alias_path(chain: &Vec<ResolvedServer>) -> (r: Vec<String>)
    ensures
        texts(r@) == hop_aliases(hop_views(chain@)),
{
    let mut path: Vec<String> = Vec::new();
    let mut i: usize = 0;
    while i < chain.len()
        invariant
            i <= chain@.len(),
            path@.len() == i,
            forall|j: int| 0 <= j < i ==> (#[trigger] path@[j])@ == chain@[j]@.alias,
        decreases chain.len() - i,
    {
        path.push(chain[i].alias.clone());
        i = i + 1;
    }
    assert(texts(path@) =~= hop_aliases(hop_views(chain@)));
    path
}

/// The session behind the last hop of the chain, opened now.
fn open_session(user_id: i64, token_id: i64, chain: &Vec<ResolvedServer>) -> (r: SshSession)
    requires
        chain@.len() > 0,
    ensures
        opened_over(r, user_id, token_id, hop_views(chain@)),
{
    open_session_at(user_id, token_id, chain, session_id(), utc_now())
}

/// The session behind the last hop of the chain, under the given identifier, opened
/// at the given time.
pub fn open_session_at(
    user_id: i64,
    token_id: i64,
    chain: &Vec<ResolvedServer>,
    id: String,
    now: Timestamp,
) -> (r: SshSession)
    requires
        chain@.len() > 0,
        clock_time(now),
    ensures
        r.wf(),
        r.id == id,
        r.user_id == user_id,
        r.token_id == token_id,
        r.server_alias@ == hop_views(chain@).last().alias,
        texts(r.hop_path@) == hop_aliases(hop_views(chain@)),
        r.created_at == now,
        r.last_used_epoch == now.secs,
{
    let target = chain[chain.len() - 1].alias.clone();
    SshSession {
        id,
        user_id,
        token_id,
        server_alias: target,
        hop_path: alias_path(chain),
        created_at: now,
        last_used_epoch: now.secs,
    }
}

impl SshSession {
    /// Sets out over a chain of hops, ordered outer-most first, target last (at
    /// least 1 element).
    pub fn connect_chain(user_id: i64, token_id: i64, chain: Vec<ResolvedServer>) -> (r: Result<
        Dialing,
        Error,
    >)
        ensures
            chain@.len() == 0 ==> (r matches Err(e) && e@ == ErrorView::Invalid("empty chain"@)),
            chain@.len() > 0 ==> (r matches Ok(d) && d.wf() && d.chain() == hop_views(chain@)
                && d.at() == 0 && d.user() == (user_id, token_id)),
            r matches Ok(d) ==> sets_out(d, user_id, token_id, chain@),
    {
        if chain.len() == 0 {
            return Err(Error::Invalid(owned("empty chain")));
        }
        Ok(Dialing { user_id, token_id, chain, at: 0 })
    }
}

impl SshSession {
    /// The order in which the connections to the hops of a session are closed: the
    /// target first, the outer-most hop last.
    pub fn close(hops: usize) -> (r: Vec<usize>)
        ensures
            r@.len() == hops,
            forall|i: int| 0 <= i < hops ==> #[trigger] r@[i] == hops - 1 - i,
    {
        let mut order: Vec<usize> = Vec::new();
        let mut left: usize = hops;
        while left > 0
            invariant
                left <= hops,
                order@.len() == hops - left,
                forall|i: int| 0 <= i < order@.len() ==> #[trigger] order@[i] == hops - 1 - i,
            decreases left,
        {
            left = left - 1;
            order.push(left);
        }
        order
    }
}

/// Why work on the channels of a session came to nothing.
pub enum ChannelFailure {
    /// The session has been closed.
    SessionClosed,
    /// No channel could be opened.
    OpenChannel(String),
    /// The command could not be started.
    Exec(String),
    /// The server refused the SFTP subsystem.
    Subsystem(String),
    /// The SFTP session could not be set up.
    SftpInit(String),
    /// The directory could not be read.
    ReadDir(String),
    /// The remote file could not be opened.
    Open(String),
    /// Reading the remote file failed.
    Read(String),
    /// Writing the remote file failed.
    Write(String),
}

/// The error that a failure amounts to.
pub open spec fn channel_error_of(failure: ChannelFailure) -> ErrorView {
    match failure {
        ChannelFailure::SessionClosed => ErrorView::Invalid("session closed"@),
        ChannelFailure::OpenChannel(e) => ErrorView::Other("open channel: "@ + e@),
        ChannelFailure::Exec(e) => ErrorView::Other("exec: "@ + e@),
        ChannelFailure::Subsystem(e) => ErrorView::Other("subsystem: "@ + e@),
        ChannelFailure::SftpInit(e) => ErrorView::Other("sftp init: "@ + e@),
        ChannelFailure::ReadDir(e) => ErrorView::Other("readdir: "@ + e@),
        ChannelFailure::Open(e) => ErrorView::Other("open: "@ + e@),
        ChannelFailure::Read(e) => ErrorView::Other("read: "@ + e@),
        ChannelFailure::Write(e) => ErrorView::Other("write: "@ + e@),
    }
}

/// Turns a failure into its error.
pub fn channel_error(failure: ChannelFailure) -> (r: Error)
    ensures
        r@ == channel_error_of(failure),
{
    match failure {
        ChannelFailure::SessionClosed => Error::Invalid(owned("session closed")),
        ChannelFailure::OpenChannel(e) => Error::Other(join2("open channel: ", e.as_str())),
        ChannelFailure::Exec(e) => Error::Other(join2("exec: ", e.as_str())),
        ChannelFailure::Subsystem(e) => Error::Other(join2("subsystem: ", e.as_str())),
        ChannelFailure::SftpInit(e) => Error::Other(join2("sftp init: ", e.as_str())),
        ChannelFailure::ReadDir(e) => Error::Other(join2("readdir: ", e.as_str())),
        ChannelFailure::Open(e) => Error::Other(join2("open: ", e.as_str())),
        ChannelFailure::Read(e) => Error::Other(join2("read: ", e.as_str())),
        ChannelFailure::Write(e) => Error::Other(join2("write: ", e.as_str())),
    }
}

/// The first `cap` bytes of a stream.
pub open spec fn capped(stream: Seq<u8>, cap: int) -> Seq<u8> {
    if stream.len() > cap {
        stream.take(cap)
    } else {
        stream
    }
}

/// Keeps the first bytes of a stream, up to a cap.
pub struct CappedBuffer {
    data: Vec<u8>,
    cap: usize,
    cut: bool,
}

impl CappedBuffer {
    pub closed spec fn wf(&self) -> bool {
        &&& self.data@.len() <= self.cap
        &&& self.cut ==> self.data@.len() == self.cap
    }

    pub closed spec fn cap(&self) -> int {
        self.cap as int
    }

    /// The buffer has taken in `stream`.
    pub closed spec fn holds(&self, stream: Seq<u8>) -> bool {
        &&& self.data@ == capped(stream, self.cap as int)
        &&& self.cut == (stream.len() > self.cap)
    }

    pub fn new(cap: usize) -> (r: Self)
        ensures
            r.wf(),
            r.cap() == cap,
            r.holds(Seq::empty()),
    {
        let r = CappedBuffer { data: Vec::new(), cap, cut: false };
        assert(r.data@ =~= capped(Seq::<u8>::empty(), cap as int));
        r
    }

    /// Takes in more of the stream. Says whether something was cut off.
    pub fn push(&mut self, bytes: &[u8]) -> (r: bool)
        requires
            old(self).wf(),
        ensures
            final(self).wf(),
            final(self).cap() == old(self).cap(),
            forall|stream: Seq<u8>| #[trigger]
                old(self).holds(stream) ==> {
                    &&& final(self).holds(stream + bytes@)
                    &&& r == (stream.len() <= old(self).cap() < stream.len() + bytes@.len()
                        || (stream.len() > old(self).cap() && bytes@.len() > 0))
                },
    {
        let ghost before = *self;
        let room: usize = self.cap - self.data.len();
        let over = bytes.len() > room;
        if over {
            let part = vstd::slice::slice_subrange(bytes, 0, room);
            self.data.extend_from_slice(part);
            self.cut = true;
            assert(self.data@ =~= before.data@ + bytes@.take(room as int));
        } else {
            self.data.extend_from_slice(bytes);
            assert(self.data@ =~= before.data@ + bytes@);
        }
        proof {
            let cap = before.cap as int;
            assert forall|stream: Seq<u8>| #[trigger] before.holds(stream) implies {
                &&& self.holds(stream + bytes@)
                &&& over == (stream.len() <= cap < stream.len() + bytes@.len() || (stream.len()
                    > cap && bytes@.len() > 0))
            } by {
                assert(self.data@ =~= capped(stream + bytes@, cap));
            }
        }
        over
    }

    /// What was kept, and whether something was cut off.
    pub fn into_parts(self) -> (r: (Vec<u8>, bool))
        requires
            self.wf(),
        ensures
            r.0@.len() <= self.cap(),
            forall|stream: Seq<u8>| #[trigger]
                self.holds(stream) ==> r.0@ == capped(stream, self.cap()) && r.1 == (stream.len()
                    > self.cap()),
    {
        (self.data, self.cut)
    }
}

/// What is kept of a stream never exceeds the cap, is the beginning of the
/// stream, and is all of it unless something was cut off.
pub proof fn law_capped_is_prefix(stream: Seq<u8>, cap: int)
    requires
        0 <= cap,
    ensures
        capped(stream, cap).len() <= cap,
        capped(stream, cap).is_prefix_of(stream),
        stream.len() <= cap ==> capped(stream, cap) == stream,
        stream.len() > cap ==> capped(stream, cap).len() == cap,
{
}

/// What the channel of a command brings.
pub enum ChannelEvent {
    /// Bytes of the command's output.
    Data(Vec<u8>),
    /// Bytes of another stream of the command; stream 1 is its error output.
    ExtendedData(u32, Vec<u8>),
    /// The command's exit status.
    ExitStatus(u32),
    /// The server closed the channel.
    Close,
    /// The channel brings nothing more.
    Ended,
    /// Any other message.
    Other,
}

/// What to do with the channel of a command after an event.
#[derive(Clone, Copy, Debug, PartialEq, Eq, Structural)]
pub enum ExecControl {
    /// Wait for the next event.
    Continue,
    /// The command is over.
    Finish,
    /// The command is over, and the channel is still to be closed.
    CloseAndFinish,
}

/// What an event means for the channel.
pub open spec fn exec_control(event: ChannelEvent) -> ExecControl {
    match event {
        ChannelEvent::Close => ExecControl::Finish,
        ChannelEvent::Ended => ExecControl::CloseAndFinish,
        _ => ExecControl::Continue,
    }
}

/// What an event adds to the output stream.
pub open spec fn exec_out(event: ChannelEvent) -> Seq<u8> {
    match event {
        ChannelEvent::Data(b) => b@,
        _ => Seq::empty(),
    }
}

/// What an event adds to the error stream.
pub open spec fn exec_err(event: ChannelEvent) -> Seq<u8> {
    match event {
        ChannelEvent::ExtendedData(ext, b) => if ext == 1 {
            b@
        } else {
            Seq::empty()
        },
        _ => Seq::empty(),
    }
}

/// The exit code after an event.
pub open spec fn exec_exit(exit_code: i32, event: ChannelEvent) -> i32 {
    match event {
        ChannelEvent::ExitStatus(status) => status as i32,
        _ => exit_code,
    }
}

/// The outcome of a one-shot command.
#[derive(Debug)]
pub struct ExecOutput {
    pub stdout: String,
    pub stderr: String,
    pub exit_code: i32,
    pub duration_ms: i64,
    pub truncated: bool,
}

/// An [`ExecOutput`] as a value.
pub struct ExecOutputView {
    pub stdout: Seq<char>,
    pub stderr: Seq<char>,
    pub exit_code: i32,
    pub duration_ms: i64,
    pub truncated: bool,
}

impl View for ExecOutput {
    type V = ExecOutputView;

    open spec fn view(&self) -> ExecOutputView {
        ExecOutputView {
            stdout: self.stdout@,
            stderr: self.stderr@,
            exit_code: self.exit_code,
            duration_ms: self.duration_ms,
            truncated: self.truncated,
        }
    }
}

impl Clone for ExecOutput {
    fn clone(&self) -> (r: Self)
        ensures
            r@ == self@,
    {
        ExecOutput {
            stdout: self.stdout.clone(),
            stderr: self.stderr.clone(),
            exit_code: self.exit_code,
            duration_ms: self.duration_ms,
            truncated: self.truncated,
        }
    }
}

/// The outcome of a command that wrote the two streams, ended with the exit code
/// and took so many nanoseconds.
pub open spec fn exec_output_of(
    out: Seq<u8>,
    err: Seq<u8>,
    exit_code: i32,
    nanos: u128,
) -> ExecOutputView {
    ExecOutputView {
        stdout: utf8_lossy(capped(out, MAX_OUTPUT_BYTES as int)),
        stderr: utf8_lossy(capped(err, MAX_OUTPUT_BYTES as int)),
        exit_code,
        duration_ms: (nanos / 1_000_000) as i64,
        truncated: out.len() > MAX_OUTPUT_BYTES || err.len() > MAX_OUTPUT_BYTES,
    }
}

/// A one-shot command on its channel, as its output comes in.
pub struct ExecRun {
    command: String,
    timeout_secs: u64,
    clock: MonoClock,
    out: CappedBuffer,
    err: CappedBuffer,
    exit_code: i32,
}

impl ExecRun {
    pub closed spec fn wf(&self) -> bool {
        &&& self.out.wf() && self.out.cap() == MAX_OUTPUT_BYTES
        &&& self.err.wf() && self.err.cap() == MAX_OUTPUT_BYTES
    }

    /// The command has written the two streams.
    pub closed spec fn holds(&self, out: Seq<u8>, err: Seq<u8>) -> bool {
        self.out.holds(out) && self.err.holds(err)
    }

    /// The exit code so far; -1 until the command reports one.
    pub closed spec fn exit_code(&self) -> i32 {
        self.exit_code
    }

    pub closed spec fn command(&self) -> Seq<char> {
        self.command@
    }

    pub closed spec fn timeout_secs(&self) -> u64 {
        self.timeout_secs
    }

    /// Whether the command, ending now after so many nanoseconds, has the outcome.
    pub open spec fn gives(&self, nanos: u128, outcome: ExecOutputView) -> bool {
        forall|out: Seq<u8>, err: Seq<u8>| #[trigger]
            self.holds(out, err) ==> outcome == exec_output_of(out, err, self.exit_code(), nanos)
    }

    /// Whether nothing has been heard of the command yet.
    pub open spec fn is_fresh(&self) -> bool {
        self.holds(Seq::empty(), Seq::empty()) && self.exit_code() == -1
    }

    /// The command to start, and the seconds within which it has to end.
    pub fn plan(&self) -> (r: (&str, u64))
        ensures
            r.0@ == self.command(),
            r.1 == self.timeout_secs(),
            self.is_fresh() ==> is_run_of(*self, r.0@, r.1),
    {
        (self.command.as_str(), self.timeout_secs)
    }

    /// The error for a command that did not end in time.
    pub fn timed_out(&self) -> (r: Error)
        ensures
            r@ == ErrorView::Invalid(
                "exec timeout after "@ + decimal_digits(self.timeout_secs() as nat) + "s"@,
            ),
    {
        Error::Invalid(
            join3("exec timeout after ", decimal(self.timeout_secs as u128).as_str(), "s"),
        )
    }

    /// Takes in what the channel brings.
    pub fn step(&mut self, event: &ChannelEvent) -> (r: ExecControl)
        requires
            old(self).wf(),
        ensures
            final(self).wf(),
            r == exec_control(*event),
            forall|out: Seq<u8>, err: Seq<u8>| #[trigger]
                old(self).holds(out, err) ==> final(self).holds(
                    out + exec_out(*event),
                    err + exec_err(*event),
                ),
            *event matches ChannelEvent::Data(b) ==> forall|out: Seq<u8>, err: Seq<u8>| #[trigger]
                old(self).holds(out, err) ==> final(self).holds(out + b@, err),
            *event matches ChannelEvent::ExtendedData(ext, b) ==> ext == 1 ==> forall|
                out: Seq<u8>,
                err: Seq<u8>,
            | #[trigger]
                old(self).holds(out, err) ==> final(self).holds(out, err + b@),
            forall|events: Seq<ChannelEvent>|
                #[trigger] old(self).holds(out_after(events), err_after(events))
                    ==> final(self).holds(
                    out_after(events.push(*event)),
                    err_after(events.push(*event)),
                ),
            final(self).exit_code() == exec_exit(old(self).exit_code(), *event),
            *event matches ChannelEvent::ExitStatus(status) ==> final(self).exit_code()
                == status as i32,
            !(*event is ExitStatus) ==> final(self).exit_code() == old(self).exit_code(),
            final(self).command() == old(self).command(),
            final(self).timeout_secs() == old(self).timeout_secs(),
    {
        proof {
            assert forall|s: Seq<u8>| #[trigger] (s + Seq::<u8>::empty()) == s by {
                assert(s + Seq::<u8>::empty() =~= s);
            }
            assert forall|events: Seq<ChannelEvent>| #[trigger]
                events.push(*event).drop_last() == events by {
                assert(events.push(*event).drop_last() =~= events);
            }
        }
        match event {
            ChannelEvent::Data(bytes) => {
                self.out.push(bytes.as_slice());
                ExecControl::Continue
            },
            ChannelEvent::ExtendedData(ext, bytes) => {
                if *ext == 1 {
                    self.err.push(bytes.as_slice());
                }
                ExecControl::Continue
            },
            ChannelEvent::ExitStatus(status) => {
                self.exit_code = #[verifier::truncate] (*status as i32);
                ExecControl::Continue
            },
            ChannelEvent::Close => ExecControl::Finish,
            ChannelEvent::Ended => ExecControl::CloseAndFinish,
            ChannelEvent::Other => ExecControl::Continue,
        }
    }

    /// The outcome of the command that ended now.
    pub fn finish(self) -> (r: ExecOutput)
        requires
            self.wf(),
        ensures
            exists|nanos: u128| #[trigger] self.gives(nanos, r@),
    {
        let mut run = self;
        let nanos = run.clock.read();
        assert forall|out: Seq<u8>, err: Seq<u8>| #[trigger] self.holds(out, err) implies run.holds(
            out,
            err,
        ) by {}
        let output = run.finish_after(nanos);
        assert(self.gives(nanos, output@));
        output
    }

    /// The outcome of the command that took so many nanoseconds.
    pub fn finish_after(self, nanos: u128) -> (r: ExecOutput)
        requires
            self.wf(),
        ensures
            self.gives(nanos, r@),
    {
        let (out, out_cut) = self.out.into_parts();
        let (err, err_cut) = self.err.into_parts();
        let duration_ms: i64 = #[verifier::truncate] ((nanos / 1_000_000) as i64);
        ExecOutput {
            stdout: from_utf8_lossy(out.as_slice()),
            stderr: from_utf8_lossy(err.as_slice()),
            exit_code: self.exit_code,
            duration_ms,
            truncated: out_cut || err_cut,
        }
    }
}

/// An entry of a remote directory.
#[derive(Debug)]
pub struct DirEntry {
    pub name: String,
    pub is_dir: bool,
    pub size: u64,
    pub mode: u32,
}

impl Clone for DirEntry {
    fn clone(&self) -> (r: Self)
        ensures
            r == *self,
    {
        DirEntry {
            name: self.name.clone(),
            is_dir: self.is_dir,
            size: self.size,
            mode: self.mode,
        }
    }
}

/// An entry as the server lists it: it may leave the size and the mode out.
pub struct ListedFile {
    pub name: String,
    pub is_dir: bool,
    pub size: Option<u64>,
    pub permissions: Option<u32>,
}

/// Whether an entry is what the server listed, with zero for what it left out.
pub open spec fn is_entry_of(entry: DirEntry, listed: ListedFile) -> bool {
    &&& entry.name == listed.name
    &&& entry.is_dir == listed.is_dir
    &&& entry.size == (match listed.size {
        Some(n) => n,
        None => 0,
    })
    &&& entry.mode == (match listed.permissions {
        Some(m) => m,
        None => 0,
    })
}

/// The entries of a directory, in the order in which the server listed them.
pub fn dir_entries(listed: Vec<ListedFile>) -> (r: Vec<DirEntry>)
    ensures
        r@.len() == listed@.len(),
        forall|i: int|
            0 <= i < listed@.len() ==> is_entry_of(#[trigger] r@[i], listed@[i]),
{
    let mut out: Vec<DirEntry> = Vec::new();
    let mut i: usize = 0;
    while i < listed.len()
        invariant
            i <= listed@.len(),
            out@.len() == i,
            forall|j: int| 0 <= j < i ==> is_entry_of(#[trigger] out@[j], listed@[j]),
        decreases listed.len() - i,
    {
        let f = &listed[i];
        out.push(
            DirEntry {
                name: f.name.clone(),
                is_dir: f.is_dir,
                size: f.size.unwrap_or(0),
                mode: f.permissions.unwrap_or(0),
            },
        );
        i = i + 1;
    }
    out
}

/// A remote file as it is read, up to a cap.
pub struct Download {
    buf: CappedBuffer,
}

impl Download {
    pub closed spec fn wf(&self) -> bool {
        self.buf.wf()
    }

    pub closed spec fn cap(&self) -> int {
        self.buf.cap()
    }

    /// The file has given `stream` so far.
    pub closed spec fn holds(&self, stream: Seq<u8>) -> bool {
        self.buf.holds(stream)
    }

    /// Takes in what a read gave. Says whether to go on reading: not at the end
    /// of the file, which an empty read marks, and not past the cap.
    pub fn chunk(&mut self, bytes: &[u8]) -> (r: bool)
        requires
            old(self).wf(),
        ensures
            final(self).wf(),
            final(self).cap() == old(self).cap(),
            forall|stream: Seq<u8>| #[trigger]
                old(self).holds(stream) ==> {
                    &&& final(self).holds(stream + bytes@)
                    &&& r == (bytes@.len() > 0 && stream.len() + bytes@.len() <= old(self).cap())
                },
            old(self).takes_in(bytes@, *final(self)),
    {
        let cut = self.buf.push(bytes);
        bytes.len() > 0 && !cut
    }

    /// Whether a read of the bytes leads from one state of a download to the next.
    pub open spec fn takes_in(&self, bytes: Seq<u8>, after: Download) -> bool {
        &&& after.cap() == self.cap()
        &&& forall|stream: Seq<u8>| #[trigger]
            self.holds(stream) ==> after.holds(stream + bytes)
    }

    /// Whether a download gives the bytes, and says whether the file goes on.
    pub open spec fn gives(&self, bytes: Seq<u8>, goes_on: bool) -> bool {
        forall|stream: Seq<u8>| #[trigger]
            self.holds(stream) ==> bytes == capped(stream, self.cap()) && goes_on == (stream.len()
                > self.cap())
    }

    /// What was read, and whether the file goes on.
    pub fn finish(self) -> (r: (Vec<u8>, bool))
        requires
            self.wf(),
        ensures
            forall|stream: Seq<u8>| #[trigger]
                self.holds(stream) ==> r.0@ == capped(stream, self.cap()) && r.1 == (stream.len()
                    > self.cap()),
            self.gives(r.0@, r.1),
    {
        self.buf.into_parts()
    }
}

impl SshSession {
    /// Sets out to run a one-shot command.
    pub fn exec(command: &str, timeout_secs: u64) -> (r: ExecRun)
        ensures
            r.wf(),
            r.command() == command@,
            r.timeout_secs() == timeout_secs,
            r.holds(Seq::empty(), Seq::empty()),
            r.exit_code() == -1,
            is_run_of(r, command@, timeout_secs),
    {
        ExecRun {
            command: owned(command),
            timeout_secs,
            clock: MonoClock::new(),
            out: CappedBuffer::new(MAX_OUTPUT_BYTES),
            err: CappedBuffer::new(MAX_OUTPUT_BYTES),
            exit_code: -1,
        }
    }

    /// The entries of a directory, given what the server listed.
    pub fn sftp_list(listed: Result<Vec<ListedFile>, ChannelFailure>) -> (r: Result<
        Vec<DirEntry>,
        Error,
    >)
        ensures
            match (listed, r) {
                (Ok(l), Ok(entries)) => {
                    &&& entries@.len() == l@.len()
                    &&& forall|i: int|
                        0 <= i < l@.len() ==> is_entry_of(#[trigger] entries@[i], l@[i])
                },
                (Err(f), Err(e)) => e@ == channel_error_of(f),
                _ => false,
            },
    {
        match listed {
            Ok(l) => Ok(dir_entries(l)),
            Err(f) => Err(channel_error(f)),
        }
    }

    /// Sets out to read up to `cap` bytes of a file. The caller is responsible for
    /// clamping `cap` to its configured limit.
    pub fn sftp_download(cap: usize) -> (r: Download)
        ensures
            r.wf(),
            r.cap() == cap,
            r.holds(Seq::empty()),
    {
        Download { buf: CappedBuffer::new(cap) }
    }

    /// How many bytes were written of the content, given how writing it went.
    pub fn sftp_upload(content: &[u8], written: Result<(), ChannelFailure>) -> (r: Result<
        usize,
        Error,
    >)
        ensures
            match (written, r) {
                (Ok(()), Ok(n)) => n == content@.len(),
                (Err(f), Err(e)) => e@ == channel_error_of(f),
                _ => false,
            },
    {
        match written {
            Ok(()) => Ok(content.len()),
            Err(f) => Err(channel_error(f)),
        }
    }

    /// A long-running command on its own channel, capturing output into ring
    /// buffers that the caller polls, given how starting it went.
    pub fn start_job(
        job_id: String,
        ctx: &AuditCtx,
        command: String,
        started: Result<(), ChannelFailure>,
    ) -> (r: Result<BgJob, Error>)
        ensures
            match (started, r) {
                (Ok(()), Ok(job)) => is_new_job(job, job_id@, ctx@, command@),
                (Err(f), Err(e)) => e@ == channel_error_of(f),
                _ => false,
            },
    {
        match started {
            Ok(()) => Ok(Self::job_started_at(job_id, ctx, command, utc_now())),
            Err(f) => Err(channel_error(f)),
        }
    }

    /// The job of a command that was started at the given time.
    pub fn job_started_at(
        job_id: String,
        ctx: &AuditCtx,
        command: String,
        now: Timestamp,
    ) -> (r: BgJob)
        requires
            clock_time(now),
        ensures
            is_new_job(r, job_id@, ctx@, command@),
            r.started_at == now,
    {
        BgJob::started(
            job_id,
            ctx.user_id,
            ctx.session_id.clone(),
            ctx.server_alias.clone(),
            command,
            now,
        )
    }
}

/// A job that was just started on a session by a caller.
pub open spec fn is_new_job(
    job: BgJob,
    job_id: Seq<char>,
    ctx: AuditCtxView,
    command: Seq<char>,
) -> bool {
    &&& job.wf()
    &&& job.id@ == job_id
    &&& job.user_id == ctx.user_id
    &&& job.session_id@ == ctx.session_id
    &&& job.server_alias@ == ctx.server_alias
    &&& job.command@ == command
    &&& clock_time(job.started_at)
    &&& job.holds(Seq::empty(), Seq::empty())
    &&& job.inner.out.length() == 0
    &&& job.inner.err.length() == 0
    &&& job.inner.running
    &&& job.inner.exit_code is None
}

/// The host and the port that an action connects to.
pub open spec fn dialed(action: DialAction) -> (Seq<char>, u16) {
    match action {
        DialAction::Connect { host, port } => (host@, port),
        DialAction::Tunnel { host, port, .. } => (host@, port),
    }
}

/// A hop is dialed at its own host and port, whether directly or through a tunnel:
/// the first hop directly, and every other one from the hop before it.
pub proof fn law_hop_is_dialed_at_its_address(
    action: DialAction,
    chain: Seq<ResolvedServerView>,
    at: int,
)
    requires
        0 <= at < chain.len(),
        reaches(action, chain, at),
    ensures
        dialed(action).0 == chain[at].host,
        dialed(action).1 == chain[at].port,
        action is Connect <==> at == 0,
        action matches DialAction::Connect { host, port } ==> host@ == chain[at].host && port
            == chain[at].port,
        action matches DialAction::Tunnel { via, host, port } ==> via + 1 == at && host@
            == chain[at].host && port == chain[at].port,
{
}

/// Two chains whose hops differ in host or port are dialed differently at that hop.
pub proof fn law_addresses_are_told_apart(
    action: DialAction,
    other_action: DialAction,
    chain: Seq<ResolvedServerView>,
    other: Seq<ResolvedServerView>,
    at: int,
)
    requires
        0 <= at < chain.len(),
        at < other.len(),
        reaches(action, chain, at),
        reaches(other_action, other, at),
    ensures
        chain[at].host != other[at].host ==> dialed(action).0 != dialed(other_action).0,
        chain[at].port != other[at].port ==> dialed(action).1 != dialed(other_action).1,
{
}

/// A session belongs to the user and the token it was opened for, leads to the last
/// hop of the chain, and names every hop in its order. It has been used when it was
/// opened.
pub proof fn law_session_tells_its_chain(
    session: SshSession,
    user_id: i64,
    token_id: i64,
    chain: Seq<ResolvedServerView>,
)
    requires
        chain.len() > 0,
        opened_over(session, user_id, token_id, chain),
    ensures
        session.user_id == user_id,
        session.token_id == token_id,
        session.server_alias@ == chain[chain.len() - 1].alias,
        session.hop_path@.len() == chain.len(),
        forall|i: int|
            0 <= i < chain.len() ==> (#[trigger] session.hop_path@[i])@ == chain[i].alias,
        session.last_used_epoch == session.created_at.secs,
        0 <= session.created_at.secs,
        session.id@.take(3) == "cs_"@,
        session.id@.len() == 35,
{
    reveal_strlit("cs_");
    assert(texts(session.hop_path@).len() == hop_aliases(chain).len());
    assert forall|i: int| 0 <= i < chain.len() implies (#[trigger] session.hop_path@[i])@
        == chain[i].alias by {
        assert(texts(session.hop_path@)[i] == hop_aliases(chain)[i]);
    }
}

/// A chain taken by value has the hops that were given, each with all its fields, in
/// their order.
pub proof fn law_hops_are_taken_as_given(chain: Seq<ResolvedServer>, i: int)
    requires
        0 <= i < chain.len(),
    ensures
        hop_views(chain).len() == chain.len(),
        hop_views(chain)[i].alias == chain[i].alias@,
        hop_views(chain)[i].host == chain[i].host@,
        hop_views(chain)[i].port == chain[i].port,
        hop_views(chain)[i].username == chain[i].username@,
        hop_views(chain)[i].auth_kind == chain[i].auth_kind,
        hop_views(chain)[i].secret == chain[i].secret@,
{
}

/// A hop that was reached is no failure; every other reply is one, and its error names
/// the host of the hop and ends with the cause.
pub proof fn law_unreached_hops_are_named(hop: ResolvedServerView, reply: DialReply)
    ensures
        dial_failure(hop, reply) is None <==> reply is Connected,
        reply matches DialReply::ConnectFailed(e) ==> dial_failure(hop, reply) == Some(
            ErrorView::Other("ssh connect "@ + hop.host + ": "@ + e@),
        ),
        reply matches DialReply::TunnelFailed(e) ==> dial_failure(hop, reply) == Some(
            ErrorView::Other(
                "direct-tcpip to "@ + hop.host + ":"@ + decimal_digits(hop.port as nat) + ": "@
                    + e@,
            ),
        ),
        reply matches DialReply::HandshakeFailed(e) ==> dial_failure(hop, reply) == Some(
            ErrorView::Other("tunneled handshake to "@ + hop.host + ": "@ + e@),
        ),
{
}

/// A failure on the channels of a session tells the step that failed and its cause. A
/// closed session is the caller's mistake, everything else is not.
pub proof fn law_channel_failures_tell_the_cause(failure: ChannelFailure)
    ensures
        channel_error_of(failure) is Invalid <==> failure is SessionClosed,
        channel_error_of(failure) is Other <==> !(failure is SessionClosed),
        failure is SessionClosed ==> channel_error_of(failure)->Invalid_0 == "session closed"@,
        failure matches ChannelFailure::OpenChannel(e) ==> channel_error_of(failure)->Other_0
            == "open channel: "@ + e@,
        failure matches ChannelFailure::Exec(e) ==> channel_error_of(failure)->Other_0 == "exec: "@
            + e@,
        failure matches ChannelFailure::Subsystem(e) ==> channel_error_of(failure)->Other_0
            == "subsystem: "@ + e@,
        failure matches ChannelFailure::SftpInit(e) ==> channel_error_of(failure)->Other_0
            == "sftp init: "@ + e@,
        failure matches ChannelFailure::ReadDir(e) ==> channel_error_of(failure)->Other_0
            == "readdir: "@ + e@,
        failure matches ChannelFailure::Open(e) ==> channel_error_of(failure)->Other_0 == "open: "@
            + e@,
        failure matches ChannelFailure::Read(e) ==> channel_error_of(failure)->Other_0 == "read: "@
            + e@,
        failure matches ChannelFailure::Write(e) ==> channel_error_of(failure)->Other_0
            == "write: "@ + e@,
{
}

/// The output stream of a one-shot command after a run of events on its channel.
pub open spec fn out_after(events: Seq<ChannelEvent>) -> Seq<u8>
    decreases events.len(),
{
    if events.len() == 0 {
        Seq::empty()
    } else {
        out_after(events.drop_last()) + exec_out(events.last())
    }
}

/// The error stream of a one-shot command after a run of events on its channel.
pub open spec fn err_after(events: Seq<ChannelEvent>) -> Seq<u8>
    decreases events.len(),
{
    if events.len() == 0 {
        Seq::empty()
    } else {
        err_after(events.drop_last()) + exec_err(events.last())
    }
}

/// The exit code of a one-shot command after a run of events on its channel.
pub open spec fn exit_code_after(events: Seq<ChannelEvent>) -> i32
    decreases events.len(),
{
    if events.len() == 0 {
        -1i32
    } else {
        exec_exit(exit_code_after(events.drop_last()), events.last())
    }
}

/// One chunk after the other.
pub open spec fn joined(chunks: Seq<Seq<u8>>) -> Seq<u8>
    decreases chunks.len(),
{
    if chunks.len() == 0 {
        Seq::empty()
    } else {
        joined(chunks.drop_last()) + chunks.last()
    }
}

/// How many bytes the chunks have in all.
pub open spec fn total_len(chunks: Seq<Seq<u8>>) -> nat
    decreases chunks.len(),
{
    if chunks.len() == 0 {
        0
    } else {
        total_len(chunks.drop_last()) + chunks.last().len()
    }
}

proof fn lemma_joined_len(chunks: Seq<Seq<u8>>)
    ensures
        joined(chunks).len() == total_len(chunks),
    decreases chunks.len(),
{
    if chunks.len() > 0 {
        lemma_joined_len(chunks.drop_last());
    }
}

/// A chunk of output adds all its bytes to the output stream and nothing to the error
/// stream; a chunk of the error stream adds all its bytes there and nothing to the
/// output; nothing else adds anything to either.
pub proof fn law_chunks_are_taken_whole(event: ChannelEvent)
    ensures
        event matches ChannelEvent::Data(b) ==> exec_out(event) == b@ && exec_err(event).len()
            == 0,
        event matches ChannelEvent::ExtendedData(ext, b) ==> exec_out(event).len() == 0 && (ext
            == 1 ==> exec_err(event) == b@) && (ext != 1 ==> exec_err(event).len() == 0),
        !(event is Data) ==> exec_out(event).len() == 0,
        !(event is ExtendedData) ==> exec_err(event).len() == 0,
{
}

/// Where a command brings chunks of output, with any other events in between, its
/// output stream is the chunks one after the other, every byte of each: chunk `i` is
/// brought by event `at[i]`, and all other events are no output.
pub proof fn law_output_is_every_chunk(
    events: Seq<ChannelEvent>,
    at: Seq<int>,
    chunks: Seq<Seq<u8>>,
)
    requires
        at.len() == chunks.len(),
        forall|i: int, j: int| 0 <= i < j < at.len() ==> at[i] < at[j],
        forall|i: int|
            0 <= i < at.len() ==> 0 <= #[trigger] at[i] < events.len() && events[at[i]] is Data
                && events[at[i]]->Data_0@ == chunks[i],
        forall|k: int|
            0 <= k < events.len() && !at.contains(k) ==> !(#[trigger] events[k] is Data),
    ensures
        out_after(events) == joined(chunks),
        out_after(events).len() == total_len(chunks),
    decreases events.len(),
{
    lemma_joined_len(chunks);
    if events.len() > 0 {
        let init = events.drop_last();
        let n = events.len() - 1;
        if at.contains(n) {
            let p = choose|p: int| 0 <= p < at.len() && at[p] == n;
            assert(p == at.len() - 1) by {
                if p < at.len() - 1 {
                    assert(at[p] < at[at.len() - 1]);
                }
            }
            let at0 = at.drop_last();
            let chunks0 = chunks.drop_last();
            assert forall|i: int| 0 <= i < at0.len() implies 0 <= #[trigger] at0[i] < init.len()
                && init[at0[i]] is Data && init[at0[i]]->Data_0@ == chunks0[i] by {
                assert(at0[i] == at[i]);
                assert(at[i] < at[at.len() - 1]);
            }
            assert forall|k: int| 0 <= k < init.len() && !at0.contains(k) implies !(
            #[trigger] init[k] is Data) by {
                assert(init[k] == events[k]);
                if at.contains(k) {
                    let q = choose|q: int| 0 <= q < at.len() && at[q] == k;
                    assert(at0[q] == k);
                }
            }
            law_output_is_every_chunk(init, at0, chunks0);
            assert(events[at[p]] == events.last());
            law_chunks_are_taken_whole(events.last());
            assert(joined(chunks) == joined(chunks0) + chunks.last());
        } else {
            assert forall|i: int| 0 <= i < at.len() implies 0 <= #[trigger] at[i] < init.len()
                && init[at[i]] is Data && init[at[i]]->Data_0@ == chunks[i] by {
                assert(at.contains(at[i]));
            }
            assert forall|k: int| 0 <= k < init.len() && !at.contains(k) implies !(
            #[trigger] init[k] is Data) by {
                assert(init[k] == events[k]);
            }
            law_output_is_every_chunk(init, at, chunks);
            assert(events[n] == events.last());
            law_chunks_are_taken_whole(events.last());
            assert(out_after(events) =~= out_after(init));
        }
    } else {
        assert(chunks.len() == 0) by {
            if at.len() > 0 {
                assert(0 <= at[0] < events.len());
            }
        }
    }
}

/// Where a command brings chunks of error output, with any other events in between, its
/// error stream is the chunks one after the other, every byte of each: chunk `i` is
/// brought by event `at[i]`, and all other events are no error output.
pub proof fn law_error_output_is_every_chunk(
    events: Seq<ChannelEvent>,
    at: Seq<int>,
    chunks: Seq<Seq<u8>>,
)
    requires
        at.len() == chunks.len(),
        forall|i: int, j: int| 0 <= i < j < at.len() ==> at[i] < at[j],
        forall|i: int|
            0 <= i < at.len() ==> 0 <= #[trigger] at[i] < events.len() && (events[at[i]] matches
                ChannelEvent::ExtendedData(ext, b) && ext == 1 && b@ == chunks[i]),
        forall|k: int|
            0 <= k < events.len() && !at.contains(k) ==> !(#[trigger] events[k] matches
                ChannelEvent::ExtendedData(ext, b) && ext == 1),
    ensures
        err_after(events) == joined(chunks),
        err_after(events).len() == total_len(chunks),
    decreases events.len(),
{
    lemma_joined_len(chunks);
    if events.len() > 0 {
        let init = events.drop_last();
        let n = events.len() - 1;
        if at.contains(n) {
            let p = choose|p: int| 0 <= p < at.len() && at[p] == n;
            assert(p == at.len() - 1) by {
                if p < at.len() - 1 {
                    assert(at[p] < at[at.len() - 1]);
                }
            }
            let at0 = at.drop_last();
            let chunks0 = chunks.drop_last();
            assert forall|i: int| 0 <= i < at0.len() implies 0 <= #[trigger] at0[i] < init.len()
                && (init[at0[i]] matches ChannelEvent::ExtendedData(ext, b) && ext == 1 && b@
                == chunks0[i]) by {
                assert(at0[i] == at[i]);
                assert(at[i] < at[at.len() - 1]);
            }
            assert forall|k: int| 0 <= k < init.len() && !at0.contains(k) implies !(
            #[trigger] init[k] matches ChannelEvent::ExtendedData(ext, b) && ext == 1) by {
                assert(init[k] == events[k]);
                if at.contains(k) {
                    let q = choose|q: int| 0 <= q < at.len() && at[q] == k;
                    assert(at0[q] == k);
                }
            }
            law_error_output_is_every_chunk(init, at0, chunks0);
            assert(events[at[p]] == events.last());
            law_chunks_are_taken_whole(events.last());
            assert(joined(chunks) == joined(chunks0) + chunks.last());
        } else {
            assert forall|i: int| 0 <= i < at.len() implies 0 <= #[trigger] at[i] < init.len() && (
            init[at[i]] matches ChannelEvent::ExtendedData(ext, b) && ext == 1 && b@
                == chunks[i]) by {
                assert(at.contains(at[i]));
            }
            assert forall|k: int| 0 <= k < init.len() && !at.contains(k) implies !(
            #[trigger] init[k] matches ChannelEvent::ExtendedData(ext, b) && ext == 1) by {
                assert(init[k] == events[k]);
            }
            law_error_output_is_every_chunk(init, at, chunks);
            assert(events[n] == events.last());
            law_chunks_are_taken_whole(events.last());
            assert(err_after(events) =~= err_after(init));
        }
    } else {
        assert(chunks.len() == 0) by {
            if at.len() > 0 {
                assert(0 <= at[0] < events.len());
            }
        }
    }
}

/// A one-shot command ends with the exit status that was reported last, whatever came
/// after it, and with -1 where none was reported.
pub proof fn law_exit_code_is_the_last_status(events: Seq<ChannelEvent>, i: int)
    requires
        -1 <= i < events.len(),
        i >= 0 ==> events[i] is ExitStatus,
        forall|j: int| i < j < events.len() ==> !(#[trigger] events[j] is ExitStatus),
    ensures
        i >= 0 ==> exit_code_after(events) == events[i]->ExitStatus_0 as i32,
        i < 0 ==> exit_code_after(events) == -1,
    decreases events.len(),
{
    if events.len() > 0 && i < events.len() - 1 {
        let init = events.drop_last();
        assert forall|j: int| i < j < init.len() implies !(#[trigger] init[j] is ExitStatus) by {
            assert(init[j] == events[j]);
        }
        assert(!(events[events.len() - 1] is ExitStatus));
        law_exit_code_is_the_last_status(init, i);
        if i >= 0 {
            assert(init[i] == events[i]);
        }
    } else if events.len() > 0 {
        assert(events.last() == events[i]);
    }
}

/// A command goes on until its channel is closed or brings nothing more; only then is it
/// over, and a channel that was not closed is still to be closed.
pub proof fn law_command_ends_with_its_channel(event: ChannelEvent)
    ensures
        exec_control(event) == ExecControl::Continue <==> !(event is Close) && !(event is Ended),
        exec_control(event) == ExecControl::Finish <==> event is Close,
        exec_control(event) == ExecControl::CloseAndFinish <==> event is Ended,
{
}

/// The outcome of a command that stayed within the cap on both streams is both streams
/// whole, and nothing is cut.
pub proof fn law_small_output_is_whole(
    out: Seq<u8>,
    err: Seq<u8>,
    exit_code: i32,
    nanos: u128,
)
    requires
        out.len() <= MAX_OUTPUT_BYTES,
        err.len() <= MAX_OUTPUT_BYTES,
    ensures
        exec_output_of(out, err, exit_code, nanos).stdout == utf8_lossy(out),
        exec_output_of(out, err, exit_code, nanos).stderr == utf8_lossy(err),
        exec_output_of(out, err, exit_code, nanos).truncated == false,
{
}

/// The outcome of a command tells its exit code and how many whole milliseconds it took,
/// the first megabyte of each stream, and that something was cut exactly where a stream
/// was longer.
pub proof fn law_outcome_tells_the_run(
    out: Seq<u8>,
    err: Seq<u8>,
    exit_code: i32,
    nanos: u128,
)
    ensures
        exec_output_of(out, err, exit_code, nanos).exit_code == exit_code,
        nanos / 1_000_000 <= i64::MAX ==> exec_output_of(out, err, exit_code, nanos).duration_ms
            == nanos / 1_000_000,
        exec_output_of(out, err, exit_code, nanos).truncated <==> out.len() > 1_048_576
            || err.len() > 1_048_576,
        out.len() > 1_048_576 ==> exec_output_of(out, err, exit_code, nanos).stdout == utf8_lossy(
            out.take(1_048_576),
        ),
        err.len() > 1_048_576 ==> exec_output_of(out, err, exit_code, nanos).stderr == utf8_lossy(
            err.take(1_048_576),
        ),
        out.len() <= 1_048_576 ==> exec_output_of(out, err, exit_code, nanos).stdout
            == utf8_lossy(out),
        err.len() <= 1_048_576 ==> exec_output_of(out, err, exit_code, nanos).stderr
            == utf8_lossy(err),
{
}

/// What a command wrote to one stream makes no difference to what is told of the other,
/// and the two streams are treated alike.
pub proof fn law_streams_are_kept_apart(
    out: Seq<u8>,
    err: Seq<u8>,
    other: Seq<u8>,
    exit_code: i32,
    nanos: u128,
)
    ensures
        exec_output_of(out, err, exit_code, nanos).stdout == exec_output_of(
            out,
            other,
            exit_code,
            nanos,
        ).stdout,
        exec_output_of(out, err, exit_code, nanos).stderr == exec_output_of(
            other,
            err,
            exit_code,
            nanos,
        ).stderr,
        exec_output_of(out, err, exit_code, nanos).stdout == exec_output_of(
            err,
            out,
            exit_code,
            nanos,
        ).stderr,
{
}

/// What a caller of `exec` is told of a whole run: where the command brought chunks of
/// output that are within the cap in all, the output is their bytes one after the other.
pub proof fn law_run_reports_its_output(
    run: ExecRun,
    events: Seq<ChannelEvent>,
    at: Seq<int>,
    chunks: Seq<Seq<u8>>,
    nanos: u128,
    outcome: ExecOutputView,
)
    requires
        run.holds(out_after(events), err_after(events)),
        run.gives(nanos, outcome),
        at.len() == chunks.len(),
        forall|i: int, j: int| 0 <= i < j < at.len() ==> at[i] < at[j],
        forall|i: int|
            0 <= i < at.len() ==> 0 <= #[trigger] at[i] < events.len() && events[at[i]] is Data
                && events[at[i]]->Data_0@ == chunks[i],
        forall|k: int|
            0 <= k < events.len() && !at.contains(k) ==> !(#[trigger] events[k] is Data),
        total_len(chunks) <= 1_048_576,
    ensures
        outcome.stdout == utf8_lossy(joined(chunks)),
        outcome.exit_code == run.exit_code(),
{
    law_output_is_every_chunk(events, at, chunks);
}

/// An entry of a directory has the name, the kind, the size and the mode that the server
/// listed.
pub proof fn law_entries_are_as_listed(entry: DirEntry, listed: ListedFile)
    requires
        is_entry_of(entry, listed),
    ensures
        entry.name@ == listed.name@,
        entry.is_dir <==> listed.is_dir,
        listed.size matches Some(n) ==> entry.size == n,
        listed.size is None ==> entry.size == 0,
        listed.permissions matches Some(m) ==> entry.mode == m,
        listed.permissions is None ==> entry.mode == 0,
{
}

/// A new job runs the command it was asked for, belongs to the caller and the session it
/// was started on, and has no output and no exit code yet.
pub proof fn law_new_job_is_as_asked(
    job: BgJob,
    job_id: Seq<char>,
    ctx: AuditCtxView,
    command: Seq<char>,
)
    requires
        is_new_job(job, job_id, ctx, command),
    ensures
        job.id@ == job_id,
        job.command@ == command,
        job.user_id == ctx.user_id,
        job.session_id@ == ctx.session_id,
        job.server_alias@ == ctx.server_alias,
        job.inner.running,
        job.inner.exit_code is None,
        job.inner.out@.data.len() == 0,
        job.inner.err@.data.len() == 0,
        job.inner.out@.start_offset == 0,
        job.inner.err@.start_offset == 0,
{
}

/// The outcome of a command, taken as a value, has in each place what it holds there.
pub proof fn law_outcome_is_of_its_fields(o: ExecOutput)
    ensures
        o@.stdout == o.stdout@,
        o@.stderr == o.stderr@,
        o@.exit_code == o.exit_code,
        o@.duration_ms == o.duration_ms,
        o@.truncated == o.truncated,
{
}

/// Whether a step goes on after hop `at` of a chain: to the next hop, or to the open
/// session after the last one.
pub open spec fn goes_on(
    step: ChainStep,
    chain: Seq<ResolvedServerView>,
    at: int,
    user: (i64, i64),
) -> bool {
    match step {
        ChainStep::Dial(d) => d.chain() == chain && d.at() == at + 1 && d.user() == user && d.at()
            < chain.len(),
        ChainStep::Established(s) => at == chain.len() - 1 && opened_over(
            s,
            user.0,
            user.1,
            chain,
        ),
    }
}

/// No hop of a chain is passed over, and none is dialed twice: after each comes the next,
/// dialed at its own address through the one before it, and the session is open only
/// behind the last, for the user and the token that set out.
pub proof fn law_every_hop_is_passed(
    step: ChainStep,
    chain: Seq<ResolvedServerView>,
    at: int,
    user: (i64, i64),
    action: DialAction,
)
    requires
        0 <= at < chain.len(),
        goes_on(step, chain, at, user),
        step matches ChainStep::Dial(d) ==> reaches(action, d.chain(), d.at()),
    ensures
        step is Established <==> at == chain.len() - 1,
        step matches ChainStep::Dial(d) ==> {
            &&& d.user() == user
            &&& action matches DialAction::Tunnel { via, host, port }
            &&& via == at
            &&& host@ == chain[at + 1].host
            &&& port == chain[at + 1].port
        },
        step matches ChainStep::Established(s) ==> s.user_id == user.0 && s.token_id == user.1
            && s.server_alias@ == chain[chain.len() - 1].alias,
{
}

/// A download gives every byte of every read, one after the other, up to its cap, and says
/// that the file goes on exactly where more was read than that.
pub proof fn law_download_is_the_files_beginning(
    start: Download,
    middle: Download,
    end: Download,
    before: Seq<u8>,
    first: Seq<u8>,
    second: Seq<u8>,
    bytes: Seq<u8>,
    goes_on: bool,
)
    requires
        start.holds(before),
        start.takes_in(first, middle),
        middle.takes_in(second, end),
        end.gives(bytes, goes_on),
        0 <= start.cap(),
    ensures
        ({
            let file = before + first + second;
            &&& file.len() <= start.cap() ==> bytes == file && !goes_on
            &&& file.len() > start.cap() ==> bytes == file.take(start.cap()) && goes_on
        }),
{
    assert(middle.holds(before + first));
    assert(end.holds(before + first + second));
}

/// Whether a request offers hop `at` of a chain what that hop calls for.
pub open spec fn offers(
    request: AuthRequestView,
    chain: Seq<ResolvedServerView>,
    at: int,
) -> bool {
    auth_request_of(chain[at]) == Ok::<AuthRequestView, ErrorView>(request)
}

/// A hop is offered its own credentials, and no other hop's: its own user name, and its
/// own secret where it takes a password.
pub proof fn law_hop_is_offered_its_own_credentials(
    request: AuthRequestView,
    chain: Seq<ResolvedServerView>,
    at: int,
)
    requires
        0 <= at < chain.len(),
        offers(request, chain, at),
    ensures
        login_name(request) == chain[at].username,
        chain[at].auth_kind == crate::models::AuthKind::Password <==> request is Password,
        chain[at].auth_kind == crate::models::AuthKind::Key <==> request is PublicKey,
        chain[at].auth_kind == crate::models::AuthKind::Cert <==> request is Certificate,
        request matches AuthRequestView::Password { username, password } ==> username
            == chain[at].username && vstd::utf8::encode_utf8(password) == chain[at].secret,
        request matches AuthRequestView::PublicKey { username, key } ==> username
            == chain[at].username && crate::sshkey::private_key_of(chain[at]) == Ok::<
            Seq<char>,
            ErrorView,
        >(key),
        request matches AuthRequestView::Certificate { username, key, certificate } ==> username
            == chain[at].username && crate::sshkey::private_key_of(chain[at]) == Ok::<
            Seq<char>,
            ErrorView,
        >(key) && crate::sshkey::certificate_of(chain[at]) == Ok::<Seq<char>, ErrorView>(
            certificate,
        ),
{
    law_login_is_the_hops(chain[at]);
    if chain[at].auth_kind == crate::models::AuthKind::Password {
        law_password_is_the_secret(chain[at]);
    }
}

/// Whether a walk over the hops sets out as it should.
pub open spec fn sets_out(
    dialing: Dialing,
    user_id: i64,
    token_id: i64,
    chain: Seq<ResolvedServer>,
) -> bool {
    &&& dialing.at() == 0
    &&& dialing.user() == (user_id, token_id)
    &&& dialing.chain() == hop_views(chain)
}

/// A walk over the hops sets out at the first of them, for the user and the token that
/// asked, over the very hops that were given.
pub proof fn law_walk_sets_out_at_the_first_hop(
    dialing: Dialing,
    user_id: i64,
    token_id: i64,
    chain: Seq<ResolvedServer>,
    action: DialAction,
    i: int,
)
    requires
        sets_out(dialing, user_id, token_id, chain),
        0 <= i < chain.len(),
        reaches(action, dialing.chain(), dialing.at()),
    ensures
        dialing.user().0 == user_id,
        dialing.user().1 == token_id,
        dialing.chain().len() == chain.len(),
        dialing.chain()[i].host == chain[i].host@,
        dialing.chain()[i].port == chain[i].port,
        dialing.chain()[i].username == chain[i].username@,
        dialing.chain()[i].secret == chain[i].secret@,
        dialing.chain()[i].alias == chain[i].alias@,
        action matches DialAction::Connect { host, port } && host@ == chain[0].host@ && port
            == chain[0].port,
{
}

/// Whether a run is of the command, within the time, with nothing heard of it yet.
pub open spec fn is_run_of(run: ExecRun, command: Seq<char>, timeout_secs: u64) -> bool {
    &&& run.command() == command
    &&& run.timeout_secs() == timeout_secs
    &&& run.is_fresh()
}

/// A run that sets out is of the very command that was given, within the time that was
/// given; where it ends at once, it has no output, and -1 as its exit code.
pub proof fn law_run_is_of_its_command(
    run: ExecRun,
    command: Seq<char>,
    timeout_secs: u64,
    nanos: u128,
    outcome: ExecOutputView,
)
    requires
        is_run_of(run, command, timeout_secs),
        run.gives(nanos, outcome),
    ensures
        run.command() == command,
        run.timeout_secs() == timeout_secs,
        outcome.stdout == utf8_lossy(Seq::empty()),
        outcome.stderr == utf8_lossy(Seq::empty()),
        outcome.exit_code == -1,
        !outcome.truncated,
{
    assert(run.holds(Seq::empty(), Seq::empty()));
}

} // verus!
