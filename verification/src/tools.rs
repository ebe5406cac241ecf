//! The MCP tools: what each call is answered, what it changes, and what is put
//! on record.

use vstd::prelude::*;

use crate::audit::{log, no_detail, records, AuditCtx, AuditCtxView, AuditDetail};
use crate::error::Error;
use crate::models::{AuditEntry, AuthContext, AuthContextView, ServerSummary, ServerSummaryView};
use crate::params::{CloseChannelParams, CloseOutput, ListServersOutput, ServerEntry};
use crate::session::SshSession;
use crate::state::{jobs_of, lists, AppState};
use crate::text::{opt_text, owned};

verus! {

/// Which side a failed call is put down to.
#[derive(Debug, Clone, Copy, PartialEq, Eq, Structural)]
pub enum ToolErrorKind {
    /// The request cannot be served as it stands.
    InvalidRequest,
    /// Serving the request failed.
    Internal,
}

/// The error that a tool call is answered with.
#[derive(Debug)]
pub struct ToolError {
    pub kind: ToolErrorKind,
    pub message: String,
}

/// A [`ToolError`] as a value.
pub struct ToolErrorView {
    pub kind: ToolErrorKind,
    pub message: Seq<char>,
}

impl View for ToolError {
    type V = ToolErrorView;

    open spec fn view(&self) -> ToolErrorView {
        ToolErrorView { kind: self.kind, message: self.message@ }
    }
}

/// The error for a request that cannot be served.
pub open spec fn invalid(message: Seq<char>) -> ToolErrorView {
    ToolErrorView { kind: ToolErrorKind::InvalidRequest, message }
}

/// The error for a failure while a request was served.
pub open spec fn internal(message: Seq<char>) -> ToolErrorView {
    ToolErrorView { kind: ToolErrorKind::Internal, message }
}

impl ToolError {
    pub fn invalid_request(message: String) -> (r: Self)
        ensures
            r@ == invalid(message@),
    {
        ToolError { kind: ToolErrorKind::InvalidRequest, message }
    }

    pub fn internal_error(message: String) -> (r: Self)
        ensures
            r@ == internal(message@),
    {
        ToolError { kind: ToolErrorKind::Internal, message }
    }
}

/// The tools over the engine's state.
pub struct ConduitHandler {
    pub state: AppState,
}

/// The session that a caller may use under an identifier, or the error.
pub open spec fn usable_session(
    sessions: Map<Seq<char>, SshSession>,
    session_id: Seq<char>,
    user_id: i64,
) -> Result<SshSession, ToolErrorView> {
    if !sessions.contains_key(session_id) {
        Err(invalid("unknown session_id"@))
    } else if sessions[session_id].user_id != user_id {
        Err(invalid("session does not belong to token"@))
    } else {
        Ok(sessions[session_id])
    }
}

/// Who the audit entries of a call are about.
pub open spec fn audit_ctx_of(
    auth: AuthContextView,
    server_alias: Seq<char>,
    session_id: Seq<char>,
) -> AuditCtxView {
    AuditCtxView { user_id: auth.user_id, token_id: auth.token_id, server_alias, session_id }
}

/// The audit context of a call on a session that the caller may use, or the
/// error.
pub open spec fn session_ctx(
    sessions: Map<Seq<char>, SshSession>,
    session_id: Seq<char>,
    auth: AuthContextView,
) -> Result<AuditCtxView, ToolErrorView> {
    match usable_session(sessions, session_id, auth.user_id) {
        Ok(s) => Ok(audit_ctx_of(auth, s.server_alias@, s.id@)),
        Err(e) => Err(e),
    }
}

/// The entry of a server in the list.
pub open spec fn is_server_entry(entry: ServerEntry, summary: ServerSummaryView) -> bool {
    &&& entry.alias@ == summary.alias
    &&& opt_text(entry.description) == summary.description
    &&& opt_text(entry.tags) == summary.tags
}

/// What closing a session comes to.
pub struct Closing {
    pub output: CloseOutput,
    /// The session whose connections are to be closed, if there was one.
    pub session: Option<SshSession>,
    /// The jobs to be stopped.
    pub stopped: Vec<String>,
    /// What is put on record.
    pub entry: Option<AuditEntry>,
}

impl ConduitHandler {
    pub fn new(state: AppState) -> (r: Self)
        ensures
            r.state == state,
    {
        ConduitHandler { state }
    }

    /// The identity that a request was let through with. `has_parts` says whether
    /// the request came with its HTTP parts, and `found` is the identity that was
    /// in them.
    pub fn auth(has_parts: bool, found: Option<AuthContext>) -> (r: Result<AuthContext, ToolError>)
        ensures
            !has_parts ==> (r matches Err(e) && e@ == internal("missing http parts"@)),
            has_parts && found is None ==> (r matches Err(e) && e@ == invalid(
                "missing auth context"@,
            )),
            has_parts && found is Some ==> r == Ok::<AuthContext, ToolError>(found->0),
    {
        if !has_parts {
            return Err(ToolError::internal_error(owned("missing http parts")));
        }
        match found {
            Some(auth) => Ok(auth),
            None => Err(ToolError::invalid_request(owned("missing auth context"))),
        }
    }

    /// The session under an identifier, if the caller may use it.
    pub fn session_for(&self, session_id: &str, auth: &AuthContext) -> (r: Result<
        &SshSession,
        ToolError,
    >)
        requires
            self.state.wf(),
        ensures
            match (r, usable_session(self.state.sessions@, session_id@, auth.user_id)) {
                (Ok(s), Ok(v)) => *s == v,
                (Err(e), Err(v)) => e@ == v,
                _ => false,
            },
    {
        match self.state.sessions.get(session_id) {
            None => Err(ToolError::invalid_request(owned("unknown session_id"))),
            Some(s) => {
                if s.user_id != auth.user_id {
                    Err(ToolError::invalid_request(owned("session does not belong to token")))
                } else {
                    Ok(s)
                }
            },
        }
    }

    pub fn audit_ctx(auth: &AuthContext, server_alias: &str, session_id: &str) -> (r: AuditCtx)
        ensures
            r@ == audit_ctx_of(auth@, server_alias@, session_id@),
    {
        AuditCtx {
            user_id: auth.user_id,
            token_id: auth.token_id,
            server_alias: owned(server_alias),
            session_id: owned(session_id),
        }
    }

    /// The audit context of a call on a session that the caller may use.
    pub fn ctx_for(&self, session_id: &str, auth: &AuthContext) -> (r: Result<AuditCtx, ToolError>)
        requires
            self.state.wf(),
        ensures
            match (r, session_ctx(self.state.sessions@, session_id@, auth@)) {
                (Ok(c), Ok(v)) => c@ == v,
                (Err(e), Err(v)) => e@ == v,
                _ => false,
            },
    {
        match self.session_for(session_id, auth) {
            Ok(s) => Ok(Self::audit_ctx(auth, s.server_alias.as_str(), s.id.as_str())),
            Err(e) => Err(e),
        }
    }

    /// List servers the authenticated user may access (metadata only), given what
    /// the catalog said of that user.
    pub fn list_servers(listed: Result<Vec<ServerSummary>, Error>) -> (r: Result<
        ListServersOutput,
        ToolError,
    >)
        ensures
            match (listed, r) {
                (Ok(all), Ok(out)) => {
                    &&& out.servers@.len() == all@.len()
                    &&& forall|i: int|
                        0 <= i < all@.len() ==> is_server_entry(
                            #[trigger] out.servers@[i],
                            all@[i]@,
                        )
                },
                (Err(v), Err(e)) => e@ == internal(v@.message()),
                _ => false,
            },
            (listed, r) matches (Ok(all), Ok(out)) ==> are_entries_for(out.servers@, all@),
    {
        let all = match listed {
            Ok(all) => all,
            Err(e) => {
                return Err(ToolError::internal_error(e.to_string()));
            },
        };
        let mut servers: Vec<ServerEntry> = Vec::new();
        let mut i: usize = 0;
        while i < all.len()
            invariant
                i <= all@.len(),
                servers@.len() == i,
                forall|j: int|
                    0 <= j < i ==> is_server_entry(#[trigger] servers@[j], all@[j]@),
            decreases all.len() - i,
        {
            let s = &all[i];
            servers.push(
                ServerEntry {
                    alias: s.alias.clone(),
                    description: s.description.clone(),
                    tags: s.tags.clone(),
                },
            );
            i = i + 1;
        }
        Ok(ListServersOutput { servers })
    }

    /// Close an open SSH channel and free its session.
    pub fn close_channel(&mut self, auth: &AuthContext, params: &CloseChannelParams) -> (r: Result<
        Closing,
        ToolError,
    >)
        requires
            old(self).state.wf(),
        ensures
            final(self).state.wf(),
            final(self).state.same_but_sessions_and_jobs(&old(self).state),
            ({
                let id = params.session_id@;
                let sessions = old(self).state.sessions@;
                let jobs = old(self).state.jobs@;
                if !sessions.contains_key(id) {
                    &&& final(self).state.sessions@ == sessions
                    &&& final(self).state.jobs@ == jobs
                    &&& r matches Ok(c)
                    &&& c.output.closed
                    &&& c.session is None
                    &&& c.entry is None
                    &&& c.stopped@.len() == 0
                } else if sessions[id].user_id != auth.user_id {
                    &&& final(self).state.sessions@ == sessions
                    &&& final(self).state.jobs@ == jobs
                    &&& r matches Err(e)
                    &&& e@ == invalid("session does not belong to token"@)
                } else {
                    &&& final(self).state.sessions@ == sessions.remove(id)
                    &&& final(self).state.jobs@ == jobs.remove_keys(jobs_of(jobs, id))
                    &&& r matches Ok(c)
                    &&& c.output.closed
                    &&& c.session == Some(sessions[id])
                    &&& lists(c.stopped@, jobs_of(jobs, id))
                    &&& c.entry matches Some(entry)
                    &&& records(
                        entry@,
                        audit_ctx_of(auth@, sessions[id].server_alias@, id),
                        "close_channel"@,
                        no_detail(),
                    )
                }
            }),
            is_closing_of(
                r,
                old(self).state,
                final(self).state,
                params.session_id@,
                auth@,
            ),
    {
        match self.state.sessions.remove(params.session_id.as_str()) {
            None => {
                assert(self.state.sessions@ =~= old(self).state.sessions@);
                Ok(
                    Closing {
                        output: CloseOutput { closed: true },
                        session: None,
                        stopped: Vec::new(),
                        entry: None,
                    },
                )
            },
            Some(session) => {
                if session.user_id != auth.user_id {
                    self.state.sessions.insert(params.session_id.as_str(), session);
                    assert(self.state.sessions@ =~= old(self).state.sessions@);
                    return Err(
                        ToolError::invalid_request(owned("session does not belong to token")),
                    );
                }
                let stopped = self.state.stop_jobs_for_session(session.id.as_str());
                let ctx = Self::audit_ctx(
                    auth,
                    session.server_alias.as_str(),
                    session.id.as_str(),
                );
                let entry = log(&ctx, "close_channel", AuditDetail::none());
                Ok(
                    Closing {
                        output: CloseOutput { closed: true },
                        session: Some(session),
                        stopped,
                        entry: Some(entry),
                    },
                )
            },
        }
    }

    /// What the server tells a client of its tools.
    pub fn instructions() -> (r: String)
        ensures
            r@ == instruction_text(),
    {
        owned(
            "Conduit SSH channel MCP. Tools: list_servers, open_channel, exec, exec_start, exec_poll, exec_stop, sftp_list, sftp_download, sftp_upload, close_channel. Use exec for one-shot commands (<=600s); use exec_start + exec_poll + exec_stop to monitor long-running output (docker logs -f, top -b, tail -f). AI never receives credentials; only opaque session_ids and job_ids.",
        )
    }
}

/// What a client is told of the tools.
pub open spec fn instruction_text() -> Seq<char> {
    "Conduit SSH channel MCP. Tools: list_servers, open_channel, exec, exec_start, exec_poll, exec_stop, sftp_list, sftp_download, sftp_upload, close_channel. Use exec for one-shot commands (<=600s); use exec_start + exec_poll + exec_stop to monitor long-running output (docker logs -f, top -b, tail -f). AI never receives credentials; only opaque session_ids and job_ids."@
}

/// A session can be used by the user who opened it, and by nobody else.
pub proof fn law_sessions_are_private(
    sessions: Map<Seq<char>, SshSession>,
    session_id: Seq<char>,
    user_id: i64,
)
    ensures
        usable_session(sessions, session_id, user_id) is Ok <==> sessions.contains_key(session_id)
            && sessions[session_id].user_id == user_id,
        usable_session(sessions, session_id, user_id) matches Ok(s) ==> s == sessions[session_id],
{
}

/// A session that has been closed cannot be used any more, by anybody.
pub proof fn law_closed_sessions_are_unknown(
    sessions: Map<Seq<char>, SshSession>,
    session_id: Seq<char>,
    user_id: i64,
)
    ensures
        usable_session(sessions.remove(session_id), session_id, user_id) == Err::<
            SshSession,
            ToolErrorView,
        >(invalid("unknown session_id"@)),
{
}

/// A call on a session is put down to the caller and the caller's token, and to the
/// session and the server that the session leads to.
pub proof fn law_calls_are_put_down_to_their_caller(
    sessions: Map<Seq<char>, SshSession>,
    session_id: Seq<char>,
    auth: AuthContextView,
)
    ensures
        session_ctx(sessions, session_id, auth) is Ok <==> sessions.contains_key(session_id)
            && sessions[session_id].user_id == auth.user_id,
        session_ctx(sessions, session_id, auth) matches Ok(ctx) ==> {
            &&& ctx.user_id == auth.user_id
            &&& ctx.token_id == auth.token_id
            &&& ctx.server_alias == sessions[session_id].server_alias@
            &&& ctx.session_id == sessions[session_id].id@
        },
        !sessions.contains_key(session_id) ==> session_ctx(sessions, session_id, auth) == Err::<
            AuditCtxView,
            ToolErrorView,
        >(invalid("unknown session_id"@)),
        sessions.contains_key(session_id) && sessions[session_id].user_id != auth.user_id
            ==> session_ctx(sessions, session_id, auth) == Err::<AuditCtxView, ToolErrorView>(
            invalid("session does not belong to token"@),
        ),
{
}

/// The context of a call names the caller, the caller's token, the server and the
/// session, each in its own place.
pub proof fn law_context_names_all(
    auth: AuthContextView,
    server_alias: Seq<char>,
    session_id: Seq<char>,
)
    ensures
        audit_ctx_of(auth, server_alias, session_id).user_id == auth.user_id,
        audit_ctx_of(auth, server_alias, session_id).token_id == auth.token_id,
        audit_ctx_of(auth, server_alias, session_id).server_alias == server_alias,
        audit_ctx_of(auth, server_alias, session_id).session_id == session_id,
{
}

/// A request that cannot be served and a failure while serving one are told apart, and
/// both carry their message as it is.
pub proof fn law_errors_carry_their_message(message: Seq<char>)
    ensures
        invalid(message).message == message,
        internal(message).message == message,
        invalid(message).kind == ToolErrorKind::InvalidRequest,
        internal(message).kind == ToolErrorKind::Internal,
{
}

/// An error, taken as a value, has the kind and the message that it holds.
pub proof fn law_tool_error_is_of_its_fields(e: ToolError)
    ensures
        e@.kind == e.kind,
        e@.message == e.message@,
{
}

/// A server is listed under its own alias, with its own description and tags.
pub proof fn law_listed_server_is_the_one(entry: ServerEntry, summary: ServerSummaryView)
    requires
        is_server_entry(entry, summary),
    ensures
        entry.alias@ == summary.alias,
        entry.description is Some <==> summary.description is Some,
        entry.description matches Some(d) ==> summary.description == Some(d@),
        entry.tags is Some <==> summary.tags is Some,
        entry.tags matches Some(t) ==> summary.tags == Some(t@),
{
}

/// Whether a session is closed, or left alone, as it should be: by its own user it is
/// taken out with its jobs, by another it is refused, and one that is not there counts as
/// closed.
pub open spec fn is_closing_of(
    r: Result<Closing, ToolError>,
    before: AppState,
    after: AppState,
    id: Seq<char>,
    auth: AuthContextView,
) -> bool {
    let sessions = before.sessions@;
    let mine = sessions.contains_key(id) && sessions[id].user_id == auth.user_id;
    &&& r is Err <==> sessions.contains_key(id) && !mine
    &&& r matches Err(e) ==> e@ == invalid("session does not belong to token"@)
    &&& after.sessions@ == if mine {
        sessions.remove(id)
    } else {
        sessions
    }
    &&& after.jobs@ == if mine {
        before.jobs@.remove_keys(jobs_of(before.jobs@, id))
    } else {
        before.jobs@
    }
    &&& r matches Ok(c) ==> {
        &&& c.output.closed
        &&& c.session == if mine {
            Some(sessions[id])
        } else {
            None
        }
        &&& mine ==> lists(c.stopped@, jobs_of(before.jobs@, id))
        &&& !mine ==> c.stopped@.len() == 0
        &&& c.entry is Some <==> mine
        &&& c.entry matches Some(entry) ==> records(
            entry@,
            audit_ctx_of(auth, sessions[id].server_alias@, id),
            "close_channel"@,
            no_detail(),
        )
    }
}

/// Closing a session takes that session out and no other, with every job of it and no
/// other job, and puts it on record; nobody closes a session of another user, and such an
/// attempt changes nothing.
pub proof fn law_closing_takes_one_session(
    r: Result<Closing, ToolError>,
    before: AppState,
    after: AppState,
    id: Seq<char>,
    auth: AuthContextView,
    k: Seq<char>,
)
    requires
        is_closing_of(r, before, after, id, auth),
    ensures
        ({
            let mine = before.sessions@.contains_key(id) && before.sessions@[id].user_id
                == auth.user_id;
            &&& after.sessions@.contains_key(k) <==> before.sessions@.contains_key(k) && !(mine && k
                == id)
            &&& after.sessions@.contains_key(k) ==> after.sessions@[k] == before.sessions@[k]
            &&& after.jobs@.contains_key(k) <==> before.jobs@.contains_key(k) && !(mine
                && before.jobs@[k].session_id@ == id)
            &&& after.jobs@.contains_key(k) ==> after.jobs@[k] == before.jobs@[k]
            &&& r is Err <==> before.sessions@.contains_key(id) && before.sessions@[id].user_id
                != auth.user_id
            &&& r matches Ok(c) ==> c.output.closed && (mine ==> c.session == Some(
                before.sessions@[id],
            ) && c.entry is Some)
            &&& r matches Ok(c) ==> (c.entry matches Some(entry) ==> entry.event@
                == "close_channel"@ && entry.user_id == auth.user_id && entry.token_id
                == auth.token_id && entry.session_id@ == id && entry.server_alias@
                == before.sessions@[id].server_alias@)
            &&& r matches Ok(c) ==> mine && before.jobs@.contains_key(k)
                && before.jobs@[k].session_id@ == id ==> exists|i: int|
                0 <= i < c.stopped@.len() && (#[trigger] c.stopped@[i])@ == k
        }),
{
    if r is Ok && before.sessions@.contains_key(id) && before.sessions@[id].user_id
        == auth.user_id {
        crate::state::law_list_names_each_once(
            r->Ok_0.stopped@,
            jobs_of(before.jobs@, id),
            k,
        );
    }
}

/// Whether the entries of a list are those of the summaries, in their order.
pub open spec fn are_entries_for(entries: Seq<ServerEntry>, all: Seq<ServerSummary>) -> bool {
    &&& entries.len() == all.len()
    &&& forall|i: int| 0 <= i < all.len() ==> is_server_entry(#[trigger] entries[i], all[i]@)
}

/// A caller is listed every server that the catalog gave, in its order, each under its own
/// alias and with its own description and tags.
pub proof fn law_every_server_is_listed(
    entries: Seq<ServerEntry>,
    all: Seq<ServerSummary>,
    i: int,
)
    requires
        are_entries_for(entries, all),
        0 <= i < all.len(),
    ensures
        entries.len() == all.len(),
        entries[i].alias@ == all[i].alias@,
        opt_text(entries[i].description) == opt_text(all[i].description),
        opt_text(entries[i].tags) == opt_text(all[i].tags),
{
    assert(is_server_entry(entries[i], all[i]@));
}

} // verus!
