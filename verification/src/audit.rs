//! Audit entries.

use vstd::prelude::*;

use crate::clock::{utc_now, Timestamp};
use crate::ids::{entry_id, is_hyphenated_uuid};
use crate::models::{AuditEntry, AuditEntryView};
use crate::text::{opt_text, owned};

verus! {

/// Who an audit entry is about, and on which session.
pub struct AuditCtx {
    pub user_id: i64,
    pub token_id: i64,
    pub server_alias: String,
    pub session_id: String,
}

/// An [`AuditCtx`] as a value.
pub struct AuditCtxView {
    pub user_id: i64,
    pub token_id: i64,
    pub server_alias: Seq<char>,
    pub session_id: Seq<char>,
}

impl View for AuditCtx {
    type V = AuditCtxView;

    open spec fn view(&self) -> AuditCtxView {
        AuditCtxView {
            user_id: self.user_id,
            token_id: self.token_id,
            server_alias: self.server_alias@,
            session_id: self.session_id@,
        }
    }
}

impl Clone for AuditCtx {
    fn clone(&self) -> (r: Self)
        ensures
            r == *self,
    {
        AuditCtx {
            user_id: self.user_id,
            token_id: self.token_id,
            server_alias: self.server_alias.clone(),
            session_id: self.session_id.clone(),
        }
    }
}

/// What an event has to say beyond its name.
pub struct AuditDetail {
    pub command: Option<String>,
    pub stdout: Option<String>,
    pub stderr: Option<String>,
    pub exit_code: Option<i64>,
    pub duration_ms: Option<i64>,
    pub error: Option<String>,
}

/// An [`AuditDetail`] as a value.
pub struct AuditDetailView {
    pub command: Option<Seq<char>>,
    pub stdout: Option<Seq<char>>,
    pub stderr: Option<Seq<char>>,
    pub exit_code: Option<i64>,
    pub duration_ms: Option<i64>,
    pub error: Option<Seq<char>>,
}

impl View for AuditDetail {
    type V = AuditDetailView;

    open spec fn view(&self) -> AuditDetailView {
        AuditDetailView {
            command: opt_text(self.command),
            stdout: opt_text(self.stdout),
            stderr: opt_text(self.stderr),
            exit_code: self.exit_code,
            duration_ms: self.duration_ms,
            error: opt_text(self.error),
        }
    }
}

/// A detail that says nothing.
pub open spec fn no_detail() -> AuditDetailView {
    AuditDetailView {
        command: None,
        stdout: None,
        stderr: None,
        exit_code: None,
        duration_ms: None,
        error: None,
    }
}

impl AuditDetail {
    pub fn none() -> (r: Self)
        ensures
            r@ == no_detail(),
    {
        AuditDetail {
            command: None,
            stdout: None,
            stderr: None,
            exit_code: None,
            duration_ms: None,
            error: None,
        }
    }

    /// The command, and nothing else.
    pub fn of_command(command: String) -> (r: Self)
        ensures
            r@ == (AuditDetailView { command: Some(command@), ..no_detail() }),
    {
        AuditDetail {
            command: Some(command),
            stdout: None,
            stderr: None,
            exit_code: None,
            duration_ms: None,
            error: None,
        }
    }
}

/// The entry for an event, under an identifier and a point in time.
pub open spec fn entry_of(
    id: Seq<char>,
    created_at: Timestamp,
    ctx: AuditCtxView,
    event: Seq<char>,
    detail: AuditDetailView,
) -> AuditEntryView {
    AuditEntryView {
        id,
        user_id: ctx.user_id,
        token_id: ctx.token_id,
        server_alias: ctx.server_alias,
        session_id: ctx.session_id,
        event,
        command: detail.command,
        stdout: detail.stdout,
        stderr: detail.stderr,
        exit_code: detail.exit_code,
        duration_ms: detail.duration_ms,
        error: detail.error,
        created_at,
    }
}

/// Whether an entry records the event: everything but its identifier and its
/// time is fixed, and those two are well formed.
pub open spec fn records(
    entry: AuditEntryView,
    ctx: AuditCtxView,
    event: Seq<char>,
    detail: AuditDetailView,
) -> bool {
    &&& entry == entry_of(entry.id, entry.created_at, ctx, event, detail)
    &&& is_hyphenated_uuid(entry.id)
    &&& entry.created_at.valid()
}

/// Builds the entry for an event.
pub fn build_entry(
    id: String,
    created_at: Timestamp,
    ctx: &AuditCtx,
    event: &str,
    detail: AuditDetail,
) -> (r: AuditEntry)
    ensures
        r@ == entry_of(id@, created_at, ctx@, event@, detail@),
{
    AuditEntry {
        id,
        user_id: ctx.user_id,
        token_id: ctx.token_id,
        server_alias: ctx.server_alias.clone(),
        session_id: ctx.session_id.clone(),
        event: owned(event),
        command: detail.command,
        stdout: detail.stdout,
        stderr: detail.stderr,
        exit_code: detail.exit_code,
        duration_ms: detail.duration_ms,
        error: detail.error,
        created_at,
    }
}

/// The entry for an event that happens now, ready for the sink.
pub fn log(ctx: &AuditCtx, event: &str, detail: AuditDetail) -> (r: AuditEntry)
    ensures
        records(r@, ctx@, event@, detail@),
{
    build_entry(entry_id(), utc_now(), ctx, event, detail)
}

/// An audit entry says who did what on which session of which server, and everything
/// that the event has to say, each thing in its own place.
pub proof fn law_entry_tells_the_event(
    id: Seq<char>,
    created_at: Timestamp,
    ctx: AuditCtxView,
    event: Seq<char>,
    detail: AuditDetailView,
)
    ensures
        ({
            let e = entry_of(id, created_at, ctx, event, detail);
            &&& e.id == id
            &&& e.created_at == created_at
            &&& e.user_id == ctx.user_id
            &&& e.token_id == ctx.token_id
            &&& e.server_alias == ctx.server_alias
            &&& e.session_id == ctx.session_id
            &&& e.event == event
            &&& e.command == detail.command
            &&& e.stdout == detail.stdout
            &&& e.stderr == detail.stderr
            &&& e.exit_code == detail.exit_code
            &&& e.duration_ms == detail.duration_ms
            &&& e.error == detail.error
        }),
{
}

/// What is on record of an event is the event: who, where, what and with which outcome.
pub proof fn law_record_is_of_the_event(
    entry: AuditEntryView,
    ctx: AuditCtxView,
    event: Seq<char>,
    detail: AuditDetailView,
)
    requires
        records(entry, ctx, event, detail),
    ensures
        entry.user_id == ctx.user_id,
        entry.token_id == ctx.token_id,
        entry.server_alias == ctx.server_alias,
        entry.session_id == ctx.session_id,
        entry.event == event,
        entry.command == detail.command,
        entry.stdout == detail.stdout,
        entry.stderr == detail.stderr,
        entry.exit_code == detail.exit_code,
        entry.duration_ms == detail.duration_ms,
        entry.error == detail.error,
        entry.id.len() == 36,
{
}

/// A detail that says nothing has nothing in any place.
pub proof fn law_no_detail_says_nothing()
    ensures
        no_detail().command is None,
        no_detail().stdout is None,
        no_detail().stderr is None,
        no_detail().exit_code is None,
        no_detail().duration_ms is None,
        no_detail().error is None,
{
}

/// A context and a detail, taken as values, have in each place what they hold there.
pub proof fn law_values_are_of_their_fields(ctx: AuditCtx, detail: AuditDetail)
    ensures
        ctx@.user_id == ctx.user_id,
        ctx@.token_id == ctx.token_id,
        ctx@.server_alias == ctx.server_alias@,
        ctx@.session_id == ctx.session_id@,
        detail@.command == opt_text(detail.command),
        detail@.stdout == opt_text(detail.stdout),
        detail@.stderr == opt_text(detail.stderr),
        detail@.exit_code == detail.exit_code,
        detail@.duration_ms == detail.duration_ms,
        detail@.error == opt_text(detail.error),
{
}

} // verus!
