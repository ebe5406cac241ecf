//! The rules of the SQLite-backed store: which statements are put to the
//! database, and what its rows amount to.

use vstd::prelude::*;
use vstd::string::*;

use crate::clock::{
    clock_time, parse_rfc3339, rfc3339_point, rfc3339_text, sorts_as, text_before, to_rfc3339, utc_now,
    Timestamp,
};
use crate::crypto::{
    can_open, decrypt_error, decrypted, hex_text, sha256, sha256_hex, MasterKey,
};
use crate::error::{Error, ErrorView};
use crate::models::{
    auth_kind_of, AuditEntry, AuditEntryView, AuditQuery, AuthContext, AuthContextView, AuthKind,
    ResolvedServer, ResolvedServerView, ServerSummary, ServerSummaryView, TokenKind,
};
use crate::text::{join2, join3, opt_bytes, opt_text, owned, trim, trimmed};

verus! {

/// The URL of the database at a path.
pub fn database_url(path: &str) -> (r: String)
    ensures
        r@ == "sqlite://"@ + path@,
{
    join2("sqlite://", path)
}

/// A row of the table of tokens, with the user it belongs to.
pub struct McpTokenRow {
    pub id: i64,
    pub user_id: i64,
    pub label: String,
    pub username: String,
    pub role: String,
}

/// A row of the table of users, found by the token on it.
pub struct LegacyTokenRow {
    pub id: i64,
    pub username: String,
    pub role: String,
}

/// The identity behind a row of the table of tokens.
pub open spec fn user_token_identity(row: McpTokenRow) -> AuthContextView {
    AuthContextView {
        user_id: row.user_id,
        username: row.username@,
        role: row.role@,
        token_id: row.id,
        token_label: row.label@,
        token_kind: TokenKind::UserToken,
    }
}

/// The identity behind a row of the table of users.
pub open spec fn legacy_identity(row: LegacyTokenRow) -> AuthContextView {
    AuthContextView {
        user_id: row.id,
        username: row.username@,
        role: row.role@,
        token_id: 0,
        token_label: "legacy"@,
        token_kind: TokenKind::Legacy,
    }
}

/// The identity behind a presented token, given what the two lookups by its hash
/// gave; or the error. A failed lookup in the table of tokens counts as one that
/// found nothing.
pub open spec fn identity_of(
    presented: Seq<char>,
    user_token: Result<Option<McpTokenRow>, String>,
    legacy: Result<Option<LegacyTokenRow>, String>,
) -> Result<AuthContextView, ErrorView> {
    if trimmed(presented).len() == 0 {
        Err(ErrorView::Unauthorized("empty token"@))
    } else {
        match user_token {
            Ok(Some(row)) => Ok(user_token_identity(row)),
            _ => match legacy {
                Ok(Some(row)) => Ok(legacy_identity(row)),
                Ok(None) => Err(ErrorView::Unauthorized("invalid or revoked token"@)),
                Err(m) => Err(ErrorView::Db(m@)),
            },
        }
    }
}

/// What the lookup in the table of tokens leads to.
pub enum TokenStep {
    /// The token is known. Its last use is to be put down as of the given time.
    Found { auth: AuthContext, token_id: i64, used_at: String },
    /// The legacy token on the users is to be looked up.
    TryLegacy,
}

/// Whether the step follows from what the lookup in the table of tokens gave at a
/// point in time.
pub open spec fn looked_up(
    found: Result<Option<McpTokenRow>, String>,
    now: Timestamp,
    step: TokenStep,
) -> bool {
    match found {
        Ok(Some(row)) => {
            &&& step matches TokenStep::Found { auth, token_id, used_at }
            &&& auth@ == user_token_identity(row)
            &&& token_id == row.id
            &&& used_at@ == rfc3339_text(now.secs, now.nanos)
        },
        _ => step is TryLegacy,
    }
}

/// A stored server, its credentials still encrypted.
pub struct ServerRow {
    pub alias: String,
    pub host: String,
    pub port: i64,
    pub username: String,
    pub auth_kind: String,
    pub secret_enc: Vec<u8>,
    pub key_passphrase_enc: Option<Vec<u8>>,
    pub certificate_enc: Option<Vec<u8>>,
    pub jump_host_alias: Option<String>,
}

impl ServerRow {
    /// Whether the cipher can be asked to open the credentials.
    pub open spec fn openable(&self) -> bool {
        &&& can_open(self.secret_enc@)
        &&& self.key_passphrase_enc matches Some(b) ==> can_open(b@)
        &&& self.certificate_enc matches Some(b) ==> can_open(b@)
    }
}

/// What a blob opens to under a key, or the error.
pub open spec fn opened_blob(key: Seq<u8>, blob: Seq<u8>) -> Result<Seq<u8>, ErrorView> {
    match decrypted(key, blob) {
        Some(p) => Ok(p),
        None => Err(decrypt_error(blob)),
    }
}

/// What a blob opens to where there is one.
pub open spec fn opened_option(key: Seq<u8>, blob: Option<Seq<u8>>) -> Result<
    Option<Seq<u8>>,
    ErrorView,
> {
    match blob {
        None => Ok(None),
        Some(b) => match opened_blob(key, b) {
            Ok(p) => Ok(Some(p)),
            Err(e) => Err(e),
        },
    }
}

/// The server that a stored row amounts to under a key, or the error of the first
/// credential that does not open.
pub open spec fn server_of(key: Seq<u8>, row: ServerRow) -> Result<ResolvedServerView, ErrorView> {
    match opened_blob(key, row.secret_enc@) {
        Err(e) => Err(e),
        Ok(secret) => match opened_option(key, opt_bytes(row.key_passphrase_enc)) {
            Err(e) => Err(e),
            Ok(key_passphrase) => match opened_option(key, opt_bytes(row.certificate_enc)) {
                Err(e) => Err(e),
                Ok(certificate) => Ok(
                    ResolvedServerView {
                        alias: row.alias@,
                        host: row.host@,
                        port: row.port as u16,
                        username: row.username@,
                        auth_kind: auth_kind_of(row.auth_kind@),
                        secret,
                        key_passphrase,
                        certificate,
                        jump_host_alias: opt_text(row.jump_host_alias),
                    },
                ),
            },
        },
    }
}

/// The answer of the catalog for an alias, given what the lookup of a server that
/// the user may access gave.
pub open spec fn resolution(
    key: Seq<u8>,
    alias: Seq<char>,
    row: Result<Option<ServerRow>, String>,
) -> Result<ResolvedServerView, ErrorView> {
    match row {
        Err(m) => Err(ErrorView::Db(m@)),
        Ok(None) => Err(
            ErrorView::NotFound("server "@ + alias + " (no permission or not found)"@),
        ),
        Ok(Some(r)) => server_of(key, r),
    }
}

/// A stored audit entry.
pub struct AuditRow {
    pub id: String,
    pub user_id: i64,
    pub token_id: i64,
    pub server_alias: String,
    pub session_id: String,
    pub event: String,
    pub command: Option<String>,
    pub stdout: Option<String>,
    pub stderr: Option<String>,
    pub exit_code: Option<i64>,
    pub duration_ms: Option<i64>,
    pub error: Option<String>,
    pub created_at: String,
}

/// The time that a stored text stands for; `now` where it stands for none.
pub open spec fn time_of(text: Seq<char>, now: Timestamp) -> Timestamp {
    match rfc3339_point(text) {
        Some((secs, nanos)) => Timestamp { secs, nanos },
        None => now,
    }
}

impl AuditRow {
    /// The entry that a stored row amounts to at a given time.
    pub open spec fn entry_at(&self, now: Timestamp) -> AuditEntryView {
        AuditEntryView {
            id: self.id@,
            user_id: self.user_id,
            token_id: self.token_id,
            server_alias: self.server_alias@,
            session_id: self.session_id@,
            event: self.event@,
            command: opt_text(self.command),
            stdout: opt_text(self.stdout),
            stderr: opt_text(self.stderr),
            exit_code: self.exit_code,
            duration_ms: self.duration_ms,
            error: opt_text(self.error),
            created_at: time_of(self.created_at@, now),
        }
    }

    /// Whether a row stores the entry.
    pub open spec fn stores(&self, entry: AuditEntryView) -> bool {
        &&& self.created_at@ == rfc3339_text(entry.created_at.secs, entry.created_at.nanos)
        &&& self.id@ == entry.id
        &&& self.user_id == entry.user_id
        &&& self.token_id == entry.token_id
        &&& self.server_alias@ == entry.server_alias
        &&& self.session_id@ == entry.session_id
        &&& self.event@ == entry.event
        &&& opt_text(self.command) == entry.command
        &&& opt_text(self.stdout) == entry.stdout
        &&& opt_text(self.stderr) == entry.stderr
        &&& self.exit_code == entry.exit_code
        &&& self.duration_ms == entry.duration_ms
        &&& opt_text(self.error) == entry.error
    }

    /// Whether a row stores the entry, gives it back whenever it is read, and sorts
    /// among other rows by the entry's time.
    pub open spec fn keeps(&self, entry: AuditEntryView) -> bool {
        &&& self.stores(entry)
        &&& forall|now: Timestamp| #[trigger] self.entry_at(now) == entry
        &&& sorts_as(self.created_at@, entry.created_at)
    }

    /// The row that stores an entry. Where the year of its time has four digits,
    /// reading the row gives the entry back, and rows sort by the times.
    pub fn of_entry(e: &AuditEntry) -> (r: Self)
        requires
            e.created_at.valid(),
        ensures
            r.stores(e@),
            e.created_at.four_digit_year() ==> r.keeps(e@),
    {
        AuditRow {
            id: e.id.clone(),
            user_id: e.user_id,
            token_id: e.token_id,
            server_alias: e.server_alias.clone(),
            session_id: e.session_id.clone(),
            event: e.event.clone(),
            command: e.command.clone(),
            stdout: e.stdout.clone(),
            stderr: e.stderr.clone(),
            exit_code: e.exit_code,
            duration_ms: e.duration_ms,
            error: e.error.clone(),
            created_at: to_rfc3339(e.created_at),
        }
    }

    /// The entry that a stored row amounts to now.
    pub fn into_entry(self) -> (r: AuditEntry)
        ensures
            r@ == self.entry_at(r.created_at),
            r.created_at.valid(),
            rfc3339_point(self.created_at@) matches Some((secs, nanos)) ==> r.created_at == (
            Timestamp { secs, nanos }),
    {
        let now = utc_now();
        self.into_entry_at(now)
    }

    /// The entry that a stored row amounts to at a given time.
    pub fn into_entry_at(self, now: Timestamp) -> (r: AuditEntry)
        requires
            now.valid(),
        ensures
            r@ == self.entry_at(now),
            r.created_at.valid(),
    {
        let created_at = parse_ts(self.created_at.as_str(), now);
        AuditEntry {
            id: self.id,
            user_id: self.user_id,
            token_id: self.token_id,
            server_alias: self.server_alias,
            session_id: self.session_id,
            event: self.event,
            command: self.command,
            stdout: self.stdout,
            stderr: self.stderr,
            exit_code: self.exit_code,
            duration_ms: self.duration_ms,
            error: self.error,
            created_at,
        }
    }
}

/// Reads a stored time; one that cannot be read counts as `now`.
pub fn parse_ts(s: &str, now: Timestamp) -> (r: Timestamp)
    requires
        now.valid(),
    ensures
        r == time_of(s@, now),
        r.valid(),
{
    parsed_or(parse_rfc3339(s), now)
}

/// A time that was read, or `now` where none could be.
pub fn parsed_or(parsed: Option<Timestamp>, now: Timestamp) -> (r: Timestamp)
    ensures
        parsed matches Some(t) ==> r == t,
        parsed is None ==> r == now,
{
    match parsed {
        Some(t) => t,
        None => now,
    }
}

/// A value bound to a statement.
pub enum Bind {
    Int(i64),
    Text(String),
    Null,
}

/// A [`Bind`] as a value.
pub enum BindView {
    Int(i64),
    Text(Seq<char>),
    Null,
}

impl View for Bind {
    type V = BindView;

    open spec fn view(&self) -> BindView {
        match *self {
            Bind::Int(n) => BindView::Int(n),
            Bind::Text(s) => BindView::Text(s@),
            Bind::Null => BindView::Null,
        }
    }
}

/// The values that a list binds.
pub open spec fn bind_views(binds: Seq<Bind>) -> Seq<BindView> {
    binds.map_values(|b: Bind| b@)
}

/// A statement and the values to bind to its placeholders, in their order.
pub struct Statement {
    pub sql: String,
    pub binds: Vec<Bind>,
}

/// The statement that looks a token up in the table of tokens: one that is not
/// revoked, of a user who is active.
pub open spec fn token_sql() -> Seq<char> {
    "SELECT t.id, t.user_id, t.label, u.username, u.role, u.active FROM mcp_tokens t JOIN users u ON u.id = t.user_id WHERE t.token_hash = ? AND t.revoked_at IS NULL AND u.active = 1 LIMIT 1"@
}

/// Puts the lookup of a token by its hash into a statement.
pub fn token_statement(hash: &str) -> (r: Statement)
    ensures
        r.sql@ == token_sql(),
        bind_views(r.binds@) == seq![BindView::Text(hash@)],
{
    let mut binds: Vec<Bind> = Vec::new();
    binds.push(Bind::Text(owned(hash)));
    assert(bind_views(binds@) =~= seq![BindView::Text(hash@)]);
    Statement {
        sql: owned(
            "SELECT t.id, t.user_id, t.label, u.username, u.role, u.active FROM mcp_tokens t JOIN users u ON u.id = t.user_id WHERE t.token_hash = ? AND t.revoked_at IS NULL AND u.active = 1 LIMIT 1",
        ),
        binds,
    }
}

/// The statement that puts the last use of a token down.
pub open spec fn used_sql() -> Seq<char> {
    "UPDATE mcp_tokens SET last_used_at = ? WHERE id = ?"@
}

/// Puts the last use of a token into a statement.
pub fn used_statement(used_at: String, token_id: i64) -> (r: Statement)
    ensures
        r.sql@ == used_sql(),
        bind_views(r.binds@) == seq![BindView::Text(used_at@), BindView::Int(token_id)],
{
    let mut binds: Vec<Bind> = Vec::new();
    binds.push(Bind::Text(used_at));
    binds.push(Bind::Int(token_id));
    assert(bind_views(binds@) =~= seq![BindView::Text(used_at@), BindView::Int(token_id)]);
    Statement { sql: owned("UPDATE mcp_tokens SET last_used_at = ? WHERE id = ?"), binds }
}

/// The statement that looks a token up on the users: an active user's.
pub open spec fn legacy_sql() -> Seq<char> {
    "SELECT id, username, role, active FROM users WHERE mcp_token_hash = ? AND active = 1 LIMIT 1"@
}

/// Puts the lookup of a legacy token by its hash into a statement.
pub fn legacy_statement(hash: &str) -> (r: Statement)
    ensures
        r.sql@ == legacy_sql(),
        bind_views(r.binds@) == seq![BindView::Text(hash@)],
{
    let mut binds: Vec<Bind> = Vec::new();
    binds.push(Bind::Text(owned(hash)));
    assert(bind_views(binds@) =~= seq![BindView::Text(hash@)]);
    Statement {
        sql: owned(
            "SELECT id, username, role, active FROM users WHERE mcp_token_hash = ? AND active = 1 LIMIT 1",
        ),
        binds,
    }
}

/// The statement that lists the servers a user is permitted, by their aliases.
pub open spec fn list_sql() -> Seq<char> {
    "SELECT s.alias, s.description, s.tags FROM servers s JOIN server_user_permissions p ON p.server_id = s.id WHERE p.user_id = ? ORDER BY s.alias"@
}

/// Puts the list of a user's servers into a statement.
pub fn list_statement(user_id: i64) -> (r: Statement)
    ensures
        r.sql@ == list_sql(),
        bind_views(r.binds@) == seq![BindView::Int(user_id)],
{
    let mut binds: Vec<Bind> = Vec::new();
    binds.push(Bind::Int(user_id));
    assert(bind_views(binds@) =~= seq![BindView::Int(user_id)]);
    Statement {
        sql: owned(
            "SELECT s.alias, s.description, s.tags FROM servers s JOIN server_user_permissions p ON p.server_id = s.id WHERE p.user_id = ? ORDER BY s.alias",
        ),
        binds,
    }
}

/// The statement that looks up a server that a user is permitted.
pub open spec fn resolve_sql() -> Seq<char> {
    "SELECT s.alias, s.host, s.port, s.username, s.auth_kind, s.secret_enc, s.key_passphrase_enc, s.certificate_enc, s.jump_host_alias FROM servers s JOIN server_user_permissions p ON p.server_id = s.id WHERE p.user_id = ? AND s.alias = ? LIMIT 1"@
}

/// Puts the lookup of one of a user's servers into a statement.
pub fn resolve_statement(user_id: i64, alias: &str) -> (r: Statement)
    ensures
        r.sql@ == resolve_sql(),
        bind_views(r.binds@) == seq![BindView::Int(user_id), BindView::Text(alias@)],
{
    let mut binds: Vec<Bind> = Vec::new();
    binds.push(Bind::Int(user_id));
    binds.push(Bind::Text(owned(alias)));
    assert(bind_views(binds@) =~= seq![BindView::Int(user_id), BindView::Text(alias@)]);
    Statement {
        sql: owned(
            "SELECT s.alias, s.host, s.port, s.username, s.auth_kind, s.secret_enc, s.key_passphrase_enc, s.certificate_enc, s.jump_host_alias FROM servers s JOIN server_user_permissions p ON p.server_id = s.id WHERE p.user_id = ? AND s.alias = ? LIMIT 1",
        ),
        binds,
    }
}

/// The statement that stores an audit entry.
pub open spec fn record_sql() -> Seq<char> {
    "INSERT INTO conduit_audit(id,user_id,token_id,server_alias,session_id,event,command,stdout,stderr,exit_code,duration_ms,error,created_at) VALUES(?,?,?,?,?,?,?,?,?,?,?,?,?)"@
}

/// A text as it is stored; where there is none, nothing.
pub open spec fn stored_text(text: Option<Seq<char>>) -> BindView {
    match text {
        Some(s) => BindView::Text(s),
        None => BindView::Null,
    }
}

/// A number as it is stored; where there is none, nothing.
pub open spec fn stored_int(n: Option<i64>) -> BindView {
    match n {
        Some(n) => BindView::Int(n),
        None => BindView::Null,
    }
}

fn text_bind(text: Option<String>) -> (r: Bind)
    ensures
        r@ == stored_text(opt_text(text)),
{
    match text {
        Some(s) => Bind::Text(s),
        None => Bind::Null,
    }
}

fn int_bind(n: Option<i64>) -> (r: Bind)
    ensures
        r@ == stored_int(n),
{
    match n {
        Some(n) => Bind::Int(n),
        None => Bind::Null,
    }
}

/// The values of a row, in the order of its columns.
pub open spec fn record_binds(row: AuditRow) -> Seq<BindView> {
    seq![
        BindView::Text(row.id@),
        BindView::Int(row.user_id),
        BindView::Int(row.token_id),
        BindView::Text(row.server_alias@),
        BindView::Text(row.session_id@),
        BindView::Text(row.event@),
        stored_text(opt_text(row.command)),
        stored_text(opt_text(row.stdout)),
        stored_text(opt_text(row.stderr)),
        stored_int(row.exit_code),
        stored_int(row.duration_ms),
        stored_text(opt_text(row.error)),
        BindView::Text(row.created_at@),
    ]
}

/// Puts the storing of an audit entry's row into a statement.
pub fn record_statement(row: AuditRow) -> (r: Statement)
    ensures
        r.sql@ == record_sql(),
        bind_views(r.binds@) == record_binds(row),
{
    let mut binds: Vec<Bind> = Vec::new();
    binds.push(Bind::Text(row.id));
    binds.push(Bind::Int(row.user_id));
    binds.push(Bind::Int(row.token_id));
    binds.push(Bind::Text(row.server_alias));
    binds.push(Bind::Text(row.session_id));
    binds.push(Bind::Text(row.event));
    binds.push(text_bind(row.command));
    binds.push(text_bind(row.stdout));
    binds.push(text_bind(row.stderr));
    binds.push(int_bind(row.exit_code));
    binds.push(int_bind(row.duration_ms));
    binds.push(text_bind(row.error));
    binds.push(Bind::Text(row.created_at));
    assert(bind_views(binds@) =~= record_binds(row));
    Statement {
        sql: owned(
            "INSERT INTO conduit_audit(id,user_id,token_id,server_alias,session_id,event,command,stdout,stderr,exit_code,duration_ms,error,created_at) VALUES(?,?,?,?,?,?,?,?,?,?,?,?,?)",
        ),
        binds,
    }
}

/// The condition that a filter adds where it is set.
pub open spec fn condition(set: bool, text: Seq<char>) -> Seq<char> {
    if set {
        text
    } else {
        Seq::empty()
    }
}

/// The beginning of an audit query.
pub open spec fn audit_select() -> Seq<char> {
    "SELECT id,user_id,token_id,server_alias,session_id,event,command,stdout,stderr,exit_code,duration_ms,error,created_at FROM conduit_audit WHERE 1=1"@
}

/// The statement of an audit query: every filter that is set adds its condition,
/// and the newest entries come first.
pub open spec fn audit_sql(q: AuditQuery) -> Seq<char> {
    audit_select() + condition(q.user_id is Some, " AND user_id=?"@) + condition(
        q.server is Some,
        " AND server_alias=?"@,
    ) + condition(q.session_id is Some, " AND session_id=?"@) + condition(
        q.since is Some,
        " AND created_at>=?"@,
    ) + " ORDER BY created_at DESC LIMIT ?"@
}

/// The value that a filter binds where it is set.
pub open spec fn bound(value: Option<BindView>) -> Seq<BindView> {
    match value {
        Some(b) => seq![b],
        None => Seq::empty(),
    }
}

/// The values of an audit query, in the order of the conditions.
pub open spec fn audit_binds(q: AuditQuery) -> Seq<BindView> {
    bound(
        match q.user_id {
            Some(u) => Some(BindView::Int(u)),
            None => None,
        },
    ) + bound(
        match q.server {
            Some(s) => Some(BindView::Text(s@)),
            None => None,
        },
    ) + bound(
        match q.session_id {
            Some(s) => Some(BindView::Text(s@)),
            None => None,
        },
    ) + bound(
        match q.since {
            Some(t) => Some(BindView::Text(rfc3339_text(t.secs, t.nanos))),
            None => None,
        },
    ) + seq![BindView::Int(q.limit)]
}

/// Puts an audit query into a statement.
pub fn audit_statement(q: &AuditQuery) -> (r: Statement)
    requires
        q.since matches Some(t) ==> t.valid(),
    ensures
        r.sql@ == audit_sql(*q),
        bind_views(r.binds@) == audit_binds(*q),
{
    let mut sql = owned(
        "SELECT id,user_id,token_id,server_alias,session_id,event,command,stdout,stderr,exit_code,duration_ms,error,created_at FROM conduit_audit WHERE 1=1",
    );
    let mut binds: Vec<Bind> = Vec::new();
    if let Some(u) = q.user_id {
        sql.append(" AND user_id=?");
        binds.push(Bind::Int(u));
    }
    if let Some(s) = &q.server {
        sql.append(" AND server_alias=?");
        binds.push(Bind::Text(s.clone()));
    }
    if let Some(s) = &q.session_id {
        sql.append(" AND session_id=?");
        binds.push(Bind::Text(s.clone()));
    }
    if let Some(t) = q.since {
        sql.append(" AND created_at>=?");
        binds.push(Bind::Text(to_rfc3339(t)));
    }
    sql.append(" ORDER BY created_at DESC LIMIT ?");
    binds.push(Bind::Int(q.limit));
    assert(sql@ =~= audit_sql(*q));
    assert(bind_views(binds@) =~= audit_binds(*q));
    Statement { sql, binds }
}

/// The entries of the rows that an audit query gave, or the error.
pub fn audit_entries(rows: Result<Vec<AuditRow>, String>) -> (r: Result<Vec<AuditEntry>, Error>)
    ensures
        match (rows, r) {
            (Ok(rows), Ok(entries)) => {
                &&& entries@.len() == rows@.len()
                &&& forall|i: int|
                    0 <= i < rows@.len() ==> {
                        &&& (#[trigger] entries@[i])@ == rows@[i].entry_at(entries@[i].created_at)
                        &&& entries@[i].created_at.valid()
                    }
            },
            (Err(m), Err(e)) => e@ == ErrorView::Db(m@),
            _ => false,
        },
        (rows, r) matches (Ok(rows), Ok(entries)) ==> are_entries_of(entries@, rows@),
{
    let rows = match rows {
        Ok(rows) => rows,
        Err(m) => {
            return Err(Error::Db(m));
        },
    };
    let ghost all = rows@;
    let mut left = rows;
    let mut entries: Vec<AuditEntry> = Vec::new();
    while left.len() > 0
        invariant
            left@.len() + entries@.len() == all.len(),
            left@ == all.skip(entries@.len() as int),
            forall|i: int|
                0 <= i < entries@.len() ==> {
                    &&& (#[trigger] entries@[i])@ == all[i].entry_at(entries@[i].created_at)
                    &&& entries@[i].created_at.valid()
                },
        decreases left.len(),
    {
        let row = left.remove(0);
        assert(row == all[entries@.len() as int]);
        entries.push(row.into_entry());
        assert(left@ =~= all.skip(entries@.len() as int));
    }
    Ok(entries)
}

/// Whether the picked numbers, out of those below `count`, are the newest that meet
/// the conditions: each is picked once, none comes after an older one, and one that
/// meets the conditions is left out only where as many as `limit` were picked and
/// none of those is older. A negative limit is none.
pub open spec fn newest(
    count: int,
    meets: spec_fn(int) -> bool,
    older: spec_fn(int, int) -> bool,
    limit: int,
    picks: Seq<int>,
) -> bool {
    &&& limit >= 0 ==> picks.len() <= limit
    &&& forall|i: int|
        0 <= i < picks.len() ==> 0 <= #[trigger] picks[i] < count && meets(picks[i])
    &&& forall|i: int, j: int|
        0 <= i < j < picks.len() ==> #[trigger] picks[i] != #[trigger] picks[j] && !older(
            picks[i],
            picks[j],
        )
    &&& forall|k: int|
        0 <= k < count && #[trigger] meets(k) && !picks.contains(k) ==> {
            &&& limit >= 0
            &&& picks.len() == limit
            &&& forall|i: int| 0 <= i < picks.len() ==> !older(#[trigger] picks[i], k)
        }
}

/// Whether a row meets the conditions of an audit query's statement.
pub open spec fn row_meets(row: AuditRow, q: AuditQuery) -> bool {
    &&& q.user_id matches Some(u) ==> row.user_id == u
    &&& q.server matches Some(s) ==> row.server_alias@ == s@
    &&& q.session_id matches Some(s) ==> row.session_id@ == s@
    &&& q.since matches Some(t) ==> !text_before(row.created_at@, rfc3339_text(t.secs, t.nanos))
}

/// Whether an audit query asks for the entry.
pub open spec fn entry_meets(entry: AuditEntryView, q: AuditQuery) -> bool {
    &&& q.user_id matches Some(u) ==> entry.user_id == u
    &&& q.server matches Some(s) ==> entry.server_alias == s@
    &&& q.session_id matches Some(s) ==> entry.session_id == s@
    &&& q.since matches Some(t) ==> !entry.created_at.before(t)
}

/// Whether the picked rows of the table are an answer to an audit query's statement:
/// the conditions hold of them, `created_at` descends as a text, and the limit is
/// kept.
pub open spec fn answers(table: Seq<AuditRow>, q: AuditQuery, picks: Seq<int>) -> bool {
    newest(
        table.len() as int,
        |k: int| row_meets(table[k], q),
        |i: int, j: int| text_before(table[i].created_at@, table[j].created_at@),
        q.limit as int,
        picks,
    )
}

/// Whether the picked entries are what an audit query asks for: those it asks for,
/// newest first, up to the limit.
pub open spec fn asked_for(stored: Seq<AuditEntryView>, q: AuditQuery, picks: Seq<int>) -> bool {
    newest(
        stored.len() as int,
        |k: int| entry_meets(stored[k], q),
        |i: int, j: int| stored[i].created_at.before(stored[j].created_at),
        q.limit as int,
        picks,
    )
}

/// The numbers of the stored entries that an audit query asks for.
pub open spec fn candidates(stored: Seq<AuditEntryView>, q: AuditQuery) -> Set<int> {
    Set::new(|k: int| 0 <= k < stored.len() && entry_meets(stored[k], q))
}

/// How many numbers are picked as the newest: all that meet the conditions, or as
/// many as the limit lets through.
proof fn lemma_newest_len(
    count: int,
    meets: spec_fn(int) -> bool,
    older: spec_fn(int, int) -> bool,
    limit: int,
    picks: Seq<int>,
    all: Set<int>,
)
    requires
        newest(count, meets, older, limit, picks),
        0 <= count,
        forall|k: int| #[trigger] all.contains(k) <==> 0 <= k < count && meets(k),
    ensures
        limit < 0 ==> picks.len() == all.len(),
        limit >= 0 ==> picks.len() == if all.len() < limit {
            all.len() as int
        } else {
            limit
        },
{
    vstd::set_lib::lemma_int_range(0, count);
    vstd::set_lib::lemma_len_subset(all, vstd::set_lib::set_int_range(0, count));
    picks.unique_seq_to_set();
    assert forall|k: int| #[trigger] picks.to_set().contains(k) implies all.contains(k) by {
        let i = choose|i: int| 0 <= i < picks.len() && picks[i] == k;
        assert(0 <= picks[i] < count && meets(picks[i]));
    }
    vstd::set_lib::lemma_len_subset(picks.to_set(), all);
    if forall|k: int| #[trigger] all.contains(k) ==> picks.contains(k) {
        assert(picks.to_set() =~= all);
    } else {
        let k = choose|k: int| #[trigger] all.contains(k) && !picks.contains(k);
        assert(meets(k));
    }
}

/// Where the database answers the statement of an audit query, the entries read from
/// the rows that it gave are stored entries as they were recorded, and the ones that
/// the query asks for: newest first by their times, and as many of them as there are
/// or as the limit lets through.
pub proof fn law_query_gives_the_newest(
    stored: Seq<AuditEntryView>,
    table: Seq<AuditRow>,
    q: AuditQuery,
    picks: Seq<int>,
    entries: Seq<AuditEntryView>,
)
    requires
        table.len() == stored.len(),
        forall|k: int|
            0 <= k < stored.len() ==> {
                &&& (#[trigger] stored[k]).created_at.valid()
                &&& stored[k].created_at.four_digit_year()
                &&& table[k].keeps(stored[k])
            },
        q.since matches Some(t) ==> t.valid() && t.four_digit_year(),
        answers(table, q, picks),
        entries.len() == picks.len(),
        forall|i: int|
            0 <= i < picks.len() ==> #[trigger] entries[i] == table[picks[i]].entry_at(
                entries[i].created_at,
            ),
    ensures
        asked_for(stored, q, picks),
        forall|i: int| 0 <= i < picks.len() ==> #[trigger] entries[i] == stored[picks[i]],
        q.limit >= 0 ==> entries.len() == if candidates(stored, q).len() < q.limit {
            candidates(stored, q).len() as int
        } else {
            q.limit as int
        },
{
    let row_older = |i: int, j: int| text_before(table[i].created_at@, table[j].created_at@);
    let older = |i: int, j: int| stored[i].created_at.before(stored[j].created_at);
    let row_holds = |k: int| row_meets(table[k], q);
    let holds = |k: int| entry_meets(stored[k], q);
    assert forall|i: int, j: int|
        0 <= i < stored.len() && 0 <= j < stored.len() implies #[trigger] older(i, j) == row_older(
        i,
        j,
    ) by {
        assert(table[i].keeps(stored[i]) && table[j].keeps(stored[j]));
        assert(stored[j].created_at.valid());
    }
    assert forall|k: int| 0 <= k < stored.len() implies #[trigger] holds(k) == row_holds(k) by {
        assert(table[k].keeps(stored[k]));
    }
    assert(newest(table.len() as int, row_holds, row_older, q.limit as int, picks));
    assert(newest(stored.len() as int, holds, older, q.limit as int, picks));
    lemma_newest_len(
        stored.len() as int,
        holds,
        older,
        q.limit as int,
        picks,
        candidates(stored, q),
    );
    assert forall|i: int| 0 <= i < picks.len() implies #[trigger] entries[i] == stored[picks[i]] by {
        assert(0 <= picks[i] < table.len());
        assert(table[picks[i]].keeps(stored[picks[i]]));
    }
}

/// A row of the list of servers.
pub struct SummaryRow {
    pub alias: String,
    pub description: Option<String>,
    pub tags: Option<String>,
}

impl SummaryRow {
    pub open spec fn summary(&self) -> ServerSummaryView {
        ServerSummaryView {
            alias: self.alias@,
            description: opt_text(self.description),
            tags: opt_text(self.tags),
        }
    }
}

/// The rules of the store over its master key.
pub struct DibsStore {
    key: MasterKey,
}

impl Clone for DibsStore {
    fn clone(&self) -> (r: Self)
        ensures
            r.key() == self.key(),
    {
        DibsStore { key: self.key.clone() }
    }
}

impl DibsStore {
    /// The key under which credentials are stored.
    pub closed spec fn key(&self) -> Seq<u8> {
        self.key@
    }

    pub fn new(key: MasterKey) -> (r: Self)
        ensures
            r.key() == key@,
    {
        DibsStore { key }
    }

    pub fn master_key(&self) -> (r: &MasterKey)
        ensures
            r@ == self.key(),
    {
        &self.key
    }

    /// Resolve a presented token: gives the hash to look up in the table of tokens
    /// (preferred), then on the users as a fallback. An empty token is refused.
    pub fn validate(presented: &str) -> (r: Result<String, Error>)
        ensures
            trimmed(presented@).len() == 0 ==> (r matches Err(e) && e@ == ErrorView::Unauthorized(
                "empty token"@,
            )),
            trimmed(presented@).len() > 0 ==> (r matches Ok(h) && h@ == hex_text(
                sha256(vstd::utf8::encode_utf8(trimmed(presented@))),
            )),
            r matches Ok(h) ==> is_lookup_hash(h@, presented@),
    {
        let token = trim(presented);
        if token.unicode_len() == 0 {
            return Err(Error::Unauthorized(owned("empty token")));
        }
        Ok(sha256_hex(token))
    }

    /// Goes on with what the lookup in the table of tokens gave. The table may not
    /// be there yet, so a failed lookup is no error.
    pub fn user_token(found: Result<Option<McpTokenRow>, String>) -> (r: TokenStep)
        ensures
            exists|now: Timestamp| clock_time(now) && #[trigger] looked_up(found, now, r),
    {
        let now = utc_now();
        let r = Self::user_token_at(found, now);
        assert(looked_up(found, now, r));
        r
    }

    /// Goes on with what the lookup in the table of tokens gave at the given time.
    pub fn user_token_at(found: Result<Option<McpTokenRow>, String>, now: Timestamp) -> (r:
        TokenStep)
        requires
            now.valid(),
        ensures
            looked_up(found, now, r),
    {
        match found {
            Ok(Some(row)) => {
                let used_at = to_rfc3339(now);
                let token_id = row.id;
                TokenStep::Found {
                    auth: AuthContext {
                        user_id: row.user_id,
                        username: row.username,
                        role: row.role,
                        token_id: row.id,
                        token_label: row.label,
                        token_kind: TokenKind::UserToken,
                    },
                    token_id,
                    used_at,
                }
            },
            _ => TokenStep::TryLegacy,
        }
    }

    /// Ends with what the lookup on the users gave.
    pub fn legacy_token(found: Result<Option<LegacyTokenRow>, String>) -> (r: Result<
        AuthContext,
        Error,
    >)
        ensures
            match (found, r) {
                (Ok(Some(row)), Ok(auth)) => auth@ == legacy_identity(row),
                (Ok(None), Err(e)) => e@ == ErrorView::Unauthorized("invalid or revoked token"@),
                (Err(m), Err(e)) => e@ == ErrorView::Db(m@),
                _ => false,
            },
    {
        match found {
            Ok(Some(row)) => Ok(
                AuthContext {
                    user_id: row.id,
                    username: row.username,
                    role: row.role,
                    token_id: 0,
                    token_label: owned("legacy"),
                    token_kind: TokenKind::Legacy,
                },
            ),
            Ok(None) => Err(Error::Unauthorized(owned("invalid or revoked token"))),
            Err(m) => Err(Error::Db(m)),
        }
    }

    /// The whole course of a validation, given what the two lookups would give.
    pub fn identify(
        presented: &str,
        user_token: Result<Option<McpTokenRow>, String>,
        legacy: Result<Option<LegacyTokenRow>, String>,
    ) -> (r: Result<AuthContext, Error>)
        ensures
            match (r, identity_of(presented@, user_token, legacy)) {
                (Ok(auth), Ok(v)) => auth@ == v,
                (Err(e), Err(v)) => e@ == v,
                _ => false,
            },
    {
        match Self::validate(presented) {
            Err(e) => Err(e),
            Ok(_) => match Self::user_token(user_token) {
                TokenStep::Found { auth, token_id, used_at } => Ok(auth),
                TokenStep::TryLegacy => Self::legacy_token(legacy),
            },
        }
    }

    /// Servers the user is granted access to, given what the lookup gave.
    pub fn list(rows: Result<Vec<SummaryRow>, String>) -> (r: Result<Vec<ServerSummary>, Error>)
        ensures
            match (rows, r) {
                (Ok(rows), Ok(all)) => {
                    &&& all@.len() == rows@.len()
                    &&& forall|i: int|
                        0 <= i < rows@.len() ==> (#[trigger] all@[i])@ == rows@[i].summary()
                },
                (Err(m), Err(e)) => e@ == ErrorView::Db(m@),
                _ => false,
            },
            (rows, r) matches (Ok(rows), Ok(all)) ==> are_summaries_of(all@, rows@),
    {
        let rows = match rows {
            Ok(rows) => rows,
            Err(m) => {
                return Err(Error::Db(m));
            },
        };
        let mut all: Vec<ServerSummary> = Vec::new();
        let mut i: usize = 0;
        while i < rows.len()
            invariant
                i <= rows@.len(),
                all@.len() == i,
                forall|j: int| 0 <= j < i ==> (#[trigger] all@[j])@ == rows@[j].summary(),
            decreases rows.len() - i,
        {
            let row = &rows[i];
            all.push(
                ServerSummary {
                    alias: row.alias.clone(),
                    description: row.description.clone(),
                    tags: row.tags.clone(),
                },
            );
            i = i + 1;
        }
        Ok(all)
    }

    /// One server by alias, restricted to those the user may access, returned with
    /// its credentials decrypted, given what the lookup gave.
    pub fn resolve(&self, alias: &str, row: Result<Option<ServerRow>, String>) -> (r: Result<
        ResolvedServer,
        Error,
    >)
        requires
            row matches Ok(Some(s)) ==> s.openable(),
        ensures
            match (r, resolution(self.key(), alias@, row)) {
                (Ok(s), Ok(v)) => s@ == v,
                (Err(e), Err(v)) => e@ == v,
                _ => false,
            },
    {
        let row = match row {
            Err(m) => {
                return Err(Error::Db(m));
            },
            Ok(None) => {
                return Err(
                    Error::NotFound(join3("server ", alias, " (no permission or not found)")),
                );
            },
            Ok(Some(row)) => row,
        };
        let secret = match self.key.decrypt(row.secret_enc.as_slice()) {
            Ok(p) => p,
            Err(e) => {
                return Err(e);
            },
        };
        let key_passphrase = match self.decrypt_option(&row.key_passphrase_enc) {
            Ok(p) => p,
            Err(e) => {
                return Err(e);
            },
        };
        let certificate = match self.decrypt_option(&row.certificate_enc) {
            Ok(p) => p,
            Err(e) => {
                return Err(e);
            },
        };
        Ok(
            ResolvedServer {
                alias: row.alias,
                host: row.host,
                port: #[verifier::truncate] (row.port as u16),
                username: row.username,
                auth_kind: AuthKind::from_str_loose(row.auth_kind.as_str()),
                secret,
                key_passphrase,
                certificate,
                jump_host_alias: row.jump_host_alias,
            },
        )
    }

    /// Decrypts a blob where there is one.
    fn decrypt_option(&self, blob: &Option<Vec<u8>>) -> (r: Result<Option<Vec<u8>>, Error>)
        requires
            blob matches Some(b) ==> can_open(b@),
        ensures
            match (r, opened_option(self.key(), opt_bytes(*blob))) {
                (Ok(p), Ok(v)) => opt_bytes(p) == v,
                (Err(e), Err(v)) => e@ == v,
                _ => false,
            },
    {
        match blob {
            None => Ok(None),
            Some(b) => match self.key.decrypt(b.as_slice()) {
                Ok(p) => Ok(Some(p)),
                Err(e) => Err(e),
            },
        }
    }
}

/// A token of nothing but white space is refused, whatever the tables hold.
pub proof fn law_empty_token_is_refused(
    presented: Seq<char>,
    user_token: Result<Option<McpTokenRow>, String>,
    legacy: Result<Option<LegacyTokenRow>, String>,
)
    requires
        trimmed(presented).len() == 0,
    ensures
        identity_of(presented, user_token, legacy) == Err::<AuthContextView, ErrorView>(
            ErrorView::Unauthorized("empty token"@),
        ),
{
}

/// The table of tokens is preferred: where it knows the token, what the users
/// hold makes no difference.
pub proof fn law_user_tokens_are_preferred(
    presented: Seq<char>,
    row: McpTokenRow,
    legacy: Result<Option<LegacyTokenRow>, String>,
    other: Result<Option<LegacyTokenRow>, String>,
)
    ensures
        identity_of(presented, Ok(Some(row)), legacy) == identity_of(
            presented,
            Ok(Some(row)),
            other,
        ),
        trimmed(presented).len() > 0 ==> identity_of(presented, Ok(Some(row)), legacy) == Ok::<
            AuthContextView,
            ErrorView,
        >(user_token_identity(row)),
{
}

/// A user, as the database holds one.
pub struct UserRecord {
    pub id: i64,
    pub username: Seq<char>,
    pub role: Seq<char>,
    pub active: i64,
    pub mcp_token_hash: Option<Seq<char>>,
}

/// A token, as the database holds one.
pub struct TokenRecord {
    pub id: i64,
    pub user_id: i64,
    pub label: Seq<char>,
    pub token_hash: Seq<char>,
    pub revoked_at: Option<Seq<char>>,
}

/// The hash under which a presented token is looked up.
pub open spec fn token_hash(presented: Seq<char>) -> Seq<char> {
    hex_text(sha256(vstd::utf8::encode_utf8(trimmed(presented))))
}

/// Whether the token is one with the hash, is not revoked, and belongs to the user,
/// who is active.
pub open spec fn is_live_token(token: TokenRecord, user: UserRecord, hash: Seq<char>) -> bool {
    &&& token.token_hash == hash
    &&& token.revoked_at is None
    &&& token.user_id == user.id
    &&& user.active == 1
}

/// Whether the hash is that of the user's legacy token, and the user is active.
pub open spec fn is_live_legacy(user: UserRecord, hash: Seq<char>) -> bool {
    user.mcp_token_hash == Some(hash) && user.active == 1
}

/// Whether what was found answers [`token_sql`].
pub open spec fn answers_token(
    tokens: Seq<TokenRecord>,
    users: Seq<UserRecord>,
    hash: Seq<char>,
    found: Option<McpTokenRow>,
) -> bool {
    match found {
        Some(row) => exists|t: int, u: int|
            {
                &&& 0 <= t < tokens.len()
                &&& 0 <= u < users.len()
                &&& #[trigger] is_live_token(tokens[t], users[u], hash)
                &&& row.id == tokens[t].id
                &&& row.user_id == tokens[t].user_id
                &&& row.label@ == tokens[t].label
                &&& row.username@ == users[u].username
                &&& row.role@ == users[u].role
            },
        None => forall|t: int, u: int|
            0 <= t < tokens.len() && 0 <= u < users.len() ==> !(#[trigger] is_live_token(
                tokens[t],
                users[u],
                hash,
            )),
    }
}

/// Whether what was found answers [`legacy_sql`].
pub open spec fn answers_legacy(
    users: Seq<UserRecord>,
    hash: Seq<char>,
    found: Option<LegacyTokenRow>,
) -> bool {
    match found {
        Some(row) => exists|u: int|
            {
                &&& 0 <= u < users.len()
                &&& #[trigger] is_live_legacy(users[u], hash)
                &&& row.id == users[u].id
                &&& row.username@ == users[u].username
                &&& row.role@ == users[u].role
            },
        None => forall|u: int|
            0 <= u < users.len() ==> !(#[trigger] is_live_legacy(users[u], hash)),
    }
}

/// Whether an identity is that of a user by one of the user's tokens.
pub open spec fn is_identity_by_token(
    auth: AuthContextView,
    token: TokenRecord,
    user: UserRecord,
) -> bool {
    auth == AuthContextView {
        user_id: user.id,
        username: user.username,
        role: user.role,
        token_id: token.id,
        token_label: token.label,
        token_kind: TokenKind::UserToken,
    }
}

/// Whether an identity is that of a user by the user's legacy token.
pub open spec fn is_legacy_identity(auth: AuthContextView, user: UserRecord) -> bool {
    auth == AuthContextView {
        user_id: user.id,
        username: user.username,
        role: user.role,
        token_id: 0,
        token_label: "legacy"@,
        token_kind: TokenKind::Legacy,
    }
}

/// Where the database answers the two lookups, a presented token identifies an active
/// user by a token that is not revoked, or by the user's legacy token; and it is
/// refused exactly where it is empty or neither is there.
pub proof fn law_only_live_tokens_identify(
    presented: Seq<char>,
    tokens: Seq<TokenRecord>,
    users: Seq<UserRecord>,
    found: Option<McpTokenRow>,
    legacy: Option<LegacyTokenRow>,
)
    requires
        answers_token(tokens, users, token_hash(presented), found),
        answers_legacy(users, token_hash(presented), legacy),
    ensures
        match identity_of(presented, Ok(found), Ok(legacy)) {
            Ok(auth) => {
                let hash = token_hash(presented);
                &&& trimmed(presented).len() > 0
                &&& {
                    ||| exists|t: int, u: int|
                        {
                            &&& 0 <= t < tokens.len()
                            &&& 0 <= u < users.len()
                            &&& #[trigger] is_live_token(tokens[t], users[u], hash)
                            &&& is_identity_by_token(auth, tokens[t], users[u])
                        }
                    ||| exists|u: int|
                        {
                            &&& 0 <= u < users.len()
                            &&& #[trigger] is_live_legacy(users[u], hash)
                            &&& is_legacy_identity(auth, users[u])
                        }
                }
            },
            Err(e) => {
                let hash = token_hash(presented);
                &&& e is Unauthorized
                &&& trimmed(presented).len() > 0 ==> {
                    &&& forall|t: int, u: int|
                        0 <= t < tokens.len() && 0 <= u < users.len() ==> !(
                        #[trigger] is_live_token(tokens[t], users[u], hash))
                    &&& forall|u: int|
                        0 <= u < users.len() ==> !(#[trigger] is_live_legacy(users[u], hash))
                }
            },
        },
{
}

/// A server, as the database holds one.
pub struct ServerRecord {
    pub id: i64,
    pub row: ServerRow,
    pub description: Option<Seq<char>>,
    pub tags: Option<Seq<char>>,
}

/// A permission, as the database holds one: the user may access the server.
pub struct Permission {
    pub server_id: i64,
    pub user_id: i64,
}

/// Whether the permission is the user's, for the server.
pub open spec fn grants(permission: Permission, server: ServerRecord, user_id: i64) -> bool {
    permission.server_id == server.id && permission.user_id == user_id
}

/// Whether some permission lets the user access the server.
pub open spec fn is_permitted(
    permissions: Seq<Permission>,
    server: ServerRecord,
    user_id: i64,
) -> bool {
    exists|p: int|
        0 <= p < permissions.len() && #[trigger] grants(permissions[p], server, user_id)
}

/// Whether the server has the alias, and the user may access it.
pub open spec fn is_accessible(
    permissions: Seq<Permission>,
    server: ServerRecord,
    user_id: i64,
    alias: Seq<char>,
) -> bool {
    server.row.alias@ == alias && is_permitted(permissions, server, user_id)
}

/// Whether what was found answers [`resolve_sql`].
pub open spec fn answers_resolve(
    servers: Seq<ServerRecord>,
    permissions: Seq<Permission>,
    user_id: i64,
    alias: Seq<char>,
    found: Option<ServerRow>,
) -> bool {
    match found {
        Some(row) => exists|s: int|
            {
                &&& 0 <= s < servers.len()
                &&& #[trigger] is_accessible(permissions, servers[s], user_id, alias)
                &&& row == servers[s].row
            },
        None => forall|s: int|
            0 <= s < servers.len() ==> !(#[trigger] is_accessible(
                permissions,
                servers[s],
                user_id,
                alias,
            )),
    }
}

/// Where the database answers the lookup of a server, a user is given a server by that
/// alias that the user is permitted; and where there is none, the answer is that there
/// is none, whether the alias is somebody else's or nobody's.
pub proof fn law_only_permitted_servers_resolve(
    key: Seq<u8>,
    servers: Seq<ServerRecord>,
    permissions: Seq<Permission>,
    user_id: i64,
    alias: Seq<char>,
    found: Option<ServerRow>,
)
    requires
        answers_resolve(servers, permissions, user_id, alias, found),
    ensures
        (exists|s: int|
            {
                &&& 0 <= s < servers.len()
                &&& #[trigger] is_accessible(permissions, servers[s], user_id, alias)
                &&& resolution(key, alias, Ok(found)) == server_of(key, servers[s].row)
            }) || {
            &&& forall|s: int|
                0 <= s < servers.len() ==> !(#[trigger] is_accessible(
                    permissions,
                    servers[s],
                    user_id,
                    alias,
                ))
            &&& resolution(key, alias, Ok(found)) == Err::<ResolvedServerView, ErrorView>(
                ErrorView::NotFound("server "@ + alias + " (no permission or not found)"@),
            )
        },
{
}

/// What a list of servers shows of a server.
pub open spec fn summary_of(server: ServerRecord) -> ServerSummaryView {
    ServerSummaryView {
        alias: server.row.alias@,
        description: server.description,
        tags: server.tags,
    }
}

/// Whether the rows answer [`list_sql`]: one for each server and permission picked,
/// which are all that go together for the user, in the order of the aliases.
pub open spec fn answers_list(
    servers: Seq<ServerRecord>,
    permissions: Seq<Permission>,
    user_id: i64,
    picks: Seq<(int, int)>,
    rows: Seq<SummaryRow>,
) -> bool {
    &&& rows.len() == picks.len()
    &&& picks.no_duplicates()
    &&& forall|i: int|
        0 <= i < picks.len() ==> {
            let (s, p) = #[trigger] picks[i];
            &&& 0 <= s < servers.len()
            &&& 0 <= p < permissions.len()
            &&& grants(permissions[p], servers[s], user_id)
            &&& rows[i].summary() == summary_of(servers[s])
        }
    &&& forall|s: int, p: int|
        0 <= s < servers.len() && 0 <= p < permissions.len() && #[trigger] grants(
            permissions[p],
            servers[s],
            user_id,
        ) ==> picks.contains((s, p))
    &&& forall|i: int, j: int|
        0 <= i < j < rows.len() ==> !text_before(
            (#[trigger] rows[j]).alias@,
            (#[trigger] rows[i]).alias@,
        )
}

/// Whether some server that the user is permitted is shown in this way.
pub open spec fn is_of_permitted(
    servers: Seq<ServerRecord>,
    permissions: Seq<Permission>,
    user_id: i64,
    shown: ServerSummaryView,
) -> bool {
    exists|s: int|
        {
            &&& 0 <= s < servers.len()
            &&& #[trigger] is_permitted(permissions, servers[s], user_id)
            &&& shown == summary_of(servers[s])
        }
}

/// Where the database answers the list of servers, a user is shown the servers that
/// the user is permitted, all of them and no other, by their aliases.
pub proof fn law_only_permitted_servers_are_listed(
    servers: Seq<ServerRecord>,
    permissions: Seq<Permission>,
    user_id: i64,
    picks: Seq<(int, int)>,
    rows: Seq<SummaryRow>,
)
    requires
        answers_list(servers, permissions, user_id, picks, rows),
    ensures
        forall|i: int|
            0 <= i < rows.len() ==> is_of_permitted(
                servers,
                permissions,
                user_id,
                #[trigger] rows[i].summary(),
            ),
        forall|s: int|
            0 <= s < servers.len() && #[trigger] is_permitted(permissions, servers[s], user_id)
                ==> exists|i: int|
                0 <= i < rows.len() && #[trigger] rows[i].summary() == summary_of(servers[s]),
        forall|i: int, j: int|
            0 <= i < j < rows.len() ==> !text_before(
                #[trigger] rows[j].summary().alias,
                #[trigger] rows[i].summary().alias,
            ),
{
    assert forall|i: int| 0 <= i < rows.len() implies is_of_permitted(
        servers,
        permissions,
        user_id,
        #[trigger] rows[i].summary(),
    ) by {
        let (s, p) = picks[i];
        assert(grants(permissions[p], servers[s], user_id));
        assert(is_permitted(permissions, servers[s], user_id));
    }
    assert forall|s: int|
        0 <= s < servers.len() && #[trigger] is_permitted(
            permissions,
            servers[s],
            user_id,
        ) implies exists|i: int|
        0 <= i < rows.len() && #[trigger] rows[i].summary() == summary_of(servers[s]) by {
        let p = choose|p: int|
            0 <= p < permissions.len() && #[trigger] grants(permissions[p], servers[s], user_id);
        assert(picks.contains((s, p)));
        let i = choose|i: int| 0 <= i < picks.len() && picks[i] == (s, p);
        assert(rows[i].summary() == summary_of(servers[s]));
    }
    assert forall|i: int, j: int| 0 <= i < j < rows.len() implies !text_before(
        #[trigger] rows[j].summary().alias,
        #[trigger] rows[i].summary().alias,
    ) by {
        assert(!text_before(rows[j].alias@, rows[i].alias@));
    }
}

/// Credentials that were stored encrypted come back as they were: where each blob
/// of a row opens under the key, the server is resolved with what they open to.
pub proof fn law_stored_credentials_come_back(
    key: Seq<u8>,
    alias: Seq<char>,
    row: ServerRow,
    secret: Seq<u8>,
    key_passphrase: Option<Seq<u8>>,
    certificate: Option<Seq<u8>>,
)
    requires
        decrypted(key, row.secret_enc@) == Some(secret),
        opened_option(key, opt_bytes(row.key_passphrase_enc)) == Ok::<Option<Seq<u8>>, ErrorView>(
            key_passphrase,
        ),
        opened_option(key, opt_bytes(row.certificate_enc)) == Ok::<Option<Seq<u8>>, ErrorView>(
            certificate,
        ),
    ensures
        resolution(key, alias, Ok(Some(row))) matches Ok(server) && {
            &&& server.secret == secret
            &&& server.key_passphrase == key_passphrase
            &&& server.certificate == certificate
            &&& server.alias == row.alias@
            &&& server.host == row.host@
            &&& server.port == row.port as u16
            &&& server.username == row.username@
            &&& server.auth_kind == auth_kind_of(row.auth_kind@)
            &&& server.jump_host_alias == opt_text(row.jump_host_alias)
        },
{
}

/// A server that does not exist and one that the user may not access are the same
/// to the user.
pub proof fn law_access_is_not_leaked(key: Seq<u8>, other: Seq<u8>, alias: Seq<char>)
    ensures
        resolution(key, alias, Ok(None)) == resolution(other, alias, Ok(None)),
        resolution(key, alias, Ok(None)) matches Err(e) && e is NotFound,
{
}

/// How many placeholders a statement has.
pub open spec fn placeholders(sql: Seq<char>) -> nat
    decreases sql.len(),
{
    if sql.len() == 0 {
        0
    } else if sql.last() == '?' {
        placeholders(sql.drop_last()) + 1
    } else {
        placeholders(sql.drop_last())
    }
}

proof fn lemma_placeholders_add(a: Seq<char>, b: Seq<char>)
    ensures
        placeholders(a + b) == placeholders(a) + placeholders(b),
    decreases b.len(),
{
    if b.len() == 0 {
        assert(a + b =~= a);
    } else {
        assert((a + b).drop_last() =~= a + b.drop_last());
        lemma_placeholders_add(a, b.drop_last());
    }
}

proof fn lemma_no_placeholder(sql: Seq<char>)
    requires
        forall|i: int| 0 <= i < sql.len() ==> sql[i] != '?',
    ensures
        placeholders(sql) == 0,
    decreases sql.len(),
{
    if sql.len() > 0 {
        lemma_no_placeholder(sql.drop_last());
    }
}

proof fn lemma_condition(set: bool, text: Seq<char>)
    requires
        text.len() > 0,
        text.last() == '?',
        forall|i: int| 0 <= i < text.len() - 1 ==> text[i] != '?',
    ensures
        placeholders(condition(set, text)) == if set {
            1nat
        } else {
            0
        },
{
    if set {
        lemma_no_placeholder(text.drop_last());
    }
}

/// An audit query binds exactly one value for each placeholder of its statement.
pub proof fn law_every_placeholder_is_bound(q: AuditQuery)
    ensures
        placeholders(audit_sql(q)) == audit_binds(q).len(),
        audit_binds(q).last() == BindView::Int(q.limit),
{
    let head = audit_select();
    let c1 = condition(q.user_id is Some, " AND user_id=?"@);
    let c2 = condition(q.server is Some, " AND server_alias=?"@);
    let c3 = condition(q.session_id is Some, " AND session_id=?"@);
    let c4 = condition(q.since is Some, " AND created_at>=?"@);
    let tail = " ORDER BY created_at DESC LIMIT ?"@;
    lemma_placeholders_add(head, c1);
    lemma_placeholders_add(head + c1, c2);
    lemma_placeholders_add(head + c1 + c2, c3);
    lemma_placeholders_add(head + c1 + c2 + c3, c4);
    lemma_placeholders_add(head + c1 + c2 + c3 + c4, tail);
    assert(placeholders(head) == 0) by {
        reveal_strlit("SELECT id,user_id,token_id,server_alias,session_id,event,command,stdout,stderr,exit_code,duration_ms,error,created_at FROM conduit_audit WHERE 1=1");
        lemma_no_placeholder(head);
    }
    assert(placeholders(c1) == if q.user_id is Some { 1nat } else { 0 }) by {
        reveal_strlit(" AND user_id=?");
        lemma_condition(q.user_id is Some, " AND user_id=?"@);
    }
    assert(placeholders(c2) == if q.server is Some { 1nat } else { 0 }) by {
        reveal_strlit(" AND server_alias=?");
        lemma_condition(q.server is Some, " AND server_alias=?"@);
    }
    assert(placeholders(c3) == if q.session_id is Some { 1nat } else { 0 }) by {
        reveal_strlit(" AND session_id=?");
        lemma_condition(q.session_id is Some, " AND session_id=?"@);
    }
    assert(placeholders(c4) == if q.since is Some { 1nat } else { 0 }) by {
        reveal_strlit(" AND created_at>=?");
        lemma_condition(q.since is Some, " AND created_at>=?"@);
    }
    assert(placeholders(tail) == 1) by {
        reveal_strlit(" ORDER BY created_at DESC LIMIT ?");
        lemma_condition(true, " ORDER BY created_at DESC LIMIT ?"@);
    }
}

/// The columns of the table of audit entries, in the order in which the statements name
/// them.
pub open spec fn audit_columns() -> Seq<Seq<char>> {
    seq![
        "id"@,
        "user_id"@,
        "token_id"@,
        "server_alias"@,
        "session_id"@,
        "event"@,
        "command"@,
        "stdout"@,
        "stderr"@,
        "exit_code"@,
        "duration_ms"@,
        "error"@,
        "created_at"@,
    ]
}

/// Names one after the other, with commas in between.
pub open spec fn comma_list(names: Seq<Seq<char>>) -> Seq<char>
    decreases names.len(),
{
    if names.len() == 0 {
        Seq::empty()
    } else if names.len() == 1 {
        names[0]
    } else {
        comma_list(names.drop_last()) + ","@ + names.last()
    }
}

proof fn lemma_columns_differ()
    ensures
        audit_columns().no_duplicates(),
        audit_columns().len() == 13,
{
    reveal_strlit("id");
    reveal_strlit("user_id");
    reveal_strlit("token_id");
    reveal_strlit("server_alias");
    reveal_strlit("session_id");
    reveal_strlit("event");
    reveal_strlit("command");
    reveal_strlit("stdout");
    reveal_strlit("stderr");
    reveal_strlit("exit_code");
    reveal_strlit("duration_ms");
    reveal_strlit("error");
    reveal_strlit("created_at");
    let c = audit_columns();
    assert(c[0].len() == 2);
    assert(c[1].len() == 7);
    assert(c[2].len() == 8);
    assert(c[3].len() == 12);
    assert(c[4].len() == 10);
    assert(c[5].len() == 5);
    assert(c[6].len() == 7);
    assert(c[7].len() == 6);
    assert(c[8].len() == 6);
    assert(c[9].len() == 9);
    assert(c[10].len() == 11);
    assert(c[11].len() == 5);
    assert(c[12].len() == 10);
    assert(c[1][0] != c[6][0]);
    assert(c[4][0] != c[12][0]);
    assert(c[5][1] != c[11][1]);
    assert(c[7][3] != c[8][3]);
    assert forall|i: int, j: int| 0 <= i < c.len() && 0 <= j < c.len() && i != j implies c[i]
        != c[j] by {
        assert(c[i].len() == c[j].len() ==> (i == 1 || i == 4 || i == 5 || i == 6 || i == 7 || i
            == 8 || i == 11 || i == 12));
    }
}

/// Each value of a stored entry is bound at the place of the column that has its name.
pub proof fn law_columns_bind_their_fields(row: AuditRow, k: int)
    requires
        0 <= k < audit_columns().len(),
    ensures
        record_binds(row).len() == audit_columns().len(),
        audit_columns()[k] == "id"@ ==> record_binds(row)[k] == BindView::Text(row.id@),
        audit_columns()[k] == "user_id"@ ==> record_binds(row)[k] == BindView::Int(row.user_id),
        audit_columns()[k] == "token_id"@ ==> record_binds(row)[k] == BindView::Int(row.token_id),
        audit_columns()[k] == "server_alias"@ ==> record_binds(row)[k] == BindView::Text(row.server_alias@),
        audit_columns()[k] == "session_id"@ ==> record_binds(row)[k] == BindView::Text(row.session_id@),
        audit_columns()[k] == "event"@ ==> record_binds(row)[k] == BindView::Text(row.event@),
        audit_columns()[k] == "command"@ ==> (row.command matches Some(s) ==> record_binds(row)[k] == BindView::Text(s@)) && (row.command is None ==> record_binds(row)[k] == BindView::Null),
        audit_columns()[k] == "stdout"@ ==> (row.stdout matches Some(s) ==> record_binds(row)[k] == BindView::Text(s@)) && (row.stdout is None ==> record_binds(row)[k] == BindView::Null),
        audit_columns()[k] == "stderr"@ ==> (row.stderr matches Some(s) ==> record_binds(row)[k] == BindView::Text(s@)) && (row.stderr is None ==> record_binds(row)[k] == BindView::Null),
        audit_columns()[k] == "exit_code"@ ==> (row.exit_code matches Some(n) ==> record_binds(row)[k] == BindView::Int(n)) && (row.exit_code is None ==> record_binds(row)[k] == BindView::Null),
        audit_columns()[k] == "duration_ms"@ ==> (row.duration_ms matches Some(n) ==> record_binds(row)[k] == BindView::Int(n)) && (row.duration_ms is None ==> record_binds(row)[k] == BindView::Null),
        audit_columns()[k] == "error"@ ==> (row.error matches Some(s) ==> record_binds(row)[k] == BindView::Text(s@)) && (row.error is None ==> record_binds(row)[k] == BindView::Null),
        audit_columns()[k] == "created_at"@ ==> record_binds(row)[k] == BindView::Text(row.created_at@),
{
    lemma_columns_differ();
    let c = audit_columns();
    assert forall|i: int| 0 <= i < 13 && i != k implies #[trigger] c[i] != c[k] by {}
    assert(c[0] == "id"@);
    assert(c[1] == "user_id"@);
    assert(c[2] == "token_id"@);
    assert(c[3] == "server_alias"@);
    assert(c[4] == "session_id"@);
    assert(c[5] == "event"@);
    assert(c[6] == "command"@);
    assert(c[7] == "stdout"@);
    assert(c[8] == "stderr"@);
    assert(c[9] == "exit_code"@);
    assert(c[10] == "duration_ms"@);
    assert(c[11] == "error"@);
    assert(c[12] == "created_at"@);
}

/// What was stored is read back: a row that is read, column by column, from what was
/// bound at the places of the columns is the row that was stored, with every field in its
/// own place.
pub proof fn law_stored_rows_read_back(
    row: AuditRow,
    record: Map<Seq<char>, BindView>,
    back: AuditRow,
    now: Timestamp,
)
    requires
        forall|k: int|
            0 <= k < audit_columns().len() ==> record[#[trigger] audit_columns()[k]]
                == record_binds(row)[k],
        record["id"@] == BindView::Text(back.id@),
        record["user_id"@] == BindView::Int(back.user_id),
        record["token_id"@] == BindView::Int(back.token_id),
        record["server_alias"@] == BindView::Text(back.server_alias@),
        record["session_id"@] == BindView::Text(back.session_id@),
        record["event"@] == BindView::Text(back.event@),
        record["command"@] == stored_text(opt_text(back.command)),
        record["stdout"@] == stored_text(opt_text(back.stdout)),
        record["stderr"@] == stored_text(opt_text(back.stderr)),
        record["exit_code"@] == stored_int(back.exit_code),
        record["duration_ms"@] == stored_int(back.duration_ms),
        record["error"@] == stored_text(opt_text(back.error)),
        record["created_at"@] == BindView::Text(back.created_at@),
    ensures
        back.id@ == row.id@,
        back.user_id == row.user_id,
        back.token_id == row.token_id,
        back.server_alias@ == row.server_alias@,
        back.session_id@ == row.session_id@,
        back.event@ == row.event@,
        opt_text(back.command) == opt_text(row.command),
        opt_text(back.stdout) == opt_text(row.stdout),
        opt_text(back.stderr) == opt_text(row.stderr),
        back.exit_code == row.exit_code,
        back.duration_ms == row.duration_ms,
        opt_text(back.error) == opt_text(row.error),
        back.created_at@ == row.created_at@,
        back.entry_at(now) == row.entry_at(now),
{
    law_columns_bind_their_fields(row, 0);
    assert(record[audit_columns()[0]] == record_binds(row)[0]);
    law_columns_bind_their_fields(row, 1);
    assert(record[audit_columns()[1]] == record_binds(row)[1]);
    law_columns_bind_their_fields(row, 2);
    assert(record[audit_columns()[2]] == record_binds(row)[2]);
    law_columns_bind_their_fields(row, 3);
    assert(record[audit_columns()[3]] == record_binds(row)[3]);
    law_columns_bind_their_fields(row, 4);
    assert(record[audit_columns()[4]] == record_binds(row)[4]);
    law_columns_bind_their_fields(row, 5);
    assert(record[audit_columns()[5]] == record_binds(row)[5]);
    law_columns_bind_their_fields(row, 6);
    assert(record[audit_columns()[6]] == record_binds(row)[6]);
    law_columns_bind_their_fields(row, 7);
    assert(record[audit_columns()[7]] == record_binds(row)[7]);
    law_columns_bind_their_fields(row, 8);
    assert(record[audit_columns()[8]] == record_binds(row)[8]);
    law_columns_bind_their_fields(row, 9);
    assert(record[audit_columns()[9]] == record_binds(row)[9]);
    law_columns_bind_their_fields(row, 10);
    assert(record[audit_columns()[10]] == record_binds(row)[10]);
    law_columns_bind_their_fields(row, 11);
    assert(record[audit_columns()[11]] == record_binds(row)[11]);
    law_columns_bind_their_fields(row, 12);
    assert(record[audit_columns()[12]] == record_binds(row)[12]);
}

/// The columns, as the statements name them.
proof fn lemma_columns_listed()
    ensures
        comma_list(audit_columns()) == "id,user_id,token_id,server_alias,session_id,event,command,stdout,stderr,exit_code,duration_ms,error,created_at"@,
{
    reveal_with_fuel(comma_list, 14);
    reveal_strlit(",");
    reveal_strlit("id,user_id,token_id,server_alias,session_id,event,command,stdout,stderr,exit_code,duration_ms,error,created_at");
    reveal_strlit("id");
    reveal_strlit("user_id");
    reveal_strlit("token_id");
    reveal_strlit("server_alias");
    reveal_strlit("session_id");
    reveal_strlit("event");
    reveal_strlit("command");
    reveal_strlit("stdout");
    reveal_strlit("stderr");
    reveal_strlit("exit_code");
    reveal_strlit("duration_ms");
    reveal_strlit("error");
    reveal_strlit("created_at");
    let all = "id,user_id,token_id,server_alias,session_id,event,command,stdout,stderr,exit_code,duration_ms,error,created_at"@;
    let c = audit_columns();
    assert(all.subrange(0, 2) =~= c[0]);
    assert(comma_list(c.take(1)) =~= all.take(2));
    assert(all.subrange(3, 10) =~= c[1]);
    assert(c.take(2).drop_last() =~= c.take(1));
    assert(all.take(10) =~= all.take(2) + ","@ + all.subrange(3, 10));
    assert(comma_list(c.take(2)) == all.take(10));
    assert(all.subrange(11, 19) =~= c[2]);
    assert(c.take(3).drop_last() =~= c.take(2));
    assert(all.take(19) =~= all.take(10) + ","@ + all.subrange(11, 19));
    assert(comma_list(c.take(3)) == all.take(19));
    assert(all.subrange(20, 32) =~= c[3]);
    assert(c.take(4).drop_last() =~= c.take(3));
    assert(all.take(32) =~= all.take(19) + ","@ + all.subrange(20, 32));
    assert(comma_list(c.take(4)) == all.take(32));
    assert(all.subrange(33, 43) =~= c[4]);
    assert(c.take(5).drop_last() =~= c.take(4));
    assert(all.take(43) =~= all.take(32) + ","@ + all.subrange(33, 43));
    assert(comma_list(c.take(5)) == all.take(43));
    assert(all.subrange(44, 49) =~= c[5]);
    assert(c.take(6).drop_last() =~= c.take(5));
    assert(all.take(49) =~= all.take(43) + ","@ + all.subrange(44, 49));
    assert(comma_list(c.take(6)) == all.take(49));
    assert(all.subrange(50, 57) =~= c[6]);
    assert(c.take(7).drop_last() =~= c.take(6));
    assert(all.take(57) =~= all.take(49) + ","@ + all.subrange(50, 57));
    assert(comma_list(c.take(7)) == all.take(57));
    assert(all.subrange(58, 64) =~= c[7]);
    assert(c.take(8).drop_last() =~= c.take(7));
    assert(all.take(64) =~= all.take(57) + ","@ + all.subrange(58, 64));
    assert(comma_list(c.take(8)) == all.take(64));
    assert(all.subrange(65, 71) =~= c[8]);
    assert(c.take(9).drop_last() =~= c.take(8));
    assert(all.take(71) =~= all.take(64) + ","@ + all.subrange(65, 71));
    assert(comma_list(c.take(9)) == all.take(71));
    assert(all.subrange(72, 81) =~= c[9]);
    assert(c.take(10).drop_last() =~= c.take(9));
    assert(all.take(81) =~= all.take(71) + ","@ + all.subrange(72, 81));
    assert(comma_list(c.take(10)) == all.take(81));
    assert(all.subrange(82, 93) =~= c[10]);
    assert(c.take(11).drop_last() =~= c.take(10));
    assert(all.take(93) =~= all.take(81) + ","@ + all.subrange(82, 93));
    assert(comma_list(c.take(11)) == all.take(93));
    assert(all.subrange(94, 99) =~= c[11]);
    assert(c.take(12).drop_last() =~= c.take(11));
    assert(all.take(99) =~= all.take(93) + ","@ + all.subrange(94, 99));
    assert(comma_list(c.take(12)) == all.take(99));
    assert(all.subrange(100, 110) =~= c[12]);
    assert(c.take(13).drop_last() =~= c.take(12));
    assert(all.take(110) =~= all.take(99) + ","@ + all.subrange(100, 110));
    assert(comma_list(c.take(13)) == all.take(110));
    assert(c.take(13) =~= c);
    assert(all.take(110) =~= all);
}

/// Storing and reading name the same columns, in the same order.
pub proof fn law_statements_name_the_columns()
    ensures
        record_sql() == "INSERT INTO conduit_audit("@ + comma_list(audit_columns()) + ") VALUES(?,?,?,?,?,?,?,?,?,?,?,?,?)"@,
        audit_select() == "SELECT "@ + comma_list(audit_columns()) + " FROM conduit_audit WHERE 1=1"@,
{
    lemma_columns_listed();
    reveal_strlit("id,user_id,token_id,server_alias,session_id,event,command,stdout,stderr,exit_code,duration_ms,error,created_at");
    let names = "id,user_id,token_id,server_alias,session_id,event,command,stdout,stderr,exit_code,duration_ms,error,created_at"@;
    assert(record_sql() =~= "INSERT INTO conduit_audit("@ + names + ") VALUES(?,?,?,?,?,?,?,?,?,?,?,?,?)"@) by {
        reveal_strlit("INSERT INTO conduit_audit(id,user_id,token_id,server_alias,session_id,event,command,stdout,stderr,exit_code,duration_ms,error,created_at) VALUES(?,?,?,?,?,?,?,?,?,?,?,?,?)");
        reveal_strlit("INSERT INTO conduit_audit(");
        reveal_strlit(") VALUES(?,?,?,?,?,?,?,?,?,?,?,?,?)");
        let all = record_sql();
        assert(all.take(26) =~= "INSERT INTO conduit_audit("@);
        assert(all.subrange(26, 136) =~= names);
        assert(all.skip(136) =~= ") VALUES(?,?,?,?,?,?,?,?,?,?,?,?,?)"@);
        assert(all =~= all.take(26) + all.subrange(26, 136) + all.skip(136));
    }
    assert(audit_select() =~= "SELECT "@ + names + " FROM conduit_audit WHERE 1=1"@) by {
        reveal_strlit("SELECT id,user_id,token_id,server_alias,session_id,event,command,stdout,stderr,exit_code,duration_ms,error,created_at FROM conduit_audit WHERE 1=1");
        reveal_strlit("SELECT ");
        reveal_strlit(" FROM conduit_audit WHERE 1=1");
        let all = audit_select();
        assert(all.take(7) =~= "SELECT "@);
        assert(all.subrange(7, 117) =~= names);
        assert(all.skip(117) =~= " FROM conduit_audit WHERE 1=1"@);
        assert(all =~= all.take(7) + all.subrange(7, 117) + all.skip(117));
    }
}

/// A resolved server is the stored one: it has the alias, the host, the user name and the
/// jump host of the row, the kind of authentication that the row names, the port of the
/// row cut to sixteen bits, and the credentials that the row's blobs open to.
pub proof fn law_resolved_server_is_the_stored_one(
    key: Seq<u8>,
    alias: Seq<char>,
    row: ServerRow,
)
    requires
        resolution(key, alias, Ok(Some(row))) is Ok,
    ensures
        ({
            let server = resolution(key, alias, Ok(Some(row)))->Ok_0;
            &&& server.alias == row.alias@
            &&& server.host == row.host@
            &&& server.port == row.port as u16
            &&& 0 <= row.port <= 65_535 ==> server.port == row.port
            &&& server.username == row.username@
            &&& server.auth_kind == auth_kind_of(row.auth_kind@)
            &&& server.jump_host_alias is Some <==> row.jump_host_alias is Some
            &&& row.jump_host_alias matches Some(j) ==> server.jump_host_alias == Some(j@)
            &&& decrypted(key, row.secret_enc@) == Some(server.secret)
            &&& row.key_passphrase_enc is None <==> server.key_passphrase is None
            &&& row.key_passphrase_enc matches Some(b) ==> decrypted(key, b@)
                == server.key_passphrase
            &&& row.certificate_enc is None <==> server.certificate is None
            &&& row.certificate_enc matches Some(b) ==> decrypted(key, b@) == server.certificate
        }),
{
}

/// Two rows that differ in host, user name or jump host resolve to servers that differ in
/// the same.
pub proof fn law_stored_servers_are_told_apart(
    key: Seq<u8>,
    alias: Seq<char>,
    a: ServerRow,
    b: ServerRow,
)
    requires
        resolution(key, alias, Ok(Some(a))) is Ok,
        resolution(key, alias, Ok(Some(b))) is Ok,
    ensures
        a.host@ != b.host@ ==> resolution(key, alias, Ok(Some(a)))->Ok_0.host != resolution(
            key,
            alias,
            Ok(Some(b)),
        )->Ok_0.host,
        a.username@ != b.username@ ==> resolution(key, alias, Ok(Some(a)))->Ok_0.username
            != resolution(key, alias, Ok(Some(b)))->Ok_0.username,
        opt_text(a.jump_host_alias) != opt_text(b.jump_host_alias) ==> resolution(
            key,
            alias,
            Ok(Some(a)),
        )->Ok_0.jump_host_alias != resolution(key, alias, Ok(Some(b)))->Ok_0.jump_host_alias,
{
}

/// A server is resolved exactly where it is found and each of its credentials opens; the
/// first one that does not is what the error tells of. A lookup that failed is told as a
/// failure of the database.
pub proof fn law_resolution_fails_as_it_must(
    key: Seq<u8>,
    alias: Seq<char>,
    row: ServerRow,
    failure: String,
)
    ensures
        resolution(key, alias, Err(failure)) == Err::<ResolvedServerView, ErrorView>(
            ErrorView::Db(failure@),
        ),
        resolution(key, alias, Ok(None)) == Err::<ResolvedServerView, ErrorView>(
            ErrorView::NotFound("server "@ + alias + " (no permission or not found)"@),
        ),
        resolution(key, alias, Ok(Some(row))) is Ok <==> decrypted(key, row.secret_enc@) is Some
            && (row.key_passphrase_enc matches Some(b) ==> decrypted(key, b@) is Some) && (
        row.certificate_enc matches Some(b) ==> decrypted(key, b@) is Some),
        decrypted(key, row.secret_enc@) is None ==> resolution(key, alias, Ok(Some(row)))
            == Err::<ResolvedServerView, ErrorView>(decrypt_error(row.secret_enc@)),
        decrypted(key, row.secret_enc@) is Some ==> (row.key_passphrase_enc matches Some(b)
            ==> decrypted(key, b@) is None ==> resolution(key, alias, Ok(Some(row))) == Err::<
            ResolvedServerView,
            ErrorView,
        >(decrypt_error(b@))),
{
}

/// An identity is that of the row it was found in: the user, the role and the token of
/// that row, each in its own place.
pub proof fn law_identity_is_the_rows(row: McpTokenRow, legacy: LegacyTokenRow)
    ensures
        user_token_identity(row).user_id == row.user_id,
        user_token_identity(row).username == row.username@,
        user_token_identity(row).role == row.role@,
        user_token_identity(row).token_id == row.id,
        user_token_identity(row).token_label == row.label@,
        user_token_identity(row).token_kind == TokenKind::UserToken,
        legacy_identity(legacy).user_id == legacy.id,
        legacy_identity(legacy).username == legacy.username@,
        legacy_identity(legacy).role == legacy.role@,
        legacy_identity(legacy).token_id == 0,
        legacy_identity(legacy).token_label == "legacy"@,
        legacy_identity(legacy).token_kind == TokenKind::Legacy,
{
}

/// A presented token that is not empty identifies the row of the table of tokens where
/// there is one, else the row on the users where there is one, and is refused otherwise;
/// a failed lookup on the users is told as a failure of the database.
pub proof fn law_identity_follows_the_lookups(
    presented: Seq<char>,
    user_token: Result<Option<McpTokenRow>, String>,
    legacy: Result<Option<LegacyTokenRow>, String>,
)
    requires
        trimmed(presented).len() > 0,
    ensures
        user_token matches Ok(Some(row)) ==> {
            &&& identity_of(presented, user_token, legacy) is Ok
            &&& identity_of(presented, user_token, legacy)->Ok_0.user_id == row.user_id
            &&& identity_of(presented, user_token, legacy)->Ok_0.token_id == row.id
            &&& identity_of(presented, user_token, legacy)->Ok_0.role == row.role@
            &&& identity_of(presented, user_token, legacy)->Ok_0.username == row.username@
        },
        !(user_token is Ok && user_token->Ok_0 is Some) ==> {
            &&& legacy matches Ok(Some(row)) ==> {
                &&& identity_of(presented, user_token, legacy) is Ok
                &&& identity_of(presented, user_token, legacy)->Ok_0.user_id == row.id
                &&& identity_of(presented, user_token, legacy)->Ok_0.role == row.role@
                &&& identity_of(presented, user_token, legacy)->Ok_0.username == row.username@
            }
            &&& legacy matches Ok(None) ==> identity_of(presented, user_token, legacy) == Err::<
                AuthContextView,
                ErrorView,
            >(ErrorView::Unauthorized("invalid or revoked token"@))
            &&& legacy matches Err(m) ==> identity_of(presented, user_token, legacy) == Err::<
                AuthContextView,
                ErrorView,
            >(ErrorView::Db(m@))
        },
{
}

/// A token that was found goes on with its identity, and its use is put down under the
/// token's own number and the time of the lookup; one that was not is looked up on the
/// users.
pub proof fn law_found_tokens_are_used(
    found: Result<Option<McpTokenRow>, String>,
    now: Timestamp,
    step: TokenStep,
)
    requires
        looked_up(found, now, step),
    ensures
        step is Found <==> found is Ok && found->Ok_0 is Some,
        found matches Ok(Some(row)) ==> {
            &&& step->token_id == row.id
            &&& step->auth.user_id == row.user_id
            &&& step->auth.username@ == row.username@
            &&& step->auth.role@ == row.role@
            &&& step->auth.token_id == row.id
            &&& step->auth.token_label@ == row.label@
            &&& step->used_at@ == rfc3339_text(now.secs, now.nanos)
        },
{
}

/// An entry that is read from a row has in each place what the row has there.
pub proof fn law_entry_is_the_rows(row: AuditRow, now: Timestamp)
    ensures
        ({
            let e = row.entry_at(now);
            &&& e.id == row.id@
            &&& e.user_id == row.user_id
            &&& e.token_id == row.token_id
            &&& e.server_alias == row.server_alias@
            &&& e.session_id == row.session_id@
            &&& e.event == row.event@
            &&& e.command == opt_text(row.command)
            &&& e.stdout == opt_text(row.stdout)
            &&& e.stderr == opt_text(row.stderr)
            &&& e.exit_code == row.exit_code
            &&& e.duration_ms == row.duration_ms
            &&& e.error == opt_text(row.error)
            &&& rfc3339_point(row.created_at@) matches Some((secs, nanos)) ==> e.created_at == (
            Timestamp { secs, nanos })
            &&& rfc3339_point(row.created_at@) is None ==> e.created_at == now
        }),
{
}

/// A row that stores an entry has in each place what the entry has there.
pub proof fn law_row_is_the_entrys(row: AuditRow, entry: AuditEntryView)
    requires
        row.stores(entry),
    ensures
        row.id@ == entry.id,
        row.user_id == entry.user_id,
        row.token_id == entry.token_id,
        row.server_alias@ == entry.server_alias,
        row.session_id@ == entry.session_id,
        row.event@ == entry.event,
        opt_text(row.command) == entry.command,
        opt_text(row.stdout) == entry.stdout,
        opt_text(row.stderr) == entry.stderr,
        row.exit_code == entry.exit_code,
        row.duration_ms == entry.duration_ms,
        opt_text(row.error) == entry.error,
        row.created_at@ == rfc3339_text(entry.created_at.secs, entry.created_at.nanos),
{
}

/// Every event that is written comes back from the table as it was, with its output as
/// output and its error output as error output.
pub proof fn law_written_entries_come_back(
    entry: AuditEntryView,
    row: AuditRow,
    back: AuditRow,
    now: Timestamp,
)
    requires
        row.keeps(entry),
        record_binds(back) == record_binds(row),
    ensures
        back.entry_at(now) == entry,
{
    assert(record_binds(back)[0] == record_binds(row)[0]);
    assert(record_binds(back)[1] == record_binds(row)[1]);
    assert(record_binds(back)[2] == record_binds(row)[2]);
    assert(record_binds(back)[3] == record_binds(row)[3]);
    assert(record_binds(back)[4] == record_binds(row)[4]);
    assert(record_binds(back)[5] == record_binds(row)[5]);
    assert(record_binds(back)[6] == record_binds(row)[6]);
    assert(record_binds(back)[7] == record_binds(row)[7]);
    assert(record_binds(back)[8] == record_binds(row)[8]);
    assert(record_binds(back)[9] == record_binds(row)[9]);
    assert(record_binds(back)[10] == record_binds(row)[10]);
    assert(record_binds(back)[11] == record_binds(row)[11]);
    assert(record_binds(back)[12] == record_binds(row)[12]);
    assert(back.entry_at(now) == row.entry_at(now));
}

/// A filter of an audit query that is set adds its own condition and binds its own value,
/// the conditions and the values in the same order; the limit is bound last.
pub proof fn law_filters_bind_their_values(q: AuditQuery)
    ensures
        ({
            let u: int = if q.user_id is Some { 1 } else { 0 };
            let s: int = if q.server is Some { 1 } else { 0 };
            let i: int = if q.session_id is Some { 1 } else { 0 };
            let t: int = if q.since is Some { 1 } else { 0 };
            let binds = audit_binds(q);
            &&& binds.len() == u + s + i + t + 1
            &&& q.user_id matches Some(n) ==> binds[0] == BindView::Int(n)
            &&& q.server matches Some(a) ==> binds[u] == BindView::Text(a@)
            &&& q.session_id matches Some(id) ==> binds[u + s] == BindView::Text(id@)
            &&& q.since matches Some(at) ==> binds[u + s + i] == BindView::Text(
                rfc3339_text(at.secs, at.nanos),
            )
            &&& binds[u + s + i + t] == BindView::Int(q.limit)
        }),
        ({
            let none = Seq::<char>::empty();
            let by_user = if q.user_id is Some { " AND user_id=?"@ } else { none };
            let by_server = if q.server is Some { " AND server_alias=?"@ } else { none };
            let by_session = if q.session_id is Some { " AND session_id=?"@ } else { none };
            let by_time = if q.since is Some { " AND created_at>=?"@ } else { none };
            audit_sql(q) == audit_select() + by_user + by_server + by_session + by_time
                + " ORDER BY created_at DESC LIMIT ?"@
        }),
{
}

/// A value that is bound, taken as a value, is the one that was given.
pub proof fn law_binds_are_as_given(b: Bind, binds: Seq<Bind>, k: int)
    requires
        0 <= k < binds.len(),
    ensures
        b matches Bind::Int(n) ==> b@ == BindView::Int(n),
        b matches Bind::Text(s) ==> b@ == BindView::Text(s@),
        b is Null ==> b@ is Null,
        bind_views(binds).len() == binds.len(),
        bind_views(binds)[k] == binds[k]@,
{
}

/// A server is shown in the list under its own alias, with its own description and tags.
pub proof fn law_summary_is_the_rows(row: SummaryRow)
    ensures
        row.summary().alias == row.alias@,
        row.summary().description == opt_text(row.description),
        row.summary().tags == opt_text(row.tags),
{
}

/// The lookup of a server reads every column of it under the column's own name, of
/// servers that the user is permitted and that have the alias.
pub proof fn law_lookup_reads_the_servers_columns()
    ensures
        resolve_sql() == "SELECT "@ + "s.alias"@ + ", "@ + "s.host"@ + ", "@ + "s.port"@ + ", "@ + "s.username"@ + ", "@ + "s.auth_kind"@ + ", "@ + "s.secret_enc"@ + ", "@ + "s.key_passphrase_enc"@ + ", "@ + "s.certificate_enc"@ + ", "@ + "s.jump_host_alias"@ + " FROM servers s JOIN server_user_permissions p ON p.server_id = s.id WHERE p.user_id = ? AND s.alias = ? LIMIT 1"@,
{
    let all = resolve_sql();
    reveal_strlit("SELECT s.alias, s.host, s.port, s.username, s.auth_kind, s.secret_enc, s.key_passphrase_enc, s.certificate_enc, s.jump_host_alias FROM servers s JOIN server_user_permissions p ON p.server_id = s.id WHERE p.user_id = ? AND s.alias = ? LIMIT 1");
    reveal_strlit("SELECT ");
    reveal_strlit(", ");
    reveal_strlit(" FROM servers s JOIN server_user_permissions p ON p.server_id = s.id WHERE p.user_id = ? AND s.alias = ? LIMIT 1");
    reveal_strlit("s.alias");
    reveal_strlit("s.host");
    reveal_strlit("s.port");
    reveal_strlit("s.username");
    reveal_strlit("s.auth_kind");
    reveal_strlit("s.secret_enc");
    reveal_strlit("s.key_passphrase_enc");
    reveal_strlit("s.certificate_enc");
    reveal_strlit("s.jump_host_alias");
    assert(all.take(7) =~= "SELECT "@);
    assert(all.subrange(7, 14) =~= "s.alias"@);
    assert(all.take(14) =~= all.take(7) + all.subrange(7, 14));
    assert(all.subrange(14, 16) =~= ", "@);
    assert(all.take(16) =~= all.take(14) + all.subrange(14, 16));
    assert(all.subrange(16, 22) =~= "s.host"@);
    assert(all.take(22) =~= all.take(16) + all.subrange(16, 22));
    assert(all.subrange(22, 24) =~= ", "@);
    assert(all.take(24) =~= all.take(22) + all.subrange(22, 24));
    assert(all.subrange(24, 30) =~= "s.port"@);
    assert(all.take(30) =~= all.take(24) + all.subrange(24, 30));
    assert(all.subrange(30, 32) =~= ", "@);
    assert(all.take(32) =~= all.take(30) + all.subrange(30, 32));
    assert(all.subrange(32, 42) =~= "s.username"@);
    assert(all.take(42) =~= all.take(32) + all.subrange(32, 42));
    assert(all.subrange(42, 44) =~= ", "@);
    assert(all.take(44) =~= all.take(42) + all.subrange(42, 44));
    assert(all.subrange(44, 55) =~= "s.auth_kind"@);
    assert(all.take(55) =~= all.take(44) + all.subrange(44, 55));
    assert(all.subrange(55, 57) =~= ", "@);
    assert(all.take(57) =~= all.take(55) + all.subrange(55, 57));
    assert(all.subrange(57, 69) =~= "s.secret_enc"@);
    assert(all.take(69) =~= all.take(57) + all.subrange(57, 69));
    assert(all.subrange(69, 71) =~= ", "@);
    assert(all.take(71) =~= all.take(69) + all.subrange(69, 71));
    assert(all.subrange(71, 91) =~= "s.key_passphrase_enc"@);
    assert(all.take(91) =~= all.take(71) + all.subrange(71, 91));
    assert(all.subrange(91, 93) =~= ", "@);
    assert(all.take(93) =~= all.take(91) + all.subrange(91, 93));
    assert(all.subrange(93, 110) =~= "s.certificate_enc"@);
    assert(all.take(110) =~= all.take(93) + all.subrange(93, 110));
    assert(all.subrange(110, 112) =~= ", "@);
    assert(all.take(112) =~= all.take(110) + all.subrange(110, 112));
    assert(all.subrange(112, 129) =~= "s.jump_host_alias"@);
    assert(all.take(129) =~= all.take(112) + all.subrange(112, 129));
    assert(all.skip(129) =~= " FROM servers s JOIN server_user_permissions p ON p.server_id = s.id WHERE p.user_id = ? AND s.alias = ? LIMIT 1"@);
    assert(all =~= all.take(129) + all.skip(129));
}

/// Whether the entries are those of the rows, in their order.
pub open spec fn are_entries_of(entries: Seq<AuditEntry>, rows: Seq<AuditRow>) -> bool {
    &&& entries.len() == rows.len()
    &&& forall|i: int|
        0 <= i < rows.len() ==> (#[trigger] entries[i])@ == rows[i].entry_at(entries[i].created_at)
}

/// The entries that a query gives are those of the rows that the database gave, one for
/// each, in their order, with every field in its own place.
pub proof fn law_entries_are_the_rows(entries: Seq<AuditEntry>, rows: Seq<AuditRow>, i: int)
    requires
        are_entries_of(entries, rows),
        0 <= i < rows.len(),
    ensures
        entries.len() == rows.len(),
        entries[i].id@ == rows[i].id@,
        entries[i].user_id == rows[i].user_id,
        entries[i].token_id == rows[i].token_id,
        entries[i].server_alias@ == rows[i].server_alias@,
        entries[i].session_id@ == rows[i].session_id@,
        entries[i].event@ == rows[i].event@,
        opt_text(entries[i].command) == opt_text(rows[i].command),
        opt_text(entries[i].stdout) == opt_text(rows[i].stdout),
        opt_text(entries[i].stderr) == opt_text(rows[i].stderr),
        entries[i].exit_code == rows[i].exit_code,
        entries[i].duration_ms == rows[i].duration_ms,
        opt_text(entries[i].error) == opt_text(rows[i].error),
{
    assert(entries[i]@ == rows[i].entry_at(entries[i].created_at));
}

/// Whether the summaries are those of the rows, in their order.
pub open spec fn are_summaries_of(all: Seq<ServerSummary>, rows: Seq<SummaryRow>) -> bool {
    &&& all.len() == rows.len()
    &&& forall|i: int| 0 <= i < rows.len() ==> (#[trigger] all[i])@ == rows[i].summary()
}

/// A user is listed every server that the lookup gave, in its order, each under its own
/// alias and with its own description and tags.
pub proof fn law_summaries_are_the_rows(all: Seq<ServerSummary>, rows: Seq<SummaryRow>, i: int)
    requires
        are_summaries_of(all, rows),
        0 <= i < rows.len(),
    ensures
        all.len() == rows.len(),
        all[i].alias@ == rows[i].alias@,
        opt_text(all[i].description) == opt_text(rows[i].description),
        opt_text(all[i].tags) == opt_text(rows[i].tags),
{
    assert(all[i]@ == rows[i].summary());
}

/// Whether a token is looked up under the hash.
pub open spec fn is_lookup_hash(hash: Seq<char>, presented: Seq<char>) -> bool {
    hash == token_hash(presented)
}

/// A token is looked up under the digest of its own bytes, in hexadecimal, without the
/// white space around it: two presentations that differ in that alone are the same.
pub proof fn law_token_is_looked_up_by_its_digest(
    hash: Seq<char>,
    other_hash: Seq<char>,
    presented: Seq<char>,
    other: Seq<char>,
)
    requires
        is_lookup_hash(hash, presented),
        is_lookup_hash(other_hash, other),
    ensures
        hash == hex_text(sha256(vstd::utf8::encode_utf8(trimmed(presented)))),
        trimmed(presented) == trimmed(other) ==> hash == other_hash,
{
}

} // verus!
