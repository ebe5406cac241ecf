//! The records that the ports exchange. None of the records that reach a caller
//! holds a credential: only [`ResolvedServer`] does, and it stays inside.

use vstd::prelude::*;

use crate::clock::Timestamp;
use crate::text::{ascii_lower, opt_bytes, opt_text};

verus! {

#[derive(Debug, Clone, Copy, PartialEq, Eq, Structural)]
pub enum AuthKind {
    Password,
    Key,
    /// Private key authenticated with a CA-signed OpenSSH certificate
    /// (`*-cert.pub`). The private key lives in `secret`, the certificate
    /// text in `certificate`.
    Cert,
}

/// The kind of authentication that a stored name stands for. Case does not
/// matter, and every unknown name means a password.
pub open spec fn auth_kind_of(name: Seq<char>) -> AuthKind {
    if ascii_lower(name) == ascii_lower("cert"@) {
        AuthKind::Cert
    } else if ascii_lower(name) == ascii_lower("key"@) {
        AuthKind::Key
    } else {
        AuthKind::Password
    }
}

impl AuthKind {
    pub fn from_str_loose(s: &str) -> (r: Self)
        ensures
            r == auth_kind_of(s@),
    {
        if s.eq_ignore_ascii_case("cert") {
            AuthKind::Cert
        } else if s.eq_ignore_ascii_case("key") {
            AuthKind::Key
        } else {
            AuthKind::Password
        }
    }
}

#[derive(Debug, Clone, Copy, PartialEq, Eq, Structural)]
pub enum TokenKind {
    /// Per-user record in an `mcp_tokens`-style table.
    UserToken,
    /// Legacy single token attached to the user row.
    Legacy,
}

/// Identity resolved from a presented MCP token. Carries no credentials, only
/// who the caller is.
#[derive(Debug)]
pub struct AuthContext {
    pub user_id: i64,
    pub username: String,
    pub role: String,
    pub token_id: i64,
    pub token_label: String,
    pub token_kind: TokenKind,
}

/// An [`AuthContext`] as a value.
pub struct AuthContextView {
    pub user_id: i64,
    pub username: Seq<char>,
    pub role: Seq<char>,
    pub token_id: i64,
    pub token_label: Seq<char>,
    pub token_kind: TokenKind,
}

impl View for AuthContext {
    type V = AuthContextView;

    open spec fn view(&self) -> AuthContextView {
        AuthContextView {
            user_id: self.user_id,
            username: self.username@,
            role: self.role@,
            token_id: self.token_id,
            token_label: self.token_label@,
            token_kind: self.token_kind,
        }
    }
}

impl Clone for AuthContext {
    fn clone(&self) -> (r: Self)
        ensures
            r == *self,
    {
        AuthContext {
            user_id: self.user_id,
            username: self.username.clone(),
            role: self.role.clone(),
            token_id: self.token_id,
            token_label: self.token_label.clone(),
            token_kind: self.token_kind,
        }
    }
}

/// Metadata-only view of a server the caller may access. Never includes secrets.
#[derive(Debug)]
pub struct ServerSummary {
    pub alias: String,
    pub description: Option<String>,
    pub tags: Option<String>,
}

/// A [`ServerSummary`] as a value.
pub struct ServerSummaryView {
    pub alias: Seq<char>,
    pub description: Option<Seq<char>>,
    pub tags: Option<Seq<char>>,
}

impl View for ServerSummary {
    type V = ServerSummaryView;

    open spec fn view(&self) -> ServerSummaryView {
        ServerSummaryView {
            alias: self.alias@,
            description: opt_text(self.description),
            tags: opt_text(self.tags),
        }
    }
}

impl Clone for ServerSummary {
    fn clone(&self) -> (r: Self)
        ensures
            r@ == self@,
    {
        ServerSummary {
            alias: self.alias.clone(),
            description: self.description.clone(),
            tags: self.tags.clone(),
        }
    }
}

/// Fully resolved, decrypted connection details for one hop. Key management is
/// the concern of the catalog that produced it.
#[derive(Debug)]
pub struct ResolvedServer {
    pub alias: String,
    pub host: String,
    pub port: u16,
    pub username: String,
    pub auth_kind: AuthKind,
    /// Password bytes (Password) or OpenSSH private key PEM bytes (Key, Cert).
    pub secret: Vec<u8>,
    /// Decrypted passphrase for an encrypted private key, if any.
    pub key_passphrase: Option<Vec<u8>>,
    /// CA-signed OpenSSH certificate text (`*-cert.pub` contents) for
    /// [`AuthKind::Cert`]. `None` for password/plain-key auth.
    pub certificate: Option<Vec<u8>>,
    /// Alias of the jump host to traverse before this hop, if any.
    pub jump_host_alias: Option<String>,
}

/// A [`ResolvedServer`] as a value.
pub struct ResolvedServerView {
    pub alias: Seq<char>,
    pub host: Seq<char>,
    pub port: u16,
    pub username: Seq<char>,
    pub auth_kind: AuthKind,
    pub secret: Seq<u8>,
    pub key_passphrase: Option<Seq<u8>>,
    pub certificate: Option<Seq<u8>>,
    pub jump_host_alias: Option<Seq<char>>,
}

impl View for ResolvedServer {
    type V = ResolvedServerView;

    open spec fn view(&self) -> ResolvedServerView {
        ResolvedServerView {
            alias: self.alias@,
            host: self.host@,
            port: self.port,
            username: self.username@,
            auth_kind: self.auth_kind,
            secret: self.secret@,
            key_passphrase: opt_bytes(self.key_passphrase),
            certificate: opt_bytes(self.certificate),
            jump_host_alias: opt_text(self.jump_host_alias),
        }
    }
}

impl Clone for ResolvedServer {
    fn clone(&self) -> (r: Self)
        ensures
            r@ == self@,
    {
        ResolvedServer {
            alias: self.alias.clone(),
            host: self.host.clone(),
            port: self.port,
            username: self.username.clone(),
            auth_kind: self.auth_kind,
            secret: self.secret.clone(),
            key_passphrase: self.key_passphrase.clone(),
            certificate: self.certificate.clone(),
            jump_host_alias: self.jump_host_alias.clone(),
        }
    }
}

#[derive(Debug)]
pub struct AuditEntry {
    pub id: String,
    pub user_id: i64,
    pub token_id: i64,
    pub server_alias: String,
    pub session_id: String,
    pub event: String,
    pub command: Option<String>,
    pub stdout: Option<String>,
    pub stderr: Option<String>,
    pub exit_code: Option<i64>,
    pub duration_ms: Option<i64>,
    pub error: Option<String>,
    pub created_at: Timestamp,
}

/// An [`AuditEntry`] as a value.
pub struct AuditEntryView {
    pub id: Seq<char>,
    pub user_id: i64,
    pub token_id: i64,
    pub server_alias: Seq<char>,
    pub session_id: Seq<char>,
    pub event: Seq<char>,
    pub command: Option<Seq<char>>,
    pub stdout: Option<Seq<char>>,
    pub stderr: Option<Seq<char>>,
    pub exit_code: Option<i64>,
    pub duration_ms: Option<i64>,
    pub error: Option<Seq<char>>,
    pub created_at: Timestamp,
}

impl View for AuditEntry {
    type V = AuditEntryView;

    open spec fn view(&self) -> AuditEntryView {
        AuditEntryView {
            id: self.id@,
            user_id: self.user_id,
            token_id: self.token_id,
            server_alias: self.server_alias@,
            session_id: self.session_id@,
            event: self.event@,
            command: opt_text(self.command),
            stdout: opt_text(self.stdout),
            stderr: opt_text(self.stderr),
            exit_code: self.exit_code,
            duration_ms: self.duration_ms,
            error: opt_text(self.error),
            created_at: self.created_at,
        }
    }
}

impl Clone for AuditEntry {
    fn clone(&self) -> (r: Self)
        ensures
            r@ == self@,
    {
        AuditEntry {
            id: self.id.clone(),
            user_id: self.user_id,
            token_id: self.token_id,
            server_alias: self.server_alias.clone(),
            session_id: self.session_id.clone(),
            event: self.event.clone(),
            command: self.command.clone(),
            stdout: self.stdout.clone(),
            stderr: self.stderr.clone(),
            exit_code: self.exit_code,
            duration_ms: self.duration_ms,
            error: self.error.clone(),
            created_at: self.created_at,
        }
    }
}

/// Filter of an audit query.
#[derive(Debug)]
pub struct AuditQuery {
    pub user_id: Option<i64>,
    pub server: Option<String>,
    pub session_id: Option<String>,
    pub since: Option<Timestamp>,
    pub limit: i64,
}

impl Clone for AuditQuery {
    fn clone(&self) -> (r: Self)
        ensures
            r == *self,
    {
        AuditQuery {
            user_id: self.user_id,
            server: self.server.clone(),
            session_id: self.session_id.clone(),
            since: self.since,
            limit: self.limit,
        }
    }
}

impl Default for AuditQuery {
    fn default() -> (r: Self)
        ensures
            r.user_id is None,
            r.server is None,
            r.session_id is None,
            r.since is None,
            r.limit == 0,
    {
        AuditQuery { user_id: None, server: None, session_id: None, since: None, limit: 0 }
    }
}

/// The stored name of a kind of authentication is read without regard to case.
pub proof fn law_auth_kind_ignores_case(a: Seq<char>, b: Seq<char>)
    requires
        ascii_lower(a) == ascii_lower(b),
    ensures
        auth_kind_of(a) == auth_kind_of(b),
{
}

/// A stored name stands for a certificate or a key where it says so, in any case of
/// letters, and for a password otherwise.
pub proof fn law_auth_kind_is_as_named(name: Seq<char>)
    ensures
        auth_kind_of(name) == AuthKind::Cert <==> ascii_lower(name) == ascii_lower("cert"@),
        auth_kind_of(name) == AuthKind::Key <==> ascii_lower(name) == ascii_lower("key"@),
        ascii_lower(name) != ascii_lower("cert"@) && ascii_lower(name) != ascii_lower("key"@)
            ==> auth_kind_of(name) == AuthKind::Password,
{
    reveal_strlit("cert");
    reveal_strlit("key");
    assert(ascii_lower("cert"@).len() == 4);
    assert(ascii_lower("key"@).len() == 3);
}

/// A server, taken as a value, has in each place what it holds there.
pub proof fn law_server_is_of_its_fields(s: ResolvedServer)
    ensures
        s@.alias == s.alias@,
        s@.host == s.host@,
        s@.port == s.port,
        s@.username == s.username@,
        s@.auth_kind == s.auth_kind,
        s@.secret == s.secret@,
        s@.key_passphrase == opt_bytes(s.key_passphrase),
        s@.certificate == opt_bytes(s.certificate),
        s@.jump_host_alias == opt_text(s.jump_host_alias),
{
}

/// An audit entry, taken as a value, has in each place what it holds there.
pub proof fn law_entry_is_of_its_fields(e: AuditEntry)
    ensures
        e@.id == e.id@,
        e@.user_id == e.user_id,
        e@.token_id == e.token_id,
        e@.server_alias == e.server_alias@,
        e@.session_id == e.session_id@,
        e@.event == e.event@,
        e@.command == opt_text(e.command),
        e@.stdout == opt_text(e.stdout),
        e@.stderr == opt_text(e.stderr),
        e@.exit_code == e.exit_code,
        e@.duration_ms == e.duration_ms,
        e@.error == opt_text(e.error),
        e@.created_at == e.created_at,
{
}

/// An identity and a summary, taken as values, have in each place what they hold there.
pub proof fn law_identity_is_of_its_fields(a: AuthContext, s: ServerSummary)
    ensures
        a@.user_id == a.user_id,
        a@.username == a.username@,
        a@.role == a.role@,
        a@.token_id == a.token_id,
        a@.token_label == a.token_label@,
        a@.token_kind == a.token_kind,
        s@.alias == s.alias@,
        s@.description == opt_text(s.description),
        s@.tags == opt_text(s.tags),
{
}

} // verus!
