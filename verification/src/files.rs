//! Moving files: `sftp_list`, `sftp_download` and `sftp_upload`.

use base64::engine::general_purpose::STANDARD;
use base64::Engine;
use vstd::prelude::*;
use vstd::string::*;

use crate::audit::{log, no_detail, records, AuditCtx, AuditCtxView, AuditDetail, AuditDetailView};
use crate::error::Error;
use crate::ingest::{held_after_take, live_at, taken, Staged};
use crate::models::{AuditEntry, AuthContext};
use crate::params::{
    SftpDownloadOutput, SftpDownloadParams, SftpListOutput, SftpListParams, SftpUploadOutput,
    SftpUploadParams,
};
use crate::session::DirEntry;
use crate::state::{touched, AppState};
use crate::text::join2;
use crate::tools::{internal, invalid, session_ctx, ConduitHandler, ToolError, ToolErrorView};

verus! {

/// What `STANDARD.encode` of base64 gives for the bytes.
pub uninterp spec fn base64_text(bytes: Seq<u8>) -> Seq<char>;

/// What `STANDARD.decode` of base64 gives for the text: the bytes, or the text of
/// the error.
pub uninterp spec fn base64_bytes(text: Seq<char>) -> Result<Seq<u8>, Seq<char>>;

/// The length of the base64 form of so many bytes.
pub open spec fn base64_len(n: int) -> int {
    (n + 2) / 3 * 4
}

/// Bytes or the text of an error, as a value.
pub open spec fn bytes_result(r: Result<Vec<u8>, String>) -> Result<Seq<u8>, Seq<char>> {
    match r {
        Ok(b) => Ok(b@),
        Err(m) => Err(m@),
    }
}

/// Whether a text decodes to the bytes.
pub open spec fn stands_for(text: Seq<char>, bytes: Seq<u8>) -> bool {
    base64_bytes(text) == Ok::<Seq<u8>, Seq<char>>(bytes)
}

/// `STANDARD.encode` of base64: the bytes as base64 with padding. The same
/// engine's `decode` gives the bytes back. The result has to fit in a string.
#[verifier::external_body]
fn base64_encode(bytes: &[u8]) -> (r: String)
    requires
        base64_len(bytes@.len() as int) <= isize::MAX,
    ensures
        r@ == base64_text(bytes@),
        stands_for(r@, bytes@),
{
    STANDARD.encode(bytes)
}

/// `STANDARD.decode` of base64: the bytes that the text stands for, or the text of
/// the error.
#[verifier::external_body]
fn base64_decode(text: &str) -> (r: Result<Vec<u8>, String>)
    ensures
        bytes_result(r) == base64_bytes(text@),
{
    STANDARD.decode(text.as_bytes()).map_err(|e| e.to_string())
}

/// How many bytes a download reads when the caller does not say.
pub const DEFAULT_DOWNLOAD_BYTES: u64 = 1_048_576;

/// The cap that applies to a download.
pub open spec fn download_cap(max_bytes: Option<u64>, max_download_bytes: usize) -> int {
    let wanted: int = match max_bytes {
        Some(n) => n as int,
        None => DEFAULT_DOWNLOAD_BYTES as int,
    };
    if wanted < max_download_bytes {
        wanted
    } else {
        max_download_bytes as int
    }
}

/// A directory that a caller asks for.
pub struct ListCall {
    pub ctx: AuditCtx,
    pub path: String,
}

/// A file that a caller asks for, and how much of it at most.
pub struct DownloadCall {
    pub ctx: AuditCtx,
    pub path: String,
    pub cap: usize,
}

/// Where the bytes of an upload come from.
pub enum UploadSource {
    /// The call itself.
    Bytes(Vec<u8>),
    /// An upload that was staged before.
    Staged(Staged),
}

/// A file that a caller wants written.
pub struct UploadCall {
    pub ctx: AuditCtx,
    pub path: String,
    pub source: UploadSource,
}

/// What a transfer is put on record as: a verb and the path.
pub open spec fn transfer(verb: Seq<char>, path: Seq<char>) -> AuditDetailView {
    AuditDetailView { command: Some(verb + path), ..no_detail() }
}

/// A transfer of so many bytes.
pub open spec fn sized_transfer(verb: Seq<char>, path: Seq<char>, size: i64) -> AuditDetailView {
    AuditDetailView { duration_ms: Some(size), ..transfer(verb, path) }
}

/// A transfer that failed.
pub open spec fn failed_transfer(
    verb: Seq<char>,
    path: Seq<char>,
    error: Seq<char>,
) -> AuditDetailView {
    AuditDetailView { error: Some(error), ..transfer(verb, path) }
}

/// Whether a transfer that failed was put on record, and is answered with the
/// error.
pub open spec fn failed_as(
    error: ToolErrorView,
    entry: AuditEntry,
    ctx: AuditCtxView,
    event: Seq<char>,
    verb: Seq<char>,
    path: Seq<char>,
    message: Seq<char>,
) -> bool {
    &&& error == internal(message)
    &&& records(entry@, ctx, event, failed_transfer(verb, path, message))
}

/// What a failed transfer comes to.
fn transfer_failed(ctx: &AuditCtx, event: &str, verb: &str, path: &str, error: Error) -> (r: (
    AuditEntry,
    ToolError,
))
    ensures
        failed_as(r.1@, r.0, ctx@, event@, verb@, path@, error@.message()),
{
    let message = error.to_string();
    let mut detail = AuditDetail::of_command(join2(verb, path));
    detail.error = Some(message.clone());
    (log(ctx, event, detail), ToolError::internal_error(message))
}

/// The outcome of `sftp_list`: what is put on record, and the answer.
pub struct ListDone {
    pub entry: AuditEntry,
    pub result: Result<SftpListOutput, ToolError>,
}

/// The outcome of `sftp_download`: what is put on record, and the answer.
pub struct DownloadDone {
    pub entry: AuditEntry,
    pub result: Result<SftpDownloadOutput, ToolError>,
}

/// The outcome of `sftp_upload`: what is put on record, and the answer.
pub struct UploadDone {
    pub entry: AuditEntry,
    pub result: Result<SftpUploadOutput, ToolError>,
}

/// The bytes that an upload carries in its call, given what decoding them gave.
pub fn upload_content(decoded: Result<Vec<u8>, String>) -> (r: Result<Vec<u8>, ToolError>)
    ensures
        match (decoded, r) {
            (Ok(b), Ok(content)) => content@ == b@,
            (Err(m), Err(e)) => e@ == invalid("base64 decode: "@ + m@),
            _ => false,
        },
{
    match decoded {
        Ok(b) => Ok(b),
        Err(m) => Err(ToolError::invalid_request(join2("base64 decode: ", m.as_str()))),
    }
}

impl ConduitHandler {
    /// List entries of a remote directory via SFTP: finds the session.
    pub fn sftp_list(&self, auth: &AuthContext, params: &SftpListParams) -> (r: Result<
        ListCall,
        ToolError,
    >)
        requires
            self.state.wf(),
        ensures
            match (r, session_ctx(self.state.sessions@, params.session_id@, auth@)) {
                (Ok(call), Ok(v)) => call.ctx@ == v && call.path@ == params.path@,
                (Err(e), Err(v)) => e@ == v,
                _ => false,
            },
            r matches Ok(call) ==> is_path_asked(call.path, params.path),
    {
        match self.ctx_for(params.session_id.as_str(), auth) {
            Ok(ctx) => Ok(ListCall { ctx, path: params.path.clone() }),
            Err(e) => Err(e),
        }
    }

    /// Takes in the entries of a directory, or the failure to read it.
    pub fn sftp_listed(&mut self, call: &ListCall, outcome: Result<Vec<DirEntry>, Error>) -> (r:
        ListDone)
        requires
            old(self).state.wf(),
        ensures
            final(self).state.wf(),
            match (outcome, r.result) {
                (Ok(entries), Ok(out)) => {
                    &&& out.entries == entries
                    &&& records(
                        r.entry@,
                        call.ctx@,
                        "sftp_list"@,
                        transfer("LIST "@, call.path@),
                    )
                    &&& touched(old(self).state, call.ctx.session_id@, final(self).state)
                },
                (Err(v), Err(e)) => {
                    &&& *final(self) == *old(self)
                    &&& failed_as(
                        e@,
                        r.entry,
                        call.ctx@,
                        "sftp_list_error"@,
                        "LIST "@,
                        call.path@,
                        v@.message(),
                    )
                },
                _ => false,
            },
            is_list_of(r, *call, outcome),
    {
        match outcome {
            Ok(entries) => {
                self.state.touch_session(call.ctx.session_id.as_str());
                let detail = AuditDetail::of_command(join2("LIST ", call.path.as_str()));
                ListDone {
                    entry: log(&call.ctx, "sftp_list", detail),
                    result: Ok(SftpListOutput { entries }),
                }
            },
            Err(e) => {
                let (entry, error) = transfer_failed(
                    &call.ctx,
                    "sftp_list_error",
                    "LIST ",
                    call.path.as_str(),
                    e,
                );
                ListDone { entry, result: Err(error) }
            },
        }
    }

    /// Download a remote file via SFTP: finds the session, and works out how much
    /// may be read.
    pub fn sftp_download(&self, auth: &AuthContext, params: &SftpDownloadParams) -> (r: Result<
        DownloadCall,
        ToolError,
    >)
        requires
            self.state.wf(),
        ensures
            match (r, session_ctx(self.state.sessions@, params.session_id@, auth@)) {
                (Ok(call), Ok(v)) => {
                    &&& call.ctx@ == v
                    &&& call.path@ == params.path@
                    &&& call.cap == download_cap(params.max_bytes, self.state.max_download_bytes)
                },
                (Err(e), Err(v)) => e@ == v,
                _ => false,
            },
            r matches Ok(call) ==> is_path_asked(call.path, params.path),
    {
        match self.ctx_for(params.session_id.as_str(), auth) {
            Ok(ctx) => {
                let wanted: u64 = params.max_bytes.unwrap_or(DEFAULT_DOWNLOAD_BYTES);
                let cap: usize = if wanted < self.state.max_download_bytes as u64 {
                    wanted as usize
                } else {
                    self.state.max_download_bytes
                };
                Ok(DownloadCall { ctx, path: params.path.clone(), cap })
            },
            Err(e) => Err(e),
        }
    }

    /// Takes in what was read of a file and whether it goes on, or the failure to
    /// read it. The bytes are answered as base64, which an upload takes back as it
    /// is.
    pub fn sftp_downloaded(
        &mut self,
        call: &DownloadCall,
        outcome: Result<(Vec<u8>, bool), Error>,
    ) -> (r: DownloadDone)
        requires
            old(self).state.wf(),
            outcome matches Ok(read) ==> base64_len(read.0@.len() as int) <= isize::MAX,
        ensures
            final(self).state.wf(),
            match (outcome, r.result) {
                (Ok(read), Ok(out)) => {
                    &&& out.content_base64@ == base64_text(read.0@)
                    &&& stands_for(out.content_base64@, read.0@)
                    &&& out.size == read.0@.len()
                    &&& out.truncated == read.1
                    &&& records(
                        r.entry@,
                        call.ctx@,
                        "sftp_download"@,
                        sized_transfer("GET "@, call.path@, read.0@.len() as i64),
                    )
                    &&& touched(old(self).state, call.ctx.session_id@, final(self).state)
                },
                (Err(v), Err(e)) => {
                    &&& *final(self) == *old(self)
                    &&& failed_as(
                        e@,
                        r.entry,
                        call.ctx@,
                        "sftp_download_error"@,
                        "GET "@,
                        call.path@,
                        v@.message(),
                    )
                },
                _ => false,
            },
            is_download_of(r, *call, outcome),
    {
        match outcome {
            Ok((buf, truncated)) => {
                self.state.touch_session(call.ctx.session_id.as_str());
                let size: usize = buf.len();
                let mut detail = AuditDetail::of_command(join2("GET ", call.path.as_str()));
                detail.duration_ms = Some(#[verifier::truncate] (size as i64));
                DownloadDone {
                    entry: log(&call.ctx, "sftp_download", detail),
                    result: Ok(
                        SftpDownloadOutput {
                            content_base64: base64_encode(buf.as_slice()),
                            size,
                            truncated,
                        },
                    ),
                }
            },
            Err(e) => {
                let (entry, error) = transfer_failed(
                    &call.ctx,
                    "sftp_download_error",
                    "GET ",
                    call.path.as_str(),
                    e,
                );
                DownloadDone { entry, result: Err(error) }
            },
        }
    }

    /// Upload a file via SFTP: finds the session and the bytes to write, which a
    /// staged upload holds, or else the call itself as base64. A staged upload is
    /// consumed.
    pub fn sftp_upload(&mut self, auth: &AuthContext, params: &SftpUploadParams) -> (r: Result<
        UploadCall,
        ToolError,
    >)
        requires
            old(self).state.wf(),
        ensures
            final(self).state.wf(),
            match session_ctx(old(self).state.sessions@, params.session_id@, auth@) {
                Err(v) => *final(self) == *old(self) && (r matches Err(e) && e@ == v),
                Ok(ctx) => match params.upload_handle {
                    None => {
                        &&& *final(self) == *old(self)
                        &&& match (r, base64_bytes(params.content_base64@)) {
                            (Ok(call), Ok(bytes)) => {
                                &&& call.ctx@ == ctx
                                &&& call.path@ == params.path@
                                &&& call.source matches UploadSource::Bytes(b)
                                &&& b@ == bytes
                            },
                            (Err(e), Err(m)) => e@ == invalid("base64 decode: "@ + m),
                            _ => false,
                        }
                    },
                    Some(handle) => {
                        let before = old(self).state.ingest;
                        let now = final(self).state.ingest.reading();
                        &&& final(self).state == (AppState {
                            ingest: final(self).state.ingest,
                            ..old(self).state
                        })
                        &&& final(self).state.ingest.same_store(&old(self).state.ingest)
                        &&& before.reading() <= now
                        &&& final(self).state.ingest.held() == held_after_take(
                            before.held(),
                            before.ttl_secs(),
                            now,
                            handle@,
                            auth.user_id,
                        )
                        &&& match (r, taken(
                            live_at(before.held(), before.ttl_secs(), now),
                            handle@,
                            auth.user_id,
                        )) {
                            (Ok(call), Ok(staged)) => {
                                &&& call.ctx@ == ctx
                                &&& call.path@ == params.path@
                                &&& call.source == UploadSource::Staged(staged)
                            },
                            (Err(e), Err(x)) => e@ == invalid(x.answer()),
                            _ => false,
                        }
                    },
                },
            },
            r matches Ok(call) ==> is_path_asked(call.path, params.path) && is_source_asked(
                call.source,
                *params,
                auth.user_id,
            ) && is_from_store(call.source, *params, old(self).state.ingest.held()),
    {
        let ctx = match self.ctx_for(params.session_id.as_str(), auth) {
            Ok(ctx) => ctx,
            Err(e) => {
                return Err(e);
            },
        };
        let source = match &params.upload_handle {
            Some(handle) => match self.state.ingest.take(handle.as_str(), auth.user_id) {
                Ok(staged) => UploadSource::Staged(staged),
                Err(e) => {
                    return Err(ToolError::invalid_request(e.to_answer()));
                },
            },
            None => match upload_content(base64_decode(params.content_base64.as_str())) {
                Ok(bytes) => UploadSource::Bytes(bytes),
                Err(e) => {
                    return Err(e);
                },
            },
        };
        Ok(UploadCall { ctx, path: params.path.clone(), source })
    }

    /// Takes in how many bytes were written to a file, or the failure to write it.
    pub fn sftp_uploaded(&mut self, call: &UploadCall, outcome: Result<usize, Error>) -> (r:
        UploadDone)
        requires
            old(self).state.wf(),
        ensures
            final(self).state.wf(),
            match (outcome, r.result) {
                (Ok(n), Ok(out)) => {
                    &&& out.bytes_written == n
                    &&& records(
                        r.entry@,
                        call.ctx@,
                        "sftp_upload"@,
                        sized_transfer("PUT "@, call.path@, n as i64),
                    )
                    &&& touched(old(self).state, call.ctx.session_id@, final(self).state)
                },
                (Err(v), Err(e)) => {
                    &&& *final(self) == *old(self)
                    &&& failed_as(
                        e@,
                        r.entry,
                        call.ctx@,
                        "sftp_upload_error"@,
                        "PUT "@,
                        call.path@,
                        v@.message(),
                    )
                },
                _ => false,
            },
            is_upload_of(r, *call, outcome),
    {
        match outcome {
            Ok(n) => {
                self.state.touch_session(call.ctx.session_id.as_str());
                let mut detail = AuditDetail::of_command(join2("PUT ", call.path.as_str()));
                detail.duration_ms = Some(#[verifier::truncate] (n as i64));
                UploadDone {
                    entry: log(&call.ctx, "sftp_upload", detail),
                    result: Ok(SftpUploadOutput { bytes_written: n }),
                }
            },
            Err(e) => {
                let (entry, error) = transfer_failed(
                    &call.ctx,
                    "sftp_upload_error",
                    "PUT ",
                    call.path.as_str(),
                    e,
                );
                UploadDone { entry, result: Err(error) }
            },
        }
    }
}

/// A download never reads more than the configured limit, nor more than the
/// caller asked for; without a wish and under the default limit it reads up to
/// one megabyte.
pub proof fn law_download_is_capped(max_bytes: Option<u64>, max_download_bytes: usize)
    ensures
        0 <= download_cap(max_bytes, max_download_bytes) <= max_download_bytes,
        max_bytes matches Some(n) ==> download_cap(max_bytes, max_download_bytes) <= n,
        download_cap(None, crate::state::DEFAULT_MAX_DOWNLOAD_BYTES) == DEFAULT_DOWNLOAD_BYTES,
{
}

/// A download reads as many bytes as the caller asked for, or a megabyte where it did not
/// say, unless the configured limit is lower; then it reads up to that.
pub proof fn law_download_reads_what_was_asked(max_bytes: Option<u64>, max_download_bytes: usize)
    ensures
        max_bytes matches Some(n) ==> (n <= max_download_bytes ==> download_cap(
            max_bytes,
            max_download_bytes,
        ) == n) && (n > max_download_bytes ==> download_cap(max_bytes, max_download_bytes)
            == max_download_bytes),
        max_bytes is None ==> download_cap(max_bytes, max_download_bytes) == if max_download_bytes
            < 1_048_576 {
            max_download_bytes as int
        } else {
            1_048_576
        },
{
}

/// A transfer is put on record with what was done and the path; its size stands where a
/// command has its duration, and a failure has its error.
pub proof fn law_transfers_are_recorded(
    verb: Seq<char>,
    path: Seq<char>,
    size: i64,
    error: Seq<char>,
)
    ensures
        transfer(verb, path).command == Some(verb + path),
        transfer(verb, path).duration_ms is None,
        transfer(verb, path).error is None,
        transfer(verb, path).stdout is None,
        transfer(verb, path).stderr is None,
        transfer(verb, path).exit_code is None,
        sized_transfer(verb, path, size).command == Some(verb + path),
        sized_transfer(verb, path, size).duration_ms == Some(size),
        sized_transfer(verb, path, size).error is None,
        sized_transfer(verb, path, size).stdout is None,
        sized_transfer(verb, path, size).stderr is None,
        sized_transfer(verb, path, size).exit_code is None,
        failed_transfer(verb, path, error).command == Some(verb + path),
        failed_transfer(verb, path, error).error == Some(error),
        failed_transfer(verb, path, error).duration_ms is None,
        failed_transfer(verb, path, error).stdout is None,
        failed_transfer(verb, path, error).stderr is None,
{
}

/// A transfer that failed is answered with the failure, as one that is not the caller's,
/// and the same failure is put on record with what was tried and by whom.
pub proof fn law_failed_transfers_are_told(
    error: ToolErrorView,
    entry: AuditEntry,
    ctx: AuditCtxView,
    event: Seq<char>,
    verb: Seq<char>,
    path: Seq<char>,
    message: Seq<char>,
)
    requires
        failed_as(error, entry, ctx, event, verb, path, message),
    ensures
        error.message == message,
        error.kind == crate::tools::ToolErrorKind::Internal,
        entry.event@ == event,
        crate::text::opt_text(entry.command) == Some(verb + path),
        crate::text::opt_text(entry.error) == Some(message),
        entry.user_id == ctx.user_id,
        entry.token_id == ctx.token_id,
        entry.server_alias@ == ctx.server_alias,
        entry.session_id@ == ctx.session_id,
{
}

/// What is read out of a text that stands for some bytes is those bytes: a download that
/// is sent back as an upload writes the same bytes.
pub proof fn law_downloads_can_be_sent_back(text: Seq<char>, bytes: Seq<u8>)
    requires
        stands_for(text, bytes),
    ensures
        base64_bytes(text) is Ok,
        base64_bytes(text)->Ok_0 == bytes,
{
}

/// Whether a path is the one that was asked for.
pub open spec fn is_path_asked(path: String, asked: String) -> bool {
    path@ == asked@
}

/// Whether the bytes of an upload come from where the caller says: from a staged upload
/// of its own where it names a handle, and from the call itself otherwise.
pub open spec fn is_source_asked(
    source: UploadSource,
    params: SftpUploadParams,
    user_id: i64,
) -> bool {
    match source {
        UploadSource::Bytes(b) => params.upload_handle is None && stands_for(
            params.content_base64@,
            b@,
        ),
        UploadSource::Staged(staged) => params.upload_handle is Some && staged.user_id == user_id,
    }
}

/// A transfer is of the very path that was asked for. What an upload writes is what the
/// text of the call stands for, or a staged upload of the caller's own where a handle is
/// named.
pub proof fn law_transfer_is_as_asked(
    path: String,
    source: UploadSource,
    params: SftpUploadParams,
    user_id: i64,
)
    requires
        is_path_asked(path, params.path),
        is_source_asked(source, params, user_id),
    ensures
        path@ == params.path@,
        params.upload_handle is Some <==> source is Staged,
        params.upload_handle is None <==> source is Bytes,
        source matches UploadSource::Bytes(b) ==> base64_bytes(params.content_base64@) == Ok::<
            Seq<u8>,
            Seq<char>,
        >(b@),
        source matches UploadSource::Staged(staged) ==> staged.user_id == user_id,
{
}

/// Whether a listing is answered and put on record as it should be.
pub open spec fn is_list_of(
    done: ListDone,
    call: ListCall,
    outcome: Result<Vec<DirEntry>, Error>,
) -> bool {
    match (outcome, done.result) {
        (Ok(entries), Ok(out)) => {
            &&& out.entries == entries
            &&& records(done.entry@, call.ctx@, "sftp_list"@, transfer("LIST "@, call.path@))
        },
        (Err(v), Err(e)) => failed_as(
            e@,
            done.entry,
            call.ctx@,
            "sftp_list_error"@,
            "LIST "@,
            call.path@,
            v@.message(),
        ),
        _ => false,
    }
}

/// Whether a download is answered and put on record as it should be.
pub open spec fn is_download_of(
    done: DownloadDone,
    call: DownloadCall,
    outcome: Result<(Vec<u8>, bool), Error>,
) -> bool {
    match (outcome, done.result) {
        (Ok(read), Ok(out)) => {
            &&& stands_for(out.content_base64@, read.0@)
            &&& out.size == read.0@.len()
            &&& out.truncated == read.1
            &&& records(
                done.entry@,
                call.ctx@,
                "sftp_download"@,
                sized_transfer("GET "@, call.path@, read.0@.len() as i64),
            )
        },
        (Err(v), Err(e)) => failed_as(
            e@,
            done.entry,
            call.ctx@,
            "sftp_download_error"@,
            "GET "@,
            call.path@,
            v@.message(),
        ),
        _ => false,
    }
}

/// Whether an upload is answered and put on record as it should be.
pub open spec fn is_upload_of(
    done: UploadDone,
    call: UploadCall,
    outcome: Result<usize, Error>,
) -> bool {
    match (outcome, done.result) {
        (Ok(n), Ok(out)) => {
            &&& out.bytes_written == n
            &&& records(
                done.entry@,
                call.ctx@,
                "sftp_upload"@,
                sized_transfer("PUT "@, call.path@, n as i64),
            )
        },
        (Err(v), Err(e)) => failed_as(
            e@,
            done.entry,
            call.ctx@,
            "sftp_upload_error"@,
            "PUT "@,
            call.path@,
            v@.message(),
        ),
        _ => false,
    }
}

/// A caller is told the entries of a directory as they were read, in their order; the
/// listing stands on record with its path, put down to the caller.
pub proof fn law_list_is_answered(
    done: ListDone,
    call: ListCall,
    outcome: Result<Vec<DirEntry>, Error>,
)
    requires
        is_list_of(done, call, outcome),
    ensures
        done.result is Ok <==> outcome is Ok,
        outcome matches Ok(entries) ==> done.result->Ok_0.entries@ == entries@ && done.entry.event@
            == "sftp_list"@,
        crate::text::opt_text(done.entry.command) == Some("LIST "@ + call.path@),
        done.entry.user_id == call.ctx.user_id,
        done.entry.token_id == call.ctx.token_id,
        done.entry.session_id@ == call.ctx.session_id@,
        done.entry.server_alias@ == call.ctx.server_alias@,
        outcome matches Err(v) ==> done.result->Err_0.message@ == v@.message()
            && crate::text::opt_text(done.entry.error) == Some(v@.message()) && done.entry.event@
            == "sftp_list_error"@,
{
}

/// A caller is told a file as base64 that stands for the very bytes that were read, how
/// many they are, and whether the file goes on; the download stands on record with its
/// path and size, put down to the caller.
pub proof fn law_download_is_answered(
    done: DownloadDone,
    call: DownloadCall,
    outcome: Result<(Vec<u8>, bool), Error>,
)
    requires
        is_download_of(done, call, outcome),
    ensures
        done.result is Ok <==> outcome is Ok,
        outcome matches Ok(read) ==> {
            &&& base64_bytes(done.result->Ok_0.content_base64@) == Ok::<Seq<u8>, Seq<char>>(
                read.0@,
            )
            &&& done.result->Ok_0.size == read.0@.len()
            &&& done.result->Ok_0.truncated <==> read.1
            &&& done.entry.event@ == "sftp_download"@
            &&& done.entry.duration_ms == Some(read.0@.len() as i64)
        },
        crate::text::opt_text(done.entry.command) == Some("GET "@ + call.path@),
        done.entry.user_id == call.ctx.user_id,
        done.entry.token_id == call.ctx.token_id,
        done.entry.session_id@ == call.ctx.session_id@,
        done.entry.server_alias@ == call.ctx.server_alias@,
        outcome matches Err(v) ==> done.result->Err_0.message@ == v@.message()
            && crate::text::opt_text(done.entry.error) == Some(v@.message()) && done.entry.event@
            == "sftp_download_error"@,
{
}

/// A caller is told how many bytes were written; the upload stands on record with its
/// path and size, put down to the caller.
pub proof fn law_upload_is_answered(
    done: UploadDone,
    call: UploadCall,
    outcome: Result<usize, Error>,
)
    requires
        is_upload_of(done, call, outcome),
    ensures
        done.result is Ok <==> outcome is Ok,
        outcome matches Ok(n) ==> done.result->Ok_0.bytes_written == n && done.entry.event@
            == "sftp_upload"@ && done.entry.duration_ms == Some(n as i64),
        crate::text::opt_text(done.entry.command) == Some("PUT "@ + call.path@),
        done.entry.user_id == call.ctx.user_id,
        done.entry.token_id == call.ctx.token_id,
        done.entry.session_id@ == call.ctx.session_id@,
        done.entry.server_alias@ == call.ctx.server_alias@,
        outcome matches Err(v) ==> done.result->Err_0.message@ == v@.message()
            && crate::text::opt_text(done.entry.error) == Some(v@.message()) && done.entry.event@
            == "sftp_upload_error"@,
{
}

/// Whether a staged upload is the one that is held under the handle.
pub open spec fn is_from_store(
    source: UploadSource,
    params: SftpUploadParams,
    held: Map<Seq<char>, Staged>,
) -> bool {
    match (source, params.upload_handle) {
        (UploadSource::Staged(staged), Some(handle)) => held.contains_key(handle@) && staged
            == held[handle@],
        (UploadSource::Bytes(_), None) => true,
        _ => false,
    }
}

/// An upload by handle writes the very upload that was staged under that handle.
pub proof fn law_handle_names_its_upload(
    source: UploadSource,
    params: SftpUploadParams,
    held: Map<Seq<char>, Staged>,
)
    requires
        is_from_store(source, params, held),
    ensures
        params.upload_handle matches Some(handle) ==> {
            &&& held.contains_key(handle@)
            &&& source is Staged
            &&& source->Staged_0.path@ == held[handle@].path@
            &&& source->Staged_0.size == held[handle@].size
        },
        params.upload_handle is None ==> source is Bytes,
{
}

} // verus!
