//! The parameters and the results of the MCP tools.

use vstd::prelude::*;

use crate::session::{DirEntry, ExecOutputView};

verus! {

#[derive(Debug)]
pub struct OpenChannelParams {
    /// Server alias as registered by the operator (use list_servers to discover).
    pub server: String,
}

#[derive(Debug)]
pub struct ExecParams {
    /// Session id returned by open_channel.
    pub session_id: String,
    /// Shell command to execute on the remote host.
    pub command: String,
    /// Per-command timeout in seconds (default 60, max 600).
    pub timeout_secs: Option<u64>,
}

#[derive(Debug)]
pub struct CloseChannelParams {
    pub session_id: String,
}

#[derive(Debug)]
pub struct SftpListParams {
    pub session_id: String,
    /// Absolute remote directory path.
    pub path: String,
}

#[derive(Debug)]
pub struct SftpDownloadParams {
    pub session_id: String,
    /// Absolute remote file path.
    pub path: String,
    /// Maximum bytes to read (default 1048576, capped by the configured limit).
    pub max_bytes: Option<u64>,
}

#[derive(Debug)]
pub struct SftpUploadParams {
    pub session_id: String,
    /// Absolute remote file path; an existing file is truncated.
    pub path: String,
    /// Base64-encoded file content.
    pub content_base64: String,
    /// Handle of an upload staged out of band, whose bytes are taken instead of
    /// `content_base64`.
    pub upload_handle: Option<String>,
}

#[derive(Debug)]
pub struct ExecStartParams {
    /// Session id returned by open_channel.
    pub session_id: String,
    /// Long-running command to start in the background.
    pub command: String,
    /// Max wall-clock seconds before the job is auto-stopped (default 1800, max
    /// 86400).
    pub max_runtime_secs: Option<u64>,
}

#[derive(Debug)]
pub struct ExecPollParams {
    /// Job id returned by exec_start.
    pub job_id: String,
    /// Resume reading stdout from this absolute offset (default 0).
    pub stdout_offset: Option<u64>,
    /// Resume reading stderr from this absolute offset (default 0).
    pub stderr_offset: Option<u64>,
}

#[derive(Debug)]
pub struct ExecStopParams {
    /// Job id returned by exec_start.
    pub job_id: String,
}

#[derive(Debug)]
pub struct ExecStartOutput {
    pub job_id: String,
    pub session_id: String,
    pub started_at: String,
}

#[derive(Debug)]
pub struct ExecPollOutput {
    pub stdout: String,
    pub stderr: String,
    /// Pass this back as stdout_offset on the next poll.
    pub stdout_offset: u64,
    /// Pass this back as stderr_offset on the next poll.
    pub stderr_offset: u64,
    /// True if stdout output was dropped before this offset.
    pub stdout_gap: bool,
    pub stderr_gap: bool,
    /// True while the command is still running.
    pub running: bool,
    pub exit_code: Option<i32>,
}

#[derive(Debug)]
pub struct ExecStopOutput {
    pub stopped: bool,
}

#[derive(Debug)]
pub struct ServerEntry {
    pub alias: String,
    pub description: Option<String>,
    pub tags: Option<String>,
}

#[derive(Debug)]
pub struct ListServersOutput {
    pub servers: Vec<ServerEntry>,
}

#[derive(Debug)]
pub struct OpenChannelOutput {
    pub session_id: String,
    pub server: String,
    pub opened_at: String,
    pub hop_path: Vec<String>,
}

#[derive(Debug)]
pub struct ExecOutput {
    pub stdout: String,
    pub stderr: String,
    pub exit_code: i32,
    pub duration_ms: i64,
    pub truncated: bool,
}

impl View for ExecOutput {
    type V = ExecOutputView;

    open spec fn view(&self) -> ExecOutputView {
        ExecOutputView {
            stdout: self.stdout@,
            stderr: self.stderr@,
            exit_code: self.exit_code,
            duration_ms: self.duration_ms,
            truncated: self.truncated,
        }
    }
}

#[derive(Debug)]
pub struct CloseOutput {
    pub closed: bool,
}

#[derive(Debug)]
pub struct SftpListOutput {
    pub entries: Vec<DirEntry>,
}

#[derive(Debug)]
pub struct SftpDownloadOutput {
    pub content_base64: String,
    pub size: usize,
    pub truncated: bool,
}

#[derive(Debug)]
pub struct SftpUploadOutput {
    pub bytes_written: usize,
}

/// The answer to a one-shot command, taken as a value, has in each place what it holds
/// there.
pub proof fn law_answer_is_of_its_fields(o: ExecOutput)
    ensures
        o@.stdout == o.stdout@,
        o@.stderr == o.stderr@,
        o@.exit_code == o.exit_code,
        o@.duration_ms == o.duration_ms,
        o@.truncated == o.truncated,
{
}

} // verus!
