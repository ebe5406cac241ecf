//! What passes through the pluggable seams around the engine.

use vstd::prelude::*;

use crate::models::AuthContext;

verus! {

/// Which call produced the output being filtered.
#[derive(Clone, Copy, Debug, PartialEq, Eq, Structural)]
pub enum OutputStream {
    /// A one-shot `exec` result: complete stdout/stderr plus a final exit code.
    Exec,
    /// One incremental chunk from polling a background job (`exec_poll`). The
    /// filter is invoked once per poll, so a transform that could straddle a
    /// chunk boundary is not guaranteed to match.
    PollChunk,
}

/// Who and what produced the output that a filter is given.
pub struct OutputContext<'a> {
    pub auth: &'a AuthContext,
    pub server_alias: &'a str,
    /// The command that produced this output.
    pub command: &'a str,
    pub stream: OutputStream,
}

/// The captured output that a filter may rewrite before the caller receives it.
pub struct CapturedOutput {
    pub stdout: String,
    pub stderr: String,
    /// Final exit code: `Some` for a completed `exec`, `None` for a poll chunk
    /// of a still-running job. A filter may override it.
    pub exit_code: Option<i32>,
}

/// A [`CapturedOutput`] as a value.
pub struct CapturedOutputView {
    pub stdout: Seq<char>,
    pub stderr: Seq<char>,
    pub exit_code: Option<i32>,
}

impl View for CapturedOutput {
    type V = CapturedOutputView;

    open spec fn view(&self) -> CapturedOutputView {
        CapturedOutputView {
            stdout: self.stdout@,
            stderr: self.stderr@,
            exit_code: self.exit_code,
        }
    }
}

/// Captured output, taken as a value, has in each place what it holds there.
pub proof fn law_output_is_of_its_fields(c: CapturedOutput)
    ensures
        c@.stdout == c.stdout@,
        c@.stderr == c.stderr@,
        c@.exit_code == c.exit_code,
{
}

} // verus!
