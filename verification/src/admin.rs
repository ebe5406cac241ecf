//! How audit entries are shown to the operator.

use vstd::prelude::*;
use vstd::string::*;
use vstd::utf8::*;

use crate::clock::{calendar_text, to_calendar};
use crate::models::{AuditEntry, AuditEntryView};
use crate::text::{
    decimal_form, indent, indented, join2, line_list, owned, signed_decimal,
};

verus! {

/// How many bytes of a command are shown.
pub const SHOWN_COMMAND_BYTES: usize = 80;

/// A command as it is shown: the first bytes of a long one, and an ellipsis.
pub open spec fn shown_command(command: Seq<char>) -> Seq<char> {
    let bytes = encode_utf8(command);
    if bytes.len() > SHOWN_COMMAND_BYTES {
        decode_utf8(bytes.take(SHOWN_COMMAND_BYTES as int)) + "…"@
    } else {
        command
    }
}

/// Whether a command can be shown: the cut through a long one must not split a
/// character.
pub open spec fn can_show(command: Seq<char>) -> bool {
    let bytes = encode_utf8(command);
    bytes.len() > SHOWN_COMMAND_BYTES ==> is_char_boundary(bytes, SHOWN_COMMAND_BYTES as int)
}

/// Says whether a command can be shown.
pub fn is_showable(command: &str) -> (r: bool)
    ensures
        r == can_show(command@),
{
    let bytes = command.as_bytes();
    bytes.len() <= SHOWN_COMMAND_BYTES || command.is_char_boundary(SHOWN_COMMAND_BYTES)
}

/// Shortens a command for display.
pub fn shorten(command: &str) -> (r: String)
    requires
        can_show(command@),
    ensures
        r@ == shown_command(command@),
{
    let bytes = command.as_bytes();
    if bytes.len() > SHOWN_COMMAND_BYTES {
        let (head, tail) = command.split_at(SHOWN_COMMAND_BYTES);
        proof {
            encode_utf8_decode_utf8(head@);
            assert(head.spec_bytes() =~= encode_utf8(command@).take(SHOWN_COMMAND_BYTES as int));
        }
        join2(head, "…")
    } else {
        owned(command)
    }
}

/// A number that may be missing, as it is shown.
pub open spec fn shown_option(n: Option<i64>) -> Seq<char> {
    match n {
        Some(v) => "Some("@ + decimal_form(v as int) + ")"@,
        None => "None"@,
    }
}

/// Shows a number that may be missing.
fn show_option(n: Option<i64>) -> (r: String)
    ensures
        r@ == shown_option(n),
{
    match n {
        Some(v) => {
            let mut text = owned("Some(");
            text.append(signed_decimal(v).as_str());
            text.append(")");
            text
        },
        None => owned("None"),
    }
}

/// The command of an entry; empty where it has none.
pub open spec fn command_of(entry: AuditEntryView) -> Seq<char> {
    match entry.command {
        Some(c) => c,
        None => Seq::empty(),
    }
}

/// The line that an entry is shown in, given its time as text.
pub open spec fn timed_line(time: Seq<char>, entry: AuditEntryView) -> Seq<char> {
    time + "\t"@ + entry.event
        + "\tuser="@ + decimal_form(entry.user_id as int) + "\t"@ + entry.server_alias + "\t"@
        + entry.session_id + "\tec="@ + shown_option(entry.exit_code) + "\tdur="@ + shown_option(
        entry.duration_ms,
    ) + "ms\t"@ + shown_command(command_of(entry))
}

/// The line that an entry is shown in.
pub open spec fn entry_line_of(entry: AuditEntryView) -> Seq<char> {
    timed_line(calendar_text(entry.created_at.secs, entry.created_at.nanos), entry)
}

/// Shows an entry in a line.
pub fn entry_line(entry: &AuditEntry) -> (r: String)
    requires
        entry.created_at.valid(),
        can_show(command_of(entry@)),
    ensures
        r@ == entry_line_of(entry@),
{
    entry_line_at(to_calendar(entry.created_at), entry)
}

/// Shows an entry in a line, given its time as text.
pub fn entry_line_at(time: String, entry: &AuditEntry) -> (r: String)
    requires
        can_show(command_of(entry@)),
    ensures
        r@ == timed_line(time@, entry@),
{
    let empty = String::new();
    assert(empty@ =~= Seq::<char>::empty());
    let command: &String = match &entry.command {
        Some(c) => c,
        None => &empty,
    };
    let mut text = time;
    text.append("\t");
    text.append(entry.event.as_str());
    text.append("\tuser=");
    text.append(signed_decimal(entry.user_id).as_str());
    text.append("\t");
    text.append(entry.server_alias.as_str());
    text.append("\t");
    text.append(entry.session_id.as_str());
    text.append("\tec=");
    text.append(show_option(entry.exit_code).as_str());
    text.append("\tdur=");
    text.append(show_option(entry.duration_ms).as_str());
    text.append("ms\t");
    text.append(shorten(command.as_str()).as_str());
    text
}

/// An output stream as it is shown under its entry: nothing where there is no
/// output.
pub open spec fn stream_block_of(name: Seq<char>, body: Option<Seq<char>>) -> Option<Seq<char>> {
    match body {
        Some(s) => if s.len() > 0 {
            Some("  "@ + name + ":\n"@ + indented(line_list(s), "    "@))
        } else {
            None
        },
        None => None,
    }
}

/// Shows an output stream under its entry.
pub fn stream_block(name: &str, body: &Option<String>) -> (r: Option<String>)
    ensures
        crate::text::opt_text(r) == stream_block_of(name@, crate::text::opt_text(*body)),
{
    match body {
        Some(s) => {
            if s.as_str().unicode_len() > 0 {
                let mut text = owned("  ");
                text.append(name);
                text.append(":\n");
                text.append(indent(s.as_str(), "    ").as_str());
                Some(text)
            } else {
                None
            }
        },
        None => None,
    }
}

/// An error as it is shown under its entry.
pub fn error_line(error: &str) -> (r: String)
    ensures
        r@ == "  error: "@ + error@,
{
    join2("  error: ", error)
}

/// Everything that is shown of an entry, line by line or block by block.
pub open spec fn shown_blocks(entry: AuditEntryView, full: bool) -> Seq<Seq<char>> {
    let head = seq![entry_line_of(entry)];
    if !full {
        head
    } else {
        head + opt_block(stream_block_of("stdout"@, entry.stdout)) + opt_block(
            stream_block_of("stderr"@, entry.stderr),
        ) + opt_block(
            match entry.error {
                Some(e) => Some("  error: "@ + e),
                None => None,
            },
        )
    }
}

/// A block that may be missing.
pub open spec fn opt_block(block: Option<Seq<char>>) -> Seq<Seq<char>> {
    match block {
        Some(b) => seq![b],
        None => Seq::empty(),
    }
}

/// Shows an entry; `full` adds its output and its error.
pub fn show_entry(entry: &AuditEntry, full: bool) -> (r: Vec<String>)
    requires
        entry.created_at.valid(),
        can_show(command_of(entry@)),
    ensures
        crate::text::texts(r@) == shown_blocks(entry@, full),
{
    let mut out: Vec<String> = Vec::new();
    out.push(entry_line(entry));
    if full {
        if let Some(block) = stream_block("stdout", &entry.stdout) {
            out.push(block);
        }
        if let Some(block) = stream_block("stderr", &entry.stderr) {
            out.push(block);
        }
        if let Some(e) = &entry.error {
            out.push(error_line(e.as_str()));
        }
    }
    assert(crate::text::texts(out@) =~= shown_blocks(entry@, full));
    out
}

/// A command of at most eighty bytes is shown as it is.
pub proof fn law_short_commands_are_shown_whole(command: Seq<char>)
    requires
        encode_utf8(command).len() <= SHOWN_COMMAND_BYTES,
    ensures
        can_show(command),
        shown_command(command) == command,
{
}

/// A command of more than eighty bytes is shown with its first eighty and an ellipsis.
pub proof fn law_long_commands_are_cut(command: Seq<char>)
    requires
        encode_utf8(command).len() > 80,
    ensures
        shown_command(command) == decode_utf8(encode_utf8(command).take(80)) + "…"@,
        can_show(command) <==> is_char_boundary(encode_utf8(command), 80),
{
}

/// The line of an entry shows when it was, what it was, who did it, on which server and
/// session, the exit code, the duration and the command, in this order.
pub proof fn law_line_shows_the_entry(time: Seq<char>, entry: AuditEntryView)
    ensures
        timed_line(time, entry) == time + "\t"@ + entry.event + "\tuser="@ + decimal_form(
            entry.user_id as int,
        ) + "\t"@ + entry.server_alias + "\t"@ + entry.session_id + "\tec="@ + (
        match entry.exit_code {
            Some(c) => "Some("@ + decimal_form(c as int) + ")"@,
            None => "None"@,
        }) + "\tdur="@ + (match entry.duration_ms {
            Some(d) => "Some("@ + decimal_form(d as int) + ")"@,
            None => "None"@,
        }) + "ms\t"@ + shown_command(
            match entry.command {
                Some(c) => c,
                None => Seq::empty(),
            },
        ),
        entry_line_of(entry) == timed_line(
            calendar_text(entry.created_at.secs, entry.created_at.nanos),
            entry,
        ),
{
}

/// Under its line an entry shows its output as output, its error output as error output
/// and its error, in this order, each where it has one, and only where all is asked for.
pub proof fn law_full_entry_shows_its_streams(entry: AuditEntryView)
    ensures
        shown_blocks(entry, false) == seq![entry_line_of(entry)],
        shown_blocks(entry, true)[0] == entry_line_of(entry),
        ({
            let out: int = if entry.stdout is Some && entry.stdout->0.len() > 0 { 1 } else { 0 };
            let err: int = if entry.stderr is Some && entry.stderr->0.len() > 0 { 1 } else { 0 };
            let failed: int = if entry.error is Some { 1 } else { 0 };
            let shown = shown_blocks(entry, true);
            &&& shown.len() == 1 + out + err + failed
            &&& out == 1 ==> shown[1] == "  "@ + "stdout"@ + ":\n"@ + indented(
                line_list(entry.stdout->0),
                "    "@,
            )
            &&& err == 1 ==> shown[1 + out] == "  "@ + "stderr"@ + ":\n"@ + indented(
                line_list(entry.stderr->0),
                "    "@,
            )
            &&& failed == 1 ==> shown[1 + out + err] == "  error: "@ + entry.error->0
        }),
{
}

} // verus!
