//! The default command policy: a blacklist of destructive commands.

use regex::RegexSet;
use vstd::prelude::*;
use vstd::string::*;

use crate::error::{Error, ErrorView};
use crate::models::AuthContext;
use crate::text::{
    decimal, decimal_digits, join2, line_list, lines, owned, texts, trim, trimmed,
};

verus! {

/// `regex::RegexSet`: compiled patterns, opaque but for what [`patterns_of`] says
/// they were compiled from.
#[verifier::external_type_specification]
#[verifier::external_body]
pub struct ExRegexSet(RegexSet);

/// The patterns that a set holds, in the order in which it was given them.
pub uninterp spec fn patterns_of(set: RegexSet) -> Seq<Seq<char>>;

/// Whether the regular expression matches somewhere in the text.
pub uninterp spec fn pattern_matches(pattern: Seq<char>, text: Seq<char>) -> bool;

/// The text of the error that `RegexSet::new` gives for the patterns; nothing
/// where they compile.
pub uninterp spec fn set_error_text(patterns: Seq<Seq<char>>) -> Option<Seq<char>>;

/// `RegexSet::new`: the set of the patterns, in their order, or the text of the
/// error where they do not compile.
#[verifier::external_body]
fn compile(patterns: &Vec<String>) -> (r: Result<RegexSet, String>)
    ensures
        r is Ok <==> set_error_text(texts(patterns@)) is None,
        r matches Ok(set) ==> patterns_of(set) == texts(patterns@),
        r matches Err(m) ==> set_error_text(texts(patterns@)) == Some(m@),
{
    RegexSet::new(patterns).map_err(|e| e.to_string())
}

/// `RegexSet::clone`: a set of the same patterns.
#[verifier::external_body]
fn set_clone(set: &RegexSet) -> (r: RegexSet)
    ensures
        patterns_of(r) == patterns_of(*set),
{
    set.clone()
}

/// `RegexSet::matches`: the indices of the patterns that match somewhere in the
/// text, in ascending order.
#[verifier::external_body]
fn matching(set: &RegexSet, text: &str) -> (r: Vec<usize>)
    ensures
        forall|i: int, j: int| 0 <= i < j < r@.len() ==> r@[i] < r@[j],
        forall|i: int|
            0 <= i < r@.len() ==> (#[trigger] r@[i]) < patterns_of(*set).len() && pattern_matches(
                patterns_of(*set)[r@[i] as int],
                text@,
            ),
        forall|k: int|
            0 <= k < patterns_of(*set).len() && pattern_matches(
                #[trigger] patterns_of(*set)[k],
                text@,
            ) ==> r@.contains(k as usize),
{
    set.matches(text).into_iter().collect()
}

/// The patterns that every policy holds, in their order.
pub open spec fn default_patterns() -> Seq<Seq<char>> {
    seq![
        r"(?i)\brm\s+(-[a-z]*r[a-z]*f?|-rf|--recursive\s+--force)\s+/(\s|$)"@,
        r"(?i)\brm\s+(-[a-z]*r[a-z]*f?|-rf)\s+/[a-z]+(\s|$)"@,
        r"(?i)\bdd\s+[^|;]*of=/dev/(sd|nvme|hd|disk|xvd)"@,
        r"(?i)\bmkfs(\.|\s)"@,
        r":\s*\(\s*\)\s*\{\s*:\s*\|"@,
        r"(?i)\b(shutdown|reboot|halt|poweroff)\b"@,
        r"(?i)\binit\s+0\b"@,
        r">\s*/dev/(sd|nvme|hd|disk|xvd)"@,
        r"(?i)\b(chmod|chown)\s+-R\s+\S+\s+/(\s|$)"@,
    ]
}

/// A fresh copy of the default patterns.
fn default_pattern_list() -> (r: Vec<String>)
    ensures
        texts(r@) == default_patterns(),
{
    let mut all: Vec<String> = Vec::new();
    all.push(owned(r"(?i)\brm\s+(-[a-z]*r[a-z]*f?|-rf|--recursive\s+--force)\s+/(\s|$)"));
    all.push(owned(r"(?i)\brm\s+(-[a-z]*r[a-z]*f?|-rf)\s+/[a-z]+(\s|$)"));
    all.push(owned(r"(?i)\bdd\s+[^|;]*of=/dev/(sd|nvme|hd|disk|xvd)"));
    all.push(owned(r"(?i)\bmkfs(\.|\s)"));
    all.push(owned(r":\s*\(\s*\)\s*\{\s*:\s*\|"));
    all.push(owned(r"(?i)\b(shutdown|reboot|halt|poweroff)\b"));
    all.push(owned(r"(?i)\binit\s+0\b"));
    all.push(owned(r">\s*/dev/(sd|nvme|hd|disk|xvd)"));
    all.push(owned(r"(?i)\b(chmod|chown)\s+-R\s+\S+\s+/(\s|$)"));
    assert(texts(all@) =~= default_patterns());
    all
}

/// Whether `i` is the first of the patterns that match the command.
pub open spec fn is_first_match(patterns: Seq<Seq<char>>, command: Seq<char>, i: int) -> bool {
    &&& 0 <= i < patterns.len()
    &&& pattern_matches(patterns[i], command)
    &&& forall|j: int| 0 <= j < i ==> !pattern_matches(#[trigger] patterns[j], command)
}

/// Whether no pattern matches the command.
pub open spec fn permits(patterns: Seq<Seq<char>>, command: Seq<char>) -> bool {
    forall|j: int| 0 <= j < patterns.len() ==> !pattern_matches(#[trigger] patterns[j], command)
}

/// The error for a command that pattern `i` blocks.
pub open spec fn blocked_by(patterns: Seq<Seq<char>>, i: int) -> ErrorView {
    ErrorView::Forbidden(
        "command blocked by policy (pattern #"@ + decimal_digits(i as nat) + ": "@ + patterns[i]
            + ")"@,
    )
}

/// The verdict on a command, given the indices of the patterns that match it in
/// ascending order: the first of them blocks it.
pub fn verdict(patterns: &Vec<String>, matched: &Vec<usize>) -> (r: Result<(), Error>)
    requires
        matched@.len() > 0 ==> matched@[0] < patterns@.len(),
    ensures
        matched@.len() == 0 ==> r is Ok,
        matched@.len() > 0 ==> (r matches Err(e) && e@ == blocked_by(
            texts(patterns@),
            matched@[0] as int,
        )),
{
    if matched.len() == 0 {
        return Ok(());
    }
    let idx: usize = matched[0];
    let mut text = owned("command blocked by policy (pattern #");
    text.append(decimal(idx as u128).as_str());
    text.append(": ");
    text.append(patterns[idx].as_str());
    text.append(")");
    Err(Error::Forbidden(text))
}

/// A regex blacklist of destructive commands plus any operator-supplied extra
/// patterns.
pub struct CommandPolicy {
    set: RegexSet,
    patterns: Vec<String>,
}

impl Clone for CommandPolicy {
    fn clone(&self) -> (r: Self)
        ensures
            r.patterns() == self.patterns(),
            r.wf() == self.wf(),
    {
        let r = CommandPolicy { set: set_clone(&self.set), patterns: self.patterns.clone() };
        assert(texts(r.patterns@) =~= texts(self.patterns@));
        r
    }
}

impl CommandPolicy {
    /// The set was compiled from the patterns.
    pub closed spec fn wf(&self) -> bool {
        patterns_of(self.set) == texts(self.patterns@)
    }

    /// The patterns of the policy, in their order.
    pub closed spec fn patterns(&self) -> Seq<Seq<char>> {
        texts(self.patterns@)
    }

    /// The default patterns and the extra ones after them.
    pub fn new(extra: Vec<String>) -> (r: Result<Self, Error>)
        ensures
            r is Ok <==> set_error_text(default_patterns() + texts(extra@)) is None,
            r matches Ok(p) ==> p.wf() && p.patterns() == default_patterns() + texts(extra@),
            r matches Ok(p) ==> are_all_patterns(p.patterns(), texts(extra@)),
            r matches Err(e) ==> e@ == ErrorView::Invalid(
                "blacklist regex: "@ + set_error_text(default_patterns() + texts(extra@))->0,
            ),
    {
        let mut all = default_pattern_list();
        let mut extra = extra;
        let ghost given = extra@;
        all.append(&mut extra);
        assert(texts(all@) =~= default_patterns() + texts(given));
        match compile(&all) {
            Ok(set) => Ok(CommandPolicy { set, patterns: all }),
            Err(m) => Err(Error::Invalid(join2("blacklist regex: ", m.as_str()))),
        }
    }

    /// Permits a command that no pattern matches; the error names the first
    /// pattern that does.
    pub fn check(&self, command: &str) -> (r: Result<(), Error>)
        requires
            self.wf(),
        ensures
            r is Ok <==> permits(self.patterns(), command@),
            r matches Err(e) ==> exists|i: int| #[trigger]
                is_first_match(self.patterns(), command@, i) && e@ == blocked_by(
                    self.patterns(),
                    i,
                ),
    {
        let m = matching(&self.set, command);
        if m.len() > 0 {
            let ghost idx = m@[0];
            proof {
                assert forall|j: int| 0 <= j < idx implies !pattern_matches(
                    #[trigger] self.patterns()[j],
                    command@,
                ) by {
                    if pattern_matches(self.patterns()[j], command@) {
                        assert(m@.contains(j as usize));
                        let k = choose|k: int| 0 <= k < m@.len() && m@[k] == j as usize;
                        assert(m@[0] <= m@[k]);
                    }
                }
                assert(is_first_match(self.patterns(), command@, idx as int));
            }
        } else {
            assert(permits(self.patterns(), command@)) by {
                assert forall|j: int| 0 <= j < self.patterns().len() implies !pattern_matches(
                    #[trigger] self.patterns()[j],
                    command@,
                ) by {
                    if pattern_matches(self.patterns()[j], command@) {
                        assert(m@.contains(j as usize));
                    }
                }
            }
        }
        verdict(&self.patterns, &m)
    }

    /// The policy as the authorizer of a command: who asks, and on which server,
    /// makes no difference.
    pub fn authorize_exec(&self, auth: &AuthContext, server_alias: &str, command: &str) -> (r: Result<
        (),
        Error,
    >)
        requires
            self.wf(),
        ensures
            r is Ok <==> permits(self.patterns(), command@),
            r matches Err(e) ==> exists|i: int| #[trigger]
                is_first_match(self.patterns(), command@, i) && e@ == blocked_by(
                    self.patterns(),
                    i,
                ),
    {
        self.check(command)
    }
}

/// Extra patterns only ever block more: a command that the default patterns
/// block stays blocked, for the same reason.
pub proof fn law_defaults_always_block(extra: Seq<Seq<char>>, command: Seq<char>, i: int)
    requires
        is_first_match(default_patterns(), command, i),
    ensures
        !permits(default_patterns() + extra, command),
        is_first_match(default_patterns() + extra, command, i),
        blocked_by(default_patterns() + extra, i) == blocked_by(default_patterns(), i),
{
    let all = default_patterns() + extra;
    assert(all[i] == default_patterns()[i]);
    assert forall|j: int| 0 <= j < i implies !pattern_matches(#[trigger] all[j], command) by {
        assert(all[j] == default_patterns()[j]);
    }
}

/// A command is permitted exactly when the default patterns permit it and the
/// extra ones do.
pub proof fn law_permits_is_both(extra: Seq<Seq<char>>, command: Seq<char>)
    ensures
        permits(default_patterns() + extra, command) <==> permits(default_patterns(), command)
            && permits(extra, command),
{
    let all = default_patterns() + extra;
    if permits(all, command) {
        assert forall|j: int| 0 <= j < default_patterns().len() implies !pattern_matches(
            #[trigger] default_patterns()[j],
            command,
        ) by {
            assert(all[j] == default_patterns()[j]);
        }
        assert forall|j: int| 0 <= j < extra.len() implies !pattern_matches(
            #[trigger] extra[j],
            command,
        ) by {
            assert(all[default_patterns().len() + j] == extra[j]);
        }
    }
}

/// Whether a line of a blacklist file is a pattern: it is neither blank nor a
/// comment.
pub open spec fn is_pattern_line(line: Seq<char>) -> bool {
    line.len() > 0 && line[0] != '#'
}

/// The patterns among the lines of a blacklist file, without the white space
/// around them.
pub open spec fn pattern_lines(lines: Seq<Seq<char>>) -> Seq<Seq<char>>
    decreases lines.len(),
{
    if lines.len() == 0 {
        Seq::empty()
    } else {
        let before = pattern_lines(lines.drop_last());
        let line = trimmed(lines.last());
        if is_pattern_line(line) {
            before.push(line)
        } else {
            before
        }
    }
}

/// Reads the extra patterns of a blacklist file: one to a line, with blank lines
/// and lines that begin with `#` passed over.
pub fn blacklist_patterns(text: &str) -> (r: Vec<String>)
    ensures
        texts(r@) == pattern_lines(line_list(text@)),
{
    let all = lines(text);
    let mut out: Vec<String> = Vec::new();
    let mut i: usize = 0;
    assert(texts(out@) =~= pattern_lines(texts(all@).take(0)));
    while i < all.len()
        invariant
            i <= all@.len(),
            texts(out@) == pattern_lines(texts(all@).take(i as int)),
        decreases all.len() - i,
    {
        let ghost before = texts(out@);
        let ghost seen = texts(all@).take(i + 1);
        assert(seen.drop_last() =~= texts(all@).take(i as int));
        let line = trim(all[i].as_str());
        if line.unicode_len() > 0 && line.get_char(0) != '#' {
            out.push(owned(line));
            assert(texts(out@) =~= before.push(line@));
        }
        i = i + 1;
    }
    assert(texts(all@).take(i as int) =~= line_list(text@));
    out
}

/// Every pattern that a blacklist file gives stands on a line of it, and is
/// neither blank nor a comment.
pub proof fn law_patterns_come_from_lines(lines: Seq<Seq<char>>, i: int)
    requires
        0 <= i < pattern_lines(lines).len(),
    ensures
        is_pattern_line(pattern_lines(lines)[i]),
        exists|j: int| 0 <= j < lines.len() && trimmed(#[trigger] lines[j]) == pattern_lines(lines)[i],
    decreases lines.len(),
{
    let before = pattern_lines(lines.drop_last());
    if i < before.len() {
        law_patterns_come_from_lines(lines.drop_last(), i);
        let j = choose|j: int|
            0 <= j < lines.drop_last().len() && trimmed(#[trigger] lines.drop_last()[j])
                == before[i];
        assert(lines[j] == lines.drop_last()[j]);
    } else {
        assert(lines[lines.len() - 1] == lines.last());
    }
}

/// A command is permitted exactly where no pattern matches it.
pub proof fn law_permitted_is_unmatched(patterns: Seq<Seq<char>>, command: Seq<char>, i: int)
    requires
        0 <= i < patterns.len(),
    ensures
        pattern_matches(patterns[i], command) ==> !permits(patterns, command),
        permits(patterns, command) ==> !pattern_matches(patterns[i], command),
        !permits(patterns, command) ==> exists|j: int| #[trigger]
            is_first_match(patterns, command, j),
{
    if !permits(patterns, command) {
        lemma_first_match(patterns, command, patterns.len() as int);
    }
}

proof fn lemma_first_match(patterns: Seq<Seq<char>>, command: Seq<char>, n: int)
    requires
        0 <= n <= patterns.len(),
        exists|j: int| 0 <= j < n && pattern_matches(#[trigger] patterns[j], command),
    ensures
        exists|j: int| #[trigger] is_first_match(patterns, command, j),
    decreases n,
{
    if exists|j: int| 0 <= j < n - 1 && pattern_matches(#[trigger] patterns[j], command) {
        lemma_first_match(patterns, command, n - 1);
    } else {
        assert(is_first_match(patterns, command, n - 1));
    }
}

/// A command that is blocked is told the number and the text of the pattern that blocks
/// it, which matches it and has no matching one before it.
pub proof fn law_block_names_its_pattern(patterns: Seq<Seq<char>>, command: Seq<char>, i: int)
    requires
        is_first_match(patterns, command, i),
    ensures
        0 <= i < patterns.len(),
        pattern_matches(patterns[i], command),
        forall|j: int| 0 <= j < i ==> !pattern_matches(#[trigger] patterns[j], command),
        blocked_by(patterns, i) == ErrorView::Forbidden(
            "command blocked by policy (pattern #"@ + decimal_digits(i as nat) + ": "@
                + patterns[i] + ")"@,
        ),
{
}

/// Every policy blocks what deletes from the root, writes to or formats a disk, forks
/// without end, turns the machine off or opens up the whole file system.
pub proof fn law_destructive_commands_are_blocked(extra: Seq<Seq<char>>, command: Seq<char>)
    requires
        permits(default_patterns() + extra, command),
    ensures
        !pattern_matches(
            r"(?i)\brm\s+(-[a-z]*r[a-z]*f?|-rf|--recursive\s+--force)\s+/(\s|$)"@,
            command,
        ),
        !pattern_matches(r"(?i)\brm\s+(-[a-z]*r[a-z]*f?|-rf)\s+/[a-z]+(\s|$)"@, command),
        !pattern_matches(r"(?i)\bdd\s+[^|;]*of=/dev/(sd|nvme|hd|disk|xvd)"@, command),
        !pattern_matches(r"(?i)\bmkfs(\.|\s)"@, command),
        !pattern_matches(r":\s*\(\s*\)\s*\{\s*:\s*\|"@, command),
        !pattern_matches(r"(?i)\b(shutdown|reboot|halt|poweroff)\b"@, command),
        !pattern_matches(r"(?i)\binit\s+0\b"@, command),
        !pattern_matches(r">\s*/dev/(sd|nvme|hd|disk|xvd)"@, command),
        !pattern_matches(r"(?i)\b(chmod|chown)\s+-R\s+\S+\s+/(\s|$)"@, command),
{
    let all = default_patterns() + extra;
    assert forall|j: int| 0 <= j < 9 implies !pattern_matches(
        #[trigger] default_patterns()[j],
        command,
    ) by {
        assert(all[j] == default_patterns()[j]);
    }
    assert(!pattern_matches(default_patterns()[0], command));
    assert(!pattern_matches(default_patterns()[1], command));
    assert(!pattern_matches(default_patterns()[2], command));
    assert(!pattern_matches(default_patterns()[3], command));
    assert(!pattern_matches(default_patterns()[4], command));
    assert(!pattern_matches(default_patterns()[5], command));
    assert(!pattern_matches(default_patterns()[6], command));
    assert(!pattern_matches(default_patterns()[7], command));
    assert(!pattern_matches(default_patterns()[8], command));
}

/// Every line of a blacklist file that is neither blank nor a comment is a pattern of it,
/// in the order of the lines: a line more adds its own pattern at the end, or none.
pub proof fn law_lines_become_patterns(lines: Seq<Seq<char>>, line: Seq<char>)
    ensures
        trimmed(line).len() > 0 && trimmed(line)[0] != '#' ==> pattern_lines(lines.push(line))
            == pattern_lines(lines).push(trimmed(line)),
        trimmed(line).len() == 0 || trimmed(line)[0] == '#' ==> pattern_lines(lines.push(line))
            == pattern_lines(lines),
        pattern_lines(Seq::empty()).len() == 0,
{
    assert(lines.push(line).drop_last() =~= lines);
}

/// Whether a policy holds the default patterns and the extra ones after them.
pub open spec fn are_all_patterns(patterns: Seq<Seq<char>>, extra: Seq<Seq<char>>) -> bool {
    patterns == default_patterns() + extra
}

/// A policy blocks whatever one of the nine default patterns or one of the operator's own
/// matches, and nothing else.
pub proof fn law_policy_holds_all_patterns(
    patterns: Seq<Seq<char>>,
    extra: Seq<Seq<char>>,
    command: Seq<char>,
    i: int,
)
    requires
        are_all_patterns(patterns, extra),
        0 <= i < extra.len(),
    ensures
        patterns.len() == 9 + extra.len(),
        patterns[9 + i] == extra[i],
        patterns.take(9) == default_patterns(),
        pattern_matches(extra[i], command) ==> !permits(patterns, command),
        !permits(default_patterns(), command) ==> !permits(patterns, command),
{
    assert(patterns.take(9) =~= default_patterns());
    assert(patterns[9 + i] == extra[i]);
    law_permits_is_both(extra, command);
}

} // verus!
