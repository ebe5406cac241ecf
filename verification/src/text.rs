//! Text primitives: assembling, trimming, splitting and decoding strings, each
//! stated over the sequence of characters that a string holds.

use vstd::prelude::*;
use vstd::string::*;
use vstd::utf8::*;

verus! {

/// `String::push` of std: appends the character at the end.
pub assume_specification[ String::push ](s: &mut String, ch: char)
    ensures
        final(s)@ == old(s)@.push(ch),
;

/// `str::eq_ignore_ascii_case` of std: compares two strings with ASCII letters
/// taken without regard to case, and every other character as it stands.
pub assume_specification[ str::eq_ignore_ascii_case ](a: &str, b: &str) -> (r: bool)
    ensures
        r == (ascii_lower(a@) == ascii_lower(b@)),
;

/// One character with an ASCII capital letter made small.
pub open spec fn ascii_lower_char(c: char) -> char {
    if 'A' <= c && c <= 'Z' {
        (c as u32 + 32) as char
    } else {
        c
    }
}

/// A text with its ASCII capital letters made small.
pub open spec fn ascii_lower(s: Seq<char>) -> Seq<char> {
    s.map_values(|c: char| ascii_lower_char(c))
}

/// The decimal digits of `n`, without leading zeros.
pub open spec fn decimal_digits(n: nat) -> Seq<char>
    decreases n,
{
    if n < 10 {
        seq![(48 + n) as char]
    } else {
        decimal_digits(n / 10).push((48 + n % 10) as char)
    }
}

/// The decimal form of `n`, with a minus sign in front of a negative number.
pub open spec fn decimal_form(n: int) -> Seq<char> {
    if n < 0 {
        seq!['-'] + decimal_digits((-n) as nat)
    } else {
        decimal_digits(n as nat)
    }
}

/// The character of one decimal digit.
fn digit_char(d: u8) -> (c: char)
    requires
        d < 10,
    ensures
        c == (48 + d) as char,
{
    (48 + d) as char
}

/// Renders `n` in decimal.
pub fn decimal(n: u128) -> (s: String)
    ensures
        s@ == decimal_digits(n as nat),
    decreases n,
{
    let mut s: String = if n < 10 {
        String::new()
    } else {
        decimal(n / 10)
    };
    s.push(digit_char((n % 10) as u8));
    s
}

/// Renders a signed number in decimal.
pub fn signed_decimal(n: i64) -> (s: String)
    ensures
        s@ == decimal_form(n as int),
{
    if n < 0 {
        let mut s = String::new();
        s.push('-');
        let magnitude: u128 = (-(n as i128)) as u128;
        s.append(decimal(magnitude).as_str());
        s
    } else {
        decimal(n as u128)
    }
}

/// An owned copy of a text.
pub fn owned(s: &str) -> (r: String)
    ensures
        r@ == s@,
{
    s.to_owned()
}

/// The two texts one after the other.
pub fn join2(a: &str, b: &str) -> (r: String)
    ensures
        r@ == a@ + b@,
{
    owned(a).concat(b)
}

/// The three texts one after the other.
pub fn join3(a: &str, b: &str, c: &str) -> (r: String)
    ensures
        r@ == a@ + b@ + c@,
{
    owned(a).concat(b).concat(c)
}

/// Whether two texts hold the same characters.
pub fn same(a: &str, b: &str) -> (r: bool)
    ensures
        r == (a@ == b@),
{
    let x = a.as_bytes();
    let y = b.as_bytes();
    proof {
        encode_utf8_decode_utf8(a@);
        encode_utf8_decode_utf8(b@);
    }
    if x.len() != y.len() {
        return false;
    }
    let mut i: usize = 0;
    while i < x.len()
        invariant
            x@ == a.spec_bytes(),
            y@ == b.spec_bytes(),
            x.len() == y.len(),
            i <= x.len(),
            forall|j: int| 0 <= j < i ==> x@[j] == y@[j],
        decreases x.len() - i,
    {
        if x[i] != y[i] {
            return false;
        }
        i = i + 1;
    }
    assert(x@ =~= y@);
    true
}

/// Characters with the Unicode property `White_Space`.
pub open spec fn is_white_space(c: char) -> bool {
    ||| '\u{9}' <= c <= '\u{d}'
    ||| c == ' '
    ||| c == '\u{85}'
    ||| c == '\u{a0}'
    ||| c == '\u{1680}'
    ||| '\u{2000}' <= c <= '\u{200a}'
    ||| c == '\u{2028}'
    ||| c == '\u{2029}'
    ||| c == '\u{202f}'
    ||| c == '\u{205f}'
    ||| c == '\u{3000}'
}

/// A text without its leading white space.
pub open spec fn trim_start(s: Seq<char>) -> Seq<char>
    decreases s.len(),
{
    if s.len() > 0 && is_white_space(s[0]) {
        trim_start(s.drop_first())
    } else {
        s
    }
}

/// A text without its trailing white space.
pub open spec fn trim_end(s: Seq<char>) -> Seq<char>
    decreases s.len(),
{
    if s.len() > 0 && is_white_space(s.last()) {
        trim_end(s.drop_last())
    } else {
        s
    }
}

/// A text without its leading and trailing white space.
pub open spec fn trimmed(s: Seq<char>) -> Seq<char> {
    trim_end(trim_start(s))
}

/// `str::trim` of std: drops leading and trailing white space, as Unicode's
/// property `White_Space` defines it.
#[verifier::external_body]
pub(crate) fn trim(s: &str) -> (r: &str)
    ensures
        r@ == trimmed(s@),
{
    s.trim()
}

/// The texts that a sequence of strings holds.
pub open spec fn texts(v: Seq<String>) -> Seq<Seq<char>> {
    v.map_values(|s: String| s@)
}

/// Whether a text is in the list.
pub fn listed(list: &Vec<String>, text: &str) -> (r: bool)
    ensures
        r == texts(list@).contains(text@),
{
    let mut i: usize = 0;
    while i < list.len()
        invariant
            i <= list@.len(),
            forall|j: int| 0 <= j < i ==> texts(list@)[j] != text@,
        decreases list.len() - i,
    {
        assert(texts(list@)[i as int] == list@[i as int]@);
        if same(list[i].as_str(), text) {
            return true;
        }
        i = i + 1;
    }
    false
}

/// A copy of a list of texts.
pub fn copied(list: &Vec<String>) -> (r: Vec<String>)
    ensures
        texts(r@) == texts(list@),
{
    let mut out: Vec<String> = Vec::new();
    let mut i: usize = 0;
    while i < list.len()
        invariant
            i <= list@.len(),
            out@.len() == i,
            forall|j: int| 0 <= j < i ==> (#[trigger] out@[j])@ == list@[j]@,
        decreases list.len() - i,
    {
        out.push(list[i].clone());
        i = i + 1;
    }
    assert(texts(out@) =~= texts(list@));
    out
}

/// The text of an optional string.
pub open spec fn opt_text(o: Option<String>) -> Option<Seq<char>> {
    match o {
        Some(s) => Some(s@),
        None => None,
    }
}

/// The bytes of an optional byte string.
pub open spec fn opt_bytes(o: Option<Vec<u8>>) -> Option<Seq<u8>> {
    match o {
        Some(b) => Some(b@),
        None => None,
    }
}

/// `std::str::from_utf8`: the text that the bytes encode, if they are valid UTF-8.
#[verifier::external_body]
pub(crate) fn from_utf8(bytes: &[u8]) -> (r: Option<&str>)
    ensures
        r is Some <==> valid_utf8(bytes@),
        r matches Some(s) ==> s@ == decode_utf8(bytes@),
{
    std::str::from_utf8(bytes).ok()
}

/// What `String::from_utf8_lossy` gives for the bytes.
pub uninterp spec fn utf8_lossy(bytes: Seq<u8>) -> Seq<char>;

/// `String::from_utf8_lossy` of std: decodes valid UTF-8 as it stands, and puts
/// a replacement character of three bytes in the place of each sequence that is not
/// valid. The result has to fit in a string.
#[verifier::external_body]
pub(crate) fn from_utf8_lossy(bytes: &[u8]) -> (r: String)
    requires
        3 * bytes@.len() <= isize::MAX,
    ensures
        r@ == utf8_lossy(bytes@),
        valid_utf8(bytes@) ==> r@ == decode_utf8(bytes@),
{
    String::from_utf8_lossy(bytes).into_owned()
}

/// What is left of `s` after `prefix`, if `s` begins with it.
pub fn strip_prefix<'a>(s: &'a str, prefix: &str) -> (r: Option<&'a str>)
    ensures
        r is Some <==> prefix@.is_prefix_of(s@),
        r matches Some(rest) ==> s@ == prefix@ + rest@,
{
    let n = s.unicode_len();
    let k = prefix.unicode_len();
    if k > n || !same(s.substring_char(0, k), prefix) {
        return None;
    }
    let rest = s.substring_char(k, n);
    assert(s@ =~= prefix@ + rest@);
    Some(rest)
}

/// The place of the first line feed, or the length of a text without one.
pub open spec fn line_end(s: Seq<char>) -> int
    decreases s.len(),
{
    if s.len() == 0 || s[0] == '\n' {
        0
    } else {
        1 + line_end(s.drop_first())
    }
}

/// A line without the carriage return that its line feed follows.
pub open spec fn without_cr(s: Seq<char>) -> Seq<char> {
    if s.len() > 0 && s.last() == '\r' {
        s.drop_last()
    } else {
        s
    }
}

proof fn lemma_line_end_range(s: Seq<char>)
    ensures
        0 <= line_end(s) <= s.len(),
    decreases s.len(),
{
    if s.len() > 0 && s[0] != '\n' {
        lemma_line_end_range(s.drop_first());
    }
}

/// The lines of a text. A line feed ends a line, together with a carriage
/// return right before it; nothing follows a line feed at the very end.
pub open spec fn line_list(s: Seq<char>) -> Seq<Seq<char>>
    decreases s.len(),
    via line_list_decreases
{
    let k = line_end(s);
    if s.len() == 0 {
        seq![]
    } else if k >= s.len() {
        seq![s]
    } else {
        seq![without_cr(s.take(k))] + line_list(s.skip(k + 1))
    }
}

#[via_fn]
proof fn line_list_decreases(s: Seq<char>) {
    lemma_line_end_range(s);
}

proof fn lemma_line_end_after(cur: Seq<char>, rest: Seq<char>)
    requires
        forall|i: int| 0 <= i < cur.len() ==> cur[i] != '\n',
    ensures
        line_end(cur + rest) == cur.len() + line_end(rest),
    decreases cur.len(),
{
    if cur.len() == 0 {
        assert(cur + rest =~= rest);
    } else {
        assert((cur + rest).drop_first() =~= cur.drop_first() + rest);
        lemma_line_end_after(cur.drop_first(), rest);
    }
}

/// A copy of a line without the carriage return at its end.
fn drop_cr(line: String) -> (r: String)
    ensures
        r@ == without_cr(line@),
{
    let n = line.as_str().unicode_len();
    if n > 0 && line.as_str().get_char(n - 1) == '\r' {
        let r = line.as_str().substring_char(0, n - 1).to_owned();
        assert(r@ =~= line@.drop_last());
        r
    } else {
        line
    }
}

/// Splits a text into its lines.
pub fn lines(s: &str) -> (r: Vec<String>)
    ensures
        texts(r@) == line_list(s@),
{
    let mut done: Vec<String> = Vec::new();
    let mut cur: String = String::new();
    assert(texts(done@) + line_list(cur@ + s@) =~= line_list(s@)) by {
        assert(cur@ + s@ =~= s@);
    }
    assert(s@.skip(0) =~= s@);
    for c in it: s.chars()
        invariant
            it.seq() == s@,
            forall|j: int| 0 <= j < cur@.len() ==> cur@[j] != '\n',
            line_list(s@) == texts(done@) + line_list(cur@ + s@.skip(it.index() as int)),
    {
        let ghost i = it.index() as int;
        let ghost rest = s@.skip(i);
        let ghost cur0 = cur@;
        let ghost done0 = texts(done@);
        assert(rest =~= seq![c] + s@.skip(i + 1));
        if c == '\n' {
            proof {
                lemma_line_end_after(cur0, rest);
                assert((cur0 + rest).take(cur0.len() as int) =~= cur0);
                assert((cur0 + rest).skip(cur0.len() as int + 1) =~= s@.skip(i + 1));
            }
            done.push(drop_cr(cur));
            cur = String::new();
            assert(texts(done@) =~= done0.push(without_cr(cur0)));
            assert(cur@ + s@.skip(i + 1) =~= s@.skip(i + 1));
            assert(done0 + (seq![without_cr(cur0)] + line_list(s@.skip(i + 1)))
                =~= texts(done@) + line_list(s@.skip(i + 1)));
        } else {
            cur.push(c);
            assert(cur@ + s@.skip(i + 1) =~= cur0 + rest);
        }
    }
    assert(cur@ + s@.skip(s@.len() as int) =~= cur@);
    proof {
        lemma_line_end_after(cur@, Seq::<char>::empty());
        assert(cur@ + Seq::<char>::empty() =~= cur@);
    }
    if cur.as_str().unicode_len() > 0 {
        let ghost done0 = texts(done@);
        let ghost last = cur@;
        done.push(cur);
        assert(texts(done@) =~= done0 + seq![last]);
    }
    assert(texts(done@) =~= line_list(s@));
    done
}

/// Every line with `prefix` in front of it, the lines joined by line feeds.
pub open spec fn indented(lines: Seq<Seq<char>>, prefix: Seq<char>) -> Seq<char>
    decreases lines.len(),
{
    if lines.len() == 0 {
        seq![]
    } else if lines.len() == 1 {
        prefix + lines[0]
    } else {
        indented(lines.drop_last(), prefix) + seq!['\n'] + (prefix + lines.last())
    }
}

/// Puts `prefix` in front of every line of `s`.
pub fn indent(s: &str, prefix: &str) -> (r: String)
    ensures
        r@ == indented(line_list(s@), prefix@),
{
    let parts = lines(s);
    let mut out = String::new();
    let mut i: usize = 0;
    while i < parts.len()
        invariant
            i <= parts@.len(),
            out@ == indented(texts(parts@).take(i as int), prefix@),
        decreases parts.len() - i,
    {
        let ghost before = texts(parts@).take(i as int);
        let ghost after = texts(parts@).take(i + 1);
        let ghost out0 = out@;
        assert(after.drop_last() =~= before);
        if i > 0 {
            out.push('\n');
        }
        out.append(prefix);
        out.append(parts[i].as_str());
        assert(out@ =~= indented(after, prefix@)) by {
            if i == 0 {
                assert(out@ =~= prefix@ + after[0]);
            } else {
                assert(out@ =~= out0 + seq!['\n'] + (prefix@ + after.last()));
            }
        }
        i = i + 1;
    }
    assert(texts(parts@).take(i as int) =~= line_list(s@));
    out
}

/// The number that decimal digits stand for.
pub open spec fn number_of(digits: Seq<char>) -> nat
    decreases digits.len(),
{
    if digits.len() == 0 {
        0
    } else {
        10 * number_of(digits.drop_last()) + (digits.last() as nat - 48) as nat
    }
}

/// A number in decimal reads back as that number, is made of digits alone, and has no
/// zero in front but for zero itself.
pub proof fn law_decimal_reads_back(n: nat)
    ensures
        number_of(decimal_digits(n)) == n,
        decimal_digits(n).len() > 0,
        forall|i: int|
            0 <= i < decimal_digits(n).len() ==> '0' <= #[trigger] decimal_digits(n)[i] <= '9',
        n > 0 ==> decimal_digits(n)[0] != '0',
    decreases n,
{
    reveal_with_fuel(number_of, 2);
    if n < 10 {
        assert(decimal_digits(n).drop_last() =~= Seq::<char>::empty());
        assert(decimal_digits(n).last() == (48 + n) as char);
    } else {
        law_decimal_reads_back(n / 10);
        assert(decimal_digits(n).drop_last() =~= decimal_digits(n / 10));
        assert(decimal_digits(n).last() == (48 + n % 10) as char);
        assert(decimal_digits(n)[0] == decimal_digits(n / 10)[0]);
    }
}

/// A negative number has a minus sign and then its magnitude; any other is its digits.
pub proof fn law_sign_stands_in_front(n: int)
    ensures
        n < 0 ==> decimal_form(n)[0] == '-' && decimal_form(n).skip(1) == decimal_digits(
            (-n) as nat,
        ),
        n >= 0 ==> decimal_form(n) == decimal_digits(n as nat),
{
    if n < 0 {
        assert(decimal_form(n).skip(1) =~= decimal_digits((-n) as nat));
    }
}

proof fn lemma_trim_start(s: Seq<char>)
    ensures
        exists|k: int| #![trigger s.skip(k)] 0 <= k <= s.len() && trim_start(s) == s.skip(k),
        trim_start(s).len() > 0 ==> !is_white_space(trim_start(s)[0]),
    decreases s.len(),
{
    if s.len() > 0 && is_white_space(s[0]) {
        let rest = s.drop_first();
        lemma_trim_start(rest);
        let k = choose|k: int| #![trigger rest.skip(k)] 0 <= k <= rest.len() && trim_start(rest)
            == rest.skip(k);
        assert(rest.skip(k) =~= s.skip(k + 1));
    } else {
        assert(s.skip(0) =~= s);
    }
}

proof fn lemma_trim_end(s: Seq<char>)
    ensures
        exists|k: int| #![trigger s.take(k)] 0 <= k <= s.len() && trim_end(s) == s.take(k),
        trim_end(s).len() > 0 ==> !is_white_space(trim_end(s).last()) && trim_end(s)[0] == s[0],
    decreases s.len(),
{
    if s.len() > 0 && is_white_space(s.last()) {
        let rest = s.drop_last();
        lemma_trim_end(rest);
        let k = choose|k: int| #![trigger rest.take(k)] 0 <= k <= rest.len() && trim_end(rest)
            == rest.take(k);
        assert(rest.take(k) =~= s.take(k));
    } else {
        assert(s.take(s.len() as int) =~= s);
    }
}

/// A text without the white space around it neither begins nor ends with any, and is the
/// text itself where there was none.
pub proof fn law_trimmed_has_no_space_around(s: Seq<char>)
    ensures
        trimmed(s).len() > 0 ==> !is_white_space(trimmed(s)[0]) && !is_white_space(
            trimmed(s).last(),
        ),
        s.len() > 0 && !is_white_space(s[0]) && !is_white_space(s.last()) ==> trimmed(s) == s,
        s.len() == 0 ==> trimmed(s) == s,
{
    lemma_trim_start(s);
    lemma_trim_end(trim_start(s));
}

/// A line feed ends a line, together with a carriage return right before it, and the rest
/// of the text is split in the same way; a text without a line feed is one line.
pub proof fn law_lines_end_at_line_feeds(line: Seq<char>, rest: Seq<char>)
    requires
        forall|i: int| 0 <= i < line.len() ==> line[i] != '\n',
    ensures
        line_list(line + seq!['\n'] + rest) == seq![
            if line.len() > 0 && line.last() == '\r' {
                line.drop_last()
            } else {
                line
            },
        ] + line_list(rest),
        line.len() > 0 ==> line_list(line) == seq![line],
        line_list(Seq::empty()).len() == 0,
{
    let s = line + seq!['\n'] + rest;
    assert(s =~= line + (seq!['\n'] + rest));
    lemma_line_end_after(line, seq!['\n'] + rest);
    assert(s.take(line.len() as int) =~= line);
    assert(s.skip(line.len() as int + 1) =~= rest);
    lemma_line_end_after(line, Seq::<char>::empty());
    assert(line + Seq::<char>::empty() =~= line);
}

/// Every line stands behind the prefix, and the lines behind each other.
pub proof fn law_every_line_is_indented(
    lines: Seq<Seq<char>>,
    line: Seq<char>,
    prefix: Seq<char>,
)
    ensures
        lines.len() > 0 ==> indented(lines.push(line), prefix) == indented(lines, prefix) + seq![
            '\n',
        ] + prefix + line,
        indented(seq![line], prefix) == prefix + line,
        indented(Seq::empty(), prefix).len() == 0,
{
    assert(lines.push(line).drop_last() =~= lines);
    if lines.len() > 0 {
        assert(indented(lines.push(line), prefix) =~= indented(lines, prefix) + seq!['\n'] + prefix
            + line);
    }
}

/// Texts and values that may be missing are taken as they are.
pub proof fn law_optional_values_are_kept(
    text: Option<String>,
    bytes: Option<Vec<u8>>,
    list: Seq<String>,
    i: int,
)
    requires
        0 <= i < list.len(),
    ensures
        text is Some <==> opt_text(text) is Some,
        text matches Some(s) ==> opt_text(text) == Some(s@),
        bytes is Some <==> opt_bytes(bytes) is Some,
        bytes matches Some(b) ==> opt_bytes(bytes) == Some(b@),
        texts(list).len() == list.len(),
        texts(list)[i] == list[i]@,
{
}

} // verus!
