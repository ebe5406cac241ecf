//! Fresh opaque identifiers.

use uuid::Uuid;
use vstd::prelude::*;

use crate::text::join2;

verus! {

/// A lower-case hexadecimal digit.
pub open spec fn is_lower_hex(c: char) -> bool {
    ('0' <= c && c <= '9') || ('a' <= c && c <= 'f')
}

/// Thirty-two lower-case hexadecimal digits.
pub open spec fn is_simple_uuid(s: Seq<char>) -> bool {
    &&& s.len() == 32
    &&& forall|i: int| 0 <= i < 32 ==> is_lower_hex(#[trigger] s[i])
}

/// Thirty-two lower-case hexadecimal digits, in groups that hyphens part.
pub open spec fn is_hyphenated_uuid(s: Seq<char>) -> bool {
    &&& s.len() == 36
    &&& forall|i: int|
        0 <= i < 36 ==> if i == 8 || i == 13 || i == 18 || i == 23 {
            #[trigger] s[i] == '-'
        } else {
            is_lower_hex(s[i])
        }
}

/// `Uuid::new_v4` in the simple form of `Uuid::simple`. Which identifier comes
/// out is chance; only its form is stated.
#[verifier::external_body]
fn simple_uuid() -> (r: String)
    ensures
        is_simple_uuid(r@),
{
    Uuid::new_v4().simple().to_string()
}

/// `Uuid::new_v4` in its own, hyphenated form. Which identifier comes out is
/// chance; only its form is stated.
#[verifier::external_body]
fn hyphenated_uuid() -> (r: String)
    ensures
        is_hyphenated_uuid(r@),
{
    Uuid::new_v4().to_string()
}

/// An identifier made of a prefix and a fresh simple UUID.
pub open spec fn is_prefixed_id(prefix: Seq<char>, id: Seq<char>) -> bool {
    &&& id.len() == prefix.len() + 32
    &&& id.take(prefix.len() as int) == prefix
    &&& is_simple_uuid(id.skip(prefix.len() as int))
}

/// A fresh identifier that begins with `prefix`.
fn prefixed_id(prefix: &str) -> (r: String)
    ensures
        is_prefixed_id(prefix@, r@),
{
    let u = simple_uuid();
    let r = join2(prefix, u.as_str());
    assert(r@.take(prefix@.len() as int) =~= prefix@);
    assert(r@.skip(prefix@.len() as int) =~= u@);
    r
}

/// A fresh identifier of a session.
pub fn session_id() -> (r: String)
    ensures
        is_prefixed_id("cs_"@, r@),
{
    prefixed_id("cs_")
}

/// A fresh identifier of a background job.
pub fn job_id() -> (r: String)
    ensures
        is_prefixed_id("job_"@, r@),
{
    prefixed_id("job_")
}

/// A fresh handle of a staged upload.
pub fn upload_handle() -> (r: String)
    ensures
        is_prefixed_id("up_"@, r@),
{
    prefixed_id("up_")
}

/// A fresh identifier of an audit entry.
pub fn entry_id() -> (r: String)
    ensures
        is_hyphenated_uuid(r@),
{
    hyphenated_uuid()
}

/// An identifier is its prefix and thirty-two lower-case hexadecimal digits.
pub proof fn law_identifier_has_its_form(prefix: Seq<char>, id: Seq<char>, i: int)
    requires
        is_prefixed_id(prefix, id),
        0 <= i < 32,
    ensures
        id.len() == prefix.len() + 32,
        prefix.is_prefix_of(id),
        ('0' <= id[prefix.len() + i] <= '9') || ('a' <= id[prefix.len() + i] <= 'f'),
{
    assert(id.skip(prefix.len() as int)[i] == id[prefix.len() + i]);
    assert(is_lower_hex(id.skip(prefix.len() as int)[i]));
}

} // verus!
