//! Bearer tokens in front of the HTTP surface.

use vstd::prelude::*;
use vstd::string::*;

use crate::error::Error;
use crate::models::AuthContext;
use crate::text::{strip_prefix, trim, trimmed};

verus! {

/// The HTTP status of a request that is not let through.
pub const UNAUTHORIZED: u16 = 401;

/// The token that the value of an `Authorization` header presents, if it is of
/// the bearer scheme.
pub open spec fn presented_token(header: Option<Seq<char>>) -> Option<Seq<char>> {
    match header {
        Some(value) => if "Bearer "@.is_prefix_of(value) {
            Some(trimmed(value.skip("Bearer "@.len() as int)))
        } else {
            None
        },
        None => None,
    }
}

/// The token to validate, given the value of the request's `Authorization` header
/// where it has one that is plain text; or the status of the refusal.
pub fn bearer_auth(header: Option<&str>) -> (r: Result<&str, u16>)
    ensures
        match (r, presented_token(
            match header {
                Some(value) => Some(value@),
                None => None,
            },
        )) {
            (Ok(token), Some(t)) => token@ == t,
            (Err(status), None) => status == UNAUTHORIZED,
            _ => false,
        },
{
    match header {
        None => Err(UNAUTHORIZED),
        Some(value) => match strip_prefix(value, "Bearer ") {
            None => Err(UNAUTHORIZED),
            Some(rest) => {
                assert(rest@ =~= value@.skip("Bearer "@.len() as int));
                Ok(trim(rest))
            },
        },
    }
}

/// The identity that a request goes on with, given what the validation of its
/// token gave. Whatever went wrong, the refusal is the same.
pub fn admitted(validated: Result<AuthContext, Error>) -> (r: Result<AuthContext, u16>)
    ensures
        match validated {
            Ok(auth) => r == Ok::<AuthContext, u16>(auth),
            Err(_) => r == Err::<AuthContext, u16>(UNAUTHORIZED),
        },
{
    match validated {
        Ok(auth) => Ok(auth),
        Err(_) => Err(UNAUTHORIZED),
    }
}

/// A client that sends its token after the bearer scheme presents exactly that
/// token, provided the token neither begins nor ends with white space.
pub proof fn law_bearer_presents_the_token(token: Seq<char>)
    requires
        trimmed(token) == token,
    ensures
        presented_token(Some("Bearer "@ + token)) == Some(token),
{
    let value = "Bearer "@ + token;
    assert("Bearer "@.is_prefix_of(value));
    assert(value.skip("Bearer "@.len() as int) =~= token);
}

/// A request without a bearer token is refused.
pub proof fn law_other_schemes_present_nothing(header: Option<Seq<char>>)
    requires
        header matches Some(value) ==> !"Bearer "@.is_prefix_of(value),
    ensures
        presented_token(header) is None,
{
}

/// A request presents a token exactly where its header is of the bearer scheme; the token
/// is what follows, without the white space around it. The refusal is the status 401.
pub proof fn law_token_follows_the_scheme(rest: Seq<char>)
    ensures
        presented_token(Some("Bearer "@ + rest)) == Some(trimmed(rest)),
        presented_token(None) is None,
        UNAUTHORIZED == 401,
{
    let value = "Bearer "@ + rest;
    assert("Bearer "@.is_prefix_of(value));
    assert(value.skip("Bearer "@.len() as int) =~= rest);
}

} // verus!
