//! The error type that every layer shares.

use vstd::prelude::*;

use crate::text::join2;

verus! {

#[derive(Debug)]
pub enum Error {
    Crypto(String),
    /// Storage-layer failure. Adapters turn the errors of their backend into
    /// this variant.
    Db(String),
    NotFound(String),
    Unauthorized(String),
    Forbidden(String),
    Invalid(String),
    Io(String),
    Other(String),
}

/// An [`Error`] as a value: its variant and its text.
pub enum ErrorView {
    Crypto(Seq<char>),
    Db(Seq<char>),
    NotFound(Seq<char>),
    Unauthorized(Seq<char>),
    Forbidden(Seq<char>),
    Invalid(Seq<char>),
    Io(Seq<char>),
    Other(Seq<char>),
}

impl View for Error {
    type V = ErrorView;

    open spec fn view(&self) -> ErrorView {
        match *self {
            Error::Crypto(m) => ErrorView::Crypto(m@),
            Error::Db(m) => ErrorView::Db(m@),
            Error::NotFound(m) => ErrorView::NotFound(m@),
            Error::Unauthorized(m) => ErrorView::Unauthorized(m@),
            Error::Forbidden(m) => ErrorView::Forbidden(m@),
            Error::Invalid(m) => ErrorView::Invalid(m@),
            Error::Io(m) => ErrorView::Io(m@),
            Error::Other(m) => ErrorView::Other(m@),
        }
    }
}

impl ErrorView {
    /// The text shown for the error: the kind of failure, then its message.
    pub open spec fn message(self) -> Seq<char> {
        match self {
            ErrorView::Crypto(m) => "crypto: "@ + m,
            ErrorView::Db(m) => "db: "@ + m,
            ErrorView::NotFound(m) => "not found: "@ + m,
            ErrorView::Unauthorized(m) => "unauthorized: "@ + m,
            ErrorView::Forbidden(m) => "forbidden: "@ + m,
            ErrorView::Invalid(m) => "invalid input: "@ + m,
            ErrorView::Io(m) => "io: "@ + m,
            ErrorView::Other(m) => "other: "@ + m,
        }
    }
}

impl Error {
    /// The text shown for the error.
    pub fn to_string(&self) -> (r: String)
        ensures
            r@ == self@.message(),
    {
        match self {
            Error::Crypto(m) => join2("crypto: ", m.as_str()),
            Error::Db(m) => join2("db: ", m.as_str()),
            Error::NotFound(m) => join2("not found: ", m.as_str()),
            Error::Unauthorized(m) => join2("unauthorized: ", m.as_str()),
            Error::Forbidden(m) => join2("forbidden: ", m.as_str()),
            Error::Invalid(m) => join2("invalid input: ", m.as_str()),
            Error::Io(m) => join2("io: ", m.as_str()),
            Error::Other(m) => join2("other: ", m.as_str()),
        }
    }
}

/// The text of an error says which kind of failure it is, and then its message as it is.
pub proof fn law_text_names_kind_and_message(e: ErrorView)
    ensures
        e matches ErrorView::Crypto(m) ==> e.message() == "crypto: "@ + m,
        e matches ErrorView::Db(m) ==> e.message() == "db: "@ + m,
        e matches ErrorView::NotFound(m) ==> e.message() == "not found: "@ + m,
        e matches ErrorView::Unauthorized(m) ==> e.message() == "unauthorized: "@ + m,
        e matches ErrorView::Forbidden(m) ==> e.message() == "forbidden: "@ + m,
        e matches ErrorView::Invalid(m) ==> e.message() == "invalid input: "@ + m,
        e matches ErrorView::Io(m) ==> e.message() == "io: "@ + m,
        e matches ErrorView::Other(m) ==> e.message() == "other: "@ + m,
{
}

/// An error, taken as a value, is of its own kind and has its own message.
pub proof fn law_error_is_of_its_kind(e: Error)
    ensures
        e matches Error::Crypto(m) ==> e@ == ErrorView::Crypto(m@),
        e matches Error::Db(m) ==> e@ == ErrorView::Db(m@),
        e matches Error::NotFound(m) ==> e@ == ErrorView::NotFound(m@),
        e matches Error::Unauthorized(m) ==> e@ == ErrorView::Unauthorized(m@),
        e matches Error::Forbidden(m) ==> e@ == ErrorView::Forbidden(m@),
        e matches Error::Invalid(m) ==> e@ == ErrorView::Invalid(m@),
        e matches Error::Io(m) ==> e@ == ErrorView::Io(m@),
        e matches Error::Other(m) ==> e@ == ErrorView::Other(m@),
{
}

} // verus!
