//! Error types for the application layer around the engine, the mapping
//! from engine errors, and the response decisions made for each error: the
//! status class, and the rule that a search box downgrades user-input
//! errors to an empty result set instead of failing.

use vstd::prelude::*;
use vstd::string::StringExecFns;

use crate::DbError;

verus! {

/// Error type for the application.
#[derive(Debug)]
pub enum Error {
    /// An error in the surrounding web framework.
    Actix(String),
    /// A book token that matched no abbreviation.
    BookNotFound(String),
    /// An underlying storage failure, wrapped as an opaque cause string.
    Db(String),
    /// A citation string that failed the parse grammar.
    InvalidReference(String),
    /// A failure while rendering an HTML page.
    Template,
}

/// The message an engine error carries.
pub open spec fn spec_db_message(e: DbError) -> Seq<char> {
    match e {
        DbError::BookNotFound { book } => seq!['\''] + book@ + "' was not found."@,
        DbError::ConnectionPool { cause } => "There was a connection pool error."@,
        DbError::Other { cause } => "There was a database error. Root cause: "@ + cause@
            + "."@,
        DbError::Migration { cause } => "There was a database migration error. Root cause: "@
            + cause@ + "."@,
        DbError::InvalidReference { reference } => seq!['\''] + reference@
            + "' is not a valid Bible reference."@,
    }
}

/// The message an application error carries.
pub open spec fn spec_message(e: Error) -> Seq<char> {
    match e {
        Error::Actix(cause) => "There was an error with Actix. Cause: "@ + cause@,
        Error::BookNotFound(book) => seq!['\''] + book@ + "' was not found."@,
        Error::Db(cause) => "There was a database error. Root cause: "@ + cause@,
        Error::InvalidReference(reference) => reference@ + " is not a valid Bible reference."@,
        Error::Template => "There was an error rendering the HTML page."@,
    }
}

impl DbError {
    /// Renders the error's message.
    pub fn message(&self) -> (r: String)
        ensures
            r@ == spec_db_message(*self),
    {
        match self {
            DbError::BookNotFound { book } => {
                let mut s = String::new();
                s.append("'");
                s.append(book.as_str());
                s.append("' was not found.");
                proof {
                    reveal_strlit("'");
                    assert(s@ =~= spec_db_message(*self));
                }
                s
            }
            DbError::ConnectionPool { cause } => {
                String::from_str("There was a connection pool error.")
            }
            DbError::Other { cause } => {
                let mut s = String::from_str("There was a database error. Root cause: ");
                s.append(cause.as_str());
                s.append(".");
                s
            }
            DbError::Migration { cause } => {
                let mut s = String::from_str(
                    "There was a database migration error. Root cause: ",
                );
                s.append(cause.as_str());
                s.append(".");
                s
            }
            DbError::InvalidReference { reference } => {
                let mut s = String::new();
                s.append("'");
                s.append(reference.as_str());
                s.append("' is not a valid Bible reference.");
                proof {
                    reveal_strlit("'");
                    assert(s@ =~= spec_db_message(*self));
                }
                s
            }
        }
    }
}

impl Error {
    /// Renders the error's message.
    pub fn message(&self) -> (r: String)
        ensures
            r@ == spec_message(*self),
    {
        match self {
            Error::Actix(cause) => {
                let mut s = String::from_str("There was an error with Actix. Cause: ");
                s.append(cause.as_str());
                s
            }
            Error::BookNotFound(book) => {
                let mut s = String::new();
                s.append("'");
                s.append(book.as_str());
                s.append("' was not found.");
                proof {
                    reveal_strlit("'");
                    assert(s@ =~= spec_message(*self));
                }
                s
            }
            Error::Db(cause) => {
                let mut s = String::from_str("There was a database error. Root cause: ");
                s.append(cause.as_str());
                s
            }
            Error::InvalidReference(reference) => {
                let mut s = String::new();
                s.append(reference.as_str());
                s.append(" is not a valid Bible reference.");
                s
            }
            Error::Template => String::from_str("There was an error rendering the HTML page."),
        }
    }
}

/// The mapping from an engine error to an application error: user-input
/// errors keep their payload, everything else collapses to an opaque
/// storage error.
pub open spec fn spec_from_db(f: DbError) -> Error {
    match f {
        DbError::InvalidReference { reference } => Error::InvalidReference(reference),
        DbError::BookNotFound { book } => Error::BookNotFound(book),
        DbError::Migration { cause } => Error::Db(cause),
        DbError::Other { cause } => Error::Db(cause),
        DbError::ConnectionPool { cause } => Error::Db(cause),
    }
}

impl From<DbError> for Error {
    fn from(f: DbError) -> (r: Error) {
        match f {
            DbError::InvalidReference { reference } => Error::InvalidReference(reference),
            DbError::BookNotFound { book } => Error::BookNotFound(book),
            DbError::Migration { cause } => Error::Db(cause),
            DbError::Other { cause } => Error::Db(cause),
            DbError::ConnectionPool { cause } => Error::Db(cause),
        }
    }
}

impl vstd::std_specs::convert::FromSpecImpl<DbError> for Error {
    open spec fn obeys_from_spec() -> bool {
        true
    }

    open spec fn from_spec(f: DbError) -> Error {
        spec_from_db(f)
    }
}

/// An error to present as JSON.
#[derive(Debug)]
pub struct JsonError(pub Error);

impl From<Error> for JsonError {
    fn from(f: Error) -> (r: JsonError) {
        JsonError(f)
    }
}

impl vstd::std_specs::convert::FromSpecImpl<Error> for JsonError {
    open spec fn obeys_from_spec() -> bool {
        true
    }

    open spec fn from_spec(f: Error) -> JsonError {
        JsonError(f)
    }
}

/// An error to present as HTML.
#[derive(Debug)]
pub struct HtmlError(pub Error);

impl From<Error> for HtmlError {
    fn from(f: Error) -> (r: HtmlError) {
        HtmlError(f)
    }
}

impl vstd::std_specs::convert::FromSpecImpl<Error> for HtmlError {
    open spec fn obeys_from_spec() -> bool {
        true
    }

    open spec fn from_spec(f: Error) -> HtmlError {
        HtmlError(f)
    }
}

/// What an error response consists of: a status class, and whether the body
/// is the error message or an empty search result set.
#[derive(Clone, Copy, Debug, PartialEq, Eq, Structural)]
pub enum ResponseKind {
    /// Status 200 with an empty search result set.
    OkEmptySearch,
    /// Status 400 with the error message.
    BadRequest,
    /// Status 404.
    NotFound,
    /// Status 500 with the error message.
    InternalServerError,
}

impl JsonError {
    /// The response decision for a JSON error: user-input errors answer
    /// with 4xx-equivalents, faults with 500 — except that a book token
    /// that matched nothing yields an empty search result set, not an
    /// error.
    pub fn response_kind(&self) -> (r: ResponseKind)
        ensures
            r == match self.0 {
                Error::Actix(_) => ResponseKind::InternalServerError,
                Error::Template => ResponseKind::InternalServerError,
                Error::Db(_) => ResponseKind::InternalServerError,
                Error::BookNotFound(_) => ResponseKind::OkEmptySearch,
                Error::InvalidReference(_) => ResponseKind::BadRequest,
            },
    {
        match &self.0 {
            Error::Actix(_) => ResponseKind::InternalServerError,
            Error::Template => ResponseKind::InternalServerError,
            Error::Db(_) => ResponseKind::InternalServerError,
            Error::BookNotFound(_) => ResponseKind::OkEmptySearch,
            Error::InvalidReference(_) => ResponseKind::BadRequest,
        }
    }
}

impl HtmlError {
    /// The response decision for an HTML error: a missing book is a 404, a
    /// malformed citation a 400, everything else a 500.
    pub fn response_kind(&self) -> (r: ResponseKind)
        ensures
            r == match self.0 {
                Error::Actix(_) => ResponseKind::InternalServerError,
                Error::Db(_) => ResponseKind::InternalServerError,
                Error::Template => ResponseKind::InternalServerError,
                Error::BookNotFound(_) => ResponseKind::NotFound,
                Error::InvalidReference(_) => ResponseKind::BadRequest,
            },
    {
        match &self.0 {
            Error::Actix(_) => ResponseKind::InternalServerError,
            Error::Db(_) => ResponseKind::InternalServerError,
            Error::Template => ResponseKind::InternalServerError,
            Error::BookNotFound(_) => ResponseKind::NotFound,
            Error::InvalidReference(_) => ResponseKind::BadRequest,
        }
    }
}

} // verus!
