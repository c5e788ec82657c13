//! The errors of the library.

use vstd::prelude::*;
use vstd::string::StringExecFns;

verus! {

/// `std::io::Error`, of which the verifier sees nothing but its kind.
#[verifier::external_type_specification]
#[verifier::external_body]
pub struct ExIoError(std::io::Error);

/// `std::io::ErrorKind`, with its variants.
#[verifier::external_type_specification]
pub struct ExIoErrorKind(std::io::ErrorKind);

/// The kind of an I/O error: what `std::io::Error::kind` returns for it.
/// Nothing is proved of it; the two functions below are believed to agree
/// with it.
pub uninterp spec fn io_error_kind(e: std::io::Error) -> std::io::ErrorKind;

/// Calls `std::io::Error::from` on a kind. Believed, not proved: the error
/// that comes back is of that kind.
#[verifier::external_body]
pub(crate) fn io_error(kind: std::io::ErrorKind) -> (e: std::io::Error)
    ensures
        io_error_kind(e) == kind,
{
    std::io::Error::from(kind)
}

/// Calls `std::io::Error::kind`. Believed, not proved: it returns the kind
/// that the error has.
#[verifier::external_body]
pub(crate) fn kind_of(e: &std::io::Error) -> (kind: std::io::ErrorKind)
    ensures
        kind == io_error_kind(*e),
{
    e.kind()
}

/// Calls `to_string` on an `std::io::Error`: the text that std prints for it.
/// Nothing is claimed of that text.
#[verifier::external_body]
fn io_error_text(e: &std::io::Error) -> (text: String) {
    e.to_string()
}

/// What can go wrong in a conversation with a service.
#[derive(Debug)]
pub enum Error {
    /// The service answered, and its verdict is no success.
    Result(ResultError),
    /// The connection failed, or what came over it cannot be read.
    Io(std::io::Error),
}

/// A verdict of a service that is no success: its code, and the text that came with it.
#[derive(Debug)]
pub struct ResultError {
    pub code: u32,
    pub msg: String,
}

/// An error that is nothing but a text.
#[derive(Debug)]
pub struct MsgError {
    pub msg: String,
}

pub type Result<T> = std::result::Result<T, Error>;

impl MsgError {
    pub fn new(msg: String) -> (e: Self)
        ensures
            e.msg == msg,
    {
        Self { msg }
    }

    /// The text of the error.
    pub fn message(&self) -> (m: String)
        ensures
            m@ == self.msg@,
    {
        self.msg.clone()
    }
}

impl ResultError {
    pub fn new(code: u32, msg: String) -> (e: Self)
        ensures
            e.code == code,
            e.msg == msg,
    {
        Self { code, msg }
    }

    /// The text that came with the code.
    pub fn message(&self) -> (m: String)
        ensures
            m@ == self.msg@,
    {
        self.msg.clone()
    }
}

/// What the text of an error begins with where the service's verdict is no success.
pub open spec fn spec_result_prefix() -> Seq<char> {
    "unsuccessful result: "@
}

/// What the text of an error begins with where the connection failed.
pub open spec fn spec_io_prefix() -> Seq<char> {
    "I/O error: "@
}

impl Error {
    /// The text of the error: for a verdict of the service, that it is an
    /// unsuccessful result, and the text that came with the code; for an
    /// I/O error, that it is one, and what std says of it.
    pub fn message(&self) -> (text: String)
        ensures
            match self {
                Error::Result(e) => text@ == spec_result_prefix() + e.msg@,
                Error::Io(_) => spec_io_prefix().is_prefix_of(text@),
            },
    {
        match self {
            Error::Result(e) => {
                let mut text: String = String::from_str("unsuccessful result: ");
                text.append(e.msg.as_str());
                text
            },
            Error::Io(e) => {
                let mut text: String = String::from_str("I/O error: ");
                let detail: String = io_error_text(e);
                text.append(detail.as_str());
                assert(text@.subrange(0, spec_io_prefix().len() as int) =~= spec_io_prefix());
                text
            },
        }
    }

    /// The kind of I/O error that this is, if it is one.
    pub open spec fn spec_io_kind(&self) -> Option<std::io::ErrorKind> {
        match self {
            Error::Io(e) => Some(io_error_kind(*e)),
            Error::Result(_) => None,
        }
    }

    /// The kind of I/O error that this is, if it is one.
    #[verifier::when_used_as_spec(spec_io_kind)]
    pub fn io_kind(&self) -> (kind: Option<std::io::ErrorKind>)
        ensures
            kind == self.spec_io_kind(),
    {
        match self {
            Error::Io(e) => Some(kind_of(e)),
            Error::Result(_) => None,
        }
    }
}

impl From<std::io::Error> for Error {
    fn from(e: std::io::Error) -> (r: Self)
        ensures
            r == Error::Io(e),
    {
        Error::Io(e)
    }
}

impl vstd::std_specs::convert::FromSpecImpl<std::io::Error> for Error {
    open spec fn obeys_from_spec() -> bool {
        true
    }

    open spec fn from_spec(e: std::io::Error) -> Self {
        Error::Io(e)
    }
}

impl From<ResultError> for Error {
    fn from(e: ResultError) -> (r: Self)
        ensures
            r == Error::Result(e),
    {
        Error::Result(e)
    }
}

impl vstd::std_specs::convert::FromSpecImpl<ResultError> for Error {
    open spec fn obeys_from_spec() -> bool {
        true
    }

    open spec fn from_spec(e: ResultError) -> Self {
        Error::Result(e)
    }
}

} // verus!
