//! Domain-level error type shared by guests and the runtime.

use vstd::prelude::*;
use vstd::string::StringExecFns;

verus! {

/// Which of the four domain error classes a value belongs to.
#[derive(Debug, Clone, Copy, PartialEq, Eq, Structural)]
pub enum ErrorKind {
    BadRequest,
    NotFound,
    ServerError,
    BadGateway,
}

/// Domain level error type returned by request handlers.
#[derive(Debug, Clone)]
pub enum Error {
    /// Request payload is invalid or missing required fields.
    BadRequest { code: String, description: String },
    /// Resource or data not found.
    NotFound { code: String, description: String },
    /// A non recoverable internal error occurred.
    ServerError { code: String, description: String },
    /// An upstream dependency failed while fulfilling the request.
    BadGateway { code: String, description: String },
}

/// `parts` joined by `sep`, as `[a, b, c].join(sep)` does.
pub open spec fn join_with(parts: Seq<Seq<char>>, sep: Seq<char>) -> Seq<char>
    decreases parts.len(),
{
    if parts.len() == 0 {
        Seq::empty()
    } else if parts.len() == 1 {
        parts[0]
    } else {
        join_with(parts.drop_last(), sep) + sep + parts.last()
    }
}

/// The HTTP status number that belongs to an error class.
pub open spec fn kind_status(kind: ErrorKind) -> u16 {
    match kind {
        ErrorKind::BadRequest => 400,
        ErrorKind::NotFound => 404,
        ErrorKind::ServerError => 500,
        ErrorKind::BadGateway => 502,
    }
}

/// The text an error displays as: `code: {code}, description: {description}`.
pub open spec fn display_text(code: Seq<char>, description: Seq<char>) -> Seq<char> {
    "code: "@ + code + ", description: "@ + description
}

/// Reads a `&str` into an owned `String` with the same characters.
pub fn owned(s: &str) -> (res: String)
    ensures
        res@ == s@,
{
    String::from_str(s)
}

impl Error {
    pub open spec fn kind(&self) -> ErrorKind {
        match self {
            Error::BadRequest { .. } => ErrorKind::BadRequest,
            Error::NotFound { .. } => ErrorKind::NotFound,
            Error::ServerError { .. } => ErrorKind::ServerError,
            Error::BadGateway { .. } => ErrorKind::BadGateway,
        }
    }

    pub open spec fn code_view(&self) -> Seq<char> {
        match self {
            Error::BadRequest { code, .. } => code@,
            Error::NotFound { code, .. } => code@,
            Error::ServerError { code, .. } => code@,
            Error::BadGateway { code, .. } => code@,
        }
    }

    pub open spec fn description_view(&self) -> Seq<char> {
        match self {
            Error::BadRequest { description, .. } => description@,
            Error::NotFound { description, .. } => description@,
            Error::ServerError { description, .. } => description@,
            Error::BadGateway { description, .. } => description@,
        }
    }

    /// An error of the given class with the given code and description.
    pub fn with_kind(kind: ErrorKind, code: String, description: String) -> (res: Error)
        ensures
            res.kind() == kind,
            res.code_view() == code@,
            res.description_view() == description@,
    {
        match kind {
            ErrorKind::BadRequest => Error::BadRequest { code, description },
            ErrorKind::NotFound => Error::NotFound { code, description },
            ErrorKind::ServerError => Error::ServerError { code, description },
            ErrorKind::BadGateway => Error::BadGateway { code, description },
        }
    }

    /// The class of this error.
    pub fn error_kind(&self) -> (res: ErrorKind)
        ensures
            res == self.kind(),
    {
        match self {
            Error::BadRequest { .. } => ErrorKind::BadRequest,
            Error::NotFound { .. } => ErrorKind::NotFound,
            Error::ServerError { .. } => ErrorKind::ServerError,
            Error::BadGateway { .. } => ErrorKind::BadGateway,
        }
    }

    /// Returns the HTTP status code associated with the variant.
    pub fn status(&self) -> (res: u16)
        ensures
            res == kind_status(self.kind()),
    {
        match self {
            Error::BadRequest { .. } => 400,
            Error::NotFound { .. } => 404,
            Error::ServerError { .. } => 500,
            Error::BadGateway { .. } => 502,
        }
    }

    /// Returns the error code for the variant.
    pub fn code(&self) -> (res: String)
        ensures
            res@ == self.code_view(),
    {
        match self {
            Error::BadRequest { code, .. } => code.clone(),
            Error::NotFound { code, .. } => code.clone(),
            Error::ServerError { code, .. } => code.clone(),
            Error::BadGateway { code, .. } => code.clone(),
        }
    }

    /// Returns the error description.
    pub fn description(&self) -> (res: String)
        ensures
            res@ == self.description_view(),
    {
        match self {
            Error::BadRequest { description, .. } => description.clone(),
            Error::NotFound { description, .. } => description.clone(),
            Error::ServerError { description, .. } => description.clone(),
            Error::BadGateway { description, .. } => description.clone(),
        }
    }

    /// The message this error displays as.
    pub fn display(&self) -> (res: String)
        ensures
            res@ == display_text(self.code_view(), self.description_view()),
    {
        let code = self.code();
        let description = self.description();
        let mut out = owned("code: ");
        out.append(code.as_str());
        out.append(", description: ");
        out.append(description.as_str());
        out
    }

    /// `bad_request!`: a bad request error with code `bad_request`.
    pub fn bad_request(description: String) -> (res: Error)
        ensures
            res.kind() == ErrorKind::BadRequest,
            res.code_view() == "bad_request"@,
            res.description_view() == description@,
    {
        Error::BadRequest { code: owned("bad_request"), description }
    }

    /// `server_error!`: a server error with code `server_error`.
    pub fn server_error(description: String) -> (res: Error)
        ensures
            res.kind() == ErrorKind::ServerError,
            res.code_view() == "server_error"@,
            res.description_view() == description@,
    {
        Error::ServerError { code: owned("server_error"), description }
    }

    /// `bad_gateway!`: a bad gateway error with code `bad_gateway`.
    pub fn bad_gateway(description: String) -> (res: Error)
        ensures
            res.kind() == ErrorKind::BadGateway,
            res.code_view() == "bad_gateway"@,
            res.description_view() == description@,
    {
        Error::BadGateway { code: owned("bad_gateway"), description }
    }

    /// The domain error for a JSON (de)serialization failure with the given
    /// message: a bad request with code `serde_json`.
    pub fn from_json_error(message: String) -> (res: Error)
        ensures
            res.kind() == ErrorKind::BadRequest,
            res.code_view() == "serde_json"@,
            res.description_view() == message@,
    {
        Error::BadRequest { code: owned("serde_json"), description: message }
    }

    /// Converts a chain of error messages (outermost first) into a domain
    /// error. When the chain wraps a domain error (`inner`), its class and
    /// code are kept; otherwise the result is a `server_error`. Either way
    /// the description is the whole chain joined by `": "`.
    pub fn from_chain(chain: &Vec<String>, inner: Option<&Error>) -> (res: Error)
        ensures
            res.description_view() == join_with(chain@.map_values(|s: String| s@), ": "@),
            match inner {
                Some(e) => res.kind() == e.kind() && res.code_view() == e.code_view(),
                None => res.kind() == ErrorKind::ServerError && res.code_view()
                    == "server_error"@,
            },
    {
        let description = join(chain, ": ");
        match inner {
            Some(e) => Error::with_kind(e.error_kind(), e.code(), description),
            None => Error::ServerError { code: owned("server_error"), description },
        }
    }
}

/// Joins `parts` with `sep` between consecutive items.
pub fn join(parts: &Vec<String>, sep: &str) -> (res: String)
    ensures
        res@ == join_with(parts@.map_values(|s: String| s@), sep@),
{
    let ghost views = parts@.map_values(|s: String| s@);
    let mut out = String::new();
    let mut i: usize = 0;
    while i < parts.len()
        invariant
            i <= parts.len(),
            views == parts@.map_values(|s: String| s@),
            out@ == join_with(views.take(i as int), sep@),
        decreases parts.len() - i,
    {
        assert(views.take(i + 1).drop_last() =~= views.take(i as int));
        if i > 0 {
            out.append(sep);
        }
        out.append(parts[i].as_str());
        i = i + 1;
    }
    assert(views.take(parts.len() as int) =~= views);
    out
}

/// An HTTP-facing error: a status number and the message to send.
#[derive(Debug, Clone)]
pub struct HttpError {
    pub status: u16,
    pub error: String,
}

impl HttpError {
    /// The HTTP form of a domain error: its status and its displayed text.
    pub fn from_error(e: &Error) -> (res: HttpError)
        ensures
            res.status == kind_status(e.kind()),
            res.error@ == display_text(e.code_view(), e.description_view()),
    {
        HttpError { status: e.status(), error: e.display() }
    }

    /// The HTTP form of an arbitrary error report: `"{report}, caused by:
    /// {root_cause}"`, with the status of the domain error it wraps, or 500.
    pub fn from_report(report: &str, root_cause: &str, inner: Option<&Error>) -> (res: HttpError)
        ensures
            res.error@ == report@ + ", caused by: "@ + root_cause@,
            res.status == match inner {
                Some(e) => kind_status(e.kind()),
                None => 500u16,
            },
    {
        let mut error = owned(report);
        error.append(", caused by: ");
        error.append(root_cause);
        let status = match inner {
            Some(e) => e.status(),
            None => 500,
        };
        HttpError { status, error }
    }
}

} // verus!
