//! The error type shared by the whole crate, and the problem payload that
//! services return to their clients.

use vstd::prelude::*;
use vstd::string::StringExecFns;

verus! {

/// An application error: a message that travels to the connection
/// boundary, where its class decides the status of the answer.
#[derive(Debug)]
pub enum EmberError {
    /// A failure of a handler or of the service itself.
    Message { message: String },
    /// A request argument that is missing or cannot be read.
    Binding { message: String },
}

/// The classes of application errors.
#[derive(Debug, Clone, Copy, PartialEq, Eq, Structural)]
pub enum ErrorKind {
    /// A failure of a handler or of the service: answered 500.
    Failure,
    /// A fault of the request: answered 400.
    Binding,
}

/// An error as plain values: its class and its message.
pub struct ErrorView {
    pub kind: ErrorKind,
    pub message: Seq<char>,
}

/// The status that answers an error of this class.
pub open spec fn status_of(kind: ErrorKind) -> u16 {
    match kind {
        ErrorKind::Failure => 500,
        ErrorKind::Binding => 400,
    }
}

impl View for EmberError {
    type V = Seq<char>;

    /// The message text.
    open spec fn view(&self) -> Seq<char> {
        match self {
            EmberError::Message { message } => message@,
            EmberError::Binding { message } => message@,
        }
    }
}

impl EmberError {
    /// The class of the error.
    pub open spec fn kind(&self) -> ErrorKind {
        match self {
            EmberError::Message { .. } => ErrorKind::Failure,
            EmberError::Binding { .. } => ErrorKind::Binding,
        }
    }

    /// The error with its class.
    pub open spec fn classed(&self) -> ErrorView {
        ErrorView { kind: self.kind(), message: self@ }
    }

    /// A failure that carries `message`.
    pub fn msg(message: &str) -> (e: EmberError)
        ensures
            e@ == message@,
            e.kind() == ErrorKind::Failure,
    {
        EmberError::Message { message: message.to_owned() }
    }

    /// A failure whose message is `context` followed by `detail`.
    pub fn with_detail(context: &str, detail: &str) -> (e: EmberError)
        ensures
            e@ == context@ + detail@,
            e.kind() == ErrorKind::Failure,
    {
        let mut message = context.to_owned();
        message.append(detail);
        EmberError::Message { message }
    }

    /// A binding error that carries `message`.
    pub fn binding(message: &str) -> (e: EmberError)
        ensures
            e@ == message@,
            e.kind() == ErrorKind::Binding,
    {
        EmberError::Binding { message: message.to_owned() }
    }

    /// A binding error whose message is `context` followed by `detail`.
    pub fn binding_with_detail(context: &str, detail: &str) -> (e: EmberError)
        ensures
            e@ == context@ + detail@,
            e.kind() == ErrorKind::Binding,
    {
        let mut message = context.to_owned();
        message.append(detail);
        EmberError::Binding { message }
    }

    /// The class of the error.
    pub fn class(&self) -> (k: ErrorKind)
        ensures
            k == self.kind(),
    {
        match self {
            EmberError::Message { .. } => ErrorKind::Failure,
            EmberError::Binding { .. } => ErrorKind::Binding,
        }
    }

    /// The status that answers the error: 400 for a binding error, 500
    /// for a failure.
    pub fn status(&self) -> (s: u16)
        ensures
            s == status_of(self.kind()),
    {
        match self {
            EmberError::Message { .. } => 500,
            EmberError::Binding { .. } => 400,
        }
    }

    /// The message text, as the error is displayed.
    pub fn to_string(&self) -> (s: String)
        ensures
            s@ == self@,
    {
        match self {
            EmberError::Message { message } => message.clone(),
            EmberError::Binding { message } => message.clone(),
        }
    }
}

/// A JSON error payload in the style of RFC 7807 problem details.
#[derive(Debug)]
pub struct ProblemDetails {
    /// A URI reference that identifies the problem type.
    pub type_: String,
    /// A short summary of the problem type.
    pub title: String,
    /// The HTTP status code of this occurrence.
    pub status: u16,
    /// An explanation specific to this occurrence.
    pub detail: String,
    /// A URI reference that identifies this occurrence.
    pub instance: String,
}

/// What a [`ProblemDetails`] holds, as plain values.
pub struct ProblemDetailsView {
    pub type_: Seq<char>,
    pub title: Seq<char>,
    pub status: u16,
    pub detail: Seq<char>,
    pub instance: Seq<char>,
}

impl View for ProblemDetails {
    type V = ProblemDetailsView;

    open spec fn view(&self) -> ProblemDetailsView {
        ProblemDetailsView {
            type_: self.type_@,
            title: self.title@,
            status: self.status,
            detail: self.detail@,
            instance: self.instance@,
        }
    }
}

impl ProblemDetails {
    /// A payload with exactly the given members.
    pub fn new(type_: &str, title: &str, status: u16, detail: &str, instance: &str) -> (p: Self)
        ensures
            p@ == (ProblemDetailsView {
                type_: type_@,
                title: title@,
                status,
                detail: detail@,
                instance: instance@,
            }),
    {
        ProblemDetails {
            type_: type_.to_owned(),
            title: title.to_owned(),
            status,
            detail: detail.to_owned(),
            instance: instance.to_owned(),
        }
    }

    /// The payload of a 404 answer.
    pub fn not_found(detail: &str) -> (p: Self)
        ensures
            p@ == (ProblemDetailsView {
                type_: "about:blank"@,
                title: "Not Found"@,
                status: 404,
                detail: detail@,
                instance: "urn:ember:problem:not-found"@,
            }),
    {
        Self::new("about:blank", "Not Found", 404, detail, "urn:ember:problem:not-found")
    }

    /// The payload of a 500 answer.
    pub fn internal_error(detail: &str) -> (p: Self)
        ensures
            p@ == (ProblemDetailsView {
                type_: "about:blank"@,
                title: "Internal Server Error"@,
                status: 500,
                detail: detail@,
                instance: "urn:ember:problem:internal-error"@,
            }),
    {
        Self::new(
            "about:blank",
            "Internal Server Error",
            500,
            detail,
            "urn:ember:problem:internal-error",
        )
    }
}

} // verus!
