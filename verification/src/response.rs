//! Uniform success and error envelopes. Internal failure detail is kept for
//! the server side; clients see only a status and a message.
use vstd::prelude::*;

verus! {

/// An error's message: full internal detail, or text meant for the client.
#[derive(Debug)]
pub enum Message {
    Internal(String),
    External(String),
}

impl Message {
    /// The text kept server-side: internal detail where there is any, a
    /// fixed notice otherwise.
    pub open spec fn spec_internal(&self) -> Seq<char> {
        match self {
            Message::Internal(err) => err@,
            _ => "An internal error occurred"@,
        }
    }

    /// The text shown to the client: infrastructure detail never crosses
    /// this line, only a fixed generic notice does.
    pub open spec fn spec_external(&self) -> Seq<char> {
        match self {
            Message::External(msg) => msg@,
            Message::Internal(_) => "An internal error occurred"@,
        }
    }

    pub fn to_internal(&self) -> (r: String)
        ensures
            r@ == self.spec_internal(),
    {
        match self {
            Message::Internal(err) => err.clone(),
            _ => "An internal error occurred".to_owned(),
        }
    }

    pub fn to_external(&self) -> (r: String)
        ensures
            r@ == self.spec_external(),
    {
        match self {
            Message::External(msg) => msg.clone(),
            Message::Internal(_) => "An internal error occurred".to_owned(),
        }
    }
}

/// A request-level failure: an HTTP-style status and its message.
#[derive(Debug)]
pub struct AppError {
    pub status: u16,
    pub message: Message,
}

impl AppError {
    /// A client-visible failure with the given status.
    pub fn new(status: u16, message: String) -> (r: Self)
        ensures
            r.status == status,
            r.message == Message::External(message),
    {
        AppError { status, message: Message::External(message) }
    }

    /// An infrastructure failure: the detail stays internal and the status
    /// is a generic server error.
    pub fn internal(error: String) -> (r: Self)
        ensures
            r.status == 500,
            r.message == Message::Internal(error),
    {
        AppError { status: 500, message: Message::Internal(error) }
    }

    /// A client-visible failure with an explicit status.
    pub fn external(message: String, status: u16) -> (r: Self)
        ensures
            r.status == status,
            r.message == Message::External(message),
    {
        AppError { status, message: Message::External(message) }
    }

    /// The envelope sent to the client.
    pub fn to_error_response(&self) -> (r: ErrorResponse)
        ensures
            r.status == self.status,
            r.body@ == self.message.spec_external(),
    {
        ErrorResponse { status: self.status, body: self.message.to_external() }
    }
}

/// A successful response: a status and a body.
#[derive(Debug)]
pub struct SuccessResponse<T> {
    pub status: u16,
    pub body: T,
}

impl<T> SuccessResponse<T> {
    pub fn new(body: T, status: u16) -> (r: Self)
        ensures
            r.status == status,
            r.body == body,
    {
        SuccessResponse { status, body }
    }

    pub fn ok(body: T) -> (r: Self)
        ensures
            r.status == 200,
            r.body == body,
    {
        Self::new(body, 200)
    }

    pub fn created(body: T) -> (r: Self)
        ensures
            r.status == 201,
            r.body == body,
    {
        Self::new(body, 201)
    }

    pub fn no_content(body: T) -> (r: Self)
        ensures
            r.status == 204,
            r.body == body,
    {
        Self::new(body, 204)
    }
}

/// The error envelope sent to the client.
#[derive(Debug)]
pub struct ErrorResponse {
    pub status: u16,
    pub body: String,
}

} // verus!
