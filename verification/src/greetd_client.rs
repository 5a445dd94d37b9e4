//! The greetd IPC protocol as the greeter sees it: the requests it sends,
//! the responses greetd answers with, and what each response means for the
//! login flow. Transport (the length-prefixed JSON stream on
//! `$GREETD_SOCK`) is the caller's business.

use vstd::prelude::*;

verus! {

/// A request to greetd.
#[derive(Clone, Debug)]
pub enum Request {
    /// Start a login attempt for `username`.
    CreateSession { username: String },
    /// Answer the last authentication message.
    PostAuthMessageResponse { response: Option<String> },
    /// Start the logged-in session.
    StartSession { cmd: Vec<String>, env: Vec<String> },
    /// Abort the login attempt.
    CancelSession,
}

/// The kind of a greetd error response.
#[derive(Clone, Copy, PartialEq, Eq, Debug)]
pub enum ErrorType {
    /// A generic error.
    Error,
    /// Authentication failed.
    AuthError,
}

/// The kind of an authentication message.
#[derive(Clone, Copy, PartialEq, Eq, Debug)]
pub enum AuthMessageType {
    /// A question whose answer may be shown while typed.
    Visible,
    /// A question whose answer must be kept secret.
    Secret,
    /// An informational message.
    Info,
    /// An error message.
    Error,
}

/// A response from greetd.
#[derive(Clone, Debug)]
pub enum Response {
    Success,
    Error { error_type: ErrorType, description: String },
    AuthMessage { auth_message_type: AuthMessageType, auth_message: String },
}

/// What the greeter should do next after a request.
#[derive(Clone, Debug)]
pub enum AuthStep {
    /// greetd wants an answer; `secret` says whether input should be masked.
    Prompt { message: String, secret: bool },
    /// A message to show with no answer expected; the caller re-posts an
    /// empty response to continue.
    Info { message: String, is_error: bool },
    /// Authentication succeeded; the session can be started.
    Success,
    /// Authentication failed; greetd has already cancelled the session.
    Failure(String),
}

/// The step a greetd response stands for.
pub open spec fn spec_auth_step(resp: Response) -> AuthStep {
    match resp {
        Response::Success => AuthStep::Success,
        Response::Error { error_type: ErrorType::AuthError, description } => AuthStep::Failure(description),
        Response::Error { error_type: ErrorType::Error, description } => AuthStep::Info {
            message: description,
            is_error: true,
        },
        Response::AuthMessage { auth_message_type, auth_message } => match auth_message_type {
            AuthMessageType::Visible => AuthStep::Prompt { message: auth_message, secret: false },
            AuthMessageType::Secret => AuthStep::Prompt { message: auth_message, secret: true },
            AuthMessageType::Info => AuthStep::Info { message: auth_message, is_error: false },
            AuthMessageType::Error => AuthStep::Info { message: auth_message, is_error: true },
        },
    }
}

impl AuthStep {
    /// Classifies a greetd response into the next step of the login flow.
    pub fn from_response(resp: Response) -> (r: AuthStep)
        ensures
            r == spec_auth_step(resp),
    {
        match resp {
            Response::Success => AuthStep::Success,
            Response::Error { error_type: ErrorType::AuthError, description } => AuthStep::Failure(
                description,
            ),
            Response::Error { error_type: ErrorType::Error, description } => AuthStep::Info {
                message: description,
                is_error: true,
            },
            Response::AuthMessage { auth_message_type, auth_message } => match auth_message_type {
                AuthMessageType::Visible => AuthStep::Prompt { message: auth_message, secret: false },
                AuthMessageType::Secret => AuthStep::Prompt { message: auth_message, secret: true },
                AuthMessageType::Info => AuthStep::Info { message: auth_message, is_error: false },
                AuthMessageType::Error => AuthStep::Info { message: auth_message, is_error: true },
            },
        }
    }
}

/// Only a success response lets the login proceed, only an authentication
/// error ends it, and only a secret question asks for a masked answer.
pub proof fn lemma_response_classification(resp: Response)
    ensures
        spec_auth_step(resp) is Success <==> resp is Success,
        spec_auth_step(resp) is Failure <==> resp matches Response::Error {
            error_type: ErrorType::AuthError,
            ..
        },
        spec_auth_step(resp) matches AuthStep::Prompt { secret: true, .. } <==> resp matches Response::AuthMessage {
            auth_message_type: AuthMessageType::Secret,
            ..
        },
{
}

} // verus!
