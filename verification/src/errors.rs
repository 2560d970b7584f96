//! Error taxonomy: backend failures (transport, decode, structured API
//! errors) and request-level failures (validation, auth, not-found).

use vstd::prelude::*;
use vstd::string::StringExecFns;

verus! {

/// An error whose message may be shown to the user.
#[derive(Clone, Debug)]
pub struct PublicError {
    message: String,
}

impl PublicError {
    /// The message as given to `msg`.
    pub closed spec fn view(&self) -> Seq<char> {
        self.message@
    }

    pub fn msg(msg: &str) -> (r: Self)
        ensures
            r@ == msg@,
    {
        PublicError { message: msg.to_owned() }
    }

    /// The user-facing message text.
    pub fn message(&self) -> (r: &String)
        ensures
            r@ == self@,
    {
        &self.message
    }
}

/// A structured error payload reported by the REST backend.
#[derive(Clone, Debug)]
pub struct ApiError {
    pub message: String,
    pub code: String,
    pub details: Option<String>,
    pub hint: Option<String>,
}

impl ApiError {
    /// A rendering of the error for logs and error pages.
    pub fn describe(&self) -> (r: String)
        ensures
            r@ == "Supabase API error: "@ + self.message@,
    {
        let mut s = String::new();
        s.append("Supabase API error: ");
        s.append(self.message.as_str());
        s
    }
}

/// Why a backend call failed: the transport broke, the response body did not
/// decode, or the backend reported a structured error.
#[derive(Clone, Debug)]
pub enum BackendError {
    Transport(String),
    Decode(String),
    Api(ApiError),
}

/// Why a request-level operation failed.
#[derive(Clone, Debug)]
pub enum AppError {
    Backend(BackendError),
    Validation(String),
    Auth(String),
    NotFound(String),
}

impl AppError {
    /// The message a handler shows inline when re-rendering a page.
    pub fn message(&self) -> (r: String)
        ensures
            (match self {
                AppError::Validation(m) => r@ == m@,
                AppError::Auth(m) => r@ == m@,
                AppError::NotFound(m) => r@ == m@,
                AppError::Backend(_) => true,
            }),
    {
        match self {
            AppError::Validation(m) => m.clone(),
            AppError::Auth(m) => m.clone(),
            AppError::NotFound(m) => m.clone(),
            AppError::Backend(b) => match b {
                BackendError::Transport(m) => m.clone(),
                BackendError::Decode(m) => m.clone(),
                BackendError::Api(e) => e.describe(),
            },
        }
    }
}

} // verus!
