use vstd::prelude::*;
use vstd::string::StringExecFns;

verus! {

/// Status reported for a request that is refused for what it asks.
pub const BAD_REQUEST: u16 = 400;

/// Status reported for a request that names something unknown.
pub const NOT_FOUND: u16 = 404;

/// Status reported when the system itself failed.
pub const INTERNAL_SERVER_ERROR: u16 = 500;

/// The body sent to a client with an error status.
#[derive(Debug)]
pub struct ErrorMessage {
    pub message: String,
}

/// Every failure is either the user's (a bad or unknown request) or the system's.
#[derive(Debug)]
pub enum AppError {
    UserError { message: String, code: u16 },
    SystemError { message: String, code: u16 },
}

impl AppError {
    /// The text that describes the failure.
    pub open spec fn message(self) -> Seq<char> {
        match self {
            AppError::UserError { message, .. } => message@,
            AppError::SystemError { message, .. } => message@,
        }
    }

    /// The status code that goes with the failure.
    pub open spec fn status(self) -> u16 {
        match self {
            AppError::UserError { code, .. } => code,
            AppError::SystemError { code, .. } => code,
        }
    }

    /// A refused request: user error with status 400.
    pub open spec fn is_user_error(self, message: Seq<char>) -> bool {
        self is UserError && self.message() == message && self.status() == BAD_REQUEST
    }

    /// An unknown entity: user error with status 404.
    pub open spec fn is_not_found(self, message: Seq<char>) -> bool {
        self is UserError && self.message() == message && self.status() == NOT_FOUND
    }

    /// A failure of the system: system error with status 500.
    pub open spec fn is_system_error(self, message: Seq<char>) -> bool {
        self is SystemError && self.message() == message && self.status() == INTERNAL_SERVER_ERROR
    }

    pub fn user_error(message: &str) -> (error: Self)
        ensures
            error.is_user_error(message@),
    {
        AppError::UserError { message: String::from_str(message), code: BAD_REQUEST }
    }

    pub fn not_found(message: &str) -> (error: Self)
        ensures
            error.is_not_found(message@),
    {
        AppError::UserError { message: String::from_str(message), code: NOT_FOUND }
    }

    pub fn system_error(message: &str) -> (error: Self)
        ensures
            error.is_system_error(message@),
    {
        AppError::SystemError { message: String::from_str(message), code: INTERNAL_SERVER_ERROR }
    }

    pub fn code(&self) -> (code: u16)
        ensures
            code == self.status(),
    {
        match self {
            AppError::UserError { message: _, code } => *code,
            AppError::SystemError { message: _, code } => *code,
        }
    }

    /// The failure as one line of text: its kind in brackets, then its message.
    pub open spec fn text(self) -> Seq<char> {
        match self {
            AppError::UserError { message, .. } => "[UserError] "@ + message@,
            AppError::SystemError { message, .. } => "[SystemError] "@ + message@,
        }
    }

    pub fn to_string(&self) -> (text: String)
        ensures
            text@ == self.text(),
    {
        match self {
            AppError::UserError { message, code: _ } => {
                String::from_str("[UserError] ").concat(message.as_str())
            },
            AppError::SystemError { message, code: _ } => {
                String::from_str("[SystemError] ").concat(message.as_str())
            },
        }
    }

    /// The body to send to a client for this failure.
    pub fn to_error_message(&self) -> (body: ErrorMessage)
        ensures
            body.message@ == self.message(),
    {
        match self {
            AppError::UserError { message, code: _ } => ErrorMessage { message: message.clone() },
            AppError::SystemError { message, code: _ } => ErrorMessage { message: message.clone() },
        }
    }
}

} // verus!
