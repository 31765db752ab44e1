use vstd::prelude::*;

verus! {

/// Error value carried across the library: a readable message and an
/// optional machine-readable code.
#[derive(Debug, Clone)]
pub struct AppError {
    pub message: String,
    pub code: Option<String>,
}

impl AppError {
    /// An error with the given message and no code.
    pub fn new(message: &str) -> (r: AppError)
        ensures
            r.message@ == message@,
            r.code is None,
    {
        AppError { message: String::from_str(message), code: None }
    }

    /// An error that takes ownership of an already built message.
    pub fn from_message(message: String) -> (r: AppError)
        ensures
            r.message == message,
            r.code is None,
    {
        AppError { message, code: None }
    }
}

} // verus!
