use vstd::prelude::*;

verus! {

/// An error carrying a human-readable message.
#[derive(Debug, Clone)]
pub struct AppError {
    pub message: String,
}

impl AppError {
    /// An error with the given message.
    pub fn message(message: &str) -> (r: Self)
        ensures
            r.message@ == message@,
    {
        AppError { message: message.to_owned() }
    }
}

} // verus!
