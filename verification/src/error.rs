//! The error type of the library.

use vstd::prelude::*;

verus! {

/// What went wrong.
pub enum AppError {
    /// A failure described by a message.
    General(String),
    /// A Bilibili API call answered with an error `code` (0 where the answer
    /// had an unexpected shape).
    BiliApi { operation: String, code: i64, message: String },
}

impl AppError {
    /// The error of a Bilibili API operation.
    pub fn bili_api(operation: &str, code: i64, message: String) -> (r: Self)
        ensures
            r matches AppError::BiliApi { operation: o, code: c, message: m } && o@ == operation@
                && c == code && m@ == message@,
    {
        AppError::BiliApi { operation: operation.to_string(), code, message }
    }

    /// The numeric code and the message of the error: the API's code for a
    /// Bilibili API error, -1 for any other.
    pub fn code_and_message(&self) -> (r: (i64, String))
        ensures
            self matches AppError::BiliApi { code, message, .. } ==> r.0 == code && r.1@
                == message@,
            self matches AppError::General(m) ==> r.0 == -1 && r.1@ == m@,
    {
        match self {
            AppError::General(m) => (-1, m.clone()),
            AppError::BiliApi { code, message, .. } => (*code, message.clone()),
        }
    }
}

} // verus!
