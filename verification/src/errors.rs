//! The transcription server's errors and the bodies they are answered
//! with.

use vstd::prelude::*;
use vstd::string::*;

verus! {

/// The HTTP status every failure of the server is answered with.
pub const INTERNAL_SERVER_ERROR: u16 = 500;

/// A failed request: the HTTP status to answer with and a message for the
/// caller.
#[derive(Debug)]
pub struct AppErr {
    pub code: u16,
    pub msg: String,
}

/// The JSON body of an error answer.
#[derive(Clone, Debug)]
pub struct ResponseErr {
    pub msg: String,
}

impl AppErr {
    /// An error with status `code` and message `msg`.
    pub fn new(code: u16, msg: String) -> (e: AppErr)
        ensures
            e.code == code,
            e.msg@ == msg@,
    {
        AppErr { code, msg }
    }

    /// The status and the body that the error is answered with.
    pub fn into_parts(self) -> (parts: (u16, ResponseErr))
        ensures
            parts.0 == self.code,
            parts.1.msg@ == self.msg@,
    {
        (self.code, ResponseErr { msg: self.msg })
    }
}

/// An internal server error with the message `msg`.
pub fn internal_error(msg: &str) -> (e: AppErr)
    ensures
        e.code == INTERNAL_SERVER_ERROR,
        e.msg@ == msg@,
{
    AppErr::new(INTERNAL_SERVER_ERROR, String::from_str(msg))
}

} // verus!
