//! The unclassified error: anything a handler does not explicitly expect,
//! answered with HTTP 500 and the raw, unlocalized error text.

use vstd::prelude::*;
use crate::AppResponse;

verus! {

/// An unclassified application error, carried as its message text.
pub struct AppError {
    pub message: String,
}

impl AppError {
    /// The envelope of an unclassified error: HTTP 500, failure, and the
    /// raw error text as the message.
    pub fn into_response(self) -> (r: (u16, AppResponse))
        ensures
            r.0 == 500,
            !r.1.success,
            r.1.message@ == self.message@,
    {
        (500, AppResponse { success: false, message: self.message })
    }
}

} // verus!
