//! How an API call is refused.

use vstd::prelude::*;
use vstd::string::*;

verus! {

/// What an API call is refused with.
#[derive(Debug)]
pub struct ApiError {
    pub status: u16,
    pub message: String,
}

impl ApiError {
    /// Whether this is a refusal with a status and a message.
    pub open spec fn says(self, status: u16, message: Seq<char>) -> bool {
        self.status == status && self.message@ == message
    }
}

} // verus!
