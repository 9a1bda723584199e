//! The client's reading of a poll response status.

use vstd::prelude::*;
use crate::text::str_eq;

verus! {

/// A poll response as the client sees it: just the status word.
#[derive(Debug)]
pub struct Status {
    pub status: String,
}

impl Status {
    /// Polling goes on while the server is still pending or timed out.
    pub fn should_repeat(&self) -> (r: bool)
        ensures
            r == (self.status@ == "pending"@ || self.status@ == "timeout"@),
    {
        str_eq(self.status.as_str(), "pending") || str_eq(self.status.as_str(), "timeout")
    }
}

} // verus!
