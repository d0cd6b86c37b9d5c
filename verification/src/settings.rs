//! What the service is set up with.

use vstd::prelude::*;

verus! {

#[derive(Debug, PartialEq, Eq)]
pub struct Settings {
    /// The token that every request of the platform carries.
    pub verification_token: String,
    /// The token under which the service calls the platform.
    pub api_token: String,
    /// Where the entries are kept.
    pub data_path: String,
}

} // verus!
