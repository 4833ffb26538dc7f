//! Bot-level configuration values. Reading the file and deserializing it are
//! the host program's concern; the checks the loader must enforce live here.

pub mod secret;

use vstd::prelude::*;

verus! {

/// Top-level configuration: the chat token and the application identity.
pub struct Config {
    pub discord_token: Option<String>,
    pub application_id: u64,
}

impl Config {
    /// The loader accepts a configuration only when a token is present.
    pub fn has_token(&self) -> (r: bool)
        ensures
            r == (self.discord_token is Some),
    {
        self.discord_token.is_some()
    }
}

} // verus!
