//! Credential configuration: the chat token and the store endpoints for the
//! production and development environments. Loading is the host program's
//! concern; the validity check lives here.

use vstd::prelude::*;

verus! {

/// Credentials and endpoints, one set per environment.
pub struct Config {
    pub discord_token: String,
    pub aws_endpoint: String,
    pub aws_region: String,
    pub aws_access: String,
    pub aws_secret: String,
    pub aws_endpoint_dev: String,
    pub aws_region_dev: String,
    pub aws_access_dev: String,
    pub aws_secret_dev: String,
}

impl Config {
    /// The loader accepts a configuration only when the token is non-empty.
    pub fn token_present(&self) -> (r: bool)
        ensures
            r == (self.discord_token@.len() > 0),
    {
        !self.discord_token.as_str().is_empty()
    }
}

} // verus!
