//! Deployment configuration: the external base URL and, optionally, the
//! identity bridge's settings.

use vstd::prelude::*;

verus! {

/// Settings of the external bridge agent.
pub struct DiscordConfig {
    /// The agent's own credential for its chat platform.
    pub token: String,
    /// Only members of these guilds may request login tokens.
    pub allowed_guilds: Vec<u64>,
}

/// The deployment's configuration.
pub struct Config {
    /// The externally visible base URL; always ends with a slash.
    pub base_url: String,
    pub discord: Option<DiscordConfig>,
}

/// A base URL is well formed when it ends with a slash.
pub open spec fn base_url_ok(url: Seq<char>) -> bool {
    url.len() > 0 && url[url.len() - 1] == '/'
}

impl Config {
    /// Accepts a configuration only when the base URL carries its
    /// trailing slash.
    pub fn new(base_url: String, discord: Option<DiscordConfig>) -> (r: Result<Config, ()>)
        ensures
            match r {
                Ok(c) => base_url_ok(base_url@) && c.base_url@ == base_url@ && (c.discord is Some
                    <==> discord is Some),
                Err(_) => !base_url_ok(base_url@),
            },
    {
        let len = base_url.as_str().unicode_len();
        if len == 0 || base_url.as_str().get_char(len - 1) != '/' {
            return Err(());
        }
        Ok(Config { base_url, discord })
    }
}

} // verus!
