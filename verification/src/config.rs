use vstd::prelude::*;

verus! {

/// Runtime configuration for the chat client: the API key for the
/// completion endpoint, absent until one has been stored.
#[derive(Debug)]
pub struct Config {
    pub api_key: Option<String>,
}

impl Default for Config {
    /// A fresh configuration holds no API key.
    fn default() -> (c: Config)
        ensures
            c.api_key is None,
    {
        Config { api_key: None }
    }
}

} // verus!
