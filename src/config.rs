//! Connection settings of the server.
use vstd::prelude::*;

verus! {

/// Where the chain is reached and which key signs.
#[derive(Clone, Debug)]
pub struct Config {
    pub rpc_url: String,
    pub private_key: String,
}

impl Config {
    /// Settings from the two values.
    pub fn new(rpc_url: String, private_key: String) -> (r: Config)
        ensures
            r.rpc_url == rpc_url,
            r.private_key == private_key,
    {
        Config { rpc_url, private_key }
    }
}

} // verus!
