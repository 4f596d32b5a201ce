//! What every handler shares: the upstream origin and the server's state.

use vstd::prelude::*;
use vstd::string::StringExecFns;

verus! {

/// The upstream origin (scheme and host, no path) that unmatched requests
/// are forwarded to unless the context names another.
pub const PROXY_URL: &'static str = "https://httpbin.org";

/// The server's state value.
#[derive(Clone, Copy, Debug, PartialEq, Eq)]
pub struct State(pub u64);

/// The context handed to every handler by reference. Nothing in it changes
/// after construction, so any number of requests may read it at once.
#[derive(Clone, Debug, PartialEq, Eq)]
pub struct Env {
    /// The origin that forwarded requests are sent to.
    pub origin: String,
    pub state: State,
}

impl Env {
    /// The context the server starts with: the default origin and state 100.
    pub fn new() -> (env: Env)
        ensures
            env.origin@ == PROXY_URL@,
            env.state.0 == 100,
    {
        Env { origin: String::from_str(PROXY_URL), state: State(100) }
    }
}

} // verus!
