//! The client's connection configuration: an endpoint address and a bearer
//! token, set once at construction and never mutated. The blocking
//! transport around the library reads them to address and authenticate
//! each request.

use vstd::prelude::*;
use vstd::string::StringExecFns;

verus! {

/// A JSON-RPC client's configuration.
pub struct Rpc {
    pub endpoint: String,
    pub token: String,
}

impl Rpc {
    /// A client for an endpoint (a `host:port` string) and a bearer token.
    pub fn new(endpoint: String, token: String) -> (r: Rpc)
        ensures
            r.endpoint@ == endpoint@,
            r.token@ == token@,
    {
        Rpc { endpoint, token }
    }

    /// The URL requests go to: plain HTTP at the configured endpoint.
    pub fn url(&self) -> (r: String)
        ensures
            r@ == "http://"@ + self.endpoint@,
    {
        "http://".to_owned().concat(self.endpoint.as_str())
    }
}

} // verus!
