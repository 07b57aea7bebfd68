//! The RPC envelope carried by the companion endpoint server.
//!
//! The envelope encoder and decoder of the RPC layer, and the HTTP server
//! around them, are collaborators outside this crate: here the envelope is
//! plain data — a method name and its parameters — exchanged with them.

use vstd::prelude::*;

verus! {

/// One RPC envelope: a method and its parameters.
pub struct Soap {
    /// The method called.
    pub method: String,
    /// The parameters handed to the method, in order.
    pub parameters: Vec<String>,
}

impl Soap {
    /// An envelope holding exactly the given method and parameters.
    pub fn new(method: String, parameters: Vec<String>) -> (r: Soap)
        ensures
            r.method == method,
            r.parameters == parameters,
    {
        Soap { method, parameters }
    }

    /// The reply body for this envelope; the surface defines no computed
    /// replies, so the body is empty.
    pub fn generate(self) -> (r: String)
        ensures
            r@ == Seq::<char>::empty(),
    {
        String::new()
    }
}

} // verus!
