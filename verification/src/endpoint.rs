//! The in-memory description of the companion RPC surface.
//!
//! The configuration file that describes the surface is read and parsed by
//! a loader outside this crate; these types hold what it produces as plain
//! values.

use vstd::prelude::*;
use std::collections::HashMap;

verus! {

/// A configured value: the description format allows text or integers.
pub enum State {
    /// A text value.
    Str(String),
    /// An integer value.
    Int(i64),
}

/// A persistent environmental condition created or observed by RPC calls.
pub struct Variable {
    /// The variable's name.
    pub name: String,
    /// The variable's value.
    pub value: State,
}

impl Variable {
    /// A variable holding exactly the given name and value.
    pub fn new(name: String, value: State) -> (r: Variable)
        ensures
            r.name == name,
            r.value == value,
    {
        Variable { name, value }
    }
}

/// One RPC call of the surface: what it reads and what it produces.
pub struct Function {
    /// The variables the call reads.
    pub inputs: Vec<Variable>,
    /// The variables the call produces.
    pub outputs: Vec<Variable>,
}

impl Function {
    /// A call description holding exactly the given inputs and outputs.
    pub fn new(inputs: Vec<Variable>, outputs: Vec<Variable>) -> (r: Function)
        ensures
            r.inputs == inputs,
            r.outputs == outputs,
    {
        Function { inputs, outputs }
    }

    /// Runs a call on the given inputs. The surface defines no computed
    /// outputs, so the result is empty.
    pub fn run(inputs: HashMap<String, State>) -> (r: HashMap<String, String>)
        ensures
            r@ == Map::<String, String>::empty(),
    {
        HashMap::new()
    }
}

/// One endpoint of the surface and all its RPC calls.
pub struct Endpoint {
    /// The namespace the endpoint answers under.
    pub namespace: String,
    /// The address the endpoint is served at.
    pub url: String,
    /// The endpoint's description text.
    pub description: String,
    /// The endpoint's configured values.
    pub states: Vec<State>,
    /// The endpoint's calls, by name.
    pub functions: HashMap<String, Function>,
}

impl Endpoint {
    /// An endpoint holding exactly the given fields and no calls yet.
    pub fn new(namespace: String, url: String, description: String, states: Vec<State>) -> (r:
        Endpoint)
        ensures
            r.namespace == namespace,
            r.url == url,
            r.description == description,
            r.states == states,
            r.functions@ == Map::<String, Function>::empty(),
    {
        Endpoint { namespace, url, description, states, functions: HashMap::new() }
    }
}

/// The root of the surface's configuration.
pub struct Config {
    /// Path to the root description document.
    pub description: String,
    /// The reply headers to serve, by name.
    pub headers: HashMap<String, String>,
    /// The endpoints of the surface.
    pub endpoints: Vec<Endpoint>,
}

impl Config {
    /// A configuration holding exactly the given fields.
    pub fn new(description: String, headers: HashMap<String, String>, endpoints: Vec<Endpoint>)
        -> (r: Config)
        ensures
            r.description == description,
            r.headers == headers,
            r.endpoints == endpoints,
    {
        Config { description, headers, endpoints }
    }
}

} // verus!
