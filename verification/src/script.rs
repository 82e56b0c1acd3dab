//! A prepared script invocation, as plain values.
//!
//! Each protocol operation runs as one atomically applied script against a
//! fixed key set, with positional key and argument parameters.  A prepared
//! call records exactly those keys and arguments, in order; the transport
//! layer turns it into the store client's own invocation object.
use vstd::prelude::*;

verus! {

/// One positional script argument.
#[derive(Debug, PartialEq, Eq)]
pub enum ScriptArg {
    Int(i64),
    Str(String),
}

/// A script call: its keys and its arguments, in positional order.
#[derive(Debug, PartialEq, Eq)]
pub struct ScriptCall {
    pub keys: Vec<String>,
    pub args: Vec<ScriptArg>,
}

} // verus!
