//! The failures that can surface from dispatch and turn-passing.
//!
//! An unknown function name is deliberately *not* an error: the registry
//! reports it as an unresolved call and the caller decides what to do.

use vstd::prelude::*;
use vstd::string::*;

verus! {

/// A failure surfaced to the direct caller of a dispatch or turn-passing
/// entry point.  There is no internal retry.
#[derive(Debug, PartialEq)]
pub enum EngineError {
    /// A function call's arguments do not fit the target function's declared
    /// parameter shape; the payload names the function.  Fatal to that
    /// dispatch.
    SchemaMismatch(String),
    /// The external completion call failed; the payload carries its report.
    /// Fatal: the current conversation aborts and no partial turn is
    /// recorded for it.
    ModelClientFailure(String),
}

impl EngineError {
    /// A short human-readable account of the failure.
    pub fn describe(&self) -> (r: String)
        ensures
            match *self {
                EngineError::SchemaMismatch(name) => r@ == "arguments do not fit the parameters of "@
                    + name@,
                EngineError::ModelClientFailure(report) => r@ == "the model client failed: "@
                    + report@,
            },
    {
        match self {
            EngineError::SchemaMismatch(name) => {
                let mut r = "arguments do not fit the parameters of ".to_owned();
                r.append(name.as_str());
                r
            },
            EngineError::ModelClientFailure(report) => {
                let mut r = "the model client failed: ".to_owned();
                r.append(report.as_str());
                r
            },
        }
    }
}

} // verus!
