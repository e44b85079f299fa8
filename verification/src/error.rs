//! The failure taxonomy of the engine.

use vstd::prelude::*;

verus! {

/// Every failure the engine can report. All of them are deterministic
/// functions of the input data; none is transient.
#[derive(Clone, Copy, Debug, PartialEq, Eq, Structural)]
pub enum EngineError {
    /// A hex color string of the wrong length, or with a non-hex character.
    MalformedColor,
    /// A ramp holds no slot from which an anchor color could be resolved.
    MissingBaseColor,
    /// A search was made against an empty candidate pool.
    MatchNotFound,
}

impl EngineError {
    /// A short human-readable description, for callers that print errors.
    pub fn describe(&self) -> (r: &'static str)
        ensures
            r@ == match *self {
                EngineError::MalformedColor => "malformed hex color"@,
                EngineError::MissingBaseColor => "ramp base color not defined"@,
                EngineError::MatchNotFound => "no matching entry"@,
            },
    {
        match self {
            EngineError::MalformedColor => "malformed hex color",
            EngineError::MissingBaseColor => "ramp base color not defined",
            EngineError::MatchNotFound => "no matching entry",
        }
    }
}

} // verus!
