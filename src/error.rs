//! Errors that the engine reports; all of them are malformed input.
use vstd::prelude::*;

verus! {

#[derive(Debug, Clone, Copy, PartialEq, Eq, Structural)]
pub enum ShellError {
    /// A step with no words: nothing to run, or nothing between two pipes.
    EmptyStep,
    /// A redirection operator with no target after it.
    EmptyRedirection,
    /// A pipeline with no steps was started.
    NoSteps,
    /// A builtin was asked for by a name that no builtin has.
    UnknownBuiltin,
}

} // verus!
