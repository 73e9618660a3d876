//! Pipeline engine of a small command interpreter: it reads a command line
//! into words, turns the words into steps joined by pipes with
//! pipeline-wide redirections, and decides, step by step, what each program
//! reads and where the last step's output goes. Spawning programs, opening
//! files and changing directory are left to the caller.
pub mod token;
pub mod redirection;
pub mod error;
pub mod builtin;
pub mod step;
pub mod pipeline;
pub mod laws;
pub mod input_handler;

pub use builtin::{Builtin, BuiltinCall, BuiltinKind, cd_outcome};
pub use error::ShellError;
pub use input_handler::{ExpansionError, Word, expand, expand_line, matching_entries, wildcard_match};
pub use pipeline::{Action, Pipe, Pipeline};
pub use redirection::{FileTarget, IoTargets, Redirection, RedirectionParseError};
pub use step::{ExternalCommand, Step, StepOutput};
